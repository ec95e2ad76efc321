//! The sampler, the line generators and the integrator, driven directly.

use quadplot::adapter::parse_function;
use quadplot::area::integrate;
use quadplot::fixed::SCALE;
use quadplot::lines::{bound_line, zero_line};
use quadplot::sample::{sample, IntegrationBounds, PlotWindow, SampleSet};

fn chars(s: &str) -> Vec<char> {
    s.chars().collect()
}

fn default_window() -> PlotWindow {
    PlotWindow { x_min: -5 * SCALE, x_max: 5 * SCALE, y_min: -10 * SCALE, y_max: 10 * SCALE }
}

#[test]
fn sampler_walks_the_window_at_the_step() {
    let f = parse_function(&chars("x")).unwrap();
    let w = default_window();
    let b = IntegrationBounds { lower: 0, upper: 2 * SCALE };
    let s = sample(&f, &w, &b, 1000);
    // ceil((5 - (-5)) / 0.001) samples, every x inside [x_min, x_max).
    assert_eq!(s.points.len(), 10_000);
    assert_eq!(s.points[0].0, -5 * SCALE);
    assert_eq!(s.points[9_999].0, 5 * SCALE - 1000);
    for &(x, _) in &s.points {
        assert!(-5 * SCALE <= x && x < 5 * SCALE);
    }
    assert_eq!(s.lower_index, Some(5_000));
    assert_eq!(s.upper_index, Some(7_000));
}

#[test]
fn sampler_count_rounds_up() {
    let f = parse_function(&chars("x")).unwrap();
    let w = PlotWindow { x_min: 0, x_max: 2_500, y_min: -SCALE, y_max: SCALE };
    let b = IntegrationBounds { lower: 0, upper: 0 };
    let s = sample(&f, &w, &b, 1000);
    assert_eq!(s.points.len(), 3);
}

#[test]
fn sampler_leaves_out_of_window_bounds_unset() {
    let f = parse_function(&chars("x")).unwrap();
    let w = default_window();
    let b = IntegrationBounds { lower: 7 * SCALE, upper: 9 * SCALE };
    let s = sample(&f, &w, &b, 1000);
    assert_eq!(s.lower_index, None);
    assert_eq!(s.upper_index, None);
    assert!(integrate(&s).is_err());
}

#[test]
fn evaluation_reaches_the_outside_evaluator() {
    let f = parse_function(&chars("x*x")).unwrap();
    let w = PlotWindow { x_min: 0, x_max: 5 * SCALE, y_min: -10 * SCALE, y_max: 30 * SCALE };
    let b = IntegrationBounds { lower: 0, upper: 0 };
    let s = sample(&f, &w, &b, SCALE);
    // x = 0, 1, 2, 3, 4: the square differs from the argument.
    assert_eq!(s.points.len(), 5);
    assert_eq!(s.points[2].1, 4 * SCALE);
    assert_eq!(s.points[3].1, 9 * SCALE);
}

#[test]
fn rejects_unknown_variables_and_broken_text() {
    assert!(parse_function(&chars("x +")).is_none());
    assert!(parse_function(&chars("y")).is_none());
    assert!(parse_function(&chars("sin(x)")).is_some());
    assert!(parse_function(&chars("0")).is_some());
}

#[test]
fn area_of_identity_matches_the_analytic_value() {
    let f = parse_function(&chars("x")).unwrap();
    let w = default_window();
    let b = IntegrationBounds { lower: SCALE, upper: 2 * SCALE };
    let s = sample(&f, &w, &b, 1000);
    let a = integrate(&s).unwrap();
    // Analytic: (2^2 - 1^2) / 2 = 1.5.
    assert!((a - 1_500_000).abs() <= 5_000);
}

#[test]
fn trapezoids_are_exact_on_a_line() {
    // Integer grid, identity function: every sample is exact, so the
    // trapezoid sum is the analytic area of the triangle under the line.
    let f = parse_function(&chars("x")).unwrap();
    let w = PlotWindow { x_min: 0, x_max: 5 * SCALE, y_min: -10 * SCALE, y_max: 10 * SCALE };
    let b = IntegrationBounds { lower: 0, upper: 4 * SCALE };
    let s = sample(&f, &w, &b, SCALE);
    // Pairs cover x = 0..3: the integral of x over [0, 3] is 4.5.
    assert_eq!(integrate(&s).unwrap(), 4_500_000);
}

#[test]
fn area_is_signed_below_the_axis() {
    let f = parse_function(&chars("x")).unwrap();
    let w = PlotWindow { x_min: -5 * SCALE, x_max: 5 * SCALE, y_min: -10 * SCALE, y_max: 10 * SCALE };
    let b = IntegrationBounds { lower: -2 * SCALE, upper: 0 };
    let s = sample(&f, &w, &b, SCALE);
    // The upper index is exclusive, so the pairs cover x = -2..-1: the
    // integral of x over [-2, -1] is -1.5.
    assert_eq!(integrate(&s).unwrap(), -1_500_000);
}

#[test]
fn area_of_constant_zero_is_zero() {
    let f = parse_function(&chars("0")).unwrap();
    let w = default_window();
    let b = IntegrationBounds { lower: -SCALE, upper: 3 * SCALE };
    let s = sample(&f, &w, &b, 1000);
    assert_eq!(integrate(&s).unwrap(), 0);
}

#[test]
fn inverted_bounds_are_an_error_not_a_negative_area() {
    let f = parse_function(&chars("x")).unwrap();
    let w = default_window();
    let b = IntegrationBounds { lower: 3 * SCALE, upper: 1 * SCALE };
    let s = sample(&f, &w, &b, 1000);
    assert!(integrate(&s).is_err());
}

#[test]
fn integrator_refuses_unset_indices() {
    let s = SampleSet::empty();
    assert!(integrate(&s).is_err());
}

#[test]
fn bound_line_spans_window_bottom_to_curve() {
    let f = parse_function(&chars("3")).unwrap();
    let w = default_window();
    let line = bound_line(&f, 2 * SCALE, &w);
    // From -10 up to 3: a span of 13, in about a hundred steps.
    assert_eq!(line.len(), 100);
    assert_eq!(line[0], (2 * SCALE, -10 * SCALE));
    for &(x, y) in &line {
        assert_eq!(x, 2 * SCALE);
        assert!(-10 * SCALE <= y && y < 3 * SCALE);
    }
}

#[test]
fn bound_line_is_empty_below_the_window() {
    // The curve sits at -20, below the window's bottom edge of -10.
    let f = parse_function(&chars("-20")).unwrap();
    let w = default_window();
    let line = bound_line(&f, 0, &w);
    assert!(line.is_empty());
}

#[test]
fn bound_line_with_zero_span_is_empty() {
    // The curve height equals the bottom edge exactly: no points, no loop.
    let f = parse_function(&chars("0")).unwrap();
    let w = PlotWindow { x_min: -SCALE, x_max: SCALE, y_min: 0, y_max: SCALE };
    let line = bound_line(&f, 0, &w);
    assert!(line.is_empty());
}

#[test]
fn zero_line_runs_across_the_window_at_height_zero() {
    let w = default_window();
    let line = zero_line(&w);
    assert_eq!(line.len(), 100);
    assert_eq!(line[0], (-5 * SCALE, 0));
    for &(x, y) in &line {
        assert_eq!(y, 0);
        assert!(-5 * SCALE <= x && x < 5 * SCALE);
    }
}

#[test]
fn tiny_spans_floor_the_line_step_at_one() {
    // A span of 50 micro-units would truncate to a zero step; the generator
    // floors the step at one micro-unit and emits one point per unit.
    let w = PlotWindow { x_min: 0, x_max: 50, y_min: 0, y_max: 50 };
    let line = zero_line(&w);
    assert_eq!(line.len(), 50);
    assert_eq!(line[0], (0, 0));
    assert_eq!(line[49], (49, 0));
}
