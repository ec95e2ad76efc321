//! The fixed-point text parser.

use quadplot::fixed::{clamp_coord, parse_fixed, MAX_COORD, SCALE};

fn chars(s: &str) -> Vec<char> {
    s.chars().collect()
}

#[test]
fn parses_plain_integers() {
    assert_eq!(parse_fixed(&chars("5")), Some(5 * SCALE));
    assert_eq!(parse_fixed(&chars("0")), Some(0));
    assert_eq!(parse_fixed(&chars("-5")), Some(-5 * SCALE));
    assert_eq!(parse_fixed(&chars("+7")), Some(7 * SCALE));
    assert_eq!(parse_fixed(&chars("10")), Some(10 * SCALE));
}

#[test]
fn parses_fractions() {
    assert_eq!(parse_fixed(&chars("3.25")), Some(3_250_000));
    assert_eq!(parse_fixed(&chars("-0.5")), Some(-500_000));
    assert_eq!(parse_fixed(&chars(".5")), Some(500_000));
    assert_eq!(parse_fixed(&chars("5.")), Some(5 * SCALE));
    assert_eq!(parse_fixed(&chars("0.000001")), Some(1));
}

#[test]
fn truncates_past_six_places() {
    assert_eq!(parse_fixed(&chars("2.0000005")), Some(2_000_000));
    assert_eq!(parse_fixed(&chars("0.1234567")), Some(123_456));
}

#[test]
fn rejects_malformed_text() {
    assert_eq!(parse_fixed(&chars("")), None);
    assert_eq!(parse_fixed(&chars(".")), None);
    assert_eq!(parse_fixed(&chars("-")), None);
    assert_eq!(parse_fixed(&chars("+")), None);
    assert_eq!(parse_fixed(&chars("1e5")), None);
    assert_eq!(parse_fixed(&chars("1.2.3")), None);
    assert_eq!(parse_fixed(&chars("x +")), None);
    assert_eq!(parse_fixed(&chars(" 1")), None);
    assert_eq!(parse_fixed(&chars("--1")), None);
}

#[test]
fn rejects_out_of_range_values() {
    assert_eq!(parse_fixed(&chars("1000000001")), None);
    assert_eq!(parse_fixed(&chars("99999999999999999999")), None);
    assert_eq!(parse_fixed(&chars("1000000000")), Some(MAX_COORD));
    assert_eq!(parse_fixed(&chars("-1000000000")), Some(-MAX_COORD));
    assert_eq!(parse_fixed(&chars("999999999.999999")), Some(999_999_999_999_999));
}

#[test]
fn clamp_saturates_at_the_coordinate_range() {
    assert_eq!(clamp_coord(5), 5);
    assert_eq!(clamp_coord(-5), -5);
    assert_eq!(clamp_coord(MAX_COORD + 1), MAX_COORD);
    assert_eq!(clamp_coord(i64::MIN), -MAX_COORD);
    assert_eq!(clamp_coord(i64::MAX), MAX_COORD);
}
