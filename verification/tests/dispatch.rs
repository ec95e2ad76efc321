//! The session and its input dispatch, driven by event sequences.

use quadplot::fixed::SCALE;
use quadplot::focus::Step;
use quadplot::session::{InputEvent, Notice, Screen, Session};

fn settings_session() -> Session {
    let mut s = Session::new().unwrap();
    assert!(s.handle_event(InputEvent::ScreenToggle).is_none());
    s
}

fn type_text(s: &mut Session, text: &str) {
    for c in text.chars() {
        assert!(s.handle_event(InputEvent::Character(c)).is_none());
    }
}

#[test]
fn new_session_has_the_documented_defaults() {
    let s = Session::new().unwrap();
    assert_eq!(s.window.x_min, -5 * SCALE);
    assert_eq!(s.window.x_max, 5 * SCALE);
    assert_eq!(s.window.y_min, -10 * SCALE);
    assert_eq!(s.window.y_max, 10 * SCALE);
    assert_eq!(s.bounds.lower, 0);
    assert_eq!(s.bounds.upper, 0);
    assert_eq!(s.step, 1000);
    assert_eq!(s.area, 0);
    assert_eq!(s.screen, Screen::Main);
    assert!(!s.exit);
    assert!(s.samples.points.is_empty());
    let text: String = s.func.text().iter().collect();
    assert_eq!(text, "x");
}

#[test]
fn screen_toggle_only_enters_settings() {
    let mut s = Session::new().unwrap();
    assert_eq!(s.screen, Screen::Main);
    s.handle_event(InputEvent::ScreenToggle);
    assert_eq!(s.screen, Screen::Settings);
    // Toggling again while on settings is a no-op, not a way back.
    s.handle_event(InputEvent::ScreenToggle);
    assert_eq!(s.screen, Screen::Settings);
}

#[test]
fn cancel_leaves_settings_then_ends_the_session() {
    let mut s = settings_session();
    s.handle_event(InputEvent::Cancel);
    assert_eq!(s.screen, Screen::Main);
    assert!(!s.exit);
    s.handle_event(InputEvent::Cancel);
    assert!(s.exit);
}

#[test]
fn arrows_move_focus_only_on_settings() {
    let mut s = Session::new().unwrap();
    s.handle_event(InputEvent::Arrow(Step::Right));
    assert_eq!(s.focus.col, 0);
    s.handle_event(InputEvent::ScreenToggle);
    s.handle_event(InputEvent::Arrow(Step::Right));
    assert_eq!(s.focus.col, 1);
    s.handle_event(InputEvent::Arrow(Step::Left));
    s.handle_event(InputEvent::Arrow(Step::Left));
    assert_eq!(s.focus.col, 0);
}

#[test]
fn characters_edit_the_focused_buffer() {
    let mut s = settings_session();
    type_text(&mut s, "+1");
    let text: String = s.function_text.iter().collect();
    assert_eq!(text, "x+1");
    s.handle_event(InputEvent::Backspace);
    s.handle_event(InputEvent::Backspace);
    let text: String = s.function_text.iter().collect();
    assert_eq!(text, "x");
    // Backspace on an empty buffer is a no-op.
    s.handle_event(InputEvent::Backspace);
    s.handle_event(InputEvent::Backspace);
    assert!(s.function_text.is_empty());
    s.handle_event(InputEvent::Backspace);
    assert!(s.function_text.is_empty());
}

#[test]
fn full_scenario_integrates_x_from_zero_to_two() {
    let mut s = settings_session();
    // Commit the default function "x": samples the window.
    assert!(s.handle_event(InputEvent::Confirm).is_none());
    assert_eq!(s.samples.points.len(), 10_000);
    // Move to the upper bound and set it to 2.
    s.handle_event(InputEvent::Arrow(Step::Right));
    s.handle_event(InputEvent::Arrow(Step::Right));
    s.handle_event(InputEvent::Backspace);
    type_text(&mut s, "2");
    assert!(s.handle_event(InputEvent::Confirm).is_none());
    assert_eq!(s.bounds.upper, 2 * SCALE);
    // Analytic: the integral of x from 0 to 2 is 2.
    assert!((s.area - 2_000_000).abs() <= 5_000);
}

#[test]
fn recalculate_area_is_idempotent() {
    let mut s = settings_session();
    s.handle_event(InputEvent::Confirm);
    s.handle_event(InputEvent::Arrow(Step::Right));
    s.handle_event(InputEvent::Arrow(Step::Right));
    s.handle_event(InputEvent::Backspace);
    type_text(&mut s, "2");
    s.handle_event(InputEvent::Confirm);
    let first = s.area;
    // Move to the trigger field and recalculate twice.
    s.handle_event(InputEvent::Arrow(Step::Right));
    assert!(s.handle_event(InputEvent::Confirm).is_none());
    let second = s.area;
    assert!(s.handle_event(InputEvent::Confirm).is_none());
    assert_eq!(s.area, second);
    assert_eq!(first, second);
}

#[test]
fn inverted_bounds_surface_an_undefined_range() {
    let mut s = settings_session();
    s.handle_event(InputEvent::Confirm);
    // Lower bound 3, upper bound stays 0: inverted.
    s.handle_event(InputEvent::Arrow(Step::Right));
    s.handle_event(InputEvent::Backspace);
    type_text(&mut s, "3");
    let r = s.handle_event(InputEvent::Confirm);
    assert_eq!(r, Some(Notice::UndefinedRange));
    assert_eq!(s.bounds.lower, 3 * SCALE);
    // The shown area keeps its previous value.
    assert_eq!(s.area, 0);
}

#[test]
fn malformed_function_text_leaves_the_session_untouched() {
    let mut s = settings_session();
    s.handle_event(InputEvent::Confirm);
    let samples_before = s.samples.points.len();
    type_text(&mut s, " +");
    let r = s.handle_event(InputEvent::Confirm);
    assert_eq!(r, Some(Notice::ParseError));
    // The previous function and its samples stand.
    let committed: String = s.func.text().iter().collect();
    assert_eq!(committed, "x");
    assert_eq!(s.samples.points.len(), samples_before);
    // Only the buffer shows the malformed text.
    let buffer: String = s.function_text.iter().collect();
    assert_eq!(buffer, "x +");
}

#[test]
fn whitespace_only_function_text_is_a_parse_error() {
    let mut s = settings_session();
    s.handle_event(InputEvent::Confirm);
    let samples_before = s.samples.points.len();
    s.handle_event(InputEvent::Backspace);
    type_text(&mut s, " \t");
    let r = s.handle_event(InputEvent::Confirm);
    assert_eq!(r, Some(Notice::ParseError));
    let committed: String = s.func.text().iter().collect();
    assert_eq!(committed, "x");
    assert_eq!(s.samples.points.len(), samples_before);
}

#[test]
fn empty_function_text_is_a_parse_error() {
    let mut s = settings_session();
    s.handle_event(InputEvent::Backspace);
    let r = s.handle_event(InputEvent::Confirm);
    assert_eq!(r, Some(Notice::ParseError));
}

#[test]
fn surrounding_whitespace_in_function_text_is_accepted() {
    let mut s = settings_session();
    s.handle_event(InputEvent::Backspace);
    type_text(&mut s, " x ");
    let r = s.handle_event(InputEvent::Confirm);
    assert!(r.is_none());
    let committed: String = s.func.text().iter().collect();
    assert_eq!(committed, " x ");
}

#[test]
fn malformed_number_is_a_parse_error() {
    let mut s = settings_session();
    s.handle_event(InputEvent::Arrow(Step::Right));
    type_text(&mut s, "abc");
    let r = s.handle_event(InputEvent::Confirm);
    assert_eq!(r, Some(Notice::ParseError));
    assert_eq!(s.bounds.lower, 0);
}

#[test]
fn degenerate_window_commit_is_refused() {
    let mut s = settings_session();
    // MinX sits on the second row.
    s.handle_event(InputEvent::Arrow(Step::Down));
    s.handle_event(InputEvent::Backspace);
    s.handle_event(InputEvent::Backspace);
    type_text(&mut s, "7");
    let r = s.handle_event(InputEvent::Confirm);
    assert_eq!(r, Some(Notice::DegenerateWindow));
    assert_eq!(s.window.x_min, -5 * SCALE);
}

#[test]
fn recalculate_without_samples_reports_undefined_range() {
    let mut s = settings_session();
    for _ in 0..3 {
        s.handle_event(InputEvent::Arrow(Step::Right));
    }
    let r = s.handle_event(InputEvent::Confirm);
    assert_eq!(r, Some(Notice::UndefinedRange));
    assert_eq!(s.area, 0);
}

#[test]
fn committing_a_window_edge_resamples() {
    let mut s = settings_session();
    s.handle_event(InputEvent::Confirm);
    assert_eq!(s.samples.points.len(), 10_000);
    // Set MaxX to 7: the span grows from 10 to 12.
    s.handle_event(InputEvent::Arrow(Step::Down));
    s.handle_event(InputEvent::Arrow(Step::Right));
    s.handle_event(InputEvent::Backspace);
    type_text(&mut s, "7");
    assert!(s.handle_event(InputEvent::Confirm).is_none());
    assert_eq!(s.window.x_max, 7 * SCALE);
    assert_eq!(s.samples.points.len(), 12_000);
}

#[test]
fn other_events_are_ignored() {
    let mut s = settings_session();
    let before = s.function_text.len();
    assert!(s.handle_event(InputEvent::Other).is_none());
    assert_eq!(s.function_text.len(), before);
    assert_eq!(s.screen, Screen::Settings);
}
