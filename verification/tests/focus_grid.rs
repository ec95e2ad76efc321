//! The focus grid state machine.

use quadplot::focus::{field_at, Field, FocusGrid, Step};

#[test]
fn layout_matches_the_settings_screen() {
    assert_eq!(field_at(0, 0), Field::Function);
    assert_eq!(field_at(0, 1), Field::LowerBound);
    assert_eq!(field_at(0, 2), Field::UpperBound);
    assert_eq!(field_at(0, 3), Field::RecalculateArea);
    assert_eq!(field_at(1, 0), Field::MinX);
    assert_eq!(field_at(1, 1), Field::MaxX);
    assert_eq!(field_at(1, 2), Field::MinY);
    assert_eq!(field_at(1, 3), Field::MaxY);
}

#[test]
fn moves_clamp_at_the_edges() {
    let mut g = FocusGrid::start();
    g.shift(Step::Left);
    assert_eq!(g, FocusGrid { row: 0, col: 0 });
    g.shift(Step::Up);
    assert_eq!(g, FocusGrid { row: 0, col: 0 });
    g.shift(Step::Right);
    assert_eq!(g, FocusGrid { row: 0, col: 1 });
    g.shift(Step::Down);
    assert_eq!(g, FocusGrid { row: 1, col: 1 });
    g.shift(Step::Down);
    assert_eq!(g, FocusGrid { row: 1, col: 1 });
    g.shift(Step::Right);
    g.shift(Step::Right);
    g.shift(Step::Right);
    assert_eq!(g, FocusGrid { row: 1, col: 3 });
}

#[test]
fn any_move_sequence_stays_on_the_grid() {
    let moves = [
        Step::Left,
        Step::Down,
        Step::Down,
        Step::Right,
        Step::Right,
        Step::Right,
        Step::Right,
        Step::Right,
        Step::Up,
        Step::Up,
        Step::Left,
        Step::Down,
    ];
    let mut g = FocusGrid::start();
    for m in moves {
        g.shift(m);
        assert!(g.row <= 1);
        assert!(g.col <= 3);
    }
}
