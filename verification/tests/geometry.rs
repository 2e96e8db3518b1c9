use rustle::editor::terminal::{Position, Size};
use rustle::editor::view::location::Location as Cell;
use rustle::editor::view::Location;

#[test]
fn position_saturating_sub_stops_at_zero() {
    let p = Position { col: 5, row: 2 };
    let q = p.saturating_sub(Position { col: 3, row: 7 });
    assert_eq!(q, Position { col: 2, row: 0 });
}

#[test]
fn cell_subtract_stops_at_zero() {
    let a = Cell { col: 1, row: 10 };
    let b = a.subtract(Cell { col: 4, row: 3 });
    assert_eq!(b, Cell { col: 0, row: 7 });
}

#[test]
fn cell_converts_to_position() {
    let p = Position::from(Cell { col: 9, row: 4 });
    assert_eq!(p, Position { col: 9, row: 4 });
}

#[test]
fn defaults_are_at_the_origin() {
    assert_eq!(Position::default(), Position { col: 0, row: 0 });
    assert_eq!(Size::default(), Size { width: 0, height: 0 });
    assert_eq!(Cell::default(), Cell { col: 0, row: 0 });
    assert_eq!(Location::default(), Location { grapheme_index: 0, line_index: 0 });
}
