use vstd::prelude::*;

verus! {

/// The terminal the editor draws on. Everything it does is input and
/// output, so its operations belong to the program that drives the editor.
pub struct Terminal {}

impl Default for Terminal {
    fn default() -> (terminal: Self) {
        Terminal {}
    }
}

/// A cell of the screen.
#[derive(Clone, Copy, PartialEq, Eq, Structural, Debug)]
pub struct Position {
    pub col: u16,
    pub row: u16,
}

impl Default for Position {
    fn default() -> (position: Self)
        ensures
            position.col == 0 && position.row == 0,
    {
        Position { col: 0, row: 0 }
    }
}

/// `a - b`, or 0 when `b` is larger.
pub open spec fn sat_sub(a: int, b: int) -> int {
    if a >= b {
        a - b
    } else {
        0
    }
}

/// `a + b`, or `u16::MAX` when that is larger.
pub open spec fn sat_add_u16(a: int, b: int) -> u16 {
    if a + b <= u16::MAX {
        (a + b) as u16
    } else {
        u16::MAX
    }
}

impl Position {
    /// This position moved back by `other` in both directions, stopping at 0.
    pub fn saturating_sub(self, other: Position) -> (position: Self)
        ensures
            position.col == sat_sub(self.col as int, other.col as int),
            position.row == sat_sub(self.row as int, other.row as int),
    {
        Self { col: self.col.saturating_sub(other.col), row: self.row.saturating_sub(other.row) }
    }
}

/// The size of the screen or of a part of it.
#[derive(Clone, Copy, PartialEq, Eq, Structural, Debug)]
pub struct Size {
    pub width: u16,
    pub height: u16,
}

impl Default for Size {
    fn default() -> (size: Self)
        ensures
            size.width == 0 && size.height == 0,
    {
        Size { width: 0, height: 0 }
    }
}

} // verus!
