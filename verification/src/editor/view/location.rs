use vstd::prelude::*;

use crate::editor::terminal::{sat_sub, Position};

verus! {

/// A cell, by column and row.
#[derive(Clone, Copy, PartialEq, Eq, Structural, Debug)]
pub struct Location {
    pub col: u16,
    pub row: u16,
}

impl Default for Location {
    fn default() -> (location: Self)
        ensures
            location.col == 0 && location.row == 0,
    {
        Location { col: 0, row: 0 }
    }
}

impl From<Location> for Position {
    fn from(value: Location) -> (position: Self) {
        Self { col: value.col, row: value.row }
    }
}

impl vstd::std_specs::convert::FromSpecImpl<Location> for Position {
    open spec fn obeys_from_spec() -> bool {
        true
    }

    open spec fn from_spec(value: Location) -> Position {
        Position { col: value.col, row: value.row }
    }
}

impl Location {
    /// This location moved back by `other` in both directions, stopping at 0.
    pub fn subtract(self, other: Self) -> (location: Self)
        ensures
            location.col == sat_sub(self.col as int, other.col as int),
            location.row == sat_sub(self.row as int, other.row as int),
    {
        Self { col: self.col.saturating_sub(other.col), row: self.row.saturating_sub(other.row) }
    }
}

} // verus!
