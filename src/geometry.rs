//! Screen and document coordinates.
use vstd::prelude::*;

verus! {

/// A screen cell: rendered row and column.
#[derive(Copy, Clone, Debug, Default, PartialEq, Eq, Structural)]
pub struct Position {
    pub col: usize,
    pub row: usize,
}

/// Width and height of a screen area, in cells.
#[derive(Copy, Clone, Debug, Default, PartialEq, Eq, Structural)]
pub struct Size {
    pub width: usize,
    pub height: usize,
}

/// A cursor in the document: a line index and a grapheme index in it.
#[derive(Copy, Clone, Debug, Default, PartialEq, Eq, Structural)]
pub struct Location {
    pub line_index: usize,
    pub grapheme_index: usize,
}

impl Position {
    /// This position relative to `other`, each coordinate stopping at zero.
    pub fn saturating_sub(&self, other: &Position) -> (r: Position)
        ensures
            r.row == (if self.row >= other.row { self.row - other.row } else { 0 }),
            r.col == (if self.col >= other.col { self.col - other.col } else { 0 }),
    {
        Position {
            row: self.row.saturating_sub(other.row),
            col: self.col.saturating_sub(other.col),
        }
    }
}

} // verus!
