//! Commands as the editor receives them: moves, edits and system requests.
use vstd::prelude::*;

use crate::geometry::Size;

verus! {

#[derive(Copy, Clone, Debug, PartialEq, Eq, Structural)]
pub enum Move {
    PageUp,
    PageDown,
    Home,
    End,
    Up,
    Left,
    Right,
    Down,
}

#[derive(Copy, Clone, Debug, PartialEq, Eq, Structural)]
pub enum Edit {
    Insert(char),
    Delete,
    DeleteBackward,
    InsertNewLine,
}

#[derive(Copy, Clone, Debug, PartialEq, Eq, Structural)]
pub enum System {
    Save,
    Resize(Size),
    Quit,
    Dismiss,
    Find,
}

#[derive(Copy, Clone, Debug, PartialEq, Eq, Structural)]
pub enum Command {
    Move(Move),
    Edit(Edit),
    System(System),
}

} // verus!
