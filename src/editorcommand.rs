//! The commands that the editor core understands, already decoded from
//! key and resize events.
use vstd::prelude::*;

use crate::geometry::Size;

verus! {

/// A cursor movement.
#[derive(Copy, Clone, Debug, PartialEq, Eq, Structural)]
pub enum Direction {
    PageUp,
    PageDown,
    Home,
    End,
    Up,
    Left,
    Right,
    Down,
}

/// A change to the text at the cursor.
#[derive(Copy, Clone, Debug, PartialEq, Eq, Structural)]
pub enum InsertionCommand {
    Insert(char),
    Delete,
    Backspace,
    Enter,
}

#[derive(Copy, Clone, Debug, PartialEq, Eq, Structural)]
pub enum ControlCommand {
    Move(Direction),
    Quit,
    Save,
}

#[derive(Copy, Clone, Debug, PartialEq, Eq, Structural)]
pub enum DisplayCommand {
    Resize(Size),
}

/// Any command for the view.
#[derive(Copy, Clone, Debug, PartialEq, Eq, Structural)]
pub enum EditorCommand {
    Move(Direction),
    Edit(InsertionCommand),
    Resize(Size),
    Quit,
}

} // verus!
