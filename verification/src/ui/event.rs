//! What the terminal reports to the interface, and what a region asks for
//! in answer.

use vstd::prelude::*;

verus! {

/// A key of the keyboard.
#[derive(Clone, Copy, Debug, PartialEq, Eq, Structural)]
pub enum Key {
    Char(char),
    Backspace,
    Enter,
    Up,
    Down,
    /// Any other key.
    Other,
}

/// What the mouse did.
#[derive(Clone, Copy, Debug, PartialEq, Eq, Structural)]
pub enum MouseKind {
    ScrollUp,
    ScrollDown,
    ScrollLeft,
    ScrollRight,
    /// The left button went down.
    LeftDown,
    /// Anything else.
    Other,
}

/// An event of the terminal.
#[derive(Clone, Copy, Debug, PartialEq, Eq, Structural)]
pub enum Event {
    /// A key was pressed; `control` says whether the control key was held.
    Key { code: Key, control: bool },
    /// The mouse did something at a place of the grid.
    Mouse { kind: MouseKind, column: u16, row: u16, control: bool },
    /// The terminal has a new size.
    Resize { columns: u16, rows: u16 },
    /// Anything else.
    Other,
}

/// What a region asks the interface to do after an event.
#[derive(Debug, PartialEq)]
pub enum Action {
    /// Nothing: the event was dealt with inside the region.
    Internal,
    /// Run the query.
    RunQuery(String),
}

} // verus!
