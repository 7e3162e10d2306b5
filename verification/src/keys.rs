//! Keys, as the terminal reports them.

use vstd::prelude::*;

verus! {

/// A key that was pressed.
#[derive(Copy, Clone, PartialEq, Eq, Debug, Structural)]
pub enum Key {
    Esc,
    Tab,
    Enter,
    Backspace,
    Delete,
    Left,
    Right,
    Home,
    End,
    Up,
    Down,
    PageUp,
    PageDown,
    Char(char),
    Other,
}

} // verus!
