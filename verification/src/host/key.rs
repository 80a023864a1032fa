//! Keys of a terminal.
use vstd::prelude::*;

verus! {

/// A key that was pressed.
#[derive(Debug, Clone, Copy, PartialEq, Eq, Structural)]
pub enum KeyCode {
    Up,
    Down,
    Enter,
    Tab,
    Esc,
    Backspace,
    /// A key with a character.
    Char(char),
    /// A function key.
    F(u8),
    /// Any other key.
    Other,
}

} // verus!
