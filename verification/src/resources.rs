//! Shared resources and the messages the outside world feeds in.
use vstd::prelude::*;

verus! {

/// The size of the terminal the board is drawn in, in character cells.
#[derive(Clone, Copy, Debug, PartialEq, Eq, Structural)]
pub struct TerminalSize {
    pub cols: u16,
    pub rows: u16,
}

impl Default for TerminalSize {
    /// The classic 80x24 terminal, used when the real size cannot be read.
    fn default() -> (s: TerminalSize)
        ensures
            s.cols == 80,
            s.rows == 24,
    {
        TerminalSize { cols: 80, rows: 24 }
    }
}

/// A terminal resize notification carrying the new size.
#[derive(Clone, Copy, Debug, PartialEq, Eq, Structural)]
pub struct Resize {
    pub width: u16,
    pub height: u16,
}

/// The key of a key event, as far as the game tells keys apart.
#[derive(Clone, Copy, Debug, PartialEq, Eq, Structural)]
pub enum KeyCode {
    Up,
    Down,
    Left,
    Right,
    Esc,
    Char(char),
    /// Any other key.
    Other,
}

/// Whether a key event is a press, an auto-repeat or a release.
#[derive(Clone, Copy, Debug, PartialEq, Eq, Structural)]
pub enum KeyEventKind {
    Press,
    Repeat,
    Release,
}

/// A key event delivered by the terminal.
#[derive(Clone, Copy, Debug, PartialEq, Eq, Structural)]
pub struct KeyMessage {
    pub code: KeyCode,
    pub kind: KeyEventKind,
}

} // verus!
