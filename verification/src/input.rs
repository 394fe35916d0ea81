//! The events a player can cause.

use vstd::prelude::*;

verus! {

/// One event from the player's terminal.
#[derive(Debug, Clone, Copy, PartialEq, Eq, Structural)]
pub enum Input {
    Up,
    Down,
    Left,
    Right,
    Enter,
    Esc,
    Backspace,
    /// A printable character.
    Char(char),
    /// A character pressed together with the control key.
    Ctrl(char),
    /// The terminal changed its size.
    Resize { width: u16, height: u16 },
    /// Anything else: releases, lone modifiers, keys without a meaning here.
    Unknown,
}

} // verus!
