//! Decoded terminal input, as the core sees it.
//!
//! The terminal layer decodes raw input into these plain values before
//! handing them to the mode controllers; only key presses carry meaning,
//! releases and repeats are ignored everywhere.

use vstd::prelude::*;

verus! {

/// A decoded key.
#[derive(Clone, Copy, PartialEq, Eq, Structural, Debug)]
pub enum Key {
    Up,
    Down,
    Left,
    Right,
    Enter,
    Backspace,
    Char(char),
    Other,
}

/// A key event: the key and whether this is a press (as opposed to a
/// release or a repeat, which every mode treats as "no action").
#[derive(Clone, Copy, PartialEq, Eq, Structural, Debug)]
pub struct KeyEvent {
    pub code: Key,
    pub is_press: bool,
}

/// An input event as the main loop dispatches it: a key event, or anything
/// else the terminal reports (resize and the like), which the modes ignore.
#[derive(Clone, Copy, PartialEq, Eq, Structural, Debug)]
pub enum Event {
    Key(KeyEvent),
    Other,
}

} // verus!
