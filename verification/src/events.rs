//! Abstract key events: what the raw input source is reduced to before the
//! dispatcher sees it.

use vstd::prelude::*;

verus! {

/// One abstract key from the input source.
#[derive(PartialEq, Eq, Structural, Clone, Copy, Debug)]
pub enum Key {
    Char(char),
    Enter,
    Backspace,
    Tab,
    Esc,
    Up,
    Down,
    Left,
    Right,
    Unknown,
}

/// What the event source yields each round: a key, or a timer tick.
#[derive(PartialEq, Eq, Structural, Clone, Copy, Debug)]
pub enum Event {
    KeyInput(Key),
    Tick,
}

} // verus!
