//! Normalized mouse input, as the windowing collaborator reports it.

use vstd::prelude::*;

verus! {

#[derive(Clone, Copy, PartialEq, Eq, Structural, Debug)]
pub enum Button {
    Left,
    Right,
    Middle,
}

#[derive(Clone, Copy, PartialEq, Eq, Structural, Debug)]
pub enum ButtonState {
    Pressed,
    Released,
}

/// A mouse event: a button changing state, or the cursor moving.
#[derive(Clone, Copy, PartialEq, Eq, Structural, Debug)]
pub enum Event {
    Input { state: ButtonState, button: Button },
    CursorMoved { x: u32, y: u32 },
}

} // verus!
