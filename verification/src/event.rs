//! The input events widgets consume.

use vstd::prelude::*;
use crate::mouse;

verus! {

/// An input event handed to `on_event`, once per event received from the
/// windowing collaborator.
#[derive(Clone, Copy, PartialEq, Eq, Structural, Debug)]
pub enum Event {
    Mouse(mouse::Event),
}

/// Whether an event is a press of the left mouse button.
pub open spec fn is_left_press(e: Event) -> bool {
    e matches Event::Mouse(mouse::Event::Input { state: mouse::ButtonState::Pressed, button: mouse::Button::Left })
}

} // verus!
