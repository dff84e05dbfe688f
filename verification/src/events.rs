//! Raw window and input events, as the overlay interprets them.
//!
//! The windowing backend produces a larger tagged union; the overlay reads
//! only resizes, pointer motion, pointer buttons and draw ticks, and treats
//! every other tag as a no-op that still reaches widget handlers.

use vstd::prelude::*;
use crate::frac::Frac;
use crate::frac::rat_bounded;

verus! {

#[derive(Clone, Copy, PartialEq, Eq, Structural, Debug)]
pub enum MouseButton {
    Left,
    Right,
    Middle,
}

#[derive(Clone, Copy, PartialEq, Eq, Structural, Debug)]
pub enum Event {
    /// The window was resized to `width` x `height` pixels.
    WindowResized { width: u32, height: u32 },
    /// The pointer moved to a raw pixel position.
    PointerMoved { x: Frac, y: Frac },
    /// A pointer button changed state; `pressed` is true on a press.
    PointerButton { button: MouseButton, pressed: bool },
    /// The current frame should be rendered.
    DrawTick,
    /// Any event tag the overlay does not interpret.
    Other,
}

/// Pointer positions carried by an event stay within the coordinate bound.
pub open spec fn event_wf(ev: Event) -> bool {
    match ev {
        Event::PointerMoved { x, y } => rat_bounded(x@) && rat_bounded(y@),
        _ => true,
    }
}

/// The one event kind widget handlers act on: a primary-button press.
pub open spec fn is_left_press(ev: Event) -> bool {
    ev matches Event::PointerButton { button: MouseButton::Left, pressed: true }
}

} // verus!
