//! Where an entity's UI anchor sits on screen.

use vstd::prelude::*;
use crate::frac::Vec2;
use crate::frac::vec2_bounded;
use crate::frac::vec2_wf;

verus! {

/// An entity's UI anchor in normalized `[0,1] x [0,1]` screen space, plus the
/// scale the renderer forwards into the sprite's transform.
#[derive(Clone, Copy, PartialEq, Eq, Structural, Debug)]
pub struct ScreenPos {
    /// Whether this anchor participates in any pass this frame.
    pub active: bool,
    /// The anchor, in normalized screen space.
    pub position: Vec2,
    /// Sprite scale forwarded to the draw submission.
    pub scale: Vec2,
}

pub open spec fn screen_pos_wf(s: ScreenPos) -> bool {
    vec2_bounded(s.position) && vec2_wf(s.scale)
}

} // verus!
