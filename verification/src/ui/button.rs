//! The button widget.

use vstd::prelude::*;
use crate::frac::Vec2;
use crate::ui::Ui;
use crate::ui::UiError;
use crate::ui::Update;
use crate::ui_manager::UiManager;

verus! {

/// A rectangular widget: an axis-aligned box of extent `dims` centered on the
/// entity's screen anchor. Hit-testing is strict on all four bounds, so a
/// pointer exactly on an edge is not a hit.
#[derive(Clone, Copy, PartialEq, Eq, Structural, Debug)]
pub struct Button {
    /// Width and height in the same normalized space as pointer coordinates.
    pub dims: Vec2,
    /// Whether the button participates in event routing this frame.
    pub active: bool,
}

impl Button {
    /// The per-frame handler, with the button's geometry and the manager's
    /// current window and pointer state captured by value.
    pub fn produce_handler(&self, manager: &UiManager) -> (u: Update)
        ensures
            u.dims == self.dims,
            u.window_dims == manager.window_dims,
            u.mouse_pos == manager.mouse_pos,
    {
        Update { dims: self.dims, window_dims: manager.window_dims, mouse_pos: manager.mouse_pos }
    }
}

impl Ui for Button {
    fn ui(&mut self, manager: &UiManager) -> Result<Update, UiError> {
        Ok(self.produce_handler(manager))
    }

    fn active(&mut self) -> bool {
        self.active
    }
}

} // verus!
