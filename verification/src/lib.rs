//! An in-engine UI overlay: widgets attached to entities in a component
//! world, positioned in normalized screen space, hit-tested against pointer
//! input, and rendered as depth-sorted sprites.
//!
//! Coordinates are exact rationals over machine integers, so normalization,
//! hit-testing and depth ordering are stated and proved without rounding.

pub mod events;
pub mod frac;
pub mod screen_pos;
pub mod ui;
pub mod ui_manager;
pub mod ui_renderer;
pub mod world;

pub use frac::Frac;
pub use frac::Vec2;
pub use screen_pos::ScreenPos;
pub use ui::Ui;
pub use ui_manager::UiManager;
