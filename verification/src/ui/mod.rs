//! Widgets, their per-frame handlers, and the callback mailbox.

pub mod button;
pub mod callback;

pub use button::Button;
pub use callback::Callback;

use vstd::prelude::*;
use crate::events::Event;
use crate::events::MouseButton;
use crate::events::is_left_press;
use crate::frac::Frac;
use crate::frac::Vec2;
use crate::frac::rat_hit;
use crate::frac::rat_norm;
use crate::frac::vec2_bounded;
use crate::frac::normalize;
use crate::frac::hit_test;
use crate::screen_pos::ScreenPos;
use crate::ui_manager::UiManager;
use crate::world::Entity;
use crate::world::World;
use crate::world::entity_wf;
use crate::world::world_wf;

verus! {

/// A failure raised by a widget handler; it aborts the remainder of the
/// manager's pass and surfaces to the caller.
#[derive(Clone, Copy, PartialEq, Eq, Structural, Debug)]
pub enum UiError {
    Widget,
}

/// A widget's event handler for one frame: the widget's geometry and the
/// manager's window and pointer state, captured by value, plus the rule that
/// applies them to an event.
#[derive(Clone, Copy, PartialEq, Eq, Debug)]
pub struct Update {
    /// The widget's extent, centered on the entity's screen anchor.
    pub dims: Vec2,
    /// Window dimensions at capture time, in raw pixels.
    pub window_dims: (u32, u32),
    /// Pointer position at capture time, in raw pixels.
    pub mouse_pos: Vec2,
}

impl Update {
    /// The captured pointer, normalized by the captured window dimensions,
    /// lands strictly inside the widget's box around the entity's anchor.
    pub open spec fn hits(self, sp: ScreenPos) -> bool {
        &&& 1 <= self.window_dims.0
        &&& 1 <= self.window_dims.1
        &&& rat_hit(
            sp.position,
            self.dims,
            rat_norm(self.mouse_pos.x@, self.window_dims.0 as int),
            rat_norm(self.mouse_pos.y@, self.window_dims.1 as int),
        )
    }

    /// The normalized pointer as stored into a callback on a hit: exactly
    /// `(px / W, py / H)`, kept as unreduced fractions.
    pub open spec fn norm_value(self) -> Vec2 {
        Vec2 {
            x: Frac {
                num: self.mouse_pos.x.num,
                den: (self.mouse_pos.x.den * self.window_dims.0) as i64,
            },
            y: Frac {
                num: self.mouse_pos.y.num,
                den: (self.mouse_pos.y.den * self.window_dims.1) as i64,
            },
        }
    }

    /// Applies this handler to entity `e` for one event. On a primary-button
    /// press whose normalized pointer hits the entity's box, the entity's
    /// callback (if any) is overwritten with the normalized pointer; in every
    /// other case the world is left untouched. Never fails.
    pub fn apply(&self, e: usize, ev: &Event, world: &mut World) -> (r: Result<(), UiError>)
        requires
            e < old(world).entities@.len(),
            world_wf(*old(world)),
            vec2_bounded(self.dims),
            vec2_bounded(self.mouse_pos),
        ensures
            r is Ok,
            final(world).entities@.len() == old(world).entities@.len(),
            final(world).entities@[e as int] == entity_after_apply(
                old(world).entities@[e as int],
                *self,
                *ev,
            ),
            forall|j: int|
                0 <= j < old(world).entities@.len() && j != e ==> final(world).entities@[j]
                    == old(world).entities@[j],
            world_wf(*final(world)),
    {
        let ent = world.entities[e];
        let pressed = match ev {
            Event::PointerButton { button: MouseButton::Left, pressed: true } => true,
            _ => false,
        };
        if !pressed {
            return Ok(());
        }
        if self.window_dims.0 < 1 || self.window_dims.1 < 1 {
            return Ok(());
        }
        let nx = normalize(&self.mouse_pos.x, self.window_dims.0);
        let ny = normalize(&self.mouse_pos.y, self.window_dims.1);
        if let Some(sp) = ent.screen_pos {
            proof {
                assert(entity_wf(old(world).entities@[e as int]));
            }
            if hit_test(&sp.position, &self.dims, &nx, &ny) {
                if ent.callback.is_some() {
                    let mut ent2 = ent;
                    ent2.callback = Some(Callback { value: Some(Vec2 { x: nx, y: ny }) });
                    let slot = &mut world.entities[e];
                    *slot = ent2;
                }
            }
        }
        Ok(())
    }
}

/// The state of an entity after one handler application: the callback is
/// overwritten with the normalized pointer exactly on a primary-button press
/// that hits; a miss, another event kind, a missing anchor or a missing
/// callback leave the entity untouched.
pub open spec fn entity_after_apply(ent: Entity, u: Update, ev: Event) -> Entity {
    match ent.screen_pos {
        Some(sp) => if is_left_press(ev) && u.hits(sp) && ent.callback is Some {
            Entity { callback: Some(Callback { value: Some(u.norm_value()) }), ..ent }
        } else {
            ent
        },
        None => ent,
    }
}

/// The pointer value a hit writes into a callback is exactly the raw pixel
/// position divided by the captured window dimensions, with no rounding.
pub proof fn lemma_norm_value_exact(u: Update)
    requires
        vec2_bounded(u.mouse_pos),
        1 <= u.window_dims.0,
        1 <= u.window_dims.1,
    ensures
        u.norm_value().x@ == rat_norm(u.mouse_pos.x@, u.window_dims.0 as int),
        u.norm_value().y@ == rat_norm(u.mouse_pos.y@, u.window_dims.1 as int),
{
    crate::frac::lemma_mul_bounds(
        u.mouse_pos.x.den as int,
        u.window_dims.0 as int,
        crate::frac::COORD_BOUND as int,
        0x1_0000_0000,
    );
    crate::frac::lemma_mul_bounds(
        u.mouse_pos.y.den as int,
        u.window_dims.1 as int,
        crate::frac::COORD_BOUND as int,
        0x1_0000_0000,
    );
}

/// Within one widget's bounds, the later of two hitting presses wins: the
/// callback holds the second press's normalized pointer, whatever the first
/// wrote.
pub proof fn lemma_last_write_wins(ent: Entity, u1: Update, u2: Update, ev1: Event, ev2: Event)
    requires
        ent.screen_pos matches Some(sp) && u1.hits(sp) && u2.hits(sp),
        ent.callback is Some,
        is_left_press(ev1),
        is_left_press(ev2),
    ensures
        entity_after_apply(entity_after_apply(ent, u1, ev1), u2, ev2).callback == Some(
            Callback { value: Some(u2.norm_value()) },
        ),
{
}

/// A handler application that does not hit never clears a previously written
/// callback value: the entity comes through unchanged.
pub proof fn lemma_miss_preserves_callback(ent: Entity, u: Update, ev: Event)
    requires
        !(is_left_press(ev) && (ent.screen_pos matches Some(sp) && u.hits(sp))),
    ensures
        entity_after_apply(ent, u, ev) == ent,
{
}

/// The capability interface a widget variant offers: produce this frame's
/// handler from the manager's current state, and report whether the widget
/// participates. Applications may implement it for their own widget kinds; a
/// failing `ui` aborts the manager's pass.
pub trait Ui {
    fn ui(&mut self, manager: &UiManager) -> Result<Update, UiError>;

    fn active(&mut self) -> bool;
}

/// The closed set of widget variants the verified pipeline routes events to.
#[derive(Clone, Copy, PartialEq, Eq, Structural, Debug)]
pub enum Widget {
    Button(Button),
}

impl Widget {
    pub open spec fn spec_active(self) -> bool {
        match self {
            Widget::Button(b) => b.active,
        }
    }

    pub open spec fn spec_dims(self) -> Vec2 {
        match self {
            Widget::Button(b) => b.dims,
        }
    }

    /// Whether the widget participates in event routing this frame.
    pub fn active(&self) -> (r: bool)
        ensures
            r == self.spec_active(),
    {
        match self {
            Widget::Button(b) => b.active,
        }
    }

    /// This frame's handler, bound to the widget's geometry and the manager's
    /// current window and pointer state.
    pub fn produce_handler(&self, manager: &UiManager) -> (u: Update)
        ensures
            u == update_of(*self, *manager),
    {
        match self {
            Widget::Button(b) => b.produce_handler(manager),
        }
    }
}

/// The handler a widget produces from a given manager state.
pub open spec fn update_of(wdg: Widget, st: UiManager) -> Update {
    Update { dims: wdg.spec_dims(), window_dims: st.window_dims, mouse_pos: st.mouse_pos }
}

} // verus!
