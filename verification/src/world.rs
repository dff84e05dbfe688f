//! The entity-component store the overlay runs against.
//!
//! The host engine keeps components in typed tables keyed by entity id; the
//! overlay reads a fixed handful of component types and writes two. This
//! module holds those tables directly: one slot per component type per
//! entity, iterated in entity-index order.

use vstd::prelude::*;
use crate::frac::Frac;
use crate::frac::Vec2;
use crate::frac::rat_wf;
use crate::frac::vec2_bounded;
use crate::frac::vec2_wf;
use crate::screen_pos::ScreenPos;
use crate::screen_pos::screen_pos_wf;
use crate::ui::Callback;
use crate::ui::Widget;

verus! {

/// The camera the overlay projects against. Its view matrix is backend data
/// the overlay only forwards into draw submissions, so it is carried as an
/// opaque handle.
#[derive(Clone, Copy, PartialEq, Eq, Structural, Debug)]
pub struct Camera {
    pub active: bool,
    /// Viewport dimensions, both strictly positive.
    pub dimensions: Vec2,
    /// Handle to the backend's view matrix; forwarded, never read.
    pub view: u64,
}

pub open spec fn camera_wf(c: Camera) -> bool {
    &&& vec2_bounded(c.dimensions)
    &&& 1 <= c.dimensions.x@.num
    &&& 1 <= c.dimensions.y@.num
}

/// An entity's place in world space; the manager writes the projected screen
/// anchor into it each frame.
#[derive(Clone, Copy, PartialEq, Eq, Structural, Debug)]
pub struct Transform {
    pub active: bool,
    pub position: Vec2,
    pub scale: Vec2,
}

pub open spec fn transform_wf(t: Transform) -> bool {
    vec2_wf(t.position) && vec2_wf(t.scale)
}

/// What the renderer reads of a sprite: its depth and the handles it forwards
/// into the draw submission.
#[derive(Clone, Copy, PartialEq, Eq, Structural, Debug)]
pub struct Sprite {
    pub active: bool,
    /// Depth; draw order is ascending in this value.
    pub z: Frac,
    /// Packed color forwarded to the draw submission.
    pub color: u32,
    /// Handle to the backend texture and its sampling behaviour.
    pub texture: u64,
    /// Handle to the vertex buffer and primitive format.
    pub shape: u64,
    /// Handle to the backend draw-parameter set.
    pub draw_parameters: u64,
}

pub open spec fn sprite_wf(s: Sprite) -> bool {
    rat_wf(s.z@)
}

pub open spec fn widget_wf(w: Widget) -> bool {
    vec2_bounded(w.spec_dims())
}

pub open spec fn callback_wf(c: Callback<Vec2>) -> bool {
    match c.value {
        Some(v) => vec2_wf(v),
        None => true,
    }
}

/// One entity's slots, one per component type the overlay touches.
#[derive(Clone, Copy, PartialEq, Eq, Structural, Debug)]
pub struct Entity {
    pub camera: Option<Camera>,
    pub transform: Option<Transform>,
    pub screen_pos: Option<ScreenPos>,
    pub widget: Option<Widget>,
    pub callback: Option<Callback<Vec2>>,
    pub sprite: Option<Sprite>,
}

impl Entity {
    /// An entity with every slot empty.
    pub fn new() -> (r: Entity)
        ensures
            r == (Entity {
                camera: None,
                transform: None,
                screen_pos: None,
                widget: None,
                callback: None,
                sprite: None,
            }),
    {
        Entity {
            camera: None,
            transform: None,
            screen_pos: None,
            widget: None,
            callback: None,
            sprite: None,
        }
    }
}

pub open spec fn entity_wf(e: Entity) -> bool {
    &&& match e.camera {
        Some(c) => camera_wf(c),
        None => true,
    }
    &&& match e.transform {
        Some(t) => transform_wf(t),
        None => true,
    }
    &&& match e.screen_pos {
        Some(s) => screen_pos_wf(s),
        None => true,
    }
    &&& match e.widget {
        Some(w) => widget_wf(w),
        None => true,
    }
    &&& match e.callback {
        Some(c) => callback_wf(c),
        None => true,
    }
    &&& match e.sprite {
        Some(s) => sprite_wf(s),
        None => true,
    }
}

/// The component store: one `Entity` per live entity id, iterated in index
/// order. Index order is this store's iteration order; no pass relies on it
/// beyond first-found camera selection.
pub struct World {
    pub entities: Vec<Entity>,
}

pub open spec fn world_wf(w: World) -> bool {
    forall|i: int| 0 <= i < w.entities@.len() ==> entity_wf(#[trigger] w.entities@[i])
}

impl World {
    pub fn new() -> (r: World)
        ensures
            r.entities@.len() == 0,
            world_wf(r),
    {
        World { entities: Vec::new() }
    }

    /// Adds an entity, returning its id.
    pub fn push(&mut self, ent: Entity) -> (r: usize)
        requires
            entity_wf(ent),
            world_wf(*old(self)),
        ensures
            final(self).entities@ == old(self).entities@.push(ent),
            r == old(self).entities@.len(),
            world_wf(*final(self)),
    {
        let r = self.entities.len();
        self.entities.push(ent);
        r
    }
}

/// Entity `i` carries both an active camera and an active transform: the
/// pair the manager projects against.
pub open spec fn camera_pair_at(w: World, i: int) -> bool {
    &&& w.entities@[i].camera matches Some(c) && c.active
    &&& w.entities@[i].transform matches Some(t) && t.active
}

/// The least entity index at or after `i` carrying an active camera and
/// transform pair.
pub open spec fn first_camera_pair_from(w: World, i: int) -> Option<int>
    decreases w.entities@.len() - i,
    when 0 <= i <= w.entities@.len()
{
    if i >= w.entities@.len() {
        None
    } else if camera_pair_at(w, i) {
        Some(i)
    } else {
        first_camera_pair_from(w, i + 1)
    }
}

/// The camera/transform pair the manager uses: the first found in index
/// order. When several cameras are active the choice among them is this
/// store's iteration order, documented as arbitrary.
pub open spec fn first_camera_pair(w: World) -> Option<int> {
    first_camera_pair_from(w, 0)
}

/// Entity `i` carries an active camera (the renderer's filter, which does
/// not ask for a transform).
pub open spec fn camera_active_at(w: World, i: int) -> bool {
    w.entities@[i].camera matches Some(c) && c.active
}

/// The least entity index at or after `i` carrying an active camera.
pub open spec fn first_active_camera_from(w: World, i: int) -> Option<int>
    decreases w.entities@.len() - i,
    when 0 <= i <= w.entities@.len()
{
    if i >= w.entities@.len() {
        None
    } else if camera_active_at(w, i) {
        Some(i)
    } else {
        first_active_camera_from(w, i + 1)
    }
}

/// The camera the renderer draws with: the first active one in index order.
pub open spec fn first_active_camera(w: World) -> Option<int> {
    first_active_camera_from(w, 0)
}

/// Finds the first entity carrying both an active camera and an active
/// transform.
pub fn find_camera_pair(w: &World) -> (r: Option<usize>)
    ensures
        match r {
            Some(e) => e < w.entities@.len() && first_camera_pair(*w) == Some(e as int)
                && camera_pair_at(*w, e as int),
            None => first_camera_pair(*w) is None,
        },
{
    let n = w.entities.len();
    let mut i: usize = 0;
    while i < n
        invariant
            i <= n,
            n == w.entities@.len(),
            first_camera_pair(*w) == first_camera_pair_from(*w, i as int),
        decreases n - i,
    {
        let ent = &w.entities[i];
        let cam_ok = match &ent.camera {
            Some(c) => c.active,
            None => false,
        };
        let t_ok = match &ent.transform {
            Some(t) => t.active,
            None => false,
        };
        if cam_ok && t_ok {
            return Some(i);
        }
        i = i + 1;
    }
    None
}

/// Finds the first entity carrying an active camera.
pub fn find_active_camera(w: &World) -> (r: Option<usize>)
    ensures
        match r {
            Some(e) => e < w.entities@.len() && first_active_camera(*w) == Some(e as int)
                && camera_active_at(*w, e as int),
            None => first_active_camera(*w) is None,
        },
{
    let n = w.entities.len();
    let mut i: usize = 0;
    while i < n
        invariant
            i <= n,
            n == w.entities@.len(),
            first_active_camera(*w) == first_active_camera_from(*w, i as int),
        decreases n - i,
    {
        let ent = &w.entities[i];
        let cam_ok = match &ent.camera {
            Some(c) => c.active,
            None => false,
        };
        if cam_ok {
            return Some(i);
        }
        i = i + 1;
    }
    None
}

} // verus!
