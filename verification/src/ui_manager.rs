//! The per-frame event and coordinate pipeline.
//!
//! The manager ingests raw window and input events into frame state, projects
//! each UI entity's screen anchor into world space against the active camera,
//! and routes the current event through each active widget's handler.

use vstd::prelude::*;
use crate::events::Event;
use crate::events::event_wf;
use crate::frac::Frac;
use crate::frac::Rat;
use crate::frac::Vec2;
use crate::frac::rat_bounded;
use crate::frac::rat_wf;
use crate::frac::vec2_bounded;
use crate::frac::vec2_wf;
use crate::frac::lemma_mul_bounds;
use crate::frac::lemma_mul_pos;
use crate::screen_pos::ScreenPos;
use crate::screen_pos::screen_pos_wf;
use crate::ui::UiError;
use crate::ui::entity_after_apply;
use crate::ui::update_of;
use crate::world::Camera;
use crate::world::Entity;
use crate::world::Transform;
use crate::world::World;
use crate::world::camera_wf;
use crate::world::find_camera_pair;
use crate::world::first_camera_pair;
use crate::world::transform_wf;
use crate::world::world_wf;

verus! {

/// Frame-local window and pointer state, updated in place as resize and
/// cursor events arrive and read by every handler produced this frame.
#[derive(Clone, Copy, PartialEq, Eq, Debug)]
pub struct UiManager {
    /// Window dimensions in raw pixels, from the last resize event.
    pub window_dims: (u32, u32),
    /// Pointer position in raw pixels, from the last cursor-move event.
    pub mouse_pos: Vec2,
}

impl Default for UiManager {
    /// A manager that has seen no events yet.
    fn default() -> (r: Self)
        ensures
            r.window_dims == (0u32, 0u32),
            r.mouse_pos == (Vec2 { x: Frac { num: 0, den: 1 }, y: Frac { num: 0, den: 1 } }),
            manager_wf(r),
    {
        UiManager {
            window_dims: (0, 0),
            mouse_pos: Vec2 { x: Frac { num: 0, den: 1 }, y: Frac { num: 0, den: 1 } },
        }
    }
}

pub open spec fn manager_wf(m: UiManager) -> bool {
    vec2_bounded(m.mouse_pos)
}

/// Frame state after one event: a resize replaces the window dimensions, a
/// pointer move replaces the pointer position, and every other event leaves
/// the state as it was.
pub open spec fn state_after(m: UiManager, ev: Event) -> UiManager {
    match ev {
        Event::WindowResized { width, height } => UiManager {
            window_dims: (width, height),
            mouse_pos: m.mouse_pos,
        },
        Event::PointerMoved { x, y } => UiManager {
            window_dims: m.window_dims,
            mouse_pos: Vec2 { x, y },
        },
        _ => m,
    }
}

/// Numerator of `t + p / c` over a common denominator.
pub open spec fn s2w_num(t: Rat, p: Rat, c: Rat) -> int {
    (t.num * p.den) * c.num + (p.num * c.den) * t.den
}

/// Denominator of `t + p / c` over a common denominator.
pub open spec fn s2w_den(t: Rat, p: Rat, c: Rat) -> int {
    (t.den * p.den) * c.num
}

/// The exact projected coordinate fits in machine integers.
pub open spec fn s2w_fits(t: Rat, p: Rat, c: Rat) -> bool {
    &&& i64::MIN <= s2w_num(t, p, c) <= i64::MAX
    &&& s2w_den(t, p, c) <= i64::MAX
}

/// `t + p / c`: a world position from a transform coordinate, a screen
/// anchor coordinate, and a camera dimension.
pub open spec fn rat_s2w(t: Rat, p: Rat, c: Rat) -> Rat {
    Rat { num: s2w_num(t, p, c), den: s2w_den(t, p, c) }
}

/// Both axes of one entity's projection fit machine integers.
pub open spec fn pass_fits(ct: Transform, sp: ScreenPos, cam: Camera) -> bool {
    &&& s2w_fits(ct.position.x@, sp.position.x@, cam.dimensions.x@)
    &&& s2w_fits(ct.position.y@, sp.position.y@, cam.dimensions.y@)
}

/// The projected world position the pass writes into an entity's transform.
pub open spec fn pass_position(ct: Transform, sp: ScreenPos, cam: Camera) -> Vec2 {
    Vec2 {
        x: Frac {
            num: s2w_num(ct.position.x@, sp.position.x@, cam.dimensions.x@) as i64,
            den: s2w_den(ct.position.x@, sp.position.x@, cam.dimensions.x@) as i64,
        },
        y: Frac {
            num: s2w_num(ct.position.y@, sp.position.y@, cam.dimensions.y@) as i64,
            den: s2w_den(ct.position.y@, sp.position.y@, cam.dimensions.y@) as i64,
        },
    }
}

/// The state of one entity after the manager's pass, against the chosen
/// camera `cam` and its transform `ct` and the frame state `st`: an entity
/// carrying an active screen anchor and a transform has its world position
/// recomputed (when the exact value fits machine integers), and then its
/// active widget's handler applied; every other entity is untouched.
pub open spec fn entity_after_pass(
    ent: Entity,
    cam: Camera,
    ct: Transform,
    st: UiManager,
    ev: Event,
) -> Entity {
    match (ent.screen_pos, ent.transform) {
        (Some(sp), Some(t)) => if sp.active {
            let t2 = Transform {
                active: t.active,
                position: if pass_fits(ct, sp, cam) {
                    pass_position(ct, sp, cam)
                } else {
                    t.position
                },
                scale: t.scale,
            };
            let ent2 = Entity { transform: Some(t2), ..ent };
            match ent.widget {
                Some(wdg) => if wdg.spec_active() {
                    entity_after_apply(ent2, update_of(wdg, st), ev)
                } else {
                    ent2
                },
                None => ent2,
            }
        } else {
            ent
        },
        _ => ent,
    }
}

/// One axis of the projection, exactly, or `None` when the exact result does
/// not fit in an `i64` fraction.
fn s2w_axis(t: &Frac, p: &Frac, c: &Frac) -> (r: Option<Frac>)
    requires
        rat_wf(t@),
        rat_bounded(p@),
        rat_bounded(c@),
        1 <= c@.num,
    ensures
        match r {
            Some(v) => s2w_fits(t@, p@, c@) && v@ == rat_s2w(t@, p@, c@) && rat_wf(v@),
            None => !s2w_fits(t@, p@, c@),
        },
{
    proof {
        lemma_mul_bounds(t.num as int, p.den as int, 0x8000_0000_0000_0000, 0x4000_0000);
        lemma_mul_bounds(
            t.num as int * p.den as int,
            c.num as int,
            0x2000_0000_0000_0000_0000_0000,
            0x4000_0000,
        );
        lemma_mul_bounds(p.num as int, c.den as int, 0x4000_0000, 0x4000_0000);
        lemma_mul_bounds(
            p.num as int * c.den as int,
            t.den as int,
            0x1000_0000_0000_0000,
            0x8000_0000_0000_0000,
        );
        lemma_mul_bounds(t.den as int, p.den as int, 0x8000_0000_0000_0000, 0x4000_0000);
        lemma_mul_bounds(
            t.den as int * p.den as int,
            c.num as int,
            0x2000_0000_0000_0000_0000_0000,
            0x4000_0000,
        );
        lemma_mul_pos(t.den as int, p.den as int);
        lemma_mul_pos(t.den as int * p.den as int, c.num as int);
    }
    let num: i128 = ((t.num as i128) * (p.den as i128)) * (c.num as i128) + ((p.num as i128) * (
    c.den as i128)) * (t.den as i128);
    let den: i128 = ((t.den as i128) * (p.den as i128)) * (c.num as i128);
    if num >= i64::MIN as i128 && num <= i64::MAX as i128 && den <= i64::MAX as i128 {
        Some(Frac { num: num as i64, den: den as i64 })
    } else {
        None
    }
}

impl UiManager {
    /// Projects a screen anchor into world space against the active camera's
    /// transform and dimensions: `transform.position + screen / camera.dims`,
    /// exactly; `None` when the exact result does not fit machine integers.
    pub fn screen_to_world_pos(camera: &Camera, transform: &Transform, screen_pos: &ScreenPos) -> (r:
        Option<Vec2>)
        requires
            camera_wf(*camera),
            transform_wf(*transform),
            screen_pos_wf(*screen_pos),
        ensures
            match r {
                Some(p) => {
                    &&& s2w_fits(transform.position.x@, screen_pos.position.x@, camera.dimensions.x@)
                    &&& s2w_fits(transform.position.y@, screen_pos.position.y@, camera.dimensions.y@)
                    &&& p.x@ == rat_s2w(
                        transform.position.x@,
                        screen_pos.position.x@,
                        camera.dimensions.x@,
                    )
                    &&& p.y@ == rat_s2w(
                        transform.position.y@,
                        screen_pos.position.y@,
                        camera.dimensions.y@,
                    )
                    &&& vec2_wf(p)
                },
                None => !(s2w_fits(transform.position.x@, screen_pos.position.x@, camera.dimensions.x@)
                    && s2w_fits(
                    transform.position.y@,
                    screen_pos.position.y@,
                    camera.dimensions.y@,
                )),
            },
    {
        let x = s2w_axis(&transform.position.x, &screen_pos.position.x, &camera.dimensions.x);
        let y = s2w_axis(&transform.position.y, &screen_pos.position.y, &camera.dimensions.y);
        match (x, y) {
            (Some(px), Some(py)) => Some(Vec2 { x: px, y: py }),
            _ => None,
        }
    }

    /// One manager invocation: ingest the event into frame state, then run
    /// the per-frame pass. The pass projects every entity carrying an active
    /// screen anchor and a transform against the first active camera and
    /// transform pair, and routes the event through each such entity's active
    /// widget; with no such pair the world is left untouched. With the
    /// built-in widget set no handler fails, so the pass always completes.
    pub fn update(&mut self, ev: &Event, world: &mut World) -> (r: Result<(), UiError>)
        requires
            manager_wf(*old(self)),
            world_wf(*old(world)),
            event_wf(*ev),
        ensures
            r is Ok,
            *final(self) == state_after(*old(self), *ev),
            manager_wf(*final(self)),
            world_wf(*final(world)),
            final(world).entities@.len() == old(world).entities@.len(),
            match first_camera_pair(*old(world)) {
                None => *final(world) == *old(world),
                Some(ce) => forall|j: int|
                    0 <= j < old(world).entities@.len() ==> #[trigger] final(world).entities@[j]
                        == entity_after_pass(
                        old(world).entities@[j],
                        old(world).entities@[ce].camera->0,
                        old(world).entities@[ce].transform->0,
                        *final(self),
                        *ev,
                    ),
            },
    {
        match *ev {
            Event::WindowResized { width, height } => {
                self.window_dims = (width, height);
            },
            Event::PointerMoved { x, y } => {
                self.mouse_pos = Vec2 { x, y };
            },
            _ => {},
        }
        let ghost st = *self;
        let ghost w0 = *world;
        let cam_idx = match find_camera_pair(world) {
            Some(i) => i,
            None => {
                return Ok(());
            },
        };
        let ent_c = world.entities[cam_idx];
        let cam = ent_c.camera.unwrap();
        let ct = ent_c.transform.unwrap();
        let n = world.entities.len();
        let mut i: usize = 0;
        while i < n
            invariant
                i <= n,
                n == world.entities@.len(),
                n == w0.entities@.len(),
                *self == st,
                manager_wf(st),
                world_wf(*world),
                camera_wf(cam),
                transform_wf(ct),
                forall|j: int|
                    0 <= j < i ==> #[trigger] world.entities@[j] == entity_after_pass(
                        w0.entities@[j],
                        cam,
                        ct,
                        st,
                        *ev,
                    ),
                forall|j: int| i <= j < n ==> #[trigger] world.entities@[j] == w0.entities@[j],
            decreases n - i,
        {
            let ent = world.entities[i];
            let sp_active = match ent.screen_pos {
                Some(sp) => sp.active,
                None => false,
            };
            if sp_active && ent.transform.is_some() {
                let sp = ent.screen_pos.unwrap();
                let t = ent.transform.unwrap();
                match Self::screen_to_world_pos(&cam, &ct, &sp) {
                    Some(p) => {
                        let mut ent2 = ent;
                        ent2.transform = Some(
                            Transform { active: t.active, position: p, scale: t.scale },
                        );
                        let slot = &mut world.entities[i];
                        *slot = ent2;
                    },
                    None => {
                        proof {
                            assert(world.entities@[i as int] == ent);
                            assert(Transform { active: t.active, position: t.position, scale: t.scale }
                                == t);
                        }
                    },
                }
                match ent.widget {
                    Some(wdg) => {
                        if wdg.active() {
                            let u = wdg.produce_handler(self);
                            match u.apply(i, ev, world) {
                                Ok(_) => {},
                                Err(er) => {
                                    return Err(er);
                                },
                            }
                        }
                    },
                    None => {},
                }
            }
            i = i + 1;
        }
        Ok(())
    }
}

} // verus!
