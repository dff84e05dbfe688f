//! The per-frame draw pipeline.
//!
//! On a draw tick the renderer collects every entity carrying an active
//! sprite and an active screen anchor, orders the set by depth ascending with
//! a stable sort, and emits one draw submission per sprite. The submissions
//! are returned as data; handing them to the graphics backend is the
//! caller's side of the interface.

use vstd::prelude::*;
use crate::events::Event;
use crate::frac::Frac;
use crate::frac::Vec2;
use crate::frac::rat_eq;
use crate::frac::rat_le;
use crate::frac::rat_lt;
use crate::frac::rat_wf;
use crate::world::World;
use crate::world::entity_wf;
use crate::world::find_active_camera;
use crate::world::first_active_camera;
use crate::world::world_wf;

verus! {

/// One draw submission: the depth and uniform data for a single sprite, in
/// the order the backend must draw them.
#[derive(Clone, Copy, PartialEq, Eq, Structural, Debug)]
pub struct DrawCmd {
    /// The entity the sprite belongs to.
    pub entity: usize,
    /// Depth uniform; submissions are ordered ascending in this value.
    pub z: Frac,
    /// Translation part of the sprite's transform uniform.
    pub position: Vec2,
    /// Scale part of the sprite's transform uniform.
    pub scale: Vec2,
    /// Handle to the active camera's view matrix.
    pub camera_view: u64,
    /// The sprite's packed color.
    pub color: u32,
    /// Handle to the sprite's texture and sampling behaviour.
    pub texture: u64,
    /// Handle to the sprite's vertex buffer and primitive format.
    pub shape: u64,
    /// Handle to the sprite's backend draw-parameter set.
    pub draw_parameters: u64,
    /// Handle to the shader program the overlay draws with.
    pub shader: u64,
}

/// What one draw tick produces: whether the depth buffer was cleared, and
/// the submissions in the exact order they are to be issued.
#[derive(PartialEq, Eq, Debug)]
pub struct FrameDraws {
    pub depth_cleared: bool,
    pub draws: Vec<DrawCmd>,
}

/// Every depth value in the sequence is a well-formed fraction.
pub open spec fn draws_wf(s: Seq<DrawCmd>) -> bool {
    forall|k: int| 0 <= k < s.len() ==> rat_wf(#[trigger] s[k].z@)
}

/// The sequence is ordered by depth, ascending.
pub open spec fn sorted_by_z(s: Seq<DrawCmd>) -> bool {
    forall|i: int, j: int| 0 <= i < j < s.len() ==> rat_le(#[trigger] s[i].z@, #[trigger] s[j].z@)
}

/// Insertion of one submission into an ordered sequence: it lands after
/// every submission whose depth is less than or equal to its own, so equal
/// depths keep their existing order.
pub open spec fn insert_sorted(s: Seq<DrawCmd>, x: DrawCmd) -> Seq<DrawCmd>
    decreases s.len(),
{
    if s.len() == 0 {
        seq![x]
    } else if rat_le(s.last().z@, x.z@) {
        s.push(x)
    } else {
        insert_sorted(s.drop_last(), x).push(s.last())
    }
}

/// The stable ascending-depth ordering of a submission sequence.
pub open spec fn sort_by_z(s: Seq<DrawCmd>) -> Seq<DrawCmd>
    decreases s.len(),
{
    if s.len() == 0 {
        s
    } else {
        insert_sorted(sort_by_z(s.drop_last()), s.last())
    }
}

/// `<=` on rationals is transitive (denominators positive).
proof fn lemma_rat_le_trans(a: crate::frac::Rat, b: crate::frac::Rat, c: crate::frac::Rat)
    requires
        rat_wf(a),
        rat_wf(b),
        rat_wf(c),
        rat_le(a, b),
        rat_le(b, c),
    ensures
        rat_le(a, c),
{
    assert(a.num * c.den <= c.num * a.den) by (nonlinear_arith)
        requires
            1 <= a.den,
            1 <= b.den,
            1 <= c.den,
            a.num * b.den <= b.num * a.den,
            b.num * c.den <= c.num * b.den,
    ;
}

/// Every element of `insert_sorted(s, x)` is an element of `s` or is `x`,
/// and one element was added.
proof fn lemma_insert_elems(s: Seq<DrawCmd>, x: DrawCmd)
    ensures
        insert_sorted(s, x).len() == s.len() + 1,
        forall|k: int|
            0 <= k < insert_sorted(s, x).len() ==> s.contains(#[trigger] insert_sorted(s, x)[k])
                || insert_sorted(s, x)[k] == x,
    decreases s.len(),
{
    if s.len() == 0 {
    } else if rat_le(s.last().z@, x.z@) {
    } else {
        lemma_insert_elems(s.drop_last(), x);
        assert forall|k: int| 0 <= k < insert_sorted(s, x).len() implies s.contains(
            #[trigger] insert_sorted(s, x)[k],
        ) || insert_sorted(s, x)[k] == x by {
            let r = insert_sorted(s.drop_last(), x);
            if k < r.len() {
                if s.drop_last().contains(r[k]) {
                    let j = choose|j: int| 0 <= j < s.drop_last().len() && s.drop_last()[j] == r[k];
                    assert(s[j] == r[k]);
                }
            } else {
                assert(insert_sorted(s, x)[k] == s.last());
                assert(s[s.len() - 1] == s.last());
            }
        }
    }
}

/// Every element of `sort_by_z(s)` is an element of `s`, and the length is
/// unchanged.
proof fn lemma_sort_elems(s: Seq<DrawCmd>)
    ensures
        sort_by_z(s).len() == s.len(),
        forall|k: int|
            0 <= k < sort_by_z(s).len() ==> s.contains(#[trigger] sort_by_z(s)[k]),
    decreases s.len(),
{
    if s.len() == 0 {
    } else {
        lemma_sort_elems(s.drop_last());
        lemma_insert_elems(sort_by_z(s.drop_last()), s.last());
        assert forall|k: int| 0 <= k < sort_by_z(s).len() implies s.contains(
            #[trigger] sort_by_z(s)[k],
        ) by {
            let r = sort_by_z(s.drop_last());
            let e = sort_by_z(s)[k];
            if r.contains(e) {
                let j = choose|j: int| 0 <= j < r.len() && r[j] == e;
                let m = choose|m: int| 0 <= m < s.drop_last().len() && s.drop_last()[m] == r[j];
                assert(s[m] == e);
            } else {
                assert(e == s.last());
                assert(s[s.len() - 1] == s.last());
            }
        }
    }
}

/// `insert_sorted` keeps well-formed depths well formed.
proof fn lemma_insert_wf(s: Seq<DrawCmd>, x: DrawCmd)
    requires
        draws_wf(s),
        rat_wf(x.z@),
    ensures
        draws_wf(insert_sorted(s, x)),
{
    lemma_insert_elems(s, x);
    assert forall|k: int| 0 <= k < insert_sorted(s, x).len() implies rat_wf(
        #[trigger] insert_sorted(s, x)[k].z@,
    ) by {
        if s.contains(insert_sorted(s, x)[k]) {
            let j = choose|j: int| 0 <= j < s.len() && s[j] == insert_sorted(s, x)[k];
            assert(rat_wf(s[j].z@));
        }
    }
}

/// `insert_sorted` keeps an ordered sequence ordered.
proof fn lemma_insert_sorted(s: Seq<DrawCmd>, x: DrawCmd)
    requires
        draws_wf(s),
        rat_wf(x.z@),
        sorted_by_z(s),
    ensures
        sorted_by_z(insert_sorted(s, x)),
    decreases s.len(),
{
    if s.len() == 0 {
    } else if rat_le(s.last().z@, x.z@) {
        assert forall|i: int, j: int| 0 <= i < j < s.push(x).len() implies rat_le(
            #[trigger] s.push(x)[i].z@,
            #[trigger] s.push(x)[j].z@,
        ) by {
            if j == s.len() {
                if i < s.len() - 1 {
                    assert(rat_le(s[i].z@, s.last().z@));
                    lemma_rat_le_trans(s[i].z@, s.last().z@, x.z@);
                }
            }
        }
    } else {
        let s0 = s.drop_last();
        lemma_insert_sorted(s0, x);
        lemma_insert_elems(s0, x);
        lemma_insert_wf(s0, x);
        let r = insert_sorted(s0, x);
        assert forall|i: int, j: int| 0 <= i < j < r.push(s.last()).len() implies rat_le(
            #[trigger] r.push(s.last())[i].z@,
            #[trigger] r.push(s.last())[j].z@,
        ) by {
            if j == r.len() {
                let e = r[i];
                if s0.contains(e) {
                    let m = choose|m: int| 0 <= m < s0.len() && s0[m] == e;
                    assert(s[m] == e);
                    assert(rat_le(s[m].z@, s.last().z@));
                } else {
                    assert(e == x);
                    assert(rat_lt(x.z@, s.last().z@));
                }
            }
        }
    }
}

/// The sorted sequence really is ordered by depth, ascending.
pub proof fn lemma_sort_sorted(s: Seq<DrawCmd>)
    requires
        draws_wf(s),
    ensures
        sorted_by_z(sort_by_z(s)),
        draws_wf(sort_by_z(s)),
        sort_by_z(s).len() == s.len(),
    decreases s.len(),
{
    lemma_sort_elems(s);
    assert forall|k: int| 0 <= k < sort_by_z(s).len() implies rat_wf(
        #[trigger] sort_by_z(s)[k].z@,
    ) by {
        let j = choose|j: int| 0 <= j < s.len() && s[j] == sort_by_z(s)[k];
        assert(rat_wf(s[j].z@));
    }
    if s.len() == 0 {
    } else {
        let s0 = s.drop_last();
        assert(draws_wf(s0)) by {
            assert forall|k: int| 0 <= k < s0.len() implies rat_wf(#[trigger] s0[k].z@) by {
                assert(s0[k] == s[k]);
            }
        }
        lemma_sort_sorted(s0);
        lemma_insert_sorted(sort_by_z(s0), s.last());
    }
}

/// An already-ordered sequence is a fixed point of the sort.
pub proof fn lemma_sorted_fixed(s: Seq<DrawCmd>)
    requires
        draws_wf(s),
        sorted_by_z(s),
    ensures
        sort_by_z(s) == s,
    decreases s.len(),
{
    if s.len() == 0 {
    } else {
        let s0 = s.drop_last();
        assert(draws_wf(s0) && sorted_by_z(s0)) by {
            assert(forall|k: int| 0 <= k < s0.len() ==> s0[k] == #[trigger] s[k]);
        }
        lemma_sorted_fixed(s0);
        if s0.len() == 0 {
            assert(insert_sorted(s0, s.last()) =~= s);
        } else {
            assert(s0.last() == s[s.len() - 2]);
            assert(rat_le(s0.last().z@, s.last().z@));
            assert(insert_sorted(s0, s.last()) =~= s);
        }
    }
}

/// Sorting is idempotent: ordering an already-ordered submission set again
/// leaves it exactly as it was, so rendering the same set twice issues the
/// same order twice.
pub proof fn lemma_sort_idempotent(s: Seq<DrawCmd>)
    requires
        draws_wf(s),
    ensures
        sort_by_z(sort_by_z(s)) == sort_by_z(s),
{
    lemma_sort_sorted(s);
    lemma_sorted_fixed(sort_by_z(s));
}

/// Stability of the depth sort: when the input's entities are strictly
/// increasing, two submissions of equal depth keep that order in the output.
pub proof fn lemma_sort_stable(s: Seq<DrawCmd>)
    requires
        draws_wf(s),
        forall|i: int, j: int| 0 <= i < j < s.len() ==> s[i].entity < s[j].entity,
    ensures
        forall|i: int, j: int|
            0 <= i < j < sort_by_z(s).len() && rat_eq(sort_by_z(s)[i].z@, sort_by_z(s)[j].z@)
                ==> sort_by_z(s)[i].entity < sort_by_z(s)[j].entity,
    decreases s.len(),
{
    if s.len() == 0 {
    } else {
        let s0 = s.drop_last();
        let x = s.last();
        assert(draws_wf(s0)) by {
            assert(forall|k: int| 0 <= k < s0.len() ==> s0[k] == #[trigger] s[k]);
        }
        assert(forall|i: int, j: int| 0 <= i < j < s0.len() ==> s0[i].entity < s0[j].entity) by {
            assert(forall|k: int| 0 <= k < s0.len() ==> s0[k] == #[trigger] s[k]);
        }
        lemma_sort_stable(s0);
        lemma_sort_elems(s0);
        let r = sort_by_z(s0);
        assert forall|k: int| 0 <= k < r.len() implies r[k].entity < x.entity by {
            let m = choose|m: int| 0 <= m < s0.len() && s0[m] == r[k];
            assert(s[m] == s0[m]);
            assert(s[m].entity < s[s.len() - 1].entity);
        }
        assert(draws_wf(r)) by {
            assert forall|k: int| 0 <= k < r.len() implies rat_wf(#[trigger] r[k].z@) by {
                let m = choose|m: int| 0 <= m < s0.len() && s0[m] == r[k];
                assert(rat_wf(s0[m].z@));
            }
        }
        lemma_insert_stable(r, x);
    }
}

/// Stability of one insertion: the new submission lands after every existing
/// submission of equal depth, and existing submissions keep their order.
proof fn lemma_insert_stable(s: Seq<DrawCmd>, x: DrawCmd)
    requires
        draws_wf(s),
        rat_wf(x.z@),
        forall|k: int| 0 <= k < s.len() ==> s[k].entity < x.entity,
        forall|i: int, j: int|
            0 <= i < j < s.len() && rat_eq(s[i].z@, s[j].z@) ==> s[i].entity < s[j].entity,
    ensures
        forall|i: int, j: int|
            0 <= i < j < insert_sorted(s, x).len() && rat_eq(
                insert_sorted(s, x)[i].z@,
                insert_sorted(s, x)[j].z@,
            ) ==> insert_sorted(s, x)[i].entity < insert_sorted(s, x)[j].entity,
    decreases s.len(),
{
    if s.len() == 0 {
    } else if rat_le(s.last().z@, x.z@) {
        assert forall|i: int, j: int|
            0 <= i < j < s.push(x).len() && rat_eq(
                s.push(x)[i].z@,
                s.push(x)[j].z@,
            ) implies s.push(x)[i].entity < s.push(x)[j].entity by {
            if j == s.len() {
                assert(s.push(x)[i] == s[i]);
                assert(s[i].entity < x.entity);
            }
        }
    } else {
        let s0 = s.drop_last();
        assert(draws_wf(s0)) by {
            assert(forall|k: int| 0 <= k < s0.len() ==> s0[k] == #[trigger] s[k]);
        }
        assert(forall|k: int| 0 <= k < s0.len() ==> #[trigger] s0[k].entity < x.entity) by {
            assert(forall|k: int| 0 <= k < s0.len() ==> s0[k] == #[trigger] s[k]);
        }
        assert(forall|i: int, j: int|
            0 <= i < j < s0.len() && rat_eq(s0[i].z@, s0[j].z@) ==> s0[i].entity < s0[j].entity) by {
            assert(forall|k: int| 0 <= k < s0.len() ==> s0[k] == #[trigger] s[k]);
        }
        lemma_insert_stable(s0, x);
        lemma_insert_elems(s0, x);
        let r = insert_sorted(s0, x);
        assert forall|i: int, j: int|
            0 <= i < j < r.push(s.last()).len() && rat_eq(
                r.push(s.last())[i].z@,
                r.push(s.last())[j].z@,
            ) implies r.push(s.last())[i].entity < r.push(s.last())[j].entity by {
            if j == r.len() {
                let e = r[i];
                if s0.contains(e) {
                    let m = choose|m: int| 0 <= m < s0.len() && s0[m] == e;
                    assert(s[m] == e);
                    assert(s[m].entity < s[s.len() - 1].entity);
                } else {
                    assert(e == x);
                    assert(rat_lt(x.z@, s.last().z@));
                }
            }
        }
    }
}

/// Entity `i` belongs to the draw set: both its sprite and its screen anchor
/// are present and active.
pub open spec fn visible_at(w: World, i: int) -> bool {
    &&& w.entities@[i].sprite matches Some(s) && s.active
    &&& w.entities@[i].screen_pos matches Some(p) && p.active
}

/// The submission for entity `i`: its sprite's depth and uniform data, the
/// camera's view handle and the renderer's shader handle.
pub open spec fn cmd_at(w: World, i: int, view: u64, shader: u64) -> DrawCmd {
    DrawCmd {
        entity: i as usize,
        z: w.entities@[i].sprite->0.z,
        position: w.entities@[i].screen_pos->0.position,
        scale: w.entities@[i].screen_pos->0.scale,
        camera_view: view,
        color: w.entities@[i].sprite->0.color,
        texture: w.entities@[i].sprite->0.texture,
        shape: w.entities@[i].sprite->0.shape,
        draw_parameters: w.entities@[i].sprite->0.draw_parameters,
        shader,
    }
}

/// The draw set of the first `n` entities, in entity-index order.
pub open spec fn draw_seq_to(w: World, view: u64, shader: u64, n: int) -> Seq<DrawCmd>
    decreases n,
{
    if n <= 0 {
        Seq::empty()
    } else if visible_at(w, n - 1) {
        draw_seq_to(w, view, shader, n - 1).push(cmd_at(w, n - 1, view, shader))
    } else {
        draw_seq_to(w, view, shader, n - 1)
    }
}

/// The frame's draw set: every active sprite/anchor pair, in entity order.
pub open spec fn draw_seq(w: World, view: u64, shader: u64) -> Seq<DrawCmd> {
    draw_seq_to(w, view, shader, w.entities@.len() as int)
}

/// The draw set's depths are well formed and its entities strictly increase
/// in index order (each submission's entity is the index it came from).
proof fn lemma_draw_seq_props(w: World, view: u64, shader: u64, n: int)
    requires
        world_wf(w),
        0 <= n <= w.entities@.len(),
    ensures
        draws_wf(draw_seq_to(w, view, shader, n)),
        forall|k: int|
            0 <= k < draw_seq_to(w, view, shader, n).len() ==> #[trigger] draw_seq_to(
                w,
                view,
                shader,
                n,
            )[k].entity < n,
        forall|i: int, j: int|
            0 <= i < j < draw_seq_to(w, view, shader, n).len() ==> draw_seq_to(
                w,
                view,
                shader,
                n,
            )[i].entity < draw_seq_to(w, view, shader, n)[j].entity,
    decreases n,
{
    if n <= 0 {
    } else {
        lemma_draw_seq_props(w, view, shader, n - 1);
        if visible_at(w, n - 1) {
            assert(entity_wf(w.entities@[n - 1]));
            assert(w.entities@.len() == w.entities.len());
            let prev = draw_seq_to(w, view, shader, n - 1);
            let cur = draw_seq_to(w, view, shader, n);
            assert(cur == prev.push(cmd_at(w, n - 1, view, shader)));
            assert(cmd_at(w, n - 1, view, shader).entity == n - 1);
            assert forall|i: int, j: int| 0 <= i < j < cur.len() implies cur[i].entity
                < cur[j].entity by {
                if j == prev.len() {
                    assert(cur[i] == prev[i]);
                    assert(prev[i].entity < n - 1);
                } else {
                    assert(cur[i] == prev[i]);
                    assert(cur[j] == prev[j]);
                }
            }
        }
    }
}

/// No submission in the draw set names an entity that is not visible.
proof fn lemma_draw_seq_skips(w: World, view: u64, shader: u64, n: int, e: int)
    requires
        0 <= n <= w.entities@.len(),
        !visible_at(w, e),
    ensures
        forall|k: int|
            0 <= k < draw_seq_to(w, view, shader, n).len() ==> #[trigger] draw_seq_to(
                w,
                view,
                shader,
                n,
            )[k].entity != e,
    decreases n,
{
    if n <= 0 {
    } else {
        lemma_draw_seq_skips(w, view, shader, n - 1, e);
        if visible_at(w, n - 1) {
            assert(w.entities@.len() == w.entities.len());
            let prev = draw_seq_to(w, view, shader, n - 1);
            let cur = draw_seq_to(w, view, shader, n);
            assert(cur == prev.push(cmd_at(w, n - 1, view, shader)));
            assert forall|k: int| 0 <= k < cur.len() implies cur[k].entity != e by {
                if k < prev.len() {
                    assert(cur[k] == prev[k]);
                } else {
                    assert(cur[k].entity == n - 1);
                    assert(e != n - 1);
                }
            }
        } else {
            let prev = draw_seq_to(w, view, shader, n - 1);
            let cur = draw_seq_to(w, view, shader, n);
            assert(cur == prev);
            assert forall|k: int| 0 <= k < cur.len() implies cur[k].entity != e by {
                assert(cur[k] == prev[k]);
            }
        }
    }
}

/// Stability of the frame's draw order: two submissions of equal depth are
/// issued in entity-index order, however the sort arranged the rest.
pub proof fn lemma_draw_order_stable(w: World, view: u64, shader: u64)
    requires
        world_wf(w),
    ensures
        forall|i: int, j: int|
            0 <= i < j < sort_by_z(draw_seq(w, view, shader)).len() && rat_eq(
                sort_by_z(draw_seq(w, view, shader))[i].z@,
                sort_by_z(draw_seq(w, view, shader))[j].z@,
            ) ==> sort_by_z(draw_seq(w, view, shader))[i].entity < sort_by_z(
                draw_seq(w, view, shader),
            )[j].entity,
{
    lemma_draw_seq_props(w, view, shader, w.entities@.len() as int);
    lemma_sort_stable(draw_seq(w, view, shader));
}

/// An entity whose sprite is absent or inactive never appears in the frame's
/// submissions, wherever the sort placed the rest.
pub proof fn lemma_inactive_never_drawn(w: World, view: u64, shader: u64, e: int)
    requires
        world_wf(w),
        0 <= e < w.entities@.len(),
        match w.entities@[e].sprite {
            Some(s) => !s.active,
            None => true,
        },
    ensures
        forall|k: int|
            0 <= k < sort_by_z(draw_seq(w, view, shader)).len() ==> #[trigger] sort_by_z(
                draw_seq(w, view, shader),
            )[k].entity != e,
{
    let s = draw_seq(w, view, shader);
    lemma_draw_seq_skips(w, view, shader, w.entities@.len() as int, e);
    lemma_sort_elems(s);
    assert forall|k: int| 0 <= k < sort_by_z(s).len() implies #[trigger] sort_by_z(s)[k].entity
        != e by {
        let j = choose|j: int| 0 <= j < s.len() && s[j] == sort_by_z(s)[k];
        assert(s[j].entity != e);
    }
}

/// Inserts one submission into an already-collected vector, keeping equal
/// depths in their existing order.
fn insert_exec(v: Vec<DrawCmd>, x: DrawCmd) -> (r: Vec<DrawCmd>)
    requires
        draws_wf(v@),
        rat_wf(x.z@),
    ensures
        r@ == insert_sorted(v@, x),
        draws_wf(r@),
    decreases v@.len(),
{
    let mut v = v;
    if v.len() == 0 {
        v.push(x);
        v
    } else {
        let last = v[v.len() - 1];
        if !x.z.lt(&last.z) {
            v.push(x);
            v
        } else {
            let ghost v0 = v@;
            let popped = v.pop();
            proof {
                assert(v@ =~= v0.drop_last());
                assert(forall|k: int| 0 <= k < v@.len() ==> v@[k] == #[trigger] v0[k]);
            }
            let mut r = insert_exec(v, x);
            r.push(last);
            proof {
                lemma_insert_wf(v0.drop_last(), x);
            }
            r
        }
    }
}

/// Orders a collected draw set by depth ascending with a stable insertion
/// sort.
fn sort_draws(items: &Vec<DrawCmd>) -> (r: Vec<DrawCmd>)
    requires
        draws_wf(items@),
    ensures
        r@ == sort_by_z(items@),
{
    let mut out: Vec<DrawCmd> = Vec::new();
    let mut i: usize = 0;
    while i < items.len()
        invariant
            i <= items@.len(),
            draws_wf(items@),
            out@ == sort_by_z(items@.take(i as int)),
            draws_wf(out@),
        decreases items@.len() - i,
    {
        let x = items[i];
        out = insert_exec(out, x);
        proof {
            let t1 = items@.take(i as int + 1);
            assert(t1.drop_last() =~= items@.take(i as int));
            assert(t1.last() == items@[i as int]);
        }
        i = i + 1;
    }
    proof {
        assert(items@.take(items@.len() as int) =~= items@);
    }
    out
}

/// The draw-sort pipeline, bound to one shader program.
pub struct UiRenderer {
    /// Handle to the compiled shader the overlay draws with.
    pub shader: u64,
}

impl UiRenderer {
    /// A renderer drawing with the given shader program.
    pub fn new(shader: u64) -> (r: Self)
        ensures
            r.shader == shader,
    {
        UiRenderer { shader }
    }

    /// One renderer invocation. On a draw tick with an active camera it
    /// clears the depth buffer and returns the frame's submissions: the draw
    /// set ordered by depth ascending, stably. On any other event, or with
    /// no active camera, nothing is cleared and nothing is drawn.
    pub fn update(&self, ev: &Event, world: &World) -> (r: FrameDraws)
        requires
            world_wf(*world),
        ensures
            (*ev is DrawTick && first_active_camera(*world) is Some) ==> {
                &&& r.depth_cleared
                &&& r.draws@ == sort_by_z(
                    draw_seq(
                        *world,
                        world.entities@[first_active_camera(*world)->0].camera->0.view,
                        self.shader,
                    ),
                )
            },
            !(*ev is DrawTick && first_active_camera(*world) is Some) ==> !r.depth_cleared
                && r.draws@.len() == 0,
    {
        let is_draw = match *ev {
            Event::DrawTick => true,
            _ => false,
        };
        if !is_draw {
            return FrameDraws { depth_cleared: false, draws: Vec::new() };
        }
        let cam_idx = match find_active_camera(world) {
            Some(i) => i,
            None => {
                return FrameDraws { depth_cleared: false, draws: Vec::new() };
            },
        };
        let cam = world.entities[cam_idx].camera.unwrap();
        let view = cam.view;
        let n = world.entities.len();
        let mut items: Vec<DrawCmd> = Vec::new();
        let mut i: usize = 0;
        while i < n
            invariant
                i <= n,
                n == world.entities@.len(),
                world_wf(*world),
                items@ == draw_seq_to(*world, view, self.shader, i as int),
                draws_wf(items@),
            decreases n - i,
        {
            let ent = &world.entities[i];
            let vis = match (&ent.sprite, &ent.screen_pos) {
                (Some(s), Some(p)) => s.active && p.active,
                _ => false,
            };
            if vis {
                proof {
                    assert(entity_wf(world.entities@[i as int]));
                }
                let s = ent.sprite.unwrap();
                let p = ent.screen_pos.unwrap();
                items.push(
                    DrawCmd {
                        entity: i,
                        z: s.z,
                        position: p.position,
                        scale: p.scale,
                        camera_view: view,
                        color: s.color,
                        texture: s.texture,
                        shape: s.shape,
                        draw_parameters: s.draw_parameters,
                        shader: self.shader,
                    },
                );
            }
            i = i + 1;
        }
        let sorted = sort_draws(&items);
        FrameDraws { depth_cleared: true, draws: sorted }
    }
}

} // verus!
