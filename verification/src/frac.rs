//! Exact rational coordinates.
//!
//! The overlay works in normalized screen space, so every coordinate is a
//! quotient of two machine integers: a raw pixel position divided by a window
//! dimension, an anchor, a widget extent. `Frac` keeps numerator and
//! denominator as `i64`; `Rat` is its mathematical shadow over `int`, and all
//! contracts compare values by cross-multiplication, which is exact.

use vstd::prelude::*;

verus! {

/// Mathematical value of a `Frac`: an unreduced fraction over `int`.
pub ghost struct Rat {
    pub num: int,
    pub den: int,
}

/// A fraction is well formed when its denominator is positive.
pub open spec fn rat_wf(a: Rat) -> bool {
    1 <= a.den
}

/// `a < b` as rational numbers (denominators positive).
pub open spec fn rat_lt(a: Rat, b: Rat) -> bool {
    a.num * b.den < b.num * a.den
}

/// `a <= b` as rational numbers (denominators positive).
pub open spec fn rat_le(a: Rat, b: Rat) -> bool {
    a.num * b.den <= b.num * a.den
}

/// `a == b` as rational numbers (denominators positive).
pub open spec fn rat_eq(a: Rat, b: Rat) -> bool {
    a.num * b.den == b.num * a.den
}

/// `a - d/2`: the lower edge of a box of extent `d` centered at `a`.
pub open spec fn rat_sub_half(a: Rat, d: Rat) -> Rat {
    Rat { num: 2 * (a.num * d.den) - d.num * a.den, den: 2 * (a.den * d.den) }
}

/// `a + d/2`: the upper edge of a box of extent `d` centered at `a`.
pub open spec fn rat_add_half(a: Rat, d: Rat) -> Rat {
    Rat { num: 2 * (a.num * d.den) + d.num * a.den, den: 2 * (a.den * d.den) }
}

/// `m / w`: a raw pixel coordinate `m` normalized by a window dimension `w`.
pub open spec fn rat_norm(m: Rat, w: int) -> Rat {
    Rat { num: m.num, den: m.den * w }
}

/// Bound on the fractions the overlay stores in components and frame state.
/// Keeping numerators and denominators within it lets every derived value be
/// computed exactly in machine arithmetic.
pub const COORD_BOUND: i64 = 0x4000_0000;

/// A fraction is bounded when both parts fit within `COORD_BOUND`.
pub open spec fn rat_bounded(a: Rat) -> bool {
    &&& -(COORD_BOUND as int) <= a.num <= COORD_BOUND as int
    &&& 1 <= a.den <= COORD_BOUND as int
}

/// An exact rational coordinate: `num / den`, with `den` positive.
#[derive(Clone, Copy, PartialEq, Eq, Structural, Debug)]
pub struct Frac {
    pub num: i64,
    pub den: i64,
}

impl View for Frac {
    type V = Rat;

    open spec fn view(&self) -> Rat {
        Rat { num: self.num as int, den: self.den as int }
    }
}

/// A two-dimensional coordinate pair.
#[derive(Clone, Copy, PartialEq, Eq, Structural, Debug)]
pub struct Vec2 {
    pub x: Frac,
    pub y: Frac,
}

pub open spec fn vec2_wf(v: Vec2) -> bool {
    rat_wf(v.x@) && rat_wf(v.y@)
}

pub open spec fn vec2_bounded(v: Vec2) -> bool {
    rat_bounded(v.x@) && rat_bounded(v.y@)
}

/// `|x * y| <= bx * by` when `|x| <= bx` and `|y| <= by`.
pub proof fn lemma_mul_bounds(x: int, y: int, bx: int, by: int)
    requires
        -bx <= x <= bx,
        -by <= y <= by,
        0 <= bx,
        0 <= by,
    ensures
        -(bx * by) <= x * y <= bx * by,
{
    assert(-(bx * by) <= x * y <= bx * by) by (nonlinear_arith)
        requires
            -bx <= x <= bx,
            -by <= y <= by,
            0 <= bx,
            0 <= by,
    ;
}

/// The product of two positive numbers is at least either factor.
pub proof fn lemma_mul_pos(x: int, y: int)
    requires
        1 <= x,
        1 <= y,
    ensures
        1 <= x * y,
        x <= x * y,
        y <= x * y,
{
    assert(1 <= x * y && x <= x * y && y <= x * y) by (nonlinear_arith)
        requires
            1 <= x,
            1 <= y,
    ;
}

impl Frac {
    pub fn new(num: i64, den: i64) -> (r: Frac)
        requires
            1 <= den,
        ensures
            r.num == num,
            r.den == den,
            rat_wf(r@),
    {
        Frac { num, den }
    }

    /// Exact `self < other`, by cross-multiplication in wide arithmetic.
    pub fn lt(&self, other: &Frac) -> (r: bool)
        requires
            rat_wf(self@),
            rat_wf(other@),
        ensures
            r == rat_lt(self@, other@),
    {
        proof {
            lemma_mul_bounds(self.num as int, other.den as int, 0x8000_0000_0000_0000, 0x8000_0000_0000_0000);
            lemma_mul_bounds(other.num as int, self.den as int, 0x8000_0000_0000_0000, 0x8000_0000_0000_0000);
        }
        (self.num as i128) * (other.den as i128) < (other.num as i128) * (self.den as i128)
    }

    /// Exact `self == other` as rational values.
    pub fn eq_value(&self, other: &Frac) -> (r: bool)
        requires
            rat_wf(self@),
            rat_wf(other@),
        ensures
            r == rat_eq(self@, other@),
    {
        proof {
            lemma_mul_bounds(self.num as int, other.den as int, 0x8000_0000_0000_0000, 0x8000_0000_0000_0000);
            lemma_mul_bounds(other.num as int, self.den as int, 0x8000_0000_0000_0000, 0x8000_0000_0000_0000);
        }
        (self.num as i128) * (other.den as i128) == (other.num as i128) * (self.den as i128)
    }
}

/// Lower edge `a - d/2` of a box of extent `d` centered at `a`, exactly.
pub fn sub_half(a: &Frac, d: &Frac) -> (r: Frac)
    requires
        rat_bounded(a@),
        rat_bounded(d@),
    ensures
        r@ == rat_sub_half(a@, d@),
        rat_wf(r@),
{
    proof {
        lemma_mul_bounds(a.num as int, d.den as int, COORD_BOUND as int, COORD_BOUND as int);
        lemma_mul_bounds(d.num as int, a.den as int, COORD_BOUND as int, COORD_BOUND as int);
        lemma_mul_bounds(a.den as int, d.den as int, COORD_BOUND as int, COORD_BOUND as int);
        lemma_mul_pos(a.den as int, d.den as int);
    }
    let num: i64 = 2 * (a.num * d.den) - d.num * a.den;
    let den: i64 = 2 * (a.den * d.den);
    Frac { num, den }
}

/// Upper edge `a + d/2` of a box of extent `d` centered at `a`, exactly.
pub fn add_half(a: &Frac, d: &Frac) -> (r: Frac)
    requires
        rat_bounded(a@),
        rat_bounded(d@),
    ensures
        r@ == rat_add_half(a@, d@),
        rat_wf(r@),
{
    proof {
        lemma_mul_bounds(a.num as int, d.den as int, COORD_BOUND as int, COORD_BOUND as int);
        lemma_mul_bounds(d.num as int, a.den as int, COORD_BOUND as int, COORD_BOUND as int);
        lemma_mul_bounds(a.den as int, d.den as int, COORD_BOUND as int, COORD_BOUND as int);
        lemma_mul_pos(a.den as int, d.den as int);
    }
    let num: i64 = 2 * (a.num * d.den) + d.num * a.den;
    let den: i64 = 2 * (a.den * d.den);
    Frac { num, den }
}

/// Normalizes a raw pixel coordinate by a window dimension: exactly `m / w`.
pub fn normalize(m: &Frac, w: u32) -> (r: Frac)
    requires
        rat_bounded(m@),
        1 <= w,
    ensures
        r@ == rat_norm(m@, w as int),
        rat_wf(r@),
{
    proof {
        lemma_mul_bounds(m.den as int, w as int, COORD_BOUND as int, 0x1_0000_0000);
        lemma_mul_pos(m.den as int, w as int);
    }
    Frac { num: m.num, den: m.den * (w as i64) }
}

/// A normalized pointer lies strictly inside the box of extent `dims`
/// centered at `anchor`; a point on the boundary is not a hit.
pub open spec fn rat_hit(anchor: Vec2, dims: Vec2, nx: Rat, ny: Rat) -> bool {
    &&& rat_lt(rat_sub_half(anchor.x@, dims.x@), nx)
    &&& rat_lt(nx, rat_add_half(anchor.x@, dims.x@))
    &&& rat_lt(rat_sub_half(anchor.y@, dims.y@), ny)
    &&& rat_lt(ny, rat_add_half(anchor.y@, dims.y@))
}

/// Decides the hit-test: strict interior of the axis-aligned box of extent
/// `dims` centered at `anchor`, against an already-normalized pointer.
pub fn hit_test(anchor: &Vec2, dims: &Vec2, norm_x: &Frac, norm_y: &Frac) -> (r: bool)
    requires
        vec2_bounded(*anchor),
        vec2_bounded(*dims),
        rat_wf(norm_x@),
        rat_wf(norm_y@),
    ensures
        r == rat_hit(*anchor, *dims, norm_x@, norm_y@),
{
    let min_x = sub_half(&anchor.x, &dims.x);
    let max_x = add_half(&anchor.x, &dims.x);
    let min_y = sub_half(&anchor.y, &dims.y);
    let max_y = add_half(&anchor.y, &dims.y);
    min_x.lt(norm_x) && norm_x.lt(&max_x) && min_y.lt(norm_y) && norm_y.lt(&max_y)
}

/// A pointer exactly on any edge of the widget's box never registers a hit:
/// the interior test is strict on all four bounds.
pub proof fn lemma_hit_boundary(anchor: Vec2, dims: Vec2, nx: Rat, ny: Rat)
    requires
        rat_eq(nx, rat_sub_half(anchor.x@, dims.x@)) || rat_eq(nx, rat_add_half(anchor.x@, dims.x@))
            || rat_eq(ny, rat_sub_half(anchor.y@, dims.y@)) || rat_eq(
            ny,
            rat_add_half(anchor.y@, dims.y@),
        ),
    ensures
        !rat_hit(anchor, dims, nx, ny),
{
}

/// A pointer strictly inside all four bounds always registers a hit.
pub proof fn lemma_hit_interior(anchor: Vec2, dims: Vec2, nx: Rat, ny: Rat)
    requires
        rat_lt(rat_sub_half(anchor.x@, dims.x@), nx),
        rat_lt(nx, rat_add_half(anchor.x@, dims.x@)),
        rat_lt(rat_sub_half(anchor.y@, dims.y@), ny),
        rat_lt(ny, rat_add_half(anchor.y@, dims.y@)),
    ensures
        rat_hit(anchor, dims, nx, ny),
{
}

} // verus!
