//! Basic geometric data: integer points, exact rationals, rectangles,
//! segments, and the containment test of a rational point in a rectangle.

use vstd::prelude::*;

verus! {

/// Limit on the magnitude of every input coordinate: point coordinates,
/// value-box corners and screen-rectangle corners. Keeping inputs within this
/// range lets every intermediate product of the exact rational arithmetic fit
/// comfortably in `i128`.
pub const COORD_LIMIT: i128 = 65536;

/// Largest numerator a remapped screen coordinate can have when all inputs
/// respect `COORD_LIMIT` (6 * COORD_LIMIT^2).
pub const SCREEN_NUM_LIMIT: i128 = 25769803776;

/// Largest denominator a remapped screen coordinate can have when all inputs
/// respect `COORD_LIMIT` (2 * COORD_LIMIT).
pub const SCREEN_DEN_LIMIT: i128 = 131072;

/// A 2D point with integer coordinates, understood at a caller-chosen
/// fixed-point scale. The scale cancels out of every computation in this
/// library, so it never appears explicitly.
#[derive(Clone, Copy, PartialEq, Eq, Structural, Debug)]
pub struct Point {
    pub x: i128,
    pub y: i128,
}

/// An exact rational number `num / den`; well formed when `den > 0`.
#[derive(Clone, Copy, PartialEq, Eq, Structural, Debug)]
pub struct Rat {
    pub num: i128,
    pub den: i128,
}

/// A screen-space point with exact rational coordinates, as produced by the
/// affine remap.
#[derive(Clone, Copy, PartialEq, Eq, Structural, Debug)]
pub struct RatPoint {
    pub x: Rat,
    pub y: Rat,
}

/// An axis-aligned rectangle given by its two corners.
#[derive(Clone, Copy, PartialEq, Eq, Structural, Debug)]
pub struct Rect {
    pub min: Point,
    pub max: Point,
}

/// One drawing command: a straight segment between two screen points.
#[derive(Clone, Copy, PartialEq, Eq, Structural, Debug)]
pub struct Segment {
    pub p0: RatPoint,
    pub p1: RatPoint,
}

/// Mathematical model of a rational number.
pub struct RatVal {
    pub num: int,
    pub den: int,
}

/// Mathematical model of a screen point.
pub struct RatPointVal {
    pub x: RatVal,
    pub y: RatVal,
}

/// Mathematical model of a segment drawing command.
pub struct SegmentVal {
    pub p0: RatPointVal,
    pub p1: RatPointVal,
}

impl View for Rat {
    type V = RatVal;

    open spec fn view(&self) -> RatVal {
        RatVal { num: self.num as int, den: self.den as int }
    }
}

impl View for RatPoint {
    type V = RatPointVal;

    open spec fn view(&self) -> RatPointVal {
        RatPointVal { x: self.x@, y: self.y@ }
    }
}

impl View for Segment {
    type V = SegmentVal;

    open spec fn view(&self) -> SegmentVal {
        SegmentVal { p0: self.p0@, p1: self.p1@ }
    }
}

/// A well-formed rational has a positive denominator.
pub open spec fn rat_wf(r: RatVal) -> bool {
    r.den > 0
}

/// The rational standing for the integer `n`.
pub open spec fn rat_of_int(n: int) -> RatVal {
    RatVal { num: n, den: 1 }
}

/// `a <= b` as rational values (for positive denominators).
pub open spec fn rat_le(a: RatVal, b: RatVal) -> bool {
    a.num * b.den <= b.num * a.den
}

/// `a == b` as rational values (for positive denominators).
pub open spec fn rat_eq(a: RatVal, b: RatVal) -> bool {
    a.num * b.den == b.num * a.den
}

/// `n <= r` for an integer `n` and a rational `r`.
pub open spec fn rat_ge_int(r: RatVal, n: int) -> bool {
    n * r.den <= r.num
}

/// `r <= n` for an integer `n` and a rational `r`.
pub open spec fn rat_le_int(r: RatVal, n: int) -> bool {
    r.num <= n * r.den
}

/// Both coordinates of `p` lie within `COORD_LIMIT`.
pub open spec fn pt_bounded(p: Point) -> bool {
    -COORD_LIMIT <= p.x <= COORD_LIMIT && -COORD_LIMIT <= p.y <= COORD_LIMIT
}

/// Both corners of `r` lie within `COORD_LIMIT`.
pub open spec fn rect_bounded(r: Rect) -> bool {
    pt_bounded(r.min) && pt_bounded(r.max)
}

/// The rational `r` is well formed with `|num| <= nl` and `den <= dl`.
pub open spec fn rat_bounded(r: RatVal, nl: int, dl: int) -> bool {
    -nl <= r.num <= nl && 0 < r.den <= dl
}

/// A screen coordinate as the remap produces it: within the numerator and
/// denominator limits that bounded inputs guarantee.
pub open spec fn screen_rat_bounded(r: RatVal) -> bool {
    rat_bounded(r, SCREEN_NUM_LIMIT as int, SCREEN_DEN_LIMIT as int)
}

/// Both coordinates of `p` are screen-bounded rationals.
pub open spec fn screen_pt_bounded(p: RatPointVal) -> bool {
    screen_rat_bounded(p.x) && screen_rat_bounded(p.y)
}

/// Containment of a rational point in a rectangle: inside iff
/// `min.x <= p.x <= max.x` and `min.y <= p.y <= max.y`.
pub open spec fn in_rect(rect: Rect, p: RatPointVal) -> bool {
    &&& rat_ge_int(p.x, rect.min.x as int)
    &&& rat_le_int(p.x, rect.max.x as int)
    &&& rat_ge_int(p.y, rect.min.y as int)
    &&& rat_le_int(p.y, rect.max.y as int)
}

/// Bounds the magnitude of a product by the product of the bounds.
pub proof fn lemma_mul_bound(a: int, b: int, am: int, bm: int)
    requires
        -am <= a <= am,
        -bm <= b <= bm,
    ensures
        -(am * bm) <= a * b <= am * bm,
{
    assert(-(am * bm) <= a * b <= am * bm) by (nonlinear_arith)
        requires
            -am <= a <= am,
            -bm <= b <= bm,
    ;
}

/// Tests whether the rational point `p` lies inside `rect` (edges included).
pub fn rect_contains(rect: &Rect, p: &RatPoint) -> (r: bool)
    requires
        rect_bounded(*rect),
        screen_pt_bounded(p@),
    ensures
        r == in_rect(*rect, p@),
{
    proof {
        lemma_mul_bound(rect.min.x as int, p.x.den as int, COORD_LIMIT as int, SCREEN_DEN_LIMIT as int);
        lemma_mul_bound(rect.max.x as int, p.x.den as int, COORD_LIMIT as int, SCREEN_DEN_LIMIT as int);
        lemma_mul_bound(rect.min.y as int, p.y.den as int, COORD_LIMIT as int, SCREEN_DEN_LIMIT as int);
        lemma_mul_bound(rect.max.y as int, p.y.den as int, COORD_LIMIT as int, SCREEN_DEN_LIMIT as int);
    }
    rect.min.x * p.x.den <= p.x.num && p.x.num <= rect.max.x * p.x.den
        && rect.min.y * p.y.den <= p.y.num && p.y.num <= rect.max.y * p.y.den
}

} // verus!
