//! The affine remapper: maps a point from one axis-aligned box to another,
//! independently per axis, as an exact rational number.
//!
//! Per axis the mapping is `out = o_min + (v - i_min) / (i_max - i_min) *
//! (o_max - o_min)`; with integer inputs the result is the exact rational
//! with denominator `i_max - i_min`. A caller-chosen fixed-point scale common
//! to the point and the box cancels out of the formula, so it never appears.

use vstd::prelude::*;

use crate::geom::lemma_mul_bound;
use crate::geom::pt_bounded;
use crate::geom::rat_eq;
use crate::geom::rat_of_int;
use crate::geom::rat_wf;
use crate::geom::screen_rat_bounded;
use crate::geom::Point;
use crate::geom::Rat;
use crate::geom::RatPoint;
use crate::geom::RatPointVal;
use crate::geom::RatVal;
use crate::geom::COORD_LIMIT;

verus! {

/// One axis of the affine remap of the rational `q` from the range
/// `[i_min, i_max]` to the range `[o_min, o_max]`.
pub open spec fn remap_axis(i_min: int, i_max: int, o_min: int, o_max: int, q: RatVal) -> RatVal {
    RatVal {
        num: o_min * (i_max - i_min) * q.den + (q.num - i_min * q.den) * (o_max - o_min),
        den: (i_max - i_min) * q.den,
    }
}

/// The affine remap of the integer point `p` from the box
/// `[i_min, i_max]` to the box `[o_min, o_max]`, per axis independently.
pub open spec fn remap_pt(i_min: Point, i_max: Point, o_min: Point, o_max: Point, p: Point) -> RatPointVal {
    RatPointVal {
        x: remap_axis(
            i_min.x as int,
            i_max.x as int,
            o_min.x as int,
            o_max.x as int,
            rat_of_int(p.x as int),
        ),
        y: remap_axis(
            i_min.y as int,
            i_max.y as int,
            o_min.y as int,
            o_max.y as int,
            rat_of_int(p.y as int),
        ),
    }
}

/// Law: remapping preserves the range's anchors per axis. A value at `i_min`
/// lands exactly on `o_min`, a value at `i_max` exactly on `o_max`, and the
/// midpoint of the input range exactly on the midpoint of the output range.
pub proof fn lemma_remap_anchors(i_min: int, i_max: int, o_min: int, o_max: int, v: int)
    requires
        i_min < i_max,
    ensures
        rat_wf(remap_axis(i_min, i_max, o_min, o_max, rat_of_int(v))),
        v == i_min ==> rat_eq(remap_axis(i_min, i_max, o_min, o_max, rat_of_int(v)), rat_of_int(o_min)),
        v == i_max ==> rat_eq(remap_axis(i_min, i_max, o_min, o_max, rat_of_int(v)), rat_of_int(o_max)),
        v + v == i_min + i_max ==> rat_eq(
            remap_axis(i_min, i_max, o_min, o_max, rat_of_int(v)),
            RatVal { num: o_min + o_max, den: 2 },
        ),
{
    let r = remap_axis(i_min, i_max, o_min, o_max, rat_of_int(v));
    assert(r.num == o_min * (i_max - i_min) + (v - i_min) * (o_max - o_min) && r.den == i_max
        - i_min);
    if v == i_min {
        assert(r.num * 1 == o_min * r.den) by (nonlinear_arith)
            requires
                r.num == o_min * (i_max - i_min) + (v - i_min) * (o_max - o_min),
                r.den == i_max - i_min,
                v == i_min,
        ;
    }
    if v == i_max {
        assert(r.num * 1 == o_max * r.den) by (nonlinear_arith)
            requires
                r.num == o_min * (i_max - i_min) + (v - i_min) * (o_max - o_min),
                r.den == i_max - i_min,
                v == i_max,
        ;
    }
    if v + v == i_min + i_max {
        assert(r.num * 2 == (o_min + o_max) * r.den) by (nonlinear_arith)
            requires
                r.num == o_min * (i_max - i_min) + (v - i_min) * (o_max - o_min),
                r.den == i_max - i_min,
                v + v == i_min + i_max,
        ;
    }
}

/// Law: remapping a rational from box A to box B and then from B back to A
/// recovers the original value exactly, for non-degenerate ranges.
pub proof fn lemma_remap_round_trip(a_min: int, a_max: int, b_min: int, b_max: int, q: RatVal)
    requires
        a_min < a_max,
        b_min < b_max,
        rat_wf(q),
    ensures
        rat_wf(remap_axis(a_min, a_max, b_min, b_max, q)),
        rat_eq(
            remap_axis(b_min, b_max, a_min, a_max, remap_axis(a_min, a_max, b_min, b_max, q)),
            q,
        ),
{
    let da = a_max - a_min;
    let db = b_max - b_min;
    let r1 = remap_axis(a_min, a_max, b_min, b_max, q);
    let r2 = remap_axis(b_min, b_max, a_min, a_max, r1);
    assert(r1.den > 0) by (nonlinear_arith)
        requires
            r1.den == da * q.den,
            da > 0,
            q.den > 0,
    ;
    assert(r1.num - b_min * r1.den == (q.num - a_min * q.den) * db) by (nonlinear_arith)
        requires
            r1.num == b_min * da * q.den + (q.num - a_min * q.den) * db,
            r1.den == da * q.den,
    ;
    assert(r2.num == db * da * q.num) by (nonlinear_arith)
        requires
            r2.num == a_min * db * r1.den + (r1.num - b_min * r1.den) * da,
            r1.den == da * q.den,
            r1.num - b_min * r1.den == (q.num - a_min * q.den) * db,
    ;
    assert(r2.den == db * da * q.den) by (nonlinear_arith)
        requires
            r2.den == db * r1.den,
            r1.den == da * q.den,
    ;
    assert(r2.num * q.den == q.num * r2.den) by (nonlinear_arith)
        requires
            r2.num == db * da * q.num,
            r2.den == db * da * q.den,
    ;
}

/// Remaps the point `p` from the value box `[i_min, i_max]` to the box
/// `[o_min, o_max]`, each axis independently, as an exact rational point.
///
/// The value box must be non-degenerate on both axes; the result is not
/// clamped and lies outside `[o_min, o_max]` exactly when `p` lies outside
/// `[i_min, i_max]`.
pub fn remap_point(i_min: Point, i_max: Point, o_min: Point, o_max: Point, p: Point) -> (r: RatPoint)
    requires
        pt_bounded(i_min),
        pt_bounded(i_max),
        pt_bounded(o_min),
        pt_bounded(o_max),
        pt_bounded(p),
        i_min.x < i_max.x,
        i_min.y < i_max.y,
    ensures
        r@ == remap_pt(i_min, i_max, o_min, o_max, p),
        screen_rat_bounded(r@.x),
        screen_rat_bounded(r@.y),
        r@.x.den == i_max.x - i_min.x,
        r@.y.den == i_max.y - i_min.y,
{
    let dx: i128 = i_max.x - i_min.x;
    let dy: i128 = i_max.y - i_min.y;
    proof {
        lemma_mul_bound(o_min.x as int, dx as int, COORD_LIMIT as int, 2 * COORD_LIMIT as int);
        lemma_mul_bound(
            p.x - i_min.x,
            o_max.x - o_min.x,
            2 * COORD_LIMIT as int,
            2 * COORD_LIMIT as int,
        );
        lemma_mul_bound(o_min.y as int, dy as int, COORD_LIMIT as int, 2 * COORD_LIMIT as int);
        lemma_mul_bound(
            p.y - i_min.y,
            o_max.y - o_min.y,
            2 * COORD_LIMIT as int,
            2 * COORD_LIMIT as int,
        );
    }
    let nx: i128 = o_min.x * dx + (p.x - i_min.x) * (o_max.x - o_min.x);
    let ny: i128 = o_min.y * dy + (p.y - i_min.y) * (o_max.y - o_min.y);
    let r = RatPoint { x: Rat { num: nx, den: dx }, y: Rat { num: ny, den: dy } };
    proof {
        assert(r@.x.num == (o_min.x as int) * ((i_max.x - i_min.x) as int) * 1 + ((p.x as int) - (
        i_min.x as int) * 1) * ((o_max.x - o_min.x) as int)) by (nonlinear_arith)
            requires
                r@.x.num == (o_min.x as int) * ((i_max.x - i_min.x) as int) + ((p.x - i_min.x) as int)
                    * ((o_max.x - o_min.x) as int),
        ;
        assert(r@.y.num == (o_min.y as int) * ((i_max.y - i_min.y) as int) * 1 + ((p.y as int) - (
        i_min.y as int) * 1) * ((o_max.y - o_min.y) as int)) by (nonlinear_arith)
            requires
                r@.y.num == (o_min.y as int) * ((i_max.y - i_min.y) as int) + ((p.y - i_min.y) as int)
                    * ((o_max.y - o_min.y) as int),
        ;
    }
    r
}

} // verus!
