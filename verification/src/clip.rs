//! Exact boundary-crossing computation: where the segment from an outside
//! point toward an inside point first enters an axis-aligned rectangle.
//!
//! The crossing is found per axis by a slab test: on each axis the entry
//! parameter is the first `s` (along the way from the outside point at
//! `s == 0` to the inside point at `s == 1`) at which the moving coordinate
//! reaches the slab of the rectangle, and the rectangle's entry parameter is
//! the larger of the two axis parameters. Because the destination endpoint
//! lies inside the rectangle, an entry always exists and lies in `[0, 1]`.

use vstd::prelude::*;

use crate::geom::in_rect;
use crate::geom::lemma_mul_bound;
use crate::geom::rat_bounded;
use crate::geom::rat_le;
use crate::geom::rect_bounded;
use crate::geom::screen_pt_bounded;
use crate::geom::Rat;
use crate::geom::RatPoint;
use crate::geom::RatPointVal;
use crate::geom::RatVal;
use crate::geom::Rect;
use crate::geom::COORD_LIMIT;
use crate::geom::SCREEN_DEN_LIMIT;
use crate::geom::SCREEN_NUM_LIMIT;

verus! {

/// Largest numerator or denominator an axis entry parameter can have when the
/// segment endpoints are screen-bounded rationals (12 * COORD_LIMIT^2).
pub const PARAM_LIMIT: i128 = 51539607552;

/// Entry parameter of one axis: the coordinates of the endpoints are `bn / d`
/// (outside endpoint, at parameter 0) and `an / d` (inside endpoint, at
/// parameter 1), and the slab is `[lo, hi]`. The parameter is 0 when the
/// outside endpoint already lies in the slab, and otherwise the parameter at
/// which the moving coordinate first reaches the nearer slab bound.
pub open spec fn axis_entry(d: int, lo: int, hi: int, bn: int, an: int) -> RatVal {
    if lo * d <= bn && bn <= hi * d {
        RatVal { num: 0, den: 1 }
    } else if bn < lo * d {
        RatVal { num: lo * d - bn, den: an - bn }
    } else {
        RatVal { num: bn - hi * d, den: bn - an }
    }
}

/// One axis of the point at parameter `s` on the way from the coordinate
/// `bn / d` (at `s == 0`) to the coordinate `an / d` (at `s == 1`).
pub open spec fn at_param_axis(d: int, bn: int, an: int, s: RatVal) -> RatVal {
    RatVal { num: bn * s.den + s.num * (an - bn), den: d * s.den }
}

/// The larger of two rationals.
pub open spec fn rat_max(a: RatVal, b: RatVal) -> RatVal {
    if rat_le(a, b) {
        b
    } else {
        a
    }
}

/// The point at parameter `s` on the way from `b` (at `s == 0`) to `a`
/// (at `s == 1`), for points with common denominators per axis.
pub open spec fn at_param(a: RatPointVal, b: RatPointVal, s: RatVal) -> RatPointVal {
    RatPointVal {
        x: at_param_axis(a.x.den, b.x.num, a.x.num, s),
        y: at_param_axis(a.y.den, b.y.num, a.y.num, s),
    }
}

/// The parameter at which the segment from `b` toward `a` first enters
/// `rect`: the larger of the two axis entry parameters.
pub open spec fn entry_param(rect: Rect, a: RatPointVal, b: RatPointVal) -> RatVal {
    rat_max(
        axis_entry(a.x.den, rect.min.x as int, rect.max.x as int, b.x.num, a.x.num),
        axis_entry(a.y.den, rect.min.y as int, rect.max.y as int, b.y.num, a.y.num),
    )
}

/// The point at which the segment from `b` toward `a` first enters `rect`.
pub open spec fn entry_point(rect: Rect, a: RatPointVal, b: RatPointVal) -> RatPointVal {
    at_param(a, b, entry_param(rect, a, b))
}

/// A pair of segment endpoints ready for the crossing computation: common
/// positive denominators per axis, destination endpoint `a` inside the
/// rectangle, origin endpoint `b` outside it.
pub open spec fn clip_pair_wf(rect: Rect, a: RatPointVal, b: RatPointVal) -> bool {
    &&& a.x.den > 0
    &&& a.y.den > 0
    &&& b.x.den == a.x.den
    &&& b.y.den == a.y.den
    &&& in_rect(rect, a)
    &&& !in_rect(rect, b)
}

/// The axis entry parameter lies in `[0, 1]` whenever the destination
/// coordinate lies in the slab.
proof fn lemma_axis_entry_range(d: int, lo: int, hi: int, bn: int, an: int)
    requires
        d > 0,
        lo * d <= an <= hi * d,
    ensures
        ({
            let s = axis_entry(d, lo, hi, bn, an);
            s.den > 0 && 0 <= s.num <= s.den
        }),
{
}

/// On one axis the moving coordinate is inside the slab at every parameter
/// between the axis entry parameter and 1.
proof fn lemma_axis_in_slab(d: int, lo: int, hi: int, bn: int, an: int, s: RatVal)
    requires
        d > 0,
        lo * d <= an <= hi * d,
        s.den > 0,
        0 <= s.num <= s.den,
        rat_le(axis_entry(d, lo, hi, bn, an), s),
    ensures
        lo * (d * s.den) <= bn * s.den + s.num * (an - bn),
        bn * s.den + s.num * (an - bn) <= hi * (d * s.den),
{
    if lo * d <= bn && bn <= hi * d {
        assert(lo * (d * s.den) <= bn * s.den + s.num * (an - bn) && bn * s.den + s.num * (an - bn)
            <= hi * (d * s.den)) by (nonlinear_arith)
            requires
                d > 0,
                s.den > 0,
                0 <= s.num <= s.den,
                lo * d <= bn <= hi * d,
                lo * d <= an <= hi * d,
        ;
    } else if bn < lo * d {
        assert((lo * d - bn) * s.den <= s.num * (an - bn));
        assert(lo * (d * s.den) <= bn * s.den + s.num * (an - bn) && bn * s.den + s.num * (an - bn)
            <= hi * (d * s.den)) by (nonlinear_arith)
            requires
                d > 0,
                s.den > 0,
                0 <= s.num <= s.den,
                bn < lo * d,
                lo * d <= an <= hi * d,
                (lo * d - bn) * s.den <= s.num * (an - bn),
        ;
    } else {
        assert((bn - hi * d) * s.den <= s.num * (bn - an));
        assert(lo * (d * s.den) <= bn * s.den + s.num * (an - bn) && bn * s.den + s.num * (an - bn)
            <= hi * (d * s.den)) by (nonlinear_arith)
            requires
                d > 0,
                s.den > 0,
                0 <= s.num <= s.den,
                bn > hi * d,
                lo * d <= an <= hi * d,
                (bn - hi * d) * s.den <= s.num * (bn - an),
        ;
    }
}

/// On an axis whose origin coordinate lies outside the slab, the moving
/// coordinate is still outside the slab at every nonnegative parameter
/// strictly below the axis entry parameter.
proof fn lemma_axis_out_before(d: int, lo: int, hi: int, bn: int, an: int, s: RatVal)
    requires
        d > 0,
        lo * d <= an <= hi * d,
        s.den > 0,
        0 <= s.num,
        !(lo * d <= bn && bn <= hi * d),
        !rat_le(axis_entry(d, lo, hi, bn, an), s),
    ensures
        !(lo * (d * s.den) <= bn * s.den + s.num * (an - bn) && bn * s.den + s.num * (an - bn)
            <= hi * (d * s.den)),
{
    if bn < lo * d {
        assert(!((lo * d - bn) * s.den <= s.num * (an - bn)));
        assert(bn * s.den + s.num * (an - bn) < lo * (d * s.den)) by (nonlinear_arith)
            requires
                d > 0,
                s.den > 0,
                !((lo * d - bn) * s.den <= s.num * (an - bn)),
        ;
    } else {
        assert(!((bn - hi * d) * s.den <= s.num * (bn - an)));
        assert(bn * s.den + s.num * (an - bn) > hi * (d * s.den)) by (nonlinear_arith)
            requires
                d > 0,
                s.den > 0,
                !((bn - hi * d) * s.den <= s.num * (bn - an)),
        ;
    }
}

/// Law: an entry always exists when one endpoint is inside the rectangle
/// and the other is not: the entry parameter lies in `[0, 1]`, so the
/// crossing point lies on the segment between the two endpoints.
pub proof fn lemma_entry_param_range(rect: Rect, a: RatPointVal, b: RatPointVal)
    requires
        clip_pair_wf(rect, a, b),
    ensures
        entry_param(rect, a, b).den > 0,
        0 <= entry_param(rect, a, b).num <= entry_param(rect, a, b).den,
{
    lemma_axis_entry_range(a.x.den, rect.min.x as int, rect.max.x as int, b.x.num, a.x.num);
    lemma_axis_entry_range(a.y.den, rect.min.y as int, rect.max.y as int, b.y.num, a.y.num);
}

/// Law: the boundary-crossing point lies inside the rectangle (edges
/// included), so a segment drawn from the inside endpoint to the crossing
/// point never leaves the rectangle at either end.
pub proof fn lemma_entry_point_in_rect(rect: Rect, a: RatPointVal, b: RatPointVal)
    requires
        clip_pair_wf(rect, a, b),
    ensures
        in_rect(rect, entry_point(rect, a, b)),
{
    let sx = axis_entry(a.x.den, rect.min.x as int, rect.max.x as int, b.x.num, a.x.num);
    let sy = axis_entry(a.y.den, rect.min.y as int, rect.max.y as int, b.y.num, a.y.num);
    let s = rat_max(sx, sy);
    lemma_axis_entry_range(a.x.den, rect.min.x as int, rect.max.x as int, b.x.num, a.x.num);
    lemma_axis_entry_range(a.y.den, rect.min.y as int, rect.max.y as int, b.y.num, a.y.num);
    assert(rat_le(sx, s) && rat_le(sy, s));
    assert(0 <= s.num <= s.den);
    lemma_axis_in_slab(a.x.den, rect.min.x as int, rect.max.x as int, b.x.num, a.x.num, s);
    lemma_axis_in_slab(a.y.den, rect.min.y as int, rect.max.y as int, b.y.num, a.y.num, s);
}

/// Law: the entry parameter is the first parameter at which the segment from
/// the outside endpoint toward the inside endpoint meets the rectangle; at
/// every smaller nonnegative parameter the moving point is still outside.
pub proof fn lemma_entry_param_is_first(rect: Rect, a: RatPointVal, b: RatPointVal, s: RatVal)
    requires
        clip_pair_wf(rect, a, b),
        s.den > 0,
        0 <= s.num,
        !rat_le(entry_param(rect, a, b), s),
    ensures
        !in_rect(rect, at_param(a, b, s)),
{
    let sx = axis_entry(a.x.den, rect.min.x as int, rect.max.x as int, b.x.num, a.x.num);
    let sy = axis_entry(a.y.den, rect.min.y as int, rect.max.y as int, b.y.num, a.y.num);
    if rat_le(sx, sy) {
        // the y axis decides the entry; b must be outside the y slab
        if (rect.min.y as int) * a.y.den <= b.y.num && b.y.num <= (rect.max.y as int) * a.y.den {
            assert(sy == RatVal { num: 0, den: 1 });
            assert(false);
        }
        lemma_axis_out_before(
            a.y.den,
            rect.min.y as int,
            rect.max.y as int,
            b.y.num,
            a.y.num,
            s,
        );
    } else {
        if (rect.min.x as int) * a.x.den <= b.x.num && b.x.num <= (rect.max.x as int) * a.x.den {
            assert(sx == RatVal { num: 0, den: 1 });
            assert(false);
        }
        lemma_axis_out_before(
            a.x.den,
            rect.min.x as int,
            rect.max.x as int,
            b.x.num,
            a.x.num,
            s,
        );
    }
}

fn rat_le_exec(a: &Rat, b: &Rat) -> (r: bool)
    requires
        rat_bounded(a@, PARAM_LIMIT as int, PARAM_LIMIT as int),
        rat_bounded(b@, PARAM_LIMIT as int, PARAM_LIMIT as int),
    ensures
        r == rat_le(a@, b@),
{
    proof {
        lemma_mul_bound(a.num as int, b.den as int, PARAM_LIMIT as int, PARAM_LIMIT as int);
        lemma_mul_bound(b.num as int, a.den as int, PARAM_LIMIT as int, PARAM_LIMIT as int);
    }
    a.num * b.den <= b.num * a.den
}

fn axis_entry_exec(d: i128, lo: i128, hi: i128, bn: i128, an: i128) -> (s: Rat)
    requires
        0 < d <= SCREEN_DEN_LIMIT,
        -COORD_LIMIT <= lo <= COORD_LIMIT,
        -COORD_LIMIT <= hi <= COORD_LIMIT,
        -SCREEN_NUM_LIMIT <= bn <= SCREEN_NUM_LIMIT,
        -SCREEN_NUM_LIMIT <= an <= SCREEN_NUM_LIMIT,
        (lo as int) * (d as int) <= an as int <= (hi as int) * (d as int),
    ensures
        s@ == axis_entry(d as int, lo as int, hi as int, bn as int, an as int),
        0 <= s@.num <= s@.den,
        rat_bounded(s@, PARAM_LIMIT as int, PARAM_LIMIT as int),
{
    proof {
        lemma_mul_bound(lo as int, d as int, COORD_LIMIT as int, SCREEN_DEN_LIMIT as int);
        lemma_mul_bound(hi as int, d as int, COORD_LIMIT as int, SCREEN_DEN_LIMIT as int);
        lemma_axis_entry_range(d as int, lo as int, hi as int, bn as int, an as int);
    }
    let lod = lo * d;
    let hid = hi * d;
    if lod <= bn && bn <= hid {
        Rat { num: 0, den: 1 }
    } else if bn < lod {
        Rat { num: lod - bn, den: an - bn }
    } else {
        Rat { num: bn - hid, den: bn - an }
    }
}

/// Computes the point at which the segment from the outside point `b` toward
/// the inside point `a` first enters `rect`: the exact boundary-crossing
/// point of a segment that straddles the rectangle edge.
pub fn segment_entry(rect: &Rect, a: &RatPoint, b: &RatPoint) -> (c: RatPoint)
    requires
        rect_bounded(*rect),
        screen_pt_bounded(a@),
        screen_pt_bounded(b@),
        clip_pair_wf(*rect, a@, b@),
    ensures
        c@ == entry_point(*rect, a@, b@),
        in_rect(*rect, c@),
{
    let sx = axis_entry_exec(a.x.den, rect.min.x, rect.max.x, b.x.num, a.x.num);
    let sy = axis_entry_exec(a.y.den, rect.min.y, rect.max.y, b.y.num, a.y.num);
    let s = if rat_le_exec(&sx, &sy) {
        sy
    } else {
        sx
    };
    proof {
        lemma_mul_bound(b.x.num as int, s.den as int, SCREEN_NUM_LIMIT as int, PARAM_LIMIT as int);
        lemma_mul_bound(b.y.num as int, s.den as int, SCREEN_NUM_LIMIT as int, PARAM_LIMIT as int);
        lemma_mul_bound(
            s.num as int,
            a.x.num - b.x.num,
            PARAM_LIMIT as int,
            2 * SCREEN_NUM_LIMIT as int,
        );
        lemma_mul_bound(
            s.num as int,
            a.y.num - b.y.num,
            PARAM_LIMIT as int,
            2 * SCREEN_NUM_LIMIT as int,
        );
        lemma_mul_bound(a.x.den as int, s.den as int, SCREEN_DEN_LIMIT as int, PARAM_LIMIT as int);
        lemma_mul_bound(a.y.den as int, s.den as int, SCREEN_DEN_LIMIT as int, PARAM_LIMIT as int);
        lemma_entry_point_in_rect(*rect, a@, b@);
    }
    RatPoint {
        x: Rat { num: b.x.num * s.den + s.num * (a.x.num - b.x.num), den: a.x.den * s.den },
        y: Rat { num: b.y.num * s.den + s.num * (a.y.num - b.y.num), den: a.y.den * s.den },
    }
}

} // verus!
