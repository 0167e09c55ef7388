//! The two line-plot renderers. Both remap every input point from the value
//! box into the destination rectangle; the raw renderer returns one
//! continuous line strip, the clamped renderer returns the segments that
//! remain after clipping against the destination rectangle.

use vstd::prelude::*;

use crate::clip::entry_point;
use crate::clip::lemma_entry_point_in_rect;
use crate::clip::segment_entry;
use crate::geom::in_rect;
use crate::geom::pt_bounded;
use crate::geom::rect_bounded;
use crate::geom::rect_contains;
use crate::geom::screen_pt_bounded;
use crate::geom::Point;
use crate::geom::RatPoint;
use crate::geom::RatPointVal;
use crate::geom::Rect;
use crate::geom::Segment;
use crate::geom::SegmentVal;
use crate::remap::remap_point;
use crate::remap::remap_pt;

verus! {

/// The whole input sequence remapped from the value box `[i_min, i_max]`
/// into the box `[o_min, o_max]`, in order.
pub open spec fn remap_seq(
    i_min: Point,
    i_max: Point,
    o_min: Point,
    o_max: Point,
    pts: Seq<Point>,
) -> Seq<RatPointVal> {
    pts.map_values(|p: Point| remap_pt(i_min, i_max, o_min, o_max, p))
}

/// The view of a vector of segments as a sequence of segment models.
pub open spec fn segs_view(v: Seq<Segment>) -> Seq<SegmentVal> {
    v.map_values(|sg: Segment| sg@)
}

/// What the clamped renderer draws for one consecutive pair of remapped
/// points: the full segment when both endpoints are inside the rectangle,
/// the sub-segment up to the boundary crossing when exactly one endpoint is
/// inside (listed from the inside endpoint outward), and nothing when both
/// endpoints are outside — even if the chord between them crosses the
/// rectangle's interior.
pub open spec fn pair_segment(rect: Rect, prev: RatPointVal, cur: RatPointVal) -> Option<
    SegmentVal,
> {
    if in_rect(rect, prev) && in_rect(rect, cur) {
        Some(SegmentVal { p0: prev, p1: cur })
    } else if in_rect(rect, prev) && !in_rect(rect, cur) {
        Some(SegmentVal { p0: prev, p1: entry_point(rect, prev, cur) })
    } else if !in_rect(rect, prev) && in_rect(rect, cur) {
        Some(SegmentVal { p0: cur, p1: entry_point(rect, cur, prev) })
    } else {
        None
    }
}

/// The segments the clamped renderer draws for a remapped point sequence:
/// one entry per consecutive pair that is at least partly visible.
pub open spec fn clamped_segments(rect: Rect, rpts: Seq<RatPointVal>) -> Seq<SegmentVal>
    decreases rpts.len(),
{
    if rpts.len() < 2 {
        Seq::empty()
    } else {
        let head = clamped_segments(rect, rpts.drop_last());
        match pair_segment(rect, rpts[rpts.len() - 2], rpts.last()) {
            Some(sg) => head.push(sg),
            None => head,
        }
    }
}

/// Draws points as one continuous line strip positioned and scaled by
/// `bounds`: every point is remapped from the value box `[min_xy, max_xy]`
/// into `bounds`, in order, with no filtering and no clamping, so the strip
/// can extend outside `bounds`.
///
/// Returns the remapped strip; drawing it is the caller's side of the work.
pub fn draw_gizmo_line_plot_2d_raw(
    points: &Vec<Point>,
    bounds: Rect,
    min_xy: Point,
    max_xy: Point,
) -> (strip: Vec<RatPoint>)
    requires
        forall|i: int| 0 <= i < points@.len() ==> pt_bounded(#[trigger] points@[i]),
        rect_bounded(bounds),
        pt_bounded(min_xy),
        pt_bounded(max_xy),
        min_xy.x < max_xy.x,
        min_xy.y < max_xy.y,
    ensures
        strip@.len() == points@.len(),
        forall|i: int|
            0 <= i < points@.len() ==> (#[trigger] strip@[i])@ == remap_seq(
                min_xy,
                max_xy,
                bounds.min,
                bounds.max,
                points@,
            )[i],
{
    let n = points.len();
    let mut strip: Vec<RatPoint> = Vec::new();
    let mut i: usize = 0;
    while i < n
        invariant
            0 <= i <= n,
            n == points@.len(),
            strip@.len() == i,
            forall|k: int| 0 <= k < points@.len() ==> pt_bounded(#[trigger] points@[k]),
            rect_bounded(bounds),
            pt_bounded(min_xy),
            pt_bounded(max_xy),
            min_xy.x < max_xy.x,
            min_xy.y < max_xy.y,
            forall|k: int|
                0 <= k < i ==> (#[trigger] strip@[k])@ == remap_pt(
                    min_xy,
                    max_xy,
                    bounds.min,
                    bounds.max,
                    points@[k],
                ),
        decreases n - i,
    {
        let r = remap_point(min_xy, max_xy, bounds.min, bounds.max, points[i]);
        strip.push(r);
        i += 1;
    }
    strip
}

/// Draws points as a line positioned and scaled by `bounds`, clamped to
/// `bounds`: every point is remapped from the value box `[min_xy, max_xy]`
/// into `bounds`, and each consecutive pair of remapped points is kept whole
/// when both ends are inside `bounds`, cut at the exact boundary crossing
/// when one end is outside, and skipped when both ends are outside.
///
/// Returns the visible segments; drawing them is the caller's side of the
/// work.
pub fn draw_gizmo_line_plot_2d_clamped(
    points: &Vec<Point>,
    bounds: Rect,
    min_xy: Point,
    max_xy: Point,
) -> (segs: Vec<Segment>)
    requires
        forall|i: int| 0 <= i < points@.len() ==> pt_bounded(#[trigger] points@[i]),
        rect_bounded(bounds),
        pt_bounded(min_xy),
        pt_bounded(max_xy),
        min_xy.x < max_xy.x,
        min_xy.y < max_xy.y,
    ensures
        segs_view(segs@) == clamped_segments(
            bounds,
            remap_seq(min_xy, max_xy, bounds.min, bounds.max, points@),
        ),
        forall|k: int|
            0 <= k < segs@.len() ==> in_rect(bounds, (#[trigger] segs@[k])@.p0) && in_rect(
                bounds,
                segs@[k]@.p1,
            ),
{
    let ghost rpts = remap_seq(min_xy, max_xy, bounds.min, bounds.max, points@);
    let n = points.len();
    let mut segs: Vec<Segment> = Vec::new();
    if n == 0 {
        assert(segs_view(segs@) =~= clamped_segments(bounds, rpts));
        return segs;
    }
    let mut prev = remap_point(min_xy, max_xy, bounds.min, bounds.max, points[0]);
    let mut prev_in = rect_contains(&bounds, &prev);
    proof {
        assert(rpts.take(1).len() == 1);
        assert(segs_view(segs@) =~= clamped_segments(bounds, rpts.take(1)));
    }
    let mut i: usize = 1;
    while i < n
        invariant
            1 <= i <= n,
            n == points@.len(),
            rpts == remap_seq(min_xy, max_xy, bounds.min, bounds.max, points@),
            forall|k: int| 0 <= k < points@.len() ==> pt_bounded(#[trigger] points@[k]),
            rect_bounded(bounds),
            pt_bounded(min_xy),
            pt_bounded(max_xy),
            min_xy.x < max_xy.x,
            min_xy.y < max_xy.y,
            prev@ == rpts[i - 1],
            screen_pt_bounded(prev@),
            prev@.x.den == max_xy.x - min_xy.x,
            prev@.y.den == max_xy.y - min_xy.y,
            prev_in == in_rect(bounds, prev@),
            segs_view(segs@) == clamped_segments(bounds, rpts.take(i as int)),
        decreases n - i,
    {
        let cur = remap_point(min_xy, max_xy, bounds.min, bounds.max, points[i]);
        let cur_in = rect_contains(&bounds, &cur);
        proof {
            assert(rpts.take(i + 1).drop_last() =~= rpts.take(i as int));
            assert(rpts.take(i + 1).last() == rpts[i as int]);
            assert(rpts.take(i + 1)[i - 1] == rpts[i - 1]);
        }
        if prev_in && cur_in {
            segs.push(Segment { p0: prev, p1: cur });
        } else if prev_in && !cur_in {
            let c = segment_entry(&bounds, &prev, &cur);
            segs.push(Segment { p0: prev, p1: c });
        } else if !prev_in && cur_in {
            let c = segment_entry(&bounds, &cur, &prev);
            segs.push(Segment { p0: cur, p1: c });
        }
        proof {
            assert(segs_view(segs@) =~= clamped_segments(bounds, rpts.take(i + 1)));
        }
        prev = cur;
        prev_in = cur_in;
        i += 1;
    }
    proof {
        assert(rpts.take(n as int) =~= rpts);
        let dx = max_xy.x - min_xy.x;
        let dy = max_xy.y - min_xy.y;
        assert(forall|k: int|
            0 <= k < rpts.len() ==> (#[trigger] rpts[k]).x.den == dx && rpts[k].y.den == dy);
        lemma_clamped_segments_in_rect(bounds, rpts, dx as int, dy as int);
        assert(forall|k: int|
            0 <= k < segs@.len() ==> (#[trigger] segs@[k])@ == segs_view(segs@)[k]);
    }
    segs
}

/// Law: every segment the clamped renderer emits has both endpoints inside
/// the rectangle, so no drawn segment leaves the destination region.
pub proof fn lemma_clamped_segments_in_rect(rect: Rect, rpts: Seq<RatPointVal>, dx: int, dy: int)
    requires
        dx > 0,
        dy > 0,
        forall|i: int|
            0 <= i < rpts.len() ==> (#[trigger] rpts[i]).x.den == dx && rpts[i].y.den == dy,
    ensures
        forall|k: int|
            0 <= k < clamped_segments(rect, rpts).len() ==> in_rect(
                rect,
                (#[trigger] clamped_segments(rect, rpts)[k]).p0,
            ) && in_rect(rect, clamped_segments(rect, rpts)[k].p1),
    decreases rpts.len(),
{
    if rpts.len() < 2 {
    } else {
        let d = rpts.drop_last();
        assert(forall|i: int| 0 <= i < d.len() ==> #[trigger] d[i] == rpts[i]);
        lemma_clamped_segments_in_rect(rect, d, dx, dy);
        let prev = rpts[rpts.len() - 2];
        let cur = rpts.last();
        assert(cur == rpts[rpts.len() - 1]);
        match pair_segment(rect, prev, cur) {
            Some(sg) => {
                if in_rect(rect, prev) && !in_rect(rect, cur) {
                    lemma_entry_point_in_rect(rect, prev, cur);
                } else if !in_rect(rect, prev) && in_rect(rect, cur) {
                    lemma_entry_point_in_rect(rect, cur, prev);
                }
                assert(clamped_segments(rect, rpts) == clamped_segments(rect, d).push(sg));
            },
            None => {},
        }
    }
}

} // verus!
