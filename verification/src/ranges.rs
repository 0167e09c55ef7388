//! Range reducers: per-axis minimum and maximum over one point sequence and
//! over several point sequences.

use vstd::prelude::*;

use crate::geom::Point;

verus! {

/// Smallest x coordinate of a non-empty point sequence.
pub open spec fn min_x_of(s: Seq<Point>) -> int
    recommends
        s.len() > 0,
    decreases s.len(),
{
    if s.len() <= 1 {
        s[0].x as int
    } else {
        let m = min_x_of(s.drop_last());
        if (s.last().x as int) < m {
            s.last().x as int
        } else {
            m
        }
    }
}

/// Smallest y coordinate of a non-empty point sequence.
pub open spec fn min_y_of(s: Seq<Point>) -> int
    recommends
        s.len() > 0,
    decreases s.len(),
{
    if s.len() <= 1 {
        s[0].y as int
    } else {
        let m = min_y_of(s.drop_last());
        if (s.last().y as int) < m {
            s.last().y as int
        } else {
            m
        }
    }
}

/// Largest x coordinate of a non-empty point sequence.
pub open spec fn max_x_of(s: Seq<Point>) -> int
    recommends
        s.len() > 0,
    decreases s.len(),
{
    if s.len() <= 1 {
        s[0].x as int
    } else {
        let m = max_x_of(s.drop_last());
        if (s.last().x as int) > m {
            s.last().x as int
        } else {
            m
        }
    }
}

/// Largest y coordinate of a non-empty point sequence.
pub open spec fn max_y_of(s: Seq<Point>) -> int
    recommends
        s.len() > 0,
    decreases s.len(),
{
    if s.len() <= 1 {
        s[0].y as int
    } else {
        let m = max_y_of(s.drop_last());
        if (s.last().y as int) > m {
            s.last().y as int
        } else {
            m
        }
    }
}

/// The four reducers bound every element and are attained by some element.
pub proof fn lemma_min_max_props(s: Seq<Point>)
    requires
        s.len() > 0,
    ensures
        forall|i: int|
            0 <= i < s.len() ==> min_x_of(s) <= (#[trigger] s[i]).x && min_y_of(s) <= s[i].y
                && s[i].x <= max_x_of(s) && s[i].y <= max_y_of(s),
        exists|i: int| 0 <= i < s.len() && s[i].x == min_x_of(s),
        exists|i: int| 0 <= i < s.len() && s[i].y == min_y_of(s),
        exists|i: int| 0 <= i < s.len() && s[i].x == max_x_of(s),
        exists|i: int| 0 <= i < s.len() && s[i].y == max_y_of(s),
    decreases s.len(),
{
    if s.len() == 1 {
        assert(s[0].x == min_x_of(s));
        assert(s[0].y == min_y_of(s));
        assert(s[0].x == max_x_of(s));
        assert(s[0].y == max_y_of(s));
    } else {
        lemma_min_max_props(s.drop_last());
        let d = s.drop_last();
        assert forall|i: int|
            0 <= i < s.len() implies min_x_of(s) <= (#[trigger] s[i]).x && min_y_of(s) <= s[i].y
            && s[i].x <= max_x_of(s) && s[i].y <= max_y_of(s) by {
            if i < d.len() {
                assert(d[i] == s[i]);
            } else {
                assert(s[i] == s.last());
            }
        }
        let n = s.len() - 1;
        assert(s[n] == s.last());
        if (s.last().x as int) < min_x_of(d) {
            assert(s[n].x == min_x_of(s));
        } else {
            let i = choose|i: int| 0 <= i < d.len() && d[i].x == min_x_of(d);
            assert(s[i].x == min_x_of(s));
        }
        if (s.last().y as int) < min_y_of(d) {
            assert(s[n].y == min_y_of(s));
        } else {
            let i = choose|i: int| 0 <= i < d.len() && d[i].y == min_y_of(d);
            assert(s[i].y == min_y_of(s));
        }
        if (s.last().x as int) > max_x_of(d) {
            assert(s[n].x == max_x_of(s));
        } else {
            let i = choose|i: int| 0 <= i < d.len() && d[i].x == max_x_of(d);
            assert(s[i].x == max_x_of(s));
        }
        if (s.last().y as int) > max_y_of(d) {
            assert(s[n].y == max_y_of(s));
        } else {
            let i = choose|i: int| 0 <= i < d.len() && d[i].y == max_y_of(d);
            assert(s[i].y == max_y_of(s));
        }
    }
}

/// Law: for every non-empty point sequence the componentwise minimum is at
/// most the componentwise maximum.
pub proof fn lemma_min_le_max(s: Seq<Point>)
    requires
        s.len() > 0,
    ensures
        min_x_of(s) <= max_x_of(s),
        min_y_of(s) <= max_y_of(s),
{
    lemma_min_max_props(s);
    let i = choose|i: int| 0 <= i < s.len() && s[i].x == min_x_of(s);
    assert(s[i].x <= max_x_of(s));
    let j = choose|j: int| 0 <= j < s.len() && s[j].y == min_y_of(s);
    assert(s[j].y <= max_y_of(s));
}

proof fn lemma_min_max_one_side(s1: Seq<Point>, s2: Seq<Point>)
    requires
        s1.len() > 0,
        s1.to_multiset() == s2.to_multiset(),
    ensures
        min_x_of(s2) <= min_x_of(s1),
        min_y_of(s2) <= min_y_of(s1),
        max_x_of(s1) <= max_x_of(s2),
        max_y_of(s1) <= max_y_of(s2),
{
    broadcast use vstd::seq_lib::group_to_multiset_ensures;

    assert(s2.len() == s2.to_multiset().len());
    assert(s1.len() == s1.to_multiset().len());
    lemma_min_max_props(s1);
    lemma_min_max_props(s2);
    let i1 = choose|i: int| 0 <= i < s1.len() && s1[i].x == min_x_of(s1);
    assert(s1.contains(s1[i1]));
    assert(s1.to_multiset().count(s1[i1]) > 0);
    assert(s2.contains(s1[i1]));
    let j1 = choose|j: int| 0 <= j < s2.len() && s2[j] == s1[i1];
    assert(min_x_of(s2) <= s2[j1].x);

    let i2 = choose|i: int| 0 <= i < s1.len() && s1[i].y == min_y_of(s1);
    assert(s1.contains(s1[i2]));
    assert(s1.to_multiset().count(s1[i2]) > 0);
    assert(s2.contains(s1[i2]));
    let j2 = choose|j: int| 0 <= j < s2.len() && s2[j] == s1[i2];
    assert(min_y_of(s2) <= s2[j2].y);

    let i3 = choose|i: int| 0 <= i < s1.len() && s1[i].x == max_x_of(s1);
    assert(s1.contains(s1[i3]));
    assert(s1.to_multiset().count(s1[i3]) > 0);
    assert(s2.contains(s1[i3]));
    let j3 = choose|j: int| 0 <= j < s2.len() && s2[j] == s1[i3];
    assert(s2[j3].x <= max_x_of(s2));

    let i4 = choose|i: int| 0 <= i < s1.len() && s1[i].y == max_y_of(s1);
    assert(s1.contains(s1[i4]));
    assert(s1.to_multiset().count(s1[i4]) > 0);
    assert(s2.contains(s1[i4]));
    let j4 = choose|j: int| 0 <= j < s2.len() && s2[j] == s1[i4];
    assert(s2[j4].y <= max_y_of(s2));
}

/// Law: the componentwise minimum and maximum of a point sequence do not
/// depend on the order of its elements.
pub proof fn lemma_min_max_permutation(s1: Seq<Point>, s2: Seq<Point>)
    requires
        s1.len() > 0,
        s1.to_multiset() == s2.to_multiset(),
    ensures
        min_x_of(s1) == min_x_of(s2),
        min_y_of(s1) == min_y_of(s2),
        max_x_of(s1) == max_x_of(s2),
        max_y_of(s1) == max_y_of(s2),
{
    broadcast use vstd::seq_lib::group_to_multiset_ensures;

    assert(s2.len() == s2.to_multiset().len());
    assert(s1.len() == s1.to_multiset().len());
    lemma_min_max_one_side(s1, s2);
    lemma_min_max_one_side(s2, s1);
}

/// Law: a sequence of one point has that point's coordinates as both its
/// componentwise minimum and its componentwise maximum.
pub proof fn lemma_min_max_single(p: Point)
    ensures
        min_x_of(seq![p]) == p.x,
        min_y_of(seq![p]) == p.y,
        max_x_of(seq![p]) == p.x,
        max_y_of(seq![p]) == p.y,
{
    assert(seq![p][0] == p);
}

/// Computes the componentwise minimum and maximum of a series of points.
///
/// Returns `None` exactly when the series is empty; otherwise the returned
/// pair is the tightest axis-aligned bounding box of the series, each axis
/// reduced independently.
pub fn points_min_max(points: &Vec<Point>) -> (r: Option<(Point, Point)>)
    ensures
        r is Some <==> points@.len() > 0,
        r matches Some((mn, mx)) ==> mn.x as int == min_x_of(points@) && mn.y as int == min_y_of(
            points@,
        ) && mx.x as int == max_x_of(points@) && mx.y as int == max_y_of(points@),
{
    let n = points.len();
    if n == 0 {
        return None;
    }
    let first = points[0];
    let mut mn = first;
    let mut mx = first;
    assert(points@.take(1)[0] == points@[0]);
    let mut i: usize = 1;
    while i < n
        invariant
            1 <= i <= n,
            n == points@.len(),
            mn.x as int == min_x_of(points@.take(i as int)),
            mn.y as int == min_y_of(points@.take(i as int)),
            mx.x as int == max_x_of(points@.take(i as int)),
            mx.y as int == max_y_of(points@.take(i as int)),
        decreases n - i,
    {
        let p = points[i];
        proof {
            assert(points@.take(i + 1).drop_last() =~= points@.take(i as int));
            assert(points@.take(i + 1).last() == points@[i as int]);
        }
        mn = Point {
            x: if p.x < mn.x {
                p.x
            } else {
                mn.x
            },
            y: if p.y < mn.y {
                p.y
            } else {
                mn.y
            },
        };
        mx = Point {
            x: if p.x > mx.x {
                p.x
            } else {
                mx.x
            },
            y: if p.y > mx.y {
                p.y
            } else {
                mx.y
            },
        };
        i += 1;
    }
    proof {
        assert(points@.take(n as int) =~= points@);
    }
    Some((mn, mx))
}

/// The view of a vector of lines as a sequence of point sequences.
pub open spec fn lines_view(lines: Seq<Vec<Point>>) -> Seq<Seq<Point>> {
    lines.map_values(|l: Vec<Point>| l@)
}

/// All points of all lines, concatenated in order.
pub open spec fn concat_all(ls: Seq<Seq<Point>>) -> Seq<Point>
    decreases ls.len(),
{
    if ls.len() == 0 {
        Seq::empty()
    } else {
        concat_all(ls.drop_last()) + ls.last()
    }
}

/// The same lines with the empty ones dropped.
pub open spec fn drop_empty_lines(ls: Seq<Seq<Point>>) -> Seq<Seq<Point>>
    decreases ls.len(),
{
    if ls.len() == 0 {
        ls
    } else {
        let rest = drop_empty_lines(ls.drop_last());
        if ls.last().len() > 0 {
            rest.push(ls.last())
        } else {
            rest
        }
    }
}

proof fn lemma_concat_all_push(ls: Seq<Seq<Point>>, l: Seq<Point>)
    ensures
        concat_all(ls.push(l)) == concat_all(ls) + l,
{
    assert(ls.push(l).drop_last() =~= ls);
    assert(ls.push(l).last() == l);
}

/// Law: concatenating all lines gives a non-empty sequence exactly when some
/// line is non-empty.
pub proof fn lemma_concat_all_len(ls: Seq<Seq<Point>>)
    ensures
        concat_all(ls).len() > 0 <==> exists|i: int| 0 <= i < ls.len() && ls[i].len() > 0,
    decreases ls.len(),
{
    if ls.len() > 0 {
        lemma_concat_all_len(ls.drop_last());
        let d = ls.drop_last();
        if concat_all(ls).len() > 0 {
            if ls.last().len() > 0 {
                assert(ls[ls.len() - 1].len() > 0);
            } else {
                let i = choose|i: int| 0 <= i < d.len() && d[i].len() > 0;
                assert(ls[i].len() > 0);
            }
        }
        if exists|i: int| 0 <= i < ls.len() && ls[i].len() > 0 {
            let i = choose|i: int| 0 <= i < ls.len() && ls[i].len() > 0;
            if i < d.len() {
                assert(d[i].len() > 0);
            }
        }
    }
}

/// Law: empty lines do not affect the combined point sequence, so the union
/// bounding box over a mix of empty and non-empty lines equals the one over
/// the non-empty lines alone.
pub proof fn lemma_lines_skip_empty(ls: Seq<Seq<Point>>)
    ensures
        concat_all(drop_empty_lines(ls)) == concat_all(ls),
    decreases ls.len(),
{
    if ls.len() == 0 {
    } else {
        lemma_lines_skip_empty(ls.drop_last());
        let rest = drop_empty_lines(ls.drop_last());
        if ls.last().len() > 0 {
            lemma_concat_all_push(rest, ls.last());
        } else {
            assert(concat_all(ls.drop_last()) + ls.last() =~= concat_all(ls.drop_last()));
        }
    }
}

/// Law: the componentwise minimum of a concatenation of two non-empty
/// sequences is the smaller of the two minima, and likewise for the maximum.
pub proof fn lemma_min_max_concat(a: Seq<Point>, b: Seq<Point>)
    requires
        a.len() > 0,
        b.len() > 0,
    ensures
        min_x_of(a + b) == if min_x_of(a) <= min_x_of(b) {
            min_x_of(a)
        } else {
            min_x_of(b)
        },
        min_y_of(a + b) == if min_y_of(a) <= min_y_of(b) {
            min_y_of(a)
        } else {
            min_y_of(b)
        },
        max_x_of(a + b) == if max_x_of(a) >= max_x_of(b) {
            max_x_of(a)
        } else {
            max_x_of(b)
        },
        max_y_of(a + b) == if max_y_of(a) >= max_y_of(b) {
            max_y_of(a)
        } else {
            max_y_of(b)
        },
    decreases b.len(),
{
    if b.len() == 1 {
        assert((a + b).drop_last() =~= a);
        assert((a + b).last() == b[0]);
        assert(min_x_of(b) == b[0].x);
        assert(min_y_of(b) == b[0].y);
        assert(max_x_of(b) == b[0].x);
        assert(max_y_of(b) == b[0].y);
    } else {
        lemma_min_max_concat(a, b.drop_last());
        assert((a + b).drop_last() =~= a + b.drop_last());
        assert((a + b).last() == b.last());
    }
}

/// Computes the componentwise minimum and maximum over several series of
/// points, as if all the series were concatenated.
///
/// Returns `None` exactly when every series is empty (in particular when
/// there are none); otherwise the union bounding box of the non-empty series.
pub fn lines_min_max_by_points(lines: &Vec<Vec<Point>>) -> (r: Option<(Point, Point)>)
    ensures
        r is Some <==> concat_all(lines_view(lines@)).len() > 0,
        r matches Some((mn, mx)) ==> {
            let all = concat_all(lines_view(lines@));
            mn.x as int == min_x_of(all) && mn.y as int == min_y_of(all) && mx.x as int == max_x_of(
                all,
            ) && mx.y as int == max_y_of(all)
        },
{
    let n = lines.len();
    let mut acc: Option<(Point, Point)> = None;
    assert(lines_view(lines@.take(0)) =~~= lines_view(lines@).take(0));
    let mut i: usize = 0;
    while i < n
        invariant
            0 <= i <= n,
            n == lines@.len(),
            acc is Some <==> concat_all(lines_view(lines@).take(i as int)).len() > 0,
            acc matches Some((mn, mx)) ==> {
                let pre = concat_all(lines_view(lines@).take(i as int));
                mn.x as int == min_x_of(pre) && mn.y as int == min_y_of(pre) && mx.x as int
                    == max_x_of(pre) && mx.y as int == max_y_of(pre)
            },
        decreases n - i,
    {
        let cur = points_min_max(&lines[i]);
        proof {
            let lv = lines_view(lines@);
            assert(lv.take(i + 1).drop_last() =~= lv.take(i as int));
            assert(lv.take(i + 1).last() == lines@[i as int]@);
            let pre = concat_all(lv.take(i as int));
            if lines@[i as int]@.len() == 0 {
                assert(pre + lines@[i as int]@ =~= pre);
            } else if pre.len() > 0 {
                lemma_min_max_concat(pre, lines@[i as int]@);
            } else {
                assert(pre + lines@[i as int]@ =~= lines@[i as int]@);
            }
        }
        acc = match (acc, cur) {
            (None, c) => c,
            (Some(a), None) => Some(a),
            (Some((amn, amx)), Some((cmn, cmx))) => Some(
                (
                    Point {
                        x: if cmn.x < amn.x {
                            cmn.x
                        } else {
                            amn.x
                        },
                        y: if cmn.y < amn.y {
                            cmn.y
                        } else {
                            amn.y
                        },
                    },
                    Point {
                        x: if cmx.x > amx.x {
                            cmx.x
                        } else {
                            amx.x
                        },
                        y: if cmx.y > amx.y {
                            cmx.y
                        } else {
                            amx.y
                        },
                    },
                ),
            ),
        };
        i += 1;
    }
    proof {
        assert(lines_view(lines@).take(n as int) =~~= lines_view(lines@));
    }
    acc
}

} // verus!
