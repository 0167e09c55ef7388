use line_plot::remap_point;
use line_plot::Point;
use line_plot::Rat;

fn pt(x: i128, y: i128) -> Point {
    Point { x, y }
}

fn rat_is(r: &Rat, v: i128) -> bool {
    r.den > 0 && r.num == v * r.den
}

#[test]
fn value_box_min_lands_on_output_min() {
    let r = remap_point(pt(0, 0), pt(2, 1), pt(-50, -50), pt(50, 50), pt(0, 0));
    assert!(rat_is(&r.x, -50));
    assert!(rat_is(&r.y, -50));
}

#[test]
fn value_box_max_lands_on_output_max() {
    let r = remap_point(pt(0, 0), pt(2, 1), pt(-50, -50), pt(50, 50), pt(2, 1));
    assert!(rat_is(&r.x, 50));
    assert!(rat_is(&r.y, 50));
}

#[test]
fn midpoint_lands_on_output_midpoint() {
    let r = remap_point(pt(0, 0), pt(2, 2), pt(10, 20), pt(30, 40), pt(1, 1));
    assert!(rat_is(&r.x, 20));
    assert!(rat_is(&r.y, 30));
}

#[test]
fn result_is_not_clamped_to_the_output_box() {
    // a value beyond the value box lands beyond the output box
    let r = remap_point(pt(0, 0), pt(2, 1), pt(-50, -50), pt(50, 50), pt(3, 0));
    assert!(rat_is(&r.x, 100));
    assert!(rat_is(&r.y, -50));
}

#[test]
fn round_trip_recovers_the_point() {
    // forward: box A = [0,2]x[0,2] to box B = [10,30]x[10,30]
    let fwd = remap_point(pt(0, 0), pt(2, 2), pt(10, 10), pt(30, 30), pt(1, 1));
    assert!(rat_is(&fwd.x, 20));
    assert!(rat_is(&fwd.y, 20));
    // backward: the exact forward image, remapped from B back to A
    let back = remap_point(pt(10, 10), pt(30, 30), pt(0, 0), pt(2, 2), pt(20, 20));
    assert!(rat_is(&back.x, 1));
    assert!(rat_is(&back.y, 1));
}

#[test]
fn axes_remap_independently() {
    let r = remap_point(pt(0, -4), pt(4, 4), pt(0, 0), pt(100, 10), pt(1, 0));
    assert!(rat_is(&r.x, 25));
    assert!(rat_is(&r.y, 5));
}
