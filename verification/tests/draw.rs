use line_plot::draw_gizmo_line_plot_2d_clamped;
use line_plot::draw_gizmo_line_plot_2d_raw;
use line_plot::rect_contains;
use line_plot::segment_entry;
use line_plot::Point;
use line_plot::Rat;
use line_plot::RatPoint;
use line_plot::Rect;

fn pt(x: i128, y: i128) -> Point {
    Point { x, y }
}

fn rect(min: Point, max: Point) -> Rect {
    Rect { min, max }
}

fn rat_is(r: &Rat, v: i128) -> bool {
    r.den > 0 && r.num == v * r.den
}

fn screen() -> Rect {
    // centered at (0, 0) with size (100, 100)
    rect(pt(-50, -50), pt(50, 50))
}

#[test]
fn raw_three_point_strip() {
    let points = vec![pt(0, 0), pt(1, 1), pt(2, 0)];
    let strip = draw_gizmo_line_plot_2d_raw(&points, screen(), pt(0, 0), pt(2, 1));
    assert_eq!(strip.len(), 3);
    assert!(rat_is(&strip[0].x, -50) && rat_is(&strip[0].y, -50));
    assert!(rat_is(&strip[1].x, 0) && rat_is(&strip[1].y, 50));
    assert!(rat_is(&strip[2].x, 50) && rat_is(&strip[2].y, -50));
}

#[test]
fn raw_strip_of_empty_input_is_empty() {
    let points: Vec<Point> = Vec::new();
    let strip = draw_gizmo_line_plot_2d_raw(&points, screen(), pt(0, 0), pt(2, 1));
    assert!(strip.is_empty());
}

#[test]
fn clamped_keeps_a_fully_inside_segment_whole() {
    // value box [0,2]x[0,2], both points remap inside the screen rectangle
    let points = vec![pt(0, 0), pt(2, 2)];
    let segs = draw_gizmo_line_plot_2d_clamped(&points, screen(), pt(0, 0), pt(2, 2));
    assert_eq!(segs.len(), 1);
    assert!(rat_is(&segs[0].p0.x, -50) && rat_is(&segs[0].p0.y, -50));
    assert!(rat_is(&segs[0].p1.x, 50) && rat_is(&segs[0].p1.y, 50));
}

#[test]
fn clamped_cuts_a_segment_leaving_the_rectangle() {
    // the data points (0, 0.5) and (3, 0.5) with value box [0,2]x[0,1],
    // written at fixed-point scale 2: the scale cancels out of the remap
    let points = vec![pt(0, 1), pt(6, 1)];
    let segs = draw_gizmo_line_plot_2d_clamped(&points, screen(), pt(0, 0), pt(4, 2));
    assert_eq!(segs.len(), 1);
    // from the remapped inside point (-50, 0) to the crossing of the right
    // edge at (50, 0); the fully remapped second point (100, 0) is not reached
    assert!(rat_is(&segs[0].p0.x, -50) && rat_is(&segs[0].p0.y, 0));
    assert!(rat_is(&segs[0].p1.x, 50) && rat_is(&segs[0].p1.y, 0));
}

#[test]
fn clamped_cuts_a_segment_entering_the_rectangle() {
    // same segment as above walked the other way: outside first, inside second
    let points = vec![pt(6, 1), pt(0, 1)];
    let segs = draw_gizmo_line_plot_2d_clamped(&points, screen(), pt(0, 0), pt(4, 2));
    assert_eq!(segs.len(), 1);
    // listed from the inside endpoint outward
    assert!(rat_is(&segs[0].p0.x, -50) && rat_is(&segs[0].p0.y, 0));
    assert!(rat_is(&segs[0].p1.x, 50) && rat_is(&segs[0].p1.y, 0));
}

#[test]
fn clamped_skips_a_segment_with_both_endpoints_outside() {
    // the data points (-1, 0.5) and (3, 0.5) at fixed-point scale 2: both
    // remap outside the rectangle although the chord crosses its interior
    let points = vec![pt(-2, 1), pt(6, 1)];
    let segs = draw_gizmo_line_plot_2d_clamped(&points, screen(), pt(0, 0), pt(4, 2));
    assert_eq!(segs.len(), 0);
}

#[test]
fn clamped_handles_identical_consecutive_points() {
    // two identical inside points: one degenerate segment, no crossing computed
    let points = vec![pt(1, 1), pt(1, 1)];
    let segs = draw_gizmo_line_plot_2d_clamped(&points, screen(), pt(0, 0), pt(2, 2));
    assert_eq!(segs.len(), 1);
    assert_eq!(segs[0].p0, segs[0].p1);
    // two identical outside points: nothing at all
    let far = vec![pt(9, 9), pt(9, 9)];
    let segs = draw_gizmo_line_plot_2d_clamped(&far, screen(), pt(0, 0), pt(2, 2));
    assert_eq!(segs.len(), 0);
}

#[test]
fn clamped_draws_nothing_for_empty_or_single_point_input() {
    let none: Vec<Point> = Vec::new();
    assert_eq!(draw_gizmo_line_plot_2d_clamped(&none, screen(), pt(0, 0), pt(2, 2)).len(), 0);
    let one = vec![pt(1, 1)];
    assert_eq!(draw_gizmo_line_plot_2d_clamped(&one, screen(), pt(0, 0), pt(2, 2)).len(), 0);
}

#[test]
fn clamped_output_stays_inside_the_rectangle() {
    // a zig-zag that repeatedly leaves the value box
    let points = vec![pt(0, -2), pt(1, 4), pt(2, -3), pt(3, 1), pt(4, 5)];
    let segs = draw_gizmo_line_plot_2d_clamped(&points, screen(), pt(0, 0), pt(4, 2));
    assert!(!segs.is_empty());
    for sg in &segs {
        assert!(rect_contains(&screen(), &sg.p0));
        assert!(rect_contains(&screen(), &sg.p1));
    }
}

#[test]
fn rect_contains_includes_the_edges() {
    let r = screen();
    let on_edge = RatPoint { x: Rat { num: 100, den: 2 }, y: Rat { num: 0, den: 3 } };
    assert!(rect_contains(&r, &on_edge));
    let beyond = RatPoint { x: Rat { num: 101, den: 2 }, y: Rat { num: 0, den: 3 } };
    assert!(!rect_contains(&r, &beyond));
}

#[test]
fn segment_entry_finds_the_first_crossing() {
    let r = screen();
    // from (100, 20) outside toward (0, 0) inside: enters at the right edge
    let a = RatPoint { x: Rat { num: 0, den: 1 }, y: Rat { num: 0, den: 1 } };
    let b = RatPoint { x: Rat { num: 100, den: 1 }, y: Rat { num: 20, den: 1 } };
    let c = segment_entry(&r, &a, &b);
    assert!(rat_is(&c.x, 50));
    assert!(rat_is(&c.y, 10));
}
