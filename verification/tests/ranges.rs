use line_plot::lines_min_max_by_points;
use line_plot::points_min_max;
use line_plot::Point;

fn pt(x: i128, y: i128) -> Point {
    Point { x, y }
}

#[test]
fn empty_points_no_result() {
    let points: Vec<Point> = Vec::new();
    assert_eq!(points_min_max(&points), None);
}

#[test]
fn single_point_is_both_min_and_max() {
    let points = vec![pt(3, 7)];
    assert_eq!(points_min_max(&points), Some((pt(3, 7), pt(3, 7))));
}

#[test]
fn bounding_box_of_three_points() {
    let points = vec![pt(0, 0), pt(1, 1), pt(2, 0)];
    assert_eq!(points_min_max(&points), Some((pt(0, 0), pt(2, 1))));
}

#[test]
fn axes_reduce_independently() {
    // the result corners need not be input points
    let points = vec![pt(0, 5), pt(5, 0)];
    assert_eq!(points_min_max(&points), Some((pt(0, 0), pt(5, 5))));
}

#[test]
fn min_max_invariant_under_permutation() {
    let a = vec![pt(4, -2), pt(-1, 9), pt(0, 0), pt(7, 7)];
    let b = vec![pt(7, 7), pt(0, 0), pt(4, -2), pt(-1, 9)];
    let ra = points_min_max(&a).unwrap();
    let rb = points_min_max(&b).unwrap();
    assert_eq!(ra, rb);
    let (mn, mx) = ra;
    assert!(mn.x <= mx.x && mn.y <= mx.y);
}

#[test]
fn no_lines_no_result() {
    let lines: Vec<Vec<Point>> = Vec::new();
    assert_eq!(lines_min_max_by_points(&lines), None);
}

#[test]
fn all_empty_lines_no_result() {
    let lines: Vec<Vec<Point>> = vec![Vec::new(), Vec::new(), Vec::new()];
    assert_eq!(lines_min_max_by_points(&lines), None);
}

#[test]
fn empty_lines_do_not_change_the_union_box() {
    let with_empty: Vec<Vec<Point>> = vec![
        Vec::new(),
        vec![pt(1, 2), pt(3, -1)],
        Vec::new(),
        vec![pt(0, 5)],
    ];
    let without_empty: Vec<Vec<Point>> = vec![vec![pt(1, 2), pt(3, -1)], vec![pt(0, 5)]];
    let ra = lines_min_max_by_points(&with_empty);
    let rb = lines_min_max_by_points(&without_empty);
    assert_eq!(ra, rb);
    assert_eq!(ra, Some((pt(0, -1), pt(3, 5))));
}

#[test]
fn union_box_merges_per_line_boxes() {
    let lines: Vec<Vec<Point>> = vec![vec![pt(-3, 0), pt(-1, 1)], vec![pt(2, -5), pt(4, 2)]];
    assert_eq!(lines_min_max_by_points(&lines), Some((pt(-3, -5), pt(4, 2))));
}
