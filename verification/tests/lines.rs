use micro_doom_rs::lines::{
    do_lines_intersect, intersection_point, intersection_point_segment, point_side_of_line,
    split_line, LineSegment, Order,
};
use micro_doom_rs::vecs::Vec2;

fn seg(x1: i64, y1: i64, x2: i64, y2: i64) -> LineSegment {
    LineSegment::new(Vec2::new(x1, y1), Vec2::new(x2, y2))
}

#[test]
fn test_intersection_point() {
    let line1 = seg(0, 0, 2, 2);
    let line2 = seg(0, 2, 2, 0);
    let intersection = intersection_point(&line1, &line2).unwrap();
    assert_eq!(intersection, Vec2::new(1, 1));
}

#[test]
fn test_no_intersection_point() {
    let line1 = seg(0, 0, 1, 1);
    let line2 = seg(0, 1, 1, 2);
    let intersection = intersection_point(&line1, &line2);
    assert!(intersection.is_none());
}

#[test]
fn test_do_lines_intersect() {
    let line1 = seg(0, 0, 2, 2);
    let line2 = seg(0, 2, 2, 0);
    assert!(do_lines_intersect(&line1, &line2));
}

#[test]
fn test_point_side_left() {
    let line = seg(0, 0, 2, 0);
    let point = Vec2::new(1, 1);
    assert_eq!(point_side_of_line(&line, &point), Order::Left);
}

#[test]
fn test_point_side_right() {
    let line = seg(0, 0, 2, 0);
    let point = Vec2::new(1, -1);
    assert_eq!(point_side_of_line(&line, &point), Order::Right);
}

#[test]
fn test_point_side_on() {
    let line = seg(0, 0, 2, 0);
    let point = Vec2::new(1, 0);
    assert_eq!(point_side_of_line(&line, &point), Order::On);
}

#[test]
fn segments_touching_only_on_lines_do_not_intersect() {
    // Parallel horizontal segments never meet.
    let a = seg(0, 0, 10, 0);
    let b = seg(0, 5, 10, 5);
    assert!(!do_lines_intersect(&a, &b));
    // Lines cross but outside both segments.
    let c = seg(0, 0, 1, 1);
    let d = seg(10, 0, 11, -1);
    assert!(!do_lines_intersect(&c, &d));
}

#[test]
fn ray_hit_respects_ray_direction() {
    // Ray pointing in +x from the origin hits the vertical segment at x=5.
    let ray = seg(0, 0, 1, 0);
    let wall = seg(5, -5, 5, 5);
    assert_eq!(intersection_point_segment(&ray, &wall), Some(Vec2::new(5, 0)));
    // The same ray pointing in -x misses it.
    let ray_back = seg(0, 0, -1, 0);
    assert_eq!(intersection_point_segment(&ray_back, &wall), None);
}

#[test]
fn split_reconstructs_the_segment_exactly() {
    // A vertical partition line at x=5 splits a horizontal segment.
    let partition = seg(5, -10, 5, 10);
    let b = seg(0, 0, 10, 0);
    let (s1, s2) = split_line(&partition, &b).unwrap();
    assert_eq!(s1.start, b.start);
    assert_eq!(s1.end, Vec2::new(5, 0));
    assert_eq!(s2.start, Vec2::new(5, 0));
    assert_eq!(s2.end, b.end);
}

#[test]
fn split_fails_on_parallel_lines() {
    let partition = seg(0, 0, 10, 0);
    let b = seg(0, 5, 10, 5);
    assert!(split_line(&partition, &b).is_none());
}

#[test]
fn split_fails_outside_the_segment_box() {
    // Lines meet at (20, 0), far beyond b's extent.
    let partition = seg(20, -10, 20, 10);
    let b = seg(0, 0, 10, 0);
    assert!(split_line(&partition, &b).is_none());
}

#[test]
fn midpoint_rounds_toward_zero() {
    let s = seg(0, 0, 5, 9);
    let m = s.midpoint();
    assert_eq!(m, Vec2::new(2, 4));
}
