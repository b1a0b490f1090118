use micro_doom_rs::bsp::{classify_segment, normalize_partition, BSPNode};
use micro_doom_rs::cam::{DEFAULT_FOV_FP, DEFAULT_NEAR_FP};
use micro_doom_rs::contexts::KeysDown;
use micro_doom_rs::colls::attempt_move;
use micro_doom_rs::lines::LineSegment;
use micro_doom_rs::vecs::{Vec2, Vec3, FP_ONE};
use micro_doom_rs::GameState;

fn seg(x1: i64, y1: i64, x2: i64, y2: i64) -> LineSegment {
    LineSegment::new(Vec2::new(x1, y1), Vec2::new(x2, y2))
}

fn sorted_by_coords(mut v: Vec<LineSegment>) -> Vec<LineSegment> {
    v.sort_by_key(|s| (s.start.x, s.start.y, s.end.x, s.end.y));
    v
}

#[test]
fn single_segment_order_from_both_sides() {
    // One wall only: the emitted order is that wall, whichever side
    // the viewer stands on.
    let wall = seg(0, 0, 10, 0);
    let tree = BSPNode::new(vec![wall]);
    let above = tree.order(Vec2::new(5, 5));
    assert_eq!(above, vec![wall]);
    let below = tree.order(Vec2::new(5, -5));
    assert_eq!(below, vec![wall]);
}

#[test]
fn order_is_a_permutation_of_the_stored_segments() {
    let walls = vec![
        seg(0, 0, 10, 0),
        seg(10, 0, 10, 10),
        seg(10, 10, 0, 10),
        seg(0, 10, 0, 0),
        seg(2, 2, 8, 8),
    ];
    let tree = BSPNode::new(walls);
    let a = tree.order(Vec2::new(1, 1));
    let b = tree.order(Vec2::new(9, 3));
    let c = tree.order(Vec2::new(-7, 20));
    // Same multiset from every viewpoint.
    let sa = sorted_by_coords(a.clone());
    assert_eq!(sa, sorted_by_coords(b.clone()));
    assert_eq!(sa, sorted_by_coords(c));
    // And the traversal is deterministic: repeating it changes nothing.
    assert_eq!(a, tree.order(Vec2::new(1, 1)));
    assert_eq!(b, tree.order(Vec2::new(9, 3)));
}

#[test]
fn order_depends_on_the_viewer_side() {
    // Partition x axis; one wall above it, one below.
    let tree = BSPNode::new(vec![seg(0, 0, 10, 0), seg(0, 5, 10, 5), seg(0, -5, 10, -5)]);
    let from_above = tree.order(Vec2::new(5, 8));
    let from_below = tree.order(Vec2::new(5, -8));
    // The partition is always drawn between the two children, and the
    // far side comes out first (back to front).
    assert_eq!(from_above, vec![seg(0, -5, 10, -5), seg(0, 0, 10, 0), seg(0, 5, 10, 5)]);
    assert_eq!(from_below, vec![seg(0, 5, 10, 5), seg(0, 0, 10, 0), seg(0, -5, 10, -5)]);
}

#[test]
fn viewer_exactly_on_the_partition_counts_as_left() {
    let tree = BSPNode::new(vec![seg(0, 0, 10, 0), seg(0, 5, 10, 5), seg(0, -5, 10, -5)]);
    // On the partition line itself the traversal takes the left
    // branch order: back child, partition, front child.
    let on_line = tree.order(Vec2::new(5, 0));
    assert_eq!(on_line, vec![seg(0, -5, 10, -5), seg(0, 0, 10, 0), seg(0, 5, 10, 5)]);
    // And it is just as deterministic as any other viewpoint.
    assert_eq!(on_line, tree.order(Vec2::new(5, 0)));
}

#[test]
fn normalize_orders_endpoints() {
    assert_eq!(normalize_partition(seg(5, 0, 0, 0)), seg(0, 0, 5, 0));
    assert_eq!(normalize_partition(seg(0, 5, 0, 0)), seg(0, 0, 0, 5));
    assert_eq!(normalize_partition(seg(0, 0, 5, 0)), seg(0, 0, 5, 0));
}

#[test]
fn classify_sends_whole_segments_to_the_right_list() {
    let partition = seg(0, 0, 10, 0);
    // Fully left (above the x axis).
    assert_eq!(
        classify_segment(&partition, &seg(0, 1, 10, 1)),
        (Some(seg(0, 1, 10, 1)), None)
    );
    // Fully right (below).
    assert_eq!(
        classify_segment(&partition, &seg(0, -1, 10, -1)),
        (None, Some(seg(0, -1, 10, -1)))
    );
    // Colinear goes in front whole.
    assert_eq!(
        classify_segment(&partition, &seg(2, 0, 8, 0)),
        (Some(seg(2, 0, 8, 0)), None)
    );
    // One endpoint exactly on the line follows the other endpoint.
    assert_eq!(
        classify_segment(&partition, &seg(0, 0, 10, 3)),
        (Some(seg(0, 0, 10, 3)), None)
    );
}

#[test]
fn classify_splits_a_straddling_segment() {
    let partition = seg(0, 0, 10, 0);
    // Crosses the partition at (5, 0); the left piece holds the
    // endpoint on the left side.
    let (front, back) = classify_segment(&partition, &seg(5, 5, 5, -5));
    assert_eq!(front, Some(seg(5, 5, 5, 0)));
    assert_eq!(back, Some(seg(5, 0, 5, -5)));
}

#[test]
fn game_state_new_sets_the_camera_up() {
    let fp = FP_ONE;
    let plan = vec![seg(0, 0, 10 * fp, 0)];
    let state = GameState::new(plan, Vec2::new(5 * fp, 2 * fp), 7);
    assert_eq!(state.cam.pos, Vec3::new(5 * fp, 0, 2 * fp));
    assert_eq!(state.cam.yaw, 0);
    assert_eq!(state.cam.pitch, 0);
    assert_eq!(state.cam.fov, DEFAULT_FOV_FP);
    assert_eq!(state.cam.near, DEFAULT_NEAR_FP);
    assert_eq!(state.color_seed, 7);
}

#[test]
fn attempt_move_rejects_a_blocked_step() {
    let fp = FP_ONE;
    // A wall crossing the camera's path between z = 3 and z = 5,
    // camera at the origin looking +z.
    let plan = vec![seg(-10 * fp, 3 * fp, 10 * fp, 5 * fp)];
    let mut state = GameState::new(plan, Vec2::new(0, 0), 0);
    let before = state.cam.pos;
    // One second forward at one unit/s: the 50x probe hits the wall.
    attempt_move(&mut state, fp, &Vec3::new(0, 0, fp));
    assert_eq!(state.cam.pos, before);
}

#[test]
fn attempt_move_commits_a_free_step() {
    let fp = FP_ONE;
    // The wall is far behind the camera; moving +z is free.
    let plan = vec![seg(-10 * fp, -100 * fp, 10 * fp, -100 * fp)];
    let mut state = GameState::new(plan, Vec2::new(0, 0), 0);
    attempt_move(&mut state, fp, &Vec3::new(0, 0, fp));
    // pos += dir * 8 * delta = 8 units forward.
    assert_eq!(state.cam.pos, Vec3::new(0, 0, 8 * fp));
}

#[test]
fn keys_turn_and_tilt() {
    let fp = FP_ONE;
    let plan = vec![seg(-10 * fp, -100 * fp, 10 * fp, -100 * fp)];
    let mut state = GameState::new(plan, Vec2::new(0, 0), 0);
    let none = KeysDown { up: false, down: false, left: false, right: false, w: false, s: false };
    let delta = fp / 2;

    state.keys(delta, KeysDown { right: true, ..none }, Vec3::new(0, 0, fp));
    assert_eq!(state.cam.yaw, delta);
    state.keys(delta, KeysDown { left: true, ..none }, Vec3::new(0, 0, fp));
    assert_eq!(state.cam.yaw, 0);
    // Turning left from zero wraps below.
    state.keys(delta, KeysDown { left: true, ..none }, Vec3::new(0, 0, fp));
    assert_eq!(state.cam.yaw, micro_doom_rs::cam::TWO_PI_FP - delta);

    state.keys(delta, KeysDown { s: true, ..none }, Vec3::new(0, 0, fp));
    assert_eq!(state.cam.pitch, micro_doom_rs::PITCH_STEP_FP);
    state.keys(delta, KeysDown { w: true, ..none }, Vec3::new(0, 0, fp));
    assert_eq!(state.cam.pitch, 0);
}

#[test]
fn keys_move_forward_and_back() {
    let fp = FP_ONE;
    let plan = vec![seg(-10 * fp, -100 * fp, 10 * fp, -100 * fp)];
    let mut state = GameState::new(plan, Vec2::new(0, 0), 0);
    let none = KeysDown { up: false, down: false, left: false, right: false, w: false, s: false };
    let fwd = Vec3::new(0, 0, fp);

    state.keys(fp, KeysDown { up: true, ..none }, fwd);
    assert_eq!(state.cam.pos, Vec3::new(0, 0, 8 * fp));
    state.keys(fp, KeysDown { down: true, ..none }, fwd);
    assert_eq!(state.cam.pos, Vec3::new(0, 0, 5 * fp));
}
