//! Collision probing: before a forward move commits, a longer probe
//! segment is cast from the camera's ground position and tested
//! against the BSP-ordered wall segments; any hit rejects the whole
//! move.

use vstd::prelude::*;

verus! {

use crate::vecs::{Vec2, Vec3, tdiv, wide_mul, tdiv128, COORD_LIMIT, FP_ONE};
use crate::lines::{LineSegment, segs_intersect, do_lines_intersect};
use crate::bsp::BSPNode;
use crate::GameState;

/// A direction vector of at most two world units per second — ample
/// for the unit-length forward vectors movement uses.
pub open spec fn dir_in_range(v: Vec3) -> bool {
    &&& -2 * FP_ONE <= v.x <= 2 * FP_ONE
    &&& -2 * FP_ONE <= v.y <= 2 * FP_ONE
    &&& -2 * FP_ONE <= v.z <= 2 * FP_ONE
}

/// One coordinate stepped by `dir * (k * delta)`, all fixed-point.
pub open spec fn moved_c(p: int, c: int, k: int, delta: int) -> int {
    p + tdiv(c * (k * delta), FP_ONE as int)
}

/// The point reached from `pos` along `m` scaled by `k * delta`.
pub open spec fn move_target(pos: Vec3, m: Vec3, k: int, delta: int) -> Vec3 {
    Vec3 {
        x: moved_c(pos.x as int, m.x as int, k, delta) as i64,
        y: moved_c(pos.y as int, m.y as int, k, delta) as i64,
        z: moved_c(pos.z as int, m.z as int, k, delta) as i64,
    }
}

/// The stepped point stays in the playable world (checked before the
/// integer narrowing, so it also means the narrowing is exact).
pub open spec fn target_in_world(pos: Vec3, m: Vec3, k: int, delta: int) -> bool {
    &&& -COORD_LIMIT / 2 <= moved_c(pos.x as int, m.x as int, k, delta) <= COORD_LIMIT / 2
    &&& -COORD_LIMIT / 2 <= moved_c(pos.y as int, m.y as int, k, delta) <= COORD_LIMIT / 2
    &&& -COORD_LIMIT / 2 <= moved_c(pos.z as int, m.z as int, k, delta) <= COORD_LIMIT / 2
}

/// The probe segment on the floor plan, from the current ground
/// position to the extended target's ground position.
pub open spec fn probe_seg(pos: Vec3, ext: Vec3) -> LineSegment {
    LineSegment { start: Vec2 { x: pos.x, y: pos.z }, end: Vec2 { x: ext.x, y: ext.z } }
}

/// Whether any BSP-ordered wall segment intersects the probe cast
/// fifty-fold ahead along the move direction.
pub open spec fn move_blocked(bsp: BSPNode, pos: Vec3, m: Vec3, delta: int) -> bool {
    let ext = move_target(pos, m, 50, delta);
    let walls = bsp.order_spec(Vec2 { x: pos.x, y: pos.z });
    exists|k: int| 0 <= k < walls.len() && segs_intersect(probe_seg(pos, ext), walls[k])
}

/// Computes one stepped coordinate and reports whether it stays in the
/// playable world.
pub(crate) fn step_coord(p: i64, c: i64, k: i64, delta: i64) -> (r: (i64, bool))
    requires
        -COORD_LIMIT / 2 <= p <= COORD_LIMIT / 2,
        -2 * FP_ONE <= c <= 2 * FP_ONE,
        -64 <= k <= 64,
        0 <= delta <= 8 * FP_ONE,
    ensures
        r.1 == (-COORD_LIMIT / 2 <= moved_c(p as int, c as int, k as int, delta as int)
            <= COORD_LIMIT / 2),
        r.1 ==> r.0 == moved_c(p as int, c as int, k as int, delta as int),
{
    proof {
        crate::vecs::lemma_mul_mag(k as int, delta as int, 64, 524288);
    }
    let f: i64 = k * delta;
    proof {
        crate::vecs::lemma_mul_mag(c as int, f as int, 131072, 33554432);
    }
    let q: i128 = tdiv128(wide_mul(c, f), FP_ONE as i128);
    let target: i128 = (p as i128) + q;
    if -(COORD_LIMIT as i128) / 2 <= target && target <= (COORD_LIMIT as i128) / 2 {
        ((target as i64), true)
    } else {
        (0, false)
    }
}

/// Attempts a forward move of `move_vec * 8 * delta`: a probe segment
/// `move_vec * 50 * delta` long is cast from the camera's ground
/// position, and if any BSP-ordered wall intersects it — or the step
/// would leave the playable world — the move is rejected whole and the
/// camera stays put. No sliding, no partial move.
pub fn attempt_move(game_state: &mut GameState, delta: i64, move_vec: &Vec3)
    requires
        old(game_state).wf(),
        0 <= delta <= 8 * FP_ONE,
        dir_in_range(*move_vec),
    ensures
        final(game_state).wf(),
        final(game_state).bsp == old(game_state).bsp,
        final(game_state).color_seed == old(game_state).color_seed,
        final(game_state).cam.fov == old(game_state).cam.fov,
        final(game_state).cam.yaw == old(game_state).cam.yaw,
        final(game_state).cam.pitch == old(game_state).cam.pitch,
        final(game_state).cam.near == old(game_state).cam.near,
        ({
            let pos = old(game_state).cam.pos;
            if target_in_world(pos, *move_vec, 8, delta as int) && target_in_world(
                pos,
                *move_vec,
                50,
                delta as int,
            ) && !move_blocked(old(game_state).bsp, pos, *move_vec, delta as int) {
                final(game_state).cam.pos == move_target(pos, *move_vec, 8, delta as int)
            } else {
                final(game_state).cam.pos == pos
            }
        }),
{
    let pos = game_state.cam.pos;
    let (nx, ok1) = step_coord(pos.x, move_vec.x, 8, delta);
    let (ny, ok2) = step_coord(pos.y, move_vec.y, 8, delta);
    let (nz, ok3) = step_coord(pos.z, move_vec.z, 8, delta);
    let (ex, ok4) = step_coord(pos.x, move_vec.x, 50, delta);
    let (ey, ok5) = step_coord(pos.y, move_vec.y, 50, delta);
    let (ez, ok6) = step_coord(pos.z, move_vec.z, 50, delta);
    if !(ok1 && ok2 && ok3 && ok4 && ok5 && ok6) {
        return ;
    }
    let new_pos = Vec3 { x: nx, y: ny, z: nz };
    let extended = Vec3 { x: ex, y: ey, z: ez };
    let segment = LineSegment {
        start: Vec2 { x: pos.x, y: pos.z },
        end: Vec2 { x: extended.x, y: extended.z },
    };

    let walls = game_state.bsp.order(Vec2 { x: pos.x, y: pos.z });
    let n = walls.len();
    let mut i: usize = 0;
    #[verifier::loop_isolation(false)]
    while i < n
        invariant
            0 <= i <= n,
            forall|j: int| 0 <= j < i ==> !segs_intersect(segment, walls@[j]),
        decreases n - i,
    {
        if do_lines_intersect(&segment, &walls[i]) {
            return ;
        }
        i = i + 1;
    }
    game_state.cam.pos = new_pos;
}

} // verus!
