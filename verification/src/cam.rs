//! The camera: player position and view state.
//!
//! Angles are fixed-point radians. The camera only stores and adjusts
//! them; the trigonometry that turns them into a forward vector and a
//! view matrix is floating-point work done outside this crate, which
//! hands back a fixed-point matrix (see [`crate::a3d_to_2d::Mat4`]).

use vstd::prelude::*;

verus! {

use crate::vecs::{Vec2, Vec3, COORD_LIMIT};

/// A full turn, `2 * pi`, in fixed-point radians. Angles are kept in
/// `[0, TWO_PI_FP)` by wrapping, which leaves their direction exact.
pub const TWO_PI_FP: i64 = 411775;

/// The default field of view, 80 degrees in fixed-point radians.
pub const DEFAULT_FOV_FP: i64 = 91498;

/// The default near-plane distance, 0.1 in fixed-point units.
pub const DEFAULT_NEAR_FP: i64 = 6554;

/// View state: position, yaw, pitch, field of view and near plane,
/// all in fixed-point units.
#[derive(Clone, Copy, Debug, PartialEq, Eq, Structural)]
pub struct Camera {
    pub pos: Vec3,
    pub fov: i64,
    pub yaw: i64,
    pub pitch: i64,
    pub near: i64,
}

/// A position within the playable world: comfortably inside the
/// coordinate range, so a probe segment cast from it stays
/// representable.
pub open spec fn pos_in_world(v: Vec3) -> bool {
    &&& -COORD_LIMIT / 2 <= v.x <= COORD_LIMIT / 2
    &&& -COORD_LIMIT / 2 <= v.y <= COORD_LIMIT / 2
    &&& -COORD_LIMIT / 2 <= v.z <= COORD_LIMIT / 2
}

/// An angle in its wrapped canonical range.
pub open spec fn angle_wf(a: int) -> bool {
    0 <= a < TWO_PI_FP
}

/// One wrapping step: brings `a + d` for a canonical `a` and a small
/// step `d` back into `[0, TWO_PI_FP)`.
pub open spec fn wrap_angle(a: int) -> int {
    if a < 0 {
        a + TWO_PI_FP
    } else if a >= TWO_PI_FP {
        a - TWO_PI_FP
    } else {
        a
    }
}

impl Camera {
    pub open spec fn wf(self) -> bool {
        &&& pos_in_world(self.pos)
        &&& angle_wf(self.yaw as int)
        &&& angle_wf(self.pitch as int)
    }

    /// The camera's 2D position on the floor plan (x/z ground plane).
    pub fn ground_pos(&self) -> (r: Vec2)
        ensures
            r == (Vec2 { x: self.pos.x, y: self.pos.z }),
    {
        Vec2 { x: self.pos.x, y: self.pos.z }
    }
}

/// Adds a bounded step to a canonical angle and wraps the result back
/// into `[0, TWO_PI_FP)`.
pub fn angle_step(a: i64, d: i64) -> (r: i64)
    requires
        angle_wf(a as int),
        -TWO_PI_FP <= d <= TWO_PI_FP,
    ensures
        r == wrap_angle(a + d),
        angle_wf(r as int),
{
    let s = a + d;
    if s < 0 {
        s + TWO_PI_FP
    } else if s >= TWO_PI_FP {
        s - TWO_PI_FP
    } else {
        s
    }
}

} // verus!
