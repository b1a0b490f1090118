//! A small 2.5D first-person software renderer.
//!
//! A 2D floor plan of wall segments is compiled into a binary space
//! partition (BSP) tree, traversed back to front from the camera's
//! position to produce a painter's-algorithm draw order, extruded into
//! vertical wall quads, clipped against the view frustum in homogeneous
//! clip space, and rasterized into an RGBA pixel buffer.
//!
//! All geometry is carried in fixed-point integer coordinates (see
//! [`vecs`]); trigonometry and the floating-point matrix construction
//! needed to drive [`a3d_to_2d`] live outside this crate and hand in
//! plain fixed-point values.

use vstd::prelude::*;

pub mod a3d_to_2d;
pub mod bsp;
pub mod cam;
pub mod colls;
pub mod contexts;
pub mod draw_screen;
pub mod lines;
pub mod raster;
pub mod vecs;

verus! {

use crate::vecs::{Vec2, Vec3, FP_ONE, COORD_LIMIT};
use crate::lines::{LineSegment, seg_in_range};
use crate::bsp::BSPNode;
use crate::cam::{Camera, wrap_angle, angle_step, DEFAULT_FOV_FP, DEFAULT_NEAR_FP};
use crate::contexts::KeysDown;
use crate::colls::{attempt_move, dir_in_range, move_target, target_in_world, move_blocked};

/// How far one pitch key press tilts the view, 0.01 in fixed-point
/// radians.
pub const PITCH_STEP_FP: i64 = 655;

/// The world: the camera and the BSP tree built once from the floor
/// plan, plus the run's wall-color seed.
pub struct GameState {
    pub cam: Camera,
    pub bsp: BSPNode,
    pub color_seed: u32,
}

impl GameState {
    pub open spec fn wf(self) -> bool {
        &&& self.cam.wf()
        &&& self.bsp.wf()
    }

    /// Builds the world from a non-empty floor plan and the camera's
    /// starting ground position. The color seed makes every wall's
    /// color a pure function of seed and wall geometry.
    pub fn new(floor_plan: Vec<LineSegment>, cam_pos: Vec2, color_seed: u32) -> (s: GameState)
        requires
            floor_plan@.len() >= 1,
            forall|k: int| 0 <= k < floor_plan@.len() ==> seg_in_range(#[trigger] floor_plan@[k]),
            -COORD_LIMIT / 2 <= cam_pos.x <= COORD_LIMIT / 2,
            -COORD_LIMIT / 2 <= cam_pos.y <= COORD_LIMIT / 2,
        ensures
            s.wf(),
            s.bsp.is_build_of(floor_plan@),
            s.cam == (Camera {
                pos: Vec3 { x: cam_pos.x, y: 0, z: cam_pos.y },
                fov: DEFAULT_FOV_FP,
                yaw: 0,
                pitch: 0,
                near: DEFAULT_NEAR_FP,
            }),
            s.color_seed == color_seed,
    {
        let camera3d = Vec3 { x: cam_pos.x, y: 0, z: cam_pos.y };
        let bsp = BSPNode::new(floor_plan);
        GameState {
            cam: Camera {
                pos: camera3d,
                fov: DEFAULT_FOV_FP,
                yaw: 0,
                pitch: 0,
                near: DEFAULT_NEAR_FP,
            },
            bsp,
            color_seed,
        }
    }

    /// Renders one frame into the pixel buffer, as
    /// [`draw_screen::draw_screen`] specifies: the skybox band first,
    /// then every visible wall in painter's order. `vp` is the
    /// fixed-point view-projection matrix and `flat_forward` the
    /// ground-plane forward vector, both computed outside from the
    /// camera's angles.
    pub fn draw_screen(
        &self,
        vp: &crate::a3d_to_2d::Mat4,
        flat_forward: Vec3,
        frame: &mut crate::raster::PixelDrawer,
    )
        requires
            self.wf(),
            crate::a3d_to_2d::mat_in_range(*vp),
            dir_in_range(flat_forward),
            old(frame).wf(),
        ensures
            final(frame).wf(),
            final(frame).width_spec() == old(frame).width_spec(),
            final(frame).height_spec() == old(frame).height_spec(),
            forall|x: int, y: int|
                crate::raster::in_frame(old(frame).width_spec(), old(frame).height_spec(), x, y)
                    ==> final(frame).pix(x, y) == crate::draw_screen::pix_after(
                    crate::draw_screen::frame_cmds(
                        *self,
                        *vp,
                        flat_forward,
                        old(frame).width_spec(),
                        old(frame).height_spec(),
                    ),
                    old(frame).pix(x, y),
                    x,
                    y,
                ),
    {
        crate::draw_screen::draw_screen(self, vp, flat_forward, frame);
    }

    /// Applies one frame of input: forward movement goes through the
    /// collision probe, backward movement steps straight back, the
    /// arrow keys turn and the w/s keys tilt. `flat_forward` is the
    /// camera's ground-plane forward vector, computed outside from the
    /// yaw.
    pub fn keys(&mut self, delta: i64, keys_down: KeysDown, flat_forward: Vec3)
        requires
            old(self).wf(),
            0 <= delta <= 6 * FP_ONE,
            dir_in_range(flat_forward),
        ensures
            final(self).wf(),
            final(self).bsp == old(self).bsp,
            final(self).color_seed == old(self).color_seed,
            final(self).cam.fov == old(self).cam.fov,
            final(self).cam.near == old(self).cam.near,
            final(self).cam.yaw == ({
                let y1: int = if keys_down.left {
                    wrap_angle(old(self).cam.yaw - delta)
                } else {
                    old(self).cam.yaw as int
                };
                if keys_down.right {
                    wrap_angle(y1 + delta)
                } else {
                    y1
                }
            }),
            final(self).cam.pitch == ({
                let p1: int = if keys_down.w {
                    wrap_angle(old(self).cam.pitch - PITCH_STEP_FP)
                } else {
                    old(self).cam.pitch as int
                };
                if keys_down.s {
                    wrap_angle(p1 + PITCH_STEP_FP)
                } else {
                    p1
                }
            }),
            final(self).cam.pos == ({
                let pos0 = old(self).cam.pos;
                let p1: Vec3 = if keys_down.up && target_in_world(
                    pos0,
                    flat_forward,
                    8,
                    delta as int,
                ) && target_in_world(pos0, flat_forward, 50, delta as int) && !move_blocked(
                    old(self).bsp,
                    pos0,
                    flat_forward,
                    delta as int,
                ) {
                    move_target(pos0, flat_forward, 8, delta as int)
                } else {
                    pos0
                };
                if keys_down.down && target_in_world(p1, flat_forward, -3, delta as int) {
                    move_target(p1, flat_forward, -3, delta as int)
                } else {
                    p1
                }
            }),
    {
        if keys_down.up {
            attempt_move(self, delta, &flat_forward);
        }
        if keys_down.down {
            let pos = self.cam.pos;
            let (bx, ok1) = crate::colls::step_coord(pos.x, flat_forward.x, -3, delta);
            let (by, ok2) = crate::colls::step_coord(pos.y, flat_forward.y, -3, delta);
            let (bz, ok3) = crate::colls::step_coord(pos.z, flat_forward.z, -3, delta);
            if ok1 && ok2 && ok3 {
                self.cam.pos = Vec3 { x: bx, y: by, z: bz };
            }
        }
        if keys_down.left {
            self.cam.yaw = angle_step(self.cam.yaw, -delta);
        }
        if keys_down.right {
            self.cam.yaw = angle_step(self.cam.yaw, delta);
        }
        if keys_down.w {
            self.cam.pitch = angle_step(self.cam.pitch, -PITCH_STEP_FP);
        }
        if keys_down.s {
            self.cam.pitch = angle_step(self.cam.pitch, PITCH_STEP_FP);
        }
    }
}

} // verus!
