//! Per-frame drawing: the BSP back-to-front order is walked, each wall
//! segment is extruded into a vertical 3D quad, colored by a
//! deterministic hash of its endpoints, projected and clipped, and
//! rasterized; a flat skybox band is drawn first, sized by projecting
//! the camera's horizon direction.

use vstd::prelude::*;

verus! {

use crate::vecs::{Vec2, Vec3, tdiv, FP_ONE};
use crate::lines::{LineSegment, LineSegment3};
use crate::colls::dir_in_range;
use crate::a3d_to_2d::{
    Mat4, mat_in_range, project_point, project_point_spec, clip_and_project_polygon,
    clip_project_spec, screen_to_pixel,
};
use crate::raster::{Color, PixelDrawer, rgba, in_frame, polygon_covers, all_pts_line_range};
use crate::GameState;

/// The floor height walls rise from, -0.75 in fixed-point units.
pub const WALL_BASE_FP: i64 = -49152;

/// How far above the base a wall's top edge sits, 1.75 in fixed-point
/// units.
pub const WALL_TOP_OFFSET_FP: i64 = 114688;

/// The skybox band's color.
pub const SKY_R: u8 = 0;

pub const SKY_G: u8 = 0;

pub const SKY_B: u8 = 255;

/// A world coordinate narrowed to a whole number of units, saturating
/// at the `u32` range the color hash mixes in.
pub open spec fn sat_u32(q: int) -> u32 {
    if q < 0 {
        0u32
    } else if q > 0xffff_ffff {
        0xffff_ffffu32
    } else {
        q as u32
    }
}

pub open spec fn coord_u32(c: int) -> u32 {
    sat_u32(tdiv(c, FP_ONE as int))
}

/// The wall color: a linear-congruential mix of the run seed and the
/// wall's endpoint coordinates, so a given wall geometry renders the
/// same color on every frame and run with that seed.
pub open spec fn color_spec(seed: u32, a: Vec2, b: Vec2) -> Color {
    let rng0 = seed.wrapping_add(coord_u32(a.x as int).wrapping_mul(100u32)).wrapping_add(
        coord_u32(a.y as int).wrapping_mul(1000u32),
    ).wrapping_add(coord_u32(b.x as int).wrapping_mul(5000u32)).wrapping_add(
        coord_u32(b.y as int).wrapping_mul(10000u32),
    );
    let r = ((rng0 & 0xFF0000u32) >> 16u32) as u8;
    let rng1 = rng0.wrapping_mul(1103515245u32).wrapping_add(12345u32);
    let g = ((rng1 & 0x00FF00u32) >> 8u32) as u8;
    let rng2 = rng1.wrapping_mul(1103515245u32).wrapping_add(12345u32);
    let b_ = (rng2 & 0x0000FFu32) as u8;
    Color(r, g, b_)
}

fn coord_u32_exec(c: i64) -> (r: u32)
    ensures
        r == coord_u32(c as int),
{
    let q = c / FP_ONE;
    if q < 0 {
        0
    } else if q > 0xffff_ffff {
        0xffff_ffff
    } else {
        q as u32
    }
}

/// Derives the per-wall color from the run seed and the wall's
/// endpoint coordinates.
pub fn random_color(seed: u32, v: (Vec2, Vec2)) -> (r: Color)
    ensures
        r == color_spec(seed, v.0, v.1),
{
    let mut rng: u32 = seed.wrapping_add(coord_u32_exec(v.0.x).wrapping_mul(100)).wrapping_add(
        coord_u32_exec(v.0.y).wrapping_mul(1000),
    ).wrapping_add(coord_u32_exec(v.1.x).wrapping_mul(5000)).wrapping_add(
        coord_u32_exec(v.1.y).wrapping_mul(10000),
    );
    proof {
        assert(((rng & 0xFF0000u32) >> 16u32) <= 255) by (bit_vector);
    }
    let r = ((rng & 0xFF0000) >> 16) as u8;
    rng = rng.wrapping_mul(1103515245).wrapping_add(12345);
    proof {
        assert(((rng & 0x00FF00u32) >> 8u32) <= 255) by (bit_vector);
    }
    let g = ((rng & 0x00FF00) >> 8) as u8;
    rng = rng.wrapping_mul(1103515245).wrapping_add(12345);
    proof {
        assert((rng & 0x0000FFu32) <= 255) by (bit_vector);
    }
    let b = (rng & 0x0000FF) as u8;
    Color(r, g, b)
}

/// The vertical quad a floor-plan wall extrudes into, as its bottom
/// and top 3D edges.
pub fn wall_floor_to_3d(wall_left: &Vec2, wall_right: &Vec2) -> (r: (LineSegment3, LineSegment3))
    ensures
        r.0 == (LineSegment3 {
            start: Vec3 { x: wall_left.x, y: WALL_BASE_FP, z: wall_left.y },
            end: Vec3 { x: wall_right.x, y: WALL_BASE_FP, z: wall_right.y },
        }),
        r.1 == (LineSegment3 {
            start: Vec3 { x: wall_left.x, y: (WALL_BASE_FP + WALL_TOP_OFFSET_FP) as i64, z: wall_left.y },
            end: Vec3 { x: wall_right.x, y: (WALL_BASE_FP + WALL_TOP_OFFSET_FP) as i64, z: wall_right.y },
        }),
{
    let base = WALL_BASE_FP;
    let top = WALL_BASE_FP + WALL_TOP_OFFSET_FP;
    let line_seg = LineSegment3 {
        start: Vec3 { x: wall_left.x, y: base, z: wall_left.y },
        end: Vec3 { x: wall_right.x, y: base, z: wall_right.y },
    };
    let line_seg_top = LineSegment3 {
        start: Vec3 { x: wall_left.x, y: top, z: wall_left.y },
        end: Vec3 { x: wall_right.x, y: top, z: wall_right.y },
    };
    (line_seg, line_seg_top)
}

/// The corner order the renderer hands a wall's quad to projection in:
/// bottom edge left to right, then top edge right to left.
pub open spec fn wall_quad(seg: LineSegment) -> Seq<Vec3> {
    seq![
        Vec3 { x: seg.start.x, y: WALL_BASE_FP, z: seg.start.y },
        Vec3 { x: seg.end.x, y: WALL_BASE_FP, z: seg.end.y },
        Vec3 { x: seg.end.x, y: (WALL_BASE_FP + WALL_TOP_OFFSET_FP) as i64, z: seg.end.y },
        Vec3 { x: seg.start.x, y: (WALL_BASE_FP + WALL_TOP_OFFSET_FP) as i64, z: seg.start.y },
    ]
}

/// Fixed-point screen points narrowed to integer pixels.
pub open spec fn pixels_of(s: Seq<Vec2>) -> Seq<(i32, i32)>
    decreases s.len(),
{
    if s.len() == 0 {
        Seq::empty()
    } else {
        pixels_of(s.drop_last()) + seq![
            (
                tdiv(s.last().x as int, 2 * FP_ONE as int) as i32,
                tdiv(s.last().y as int, 2 * FP_ONE as int) as i32,
            ),
        ]
    }
}

/// The pixel polygon one wall projects to.
pub open spec fn wall_screen_pts(seg: LineSegment, m: Mat4, w: int, h: int) -> Seq<(i32, i32)> {
    pixels_of(clip_project_spec(wall_quad(seg), m, w, h))
}

/// The draw commands of the ordered walls: each wall whose projected
/// polygon keeps at least three corners contributes its pixel polygon
/// and deterministic color.
pub open spec fn wall_cmds(walls: Seq<LineSegment>, seed: u32, m: Mat4, w: int, h: int) -> Seq<
    (Seq<(i32, i32)>, Color),
>
    decreases walls.len(),
{
    if walls.len() == 0 {
        Seq::empty()
    } else {
        wall_cmds(walls.drop_last(), seed, m, w, h) + ({
            let pts = wall_screen_pts(walls.last(), m, w, h);
            if pts.len() >= 3 {
                seq![(pts, color_spec(seed, walls.last().start, walls.last().end))]
            } else {
                Seq::empty()
            }
        })
    }
}

/// The skybox draw command: a screen-wide band from the top of the
/// frame down to the projected horizon line, when the horizon point
/// projects at all.
pub open spec fn skybox_cmds(pos: Vec3, flat: Vec3, m: Mat4, w: int, h: int) -> Seq<
    (Seq<(i32, i32)>, Color),
> {
    let mid = Vec3 {
        x: (pos.x + flat.x) as i64,
        y: (pos.y + flat.y) as i64,
        z: (pos.z + flat.z) as i64,
    };
    match project_point_spec(mid, m, w, h) {
        Some(sp) => {
            let yp = tdiv(sp.y as int, 2 * FP_ONE as int) as i32;
            let wp = w as i32;
            seq![
                (
                    seq![(0i32, 0i32), (wp, 0i32), (wp, yp), (0i32, yp)],
                    Color(SKY_R, SKY_G, SKY_B),
                ),
            ]
        },
        None => Seq::empty(),
    }
}

/// Everything one frame draws, in order: the skybox band first, then
/// the walls back to front.
pub open spec fn frame_cmds(state: GameState, m: Mat4, flat: Vec3, w: int, h: int) -> Seq<
    (Seq<(i32, i32)>, Color),
> {
    let ground = Vec2 { x: state.cam.pos.x, y: state.cam.pos.z };
    skybox_cmds(state.cam.pos, flat, m, w, h) + wall_cmds(
        state.bsp.order_spec(ground),
        state.color_seed,
        m,
        w,
        h,
    )
}

/// The executable command list matches the ghost one, element for
/// element.
pub open spec fn cmds_match(v: Seq<(Vec<(i32, i32)>, Color)>, s: Seq<(Seq<(i32, i32)>, Color)>) -> bool {
    &&& v.len() == s.len()
    &&& forall|i: int|
        0 <= i < v.len() ==> (#[trigger] v[i]).0@ == s[i].0 && v[i].1 == s[i].1
}

/// Projects one wall and builds its draw command, or nothing when the
/// clipped polygon keeps fewer than three corners.
fn wall_cmd_exec(wall: LineSegment, seed: u32, vp: &Mat4, width: i64, height: i64) -> (r: Option<
    (Vec<(i32, i32)>, Color),
>)
    requires
        crate::lines::seg_in_range(wall),
        mat_in_range(*vp),
        0 <= width <= 16384,
        0 <= height <= 16384,
    ensures
        ({
            let pts = wall_screen_pts(wall, *vp, width as int, height as int);
            if pts.len() >= 3 {
                r matches Some(c) && c.0@ == pts && c.1 == color_spec(seed, wall.start, wall.end)
                    && all_pts_line_range(c.0@)
            } else {
                r is None
            }
        }),
{
    let color = random_color(seed, (wall.start, wall.end));
    let (bottom, top) = wall_floor_to_3d(&wall.start, &wall.end);
    let mut quad_pts: Vec<Vec3> = Vec::new();
    quad_pts.push(bottom.start);
    quad_pts.push(bottom.end);
    quad_pts.push(top.end);
    quad_pts.push(top.start);
    proof {
        assert(quad_pts@ =~= wall_quad(wall));
    }
    let screen = clip_and_project_polygon(&quad_pts, vp, width, height);
    if screen.len() >= 3 {
        let m = screen.len();
        let mut pix: Vec<(i32, i32)> = Vec::new();
        let mut j: usize = 0;
        #[verifier::loop_isolation(false)]
        while j < m
            invariant
                0 <= j <= m,
                pix@ == pixels_of(screen@.subrange(0, j as int)),
                all_pts_line_range(pix@),
            decreases m - j,
        {
            proof {
                assert(screen@.subrange(0, (j + 1) as int).drop_last() =~= screen@.subrange(
                    0,
                    j as int,
                ));
            }
            let p = screen_to_pixel(&screen[j]);
            pix.push(p);
            j = j + 1;
        }
        proof {
            assert(screen@.subrange(0, m as int) =~= screen@);
            lemma_pixels_len(
                clip_project_spec(wall_quad(wall), *vp, width as int, height as int),
            );
        }
        Some((pix, color))
    } else {
        proof {
            assert(wall_screen_pts(wall, *vp, width as int, height as int).len() == screen@.len())
                by {
                lemma_pixels_len(
                    clip_project_spec(wall_quad(wall), *vp, width as int, height as int),
                );
            }
        }
        None
    }
}

/// `pixels_of` keeps the point count.
proof fn lemma_pixels_len(s: Seq<Vec2>)
    ensures
        pixels_of(s).len() == s.len(),
    decreases s.len(),
{
    if s.len() > 0 {
        lemma_pixels_len(s.drop_last());
    }
}

/// Computes one frame's draw commands: the skybox band, then one
/// colored pixel polygon per visible wall, in painter's order.
#[verifier::rlimit(100)]
pub fn frame_polygons(
    game_state: &GameState,
    vp: &Mat4,
    flat_forward: Vec3,
    width: i64,
    height: i64,
) -> (r: Vec<(Vec<(i32, i32)>, Color)>)
    requires
        game_state.wf(),
        mat_in_range(*vp),
        dir_in_range(flat_forward),
        0 <= width <= 16384,
        0 <= height <= 16384,
    ensures
        cmds_match(
            r@,
            frame_cmds(*game_state, *vp, flat_forward, width as int, height as int),
        ),
        forall|i: int| 0 <= i < r@.len() ==> all_pts_line_range((#[trigger] r@[i]).0@),
{
    let ghost spec_cmds = frame_cmds(
        *game_state,
        *vp,
        flat_forward,
        width as int,
        height as int,
    );
    let mut cmds: Vec<(Vec<(i32, i32)>, Color)> = Vec::new();

    let pos = game_state.cam.pos;
    let mid = Vec3 {
        x: pos.x + flat_forward.x,
        y: pos.y + flat_forward.y,
        z: pos.z + flat_forward.z,
    };
    match project_point(&mid, vp, width, height) {
        Some(sp) => {
            let (_, yp) = screen_to_pixel(&sp);
            let wp = width as i32;
            let mut pts: Vec<(i32, i32)> = Vec::new();
            pts.push((0, 0));
            pts.push((wp, 0));
            pts.push((wp, yp));
            pts.push((0, yp));
            proof {
                assert(pts@ =~= skybox_cmds(
                    pos,
                    flat_forward,
                    *vp,
                    width as int,
                    height as int,
                )[0].0);
            }
            cmds.push((pts, Color(SKY_R, SKY_G, SKY_B)));
        },
        None => {},
    }
    proof {
        assert(cmds_match(
            cmds@,
            skybox_cmds(pos, flat_forward, *vp, width as int, height as int),
        ));
    }

    let ground = Vec2 { x: pos.x, y: pos.z };
    let walls = game_state.bsp.order(ground);
    let n = walls.len();
    let mut i: usize = 0;
    #[verifier::loop_isolation(false)]
    while i < n
        invariant
            0 <= i <= n,
            cmds_match(
                cmds@,
                skybox_cmds(pos, flat_forward, *vp, width as int, height as int) + wall_cmds(
                    walls@.subrange(0, i as int),
                    game_state.color_seed,
                    *vp,
                    width as int,
                    height as int,
                ),
            ),
            forall|j: int| 0 <= j < cmds@.len() ==> all_pts_line_range((#[trigger] cmds@[j]).0@),
        decreases n - i,
    {
        proof {
            assert(walls@.subrange(0, (i + 1) as int).drop_last() =~= walls@.subrange(
                0,
                i as int,
            ));
        }
        let wall = walls[i];
        match wall_cmd_exec(wall, game_state.color_seed, vp, width, height) {
            Some(c) => {
                cmds.push(c);
            },
            None => {},
        }
        i = i + 1;
    }
    proof {
        assert(walls@.subrange(0, n as int) =~= walls@);
    }
    cmds
}

/// What the frame's pixels look like after the command list has been
/// painted over the original contents, newest command on top.
pub open spec fn pix_after(
    cmds: Seq<(Seq<(i32, i32)>, Color)>,
    orig: (u8, u8, u8, u8),
    x: int,
    y: int,
) -> (u8, u8, u8, u8)
    decreases cmds.len(),
{
    if cmds.len() == 0 {
        orig
    } else {
        let rest = pix_after(cmds.drop_last(), orig, x, y);
        if polygon_covers(cmds.last().0, x, y) {
            rgba(cmds.last().1)
        } else {
            rest
        }
    }
}

/// Renders one frame into the pixel buffer: computes the frame's draw
/// commands and rasterizes them in order, so every pixel ends up as
/// the topmost command covering it dictates (or keeps its old value).
pub fn draw_screen(
    game_state: &GameState,
    vp: &Mat4,
    flat_forward: Vec3,
    frame: &mut PixelDrawer,
)
    requires
        game_state.wf(),
        mat_in_range(*vp),
        dir_in_range(flat_forward),
        old(frame).wf(),
    ensures
        final(frame).wf(),
        final(frame).width_spec() == old(frame).width_spec(),
        final(frame).height_spec() == old(frame).height_spec(),
        forall|x: int, y: int|
            in_frame(old(frame).width_spec(), old(frame).height_spec(), x, y) ==> final(frame).pix(x, y) == pix_after(
                frame_cmds(
                    *game_state,
                    *vp,
                    flat_forward,
                    old(frame).width_spec(),
                    old(frame).height_spec(),
                ),
                old(frame).pix(x, y),
                x,
                y,
            ),
{
    let dims = frame.dims();
    let (w32, h32) = match dims {
        Some(d) => d,
        None => {
            proof {
                assert(false);
            }
            (0, 0)
        },
    };
    let cmds = frame_polygons(game_state, vp, flat_forward, w32 as i64, h32 as i64);
    let ghost spec_cmds = frame_cmds(
        *game_state,
        *vp,
        flat_forward,
        old(frame).width_spec(),
        old(frame).height_spec(),
    );
    let n = cmds.len();
    let mut i: usize = 0;
    #[verifier::loop_isolation(false)]
    while i < n
        invariant
            0 <= i <= n,
            frame.wf(),
            frame.width_spec() == old(frame).width_spec(),
            frame.height_spec() == old(frame).height_spec(),
            forall|x: int, y: int|
                in_frame(old(frame).width_spec(), old(frame).height_spec(), x, y) ==> frame.pix(
                    x,
                    y,
                ) == pix_after(spec_cmds.subrange(0, i as int), old(frame).pix(x, y), x, y),
        decreases n - i,
    {
        proof {
            assert(spec_cmds.subrange(0, (i + 1) as int).drop_last() =~= spec_cmds.subrange(
                0,
                i as int,
            ));
            assert(cmds@[i as int].0@ == spec_cmds[i as int].0);
            assert(all_pts_line_range(cmds@[i as int].0@));
        }
        let color = cmds[i].1;
        frame.draw_polygon(&cmds[i].0, color);
        i = i + 1;
    }
    proof {
        assert(spec_cmds.subrange(0, n as int) =~= spec_cmds);
    }
}

} // verus!
