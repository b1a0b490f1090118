use micro_doom_rs::a3d_to_2d::{
    clip_and_project_polygon, clip_polygon, ndc_to_screen, project_point, screen_to_ndc,
    screen_to_pixel, transform_point, Mat4, Vertex,
};
use micro_doom_rs::draw_screen::{draw_screen, frame_polygons, random_color, wall_floor_to_3d};
use micro_doom_rs::lines::LineSegment;
use micro_doom_rs::raster::{Color, PixelDrawer};
use micro_doom_rs::vecs::{Vec2, Vec3, FP_ONE};
use micro_doom_rs::GameState;

/// The identity view-projection in fixed point: clip = (x, y, z, 1).
fn identity() -> Mat4 {
    Mat4 {
        m00: FP_ONE,
        m01: 0,
        m02: 0,
        m03: 0,
        m10: 0,
        m11: FP_ONE,
        m12: 0,
        m13: 0,
        m20: 0,
        m21: 0,
        m22: FP_ONE,
        m23: 0,
        m30: 0,
        m31: 0,
        m32: 0,
        m33: FP_ONE,
    }
}

#[test]
fn transform_by_identity_keeps_the_point() {
    let v = transform_point(&identity(), &Vec3::new(100, -200, 300));
    assert_eq!(v, Vertex { x: 100, y: -200, z: 300, w: FP_ONE });
}

#[test]
fn clipping_a_polygon_fully_inside_returns_it_unchanged() {
    let fp = FP_ONE;
    let vs = vec![
        Vertex { x: -fp / 2, y: -fp / 2, z: fp / 4, w: fp },
        Vertex { x: fp / 2, y: -fp / 2, z: fp / 4, w: fp },
        Vertex { x: 0, y: fp / 2, z: fp / 2, w: fp },
    ];
    let out = clip_polygon(&vs);
    assert_eq!(out, vs);
}

#[test]
fn clipping_a_polygon_fully_outside_one_plane_empties_it() {
    let fp = FP_ONE;
    // Every vertex violates x >= -w.
    let left = vec![
        Vertex { x: -3 * fp, y: 0, z: fp / 2, w: fp },
        Vertex { x: -2 * fp, y: fp / 2, z: fp / 2, w: fp },
        Vertex { x: -4 * fp, y: -fp / 2, z: fp / 2, w: fp },
    ];
    assert_eq!(clip_polygon(&left), vec![]);
    // Every vertex violates z >= 0.
    let behind = vec![
        Vertex { x: 0, y: 0, z: -fp, w: fp },
        Vertex { x: fp / 2, y: 0, z: -2 * fp, w: fp },
        Vertex { x: 0, y: fp / 2, z: -fp / 2, w: fp },
    ];
    assert_eq!(clip_polygon(&behind), vec![]);
    // Every vertex violates y <= w.
    let above = vec![
        Vertex { x: 0, y: 3 * fp, z: fp / 2, w: fp },
        Vertex { x: fp / 2, y: 2 * fp, z: fp / 2, w: fp },
        Vertex { x: -fp / 2, y: 4 * fp, z: fp / 2, w: fp },
    ];
    assert_eq!(clip_polygon(&above), vec![]);
}

#[test]
fn ndc_screen_round_trip_is_exact() {
    let w = 320;
    let h = 240;
    for &(nx, ny) in &[
        (0i64, 0i64),
        (FP_ONE, FP_ONE),
        (-FP_ONE, -FP_ONE),
        (FP_ONE / 2, -FP_ONE / 3),
        (-12345, 54321),
    ] {
        let s = ndc_to_screen(nx, ny, w, h);
        let (rx, ry) = screen_to_ndc(&s, w, h);
        assert_eq!((rx, ry), (nx, ny));
    }
}

#[test]
fn ndc_center_lands_mid_screen() {
    let s = ndc_to_screen(0, 0, 320, 240);
    assert_eq!(s.x, FP_ONE * 320);
    assert_eq!(s.y, FP_ONE * 240);
    assert_eq!(screen_to_pixel(&s), (160, 120));
}

#[test]
fn projecting_a_point_behind_the_camera_yields_none() {
    // With the identity matrix, clip z is the view z: negative means
    // behind the camera.
    let r = project_point(&Vec3::new(0, 0, -FP_ONE), &identity(), 320, 240);
    assert!(r.is_none());
}

#[test]
fn projecting_a_point_ahead_yields_its_screen_point() {
    let r = project_point(&Vec3::new(0, 0, FP_ONE / 2), &identity(), 320, 240);
    let s = r.unwrap();
    assert_eq!(screen_to_pixel(&s), (160, 120));
}

#[test]
fn polygon_behind_the_camera_projects_to_nothing() {
    let fp = FP_ONE;
    let world = vec![
        Vec3::new(0, 0, -fp),
        Vec3::new(fp, 0, -2 * fp),
        Vec3::new(0, fp, -3 * fp),
    ];
    let out = clip_and_project_polygon(&world, &identity(), 320, 240);
    assert!(out.is_empty());
}

#[test]
fn polygon_inside_the_frustum_projects_corner_for_corner() {
    let fp = FP_ONE;
    // All corners strictly inside every frustum half-space (w = 1).
    let world = vec![
        Vec3::new(-fp / 2, -fp / 2, fp / 2),
        Vec3::new(fp / 2, -fp / 2, fp / 2),
        Vec3::new(0, fp / 2, fp / 2),
    ];
    let out = clip_and_project_polygon(&world, &identity(), 320, 240);
    assert_eq!(out.len(), 3);
    // First corner: ndc = (-1/2, -1/2), so x = (1 + 1/2) * 320 and
    // y = (1 - 1/2) * 240 in doubled fixed-point screen units.
    assert_eq!(out[0].x, (FP_ONE + FP_ONE / 2) * 320);
    assert_eq!(out[0].y, (FP_ONE - FP_ONE / 2) * 240);
    assert_eq!(screen_to_pixel(&out[0]), (240, 60));
}

#[test]
fn wall_extrusion_uses_the_fixed_heights() {
    let (bottom, top) = wall_floor_to_3d(&Vec2::new(100, 200), &Vec2::new(300, 400));
    assert_eq!(bottom.start, Vec3::new(100, -49152, 200));
    assert_eq!(bottom.end, Vec3::new(300, -49152, 400));
    assert_eq!(top.start, Vec3::new(100, -49152 + 114688, 200));
    assert_eq!(top.end, Vec3::new(300, -49152 + 114688, 400));
}

#[test]
fn wall_color_is_a_pure_function_of_seed_and_endpoints() {
    let fp = FP_ONE;
    let a = Vec2::new(5 * fp, 0);
    let b = Vec2::new(10 * fp, 0);
    let c1 = random_color(42, (a, b));
    let c2 = random_color(42, (a, b));
    assert_eq!(c1, c2);
    // A different seed or different wall geometry changes the color.
    assert_ne!(random_color(43, (a, b)), c1);
    assert_ne!(random_color(42, (Vec2::new(6 * fp, 0), b)), c1);
}

#[test]
fn wall_color_matches_the_congruential_mix() {
    let fp = FP_ONE;
    let a = Vec2::new(5 * fp, 2 * fp);
    let b = Vec2::new(10 * fp, 3 * fp);
    let mut rng: u32 = 42u32
        .wrapping_add(5u32.wrapping_mul(100))
        .wrapping_add(2u32.wrapping_mul(1000))
        .wrapping_add(10u32.wrapping_mul(5000))
        .wrapping_add(3u32.wrapping_mul(10000));
    let r = ((rng & 0xFF0000) >> 16) as u8;
    rng = rng.wrapping_mul(1103515245).wrapping_add(12345);
    let g = ((rng & 0x00FF00) >> 8) as u8;
    rng = rng.wrapping_mul(1103515245).wrapping_add(12345);
    let b_ = (rng & 0x0000FF) as u8;
    assert_eq!(random_color(42, (a, b)), Color(r, g, b_));
}

#[test]
fn a_frame_draws_the_skybox_band_first() {
    let fp = FP_ONE;
    let plan = vec![LineSegment::new(
        Vec2::new(-10 * fp, 5 * fp),
        Vec2::new(10 * fp, 5 * fp),
    )];
    let state = GameState::new(plan, Vec2::new(0, 0), 1);
    let cmds = frame_polygons(&state, &identity(), Vec3::new(0, 0, fp), 64, 48);
    assert!(!cmds.is_empty());
    // The first command is the blue skybox band across the top.
    assert_eq!(cmds[0].1, Color(0, 0, 255));
    assert_eq!(cmds[0].0[0], (0, 0));
    assert_eq!(cmds[0].0[1], (64, 0));
}

#[test]
fn a_frame_renders_into_the_pixel_buffer() {
    let fp = FP_ONE;
    let plan = vec![LineSegment::new(
        Vec2::new(-10 * fp, 5 * fp),
        Vec2::new(10 * fp, 5 * fp),
    )];
    let state = GameState::new(plan, Vec2::new(0, 0), 1);
    let mut frame = PixelDrawer::new(64, 48);
    draw_screen(&state, &identity(), Vec3::new(0, 0, fp), &mut frame);
    // The horizon for a level camera with the identity matrix sits at
    // the middle of the screen; the top-left pixel is sky.
    assert_eq!(frame.pixel(0, 0), (0, 0, 255, 255));
}
