use micro_doom_rs::raster::{draw_point, in_poly, side, x_at_y, Color, PixelDrawer, Side};

fn filled(d: &PixelDrawer, x: i32, y: i32, c: Color) -> bool {
    d.pixel(x, y) == (c.0, c.1, c.2, 255)
}

#[test]
fn clear_paints_every_pixel() {
    let mut d = PixelDrawer::new(8, 6);
    d.clear(Color(7, 8, 9));
    for y in 0..6 {
        for x in 0..8 {
            assert_eq!(d.pixel(x, y), (7, 8, 9, 255));
        }
    }
}

#[test]
fn draw_point_is_bounds_checked() {
    let mut buffer = vec![0u8; 4 * 4 * 4];
    let before = buffer.clone();
    draw_point(&mut buffer, 4, 4, -1, 0, Color(1, 2, 3));
    draw_point(&mut buffer, 4, 4, 0, 4, Color(1, 2, 3));
    draw_point(&mut buffer, 4, 4, 7, 7, Color(1, 2, 3));
    assert_eq!(buffer, before);
    draw_point(&mut buffer, 4, 4, 2, 1, Color(1, 2, 3));
    let off = (1 * 4 + 2) * 4;
    assert_eq!(&buffer[off..off + 4], &[1, 2, 3, 255]);
}

#[test]
fn x_at_y_interpolates() {
    assert_eq!(x_at_y(0, 0, 10, 10, 5), 5);
    assert_eq!(x_at_y(0, 0, 10, 10, 0), 0);
    assert_eq!(x_at_y(0, 0, 10, 10, 10), 10);
    // Horizontal edge: any x is valid, the left one is answered.
    assert_eq!(x_at_y(3, 7, 9, 7, 7), 3);
    // Truncating division.
    assert_eq!(x_at_y(0, 0, 1, 3, 1), 0);
    assert_eq!(x_at_y(0, 0, 1, 3, 2), 0);
}

#[test]
fn side_classifies_by_cross_product_sign() {
    assert!(side((0, 0), (4, 0), (2, 2)) == Side::Left);
    assert!(side((0, 0), (4, 0), (2, -2)) == Side::Right);
    assert!(side((0, 0), (4, 0), (2, 0)) == Side::On);
}

#[test]
fn in_poly_accepts_interior_and_rejects_exterior() {
    let square = vec![(0, 0), (10, 0), (10, 10), (0, 10)];
    assert!(in_poly((5, 5), &square));
    assert!(in_poly((0, 0), &square));
    assert!(!in_poly((11, 5), &square));
    assert!(!in_poly((-1, -1), &square));
}

#[test]
fn draw_line_visits_both_endpoints() {
    let mut d = PixelDrawer::new(16, 16);
    d.draw_line(1, 2, 11, 7, Color(9, 9, 9));
    assert!(filled(&d, 1, 2, Color(9, 9, 9)));
    assert!(filled(&d, 11, 7, Color(9, 9, 9)));
    // A steep line as well (y-driving branch).
    let mut d2 = PixelDrawer::new(16, 16);
    d2.draw_line(3, 1, 5, 13, Color(9, 9, 9));
    assert!(filled(&d2, 3, 1, Color(9, 9, 9)));
    assert!(filled(&d2, 5, 13, Color(9, 9, 9)));
}

#[test]
fn draw_line_traces_the_expected_pixels() {
    // Hand-stepped double-delta walk for (0,0) -> (4,2):
    // dx = 8, dy = 4, fraction starts at 0.
    let c = Color(5, 5, 5);
    let mut d = PixelDrawer::new(8, 8);
    d.draw_line(0, 0, 4, 2, c);
    let expected = [(0, 0), (1, 1), (2, 1), (3, 2), (4, 2)];
    for y in 0..8 {
        for x in 0..8 {
            let hit = expected.contains(&(x, y));
            assert_eq!(filled(&d, x, y, c), hit, "pixel ({}, {})", x, y);
        }
    }
}

#[test]
fn triangle_fill_matches_the_half_plane_region() {
    // Triangle (0,0), (4,0), (0,4): exactly the pixels with
    // x + y <= 4, x >= 0, y >= 0 are filled.
    let red = Color(255, 0, 0);
    let mut d = PixelDrawer::new(10, 10);
    d.draw_polygon(&vec![(0, 0), (4, 0), (0, 4)], red);
    for y in 0..10 {
        for x in 0..10 {
            let expect = x + y <= 4;
            assert_eq!(filled(&d, x, y, red), expect, "pixel ({}, {})", x, y);
        }
    }
    assert!(filled(&d, 2, 2, red));
    assert!(!filled(&d, 3, 3, red));
}

/// Signed doubled area of the triangle corner at `p`.
fn cross(a: (i64, i64), b: (i64, i64), p: (i64, i64)) -> i64 {
    (b.0 - a.0) * (p.1 - a.1) - (b.1 - a.1) * (p.0 - a.0)
}

/// Winding-independent reference test with a two-pixel margin: `1` for
/// clearly inside, `-1` for clearly outside, `0` near an edge. The
/// truncating midpoint split can misplace a scanline bound by slightly
/// more than one pixel, so the edge band is two pixels wide here.
fn ref_triangle_side(t: [(i64, i64); 3], p: (i64, i64)) -> i32 {
    let mut clearly_in = true;
    let mut clearly_out = false;
    let orient = cross(t[0], t[1], t[2]).signum();
    for i in 0..3 {
        let a = t[i];
        let b = t[(i + 1) % 3];
        let c = cross(a, b, p) * orient;
        let len2 = (b.0 - a.0) * (b.0 - a.0) + (b.1 - a.1) * (b.1 - a.1);
        // |distance to edge| > 2 pixels <=> c*c > 4 * len2.
        if !(c > 0 && c * c > 4 * len2) {
            clearly_in = false;
        }
        if c < 0 && c * c > 4 * len2 {
            clearly_out = true;
        }
    }
    if clearly_in {
        1
    } else if clearly_out {
        -1
    } else {
        0
    }
}

#[test]
fn triangle_fill_matches_a_reference_within_one_pixel() {
    let tris = [
        [(1, 1), (17, 3), (6, 14)],
        [(2, 12), (15, 2), (18, 18)],
        [(10, 1), (1, 18), (19, 10)],
    ];
    let c = Color(1, 2, 3);
    for t in tris {
        let mut d = PixelDrawer::new(24, 24);
        d.draw_polygon(
            &vec![
                (t[0].0 as i32, t[0].1 as i32),
                (t[1].0 as i32, t[1].1 as i32),
                (t[2].0 as i32, t[2].1 as i32),
            ],
            c,
        );
        for y in 0..24i64 {
            for x in 0..24i64 {
                let s = ref_triangle_side(t, (x, y));
                let f = filled(&d, x as i32, y as i32, c);
                if s == 1 {
                    assert!(f, "inside pixel ({}, {}) not filled for {:?}", x, y, t);
                }
                if s == -1 {
                    assert!(!f, "outside pixel ({}, {}) filled for {:?}", x, y, t);
                }
            }
        }
    }
}

#[test]
fn quad_fill_covers_the_rectangle() {
    let c = Color(4, 5, 6);
    let mut d = PixelDrawer::new(16, 16);
    // Corners handed in a scrambled order; the fill sorts them by
    // angle around the centroid.
    d.draw_polygon(&vec![(2, 2), (10, 8), (10, 2), (2, 8)], c);
    for y in 0..16 {
        for x in 0..16 {
            let expect = 2 <= x && x <= 10 && 2 <= y && y <= 8;
            assert_eq!(filled(&d, x, y, c), expect, "pixel ({}, {})", x, y);
        }
    }
}

#[test]
fn polygon_fill_matches_a_winding_reference() {
    // A convex pentagon; the reference is an independent winding test:
    // a pixel is inside when every edge's cross product (in the
    // polygon's own orientation) is non-negative.
    let pent: Vec<(i32, i32)> = vec![(5, 0), (9, 3), (7, 8), (3, 8), (1, 3)];
    let c = Color(20, 30, 40);
    let mut d = PixelDrawer::new(12, 12);
    d.draw_polygon(&pent, c);
    let orient = {
        let a = (pent[0].0 as i64, pent[0].1 as i64);
        let b = (pent[1].0 as i64, pent[1].1 as i64);
        let p = (pent[2].0 as i64, pent[2].1 as i64);
        cross(a, b, p).signum()
    };
    for y in 0..12i64 {
        for x in 0..12i64 {
            let mut inside = true;
            for i in 0..pent.len() {
                let a = (pent[i].0 as i64, pent[i].1 as i64);
                let b = (pent[(i + 1) % pent.len()].0 as i64, pent[(i + 1) % pent.len()].1 as i64);
                if cross(a, b, (x, y)) * orient < 0 {
                    inside = false;
                }
            }
            assert_eq!(
                filled(&d, x as i32, y as i32, c),
                inside,
                "pixel ({}, {})",
                x,
                y
            );
        }
    }
}

#[test]
fn degenerate_polygons_are_no_ops() {
    let c = Color(1, 1, 1);
    let mut d = PixelDrawer::new(8, 8);
    d.draw_polygon(&vec![], c);
    d.draw_polygon(&vec![(3, 3)], c);
    // A triangle squashed onto one scanline is skipped too.
    d.draw_polygon(&vec![(1, 4), (3, 4), (6, 4)], c);
    for y in 0..8 {
        for x in 0..8 {
            assert_eq!(d.pixel(x, y), (0, 0, 0, 0));
        }
    }
}
