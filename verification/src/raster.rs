//! Software rasterizer over an owned RGBA pixel buffer.
//!
//! Every pixel write is bounds-checked and silently dropped outside the
//! buffer, since projected geometry routinely extends past the
//! viewport. Coordinates are plain integer pixels.

use vstd::prelude::*;

verus! {

use crate::vecs::{
    mag, tdiv, wide_mul, tdiv128, lemma_mul_mag, lemma_tdiv_interp, lemma_tdiv_avg, COORD_LIMIT,
};
use crate::lines::{imin, imax};

/// Largest width or height of a pixel buffer.
pub const MAX_DIM: i32 = 16384;

/// An opaque RGB color; the buffer always stores alpha 255 with it.
#[derive(Clone, Copy, Debug, PartialEq, Eq, Structural)]
pub struct Color(pub u8, pub u8, pub u8);

/// The four bytes a color occupies in the buffer.
pub open spec fn rgba(c: Color) -> (u8, u8, u8, u8) {
    (c.0, c.1, c.2, 255u8)
}

pub open spec fn buf_wf(data: Seq<u8>, width: int, height: int) -> bool {
    &&& 0 <= width <= MAX_DIM
    &&& 0 <= height <= MAX_DIM
    &&& data.len() == 4 * (width * height)
}

pub open spec fn in_frame(width: int, height: int, x: int, y: int) -> bool {
    0 <= x < width && 0 <= y < height
}

/// The four bytes of the pixel at `(x, y)` in a row-major RGBA buffer.
pub open spec fn pix_of(data: Seq<u8>, width: int, x: int, y: int) -> (u8, u8, u8, u8) {
    let off = 4 * (y * width + x);
    (data[off], data[off + 1], data[off + 2], data[off + 3])
}

/// A pixel's offset lies within the buffer.
proof fn lemma_rowmajor_bound(w: int, h: int, x: int, y: int)
    requires
        0 <= x < w,
        0 <= y < h,
        w <= MAX_DIM,
        h <= MAX_DIM,
    ensures
        0 <= y * w + x,
        y * w + x < w * h,
        w * h <= 0x1000_0000,
{
    assert(0 <= y * w + x && y * w + x < w * h && w * h <= 0x1000_0000) by (nonlinear_arith)
        requires
            0 <= x < w,
            0 <= y < h,
            w <= 16384,
            h <= 16384,
    ;
}

/// Distinct in-frame pixels have distinct offsets.
proof fn lemma_rowmajor_inj(w: int, x1: int, y1: int, x2: int, y2: int)
    requires
        0 <= x1 < w,
        0 <= x2 < w,
        y1 * w + x1 == y2 * w + x2,
    ensures
        x1 == x2 && y1 == y2,
{
    assert(x1 == x2 && y1 == y2) by (nonlinear_arith)
        requires
            0 <= x1 < w,
            0 <= x2 < w,
            y1 * w + x1 == y2 * w + x2,
    ;
}

/// Writes one pixel, dropping the write silently when `(x, y)` is
/// outside the buffer.
pub fn draw_point(buffer: &mut Vec<u8>, width: i32, height: i32, x: i32, y: i32, color: Color)
    requires
        buf_wf(old(buffer)@, width as int, height as int),
    ensures
        buf_wf(final(buffer)@, width as int, height as int),
        in_frame(width as int, height as int, x as int, y as int) ==> pix_of(
            final(buffer)@,
            width as int,
            x as int,
            y as int,
        ) == rgba(color),
        forall|xx: int, yy: int|
            in_frame(width as int, height as int, xx, yy) && !(xx == x as int && yy == y as int)
                ==> pix_of(final(buffer)@, width as int, xx, yy) == pix_of(
                old(buffer)@,
                width as int,
                xx,
                yy,
            ),
        !in_frame(width as int, height as int, x as int, y as int) ==> final(buffer)@ == old(buffer)@,
{
    if x < 0 || y < 0 || x >= width || y >= height {
        return ;
    }
    proof {
        lemma_rowmajor_bound(width as int, height as int, x as int, y as int);
    }
    let offset = (((y as usize) * (width as usize)) + (x as usize)) * 4;
    buffer[offset] = color.0;
    buffer[offset + 1] = color.1;
    buffer[offset + 2] = color.2;
    buffer[offset + 3] = 255;
    proof {
        assert forall|xx: int, yy: int|
            in_frame(width as int, height as int, xx, yy) && !(xx == x as int && yy
                == y as int) implies pix_of(buffer@, width as int, xx, yy) == pix_of(
            old(buffer)@,
            width as int,
            xx,
            yy,
        ) by {
            lemma_rowmajor_bound(width as int, height as int, xx, yy);
            if yy * (width as int) + xx == (y as int) * (width as int) + (x as int) {
                lemma_rowmajor_inj(width as int, xx, yy, x as int, y as int);
            }
        }
    }
}

/// The x of the line through `(x1, y1)` and `(x2, y2)` at height `y`,
/// by truncating integer interpolation; a horizontal line answers `x1`.
pub open spec fn x_at_y_spec(x1: int, y1: int, x2: int, y2: int, y: int) -> int {
    if y2 == y1 {
        x1
    } else {
        x1 + tdiv((x2 - x1) * (y - y1), y2 - y1)
    }
}

/// Integer interpolation `x = x1 + dx * (y - y1) / (y2 - y1)` along a
/// non-horizontal edge; the answer always stays between `x1` and `x2`.
pub fn x_at_y(x1: i32, y1: i32, x2: i32, y2: i32, y: i32) -> (r: i32)
    requires
        -COORD_LIMIT <= x1 <= COORD_LIMIT,
        -COORD_LIMIT <= y1 <= COORD_LIMIT,
        -COORD_LIMIT <= x2 <= COORD_LIMIT,
        -COORD_LIMIT <= y2 <= COORD_LIMIT,
        imin(y1 as int, y2 as int) <= y <= imax(y1 as int, y2 as int),
    ensures
        r == x_at_y_spec(x1 as int, y1 as int, x2 as int, y2 as int, y as int),
        imin(x1 as int, x2 as int) <= r <= imax(x1 as int, x2 as int),
{
    if y2 == y1 {
        return x1;
    }
    let dx = (x2 as i64) - (x1 as i64);
    let dy = (y as i64) - (y1 as i64);
    let total = (y2 as i64) - (y1 as i64);
    proof {
        lemma_mul_mag(dx as int, dy as int, 0x8000_0000, 0x8000_0000);
    }
    let q = tdiv128(wide_mul(dx, dy), total as i128);
    proof {
        if total > 0 {
            lemma_tdiv_interp(dx as int, dy as int, total as int);
        } else {
            assert(-((dx as int) * (dy as int)) == (dx as int) * (-(dy as int)))
                by (nonlinear_arith);
            lemma_tdiv_interp(dx as int, -(dy as int), -(total as int));
        }
    }
    ((x1 as i64) + (q as i64)) as i32
}

/// The points the x-driving Bresenham loop still emits from the given
/// state: `x` steps toward `x2` every iteration, `y` follows when the
/// accumulated fraction spills over.
pub open spec fn bres_x_rest(
    x: int,
    y: int,
    f: int,
    x2: int,
    sx: int,
    sy: int,
    dx: int,
    dy: int,
) -> Seq<(int, int)>
    decreases mag(x2 - x),
{
    if x == x2 {
        Seq::empty()
    } else if (sx == 1 && x < x2) || (sx == -1 && x > x2) {
        let xn = x + sx;
        let yn = if f >= 0 {
            y + sy
        } else {
            y
        };
        let fn_ = if f >= 0 {
            f - dx + dy
        } else {
            f + dy
        };
        seq![(xn, yn)] + bres_x_rest(xn, yn, fn_, x2, sx, sy, dx, dy)
    } else {
        Seq::empty()
    }
}

/// The points the y-driving Bresenham loop still emits, symmetrically.
pub open spec fn bres_y_rest(
    x: int,
    y: int,
    f: int,
    y2: int,
    sx: int,
    sy: int,
    dx: int,
    dy: int,
) -> Seq<(int, int)>
    decreases mag(y2 - y),
{
    if y == y2 {
        Seq::empty()
    } else if (sy == 1 && y < y2) || (sy == -1 && y > y2) {
        let yn = y + sy;
        let xn = if f >= 0 {
            x + sx
        } else {
            x
        };
        let fn_ = if f >= 0 {
            f - dy + dx
        } else {
            f + dx
        };
        seq![(xn, yn)] + bres_y_rest(xn, yn, fn_, y2, sx, sy, dx, dy)
    } else {
        Seq::empty()
    }
}

/// Every point of the Bresenham line from `(x1, y1)` to `(x2, y2)`:
/// the start point, then the driving-axis loop's emissions, with the
/// deltas pre-doubled to stay in integers.
pub open spec fn line_points(x1: int, y1: int, x2: int, y2: int) -> Seq<(int, int)> {
    let dx = 2 * mag(x2 - x1);
    let dy = 2 * mag(y2 - y1);
    let sx: int = if x1 < x2 {
        1
    } else {
        -1
    };
    let sy: int = if y1 < y2 {
        1
    } else {
        -1
    };
    seq![(x1, y1)] + (if dx > dy {
        bres_x_rest(x1, y1, dy - dx / 2, x2, sx, sy, dx, dy)
    } else {
        bres_y_rest(x1, y1, dx - dy / 2, y2, sx, sy, dx, dy)
    })
}

/// Largest coordinate magnitude `draw_line` accepts; tighter than
/// [`COORD_LIMIT`] so the stepped coordinate can overshoot its target
/// band and still fit an `i32`.
pub const LINE_LIMIT: i32 = 0x2000_0000;

/// Which side of the directed edge `a -> b` the point `p` falls on.
#[derive(Clone, Copy, Debug, PartialEq, Eq, Structural)]
pub enum Side {
    Left,
    Right,
    On,
}

pub open spec fn pt_in_range(p: (i32, i32)) -> bool {
    -COORD_LIMIT <= p.0 <= COORD_LIMIT && -COORD_LIMIT <= p.1 <= COORD_LIMIT
}

pub open spec fn side_sign(a: (i32, i32), b: (i32, i32), p: (i32, i32)) -> int {
    (b.0 - a.0) * (p.1 - a.1) - (b.1 - a.1) * (p.0 - a.0)
}

pub open spec fn side_spec(a: (i32, i32), b: (i32, i32), p: (i32, i32)) -> Side {
    if side_sign(a, b, p) > 0 {
        Side::Left
    } else if side_sign(a, b, p) < 0 {
        Side::Right
    } else {
        Side::On
    }
}

/// Classifies `p` against the directed edge `a -> b` by the exact sign
/// of the cross product.
pub fn side(a: (i32, i32), b: (i32, i32), p: (i32, i32)) -> (r: Side)
    requires
        pt_in_range(a),
        pt_in_range(b),
        pt_in_range(p),
    ensures
        r == side_spec(a, b, p),
{
    let t1 = wide_mul((b.0 as i64) - (a.0 as i64), (p.1 as i64) - (a.1 as i64));
    let t2 = wide_mul((b.1 as i64) - (a.1 as i64), (p.0 as i64) - (a.0 as i64));
    if t1 > t2 {
        Side::Left
    } else if t1 < t2 {
        Side::Right
    } else {
        Side::On
    }
}

pub open spec fn sum_x(pts: Seq<(i32, i32)>) -> int
    decreases pts.len(),
{
    if pts.len() == 0 {
        0
    } else {
        sum_x(pts.drop_last()) + pts.last().0
    }
}

pub open spec fn sum_y(pts: Seq<(i32, i32)>) -> int
    decreases pts.len(),
{
    if pts.len() == 0 {
        0
    } else {
        sum_y(pts.drop_last()) + pts.last().1
    }
}

pub open spec fn all_pts_in_range(pts: Seq<(i32, i32)>) -> bool {
    forall|k: int| 0 <= k < pts.len() ==> pt_in_range(#[trigger] pts[k])
}

/// The centroid of the points, each coordinate the truncated average.
pub open spec fn center_spec(pts: Seq<(i32, i32)>) -> (int, int) {
    (tdiv(sum_x(pts), pts.len() as int), tdiv(sum_y(pts), pts.len() as int))
}

fn center(points: &Vec<(i32, i32)>) -> (c: (i32, i32))
    requires
        points@.len() >= 1,
        all_pts_in_range(points@),
    ensures
        (c.0 as int, c.1 as int) == center_spec(points@),
        pt_in_range(c),
{
    let mut sx: i128 = 0;
    let mut sy: i128 = 0;
    let mut i: usize = 0;
    #[verifier::loop_isolation(false)]
    while i < points.len()
        invariant
            0 <= i <= points@.len(),
            sx == sum_x(points@.subrange(0, i as int)),
            sy == sum_y(points@.subrange(0, i as int)),
            -(i * COORD_LIMIT) <= sx <= i * COORD_LIMIT,
            -(i * COORD_LIMIT) <= sy <= i * COORD_LIMIT,
        decreases points@.len() - i,
    {
        let p = points[i];
        proof {
            assert(points@.subrange(0, (i + 1) as int).drop_last() =~= points@.subrange(
                0,
                i as int,
            ));
            assert((i as int) * COORD_LIMIT + COORD_LIMIT == ((i + 1) as int) * COORD_LIMIT)
                by (nonlinear_arith);
        }
        sx = sx + (p.0 as i128);
        sy = sy + (p.1 as i128);
        i = i + 1;
    }
    proof {
        assert(points@.subrange(0, points@.len() as int) =~= points@);
        lemma_tdiv_avg(sx as int, points@.len() as int, COORD_LIMIT as int);
        lemma_tdiv_avg(sy as int, points@.len() as int, COORD_LIMIT as int);
        assert((points@.len() as i128) as int == points@.len() as int);
    }
    let n = points.len() as i128;
    let cx = tdiv128(sx, n);
    let cy = tdiv128(sy, n);
    (cx as i32, cy as i32)
}

/// The `i`-th directed edge of the polygon: consecutive points, with
/// one closing edge from the last point back to the first.
pub open spec fn edge_of(pts: Seq<(i32, i32)>, i: int) -> ((i32, i32), (i32, i32)) {
    if i < pts.len() - 1 {
        (pts[i], pts[i + 1])
    } else {
        (pts[pts.len() - 1], pts[0])
    }
}

/// Point-in-polygon by consistent winding: the point must fall on the
/// same side as the polygon's own centroid (or exactly on the edge) for
/// every edge, which tolerates either winding direction.
pub open spec fn in_poly_spec(point: (i32, i32), pts: Seq<(i32, i32)>) -> bool {
    forall|i: int|
        0 <= i < pts.len() ==> {
            let e = #[trigger] edge_of(pts, i);
            let c = center_spec(pts);
            side_spec(e.0, e.1, point) == side_spec(e.0, e.1, (c.0 as i32, c.1 as i32))
                || side_spec(e.0, e.1, point) == Side::On
        }
}

/// Tests whether a point lies inside the polygon, by the
/// consistent-winding rule described at [`in_poly_spec`].
pub fn in_poly(point: (i32, i32), points: &Vec<(i32, i32)>) -> (r: bool)
    requires
        points@.len() >= 1,
        all_pts_in_range(points@),
        pt_in_range(point),
    ensures
        r == in_poly_spec(point, points@),
{
    let c = center(points);
    let n = points.len();
    let mut i: usize = 0;
    #[verifier::loop_isolation(false)]
    while i < n
        invariant
            0 <= i <= n,
            forall|j: int|
                0 <= j < i ==> {
                    let e = #[trigger] edge_of(points@, j);
                    side_spec(e.0, e.1, point) == side_spec(e.0, e.1, c) || side_spec(
                        e.0,
                        e.1,
                        point,
                    ) == Side::On
                },
        decreases n - i,
    {
        let e0 = points[i];
        let e1 = if i + 1 < n {
            points[i + 1]
        } else {
            points[0]
        };
        let reg_side = side(e0, e1, c);
        let s = side(e0, e1, point);
        proof {
            assert(edge_of(points@, i as int) == (e0, e1));
        }
        if s != reg_side && s != Side::On {
            return false;
        }
        i = i + 1;
    }
    true
}

/// Minimum of the points' x coordinates.
pub open spec fn min_x(pts: Seq<(i32, i32)>) -> int
    decreases pts.len(),
{
    if pts.len() <= 1 {
        pts[0].0 as int
    } else {
        imin(min_x(pts.drop_last()), pts.last().0 as int)
    }
}

pub open spec fn max_x(pts: Seq<(i32, i32)>) -> int
    decreases pts.len(),
{
    if pts.len() <= 1 {
        pts[0].0 as int
    } else {
        imax(max_x(pts.drop_last()), pts.last().0 as int)
    }
}

pub open spec fn min_y(pts: Seq<(i32, i32)>) -> int
    decreases pts.len(),
{
    if pts.len() <= 1 {
        pts[0].1 as int
    } else {
        imin(min_y(pts.drop_last()), pts.last().1 as int)
    }
}

pub open spec fn max_y(pts: Seq<(i32, i32)>) -> int
    decreases pts.len(),
{
    if pts.len() <= 1 {
        pts[0].1 as int
    } else {
        imax(max_y(pts.drop_last()), pts.last().1 as int)
    }
}

/// The pixels the general polygon fill paints: every integer point of
/// the bounding box that passes the consistent-winding test.
pub open spec fn poly_covers(pts: Seq<(i32, i32)>, x: int, y: int) -> bool {
    &&& min_x(pts) <= x <= max_x(pts)
    &&& min_y(pts) <= y <= max_y(pts)
    &&& in_poly_spec((x as i32, y as i32), pts)
}

/// The pixels a flat-bottom fill paints: scanlines from the apex row
/// down to the flat edge, each between the two interpolated edge
/// bounds, inclusive.
pub open spec fn wide_bottom_covers(
    p1: (i32, i32),
    p23y: i32,
    p2x: i32,
    p3x: i32,
    x: int,
    y: int,
) -> bool {
    p1.1 <= y <= p23y && {
        let xa = x_at_y_spec(p1.0 as int, p1.1 as int, p2x as int, p23y as int, y);
        let xb = x_at_y_spec(p1.0 as int, p1.1 as int, p3x as int, p23y as int, y);
        imin(xa, xb) <= x <= imax(xa, xb)
    }
}

/// The pixels a flat-top fill paints, symmetrically.
pub open spec fn wide_top_covers(
    p12y: i32,
    p1x: i32,
    p2x: i32,
    p3: (i32, i32),
    x: int,
    y: int,
) -> bool {
    p12y <= y <= p3.1 && {
        let xa = x_at_y_spec(p1x as int, p12y as int, p3.0 as int, p3.1 as int, y);
        let xb = x_at_y_spec(p2x as int, p12y as int, p3.0 as int, p3.1 as int, y);
        imin(xa, xb) <= x <= imax(xa, xb)
    }
}

/// The three corners sorted by ascending y, keeping the given order
/// for equal rows (a stable sort).
pub open spec fn tri_sorted(p1: (i32, i32), p2: (i32, i32), p3: (i32, i32)) -> (
    (i32, i32),
    (i32, i32),
    (i32, i32),
) {
    let (q1, q2) = if p2.1 < p1.1 {
        (p2, p1)
    } else {
        (p1, p2)
    };
    if p3.1 < q1.1 {
        (p3, q1, q2)
    } else if p3.1 < q2.1 {
        (q1, p3, q2)
    } else {
        (q1, q2, p3)
    }
}

/// The pixels the triangle fill paints: a flat triangle is one
/// half-fill; the general case splits at the middle corner's scanline,
/// interpolating the split x along the long edge.
pub open spec fn triangle_covers(
    p1: (i32, i32),
    p2: (i32, i32),
    p3: (i32, i32),
    x: int,
    y: int,
) -> bool {
    let (s1, s2, s3) = tri_sorted(p1, p2, p3);
    if s2.1 == s3.1 {
        wide_bottom_covers(s1, s2.1, s2.0, s3.0, x, y)
    } else if s1.1 == s2.1 {
        wide_top_covers(s1.1, s1.0, s2.0, s3, x, y)
    } else {
        let m = x_at_y_spec(s1.0 as int, s1.1 as int, s3.0 as int, s3.1 as int, s2.1 as int);
        wide_bottom_covers(s1, s2.1, m as i32, s2.0, x, y) || wide_top_covers(
            s2.1,
            m as i32,
            s2.0,
            s3,
            x,
            y,
        )
    }
}

/// A triangle's contribution to a composite fill: nothing when its
/// three corners share one scanline (such a sliver is skipped), the
/// full triangle fill otherwise.
pub open spec fn tri_covers_safe(
    a: (i32, i32),
    b: (i32, i32),
    c: (i32, i32),
    x: int,
    y: int,
) -> bool {
    !(a.1 == b.1 && b.1 == c.1) && triangle_covers(a, b, c, x, y)
}

/// Four times the quad's centroid (kept as the exact sum, so no
/// precision is lost to division).
pub open spec fn quad_c4(p1: (i32, i32), p2: (i32, i32), p3: (i32, i32), p4: (i32, i32)) -> (
    int,
    int,
) {
    (p1.0 + p2.0 + p3.0 + p4.0, p1.1 + p2.1 + p3.1 + p4.1)
}

/// A point's position relative to the centroid, scaled by four to stay
/// integral.
pub open spec fn quad_rel(c4: (int, int), p: (i32, i32)) -> (int, int) {
    (4 * p.0 - c4.0, 4 * p.1 - c4.1)
}

/// Which band of the angle range `(-pi, pi]` the point's direction from
/// the centroid falls in: below the axis, on the positive axis, above
/// the axis, or on the negative axis — the ascending order of the
/// angle's value.
pub open spec fn quad_class(c4: (int, int), p: (i32, i32)) -> int {
    let r = quad_rel(c4, p);
    if r.1 < 0 {
        0
    } else if r.1 == 0 && r.0 >= 0 {
        1
    } else if r.1 > 0 {
        2
    } else {
        3
    }
}

/// Strict "smaller angle around the centroid" order: compare bands
/// first, and within a band the cross product decides.
pub open spec fn angle_lt(c4: (int, int), p: (i32, i32), q: (i32, i32)) -> bool {
    quad_class(c4, p) < quad_class(c4, q) || (quad_class(c4, p) == quad_class(c4, q) && {
        let rp = quad_rel(c4, p);
        let rq = quad_rel(c4, q);
        rp.0 * rq.1 - rp.1 * rq.0 > 0
    })
}

/// The four corners sorted by ascending angle around the centroid,
/// keeping the given order for equal angles (a stable insertion sort).
pub open spec fn quad_sorted(
    c4: (int, int),
    p1: (i32, i32),
    p2: (i32, i32),
    p3: (i32, i32),
    p4: (i32, i32),
) -> ((i32, i32), (i32, i32), (i32, i32), (i32, i32)) {
    let (a, b) = if angle_lt(c4, p2, p1) {
        (p2, p1)
    } else {
        (p1, p2)
    };
    let (t1, t2, t3) = if angle_lt(c4, p3, a) {
        (p3, a, b)
    } else if angle_lt(c4, p3, b) {
        (a, p3, b)
    } else {
        (a, b, p3)
    };
    if angle_lt(c4, p4, t1) {
        (p4, t1, t2, t3)
    } else if angle_lt(c4, p4, t2) {
        (t1, p4, t2, t3)
    } else if angle_lt(c4, p4, t3) {
        (t1, t2, p4, t3)
    } else {
        (t1, t2, t3, p4)
    }
}

/// The pixels the quad fill paints: the corners sorted by angle around
/// the centroid and decomposed into two triangles sharing the first
/// sorted corner.
pub open spec fn quad_covers(
    p1: (i32, i32),
    p2: (i32, i32),
    p3: (i32, i32),
    p4: (i32, i32),
    x: int,
    y: int,
) -> bool {
    let c4 = quad_c4(p1, p2, p3, p4);
    let s = quad_sorted(c4, p1, p2, p3, p4);
    tri_covers_safe(s.0, s.1, s.2, x, y) || tri_covers_safe(s.0, s.2, s.3, x, y)
}

/// Decides [`angle_lt`] for two corners; `c4x`/`c4y` are four times
/// the centroid.
fn angle_less(c4x: i64, c4y: i64, p: (i32, i32), q: (i32, i32)) -> (r: bool)
    requires
        -0x1_0000_0000 <= c4x <= 0x1_0000_0000,
        -0x1_0000_0000 <= c4y <= 0x1_0000_0000,
        pt_in_range(p),
        pt_in_range(q),
    ensures
        r == angle_lt((c4x as int, c4y as int), p, q),
{
    let px = 4 * (p.0 as i64) - c4x;
    let py = 4 * (p.1 as i64) - c4y;
    let qx = 4 * (q.0 as i64) - c4x;
    let qy = 4 * (q.1 as i64) - c4y;
    let class_p: u8 = if py < 0 {
        0
    } else if py == 0 && px >= 0 {
        1
    } else if py > 0 {
        2
    } else {
        3
    };
    let class_q: u8 = if qy < 0 {
        0
    } else if qy == 0 && qx >= 0 {
        1
    } else if qy > 0 {
        2
    } else {
        3
    };
    if class_p < class_q {
        true
    } else if class_p == class_q {
        wide_mul(px, qy) > wide_mul(py, qx)
    } else {
        false
    }
}

/// The pixels the dispatching polygon fill paints, by corner count:
/// two corners draw a line, three a triangle, four the angle-sorted
/// quad, five or more the general winding fill; fewer than two paint
/// nothing.
pub open spec fn polygon_covers(pts: Seq<(i32, i32)>, x: int, y: int) -> bool {
    if pts.len() == 2 {
        line_points(pts[0].0 as int, pts[0].1 as int, pts[1].0 as int, pts[1].1 as int).contains(
            (x, y),
        )
    } else if pts.len() == 3 {
        tri_covers_safe(pts[0], pts[1], pts[2], x, y)
    } else if pts.len() == 4 {
        quad_covers(pts[0], pts[1], pts[2], pts[3], x, y)
    } else if pts.len() >= 5 {
        poly_covers(pts, x, y)
    } else {
        false
    }
}

pub open spec fn all_pts_line_range(pts: Seq<(i32, i32)>) -> bool {
    forall|k: int|
        0 <= k < pts.len() ==> -LINE_LIMIT <= (#[trigger] pts[k]).0 <= LINE_LIMIT && -LINE_LIMIT
            <= pts[k].1 <= LINE_LIMIT
}

/// A software frame: an owned row-major RGBA byte buffer with its
/// dimensions.
pub struct PixelDrawer {
    data: Vec<u8>,
    width: i32,
    height: i32,
}

impl PixelDrawer {
    pub closed spec fn wf(self) -> bool {
        buf_wf(self.data@, self.width as int, self.height as int)
    }

    pub closed spec fn width_spec(self) -> int {
        self.width as int
    }

    pub closed spec fn height_spec(self) -> int {
        self.height as int
    }

    /// The four stored bytes of the pixel at `(x, y)`.
    pub closed spec fn pix(self, x: int, y: int) -> (u8, u8, u8, u8) {
        pix_of(self.data@, self.width as int, x, y)
    }

    pub closed spec fn buf(self) -> Seq<u8> {
        self.data@
    }

    /// An all-zero frame of the given dimensions.
    pub fn new(width: i32, height: i32) -> (d: PixelDrawer)
        requires
            0 <= width <= MAX_DIM,
            0 <= height <= MAX_DIM,
        ensures
            d.wf(),
            d.width_spec() == width,
            d.height_spec() == height,
            forall|x: int, y: int|
                in_frame(width as int, height as int, x, y) ==> d.pix(x, y) == (
                    0u8,
                    0u8,
                    0u8,
                    0u8,
                ),
    {
        proof {
            assert((width as int) * (height as int) <= 0x1000_0000) by (nonlinear_arith)
                requires
                    0 <= width <= 16384,
                    0 <= height <= 16384,
            ;
        }
        let n: usize = 4 * ((width as usize) * (height as usize));
        let mut data: Vec<u8> = Vec::new();
        #[verifier::loop_isolation(false)]
        while data.len() < n
            invariant
                data@.len() <= n,
                forall|i: int| 0 <= i < data@.len() ==> data@[i] == 0u8,
            decreases n - data@.len(),
        {
            data.push(0);
        }
        let d = PixelDrawer { data, width, height };
        proof {
            assert forall|x: int, y: int|
                in_frame(width as int, height as int, x, y) implies d.pix(x, y) == (
                0u8,
                0u8,
                0u8,
                0u8,
            ) by {
                lemma_rowmajor_bound(width as int, height as int, x, y);
            }
        }
        d
    }

    /// The frame's width and height.
    pub fn dims(&self) -> (r: Option<(i32, i32)>)
        ensures
            r matches Some(wh) && wh.0 as int == self.width_spec() && wh.1 as int
                == self.height_spec(),
            self.wf() ==> 0 <= self.width_spec() <= 16384 && 0 <= self.height_spec() <= 16384,
    {
        Some((self.width, self.height))
    }

    /// Reads one pixel back.
    pub fn pixel(&self, x: i32, y: i32) -> (r: (u8, u8, u8, u8))
        requires
            self.wf(),
            in_frame(self.width_spec(), self.height_spec(), x as int, y as int),
        ensures
            r == self.pix(x as int, y as int),
    {
        proof {
            lemma_rowmajor_bound(self.width as int, self.height as int, x as int, y as int);
        }
        let offset = (((y as usize) * (self.width as usize)) + (x as usize)) * 4;
        (self.data[offset], self.data[offset + 1], self.data[offset + 2], self.data[offset + 3])
    }

    /// The raw RGBA bytes, row-major.
    pub fn buffer(&self) -> (r: &Vec<u8>)
        ensures
            r@ == self.buf(),
    {
        &self.data
    }

    /// Writes one pixel, dropping it when out of bounds.
    pub fn draw_point(&mut self, x: i32, y: i32, color: Color)
        requires
            old(self).wf(),
        ensures
            final(self).wf(),
            final(self).width_spec() == old(self).width_spec(),
            final(self).height_spec() == old(self).height_spec(),
            in_frame(old(self).width_spec(), old(self).height_spec(), x as int, y as int)
                ==> final(self).pix(x as int, y as int) == rgba(color),
            forall|xx: int, yy: int|
                in_frame(old(self).width_spec(), old(self).height_spec(), xx, yy) && !(xx
                    == x as int && yy == y as int) ==> final(self).pix(xx, yy) == old(self).pix(
                    xx,
                    yy,
                ),
    {
        let w = self.width;
        let h = self.height;
        draw_point(&mut self.data, w, h, x, y, color);
    }

    /// Integer Bresenham line in the double-delta variant: both deltas
    /// are pre-doubled to keep the error term in integers, and the
    /// driving axis is the one with the larger delta.
    #[verifier::rlimit(100)]
    pub fn draw_line(&mut self, x1: i32, y1: i32, x2: i32, y2: i32, color: Color)
        requires
            old(self).wf(),
            -LINE_LIMIT <= x1 <= LINE_LIMIT,
            -LINE_LIMIT <= y1 <= LINE_LIMIT,
            -LINE_LIMIT <= x2 <= LINE_LIMIT,
            -LINE_LIMIT <= y2 <= LINE_LIMIT,
        ensures
            final(self).wf(),
            final(self).width_spec() == old(self).width_spec(),
            final(self).height_spec() == old(self).height_spec(),
            forall|xx: int, yy: int|
                in_frame(old(self).width_spec(), old(self).height_spec(), xx, yy) ==> final(self).pix(xx, yy) == (if line_points(
                    x1 as int,
                    y1 as int,
                    x2 as int,
                    y2 as int,
                ).contains((xx, yy)) {
                    rgba(color)
                } else {
                    old(self).pix(xx, yy)
                }),
    {
        broadcast use vstd::seq_lib::lemma_seq_contains_after_push;

        let w = self.width;
        let h = self.height;
        let dxa: i64 = if x2 >= x1 {
            (x2 as i64) - (x1 as i64)
        } else {
            (x1 as i64) - (x2 as i64)
        };
        let dya: i64 = if y2 >= y1 {
            (y2 as i64) - (y1 as i64)
        } else {
            (y1 as i64) - (y2 as i64)
        };
        let dx = 2 * dxa;
        let dy = 2 * dya;
        let stepx: i64 = if x1 < x2 {
            1
        } else {
            -1
        };
        let stepy: i64 = if y1 < y2 {
            1
        } else {
            -1
        };

        draw_point(&mut self.data, w, h, x1, y1, color);
        let ghost full = line_points(x1 as int, y1 as int, x2 as int, y2 as int);
        let ghost mut done: Seq<(int, int)> = seq![(x1 as int, y1 as int)];
        proof {
            assert(full == done + (if dx > dy {
                bres_x_rest(
                    x1 as int,
                    y1 as int,
                    (dy - dx / 2) as int,
                    x2 as int,
                    stepx as int,
                    stepy as int,
                    dx as int,
                    dy as int,
                )
            } else {
                bres_y_rest(
                    x1 as int,
                    y1 as int,
                    (dx - dy / 2) as int,
                    y2 as int,
                    stepx as int,
                    stepy as int,
                    dx as int,
                    dy as int,
                )
            }));
        }

        if dx > dy {
            let mut fraction: i64 = dy - dx / 2;
            let mut x: i64 = x1 as i64;
            let mut y: i64 = y1 as i64;
            #[verifier::loop_isolation(false)]
            while x != (x2 as i64)
                invariant
                    self.wf(),
                    self.width == w,
                    self.height == h,
                    (stepx == 1 && x1 as int <= x <= x2 as int) || (stepx == -1 && x2 as int <= x
                        <= x1 as int),
                    mag(y - (y1 as int)) <= mag(x - (x1 as int)),
                    -dx <= fraction <= dy,
                    full == done + bres_x_rest(
                        x as int,
                        y as int,
                        fraction as int,
                        x2 as int,
                        stepx as int,
                        stepy as int,
                        dx as int,
                        dy as int,
                    ),
                    forall|xx: int, yy: int|
                        in_frame(w as int, h as int, xx, yy) ==> self.pix(xx, yy) == (
                        if done.contains((xx, yy)) {
                            rgba(color)
                        } else {
                            old(self).pix(xx, yy)
                        }),
                decreases mag((x2 as int) - x),
            {
                let ghost pre = (x as int, y as int, fraction as int);
                x = x + stepx;
                if fraction >= 0 {
                    y = y + stepy;
                    fraction = fraction - dx;
                }
                fraction = fraction + dy;
                proof {
                    assert(bres_x_rest(
                        pre.0,
                        pre.1,
                        pre.2,
                        x2 as int,
                        stepx as int,
                        stepy as int,
                        dx as int,
                        dy as int,
                    ) == seq![(x as int, y as int)] + bres_x_rest(
                        x as int,
                        y as int,
                        fraction as int,
                        x2 as int,
                        stepx as int,
                        stepy as int,
                        dx as int,
                        dy as int,
                    ));
                    assert(full =~= done.push((x as int, y as int)) + bres_x_rest(
                        x as int,
                        y as int,
                        fraction as int,
                        x2 as int,
                        stepx as int,
                        stepy as int,
                        dx as int,
                        dy as int,
                    ));
                }
                draw_point(&mut self.data, w, h, x as i32, y as i32, color);
                proof {
                    done = done.push((x as int, y as int));
                }
            }
        } else {
            let mut fraction: i64 = dx - dy / 2;
            let mut x: i64 = x1 as i64;
            let mut y: i64 = y1 as i64;
            #[verifier::loop_isolation(false)]
            while y != (y2 as i64)
                invariant
                    self.wf(),
                    self.width == w,
                    self.height == h,
                    (stepy == 1 && y1 as int <= y <= y2 as int) || (stepy == -1 && y2 as int <= y
                        <= y1 as int),
                    mag(x - (x1 as int)) <= mag(y - (y1 as int)),
                    -dy <= fraction <= dx,
                    full == done + bres_y_rest(
                        x as int,
                        y as int,
                        fraction as int,
                        y2 as int,
                        stepx as int,
                        stepy as int,
                        dx as int,
                        dy as int,
                    ),
                    forall|xx: int, yy: int|
                        in_frame(w as int, h as int, xx, yy) ==> self.pix(xx, yy) == (
                        if done.contains((xx, yy)) {
                            rgba(color)
                        } else {
                            old(self).pix(xx, yy)
                        }),
                decreases mag((y2 as int) - y),
            {
                let ghost pre = (x as int, y as int, fraction as int);
                if fraction >= 0 {
                    x = x + stepx;
                    fraction = fraction - dy;
                }
                y = y + stepy;
                fraction = fraction + dx;
                proof {
                    assert(bres_y_rest(
                        pre.0,
                        pre.1,
                        pre.2,
                        y2 as int,
                        stepx as int,
                        stepy as int,
                        dx as int,
                        dy as int,
                    ) == seq![(x as int, y as int)] + bres_y_rest(
                        x as int,
                        y as int,
                        fraction as int,
                        y2 as int,
                        stepx as int,
                        stepy as int,
                        dx as int,
                        dy as int,
                    ));
                    assert(full =~= done.push((x as int, y as int)) + bres_y_rest(
                        x as int,
                        y as int,
                        fraction as int,
                        y2 as int,
                        stepx as int,
                        stepy as int,
                        dx as int,
                        dy as int,
                    ));
                }
                draw_point(&mut self.data, w, h, x as i32, y as i32, color);
                proof {
                    done = done.push((x as int, y as int));
                }
            }
        }
        proof {
            assert(full =~= done);
        }
    }

    /// Fills the whole frame with one color (alpha 255).
    pub fn clear(&mut self, color: Color)
        requires
            old(self).wf(),
        ensures
            final(self).wf(),
            final(self).width_spec() == old(self).width_spec(),
            final(self).height_spec() == old(self).height_spec(),
            forall|x: int, y: int|
                in_frame(old(self).width_spec(), old(self).height_spec(), x, y) ==> final(self).pix(x, y) == rgba(color),
    {
        let w = self.width;
        let h = self.height;
        let mut y: i32 = 0;
        #[verifier::loop_isolation(false)]
        while y < h
            invariant
                0 <= y <= h,
                self.width == w,
                self.height == h,
                self.wf(),
                forall|xx: int, yy: int|
                    in_frame(w as int, h as int, xx, yy) && yy < y ==> self.pix(xx, yy) == rgba(
                        color,
                    ),
            decreases h - y,
        {
            let mut x: i32 = 0;
            while x < w
                invariant
                    0 <= x <= w,
                    0 <= y < h,
                    self.width == w,
                    self.height == h,
                    self.wf(),
                    forall|xx: int, yy: int|
                        in_frame(w as int, h as int, xx, yy) && (yy < y || (yy == y && xx < x))
                            ==> self.pix(xx, yy) == rgba(color),
                decreases w - x,
            {
                draw_point(&mut self.data, w, h, x, y, color);
                x = x + 1;
            }
            y = y + 1;
        }
    }

    /// Fills a triangle with a flat bottom edge at `p23y` (apex `p1`
    /// above it): each scanline runs between the two interpolated edge
    /// x bounds, inclusive.
    pub fn wide_bottom_triangle(
        &mut self,
        p1: (i32, i32),
        p23y: i32,
        p2x: i32,
        p3x: i32,
        color: Color,
    )
        requires
            old(self).wf(),
            pt_in_range(p1),
            -COORD_LIMIT <= p23y <= COORD_LIMIT,
            -COORD_LIMIT <= p2x <= COORD_LIMIT,
            -COORD_LIMIT <= p3x <= COORD_LIMIT,
            p1.1 < p23y,
        ensures
            final(self).wf(),
            final(self).width_spec() == old(self).width_spec(),
            final(self).height_spec() == old(self).height_spec(),
            forall|xx: int, yy: int|
                in_frame(old(self).width_spec(), old(self).height_spec(), xx, yy) ==> final(self).pix(xx, yy) == (if wide_bottom_covers(p1, p23y, p2x, p3x, xx, yy) {
                    rgba(color)
                } else {
                    old(self).pix(xx, yy)
                }),
    {
        let w = self.width;
        let h = self.height;
        let mut y = p1.1;
        #[verifier::loop_isolation(false)]
        while y <= p23y
            invariant
                p1.1 <= y <= p23y + 1,
                self.width == w,
                self.height == h,
                self.wf(),
                forall|xx: int, yy: int|
                    in_frame(w as int, h as int, xx, yy) ==> self.pix(xx, yy) == (
                    if wide_bottom_covers(p1, p23y, p2x, p3x, xx, yy) && yy < y {
                        rgba(color)
                    } else {
                        old(self).pix(xx, yy)
                    }),
            decreases p23y + 1 - y,
        {
            let mut start_x = x_at_y(p1.0, p1.1, p2x, p23y, y);
            let mut end_x = x_at_y(p1.0, p1.1, p3x, p23y, y);
            if start_x > end_x {
                let t = start_x;
                start_x = end_x;
                end_x = t;
            }
            let mut x = start_x;
            #[verifier::loop_isolation(false)]
            while x <= end_x
                invariant
                    start_x <= x <= end_x + 1,
                    start_x as int == imin(
                        x_at_y_spec(p1.0 as int, p1.1 as int, p2x as int, p23y as int, y as int),
                        x_at_y_spec(p1.0 as int, p1.1 as int, p3x as int, p23y as int, y as int),
                    ),
                    end_x as int == imax(
                        x_at_y_spec(p1.0 as int, p1.1 as int, p2x as int, p23y as int, y as int),
                        x_at_y_spec(p1.0 as int, p1.1 as int, p3x as int, p23y as int, y as int),
                    ),
                    p1.1 <= y <= p23y,
                    self.width == w,
                    self.height == h,
                    self.wf(),
                    forall|xx: int, yy: int|
                        in_frame(w as int, h as int, xx, yy) ==> self.pix(xx, yy) == (
                        if wide_bottom_covers(p1, p23y, p2x, p3x, xx, yy) && (yy < y || (yy == y
                            && xx < x)) {
                            rgba(color)
                        } else {
                            old(self).pix(xx, yy)
                        }),
                decreases end_x + 1 - x,
            {
                draw_point(&mut self.data, w, h, x, y, color);
                x = x + 1;
            }
            y = y + 1;
        }
    }

    /// Fills a triangle with a flat top edge at `p12y` (apex `p3`
    /// below it), scanline by scanline as in `wide_bottom_triangle`.
    pub fn wide_top_triangle(&mut self, p12y: i32, p1x: i32, p2x: i32, p3: (i32, i32), color: Color)
        requires
            old(self).wf(),
            pt_in_range(p3),
            -COORD_LIMIT <= p12y <= COORD_LIMIT,
            -COORD_LIMIT <= p1x <= COORD_LIMIT,
            -COORD_LIMIT <= p2x <= COORD_LIMIT,
            p12y < p3.1,
        ensures
            final(self).wf(),
            final(self).width_spec() == old(self).width_spec(),
            final(self).height_spec() == old(self).height_spec(),
            forall|xx: int, yy: int|
                in_frame(old(self).width_spec(), old(self).height_spec(), xx, yy) ==> final(self).pix(xx, yy) == (if wide_top_covers(p12y, p1x, p2x, p3, xx, yy) {
                    rgba(color)
                } else {
                    old(self).pix(xx, yy)
                }),
    {
        let w = self.width;
        let h = self.height;
        let mut y = p12y;
        #[verifier::loop_isolation(false)]
        while y <= p3.1
            invariant
                p12y <= y <= p3.1 + 1,
                self.width == w,
                self.height == h,
                self.wf(),
                forall|xx: int, yy: int|
                    in_frame(w as int, h as int, xx, yy) ==> self.pix(xx, yy) == (
                    if wide_top_covers(p12y, p1x, p2x, p3, xx, yy) && yy < y {
                        rgba(color)
                    } else {
                        old(self).pix(xx, yy)
                    }),
            decreases p3.1 + 1 - y,
        {
            let mut start_x = x_at_y(p1x, p12y, p3.0, p3.1, y);
            let mut end_x = x_at_y(p2x, p12y, p3.0, p3.1, y);
            if start_x > end_x {
                let t = start_x;
                start_x = end_x;
                end_x = t;
            }
            let mut x = start_x;
            #[verifier::loop_isolation(false)]
            while x <= end_x
                invariant
                    start_x <= x <= end_x + 1,
                    start_x as int == imin(
                        x_at_y_spec(p1x as int, p12y as int, p3.0 as int, p3.1 as int, y as int),
                        x_at_y_spec(p2x as int, p12y as int, p3.0 as int, p3.1 as int, y as int),
                    ),
                    end_x as int == imax(
                        x_at_y_spec(p1x as int, p12y as int, p3.0 as int, p3.1 as int, y as int),
                        x_at_y_spec(p2x as int, p12y as int, p3.0 as int, p3.1 as int, y as int),
                    ),
                    p12y <= y <= p3.1,
                    self.width == w,
                    self.height == h,
                    self.wf(),
                    forall|xx: int, yy: int|
                        in_frame(w as int, h as int, xx, yy) ==> self.pix(xx, yy) == (
                        if wide_top_covers(p12y, p1x, p2x, p3, xx, yy) && (yy < y || (yy == y && xx
                            < x)) {
                            rgba(color)
                        } else {
                            old(self).pix(xx, yy)
                        }),
                decreases end_x + 1 - x,
            {
                draw_point(&mut self.data, w, h, x, y, color);
                x = x + 1;
            }
            y = y + 1;
        }
    }

    /// Fills an arbitrary triangle: sorts the corners by y, fills flat
    /// triangles directly, and splits the general case at the middle
    /// corner's scanline into a flat-bottom and a flat-top part.
    pub fn triangle(&mut self, p1: (i32, i32), p2: (i32, i32), p3: (i32, i32), color: Color)
        requires
            old(self).wf(),
            pt_in_range(p1),
            pt_in_range(p2),
            pt_in_range(p3),
            !(p1.1 == p2.1 && p2.1 == p3.1),
        ensures
            final(self).wf(),
            final(self).width_spec() == old(self).width_spec(),
            final(self).height_spec() == old(self).height_spec(),
            forall|xx: int, yy: int|
                in_frame(old(self).width_spec(), old(self).height_spec(), xx, yy) ==> final(self).pix(xx, yy) == (if triangle_covers(p1, p2, p3, xx, yy) {
                    rgba(color)
                } else {
                    old(self).pix(xx, yy)
                }),
    {
        let (q1, q2) = if p2.1 < p1.1 {
            (p2, p1)
        } else {
            (p1, p2)
        };
        let (s1, s2, s3) = if p3.1 < q1.1 {
            (p3, q1, q2)
        } else if p3.1 < q2.1 {
            (q1, p3, q2)
        } else {
            (q1, q2, p3)
        };

        if s2.1 == s3.1 {
            let (b_left, b_right) = if s2.0 <= s3.0 {
                (s2.0, s3.0)
            } else {
                (s3.0, s2.0)
            };
            self.wide_bottom_triangle(s1, s2.1, b_left, b_right, color);
        } else if s1.1 == s2.1 {
            let (t_left, t_right) = if s1.0 <= s2.0 {
                (s1.0, s2.0)
            } else {
                (s2.0, s1.0)
            };
            self.wide_top_triangle(s1.1, t_left, t_right, s3, color);
        } else {
            let midpoint = x_at_y(s1.0, s1.1, s3.0, s3.1, s2.1);
            let (x_left, x_right) = if midpoint < s2.0 {
                (midpoint, s2.0)
            } else {
                (s2.0, midpoint)
            };
            self.wide_bottom_triangle(s1, s2.1, x_left, x_right, color);
            self.wide_top_triangle(s2.1, x_left, x_right, s3, color);
        }
    }

    /// Fills a convex quad: sorts the four corners by angle around
    /// their centroid and fills the two triangles sharing the first
    /// sorted corner. A sliver triangle on one scanline is skipped.
    #[verifier::rlimit(100)]
    pub fn draw_quad(
        &mut self,
        p1: (i32, i32),
        p2: (i32, i32),
        p3: (i32, i32),
        p4: (i32, i32),
        color: Color,
    )
        requires
            old(self).wf(),
            pt_in_range(p1),
            pt_in_range(p2),
            pt_in_range(p3),
            pt_in_range(p4),
        ensures
            final(self).wf(),
            final(self).width_spec() == old(self).width_spec(),
            final(self).height_spec() == old(self).height_spec(),
            forall|xx: int, yy: int|
                in_frame(old(self).width_spec(), old(self).height_spec(), xx, yy) ==> final(self).pix(xx, yy) == (if quad_covers(p1, p2, p3, p4, xx, yy) {
                    rgba(color)
                } else {
                    old(self).pix(xx, yy)
                }),
    {
        let c4x = (p1.0 as i64) + (p2.0 as i64) + (p3.0 as i64) + (p4.0 as i64);
        let c4y = (p1.1 as i64) + (p2.1 as i64) + (p3.1 as i64) + (p4.1 as i64);
        let (a, b) = if angle_less(c4x, c4y, p2, p1) {
            (p2, p1)
        } else {
            (p1, p2)
        };
        let (t1, t2, t3) = if angle_less(c4x, c4y, p3, a) {
            (p3, a, b)
        } else if angle_less(c4x, c4y, p3, b) {
            (a, p3, b)
        } else {
            (a, b, p3)
        };
        let (s1, s2, s3, s4) = if angle_less(c4x, c4y, p4, t1) {
            (p4, t1, t2, t3)
        } else if angle_less(c4x, c4y, p4, t2) {
            (t1, p4, t2, t3)
        } else if angle_less(c4x, c4y, p4, t3) {
            (t1, t2, p4, t3)
        } else {
            (t1, t2, t3, p4)
        };
        if !(s1.1 == s2.1 && s2.1 == s3.1) {
            self.triangle(s1, s2, s3, color);
        }
        if !(s1.1 == s3.1 && s3.1 == s4.1) {
            self.triangle(s1, s3, s4, color);
        }
    }

    /// Draws one projected polygon, dispatching on its corner count:
    /// two corners are a line, three a triangle, four a quad, more the
    /// general fill; zero or one corner paints nothing. A triangle
    /// whose corners share one scanline is skipped.
    pub fn draw_polygon(&mut self, points: &Vec<(i32, i32)>, color: Color)
        requires
            old(self).wf(),
            all_pts_line_range(points@),
        ensures
            final(self).wf(),
            final(self).width_spec() == old(self).width_spec(),
            final(self).height_spec() == old(self).height_spec(),
            forall|xx: int, yy: int|
                in_frame(old(self).width_spec(), old(self).height_spec(), xx, yy) ==> final(self).pix(xx, yy) == (if polygon_covers(points@, xx, yy) {
                    rgba(color)
                } else {
                    old(self).pix(xx, yy)
                }),
    {
        let len = points.len();
        if len > 4 {
            proof {
                assert forall|k: int| 0 <= k < points@.len() implies pt_in_range(
                    #[trigger] points@[k],
                ) by {}
            }
            self.draw_poly(points, color);
        } else if len == 4 {
            self.draw_quad(points[0], points[1], points[2], points[3], color);
        } else if len == 3 {
            let p1 = points[0];
            let p2 = points[1];
            let p3 = points[2];
            if !(p1.1 == p2.1 && p2.1 == p3.1) {
                self.triangle(p1, p2, p3, color);
            }
        } else if len == 2 {
            let p1 = points[0];
            let p2 = points[1];
            self.draw_line(p1.0, p1.1, p2.0, p2.1, color);
        }
    }

    /// General polygon fill: tests every pixel of the bounding box with
    /// the consistent-winding rule and paints the ones inside.
    pub fn draw_poly(&mut self, points: &Vec<(i32, i32)>, color: Color)
        requires
            old(self).wf(),
            points@.len() >= 1,
            all_pts_in_range(points@),
        ensures
            final(self).wf(),
            final(self).width_spec() == old(self).width_spec(),
            final(self).height_spec() == old(self).height_spec(),
            forall|xx: int, yy: int|
                in_frame(old(self).width_spec(), old(self).height_spec(), xx, yy) ==> final(self).pix(xx, yy) == (if poly_covers(points@, xx, yy) {
                    rgba(color)
                } else {
                    old(self).pix(xx, yy)
                }),
    {
        let w = self.width;
        let h = self.height;
        let n = points.len();
        let p0 = points[0];
        let mut x_min = p0.0;
        let mut x_max = p0.0;
        let mut y_min = p0.1;
        let mut y_max = p0.1;
        let mut i: usize = 1;
        #[verifier::loop_isolation(false)]
        while i < n
            invariant
                1 <= i <= n,
                x_min as int == min_x(points@.subrange(0, i as int)),
                x_max as int == max_x(points@.subrange(0, i as int)),
                y_min as int == min_y(points@.subrange(0, i as int)),
                y_max as int == max_y(points@.subrange(0, i as int)),
                x_min <= x_max,
                y_min <= y_max,
                -COORD_LIMIT <= x_min,
                x_max <= COORD_LIMIT,
                -COORD_LIMIT <= y_min,
                y_max <= COORD_LIMIT,
            decreases n - i,
        {
            proof {
                assert(points@.subrange(0, (i + 1) as int).drop_last() =~= points@.subrange(
                    0,
                    i as int,
                ));
                assert(pt_in_range(points@[i as int]));
            }
            let p = points[i];
            if p.0 < x_min {
                x_min = p.0;
            } else if p.0 > x_max {
                x_max = p.0;
            }
            if p.1 < y_min {
                y_min = p.1;
            } else if p.1 > y_max {
                y_max = p.1;
            }
            i = i + 1;
        }
        proof {
            assert(points@.subrange(0, points@.len() as int) =~= points@);
        }

        let mut x = x_min;
        #[verifier::loop_isolation(false)]
        while x <= x_max
            invariant
                x_min <= x <= x_max + 1,
                self.width == w,
                self.height == h,
                self.wf(),
                forall|xx: int, yy: int|
                    in_frame(w as int, h as int, xx, yy) ==> self.pix(xx, yy) == (if poly_covers(
                        points@,
                        xx,
                        yy,
                    ) && xx < x {
                        rgba(color)
                    } else {
                        old(self).pix(xx, yy)
                    }),
            decreases x_max + 1 - x,
        {
            let mut y = y_min;
            #[verifier::loop_isolation(false)]
            while y <= y_max
                invariant
                    x_min <= x <= x_max,
                    y_min <= y <= y_max + 1,
                    self.width == w,
                    self.height == h,
                    self.wf(),
                    forall|xx: int, yy: int|
                        in_frame(w as int, h as int, xx, yy) ==> self.pix(xx, yy) == (
                        if poly_covers(points@, xx, yy) && (xx < x || (xx == x && yy < y)) {
                            rgba(color)
                        } else {
                            old(self).pix(xx, yy)
                        }),
                decreases y_max + 1 - y,
            {
                if in_poly((x, y), points) {
                    draw_point(&mut self.data, w, h, x, y, color);
                }
                y = y + 1;
            }
            x = x + 1;
        }
    }
}

} // verus!
