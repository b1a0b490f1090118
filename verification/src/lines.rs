//! 2D line segments: point-side classification, line/segment
//! intersection, and splitting a segment at a partition line.
//!
//! The intersection routines work on the infinite lines through the
//! given segments and then confine the result to the segments' bounding
//! boxes, exactly as the drawing and collision code expects.

use vstd::prelude::*;

verus! {

use crate::vecs::{
    Vec2, Vec3, tdiv, wide_mul, wide_mul128, tdiv128, coord_in_range, vec2_in_range,
    vec3_in_range, lemma_mul_mag, COORD_LIMIT, FP_ONE,
};

/// One wall on the 2D floor plan, an ordered pair of endpoints.
#[derive(Clone, Copy, Debug, PartialEq, Eq, Structural)]
pub struct LineSegment {
    pub start: Vec2,
    pub end: Vec2,
}

/// A segment in 3D space (used for the extruded wall edges).
#[derive(Clone, Copy, Debug, PartialEq, Eq, Structural)]
pub struct LineSegment3 {
    pub start: Vec3,
    pub end: Vec3,
}

/// Which side of a directed line a point falls on, or exactly on it.
#[derive(Clone, Copy, Debug, PartialEq, Eq, Structural)]
pub enum Order {
    Left,
    Right,
    On,
}

pub open spec fn seg_in_range(s: LineSegment) -> bool {
    vec2_in_range(s.start) && vec2_in_range(s.end)
}

pub open spec fn seg3_in_range(s: LineSegment3) -> bool {
    vec3_in_range(s.start) && vec3_in_range(s.end)
}

pub open spec fn imin(a: int, b: int) -> int {
    if a <= b {
        a
    } else {
        b
    }
}

pub open spec fn imax(a: int, b: int) -> int {
    if a >= b {
        a
    } else {
        b
    }
}

impl LineSegment {
    pub fn new(start: Vec2, end: Vec2) -> (s: LineSegment)
        ensures
            s == (LineSegment { start, end }),
    {
        LineSegment { start, end }
    }

    /// Midpoint, rounding each coordinate toward zero.
    pub fn midpoint(&self) -> (m: Vec2)
        requires
            seg_in_range(*self),
        ensures
            m.x == tdiv(self.start.x + self.end.x, 2),
            m.y == tdiv(self.start.y + self.end.y, 2),
    {
        Vec2 { x: (self.start.x + self.end.x) / 2, y: (self.start.y + self.end.y) / 2 }
    }
}

impl LineSegment3 {
    pub fn new(start: Vec3, end: Vec3) -> (s: LineSegment3)
        ensures
            s == (LineSegment3 { start, end }),
    {
        LineSegment3 { start, end }
    }

    /// Midpoint, rounding each coordinate toward zero.
    pub fn midpoint(&self) -> (m: Vec3)
        requires
            seg3_in_range(*self),
        ensures
            m.x == tdiv(self.start.x + self.end.x, 2),
            m.y == tdiv(self.start.y + self.end.y, 2),
            m.z == tdiv(self.start.z + self.end.z, 2),
    {
        Vec3 {
            x: (self.start.x + self.end.x) / 2,
            y: (self.start.y + self.end.y) / 2,
            z: (self.start.z + self.end.z) / 2,
        }
    }
}

/// Signed area (cross product) of the line's direction with the vector
/// from the line's start to `point`: positive on the left of the
/// directed line, negative on the right, zero exactly on it.
pub open spec fn cross_of(line: LineSegment, point: Vec2) -> int {
    (line.end.x - line.start.x) * (point.y - line.start.y) - (line.end.y - line.start.y) * (
    point.x - line.start.x)
}

pub open spec fn side_of(line: LineSegment, point: Vec2) -> Order {
    if cross_of(line, point) > 0 {
        Order::Left
    } else if cross_of(line, point) < 0 {
        Order::Right
    } else {
        Order::On
    }
}

/// Determines which side of the (infinite, directed) line the point is
/// on, by the exact sign of the cross product.
pub fn point_side_of_line(line: &LineSegment, point: &Vec2) -> (r: Order)
    requires
        seg_in_range(*line),
        vec2_in_range(*point),
    ensures
        r == side_of(*line, *point),
{
    let t1 = wide_mul(line.end.x - line.start.x, point.y - line.start.y);
    let t2 = wide_mul(line.end.y - line.start.y, point.x - line.start.x);
    if t1 > t2 {
        Order::Left
    } else if t1 < t2 {
        Order::Right
    } else {
        Order::On
    }
}

/// Denominator of the line/line intersection system: zero exactly when
/// the two infinite lines are parallel (or one is degenerate).
pub open spec fn ip_denom(a: LineSegment, b: LineSegment) -> int {
    (a.start.x - a.end.x) * (b.start.y - b.end.y) - (a.start.y - a.end.y) * (b.start.x - b.end.x)
}

pub open spec fn ip_top(a: LineSegment, b: LineSegment) -> int {
    (a.start.x - b.start.x) * (b.start.y - b.end.y) - (a.start.y - b.start.y) * (b.start.x
        - b.end.x)
}

/// The interpolation parameter along `a`, in fixed-point units.
pub open spec fn ip_t(a: LineSegment, b: LineSegment) -> int {
    tdiv(ip_top(a, b) * FP_ONE, ip_denom(a, b))
}

pub open spec fn ip_x(a: LineSegment, b: LineSegment) -> int {
    a.start.x + tdiv((a.end.x - a.start.x) * ip_t(a, b), FP_ONE as int)
}

pub open spec fn ip_y(a: LineSegment, b: LineSegment) -> int {
    a.start.y + tdiv((a.end.y - a.start.y) * ip_t(a, b), FP_ONE as int)
}

/// Whether the two infinite lines meet in a single point that the
/// fixed-point grid can hold.
pub open spec fn ip_some(a: LineSegment, b: LineSegment) -> bool {
    ip_denom(a, b) != 0 && coord_in_range(ip_x(a, b)) && coord_in_range(ip_y(a, b))
}

pub open spec fn ip_point(a: LineSegment, b: LineSegment) -> Vec2 {
    Vec2 { x: ip_x(a, b) as i64, y: ip_y(a, b) as i64 }
}

/// Finds the intersection point of two lines (NOT segments: the point
/// may lie outside either segment). Returns `None` when the lines are
/// parallel, and also when the intersection falls outside the accepted
/// coordinate range — such a far-away point fails every caller's
/// bounding-box test anyway.
pub fn intersection_point(a: &LineSegment, b: &LineSegment) -> (r: Option<Vec2>)
    requires
        seg_in_range(*a),
        seg_in_range(*b),
    ensures
        r is Some <==> ip_some(*a, *b),
        r matches Some(p) ==> p == ip_point(*a, *b) && vec2_in_range(p),
{
    proof {
        lemma_mul_mag(
            (a.start.x - a.end.x) as int,
            (b.start.y - b.end.y) as int,
            0x8000_0000,
            0x8000_0000,
        );
        lemma_mul_mag(
            (a.start.y - a.end.y) as int,
            (b.start.x - b.end.x) as int,
            0x8000_0000,
            0x8000_0000,
        );
        lemma_mul_mag(
            (a.start.x - b.start.x) as int,
            (b.start.y - b.end.y) as int,
            0x8000_0000,
            0x8000_0000,
        );
        lemma_mul_mag(
            (a.start.y - b.start.y) as int,
            (b.start.x - b.end.x) as int,
            0x8000_0000,
            0x8000_0000,
        );
    }
    let denom: i128 = wide_mul(a.start.x - a.end.x, b.start.y - b.end.y) - wide_mul(
        a.start.y - a.end.y,
        b.start.x - b.end.x,
    );
    if denom == 0 {
        return None;
    }
    let top: i128 = wide_mul(a.start.x - b.start.x, b.start.y - b.end.y) - wide_mul(
        a.start.y - b.start.y,
        b.start.x - b.end.x,
    );
    proof {
        lemma_mul_mag(top as int, FP_ONE as int, 0x8000_0000_0000_0000, 0x1_0000);
    }
    let scaled: i128 = wide_mul128(top, FP_ONE);
    let t: i128 = tdiv128(scaled, denom);
    proof {
        assert(denom == ip_denom(*a, *b));
        assert(top == ip_top(*a, *b));
        assert(t == ip_t(*a, *b));
        lemma_mul_mag(
            t as int,
            (a.end.x - a.start.x) as int,
            0x8_0000_0000_0000_0000_0000,
            0x8000_0000,
        );
        lemma_mul_mag(
            t as int,
            (a.end.y - a.start.y) as int,
            0x8_0000_0000_0000_0000_0000,
            0x8000_0000,
        );
    }
    let px: i128 = (a.start.x as i128) + tdiv128(
        wide_mul128(t, a.end.x - a.start.x),
        FP_ONE as i128,
    );
    let py: i128 = (a.start.y as i128) + tdiv128(
        wide_mul128(t, a.end.y - a.start.y),
        FP_ONE as i128,
    );
    proof {
        assert(px == ip_x(*a, *b));
        assert(py == ip_y(*a, *b));
    }
    if -(COORD_LIMIT as i128) <= px && px <= COORD_LIMIT as i128 && -(COORD_LIMIT as i128) <= py
        && py <= COORD_LIMIT as i128 {
        Some(Vec2 { x: px as i64, y: py as i64 })
    } else {
        None
    }
}

/// The bounding-box acceptance test of [`intersection_point_segment`]:
/// the point must lie within `b`'s x-extent, and on the forward side of
/// the ray `a`.
pub open spec fn ray_hit_keep(a: LineSegment, b: LineSegment, p: Vec2) -> bool {
    &&& !(p.x < imin(b.start.x as int, b.end.x as int) || p.x > imax(
        b.start.x as int,
        b.end.x as int,
    ))
    &&& if a.start.x > a.end.x {
        !(p.x > a.start.x)
    } else if a.start.x < a.end.x {
        !(p.x < a.start.x)
    } else {
        p.x == a.start.x
    }
}

pub open spec fn ray_hit_spec(a: LineSegment, b: LineSegment) -> Option<Vec2> {
    if ip_some(a, b) && ray_hit_keep(a, b, ip_point(a, b)) {
        Some(ip_point(a, b))
    } else {
        None
    }
}

/// Treats the first line as a ray and the second as a segment. Returns
/// the intersection point if it lies on the segment's x-extent and not
/// behind the ray, `None` otherwise.
pub fn intersection_point_segment(a: &LineSegment, b: &LineSegment) -> (r: Option<Vec2>)
    requires
        seg_in_range(*a),
        seg_in_range(*b),
    ensures
        r == ray_hit_spec(*a, *b),
{
    let p = match intersection_point(a, b) {
        Some(p) => p,
        None => {
            return None;
        },
    };
    let bx_min = if b.start.x <= b.end.x {
        b.start.x
    } else {
        b.end.x
    };
    let bx_max = if b.start.x >= b.end.x {
        b.start.x
    } else {
        b.end.x
    };
    if p.x < bx_min || p.x > bx_max {
        return None;
    }
    if a.start.x > a.end.x {
        if p.x > a.start.x {
            return None;
        }
    } else if a.start.x < a.end.x {
        if p.x < a.start.x {
            return None;
        }
    } else {
        if p.x != a.start.x {
            return None;
        }
    }
    Some(p)
}

/// Whether the two segments truly cross: the lines meet, and the
/// meeting point lies inside both segments' bounding boxes.
pub open spec fn segs_intersect(a: LineSegment, b: LineSegment) -> bool {
    ip_some(a, b) && {
        let p = ip_point(a, b);
        &&& !(p.x < imin(a.start.x as int, a.end.x as int) || p.x > imax(
            a.start.x as int,
            a.end.x as int,
        ))
        &&& !(p.x < imin(b.start.x as int, b.end.x as int) || p.x > imax(
            b.start.x as int,
            b.end.x as int,
        ))
        &&& !(p.y < imin(a.start.y as int, a.end.y as int) || p.y > imax(
            a.start.y as int,
            a.end.y as int,
        ))
        &&& !(p.y < imin(b.start.y as int, b.end.y as int) || p.y > imax(
            b.start.y as int,
            b.end.y as int,
        ))
    }
}

/// Checks if two line segments intersect.
pub fn do_lines_intersect(a: &LineSegment, b: &LineSegment) -> (r: bool)
    requires
        seg_in_range(*a),
        seg_in_range(*b),
    ensures
        r == segs_intersect(*a, *b),
{
    let p = match intersection_point(a, b) {
        Some(p) => p,
        None => {
            return false;
        },
    };
    let ax_min = if a.start.x <= a.end.x {
        a.start.x
    } else {
        a.end.x
    };
    let ax_max = if a.start.x >= a.end.x {
        a.start.x
    } else {
        a.end.x
    };
    let bx_min = if b.start.x <= b.end.x {
        b.start.x
    } else {
        b.end.x
    };
    let bx_max = if b.start.x >= b.end.x {
        b.start.x
    } else {
        b.end.x
    };
    if p.x < ax_min || p.x > ax_max {
        return false;
    }
    if p.x < bx_min || p.x > bx_max {
        return false;
    }
    let ay_min = if a.start.y <= a.end.y {
        a.start.y
    } else {
        a.end.y
    };
    let ay_max = if a.start.y >= a.end.y {
        a.start.y
    } else {
        a.end.y
    };
    let by_min = if b.start.y <= b.end.y {
        b.start.y
    } else {
        b.end.y
    };
    let by_max = if b.start.y >= b.end.y {
        b.start.y
    } else {
        b.end.y
    };
    if p.y < ay_min || p.y > ay_max {
        return false;
    }
    if p.y < by_min || p.y > by_max {
        return false;
    }
    true
}

/// Denominator of the split system: the 2x2 determinant of the two
/// lines' directions.
pub open spec fn sl_denom(a: LineSegment, b: LineSegment) -> int {
    (a.start.x - a.end.x) * (b.start.y - b.end.y) - (a.start.y - a.end.y) * (b.start.x - b.end.x)
}

pub open spec fn sl_px(a: LineSegment, b: LineSegment) -> int {
    tdiv(
        (a.start.x * a.end.y - a.start.y * a.end.x) * (b.start.x - b.end.x) - (a.start.x
            - a.end.x) * (b.start.x * b.end.y - b.start.y * b.end.x),
        sl_denom(a, b),
    )
}

pub open spec fn sl_py(a: LineSegment, b: LineSegment) -> int {
    tdiv(
        (a.start.x * a.end.y - a.start.y * a.end.x) * (b.start.y - b.end.y) - (a.start.y
            - a.end.y) * (b.start.x * b.end.y - b.start.y * b.end.x),
        sl_denom(a, b),
    )
}

/// The computed split point lies within `b`'s bounding box (inclusive).
pub open spec fn sl_within(a: LineSegment, b: LineSegment) -> bool {
    &&& imin(b.start.x as int, b.end.x as int) <= sl_px(a, b) <= imax(
        b.start.x as int,
        b.end.x as int,
    )
    &&& imin(b.start.y as int, b.end.y as int) <= sl_py(a, b) <= imax(
        b.start.y as int,
        b.end.y as int,
    )
}

pub open spec fn sl_point(a: LineSegment, b: LineSegment) -> Vec2 {
    Vec2 { x: sl_px(a, b) as i64, y: sl_py(a, b) as i64 }
}

/// Splits line segment `b` into two segments at its intersection with
/// the infinite line through `a`. Returns `None` when the lines are
/// parallel, or when the intersection misses `b`'s bounding box.
///
/// When it splits, the two pieces reconstruct `b` exactly: the first
/// runs from `b.start` to the intersection, the second from that same
/// intersection to `b.end`.
pub fn split_line(a: &LineSegment, b: &LineSegment) -> (r: Option<(LineSegment, LineSegment)>)
    requires
        seg_in_range(*a),
        seg_in_range(*b),
    ensures
        r is Some <==> sl_denom(*a, *b) != 0 && sl_within(*a, *b),
        r matches Some((s1, s2)) ==> {
            &&& s1.start == b.start
            &&& s1.end == sl_point(*a, *b)
            &&& s2.start == sl_point(*a, *b)
            &&& s2.end == b.end
            &&& seg_in_range(s1)
            &&& seg_in_range(s2)
        },
{
    let x1 = a.start.x;
    let y1 = a.start.y;
    let x2 = a.end.x;
    let y2 = a.end.y;
    let x3 = b.start.x;
    let y3 = b.start.y;
    let x4 = b.end.x;
    let y4 = b.end.y;

    proof {
        lemma_mul_mag((x1 - x2) as int, (y3 - y4) as int, 0x8000_0000, 0x8000_0000);
        lemma_mul_mag((y1 - y2) as int, (x3 - x4) as int, 0x8000_0000, 0x8000_0000);
        lemma_mul_mag(x1 as int, y2 as int, COORD_LIMIT as int, COORD_LIMIT as int);
        lemma_mul_mag(y1 as int, x2 as int, COORD_LIMIT as int, COORD_LIMIT as int);
        lemma_mul_mag(x3 as int, y4 as int, COORD_LIMIT as int, COORD_LIMIT as int);
        lemma_mul_mag(y3 as int, x4 as int, COORD_LIMIT as int, COORD_LIMIT as int);
    }
    let denom: i128 = wide_mul(x1 - x2, y3 - y4) - wide_mul(y1 - y2, x3 - x4);
    if denom == 0 {
        return None;
    }
    let det_a: i128 = wide_mul(x1, y2) - wide_mul(y1, x2);
    let det_b: i128 = wide_mul(x3, y4) - wide_mul(y3, x4);
    proof {
        lemma_mul_mag(det_a as int, (x3 - x4) as int, 0x2000_0000_0000_0000_0000, 0x8000_0000);
        lemma_mul_mag(det_b as int, (x1 - x2) as int, 0x2000_0000_0000_0000_0000, 0x8000_0000);
        lemma_mul_mag(det_a as int, (y3 - y4) as int, 0x2000_0000_0000_0000_0000, 0x8000_0000);
        lemma_mul_mag(det_b as int, (y1 - y2) as int, 0x2000_0000_0000_0000_0000, 0x8000_0000);
    }
    let num_x: i128 = wide_mul128(det_a, x3 - x4) - wide_mul128(det_b, x1 - x2);
    let num_y: i128 = wide_mul128(det_a, y3 - y4) - wide_mul128(det_b, y1 - y2);
    let px: i128 = tdiv128(num_x, denom);
    let py: i128 = tdiv128(num_y, denom);

    let x_lo: i128 = if x3 <= x4 {
        x3 as i128
    } else {
        x4 as i128
    };
    let x_hi: i128 = if x3 >= x4 {
        x3 as i128
    } else {
        x4 as i128
    };
    let y_lo: i128 = if y3 <= y4 {
        y3 as i128
    } else {
        y4 as i128
    };
    let y_hi: i128 = if y3 >= y4 {
        y3 as i128
    } else {
        y4 as i128
    };
    if !(x_lo <= px && px <= x_hi && y_lo <= py && py <= y_hi) {
        return None;
    }

    let intersection = Vec2 { x: px as i64, y: py as i64 };
    let seg1 = LineSegment { start: b.start, end: intersection };
    let seg2 = LineSegment { start: intersection, end: b.end };
    Some((seg1, seg2))
}

} // verus!
