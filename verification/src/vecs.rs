//! Plain 2D and 3D vectors over fixed-point integer coordinates, and
//! the handful of exact arithmetic helpers the geometry code rests on.
//!
//! A coordinate is an `i64` holding a real value scaled by [`FP_ONE`]
//! (so `FP_ONE` itself stands for 1.0). Every routine in this crate
//! bounds the coordinates it works on by [`COORD_LIMIT`] so that all
//! intermediate products fit comfortably in `i128`.

use vstd::prelude::*;

verus! {

use vstd::arithmetic::div_mod::{
    lemma_div_pos_is_pos, lemma_div_nonincreasing, lemma_div_is_ordered, lemma_div_by_multiple,
};
use vstd::arithmetic::mul::lemma_mul_inequality;

/// Fixed-point scale: the integer that stands for the real number 1.
pub const FP_ONE: i64 = 65536;

/// Largest coordinate magnitude the geometry routines accept.
pub const COORD_LIMIT: i64 = 0x4000_0000;

/// A 2D point or direction on the floor plan.
#[derive(Clone, Copy, Debug, PartialEq, Eq, Structural)]
pub struct Vec2 {
    pub x: i64,
    pub y: i64,
}

/// A 3D point or direction (y is up; the floor plan lives in x/z).
#[derive(Clone, Copy, Debug, PartialEq, Eq, Structural)]
pub struct Vec3 {
    pub x: i64,
    pub y: i64,
    pub z: i64,
}

/// A single scalar within the accepted coordinate range.
pub open spec fn coord_in_range(v: int) -> bool {
    -COORD_LIMIT <= v <= COORD_LIMIT
}

pub open spec fn vec2_in_range(v: Vec2) -> bool {
    coord_in_range(v.x as int) && coord_in_range(v.y as int)
}

pub open spec fn vec3_in_range(v: Vec3) -> bool {
    coord_in_range(v.x as int) && coord_in_range(v.y as int) && coord_in_range(v.z as int)
}

impl Vec2 {
    pub fn new(x: i64, y: i64) -> (v: Vec2)
        ensures
            v == (Vec2 { x, y }),
    {
        Vec2 { x, y }
    }
}

impl Vec3 {
    pub fn new(x: i64, y: i64, z: i64) -> (v: Vec3)
        ensures
            v == (Vec3 { x, y, z }),
    {
        Vec3 { x, y, z }
    }
}

/// Magnitude of an integer.
pub open spec fn mag(a: int) -> int {
    if a >= 0 {
        a
    } else {
        -a
    }
}

/// Truncating division by a positive divisor.
pub open spec fn tdiv_pos(a: int, b: int) -> int {
    if a >= 0 {
        a / b
    } else {
        -((-a) / b)
    }
}

/// Truncating (round-toward-zero) integer division, the semantics of
/// `/` on Rust's signed integers; ghost `/` alone is Euclidean.
pub open spec fn tdiv(a: int, b: int) -> int {
    if b < 0 {
        tdiv_pos(-a, -b)
    } else {
        tdiv_pos(a, b)
    }
}

/// Truncating division never increases the magnitude of the dividend.
pub proof fn lemma_tdiv_mag(a: int, b: int, m: int)
    requires
        b != 0,
        -m <= a <= m,
    ensures
        -m <= tdiv(a, b) <= m,
{
    let (a2, b2): (int, int) = if b < 0 {
        (-a, -b)
    } else {
        (a, b)
    };
    if a2 >= 0 {
        lemma_div_pos_is_pos(a2, b2);
        lemma_div_nonincreasing(a2, b2);
    } else {
        lemma_div_pos_is_pos(-a2, b2);
        lemma_div_nonincreasing(-a2, b2);
    }
}

/// Scaling by `t/f` with `0 <= t <= f` keeps a value between 0 and
/// itself: the exact statement behind every fixed-point interpolation
/// step in this crate.
pub proof fn lemma_tdiv_interp(c: int, t: int, f: int)
    requires
        0 <= t <= f,
        0 < f,
    ensures
        c >= 0 ==> 0 <= tdiv(c * t, f) <= c,
        c < 0 ==> c <= tdiv(c * t, f) <= 0,
{
    if c >= 0 {
        assert(0 <= c * t) by (nonlinear_arith)
            requires
                c >= 0,
                t >= 0,
        ;
        lemma_mul_inequality(t, f, c);
        assert(c * t == t * c && c * f == f * c) by (nonlinear_arith);
        lemma_div_pos_is_pos(c * t, f);
        lemma_div_is_ordered(c * t, c * f, f);
        lemma_div_by_multiple(c, f);
    } else {
        assert(c * t <= 0) by (nonlinear_arith)
            requires
                c < 0,
                t >= 0,
        ;
        let d = -c;
        assert(-(c * t) == d * t) by (nonlinear_arith)
            requires
                d == -c,
        ;
        assert(0 <= d * t) by (nonlinear_arith)
            requires
                d >= 0,
                t >= 0,
        ;
        lemma_mul_inequality(t, f, d);
        assert(d * t == t * d && d * f == f * d) by (nonlinear_arith);
        lemma_div_pos_is_pos(d * t, f);
        lemma_div_is_ordered(d * t, d * f, f);
        lemma_div_by_multiple(d, f);
    }
}

/// An interpolation parameter `a*f / b` with `0 <= a <= b` stays in
/// `[0, f]`: the fixed-point fraction of a crossing edge is a valid
/// blend weight.
pub proof fn lemma_tdiv_frac(a: int, b: int, f: int)
    requires
        0 <= a <= b,
        0 < b,
        0 < f,
    ensures
        0 <= tdiv(a * f, b) <= f,
{
    assert(0 <= a * f) by (nonlinear_arith)
        requires
            0 <= a,
            0 < f,
    ;
    lemma_mul_inequality(a, b, f);
    assert(a * f == f * a && b * f == f * b) by (nonlinear_arith);
    lemma_div_pos_is_pos(a * f, b);
    lemma_div_is_ordered(a * f, b * f, b);
    assert(b * f == f * b) by (nonlinear_arith);
    lemma_div_by_multiple(f, b);
}

/// An average of values bounded by `b` is itself bounded by `b`.
pub proof fn lemma_tdiv_avg(s: int, n: int, b: int)
    requires
        0 < n,
        0 <= b,
        -(n * b) <= s <= n * b,
    ensures
        -b <= tdiv(s, n) <= b,
{
    if s >= 0 {
        lemma_div_pos_is_pos(s, n);
        lemma_div_is_ordered(s, n * b, n);
        assert(n * b == b * n) by (nonlinear_arith);
        lemma_div_by_multiple(b, n);
    } else {
        lemma_div_pos_is_pos(-s, n);
        lemma_div_is_ordered(-s, n * b, n);
        assert(n * b == b * n) by (nonlinear_arith);
        lemma_div_by_multiple(b, n);
    }
}

/// The product of two bounded values is bounded by the product of the
/// bounds.
pub proof fn lemma_mul_mag(a: int, b: int, ba: int, bb: int)
    requires
        -ba <= a <= ba,
        -bb <= b <= bb,
    ensures
        -(ba * bb) <= a * b <= ba * bb,
{
    assert(-(ba * bb) <= a * b <= ba * bb) by (nonlinear_arith)
        requires
            -ba <= a <= ba,
            -bb <= b <= bb,
    ;
}

/// Full-width product of two `i64` values; never overflows `i128`.
pub fn wide_mul(a: i64, b: i64) -> (r: i128)
    ensures
        r == a * b,
{
    proof {
        lemma_mul_mag(a as int, b as int, 0x8000_0000_0000_0000, 0x8000_0000_0000_0000);
    }
    (a as i128) * (b as i128)
}

/// Product of an `i128` intermediate with an `i64`, for values small
/// enough that the result fits.
pub fn wide_mul128(a: i128, b: i64) -> (r: i128)
    requires
        -0x8_0000_0000_0000_0000_0000 <= a <= 0x8_0000_0000_0000_0000_0000,
        -0x8_0000_0000 <= b <= 0x8_0000_0000,
    ensures
        r == a * b,
{
    proof {
        lemma_mul_mag(a as int, b as int, 0x8_0000_0000_0000_0000_0000, 0x8_0000_0000);
    }
    a * (b as i128)
}

/// Truncating `i128` division, usable with a divisor of either sign.
pub fn tdiv128(a: i128, b: i128) -> (r: i128)
    requires
        b != 0,
        -0x4000_0000_0000_0000_0000_0000_0000_0000 <= a
            <= 0x4000_0000_0000_0000_0000_0000_0000_0000,
        -0x4000_0000_0000_0000_0000_0000_0000_0000 <= b
            <= 0x4000_0000_0000_0000_0000_0000_0000_0000,
    ensures
        r == tdiv(a as int, b as int),
        -mag(a as int) <= r <= mag(a as int),
{
    proof {
        lemma_tdiv_mag(a as int, b as int, mag(a as int));
    }
    let (a2, b2): (i128, i128) = if b < 0 {
        (-a, -b)
    } else {
        (a, b)
    };
    a2 / b2
}

} // verus!
