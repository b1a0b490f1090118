//! Homogeneous clip-space work: transforming world points by a fixed
//! view-projection matrix, Sutherland-Hodgman clipping against the six
//! frustum half-spaces, the perspective divide, and the NDC-to-screen
//! mapping.
//!
//! All half-space tests compare a component against `w`, so no divide
//! happens before clipping. A screen coordinate is kept at twice the
//! usual fixed-point scale (`2 * FP_ONE` units per pixel), which makes
//! the NDC/screen mapping exactly invertible.

use vstd::prelude::*;

verus! {

use crate::vecs::{
    Vec2, Vec3, tdiv, wide_mul, wide_mul128, tdiv128, coord_in_range, vec3_in_range,
    lemma_mul_mag, lemma_tdiv_mag, lemma_tdiv_interp, lemma_tdiv_avg, lemma_tdiv_frac, COORD_LIMIT,
    FP_ONE,
};

/// Largest clip-space component magnitude the clipper works with.
pub const VERT_LIMIT: i64 = 0x2000_0000_0000_0000;

/// A vertex in homogeneous clip space; transient, per-polygon data.
#[derive(Clone, Copy, Debug, PartialEq, Eq, Structural)]
pub struct Vertex {
    pub x: i64,
    pub y: i64,
    pub z: i64,
    pub w: i64,
}

/// A fixed-point 4x4 matrix, row-major: row `i` of `mIJ` entries maps
/// a homogeneous point to clip component `i`.
#[derive(Clone, Copy, Debug, PartialEq, Eq, Structural)]
pub struct Mat4 {
    pub m00: i64,
    pub m01: i64,
    pub m02: i64,
    pub m03: i64,
    pub m10: i64,
    pub m11: i64,
    pub m12: i64,
    pub m13: i64,
    pub m20: i64,
    pub m21: i64,
    pub m22: i64,
    pub m23: i64,
    pub m30: i64,
    pub m31: i64,
    pub m32: i64,
    pub m33: i64,
}

pub open spec fn vert_in_range(v: Vertex) -> bool {
    &&& -VERT_LIMIT <= v.x <= VERT_LIMIT
    &&& -VERT_LIMIT <= v.y <= VERT_LIMIT
    &&& -VERT_LIMIT <= v.z <= VERT_LIMIT
    &&& -VERT_LIMIT <= v.w <= VERT_LIMIT
}

pub open spec fn all_verts_in_range(vs: Seq<Vertex>) -> bool {
    forall|k: int| 0 <= k < vs.len() ==> vert_in_range(#[trigger] vs[k])
}

pub open spec fn mat_in_range(m: Mat4) -> bool {
    &&& -COORD_LIMIT <= m.m00 <= COORD_LIMIT && -COORD_LIMIT <= m.m01 <= COORD_LIMIT
        && -COORD_LIMIT <= m.m02 <= COORD_LIMIT && -COORD_LIMIT <= m.m03 <= COORD_LIMIT
    &&& -COORD_LIMIT <= m.m10 <= COORD_LIMIT && -COORD_LIMIT <= m.m11 <= COORD_LIMIT
        && -COORD_LIMIT <= m.m12 <= COORD_LIMIT && -COORD_LIMIT <= m.m13 <= COORD_LIMIT
    &&& -COORD_LIMIT <= m.m20 <= COORD_LIMIT && -COORD_LIMIT <= m.m21 <= COORD_LIMIT
        && -COORD_LIMIT <= m.m22 <= COORD_LIMIT && -COORD_LIMIT <= m.m23 <= COORD_LIMIT
    &&& -COORD_LIMIT <= m.m30 <= COORD_LIMIT && -COORD_LIMIT <= m.m31 <= COORD_LIMIT
        && -COORD_LIMIT <= m.m32 <= COORD_LIMIT && -COORD_LIMIT <= m.m33 <= COORD_LIMIT
}

/// One row of the matrix applied to the homogeneous point `(p, 1)`.
/// Both factors carry the fixed-point scale, so one divide restores it.
pub open spec fn xform_row(a: int, b: int, c: int, d: int, p: Vec3) -> int {
    tdiv(a * p.x + b * p.y + c * p.z + d * FP_ONE, FP_ONE as int)
}

pub open spec fn xform_spec(m: Mat4, p: Vec3) -> Vertex {
    Vertex {
        x: xform_row(m.m00 as int, m.m01 as int, m.m02 as int, m.m03 as int, p) as i64,
        y: xform_row(m.m10 as int, m.m11 as int, m.m12 as int, m.m13 as int, p) as i64,
        z: xform_row(m.m20 as int, m.m21 as int, m.m22 as int, m.m23 as int, p) as i64,
        w: xform_row(m.m30 as int, m.m31 as int, m.m32 as int, m.m33 as int, p) as i64,
    }
}

fn xform_row_exec(a: i64, b: i64, c: i64, d: i64, p: &Vec3) -> (r: i64)
    requires
        coord_in_range(a as int),
        coord_in_range(b as int),
        coord_in_range(c as int),
        coord_in_range(d as int),
        vec3_in_range(*p),
    ensures
        r == xform_row(a as int, b as int, c as int, d as int, *p),
        -0x4000_0000_0000 <= r <= 0x4000_0000_0000,
{
    proof {
        lemma_mul_mag(a as int, p.x as int, COORD_LIMIT as int, COORD_LIMIT as int);
        lemma_mul_mag(b as int, p.y as int, COORD_LIMIT as int, COORD_LIMIT as int);
        lemma_mul_mag(c as int, p.z as int, COORD_LIMIT as int, COORD_LIMIT as int);
        lemma_mul_mag(d as int, FP_ONE as int, COORD_LIMIT as int, FP_ONE as int);
    }
    let sum: i128 = wide_mul(a, p.x) + wide_mul(b, p.y) + wide_mul(c, p.z) + wide_mul(d, FP_ONE);
    proof {
        lemma_tdiv_avg(sum as int, FP_ONE as int, 0x4000_0000_0000);
    }
    tdiv128(sum, FP_ONE as i128) as i64
}

/// Transforms a world point into clip space by the given fixed-point
/// view-projection matrix.
pub fn transform_point(m: &Mat4, p: &Vec3) -> (v: Vertex)
    requires
        mat_in_range(*m),
        vec3_in_range(*p),
    ensures
        v == xform_spec(*m, *p),
        vert_in_range(v),
{
    Vertex {
        x: xform_row_exec(m.m00, m.m01, m.m02, m.m03, p),
        y: xform_row_exec(m.m10, m.m11, m.m12, m.m13, p),
        z: xform_row_exec(m.m20, m.m21, m.m22, m.m23, p),
        w: xform_row_exec(m.m30, m.m31, m.m32, m.m33, p),
    }
}

/// The clip component selected by index 0, 1 or 2.
pub open spec fn comp_of(v: Vertex, c: int) -> int {
    if c == 0 {
        v.x as int
    } else if c == 1 {
        v.y as int
    } else {
        v.z as int
    }
}

/// Signed distance (up to scale) of the vertex from the half-space
/// boundary `component == compare * w`.
pub open spec fn plane_d(v: Vertex, c: int, cmp: int) -> int {
    comp_of(v, c) - cmp * v.w
}

/// The half-space test in homogeneous coordinates: `component <=
/// compare * w` for a "less" plane, `>=` for the other kind.
pub open spec fn inside_plane(v: Vertex, c: int, cmp: int, less: bool) -> bool {
    if less {
        plane_d(v, c, cmp) <= 0
    } else {
        plane_d(v, c, cmp) >= 0
    }
}

/// The interpolation parameter of the crossing point of edge
/// `prev -> cur` with the plane, in fixed-point units.
pub open spec fn clip_t(p: Vertex, q: Vertex, c: int, cmp: int) -> int {
    tdiv(
        (cmp * p.w - comp_of(p, c)) * FP_ONE,
        (comp_of(q, c) - comp_of(p, c)) - cmp * (q.w - p.w),
    )
}

pub open spec fn lerp_c(a: int, b: int, t: int) -> int {
    a + tdiv((b - a) * t, FP_ONE as int)
}

/// The vertex where edge `p -> q` crosses the plane: each component
/// blended by the crossing parameter.
pub open spec fn intersect_spec(p: Vertex, q: Vertex, c: int, cmp: int) -> Vertex {
    let t = clip_t(p, q, c, cmp);
    Vertex {
        x: lerp_c(p.x as int, q.x as int, t) as i64,
        y: lerp_c(p.y as int, q.y as int, t) as i64,
        z: lerp_c(p.z as int, q.z as int, t) as i64,
        w: lerp_c(p.w as int, q.w as int, t) as i64,
    }
}

/// What the clip pass emits for the edge ending at vertex `i`: the
/// crossing point when the edge crosses the plane, and the vertex
/// itself when it is inside.
pub open spec fn clip_contrib(vs: Seq<Vertex>, i: int, c: int, cmp: int, less: bool) -> Seq<
    Vertex,
> {
    let cur = vs[i];
    let prev = vs[if i == 0 {
        vs.len() - 1
    } else {
        i - 1
    }];
    if inside_plane(cur, c, cmp, less) {
        if !inside_plane(prev, c, cmp, less) {
            seq![intersect_spec(prev, cur, c, cmp), cur]
        } else {
            seq![cur]
        }
    } else if inside_plane(prev, c, cmp, less) {
        seq![intersect_spec(prev, cur, c, cmp)]
    } else {
        Seq::empty()
    }
}

pub open spec fn clip_pass_upto(vs: Seq<Vertex>, c: int, cmp: int, less: bool, n: int) -> Seq<
    Vertex,
>
    decreases n,
{
    if n <= 0 {
        Seq::empty()
    } else {
        clip_pass_upto(vs, c, cmp, less, n - 1) + clip_contrib(vs, n - 1, c, cmp, less)
    }
}

/// One full Sutherland-Hodgman pass of the polygon against one plane.
pub open spec fn clip_pass(vs: Seq<Vertex>, c: int, cmp: int, less: bool) -> Seq<Vertex> {
    clip_pass_upto(vs, c, cmp, less, vs.len() as int)
}

/// The edge `p -> q` straddles or touches the plane without lying in
/// it: the two signed distances bracket zero and are not both zero.
pub open spec fn edge_crosses(p: Vertex, q: Vertex, c: int, cmp: int) -> bool {
    let dp = plane_d(p, c, cmp);
    let dc = plane_d(q, c, cmp);
    (dp <= 0 <= dc || dc <= 0 <= dp) && !(dp == 0 && dc == 0)
}

/// The crossing parameter of a crossing edge is a valid blend weight:
/// it lies in `[0, FP_ONE]`, so the blended vertex lies between the
/// edge's endpoints, component for component.
pub proof fn lemma_clip_t_range(p: Vertex, q: Vertex, c: int, cmp: int)
    requires
        edge_crosses(p, q, c, cmp),
    ensures
        0 <= clip_t(p, q, c, cmp) <= FP_ONE,
{
    let dp = plane_d(p, c, cmp);
    let dc = plane_d(q, c, cmp);
    assert((cmp * p.w - comp_of(p, c)) == -dp);
    assert((comp_of(q, c) - comp_of(p, c)) - cmp * (q.w - p.w) == dc - dp) by (nonlinear_arith)
        requires
            dc == comp_of(q, c) - cmp * q.w,
            dp == comp_of(p, c) - cmp * p.w,
    ;
    if dp <= 0 <= dc {
        crate::vecs::lemma_tdiv_frac(-dp, dc - dp, FP_ONE as int);
        assert((-dp) * FP_ONE == -(dp * FP_ONE)) by (nonlinear_arith);
    } else {
        crate::vecs::lemma_tdiv_frac(dp, dp - dc, FP_ONE as int);
        assert((-dp) * FP_ONE == -(dp * FP_ONE)) by (nonlinear_arith);
    }
}

/// Computes the crossing vertex of an edge that straddles the plane.
fn intersect_vertex(prev: &Vertex, cur: &Vertex, component: usize, compare: i64) -> (v: Vertex)
    requires
        component < 3,
        -1 <= compare <= 1,
        vert_in_range(*prev),
        vert_in_range(*cur),
        edge_crosses(*prev, *cur, component as int, compare as int),
    ensures
        v == intersect_spec(*prev, *cur, component as int, compare as int),
        vert_in_range(v),
{
    let ghost c = component as int;
    let ghost m = compare as int;
    let ghost dp = plane_d(*prev, c, m);
    let ghost dc = plane_d(*cur, c, m);
    let pc: i128 = if component == 0 {
        prev.x as i128
    } else if component == 1 {
        prev.y as i128
    } else {
        prev.z as i128
    };
    let cc: i128 = if component == 0 {
        cur.x as i128
    } else if component == 1 {
        cur.y as i128
    } else {
        cur.z as i128
    };
    let mpw: i128 = wide_mul(compare, prev.w);
    let mdw: i128 = wide_mul(compare, cur.w - prev.w);
    proof {
        lemma_mul_mag(compare as int, prev.w as int, 1, VERT_LIMIT as int);
        lemma_mul_mag(compare as int, (cur.w - prev.w) as int, 1, 2 * VERT_LIMIT as int);
        assert((compare as int) * (cur.w - prev.w) == (compare as int) * cur.w - (compare as int)
            * prev.w) by (nonlinear_arith);
    }
    let num0: i128 = mpw - pc;
    let denom: i128 = (cc - pc) - mdw;
    proof {
        assert(num0 == -dp);
        assert(denom == dc - dp);
        lemma_mul_mag(num0 as int, FP_ONE as int, 0x4000_0000_0000_0000_0000, FP_ONE as int);
    }
    let num: i128 = wide_mul128(num0, FP_ONE);
    let t: i128 = tdiv128(num, denom);
    proof {
        assert(t == clip_t(*prev, *cur, c, m));
        lemma_clip_t_range(*prev, *cur, c, m);
    }
    let t64: i64 = t as i64;
    let vx = lerp_exec(prev.x, cur.x, t64);
    let vy = lerp_exec(prev.y, cur.y, t64);
    let vz = lerp_exec(prev.z, cur.z, t64);
    let vw = lerp_exec(prev.w, cur.w, t64);
    Vertex { x: vx, y: vy, z: vz, w: vw }
}

/// Blends one component by the fixed-point parameter `t`; the result
/// stays between the endpoints.
fn lerp_exec(a: i64, b: i64, t: i64) -> (r: i64)
    requires
        -VERT_LIMIT <= a <= VERT_LIMIT,
        -VERT_LIMIT <= b <= VERT_LIMIT,
        0 <= t <= FP_ONE,
    ensures
        r == lerp_c(a as int, b as int, t as int),
        -VERT_LIMIT <= r <= VERT_LIMIT,
{
    proof {
        lemma_mul_mag((b - a) as int, t as int, 2 * VERT_LIMIT as int, FP_ONE as int);
        lemma_tdiv_interp((b - a) as int, t as int, FP_ONE as int);
    }
    let diff: i128 = (b as i128) - (a as i128);
    let q = tdiv128(wide_mul128(diff, t), FP_ONE as i128);
    (a as i128 + q) as i64
}

/// Clips the polygon against one frustum half-space, walking the edges
/// and emitting inside vertices and crossing points.
pub fn clip_against_plane(
    vertices: &Vec<Vertex>,
    component: usize,
    compare: i64,
    less_than: bool,
) -> (out: Vec<Vertex>)
    requires
        component < 3,
        -1 <= compare <= 1,
        all_verts_in_range(vertices@),
    ensures
        out@ == clip_pass(vertices@, component as int, compare as int, less_than),
        all_verts_in_range(out@),
{
    let mut output: Vec<Vertex> = Vec::new();
    let n = vertices.len();
    let mut i: usize = 0;
    #[verifier::loop_isolation(false)]
    while i < n
        invariant
            0 <= i <= n,
            output@ == clip_pass_upto(
                vertices@,
                component as int,
                compare as int,
                less_than,
                i as int,
            ),
            all_verts_in_range(output@),
        decreases n - i,
    {
        let current = vertices[i];
        let prev = vertices[if i == 0 {
            n - 1
        } else {
            i - 1
        }];
        let current_inside = vertex_inside(&current, component, compare, less_than);
        let prev_inside = vertex_inside(&prev, component, compare, less_than);

        if current_inside {
            if !prev_inside {
                let intersection = intersect_vertex(&prev, &current, component, compare);
                output.push(intersection);
            }
            output.push(current);
        } else if prev_inside {
            let intersection = intersect_vertex(&prev, &current, component, compare);
            output.push(intersection);
        }
        i = i + 1;
    }
    output
}

/// The polygon clipped against all six frustum half-spaces in order:
/// `x >= -w`, `x <= w`, `y >= -w`, `y <= w`, `z >= 0`, `z <= w`.
pub open spec fn clip_frustum(vs: Seq<Vertex>) -> Seq<Vertex> {
    clip_pass(
        clip_pass(
            clip_pass(
                clip_pass(clip_pass(clip_pass(vs, 0, -1, false), 0, 1, true), 1, -1, false),
                1,
                1,
                true,
            ),
            2,
            0,
            false,
        ),
        2,
        1,
        true,
    )
}

/// Clips the polygon against all six frustum planes in turn.
pub fn clip_polygon(vertices: &Vec<Vertex>) -> (out: Vec<Vertex>)
    requires
        all_verts_in_range(vertices@),
    ensures
        out@ == clip_frustum(vertices@),
        all_verts_in_range(out@),
{
    let c1 = clip_against_plane(vertices, 0, -1, false);
    let c2 = clip_against_plane(&c1, 0, 1, true);
    let c3 = clip_against_plane(&c2, 1, -1, false);
    let c4 = clip_against_plane(&c3, 1, 1, true);
    let c5 = clip_against_plane(&c4, 2, 0, false);
    clip_against_plane(&c5, 2, 1, true)
}

pub open spec fn all_inside(vs: Seq<Vertex>, c: int, cmp: int, less: bool) -> bool {
    forall|k: int| 0 <= k < vs.len() ==> inside_plane(#[trigger] vs[k], c, cmp, less)
}

pub open spec fn all_outside(vs: Seq<Vertex>, c: int, cmp: int, less: bool) -> bool {
    forall|k: int| 0 <= k < vs.len() ==> !inside_plane(#[trigger] vs[k], c, cmp, less)
}

proof fn lemma_clip_upto_inside(vs: Seq<Vertex>, c: int, cmp: int, less: bool, n: int)
    requires
        all_inside(vs, c, cmp, less),
        0 <= n <= vs.len(),
    ensures
        clip_pass_upto(vs, c, cmp, less, n) == vs.take(n),
    decreases n,
{
    if n > 0 {
        lemma_clip_upto_inside(vs, c, cmp, less, n - 1);
        assert(clip_contrib(vs, n - 1, c, cmp, less) == seq![vs[n - 1]]);
        assert(vs.take(n) =~= vs.take(n - 1) + seq![vs[n - 1]]);
    } else {
        assert(vs.take(0) =~= Seq::<Vertex>::empty());
    }
}

/// A polygon lying entirely inside a half-space passes through that
/// clip pass unchanged.
pub proof fn lemma_clip_pass_inside(vs: Seq<Vertex>, c: int, cmp: int, less: bool)
    requires
        all_inside(vs, c, cmp, less),
    ensures
        clip_pass(vs, c, cmp, less) == vs,
{
    lemma_clip_upto_inside(vs, c, cmp, less, vs.len() as int);
    assert(vs.take(vs.len() as int) =~= vs);
}

proof fn lemma_clip_upto_outside(vs: Seq<Vertex>, c: int, cmp: int, less: bool, n: int)
    requires
        all_outside(vs, c, cmp, less),
        0 <= n <= vs.len(),
    ensures
        clip_pass_upto(vs, c, cmp, less, n) == Seq::<Vertex>::empty(),
    decreases n,
{
    if n > 0 {
        lemma_clip_upto_outside(vs, c, cmp, less, n - 1);
        assert(clip_contrib(vs, n - 1, c, cmp, less) == Seq::<Vertex>::empty());
        assert(Seq::<Vertex>::empty() + Seq::<Vertex>::empty() =~= Seq::<Vertex>::empty());
    }
}

/// A polygon lying entirely (strictly) outside a half-space is wiped
/// out by that clip pass: one fully-outside plane empties the polygon.
pub proof fn lemma_clip_pass_outside(vs: Seq<Vertex>, c: int, cmp: int, less: bool)
    requires
        all_outside(vs, c, cmp, less),
    ensures
        clip_pass(vs, c, cmp, less) == Seq::<Vertex>::empty(),
{
    lemma_clip_upto_outside(vs, c, cmp, less, vs.len() as int);
}

/// A polygon fully inside the frustum — inside all six half-spaces —
/// comes out of the whole clipping chain unchanged.
pub proof fn lemma_clip_frustum_inside(vs: Seq<Vertex>)
    requires
        all_inside(vs, 0, -1, false),
        all_inside(vs, 0, 1, true),
        all_inside(vs, 1, -1, false),
        all_inside(vs, 1, 1, true),
        all_inside(vs, 2, 0, false),
        all_inside(vs, 2, 1, true),
    ensures
        clip_frustum(vs) == vs,
{
    lemma_clip_pass_inside(vs, 0, -1, false);
    lemma_clip_pass_inside(vs, 0, 1, true);
    lemma_clip_pass_inside(vs, 1, -1, false);
    lemma_clip_pass_inside(vs, 1, 1, true);
    lemma_clip_pass_inside(vs, 2, 0, false);
    lemma_clip_pass_inside(vs, 2, 1, true);
}

/// A polygon fully outside the first frustum plane (`x < -w`
/// throughout) is emptied by the chain: the first pass wipes it and
/// the later passes keep nothing to work on.
pub proof fn lemma_clip_frustum_outside_first(vs: Seq<Vertex>)
    requires
        all_outside(vs, 0, -1, false),
    ensures
        clip_frustum(vs) == Seq::<Vertex>::empty(),
{
    lemma_clip_pass_outside(vs, 0, -1, false);
    let e = Seq::<Vertex>::empty();
    assert(clip_pass(e, 0, 1, true) == e);
    assert(clip_pass(e, 1, -1, false) == e);
    assert(clip_pass(e, 1, 1, true) == e);
    assert(clip_pass(e, 2, 0, false) == e);
    assert(clip_pass(e, 2, 1, true) == e);
}

/// A clip pass never moves a vertex's z outside the range its edge's
/// endpoints span: an emitted vertex is an input vertex, or a blend of
/// two whose weight is a valid fraction. So a polygon whose vertices
/// all have strictly negative z keeps that through the pass.
proof fn lemma_contrib_behind(vs: Seq<Vertex>, i: int, c: int, cmp: int, less: bool)
    requires
        all_behind(vs),
        0 <= i < vs.len(),
    ensures
        all_behind(clip_contrib(vs, i, c, cmp, less)),
{
    let cur = vs[i];
    let prev = vs[if i == 0 {
        vs.len() - 1
    } else {
        i - 1
    }];
    if inside_plane(cur, c, cmp, less) != inside_plane(prev, c, cmp, less) {
        assert(edge_crosses(prev, cur, c, cmp));
        lemma_clip_t_range(prev, cur, c, cmp);
        let t = clip_t(prev, cur, c, cmp);
        crate::vecs::lemma_tdiv_interp((cur.z - prev.z) as int, t, FP_ONE as int);
        assert(lerp_c(prev.z as int, cur.z as int, t) < 0);
    }
}

proof fn lemma_clip_upto_behind(vs: Seq<Vertex>, c: int, cmp: int, less: bool, n: int)
    requires
        all_behind(vs),
        0 <= n <= vs.len(),
    ensures
        all_behind(clip_pass_upto(vs, c, cmp, less, n)),
    decreases n,
{
    if n > 0 {
        lemma_clip_upto_behind(vs, c, cmp, less, n - 1);
        lemma_contrib_behind(vs, n - 1, c, cmp, less);
    }
}

/// One clip pass keeps a wholly-behind polygon wholly behind.
pub proof fn lemma_clip_pass_behind(vs: Seq<Vertex>, c: int, cmp: int, less: bool)
    requires
        all_behind(vs),
    ensures
        all_behind(clip_pass(vs, c, cmp, less)),
{
    lemma_clip_upto_behind(vs, c, cmp, less, vs.len() as int);
}

/// A polygon wholly behind the camera (every clip z strictly negative)
/// is emptied by the clipping chain: the first four passes cannot pull
/// any z forward, and the `z >= 0` pass then wipes the polygon. The
/// renderer's cheap early-out for such polygons is therefore exact.
pub proof fn lemma_clip_frustum_behind(vs: Seq<Vertex>)
    requires
        all_behind(vs),
    ensures
        clip_frustum(vs) == Seq::<Vertex>::empty(),
{
    lemma_clip_pass_behind(vs, 0, -1, false);
    let v1 = clip_pass(vs, 0, -1, false);
    lemma_clip_pass_behind(v1, 0, 1, true);
    let v2 = clip_pass(v1, 0, 1, true);
    lemma_clip_pass_behind(v2, 1, -1, false);
    let v3 = clip_pass(v2, 1, -1, false);
    lemma_clip_pass_behind(v3, 1, 1, true);
    let v4 = clip_pass(v3, 1, 1, true);
    assert(all_outside(v4, 2, 0, false));
    lemma_clip_pass_outside(v4, 2, 0, false);
    assert(clip_pass(Seq::<Vertex>::empty(), 2, 1, true) == Seq::<Vertex>::empty());
}

/// The screen point of an NDC point, in fixed screen units of
/// `1 / (2 * FP_ONE)` pixel: x is mirrored, y is not.
pub open spec fn ndc_to_screen_spec(nx: int, ny: int, w: int, h: int) -> Vec2 {
    Vec2 { x: ((FP_ONE - nx) * w) as i64, y: ((ny + FP_ONE) * h) as i64 }
}

/// Maps a normalized-device-coordinate point to screen space:
/// `screen_x = (1 - ndc_x) / 2 * width` and `screen_y = (ndc_y + 1) /
/// 2 * height`, carried exactly in units of half a pixel per `FP_ONE`.
pub fn ndc_to_screen(ndc_x: i64, ndc_y: i64, width: i64, height: i64) -> (r: Vec2)
    requires
        -4 * FP_ONE <= ndc_x <= 4 * FP_ONE,
        -4 * FP_ONE <= ndc_y <= 4 * FP_ONE,
        0 <= width <= 16384,
        0 <= height <= 16384,
    ensures
        r == ndc_to_screen_spec(ndc_x as int, ndc_y as int, width as int, height as int),
        r.x == (FP_ONE - ndc_x) * width,
        r.y == (ndc_y + FP_ONE) * height,
{
    proof {
        lemma_mul_mag((FP_ONE - ndc_x) as int, width as int, 5 * FP_ONE as int, 16384);
        lemma_mul_mag((ndc_y + FP_ONE) as int, height as int, 5 * FP_ONE as int, 16384);
    }
    Vec2 { x: (FP_ONE - ndc_x) * width, y: (ndc_y + FP_ONE) * height }
}

/// Recovers the NDC point from a screen point produced by
/// [`ndc_to_screen`]: the exact inverse mapping.
pub fn screen_to_ndc(s: &Vec2, width: i64, height: i64) -> (r: (i64, i64))
    requires
        0 < width <= 16384,
        0 < height <= 16384,
        -0x1_0000_0000_0000 <= s.x <= 0x1_0000_0000_0000,
        -0x1_0000_0000_0000 <= s.y <= 0x1_0000_0000_0000,
    ensures
        r.0 == FP_ONE - tdiv(s.x as int, width as int),
        r.1 == tdiv(s.y as int, height as int) - FP_ONE,
{
    proof {
        lemma_tdiv_mag(s.x as int, width as int, 0x1_0000_0000_0000);
        lemma_tdiv_mag(s.y as int, height as int, 0x1_0000_0000_0000);
    }
    (FP_ONE - s.x / width, s.y / height - FP_ONE)
}

/// Round trip of the NDC/screen mapping: for every NDC point in the
/// `[-1, 1]` square and every positive screen size, mapping to screen
/// space and back recovers the point exactly.
pub proof fn lemma_screen_ndc_round_trip(nx: int, ny: int, w: int, h: int)
    requires
        -FP_ONE <= nx <= FP_ONE,
        -FP_ONE <= ny <= FP_ONE,
        0 < w <= 16384,
        0 < h <= 16384,
    ensures
        FP_ONE - tdiv(ndc_to_screen_spec(nx, ny, w, h).x as int, w) == nx,
        tdiv(ndc_to_screen_spec(nx, ny, w, h).y as int, h) - FP_ONE == ny,
{
    let a = FP_ONE - nx;
    let b = ny + FP_ONE;
    lemma_mul_mag(a, w, 2 * FP_ONE as int, 16384);
    lemma_mul_mag(b, h, 2 * FP_ONE as int, 16384);
    assert(a * w >= 0 && b * h >= 0) by (nonlinear_arith)
        requires
            a >= 0,
            b >= 0,
            w > 0,
            h > 0,
    ;
    assert(a * w == w * a && b * h == h * b) by (nonlinear_arith);
    vstd::arithmetic::div_mod::lemma_div_by_multiple(a, w);
    vstd::arithmetic::div_mod::lemma_div_by_multiple(b, h);
}

/// The perspective divide of one component, in fixed-point units.
pub open spec fn ndc_of(a: int, w: int) -> int {
    tdiv(a * FP_ONE, w)
}

/// What projecting a single world point yields: `None` behind the
/// camera (negative clip z), at a degenerate `w`, or when the divided
/// point lands far outside the NDC cube; otherwise the screen point.
pub open spec fn project_point_spec(p: Vec3, m: Mat4, w: int, h: int) -> Option<Vec2> {
    let cv = xform_spec(m, p);
    if cv.z < 0 {
        None
    } else if cv.w == 0 {
        None
    } else {
        let nx = ndc_of(cv.x as int, cv.w as int);
        let ny = ndc_of(cv.y as int, cv.w as int);
        if -4 * FP_ONE <= nx <= 4 * FP_ONE && -4 * FP_ONE <= ny <= 4 * FP_ONE {
            Some(ndc_to_screen_spec(nx, ny, w, h))
        } else {
            None
        }
    }
}

/// Projects one world point without clipping, used for the skybox
/// horizon. A point behind the camera (negative view-space z) is
/// always rejected.
pub fn project_point(point: &Vec3, vp: &Mat4, width: i64, height: i64) -> (r: Option<Vec2>)
    requires
        mat_in_range(*vp),
        vec3_in_range(*point),
        0 <= width <= 16384,
        0 <= height <= 16384,
    ensures
        r == project_point_spec(*point, *vp, width as int, height as int),
        xform_spec(*vp, *point).z < 0 ==> r is None,
        r matches Some(s) ==> -0x4000_0000_0000 <= s.x <= 0x4000_0000_0000 && -0x4000_0000_0000
            <= s.y <= 0x4000_0000_0000,
{
    let clip = transform_point(vp, point);
    if clip.z < 0 {
        return None;
    }
    if clip.w == 0 {
        return None;
    }
    let nx128 = tdiv128(wide_mul(clip.x, FP_ONE), clip.w as i128);
    let ny128 = tdiv128(wide_mul(clip.y, FP_ONE), clip.w as i128);
    proof {
        lemma_mul_mag(clip.x as int, FP_ONE as int, VERT_LIMIT as int, FP_ONE as int);
        lemma_mul_mag(clip.y as int, FP_ONE as int, VERT_LIMIT as int, FP_ONE as int);
    }
    if -4 * (FP_ONE as i128) <= nx128 && nx128 <= 4 * (FP_ONE as i128) && -4 * (FP_ONE as i128)
        <= ny128 && ny128 <= 4 * (FP_ONE as i128) {
        proof {
            lemma_mul_mag((FP_ONE - nx128) as int, width as int, 327680, 16384);
            lemma_mul_mag((ny128 + FP_ONE) as int, height as int, 327680, 16384);
        }
        Some(ndc_to_screen(nx128 as i64, ny128 as i64, width, height))
    } else {
        None
    }
}

/// The whole world polygon carried into clip space, in order.
pub open spec fn xformed(world: Seq<Vec3>, m: Mat4) -> Seq<Vertex>
    decreases world.len(),
{
    if world.len() == 0 {
        Seq::empty()
    } else {
        xformed(world.drop_last(), m) + seq![xform_spec(m, world.last())]
    }
}

pub open spec fn all_behind(vs: Seq<Vertex>) -> bool {
    forall|k: int| 0 <= k < vs.len() ==> (#[trigger] vs[k]).z < 0
}

/// The screen point of one clipped vertex, or `None` at a
/// non-positive `w` or an NDC point far outside the cube.
pub open spec fn project_vert(v: Vertex, w: int, h: int) -> Option<Vec2> {
    if v.w > 0 {
        let nx = ndc_of(v.x as int, v.w as int);
        let ny = ndc_of(v.y as int, v.w as int);
        if -4 * FP_ONE <= nx <= 4 * FP_ONE && -4 * FP_ONE <= ny <= 4 * FP_ONE {
            Some(ndc_to_screen_spec(nx, ny, w, h))
        } else {
            None
        }
    } else {
        None
    }
}

/// The screen polygon of the clipped vertices, keeping projectable
/// ones in order.
pub open spec fn project_clipped(vs: Seq<Vertex>, w: int, h: int) -> Seq<Vec2>
    decreases vs.len(),
{
    if vs.len() == 0 {
        Seq::empty()
    } else {
        project_clipped(vs.drop_last(), w, h) + (match project_vert(vs.last(), w, h) {
            Some(p) => seq![p],
            None => Seq::empty(),
        })
    }
}

/// What projecting a whole polygon yields: the transformed vertices,
/// rejected outright when every one lies behind the camera, otherwise
/// clipped against the frustum and perspective-divided to screen
/// space.
pub open spec fn clip_project_spec(world: Seq<Vec3>, m: Mat4, w: int, h: int) -> Seq<Vec2> {
    let cvs = xformed(world, m);
    if all_behind(cvs) {
        Seq::empty()
    } else {
        project_clipped(clip_frustum(cvs), w, h)
    }
}

/// Takes a 3D polygon through the full pipeline — clip-space
/// transform, early reject when wholly behind the camera, frustum
/// clipping, perspective divide, screen mapping — and returns the 2D
/// screen polygon. Callers discard results with fewer than 3 points.
pub fn clip_and_project_polygon(
    world_vertices: &Vec<Vec3>,
    vp: &Mat4,
    width: i64,
    height: i64,
) -> (r: Vec<Vec2>)
    requires
        mat_in_range(*vp),
        forall|k: int|
            0 <= k < world_vertices@.len() ==> vec3_in_range(#[trigger] world_vertices@[k]),
        0 <= width <= 16384,
        0 <= height <= 16384,
    ensures
        r@ == clip_project_spec(world_vertices@, *vp, width as int, height as int),
        forall|k: int|
            0 <= k < r@.len() ==> -0x4000_0000_0000 <= (#[trigger] r@[k]).x <= 0x4000_0000_0000
                && -0x4000_0000_0000 <= r@[k].y <= 0x4000_0000_0000,
{
    let mut clip_vertices: Vec<Vertex> = Vec::new();
    let n = world_vertices.len();
    let mut i: usize = 0;
    #[verifier::loop_isolation(false)]
    while i < n
        invariant
            0 <= i <= n,
            clip_vertices@ == xformed(world_vertices@.subrange(0, i as int), *vp),
            all_verts_in_range(clip_vertices@),
        decreases n - i,
    {
        proof {
            assert(world_vertices@.subrange(0, (i + 1) as int).drop_last()
                =~= world_vertices@.subrange(0, i as int));
        }
        let v = transform_point(vp, &world_vertices[i]);
        clip_vertices.push(v);
        i = i + 1;
    }
    proof {
        assert(world_vertices@.subrange(0, n as int) =~= world_vertices@);
    }

    let mut behind = true;
    let mut j: usize = 0;
    #[verifier::loop_isolation(false)]
    while j < clip_vertices.len()
        invariant
            0 <= j <= clip_vertices@.len(),
            behind == (forall|k: int| 0 <= k < j ==> (#[trigger] clip_vertices@[k]).z < 0),
        decreases clip_vertices@.len() - j,
    {
        if clip_vertices[j].z >= 0 {
            behind = false;
        }
        j = j + 1;
    }
    if behind {
        return Vec::new();
    }

    let clipped = clip_polygon(&clip_vertices);

    let mut out: Vec<Vec2> = Vec::new();
    let m = clipped.len();
    let mut k: usize = 0;
    #[verifier::loop_isolation(false)]
    while k < m
        invariant
            0 <= k <= m,
            out@ == project_clipped(
                clipped@.subrange(0, k as int),
                width as int,
                height as int,
            ),
            forall|j: int|
                0 <= j < out@.len() ==> -0x4000_0000_0000 <= (#[trigger] out@[j]).x
                    <= 0x4000_0000_0000 && -0x4000_0000_0000 <= out@[j].y <= 0x4000_0000_0000,
        decreases m - k,
    {
        proof {
            assert(clipped@.subrange(0, (k + 1) as int).drop_last() =~= clipped@.subrange(
                0,
                k as int,
            ));
        }
        let v = clipped[k];
        if v.w > 0 {
            let nx128 = tdiv128(wide_mul(v.x, FP_ONE), v.w as i128);
            let ny128 = tdiv128(wide_mul(v.y, FP_ONE), v.w as i128);
            proof {
                lemma_mul_mag(v.x as int, FP_ONE as int, VERT_LIMIT as int, FP_ONE as int);
                lemma_mul_mag(v.y as int, FP_ONE as int, VERT_LIMIT as int, FP_ONE as int);
            }
            if -4 * (FP_ONE as i128) <= nx128 && nx128 <= 4 * (FP_ONE as i128) && -4 * (
            FP_ONE as i128) <= ny128 && ny128 <= 4 * (FP_ONE as i128) {
                proof {
                    lemma_mul_mag((FP_ONE - nx128) as int, width as int, 327680, 16384);
                    lemma_mul_mag((ny128 + FP_ONE) as int, height as int, 327680, 16384);
                }
                let s = ndc_to_screen(nx128 as i64, ny128 as i64, width, height);
                out.push(s);
            }
        }
        k = k + 1;
    }
    proof {
        assert(clipped@.subrange(0, m as int) =~= clipped@);
    }
    out
}

/// Converts a fixed-point screen coordinate pair to integer pixels by
/// truncation (two `FP_ONE` units to the pixel).
pub fn screen_to_pixel(s: &Vec2) -> (r: (i32, i32))
    requires
        -0x4000_0000_0000 <= s.x <= 0x4000_0000_0000,
        -0x4000_0000_0000 <= s.y <= 0x4000_0000_0000,
    ensures
        r.0 == tdiv(s.x as int, 2 * FP_ONE as int),
        r.1 == tdiv(s.y as int, 2 * FP_ONE as int),
        -crate::raster::LINE_LIMIT <= r.0 <= crate::raster::LINE_LIMIT,
        -crate::raster::LINE_LIMIT <= r.1 <= crate::raster::LINE_LIMIT,
{
    proof {
        lemma_tdiv_avg(s.x as int, 2 * FP_ONE as int, crate::raster::LINE_LIMIT as int);
        lemma_tdiv_avg(s.y as int, 2 * FP_ONE as int, crate::raster::LINE_LIMIT as int);
    }
    ((s.x / (2 * FP_ONE)) as i32, (s.y / (2 * FP_ONE)) as i32)
}

/// Evaluates the homogeneous half-space test for one vertex.
fn vertex_inside(v: &Vertex, component: usize, compare: i64, less_than: bool) -> (r: bool)
    requires
        component < 3,
        -1 <= compare <= 1,
        vert_in_range(*v),
    ensures
        r == inside_plane(*v, component as int, compare as int, less_than),
{
    let c: i128 = if component == 0 {
        v.x as i128
    } else if component == 1 {
        v.y as i128
    } else {
        v.z as i128
    };
    let rhs: i128 = wide_mul(compare, v.w);
    if less_than {
        c <= rhs
    } else {
        c >= rhs
    }
}

} // verus!
