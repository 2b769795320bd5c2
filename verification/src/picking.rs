//! Exact two-phase ray picking.
//!
//! Broad phase: a world-space axis-aligned bounding box per node,
//! tested with the slab method. Narrow phase: Moller-Trumbore
//! ray-triangle intersection with backface culling. All parametric
//! distances are exact rationals; the near-parallel guards of the
//! floating-point formulation become exact zero tests, and a
//! coordinate bound (`PICK_MAX`) keeps every product inside `i64`.

use vstd::prelude::*;
use vstd::arithmetic::div_mod::lemma_fundamental_div_mod;
use crate::fixed::{lemma_mul_bounds, tdiv, tdiv_pos};
use crate::mat4::Mat4;
use crate::mesh::Mesh;
use crate::node::SceneNode;
use crate::rat::{rat_le, rat_lt, Rat};
use crate::scene::{spec_world_mat, Scene};
use crate::vec3::Vec3;

verus! {

/// Largest coordinate magnitude (fixed-point subunits) the picking
/// arithmetic accepts without overflowing 64-bit intermediates.
pub const PICK_MAX: i64 = 0x8_0000;

/// All components small enough for exact picking arithmetic.
pub open spec fn in_pick_range(v: Vec3) -> bool {
    &&& -PICK_MAX <= v.x <= PICK_MAX
    &&& -PICK_MAX <= v.y <= PICK_MAX
    &&& -PICK_MAX <= v.z <= PICK_MAX
}

/// A world-space axis-aligned bounding box.
#[derive(Clone, Copy, Debug, PartialEq, Eq, Structural)]
pub struct AABB {
    pub min: Vec3,
    pub max: Vec3,
}

/// The box grown to contain one more point (componentwise min/max).
pub open spec fn spec_aabb_extend(bb: AABB, p: Vec3) -> AABB {
    AABB {
        min: Vec3 {
            x: if p.x < bb.min.x { p.x } else { bb.min.x },
            y: if p.y < bb.min.y { p.y } else { bb.min.y },
            z: if p.z < bb.min.z { p.z } else { bb.min.z },
        },
        max: Vec3 {
            x: if p.x > bb.max.x { p.x } else { bb.max.x },
            y: if p.y > bb.max.y { p.y } else { bb.max.y },
            z: if p.z > bb.max.z { p.z } else { bb.max.z },
        },
    }
}

/// The box of the first `k` vertices transformed into world space
/// (`k >= 1`).
pub open spec fn spec_aabb_fold(vs: Seq<Vec3>, m: Mat4, k: int) -> AABB
    decreases k,
{
    if k <= 1 {
        AABB {
            min: Mat4::spec_transform_point(m, vs[0]),
            max: Mat4::spec_transform_point(m, vs[0]),
        }
    } else {
        spec_aabb_extend(spec_aabb_fold(vs, m, k - 1), Mat4::spec_transform_point(m, vs[k - 1]))
    }
}

/// The world-space bounding box of a mesh under a transform; an empty
/// mesh gets the degenerate box at the origin.
pub open spec fn spec_node_aabb(vs: Seq<Vec3>, m: Mat4) -> AABB {
    if vs.len() == 0 {
        AABB { min: Vec3 { x: 0i64, y: 0i64, z: 0i64 }, max: Vec3 { x: 0i64, y: 0i64, z: 0i64 } }
    } else {
        spec_aabb_fold(vs, m, vs.len() as int)
    }
}

/// If every transformed vertex lies in picking range, so does the box.
pub proof fn lemma_aabb_fold_in_range(vs: Seq<Vec3>, m: Mat4, k: int)
    requires
        1 <= k <= vs.len(),
        forall|j: int|
            0 <= j < k ==> in_pick_range(#[trigger] Mat4::spec_transform_point(m, vs[j])),
    ensures
        in_pick_range(spec_aabb_fold(vs, m, k).min),
        in_pick_range(spec_aabb_fold(vs, m, k).max),
    decreases k,
{
    if k > 1 {
        lemma_aabb_fold_in_range(vs, m, k - 1);
    }
}

/// Compute the world-space bounding box of a mesh: transform every
/// vertex and take per-axis minima and maxima.
pub fn compute_node_aabb(vertices: &Vec<Vec3>, transform_matrix: &Mat4) -> (bb: AABB)
    requires
        transform_matrix.wf(),
        forall|j: int| 0 <= j < vertices@.len() ==> (#[trigger] vertices@[j]).wf(),
    ensures
        bb == spec_node_aabb(vertices@, *transform_matrix),
{
    if vertices.len() == 0 {
        return AABB { min: Vec3::zero(), max: Vec3::zero() };
    }
    let first = transform_matrix.transform_point(vertices[0]);
    let mut bb = AABB { min: first, max: first };
    let n = vertices.len();
    for i in 1..n
        invariant
            transform_matrix.wf(),
            n == vertices@.len(),
            1 <= i <= n,
            forall|j: int| 0 <= j < vertices@.len() ==> (#[trigger] vertices@[j]).wf(),
            bb == spec_aabb_fold(vertices@, *transform_matrix, i as int),
    {
        let p = transform_matrix.transform_point(vertices[i]);
        bb = AABB {
            min: Vec3 {
                x: if p.x < bb.min.x { p.x } else { bb.min.x },
                y: if p.y < bb.min.y { p.y } else { bb.min.y },
                z: if p.z < bb.min.z { p.z } else { bb.min.z },
            },
            max: Vec3 {
                x: if p.x > bb.max.x { p.x } else { bb.max.x },
                y: if p.y > bb.max.y { p.y } else { bb.max.y },
                z: if p.z > bb.max.z { p.z } else { bb.max.z },
            },
        };
    }
    bb
}

/// What one slab (axis) contributes to a ray-box test: a definite miss,
/// no constraint (parallel ray inside the slab), or an entry/exit
/// parameter interval.
pub enum SlabAxis {
    Miss,
    Free,
    Range(Rat, Rat),
}

/// One axis of the slab test, exactly: a ray parallel to the slab
/// (zero direction component) misses unless its origin lies inside;
/// otherwise the entry/exit parameters are `(lo - o) / d` and
/// `(hi - o) / d`, ordered, with positive denominator `|d|`.
pub open spec fn spec_slab_axis(o: i64, d: i64, lo: i64, hi: i64) -> SlabAxis {
    if d == 0 {
        if o < lo || hi < o {
            SlabAxis::Miss
        } else {
            SlabAxis::Free
        }
    } else if d > 0 {
        SlabAxis::Range(
            Rat { num: (lo - o) as i64, den: d },
            Rat { num: (hi - o) as i64, den: d },
        )
    } else {
        SlabAxis::Range(
            Rat { num: (o - hi) as i64, den: (-d) as i64 },
            Rat { num: (o - lo) as i64, den: (-d) as i64 },
        )
    }
}

fn slab_axis(o: i64, d: i64, lo: i64, hi: i64) -> (r: SlabAxis)
    requires
        -PICK_MAX <= o <= PICK_MAX,
        -PICK_MAX <= d <= PICK_MAX,
        -PICK_MAX <= lo <= PICK_MAX,
        -PICK_MAX <= hi <= PICK_MAX,
    ensures
        r == spec_slab_axis(o, d, lo, hi),
{
    if d == 0 {
        if o < lo || hi < o {
            SlabAxis::Miss
        } else {
            SlabAxis::Free
        }
    } else if d > 0 {
        SlabAxis::Range(Rat { num: lo - o, den: d }, Rat { num: hi - o, den: d })
    } else {
        SlabAxis::Range(Rat { num: o - hi, den: -d }, Rat { num: o - lo, den: -d })
    }
}

/// The larger of two optional entry parameters (`None` is unbounded
/// below); ties keep the first.
pub open spec fn opt_max_rat(a: Option<Rat>, b: Option<Rat>) -> Option<Rat> {
    match (a, b) {
        (None, x) => x,
        (Some(p), None) => Some(p),
        (Some(p), Some(q)) => if rat_lt(p, q) {
            Some(q)
        } else {
            Some(p)
        },
    }
}

/// The smaller of two optional exit parameters (`None` is unbounded
/// above); ties keep the first.
pub open spec fn opt_min_rat(a: Option<Rat>, b: Option<Rat>) -> Option<Rat> {
    match (a, b) {
        (None, x) => x,
        (Some(p), None) => Some(p),
        (Some(p), Some(q)) => if rat_lt(q, p) {
            Some(q)
        } else {
            Some(p)
        },
    }
}

fn opt_max(a: Option<Rat>, b: Option<Rat>) -> (r: Option<Rat>)
    ensures
        r == opt_max_rat(a, b),
{
    match (a, b) {
        (None, x) => x,
        (Some(p), None) => Some(p),
        (Some(p), Some(q)) => if p.lt(q) {
            Some(q)
        } else {
            Some(p)
        },
    }
}

fn opt_min(a: Option<Rat>, b: Option<Rat>) -> (r: Option<Rat>)
    ensures
        r == opt_min_rat(a, b),
{
    match (a, b) {
        (None, x) => x,
        (Some(p), None) => Some(p),
        (Some(p), Some(q)) => if q.lt(p) {
            Some(q)
        } else {
            Some(p)
        },
    }
}

/// The entry interval bound of an axis, if it has one.
pub open spec fn axis_lo(a: SlabAxis) -> Option<Rat> {
    match a {
        SlabAxis::Range(t1, _) => Some(t1),
        _ => None,
    }
}

/// The exit interval bound of an axis, if it has one.
pub open spec fn axis_hi(a: SlabAxis) -> Option<Rat> {
    match a {
        SlabAxis::Range(_, t2) => Some(t2),
        _ => None,
    }
}

/// The slab-method ray-box test, exactly: the per-axis parameter
/// intervals must overlap, the overlap must reach `t >= 0`, and the hit
/// parameter is the largest entry bound clamped up to zero.
pub open spec fn spec_ray_aabb_intersect(o: Vec3, d: Vec3, bb: AABB) -> Option<Rat> {
    let ax = spec_slab_axis(o.x, d.x, bb.min.x, bb.max.x);
    let ay = spec_slab_axis(o.y, d.y, bb.min.y, bb.max.y);
    let az = spec_slab_axis(o.z, d.z, bb.min.z, bb.max.z);
    if ax is Miss || ay is Miss || az is Miss {
        None
    } else {
        let tmin = opt_max_rat(opt_max_rat(axis_lo(ax), axis_lo(ay)), axis_lo(az));
        let tmax = opt_min_rat(opt_min_rat(axis_hi(ax), axis_hi(ay)), axis_hi(az));
        match (tmin, tmax) {
            (Some(t1), Some(t2)) => if rat_le(t1, t2) && t2.num >= 0 {
                Some(
                    if t1.num < 0 {
                        Rat { num: 0i64, den: 1i64 }
                    } else {
                        t1
                    },
                )
            } else {
                None
            },
            (None, Some(t2)) => if t2.num >= 0 {
                Some(Rat { num: 0i64, den: 1i64 })
            } else {
                None
            },
            (Some(t1), None) => Some(
                if t1.num < 0 {
                    Rat { num: 0i64, den: 1i64 }
                } else {
                    t1
                },
            ),
            (None, None) => Some(Rat { num: 0i64, den: 1i64 }),
        }
    }
}

/// Ray-box intersection by the slab method. Returns the entry
/// parameter (clamped up to zero) when the ray hits the box.
pub fn ray_aabb_intersect(ray_origin: Vec3, ray_dir: Vec3, aabb: &AABB) -> (r: Option<Rat>)
    requires
        in_pick_range(ray_origin),
        in_pick_range(ray_dir),
        in_pick_range(aabb.min),
        in_pick_range(aabb.max),
    ensures
        r == spec_ray_aabb_intersect(ray_origin, ray_dir, *aabb),
        match r {
            Some(t) => t.wf() && t.num >= 0,
            None => true,
        },
{
    let ax = slab_axis(ray_origin.x, ray_dir.x, aabb.min.x, aabb.max.x);
    let ay = slab_axis(ray_origin.y, ray_dir.y, aabb.min.y, aabb.max.y);
    let az = slab_axis(ray_origin.z, ray_dir.z, aabb.min.z, aabb.max.z);
    let ax_miss = matches!(ax, SlabAxis::Miss);
    let ay_miss = matches!(ay, SlabAxis::Miss);
    let az_miss = matches!(az, SlabAxis::Miss);
    if ax_miss || ay_miss || az_miss {
        return None;
    }
    let (lo_x, hi_x) = match ax {
        SlabAxis::Range(t1, t2) => (Some(t1), Some(t2)),
        _ => (None, None),
    };
    let (lo_y, hi_y) = match ay {
        SlabAxis::Range(t1, t2) => (Some(t1), Some(t2)),
        _ => (None, None),
    };
    let (lo_z, hi_z) = match az {
        SlabAxis::Range(t1, t2) => (Some(t1), Some(t2)),
        _ => (None, None),
    };
    let tmin = opt_max(opt_max(lo_x, lo_y), lo_z);
    let tmax = opt_min(opt_min(hi_x, hi_y), hi_z);
    match (tmin, tmax) {
        (Some(t1), Some(t2)) => {
            if t1.le(t2) && t2.num >= 0 {
                Some(
                    if t1.num < 0 {
                        Rat { num: 0, den: 1 }
                    } else {
                        t1
                    },
                )
            } else {
                None
            }
        },
        (None, Some(t2)) => {
            if t2.num >= 0 {
                Some(Rat { num: 0, den: 1 })
            } else {
                None
            }
        },
        (Some(t1), None) => Some(
            if t1.num < 0 {
                Rat { num: 0, den: 1 }
            } else {
                t1
            },
        ),
        (None, None) => Some(Rat { num: 0, den: 1 }),
    }
}

/// One cross-product component `p * q - r * s` of difference vectors.
fn cross_term(p: i64, q: i64, r: i64, s: i64) -> (t: i64)
    requires
        -0x10_0000 <= p <= 0x10_0000,
        -0x10_0000 <= q <= 0x10_0000,
        -0x10_0000 <= r <= 0x10_0000,
        -0x10_0000 <= s <= 0x10_0000,
    ensures
        t == (p as int) * (q as int) - (r as int) * (s as int),
        -0x200_0000_0000 <= t <= 0x200_0000_0000,
{
    proof {
        lemma_mul_bounds(p as int, q as int, 0x10_0000, 0x10_0000);
        lemma_mul_bounds(r as int, s as int, 0x10_0000, 0x10_0000);
    }
    ((p as i128) * (q as i128) - (r as i128) * (s as i128)) as i64
}

/// Dot product of a small difference vector with a cross-product
/// vector.
fn dot_large(ax: i64, ay: i64, az: i64, bx: i64, by: i64, bz: i64) -> (t: i64)
    requires
        -0x10_0000 <= ax <= 0x10_0000,
        -0x10_0000 <= ay <= 0x10_0000,
        -0x10_0000 <= az <= 0x10_0000,
        -0x200_0000_0000 <= bx <= 0x200_0000_0000,
        -0x200_0000_0000 <= by <= 0x200_0000_0000,
        -0x200_0000_0000 <= bz <= 0x200_0000_0000,
    ensures
        t == (ax as int) * (bx as int) + (ay as int) * (by as int) + (az as int) * (bz as int),
        -0x6000_0000_0000_0000 <= t <= 0x6000_0000_0000_0000,
{
    proof {
        lemma_mul_bounds(ax as int, bx as int, 0x10_0000, 0x200_0000_0000);
        lemma_mul_bounds(ay as int, by as int, 0x10_0000, 0x200_0000_0000);
        lemma_mul_bounds(az as int, bz as int, 0x10_0000, 0x200_0000_0000);
    }
    ((ax as i128) * (bx as i128) + (ay as i128) * (by as i128) + (az as i128) * (bz as i128)) as i64
}

/// The scalar triple product is antisymmetric in its first two vectors:
/// `e1 . (d x e2) == -(d . (e1 x e2))`.
proof fn lemma_triple_product(
    e1x: int,
    e1y: int,
    e1z: int,
    dx: int,
    dy: int,
    dz: int,
    e2x: int,
    e2y: int,
    e2z: int,
)
    ensures
        e1x * (dy * e2z - dz * e2y) + e1y * (dz * e2x - dx * e2z) + e1z * (dx * e2y - dy * e2x)
            == -(dx * (e1y * e2z - e1z * e2y) + dy * (e1z * e2x - e1x * e2z) + dz * (e1x * e2y
            - e1y * e2x)),
{
    assert(e1x * (dy * e2z - dz * e2y) == dy * (e1x * e2z) - dz * (e1x * e2y)) by (nonlinear_arith);
    assert(e1y * (dz * e2x - dx * e2z) == dz * (e1y * e2x) - dx * (e1y * e2z)) by (nonlinear_arith);
    assert(e1z * (dx * e2y - dy * e2x) == dx * (e1z * e2y) - dy * (e1z * e2x)) by (nonlinear_arith);
    assert(dx * (e1y * e2z - e1z * e2y) == dx * (e1y * e2z) - dx * (e1z * e2y)) by (nonlinear_arith);
    assert(dy * (e1z * e2x - e1x * e2z) == dy * (e1z * e2x) - dy * (e1x * e2z)) by (nonlinear_arith);
    assert(dz * (e1x * e2y - e1y * e2x) == dz * (e1x * e2y) - dz * (e1y * e2x)) by (nonlinear_arith);
}

/// Edge 1 of a triangle: `v1 - v0` (one component each).
pub open spec fn mt_e1(v0: Vec3, v1: Vec3) -> (int, int, int) {
    (v1.x - v0.x, v1.y - v0.y, v1.z - v0.z)
}

/// Edge 2 of a triangle: `v2 - v0`.
pub open spec fn mt_e2(v0: Vec3, v2: Vec3) -> (int, int, int) {
    (v2.x - v0.x, v2.y - v0.y, v2.z - v0.z)
}

/// Cross product of integer vectors.
pub open spec fn cross3(a: (int, int, int), b: (int, int, int)) -> (int, int, int) {
    (a.1 * b.2 - a.2 * b.1, a.2 * b.0 - a.0 * b.2, a.0 * b.1 - a.1 * b.0)
}

/// Dot product of integer vectors.
pub open spec fn dot3(a: (int, int, int), b: (int, int, int)) -> int {
    a.0 * b.0 + a.1 * b.1 + a.2 * b.2
}

/// A vector as an integer triple.
pub open spec fn v3(v: Vec3) -> (int, int, int) {
    (v.x as int, v.y as int, v.z as int)
}

/// The Moller-Trumbore determinant-like coefficient `e1 . (d x e2)`.
pub open spec fn mt_a(d: Vec3, v0: Vec3, v1: Vec3, v2: Vec3) -> int {
    dot3(mt_e1(v0, v1), cross3(v3(d), mt_e2(v0, v2)))
}

/// The face normal (by winding) against the ray direction.
pub open spec fn mt_nd(d: Vec3, v0: Vec3, v1: Vec3, v2: Vec3) -> int {
    dot3(v3(d), cross3(mt_e1(v0, v1), mt_e2(v0, v2)))
}

/// Numerator of the barycentric coordinate `u`, over `det = a`.
pub open spec fn mt_u(o: Vec3, d: Vec3, v0: Vec3, v1: Vec3, v2: Vec3) -> int {
    dot3((o.x - v0.x, o.y - v0.y, o.z - v0.z), cross3(v3(d), mt_e2(v0, v2)))
}

/// Numerator of the barycentric coordinate `v`, over `det = a`.
pub open spec fn mt_v(o: Vec3, d: Vec3, v0: Vec3, v1: Vec3, v2: Vec3) -> int {
    dot3(v3(d), cross3((o.x - v0.x, o.y - v0.y, o.z - v0.z), mt_e1(v0, v1)))
}

/// Numerator of the hit parameter `t`, over `det = a`.
pub open spec fn mt_t(o: Vec3, d: Vec3, v0: Vec3, v1: Vec3, v2: Vec3) -> int {
    dot3(mt_e2(v0, v2), cross3((o.x - v0.x, o.y - v0.y, o.z - v0.z), mt_e1(v0, v1)))
}

/// The barycentric and hit-parameter tests against a positive
/// determinant: `u, v in [0, 1]`, `u + v <= 1`, `t > 0`.
pub open spec fn spec_mt_core(det: int, u_num: int, v_num: int, t_num: int) -> Option<Rat> {
    if u_num < 0 || u_num > det {
        None
    } else if v_num < 0 || u_num + v_num > det {
        None
    } else if t_num > 0 {
        Some(Rat { num: t_num as i64, den: det as i64 })
    } else {
        None
    }
}

/// The Moller-Trumbore ray-triangle test, exactly: reject rays in the
/// triangle's plane (`a == 0`), reject backfaces (a triangle whose
/// winding normal has non-negative dot with the ray direction: only
/// front-facing triangles are pickable), then test the barycentric
/// coordinates and the hit parameter `t = t_num / det` against the
/// determinant `det = a`, which is positive for every front-facing
/// triangle.
pub open spec fn spec_ray_triangle_intersect(
    o: Vec3,
    d: Vec3,
    v0: Vec3,
    v1: Vec3,
    v2: Vec3,
) -> Option<Rat> {
    if mt_a(d, v0, v1, v2) == 0 {
        None
    } else if mt_nd(d, v0, v1, v2) >= 0 {
        None
    } else {
        spec_mt_core(
            mt_a(d, v0, v1, v2),
            mt_u(o, d, v0, v1, v2),
            mt_v(o, d, v0, v1, v2),
            mt_t(o, d, v0, v1, v2),
        )
    }
}

/// Ray-triangle intersection with backface culling; returns the exact
/// hit parameter when the ray pierces the (front-facing) triangle.
pub fn ray_triangle_intersect(ray_origin: Vec3, ray_dir: Vec3, v0: Vec3, v1: Vec3, v2: Vec3) -> (r:
    Option<Rat>)
    requires
        in_pick_range(ray_origin),
        in_pick_range(ray_dir),
        in_pick_range(v0),
        in_pick_range(v1),
        in_pick_range(v2),
    ensures
        r == spec_ray_triangle_intersect(ray_origin, ray_dir, v0, v1, v2),
        match r {
            Some(t) => t.wf() && t.num > 0,
            None => true,
        },
{
    let e1x = v1.x - v0.x;
    let e1y = v1.y - v0.y;
    let e1z = v1.z - v0.z;
    let e2x = v2.x - v0.x;
    let e2y = v2.y - v0.y;
    let e2z = v2.z - v0.z;
    let hx = cross_term(ray_dir.y, e2z, ray_dir.z, e2y);
    let hy = cross_term(ray_dir.z, e2x, ray_dir.x, e2z);
    let hz = cross_term(ray_dir.x, e2y, ray_dir.y, e2x);
    let a = dot_large(e1x, e1y, e1z, hx, hy, hz);
    proof {
        assert(a == mt_a(ray_dir, v0, v1, v2));
    }
    if a == 0 {
        return None;
    }
    let nx = cross_term(e1y, e2z, e1z, e2y);
    let ny = cross_term(e1z, e2x, e1x, e2z);
    let nz = cross_term(e1x, e2y, e1y, e2x);
    let nd = dot_large(ray_dir.x, ray_dir.y, ray_dir.z, nx, ny, nz);
    proof {
        assert(nd == mt_nd(ray_dir, v0, v1, v2));
    }
    if nd >= 0 {
        return None;
    }
    proof {
        lemma_triple_product(
            e1x as int,
            e1y as int,
            e1z as int,
            ray_dir.x as int,
            ray_dir.y as int,
            ray_dir.z as int,
            e2x as int,
            e2y as int,
            e2z as int,
        );
        assert(a == -nd);
        assert(a > 0);
    }
    let det = a;
    let sx = ray_origin.x - v0.x;
    let sy = ray_origin.y - v0.y;
    let sz = ray_origin.z - v0.z;
    let u_num = dot_large(sx, sy, sz, hx, hy, hz);
    proof {
        assert(u_num == mt_u(ray_origin, ray_dir, v0, v1, v2));
    }
    if u_num < 0 || u_num > det {
        return None;
    }
    let qx = cross_term(sy, e1z, sz, e1y);
    let qy = cross_term(sz, e1x, sx, e1z);
    let qz = cross_term(sx, e1y, sy, e1x);
    let v_num = dot_large(ray_dir.x, ray_dir.y, ray_dir.z, qx, qy, qz);
    proof {
        assert(v_num == mt_v(ray_origin, ray_dir, v0, v1, v2));
    }
    if v_num < 0 || (u_num as i128) + (v_num as i128) > (det as i128) {
        return None;
    }
    let t_num = dot_large(e2x, e2y, e2z, qx, qy, qz);
    proof {
        assert(t_num == mt_t(ray_origin, ray_dir, v0, v1, v2));
    }
    if t_num > 0 {
        Some(Rat { num: t_num, den: det })
    } else {
        None
    }
}

/// The hit of triangle `j` of a mesh, after transforming its three
/// vertices into world space. Out-of-range indices yield no hit.
pub open spec fn spec_triangle_hit(
    o: Vec3,
    d: Vec3,
    vs: Seq<Vec3>,
    idx: Seq<u32>,
    m: Mat4,
    j: int,
) -> Option<Rat> {
    if 0 <= j && 3 * j + 2 < idx.len() && (idx[3 * j] as int) < vs.len() && (idx[3 * j + 1] as int)
        < vs.len() && (idx[3 * j + 2] as int) < vs.len() {
        spec_ray_triangle_intersect(
            o,
            d,
            Mat4::spec_transform_point(m, vs[idx[3 * j] as int]),
            Mat4::spec_transform_point(m, vs[idx[3 * j + 1] as int]),
            Mat4::spec_transform_point(m, vs[idx[3 * j + 2] as int]),
        )
    } else {
        None
    }
}

/// The closest hit among the first `tcount` triangles; on an exact tie
/// the earlier triangle wins.
pub open spec fn spec_mesh_hit(
    o: Vec3,
    d: Vec3,
    vs: Seq<Vec3>,
    idx: Seq<u32>,
    m: Mat4,
    tcount: int,
) -> Option<Rat>
    decreases tcount,
{
    if tcount <= 0 {
        None
    } else {
        opt_min_rat(
            spec_mesh_hit(o, d, vs, idx, m, tcount - 1),
            spec_triangle_hit(o, d, vs, idx, m, tcount - 1),
        )
    }
}

/// Test a ray against every triangle of a mesh (three indices each; a
/// trailing incomplete group is ignored); returns the closest hit.
pub fn ray_mesh_intersect(
    ray_origin: Vec3,
    ray_dir: Vec3,
    vertices: &Vec<Vec3>,
    indices: &Vec<u32>,
    transform_matrix: &Mat4,
) -> (r: Option<Rat>)
    requires
        transform_matrix.wf(),
        in_pick_range(ray_origin),
        in_pick_range(ray_dir),
        forall|k: int| 0 <= k < vertices@.len() ==> (#[trigger] vertices@[k]).wf(),
        forall|k: int| 0 <= k < indices@.len() ==> (#[trigger] indices@[k]) < vertices@.len(),
        forall|k: int|
            0 <= k < vertices@.len() ==> in_pick_range(
                #[trigger] Mat4::spec_transform_point(*transform_matrix, vertices@[k]),
            ),
    ensures
        r == spec_mesh_hit(
            ray_origin,
            ray_dir,
            vertices@,
            indices@,
            *transform_matrix,
            (indices@.len() / 3) as int,
        ),
{
    let tri_count = indices.len() / 3;
    proof {
        lemma_fundamental_div_mod(indices@.len() as int, 3);
    }
    let mut best: Option<Rat> = None;
    for j in 0..tri_count
        invariant
            transform_matrix.wf(),
            in_pick_range(ray_origin),
            in_pick_range(ray_dir),
            forall|k: int| 0 <= k < vertices@.len() ==> (#[trigger] vertices@[k]).wf(),
            forall|k: int| 0 <= k < indices@.len() ==> (#[trigger] indices@[k]) < vertices@.len(),
            forall|k: int|
                0 <= k < vertices@.len() ==> in_pick_range(
                    #[trigger] Mat4::spec_transform_point(*transform_matrix, vertices@[k]),
                ),
            tri_count == indices@.len() / 3,
            3 * tri_count <= indices@.len(),
            indices@.len() <= usize::MAX,
            best == spec_mesh_hit(
                ray_origin,
                ray_dir,
                vertices@,
                indices@,
                *transform_matrix,
                j as int,
            ),
    {
        let i0 = indices[3 * j] as usize;
        let i1 = indices[3 * j + 1] as usize;
        let i2 = indices[3 * j + 2] as usize;
        let v0 = transform_matrix.transform_point(vertices[i0]);
        let v1 = transform_matrix.transform_point(vertices[i1]);
        let v2 = transform_matrix.transform_point(vertices[i2]);
        let t = ray_triangle_intersect(ray_origin, ray_dir, v0, v1, v2);
        proof {
            assert(t == spec_triangle_hit(
                ray_origin,
                ray_dir,
                vertices@,
                indices@,
                *transform_matrix,
                j as int,
            ));
        }
        best = opt_min(best, t);
    }
    best
}

/// The hit of one scene node: nothing for non-selectable nodes, and
/// otherwise the broad-phase box test followed by the triangle test of
/// the node's mesh under its world matrix.
pub open spec fn spec_node_hit(
    meshes: Seq<Mesh>,
    nodes: Seq<SceneNode>,
    o: Vec3,
    d: Vec3,
    i: int,
) -> Option<Rat> {
    if 0 <= i < nodes.len() && nodes[i].selectable && (nodes[i].mesh_id as int) < meshes.len() {
        let mesh = meshes[nodes[i].mesh_id as int];
        let m = spec_world_mat(nodes, i);
        if spec_ray_aabb_intersect(o, d, spec_node_aabb(mesh.vertices@, m)) is Some {
            spec_mesh_hit(o, d, mesh.vertices@, mesh.indices@, m, (mesh.indices@.len() / 3) as int)
        } else {
            None
        }
    } else {
        None
    }
}

/// The closest node hit among the first `n` nodes, with its parameter;
/// on an exact tie the node earlier in the array wins.
pub open spec fn spec_best_hit(
    meshes: Seq<Mesh>,
    nodes: Seq<SceneNode>,
    o: Vec3,
    d: Vec3,
    n: int,
) -> Option<(u32, Rat)>
    decreases n,
{
    if n <= 0 {
        None
    } else {
        let prev = spec_best_hit(meshes, nodes, o, d, n - 1);
        let cur = spec_node_hit(meshes, nodes, o, d, n - 1);
        match (prev, cur) {
            (p, None) => p,
            (None, Some(t)) => Some(((n - 1) as u32, t)),
            (Some((pi, pt)), Some(t)) => if rat_lt(t, pt) {
                Some(((n - 1) as u32, t))
            } else {
                Some((pi, pt))
            },
        }
    }
}

impl Scene {
    /// Every selectable node's world-space geometry lies within the
    /// exact picking range.
    pub open spec fn spec_pick_geometry_in_range(self) -> bool {
        forall|i: int, k: int|
            0 <= i < self.nodes@.len() && self.nodes@[i].selectable && 0 <= k
                < self.meshes@[self.nodes@[i].mesh_id as int].vertices@.len() ==> in_pick_range(
                #[trigger] Mat4::spec_transform_point(
                    spec_world_mat(self.nodes@, i),
                    self.meshes@[self.nodes@[i].mesh_id as int].vertices@[k],
                ),
            )
    }

    /// The picking result: the id of the selectable node hit closest to
    /// the ray origin, scanning nodes in id order.
    pub open spec fn spec_cpu_pick(self, o: Vec3, d: Vec3) -> Option<u32> {
        match spec_best_hit(self.meshes@, self.nodes@, o, d, self.nodes@.len() as int) {
            Some((i, _t)) => Some(i),
            None => None,
        }
    }

    /// The two-phase hit test of one node.
    fn node_hit(&self, i: usize, ray_origin: Vec3, ray_dir: Vec3) -> (r: Option<Rat>)
        requires
            self.wf(),
            in_pick_range(ray_origin),
            in_pick_range(ray_dir),
            self.spec_pick_geometry_in_range(),
            i < self.nodes@.len(),
        ensures
            r == spec_node_hit(self.meshes@, self.nodes@, ray_origin, ray_dir, i as int),
    {
        let node = self.nodes[i];
        if !node.selectable {
            return None;
        }
        let mesh = &self.meshes[node.mesh_id];
        let world = self.compute_world_transform(i as u32);
        proof {
            assert forall|k: int| 0 <= k < mesh.vertices@.len() implies in_pick_range(
                #[trigger] Mat4::spec_transform_point(world, mesh.vertices@[k]),
            ) by {
                assert(in_pick_range(
                    Mat4::spec_transform_point(
                        spec_world_mat(self.nodes@, i as int),
                        self.meshes@[self.nodes@[i as int].mesh_id as int].vertices@[k],
                    ),
                ));
            }
        }
        let aabb = compute_node_aabb(&mesh.vertices, &world);
        proof {
            if mesh.vertices@.len() > 0 {
                lemma_aabb_fold_in_range(mesh.vertices@, world, mesh.vertices@.len() as int);
            }
        }
        let box_hit = ray_aabb_intersect(ray_origin, ray_dir, &aabb);
        if box_hit.is_some() {
            ray_mesh_intersect(ray_origin, ray_dir, &mesh.vertices, &mesh.indices, &world)
        } else {
            None
        }
    }

    /// Two-phase CPU picking: per selectable node a bounding-box cull,
    /// then exact triangle intersection; the node with the smallest hit
    /// parameter wins, and on an exact tie the lower id wins.
    pub fn cpu_pick_ray(&self, ray_origin: Vec3, ray_dir: Vec3) -> (r: Option<u32>)
        requires
            self.wf(),
            in_pick_range(ray_origin),
            in_pick_range(ray_dir),
            self.spec_pick_geometry_in_range(),
        ensures
            r == self.spec_cpu_pick(ray_origin, ray_dir),
    {
        let n = self.nodes.len();
        let mut best: Option<(u32, Rat)> = None;
        for i in 0..n
            invariant
                self.wf(),
                in_pick_range(ray_origin),
                in_pick_range(ray_dir),
                self.spec_pick_geometry_in_range(),
                n == self.nodes@.len(),
                best == spec_best_hit(self.meshes@, self.nodes@, ray_origin, ray_dir, i as int),
        {
            let cur = self.node_hit(i, ray_origin, ray_dir);
            best = match (best, cur) {
                (p, None) => p,
                (None, Some(t)) => Some((i as u32, t)),
                (Some((pi, pt)), Some(t)) => {
                    if t.lt(pt) {
                        Some((i as u32, t))
                    } else {
                        Some((pi, pt))
                    }
                },
            };
        }
        match best {
            Some((id, _)) => Some(id),
            None => None,
        }
    }
}

/// Bounds on a cross product of difference vectors.
proof fn lemma_cross_small(a: (int, int, int), b: (int, int, int))
    requires
        -0x10_0000 <= a.0 <= 0x10_0000,
        -0x10_0000 <= a.1 <= 0x10_0000,
        -0x10_0000 <= a.2 <= 0x10_0000,
        -0x10_0000 <= b.0 <= 0x10_0000,
        -0x10_0000 <= b.1 <= 0x10_0000,
        -0x10_0000 <= b.2 <= 0x10_0000,
    ensures
        -0x200_0000_0000 <= cross3(a, b).0 <= 0x200_0000_0000,
        -0x200_0000_0000 <= cross3(a, b).1 <= 0x200_0000_0000,
        -0x200_0000_0000 <= cross3(a, b).2 <= 0x200_0000_0000,
{
    lemma_mul_bounds(a.1, b.2, 0x10_0000, 0x10_0000);
    lemma_mul_bounds(a.2, b.1, 0x10_0000, 0x10_0000);
    lemma_mul_bounds(a.2, b.0, 0x10_0000, 0x10_0000);
    lemma_mul_bounds(a.0, b.2, 0x10_0000, 0x10_0000);
    lemma_mul_bounds(a.0, b.1, 0x10_0000, 0x10_0000);
    lemma_mul_bounds(a.1, b.0, 0x10_0000, 0x10_0000);
}

/// Bounds on a dot product of a difference vector with a cross product.
proof fn lemma_dot_small_large(a: (int, int, int), b: (int, int, int))
    requires
        -0x10_0000 <= a.0 <= 0x10_0000,
        -0x10_0000 <= a.1 <= 0x10_0000,
        -0x10_0000 <= a.2 <= 0x10_0000,
        -0x200_0000_0000 <= b.0 <= 0x200_0000_0000,
        -0x200_0000_0000 <= b.1 <= 0x200_0000_0000,
        -0x200_0000_0000 <= b.2 <= 0x200_0000_0000,
    ensures
        -0x6000_0000_0000_0000 <= dot3(a, b) <= 0x6000_0000_0000_0000,
{
    lemma_mul_bounds(a.0, b.0, 0x10_0000, 0x200_0000_0000);
    lemma_mul_bounds(a.1, b.1, 0x10_0000, 0x200_0000_0000);
    lemma_mul_bounds(a.2, b.2, 0x10_0000, 0x200_0000_0000);
}

/// A triangle hit parameter is a well-formed positive rational.
proof fn lemma_tri_hit_wf(o: Vec3, d: Vec3, v0: Vec3, v1: Vec3, v2: Vec3)
    requires
        in_pick_range(o),
        in_pick_range(d),
        in_pick_range(v0),
        in_pick_range(v1),
        in_pick_range(v2),
    ensures
        spec_ray_triangle_intersect(o, d, v0, v1, v2) matches Some(t) ==> t.wf() && t.num > 0,
{
    if spec_ray_triangle_intersect(o, d, v0, v1, v2) is Some {
        let e1 = mt_e1(v0, v1);
        let e2 = mt_e2(v0, v2);
        let sv = (o.x - v0.x as int, o.y - v0.y as int, o.z - v0.z as int);
        lemma_triple_product(e1.0, e1.1, e1.2, d.x as int, d.y as int, d.z as int, e2.0, e2.1, e2.2);
        assert(mt_a(d, v0, v1, v2) == -mt_nd(d, v0, v1, v2));
        lemma_cross_small(v3(d), e2);
        lemma_dot_small_large(e1, cross3(v3(d), e2));
        lemma_cross_small(sv, e1);
        lemma_dot_small_large(e2, cross3(sv, e1));
    }
}

/// A mesh hit parameter is a well-formed positive rational.
proof fn lemma_mesh_hit_wf(o: Vec3, d: Vec3, vs: Seq<Vec3>, idx: Seq<u32>, m: Mat4, tc: int)
    requires
        in_pick_range(o),
        in_pick_range(d),
        forall|k: int|
            0 <= k < vs.len() ==> in_pick_range(#[trigger] Mat4::spec_transform_point(m, vs[k])),
    ensures
        spec_mesh_hit(o, d, vs, idx, m, tc) matches Some(t) ==> t.wf() && t.num > 0,
    decreases tc,
{
    if tc > 0 {
        lemma_mesh_hit_wf(o, d, vs, idx, m, tc - 1);
        if spec_triangle_hit(o, d, vs, idx, m, tc - 1) is Some {
            let j = tc - 1;
            lemma_tri_hit_wf(
                o,
                d,
                Mat4::spec_transform_point(m, vs[idx[3 * j] as int]),
                Mat4::spec_transform_point(m, vs[idx[3 * j + 1] as int]),
                Mat4::spec_transform_point(m, vs[idx[3 * j + 2] as int]),
            );
        }
    }
}

/// A node hit parameter is a well-formed positive rational.
proof fn lemma_node_hit_wf(s: Scene, o: Vec3, d: Vec3, i: int)
    requires
        in_pick_range(o),
        in_pick_range(d),
        s.spec_pick_geometry_in_range(),
    ensures
        spec_node_hit(s.meshes@, s.nodes@, o, d, i) matches Some(t) ==> t.wf() && t.num > 0,
{
    if spec_node_hit(s.meshes@, s.nodes@, o, d, i) is Some {
        let mesh = s.meshes@[s.nodes@[i].mesh_id as int];
        let m = spec_world_mat(s.nodes@, i);
        assert forall|k: int| 0 <= k < mesh.vertices@.len() implies in_pick_range(
            #[trigger] Mat4::spec_transform_point(m, mesh.vertices@[k]),
        ) by {
            assert(in_pick_range(
                Mat4::spec_transform_point(
                    spec_world_mat(s.nodes@, i),
                    s.meshes@[s.nodes@[i].mesh_id as int].vertices@[k],
                ),
            ));
        }
        lemma_mesh_hit_wf(
            o,
            d,
            mesh.vertices@,
            mesh.indices@,
            m,
            (mesh.indices@.len() / 3) as int,
        );
    }
}

/// Picking is deterministic and returns the closest hit: when the scan
/// of the first `n` nodes picks node `i` with parameter `t`, node `i`
/// itself hits at `t`, every other hit node is at least as far, and
/// every hit node with a smaller id is strictly farther — so the result
/// does not depend on how overlapping nodes are ordered, and exact ties
/// go to the smaller id.
#[verifier::rlimit(80)]
pub proof fn lemma_pick_closest(s: Scene, o: Vec3, d: Vec3, n: int)
    requires
        in_pick_range(o),
        in_pick_range(d),
        s.spec_pick_geometry_in_range(),
        0 <= n <= s.nodes@.len(),
        s.nodes@.len() < 0x1_0000_0000,
    ensures
        match spec_best_hit(s.meshes@, s.nodes@, o, d, n) {
            None => forall|j: int|
                0 <= j < n ==> (#[trigger] spec_node_hit(s.meshes@, s.nodes@, o, d, j)) is None,
            Some((i, t)) => {
                &&& 0 <= i < n
                &&& spec_node_hit(s.meshes@, s.nodes@, o, d, i as int) == Some(t)
                &&& t.wf() && t.num > 0
                &&& forall|j: int|
                    0 <= j < n && (#[trigger] spec_node_hit(s.meshes@, s.nodes@, o, d, j))
                        is Some ==> rat_le(t, spec_node_hit(s.meshes@, s.nodes@, o, d, j).unwrap())
                &&& forall|j: int|
                    0 <= j < i && (#[trigger] spec_node_hit(s.meshes@, s.nodes@, o, d, j))
                        is Some ==> rat_lt(t, spec_node_hit(s.meshes@, s.nodes@, o, d, j).unwrap())
            },
        },
    decreases n,
{
    if n > 0 {
        lemma_pick_closest(s, o, d, n - 1);
        lemma_node_hit_wf(s, o, d, n - 1);
        let prev = spec_best_hit(s.meshes@, s.nodes@, o, d, n - 1);
        let cur = spec_node_hit(s.meshes@, s.nodes@, o, d, n - 1);
        match (prev, cur) {
            (Some((pi, pt)), Some(t)) => {
                if rat_lt(t, pt) {
                    assert forall|j: int|
                        0 <= j < n && (#[trigger] spec_node_hit(s.meshes@, s.nodes@, o, d, j))
                            is Some implies rat_lt(
                        t,
                        spec_node_hit(s.meshes@, s.nodes@, o, d, j).unwrap(),
                    ) || j == n - 1 by {
                        if j < n - 1 {
                            let tj = spec_node_hit(s.meshes@, s.nodes@, o, d, j).unwrap();
                            lemma_node_hit_wf(s, o, d, j);
                            crate::rat::lemma_rat_lt_le_trans(t, pt, tj);
                        }
                    }
                }
            },
            _ => {},
        }
    }
}

/// Exact ray-plane intersection: `None` when the ray is parallel to
/// the plane or the intersection lies behind the origin; otherwise the
/// intersection point `o + d * t` with `t = ((p - o) . n) / (d . n)`,
/// each coordinate truncated toward zero.
pub open spec fn spec_ray_plane_intersection(
    o: Vec3,
    d: Vec3,
    plane_point: Vec3,
    plane_normal: Vec3,
) -> Option<Vec3> {
    let denom = dot3(v3(plane_normal), v3(d));
    if denom == 0 {
        None
    } else {
        let tn0 = dot3(
            (plane_point.x - o.x as int, plane_point.y - o.y as int, plane_point.z - o.z as int),
            v3(plane_normal),
        );
        let tn = if denom < 0 {
            -tn0
        } else {
            tn0
        };
        let dd = if denom < 0 {
            -denom
        } else {
            denom
        };
        if tn < 0 {
            None
        } else {
            Some(
                Vec3 {
                    x: (o.x + tdiv(d.x * tn, dd)) as i64,
                    y: (o.y + tdiv(d.y * tn, dd)) as i64,
                    z: (o.z + tdiv(d.z * tn, dd)) as i64,
                },
            )
        }
    }
}

/// Where a ray meets a plane, exactly; `None` for a parallel ray or an
/// intersection behind the ray origin.
pub fn ray_plane_intersection(
    ray_origin: Vec3,
    ray_dir: Vec3,
    plane_point: Vec3,
    plane_normal: Vec3,
) -> (r: Option<Vec3>)
    requires
        in_pick_range(ray_origin),
        in_pick_range(ray_dir),
        in_pick_range(plane_point),
        in_pick_range(plane_normal),
    ensures
        r == spec_ray_plane_intersection(ray_origin, ray_dir, plane_point, plane_normal),
{
    proof {
        lemma_mul_bounds(plane_normal.x as int, ray_dir.x as int, 0x8_0000, 0x8_0000);
        lemma_mul_bounds(plane_normal.y as int, ray_dir.y as int, 0x8_0000, 0x8_0000);
        lemma_mul_bounds(plane_normal.z as int, ray_dir.z as int, 0x8_0000, 0x8_0000);
    }
    let denom: i64 = (plane_normal.x as i128 * ray_dir.x as i128 + plane_normal.y as i128
        * ray_dir.y as i128 + plane_normal.z as i128 * ray_dir.z as i128) as i64;
    if denom == 0 {
        return None;
    }
    proof {
        lemma_mul_bounds((plane_point.x - ray_origin.x) as int, plane_normal.x as int, 0x10_0000, 0x8_0000);
        lemma_mul_bounds((plane_point.y - ray_origin.y) as int, plane_normal.y as int, 0x10_0000, 0x8_0000);
        lemma_mul_bounds((plane_point.z - ray_origin.z) as int, plane_normal.z as int, 0x10_0000, 0x8_0000);
    }
    let tn0: i64 = ((plane_point.x - ray_origin.x) as i128 * plane_normal.x as i128 + (plane_point.y
        - ray_origin.y) as i128 * plane_normal.y as i128 + (plane_point.z - ray_origin.z) as i128
        * plane_normal.z as i128) as i64;
    let tn: i64 = if denom < 0 {
        -tn0
    } else {
        tn0
    };
    let dd: i64 = if denom < 0 {
        -denom
    } else {
        denom
    };
    if tn < 0 {
        return None;
    }
    proof {
        lemma_mul_bounds(ray_dir.x as int, tn as int, 0x8_0000, 0x200_0000_0000);
        lemma_mul_bounds(ray_dir.y as int, tn as int, 0x8_0000, 0x200_0000_0000);
        lemma_mul_bounds(ray_dir.z as int, tn as int, 0x8_0000, 0x200_0000_0000);
    }
    let x = ray_origin.x + tdiv_pos(ray_dir.x as i128 * tn as i128, dd as i128) as i64;
    let y = ray_origin.y + tdiv_pos(ray_dir.y as i128 * tn as i128, dd as i128) as i64;
    let z = ray_origin.z + tdiv_pos(ray_dir.z as i128 * tn as i128, dd as i128) as i64;
    Some(Vec3 { x, y, z })
}

} // verus!
