//! Local transforms: position, rotation (quaternion), scale.
//!
//! A rotation is a fixed-point quaternion kept near unit length; its
//! rotation matrix comes from the usual quadratic form, so no
//! trigonometry is needed anywhere in the library. A transform's matrix
//! is `translation * rotation * scale`, applied in that order to a
//! local-space point.

use vstd::prelude::*;
use vstd::arithmetic::div_mod::{lemma_div_is_ordered, lemma_div_multiples_vanish};
use crate::fixed::{fit, tdiv, clamp_fx, div_scale, lemma_mul_bounds, sqrt_floor, isqrt, SCALE};
use crate::mat4::{ent, Mat4};
use crate::vec3::Vec3;

verus! {

/// Largest drift from unit norm (squared, in subunits) a stored
/// rotation may have.
pub const QUAT_TOL: i64 = 5000;

/// A fixed-point quaternion; `SCALE` plays the role of `1.0`.
#[derive(Clone, Copy, Debug, PartialEq, Eq, Structural)]
pub struct Quat {
    pub x: i64,
    pub y: i64,
    pub z: i64,
    pub w: i64,
}

/// Product of two quaternion components, with its small bound.
fn qp(a: i64, b: i64) -> (r: i128)
    requires
        -2 * SCALE <= a <= 2 * SCALE,
        -2 * SCALE <= b <= 2 * SCALE,
    ensures
        r == (a as int) * (b as int),
        -4_000_000 <= r <= 4_000_000,
{
    proof {
        lemma_mul_bounds(a as int, b as int, 2000, 2000);
    }
    (a as i128) * (b as i128)
}

impl Quat {
    /// Squared norm, in squared subunits.
    pub open spec fn norm2(self) -> int {
        (self.x as int) * (self.x as int) + (self.y as int) * (self.y as int)
            + (self.z as int) * (self.z as int) + (self.w as int) * (self.w as int)
    }

    /// Unit length up to the stored tolerance: the invariant every
    /// rotation in a scene keeps (rotations are normalized before use).
    pub open spec fn near_unit(self) -> bool {
        (SCALE as int) * (SCALE as int) - QUAT_TOL <= self.norm2()
            <= (SCALE as int) * (SCALE as int) + QUAT_TOL
    }

    pub open spec fn wf(self) -> bool {
        &&& -2 * SCALE <= self.x <= 2 * SCALE
        &&& -2 * SCALE <= self.y <= 2 * SCALE
        &&& -2 * SCALE <= self.z <= 2 * SCALE
        &&& -2 * SCALE <= self.w <= 2 * SCALE
        &&& self.near_unit()
    }

    /// The rotation that does nothing.
    pub open spec fn spec_identity() -> Quat {
        Quat { x: 0i64, y: 0i64, z: 0i64, w: SCALE }
    }

    pub fn identity() -> (r: Quat)
        ensures
            r == Quat::spec_identity(),
            r.wf(),
    {
        Quat { x: 0, y: 0, z: 0, w: SCALE }
    }

    /// The rotation matrix of a near-unit quaternion, by the standard
    /// quadratic form (scaled by `SCALE`, truncating once per entry).
    pub open spec fn spec_rotation_matrix(q: Quat) -> Mat4 {
        let x = q.x as int;
        let y = q.y as int;
        let z = q.z as int;
        let w = q.w as int;
        let s = SCALE as int;
        Mat4 {
            m00: fit(s - tdiv(2 * (y * y + z * z), s)) as i64,
            m01: fit(tdiv(2 * (x * y - z * w), s)) as i64,
            m02: fit(tdiv(2 * (x * z + y * w), s)) as i64,
            m03: 0i64,
            m10: fit(tdiv(2 * (x * y + z * w), s)) as i64,
            m11: fit(s - tdiv(2 * (x * x + z * z), s)) as i64,
            m12: fit(tdiv(2 * (y * z - x * w), s)) as i64,
            m13: 0i64,
            m20: fit(tdiv(2 * (x * z - y * w), s)) as i64,
            m21: fit(tdiv(2 * (y * z + x * w), s)) as i64,
            m22: fit(s - tdiv(2 * (x * x + y * y), s)) as i64,
            m23: 0i64,
            m30: 0i64,
            m31: 0i64,
            m32: 0i64,
            m33: SCALE,
        }
    }

    pub fn rotation_matrix(&self) -> (r: Mat4)
        requires
            self.wf(),
        ensures
            r == Quat::spec_rotation_matrix(*self),
            r.wf(),
    {
        let x = self.x;
        let y = self.y;
        let z = self.z;
        let w = self.w;
        Mat4 {
            m00: clamp_fx(SCALE as i128 - div_scale(2 * (qp(y, y) + qp(z, z)))),
            m01: clamp_fx(div_scale(2 * (qp(x, y) - qp(z, w)))),
            m02: clamp_fx(div_scale(2 * (qp(x, z) + qp(y, w)))),
            m03: 0,
            m10: clamp_fx(div_scale(2 * (qp(x, y) + qp(z, w)))),
            m11: clamp_fx(SCALE as i128 - div_scale(2 * (qp(x, x) + qp(z, z)))),
            m12: clamp_fx(div_scale(2 * (qp(y, z) - qp(x, w)))),
            m13: 0,
            m20: clamp_fx(div_scale(2 * (qp(x, z) - qp(y, w)))),
            m21: clamp_fx(div_scale(2 * (qp(y, z) + qp(x, w)))),
            m22: clamp_fx(SCALE as i128 - div_scale(2 * (qp(x, x) + qp(y, y)))),
            m23: 0,
            m30: 0,
            m31: 0,
            m32: 0,
            m33: SCALE,
        }
    }
}

/// A square root never exceeds the root of an upper bound.
proof fn lemma_sqrt_le(r: int, n: int, bound: int)
    requires
        0 <= r,
        r * r <= n,
        n <= bound * bound,
        0 <= bound,
    ensures
        r <= bound,
{
    assert(r <= bound) by (nonlinear_arith)
        requires
            0 <= r,
            r * r <= n,
            n <= bound * bound,
            0 <= bound,
    ;
}

impl Quat {
    /// The rotation about the vertical axis that turns the unit X
    /// direction toward the horizontal direction `(dx, dz)` with the
    /// yaw convention `atan2(-dz, dx)`: a half-angle quaternion
    /// `(0, sin(yaw/2), 0, cos(yaw/2))`, built exactly from the
    /// half-angle identities and the integer square root.
    pub open spec fn spec_yaw_from_direction(dx: int, dz: int) -> Quat {
        if dx == 0 && dz == 0 {
            Quat::spec_identity()
        } else {
            let s2 = (SCALE as int) * (SCALE as int);
            let l = sqrt_floor(dx * dx + dz * dz);
            let n1 = tdiv(s2 * (l + dx), 2 * l);
            let w = sqrt_floor(n1);
            let m = sqrt_floor(s2 - n1);
            Quat {
                x: 0i64,
                y: (if dz > 0 { -m } else { m }) as i64,
                z: 0i64,
                w: w as i64,
            }
        }
    }

    pub fn yaw_from_direction(dx: i64, dz: i64) -> (r: Quat)
        ensures
            r == Quat::spec_yaw_from_direction(dx as int, dz as int),
            r.wf(),
    {
        if dx == 0 && dz == 0 {
            return Quat::identity();
        }
        proof {
            assert(0 <= (dx as int) * (dx as int)
                <= 0x4000_0000_0000_0000_0000_0000_0000_0000) by (nonlinear_arith)
                requires
                    -0x8000_0000_0000_0000 <= dx <= 0x7fff_ffff_ffff_ffff,
            ;
            assert(0 <= (dz as int) * (dz as int)
                <= 0x4000_0000_0000_0000_0000_0000_0000_0000) by (nonlinear_arith)
                requires
                    -0x8000_0000_0000_0000 <= dz <= 0x7fff_ffff_ffff_ffff,
            ;
            assert((dx as int) * (dx as int) + (dz as int) * (dz as int) >= 1) by (nonlinear_arith)
                requires
                    dx != 0 || dz != 0,
            ;
        }
        let px: i128 = (dx as i128) * (dx as i128);
        let pz: i128 = (dz as i128) * (dz as i128);
        let l2: u128 = (px as u128) + (pz as u128);
        let l: u64 = isqrt(l2);
        proof {
            assert(-(l as int) <= dx as int <= l as int) by (nonlinear_arith)
                requires
                    0 <= l as int,
                    (dx as int) * (dx as int) + (dz as int) * (dz as int) < (l as int + 1) * (
                    l as int + 1),
                    (dz as int) * (dz as int) >= 0,
            ;
            assert(l >= 1) by (nonlinear_arith)
                requires
                    l2 >= 1,
                    (l2 as int) < (l as int + 1) * (l as int + 1),
                    l >= 0,
            ;
        }
        let lpdx: u128 = ((l as i128) + (dx as i128)) as u128;
        proof {
            assert(0 <= 1_000_000 * (lpdx as int)
                <= 0x2_0000_0000_0000_0000_0000_0000) by (nonlinear_arith)
                requires
                    0 <= lpdx <= 0x2_0000_0000_0000_0000,
            ;
        }
        let num1: u128 = 1_000_000u128 * lpdx;
        let den: u128 = 2 * (l as u128);
        let n1: u128 = num1 / den;
        proof {
            assert(num1 as int <= (den as int) * 1_000_000) by (nonlinear_arith)
                requires
                    num1 == 1_000_000 * (lpdx as int),
                    lpdx as int <= 2 * (l as int),
                    den == 2 * (l as int),
                    l >= 1,
            ;
            lemma_div_is_ordered(num1 as int, (den as int) * 1_000_000, den as int);
            lemma_div_multiples_vanish(1_000_000, den as int);
            assert(n1 <= 1_000_000);
        }
        let w: u64 = isqrt(n1 as u128);
        let n2: u128 = 1_000_000 - n1;
        let m: u64 = isqrt(n2);
        proof {
            lemma_sqrt_le(w as int, n1 as int, 1000);
            lemma_sqrt_le(m as int, n2 as int, 1000);
        }
        let qy: i64 = if dz > 0 {
            -(m as i64)
        } else {
            m as i64
        };
        let res = Quat { x: 0, y: qy, z: 0, w: w as i64 };
        proof {
            assert((SCALE as int) * (SCALE as int) == 1_000_000) by (nonlinear_arith)
                requires
                    SCALE == 1000,
            ;
            assert((qy as int) * (qy as int) == (m as int) * (m as int)) by (nonlinear_arith)
                requires
                    qy == m as int || qy == -(m as int),
            ;
            assert(n1 as int <= (w as int) * (w as int) + 2 * (w as int)) by (nonlinear_arith)
                requires
                    (n1 as int) < (w as int + 1) * (w as int + 1),
            ;
            assert(n2 as int <= (m as int) * (m as int) + 2 * (m as int)) by (nonlinear_arith)
                requires
                    (n2 as int) < (m as int + 1) * (m as int + 1),
            ;
            assert(res.near_unit());
        }
        res
    }
}

/// A node's local transform.
#[derive(Clone, Copy, Debug, PartialEq, Eq, Structural)]
pub struct Transform {
    pub position: Vec3,
    pub rotation: Quat,
    pub scale: Vec3,
}

/// The matrix translating by `p`.
pub open spec fn spec_translation_matrix(p: Vec3) -> Mat4 {
    Mat4 {
        m00: SCALE,
        m01: 0i64,
        m02: 0i64,
        m03: p.x,
        m10: 0i64,
        m11: SCALE,
        m12: 0i64,
        m13: p.y,
        m20: 0i64,
        m21: 0i64,
        m22: SCALE,
        m23: p.z,
        m30: 0i64,
        m31: 0i64,
        m32: 0i64,
        m33: SCALE,
    }
}

/// The matrix scaling each axis by the given factors.
pub open spec fn spec_scale_matrix(s: Vec3) -> Mat4 {
    Mat4 {
        m00: s.x,
        m01: 0i64,
        m02: 0i64,
        m03: 0i64,
        m10: 0i64,
        m11: s.y,
        m12: 0i64,
        m13: 0i64,
        m20: 0i64,
        m21: 0i64,
        m22: s.z,
        m23: 0i64,
        m30: 0i64,
        m31: 0i64,
        m32: 0i64,
        m33: SCALE,
    }
}

pub fn translation_matrix(p: Vec3) -> (r: Mat4)
    requires
        p.wf(),
    ensures
        r == spec_translation_matrix(p),
        r.wf(),
{
    Mat4 {
        m00: SCALE,
        m01: 0,
        m02: 0,
        m03: p.x,
        m10: 0,
        m11: SCALE,
        m12: 0,
        m13: p.y,
        m20: 0,
        m21: 0,
        m22: SCALE,
        m23: p.z,
        m30: 0,
        m31: 0,
        m32: 0,
        m33: SCALE,
    }
}

pub fn scale_matrix(s: Vec3) -> (r: Mat4)
    requires
        s.wf(),
    ensures
        r == spec_scale_matrix(s),
        r.wf(),
{
    Mat4 {
        m00: s.x,
        m01: 0,
        m02: 0,
        m03: 0,
        m10: 0,
        m11: s.y,
        m12: 0,
        m13: 0,
        m20: 0,
        m21: 0,
        m22: s.z,
        m23: 0,
        m30: 0,
        m31: 0,
        m32: 0,
        m33: SCALE,
    }
}

impl Transform {
    pub open spec fn wf(self) -> bool {
        &&& self.position.wf()
        &&& self.rotation.wf()
        &&& self.scale.wf()
    }

    /// `translation * rotation * scale`.
    pub open spec fn spec_to_matrix(self) -> Mat4 {
        Mat4::spec_mul(
            Mat4::spec_mul(
                spec_translation_matrix(self.position),
                Quat::spec_rotation_matrix(self.rotation),
            ),
            spec_scale_matrix(self.scale),
        )
    }

    pub open spec fn spec_identity() -> Transform {
        Transform {
            position: Vec3 { x: 0i64, y: 0i64, z: 0i64 },
            rotation: Quat::spec_identity(),
            scale: Vec3 { x: SCALE, y: SCALE, z: SCALE },
        }
    }

    pub fn identity() -> (r: Transform)
        ensures
            r == Transform::spec_identity(),
            r.wf(),
    {
        Transform {
            position: Vec3::zero(),
            rotation: Quat::identity(),
            scale: Vec3 { x: SCALE, y: SCALE, z: SCALE },
        }
    }

    pub fn new(position: Vec3, rotation: Quat, scale: Vec3) -> (r: Transform)
        ensures
            r == (Transform { position, rotation, scale }),
    {
        Transform { position, rotation, scale }
    }

    /// The local matrix of this transform.
    pub fn to_matrix(&self) -> (r: Mat4)
        requires
            self.wf(),
        ensures
            r == self.spec_to_matrix(),
            r.wf(),
    {
        let t = translation_matrix(self.position);
        let rot = self.rotation.rotation_matrix();
        let s = scale_matrix(self.scale);
        t.mul_mat(&rot).mul_mat(&s)
    }
}

} // verus!
