//! Fixed-point 4x4 transform matrices.
//!
//! Row-major homogeneous matrices: the linear part sits in rows and
//! columns 0..3, the translation in column 3, and the bottom row of a
//! transform is `(0, 0, 0, SCALE)` (`SCALE` plays the role of `1.0`).
//! Every entry-producing operation divides by `SCALE` once, truncating
//! toward zero, and saturates into the stored range, so products of
//! matrices are total and exactly specified.

use vstd::prelude::*;
use crate::fixed::{fit, tdiv, clamp_fx, div_scale, lemma_mul_bounds, FX_MAX, SCALE};
use crate::vec3::Vec3;

verus! {

/// A fixed-point 4x4 matrix, entry `mIJ` at row `I`, column `J`.
#[derive(Clone, Copy, Debug, PartialEq, Eq, Structural)]
pub struct Mat4 {
    pub m00: i64,
    pub m01: i64,
    pub m02: i64,
    pub m03: i64,
    pub m10: i64,
    pub m11: i64,
    pub m12: i64,
    pub m13: i64,
    pub m20: i64,
    pub m21: i64,
    pub m22: i64,
    pub m23: i64,
    pub m30: i64,
    pub m31: i64,
    pub m32: i64,
    pub m33: i64,
}

/// One entry of a matrix product: a four-term dot product scaled back
/// down by `SCALE`, truncated toward zero and saturated.
pub open spec fn ent(a0: int, b0: int, a1: int, b1: int, a2: int, b2: int, a3: int, b3: int) -> int {
    fit(tdiv(a0 * b0 + a1 * b1 + a2 * b2 + a3 * b3, SCALE as int))
}

/// Executable form of [`ent`].
pub fn dot4(a0: i64, b0: i64, a1: i64, b1: i64, a2: i64, b2: i64, a3: i64, b3: i64) -> (r: i64)
    requires
        -FX_MAX <= a0 <= FX_MAX,
        -FX_MAX <= b0 <= FX_MAX,
        -FX_MAX <= a1 <= FX_MAX,
        -FX_MAX <= b1 <= FX_MAX,
        -FX_MAX <= a2 <= FX_MAX,
        -FX_MAX <= b2 <= FX_MAX,
        -FX_MAX <= a3 <= FX_MAX,
        -FX_MAX <= b3 <= FX_MAX,
    ensures
        r as int == ent(a0 as int, b0 as int, a1 as int, b1 as int, a2 as int, b2 as int, a3 as int, b3 as int),
{
    proof {
        lemma_mul_bounds(a0 as int, b0 as int, FX_MAX as int, FX_MAX as int);
        lemma_mul_bounds(a1 as int, b1 as int, FX_MAX as int, FX_MAX as int);
        lemma_mul_bounds(a2 as int, b2 as int, FX_MAX as int, FX_MAX as int);
        lemma_mul_bounds(a3 as int, b3 as int, FX_MAX as int, FX_MAX as int);
    }
    let s: i128 = (a0 as i128) * (b0 as i128) + (a1 as i128) * (b1 as i128)
        + (a2 as i128) * (b2 as i128) + (a3 as i128) * (b3 as i128);
    clamp_fx(div_scale(s))
}

impl Mat4 {
    /// All entries within the stored fixed-point range.
    pub open spec fn wf(self) -> bool {
        &&& -FX_MAX <= self.m00 <= FX_MAX
        &&& -FX_MAX <= self.m01 <= FX_MAX
        &&& -FX_MAX <= self.m02 <= FX_MAX
        &&& -FX_MAX <= self.m03 <= FX_MAX
        &&& -FX_MAX <= self.m10 <= FX_MAX
        &&& -FX_MAX <= self.m11 <= FX_MAX
        &&& -FX_MAX <= self.m12 <= FX_MAX
        &&& -FX_MAX <= self.m13 <= FX_MAX
        &&& -FX_MAX <= self.m20 <= FX_MAX
        &&& -FX_MAX <= self.m21 <= FX_MAX
        &&& -FX_MAX <= self.m22 <= FX_MAX
        &&& -FX_MAX <= self.m23 <= FX_MAX
        &&& -FX_MAX <= self.m30 <= FX_MAX
        &&& -FX_MAX <= self.m31 <= FX_MAX
        &&& -FX_MAX <= self.m32 <= FX_MAX
        &&& -FX_MAX <= self.m33 <= FX_MAX
    }

    /// The identity transform (`SCALE` stands for `1.0`).
    pub open spec fn spec_identity() -> Mat4 {
        Mat4 {
            m00: SCALE,
            m01: 0i64,
            m02: 0i64,
            m03: 0i64,
            m10: 0i64,
            m11: SCALE,
            m12: 0i64,
            m13: 0i64,
            m20: 0i64,
            m21: 0i64,
            m22: SCALE,
            m23: 0i64,
            m30: 0i64,
            m31: 0i64,
            m32: 0i64,
            m33: SCALE,
        }
    }

    /// The matrix product `a * b`, entry by entry.
    pub open spec fn spec_mul(a: Mat4, b: Mat4) -> Mat4 {
        Mat4 {
            m00: ent(a.m00 as int, b.m00 as int, a.m01 as int, b.m10 as int, a.m02 as int, b.m20 as int, a.m03 as int, b.m30 as int) as i64,
            m01: ent(a.m00 as int, b.m01 as int, a.m01 as int, b.m11 as int, a.m02 as int, b.m21 as int, a.m03 as int, b.m31 as int) as i64,
            m02: ent(a.m00 as int, b.m02 as int, a.m01 as int, b.m12 as int, a.m02 as int, b.m22 as int, a.m03 as int, b.m32 as int) as i64,
            m03: ent(a.m00 as int, b.m03 as int, a.m01 as int, b.m13 as int, a.m02 as int, b.m23 as int, a.m03 as int, b.m33 as int) as i64,
            m10: ent(a.m10 as int, b.m00 as int, a.m11 as int, b.m10 as int, a.m12 as int, b.m20 as int, a.m13 as int, b.m30 as int) as i64,
            m11: ent(a.m10 as int, b.m01 as int, a.m11 as int, b.m11 as int, a.m12 as int, b.m21 as int, a.m13 as int, b.m31 as int) as i64,
            m12: ent(a.m10 as int, b.m02 as int, a.m11 as int, b.m12 as int, a.m12 as int, b.m22 as int, a.m13 as int, b.m32 as int) as i64,
            m13: ent(a.m10 as int, b.m03 as int, a.m11 as int, b.m13 as int, a.m12 as int, b.m23 as int, a.m13 as int, b.m33 as int) as i64,
            m20: ent(a.m20 as int, b.m00 as int, a.m21 as int, b.m10 as int, a.m22 as int, b.m20 as int, a.m23 as int, b.m30 as int) as i64,
            m21: ent(a.m20 as int, b.m01 as int, a.m21 as int, b.m11 as int, a.m22 as int, b.m21 as int, a.m23 as int, b.m31 as int) as i64,
            m22: ent(a.m20 as int, b.m02 as int, a.m21 as int, b.m12 as int, a.m22 as int, b.m22 as int, a.m23 as int, b.m32 as int) as i64,
            m23: ent(a.m20 as int, b.m03 as int, a.m21 as int, b.m13 as int, a.m22 as int, b.m23 as int, a.m23 as int, b.m33 as int) as i64,
            m30: ent(a.m30 as int, b.m00 as int, a.m31 as int, b.m10 as int, a.m32 as int, b.m20 as int, a.m33 as int, b.m30 as int) as i64,
            m31: ent(a.m30 as int, b.m01 as int, a.m31 as int, b.m11 as int, a.m32 as int, b.m21 as int, a.m33 as int, b.m31 as int) as i64,
            m32: ent(a.m30 as int, b.m02 as int, a.m31 as int, b.m12 as int, a.m32 as int, b.m22 as int, a.m33 as int, b.m32 as int) as i64,
            m33: ent(a.m30 as int, b.m03 as int, a.m31 as int, b.m13 as int, a.m32 as int, b.m23 as int, a.m33 as int, b.m33 as int) as i64,
        }
    }

    /// Transform a point (homogeneous coordinate `1.0`, i.e. `SCALE`).
    pub open spec fn spec_transform_point(m: Mat4, v: Vec3) -> Vec3 {
        Vec3 {
            x: ent(m.m00 as int, v.x as int, m.m01 as int, v.y as int, m.m02 as int, v.z as int, m.m03 as int, SCALE as int) as i64,
            y: ent(m.m10 as int, v.x as int, m.m11 as int, v.y as int, m.m12 as int, v.z as int, m.m13 as int, SCALE as int) as i64,
            z: ent(m.m20 as int, v.x as int, m.m21 as int, v.y as int, m.m22 as int, v.z as int, m.m23 as int, SCALE as int) as i64,
        }
    }

    /// The translation column of the matrix, as a point.
    pub open spec fn spec_translation(m: Mat4) -> Vec3 {
        Vec3 { x: m.m03, y: m.m13, z: m.m23 }
    }

    pub fn identity() -> (r: Mat4)
        ensures
            r == Mat4::spec_identity(),
            r.wf(),
    {
        Mat4 {
            m00: SCALE,
            m01: 0,
            m02: 0,
            m03: 0,
            m10: 0,
            m11: SCALE,
            m12: 0,
            m13: 0,
            m20: 0,
            m21: 0,
            m22: SCALE,
            m23: 0,
            m30: 0,
            m31: 0,
            m32: 0,
            m33: SCALE,
        }
    }

    /// Matrix product.
    pub fn mul_mat(&self, b: &Mat4) -> (r: Mat4)
        requires
            self.wf(),
            b.wf(),
        ensures
            r == Mat4::spec_mul(*self, *b),
            r.wf(),
    {
        Mat4 {
            m00: dot4(self.m00, b.m00, self.m01, b.m10, self.m02, b.m20, self.m03, b.m30),
            m01: dot4(self.m00, b.m01, self.m01, b.m11, self.m02, b.m21, self.m03, b.m31),
            m02: dot4(self.m00, b.m02, self.m01, b.m12, self.m02, b.m22, self.m03, b.m32),
            m03: dot4(self.m00, b.m03, self.m01, b.m13, self.m02, b.m23, self.m03, b.m33),
            m10: dot4(self.m10, b.m00, self.m11, b.m10, self.m12, b.m20, self.m13, b.m30),
            m11: dot4(self.m10, b.m01, self.m11, b.m11, self.m12, b.m21, self.m13, b.m31),
            m12: dot4(self.m10, b.m02, self.m11, b.m12, self.m12, b.m22, self.m13, b.m32),
            m13: dot4(self.m10, b.m03, self.m11, b.m13, self.m12, b.m23, self.m13, b.m33),
            m20: dot4(self.m20, b.m00, self.m21, b.m10, self.m22, b.m20, self.m23, b.m30),
            m21: dot4(self.m20, b.m01, self.m21, b.m11, self.m22, b.m21, self.m23, b.m31),
            m22: dot4(self.m20, b.m02, self.m21, b.m12, self.m22, b.m22, self.m23, b.m32),
            m23: dot4(self.m20, b.m03, self.m21, b.m13, self.m22, b.m23, self.m23, b.m33),
            m30: dot4(self.m30, b.m00, self.m31, b.m10, self.m32, b.m20, self.m33, b.m30),
            m31: dot4(self.m30, b.m01, self.m31, b.m11, self.m32, b.m21, self.m33, b.m31),
            m32: dot4(self.m30, b.m02, self.m31, b.m12, self.m32, b.m22, self.m33, b.m32),
            m33: dot4(self.m30, b.m03, self.m31, b.m13, self.m32, b.m23, self.m33, b.m33),
        }
    }

    /// Transform a point by this matrix.
    pub fn transform_point(&self, v: Vec3) -> (r: Vec3)
        requires
            self.wf(),
            v.wf(),
        ensures
            r == Mat4::spec_transform_point(*self, v),
            r.wf(),
    {
        Vec3 {
            x: dot4(self.m00, v.x, self.m01, v.y, self.m02, v.z, self.m03, SCALE),
            y: dot4(self.m10, v.x, self.m11, v.y, self.m12, v.z, self.m13, SCALE),
            z: dot4(self.m20, v.x, self.m21, v.y, self.m22, v.z, self.m23, SCALE),
        }
    }

    /// The translation column of the matrix, as a point.
    pub fn translation(&self) -> (r: Vec3)
        ensures
            r == Mat4::spec_translation(*self),
            self.wf() ==> r.wf(),
    {
        Vec3 { x: self.m03, y: self.m13, z: self.m23 }
    }
}

} // verus!
