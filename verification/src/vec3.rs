//! Three-component fixed-point vectors.

use vstd::prelude::*;
use crate::fixed::{fx_add, fx_sub, add_fx, sub_fx, FX_MAX};

verus! {

/// A point or direction in fixed-point world space.
#[derive(Clone, Copy, Debug, PartialEq, Eq, Structural)]
pub struct Vec3 {
    pub x: i64,
    pub y: i64,
    pub z: i64,
}

impl Vec3 {
    /// All components within the stored fixed-point range.
    pub open spec fn wf(self) -> bool {
        &&& -FX_MAX <= self.x <= FX_MAX
        &&& -FX_MAX <= self.y <= FX_MAX
        &&& -FX_MAX <= self.z <= FX_MAX
    }

    pub open spec fn spec_add(a: Vec3, b: Vec3) -> Vec3 {
        Vec3 {
            x: fx_add(a.x as int, b.x as int) as i64,
            y: fx_add(a.y as int, b.y as int) as i64,
            z: fx_add(a.z as int, b.z as int) as i64,
        }
    }

    pub open spec fn spec_sub(a: Vec3, b: Vec3) -> Vec3 {
        Vec3 {
            x: fx_sub(a.x as int, b.x as int) as i64,
            y: fx_sub(a.y as int, b.y as int) as i64,
            z: fx_sub(a.z as int, b.z as int) as i64,
        }
    }

    pub fn new(x: i64, y: i64, z: i64) -> (r: Vec3)
        ensures
            r == (Vec3 { x, y, z }),
    {
        Vec3 { x, y, z }
    }

    pub fn zero() -> (r: Vec3)
        ensures
            r == (Vec3 { x: 0i64, y: 0i64, z: 0i64 }),
            r.wf(),
    {
        Vec3 { x: 0, y: 0, z: 0 }
    }

    /// Component-wise saturating sum.
    pub fn add_sat(self, o: Vec3) -> (r: Vec3)
        ensures
            r == Vec3::spec_add(self, o),
            r.wf(),
    {
        Vec3 { x: add_fx(self.x, o.x), y: add_fx(self.y, o.y), z: add_fx(self.z, o.z) }
    }

    /// Component-wise saturating difference.
    pub fn sub_sat(self, o: Vec3) -> (r: Vec3)
        ensures
            r == Vec3::spec_sub(self, o),
            r.wf(),
    {
        Vec3 { x: sub_fx(self.x, o.x), y: sub_fx(self.y, o.y), z: sub_fx(self.z, o.z) }
    }
}

} // verus!
