//! Materials: an RGBA color per scene entity.

use vstd::prelude::*;
use crate::fixed::SCALE;

verus! {

/// An RGBA color; `SCALE` is full intensity (`1.0`).
#[derive(Clone, Copy, Debug, PartialEq, Eq, Structural)]
pub struct Material {
    pub r: i64,
    pub g: i64,
    pub b: i64,
    pub a: i64,
}

impl Material {
    pub fn new(r: i64, g: i64, b: i64, a: i64) -> (m: Material)
        ensures
            m == (Material { r, g, b, a }),
    {
        Material { r, g, b, a }
    }

    /// An opaque color from its three channels.
    pub fn from_rgb(r: i64, g: i64, b: i64) -> (m: Material)
        ensures
            m == (Material { r, g, b, a: SCALE }),
    {
        Material { r, g, b, a: SCALE }
    }
}

} // verus!
