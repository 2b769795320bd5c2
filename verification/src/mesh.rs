//! Meshes: immutable vertex and triangle-index tables.
//!
//! A mesh owns an ordered sequence of vertex positions and an ordered
//! sequence of triangle indices (three per triangle). The unit shapes
//! here span `[-0.5, 0.5]` in fixed-point units, as the node transforms
//! expect, and are wound so that outward faces are front-facing: the
//! picking engine keeps a triangle only when its winding normal points
//! against the ray.

use vstd::prelude::*;
use crate::fixed::FX_MAX;
use crate::vec3::Vec3;

verus! {

/// An immutable mesh: vertex positions plus triangle indices.
#[derive(Debug)]
pub struct Mesh {
    pub vertices: Vec<Vec3>,
    pub indices: Vec<u32>,
}

impl Mesh {
    /// Every index points at a vertex and every vertex is in range: the
    /// construction-time invariant all picking code relies on.
    pub open spec fn wf(self) -> bool {
        &&& forall|i: int|
            0 <= i < self.indices@.len() ==> (#[trigger] self.indices@[i]) < self.vertices@.len()
        &&& forall|i: int| 0 <= i < self.vertices@.len() ==> (#[trigger] self.vertices@[i]).wf()
    }

    /// The vertices of the unit cube, four per face.
    pub open spec fn spec_cube_vertices() -> Seq<Vec3> {
        seq![
        Vec3 { x: -500i64, y: -500i64, z: 500i64 },
        Vec3 { x: 500i64, y: -500i64, z: 500i64 },
        Vec3 { x: 500i64, y: 500i64, z: 500i64 },
        Vec3 { x: -500i64, y: 500i64, z: 500i64 },
        Vec3 { x: -500i64, y: -500i64, z: -500i64 },
        Vec3 { x: 500i64, y: -500i64, z: -500i64 },
        Vec3 { x: 500i64, y: 500i64, z: -500i64 },
        Vec3 { x: -500i64, y: 500i64, z: -500i64 },
        Vec3 { x: -500i64, y: 500i64, z: 500i64 },
        Vec3 { x: 500i64, y: 500i64, z: 500i64 },
        Vec3 { x: 500i64, y: 500i64, z: -500i64 },
        Vec3 { x: -500i64, y: 500i64, z: -500i64 },
        Vec3 { x: -500i64, y: -500i64, z: 500i64 },
        Vec3 { x: 500i64, y: -500i64, z: 500i64 },
        Vec3 { x: 500i64, y: -500i64, z: -500i64 },
        Vec3 { x: -500i64, y: -500i64, z: -500i64 },
        Vec3 { x: 500i64, y: -500i64, z: 500i64 },
        Vec3 { x: 500i64, y: 500i64, z: 500i64 },
        Vec3 { x: 500i64, y: 500i64, z: -500i64 },
        Vec3 { x: 500i64, y: -500i64, z: -500i64 },
        Vec3 { x: -500i64, y: -500i64, z: 500i64 },
        Vec3 { x: -500i64, y: 500i64, z: 500i64 },
        Vec3 { x: -500i64, y: 500i64, z: -500i64 },
        Vec3 { x: -500i64, y: -500i64, z: -500i64 }
        ]
    }

    /// The triangle indices of the unit cube.
    pub open spec fn spec_cube_indices() -> Seq<u32> {
        seq![2u32, 0u32, 1u32, 3u32, 0u32, 2u32, 6u32, 5u32, 4u32, 7u32, 6u32, 4u32, 10u32, 8u32, 9u32, 11u32, 8u32, 10u32, 14u32, 13u32, 12u32, 15u32, 14u32, 12u32, 16u32, 18u32, 17u32, 16u32, 19u32, 18u32, 21u32, 22u32, 20u32, 22u32, 23u32, 20u32]
    }

    /// The unit cube centered at the origin.
    pub fn cube() -> (m: Mesh)
        ensures
            m.vertices@ == Mesh::spec_cube_vertices(),
            m.indices@ == Mesh::spec_cube_indices(),
            m.wf(),
    {
        let vertices: Vec<Vec3> = vec![
            Vec3 { x: -500, y: -500, z: 500 },
            Vec3 { x: 500, y: -500, z: 500 },
            Vec3 { x: 500, y: 500, z: 500 },
            Vec3 { x: -500, y: 500, z: 500 },
            Vec3 { x: -500, y: -500, z: -500 },
            Vec3 { x: 500, y: -500, z: -500 },
            Vec3 { x: 500, y: 500, z: -500 },
            Vec3 { x: -500, y: 500, z: -500 },
            Vec3 { x: -500, y: 500, z: 500 },
            Vec3 { x: 500, y: 500, z: 500 },
            Vec3 { x: 500, y: 500, z: -500 },
            Vec3 { x: -500, y: 500, z: -500 },
            Vec3 { x: -500, y: -500, z: 500 },
            Vec3 { x: 500, y: -500, z: 500 },
            Vec3 { x: 500, y: -500, z: -500 },
            Vec3 { x: -500, y: -500, z: -500 },
            Vec3 { x: 500, y: -500, z: 500 },
            Vec3 { x: 500, y: 500, z: 500 },
            Vec3 { x: 500, y: 500, z: -500 },
            Vec3 { x: 500, y: -500, z: -500 },
            Vec3 { x: -500, y: -500, z: 500 },
            Vec3 { x: -500, y: 500, z: 500 },
            Vec3 { x: -500, y: 500, z: -500 },
            Vec3 { x: -500, y: -500, z: -500 },
        ];
        let indices: Vec<u32> = vec![2, 0, 1, 3, 0, 2, 6, 5, 4, 7, 6, 4, 10, 8, 9, 11, 8, 10, 14, 13, 12, 15, 14, 12, 16, 18, 17, 16, 19, 18, 21, 22, 20, 22, 23, 20];
        proof {
            assert(vertices@ =~= Mesh::spec_cube_vertices());
            assert(indices@ =~= Mesh::spec_cube_indices());
        }
        Mesh { vertices, indices }
    }

    /// The vertices of the unit ground quad in the XZ plane.
    pub open spec fn spec_quad_vertices() -> Seq<Vec3> {
        seq![
        Vec3 { x: -500i64, y: 0i64, z: -500i64 },
        Vec3 { x: 500i64, y: 0i64, z: -500i64 },
        Vec3 { x: 500i64, y: 0i64, z: 500i64 },
        Vec3 { x: -500i64, y: 0i64, z: 500i64 }
        ]
    }

    /// The triangle indices shared by the flat quads.
    pub open spec fn spec_quad_indices() -> Seq<u32> {
        seq![0u32, 2u32, 1u32, 0u32, 3u32, 2u32]
    }

    /// A unit quad lying flat in the XZ plane.
    pub fn quad() -> (m: Mesh)
        ensures
            m.vertices@ == Mesh::spec_quad_vertices(),
            m.indices@ == Mesh::spec_quad_indices(),
            m.wf(),
    {
        let vertices: Vec<Vec3> = vec![
            Vec3 { x: -500, y: 0, z: -500 },
            Vec3 { x: 500, y: 0, z: -500 },
            Vec3 { x: 500, y: 0, z: 500 },
            Vec3 { x: -500, y: 0, z: 500 },
        ];
        let indices: Vec<u32> = vec![0, 2, 1, 0, 3, 2];
        proof {
            assert(vertices@ =~= Mesh::spec_quad_vertices());
            assert(indices@ =~= Mesh::spec_quad_indices());
        }
        Mesh { vertices, indices }
    }

    /// The vertices of a thin line quad of the given width.
    pub open spec fn spec_line_vertices(width: int) -> Seq<Vec3> {
        let h = width / 2;
        seq![
        Vec3 { x: -500i64, y: 0i64, z: -h as i64 },
        Vec3 { x: 500i64, y: 0i64, z: -h as i64 },
        Vec3 { x: 500i64, y: 0i64, z: h as i64 },
        Vec3 { x: -500i64, y: 0i64, z: h as i64 }
        ]
    }

    /// A thin quad of unit length along X, lying flat in the XZ plane:
    /// a line segment on the ground once stretched by a transform.
    pub fn line_segment(width: i64) -> (m: Mesh)
        requires
            0 <= width <= FX_MAX,
        ensures
            m.vertices@ == Mesh::spec_line_vertices(width as int),
            m.indices@ == Mesh::spec_quad_indices(),
            m.wf(),
    {
        let h: i64 = ((width as u64) / 2) as i64;
        let nh: i64 = -h;
        let vertices: Vec<Vec3> = vec![
            Vec3 { x: -500, y: 0, z: nh },
            Vec3 { x: 500, y: 0, z: nh },
            Vec3 { x: 500, y: 0, z: h },
            Vec3 { x: -500, y: 0, z: h },
        ];
        let indices: Vec<u32> = vec![0, 2, 1, 0, 3, 2];
        proof {
            assert(vertices@ =~= Mesh::spec_line_vertices(width as int));
            assert(indices@ =~= Mesh::spec_quad_indices());
        }
        Mesh { vertices, indices }
    }
}

/// How many indices one cube mesh draws.
pub fn index_count() -> (r: u32)
    ensures
        r == Mesh::spec_cube_indices().len(),
        r == 36,
{
    36
}

} // verus!
