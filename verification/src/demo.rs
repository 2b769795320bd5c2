//! A built-in demonstration scene: a ground plane, a few cubes, a
//! grid of ground lines, and a three-level parent/child hierarchy.

use vstd::prelude::*;
use crate::material::Material;
use crate::mesh::Mesh;
use crate::node::SceneNode;
use crate::scene::Scene;
use crate::transform::{Quat, Transform};
use crate::vec3::Vec3;

verus! {

/// Build the demonstration scene: 3 meshes, 9 materials, and 21 nodes,
/// the last four forming a parent / two children / grandchild chain.
pub fn create_demo_scene() -> (s: Scene)
    ensures
        s.wf(),
        s.meshes@.len() == 3,
        s.materials@.len() == 9,
        s.nodes@.len() == 21,
        s.edge_node_refs@.len() == 0,
        s.meshes@[0].vertices@ == Mesh::spec_cube_vertices(),
        s.meshes@[0].indices@ == Mesh::spec_cube_indices(),
        s.meshes@[1].vertices@ == Mesh::spec_quad_vertices(),
        s.meshes@[1].indices@ == Mesh::spec_quad_indices(),
        s.meshes@[2].vertices@ == Mesh::spec_line_vertices(50),
        s.meshes@[2].indices@ == Mesh::spec_quad_indices(),
        forall|i: int| 0 <= i < 18 && i != 17 ==> (#[trigger] s.nodes@[i]).parent_id is None,
        s.nodes@[17].parent_id is None,
        s.nodes@[18].parent_id == Some(17u32),
        s.nodes@[19].parent_id == Some(17u32),
        s.nodes@[20].parent_id == Some(18u32),
        forall|i: int| 0 <= i < s.nodes@.len() ==> (#[trigger] s.nodes@[i]).selectable,
{
    let mut scene = Scene::new();
    scene.meshes.push(Mesh::cube());
    scene.meshes.push(Mesh::quad());
    scene.meshes.push(Mesh::line_segment(50));
    scene.materials.push(Material::from_rgb(1000, 0, 0));
    scene.materials.push(Material::from_rgb(0, 0, 1000));
    scene.materials.push(Material::from_rgb(0, 1000, 0));
    scene.materials.push(Material::from_rgb(500, 500, 500));
    scene.materials.push(Material::from_rgb(0, 0, 0));
    scene.materials.push(Material::from_rgb(1000, 1000, 0));
    scene.materials.push(Material::from_rgb(0, 1000, 1000));
    scene.materials.push(Material::from_rgb(1000, 0, 1000));
    scene.materials.push(Material::from_rgb(1000, 1000, 1000));
    // A quarter turn about the vertical axis, for the crossing grid lines.
    let yaw_quarter = Quat::yaw_from_direction(0, -1000);
    scene.nodes.push(SceneNode::new(1, 3, Transform::new(Vec3 { x: 0, y: 0, z: 0 }, Quat::identity(), Vec3 { x: 10000, y: 1000, z: 10000 }), true));
    scene.nodes.push(SceneNode::new(0, 0, Transform::new(Vec3 { x: -2000, y: 500, z: 0 }, Quat::identity(), Vec3 { x: 1000, y: 1000, z: 1000 }), true));
    scene.nodes.push(SceneNode::new(0, 1, Transform::new(Vec3 { x: 2000, y: 500, z: 0 }, Quat::identity(), Vec3 { x: 1000, y: 1000, z: 1000 }), true));
    scene.nodes.push(SceneNode::new(0, 2, Transform::new(Vec3 { x: 0, y: 1000, z: 2000 }, Quat::identity(), Vec3 { x: 500, y: 500, z: 500 }), true));
    scene.nodes.push(SceneNode::new(0, 0, Transform::new(Vec3 { x: -4000, y: 300, z: -3000 }, Quat::identity(), Vec3 { x: 600, y: 600, z: 600 }), true));
    scene.nodes.push(SceneNode::new(0, 1, Transform::new(Vec3 { x: 4000, y: 300, z: -3000 }, Quat::identity(), Vec3 { x: 600, y: 600, z: 600 }), true));
    scene.nodes.push(SceneNode::new(0, 2, Transform::new(Vec3 { x: 0, y: 300, z: -4000 }, Quat::identity(), Vec3 { x: 600, y: 600, z: 600 }), true));
    scene.nodes.push(SceneNode::new(2, 4, Transform::new(Vec3 { x: 0, y: 10, z: -4000 }, Quat::identity(), Vec3 { x: 8000, y: 1000, z: 1000 }), true));
    scene.nodes.push(SceneNode::new(2, 4, Transform::new(Vec3 { x: 0, y: 10, z: -2000 }, Quat::identity(), Vec3 { x: 8000, y: 1000, z: 1000 }), true));
    scene.nodes.push(SceneNode::new(2, 4, Transform::new(Vec3 { x: 0, y: 10, z: 0 }, Quat::identity(), Vec3 { x: 8000, y: 1000, z: 1000 }), true));
    scene.nodes.push(SceneNode::new(2, 4, Transform::new(Vec3 { x: 0, y: 10, z: 2000 }, Quat::identity(), Vec3 { x: 8000, y: 1000, z: 1000 }), true));
    scene.nodes.push(SceneNode::new(2, 4, Transform::new(Vec3 { x: 0, y: 10, z: 4000 }, Quat::identity(), Vec3 { x: 8000, y: 1000, z: 1000 }), true));
    scene.nodes.push(SceneNode::new(2, 4, Transform::new(Vec3 { x: -4000, y: 10, z: 0 }, yaw_quarter, Vec3 { x: 8000, y: 1000, z: 1000 }), true));
    scene.nodes.push(SceneNode::new(2, 4, Transform::new(Vec3 { x: -2000, y: 10, z: 0 }, yaw_quarter, Vec3 { x: 8000, y: 1000, z: 1000 }), true));
    scene.nodes.push(SceneNode::new(2, 4, Transform::new(Vec3 { x: 0, y: 10, z: 0 }, yaw_quarter, Vec3 { x: 8000, y: 1000, z: 1000 }), true));
    scene.nodes.push(SceneNode::new(2, 4, Transform::new(Vec3 { x: 2000, y: 10, z: 0 }, yaw_quarter, Vec3 { x: 8000, y: 1000, z: 1000 }), true));
    scene.nodes.push(SceneNode::new(2, 4, Transform::new(Vec3 { x: 4000, y: 10, z: 0 }, yaw_quarter, Vec3 { x: 8000, y: 1000, z: 1000 }), true));
    scene.nodes.push(SceneNode::new(0, 5, Transform::new(Vec3 { x: 0, y: 1500, z: -2000 }, Quat::identity(), Vec3 { x: 1000, y: 1000, z: 1000 }), true));
    scene.nodes.push(SceneNode::new(0, 6, Transform::new(Vec3 { x: 1500, y: 0, z: 0 }, Quat::identity(), Vec3 { x: 500, y: 500, z: 500 }), true).with_parent(17));
    scene.nodes.push(SceneNode::new(0, 7, Transform::new(Vec3 { x: -1500, y: 0, z: 0 }, Quat::identity(), Vec3 { x: 500, y: 500, z: 500 }), true).with_parent(17));
    scene.nodes.push(SceneNode::new(0, 8, Transform::new(Vec3 { x: 0, y: 1000, z: 0 }, Quat::identity(), Vec3 { x: 300, y: 300, z: 300 }), true).with_parent(18));
    scene
}

} // verus!
