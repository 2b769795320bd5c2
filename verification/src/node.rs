//! Scene nodes: one entity of the scene forest.

use vstd::prelude::*;
use crate::transform::Transform;

verus! {

/// An entity in the scene graph: a mesh instance with a material, a
/// local transform, a pick flag, and an optional parent (`None` makes
/// the node a root of the forest).
#[derive(Clone, Copy, Debug)]
pub struct SceneNode {
    pub mesh_id: usize,
    pub material_id: usize,
    pub transform: Transform,
    pub selectable: bool,
    pub parent_id: Option<u32>,
}

impl SceneNode {
    pub open spec fn wf(self) -> bool {
        self.transform.wf()
    }

    /// A root node.
    pub fn new(mesh_id: usize, material_id: usize, transform: Transform, selectable: bool) -> (n:
        SceneNode)
        ensures
            n == (SceneNode { mesh_id, material_id, transform, selectable, parent_id: None }),
    {
        SceneNode { mesh_id, material_id, transform, selectable, parent_id: None }
    }

    /// The same node, re-hung under the given parent.
    pub fn with_parent(self, parent_id: u32) -> (n: SceneNode)
        ensures
            n == (SceneNode { parent_id: Some(parent_id), ..self }),
    {
        SceneNode { parent_id: Some(parent_id), ..self }
    }
}

} // verus!
