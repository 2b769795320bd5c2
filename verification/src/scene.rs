//! The scene: mesh and material tables, the node forest, picking state,
//! and the edge-endpoint table.
//!
//! Node ids are stable array indices; insertion order is significant
//! (it defines batching order) and a parent always stands earlier in
//! the array than its children, so every parent chain terminates.

use vstd::prelude::*;
use crate::mat4::Mat4;
use crate::material::Material;
use crate::mesh::Mesh;
use crate::node::SceneNode;
use crate::picking_state::PickingState;
use crate::transform::Transform;
use crate::vec3::Vec3;

verus! {

/// The world matrix of node `i`: its local matrix, left-multiplied by
/// the parent's world matrix when the node has a parent. (The parent
/// guard `p < i` keeps the definition total; well-formed scenes always
/// satisfy it.)
pub open spec fn spec_world_mat(nodes: Seq<SceneNode>, i: int) -> Mat4
    decreases i,
{
    if 0 <= i < nodes.len() {
        match nodes[i].parent_id {
            Some(p) => if (p as int) < i {
                Mat4::spec_mul(
                    spec_world_mat(nodes, p as int),
                    nodes[i].transform.spec_to_matrix(),
                )
            } else {
                nodes[i].transform.spec_to_matrix()
            },
            None => nodes[i].transform.spec_to_matrix(),
        }
    } else {
        Mat4::spec_identity()
    }
}

/// The world-space position of node `i`: the translation column of its
/// world matrix.
pub open spec fn spec_world_position(nodes: Seq<SceneNode>, i: int) -> Vec3 {
    Mat4::spec_translation(spec_world_mat(nodes, i))
}

/// Node `i` lies strictly below node `a` in the forest.
pub open spec fn spec_is_descendant(nodes: Seq<SceneNode>, i: int, a: int) -> bool
    decreases i,
{
    if 0 <= i < nodes.len() {
        match nodes[i].parent_id {
            Some(p) => if (p as int) < i {
                p as int == a || spec_is_descendant(nodes, p as int, a)
            } else {
                false
            },
            None => false,
        }
    } else {
        false
    }
}

/// Every parent stands earlier in the array than its child.
pub open spec fn parents_ordered(nodes: Seq<SceneNode>) -> bool {
    forall|i: int|
        0 <= i < nodes.len() ==> match (#[trigger] nodes[i]).parent_id {
            Some(p) => (p as int) < i,
            None => true,
        }
}

/// In an ordered forest a descendant's index always exceeds its
/// ancestor's, so no node descends from itself.
pub proof fn lemma_descendant_above(nodes: Seq<SceneNode>, i: int, a: int)
    requires
        parents_ordered(nodes),
        spec_is_descendant(nodes, i, a),
    ensures
        a < i,
    decreases i,
{
    match nodes[i].parent_id {
        Some(p) => {
            if p as int != a {
                lemma_descendant_above(nodes, p as int, a);
            }
        },
        None => {},
    }
}

/// A node's world matrix only depends on the array prefix up to the
/// node, so appending nodes never changes it.
pub proof fn lemma_world_mat_prefix(a: Seq<SceneNode>, b: Seq<SceneNode>, i: int)
    requires
        0 <= i < a.len(),
        a.len() <= b.len(),
        forall|j: int| 0 <= j < a.len() ==> a[j] == b[j],
    ensures
        spec_world_mat(b, i) == spec_world_mat(a, i),
    decreases i,
{
    match a[i].parent_id {
        Some(p) => {
            if (p as int) < i {
                lemma_world_mat_prefix(a, b, p as int);
            }
        },
        None => {},
    }
}

/// A scene: geometry and material tables, the node forest, the hover
/// and drag state, and — parallel to the node array — which pair of
/// nodes each edge node visually connects.
pub struct Scene {
    pub meshes: Vec<Mesh>,
    pub materials: Vec<Material>,
    pub nodes: Vec<SceneNode>,
    pub picking: PickingState,
    pub edge_node_refs: Vec<Option<(u32, u32)>>,
}

impl Scene {
    /// Every node's transform is in range.
    pub open spec fn nodes_wf(self) -> bool {
        forall|i: int| 0 <= i < self.nodes@.len() ==> (#[trigger] self.nodes@[i]).wf()
    }

    /// Every parent stands earlier in the array than its child, so the
    /// forest has no cycles and parent chains terminate.
    pub open spec fn parents_wf(self) -> bool {
        parents_ordered(self.nodes@)
    }

    /// Mesh and material references point into the tables, and node ids
    /// fit in `u32`.
    pub open spec fn ids_wf(self) -> bool {
        &&& self.nodes@.len() < 0x1_0000_0000
        &&& forall|i: int|
            0 <= i < self.nodes@.len() ==> (#[trigger] self.nodes@[i]).mesh_id
                < self.meshes@.len() && self.nodes@[i].material_id < self.materials@.len()
    }

    pub open spec fn meshes_wf(self) -> bool {
        forall|i: int| 0 <= i < self.meshes@.len() ==> (#[trigger] self.meshes@[i]).wf()
    }

    /// The edge table is parallel to a prefix of the node array and
    /// points at existing nodes.
    pub open spec fn edge_refs_wf(self) -> bool {
        &&& self.edge_node_refs@.len() <= self.nodes@.len()
        &&& forall|i: int|
            0 <= i < self.edge_node_refs@.len() ==> match #[trigger] self.edge_node_refs@[i] {
                Some(p) => (p.0 as int) < self.nodes@.len() && (p.1 as int) < self.nodes@.len(),
                None => true,
            }
    }

    pub open spec fn wf(self) -> bool {
        &&& self.nodes_wf()
        &&& self.parents_wf()
        &&& self.ids_wf()
        &&& self.meshes_wf()
        &&& self.edge_refs_wf()
    }

    pub fn new() -> (s: Scene)
        ensures
            s.meshes@.len() == 0,
            s.materials@.len() == 0,
            s.nodes@.len() == 0,
            s.edge_node_refs@.len() == 0,
            s.picking == PickingState::spec_new(),
            s.wf(),
    {
        Scene {
            meshes: Vec::new(),
            materials: Vec::new(),
            nodes: Vec::new(),
            picking: PickingState::new(),
            edge_node_refs: Vec::new(),
        }
    }

    /// Compute the world transform of a node by resolving its parent
    /// chain; a root's world transform is its local matrix. Terminates
    /// because a parent always stands earlier in the array.
    pub fn compute_world_transform(&self, node_id: u32) -> (r: Mat4)
        requires
            self.wf(),
            (node_id as int) < self.nodes@.len(),
        ensures
            r == spec_world_mat(self.nodes@, node_id as int),
            r.wf(),
        decreases node_id,
    {
        let node = self.nodes[node_id as usize];
        match node.parent_id {
            None => node.transform.to_matrix(),
            Some(parent_id) => {
                let parent_world = self.compute_world_transform(parent_id);
                let local = node.transform.to_matrix();
                parent_world.mul_mat(&local)
            },
        }
    }

    /// A node with its position replaced.
    pub open spec fn spec_with_position(n: SceneNode, p: Vec3) -> SceneNode {
        SceneNode { transform: Transform { position: p, ..n.transform }, ..n }
    }

    /// Move a node: replace the position of its local transform. An id
    /// beyond the array changes nothing.
    pub fn update_node_position(&mut self, node_id: u32, new_position: Vec3)
        requires
            new_position.wf(),
        ensures
            (node_id as int) < old(self).nodes@.len() ==> final(self).nodes@ == old(
                self,
            ).nodes@.update(
                node_id as int,
                Scene::spec_with_position(old(self).nodes@[node_id as int], new_position),
            ),
            (node_id as int) >= old(self).nodes@.len() ==> final(self).nodes@ == old(self).nodes@,
            final(self).meshes@ == old(self).meshes@,
            final(self).materials@ == old(self).materials@,
            final(self).picking == old(self).picking,
            final(self).edge_node_refs@ == old(self).edge_node_refs@,
            old(self).wf() ==> final(self).wf(),
    {
        if (node_id as usize) < self.nodes.len() {
            let mut n = self.nodes[node_id as usize];
            n.transform.position = new_position;
            self.nodes.set(node_id as usize, n);
        }
    }

    /// All direct children of a node, in ascending id order.
    pub fn get_children(&self, parent_id: u32) -> (r: Vec<u32>)
        requires
            self.wf(),
        ensures
            forall|k: int|
                0 <= k < r@.len() ==> (#[trigger] r@[k]) < self.nodes@.len()
                    && self.nodes@[r@[k] as int].parent_id == Some(parent_id),
            forall|k1: int, k2: int| 0 <= k1 < k2 < r@.len() ==> r@[k1] < r@[k2],
            forall|i: int|
                0 <= i < self.nodes@.len() && (#[trigger] self.nodes@[i]).parent_id == Some(
                    parent_id,
                ) ==> r@.contains(i as u32),
    {
        let mut r: Vec<u32> = Vec::new();
        let n = self.nodes.len();
        for i in 0..n
            invariant
                self.wf(),
                n == self.nodes@.len(),
                forall|k: int|
                    0 <= k < r@.len() ==> (#[trigger] r@[k]) < i
                        && self.nodes@[r@[k] as int].parent_id == Some(parent_id),
                forall|k1: int, k2: int| 0 <= k1 < k2 < r@.len() ==> r@[k1] < r@[k2],
                forall|i2: int|
                    0 <= i2 < i && (#[trigger] self.nodes@[i2]).parent_id == Some(parent_id)
                        ==> r@.contains(i2 as u32),
        {
            if let Some(p) = self.nodes[i].parent_id {
                if p == parent_id {
                    let ghost old_r = r@;
                    r.push(i as u32);
                    proof {
                        assert(r@[r@.len() - 1] == i as u32);
                        assert forall|i2: int|
                            0 <= i2 < i + 1 && (#[trigger] self.nodes@[i2]).parent_id == Some(
                                parent_id,
                            ) implies r@.contains(i2 as u32) by {
                            if i2 < i {
                                let k = choose|k: int|
                                    0 <= k < old_r.len() && old_r[k] == i2 as u32;
                                assert(r@[k] == i2 as u32);
                            } else {
                                assert(r@[r@.len() - 1] == i2 as u32);
                            }
                        }
                    }
                }
            }
        }
        r
    }

    /// All descendants of a node (children, transitively), in ascending
    /// id order.
    pub fn get_descendants(&self, parent_id: u32) -> (r: Vec<u32>)
        requires
            self.wf(),
        ensures
            forall|k: int|
                0 <= k < r@.len() ==> (#[trigger] r@[k]) < self.nodes@.len()
                    && spec_is_descendant(self.nodes@, r@[k] as int, parent_id as int),
            forall|k1: int, k2: int| 0 <= k1 < k2 < r@.len() ==> r@[k1] < r@[k2],
            forall|i: int|
                0 <= i < self.nodes@.len() && spec_is_descendant(self.nodes@, i, parent_id as int)
                    ==> r@.contains(i as u32),
    {
        let mut r: Vec<u32> = Vec::new();
        let mut mark: Vec<bool> = Vec::new();
        let n = self.nodes.len();
        for i in 0..n
            invariant
                self.wf(),
                n == self.nodes@.len(),
                mark@.len() == i,
                forall|k: int|
                    0 <= k < i ==> #[trigger] mark@[k] == (k == parent_id as int
                        || spec_is_descendant(self.nodes@, k, parent_id as int)),
                forall|k: int|
                    0 <= k < r@.len() ==> (#[trigger] r@[k]) < i && spec_is_descendant(
                        self.nodes@,
                        r@[k] as int,
                        parent_id as int,
                    ),
                forall|k1: int, k2: int| 0 <= k1 < k2 < r@.len() ==> r@[k1] < r@[k2],
                forall|i2: int|
                    0 <= i2 < i && spec_is_descendant(self.nodes@, i2, parent_id as int)
                        ==> r@.contains(i2 as u32),
        {
            let is_desc: bool = if (i as u32) == parent_id {
                false
            } else {
                match self.nodes[i].parent_id {
                    Some(p) => {
                        if p == parent_id {
                            true
                        } else {
                            mark[p as usize]
                        }
                    },
                    None => false,
                }
            };
            let m = ((i as u32) == parent_id) || is_desc;
            mark.push(m);
            proof {
                if (i as u32) == parent_id && spec_is_descendant(
                    self.nodes@,
                    i as int,
                    parent_id as int,
                ) {
                    lemma_descendant_above(self.nodes@, i as int, parent_id as int);
                }
            }
            if is_desc {
                let ghost old_r = r@;
                r.push(i as u32);
                proof {
                    assert(r@[r@.len() - 1] == i as u32);
                    assert forall|i2: int|
                        0 <= i2 < i + 1 && spec_is_descendant(
                            self.nodes@,
                            i2,
                            parent_id as int,
                        ) implies r@.contains(i2 as u32) by {
                        if i2 < i {
                            let k = choose|k: int| 0 <= k < old_r.len() && old_r[k] == i2 as u32;
                            assert(r@[k] == i2 as u32);
                        } else {
                            assert(r@[r@.len() - 1] == i2 as u32);
                        }
                    }
                }
            }
        }
        r
    }

    /// Whether one node lies below another in the forest, by walking
    /// the parent chain upward.
    pub fn is_descendant_of(&self, potential_child: u32, potential_ancestor: u32) -> (r: bool)
        requires
            self.wf(),
            (potential_child as int) < self.nodes@.len(),
        ensures
            r == spec_is_descendant(
                self.nodes@,
                potential_child as int,
                potential_ancestor as int,
            ),
        decreases potential_child,
    {
        match self.nodes[potential_child as usize].parent_id {
            Some(p) => {
                if p == potential_ancestor {
                    true
                } else {
                    self.is_descendant_of(p, potential_ancestor)
                }
            },
            None => false,
        }
    }
}

impl PickingState {
    /// The picked node's data, when its id is in range.
    pub fn get_picked_node(&self, scene: &Scene) -> (r: Option<SceneNode>)
        ensures
            r == match self.picked_node {
                Some(id) => if (id as int) < scene.nodes@.len() {
                    Some(scene.nodes@[id as int])
                } else {
                    None
                },
                None => None,
            },
    {
        match self.picked_node {
            Some(id) => {
                if (id as usize) < scene.nodes.len() {
                    Some(scene.nodes[id as usize])
                } else {
                    None
                }
            },
            None => None,
        }
    }
}

/// A node without a parent resolves to exactly its local matrix.
pub proof fn lemma_root_world_is_local(nodes: Seq<SceneNode>, i: int)
    requires
        0 <= i < nodes.len(),
        nodes[i].parent_id is None,
    ensures
        spec_world_mat(nodes, i) == nodes[i].transform.spec_to_matrix(),
{
}

/// For a three-level chain `a -> b -> c` of local transforms `A`, `B`,
/// `C`, the world matrix of `c` is `(A * B) * C`: the parent's world
/// matrix is always extended on the right by the child's local matrix.
pub proof fn lemma_chain_of_three(nodes: Seq<SceneNode>, a: int, b: int, c: int)
    requires
        0 <= a < b < c < nodes.len(),
        nodes.len() < 0x1_0000_0000,
        nodes[a].parent_id is None,
        nodes[b].parent_id == Some(a as u32),
        nodes[c].parent_id == Some(b as u32),
    ensures
        spec_world_mat(nodes, c) == Mat4::spec_mul(
            Mat4::spec_mul(
                nodes[a].transform.spec_to_matrix(),
                nodes[b].transform.spec_to_matrix(),
            ),
            nodes[c].transform.spec_to_matrix(),
        ),
{
    assert(spec_world_mat(nodes, a) == nodes[a].transform.spec_to_matrix());
    assert(spec_world_mat(nodes, b) == Mat4::spec_mul(
        spec_world_mat(nodes, a),
        nodes[b].transform.spec_to_matrix(),
    ));
    assert(spec_world_mat(nodes, c) == Mat4::spec_mul(
        spec_world_mat(nodes, b),
        nodes[c].transform.spec_to_matrix(),
    ));
}

} // verus!
