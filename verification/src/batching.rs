//! Instance batching for the renderer.
//!
//! Per frame the renderer gets one instance record per node, in node
//! order, and a list of draw batches: maximal contiguous runs of nodes
//! sharing one mesh, so each batch is a single indexed draw call. The
//! contract pins the batch list completely: batches tile the node array
//! in order, every node in a batch carries the batch's mesh, every
//! batch is non-empty, and a batch never starts where the previous
//! node has the same mesh (maximality).

use vstd::prelude::*;
use crate::mat4::Mat4;
use crate::material::Material;
use crate::scene::{spec_is_descendant, spec_world_mat, Scene};

verus! {

/// The instance is drawn highlighted as hovered.
pub const STATE_HOVERED: u32 = 0x01;

/// The instance is drawn highlighted as dragged.
pub const STATE_DRAGGING: u32 = 0x02;

/// Per-node data handed to the renderer, in node order.
#[derive(Clone, Copy, Debug)]
pub struct InstanceData {
    pub world: Mat4,
    pub color: Material,
    pub state_flags: u32,
}

/// One indexed draw call: `count` instances starting at `start`, all
/// with mesh `mesh_id`.
#[derive(Clone, Copy, Debug, PartialEq, Eq, Structural)]
pub struct DrawBatch {
    pub mesh_id: usize,
    pub start: u32,
    pub count: u32,
}

/// The highlight flags of node `i`: while a drag runs, the picked node
/// and all its descendants are flagged as dragged; otherwise the
/// hovered node is flagged as hovered.
pub open spec fn spec_state_flags(s: Scene, i: int) -> u32 {
    if s.picking.drag is Some {
        match s.picking.picked_node {
            Some(dragged) => if i == dragged as int || spec_is_descendant(
                s.nodes@,
                i,
                dragged as int,
            ) {
                STATE_DRAGGING
            } else {
                0u32
            },
            None => 0u32,
        }
    } else if s.picking.hovered_node == Some(i as u32) {
        STATE_HOVERED
    } else {
        0u32
    }
}

/// The instance record of node `i`: its world matrix, its material's
/// color, and its highlight flags.
pub open spec fn spec_instance(s: Scene, i: int) -> InstanceData {
    InstanceData {
        world: spec_world_mat(s.nodes@, i),
        color: s.materials@[s.nodes@[i].material_id as int],
        state_flags: spec_state_flags(s, i),
    }
}

/// Build the per-instance array, in node order.
pub fn build_instance_data(scene: &Scene) -> (r: Vec<InstanceData>)
    requires
        scene.wf(),
    ensures
        r@.len() == scene.nodes@.len(),
        forall|i: int| 0 <= i < r@.len() ==> #[trigger] r@[i] == spec_instance(*scene, i),
{
    let n = scene.nodes.len();
    let mut r: Vec<InstanceData> = Vec::new();
    let dragging = scene.picking.is_dragging();
    for i in 0..n
        invariant
            scene.wf(),
            n == scene.nodes@.len(),
            dragging == (scene.picking.drag is Some),
            r@.len() == i,
            forall|k: int| 0 <= k < r@.len() ==> #[trigger] r@[k] == spec_instance(*scene, k),
    {
        let node = scene.nodes[i];
        let world = scene.compute_world_transform(i as u32);
        let color = scene.materials[node.material_id];
        let mut state_flags: u32 = 0;
        if dragging {
            if let Some(dragged) = scene.picking.picked_node {
                if (i as u32) == dragged || self_is_descendant(scene, i as u32, dragged) {
                    state_flags = STATE_DRAGGING;
                }
            }
        } else {
            if let Some(hovered) = scene.picking.hovered_node {
                if hovered == (i as u32) {
                    state_flags = STATE_HOVERED;
                }
            }
        }
        r.push(InstanceData { world, color, state_flags });
    }
    r
}

/// `Scene::is_descendant_of` under its precondition (a helper keeping
/// the builder loop small).
fn self_is_descendant(scene: &Scene, child: u32, ancestor: u32) -> (r: bool)
    requires
        scene.wf(),
        (child as int) < scene.nodes@.len(),
    ensures
        r == spec_is_descendant(scene.nodes@, child as int, ancestor as int),
{
    scene.is_descendant_of(child, ancestor)
}

/// Partition the node array into maximal contiguous same-mesh runs, in
/// node order: the draw calls of one frame.
pub fn compute_draw_batches(scene: &Scene) -> (r: Vec<DrawBatch>)
    requires
        scene.wf(),
    ensures
        (r@.len() == 0) == (scene.nodes@.len() == 0),
        r@.len() > 0 ==> r@[0].start == 0,
        r@.len() > 0 ==> (r@[r@.len() - 1].start + r@[r@.len() - 1].count) == scene.nodes@.len(),
        forall|k: int| 0 <= k < r@.len() ==> (#[trigger] r@[k]).count >= 1,
        forall|k: int|
            0 < k < r@.len() ==> (#[trigger] r@[k]).start == r@[k - 1].start + r@[k - 1].count,
        forall|k: int, j: int|
            0 <= k < r@.len() && (#[trigger] r@[k]).start <= j < r@[k].start + r@[k].count
                ==> (#[trigger] scene.nodes@[j]).mesh_id == r@[k].mesh_id,
        forall|k: int|
            0 < k < r@.len() ==> scene.nodes@[(#[trigger] r@[k]).start as int].mesh_id
                != scene.nodes@[r@[k].start - 1].mesh_id,
{
    let n = scene.nodes.len();
    let mut r: Vec<DrawBatch> = Vec::new();
    if n == 0 {
        return r;
    }
    let mut start: u32 = 0;
    let mut count: u32 = 1;
    for i in 1..n
        invariant
            scene.wf(),
            n == scene.nodes@.len(),
            1 <= i <= n,
            (start as int) + (count as int) == i,
            count >= 1,
            forall|j: int|
                start as int <= j < i ==> scene.nodes@[j].mesh_id == scene.nodes@[
                    start as int
                ].mesh_id,
            start > 0 ==> scene.nodes@[start as int].mesh_id != scene.nodes@[
                start as int - 1
            ].mesh_id,
            (r@.len() == 0) == (start == 0),
            r@.len() > 0 ==> r@[0].start == 0,
            r@.len() > 0 ==> (r@[r@.len() - 1].start + r@[r@.len() - 1].count) == start as int,
            forall|k: int| 0 <= k < r@.len() ==> (#[trigger] r@[k]).count >= 1,
            forall|k: int|
                0 < k < r@.len() ==> (#[trigger] r@[k]).start == r@[k - 1].start + r@[k - 1].count,
            forall|k: int, j: int|
                0 <= k < r@.len() && (#[trigger] r@[k]).start <= j < r@[k].start + r@[k].count
                    ==> (#[trigger] scene.nodes@[j]).mesh_id == r@[k].mesh_id,
            forall|k: int|
                0 < k < r@.len() ==> scene.nodes@[(#[trigger] r@[k]).start as int].mesh_id
                    != scene.nodes@[r@[k].start - 1].mesh_id,
    {
        if scene.nodes[i].mesh_id == scene.nodes[i - 1].mesh_id {
            count = count + 1;
        } else {
            r.push(DrawBatch { mesh_id: scene.nodes[i - 1].mesh_id, start, count });
            start = i as u32;
            count = 1;
        }
    }
    r.push(DrawBatch { mesh_id: scene.nodes[n - 1].mesh_id, start, count });
    r
}

} // verus!
