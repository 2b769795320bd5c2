//! Pointer-driven node dragging.
//!
//! Pressing on a selectable node locks the drag to it, remembering the
//! world-space offset between the node and the point where the press
//! ray meets the ground plane (the offset's vertical component is
//! discarded: drags are ground-plane-constrained). Each pointer move
//! intersects the new ray with the ground plane, adds the stored
//! offset, pins the vertical coordinate to the ground, writes the
//! result as the node's position, and re-synchronizes every edge
//! attached to the moved node or its descendants.

use vstd::prelude::*;
use vstd::arithmetic::div_mod::lemma_div_multiples_vanish;
use crate::fixed::{fx_add, fx_sub, sub_fx, tdiv, SCALE};
use crate::mapper::{spec_synced_node, update_network_edges};
use crate::mat4::Mat4;
use crate::node::SceneNode;
use crate::picking::{in_pick_range, ray_plane_intersection, spec_ray_plane_intersection};
use crate::picking_state::{DragState, PickingState};
use crate::scene::{spec_world_mat, spec_world_position, Scene};
use crate::transform::Transform;
use crate::vec3::Vec3;

verus! {

/// The ground plane passes through the origin.
pub open spec fn spec_ground_point() -> Vec3 {
    Vec3 { x: 0i64, y: 0i64, z: 0i64 }
}

/// The ground plane's upward normal (`SCALE` is `1.0`).
pub open spec fn spec_ground_normal() -> Vec3 {
    Vec3 { x: 0i64, y: SCALE, z: 0i64 }
}

/// The ground-plane point under a pointer ray, if any.
pub open spec fn spec_ground_hit(ray_origin: Vec3, ray_dir: Vec3) -> Option<Vec3> {
    spec_ray_plane_intersection(ray_origin, ray_dir, spec_ground_point(), spec_ground_normal())
}

/// The drag offset captured at a press: node position minus ground
/// hit, with the vertical component discarded.
pub open spec fn spec_drag_lock_offset(node_pos: Vec3, hit: Vec3) -> Vec3 {
    Vec3 {
        x: fx_sub(node_pos.x as int, hit.x as int) as i64,
        y: 0i64,
        z: fx_sub(node_pos.z as int, hit.z as int) as i64,
    }
}

/// The position a drag writes: ground hit plus stored offset, with the
/// vertical coordinate pinned to the ground plane.
pub open spec fn spec_dragged_position(hit: Vec3, offset: Vec3) -> Vec3 {
    Vec3 {
        x: fx_add(hit.x as int, offset.x as int) as i64,
        y: 0i64,
        z: fx_add(hit.z as int, offset.z as int) as i64,
    }
}

/// Lock the running drag to a node: freeze it as the picked node and
/// store the ground-plane offset of the press point. A press ray that
/// misses the ground plane changes nothing.
pub fn lock_node_for_drag(scene: &mut Scene, node_id: u32, ray_origin: Vec3, ray_dir: Vec3)
    requires
        old(scene).wf(),
        (node_id as int) < old(scene).nodes@.len(),
        in_pick_range(ray_origin),
        in_pick_range(ray_dir),
    ensures
        final(scene).wf(),
        final(scene).meshes@ == old(scene).meshes@,
        final(scene).materials@ == old(scene).materials@,
        final(scene).nodes@ == old(scene).nodes@,
        final(scene).edge_node_refs@ == old(scene).edge_node_refs@,
        match spec_ground_hit(ray_origin, ray_dir) {
            Some(hit) => final(scene).picking == (PickingState {
                hovered_node: old(scene).picking.hovered_node,
                picked_node: Some(node_id),
                drag: match old(scene).picking.drag {
                    Some(d) => Some(
                        DragState {
                            node_locked: true,
                            drag_offset: Some(
                                spec_drag_lock_offset(
                                    old(scene).nodes@[node_id as int].transform.position,
                                    hit,
                                ),
                            ),
                            ..d
                        },
                    ),
                    None => None,
                },
            }),
            None => final(scene).picking == old(scene).picking,
        },
{
    let ground_point = Vec3::zero();
    let ground_normal = Vec3 { x: 0, y: SCALE, z: 0 };
    match ray_plane_intersection(ray_origin, ray_dir, ground_point, ground_normal) {
        Some(click) => {
            let node = scene.nodes[node_id as usize];
            let offset = Vec3 {
                x: sub_fx(node.transform.position.x, click.x),
                y: 0,
                z: sub_fx(node.transform.position.z, click.z),
            };
            scene.picking.update_picked_node(Some(node_id));
            scene.picking.lock_node_with_offset(offset);
        },
        None => {},
    }
}

/// Move the dragged node under the pointer: intersect the pointer ray
/// with the ground plane, add the stored offset, pin the vertical
/// coordinate to the ground, write the node's position, and
/// re-synchronize all edges attached to the moved node or its
/// descendants. Without a ground hit or a stored offset, nothing
/// changes.
pub fn update_dragged_node_position(scene: &mut Scene, node_id: u32, ray_origin: Vec3, ray_dir: Vec3)
    requires
        old(scene).wf(),
        (node_id as int) < old(scene).nodes@.len(),
        in_pick_range(ray_origin),
        in_pick_range(ray_dir),
    ensures
        final(scene).wf(),
        final(scene).meshes@ == old(scene).meshes@,
        final(scene).materials@ == old(scene).materials@,
        final(scene).picking == old(scene).picking,
        final(scene).edge_node_refs@ == old(scene).edge_node_refs@,
        final(scene).nodes@.len() == old(scene).nodes@.len(),
        match (spec_ground_hit(ray_origin, ray_dir), old(scene).picking.spec_drag_offset()) {
            (Some(hit), Some(offset)) => ({
                let moved = old(scene).nodes@.update(
                    node_id as int,
                    Scene::spec_with_position(
                        old(scene).nodes@[node_id as int],
                        spec_dragged_position(hit, offset),
                    ),
                );
                forall|i: int|
                    0 <= i < moved.len() ==> #[trigger] final(scene).nodes@[i] == spec_synced_node(
                        moved,
                        old(scene).edge_node_refs@,
                        i,
                        node_id as int,
                    )
            }),
            _ => final(scene).nodes@ == old(scene).nodes@,
        },
{
    let ground_point = Vec3::zero();
    let ground_normal = Vec3 { x: 0, y: SCALE, z: 0 };
    match ray_plane_intersection(ray_origin, ray_dir, ground_point, ground_normal) {
        Some(ground_pos) => {
            match scene.picking.get_drag_offset() {
                Some(offset) => {
                    let with_offset = ground_pos.add_sat(offset);
                    let new_position = Vec3 { x: with_offset.x, y: 0, z: with_offset.z };
                    scene.update_node_position(node_id, new_position);
                    update_network_edges(scene, node_id);
                },
                None => {},
            }
        },
        None => {},
    }
}

/// The §-style press transition of the pointer protocol: start a drag
/// at the pointer position; when a selectable node is currently
/// hovered, lock the drag to it (freezing it as the picked node and
/// storing the ground-plane offset) and claim the event — otherwise
/// leave the event to the camera collaborator.
pub fn on_pointer_press(scene: &mut Scene, mouse_pos: (i64, i64), ray_origin: Vec3, ray_dir: Vec3) -> (consumed:
    bool)
    requires
        old(scene).wf(),
        in_pick_range(ray_origin),
        in_pick_range(ray_dir),
    ensures
        final(scene).wf(),
        final(scene).meshes@ == old(scene).meshes@,
        final(scene).materials@ == old(scene).materials@,
        final(scene).nodes@ == old(scene).nodes@,
        final(scene).edge_node_refs@ == old(scene).edge_node_refs@,
        consumed == (match old(scene).picking.hovered_node {
            Some(h) => (h as int) < old(scene).nodes@.len() && old(scene).nodes@[h as int].selectable,
            None => false,
        }),
        ({
            let started = PickingState {
                drag: Some(
                    DragState { last_mouse_pos: mouse_pos, node_locked: false, drag_offset: None },
                ),
                ..old(scene).picking
            };
            if consumed {
                let h = old(scene).picking.hovered_node.unwrap();
                match spec_ground_hit(ray_origin, ray_dir) {
                    Some(hit) => final(scene).picking == (PickingState {
                        hovered_node: old(scene).picking.hovered_node,
                        picked_node: Some(h),
                        drag: Some(
                            DragState {
                                last_mouse_pos: mouse_pos,
                                node_locked: true,
                                drag_offset: Some(
                                    spec_drag_lock_offset(
                                        old(scene).nodes@[h as int].transform.position,
                                        hit,
                                    ),
                                ),
                            },
                        ),
                    }),
                    None => final(scene).picking == started,
                }
            } else {
                final(scene).picking == started
            }
        }),
{
    scene.picking.start_drag(mouse_pos);
    let hovered = scene.picking.hovered_node;
    match hovered {
        Some(h) => {
            if (h as usize) < scene.nodes.len() && scene.nodes[h as usize].selectable {
                lock_node_for_drag(scene, h, ray_origin, ray_dir);
                true
            } else {
                false
            }
        },
        None => false,
    }
}

/// The translation column of a transform's matrix is exactly its
/// position.
pub proof fn lemma_to_matrix_translation(t: Transform)
    requires
        t.wf(),
    ensures
        Mat4::spec_translation(t.spec_to_matrix()) == t.position,
{
    lemma_tdiv_scale_exact(t.position.x as int);
    lemma_tdiv_scale_exact(t.position.y as int);
    lemma_tdiv_scale_exact(t.position.z as int);
}

/// `a * SCALE / SCALE == a` under truncating division.
proof fn lemma_tdiv_scale_exact(a: int)
    ensures
        tdiv(a * SCALE, SCALE as int) == a,
{
    if a >= 0 {
        lemma_div_multiples_vanish(a, SCALE as int);
    } else {
        lemma_div_multiples_vanish(-a, SCALE as int);
        assert(-(a * SCALE) == (-a) * SCALE) by (nonlinear_arith);
    }
}

/// Drag round trip: pressing on a selectable root node, dragging, and
/// releasing leaves the node's world X/Z position at the final ground
/// hit plus the stored offset (saturating fixed-point sums), with the
/// vertical coordinate pinned to the ground plane's height. This holds
/// of the state after edge synchronization: a selectable node carries
/// no edge-endpoint entry, so the sync pass never rewrites it, and a
/// root's world position is its own local position.
pub proof fn lemma_drag_round_trip(
    nodes: Seq<SceneNode>,
    refs: Seq<Option<(u32, u32)>>,
    node_id: int,
    hit: Vec3,
    offset: Vec3,
)
    requires
        0 <= node_id < nodes.len(),
        nodes[node_id].parent_id is None,
        nodes[node_id].wf(),
        node_id < refs.len() ==> refs[node_id] is None,
    ensures
        ({
            let p = spec_dragged_position(hit, offset);
            let moved = nodes.update(node_id, Scene::spec_with_position(nodes[node_id], p));
            let synced = Seq::new(
                moved.len(),
                |i: int| spec_synced_node(moved, refs, i, node_id),
            );
            &&& spec_world_position(moved, node_id) == p
            &&& spec_world_position(synced, node_id) == p
            &&& p.y == 0
        }),
{
    let p = spec_dragged_position(hit, offset);
    let moved = nodes.update(node_id, Scene::spec_with_position(nodes[node_id], p));
    let synced = Seq::new(moved.len(), |i: int| spec_synced_node(moved, refs, i, node_id));
    assert(moved[node_id].parent_id is None);
    assert(synced[node_id] == moved[node_id]);
    assert(spec_world_mat(moved, node_id) == moved[node_id].transform.spec_to_matrix());
    assert(spec_world_mat(synced, node_id) == synced[node_id].transform.spec_to_matrix());
    assert(moved[node_id].transform.wf());
    lemma_to_matrix_translation(moved[node_id].transform);
}

} // verus!
