use corridor::batching::{build_instance_data, compute_draw_batches, STATE_DRAGGING, STATE_HOVERED};
use corridor::material::Material;
use corridor::mesh::Mesh;
use corridor::node::SceneNode;
use corridor::scene::Scene;
use corridor::transform::Transform;

fn scene_with_mesh_ids(ids: &[usize]) -> Scene {
    let mut s = Scene::new();
    s.meshes.push(Mesh::cube());
    s.meshes.push(Mesh::quad());
    s.materials.push(Material::from_rgb(1000, 0, 0));
    for &m in ids {
        s.nodes.push(SceneNode::new(m, 0, Transform::identity(), true));
    }
    s
}

#[test]
fn batcher_emits_three_maximal_runs() {
    let s = scene_with_mesh_ids(&[0, 0, 1, 1, 1, 0]);
    let batches = compute_draw_batches(&s);
    assert_eq!(batches.len(), 3);
    assert_eq!((batches[0].mesh_id, batches[0].start, batches[0].count), (0, 0, 2));
    assert_eq!((batches[1].mesh_id, batches[1].start, batches[1].count), (1, 2, 3));
    assert_eq!((batches[2].mesh_id, batches[2].start, batches[2].count), (0, 5, 1));
}

#[test]
fn batcher_handles_empty_scene() {
    let s = scene_with_mesh_ids(&[]);
    assert_eq!(compute_draw_batches(&s).len(), 0);
}

#[test]
fn batcher_handles_single_run() {
    let s = scene_with_mesh_ids(&[1, 1, 1]);
    let batches = compute_draw_batches(&s);
    assert_eq!(batches.len(), 1);
    assert_eq!((batches[0].mesh_id, batches[0].start, batches[0].count), (1, 0, 3));
}

#[test]
fn instance_data_follows_node_order_and_materials() {
    let mut s = scene_with_mesh_ids(&[0, 0]);
    s.materials.push(Material::from_rgb(0, 1000, 0));
    let mut n = s.nodes[1];
    n.material_id = 1;
    s.nodes[1] = n;
    let data = build_instance_data(&s);
    assert_eq!(data.len(), 2);
    assert_eq!(data[0].color, Material::from_rgb(1000, 0, 0));
    assert_eq!(data[1].color, Material::from_rgb(0, 1000, 0));
    assert_eq!(data[0].state_flags, 0);
}

#[test]
fn hovered_node_is_flagged() {
    let mut s = scene_with_mesh_ids(&[0, 0]);
    s.picking.update_hovered_node(Some(1));
    let data = build_instance_data(&s);
    assert_eq!(data[0].state_flags, 0);
    assert_eq!(data[1].state_flags, STATE_HOVERED);
}

#[test]
fn dragged_node_and_descendants_are_flagged() {
    let mut s = scene_with_mesh_ids(&[0, 0]);
    s.nodes.push(SceneNode::new(0, 0, Transform::identity(), false).with_parent(1));
    s.picking.start_drag((0, 0));
    s.picking.update_picked_node(Some(1));
    let data = build_instance_data(&s);
    assert_eq!(data[0].state_flags, 0);
    assert_eq!(data[1].state_flags, STATE_DRAGGING);
    assert_eq!(data[2].state_flags, STATE_DRAGGING);
}
