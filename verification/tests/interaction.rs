use corridor::interaction::{lock_node_for_drag, on_pointer_press, update_dragged_node_position};
use corridor::material::Material;
use corridor::mesh::Mesh;
use corridor::node::SceneNode;
use corridor::scene::Scene;
use corridor::transform::{Quat, Transform};
use corridor::vec3::Vec3;

fn v(x: i64, y: i64, z: i64) -> Vec3 {
    Vec3 { x, y, z }
}

fn one_cube_scene(pos: Vec3) -> Scene {
    let mut s = Scene::new();
    s.meshes.push(Mesh::cube());
    s.materials.push(Material::from_rgb(1000, 0, 0));
    s.nodes.push(SceneNode::new(
        0,
        0,
        Transform::new(pos, Quat::identity(), v(1000, 1000, 1000)),
        true,
    ));
    s
}

#[test]
fn drag_round_trip_lands_at_hit_plus_offset() {
    let mut s = one_cube_scene(v(2000, 0, 1000));
    s.picking.start_drag((0, 0));
    // press ray straight down at the origin: ground hit (0, 0, 0),
    // offset (2, 0, 1)
    lock_node_for_drag(&mut s, 0, v(0, 2000, 0), v(0, -1000, 0));
    assert!(s.picking.is_node_locked());
    assert_eq!(s.picking.get_drag_offset(), Some(v(2000, 0, 1000)));
    // move ray straight down at (5, 5): ground hit (5, 0, 5)
    update_dragged_node_position(&mut s, 0, v(5000, 2000, 5000), v(0, -1000, 0));
    s.picking.end_drag();
    // final position is hit + offset with Y pinned to the ground
    assert_eq!(s.nodes[0].transform.position, v(7000, 0, 6000));
    // the world position of the root equals its local position
    let world = s.compute_world_transform(0);
    assert_eq!(world.translation(), v(7000, 0, 6000));
    // the picked node survives the release
    assert_eq!(s.picking.picked_node, Some(0));
    assert!(!s.picking.is_dragging());
}

#[test]
fn drag_without_ground_hit_changes_nothing() {
    let mut s = one_cube_scene(v(2000, 0, 1000));
    s.picking.start_drag((0, 0));
    lock_node_for_drag(&mut s, 0, v(0, 2000, 0), v(0, -1000, 0));
    // a ray parallel to the ground plane has no hit
    update_dragged_node_position(&mut s, 0, v(0, 2000, 0), v(1000, 0, 0));
    assert_eq!(s.nodes[0].transform.position, v(2000, 0, 1000));
}

#[test]
fn lock_without_running_drag_only_picks() {
    let mut s = one_cube_scene(v(2000, 0, 1000));
    lock_node_for_drag(&mut s, 0, v(0, 2000, 0), v(0, -1000, 0));
    assert_eq!(s.picking.picked_node, Some(0));
    assert!(!s.picking.is_node_locked());
}

#[test]
fn update_drag_reports_pointer_delta() {
    let mut s = one_cube_scene(v(0, 0, 0));
    s.picking.start_drag((100, 200));
    let d = s.picking.update_drag((150, 180));
    assert_eq!(d, Some((50, -20)));
    assert_eq!(s.picking.update_drag((150, 180)), Some((0, 0)));
    s.picking.end_drag();
    assert_eq!(s.picking.update_drag((0, 0)), None);
}

#[test]
fn press_on_hovered_selectable_node_consumes_the_event() {
    let mut s = one_cube_scene(v(2000, 0, 1000));
    s.picking.update_hovered_node(Some(0));
    let consumed = on_pointer_press(&mut s, (40, 50), v(0, 2000, 0), v(0, -1000, 0));
    assert!(consumed);
    assert!(s.picking.is_dragging());
    assert!(s.picking.is_node_locked());
    assert_eq!(s.picking.picked_node, Some(0));
    assert_eq!(s.picking.get_drag_offset(), Some(v(2000, 0, 1000)));
}

#[test]
fn press_on_empty_space_leaves_the_event_to_the_camera() {
    let mut s = one_cube_scene(v(2000, 0, 1000));
    let consumed = on_pointer_press(&mut s, (40, 50), v(0, 2000, 0), v(0, -1000, 0));
    assert!(!consumed);
    assert!(s.picking.is_dragging());
    assert!(!s.picking.is_node_locked());
    assert_eq!(s.picking.picked_node, None);
}

#[test]
fn press_on_non_selectable_hover_is_not_consumed() {
    let mut s = one_cube_scene(v(2000, 0, 1000));
    let mut n = s.nodes[0];
    n.selectable = false;
    s.nodes[0] = n;
    s.picking.update_hovered_node(Some(0));
    let consumed = on_pointer_press(&mut s, (40, 50), v(0, 2000, 0), v(0, -1000, 0));
    assert!(!consumed);
    assert!(!s.picking.is_node_locked());
}

#[test]
fn picked_node_getter_is_bounds_checked() {
    let mut s = one_cube_scene(v(2000, 0, 1000));
    assert!(s.picking.get_picked_node(&s).is_none());
    s.picking.update_picked_node(Some(0));
    let picked = s.picking.get_picked_node(&s);
    assert_eq!(picked.map(|n| n.transform.position), Some(v(2000, 0, 1000)));
    s.picking.update_picked_node(Some(9));
    assert!(s.picking.get_picked_node(&s).is_none());
}

#[test]
fn hover_updates_are_unconditional() {
    let mut s = one_cube_scene(v(0, 0, 0));
    s.picking.update_hovered_node(Some(0));
    assert_eq!(s.picking.hovered_node, Some(0));
    s.picking.update_hovered_node(None);
    assert_eq!(s.picking.hovered_node, None);
}

#[test]
fn children_and_descendants() {
    let mut s = one_cube_scene(v(0, 0, 0));
    s.nodes.push(SceneNode::new(0, 0, Transform::identity(), false).with_parent(0));
    s.nodes.push(SceneNode::new(0, 0, Transform::identity(), false).with_parent(1));
    s.nodes.push(SceneNode::new(0, 0, Transform::identity(), true));
    assert_eq!(s.get_children(0), vec![1]);
    assert_eq!(s.get_descendants(0), vec![1, 2]);
    assert_eq!(s.get_descendants(3), Vec::<u32>::new());
    assert!(s.is_descendant_of(2, 0));
    assert!(!s.is_descendant_of(3, 0));
}

#[test]
fn world_transform_composes_down_a_chain() {
    // a three-level chain: translations compose additively
    let mut s = one_cube_scene(v(1000, 0, 0));
    s.nodes.push(
        SceneNode::new(
            0,
            0,
            Transform::new(v(2000, 0, 0), Quat::identity(), v(1000, 1000, 1000)),
            true,
        )
        .with_parent(0),
    );
    s.nodes.push(
        SceneNode::new(
            0,
            0,
            Transform::new(v(4000, 0, 0), Quat::identity(), v(1000, 1000, 1000)),
            true,
        )
        .with_parent(1),
    );
    // root: world equals local
    assert_eq!(s.compute_world_transform(0).translation(), v(1000, 0, 0));
    assert_eq!(s.compute_world_transform(1).translation(), v(3000, 0, 0));
    assert_eq!(s.compute_world_transform(2).translation(), v(7000, 0, 0));
    // and equals the product of the three local matrices
    let a = s.nodes[0].transform.to_matrix();
    let b = s.nodes[1].transform.to_matrix();
    let c = s.nodes[2].transform.to_matrix();
    assert_eq!(s.compute_world_transform(2), a.mul_mat(&b).mul_mat(&c));
}
