use corridor::config::AppConfig;
use corridor::demo::create_demo_scene;
use corridor::mesh::index_count;
use corridor::network::Network;
use corridor::rat::Rat;
use corridor::shaders::{cube_shader_source, picking_shader_source};

#[test]
fn demo_scene_shape() {
    let s = create_demo_scene();
    assert_eq!(s.meshes.len(), 3);
    assert_eq!(s.materials.len(), 9);
    assert_eq!(s.nodes.len(), 21);
    assert_eq!(s.nodes[18].parent_id, Some(17));
    assert_eq!(s.nodes[19].parent_id, Some(17));
    assert_eq!(s.nodes[20].parent_id, Some(18));
    // the grandchild's world position stacks the chain's translations
    let w = s.compute_world_transform(20);
    assert_eq!(w.translation().y, 2000);
}

#[test]
fn cube_has_thirty_six_indices() {
    assert_eq!(index_count(), 36);
    let cube = corridor::mesh::Mesh::cube();
    assert_eq!(cube.indices.len(), 36);
    assert_eq!(cube.vertices.len(), 24);
}

#[test]
fn shader_sources_are_not_empty() {
    assert!(!cube_shader_source().is_empty());
    assert!(!picking_shader_source().is_empty());
}

#[test]
fn config_carries_an_optional_network() {
    let c = AppConfig::new();
    assert!(c.network.is_none());
    let c2 = AppConfig::with_network(Network::new());
    assert!(c2.network.is_some());
}

#[test]
fn rational_comparisons_are_exact() {
    let a = Rat::new(1, 3);
    let b = Rat::new(2, 6);
    let c = Rat::new(1, 2);
    assert!(a.le(b) && b.le(a));
    assert!(a.lt(c));
    assert!(!c.lt(a));
    assert_eq!(Rat::from_int(4), Rat::new(4, 1));
}
