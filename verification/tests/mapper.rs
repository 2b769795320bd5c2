use corridor::mapper::{
    calculate_layer_y_offset, edge_transform_from_positions, group_nodes_by_position,
    mode_material_id, mode_sort_order, network_to_scene, update_network_edges,
};
use corridor::network::{Edge, ModeGraph, Network, Node, NodeType, TransportMode};
use corridor::vec3::Vec3;

fn node(id: usize, x: i64, y: i64) -> Node {
    Node {
        id,
        position: (x, y),
        node_type: NodeType::Intersection,
        physical_attributes: Vec::new(),
        turn_restrictions: Vec::new(),
    }
}

fn edge(id: usize, from_node: usize, to_node: usize) -> Edge {
    Edge {
        id,
        from_node,
        to_node,
        facility_type: String::new(),
        physical_attributes: Vec::new(),
    }
}

fn v(x: i64, y: i64, z: i64) -> Vec3 {
    Vec3 { x, y, z }
}

#[test]
fn mode_orders_and_materials() {
    assert_eq!(mode_sort_order(TransportMode::Car), 0);
    assert_eq!(mode_sort_order(TransportMode::Bike), 1);
    assert_eq!(mode_sort_order(TransportMode::Walk), 2);
    assert_eq!(mode_sort_order(TransportMode::Transit), 3);
    assert_eq!(mode_material_id(TransportMode::Bike), 1);
    assert_eq!(mode_material_id(TransportMode::Walk), 2);
    assert_eq!(mode_material_id(TransportMode::Transit), 3);
    assert_eq!(mode_material_id(TransportMode::Car), 4);
}

#[test]
fn layer_offsets_spread_between_margins() {
    assert_eq!(calculate_layer_y_offset(0, 1), 0);
    assert_eq!(calculate_layer_y_offset(0, 2), -400);
    assert_eq!(calculate_layer_y_offset(1, 2), 400);
    assert_eq!(calculate_layer_y_offset(1, 3), 0);
}

#[test]
fn coincident_nodes_of_two_modes_share_a_group() {
    let network = Network {
        graphs: vec![
            ModeGraph { mode: TransportMode::Car, nodes: vec![node(0, 0, 4)], edges: vec![] },
            ModeGraph { mode: TransportMode::Bike, nodes: vec![node(0, 0, 0)], edges: vec![] },
        ],
    };
    // both positions quantize to (0, 0)
    let groups = group_nodes_by_position(&network);
    assert_eq!(groups.len(), 1);
    assert_eq!(
        groups[0].members,
        vec![(TransportMode::Car, 0), (TransportMode::Bike, 0)]
    );
}

#[test]
fn distant_nodes_get_their_own_groups() {
    let network = Network {
        graphs: vec![ModeGraph {
            mode: TransportMode::Car,
            nodes: vec![node(0, 0, 0), node(1, 10000, 0)],
            edges: vec![],
        }],
    };
    let groups = group_nodes_by_position(&network);
    assert_eq!(groups.len(), 2);
}

fn line_network() -> Network {
    Network {
        graphs: vec![ModeGraph {
            mode: TransportMode::Car,
            nodes: vec![node(0, 0, 0), node(1, 10000, 0), node(2, 10000, 10000)],
            edges: vec![edge(0, 0, 1), edge(1, 1, 2)],
        }],
    }
}

#[test]
fn network_scene_layout() {
    let scene = network_to_scene(&line_network());
    // 3 pillars, 3 mode layers, 2 edges
    assert_eq!(scene.nodes.len(), 8);
    assert_eq!(scene.edge_node_refs.len(), 8);
    assert_eq!(scene.meshes.len(), 2);
    assert_eq!(scene.materials.len(), 5);
    // pillars are the selectable roots
    for i in 0..3 {
        assert!(scene.nodes[i].selectable);
        assert!(scene.nodes[i].parent_id.is_none());
        assert_eq!(scene.nodes[i].mesh_id, 0);
    }
    // children hang under their pillars
    for i in 3..6 {
        assert!(!scene.nodes[i].selectable);
        assert!(scene.nodes[i].parent_id.is_some());
        assert_eq!(scene.nodes[i].material_id, 4);
    }
    // edges reference the children, not the pillars
    assert_eq!(scene.edge_node_refs[6], Some((3, 4)));
    assert_eq!(scene.edge_node_refs[7], Some((4, 5)));
    for i in 0..6 {
        assert_eq!(scene.edge_node_refs[i], None);
    }
    // the first edge spans the first two stations exactly
    let e = &scene.nodes[6].transform;
    assert_eq!(e.position, v(5000, 0, 0));
    assert_eq!(e.scale, v(10000, 1000, 1000));
    // pillars sit at their groups' (single-member) average positions
    assert_eq!(scene.nodes[0].transform.position, v(0, 0, 0));
    assert_eq!(scene.nodes[1].transform.position, v(10000, 0, 0));
    assert_eq!(scene.nodes[2].transform.position, v(10000, 0, 10000));
    // single-layer children sit at the pillar's center
    for i in 3..6 {
        assert_eq!(scene.nodes[i].transform.position, v(0, 0, 0));
        assert_eq!(scene.nodes[i].parent_id, Some((i - 3) as u32));
    }
}

#[test]
fn coincident_modes_stack_in_mode_order() {
    // a car and a bike node at the same location share one pillar;
    // their layers spread between the pillar's margins in mode order
    let network = Network {
        graphs: vec![
            ModeGraph { mode: TransportMode::Bike, nodes: vec![node(0, 4, 0)], edges: vec![] },
            ModeGraph { mode: TransportMode::Car, nodes: vec![node(0, 0, 0)], edges: vec![] },
        ],
    };
    let scene = network_to_scene(&network);
    // 1 pillar + 2 children
    assert_eq!(scene.nodes.len(), 3);
    // the pillar sits at the truncated average of the two positions
    assert_eq!(scene.nodes[0].transform.position, v(2, 0, 0));
    // entry order is car first, so the car layer is the lower one
    assert_eq!(scene.nodes[1].material_id, 4);
    assert_eq!(scene.nodes[1].transform.position.y, -400);
    assert_eq!(scene.nodes[2].material_id, 1);
    assert_eq!(scene.nodes[2].transform.position.y, 400);
    assert_eq!(scene.nodes[1].parent_id, Some(0));
    assert_eq!(scene.nodes[2].parent_id, Some(0));
}

#[test]
fn moving_a_pillar_updates_its_edges_and_leaves_others() {
    let mut scene = network_to_scene(&line_network());
    let before_far_edge = scene.nodes[7].transform;
    // move the first pillar sideways
    scene.update_node_position(0, v(0, 0, 2000));
    update_network_edges(&mut scene, 0);
    // the edge at the moved end follows: new midpoint and new length
    let e = &scene.nodes[6].transform;
    assert_eq!(e.position, v(5000, 0, 1000));
    // sqrt(10000^2 + 2000^2) == 10198, rounded down
    assert_eq!(e.scale.x, 10198);
    // the unrelated edge is untouched
    assert_eq!(scene.nodes[7].transform, before_far_edge);
}

#[test]
fn edge_transform_spans_endpoints() {
    let t = edge_transform_from_positions(v(0, 0, 0), v(3000, 0, -4000));
    assert_eq!(t.position, v(1500, 0, -2000));
    assert_eq!(t.scale, v(5000, 1000, 1000));
}

#[test]
fn edge_length_from_graph_positions() {
    let g = ModeGraph {
        mode: TransportMode::Walk,
        nodes: vec![node(0, 0, 0), node(1, 3000, 4000)],
        edges: vec![edge(0, 0, 1)],
    };
    assert_eq!(g.edges[0].length(&g), 5000);
}

#[test]
fn find_graph_by_mode() {
    let n = line_network();
    assert_eq!(n.find_graph(TransportMode::Car), Some(0));
    assert_eq!(n.find_graph(TransportMode::Bike), None);
}
