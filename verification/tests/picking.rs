use corridor::material::Material;
use corridor::mesh::Mesh;
use corridor::node::SceneNode;
use corridor::picking::{compute_node_aabb, ray_aabb_intersect, ray_triangle_intersect, ray_plane_intersection, AABB};
use corridor::scene::Scene;
use corridor::transform::{Quat, Transform};
use corridor::vec3::Vec3;

fn v(x: i64, y: i64, z: i64) -> Vec3 {
    Vec3 { x, y, z }
}

#[test]
fn ray_hits_unit_box_at_distance_four() {
    let aabb = AABB { min: v(-1000, -1000, -1000), max: v(1000, 1000, 1000) };
    let hit = ray_aabb_intersect(v(0, 0, 5000), v(0, 0, -1000), &aabb).unwrap();
    // the entry parameter is exactly 4
    assert_eq!(hit.num, 4 * hit.den);
}

#[test]
fn ray_misses_unit_box_sideways() {
    let aabb = AABB { min: v(-1000, -1000, -1000), max: v(1000, 1000, 1000) };
    assert!(ray_aabb_intersect(v(5000, 5000, 5000), v(1000, 0, 0), &aabb).is_none());
}

#[test]
fn ray_inside_box_hits_at_zero() {
    let aabb = AABB { min: v(-1000, -1000, -1000), max: v(1000, 1000, 1000) };
    let hit = ray_aabb_intersect(v(0, 0, 0), v(0, 0, -1000), &aabb).unwrap();
    assert_eq!(hit.num, 0);
}

#[test]
fn ray_hits_front_facing_triangle_at_one() {
    // counter-clockwise seen from +z: winding normal (0, 0, +1), which
    // points against the ray direction — front-facing
    let v0 = v(-1000, -1000, 0);
    let v1 = v(1000, -1000, 0);
    let v2 = v(0, 1000, 0);
    let hit = ray_triangle_intersect(v(0, 0, 1000), v(0, 0, -1000), v0, v1, v2).unwrap();
    assert_eq!(hit.num, hit.den);
}

#[test]
fn backfacing_triangle_is_culled() {
    // the same triangle with flipped winding: normal along the ray
    let v0 = v(-1000, -1000, 0);
    let v1 = v(0, 1000, 0);
    let v2 = v(1000, -1000, 0);
    assert!(ray_triangle_intersect(v(0, 0, 1000), v(0, 0, -1000), v0, v1, v2).is_none());
}

#[test]
fn ray_parallel_to_triangle_misses() {
    let v0 = v(-1000, -1000, 0);
    let v1 = v(1000, -1000, 0);
    let v2 = v(0, 1000, 0);
    assert!(ray_triangle_intersect(v(0, 0, 1000), v(1000, 0, 0), v0, v1, v2).is_none());
}

#[test]
fn aabb_of_transformed_cube() {
    let mesh = Mesh::cube();
    let t = Transform::new(v(2000, 0, 0), Quat::identity(), v(1000, 1000, 1000));
    let m = t.to_matrix();
    let bb = compute_node_aabb(&mesh.vertices, &m);
    assert_eq!(bb.min, v(1500, -500, -500));
    assert_eq!(bb.max, v(2500, 500, 500));
}

#[test]
fn aabb_of_empty_mesh_is_degenerate_at_origin() {
    let vs: Vec<Vec3> = Vec::new();
    let m = corridor::mat4::Mat4::identity();
    let bb = compute_node_aabb(&vs, &m);
    assert_eq!(bb.min, v(0, 0, 0));
    assert_eq!(bb.max, v(0, 0, 0));
}

fn cube_scene(z_first: i64, z_second: i64) -> Scene {
    let mut s = Scene::new();
    s.meshes.push(Mesh::cube());
    s.materials.push(Material::from_rgb(1000, 0, 0));
    s.nodes.push(SceneNode::new(
        0,
        0,
        Transform::new(v(0, 0, z_first), Quat::identity(), v(1000, 1000, 1000)),
        true,
    ));
    s.nodes.push(SceneNode::new(
        0,
        0,
        Transform::new(v(0, 0, z_second), Quat::identity(), v(1000, 1000, 1000)),
        true,
    ));
    s
}

#[test]
fn pick_returns_closest_node_regardless_of_order() {
    // the ray meets the node at z == 0 first, wherever it sits in the array
    let s1 = cube_scene(0, -3000);
    assert_eq!(s1.cpu_pick_ray(v(0, 0, 5000), v(0, 0, -1000)), Some(0));
    let s2 = cube_scene(-3000, 0);
    assert_eq!(s2.cpu_pick_ray(v(0, 0, 5000), v(0, 0, -1000)), Some(1));
}

#[test]
fn pick_skips_non_selectable_nodes() {
    let mut s = cube_scene(0, -3000);
    let mut n = s.nodes[0];
    n.selectable = false;
    s.nodes[0] = n;
    assert_eq!(s.cpu_pick_ray(v(0, 0, 5000), v(0, 0, -1000)), Some(1));
}

#[test]
fn pick_misses_empty_space() {
    let s = cube_scene(0, -3000);
    assert_eq!(s.cpu_pick_ray(v(50000, 0, 5000), v(0, 0, -1000)), None);
}

#[test]
fn ray_plane_hits_ground() {
    let hit = ray_plane_intersection(v(5000, 2000, 3000), v(0, -1000, 0), v(0, 0, 0), v(0, 1000, 0))
        .unwrap();
    assert_eq!(hit, v(5000, 0, 3000));
}

#[test]
fn ray_plane_parallel_misses() {
    assert!(ray_plane_intersection(v(0, 2000, 0), v(1000, 0, 0), v(0, 0, 0), v(0, 1000, 0))
        .is_none());
}

#[test]
fn ray_plane_behind_origin_misses() {
    assert!(ray_plane_intersection(v(0, 2000, 0), v(0, 1000, 0), v(0, 0, 0), v(0, 1000, 0))
        .is_none());
}
