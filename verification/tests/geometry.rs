use corridor::fixed::{planar_length, add_fx, sub_fx, mul_fx, isqrt, FX_MAX, SCALE};
use corridor::mat4::Mat4;
use corridor::transform::{Quat, Transform};
use corridor::vec3::Vec3;

#[test]
fn scale_is_one_thousandth_units() {
    assert_eq!(SCALE, 1000);
}

#[test]
fn saturating_ops_are_exact_in_range() {
    assert_eq!(add_fx(2500, -500), 2000);
    assert_eq!(sub_fx(2500, 500), 2000);
    // 2.0 * 3.0 == 6.0
    assert_eq!(mul_fx(2000, 3000), 6000);
    // truncation toward zero
    assert_eq!(mul_fx(-1, 1), 0);
}

#[test]
fn saturating_ops_clamp() {
    assert_eq!(add_fx(FX_MAX, FX_MAX), FX_MAX);
    assert_eq!(sub_fx(-FX_MAX, FX_MAX), -FX_MAX);
}

#[test]
fn isqrt_exact() {
    assert_eq!(isqrt(0), 0);
    assert_eq!(isqrt(1), 1);
    assert_eq!(isqrt(99), 9);
    assert_eq!(isqrt(100), 10);
    assert_eq!(isqrt(25_000_000), 5000);
}

#[test]
fn planar_length_pythagorean() {
    assert_eq!(planar_length(3000, 4000), 5000);
    assert_eq!(planar_length(0, 0), 0);
    assert_eq!(planar_length(-3000, 4000), 5000);
}

#[test]
fn identity_transform_gives_identity_matrix() {
    let t = Transform::identity();
    let m = t.to_matrix();
    let i = Mat4::identity();
    assert_eq!(m, i);
}

#[test]
fn translation_lands_in_last_column() {
    let t = Transform::new(
        Vec3 { x: 2000, y: 500, z: -1000 },
        Quat::identity(),
        Vec3 { x: 1000, y: 1000, z: 1000 },
    );
    let m = t.to_matrix();
    assert_eq!(m.m03, 2000);
    assert_eq!(m.m13, 500);
    assert_eq!(m.m23, -1000);
    assert_eq!(m.m00, 1000);
}

#[test]
fn quarter_turn_quaternion_is_near_unit() {
    let q = Quat::yaw_from_direction(0, -1000);
    // half-angle components of a quarter turn: sin/cos of 45 degrees
    assert_eq!(q.x, 0);
    assert_eq!(q.z, 0);
    assert!(q.y >= 700 && q.y <= 708);
    assert!(q.w >= 700 && q.w <= 708);
}

#[test]
fn transform_point_applies_scale_and_translation() {
    let t = Transform::new(
        Vec3 { x: 1000, y: 0, z: 0 },
        Quat::identity(),
        Vec3 { x: 2000, y: 1000, z: 1000 },
    );
    let m = t.to_matrix();
    let p = m.transform_point(Vec3 { x: 500, y: 0, z: 0 });
    // 0.5 scaled by 2.0 is 1.0, translated by 1.0 is 2.0
    assert_eq!(p, Vec3 { x: 2000, y: 0, z: 0 });
}
