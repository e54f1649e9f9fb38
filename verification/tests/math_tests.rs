//! Fixed-point arithmetic and geometry primitives.

use vrm_core::fixed::{div_trunc, isqrt};
use vrm_core::quat::Quat;
use vrm_core::transform::Transform3;
use vrm_core::vec3::Vec3;

#[test]
fn isqrt_exact_values() {
    assert_eq!(isqrt(0), 0);
    assert_eq!(isqrt(1), 1);
    assert_eq!(isqrt(15), 3);
    assert_eq!(isqrt(16), 4);
    assert_eq!(isqrt(4_000_000_000_000), 2_000_000);
    assert_eq!(isqrt(4_000_000_000_001), 2_000_000);
    assert_eq!(isqrt(1_000_000_000_000_000_000), 1_000_000_000);
}

#[test]
fn div_trunc_rounds_toward_zero() {
    assert_eq!(div_trunc(7, 2), 3);
    assert_eq!(div_trunc(-7, 2), -3);
    assert_eq!(div_trunc(6, 3), 2);
    assert_eq!(div_trunc(-6, 3), -2);
    assert_eq!(div_trunc(0, 5), 0);
}

#[test]
fn scale_to_length_is_exact_on_pythagorean_triples() {
    let v = Vec3 { x: 3_000_000, y: 4_000_000, z: 0 };
    let r = v.scale_to_length(1_000_000);
    assert_eq!(r, Vec3 { x: 600_000, y: 800_000, z: 0 });
    let n = (r.x as i128) * (r.x as i128) + (r.y as i128) * (r.y as i128);
    assert_eq!(n, 1_000_000_000_000);
}

#[test]
fn scale_to_length_keeps_zero_vector() {
    let v = Vec3 { x: 0, y: 0, z: 0 };
    assert_eq!(v.scale_to_length(5_000_000), v);
}

#[test]
fn identity_rotation_moves_nothing() {
    let q = Quat::identity();
    let v = Vec3 { x: 123, y: -456_789, z: 1_000_000_007 };
    assert_eq!(q.rotate(v), v);
}

#[test]
fn rotation_arc_between_axes_is_quarter_turn() {
    // The arc from +y to +x: a quarter turn about -z; applying it to +y
    // lands on +x within fixed-point rounding.
    let up = Vec3 { x: 0, y: 1_000_000, z: 0 };
    let right = Vec3 { x: 1_000_000, y: 0, z: 0 };
    let q = Quat::rotation_arc(up, right);
    let r = q.rotate(up);
    assert!((r.x - 1_000_000).abs() <= 5);
    assert!(r.y.abs() <= 5);
    assert!(r.z.abs() <= 5);
}

#[test]
fn transform_applies_rotation_then_translation() {
    let t = Transform3 {
        rot: Quat { x: 0, y: 0, z: 0, w: 1_000_000 },
        pos: Vec3 { x: 10, y: 20, z: 30 },
    };
    let p = Vec3 { x: 1, y: 2, z: 3 };
    assert_eq!(t.apply(p), Vec3 { x: 11, y: 22, z: 33 });
    assert_eq!(t.apply_inv(Vec3 { x: 11, y: 22, z: 33 }), p);
}
