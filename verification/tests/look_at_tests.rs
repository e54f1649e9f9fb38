//! Gaze solver behaviour: range-map saturation, the forward target, the
//! binocular mirror, the unsupported mode, and the arctangent.

use vrm_core::angles::atan2_mdeg;
use vrm_core::look_at::{
    apply_left_eye_bone, apply_range_map, apply_right_eye_bone, intersect_ray_plane,
    track_looking_target, GazeError, LookAtProperties, LookAtType, RangeMap,
};
use vrm_core::quat::Quat;
use vrm_core::transform::Transform3;
use vrm_core::vec3::Vec3;

fn ident() -> Quat {
    Quat { x: 0, y: 0, z: 0, w: 1_000_000 }
}

fn props(mode: LookAtType) -> LookAtProperties {
    LookAtProperties {
        offset_from_head_bone: Vec3 { x: 0, y: 0, z: 0 },
        range_map_horizontal_inner: RangeMap { input_max_value: 60_000, output_scale: 25_000 },
        range_map_horizontal_outer: RangeMap { input_max_value: 90_000, output_scale: 30_000 },
        range_map_vertical_down: RangeMap { input_max_value: 70_000, output_scale: 20_000 },
        range_map_vertical_up: RangeMap { input_max_value: 50_000, output_scale: 15_000 },
        mode,
    }
}

#[test]
fn range_map_saturates_at_output_scale() {
    let m = RangeMap { input_max_value: 30_000, output_scale: 20_000 };
    // At the input maximum and beyond, the output is exactly the scale.
    assert_eq!(apply_range_map(&m, 30_000), 20_000);
    assert_eq!(apply_range_map(&m, 45_000), 20_000);
    assert_eq!(apply_range_map(&m, 180_000), 20_000);
}

#[test]
fn range_map_rescales_inside_range() {
    let m = RangeMap { input_max_value: 30_000, output_scale: 20_000 };
    assert_eq!(apply_range_map(&m, 0), 0);
    assert_eq!(apply_range_map(&m, 15_000), 10_000);
    assert_eq!(apply_range_map(&m, 21_000), 14_000);
}

#[test]
fn target_straight_ahead_keeps_rest_rotation() {
    // A target on the forward axis: zero yaw, zero pitch, both eyes at
    // their rest rotation.
    let head = Transform3 { rot: ident(), pos: Vec3 { x: 0, y: 0, z: 0 } };
    let target = Vec3 { x: 0, y: 0, z: 2_000_000 };
    let eyes = track_looking_target(head, ident(), &props(LookAtType::Bone), target)
        .expect("bone mode solves");
    assert_eq!(eyes.0.yaw, 0);
    assert_eq!(eyes.0.pitch, 0);
    assert_eq!(eyes.1.yaw, 0);
    assert_eq!(eyes.1.pitch, 0);
}

#[test]
fn expression_mode_fails_loudly() {
    let head = Transform3 { rot: ident(), pos: Vec3 { x: 0, y: 0, z: 0 } };
    let target = Vec3 { x: 0, y: 0, z: 2_000_000 };
    let r = track_looking_target(head, ident(), &props(LookAtType::Expression), target);
    assert_eq!(r, Err(GazeError::ExpressionUnsupported));
}

#[test]
fn eyes_mirror_inner_and_outer_maps() {
    let p = props(LookAtType::Bone);
    // A positive yaw uses the outer map for the left eye and the inner
    // map for the right.
    let left = apply_left_eye_bone(&p, 90_000, 0);
    let right = apply_right_eye_bone(&p, 90_000, 0);
    assert_eq!(left.yaw, 30_000);
    assert_eq!(right.yaw, 25_000);
    // Mirrored for negative yaw.
    let left_n = apply_left_eye_bone(&p, -90_000, 0);
    let right_n = apply_right_eye_bone(&p, -90_000, 0);
    assert_eq!(left_n.yaw, -25_000);
    assert_eq!(right_n.yaw, -30_000);
    assert_eq!(right.yaw, -left_n.yaw);
    assert_eq!(right_n.yaw, -left.yaw);
}

#[test]
fn pitch_maps_are_shared_between_eyes() {
    let p = props(LookAtType::Bone);
    let left = apply_left_eye_bone(&p, 0, 70_000);
    let right = apply_right_eye_bone(&p, 0, 70_000);
    assert_eq!(left.pitch, 20_000);
    assert_eq!(right.pitch, 20_000);
    let left_up = apply_left_eye_bone(&p, 0, -50_000);
    assert_eq!(left_up.pitch, -15_000);
}

#[test]
fn gaze_turns_toward_side_target() {
    // A target exactly on the diagonal: a raw yaw of 45 degrees, mapped
    // through the outer map for the left eye.
    let head = Transform3 { rot: ident(), pos: Vec3 { x: 0, y: 0, z: 0 } };
    let target = Vec3 { x: 1_500_000, y: 0, z: 1_500_000 };
    let eyes = track_looking_target(head, ident(), &props(LookAtType::Bone), target)
        .expect("bone mode solves");
    // raw yaw 45_000 mdeg; outer: 45_000 / 90_000 * 30_000 = 15_000;
    // inner: clamped? 45_000 < 60_000, 45_000 * 25_000 / 60_000 = 18_750.
    assert_eq!(eyes.0.yaw, 15_000);
    assert_eq!(eyes.1.yaw, 18_750);
}

#[test]
fn atan2_exact_values() {
    assert_eq!(atan2_mdeg(0, 5), 0);
    assert_eq!(atan2_mdeg(1_000, 1_000), 45_000);
    assert_eq!(atan2_mdeg(7, 0), 90_000);
    assert_eq!(atan2_mdeg(-7, 0), -90_000);
    assert_eq!(atan2_mdeg(0, -5), 180_000);
    assert_eq!(atan2_mdeg(-1_000, 1_000), -45_000);
}

#[test]
fn cursor_ray_hits_gaze_plane() {
    // A ray from two units behind the plane, straight forward, normal
    // facing back along the ray: it hits the plane origin.
    let ro = Vec3 { x: 0, y: 0, z: -2_000_000 };
    let rd = Vec3 { x: 0, y: 0, z: 1_000_000 };
    let po = Vec3 { x: 0, y: 0, z: 0 };
    let n = Vec3 { x: 0, y: 0, z: 1_000_000 };
    let hit = intersect_ray_plane(ro, rd, po, n);
    assert_eq!(hit, Some(Vec3 { x: 0, y: 0, z: 0 }));
}

#[test]
fn cursor_ray_misses_parallel_plane() {
    let ro = Vec3 { x: 0, y: 0, z: -2_000_000 };
    let rd = Vec3 { x: 1_000_000, y: 0, z: 0 };
    let po = Vec3 { x: 0, y: 0, z: 0 };
    let n = Vec3 { x: 0, y: 0, z: 1_000_000 };
    assert_eq!(intersect_ray_plane(ro, rd, po, n), None);
    // A plane behind the ray is no hit either.
    let rd_away = Vec3 { x: 0, y: 0, z: -1_000_000 };
    assert_eq!(intersect_ray_plane(ro, rd_away, po, n), None);
}
