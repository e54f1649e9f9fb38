//! Per-tick simulation behaviour: the concrete two-joint chain, rest
//! equilibrium over many ticks, collision push-out, and the center-space
//! round trip.

use vrm_core::avatar::Avatar;
use vrm_core::collider::{resolve_sphere, seg_closest, ColliderShape};
use vrm_core::quat::Quat;
use vrm_core::registry::{
    HumanoidBoneRegistry, SpringColliderRegistry, SpringJointPropsRegistry, SpringNode,
    SpringNodeRegistry,
};
use vrm_core::scene::{Scene, SceneNode};
use vrm_core::spring::SpringJointProps;
use vrm_core::spring_update::{center_local_to_global, global_to_center_local};
use vrm_core::transform::Transform3;
use vrm_core::vec3::Vec3;
use vrm_core::SCALE;

fn ident() -> Quat {
    Quat { x: 0, y: 0, z: 0, w: 1_000_000 }
}

fn tf(x: i64, y: i64, z: i64) -> Transform3 {
    Transform3 { rot: ident(), pos: Vec3 { x, y, z } }
}

fn node(name: &[u8], parent: Option<usize>, local: Transform3, world: Transform3) -> SceneNode {
    SceneNode { name: name.to_vec(), parent, local, world }
}

fn two_joint_avatar(props: SpringJointProps) -> Avatar {
    // Root at the origin; the chain runs head (at the root) to a tail two
    // units straight up.
    let scene = Scene {
        nodes: vec![
            node(b"avatar", None, tf(0, 0, 0), tf(0, 0, 0)),
            node(b"head", Some(0), tf(0, 0, 0), tf(0, 0, 0)),
            node(b"tail", Some(1), tf(0, 2_000_000, 0), tf(0, 2_000_000, 0)),
        ],
    };
    let bones = HumanoidBoneRegistry { entries: vec![] };
    let props_reg = SpringJointPropsRegistry { entries: vec![(b"head".to_vec(), props)] };
    let cols = SpringColliderRegistry { entries: vec![] };
    let springs = SpringNodeRegistry {
        springs: vec![SpringNode {
            center: None,
            joints: vec![b"head".to_vec(), b"tail".to_vec()],
            colliders: vec![],
        }],
    };
    Avatar::new(scene, bones, props_reg, cols, springs)
}

#[test]
fn two_joint_chain_unforced_tick() {
    // gravity_power = 0, stiffness = 0, drag_force = 0, one-second tick,
    // zero inertia: the bound values are exact and one tick moves nothing.
    let mut avatar = two_joint_avatar(SpringJointProps {
        drag_force: 0,
        gravity_dir: Vec3 { x: 0, y: -1_000_000, z: 0 },
        gravity_power: 0,
        hit_radius: 0,
        stiffness: 0,
    });
    avatar.bind();
    let state = avatar.joint_states[1].expect("head joint state");
    assert_eq!(state.bone_length, 2_000_000);
    assert_eq!(state.bone_axis, Vec3 { x: 0, y: 1_000_000, z: 0 });
    avatar.update_spring_bones(SCALE);
    let after = avatar.joint_states[1].expect("head joint state");
    assert_eq!(after.current_tail, Vec3 { x: 0, y: 2_000_000, z: 0 });
    assert_eq!(after.prev_tail, Vec3 { x: 0, y: 2_000_000, z: 0 });
    assert_eq!(after.bone_length, 2_000_000);
    assert_eq!(after.bone_axis, Vec3 { x: 0, y: 1_000_000, z: 0 });
}

#[test]
fn rest_equilibrium_many_ticks() {
    // Full drag, no stiffness, no gravity: pure damping holds the chain
    // still for any number of ticks.
    let mut avatar = two_joint_avatar(SpringJointProps {
        drag_force: SCALE,
        gravity_dir: Vec3 { x: 0, y: -1_000_000, z: 0 },
        gravity_power: 0,
        hit_radius: 0,
        stiffness: 0,
    });
    avatar.bind();
    for _ in 0..5 {
        avatar.update_spring_bones(16_000);
        let s = avatar.joint_states[1].expect("head joint state");
        assert_eq!(s.current_tail, Vec3 { x: 0, y: 2_000_000, z: 0 });
    }
}

#[test]
fn gravity_pulls_tail_and_length_holds() {
    // With gravity on, the tail moves off its rest position but stays at
    // bone-length distance from the joint within tolerance.
    let mut avatar = two_joint_avatar(SpringJointProps {
        drag_force: 0,
        gravity_dir: Vec3 { x: 0, y: -1_000_000, z: 0 },
        gravity_power: 5_000_000,
        hit_radius: 0,
        stiffness: 0,
    });
    avatar.bind();
    avatar.update_spring_bones(SCALE);
    let s = avatar.joint_states[1].expect("head joint state");
    assert_ne!(s.current_tail, Vec3 { x: 0, y: 2_000_000, z: 0 });
    let dx = s.current_tail.x as i128;
    let dy = s.current_tail.y as i128;
    let dz = s.current_tail.z as i128;
    let n = dx * dx + dy * dy + dz * dz;
    let len = 2_000_000i128;
    // |tail|^2 within the documented rounding margin of bone_length^2.
    assert!(n >= len * len - 6 * len);
    assert!(n <= (len + 2) * (len + 2));
}

#[test]
fn sphere_collision_pushes_to_margin() {
    // A tail half a unit above a unit-margin sphere center is pushed to
    // exactly one unit.
    let tail = Vec3 { x: 0, y: 500_000, z: 0 };
    let center = Vec3 { x: 0, y: 0, z: 0 };
    let pushed = resolve_sphere(tail, center, 1_000_000);
    assert_eq!(pushed, Vec3 { x: 0, y: 1_000_000, z: 0 });
}

#[test]
fn sphere_collision_leaves_clear_tail() {
    let tail = Vec3 { x: 0, y: 3_000_000, z: 0 };
    let center = Vec3 { x: 0, y: 0, z: 0 };
    let pushed = resolve_sphere(tail, center, 1_000_000);
    assert_eq!(pushed, tail);
}

#[test]
fn capsule_closest_point_is_on_segment() {
    let a = Vec3 { x: -1_000_000, y: 0, z: 0 };
    let b = Vec3 { x: 1_000_000, y: 0, z: 0 };
    let p = Vec3 { x: 250_000, y: 700_000, z: 0 };
    let c = seg_closest(p, a, b);
    assert_eq!(c, Vec3 { x: 250_000, y: 0, z: 0 });
    // Beyond the end, the closest point clamps to the endpoint.
    let p2 = Vec3 { x: 5_000_000, y: 700_000, z: 0 };
    let c2 = seg_closest(p2, a, b);
    assert_eq!(c2, b);
}

#[test]
fn collision_inside_chain_update() {
    // The same forced swing, once without and once with a collider beside
    // the resting point: the collider pushes the tail away from itself.
    let falling_props = SpringJointProps {
        drag_force: 0,
        gravity_dir: Vec3 { x: 0, y: -1_000_000, z: 0 },
        gravity_power: 50_000_000,
        hit_radius: 100_000,
        stiffness: 0,
    };
    let build = |with_collider: bool| {
        let scene = Scene {
            nodes: vec![
                node(b"avatar", None, tf(0, 0, 0), tf(0, 0, 0)),
                node(b"head", Some(0), tf(0, 0, 0), tf(0, 0, 0)),
                node(b"tail", Some(1), tf(0, 2_000_000, 0), tf(0, 2_000_000, 0)),
            ],
        };
        let bones = HumanoidBoneRegistry { entries: vec![] };
        let props_reg = SpringJointPropsRegistry {
            entries: vec![(b"head".to_vec(), falling_props)],
        };
        let cols = SpringColliderRegistry { entries: vec![] };
        let colliders = if with_collider {
            vec![(
                b"avatar".to_vec(),
                ColliderShape::Sphere {
                    offset: Vec3 { x: 1_000_000, y: -2_000_000, z: 0 },
                    radius: 1_500_000,
                },
            )]
        } else {
            vec![]
        };
        let springs = SpringNodeRegistry {
            springs: vec![SpringNode {
                center: None,
                joints: vec![b"head".to_vec(), b"tail".to_vec()],
                colliders,
            }],
        };
        Avatar::new(scene, bones, props_reg, cols, springs)
    };
    let dist2_to_collider = |tail: Vec3| {
        let dx = tail.x as i128 - 1_000_000;
        let dy = tail.y as i128 + 2_000_000;
        let dz = tail.z as i128;
        dx * dx + dy * dy + dz * dz
    };
    let mut free = build(false);
    free.bind();
    free.update_spring_bones(SCALE);
    let free_tail = free.joint_states[1].expect("state").current_tail;

    let mut blocked = build(true);
    blocked.bind();
    assert_eq!(blocked.spring_roots[0].colliders.len(), 1);
    blocked.update_spring_bones(SCALE);
    let blocked_tail = blocked.joint_states[1].expect("state").current_tail;

    assert_ne!(free_tail, blocked_tail);
    assert!(dist2_to_collider(blocked_tail) > dist2_to_collider(free_tail));
}

#[test]
fn sideways_gravity_moves_tail_sideways() {
    let mut avatar = two_joint_avatar(SpringJointProps {
        drag_force: 0,
        gravity_dir: Vec3 { x: 1_000_000, y: 0, z: 0 },
        gravity_power: 2_000_000,
        hit_radius: 0,
        stiffness: 0,
    });
    avatar.bind();
    avatar.update_spring_bones(SCALE);
    let s = avatar.joint_states[1].expect("head joint state");
    assert!(s.current_tail.x > 0);
    assert_eq!(s.current_tail.z, 0);
}

#[test]
fn center_node_chain_stays_at_rest() {
    // The same rest chain, simulated in the space of a center node whose
    // frame coincides with the world: the center path of the solver runs,
    // and the rest chain still does not move.
    let scene = Scene {
        nodes: vec![
            node(b"avatar", None, tf(0, 0, 0), tf(0, 0, 0)),
            node(b"center", Some(0), tf(0, 0, 0), tf(0, 0, 0)),
            node(b"head", Some(0), tf(0, 0, 0), tf(0, 0, 0)),
            node(b"tail", Some(2), tf(0, 2_000_000, 0), tf(0, 2_000_000, 0)),
        ],
    };
    let bones = HumanoidBoneRegistry { entries: vec![] };
    let props_reg = SpringJointPropsRegistry {
        entries: vec![(
            b"head".to_vec(),
            SpringJointProps {
                drag_force: 0,
                gravity_dir: Vec3 { x: 0, y: -1_000_000, z: 0 },
                gravity_power: 0,
                hit_radius: 0,
                stiffness: 0,
            },
        )],
    };
    let cols = SpringColliderRegistry { entries: vec![] };
    let springs = SpringNodeRegistry {
        springs: vec![SpringNode {
            center: Some(b"center".to_vec()),
            joints: vec![b"head".to_vec(), b"tail".to_vec()],
            colliders: vec![],
        }],
    };
    let mut avatar = Avatar::new(scene, bones, props_reg, cols, springs);
    avatar.bind();
    assert_eq!(avatar.spring_roots[0].center_node, Some(1));
    avatar.update_spring_bones(SCALE);
    avatar.update_spring_bones(SCALE);
    let s = avatar.joint_states[2].expect("head joint state");
    assert_eq!(s.current_tail, Vec3 { x: 0, y: 2_000_000, z: 0 });
}

#[test]
fn center_space_round_trip() {
    // A translated (unrotated) center frame: out and back is exact.
    let center = Some(Transform3 { rot: ident(), pos: Vec3 { x: 5_000_000, y: -2_000_000, z: 7 } });
    let x = Vec3 { x: 123_456, y: -987_654, z: 1_000_000 };
    let g = center_local_to_global(&center, x);
    assert_eq!(g, Vec3 { x: 5_123_456, y: -2_987_654, z: 1_000_007 });
    let back = global_to_center_local(&center, g);
    assert_eq!(back, x);
}
