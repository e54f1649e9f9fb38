//! Binding-phase behaviour: chain construction, center resolution, state
//! initialization, and the completion markers.

use vrm_core::avatar::Avatar;
use vrm_core::collider::ColliderShape;
use vrm_core::quat::Quat;
use vrm_core::registry::{
    HumanoidBoneRegistry, SpringColliderRegistry, SpringJointPropsRegistry, SpringNode,
    SpringNodeRegistry,
};
use vrm_core::scene::{Scene, SceneNode};
use vrm_core::spring::SpringJointProps;
use vrm_core::transform::Transform3;
use vrm_core::vec3::Vec3;

fn ident() -> Quat {
    Quat { x: 0, y: 0, z: 0, w: 1_000_000 }
}

fn tf(x: i64, y: i64, z: i64) -> Transform3 {
    Transform3 { rot: ident(), pos: Vec3 { x, y, z } }
}

fn node(name: &[u8], parent: Option<usize>, local: Transform3, world: Transform3) -> SceneNode {
    SceneNode { name: name.to_vec(), parent, local, world }
}

fn empty_registries() -> (HumanoidBoneRegistry, SpringJointPropsRegistry, SpringColliderRegistry) {
    (
        HumanoidBoneRegistry { entries: vec![] },
        SpringJointPropsRegistry { entries: vec![] },
        SpringColliderRegistry { entries: vec![] },
    )
}

fn avatar_with_head_chain() -> Avatar {
    // Avatar root with two children: a decorative "Root" node and the
    // chain joint "head".
    let scene = Scene {
        nodes: vec![
            node(b"avatar", None, tf(0, 0, 0), tf(0, 0, 0)),
            node(b"Root", Some(0), tf(0, 0, 0), tf(0, 0, 0)),
            node(b"head", Some(0), tf(0, 0, 0), tf(0, 0, 0)),
        ],
    };
    let (bones, props, cols) = empty_registries();
    let springs = SpringNodeRegistry {
        springs: vec![SpringNode { center: None, joints: vec![b"head".to_vec()], colliders: vec![] }],
    };
    Avatar::new(scene, bones, props, cols, springs)
}

#[test]
fn test_attach_spring_root() {
    let mut avatar = avatar_with_head_chain();
    avatar.attach_spring_roots();
    assert_eq!(avatar.spring_roots.len(), 1);
    // "head" is node 2; the chain root rides on it.
    assert_eq!(avatar.spring_roots[0].joints, vec![2usize]);
    assert!(avatar.spring_roots[0].colliders.is_empty());
    assert_eq!(avatar.spring_roots[0].center_node, None);
}

#[test]
fn set_center_node_spring_root() {
    let scene = Scene {
        nodes: vec![
            node(b"avatar", None, tf(0, 0, 0), tf(0, 0, 0)),
            node(b"Root", Some(0), tf(0, 0, 0), tf(0, 0, 0)),
            node(b"center", Some(0), tf(0, 0, 0), tf(0, 0, 0)),
            node(b"head", Some(0), tf(0, 0, 0), tf(0, 0, 0)),
        ],
    };
    let (bones, props, cols) = empty_registries();
    let springs = SpringNodeRegistry {
        springs: vec![SpringNode {
            center: Some(b"center".to_vec()),
            joints: vec![b"head".to_vec()],
            colliders: vec![],
        }],
    };
    let mut avatar = Avatar::new(scene, bones, props, cols, springs);
    avatar.attach_spring_roots();
    assert_eq!(avatar.spring_roots.len(), 1);
    assert_eq!(avatar.spring_roots[0].joints, vec![3usize]);
    assert_eq!(avatar.spring_roots[0].center_node, Some(2usize));
}

fn avatar_head_tail() -> Avatar {
    let scene = Scene {
        nodes: vec![
            node(b"avatar", None, tf(0, 0, 0), tf(0, 0, 0)),
            node(b"Root", Some(0), tf(0, 0, 0), tf(0, 0, 0)),
            node(b"head", Some(0), tf(0, 0, 0), tf(0, 0, 0)),
            node(b"tail", Some(0), tf(0, 2_000_000, 0), tf(0, 2_000_000, 0)),
        ],
    };
    let (bones, props, cols) = empty_registries();
    let springs = SpringNodeRegistry {
        springs: vec![SpringNode {
            center: None,
            joints: vec![b"head".to_vec(), b"tail".to_vec()],
            colliders: vec![],
        }],
    };
    Avatar::new(scene, bones, props, cols, springs)
}

#[test]
fn test_init_spring_joint_state() {
    let mut avatar = avatar_head_tail();
    avatar.attach_spring_roots();
    avatar.init_spring_joint_states();
    // The state rides on the head joint (node 2), toward the tail at a
    // local offset of two units straight up.
    let state = avatar.joint_states[2].expect("head joint state");
    assert_eq!(state.current_tail, Vec3 { x: 0, y: 2_000_000, z: 0 });
    assert_eq!(state.prev_tail, Vec3 { x: 0, y: 2_000_000, z: 0 });
    assert_eq!(state.bone_axis, Vec3 { x: 0, y: 1_000_000, z: 0 });
    assert_eq!(state.bone_length, 2_000_000);
    assert_eq!(state.initial_local, tf(0, 0, 0));
    assert!(avatar.joint_states[3].is_none());
}

fn avatar_with_all_registries() -> Avatar {
    let scene = Scene {
        nodes: vec![
            node(b"avatar", None, tf(0, 0, 0), tf(0, 0, 0)),
            node(b"Root", Some(0), tf(0, 0, 0), tf(0, 0, 0)),
            node(b"head", Some(0), tf(0, 0, 0), tf(0, 0, 0)),
        ],
    };
    let bones = HumanoidBoneRegistry { entries: vec![] };
    let props = SpringJointPropsRegistry {
        entries: vec![(b"head".to_vec(), SpringJointProps::default())],
    };
    let cols = SpringColliderRegistry { entries: vec![(b"head".to_vec(), ColliderShape::default())] };
    let springs = SpringNodeRegistry {
        springs: vec![SpringNode { center: None, joints: vec![b"head".to_vec()], colliders: vec![] }],
    };
    Avatar::new(scene, bones, props, cols, springs)
}

#[test]
fn has_been_attached_joint_props() {
    let mut avatar = avatar_with_all_registries();
    avatar.attach_joint_props();
    assert!(avatar.attached_joint_props);
}

#[test]
fn has_been_attached_collider_shapes() {
    let mut avatar = avatar_with_all_registries();
    avatar.attach_collider_shapes();
    assert!(avatar.attached_collider_shapes);
}

#[test]
fn has_been_attached_spring_roots() {
    let mut avatar = avatar_with_all_registries();
    avatar.attach_spring_roots();
    assert!(avatar.attached_spring_roots);
}

#[test]
fn binding_twice_changes_nothing() {
    let mut avatar = avatar_with_all_registries();
    avatar.bind();
    let roots_after_one = avatar.spring_roots.len();
    let props_after_one = avatar.joint_props[2];
    avatar.bind();
    assert_eq!(avatar.spring_roots.len(), roots_after_one);
    assert_eq!(avatar.joint_props[2], props_after_one);
    assert!(avatar.attached_joint_props);
    assert!(avatar.attached_collider_shapes);
    assert!(avatar.attached_spring_roots);
    assert!(avatar.joint_states_initialized);
}

#[test]
fn attach_skips_unresolved_bone() {
    // A props registry naming a node that does not exist: the entry is
    // skipped, the avatar still binds.
    let scene = Scene {
        nodes: vec![
            node(b"avatar", None, tf(0, 0, 0), tf(0, 0, 0)),
            node(b"head", Some(0), tf(0, 0, 0), tf(0, 0, 0)),
        ],
    };
    let bones = HumanoidBoneRegistry { entries: vec![] };
    let props = SpringJointPropsRegistry {
        entries: vec![(b"missing".to_vec(), SpringJointProps::default())],
    };
    let cols = SpringColliderRegistry { entries: vec![] };
    let springs = SpringNodeRegistry { springs: vec![] };
    let mut avatar = Avatar::new(scene, bones, props, cols, springs);
    avatar.attach_joint_props();
    assert!(avatar.attached_joint_props);
    assert!(avatar.joint_props.iter().all(|p| p.is_none()));
}

#[test]
fn setup_bones_captures_rest_transforms() {
    let scene = Scene {
        nodes: vec![
            node(b"avatar", None, tf(0, 0, 0), tf(0, 0, 0)),
            node(b"neck_01", Some(0), tf(0, 1_500_000, 0), tf(0, 1_500_000, 0)),
        ],
    };
    let bones = HumanoidBoneRegistry {
        entries: vec![(b"head".to_vec(), b"neck_01".to_vec())],
    };
    let props = SpringJointPropsRegistry { entries: vec![] };
    let cols = SpringColliderRegistry { entries: vec![] };
    let springs = SpringNodeRegistry { springs: vec![] };
    let mut avatar = Avatar::new(scene, bones, props, cols, springs);
    avatar.setup_bones();
    assert!(avatar.attached_humanoid_bones);
    assert_eq!(avatar.humanoid_bone_rest.len(), 1);
    assert_eq!(avatar.humanoid_bone_rest[0].bone, b"head".to_vec());
    assert_eq!(avatar.humanoid_bone_rest[0].node, 1);
    assert_eq!(avatar.humanoid_bone_rest[0].rest_local, tf(0, 1_500_000, 0));
    assert_eq!(avatar.find_humanoid_bone(&b"head".to_vec()), Some(1));
    assert_eq!(avatar.find_humanoid_bone(&b"leftEye".to_vec()), None);
}

#[test]
fn binding_defers_until_bones_spawned() {
    // The bone registry names a node that is not in the scene yet: nothing
    // attaches and no marker is set, so binding retries next tick.
    let scene = Scene {
        nodes: vec![node(b"avatar", None, tf(0, 0, 0), tf(0, 0, 0))],
    };
    let bones = HumanoidBoneRegistry {
        entries: vec![(b"head".to_vec(), b"head".to_vec())],
    };
    let props = SpringJointPropsRegistry { entries: vec![] };
    let cols = SpringColliderRegistry { entries: vec![] };
    let springs = SpringNodeRegistry { springs: vec![] };
    let mut avatar = Avatar::new(scene, bones, props, cols, springs);
    avatar.bind();
    assert!(!avatar.attached_joint_props);
    assert!(!avatar.attached_collider_shapes);
    assert!(!avatar.attached_spring_roots);
    assert!(!avatar.joint_states_initialized);
}
