//! Registry construction from parsed declarations: name resolution, the
//! skipping of unnamed nodes and incomplete declarations.

use vrm_core::collider::ColliderShape;
use vrm_core::registry::{
    HumanoidBoneRegistry, SpringColliderRegistry, SpringDecl, SpringJointDecl,
    SpringJointPropsRegistry, SpringNodeRegistry,
};
use vrm_core::vec3::Vec3;

fn names() -> Vec<Option<Vec<u8>>> {
    vec![Some(b"hips".to_vec()), None, Some(b"head".to_vec())]
}

#[test]
fn humanoid_bone_registry_resolves_names() {
    let bones = vec![(b"head".to_vec(), 2usize), (b"chest".to_vec(), 1usize)];
    let reg = HumanoidBoneRegistry::new(&bones, &names());
    // The bone pointing at the unnamed node is skipped.
    assert_eq!(reg.entries, vec![(b"head".to_vec(), b"head".to_vec())]);
}

#[test]
fn collider_registry_skips_unnamed_nodes() {
    let shape = ColliderShape::Sphere { offset: Vec3 { x: 0, y: 0, z: 0 }, radius: 100 };
    let decls = vec![(0usize, shape), (1usize, shape), (9usize, shape)];
    let reg = SpringColliderRegistry::new(&decls, &names());
    assert_eq!(reg.entries.len(), 1);
    assert_eq!(reg.entries[0].0, b"hips".to_vec());
}

#[test]
fn props_registry_skips_incomplete_declarations() {
    let complete = SpringJointDecl {
        node: 2,
        drag_force: Some(400_000),
        gravity_dir: Some(Vec3 { x: 0, y: -1_000_000, z: 0 }),
        gravity_power: Some(2_000_000),
        hit_radius: Some(20_000),
        stiffness: Some(1_000_000),
    };
    let incomplete = SpringJointDecl { stiffness: None, node: 0, ..complete };
    let reg = SpringJointPropsRegistry::new(&vec![complete, incomplete], &names());
    assert_eq!(reg.entries.len(), 1);
    assert_eq!(reg.entries[0].0, b"head".to_vec());
    assert_eq!(reg.entries[0].1.drag_force, 400_000);
    assert_eq!(reg.entries[0].1.hit_radius, 20_000);
}

#[test]
fn spring_node_registry_resolves_chains() {
    let decl = SpringDecl {
        center: Some(0),
        joints: vec![2, 1, 0],
        colliders: vec![(
            2,
            ColliderShape::Capsule {
                head: Vec3 { x: 0, y: 0, z: 0 },
                tail: Vec3 { x: 0, y: 100, z: 0 },
                radius: 50,
            },
        )],
    };
    let reg = SpringNodeRegistry::new(&vec![decl], &names());
    assert_eq!(reg.springs.len(), 1);
    assert_eq!(reg.springs[0].center, Some(b"hips".to_vec()));
    // The unnamed joint (index 1) drops out; the others resolve in order.
    assert_eq!(reg.springs[0].joints, vec![b"head".to_vec(), b"hips".to_vec()]);
    assert_eq!(reg.springs[0].colliders.len(), 1);
    assert_eq!(reg.springs[0].colliders[0].0, b"head".to_vec());
}
