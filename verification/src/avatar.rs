//! One avatar instance: its scene subtree, the registries built from the
//! parsed asset, and everything the binding phase attaches — per-node
//! joint properties, collider shapes, spring chains and simulation states —
//! together with the markers that make binding idempotent.

use vstd::prelude::*;
use crate::collider::ColliderShape;
use crate::registry::{
    HumanoidBoneRegistry, SpringColliderRegistry, SpringJointPropsRegistry, SpringNode,
    SpringNodeRegistry, bone_entries_view, pairs_view, spring_node_view, SpringNodeG,
};
use crate::scene::{Scene, SceneNode, scene_wf};
use crate::spring::{SpringJointProps, SpringJointState, SpringRoot, props_wf, root_wf, state_wf};

verus! {

/// Ghost model of a spring chain, with sequence-valued lists.
pub ghost struct RootG {
    pub joints: Seq<usize>,
    pub colliders: Seq<(usize, ColliderShape)>,
    pub center_node: Option<usize>,
}

pub open spec fn root_view(r: SpringRoot) -> RootG {
    RootG { joints: r.joints@, colliders: r.colliders@, center_node: r.center_node }
}

/// Ghost model of one resolved humanoid bone.
pub ghost struct BoneRestG {
    pub bone: Seq<u8>,
    pub node: usize,
    pub rest_local: crate::transform::T3,
    pub rest_world: crate::transform::T3,
}

/// One resolved humanoid bone: the canonical bone key, the scene node it
/// landed on, and the node's rest-pose transforms captured at binding.
#[derive(Debug)]
pub struct BoneRest {
    pub bone: Vec<u8>,
    pub node: usize,
    pub rest_local: crate::transform::Transform3,
    pub rest_world: crate::transform::Transform3,
}

pub open spec fn bone_rest_view(b: BoneRest) -> BoneRestG {
    BoneRestG { bone: b.bone@, node: b.node, rest_local: b.rest_local@, rest_world: b.rest_world@ }
}

/// Ghost model of a whole avatar.
pub ghost struct AvatarG {
    pub nodes: Seq<SceneNode>,
    pub bone_entries: Seq<(Seq<u8>, Seq<u8>)>,
    pub props_entries: Seq<(Seq<u8>, SpringJointProps)>,
    pub collider_entries: Seq<(Seq<u8>, ColliderShape)>,
    pub springs: Seq<SpringNodeG>,
    pub joint_props: Seq<Option<SpringJointProps>>,
    pub collider_shapes: Seq<Option<ColliderShape>>,
    pub joint_states: Seq<Option<SpringJointState>>,
    pub spring_roots: Seq<RootG>,
    pub humanoid_bone_rest: Seq<BoneRestG>,
    pub attached_humanoid_bones: bool,
    pub attached_joint_props: bool,
    pub attached_collider_shapes: bool,
    pub attached_spring_roots: bool,
    pub joint_states_initialized: bool,
}

/// One avatar instance.
pub struct Avatar {
    /// The instantiated scene subtree; the avatar's root is node 0.
    pub scene: Scene,
    /// Canonical bone name to node name.
    pub humanoid_bones: HumanoidBoneRegistry,
    /// Node name to authored joint constants.
    pub joint_props_registry: SpringJointPropsRegistry,
    /// Node name to authored collider shape.
    pub collider_registry: SpringColliderRegistry,
    /// The declared spring chains.
    pub spring_node_registry: SpringNodeRegistry,
    /// Joint constants attached per node, once bound.
    pub joint_props: Vec<Option<SpringJointProps>>,
    /// Collider shapes attached per node, once bound.
    pub collider_shapes: Vec<Option<ColliderShape>>,
    /// Simulation state attached per node, once initialized.
    pub joint_states: Vec<Option<SpringJointState>>,
    /// One entry per bound chain.
    pub spring_roots: Vec<SpringRoot>,
    /// The humanoid bones resolved to nodes, with their rest transforms.
    pub humanoid_bone_rest: Vec<BoneRest>,
    /// Binding-completion markers.
    pub attached_humanoid_bones: bool,
    pub attached_joint_props: bool,
    pub attached_collider_shapes: bool,
    pub attached_spring_roots: bool,
    pub joint_states_initialized: bool,
}

impl View for Avatar {
    type V = AvatarG;

    open spec fn view(&self) -> AvatarG {
        AvatarG {
            nodes: self.scene.nodes@,
            bone_entries: bone_entries_view(self.humanoid_bones.entries@),
            props_entries: pairs_view(self.joint_props_registry.entries@),
            collider_entries: pairs_view(self.collider_registry.entries@),
            springs: self.spring_node_registry.springs@.map_values(
                |n: SpringNode| spring_node_view(n),
            ),
            joint_props: self.joint_props@,
            collider_shapes: self.collider_shapes@,
            joint_states: self.joint_states@,
            spring_roots: self.spring_roots@.map_values(|r: SpringRoot| root_view(r)),
            humanoid_bone_rest: self.humanoid_bone_rest@.map_values(|b: BoneRest| bone_rest_view(b)),
            attached_humanoid_bones: self.attached_humanoid_bones,
            attached_joint_props: self.attached_joint_props,
            attached_collider_shapes: self.attached_collider_shapes,
            attached_spring_roots: self.attached_spring_roots,
            joint_states_initialized: self.joint_states_initialized,
        }
    }
}

/// Well-formedness of an avatar: the scene is well-formed, the per-node
/// vectors match the scene, and everything attached is in range.
pub open spec fn avatar_wf(a: Avatar) -> bool {
    &&& scene_wf(a.scene)
    &&& a.joint_props@.len() == a.scene.nodes@.len()
    &&& a.collider_shapes@.len() == a.scene.nodes@.len()
    &&& a.joint_states@.len() == a.scene.nodes@.len()
    &&& forall|i: int|
        0 <= i < a.joint_props@.len() ==> (#[trigger] a.joint_props@[i] matches Some(p)
            ==> props_wf(p))
    &&& forall|i: int|
        0 <= i < a.collider_shapes@.len() ==> (#[trigger] a.collider_shapes@[i] matches Some(c)
            ==> crate::collider::cs_wf(c@))
    &&& forall|i: int|
        0 <= i < a.joint_states@.len() ==> (#[trigger] a.joint_states@[i] matches Some(s)
            ==> state_wf(s@))
    &&& forall|i: int| 0 <= i < a.spring_roots@.len() ==> root_wf(#[trigger] a.spring_roots@[i])
}

impl Avatar {
    /// Wraps a freshly instantiated scene and its parsed registries into an
    /// unbound avatar: nothing attached, all binding markers clear.
    pub fn new(
        scene: Scene,
        humanoid_bones: HumanoidBoneRegistry,
        joint_props_registry: SpringJointPropsRegistry,
        collider_registry: SpringColliderRegistry,
        spring_node_registry: SpringNodeRegistry,
    ) -> (r: Avatar)
        requires
            scene_wf(scene),
        ensures
            avatar_wf(r),
            r@.nodes == scene.nodes@,
            r@.bone_entries == bone_entries_view(humanoid_bones.entries@),
            r@.props_entries == pairs_view(joint_props_registry.entries@),
            r@.collider_entries == pairs_view(collider_registry.entries@),
            r@.springs == spring_node_registry.springs@.map_values(
                |n: SpringNode| spring_node_view(n),
            ),
            r@.joint_props == Seq::new(scene.nodes@.len(), |i: int| None::<SpringJointProps>),
            r@.collider_shapes == Seq::new(scene.nodes@.len(), |i: int| None::<ColliderShape>),
            r@.joint_states == Seq::new(scene.nodes@.len(), |i: int| None::<SpringJointState>),
            r@.spring_roots == Seq::<RootG>::empty(),
            r@.humanoid_bone_rest == Seq::<BoneRestG>::empty(),
            !r@.attached_humanoid_bones,
            !r@.attached_joint_props,
            !r@.attached_collider_shapes,
            !r@.attached_spring_roots,
            !r@.joint_states_initialized,
    {
        let n = scene.nodes.len();
        let mut joint_props: Vec<Option<SpringJointProps>> = Vec::new();
        let mut collider_shapes: Vec<Option<ColliderShape>> = Vec::new();
        let mut joint_states: Vec<Option<SpringJointState>> = Vec::new();
        let mut i: usize = 0;
        while i < n
            invariant
                0 <= i <= n,
                joint_props@ =~= Seq::new(i as nat, |k: int| None::<SpringJointProps>),
                collider_shapes@ =~= Seq::new(i as nat, |k: int| None::<ColliderShape>),
                joint_states@ =~= Seq::new(i as nat, |k: int| None::<SpringJointState>),
            decreases n - i,
        {
            joint_props.push(None);
            collider_shapes.push(None);
            joint_states.push(None);
            proof {
                assert(joint_props@ =~= Seq::new((i + 1) as nat, |k: int| None::<SpringJointProps>));
                assert(collider_shapes@ =~= Seq::new((i + 1) as nat, |k: int| None::<ColliderShape>));
                assert(joint_states@ =~= Seq::new((i + 1) as nat, |k: int| None::<SpringJointState>));
            }
            i = i + 1;
        }
        let r = Avatar {
            scene,
            humanoid_bones,
            joint_props_registry,
            collider_registry,
            spring_node_registry,
            joint_props,
            collider_shapes,
            joint_states,
            spring_roots: Vec::new(),
            humanoid_bone_rest: Vec::new(),
            attached_humanoid_bones: false,
            attached_joint_props: false,
            attached_collider_shapes: false,
            attached_spring_roots: false,
            joint_states_initialized: false,
        };
        proof {
            assert(r@.spring_roots =~= Seq::<RootG>::empty());
            assert(r@.humanoid_bone_rest =~= Seq::<BoneRestG>::empty());
        }
        r
    }
}

} // verus!
