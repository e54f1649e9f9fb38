//! The binding phase: once every bone the asset names exists in the scene,
//! joint properties and collider shapes are attached to their nodes, one
//! `SpringRoot` is built per declared chain, and the per-joint simulation
//! states are initialized from the rest pose.
//!
//! Each step is guarded by a completion marker, so binding is idempotent
//! and re-entrant: it is retried every tick until the full bone set is
//! found, and repeated calls on a bound avatar change nothing.

use vstd::prelude::*;
use crate::avatar::{Avatar, AvatarG, RootG, avatar_wf};
use crate::collider::{COLLIDER_MAX, ColliderShape, cs_wf};
use crate::fixed::{isqrt, isqrt_spec, lemma_isqrt_bounds};
use crate::registry::{HumanoidBoneRegistry, SpringNodeG};
use crate::scene::{Scene, SceneNode, clone_bytes, find_name_spec, node_wf, scene_wf};
use crate::spring::{
    FORCE_MAX, SpringJointProps, SpringJointState, SpringRoot, StateG, props_wf, root_wf, state_of,
    state_wf,
};
use crate::quat::UNIT_VEC_MAX;
use crate::vec3::{v3_norm_sq, v3_scale_to};
use crate::SCALE;

verus! {

/// Every bone the asset names resolves to a scene node: the condition that
/// releases the deferred binding.
pub open spec fn all_bones_spawned_spec(
    nodes: Seq<SceneNode>,
    entries: Seq<(Seq<u8>, Seq<u8>)>,
) -> bool {
    forall|k: int|
        0 <= k < entries.len() ==> find_name_spec(nodes, 0, (#[trigger] entries[k]).1) is Some
}

/// Whether every bone of the registry has been spawned under the avatar
/// root.
pub fn has_been_spawned_all_bones(scene: &Scene, reg: &HumanoidBoneRegistry) -> (r: bool)
    requires
        scene_wf(*scene),
    ensures
        r == all_bones_spawned_spec(
            scene.nodes@,
            crate::registry::bone_entries_view(reg.entries@),
        ),
{
    let ghost entries = crate::registry::bone_entries_view(reg.entries@);
    let n = reg.entries.len();
    let mut i: usize = 0;
    while i < n
        invariant
            scene_wf(*scene),
            n == reg.entries@.len(),
            entries == crate::registry::bone_entries_view(reg.entries@),
            entries.len() == n,
            0 <= i <= n,
            forall|k: int| 0 <= k < i ==> find_name_spec(scene.nodes@, 0, entries[k].1) is Some,
        decreases n - i,
    {
        proof {
            assert(entries[i as int].1 == reg.entries@[i as int].1@);
        }
        match scene.find_from_name(0, &reg.entries[i].1) {
            Some(_) => {},
            None => {
                return false;
            },
        }
        i = i + 1;
    }
    true
}

/// Whether authored joint constants are inside the accepted windows.
pub fn props_in_range(p: &SpringJointProps) -> (r: bool)
    ensures
        r == props_wf(*p),
{
    0 <= p.drag_force && p.drag_force <= SCALE && -UNIT_VEC_MAX <= p.gravity_dir.x
        && p.gravity_dir.x <= UNIT_VEC_MAX && -UNIT_VEC_MAX <= p.gravity_dir.y && p.gravity_dir.y
        <= UNIT_VEC_MAX && -UNIT_VEC_MAX <= p.gravity_dir.z && p.gravity_dir.z <= UNIT_VEC_MAX && 0
        <= p.gravity_power && p.gravity_power <= FORCE_MAX && 0 <= p.hit_radius && p.hit_radius
        <= COLLIDER_MAX && 0 <= p.stiffness && p.stiffness <= FORCE_MAX
}

/// Whether an authored collider shape is inside the accepted windows.
pub fn shape_in_range(s: &ColliderShape) -> (r: bool)
    ensures
        r == cs_wf(s@),
{
    match s {
        ColliderShape::Sphere { offset, radius } => {
            -COLLIDER_MAX <= offset.x && offset.x <= COLLIDER_MAX && -COLLIDER_MAX <= offset.y
                && offset.y <= COLLIDER_MAX && -COLLIDER_MAX <= offset.z && offset.z <= COLLIDER_MAX
                && 0 <= *radius && *radius <= COLLIDER_MAX
        },
        ColliderShape::Capsule { head, tail, radius } => {
            -COLLIDER_MAX <= head.x && head.x <= COLLIDER_MAX && -COLLIDER_MAX <= head.y && head.y
                <= COLLIDER_MAX && -COLLIDER_MAX <= head.z && head.z <= COLLIDER_MAX && -COLLIDER_MAX
                <= tail.x && tail.x <= COLLIDER_MAX && -COLLIDER_MAX <= tail.y && tail.y
                <= COLLIDER_MAX && -COLLIDER_MAX <= tail.z && tail.z <= COLLIDER_MAX && 0 <= *radius
                && *radius <= COLLIDER_MAX
        },
    }
}

/// Joint properties after attaching the first `k` registry entries: each
/// in-range entry whose name resolves lands on its node; the rest are
/// skipped.
pub open spec fn attach_props_fold(
    nodes: Seq<SceneNode>,
    props0: Seq<Option<SpringJointProps>>,
    entries: Seq<(Seq<u8>, SpringJointProps)>,
    k: int,
) -> Seq<Option<SpringJointProps>>
    decreases k,
{
    if k <= 0 {
        props0
    } else {
        let prev = attach_props_fold(nodes, props0, entries, k - 1);
        let e = entries[k - 1];
        if props_wf(e.1) {
            match find_name_spec(nodes, 0, e.0) {
                Some(j) => prev.update(j as int, Some(e.1)),
                None => prev,
            }
        } else {
            prev
        }
    }
}

/// The binding step that attaches joint properties.
pub open spec fn attach_joint_props_spec(a: AvatarG) -> AvatarG {
    if a.attached_joint_props || !all_bones_spawned_spec(a.nodes, a.bone_entries) {
        a
    } else {
        AvatarG {
            joint_props: attach_props_fold(
                a.nodes,
                a.joint_props,
                a.props_entries,
                a.props_entries.len() as int,
            ),
            attached_joint_props: true,
            ..a
        }
    }
}

/// Collider shapes after attaching the first `k` registry entries.
pub open spec fn attach_shapes_fold(
    nodes: Seq<SceneNode>,
    shapes0: Seq<Option<ColliderShape>>,
    entries: Seq<(Seq<u8>, ColliderShape)>,
    k: int,
) -> Seq<Option<ColliderShape>>
    decreases k,
{
    if k <= 0 {
        shapes0
    } else {
        let prev = attach_shapes_fold(nodes, shapes0, entries, k - 1);
        let e = entries[k - 1];
        if cs_wf(e.1@) {
            match find_name_spec(nodes, 0, e.0) {
                Some(j) => prev.update(j as int, Some(e.1)),
                None => prev,
            }
        } else {
            prev
        }
    }
}

/// The binding step that attaches collider shapes.
pub open spec fn attach_collider_shapes_spec(a: AvatarG) -> AvatarG {
    if a.attached_collider_shapes || !all_bones_spawned_spec(a.nodes, a.bone_entries) {
        a
    } else {
        AvatarG {
            collider_shapes: attach_shapes_fold(
                a.nodes,
                a.collider_shapes,
                a.collider_entries,
                a.collider_entries.len() as int,
            ),
            attached_collider_shapes: true,
            ..a
        }
    }
}

/// The scene indices of the first `k` chain-joint names that resolve.
pub open spec fn resolve_joints_fold(nodes: Seq<SceneNode>, names: Seq<Seq<u8>>, k: int) -> Seq<
    usize,
>
    decreases k,
{
    if k <= 0 {
        Seq::empty()
    } else {
        let prev = resolve_joints_fold(nodes, names, k - 1);
        match find_name_spec(nodes, 0, names[k - 1]) {
            Some(j) => prev.push(j),
            None => prev,
        }
    }
}

/// The resolved collider pairs of the first `k` chain-collider entries:
/// the entry's node must resolve and its shape must be in range.
pub open spec fn resolve_colliders_fold(
    nodes: Seq<SceneNode>,
    entries: Seq<(Seq<u8>, ColliderShape)>,
    k: int,
) -> Seq<(usize, ColliderShape)>
    decreases k,
{
    if k <= 0 {
        Seq::empty()
    } else {
        let prev = resolve_colliders_fold(nodes, entries, k - 1);
        let e = entries[k - 1];
        if cs_wf(e.1@) {
            match find_name_spec(nodes, 0, e.0) {
                Some(j) => prev.push((j, e.1)),
                None => prev,
            }
        } else {
            prev
        }
    }
}

/// The chain built from one declared spring.
pub open spec fn root_of_spring_spec(nodes: Seq<SceneNode>, s: SpringNodeG) -> RootG {
    RootG {
        joints: resolve_joints_fold(nodes, s.joints, s.joints.len() as int),
        colliders: resolve_colliders_fold(nodes, s.colliders, s.colliders.len() as int),
        center_node: match s.center {
            Some(nm) => find_name_spec(nodes, 0, nm),
            None => None,
        },
    }
}

/// The chains built from the first `k` declared springs; a chain none of
/// whose joints resolve is skipped.
pub open spec fn attach_roots_fold(nodes: Seq<SceneNode>, springs: Seq<SpringNodeG>, k: int) -> Seq<
    RootG,
>
    decreases k,
{
    if k <= 0 {
        Seq::empty()
    } else {
        let prev = attach_roots_fold(nodes, springs, k - 1);
        let r = root_of_spring_spec(nodes, springs[k - 1]);
        if r.joints.len() == 0 {
            prev
        } else {
            prev.push(r)
        }
    }
}

/// The binding step that builds one `SpringRoot` per declared chain.
pub open spec fn attach_spring_roots_spec(a: AvatarG) -> AvatarG {
    if a.attached_spring_roots || !all_bones_spawned_spec(a.nodes, a.bone_entries) {
        a
    } else {
        AvatarG {
            spring_roots: attach_roots_fold(a.nodes, a.springs, a.springs.len() as int),
            attached_spring_roots: true,
            ..a
        }
    }
}

/// The simulation state created for the adjacent pair `(head, tail)`:
/// bone axis and length from the tail's local rest translation, both tails
/// at the tail node's world position, and the head's local rest transform.
pub open spec fn initial_state_spec(nodes: Seq<SceneNode>, head: int, tail: int) -> StateG {
    StateG {
        prev_tail: nodes[tail].world@.pos,
        current_tail: nodes[tail].world@.pos,
        bone_axis: v3_scale_to(nodes[tail].local@.pos, SCALE as int),
        bone_length: isqrt_spec(v3_norm_sq(nodes[tail].local@.pos)),
        initial_local: nodes[head].local@,
    }
}

/// The states after initializing the first `k` adjacent pairs of one
/// chain: pair `(joints[k-1], joints[k])` attaches a state to the head
/// joint, unless a node is missing or the rest bone has zero length.
pub open spec fn init_chain_fold(
    nodes: Seq<SceneNode>,
    states0: Seq<Option<SpringJointState>>,
    joints: Seq<usize>,
    k: int,
) -> Seq<Option<SpringJointState>>
    decreases k,
{
    if k <= 0 {
        states0
    } else {
        let prev = init_chain_fold(nodes, states0, joints, k - 1);
        let hi = joints[k - 1];
        let ti = joints[k];
        if (hi as int) < nodes.len() && (ti as int) < nodes.len() && v3_norm_sq(
            nodes[ti as int].local@.pos,
        ) != 0 {
            prev.update(hi as int, Some(state_of(initial_state_spec(nodes, hi as int, ti as int))))
        } else {
            prev
        }
    }
}

/// The states after initializing the first `k` chains.
pub open spec fn init_roots_fold(
    nodes: Seq<SceneNode>,
    states0: Seq<Option<SpringJointState>>,
    roots: Seq<RootG>,
    k: int,
) -> Seq<Option<SpringJointState>>
    decreases k,
{
    if k <= 0 {
        states0
    } else {
        let prev = init_roots_fold(nodes, states0, roots, k - 1);
        let r = roots[k - 1];
        if r.joints.len() == 0 {
            prev
        } else {
            init_chain_fold(nodes, prev, r.joints, r.joints.len() - 1)
        }
    }
}

/// The binding step that initializes the simulation states, run exactly
/// once after the spring roots appear.
pub open spec fn init_spring_joint_states_spec(a: AvatarG) -> AvatarG {
    if !a.attached_spring_roots || a.joint_states_initialized {
        a
    } else {
        AvatarG {
            joint_states: init_roots_fold(
                a.nodes,
                a.joint_states,
                a.spring_roots,
                a.spring_roots.len() as int,
            ),
            joint_states_initialized: true,
            ..a
        }
    }
}

/// The resolved humanoid bones of the first `k` registry entries: each
/// entry whose node name resolves yields the bone key, the node, and the
/// node's rest-pose transforms.
pub open spec fn setup_bones_fold(
    nodes: Seq<SceneNode>,
    entries: Seq<(Seq<u8>, Seq<u8>)>,
    k: int,
) -> Seq<crate::avatar::BoneRestG>
    decreases k,
{
    if k <= 0 {
        Seq::empty()
    } else {
        let prev = setup_bones_fold(nodes, entries, k - 1);
        let e = entries[k - 1];
        match find_name_spec(nodes, 0, e.1) {
            Some(j) => prev.push(
                crate::avatar::BoneRestG {
                    bone: e.0,
                    node: j,
                    rest_local: nodes[j as int].local@,
                    rest_world: nodes[j as int].world@,
                },
            ),
            None => prev,
        }
    }
}

/// The binding step that resolves the humanoid bones and captures their
/// rest-pose transforms.
pub open spec fn setup_bones_spec(a: AvatarG) -> AvatarG {
    if a.attached_humanoid_bones || !all_bones_spawned_spec(a.nodes, a.bone_entries) {
        a
    } else {
        AvatarG {
            humanoid_bone_rest: setup_bones_fold(a.nodes, a.bone_entries, a.bone_entries.len() as int),
            attached_humanoid_bones: true,
            ..a
        }
    }
}

/// The whole binding step: humanoid bones, properties, shapes, chains,
/// then states.
pub open spec fn bind_step_spec(a: AvatarG) -> AvatarG {
    init_spring_joint_states_spec(
        attach_spring_roots_spec(
            attach_collider_shapes_spec(attach_joint_props_spec(setup_bones_spec(a))),
        ),
    )
}

/// Binding idempotence: running the binding step twice, from any starting
/// state, leaves exactly what one run left — no duplicate chains, no
/// re-initialized states, no re-resolved bones.
pub proof fn lemma_binding_idempotent(a: AvatarG)
    ensures
        bind_step_spec(bind_step_spec(a)) == bind_step_spec(a),
{
    let b = bind_step_spec(a);
    let a0 = setup_bones_spec(a);
    let a1 = attach_joint_props_spec(a0);
    let a2 = attach_collider_shapes_spec(a1);
    let a3 = attach_spring_roots_spec(a2);
    assert(b == init_spring_joint_states_spec(a3));
    assert(b.nodes == a.nodes && b.bone_entries == a.bone_entries && b.props_entries
        == a.props_entries && b.collider_entries == a.collider_entries && b.springs == a.springs);
    let c0 = setup_bones_spec(b);
    assert(c0 == b) by {
        if !b.attached_humanoid_bones {
            assert(!all_bones_spawned_spec(a.nodes, a.bone_entries));
        }
    }
    let c1 = attach_joint_props_spec(c0);
    assert(c1 == b) by {
        if !b.attached_joint_props {
            assert(!a.attached_joint_props);
            assert(!all_bones_spawned_spec(a.nodes, a.bone_entries));
        }
    }
    let c2 = attach_collider_shapes_spec(c1);
    assert(c2 == b) by {
        if !b.attached_collider_shapes {
            assert(!all_bones_spawned_spec(a.nodes, a.bone_entries));
        }
    }
    let c3 = attach_spring_roots_spec(c2);
    assert(c3 == b) by {
        if !b.attached_spring_roots {
            assert(!all_bones_spawned_spec(a.nodes, a.bone_entries));
        }
    }
    assert(init_spring_joint_states_spec(c3) == b) by {
        if b.attached_spring_roots && !b.joint_states_initialized {
            assert(a3.attached_spring_roots && !a3.joint_states_initialized);
            assert(b != init_spring_joint_states_spec(a3) || b.joint_states_initialized);
        }
    }
}

impl Avatar {
    /// Resolves every humanoid bone of the registry to its scene node and
    /// captures the node's rest-pose transforms, once every declared bone
    /// exists; runs once, under its completion marker.
    pub fn setup_bones(&mut self)
        requires
            avatar_wf(*old(self)),
        ensures
            avatar_wf(*final(self)),
            final(self)@ == setup_bones_spec(old(self)@),
    {
        if self.attached_humanoid_bones {
            return;
        }
        if !has_been_spawned_all_bones(&self.scene, &self.humanoid_bones) {
            return;
        }
        let ghost a0 = self@;
        let n = self.humanoid_bones.entries.len();
        let mut resolved: Vec<crate::avatar::BoneRest> = Vec::new();
        let mut i: usize = 0;
        proof {
            assert(resolved@.map_values(|b: crate::avatar::BoneRest| crate::avatar::bone_rest_view(b))
                =~= setup_bones_fold(a0.nodes, a0.bone_entries, 0));
        }
        while i < n
            invariant
                avatar_wf(*self),
                self@ == a0,
                n == a0.bone_entries.len(),
                n == self.humanoid_bones.entries@.len(),
                0 <= i <= n,
                resolved@.map_values(
                    |b: crate::avatar::BoneRest| crate::avatar::bone_rest_view(b),
                ) == setup_bones_fold(a0.nodes, a0.bone_entries, i as int),
            decreases n - i,
        {
            proof {
                assert(a0.bone_entries[i as int] == (
                    self.humanoid_bones.entries@[i as int].0@,
                    self.humanoid_bones.entries@[i as int].1@,
                ));
            }
            match self.scene.find_from_name(0, &self.humanoid_bones.entries[i].1) {
                Some(j) => {
                    let bone = clone_bytes(&self.humanoid_bones.entries[i].0);
                    let rest_local = self.scene.local_of(j);
                    let rest_world = self.scene.world_of(j);
                    resolved.push(
                        crate::avatar::BoneRest { bone, node: j, rest_local, rest_world },
                    );
                    proof {
                        assert(resolved@.map_values(
                            |b: crate::avatar::BoneRest| crate::avatar::bone_rest_view(b),
                        ) =~= setup_bones_fold(a0.nodes, a0.bone_entries, i as int + 1));
                    }
                },
                None => {
                    proof {
                        assert(resolved@.map_values(
                            |b: crate::avatar::BoneRest| crate::avatar::bone_rest_view(b),
                        ) =~= setup_bones_fold(a0.nodes, a0.bone_entries, i as int + 1));
                    }
                },
            }
            i = i + 1;
        }
        self.humanoid_bone_rest = resolved;
        self.attached_humanoid_bones = true;
    }

    /// The scene node a humanoid bone resolved to, with its rest
    /// transforms: the first resolved entry carrying the given bone key.
    pub fn find_humanoid_bone(&self, bone: &Vec<u8>) -> (r: Option<usize>)
        ensures
            match r {
                Some(j) => exists|i: int|
                    0 <= i < self@.humanoid_bone_rest.len()
                        && (#[trigger] self@.humanoid_bone_rest[i]).bone == bone@
                        && self@.humanoid_bone_rest[i].node == j,
                None => forall|i: int|
                    0 <= i < self@.humanoid_bone_rest.len()
                        ==> (#[trigger] self@.humanoid_bone_rest[i]).bone != bone@,
            },
    {
        let n = self.humanoid_bone_rest.len();
        let mut i: usize = 0;
        while i < n
            invariant
                n == self.humanoid_bone_rest@.len(),
                n == self@.humanoid_bone_rest.len(),
                0 <= i <= n,
                forall|k: int|
                    0 <= k < i ==> (#[trigger] self@.humanoid_bone_rest[k]).bone != bone@,
            decreases n - i,
        {
            proof {
                assert(self@.humanoid_bone_rest[i as int] == crate::avatar::bone_rest_view(
                    self.humanoid_bone_rest@[i as int],
                ));
            }
            if crate::scene::bytes_eq(&self.humanoid_bone_rest[i].bone, bone) {
                return Some(self.humanoid_bone_rest[i].node);
            }
            i = i + 1;
        }
        None
    }

    /// Attaches the authored joint constants to their resolved nodes, once
    /// every declared bone exists; out-of-range constants and unresolved
    /// names are silently skipped.
    pub fn attach_joint_props(&mut self)
        requires
            avatar_wf(*old(self)),
        ensures
            avatar_wf(*final(self)),
            final(self)@ == attach_joint_props_spec(old(self)@),
    {
        if self.attached_joint_props {
            return;
        }
        if !has_been_spawned_all_bones(&self.scene, &self.humanoid_bones) {
            return;
        }
        let ghost a0 = self@;
        let n = self.joint_props_registry.entries.len();
        let mut i: usize = 0;
        while i < n
            invariant
                avatar_wf(*self),
                self@ == (AvatarG {
                    joint_props: attach_props_fold(
                        a0.nodes,
                        a0.joint_props,
                        a0.props_entries,
                        i as int,
                    ),
                    ..a0
                }),
                n == a0.props_entries.len(),
                n == self.joint_props_registry.entries@.len(),
                0 <= i <= n,
            decreases n - i,
        {
            let name = clone_bytes(&self.joint_props_registry.entries[i].0);
            let p = self.joint_props_registry.entries[i].1;
            proof {
                assert(a0.props_entries[i as int] == (
                    self.joint_props_registry.entries@[i as int].0@,
                    self.joint_props_registry.entries@[i as int].1,
                ));
            }
            if props_in_range(&p) {
                match self.scene.find_from_name(0, &name) {
                    Some(j) => {
                        self.joint_props.set(j, Some(p));
                    },
                    None => {},
                }
            }
            i = i + 1;
        }
        self.attached_joint_props = true;
    }

    /// Attaches the authored collider shapes to their resolved nodes, once
    /// every declared bone exists; out-of-range shapes and unresolved names
    /// are silently skipped.
    pub fn attach_collider_shapes(&mut self)
        requires
            avatar_wf(*old(self)),
        ensures
            avatar_wf(*final(self)),
            final(self)@ == attach_collider_shapes_spec(old(self)@),
    {
        if self.attached_collider_shapes {
            return;
        }
        if !has_been_spawned_all_bones(&self.scene, &self.humanoid_bones) {
            return;
        }
        let ghost a0 = self@;
        let n = self.collider_registry.entries.len();
        let mut i: usize = 0;
        while i < n
            invariant
                avatar_wf(*self),
                self@ == (AvatarG {
                    collider_shapes: attach_shapes_fold(
                        a0.nodes,
                        a0.collider_shapes,
                        a0.collider_entries,
                        i as int,
                    ),
                    ..a0
                }),
                n == a0.collider_entries.len(),
                n == self.collider_registry.entries@.len(),
                0 <= i <= n,
            decreases n - i,
        {
            let name = clone_bytes(&self.collider_registry.entries[i].0);
            let s = self.collider_registry.entries[i].1;
            proof {
                assert(a0.collider_entries[i as int] == (
                    self.collider_registry.entries@[i as int].0@,
                    self.collider_registry.entries@[i as int].1,
                ));
            }
            if shape_in_range(&s) {
                match self.scene.find_from_name(0, &name) {
                    Some(j) => {
                        self.collider_shapes.set(j, Some(s));
                    },
                    None => {},
                }
            }
            i = i + 1;
        }
        self.attached_collider_shapes = true;
    }

    /// Builds one `SpringRoot` per declared chain, once every declared bone
    /// exists; a chain none of whose joints resolve is dropped.
    pub fn attach_spring_roots(&mut self)
        requires
            avatar_wf(*old(self)),
        ensures
            avatar_wf(*final(self)),
            final(self)@ == attach_spring_roots_spec(old(self)@),
    {
        if self.attached_spring_roots {
            return;
        }
        if !has_been_spawned_all_bones(&self.scene, &self.humanoid_bones) {
            return;
        }
        let ghost a0 = self@;
        let ns = self.spring_node_registry.springs.len();
        let mut new_roots: Vec<SpringRoot> = Vec::new();
        let mut si: usize = 0;
        proof {
            assert(new_roots@.map_values(|r: SpringRoot| crate::avatar::root_view(r))
                =~= attach_roots_fold(a0.nodes, a0.springs, 0));
        }
        while si < ns
            invariant
                avatar_wf(*self),
                self@ == a0,
                ns == a0.springs.len(),
                ns == self.spring_node_registry.springs@.len(),
                0 <= si <= ns,
                new_roots@.map_values(|r: SpringRoot| crate::avatar::root_view(r))
                    == attach_roots_fold(a0.nodes, a0.springs, si as int),
                forall|k: int| 0 <= k < new_roots@.len() ==> root_wf(#[trigger] new_roots@[k]),
            decreases ns - si,
        {
            let ghost sg = a0.springs[si as int];
            proof {
                assert(sg == crate::registry::spring_node_view(
                    self.spring_node_registry.springs@[si as int],
                ));
            }
            let nj = self.spring_node_registry.springs[si].joints.len();
            let mut joints: Vec<usize> = Vec::new();
            let mut ji: usize = 0;
            proof {
                assert(joints@ =~= resolve_joints_fold(a0.nodes, sg.joints, 0));
            }
            while ji < nj
                invariant
                    avatar_wf(*self),
                    self@ == a0,
                    si < ns,
                    ns == self.spring_node_registry.springs@.len(),
                    sg == crate::registry::spring_node_view(
                        self.spring_node_registry.springs@[si as int],
                    ),
                    nj == sg.joints.len(),
                    nj == self.spring_node_registry.springs@[si as int].joints@.len(),
                    0 <= ji <= nj,
                    joints@ == resolve_joints_fold(a0.nodes, sg.joints, ji as int),
                decreases nj - ji,
            {
                proof {
                    assert(sg.joints[ji as int] == self.spring_node_registry.springs@[
                        si as int].joints@[ji as int]@);
                }
                match self.scene.find_from_name(
                    0,
                    &self.spring_node_registry.springs[si].joints[ji],
                ) {
                    Some(j) => {
                        joints.push(j);
                    },
                    None => {},
                }
                ji = ji + 1;
            }
            let nc = self.spring_node_registry.springs[si].colliders.len();
            let mut cols: Vec<(usize, ColliderShape)> = Vec::new();
            let mut ci: usize = 0;
            proof {
                assert(cols@ =~= resolve_colliders_fold(a0.nodes, sg.colliders, 0));
            }
            while ci < nc
                invariant
                    avatar_wf(*self),
                    self@ == a0,
                    si < ns,
                    ns == self.spring_node_registry.springs@.len(),
                    sg == crate::registry::spring_node_view(
                        self.spring_node_registry.springs@[si as int],
                    ),
                    nc == sg.colliders.len(),
                    nc == self.spring_node_registry.springs@[si as int].colliders@.len(),
                    0 <= ci <= nc,
                    cols@ == resolve_colliders_fold(a0.nodes, sg.colliders, ci as int),
                    forall|k: int| 0 <= k < cols@.len() ==> cs_wf(#[trigger] cols@[k].1@),
                decreases nc - ci,
            {
                proof {
                    assert(sg.colliders[ci as int] == (
                        self.spring_node_registry.springs@[si as int].colliders@[ci as int].0@,
                        self.spring_node_registry.springs@[si as int].colliders@[ci as int].1,
                    ));
                }
                let shape = self.spring_node_registry.springs[si].colliders[ci].1;
                if shape_in_range(&shape) {
                    let name = clone_bytes(
                        &self.spring_node_registry.springs[si].colliders[ci].0,
                    );
                    match self.scene.find_from_name(0, &name) {
                        Some(j) => {
                            cols.push((j, shape));
                        },
                        None => {},
                    }
                }
                ci = ci + 1;
            }
            let center: Option<usize> = match &self.spring_node_registry.springs[si].center {
                Some(nm) => self.scene.find_from_name(0, nm),
                None => None,
            };
            let has_joints = joints.len() > 0;
            let root = SpringRoot { joints, colliders: cols, center_node: center };
            proof {
                assert(crate::avatar::root_view(root) == root_of_spring_spec(a0.nodes, sg));
            }
            if has_joints {
                new_roots.push(root);
            }
            proof {
                assert(new_roots@.map_values(|r: SpringRoot| crate::avatar::root_view(r))
                    =~= attach_roots_fold(a0.nodes, a0.springs, si as int + 1));
            }
            si = si + 1;
        }
        self.spring_roots = new_roots;
        self.attached_spring_roots = true;
    }

    /// Creates the simulation state of every adjacent joint pair of every
    /// bound chain from the rest pose; runs exactly once, when the spring
    /// roots have appeared.  A pair with a missing node or a zero-length
    /// rest bone is skipped.
    pub fn init_spring_joint_states(&mut self)
        requires
            avatar_wf(*old(self)),
        ensures
            avatar_wf(*final(self)),
            final(self)@ == init_spring_joint_states_spec(old(self)@),
    {
        if !self.attached_spring_roots || self.joint_states_initialized {
            return;
        }
        let ghost a0 = self@;
        let nr = self.spring_roots.len();
        let mut ri: usize = 0;
        while ri < nr
            invariant
                avatar_wf(*self),
                self@ == (AvatarG {
                    joint_states: init_roots_fold(
                        a0.nodes,
                        a0.joint_states,
                        a0.spring_roots,
                        ri as int,
                    ),
                    ..a0
                }),
                nr == a0.spring_roots.len(),
                nr == self.spring_roots@.len(),
                0 <= ri <= nr,
            decreases nr - ri,
        {
            let ghost rg = a0.spring_roots[ri as int];
            let ghost states_in = self@.joint_states;
            proof {
                assert(rg == crate::avatar::root_view(self.spring_roots@[ri as int]));
            }
            let m = self.spring_roots[ri].joints.len();
            if m > 0 {
                let mut p: usize = 0;
                while p + 1 < m
                    invariant
                        avatar_wf(*self),
                        self@ == (AvatarG { joint_states: init_chain_fold(
                            a0.nodes,
                            states_in,
                            rg.joints,
                            p as int,
                        ), ..a0 }),
                        ri < nr,
                        nr == self.spring_roots@.len(),
                        rg == crate::avatar::root_view(self.spring_roots@[ri as int]),
                        m == rg.joints.len(),
                        m == self.spring_roots@[ri as int].joints@.len(),
                        m > 0,
                        0 <= p <= m - 1,
                        states_in == init_roots_fold(a0.nodes, a0.joint_states, a0.spring_roots, ri as int),
                    decreases m - p,
                {
                    let hi = self.spring_roots[ri].joints[p];
                    let ti = self.spring_roots[ri].joints[p + 1];
                    let scene_len = self.scene.len();
                    if hi < scene_len && ti < scene_len {
                        proof {
                            assert(node_wf(self.scene.nodes@[hi as int], hi as int));
                            assert(node_wf(self.scene.nodes@[ti as int], ti as int));
                        }
                        let tail_local = self.scene.local_of(ti).pos;
                        let n2 = tail_local.norm_sq();
                        if n2 != 0 {
                            let axis = tail_local.scale_to_length(SCALE);
                            proof {
                                assert(v3_norm_sq(tail_local@) <= 300_000_000_000_000int)
                                    by (nonlinear_arith)
                                    requires
                                        v3_norm_sq(tail_local@) == tail_local@.x * tail_local@.x
                                            + tail_local@.y * tail_local@.y + tail_local@.z
                                            * tail_local@.z,
                                        -10_000_000 <= tail_local@.x <= 10_000_000,
                                        -10_000_000 <= tail_local@.y <= 10_000_000,
                                        -10_000_000 <= tail_local@.z <= 10_000_000,
                                ;
                                lemma_isqrt_bounds(n2 as int);
                                assert(isqrt_spec(n2 as int) <= 17_400_000) by (nonlinear_arith)
                                    requires
                                        isqrt_spec(n2 as int) * isqrt_spec(n2 as int) <= n2,
                                        0 <= isqrt_spec(n2 as int),
                                        n2 <= 300_000_000_000_000int,
                                ;
                            }
                            let blen = isqrt(n2) as i64;
                            let wpos = self.scene.world_of(ti).pos;
                            let ilocal = self.scene.local_of(hi);
                            let st = SpringJointState {
                                prev_tail: wpos,
                                current_tail: wpos,
                                bone_axis: axis,
                                bone_length: blen,
                                initial_local: ilocal,
                            };
                            proof {
                                assert(st == state_of(
                                    initial_state_spec(a0.nodes, hi as int, ti as int),
                                ));
                                assert(state_wf(st@));
                            }
                            self.joint_states.set(hi, Some(st));
                        }
                    }
                    proof {
                        assert(self@.joint_states =~= init_chain_fold(
                            a0.nodes,
                            states_in,
                            rg.joints,
                            p as int + 1,
                        ));
                    }
                    p = p + 1;
                }
                proof {
                    assert(p as int == m - 1);
                }
            }
            ri = ri + 1;
        }
        self.joint_states_initialized = true;
    }

    /// One binding pass: resolve the humanoid bones, attach properties and
    /// shapes, build the chains, then initialize the simulation states.
    /// Idempotent; see [`lemma_binding_idempotent`].
    pub fn bind(&mut self)
        requires
            avatar_wf(*old(self)),
        ensures
            avatar_wf(*final(self)),
            final(self)@ == bind_step_spec(old(self)@),
    {
        self.setup_bones();
        self.attach_joint_props();
        self.attach_collider_shapes();
        self.attach_spring_roots();
        self.init_spring_joint_states();
    }
}

} // verus!
