//! Spring-bone data: per-joint authored properties, per-joint dynamic
//! simulation state, and the per-chain root.

use vstd::prelude::*;
use crate::collider::{COLLIDER_MAX, ColliderShape, cs_wf};
use crate::quat::UNIT_VEC_MAX;
use crate::scene::LOCAL_POS_MAX;
use crate::transform::{T3, Transform3, t3_wf};
use crate::vec3::{V3, Vec3, v3_bounded};
use crate::SCALE;

verus! {

/// Largest stiffness and gravity acceleration magnitude accepted.
pub const FORCE_MAX: i64 = 100_000_000;

/// Largest bone length accepted.
pub const BONE_LEN_MAX: i64 = 100_000_000;

/// Largest chain-space tail coordinate the simulation state may hold.
pub const TAIL_MAX: i64 = 10_000_000_000;

/// Largest frame delta accepted by the simulation, in micro-seconds.
pub const DT_MAX: i64 = 2_000_000;

/// Authored physical constants of one spring joint; attached at binding
/// time and never mutated afterwards.
#[derive(Clone, Copy, Debug, PartialEq, Eq, Structural)]
pub struct SpringJointProps {
    /// Drag fraction of `SCALE`, damping carried momentum.
    pub drag_force: i64,
    /// Unit gravity direction.
    pub gravity_dir: Vec3,
    /// Gravity strength, micro-units per second per second.
    pub gravity_power: i64,
    /// Collision radius around the joint's tail.
    pub hit_radius: i64,
    /// Pull back toward the rest-pose direction.
    pub stiffness: i64,
}

pub open spec fn props_wf(p: SpringJointProps) -> bool {
    &&& 0 <= p.drag_force <= SCALE
    &&& v3_bounded(p.gravity_dir@, UNIT_VEC_MAX as int)
    &&& 0 <= p.gravity_power <= FORCE_MAX
    &&& 0 <= p.hit_radius <= COLLIDER_MAX
    &&& 0 <= p.stiffness <= FORCE_MAX
}

impl Default for SpringJointProps {
    /// No drag, no gravity, no stiffness, no hit radius.
    fn default() -> (r: SpringJointProps)
        ensures
            r.drag_force == 0,
            r.gravity_dir@ == (V3 { x: 0, y: 0, z: 0 }),
            r.gravity_power == 0,
            r.hit_radius == 0,
            r.stiffness == 0,
            props_wf(r),
    {
        SpringJointProps {
            drag_force: 0,
            gravity_dir: Vec3 { x: 0, y: 0, z: 0 },
            gravity_power: 0,
            hit_radius: 0,
            stiffness: 0,
        }
    }
}

/// Ghost model of the per-joint simulation state.
pub ghost struct StateG {
    pub prev_tail: V3,
    pub current_tail: V3,
    pub bone_axis: V3,
    pub bone_length: int,
    pub initial_local: T3,
}

/// The simulation state holding the (in-range) model value.
pub open spec fn state_of(s: StateG) -> SpringJointState {
    SpringJointState {
        prev_tail: crate::vec3::vec_of(s.prev_tail),
        current_tail: crate::vec3::vec_of(s.current_tail),
        bone_axis: crate::vec3::vec_of(s.bone_axis),
        bone_length: s.bone_length as i64,
        initial_local: crate::transform::t3_of(s.initial_local),
    }
}

/// Dynamic simulation state of one spring joint, created once at binding
/// from the rest pose and advanced every tick.
///
/// The tails live in the chain's space: world space, or the center node's
/// local space when the chain has a center.  `bone_axis` and `bone_length`
/// are fixed at binding and never recomputed, which keeps the length
/// constraint stable under large rotations.
#[derive(Clone, Copy, Debug, PartialEq, Eq, Structural)]
pub struct SpringJointState {
    pub prev_tail: Vec3,
    pub current_tail: Vec3,
    pub bone_axis: Vec3,
    pub bone_length: i64,
    /// The joint's local transform at binding time (its rotation is the
    /// initial local rotation).
    pub initial_local: Transform3,
}

impl View for SpringJointState {
    type V = StateG;

    open spec fn view(&self) -> StateG {
        StateG {
            prev_tail: self.prev_tail@,
            current_tail: self.current_tail@,
            bone_axis: self.bone_axis@,
            bone_length: self.bone_length as int,
            initial_local: self.initial_local@,
        }
    }
}

pub open spec fn state_wf(s: StateG) -> bool {
    &&& v3_bounded(s.prev_tail, TAIL_MAX as int)
    &&& v3_bounded(s.current_tail, TAIL_MAX as int)
    &&& v3_bounded(s.bone_axis, UNIT_VEC_MAX as int)
    &&& 0 <= s.bone_length <= BONE_LEN_MAX as int
    &&& t3_wf(s.initial_local)
    &&& v3_bounded(s.initial_local.pos, LOCAL_POS_MAX as int)
}

/// One spring chain: the ordered joint list (head to tail), the colliders
/// active for the chain, and the optional center node whose space the
/// simulation runs in.
#[derive(Debug)]
pub struct SpringRoot {
    /// Scene-node indices of the chain's joints, proximal first.
    pub joints: Vec<usize>,
    /// Scene-node index and shape of each collider.
    pub colliders: Vec<(usize, ColliderShape)>,
    /// Scene-node index of the center node, if the chain has one.
    pub center_node: Option<usize>,
}

/// Every collider shape of the root is well-formed (node indices are
/// re-checked against the scene each tick, so they are not constrained
/// here).
pub open spec fn root_wf(r: SpringRoot) -> bool {
    forall|k: int| 0 <= k < r.colliders@.len() ==> cs_wf(#[trigger] r.colliders@[k].1@)
}

} // verus!
