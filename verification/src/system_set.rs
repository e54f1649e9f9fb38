//! Scheduling labels for the per-frame passes, in their dependency order:
//! retargeting runs before gaze, gaze before the spring simulation.

use vstd::prelude::*;

verus! {

/// The three per-frame solver passes.
#[derive(Debug, Hash, PartialEq, Eq, Ord, PartialOrd, Clone, Copy)]
pub enum VrmSystemSets {
    /// Animation retargeting onto the avatar's skeleton.
    Retarget,
    /// The gaze (look-at) solve.
    LookAt,
    /// The spring-bone simulation.
    SpringBone,
}

} // verus!
