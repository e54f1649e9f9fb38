//! Runtime avatar motion library: damped spring-bone simulation with
//! sphere/capsule collision avoidance, name-based skeleton binding, and a
//! gaze (look-at) solver with per-eye angular range mapping.
//!
//! All geometry is carried in fixed-point integers: positions and unit
//! vectors in micro-units (one world unit is `SCALE` = 1,000,000), angles in
//! millidegrees.  Every algorithm is specified exactly over that integer
//! arithmetic, so the solvers' behaviour is pinned down to the last digit.

pub mod angles;
pub mod animation;
pub mod avatar;
pub mod collider;
pub mod fixed;
pub mod look_at;
pub mod materials;
pub mod quat;
pub mod registry;
pub mod scene;
pub mod spring;
pub mod system_set;
pub mod spring_setup;
pub mod spring_update;
pub mod transform;
pub mod vec3;

use vstd::prelude::*;

verus! {

/// One world unit, in fixed-point steps: all positions, unit vectors and
/// quaternion components are scaled by this factor.
pub const SCALE: i64 = 1_000_000;

} // verus!
