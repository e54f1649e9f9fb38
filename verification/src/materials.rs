//! Texture slots of the avatar's toon-material extension: each names the
//! texture it samples by asset index.  The shading itself belongs to the
//! host engine's render pipeline, not to the solvers.

use vstd::prelude::*;

verus! {

/// The matcap (sphere-environment) texture slot.
#[derive(Debug, Clone, Copy, PartialEq, Eq, Structural)]
pub struct MatcapTexture {
    pub index: usize,
}

/// The rim-light multiply texture slot.
#[derive(Debug, Clone, Copy, PartialEq, Eq, Structural)]
pub struct RimMultiplyTexture {
    pub index: usize,
}

/// The UV-animation mask texture slot.
#[derive(Debug, Clone, Copy, PartialEq, Eq, Structural)]
pub struct UVAnimationMaskTexture {
    pub index: usize,
}

} // verus!
