//! Rigid transforms: a rotation and a translation in fixed point.
//!
//! This is the model of the scene-graph substrate the solvers run on: every
//! node carries a local and a world transform, both rigid (unit scale).

use vstd::prelude::*;
use crate::quat::{
    Q4, Quat, q4_compose, q4_conj, q4_ident, q4_norm_sq, q4_rotate, q4_wf, lemma_q4_rotate_bounded,
};
use crate::vec3::{V3, Vec3, v3_add, v3_bounded, v3_sub};
use crate::SCALE;

verus! {

/// Largest translation (and point) magnitude accepted by transform
/// application.
pub const TRANSFORM_IN_MAX: i64 = 100_000_000_000;

/// The fixed-point transform holding the (in-range) model value.
pub open spec fn t3_of(t: T3) -> Transform3 {
    Transform3 { rot: crate::quat::quat_of(t.rot), pos: crate::vec3::vec_of(t.pos) }
}

/// Mathematical model of a rigid transform.
pub ghost struct T3 {
    pub rot: Q4,
    pub pos: V3,
}

/// The transform that moves nothing.
pub open spec fn t3_ident() -> T3 {
    T3 { rot: q4_ident(), pos: V3 { x: 0, y: 0, z: 0 } }
}

/// A rigid transform is well-formed when its rotation is near-unit and its
/// translation is within the accepted window.
pub open spec fn t3_wf(t: T3) -> bool {
    &&& q4_wf(t.rot)
    &&& v3_bounded(t.pos, TRANSFORM_IN_MAX as int)
}

/// Maps a point from the transform's local space outward: rotate, then
/// translate.
pub open spec fn t3_apply(t: T3, v: V3) -> V3 {
    v3_add(q4_rotate(t.rot, v), t.pos)
}

/// Maps a point into the transform's local space: untranslate, then rotate
/// by the conjugate.
pub open spec fn t3_apply_inv(t: T3, v: V3) -> V3 {
    q4_rotate(q4_conj(t.rot), v3_sub(v, t.pos))
}

/// Composition: `a` applied after `b` (so the result maps through `b`
/// first).
pub open spec fn t3_compose(a: T3, b: T3) -> T3 {
    T3 { rot: q4_compose(a.rot, b.rot), pos: v3_add(q4_rotate(a.rot, b.pos), a.pos) }
}

/// A rotation whose quaternion is the identity up to sign: it moves no
/// point, exactly, even in fixed point.
pub open spec fn q4_is_trivial_rotation(q: Q4) -> bool {
    &&& q.x == 0
    &&& q.y == 0
    &&& q.z == 0
    &&& (q.w == SCALE as int || q.w == -(SCALE as int))
}

/// A trivial rotation rotates every vector to itself, exactly.
pub proof fn lemma_q4_rotate_trivial(q: Q4, v: V3)
    requires
        q4_is_trivial_rotation(q),
    ensures
        q4_rotate(q, v) == v,
{
    let s2 = (SCALE as int) * (SCALE as int);
    assert(q.w * q.w == s2) by (nonlinear_arith)
        requires
            q.w == SCALE as int || q.w == -(SCALE as int),
            s2 == (SCALE as int) * (SCALE as int),
    ;
    crate::fixed::lemma_sdiv_exact(v.x, s2);
    crate::fixed::lemma_sdiv_exact(v.y, s2);
    crate::fixed::lemma_sdiv_exact(v.z, s2);
    assert((q.w * q.w + q.x * q.x - q.y * q.y - q.z * q.z) * v.x + (2 * (q.x * q.y - q.w * q.z))
        * v.y + (2 * (q.x * q.z + q.w * q.y)) * v.z == v.x * s2) by (nonlinear_arith)
        requires
            q.x == 0 && q.y == 0 && q.z == 0 && q.w * q.w == s2,
    ;
    assert((2 * (q.x * q.y + q.w * q.z)) * v.x + (q.w * q.w - q.x * q.x + q.y * q.y - q.z * q.z)
        * v.y + (2 * (q.y * q.z - q.w * q.x)) * v.z == v.y * s2) by (nonlinear_arith)
        requires
            q.x == 0 && q.y == 0 && q.z == 0 && q.w * q.w == s2,
    ;
    assert((2 * (q.x * q.z - q.w * q.y)) * v.x + (2 * (q.y * q.z + q.w * q.x)) * v.y + (q.w * q.w
        - q.x * q.x - q.y * q.y + q.z * q.z) * v.z == v.z * s2) by (nonlinear_arith)
        requires
            q.x == 0 && q.y == 0 && q.z == 0 && q.w * q.w == s2,
    ;
    assert(s2 >= 1);
    assert(q4_rotate(q, v).x == crate::fixed::sdiv(v.x * s2, s2));
    assert(q4_rotate(q, v).y == crate::fixed::sdiv(v.y * s2, s2));
    assert(q4_rotate(q, v).z == crate::fixed::sdiv(v.z * s2, s2));
}

/// Mapping a point out of a trivially rotated frame and back returns it
/// exactly, whatever its coordinates.
pub proof fn lemma_t3_round_trip(t: T3, x: V3)
    requires
        q4_is_trivial_rotation(t.rot),
    ensures
        t3_apply_inv(t, t3_apply(t, x)) == x,
{
    lemma_q4_rotate_trivial(t.rot, x);
    assert(q4_is_trivial_rotation(q4_conj(t.rot)));
    lemma_q4_rotate_trivial(q4_conj(t.rot), v3_sub(t3_apply(t, x), t.pos));
    assert(v3_sub(t3_apply(t, x), t.pos) == x);
}

/// A rigid transform: a near-unit rotation and a translation, both in
/// micro-units.
#[derive(Clone, Copy, Debug, PartialEq, Eq, Structural)]
pub struct Transform3 {
    pub rot: Quat,
    pub pos: Vec3,
}

impl View for Transform3 {
    type V = T3;

    open spec fn view(&self) -> T3 {
        T3 { rot: self.rot@, pos: self.pos@ }
    }
}

impl Transform3 {
    pub fn new(rot: Quat, pos: Vec3) -> (r: Transform3)
        ensures
            r@ == (T3 { rot: rot@, pos: pos@ }),
    {
        Transform3 { rot, pos }
    }

    pub fn identity() -> (r: Transform3)
        ensures
            r@ == t3_ident(),
            t3_wf(r@),
    {
        Transform3 { rot: Quat::identity(), pos: Vec3::zero() }
    }

    /// Maps a point from this transform's local space outward.
    pub fn apply(self, v: Vec3) -> (r: Vec3)
        requires
            t3_wf(self@),
            v3_bounded(v@, TRANSFORM_IN_MAX as int),
        ensures
            r@ == t3_apply(self@, v@),
            v3_bounded(r@, 500_000_000_000int),
    {
        proof {
            lemma_q4_rotate_bounded(self.rot@, v@, TRANSFORM_IN_MAX as int);
        }
        self.rot.rotate(v).add(self.pos)
    }

    /// Maps a point into this transform's local space.
    pub fn apply_inv(self, v: Vec3) -> (r: Vec3)
        requires
            t3_wf(self@),
            v3_bounded(v@, TRANSFORM_IN_MAX as int),
        ensures
            r@ == t3_apply_inv(self@, v@),
            v3_bounded(r@, 800_000_000_000int),
    {
        let d = v.sub(self.pos);
        proof {
            assert(q4_norm_sq(q4_conj(self.rot@)) == q4_norm_sq(self.rot@)) by (nonlinear_arith);
            lemma_q4_rotate_bounded(q4_conj(self.rot@), d@, 200_000_000_000int);
        }
        self.rot.conj().rotate(d)
    }

    /// Composes `self` after `o`: the result maps a point through `o`, then
    /// through `self`.
    pub fn compose(self, o: Transform3) -> (r: Transform3)
        requires
            t3_wf(self@),
            t3_wf(o@),
        ensures
            r@ == t3_compose(self@, o@),
            q4_wf(r@.rot),
            v3_bounded(r@.pos, 500_000_000_000int),
    {
        proof {
            lemma_q4_rotate_bounded(self.rot@, o.pos@, TRANSFORM_IN_MAX as int);
        }
        Transform3 {
            rot: self.rot.compose(o.rot),
            pos: self.rot.rotate(o.pos).add(self.pos),
        }
    }
}

} // verus!
