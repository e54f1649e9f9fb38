//! Collider shapes and collision resolution for spring tails.
//!
//! VRM defines exactly two shapes — a sphere and a capsule — attached to a
//! scene node.  A penetrating tail is pushed out along the separating
//! normal until it clears the combined margin of the collider radius and
//! the joint's hit radius.

use vstd::prelude::*;
use crate::fixed::sdiv;
use crate::transform::{T3, Transform3, t3_apply, t3_wf};
use crate::vec3::{
    V3, Vec3, iabs, v3_add, v3_bounded, v3_norm_sq, v3_scale_to, v3_sub, lemma_mul_le,
    lemma_scale_to_norm,
};
use crate::quat::lemma_q4_rotate_bounded;
use crate::scene::WORLD_POS_MAX;

verus! {

/// Largest collider offset and radius magnitude accepted.
pub const COLLIDER_MAX: i64 = 100_000_000;

/// Largest tail coordinate magnitude accepted by collision resolution.
pub const COLLIDE_IN_MAX: i64 = 100_000_000_000;

/// Mathematical model of a collider shape.
pub ghost enum CS {
    Sphere { offset: V3, radius: int },
    Capsule { head: V3, tail: V3, radius: int },
}

/// A collision shape, authored in the node's local space.
#[derive(Clone, Copy, Debug, PartialEq, Eq, Structural)]
pub enum ColliderShape {
    /// A sphere: center offset and radius.
    Sphere { offset: Vec3, radius: i64 },
    /// A capsule: the two segment end offsets and a radius.
    Capsule { head: Vec3, tail: Vec3, radius: i64 },
}

impl View for ColliderShape {
    type V = CS;

    open spec fn view(&self) -> CS {
        match *self {
            ColliderShape::Sphere { offset, radius } => CS::Sphere {
                offset: offset@,
                radius: radius as int,
            },
            ColliderShape::Capsule { head, tail, radius } => CS::Capsule {
                head: head@,
                tail: tail@,
                radius: radius as int,
            },
        }
    }
}

/// Well-formedness: offsets and radius within the accepted window.
pub open spec fn cs_wf(c: CS) -> bool {
    match c {
        CS::Sphere { offset, radius } => v3_bounded(offset, COLLIDER_MAX as int) && 0 <= radius
            <= COLLIDER_MAX as int,
        CS::Capsule { head, tail, radius } => v3_bounded(head, COLLIDER_MAX as int) && v3_bounded(
            tail,
            COLLIDER_MAX as int,
        ) && 0 <= radius <= COLLIDER_MAX as int,
    }
}

impl Default for ColliderShape {
    /// A point sphere at the node origin.
    fn default() -> (r: ColliderShape)
        ensures
            r@ == (CS::Sphere { offset: V3 { x: 0, y: 0, z: 0 }, radius: 0int }),
            cs_wf(r@),
    {
        ColliderShape::Sphere { offset: Vec3 { x: 0, y: 0, z: 0 }, radius: 0 }
    }
}

/// Push-out from a sphere of combined margin `margin` about `center`: a
/// tail strictly inside the margin moves to the margin sphere along the
/// separating normal; a tail exactly at the center (no normal) stays.
pub open spec fn resolve_sphere_spec(p: V3, center: V3, margin: int) -> V3 {
    let d = v3_sub(p, center);
    let n2 = v3_norm_sq(d);
    if n2 == 0 || n2 >= margin * margin {
        p
    } else {
        v3_add(center, v3_scale_to(d, margin))
    }
}

/// The point of segment `[a, b]` closest to `p`.
pub open spec fn seg_closest_spec(p: V3, a: V3, b: V3) -> V3 {
    let seg = v3_sub(b, a);
    let l2 = v3_norm_sq(seg);
    if l2 == 0 {
        a
    } else {
        let t = crate::vec3::v3_dot(v3_sub(p, a), seg);
        let tc = if t < 0 {
            0
        } else if t > l2 {
            l2
        } else {
            t
        };
        V3 {
            x: a.x + sdiv(seg.x * tc, l2),
            y: a.y + sdiv(seg.y * tc, l2),
            z: a.z + sdiv(seg.z * tc, l2),
        }
    }
}

/// Resolution of one collider, placed by its node's world transform,
/// against a tail with the given joint hit radius.
pub open spec fn resolve_shape_spec(p: V3, w: T3, c: CS, hit_radius: int) -> V3 {
    match c {
        CS::Sphere { offset, radius } => resolve_sphere_spec(
            p,
            t3_apply(w, offset),
            radius + hit_radius,
        ),
        CS::Capsule { head, tail, radius } => resolve_sphere_spec(
            p,
            seg_closest_spec(p, t3_apply(w, head), t3_apply(w, tail)),
            radius + hit_radius,
        ),
    }
}

/// Non-penetration: after a sphere push-out with margin at least one step,
/// the squared distance from the tail to the resolving center is at least
/// `margin * margin - 6 * margin` — the margin up to projection rounding.
pub proof fn lemma_collision_clearance(p: V3, center: V3, margin: int)
    requires
        1 <= margin,
        v3_norm_sq(v3_sub(p, center)) != 0,
    ensures
        v3_norm_sq(v3_sub(resolve_sphere_spec(p, center, margin), center)) >= margin * margin - 6
            * margin,
{
    let d = v3_sub(p, center);
    let n2 = v3_norm_sq(d);
    assert(n2 >= 0) by (nonlinear_arith)
        requires
            n2 == d.x * d.x + d.y * d.y + d.z * d.z,
    ;
    if n2 >= margin * margin {
        assert(v3_sub(resolve_sphere_spec(p, center, margin), center) == d);
    } else {
        lemma_scale_to_norm(d, margin);
        let proj = v3_scale_to(d, margin);
        assert(v3_sub(v3_add(center, proj), center) == proj);
    }
}

/// The segment-closest-point components stay within the combined window of
/// the endpoints.
proof fn lemma_seg_closest_bounded(p: V3, a: V3, b: V3)
    requires
        v3_bounded(p, COLLIDE_IN_MAX as int),
        v3_bounded(a, COLLIDE_IN_MAX as int),
        v3_bounded(b, COLLIDE_IN_MAX as int),
    ensures
        v3_bounded(seg_closest_spec(p, a, b), 3 * COLLIDE_IN_MAX as int),
{
    let seg = v3_sub(b, a);
    let l2 = v3_norm_sq(seg);
    if l2 != 0 {
        assert(l2 >= 1) by (nonlinear_arith)
            requires
                l2 == seg.x * seg.x + seg.y * seg.y + seg.z * seg.z,
                l2 != 0,
        ;
        let t = crate::vec3::v3_dot(v3_sub(p, a), seg);
        let tc = if t < 0 {
            0int
        } else if t > l2 {
            l2
        } else {
            t
        };
        assert(iabs(seg.x * tc) <= (2 * COLLIDE_IN_MAX as int) * l2) by (nonlinear_arith)
            requires
                iabs(seg.x) <= 2 * COLLIDE_IN_MAX as int,
                0 <= tc <= l2,
        ;
        assert(iabs(seg.y * tc) <= (2 * COLLIDE_IN_MAX as int) * l2) by (nonlinear_arith)
            requires
                iabs(seg.y) <= 2 * COLLIDE_IN_MAX as int,
                0 <= tc <= l2,
        ;
        assert(iabs(seg.z * tc) <= (2 * COLLIDE_IN_MAX as int) * l2) by (nonlinear_arith)
            requires
                iabs(seg.z) <= 2 * COLLIDE_IN_MAX as int,
                0 <= tc <= l2,
        ;
        crate::fixed::lemma_sdiv_mul_bound(seg.x * tc, l2, 2 * COLLIDE_IN_MAX as int);
        crate::fixed::lemma_sdiv_mul_bound(seg.y * tc, l2, 2 * COLLIDE_IN_MAX as int);
        crate::fixed::lemma_sdiv_mul_bound(seg.z * tc, l2, 2 * COLLIDE_IN_MAX as int);
    }
}

/// Push-out from a sphere about `center` with the given combined margin.
pub fn resolve_sphere(p: Vec3, center: Vec3, margin: i64) -> (r: Vec3)
    requires
        v3_bounded(p@, COLLIDE_IN_MAX as int),
        v3_bounded(center@, 3 * COLLIDE_IN_MAX as int),
        0 <= margin <= 2 * COLLIDER_MAX,
    ensures
        r@ == resolve_sphere_spec(p@, center@, margin as int),
        v3_bounded(r@, 4 * COLLIDE_IN_MAX as int),
{
    let d = p.sub(center);
    let n2 = d.norm_sq();
    proof {
        assert(iabs((margin as int) * (margin as int)) <= 40_000_000_000_000_000int)
            by (nonlinear_arith)
            requires
                0 <= margin <= 200_000_000,
        ;
    }
    let m2 = (margin as i128) * (margin as i128);
    if n2 == 0 || n2 >= m2 {
        p
    } else {
        proof {
            crate::vec3::lemma_component_le_isqrt(d@);
        }
        center.add(d.scale_to_length(margin))
    }
}

/// The point of segment `[a, b]` closest to `p`.
pub fn seg_closest(p: Vec3, a: Vec3, b: Vec3) -> (r: Vec3)
    requires
        v3_bounded(p@, COLLIDE_IN_MAX as int),
        v3_bounded(a@, COLLIDE_IN_MAX as int),
        v3_bounded(b@, COLLIDE_IN_MAX as int),
    ensures
        r@ == seg_closest_spec(p@, a@, b@),
        v3_bounded(r@, 3 * COLLIDE_IN_MAX as int),
{
    let seg = b.sub(a);
    let l2 = seg.norm_sq();
    if l2 == 0 {
        a
    } else {
        proof {
            lemma_seg_closest_bounded(p@, a@, b@);
            assert(l2 >= 1) by (nonlinear_arith)
                requires
                    l2 == seg@.x * seg@.x + seg@.y * seg@.y + seg@.z * seg@.z,
                    l2 != 0,
            ;
            lemma_mul_le(seg@.x, l2 as int, 2 * COLLIDE_IN_MAX as int, l2 as int);
            lemma_mul_le(seg@.y, l2 as int, 2 * COLLIDE_IN_MAX as int, l2 as int);
            lemma_mul_le(seg@.z, l2 as int, 2 * COLLIDE_IN_MAX as int, l2 as int);
        }
        let t = p.sub(a).dot(seg);
        let tc: i128 = if t < 0 {
            0
        } else if t > l2 {
            l2
        } else {
            t
        };
        proof {
            assert(l2 <= 200_000_000_000_000_000_000_000int) by (nonlinear_arith)
                requires
                    l2 == seg@.x * seg@.x + seg@.y * seg@.y + seg@.z * seg@.z,
                    -200_000_000_000 <= seg@.x <= 200_000_000_000,
                    -200_000_000_000 <= seg@.y <= 200_000_000_000,
                    -200_000_000_000 <= seg@.z <= 200_000_000_000,
            ;
            assert((2 * COLLIDE_IN_MAX as int) * (l2 as int)
                <= 0x4000_0000_0000_0000_0000_0000_0000_0000int) by (nonlinear_arith)
                requires
                    1 <= l2 <= 200_000_000_000_000_000_000_000int,
                    COLLIDE_IN_MAX == 100_000_000_000,
            ;
            lemma_mul_le(seg@.x, tc as int, 2 * COLLIDE_IN_MAX as int, l2 as int);
            lemma_mul_le(seg@.y, tc as int, 2 * COLLIDE_IN_MAX as int, l2 as int);
            lemma_mul_le(seg@.z, tc as int, 2 * COLLIDE_IN_MAX as int, l2 as int);
            crate::fixed::lemma_sdiv_mul_bound(seg@.x * (tc as int), l2 as int, 2 * COLLIDE_IN_MAX as int);
            crate::fixed::lemma_sdiv_mul_bound(seg@.y * (tc as int), l2 as int, 2 * COLLIDE_IN_MAX as int);
            crate::fixed::lemma_sdiv_mul_bound(seg@.z * (tc as int), l2 as int, 2 * COLLIDE_IN_MAX as int);
        }
        Vec3 {
            x: a.x + crate::fixed::div_trunc128((seg.x as i128) * tc, l2) as i64,
            y: a.y + crate::fixed::div_trunc128((seg.y as i128) * tc, l2) as i64,
            z: a.z + crate::fixed::div_trunc128((seg.z as i128) * tc, l2) as i64,
        }
    }
}

/// Resolves one collider, placed by its node's world transform, against a
/// tail with the given joint hit radius.
pub fn resolve_shape(p: Vec3, w: Transform3, shape: &ColliderShape, hit_radius: i64) -> (r: Vec3)
    requires
        t3_wf(w@),
        v3_bounded(w@.pos, WORLD_POS_MAX as int),
        cs_wf(shape@),
        v3_bounded(p@, COLLIDE_IN_MAX as int),
        0 <= hit_radius <= COLLIDER_MAX,
    ensures
        r@ == resolve_shape_spec(p@, w@, shape@, hit_radius as int),
        v3_bounded(r@, 4 * COLLIDE_IN_MAX as int),
{
    match shape {
        ColliderShape::Sphere { offset, radius } => {
            proof {
                lemma_q4_rotate_bounded(w@.rot, offset@, COLLIDER_MAX as int);
            }
            let center = w.apply(*offset);
            resolve_sphere(p, center, *radius + hit_radius)
        },
        ColliderShape::Capsule { head, tail, radius } => {
            proof {
                lemma_q4_rotate_bounded(w@.rot, head@, COLLIDER_MAX as int);
                lemma_q4_rotate_bounded(w@.rot, tail@, COLLIDER_MAX as int);
            }
            let ha = w.apply(*head);
            let hb = w.apply(*tail);
            let closest = seg_closest(p, ha, hb);
            resolve_sphere(p, closest, *radius + hit_radius)
        },
    }
}

} // verus!
