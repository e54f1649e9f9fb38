//! Fixed-point quaternions.
//!
//! Components are `i64` micro-units; a well-formed quaternion is unit length
//! up to rounding ([`q4_wf`]).  Rotation is applied through the quaternion's
//! rotation matrix, scaled by `SCALE * SCALE`, so the identity quaternion
//! rotates exactly.  Products are renormalized so that well-formedness is
//! preserved across composition.

use vstd::prelude::*;
use crate::fixed::{
    sdiv, isqrt_spec, div_trunc, div_trunc128, isqrt, lemma_isqrt_bounds, lemma_sdiv_mul_bound,
};
use crate::vec3::{iabs, V3, Vec3, v3_bounded, v3_cross};
use crate::SCALE;

verus! {

/// Largest component magnitude (and norm bound) of a well-formed quaternion:
/// unit length plus the rounding slack of renormalization.
pub const QUAT_UNIT_MAX: i64 = SCALE + 3;

/// Largest vector component accepted by [`Quat::rotate`].
pub const ROT_IN_MAX: i64 = 200_000_000_000;

/// Below this squared norm a quaternion about to be renormalized is treated
/// as degenerate and replaced by the identity.
pub const QUAT_DEGENERATE_SQ: i64 = 250_000_000_000;

/// The fixed-point quaternion holding the (in-range) model value.
pub open spec fn quat_of(q: Q4) -> Quat {
    Quat { x: q.x as i64, y: q.y as i64, z: q.z as i64, w: q.w as i64 }
}

/// Mathematical model of a fixed-point quaternion.
pub ghost struct Q4 {
    pub x: int,
    pub y: int,
    pub z: int,
    pub w: int,
}

pub open spec fn q4_ident() -> Q4 {
    Q4 { x: 0, y: 0, z: 0, w: SCALE as int }
}

pub open spec fn q4_conj(q: Q4) -> Q4 {
    Q4 { x: -q.x, y: -q.y, z: -q.z, w: q.w }
}

pub open spec fn q4_norm_sq(q: Q4) -> int {
    q.x * q.x + q.y * q.y + q.z * q.z + q.w * q.w
}

/// A quaternion of unit length, up to the rounding slack of renormalization.
pub open spec fn q4_wf(q: Q4) -> bool {
    q4_norm_sq(q) <= (QUAT_UNIT_MAX as int) * (QUAT_UNIT_MAX as int)
}

/// Rotation of `v` by `q`, through the rotation matrix of `q` scaled by
/// `SCALE * SCALE` (exact for the identity quaternion).
pub open spec fn q4_rotate(q: Q4, v: V3) -> V3 {
    let s2 = (SCALE as int) * (SCALE as int);
    V3 {
        x: sdiv(
            (q.w * q.w + q.x * q.x - q.y * q.y - q.z * q.z) * v.x + (2 * (q.x * q.y - q.w * q.z))
                * v.y + (2 * (q.x * q.z + q.w * q.y)) * v.z,
            s2,
        ),
        y: sdiv(
            (2 * (q.x * q.y + q.w * q.z)) * v.x + (q.w * q.w - q.x * q.x + q.y * q.y - q.z * q.z)
                * v.y + (2 * (q.y * q.z - q.w * q.x)) * v.z,
            s2,
        ),
        z: sdiv(
            (2 * (q.x * q.z - q.w * q.y)) * v.x + (2 * (q.y * q.z + q.w * q.x)) * v.y + (q.w * q.w
                - q.x * q.x - q.y * q.y + q.z * q.z) * v.z,
            s2,
        ),
    }
}

/// The Hamilton product of two near-unit quaternions, before renormalization.
pub open spec fn q4_mul_raw(a: Q4, b: Q4) -> Q4 {
    Q4 {
        x: sdiv(a.w * b.x + a.x * b.w + a.y * b.z - a.z * b.y, SCALE as int),
        y: sdiv(a.w * b.y - a.x * b.z + a.y * b.w + a.z * b.x, SCALE as int),
        z: sdiv(a.w * b.z + a.x * b.y - a.y * b.x + a.z * b.w, SCALE as int),
        w: sdiv(a.w * b.w - a.x * b.x - a.y * b.y - a.z * b.z, SCALE as int),
    }
}

/// Rescaling of a quaternion to length `len` (compare `v3_scale_to`).
pub open spec fn q4_scale_to(q: Q4, len: int) -> Q4 {
    let n = q4_norm_sq(q);
    if n == 0 {
        q
    } else {
        let s = isqrt_spec(n);
        Q4 {
            x: sdiv(q.x * len, s),
            y: sdiv(q.y * len, s),
            z: sdiv(q.z * len, s),
            w: sdiv(q.w * len, s),
        }
    }
}

/// Renormalization to unit length; a degenerate (near-zero) quaternion is
/// replaced by the identity.
pub open spec fn q4_renorm(q: Q4) -> Q4 {
    if q4_norm_sq(q) < QUAT_DEGENERATE_SQ as int {
        q4_ident()
    } else {
        q4_scale_to(q, SCALE as int)
    }
}

/// Composition of rotations: the Hamilton product, renormalized.
pub open spec fn q4_compose(a: Q4, b: Q4) -> Q4 {
    q4_renorm(q4_mul_raw(a, b))
}

/// The shortest-arc rotation taking direction `a` to direction `b` (both
/// unit length in fixed point).  An arc wider than the degeneracy threshold
/// (about two thirds of a half turn) has no stable axis here and yields the
/// identity.
pub open spec fn q4_arc(a: V3, b: V3) -> Q4 {
    let c = v3_cross(a, b);
    let raw = Q4 {
        x: sdiv(c.x, SCALE as int),
        y: sdiv(c.y, SCALE as int),
        z: sdiv(c.z, SCALE as int),
        w: (SCALE as int) + sdiv(a.x * b.x + a.y * b.y + a.z * b.z, SCALE as int),
    };
    if q4_norm_sq(raw) < (SCALE as int) * (SCALE as int) {
        q4_ident()
    } else {
        q4_scale_to(raw, SCALE as int)
    }
}

/// Every entry of the (scaled) rotation matrix of `q` is bounded by the
/// squared norm of `q`.
proof fn lemma_q4_matrix_bounds(q: Q4)
    ensures
        iabs(q.w * q.w + q.x * q.x - q.y * q.y - q.z * q.z) <= q4_norm_sq(q),
        iabs(q.w * q.w - q.x * q.x + q.y * q.y - q.z * q.z) <= q4_norm_sq(q),
        iabs(q.w * q.w - q.x * q.x - q.y * q.y + q.z * q.z) <= q4_norm_sq(q),
        iabs(2 * (q.x * q.y - q.w * q.z)) <= q4_norm_sq(q),
        iabs(2 * (q.x * q.y + q.w * q.z)) <= q4_norm_sq(q),
        iabs(2 * (q.x * q.z - q.w * q.y)) <= q4_norm_sq(q),
        iabs(2 * (q.x * q.z + q.w * q.y)) <= q4_norm_sq(q),
        iabs(2 * (q.y * q.z - q.w * q.x)) <= q4_norm_sq(q),
        iabs(2 * (q.y * q.z + q.w * q.x)) <= q4_norm_sq(q),
{
    let n = q4_norm_sq(q);
    assert(iabs(q.w * q.w + q.x * q.x - q.y * q.y - q.z * q.z) <= n) by (nonlinear_arith)
        requires
            n == q.x * q.x + q.y * q.y + q.z * q.z + q.w * q.w,
    ;
    assert(iabs(q.w * q.w - q.x * q.x + q.y * q.y - q.z * q.z) <= n) by (nonlinear_arith)
        requires
            n == q.x * q.x + q.y * q.y + q.z * q.z + q.w * q.w,
    ;
    assert(iabs(q.w * q.w - q.x * q.x - q.y * q.y + q.z * q.z) <= n) by (nonlinear_arith)
        requires
            n == q.x * q.x + q.y * q.y + q.z * q.z + q.w * q.w,
    ;
    assert(iabs(2 * (q.x * q.y - q.w * q.z)) <= n && iabs(2 * (q.x * q.y + q.w * q.z)) <= n)
        by (nonlinear_arith)
        requires
            n == q.x * q.x + q.y * q.y + q.z * q.z + q.w * q.w,
    ;
    assert(iabs(2 * (q.x * q.z - q.w * q.y)) <= n && iabs(2 * (q.x * q.z + q.w * q.y)) <= n)
        by (nonlinear_arith)
        requires
            n == q.x * q.x + q.y * q.y + q.z * q.z + q.w * q.w,
    ;
    assert(iabs(2 * (q.y * q.z - q.w * q.x)) <= n && iabs(2 * (q.y * q.z + q.w * q.x)) <= n)
        by (nonlinear_arith)
        requires
            n == q.x * q.x + q.y * q.y + q.z * q.z + q.w * q.w,
    ;
}

/// Rotating by a well-formed quaternion inflates a component bound by at
/// most a factor of four.
pub proof fn lemma_q4_rotate_bounded(q: Q4, v: V3, b: int)
    requires
        q4_wf(q),
        v3_bounded(v, b),
        0 <= b,
    ensures
        v3_bounded(q4_rotate(q, v), 4 * b),
{
    let n = q4_norm_sq(q);
    let s2 = (SCALE as int) * (SCALE as int);
    lemma_q4_matrix_bounds(q);
    assert(n >= 0) by (nonlinear_arith)
        requires
            n == q.x * q.x + q.y * q.y + q.z * q.z + q.w * q.w,
    ;
    lemma_rotate_row(
        q.w * q.w + q.x * q.x - q.y * q.y - q.z * q.z,
        2 * (q.x * q.y - q.w * q.z),
        2 * (q.x * q.z + q.w * q.y),
        v,
        n,
        b,
    );
    lemma_rotate_row(
        2 * (q.x * q.y + q.w * q.z),
        q.w * q.w - q.x * q.x + q.y * q.y - q.z * q.z,
        2 * (q.y * q.z - q.w * q.x),
        v,
        n,
        b,
    );
    lemma_rotate_row(
        2 * (q.x * q.z - q.w * q.y),
        2 * (q.y * q.z + q.w * q.x),
        q.w * q.w - q.x * q.x - q.y * q.y + q.z * q.z,
        v,
        n,
        b,
    );
}

/// One row of the rotation-matrix application stays within four times the
/// input bound after the `SCALE * SCALE` division.
proof fn lemma_rotate_row(m0: int, m1: int, m2: int, v: V3, n: int, b: int)
    requires
        iabs(m0) <= n,
        iabs(m1) <= n,
        iabs(m2) <= n,
        v3_bounded(v, b),
        0 <= b,
        0 <= n <= (QUAT_UNIT_MAX as int) * (QUAT_UNIT_MAX as int),
    ensures
        -(4 * b) <= sdiv(m0 * v.x + m1 * v.y + m2 * v.z, (SCALE as int) * (SCALE as int)) <= 4 * b,
{
    let s2 = (SCALE as int) * (SCALE as int);
    let m = (QUAT_UNIT_MAX as int) * (QUAT_UNIT_MAX as int);
    assert(iabs(m0 * v.x + m1 * v.y + m2 * v.z) <= 3 * (n * b)) by (nonlinear_arith)
        requires
            iabs(m0) <= n,
            iabs(m1) <= n,
            iabs(m2) <= n,
            -b <= v.x <= b,
            -b <= v.y <= b,
            -b <= v.z <= b,
            0 <= b,
            0 <= n,
    ;
    assert(3 * (n * b) <= (4 * b) * s2) by (nonlinear_arith)
        requires
            0 <= n <= m,
            m == (QUAT_UNIT_MAX as int) * (QUAT_UNIT_MAX as int),
            QUAT_UNIT_MAX == SCALE + 3,
            SCALE == 1_000_000,
            s2 == (SCALE as int) * (SCALE as int),
            0 <= b,
    ;
    lemma_sdiv_mul_bound(m0 * v.x + m1 * v.y + m2 * v.z, s2, 4 * b);
}

/// A fixed-point quaternion: components in micro-units.
#[derive(Clone, Copy, Debug, PartialEq, Eq, Structural)]
pub struct Quat {
    pub x: i64,
    pub y: i64,
    pub z: i64,
    pub w: i64,
}

impl View for Quat {
    type V = Q4;

    open spec fn view(&self) -> Q4 {
        Q4 { x: self.x as int, y: self.y as int, z: self.z as int, w: self.w as int }
    }
}

impl Quat {
    pub fn new(x: i64, y: i64, z: i64, w: i64) -> (r: Quat)
        ensures
            r@ == (Q4 { x: x as int, y: y as int, z: z as int, w: w as int }),
    {
        Quat { x, y, z, w }
    }

    /// The rotation that leaves every vector in place.
    pub fn identity() -> (r: Quat)
        ensures
            r@ == q4_ident(),
            q4_wf(r@),
    {
        proof {
            assert(q4_norm_sq(q4_ident()) <= (QUAT_UNIT_MAX as int) * (QUAT_UNIT_MAX as int))
                by (nonlinear_arith)
                requires
                    QUAT_UNIT_MAX == SCALE + 3,
                    SCALE == 1_000_000,
            ;
        }
        Quat { x: 0, y: 0, z: 0, w: SCALE }
    }

    /// The inverse rotation (for unit quaternions, the conjugate).
    pub fn conj(self) -> (r: Quat)
        requires
            q4_wf(self@),
        ensures
            r@ == q4_conj(self@),
            q4_wf(r@),
    {
        proof {
            lemma_q4_wf_components(self@);
            assert(q4_norm_sq(q4_conj(self@)) == q4_norm_sq(self@)) by (nonlinear_arith);
        }
        Quat { x: -self.x, y: -self.y, z: -self.z, w: self.w }
    }

    /// The squared norm, exact in 128-bit arithmetic.
    pub fn norm_sq(self) -> (r: i128)
        requires
            -0x2000_0000_0000_0000 <= self.x <= 0x2000_0000_0000_0000,
            -0x2000_0000_0000_0000 <= self.y <= 0x2000_0000_0000_0000,
            -0x2000_0000_0000_0000 <= self.z <= 0x2000_0000_0000_0000,
            -0x2000_0000_0000_0000 <= self.w <= 0x2000_0000_0000_0000,
        ensures
            r == q4_norm_sq(self@),
            r >= 0,
    {
        proof {
            assert(0 <= self@.x * self@.x <= 0x2000_0000_0000_0000int * 0x2000_0000_0000_0000int
                && 0 <= self@.y * self@.y <= 0x2000_0000_0000_0000int * 0x2000_0000_0000_0000int
                && 0 <= self@.z * self@.z <= 0x2000_0000_0000_0000int * 0x2000_0000_0000_0000int
                && 0 <= self@.w * self@.w <= 0x2000_0000_0000_0000int * 0x2000_0000_0000_0000int)
                by (nonlinear_arith)
                requires
                    -0x2000_0000_0000_0000 <= self@.x <= 0x2000_0000_0000_0000,
                    -0x2000_0000_0000_0000 <= self@.y <= 0x2000_0000_0000_0000,
                    -0x2000_0000_0000_0000 <= self@.z <= 0x2000_0000_0000_0000,
                    -0x2000_0000_0000_0000 <= self@.w <= 0x2000_0000_0000_0000,
            ;
        }
        (self.x as i128) * (self.x as i128) + (self.y as i128) * (self.y as i128) + (self.z
            as i128) * (self.z as i128) + (self.w as i128) * (self.w as i128)
    }

    /// Rescales `self` to unit length (`SCALE`).
    fn scaled_to_unit(self) -> (r: Quat)
        requires
            q4_norm_sq(self@) >= QUAT_DEGENERATE_SQ as int,
            -QUAT_RAW_MAX <= self.x <= QUAT_RAW_MAX,
            -QUAT_RAW_MAX <= self.y <= QUAT_RAW_MAX,
            -QUAT_RAW_MAX <= self.z <= QUAT_RAW_MAX,
            -QUAT_RAW_MAX <= self.w <= QUAT_RAW_MAX,
        ensures
            r@ == q4_scale_to(self@, SCALE as int),
            q4_wf(r@),
    {
        let n = self.norm_sq();
        proof {
            crate::vec3::lemma_mul_le(self@.x, self@.x, QUAT_RAW_MAX as int, QUAT_RAW_MAX as int);
            crate::vec3::lemma_mul_le(self@.y, self@.y, QUAT_RAW_MAX as int, QUAT_RAW_MAX as int);
            crate::vec3::lemma_mul_le(self@.z, self@.z, QUAT_RAW_MAX as int, QUAT_RAW_MAX as int);
            crate::vec3::lemma_mul_le(self@.w, self@.w, QUAT_RAW_MAX as int, QUAT_RAW_MAX as int);
            assert((QUAT_RAW_MAX as int) * (QUAT_RAW_MAX as int) <= 400_000_000_000_000int)
                by (nonlinear_arith)
                requires
                    QUAT_RAW_MAX == 20_000_000,
            ;
        }
        let s = isqrt(n);
        proof {
            lemma_isqrt_bounds(n as int);
            crate::fixed::lemma_isqrt_ge(n as int, 500_000);
            lemma_q4_component_le_isqrt(self@);
            assert(iabs(self@.x * (SCALE as int)) <= (isqrt_spec(n as int)) * (SCALE as int)
                && iabs(self@.y * (SCALE as int)) <= (isqrt_spec(n as int)) * (SCALE as int)
                && iabs(self@.z * (SCALE as int)) <= (isqrt_spec(n as int)) * (SCALE as int)
                && iabs(self@.w * (SCALE as int)) <= (isqrt_spec(n as int)) * (SCALE as int))
                by (nonlinear_arith)
                requires
                    iabs(self@.x) <= isqrt_spec(n as int),
                    iabs(self@.y) <= isqrt_spec(n as int),
                    iabs(self@.z) <= isqrt_spec(n as int),
                    iabs(self@.w) <= isqrt_spec(n as int),
                    isqrt_spec(n as int) >= 0,
                    SCALE == 1_000_000,
            ;
            assert((isqrt_spec(n as int)) * (SCALE as int) == (SCALE as int) * (isqrt_spec(
                n as int,
            ))) by (nonlinear_arith);
            lemma_sdiv_mul_bound(self@.x * (SCALE as int), isqrt_spec(n as int), SCALE as int);
            lemma_sdiv_mul_bound(self@.y * (SCALE as int), isqrt_spec(n as int), SCALE as int);
            lemma_sdiv_mul_bound(self@.z * (SCALE as int), isqrt_spec(n as int), SCALE as int);
            lemma_sdiv_mul_bound(self@.w * (SCALE as int), isqrt_spec(n as int), SCALE as int);
            lemma_q4_scale_to_unit_wf(self@);
        }
        Quat {
            x: div_trunc128((self.x as i128) * (SCALE as i128), s) as i64,
            y: div_trunc128((self.y as i128) * (SCALE as i128), s) as i64,
            z: div_trunc128((self.z as i128) * (SCALE as i128), s) as i64,
            w: div_trunc128((self.w as i128) * (SCALE as i128), s) as i64,
        }
    }

    /// Renormalizes to unit length; a degenerate quaternion collapses to the
    /// identity.
    pub fn renorm(self) -> (r: Quat)
        requires
            -QUAT_RAW_MAX <= self.x <= QUAT_RAW_MAX,
            -QUAT_RAW_MAX <= self.y <= QUAT_RAW_MAX,
            -QUAT_RAW_MAX <= self.z <= QUAT_RAW_MAX,
            -QUAT_RAW_MAX <= self.w <= QUAT_RAW_MAX,
        ensures
            r@ == q4_renorm(self@),
            q4_wf(r@),
    {
        let n = self.norm_sq();
        if n < QUAT_DEGENERATE_SQ as i128 {
            Quat::identity()
        } else {
            self.scaled_to_unit()
        }
    }

    /// The composed rotation `self` after `o` (Hamilton product), kept on the
    /// unit sphere by renormalization.
    pub fn compose(self, o: Quat) -> (r: Quat)
        requires
            q4_wf(self@),
            q4_wf(o@),
        ensures
            r@ == q4_compose(self@, o@),
            q4_wf(r@),
    {
        proof {
            lemma_q4_wf_components(self@);
            lemma_q4_wf_components(o@);
            lemma_hamilton_rows(self@, o@);
        }
        let x = div_trunc128(
            (self.w as i128) * (o.x as i128) + (self.x as i128) * (o.w as i128) + (self.y as i128)
                * (o.z as i128) - (self.z as i128) * (o.y as i128),
            SCALE as i128,
        ) as i64;
        let y = div_trunc128(
            (self.w as i128) * (o.y as i128) - (self.x as i128) * (o.z as i128) + (self.y as i128)
                * (o.w as i128) + (self.z as i128) * (o.x as i128),
            SCALE as i128,
        ) as i64;
        let z = div_trunc128(
            (self.w as i128) * (o.z as i128) + (self.x as i128) * (o.y as i128) - (self.y as i128)
                * (o.x as i128) + (self.z as i128) * (o.w as i128),
            SCALE as i128,
        ) as i64;
        let w = div_trunc128(
            (self.w as i128) * (o.w as i128) - (self.x as i128) * (o.x as i128) - (self.y as i128)
                * (o.y as i128) - (self.z as i128) * (o.z as i128),
            SCALE as i128,
        ) as i64;
        Quat { x, y, z, w }.renorm()
    }

    /// Rotates `v` by `self` through the scaled rotation matrix.
    pub fn rotate(self, v: Vec3) -> (r: Vec3)
        requires
            q4_wf(self@),
            v3_bounded(v@, ROT_IN_MAX as int),
        ensures
            r@ == q4_rotate(self@, v@),
            v3_bounded(r@, 4 * ROT_IN_MAX as int),
    {
        proof {
            lemma_q4_wf_components(self@);
            lemma_q4_products(self@);
            lemma_q4_matrix_bounds(self@);
            lemma_q4_rotate_bounded(self@, v@, ROT_IN_MAX as int);
        }
        let m00 = self.w * self.w + self.x * self.x - self.y * self.y - self.z * self.z;
        let m01 = 2 * (self.x * self.y - self.w * self.z);
        let m02 = 2 * (self.x * self.z + self.w * self.y);
        let m10 = 2 * (self.x * self.y + self.w * self.z);
        let m11 = self.w * self.w - self.x * self.x + self.y * self.y - self.z * self.z;
        let m12 = 2 * (self.y * self.z - self.w * self.x);
        let m20 = 2 * (self.x * self.z - self.w * self.y);
        let m21 = 2 * (self.y * self.z + self.w * self.x);
        let m22 = self.w * self.w - self.x * self.x - self.y * self.y + self.z * self.z;
        proof {
            lemma_matrix_times_vec(m00 as int, m01 as int, m02 as int, v@);
            lemma_matrix_times_vec(m10 as int, m11 as int, m12 as int, v@);
            lemma_matrix_times_vec(m20 as int, m21 as int, m22 as int, v@);
        }
        let s2 = (SCALE as i128) * (SCALE as i128);
        Vec3 {
            x: div_trunc128(
                (m00 as i128) * (v.x as i128) + (m01 as i128) * (v.y as i128) + (m02 as i128)
                    * (v.z as i128),
                s2,
            ) as i64,
            y: div_trunc128(
                (m10 as i128) * (v.x as i128) + (m11 as i128) * (v.y as i128) + (m12 as i128)
                    * (v.z as i128),
                s2,
            ) as i64,
            z: div_trunc128(
                (m20 as i128) * (v.x as i128) + (m21 as i128) * (v.y as i128) + (m22 as i128)
                    * (v.z as i128),
                s2,
            ) as i64,
        }
    }

    /// The shortest-arc rotation taking unit direction `a` to unit direction
    /// `b`; an arc past the degeneracy threshold yields the identity.
    pub fn rotation_arc(a: Vec3, b: Vec3) -> (r: Quat)
        requires
            v3_bounded(a@, UNIT_VEC_MAX as int),
            v3_bounded(b@, UNIT_VEC_MAX as int),
        ensures
            r@ == q4_arc(a@, b@),
            q4_wf(r@),
    {
        proof {
            lemma_arc_products(a@, b@);
        }
        let cx = div_trunc(a.y * b.z - a.z * b.y, SCALE);
        let cy = div_trunc(a.z * b.x - a.x * b.z, SCALE);
        let cz = div_trunc(a.x * b.y - a.y * b.x, SCALE);
        let d = div_trunc128(
            (a.x as i128) * (b.x as i128) + (a.y as i128) * (b.y as i128) + (a.z as i128)
                * (b.z as i128),
            SCALE as i128,
        ) as i64;
        let raw = Quat { x: cx, y: cy, z: cz, w: SCALE + d };
        let n = raw.norm_sq();
        if n < (SCALE as i128) * (SCALE as i128) {
            Quat::identity()
        } else {
            raw.scaled_to_unit()
        }
    }
}

/// Pairwise products of well-formed quaternion components fit their window.
proof fn lemma_q4_products(q: Q4)
    requires
        q4_wf(q),
    ensures
        iabs(q.x * q.x) <= 1_100_000_000_000,
        iabs(q.y * q.y) <= 1_100_000_000_000,
        iabs(q.z * q.z) <= 1_100_000_000_000,
        iabs(q.w * q.w) <= 1_100_000_000_000,
        iabs(q.x * q.y) <= 1_100_000_000_000,
        iabs(q.w * q.z) <= 1_100_000_000_000,
        iabs(q.x * q.z) <= 1_100_000_000_000,
        iabs(q.w * q.y) <= 1_100_000_000_000,
        iabs(q.y * q.z) <= 1_100_000_000_000,
        iabs(q.w * q.x) <= 1_100_000_000_000,
{
    lemma_q4_wf_components(q);
    crate::vec3::lemma_mul_le(q.x, q.x, 1_000_003, 1_000_003);
    crate::vec3::lemma_mul_le(q.y, q.y, 1_000_003, 1_000_003);
    crate::vec3::lemma_mul_le(q.z, q.z, 1_000_003, 1_000_003);
    crate::vec3::lemma_mul_le(q.w, q.w, 1_000_003, 1_000_003);
    crate::vec3::lemma_mul_le(q.x, q.y, 1_000_003, 1_000_003);
    crate::vec3::lemma_mul_le(q.w, q.z, 1_000_003, 1_000_003);
    crate::vec3::lemma_mul_le(q.x, q.z, 1_000_003, 1_000_003);
    crate::vec3::lemma_mul_le(q.w, q.y, 1_000_003, 1_000_003);
    crate::vec3::lemma_mul_le(q.y, q.z, 1_000_003, 1_000_003);
    crate::vec3::lemma_mul_le(q.w, q.x, 1_000_003, 1_000_003);
    assert(1_000_003int * 1_000_003int <= 1_100_000_000_000int) by (nonlinear_arith);
}

/// Row numerators of the rotation matrix application fit the 128-bit window.
proof fn lemma_matrix_times_vec(m0: int, m1: int, m2: int, v: V3)
    requires
        iabs(m0) <= 4_400_000_000_000,
        iabs(m1) <= 4_400_000_000_000,
        iabs(m2) <= 4_400_000_000_000,
        v3_bounded(v, ROT_IN_MAX as int),
    ensures
        iabs(m0 * v.x) <= 1_000_000_000_000_000_000_000_000,
        iabs(m1 * v.y) <= 1_000_000_000_000_000_000_000_000,
        iabs(m2 * v.z) <= 1_000_000_000_000_000_000_000_000,
        iabs(m0 * v.x + m1 * v.y + m2 * v.z) <= 3_000_000_000_000_000_000_000_000,
{
    crate::vec3::lemma_mul_le(m0, v.x, 4_400_000_000_000, ROT_IN_MAX as int);
    crate::vec3::lemma_mul_le(m1, v.y, 4_400_000_000_000, ROT_IN_MAX as int);
    crate::vec3::lemma_mul_le(m2, v.z, 4_400_000_000_000, ROT_IN_MAX as int);
    assert(4_400_000_000_000int * (ROT_IN_MAX as int) <= 1_000_000_000_000_000_000_000_000int)
        by (nonlinear_arith)
        requires
            ROT_IN_MAX == 200_000_000_000,
    ;
}

/// The four Hamilton-product rows of two well-formed quaternions are bounded
/// and their quotients by `SCALE` fit the raw-quaternion window.
proof fn lemma_hamilton_rows(a: Q4, b: Q4)
    requires
        q4_wf(a),
        q4_wf(b),
    ensures
        iabs(a.w * b.x) <= 1_100_000_000_000,
        iabs(a.w * b.y) <= 1_100_000_000_000,
        iabs(a.w * b.z) <= 1_100_000_000_000,
        iabs(a.w * b.w) <= 1_100_000_000_000,
        iabs(a.x * b.x) <= 1_100_000_000_000,
        iabs(a.x * b.y) <= 1_100_000_000_000,
        iabs(a.x * b.z) <= 1_100_000_000_000,
        iabs(a.x * b.w) <= 1_100_000_000_000,
        iabs(a.y * b.x) <= 1_100_000_000_000,
        iabs(a.y * b.y) <= 1_100_000_000_000,
        iabs(a.y * b.z) <= 1_100_000_000_000,
        iabs(a.y * b.w) <= 1_100_000_000_000,
        iabs(a.z * b.x) <= 1_100_000_000_000,
        iabs(a.z * b.y) <= 1_100_000_000_000,
        iabs(a.z * b.z) <= 1_100_000_000_000,
        iabs(a.z * b.w) <= 1_100_000_000_000,
        iabs(sdiv(a.w * b.x + a.x * b.w + a.y * b.z - a.z * b.y, SCALE as int))
            <= QUAT_RAW_MAX as int,
        iabs(sdiv(a.w * b.y - a.x * b.z + a.y * b.w + a.z * b.x, SCALE as int))
            <= QUAT_RAW_MAX as int,
        iabs(sdiv(a.w * b.z + a.x * b.y - a.y * b.x + a.z * b.w, SCALE as int))
            <= QUAT_RAW_MAX as int,
        iabs(sdiv(a.w * b.w - a.x * b.x - a.y * b.y - a.z * b.z, SCALE as int))
            <= QUAT_RAW_MAX as int,
{
    lemma_q4_wf_components(a);
    lemma_q4_wf_components(b);
    crate::vec3::lemma_mul_le(a.w, b.x, 1_000_003, 1_000_003);
    crate::vec3::lemma_mul_le(a.w, b.y, 1_000_003, 1_000_003);
    crate::vec3::lemma_mul_le(a.w, b.z, 1_000_003, 1_000_003);
    crate::vec3::lemma_mul_le(a.w, b.w, 1_000_003, 1_000_003);
    crate::vec3::lemma_mul_le(a.x, b.x, 1_000_003, 1_000_003);
    crate::vec3::lemma_mul_le(a.x, b.y, 1_000_003, 1_000_003);
    crate::vec3::lemma_mul_le(a.x, b.z, 1_000_003, 1_000_003);
    crate::vec3::lemma_mul_le(a.x, b.w, 1_000_003, 1_000_003);
    crate::vec3::lemma_mul_le(a.y, b.x, 1_000_003, 1_000_003);
    crate::vec3::lemma_mul_le(a.y, b.y, 1_000_003, 1_000_003);
    crate::vec3::lemma_mul_le(a.y, b.z, 1_000_003, 1_000_003);
    crate::vec3::lemma_mul_le(a.y, b.w, 1_000_003, 1_000_003);
    crate::vec3::lemma_mul_le(a.z, b.x, 1_000_003, 1_000_003);
    crate::vec3::lemma_mul_le(a.z, b.y, 1_000_003, 1_000_003);
    crate::vec3::lemma_mul_le(a.z, b.z, 1_000_003, 1_000_003);
    crate::vec3::lemma_mul_le(a.z, b.w, 1_000_003, 1_000_003);
    assert(1_000_003int * 1_000_003int <= 1_100_000_000_000int) by (nonlinear_arith);
    assert(4_400_000int * (SCALE as int) == 4_400_000_000_000int) by (nonlinear_arith)
        requires
            SCALE == 1_000_000,
    ;
    lemma_sdiv_mul_bound(a.w * b.x + a.x * b.w + a.y * b.z - a.z * b.y, SCALE as int, 4_400_000);
    lemma_sdiv_mul_bound(a.w * b.y - a.x * b.z + a.y * b.w + a.z * b.x, SCALE as int, 4_400_000);
    lemma_sdiv_mul_bound(a.w * b.z + a.x * b.y - a.y * b.x + a.z * b.w, SCALE as int, 4_400_000);
    lemma_sdiv_mul_bound(a.w * b.w - a.x * b.x - a.y * b.y - a.z * b.z, SCALE as int, 4_400_000);
}

/// The cross- and dot-product terms of the arc construction fit their
/// windows and the raw arc quaternion lands inside the raw cap.
proof fn lemma_arc_products(a: V3, b: V3)
    requires
        v3_bounded(a, UNIT_VEC_MAX as int),
        v3_bounded(b, UNIT_VEC_MAX as int),
    ensures
        iabs(a.x * b.x) <= 4_000_000_000_000,
        iabs(a.x * b.y) <= 4_000_000_000_000,
        iabs(a.x * b.z) <= 4_000_000_000_000,
        iabs(a.y * b.x) <= 4_000_000_000_000,
        iabs(a.y * b.y) <= 4_000_000_000_000,
        iabs(a.y * b.z) <= 4_000_000_000_000,
        iabs(a.z * b.x) <= 4_000_000_000_000,
        iabs(a.z * b.y) <= 4_000_000_000_000,
        iabs(a.z * b.z) <= 4_000_000_000_000,
        iabs(sdiv(a.y * b.z - a.z * b.y, SCALE as int)) <= 8_000_000,
        iabs(sdiv(a.z * b.x - a.x * b.z, SCALE as int)) <= 8_000_000,
        iabs(sdiv(a.x * b.y - a.y * b.x, SCALE as int)) <= 8_000_000,
        iabs(sdiv(a.x * b.x + a.y * b.y + a.z * b.z, SCALE as int)) <= 12_000_000,
{
    crate::vec3::lemma_mul_le(a.x, b.x, 2_000_000, 2_000_000);
    crate::vec3::lemma_mul_le(a.x, b.y, 2_000_000, 2_000_000);
    crate::vec3::lemma_mul_le(a.x, b.z, 2_000_000, 2_000_000);
    crate::vec3::lemma_mul_le(a.y, b.x, 2_000_000, 2_000_000);
    crate::vec3::lemma_mul_le(a.y, b.y, 2_000_000, 2_000_000);
    crate::vec3::lemma_mul_le(a.y, b.z, 2_000_000, 2_000_000);
    crate::vec3::lemma_mul_le(a.z, b.x, 2_000_000, 2_000_000);
    crate::vec3::lemma_mul_le(a.z, b.y, 2_000_000, 2_000_000);
    crate::vec3::lemma_mul_le(a.z, b.z, 2_000_000, 2_000_000);
    assert(2_000_000int * 2_000_000int <= 4_000_000_000_000int) by (nonlinear_arith);
    assert(8_000_000int * (SCALE as int) == 8_000_000_000_000int && 12_000_000int * (SCALE as int)
        == 12_000_000_000_000int) by (nonlinear_arith)
        requires
            SCALE == 1_000_000,
    ;
    lemma_sdiv_mul_bound(a.y * b.z - a.z * b.y, SCALE as int, 8_000_000);
    lemma_sdiv_mul_bound(a.z * b.x - a.x * b.z, SCALE as int, 8_000_000);
    lemma_sdiv_mul_bound(a.x * b.y - a.y * b.x, SCALE as int, 8_000_000);
    lemma_sdiv_mul_bound(a.x * b.x + a.y * b.y + a.z * b.z, SCALE as int, 12_000_000);
}

/// A well-formed quaternion has every component bounded by the unit norm cap.

/// Largest component magnitude accepted by the renormalization helpers.
pub const QUAT_RAW_MAX: i64 = 20_000_000;

/// Largest component magnitude accepted for the unit directions handed to
/// [`Quat::rotation_arc`].
pub const UNIT_VEC_MAX: i64 = 2_000_000;

/// No component exceeds the integer square root of the squared norm.
proof fn lemma_q4_component_le_isqrt(q: Q4)
    ensures
        iabs(q.x) <= isqrt_spec(q4_norm_sq(q)),
        iabs(q.y) <= isqrt_spec(q4_norm_sq(q)),
        iabs(q.z) <= isqrt_spec(q4_norm_sq(q)),
        iabs(q.w) <= isqrt_spec(q4_norm_sq(q)),
{
    let n = q4_norm_sq(q);
    assert(n >= 0 && q.x * q.x <= n && q.y * q.y <= n && q.z * q.z <= n && q.w * q.w <= n)
        by (nonlinear_arith)
        requires
            n == q.x * q.x + q.y * q.y + q.z * q.z + q.w * q.w,
    ;
    lemma_isqrt_bounds(n);
    let s = isqrt_spec(n);
    assert forall|a: int| a * a <= n implies iabs(a) <= s by {
        if iabs(a) > s {
            assert((s + 1) * (s + 1) <= a * a) by (nonlinear_arith)
                requires
                    0 <= s,
                    s + 1 <= iabs(a),
            ;
        }
    }
}

/// Renormalizing a non-degenerate quaternion to unit length lands inside the
/// well-formedness envelope.
proof fn lemma_q4_scale_to_unit_wf(q: Q4)
    requires
        q4_norm_sq(q) >= QUAT_DEGENERATE_SQ as int,
    ensures
        q4_wf(q4_scale_to(q, SCALE as int)),
{
    let n = q4_norm_sq(q);
    let s = isqrt_spec(n);
    let len = SCALE as int;
    lemma_isqrt_bounds(n);
    crate::fixed::lemma_isqrt_ge(n, 500_000);
    lemma_q4_component_le_isqrt(q);
    crate::vec3::lemma_scale_to_component(q.x, len, s);
    crate::vec3::lemma_scale_to_component(q.y, len, s);
    crate::vec3::lemma_scale_to_component(q.z, len, s);
    crate::vec3::lemma_scale_to_component(q.w, len, s);
    let r = q4_scale_to(q, len);
    let nr = q4_norm_sq(r);
    assert(nr * (s * s) <= n * (len * len)) by (nonlinear_arith)
        requires
            nr == r.x * r.x + r.y * r.y + r.z * r.z + r.w * r.w,
            n == q.x * q.x + q.y * q.y + q.z * q.z + q.w * q.w,
            r.x * r.x * (s * s) <= (q.x * q.x) * (len * len),
            r.y * r.y * (s * s) <= (q.y * q.y) * (len * len),
            r.z * r.z * (s * s) <= (q.z * q.z) * (len * len),
            r.w * r.w * (s * s) <= (q.w * q.w) * (len * len),
    ;
    assert(n <= s * s + 2 * s) by (nonlinear_arith)
        requires
            n < (s + 1) * (s + 1),
    ;
    assert(nr <= (QUAT_UNIT_MAX as int) * (QUAT_UNIT_MAX as int)) by (nonlinear_arith)
        requires
            nr * (s * s) <= n * (len * len),
            n <= s * s + 2 * s,
            s >= 500_000,
            len == 1_000_000int,
            QUAT_UNIT_MAX == SCALE + 3,
            SCALE == 1_000_000,
    ;
}

/// A well-formed quaternion has every component bounded by the unit norm cap.
pub proof fn lemma_q4_wf_components(q: Q4)
    requires
        q4_wf(q),
    ensures
        iabs(q.x) <= QUAT_UNIT_MAX as int,
        iabs(q.y) <= QUAT_UNIT_MAX as int,
        iabs(q.z) <= QUAT_UNIT_MAX as int,
        iabs(q.w) <= QUAT_UNIT_MAX as int,
{
    let m = QUAT_UNIT_MAX as int;
    assert(iabs(q.x) <= m && iabs(q.y) <= m && iabs(q.z) <= m && iabs(q.w) <= m)
        by (nonlinear_arith)
        requires
            q.x * q.x + q.y * q.y + q.z * q.z + q.w * q.w <= m * m,
            m >= 1,
    ;
}

} // verus!
