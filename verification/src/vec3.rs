//! Fixed-point 3-vectors.
//!
//! Components are `i64` micro-units; every operation is specified exactly
//! over the unbounded-integer model [`V3`].  The key operation is
//! [`Vec3::scale_to_length`], which re-projects a displacement onto a sphere
//! of a given radius — the length-constraint step of the spring solver and
//! of collision push-out.

use vstd::prelude::*;
use crate::fixed::{
    sdiv, isqrt_spec, div_trunc128, isqrt, lemma_isqrt_bounds, lemma_sdiv_bound,
    lemma_sdiv_mul_bound, lemma_sdiv_close,
};
use crate::SCALE;

verus! {

/// Mathematical model of a fixed-point vector.
pub ghost struct V3 {
    pub x: int,
    pub y: int,
    pub z: int,
}

/// The magnitude of an integer.
pub open spec fn iabs(a: int) -> int {
    if a >= 0 {
        a
    } else {
        -a
    }
}

pub open spec fn v3_add(a: V3, b: V3) -> V3 {
    V3 { x: a.x + b.x, y: a.y + b.y, z: a.z + b.z }
}

pub open spec fn v3_sub(a: V3, b: V3) -> V3 {
    V3 { x: a.x - b.x, y: a.y - b.y, z: a.z - b.z }
}

pub open spec fn v3_neg(a: V3) -> V3 {
    V3 { x: -a.x, y: -a.y, z: -a.z }
}

pub open spec fn v3_dot(a: V3, b: V3) -> int {
    a.x * b.x + a.y * b.y + a.z * b.z
}

pub open spec fn v3_cross(a: V3, b: V3) -> V3 {
    V3 {
        x: a.y * b.z - a.z * b.y,
        y: a.z * b.x - a.x * b.z,
        z: a.x * b.y - a.y * b.x,
    }
}

pub open spec fn v3_norm_sq(a: V3) -> int {
    v3_dot(a, a)
}

/// Component-wise scaling by the fraction `num / SCALE`, truncated.
pub open spec fn v3_scale_frac(v: V3, num: int) -> V3 {
    V3 {
        x: sdiv(v.x * num, SCALE as int),
        y: sdiv(v.y * num, SCALE as int),
        z: sdiv(v.z * num, SCALE as int),
    }
}

/// Re-scaling of `v` to the target length `len`: each component is
/// `v_i * len / |v|`, with `|v|` the integer square root of the squared
/// norm.  The zero vector (no direction) is returned unchanged.
pub open spec fn v3_scale_to(v: V3, len: int) -> V3 {
    let n = v3_norm_sq(v);
    if n == 0 {
        v
    } else {
        let s = isqrt_spec(n);
        V3 { x: sdiv(v.x * len, s), y: sdiv(v.y * len, s), z: sdiv(v.z * len, s) }
    }
}

/// The fixed-point vector holding the (in-range) model value.
pub open spec fn vec_of(v: V3) -> Vec3 {
    Vec3 { x: v.x as i64, y: v.y as i64, z: v.z as i64 }
}

/// All three components within `[-b, b]`.
pub open spec fn v3_bounded(v: V3, b: int) -> bool {
    &&& -b <= v.x <= b
    &&& -b <= v.y <= b
    &&& -b <= v.z <= b
}

/// A fixed-point vector: components in micro-units.
#[derive(Clone, Copy, Debug, PartialEq, Eq, Structural)]
pub struct Vec3 {
    pub x: i64,
    pub y: i64,
    pub z: i64,
}

impl View for Vec3 {
    type V = V3;

    open spec fn view(&self) -> V3 {
        V3 { x: self.x as int, y: self.y as int, z: self.z as int }
    }
}

/// Bound under which component sums stay inside `i64`.
pub const VEC_ADD_MAX: i64 = 0x2000_0000_0000_0000;

/// Bound under which fraction scaling and length re-projection stay exact
/// inside the intermediate 128-bit arithmetic.
pub const VEC_PROJ_MAX: i64 = 1_000_000_000_000;

/// Bound on the `num` argument of [`Vec3::scale_frac`].
pub const FRAC_NUM_MAX: i64 = 4_000_000_000_000;

impl Vec3 {
    pub fn new(x: i64, y: i64, z: i64) -> (r: Vec3)
        ensures
            r@ == (V3 { x: x as int, y: y as int, z: z as int }),
    {
        Vec3 { x, y, z }
    }

    pub fn zero() -> (r: Vec3)
        ensures
            r@ == (V3 { x: 0int, y: 0int, z: 0int }),
    {
        Vec3 { x: 0, y: 0, z: 0 }
    }

    pub fn add(self, o: Vec3) -> (r: Vec3)
        requires
            v3_bounded(self@, VEC_ADD_MAX as int),
            v3_bounded(o@, VEC_ADD_MAX as int),
        ensures
            r@ == v3_add(self@, o@),
    {
        Vec3 { x: self.x + o.x, y: self.y + o.y, z: self.z + o.z }
    }

    pub fn sub(self, o: Vec3) -> (r: Vec3)
        requires
            v3_bounded(self@, VEC_ADD_MAX as int),
            v3_bounded(o@, VEC_ADD_MAX as int),
        ensures
            r@ == v3_sub(self@, o@),
    {
        Vec3 { x: self.x - o.x, y: self.y - o.y, z: self.z - o.z }
    }

    pub fn neg(self) -> (r: Vec3)
        requires
            v3_bounded(self@, VEC_ADD_MAX as int),
        ensures
            r@ == v3_neg(self@),
    {
        Vec3 { x: -self.x, y: -self.y, z: -self.z }
    }

    /// The dot product, exact in 128-bit arithmetic.
    pub fn dot(self, o: Vec3) -> (r: i128)
        requires
            v3_bounded(self@, VEC_ADD_MAX as int),
            v3_bounded(o@, VEC_ADD_MAX as int),
        ensures
            r == v3_dot(self@, o@),
    {
        proof {
            assert((self.x as int) * (o.x as int) <= 0x2000_0000_0000_0000int * 0x2000_0000_0000_0000int
                && (self.x as int) * (o.x as int) >= -(0x2000_0000_0000_0000int * 0x2000_0000_0000_0000int)
                && (self.y as int) * (o.y as int) <= 0x2000_0000_0000_0000int * 0x2000_0000_0000_0000int
                && (self.y as int) * (o.y as int) >= -(0x2000_0000_0000_0000int * 0x2000_0000_0000_0000int)
                && (self.z as int) * (o.z as int) <= 0x2000_0000_0000_0000int * 0x2000_0000_0000_0000int
                && (self.z as int) * (o.z as int) >= -(0x2000_0000_0000_0000int * 0x2000_0000_0000_0000int))
                by (nonlinear_arith)
                requires
                    v3_bounded(self@, 0x2000_0000_0000_0000int),
                    v3_bounded(o@, 0x2000_0000_0000_0000int),
            ;
        }
        (self.x as i128) * (o.x as i128) + (self.y as i128) * (o.y as i128) + (self.z as i128)
            * (o.z as i128)
    }

    /// The squared Euclidean norm.
    pub fn norm_sq(self) -> (r: i128)
        requires
            v3_bounded(self@, VEC_ADD_MAX as int),
        ensures
            r == v3_norm_sq(self@),
            r >= 0,
    {
        let r = self.dot(self);
        proof {
            assert(v3_norm_sq(self@) >= 0) by (nonlinear_arith);
        }
        r
    }

    /// Component-wise scaling by the fraction `num / SCALE`, truncated.
    pub fn scale_frac(self, num: i64) -> (r: Vec3)
        requires
            v3_bounded(self@, VEC_PROJ_MAX as int),
            -FRAC_NUM_MAX <= num <= FRAC_NUM_MAX,
        ensures
            r@ == v3_scale_frac(self@, num as int),
    {
        proof {
            lemma_scale_frac_fits(self@, num as int);
        }
        Vec3 {
            x: div_trunc128((self.x as i128) * (num as i128), SCALE as i128) as i64,
            y: div_trunc128((self.y as i128) * (num as i128), SCALE as i128) as i64,
            z: div_trunc128((self.z as i128) * (num as i128), SCALE as i128) as i64,
        }
    }

    /// Re-projects `self` onto the sphere of radius `len` about the origin
    /// (the zero vector, having no direction, is returned unchanged).
    pub fn scale_to_length(self, len: i64) -> (r: Vec3)
        requires
            v3_bounded(self@, VEC_PROJ_MAX as int),
            0 <= len <= VEC_PROJ_MAX,
        ensures
            r@ == v3_scale_to(self@, len as int),
            v3_bounded(r@, VEC_PROJ_MAX as int),
            v3_norm_sq(self@) != 0 ==> v3_bounded(r@, len as int),
    {
        let n = self.norm_sq();
        if n == 0 {
            self
        } else {
            proof {
                assert(v3_norm_sq(self@) <= 3_000_000_000_000_000_000_000_000int)
                    by (nonlinear_arith)
                    requires
                        -1_000_000_000_000 <= self@.x <= 1_000_000_000_000,
                        -1_000_000_000_000 <= self@.y <= 1_000_000_000_000,
                        -1_000_000_000_000 <= self@.z <= 1_000_000_000_000,
                ;
            }
            let s = isqrt(n);
            proof {
                lemma_component_le_isqrt(self@);
                lemma_scale_to_fits(self@, len as int);
            }
            Vec3 {
                x: div_trunc128((self.x as i128) * (len as i128), s) as i64,
                y: div_trunc128((self.y as i128) * (len as i128), s) as i64,
                z: div_trunc128((self.z as i128) * (len as i128), s) as i64,
            }
        }
    }
}

/// The products inside `scale_frac` stay inside the 128-bit window and the
/// quotients fit back into `i64`.
proof fn lemma_scale_frac_fits(v: V3, num: int)
    requires
        v3_bounded(v, VEC_PROJ_MAX as int),
        -(FRAC_NUM_MAX as int) <= num <= FRAC_NUM_MAX as int,
    ensures
        iabs(v.x * num) <= (VEC_PROJ_MAX as int) * (FRAC_NUM_MAX as int),
        iabs(v.y * num) <= (VEC_PROJ_MAX as int) * (FRAC_NUM_MAX as int),
        iabs(v.z * num) <= (VEC_PROJ_MAX as int) * (FRAC_NUM_MAX as int),
        iabs(sdiv(v.x * num, SCALE as int)) <= 0x7fff_ffff_ffff_ffff,
        iabs(sdiv(v.y * num, SCALE as int)) <= 0x7fff_ffff_ffff_ffff,
        iabs(sdiv(v.z * num, SCALE as int)) <= 0x7fff_ffff_ffff_ffff,
{
    let m = (VEC_PROJ_MAX as int) * (FRAC_NUM_MAX as int);
    assert(iabs(v.x * num) <= m && iabs(v.y * num) <= m && iabs(v.z * num) <= m)
        by (nonlinear_arith)
        requires
            v3_bounded(v, VEC_PROJ_MAX as int),
            -(FRAC_NUM_MAX as int) <= num <= FRAC_NUM_MAX as int,
            m == (VEC_PROJ_MAX as int) * (FRAC_NUM_MAX as int),
    ;
    lemma_sdiv_bound(v.x * num, SCALE as int, m);
    lemma_sdiv_bound(v.y * num, SCALE as int, m);
    lemma_sdiv_bound(v.z * num, SCALE as int, m);
}

/// No component exceeds the integer square root of the squared norm.
pub proof fn lemma_component_le_isqrt(v: V3)
    ensures
        iabs(v.x) <= isqrt_spec(v3_norm_sq(v)),
        iabs(v.y) <= isqrt_spec(v3_norm_sq(v)),
        iabs(v.z) <= isqrt_spec(v3_norm_sq(v)),
{
    let n = v3_norm_sq(v);
    assert(n >= 0 && v.x * v.x <= n && v.y * v.y <= n && v.z * v.z <= n) by (nonlinear_arith)
        requires
            n == v.x * v.x + v.y * v.y + v.z * v.z,
    ;
    lemma_isqrt_bounds(n);
    let s = isqrt_spec(n);
    if iabs(v.x) > s {
        assert((s + 1) * (s + 1) <= v.x * v.x) by (nonlinear_arith)
            requires
                0 <= s,
                s + 1 <= iabs(v.x),
        ;
    }
    if iabs(v.y) > s {
        assert((s + 1) * (s + 1) <= v.y * v.y) by (nonlinear_arith)
            requires
                0 <= s,
                s + 1 <= iabs(v.y),
        ;
    }
    if iabs(v.z) > s {
        assert((s + 1) * (s + 1) <= v.z * v.z) by (nonlinear_arith)
            requires
                0 <= s,
                s + 1 <= iabs(v.z),
        ;
    }
}

/// The products and quotients of the length re-projection fit their windows,
/// and each projected component is bounded by the target length.
proof fn lemma_scale_to_fits(v: V3, len: int)
    requires
        v3_bounded(v, VEC_PROJ_MAX as int),
        0 <= len <= VEC_PROJ_MAX as int,
        v3_norm_sq(v) != 0,
    ensures
        iabs(v.x * len) <= (VEC_PROJ_MAX as int) * (VEC_PROJ_MAX as int),
        iabs(v.y * len) <= (VEC_PROJ_MAX as int) * (VEC_PROJ_MAX as int),
        iabs(v.z * len) <= (VEC_PROJ_MAX as int) * (VEC_PROJ_MAX as int),
        iabs(sdiv(v.x * len, isqrt_spec(v3_norm_sq(v)))) <= len,
        iabs(sdiv(v.y * len, isqrt_spec(v3_norm_sq(v)))) <= len,
        iabs(sdiv(v.z * len, isqrt_spec(v3_norm_sq(v)))) <= len,
{
    let n = v3_norm_sq(v);
    let s = isqrt_spec(n);
    assert(n >= 1) by (nonlinear_arith)
        requires
            n == v3_norm_sq(v),
            n != 0,
    ;
    lemma_isqrt_bounds(n);
    assert(s >= 1) by (nonlinear_arith)
        requires
            0 <= s,
            n < (s + 1) * (s + 1),
            n >= 1,
    ;
    lemma_component_le_isqrt(v);
    let m = (VEC_PROJ_MAX as int) * (VEC_PROJ_MAX as int);
    assert(iabs(v.x * len) <= m && iabs(v.y * len) <= m && iabs(v.z * len) <= m
        && iabs(v.x * len) <= s * len && iabs(v.y * len) <= s * len && iabs(v.z * len) <= s * len)
        by (nonlinear_arith)
        requires
            v3_bounded(v, VEC_PROJ_MAX as int),
            0 <= len <= VEC_PROJ_MAX as int,
            m == (VEC_PROJ_MAX as int) * (VEC_PROJ_MAX as int),
            iabs(v.x) <= s,
            iabs(v.y) <= s,
            iabs(v.z) <= s,
            s >= 1,
    ;
    assert(s * len == len * s) by (nonlinear_arith);
    lemma_sdiv_mul_bound(v.x * len, s, len);
    lemma_sdiv_mul_bound(v.y * len, s, len);
    lemma_sdiv_mul_bound(v.z * len, s, len);
}

/// Bounds on two factors bound their product.
pub proof fn lemma_mul_le(a: int, b: int, ma: int, mb: int)
    requires
        iabs(a) <= ma,
        iabs(b) <= mb,
    ensures
        iabs(a * b) <= ma * mb,
{
    assert(iabs(a * b) <= ma * mb) by (nonlinear_arith)
        requires
            iabs(a) <= ma,
            iabs(b) <= mb,
    ;
}

/// Bounds on the vector and the fraction numerator bound the scaled vector.
pub proof fn lemma_scale_frac_bounded(v: V3, num: int, bv: int, bn: int, cap: int)
    requires
        v3_bounded(v, bv),
        iabs(num) <= bn,
        0 <= bv,
        0 <= bn,
        0 <= cap,
        bv * bn <= (SCALE as int) * cap,
    ensures
        v3_bounded(v3_scale_frac(v, num), cap),
{
    lemma_mul_le(v.x, num, bv, bn);
    lemma_mul_le(v.y, num, bv, bn);
    lemma_mul_le(v.z, num, bv, bn);
    assert((SCALE as int) * cap == cap * (SCALE as int)) by (nonlinear_arith);
    lemma_sdiv_mul_bound(v.x * num, SCALE as int, cap);
    lemma_sdiv_mul_bound(v.y * num, SCALE as int, cap);
    lemma_sdiv_mul_bound(v.z * num, SCALE as int, cap);
}

/// Truncating division commutes with the magnitude.
pub proof fn lemma_abs_sdiv(a: int, s: int)
    requires
        s >= 1,
    ensures
        iabs(sdiv(a, s)) == iabs(a) / s,
{
    if a >= 0 {
        vstd::arithmetic::div_mod::lemma_div_pos_is_pos(a, s);
    } else {
        vstd::arithmetic::div_mod::lemma_div_pos_is_pos(-a, s);
    }
}

/// One component of the length re-projection, squared: bounded above by the
/// exact rational value and below by it less one divisor-sized step.
pub proof fn lemma_scale_to_component(a: int, len: int, s: int)
    requires
        s >= 1,
        0 <= len,
        iabs(a) <= s,
    ensures
        sdiv(a * len, s) * sdiv(a * len, s) * (s * s) <= (a * a) * (len * len),
        sdiv(a * len, s) * sdiv(a * len, s) * (s * s) >= (a * a) * (len * len) - 2 * s * (iabs(a)
            * len),
{
    let u = iabs(a);
    let q = iabs(sdiv(a * len, s));
    assert(iabs(a * len) == u * len) by (nonlinear_arith)
        requires
            u == iabs(a),
            len >= 0,
    ;
    lemma_abs_sdiv(a * len, s);
    lemma_sdiv_close(u * len, s);
    assert(q == (u * len) / s);
    assert(q * s <= u * len && q * s >= u * len - s + 1 && q >= 0) by {
        lemma_sdiv_close(u * len, s);
        assert(sdiv(u * len, s) == (u * len) / s) by {
            assert(u * len >= 0) by (nonlinear_arith)
                requires
                    u >= 0 && len >= 0,
            ;
        }
        vstd::arithmetic::div_mod::lemma_div_pos_is_pos(u * len, s);
    }
    assert(q * q * (s * s) <= (u * u) * (len * len)) by (nonlinear_arith)
        requires
            0 <= q * s <= u * len,
            q >= 0,
            s >= 1,
    ;
    assert(q * q * (s * s) >= (u * u) * (len * len) - 2 * s * (u * len)) by (nonlinear_arith)
        requires
            q * s >= u * len - s,
            q >= 0,
            s >= 1,
            u >= 0,
            len >= 0,
    ;
    assert(q * q == sdiv(a * len, s) * sdiv(a * len, s) && u * u == a * a) by (nonlinear_arith)
        requires
            q == iabs(sdiv(a * len, s)),
            u == iabs(a),
    ;
}

/// Length-constraint tolerance: re-projecting a non-zero vector onto the
/// sphere of radius `len` yields a squared norm within a rounding margin of
/// `len * len` — never below `len * len - 6 * len`, and, once the source is
/// at least `len` long, never above `(len + 2) * (len + 2)`.
pub proof fn lemma_scale_to_norm(v: V3, len: int)
    requires
        1 <= v3_norm_sq(v),
        0 <= len,
    ensures
        v3_norm_sq(v3_scale_to(v, len)) >= len * len - 6 * len,
        isqrt_spec(v3_norm_sq(v)) >= len ==> v3_norm_sq(v3_scale_to(v, len)) <= (len + 2) * (len
            + 2),
{
    let n = v3_norm_sq(v);
    let s = isqrt_spec(n);
    lemma_isqrt_bounds(n);
    assert(s >= 1) by (nonlinear_arith)
        requires
            0 <= s,
            n < (s + 1) * (s + 1),
            n >= 1,
    ;
    lemma_component_le_isqrt(v);
    let r = v3_scale_to(v, len);
    lemma_scale_to_component(v.x, len, s);
    lemma_scale_to_component(v.y, len, s);
    lemma_scale_to_component(v.z, len, s);
    let nr = v3_norm_sq(r);
    assert(nr == r.x * r.x + r.y * r.y + r.z * r.z);
    assert(n == v.x * v.x + v.y * v.y + v.z * v.z);
    assert(nr * (s * s) <= n * (len * len)) by (nonlinear_arith)
        requires
            nr == r.x * r.x + r.y * r.y + r.z * r.z,
            n == v.x * v.x + v.y * v.y + v.z * v.z,
            r.x * r.x * (s * s) <= (v.x * v.x) * (len * len),
            r.y * r.y * (s * s) <= (v.y * v.y) * (len * len),
            r.z * r.z * (s * s) <= (v.z * v.z) * (len * len),
    ;
    assert(nr * (s * s) >= n * (len * len) - 2 * s * (iabs(v.x) * len) - 2 * s * (iabs(v.y) * len)
        - 2 * s * (iabs(v.z) * len)) by (nonlinear_arith)
        requires
            nr == r.x * r.x + r.y * r.y + r.z * r.z,
            n == v.x * v.x + v.y * v.y + v.z * v.z,
            r.x * r.x * (s * s) >= (v.x * v.x) * (len * len) - 2 * s * (iabs(v.x) * len),
            r.y * r.y * (s * s) >= (v.y * v.y) * (len * len) - 2 * s * (iabs(v.y) * len),
            r.z * r.z * (s * s) >= (v.z * v.z) * (len * len) - 2 * s * (iabs(v.z) * len),
    ;
    assert(2 * s * (iabs(v.x) * len) <= 2 * ((s * s) * len)) by (nonlinear_arith)
        requires
            0 <= iabs(v.x) <= s,
            len >= 0,
            s >= 1,
    ;
    assert(2 * s * (iabs(v.y) * len) <= 2 * ((s * s) * len)) by (nonlinear_arith)
        requires
            0 <= iabs(v.y) <= s,
            len >= 0,
            s >= 1,
    ;
    assert(2 * s * (iabs(v.z) * len) <= 2 * ((s * s) * len)) by (nonlinear_arith)
        requires
            0 <= iabs(v.z) <= s,
            len >= 0,
            s >= 1,
    ;
    assert(n * (len * len) >= (s * s) * (len * len)) by (nonlinear_arith)
        requires
            n >= s * s,
            len >= 0,
    ;
    assert(nr * (s * s) >= (s * s) * (len * len) - 6 * ((s * s) * len));
    assert(nr >= len * len - 6 * len) by (nonlinear_arith)
        requires
            nr * (s * s) >= (s * s) * (len * len) - 6 * ((s * s) * len),
            s >= 1,
    ;
    if s >= len {
        assert(n <= s * s + 2 * s) by (nonlinear_arith)
            requires
                n < (s + 1) * (s + 1),
        ;
        assert(nr <= (len + 2) * (len + 2)) by (nonlinear_arith)
            requires
                nr * (s * s) <= n * (len * len),
                n <= s * s + 2 * s,
                s >= len,
                s >= 1,
                len >= 0,
        ;
    }
}

} // verus!
