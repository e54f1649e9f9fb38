//! Fixed-point plane angles in millidegrees.
//!
//! The gaze solver needs the angle of a point in a plane — a two-argument
//! arctangent.  It is computed from a quadratic approximation of the
//! arctangent on the first octant, exact at 0 and at 45 degrees, folded
//! over the eight octants by sign and reflection.

use vstd::prelude::*;
use crate::fixed::{div_trunc, div_trunc128, sdiv, lemma_sdiv_exact, lemma_sdiv_mul_bound};
use crate::vec3::{iabs, lemma_mul_le};
use crate::SCALE;

verus! {

/// A half turn, in millidegrees.
pub const HALF_TURN_MDEG: i64 = 180_000;

/// Largest coordinate magnitude accepted by [`atan2_mdeg`].
pub const ATAN_IN_MAX: i64 = 2_000_000_000_000;

/// The arctangent of `p / q` in millidegrees for `0 <= p <= q`, by the
/// quadratic approximation `45 t + 15.642 t (1 - t)` of the first octant
/// (exact at the octant's ends, within about a quarter degree between).
pub open spec fn atan_frac_spec(p: int, q: int) -> int {
    let t = sdiv(p * (SCALE as int), q);
    sdiv(45_000 * t, SCALE as int) + sdiv(15_642 * sdiv(t * ((SCALE as int) - t), SCALE as int), SCALE as int)
}

/// The angle of the point `(b, a)` against the positive `b` axis, in
/// millidegrees within `[-180_000, 180_000]`: positive toward positive
/// `a`, folding the arctangent over the octants.  The origin has no
/// direction and maps to zero.
pub open spec fn atan2_mdeg_spec(a: int, b: int) -> int {
    if a == 0 && b == 0 {
        0
    } else {
        let ua = iabs(a);
        let ub = iabs(b);
        let core = if ua <= ub {
            atan_frac_spec(ua, ub)
        } else {
            90_000 - atan_frac_spec(ub, ua)
        };
        let mag = if b >= 0 {
            core
        } else {
            180_000 - core
        };
        if a >= 0 {
            mag
        } else {
            -mag
        }
    }
}

/// The first-octant arctangent stays within `[0, 48_911]` and hits both
/// octant ends exactly.
pub proof fn lemma_atan_frac_range(p: int, q: int)
    requires
        0 <= p <= q,
        1 <= q,
    ensures
        0 <= atan_frac_spec(p, q) <= 48_911,
        0 <= sdiv(p * (SCALE as int), q) <= SCALE as int,
        p == 0 ==> atan_frac_spec(p, q) == 0,
        p == q ==> atan_frac_spec(p, q) == 45_000,
{
    let s = SCALE as int;
    let t = sdiv(p * s, q);
    assert(iabs(p * s) <= q * s) by (nonlinear_arith)
        requires
            0 <= p <= q,
            s == 1_000_000,
    ;
    assert(q * s == s * q) by (nonlinear_arith);
    crate::fixed::lemma_sdiv_bound(p * s, q, q * s);
    assert((q * s) / q == s) by {
        crate::fixed::lemma_sdiv_exact(s, q);
        assert(s * q == q * s) by (nonlinear_arith);
        vstd::arithmetic::div_mod::lemma_div_pos_is_pos(q * s, q);
    }
    assert(p * s >= 0) by (nonlinear_arith)
        requires
            p >= 0,
            s >= 1,
    ;
    vstd::arithmetic::div_mod::lemma_div_pos_is_pos(p * s, q);
    assert(0 <= t <= s);
    assert(0 <= sdiv(45_000 * t, s) <= 45_000) by {
        assert(iabs(45_000 * t) <= 45_000 * s) by (nonlinear_arith)
            requires
                0 <= t <= s,
        ;
        lemma_sdiv_mul_bound(45_000 * t, s, 45_000);
        assert(45_000 * t >= 0) by (nonlinear_arith)
            requires
                t >= 0,
        ;
        vstd::arithmetic::div_mod::lemma_div_pos_is_pos(45_000 * t, s);
    }
    assert(0 <= t * (s - t) && t * (s - t) <= 250_000_000_000int) by (nonlinear_arith)
        requires
            0 <= t <= s,
            s == 1_000_000,
    ;
    let inner = sdiv(t * (s - t), s);
    assert(0 <= inner <= 250_000) by {
        assert(250_000_000_000int == 250_000 * s) by (nonlinear_arith)
            requires
                s == 1_000_000,
        ;
        lemma_sdiv_mul_bound(t * (s - t), s, 250_000);
        vstd::arithmetic::div_mod::lemma_div_pos_is_pos(t * (s - t), s);
    }
    assert(0 <= sdiv(15_642 * inner, s) <= 3_911) by {
        assert(iabs(15_642 * inner) <= 3_911 * s) by (nonlinear_arith)
            requires
                0 <= inner <= 250_000,
                s == 1_000_000,
        ;
        lemma_sdiv_mul_bound(15_642 * inner, s, 3_911);
        assert(15_642 * inner >= 0) by (nonlinear_arith)
            requires
                inner >= 0,
        ;
        vstd::arithmetic::div_mod::lemma_div_pos_is_pos(15_642 * inner, s);
    }
    if p == 0 {
        assert(0 * s == 0) by (nonlinear_arith);
        vstd::arithmetic::div_mod::lemma_div_of0(q);
        assert(t == 0);
        assert(45_000 * 0 == 0 && 0 * (s - 0) == 0) by (nonlinear_arith);
        vstd::arithmetic::div_mod::lemma_div_of0(s);
        assert(15_642 * 0 == 0) by (nonlinear_arith);
    }
    if p == q {
        assert(t == s);
        assert(45_000 * s == 45_000_000_000int && s * (s - s) == 0) by (nonlinear_arith)
            requires
                s == 1_000_000,
        ;
        lemma_sdiv_exact(45_000, s);
        assert(45_000 * s == s * 45_000) by (nonlinear_arith);
        vstd::arithmetic::div_mod::lemma_div_of0(s);
        assert(15_642 * 0 == 0) by (nonlinear_arith);
    }
}

/// The folded arctangent stays within a half turn either way, and is zero
/// straight ahead.
pub proof fn lemma_atan2_range(a: int, b: int)
    ensures
        -(HALF_TURN_MDEG as int) <= atan2_mdeg_spec(a, b) <= HALF_TURN_MDEG as int,
        a == 0 && b >= 1 ==> atan2_mdeg_spec(a, b) == 0,
{
    if !(a == 0 && b == 0) {
        let ua = iabs(a);
        let ub = iabs(b);
        if ua <= ub {
            lemma_atan_frac_range(ua, ub);
        } else {
            lemma_atan_frac_range(ub, ua);
        }
    }
}

/// The arctangent is antisymmetric in its first argument (straight behind,
/// where both signs fold to the same half turn, is excluded).
pub proof fn lemma_atan2_antisym(a: int, b: int)
    requires
        a != 0 || b >= 0,
    ensures
        atan2_mdeg_spec(-a, b) == -atan2_mdeg_spec(a, b),
{
    if a == 0 {
    } else {
        assert(iabs(-a) == iabs(a));
    }
}

/// Exactly half a right angle on the diagonal.
pub proof fn lemma_atan2_diagonal(k: int)
    requires
        1 <= k,
    ensures
        atan2_mdeg_spec(k, k) == 45_000,
{
    lemma_atan_frac_range(k, k);
}

/// The angle of the point `(b, a)` against the positive `b` axis, in
/// millidegrees.
pub fn atan2_mdeg(a: i64, b: i64) -> (r: i64)
    requires
        -ATAN_IN_MAX <= a <= ATAN_IN_MAX,
        -ATAN_IN_MAX <= b <= ATAN_IN_MAX,
    ensures
        r == atan2_mdeg_spec(a as int, b as int),
        -HALF_TURN_MDEG <= r <= HALF_TURN_MDEG,
{
    proof {
        lemma_atan2_range(a as int, b as int);
    }
    if a == 0 && b == 0 {
        return 0;
    }
    let ua = if a >= 0 {
        a
    } else {
        -a
    };
    let ub = if b >= 0 {
        b
    } else {
        -b
    };
    let core = if ua <= ub {
        atan_frac(ua, ub)
    } else {
        90_000 - atan_frac(ub, ua)
    };
    let mag = if b >= 0 {
        core
    } else {
        180_000 - core
    };
    if a >= 0 {
        mag
    } else {
        -mag
    }
}

/// The first-octant arctangent.
fn atan_frac(p: i64, q: i64) -> (r: i64)
    requires
        0 <= p <= q,
        1 <= q <= ATAN_IN_MAX,
    ensures
        r == atan_frac_spec(p as int, q as int),
        0 <= r <= 48_911,
{
    proof {
        lemma_atan_frac_range(p as int, q as int);
        lemma_mul_le(p as int, SCALE as int, ATAN_IN_MAX as int, SCALE as int);
    }
    let t = div_trunc128((p as i128) * (SCALE as i128), q as i128) as i64;
    proof {
        let s = SCALE as int;
        assert(0 <= 45_000 * (t as int) <= 45_000_000_000int) by (nonlinear_arith)
            requires
                0 <= t <= 1_000_000,
        ;
        assert(0 <= (t as int) * (s - t as int) <= 250_000_000_000int) by (nonlinear_arith)
            requires
                0 <= t <= 1_000_000,
                s == 1_000_000,
        ;
        assert(250_000_000_000int == 250_000 * s) by (nonlinear_arith)
            requires
                s == 1_000_000,
        ;
        lemma_sdiv_mul_bound((t as int) * (s - t as int), s, 250_000);
        vstd::arithmetic::div_mod::lemma_div_pos_is_pos((t as int) * (s - t as int), s);
    }
    let first = div_trunc(45_000 * t, SCALE);
    let inner = div_trunc(t * (SCALE - t), SCALE);
    let second = div_trunc(15_642 * inner, SCALE);
    first + second
}

} // verus!
