//! Scalar fixed-point helpers: truncating division and integer square root,
//! with the arithmetic lemmas the geometric modules build on.

use vstd::prelude::*;
use vstd::arithmetic::div_mod::{
    lemma_div_is_ordered, lemma_div_multiples_vanish, lemma_div_nonincreasing,
    lemma_div_pos_is_pos, lemma_multiply_divide_le,
};

verus! {

/// Division rounding toward zero, the rounding used by all fixed-point
/// operations in this crate (`/` on `int` rounds toward negative infinity).
pub open spec fn sdiv(a: int, b: int) -> int {
    if a >= 0 {
        a / b
    } else {
        -((-a) / b)
    }
}

/// The integer square root: the largest `r` with `r * r <= n` (0 for `n < 1`).
pub open spec fn isqrt_spec(n: int) -> int
    decreases n,
{
    if n < 1 {
        0
    } else {
        let r = isqrt_spec(n - 1);
        if (r + 1) * (r + 1) <= n {
            r + 1
        } else {
            r
        }
    }
}

pub proof fn lemma_isqrt_bounds(n: int)
    requires
        n >= 0,
    ensures
        0 <= isqrt_spec(n),
        isqrt_spec(n) * isqrt_spec(n) <= n,
        n < (isqrt_spec(n) + 1) * (isqrt_spec(n) + 1),
    decreases n,
{
    if n == 0 {
        assert(isqrt_spec(0) == 0);
    } else {
        lemma_isqrt_bounds(n - 1);
        let r = isqrt_spec(n - 1);
        if (r + 1) * (r + 1) <= n {
            assert(n < (r + 2) * (r + 2)) by (nonlinear_arith)
                requires
                    0 <= r,
                    n - 1 < (r + 1) * (r + 1),
            ;
        }
    }
}

pub proof fn lemma_isqrt_unique(n: int, s: int)
    requires
        0 <= s,
        s * s <= n,
        n < (s + 1) * (s + 1),
    ensures
        s == isqrt_spec(n),
{
    let r = isqrt_spec(n);
    lemma_isqrt_bounds(n);
    if s < r {
        assert((s + 1) * (s + 1) <= r * r) by (nonlinear_arith)
            requires
                0 <= s,
                s + 1 <= r,
        ;
    }
    if r < s {
        assert((r + 1) * (r + 1) <= s * s) by (nonlinear_arith)
            requires
                0 <= r,
                r + 1 <= s,
        ;
    }
}

/// Any integer whose square is below `n` bounds `isqrt_spec(n)` from below.
pub proof fn lemma_isqrt_ge(n: int, k: int)
    requires
        0 <= k,
        k * k <= n,
    ensures
        isqrt_spec(n) >= k,
{
    lemma_isqrt_bounds(n);
    let s = isqrt_spec(n);
    if s < k {
        assert((s + 1) * (s + 1) <= k * k) by (nonlinear_arith)
            requires
                0 <= s,
                s + 1 <= k,
        ;
    }
}

/// `sdiv` is monotone in its numerator.
pub proof fn lemma_sdiv_mono(a1: int, a2: int, b: int)
    requires
        b >= 1,
        a1 <= a2,
    ensures
        sdiv(a1, b) <= sdiv(a2, b),
{
    if a1 >= 0 {
        lemma_div_is_ordered(a1, a2, b);
    } else if a2 < 0 {
        lemma_div_is_ordered(-a2, -a1, b);
    } else {
        lemma_div_pos_is_pos(-a1, b);
        lemma_div_pos_is_pos(a2, b);
    }
}

/// A bound on the numerator bounds the truncated quotient.
pub proof fn lemma_sdiv_bound(a: int, b: int, m: int)
    requires
        b >= 1,
        0 <= m,
        -m <= a <= m,
    ensures
        -(m / b) <= sdiv(a, b) <= m / b,
        m / b <= m,
{
    lemma_sdiv_mono(a, m, b);
    lemma_sdiv_mono(-m, a, b);
    lemma_div_nonincreasing(m, b);
}

/// A multiple-of-the-divisor bound on the numerator bounds the quotient.
pub proof fn lemma_sdiv_mul_bound(a: int, b: int, c: int)
    requires
        b >= 1,
        0 <= c,
        -(c * b) <= a <= c * b,
    ensures
        -c <= sdiv(a, b) <= c,
{
    assert(c * b >= 0 && c * b == b * c) by (nonlinear_arith)
        requires
            c >= 0 && b >= 1,
    ;
    lemma_sdiv_bound(a, b, c * b);
    lemma_div_multiples_vanish(c, b);
    assert((c * b) / b == c);
}

/// Truncating division undoes multiplication by the divisor exactly.
pub proof fn lemma_sdiv_exact(x: int, b: int)
    requires
        b >= 1,
    ensures
        sdiv(x * b, b) == x,
{
    if x >= 0 {
        lemma_div_multiples_vanish(x, b);
        assert(x * b == b * x && x * b >= 0) by (nonlinear_arith)
            requires
                x >= 0 && b >= 1,
        ;
    } else {
        lemma_div_multiples_vanish(-x, b);
        assert(x * b < 0 && -(x * b) == b * (-x)) by (nonlinear_arith)
            requires
                x < 0 && b >= 1,
        ;
    }
}

/// The quotient reconstructs the numerator to within the divisor.
pub proof fn lemma_sdiv_close(a: int, b: int)
    requires
        b >= 1,
    ensures
        sdiv(a, b) * b <= a + b - 1,
        a - b + 1 <= sdiv(a, b) * b,
        a >= 0 ==> sdiv(a, b) * b <= a,
        a <= 0 ==> a <= sdiv(a, b) * b,
{
    if a >= 0 {
        vstd::arithmetic::div_mod::lemma_fundamental_div_mod(a, b);
        vstd::arithmetic::div_mod::lemma_mod_bound(a, b);
        let q = a / b;
        assert(q * b == b * q) by (nonlinear_arith);
    } else {
        vstd::arithmetic::div_mod::lemma_fundamental_div_mod(-a, b);
        vstd::arithmetic::div_mod::lemma_mod_bound(-a, b);
        let p = (-a) / b;
        assert((-p) * b == -(b * p)) by (nonlinear_arith);
    }
}

/// Truncating division of a 64-bit value, rounding toward zero.
pub fn div_trunc(a: i64, b: i64) -> (r: i64)
    requires
        1 <= b,
        -0x4000_0000_0000_0000 <= a <= 0x4000_0000_0000_0000,
    ensures
        r == sdiv(a as int, b as int),
{
    if a >= 0 {
        ((a as u64) / (b as u64)) as i64
    } else {
        proof {
            lemma_div_nonincreasing(-(a as int), b as int);
            lemma_div_pos_is_pos(-(a as int), b as int);
        }
        -((((-a) as u64) / (b as u64)) as i64)
    }
}

/// Truncating division of a 128-bit value, rounding toward zero.
pub fn div_trunc128(a: i128, b: i128) -> (r: i128)
    requires
        1 <= b,
        -0x4000_0000_0000_0000_0000_0000_0000_0000 <= a,
        a <= 0x4000_0000_0000_0000_0000_0000_0000_0000,
    ensures
        r == sdiv(a as int, b as int),
{
    if a >= 0 {
        ((a as u128) / (b as u128)) as i128
    } else {
        proof {
            lemma_div_nonincreasing(-(a as int), b as int);
            lemma_div_pos_is_pos(-(a as int), b as int);
        }
        -((((-a) as u128) / (b as u128)) as i128)
    }
}

/// The integer square root of a 128-bit value, by bisection.
pub fn isqrt(n: i128) -> (r: i128)
    requires
        0 <= n < 0x1000_0000_0000_0000_0000_0000_0000_0000int,
    ensures
        r == isqrt_spec(n as int),
        0 <= r,
        r * r <= n,
        n < (r + 1) * (r + 1),
{
    let nn: u128 = n as u128;
    let mut lo: u128 = 0;
    let mut hi: u128 = 0x4000_0000_0000_0000;
    proof {
        assert((hi as int) * (hi as int) > nn as int) by (nonlinear_arith)
            requires
                hi == 0x4000_0000_0000_0000u128,
                (nn as int) < 0x1000_0000_0000_0000_0000_0000_0000_0000int,
        ;
    }
    while lo + 1 < hi
        invariant
            0 <= lo < hi <= 0x4000_0000_0000_0000,
            (lo as int) * (lo as int) <= nn as int,
            (nn as int) < (hi as int) * (hi as int),
        decreases hi - lo,
    {
        let mid: u128 = lo + (hi - lo) / 2;
        proof {
            assert((mid as int) * (mid as int) < 0x1_0000_0000_0000_0000_0000_0000_0000_0000int)
                by (nonlinear_arith)
                requires
                    0 <= (mid as int) <= 0x4000_0000_0000_0000,
            ;
        }
        if mid * mid <= nn {
            lo = mid;
        } else {
            hi = mid;
        }
    }
    proof {
        lemma_isqrt_unique(n as int, lo as int);
    }
    lo as i128
}

} // verus!
