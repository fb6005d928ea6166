//! Fixed-point trigonometry and integer square root.
//!
//! Angles are in milliradians; the sine and cosine below return values in
//! milli (so 1000 stands for 1). The curves are the classical rational
//! approximation of the sine on a half period, extended by symmetry; the
//! formation flight path is defined in terms of exactly these functions,
//! so their contracts are exact equalities against their spec forms.

use vstd::prelude::*;

verus! {

/// Rational approximation of the sine on [0, pi], milli-scaled:
/// sin(x) ~ 16 x (pi - x) / (5 pi^2 - 4 x (pi - x)).
pub open spec fn spec_sin_half(x: int) -> int {
    let u = x * (crate::PI_MILLI - x);
    16_000 * u / (5 * crate::PI_MILLI * crate::PI_MILLI - 4 * u)
}

/// Sine over a full period [0, tau), by odd symmetry of the half wave.
pub open spec fn spec_sin_milli(x: int) -> int {
    if x <= crate::PI_MILLI {
        spec_sin_half(x)
    } else {
        -spec_sin_half(x - crate::PI_MILLI)
    }
}

/// Cosine over [0, tau): the sine shifted left by a quarter period.
pub open spec fn spec_cos_milli(x: int) -> int {
    let s = x + 1571;
    if s >= crate::TAU_MILLI {
        spec_sin_milli(s - crate::TAU_MILLI)
    } else {
        spec_sin_milli(s)
    }
}

/// Computes the milli-scaled sine of an angle in [0, pi] milliradians.
pub fn sin_half(x: i64) -> (r: i64)
    requires
        0 <= x <= crate::PI_MILLI,
    ensures
        r == spec_sin_half(x as int),
        0 <= r <= 1000,
{
    let xu = x as u64;
    let pi: u64 = 3_142;
    proof {
        assert(xu * (pi - xu) <= 2_468_041 && 4 * (xu * (pi - xu)) <= pi * pi)
            by (nonlinear_arith)
            requires
                xu <= pi,
                pi == 3_142,
        ;
    }
    let u = xu * (pi - xu);
    let num = 16_000 * u;
    let den = 5 * pi * pi - 4 * u;
    let r = num / den;
    proof {
        assert(num / den <= 1000) by (nonlinear_arith)
            requires
                num == 16_000 * u,
                den == 5 * pi * pi - 4 * u,
                4 * u <= pi * pi,
                pi == 3_142,
        ;
    }
    r as i64
}

/// Computes the milli-scaled sine of an angle in [0, tau) milliradians.
pub fn sin_milli(x: i64) -> (r: i64)
    requires
        0 <= x < crate::TAU_MILLI,
    ensures
        r == spec_sin_milli(x as int),
        -1000 <= r <= 1000,
{
    if x <= crate::PI_MILLI {
        sin_half(x)
    } else {
        -sin_half(x - crate::PI_MILLI)
    }
}

/// Computes the milli-scaled cosine of an angle in [0, tau) milliradians.
pub fn cos_milli(x: i64) -> (r: i64)
    requires
        0 <= x < crate::TAU_MILLI,
    ensures
        r == spec_cos_milli(x as int),
        -1000 <= r <= 1000,
{
    let s = x + 1571;
    if s >= crate::TAU_MILLI {
        sin_milli(s - crate::TAU_MILLI)
    } else {
        sin_milli(s)
    }
}

/// The integer square root: the largest r with r * r <= n.
pub open spec fn spec_isqrt(n: nat) -> nat
    decreases n,
{
    if n == 0 {
        0
    } else {
        let r = spec_isqrt((n - 1) as nat);
        if (r + 1) * (r + 1) <= n {
            r + 1
        } else {
            r
        }
    }
}

/// The integer square root is characterized by its two-sided bound.
pub proof fn lemma_isqrt_bounds(n: nat)
    ensures
        spec_isqrt(n) * spec_isqrt(n) <= n,
        n < (spec_isqrt(n) + 1) * (spec_isqrt(n) + 1),
    decreases n,
{
    if n > 0 {
        let m = (n - 1) as nat;
        lemma_isqrt_bounds(m);
        let r = spec_isqrt(m);
        assert(r * r <= m && m < (r + 1) * (r + 1));
        if (r + 1) * (r + 1) <= n {
            assert(spec_isqrt(n) == r + 1);
            assert(n == (r + 1) * (r + 1));
            assert((r + 1) * (r + 1) < (r + 2) * (r + 2)) by (nonlinear_arith);
            assert(n < (spec_isqrt(n) + 1) * (spec_isqrt(n) + 1));
        } else {
            assert(spec_isqrt(n) == r);
            assert(r * r <= n);
            assert(n < (r + 1) * (r + 1));
            assert(n < (spec_isqrt(n) + 1) * (spec_isqrt(n) + 1));
        }
    } else {
        assert(spec_isqrt(n) == 0);
        assert(n < (spec_isqrt(n) + 1) * (spec_isqrt(n) + 1)) by (nonlinear_arith)
            requires
                n == 0,
                spec_isqrt(n) == 0,
        ;
    }
}

/// Any r within the two-sided bound is the integer square root.
pub proof fn lemma_isqrt_unique(n: nat, r: nat)
    requires
        r * r <= n,
        n < (r + 1) * (r + 1),
    ensures
        r == spec_isqrt(n),
{
    lemma_isqrt_bounds(n);
    let s = spec_isqrt(n);
    if r < s {
        assert((r + 1) * (r + 1) <= s * s) by (nonlinear_arith)
            requires
                r + 1 <= s,
        ;
    }
    if s < r {
        assert((s + 1) * (s + 1) <= r * r) by (nonlinear_arith)
            requires
                s + 1 <= r,
        ;
    }
}

/// Computes the integer square root by binary search.
pub fn isqrt(n: u64) -> (r: u64)
    requires
        n < 9_000_000_000_000_000_000,
    ensures
        r == spec_isqrt(n as nat),
        r * r <= n,
        n < (r + 1) * (r + 1),
{
    let mut lo: u64 = 0;
    let mut hi: u64 = 2_999_999_999;
    proof {
        assert((hi + 1) * (hi + 1) > n) by (nonlinear_arith)
            requires
                hi == 2_999_999_999u64,
                n < 9_000_000_000_000_000_000,
        ;
    }
    while lo < hi
        invariant
            lo <= hi,
            hi <= 2_999_999_999,
            lo * lo <= n,
            n < (hi + 1) * (hi + 1),
        decreases hi - lo,
    {
        let mid = lo + (hi - lo + 1) / 2;
        proof {
            assert(mid * mid < 9_223_372_036_854_775_807) by (nonlinear_arith)
                requires
                    mid <= 3_000_000_000u64,
            ;
        }
        if mid * mid <= n {
            lo = mid;
        } else {
            hi = mid - 1;
        }
    }
    proof {
        lemma_isqrt_unique(n as nat, lo as nat);
    }
    lo
}

} // verus!
