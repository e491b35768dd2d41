//! Fixed-point representation and the arithmetic the swarm engine needs.
//!
//! Every real quantity of the optimizer — coordinates, velocities, scores,
//! swarm coefficients — is carried as an `i64` holding the value times
//! `SCALE`, i.e. with six fractional decimal digits.

use vstd::prelude::*;

verus! {

/// One whole unit of the fixed-point representation: values are stored
/// as `value * SCALE`.
pub const SCALE: i64 = 1_000_000;

/// Largest scaled magnitude accepted for the swarm coefficients
/// `c1`, `c2`, `alpha` and `lr` (500 000 in real terms).
pub const MAX_COEFF: i64 = 500_000_000_000;

/// Largest scaled magnitude accepted for a coordinate bound
/// (one thousand million in real terms).
pub const MAX_BOUND: i64 = 1_000_000_000_000_000_000;

/// `r` is the integer square root of `n`.
pub open spec fn is_sqrt_of(n: int, r: int) -> bool {
    0 <= r && r * r <= n && n < (r + 1) * (r + 1)
}

/// The integer square root (well defined for `n >= 0` by
/// `lemma_sqrt_exists` and `lemma_sqrt_unique`).
pub open spec fn spec_isqrt(n: int) -> int {
    choose|r: int| is_sqrt_of(n, r)
}

/// Two integer square roots of the same number are equal.
pub proof fn lemma_sqrt_unique(n: int, a: int, b: int)
    by (nonlinear_arith)
    requires
        is_sqrt_of(n, a),
        is_sqrt_of(n, b),
    ensures
        a == b,
{
}

/// Every natural number has an integer square root, so `spec_isqrt` is
/// well defined on it.
pub proof fn lemma_sqrt_exists(n: nat)
    ensures
        is_sqrt_of(n as int, spec_isqrt(n as int)),
    decreases n,
{
    if n == 0 {
        assert(is_sqrt_of(0, 0));
        assert(exists|r: int| is_sqrt_of(0, r));
    } else {
        lemma_sqrt_exists((n - 1) as nat);
        let r = spec_isqrt(n - 1);
        if (r + 1) * (r + 1) <= n {
            assert(is_sqrt_of(n as int, r + 1)) by (nonlinear_arith)
                requires
                    is_sqrt_of(n - 1, r),
                    (r + 1) * (r + 1) <= n,
                ;
            assert(exists|q: int| is_sqrt_of(n as int, q));
        } else {
            assert(is_sqrt_of(n as int, r));
            assert(exists|q: int| is_sqrt_of(n as int, q));
        }
    }
}

/// For admissible coefficients with `c1 + c2` above four units, the
/// constriction coefficient is a positive fixed-point value strictly
/// below one whole unit.
pub proof fn lemma_spec_chi_bounds(c1: int, c2: int)
    requires
        0 <= c1 <= MAX_COEFF,
        0 <= c2 <= MAX_COEFF,
        c1 + c2 > 4 * SCALE,
    ensures
        1 <= spec_chi(c1, c2) < SCALE,
{
    let phi = c1 + c2;
    assert(0 < phi * phi - 4 * (SCALE as int) * phi < phi * phi) by (nonlinear_arith)
        requires
            4 * (SCALE as int) < phi,
        ;
    let d = phi * phi - 4 * SCALE * phi;
    lemma_sqrt_exists(d as nat);
    let s = spec_isqrt(d);
    assert(0 <= s < phi) by (nonlinear_arith)
        requires
            0 <= s,
            0 < phi,
            s * s <= d,
            d < phi * phi,
        ;
    let denom = phi + s - 2 * SCALE;
    let num = 2 * (SCALE as int) * (SCALE as int);
    assert(2 * (SCALE as int) < denom < 4 * (MAX_COEFF as int));
    assert(num / denom >= 1) by (nonlinear_arith)
        requires
            0 < denom <= num,
        ;
    assert(num / denom < SCALE as int) by (nonlinear_arith)
        requires
            2 * (SCALE as int) < denom,
            num == 2 * (SCALE as int) * (SCALE as int),
            SCALE == 1_000_000i64,
        ;
}

/// Rounding down in a division by a positive number keeps an upper bound.
proof fn lemma_div_le(a: int, b: int, d: int)
    by (nonlinear_arith)
    requires
        0 <= a <= b,
        0 < d,
    ensures
        a / d <= b / d,
        0 <= a / d,
        a / d <= a,
{
}

/// The integer square root of `n`, found by binary search.
pub fn isqrt_u128(n: u128) -> (r: u128)
    requires
        n < 0x4000_0000_0000_0000_0000_0000_0000_0000u128,
    ensures
        r as int == spec_isqrt(n as int),
        is_sqrt_of(n as int, r as int),
{
    let mut lo: u128 = 0;
    let mut hi: u128 = 0x8000_0000_0000_0000u128;
    proof {
        assert((hi as int) * (hi as int) == 0x4000_0000_0000_0000_0000_0000_0000_0000int)
            by (nonlinear_arith)
            requires
                hi == 0x8000_0000_0000_0000u128,
            ;
    }
    while lo + 1 < hi
        invariant
            lo < hi <= 0x8000_0000_0000_0000u128,
            (lo as int) * (lo as int) <= n as int,
            (n as int) < (hi as int) * (hi as int),
        decreases hi - lo,
    {
        let mid: u128 = lo + (hi - lo) / 2;
        assert(lo < mid < hi);
        assert((mid as int) * (mid as int) < u128::MAX as int) by (nonlinear_arith)
            requires
                mid <= 0x8000_0000_0000_0000u128,
            ;
        if mid * mid <= n {
            lo = mid;
        } else {
            hi = mid;
        }
    }
    proof {
        assert(is_sqrt_of(n as int, lo as int));
        assert(is_sqrt_of(n as int, spec_isqrt(n as int))) by {
            assert(exists|r: int| is_sqrt_of(n as int, r));
        }
        lemma_sqrt_unique(n as int, lo as int, spec_isqrt(n as int));
    }
    lo
}

/// The constriction coefficient derived from the cognitive and social
/// coefficients: with `phi = c1 + c2`, the scaled form of
/// `2 / |2 - phi - sqrt(phi^2 - 4 phi)|`.  For `phi > 4` the absolute
/// value resolves to `phi + sqrt(phi^2 - 4 phi) - 2`.
pub open spec fn spec_chi(c1: int, c2: int) -> int {
    let phi = c1 + c2;
    let s = spec_isqrt(phi * phi - 4 * SCALE * phi);
    (2 * SCALE * SCALE) / (phi + s - 2 * SCALE)
}

/// Derives the constriction coefficient from `c1` and `c2`.  It is a
/// positive fixed-point value strictly below one whole unit whenever
/// `c1 + c2` exceeds four units.
pub fn chi_from_coefficients(c1: i64, c2: i64) -> (chi: i64)
    requires
        0 <= c1 <= MAX_COEFF,
        0 <= c2 <= MAX_COEFF,
        c1 + c2 > 4 * SCALE,
    ensures
        chi == spec_chi(c1 as int, c2 as int),
        1 <= chi < SCALE,
{
    let phi: i128 = c1 as i128 + c2 as i128;
    proof {
        assert(4 * (SCALE as int) < phi <= 2 * (MAX_COEFF as int));
        assert(0 < phi * phi - 4 * (SCALE as int) * phi < phi * phi) by (nonlinear_arith)
            requires
                4 * (SCALE as int) < phi,
            ;
        assert(phi * phi <= 4 * (MAX_COEFF as int) * (MAX_COEFF as int)) by (nonlinear_arith)
            requires
                0 < phi <= 2 * (MAX_COEFF as int),
            ;
    }
    let d: i128 = phi * phi - 4 * (SCALE as i128) * phi;
    let s128: u128 = isqrt_u128(d as u128);
    let ghost s: int = s128 as int;
    proof {
        assert(d as u128 as int == d as int);
        assert(s * s <= d < phi * phi);
        assert(0 <= s < phi) by (nonlinear_arith)
            requires
                0 <= s,
                0 < phi,
                s * s < phi * phi,
            ;
    }
    let denom: i128 = phi + s128 as i128 - 2 * (SCALE as i128);
    let num: i128 = 2 * (SCALE as i128) * (SCALE as i128);
    proof {
        assert(2 * (SCALE as int) < denom < 4 * (MAX_COEFF as int));
        assert(denom < num);
        lemma_div_le(denom as int, num as int, denom as int);
        assert(num / denom >= 1) by (nonlinear_arith)
            requires
                0 < denom <= num,
            ;
        assert(num / denom < SCALE as int) by (nonlinear_arith)
            requires
                2 * (SCALE as int) < denom,
                num == 2 * (SCALE as int) * (SCALE as int),
                SCALE == 1_000_000i64,
            ;
    }
    let chi_wide: i128 = num / denom;
    chi_wide as i64
}

/// Division rounded toward zero, the rounding the engine's scaled
/// arithmetic uses (`d` must be positive).
pub open spec fn div_trunc(a: int, d: int) -> int {
    if a >= 0 {
        a / d
    } else {
        -((-a) / d)
    }
}

/// Truncating division keeps magnitude bounds: `|a| <= b` gives
/// `|div_trunc(a, d)| <= b / d <= b`.
pub proof fn lemma_div_trunc_bound(a: int, b: int, d: int)
    requires
        -b <= a <= b,
        0 <= b,
        0 < d,
    ensures
        -(b / d) <= div_trunc(a, d) <= b / d,
        0 <= b / d <= b,
{
    if a >= 0 {
        lemma_div_le(a, b, d);
    } else {
        lemma_div_le(-a, b, d);
    }
    lemma_div_le(b, b, d);
}

/// Division rounded toward zero on machine integers.
pub fn div_trunc_i128(a: i128, d: i128) -> (r: i128)
    requires
        0 < d,
        i128::MIN < a,
    ensures
        r == div_trunc(a as int, d as int),
        0 <= a ==> -a <= r <= a,
        a < 0 ==> a <= r <= -a,
{
    proof {
        lemma_div_trunc_bound(a as int, if a >= 0 { a as int } else { -a as int }, d as int);
    }
    if a >= 0 {
        let q = (a as u128) / (d as u128);
        proof {
            lemma_div_le(a as int, a as int, d as int);
            assert(q == a as int / d as int);
            assert(q <= a);
        }
        q as i128
    } else {
        let m = (-a) as u128;
        let q = m / (d as u128);
        proof {
            lemma_div_le(m as int, m as int, d as int);
            assert(q == m as int / d as int);
            assert(q <= m);
        }
        -(q as i128)
    }
}

} // verus!
