//! Fixed-point arithmetic shared by the whole simulation.
//!
//! Every length, position and speed is an integer number of sub-units, one
//! millionth of a play-field unit each; every duration is a number of
//! microseconds. Intermediate results are computed exactly in wider integers
//! and narrowed once, saturating at the bounds of `i64`.

use vstd::prelude::*;

verus! {

/// Sub-units in one play-field unit, microseconds in one second, and the
/// denominator of every parts-per-million fraction.
pub const UNIT: i64 = 1_000_000;

/// The value of `x` held to the range of `i64`.
pub open spec fn saturate(x: int) -> i64 {
    if x < i64::MIN {
        i64::MIN
    } else if x > i64::MAX {
        i64::MAX
    } else {
        x as i64
    }
}

/// The quotient of `a` by a positive `b`, rounded toward zero.
pub open spec fn div_toward_zero(a: int, b: int) -> int {
    if a >= 0 {
        a / b
    } else {
        -((-a) / b)
    }
}

/// The magnitude of `x`.
pub open spec fn magnitude(x: int) -> int {
    if x >= 0 {
        x
    } else {
        -x
    }
}

/// `r` is the integer square root of `n`: the largest integer whose square
/// does not exceed `n`.
pub open spec fn is_sqrt_floor(r: int, n: int) -> bool {
    0 <= r && r * r <= n && n < (r + 1) * (r + 1)
}

/// The integer square root of `n` (zero for a negative `n`).
pub open spec fn sqrt_floor(n: int) -> int
    decreases n,
{
    if n <= 0 {
        0
    } else {
        let r = sqrt_floor(n - 1);
        if (r + 1) * (r + 1) <= n {
            r + 1
        } else {
            r
        }
    }
}

/// `sqrt_floor` meets its characterisation on every non-negative argument.
pub proof fn lemma_sqrt_floor_is_root(n: int)
    requires
        0 <= n,
    ensures
        is_sqrt_floor(sqrt_floor(n), n),
    decreases n,
{
    if n > 0 {
        lemma_sqrt_floor_is_root(n - 1);
        let r = sqrt_floor(n - 1);
        assert((r + 2) * (r + 2) == (r + 1) * (r + 1) + 2 * r + 3) by (nonlinear_arith);
        assert((r + 1) * (r + 1) == r * r + 2 * r + 1) by (nonlinear_arith);
    }
}

/// The integer square root is unique.
pub proof fn lemma_sqrt_floor_unique(r: int, n: int)
    requires
        is_sqrt_floor(r, n),
    ensures
        r == sqrt_floor(n),
{
    lemma_sqrt_floor_is_root(n);
    let s = sqrt_floor(n);
    if r < s {
        assert((r + 1) * (r + 1) <= s * s) by (nonlinear_arith)
            requires
                0 <= r,
                r + 1 <= s,
        ;
    } else if s < r {
        assert((s + 1) * (s + 1) <= r * r) by (nonlinear_arith)
            requires
                0 <= s,
                s + 1 <= r,
        ;
    }
}

/// Narrows a wide intermediate result to `i64`, holding it at the nearest
/// bound when it does not fit.
pub fn saturate_i128(x: i128) -> (r: i64)
    ensures
        r == saturate(x as int),
{
    if x < i64::MIN as i128 {
        i64::MIN
    } else if x > i64::MAX as i128 {
        i64::MAX
    } else {
        x as i64
    }
}

/// The magnitude of a signed value, which always fits the unsigned type.
pub fn magnitude_i64(x: i64) -> (m: u64)
    ensures
        m == magnitude(x as int),
{
    if x >= 0 {
        x as u64
    } else {
        (-(x as i128)) as u64
    }
}

/// Divides by a positive divisor, rounding toward zero.
pub fn div_toward_zero_i128(a: i128, b: i128) -> (q: i128)
    requires
        b > 0,
        a > i128::MIN,
    ensures
        q == div_toward_zero(a as int, b as int),
{
    if a >= 0 {
        a / b
    } else {
        let m: i128 = -a;
        let q: i128 = m / b;
        -q
    }
}

/// Computes the integer square root by bisection.
pub fn sqrt_floor_u128(n: u128) -> (r: u64)
    ensures
        r == sqrt_floor(n as int),
        is_sqrt_floor(r as int, n as int),
{
    let mut lo: u128 = 0;
    let mut hi: u128 = 0x1_0000_0000_0000_0000;
    assert(0x1_0000_0000_0000_0000int * 0x1_0000_0000_0000_0000int > u128::MAX) by (nonlinear_arith);
    while hi - lo > 1
        invariant
            lo < hi <= 0x1_0000_0000_0000_0000,
            lo * lo <= n,
            n < hi * hi,
        decreases hi - lo,
    {
        let mid: u128 = lo + (hi - lo) / 2;
        assert(mid * mid <= u128::MAX) by (nonlinear_arith)
            requires
                0 <= mid <= 0xFFFF_FFFF_FFFF_FFFF,
        ;
        if mid * mid <= n {
            lo = mid;
        } else {
            hi = mid;
        }
    }
    proof {
        lemma_sqrt_floor_unique(lo as int, n as int);
    }
    lo as u64
}

} // verus!
