//! Fixed-point arithmetic helpers: truncating division and integer square
//! roots over micro-unit quantities.

use vstd::prelude::*;

verus! {

/// Fixed-point scale: this many micro-units stand for `1.0`.
pub const SCALE: i64 = 1_000_000;

/// Division that rounds toward zero, as Rust's `/` on signed integers does.
/// Only defined for positive divisors.
pub open spec fn div_tz(a: int, b: int) -> int {
    if a >= 0 {
        a / b
    } else {
        -((-a) / b)
    }
}

/// Rounding toward zero never increases the magnitude of the quotient.
pub proof fn lemma_div_tz_bound(a: int, b: int, m: int)
    requires
        b > 0,
        -m <= a <= m,
        0 <= m,
    ensures
        -m <= div_tz(a, b) <= m,
{
    if a >= 0 {
        assert(a / b <= a) by {
            vstd::arithmetic::div_mod::lemma_div_nonincreasing(a, b);
        }
        assert(a / b >= 0) by {
            vstd::arithmetic::div_mod::lemma_div_pos_is_pos(a, b);
        }
    } else {
        assert((-a) / b <= -a) by {
            vstd::arithmetic::div_mod::lemma_div_nonincreasing(-a, b);
        }
        assert((-a) / b >= 0) by {
            vstd::arithmetic::div_mod::lemma_div_pos_is_pos(-a, b);
        }
    }
}

/// A quotient is bounded by any bound on the dividend scaled by the divisor:
/// `|a| <= m * b` gives `|a / b| <= m`.
pub proof fn lemma_div_tz_scaled_bound(a: int, b: int, m: int)
    requires
        b > 0,
        0 <= m,
        -(m * b) <= a <= m * b,
    ensures
        -m <= div_tz(a, b) <= m,
{
    if a >= 0 {
        assert(a / b <= (m * b) / b) by {
            vstd::arithmetic::div_mod::lemma_div_is_ordered(a, m * b, b);
        }
        assert((m * b) / b == m) by {
            vstd::arithmetic::div_mod::lemma_div_by_multiple(m, b);
        }
        assert(a / b >= 0) by {
            vstd::arithmetic::div_mod::lemma_div_pos_is_pos(a, b);
        }
    } else {
        assert((-a) / b <= (m * b) / b) by {
            vstd::arithmetic::div_mod::lemma_div_is_ordered(-a, m * b, b);
        }
        assert((m * b) / b == m) by {
            vstd::arithmetic::div_mod::lemma_div_by_multiple(m, b);
        }
        assert((-a) / b >= 0) by {
            vstd::arithmetic::div_mod::lemma_div_pos_is_pos(-a, b);
        }
    }
}

/// Truncating division on `i64`, for positive divisors.
pub fn div_trunc_i64(a: i64, b: i64) -> (r: i64)
    requires
        b > 0,
        a > i64::MIN,
    ensures
        r == div_tz(a as int, b as int),
{
    proof {
        lemma_div_tz_bound(a as int, b as int, i64::MAX as int);
    }
    if a >= 0 {
        ((a as u64) / (b as u64)) as i64
    } else {
        let m: u64 = (-a) as u64;
        -((m / (b as u64)) as i64)
    }
}

/// Truncating division on `i128`, for positive divisors.
pub fn div_trunc_i128(a: i128, b: i128) -> (r: i128)
    requires
        b > 0,
        a > i128::MIN,
    ensures
        r == div_tz(a as int, b as int),
{
    proof {
        lemma_div_tz_bound(a as int, b as int, i128::MAX as int);
    }
    if a >= 0 {
        ((a as u128) / (b as u128)) as i128
    } else {
        let m: u128 = (-a) as u128;
        -((m / (b as u128)) as i128)
    }
}

/// The integer square root: the largest `r` with `r * r <= n`.
pub open spec fn isqrt_spec(n: nat) -> nat
    decreases n,
{
    if n == 0 {
        0
    } else {
        let r = isqrt_spec((n - 1) as nat);
        if (r + 1) * (r + 1) <= n {
            r + 1
        } else {
            r
        }
    }
}

/// `isqrt_spec` satisfies the square-root characterization.
pub proof fn lemma_isqrt_spec_bounds(n: nat)
    ensures
        isqrt_spec(n) * isqrt_spec(n) <= n,
        n < (isqrt_spec(n) + 1) * (isqrt_spec(n) + 1),
    decreases n,
{
    if n > 0 {
        lemma_isqrt_spec_bounds((n - 1) as nat);
        let r = isqrt_spec((n - 1) as nat);
        assert(r * r <= n - 1);
        assert(n - 1 < (r + 1) * (r + 1));
        if (r + 1) * (r + 1) <= n {
            assert(isqrt_spec(n) == r + 1);
            assert(n <= (r + 1) * (r + 1));
            assert((r + 1) * (r + 1) < (r + 2) * (r + 2)) by (nonlinear_arith);
            assert(n < (r + 2) * (r + 2));
            assert((isqrt_spec(n) + 1) * (isqrt_spec(n) + 1) == (r + 2) * (r + 2));
        } else {
            assert(isqrt_spec(n) == r);
            assert(r * r <= n);
            assert(n < (r + 1) * (r + 1));
        }
    } else {
        assert(n == 0);
        assert(isqrt_spec(0) == 0);
        assert(0 < (isqrt_spec(n) + 1) * (isqrt_spec(n) + 1)) by (nonlinear_arith)
            requires isqrt_spec(n) == 0
        {}
    }
}

/// Any value satisfying the square-root characterization is `isqrt_spec(n)`.
pub proof fn lemma_isqrt_unique(n: nat, r: nat)
    requires
        r * r <= n,
        n < (r + 1) * (r + 1),
    ensures
        r == isqrt_spec(n),
{
    lemma_isqrt_spec_bounds(n);
    let s = isqrt_spec(n);
    if r < s {
        assert((r + 1) * (r + 1) <= s * s) by (nonlinear_arith)
            requires r + 1 <= s
        {}
    }
    if s < r {
        assert((s + 1) * (s + 1) <= r * r) by (nonlinear_arith)
            requires s + 1 <= r
        {}
    }
}

/// Integer square root of a `u64`, by binary search.
pub fn isqrt_u64(n: u64) -> (r: u64)
    ensures
        r == isqrt_spec(n as nat),
{
    let mut lo: u64 = 0;
    // Upper bound: (2^32)^2 > u64::MAX, so the root is below 2^32.
    let mut hi: u64 = 0x1_0000_0000;
    proof {
        assert((0x1_0000_0000 as int) * (0x1_0000_0000 as int) > n as int) by (nonlinear_arith)
            requires n <= u64::MAX
        {}
    }
    while lo + 1 < hi
        invariant
            lo < hi,
            hi <= 0x1_0000_0000,
            (lo as int) * (lo as int) <= n as int,
            (hi as int) * (hi as int) > n as int,
        decreases hi - lo,
    {
        let mid: u64 = lo + (hi - lo) / 2;
        proof {
            assert((mid as int) * (mid as int) <= (0x1_0000_0000 as int) * (0x1_0000_0000 as int))
                by (nonlinear_arith)
                requires 0 <= mid <= 0x1_0000_0000
            {}
        }
        let sq: u128 = (mid as u128) * (mid as u128);
        if sq <= n as u128 {
            lo = mid;
        } else {
            hi = mid;
        }
    }
    proof {
        lemma_isqrt_unique(n as nat, lo as nat);
    }
    lo
}

} // verus!
