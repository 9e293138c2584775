//! Integer arithmetic helpers: truncating division and integer square root.

use vstd::prelude::*;

verus! {

/// The quotient of `a` by `b` rounded toward zero, as Rust's `/` computes it
/// on machine integers.
pub open spec fn div_t(a: int, b: int) -> int
    recommends
        b > 0,
{
    if a >= 0 {
        a / b
    } else {
        -((-a) / b)
    }
}

/// Quotient rounded toward zero.
pub fn div_trunc(a: i64, b: i64) -> (r: i64)
    requires
        b > 0,
        a > i64::MIN,
    ensures
        r == div_t(a as int, b as int),
{
    if a >= 0 {
        ((a as u64) / (b as u64)) as i64
    } else {
        let m: u64 = (-a) as u64;
        -((m / (b as u64)) as i64)
    }
}

/// A quotient rounded toward zero is bounded by any bound on the dividend:
/// if `|a| <= b * m` then `|div_t(a, b)| <= m`.
pub proof fn lemma_div_t_bound(a: int, b: int, m: int)
    requires
        b > 0,
        m >= 0,
        -(b * m) <= a <= b * m,
    ensures
        -m <= div_t(a, b) <= m,
{
    if a >= 0 {
        vstd::arithmetic::div_mod::lemma_div_is_ordered(0, a, b);
        vstd::arithmetic::div_mod::lemma_div_is_ordered(a, b * m, b);
        vstd::arithmetic::div_mod::lemma_div_multiples_vanish(m, b);
    } else {
        vstd::arithmetic::div_mod::lemma_div_is_ordered(0, -a, b);
        vstd::arithmetic::div_mod::lemma_div_is_ordered(-a, b * m, b);
        vstd::arithmetic::div_mod::lemma_div_multiples_vanish(m, b);
    }
}

/// A product is bounded by the product of the factors' bounds.
pub proof fn lemma_mul_bound(x: int, m: int, y: int, n: int)
    by (nonlinear_arith)
    requires
        0 <= m,
        -m <= x <= m,
        0 <= y <= n,
    ensures
        -(m * n) <= x * y <= m * n,
{
}

/// The integer square root: the largest `r` with `r * r <= n`.
pub open spec fn isqrt_spec(n: int) -> int
    recommends
        n >= 0,
    decreases n,
{
    if n <= 0 {
        0
    } else {
        let r = isqrt_spec(n - 1);
        if (r + 1) * (r + 1) <= n {
            r + 1
        } else {
            r
        }
    }
}

/// `isqrt_spec(n)` squares to at most `n`, and is the largest such value.
pub proof fn lemma_isqrt_spec_bounds(n: int)
    requires
        n >= 0,
    ensures
        0 <= isqrt_spec(n),
        isqrt_spec(n) * isqrt_spec(n) <= n,
        n < (isqrt_spec(n) + 1) * (isqrt_spec(n) + 1),
    decreases n,
{
    if n > 0 {
        lemma_isqrt_spec_bounds(n - 1);
        let r0 = isqrt_spec(n - 1);
        if (r0 + 1) * (r0 + 1) <= n {
            assert((r0 + 2) * (r0 + 2) > n) by (nonlinear_arith)
                requires
                    r0 >= 0,
                    n - 1 < (r0 + 1) * (r0 + 1),
                    (r0 + 1) * (r0 + 1) <= n,
            ;
        }
    }
}

/// Two values that both bracket `n` between consecutive squares are equal.
pub proof fn lemma_isqrt_unique(n: int, r: int, s: int)
    by (nonlinear_arith)
    requires
        0 <= r,
        0 <= s,
        r * r <= n < (r + 1) * (r + 1),
        s * s <= n < (s + 1) * (s + 1),
    ensures
        r == s,
{
}

/// Any value whose square is at most `n` is at most the square root of `n`.
pub proof fn lemma_isqrt_dominates(k: int, n: int)
    requires
        0 <= k,
        0 <= n,
        k * k <= n,
    ensures
        k <= isqrt_spec(n),
{
    lemma_isqrt_spec_bounds(n);
    let r = isqrt_spec(n);
    if k > r {
        assert(k * k > n) by (nonlinear_arith)
            requires
                k >= r + 1,
                r >= 0,
                n < (r + 1) * (r + 1),
        ;
    }
}

/// The integer square root, by binary search.
pub fn isqrt(n: u64) -> (r: u64)
    requires
        n <= 0x4000_0000_0000_0000,
    ensures
        r == isqrt_spec(n as int),
        r * r <= n < (r + 1) * (r + 1),
{
    proof {
        lemma_isqrt_spec_bounds(n as int);
    }
    let mut lo: u64 = 0;
    let mut hi: u64 = 2_147_483_648;
    while lo < hi
        invariant
            lo <= hi <= 2_147_483_648,
            lo * lo <= n,
            n < (hi + 1) * (hi + 1),
        decreases hi - lo,
    {
        let mid = lo + (hi - lo + 1) / 2;
        assert(mid * mid <= 0x4000_0000_0000_0000) by (nonlinear_arith)
            requires
                mid <= 2_147_483_648,
        ;
        if mid * mid <= n {
            lo = mid;
        } else {
            hi = mid - 1;
        }
    }
    proof {
        lemma_isqrt_unique(n as int, lo as int, isqrt_spec(n as int));
    }
    lo
}

} // verus!
