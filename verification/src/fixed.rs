//! Numbers in millionths: products and quotients that round toward zero.

use vstd::prelude::*;

verus! {

/// The number one, in millionths.
pub const ONE: i64 = 1_000_000;

/// `n / d` rounded toward zero, for a positive `d`.
pub open spec fn truncated(n: int, d: int) -> int {
    if n >= 0 {
        n / d
    } else {
        -((-n) / d)
    }
}

/// `n / d` rounded toward zero, for any `d` but zero.
pub open spec fn quotient(n: int, d: int) -> int {
    if d > 0 {
        truncated(n, d)
    } else {
        truncated(-n, -d)
    }
}

/// The product of two numbers in millionths, in millionths.
pub open spec fn product(a: int, b: int) -> int {
    truncated(a * b, ONE as int)
}

/// The number has a place in 64 bits with a sign.
pub open spec fn fits(v: int) -> bool {
    i64::MIN <= v <= i64::MAX
}

/// How far apart two numbers are.
pub open spec fn distance(a: int, b: int) -> int {
    if a >= b {
        a - b
    } else {
        b - a
    }
}

/// Rounding toward zero never moves a number away from zero, nor further
/// than the divisor is large.
pub proof fn lemma_truncated_bounds(n: int, d: int)
    requires
        d > 0,
    ensures
        n >= 0 ==> 0 <= truncated(n, d) <= n && n - d < d * truncated(n, d) <= n,
        n <= 0 ==> n <= truncated(n, d) <= 0 && n <= d * truncated(n, d) < n + d,
{
    if n >= 0 {
        vstd::arithmetic::div_mod::lemma_fundamental_div_mod(n, d);
    } else {
        vstd::arithmetic::div_mod::lemma_fundamental_div_mod(-n, d);
        assert(d * (-((-n) / d)) == -(d * ((-n) / d))) by (nonlinear_arith);
    }
}

/// A multiple divides without a rest.
pub proof fn lemma_truncated_multiple(q: int, d: int)
    requires
        d > 0,
    ensures
        truncated(q * d, d) == q,
{
    if q >= 0 {
        vstd::arithmetic::div_mod::lemma_div_by_multiple(q, d);
    } else {
        assert(q * d < 0 && -(q * d) == (-q) * d) by (nonlinear_arith)
            requires
                q < 0,
                d > 0,
        ;
        vstd::arithmetic::div_mod::lemma_div_by_multiple(-q, d);
    }
}

/// The product of two numbers in millionths, where it has a place in 64
/// bits.
pub fn times(a: i64, b: i64) -> (r: Option<i64>)
    ensures
        r == if fits(product(a as int, b as int)) {
            Some(product(a as int, b as int) as i64)
        } else {
            None
        },
{
    proof {
        assert(-0x4000_0000_0000_0000_0000_0000_0000_0000 <= a * b
            <= 0x4000_0000_0000_0000_0000_0000_0000_0000) by (nonlinear_arith)
            requires
                -0x8000_0000_0000_0000 <= a <= 0x8000_0000_0000_0000,
                -0x8000_0000_0000_0000 <= b <= 0x8000_0000_0000_0000,
        ;
    }
    let wide: i128 = a as i128 * b as i128;
    let q: i128 = wide / 1_000_000;
    if q < i64::MIN as i128 || q > i64::MAX as i128 {
        None
    } else {
        Some(q as i64)
    }
}

/// How far apart two numbers are.
pub fn abs_diff(a: i64, b: i64) -> (r: u64)
    ensures
        r == distance(a as int, b as int),
{
    if a >= b {
        (a as i128 - b as i128) as u64
    } else {
        (b as i128 - a as i128) as u64
    }
}

} // verus!
