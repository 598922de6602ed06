//! Integer arithmetic shared by the liquidity and swap engines.

use vstd::prelude::*;
use crate::errors::AamErrorCode;

verus! {

/// Whether `r` is the square root of `n` rounded down.
pub open spec fn is_floor_sqrt(n: nat, r: nat) -> bool {
    r * r <= n && n < (r + 1) * (r + 1)
}

/// The square root of `n` rounded down.
pub open spec fn floor_sqrt(n: nat) -> nat {
    choose|r: nat| is_floor_sqrt(n, r)
}

/// At most one number is the rounded-down square root of `n`.
pub proof fn lemma_floor_sqrt_unique(n: nat, r1: nat, r2: nat)
    requires
        is_floor_sqrt(n, r1),
        is_floor_sqrt(n, r2),
    ensures
        r1 == r2,
{
    if r1 < r2 {
        assert((r1 + 1) * (r1 + 1) <= r2 * r2) by (nonlinear_arith)
            requires
                r1 + 1 <= r2,
        ;
    } else if r2 < r1 {
        assert((r2 + 1) * (r2 + 1) <= r1 * r1) by (nonlinear_arith)
            requires
                r2 + 1 <= r1,
        ;
    }
}

/// Every number has a rounded-down square root, which `floor_sqrt` names and
/// which is at most the number.
pub proof fn lemma_floor_sqrt_exists(n: nat)
    ensures
        is_floor_sqrt(n, floor_sqrt(n)),
        floor_sqrt(n) <= n,
    decreases n,
{
    if n == 0 {
        assert(is_floor_sqrt(0, 0)) by (nonlinear_arith);
    } else {
        lemma_floor_sqrt_exists((n - 1) as nat);
        let below = floor_sqrt((n - 1) as nat);
        if n < (below + 1) * (below + 1) {
            assert(is_floor_sqrt(n, below));
        } else {
            assert((below + 1) * (below + 1) < (below + 1 + 1) * (below + 1 + 1))
                by (nonlinear_arith);
            assert(is_floor_sqrt(n, below + 1));
        }
    }
    let root = floor_sqrt(n);
    assert(root <= root * root) by (nonlinear_arith);
}

/// Computes the square root of `n` rounded down, by bisection.
pub fn isqrt(n: u64) -> (r: u64)
    ensures
        is_floor_sqrt(n as nat, r as nat),
        r as nat == floor_sqrt(n as nat),
        r < 0x1_0000_0000,
{
    let mut lo: u64 = 0;
    let mut hi: u64 = 0x1_0000_0000;
    assert(n < 0x1_0000_0000u64 * 0x1_0000_0000u64) by (nonlinear_arith)
        requires
            n <= u64::MAX,
    ;
    while hi - lo > 1
        invariant
            lo < hi <= 0x1_0000_0000,
            lo * lo <= n,
            n < hi * hi,
        decreases hi - lo,
    {
        let mid: u64 = lo + (hi - lo) / 2;
        assert(mid * mid <= 0xFFFF_FFFFu64 * 0xFFFF_FFFFu64) by (nonlinear_arith)
            requires
                mid <= 0xFFFF_FFFFu64,
        ;
        if mid * mid <= n {
            lo = mid;
        } else {
            hi = mid;
        }
    }
    proof {
        assert(hi == lo + 1);
        assert(is_floor_sqrt(n as nat, lo as nat));
        lemma_floor_sqrt_unique(n as nat, lo as nat, floor_sqrt(n as nat));
    }
    lo
}

/// Floor division brackets its dividend: `d * (x / d) <= x < d * (x / d) + d`.
pub proof fn lemma_floor_div_bounds(x: int, d: int)
    requires
        0 <= x,
        0 < d,
    ensures
        0 <= x / d,
        d * (x / d) <= x,
        x < d * (x / d) + d,
{
    vstd::arithmetic::div_mod::lemma_fundamental_div_mod(x, d);
    vstd::arithmetic::div_mod::lemma_mod_pos_bound(x, d);
    vstd::arithmetic::div_mod::lemma_div_pos_is_pos(x, d);
}

/// A number whose multiple by `d` is at most `x` is at most `x / d`.
pub proof fn lemma_floor_div_at_least(x: int, d: int, q: int)
    requires
        0 <= x,
        0 < d,
        d * q <= x,
    ensures
        q <= x / d,
{
    lemma_floor_div_bounds(x, d);
    assert(q <= x / d) by (nonlinear_arith)
        requires
            0 < d,
            d * q <= x,
            x < d * (x / d) + d,
    ;
}

/// A number whose multiple by `d` is at least `x` is at least `x / d`.
pub proof fn lemma_floor_div_at_most(x: int, d: int, q: int)
    requires
        0 <= x,
        0 < d,
        x <= d * q,
    ensures
        x / d <= q,
{
    lemma_floor_div_bounds(x, d);
    assert(x / d <= q) by (nonlinear_arith)
        requires
            0 < d,
            x <= d * q,
            d * (x / d) <= x,
    ;
}

/// Floor division does not decrease when its dividend grows.
pub proof fn lemma_floor_div_monotone(x: int, y: int, d: int)
    requires
        0 <= x <= y,
        0 < d,
    ensures
        x / d <= y / d,
{
    lemma_floor_div_bounds(x, d);
    lemma_floor_div_at_least(y, d, x / d);
}

/// `a * b / d` rounded down, over the natural numbers.
pub open spec fn mul_div_floor(a: nat, b: nat, d: nat) -> nat
    recommends
        d > 0,
{
    a * b / d
}

/// Computes `a * b / d` rounded down, in 128 bits: the quotient is kept
/// whole, whatever its size.
///
/// Refused with `ZeroDivision` where `d` is zero, and never otherwise.
pub fn mul_div_wide(a: u64, b: u64, d: u64) -> (res: Result<u128, AamErrorCode>)
    ensures
        d == 0 ==> res == Err::<u128, AamErrorCode>(AamErrorCode::ZeroDivision),
        d != 0 ==> res == Ok::<u128, AamErrorCode>(
            mul_div_floor(a as nat, b as nat, d as nat) as u128,
        ),
        d != 0 ==> mul_div_floor(a as nat, b as nat, d as nat) <= u128::MAX,
{
    assert(a * b <= u128::MAX) by (nonlinear_arith)
        requires
            a <= u64::MAX,
            b <= u64::MAX,
    ;
    assert(0 <= a * b) by (nonlinear_arith)
        requires
            0 <= a,
            0 <= b,
    ;
    let product: u128 = match (a as u128).checked_mul(b as u128) {
        Some(p) => p,
        None => {
            return Err(AamErrorCode::MathOverflow);
        },
    };
    match product.checked_div(d as u128) {
        Some(quotient) => Ok(quotient),
        None => Err(AamErrorCode::ZeroDivision),
    }
}

/// Computes `a * b / d` rounded down, with the product held in 128 bits.
///
/// Refused with `ZeroDivision` where `d` is zero, and else with
/// `MathOverflow` where the quotient does not fit 64 bits.
pub fn mul_div(a: u64, b: u64, d: u64) -> (res: Result<u64, AamErrorCode>)
    ensures
        d == 0 ==> res == Err::<u64, AamErrorCode>(AamErrorCode::ZeroDivision),
        d != 0 && mul_div_floor(a as nat, b as nat, d as nat) > u64::MAX ==> res == Err::<
            u64,
            AamErrorCode,
        >(AamErrorCode::MathOverflow),
        d != 0 && mul_div_floor(a as nat, b as nat, d as nat) <= u64::MAX ==> res == Ok::<
            u64,
            AamErrorCode,
        >(mul_div_floor(a as nat, b as nat, d as nat) as u64),
{
    let quotient: u128 = match mul_div_wide(a, b, d) {
        Ok(q) => q,
        Err(e) => {
            return Err(e);
        },
    };
    if quotient > u64::MAX as u128 {
        return Err(AamErrorCode::MathOverflow);
    }
    Ok(quotient as u64)
}

} // verus!
