//! Basis-point fee schedule, parameterized by leverage.
use vstd::prelude::*;

verus! {

/// Smallest position size, and smallest notional after fees, in lamports.
pub const MIN_POSITION_SIZE_LAMPORTS: u64 = 10_000_000;
/// Flat part of the fee, in basis points of the amount.
pub const BASE_FEE_BASIS_POINTS: u64 = 200;
/// Part of the fee charged per unit of leverage, in basis points.
pub const LEVERAGE_FEE_BASIS_POINTS: u64 = 10;
/// Largest leverage a position may carry.
pub const MAXIMUM_LEVERAGE: u8 = 5;
/// Denominator of a basis-point ratio.
pub const BASIS_POINTS_DENOMINATOR: u64 = 10_000;

/// `x` capped at the largest `u64`.
pub open spec fn saturate(x: int) -> int {
    if x > u64::MAX as int {
        u64::MAX as int
    } else {
        x
    }
}

/// The leverage actually used for a requested one: clamped to `[1, MAXIMUM_LEVERAGE]`.
pub open spec fn clamped_leverage(requested: u8) -> u8 {
    if requested < 1 {
        1
    } else if requested > MAXIMUM_LEVERAGE {
        MAXIMUM_LEVERAGE
    } else {
        requested
    }
}

/// `amount * BASE_BP / 10000 + amount * LEV_BP * leverage / 10000`, every
/// product and the sum saturating at the largest `u64`.
pub open spec fn fee_of(amount: u64, leverage: u8) -> int {
    let base = saturate(amount * BASE_FEE_BASIS_POINTS) / BASIS_POINTS_DENOMINATOR as int;
    let by_leverage = saturate(saturate(amount * LEVERAGE_FEE_BASIS_POINTS) * leverage)
        / BASIS_POINTS_DENOMINATOR as int;
    saturate(base + by_leverage)
}

/// Clamps a requested leverage into `[1, MAXIMUM_LEVERAGE]`.
pub fn clamp_leverage(requested: u8) -> (r: u8)
    ensures
        r == clamped_leverage(requested),
        1 <= r <= MAXIMUM_LEVERAGE,
        1 <= requested <= MAXIMUM_LEVERAGE ==> r == requested,
{
    if requested < 1 {
        1
    } else if requested > MAXIMUM_LEVERAGE {
        MAXIMUM_LEVERAGE
    } else {
        requested
    }
}

fn saturating_product(a: u64, b: u64) -> (r: u64)
    ensures
        r == saturate(a * b),
{
    match a.checked_mul(b) {
        Some(p) => p,
        None => u64::MAX,
    }
}

/// Fee charged on `amount` at the given leverage. With a leverage in range
/// the fee never exceeds the amount, so subtracting it cannot underflow.
pub fn compute_fee(amount: u64, leverage: u8) -> (r: u64)
    ensures
        r == fee_of(amount, leverage),
        leverage <= MAXIMUM_LEVERAGE ==> r <= amount,
{
    let base = saturating_product(amount, BASE_FEE_BASIS_POINTS) / BASIS_POINTS_DENOMINATOR;
    let by_leverage = saturating_product(
        saturating_product(amount, LEVERAGE_FEE_BASIS_POINTS),
        leverage as u64,
    ) / BASIS_POINTS_DENOMINATOR;
    let total = base.saturating_add(by_leverage);
    proof {
        lemma_fee_bounded(amount, leverage);
    }
    total
}

/// With a leverage in range the fee is at most a quarter of the amount.
pub proof fn lemma_fee_bounded(amount: u64, leverage: u8)
    ensures
        fee_of(amount, leverage) >= 0,
        leverage <= MAXIMUM_LEVERAGE ==> fee_of(amount, leverage) <= amount,
{
    let a = amount as int;
    let l = leverage as int;
    let s1 = saturate(a * 200);
    let s2 = saturate(a * 10);
    let s3 = saturate(s2 * l);
    assert(0 <= a * 200) by (nonlinear_arith)
        requires 0 <= a;
    assert(0 <= a * 10) by (nonlinear_arith)
        requires 0 <= a;
    assert(0 <= s2 * l) by (nonlinear_arith)
        requires 0 <= s2, 0 <= l;
    assert(s1 / 10000 >= 0) by (nonlinear_arith)
        requires s1 >= 0;
    assert(s3 / 10000 >= 0) by (nonlinear_arith)
        requires s3 >= 0;
    if l <= 5 {
        assert(s2 * l <= a * 50) by (nonlinear_arith)
            requires 0 <= s2 <= a * 10, 0 <= l <= 5;
        assert(s1 / 10000 <= a * 200 / 10000) by (nonlinear_arith)
            requires 0 <= s1 <= a * 200;
        assert(s3 / 10000 <= a * 50 / 10000) by (nonlinear_arith)
            requires 0 <= s3 <= a * 50;
        assert(a * 200 / 10000 + a * 50 / 10000 <= a) by (nonlinear_arith)
            requires 0 <= a;
    }
}

} // verus!
