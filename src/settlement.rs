//! Distribution of a closing position's funds among owner, pool and fee sink.
use vstd::prelude::*;
use crate::error::PositionError;
use crate::fees::{compute_fee, fee_of};

verus! {

/// Amounts moved when a position settles.
#[derive(Clone, Copy, Debug, PartialEq, Eq, Structural)]
pub struct SettlementPlan {
    /// Part of the position's balance returned to the owner.
    pub position_to_owner: u64,
    /// Part of the position's balance absorbed by the pool.
    pub position_to_pool: u64,
    /// Profit that the pool pays to the owner.
    pub pool_to_owner: u64,
    /// Fee that the pool pays to the fee sink.
    pub pool_to_fee_sink: u64,
}

/// Balances that a settlement touches.
#[derive(Clone, Copy, Debug, PartialEq, Eq, Structural)]
pub struct Balances {
    pub position: u64,
    pub owner: u64,
    pub pool: u64,
    pub fee_sink: u64,
}

/// `a - b`, or 0 where `b` exceeds `a`.
pub open spec fn floor_sub(a: int, b: int) -> int {
    if a >= b {
        a - b
    } else {
        0
    }
}

/// Fee on a profit of `pnl` at the given leverage.
pub open spec fn profit_fee(pnl: u64, leverage: u8) -> int {
    fee_of(pnl, leverage)
}

/// Profit left to the owner once the fee is taken.
pub open spec fn profit_after_fee(pnl: u64, leverage: u8) -> int {
    floor_sub(pnl as int, profit_fee(pnl, leverage))
}

/// What the pool must hold to pay a profit of `pnl`: the fee plus the profit after fee.
pub open spec fn required_liquidity(pnl: u64, leverage: u8) -> int {
    let s = profit_fee(pnl, leverage) + profit_after_fee(pnl, leverage);
    if s > u64::MAX as int {
        u64::MAX as int
    } else {
        s
    }
}

/// The settlement of a position holding `held` at leverage `leverage`, with a
/// realized `final_pnl`, against a pool holding `pool`.
pub open spec fn settlement_of(final_pnl: i64, held: u64, leverage: u8, pool: u64) -> SettlementPlan {
    if final_pnl > 0 {
        let pnl = final_pnl as u64;
        if (pool as int) < required_liquidity(pnl, leverage) {
            SettlementPlan {
                position_to_owner: held,
                position_to_pool: 0,
                pool_to_owner: 0,
                pool_to_fee_sink: 0,
            }
        } else {
            SettlementPlan {
                position_to_owner: held,
                position_to_pool: 0,
                pool_to_owner: profit_after_fee(pnl, leverage) as u64,
                pool_to_fee_sink: profit_fee(pnl, leverage) as u64,
            }
        }
    } else if final_pnl < 0 {
        let loss = -(final_pnl as int);
        if held as int <= loss {
            SettlementPlan {
                position_to_owner: 0,
                position_to_pool: held,
                pool_to_owner: 0,
                pool_to_fee_sink: 0,
            }
        } else {
            SettlementPlan {
                position_to_owner: (held - loss) as u64,
                position_to_pool: loss as u64,
                pool_to_owner: 0,
                pool_to_fee_sink: 0,
            }
        }
    } else {
        SettlementPlan {
            position_to_owner: held,
            position_to_pool: 0,
            pool_to_owner: 0,
            pool_to_fee_sink: 0,
        }
    }
}

/// Whether a plan spends exactly the position's balance and no more of the
/// pool than it holds.
pub open spec fn plan_fits(plan: SettlementPlan, held: u64, pool: u64) -> bool {
    &&& plan.position_to_owner + plan.position_to_pool == held
    &&& plan.pool_to_owner + plan.pool_to_fee_sink <= pool
}

/// Owner balance after a fitting plan, as an integer.
pub open spec fn owner_after(plan: SettlementPlan, b: Balances) -> int {
    b.owner + plan.position_to_owner + plan.pool_to_owner
}

/// Pool balance after a fitting plan, as an integer.
pub open spec fn pool_after(plan: SettlementPlan, b: Balances) -> int {
    b.pool - plan.pool_to_owner - plan.pool_to_fee_sink + plan.position_to_pool
}

/// Fee sink balance after a fitting plan, as an integer.
pub open spec fn fee_sink_after(plan: SettlementPlan, b: Balances) -> int {
    b.fee_sink + plan.pool_to_fee_sink
}

/// Whether every balance after the plan fits in a `u64`.
pub open spec fn plan_applies(plan: SettlementPlan, b: Balances) -> bool {
    &&& owner_after(plan, b) <= u64::MAX
    &&& pool_after(plan, b) <= u64::MAX
    &&& fee_sink_after(plan, b) <= u64::MAX
}

/// Decides how a closing position's balance `held` is distributed.
pub fn plan_settlement(final_pnl: i64, held: u64, leverage: u8, pool: u64) -> (r: SettlementPlan)
    ensures
        r == settlement_of(final_pnl, held, leverage, pool),
        plan_fits(r, held, pool),
{
    if final_pnl > 0 {
        let pnl = final_pnl as u64;
        let fee = compute_fee(pnl, leverage);
        let profit = pnl.saturating_sub(fee);
        let required = fee.saturating_add(profit);
        if pool < required {
            SettlementPlan {
                position_to_owner: held,
                position_to_pool: 0,
                pool_to_owner: 0,
                pool_to_fee_sink: 0,
            }
        } else {
            SettlementPlan {
                position_to_owner: held,
                position_to_pool: 0,
                pool_to_owner: profit,
                pool_to_fee_sink: fee,
            }
        }
    } else if final_pnl < 0 {
        let loss: u64 = if final_pnl == i64::MIN {
            9_223_372_036_854_775_808u64
        } else {
            (-final_pnl) as u64
        };
        if held <= loss {
            SettlementPlan {
                position_to_owner: 0,
                position_to_pool: held,
                pool_to_owner: 0,
                pool_to_fee_sink: 0,
            }
        } else {
            SettlementPlan {
                position_to_owner: held - loss,
                position_to_pool: loss,
                pool_to_owner: 0,
                pool_to_fee_sink: 0,
            }
        }
    } else {
        SettlementPlan {
            position_to_owner: held,
            position_to_pool: 0,
            pool_to_owner: 0,
            pool_to_fee_sink: 0,
        }
    }
}

/// Moves the funds of a fitting plan. The position ends empty; where a
/// balance would not fit in a `u64`, nothing moves.
pub fn apply_settlement(plan: &SettlementPlan, balances: &mut Balances) -> (r: Result<(), PositionError>)
    requires
        plan_fits(*plan, old(balances).position, old(balances).pool),
    ensures
        r is Ok <==> plan_applies(*plan, *old(balances)),
        r is Ok ==> final(balances).position == 0
            && final(balances).owner == owner_after(*plan, *old(balances))
            && final(balances).pool == pool_after(*plan, *old(balances))
            && final(balances).fee_sink == fee_sink_after(*plan, *old(balances)),
        r matches Err(e) ==> e == PositionError::ArithmeticOverflow && *final(balances) == *old(balances),
{
    let owner = match balances.owner.checked_add(plan.position_to_owner) {
        Some(v) => v,
        None => {
            return Err(PositionError::ArithmeticOverflow);
        },
    };
    let owner = match owner.checked_add(plan.pool_to_owner) {
        Some(v) => v,
        None => {
            return Err(PositionError::ArithmeticOverflow);
        },
    };
    let pool = balances.pool - plan.pool_to_owner - plan.pool_to_fee_sink;
    let pool = match pool.checked_add(plan.position_to_pool) {
        Some(v) => v,
        None => {
            return Err(PositionError::ArithmeticOverflow);
        },
    };
    let fee_sink = match balances.fee_sink.checked_add(plan.pool_to_fee_sink) {
        Some(v) => v,
        None => {
            return Err(PositionError::ArithmeticOverflow);
        },
    };
    balances.position = 0;
    balances.owner = owner;
    balances.pool = pool;
    balances.fee_sink = fee_sink;
    Ok(())
}

/// Settlement conserves funds: in every branch, what the owner, the pool and
/// the fee sink are credited together equals the position's balance, which
/// ends at zero.
pub proof fn lemma_settlement_conserves(final_pnl: i64, leverage: u8, before: Balances, after: Balances)
    requires
        after.position == 0,
        after.owner == owner_after(settlement_of(final_pnl, before.position, leverage, before.pool), before),
        after.pool == pool_after(settlement_of(final_pnl, before.position, leverage, before.pool), before),
        after.fee_sink == fee_sink_after(
            settlement_of(final_pnl, before.position, leverage, before.pool),
            before,
        ),
    ensures
        (after.owner - before.owner) + (after.pool - before.pool) + (after.fee_sink - before.fee_sink)
            == before.position,
        after.owner + after.pool + after.fee_sink + after.position == before.owner + before.pool
            + before.fee_sink + before.position,
{
    lemma_settlement_fits(final_pnl, before.position, leverage, before.pool);
}

/// The plan of every settlement spends exactly the position's balance and no
/// more of the pool than it holds.
pub proof fn lemma_settlement_fits(final_pnl: i64, held: u64, leverage: u8, pool: u64)
    ensures
        plan_fits(settlement_of(final_pnl, held, leverage, pool), held, pool),
{
    if final_pnl > 0 {
        crate::fees::lemma_fee_bounded(final_pnl as u64, leverage);
    }
}

} // verus!
