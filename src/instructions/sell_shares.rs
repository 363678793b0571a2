//! Selling held shares of one outcome back to the market.
use crate::constants::{MAX_SHARES, MIN_SHARES, SLIPPAGE_TOLERANCE};
use crate::errors::OpinionMarketError;
use crate::instructions::buy_shares::held;
use crate::lmsr::{fee_spec, sell_cost_spec, within_slippage, LsLmsr, LIQUIDITY_SCALE};
use crate::state::{AdminConfig, FeeAccount, Market, Position};
use vstd::prelude::*;

verus! {

/// The proceeds, before the fee, of selling `shares` of outcome `i`.
pub open spec fn proceeds(market: Market, i: int, shares: u64) -> int {
    sell_cost_spec(market.total_shares@, i, shares as int, market.liquidity * LIQUIDITY_SCALE)
}

/// The refusal of a sale, in the order in which the checks run, or `None`
/// when it goes through.
pub open spec fn sell_refusal(
    config: AdminConfig,
    market: Market,
    position: Position,
    fee_account: FeeAccount,
    option_index: u8,
    shares: u64,
    expected_cost: u64,
    now: i64,
) -> Option<OpinionMarketError> {
    let n = market.options@.len();
    let i = option_index as int;
    if market.is_resolved {
        Some(OpinionMarketError::MarketResolved)
    } else if now >= market.end_time {
        Some(OpinionMarketError::MarketClosed)
    } else if i >= n {
        Some(OpinionMarketError::InvalidInput)
    } else if shares < MIN_SHARES {
        Some(OpinionMarketError::SharesTooLow)
    } else if shares > MAX_SHARES {
        Some(OpinionMarketError::SharesTooHigh)
    } else if !position.market.is_unset() && position.shares@.len() != n {
        Some(OpinionMarketError::InvalidInput)
    } else if held(position, i) < shares {
        Some(OpinionMarketError::InsufficientShares)
    } else if market.liquidity * LIQUIDITY_SCALE > u64::MAX {
        Some(OpinionMarketError::ArithmeticOverflow)
    } else if market.liquidity == 0 {
        Some(OpinionMarketError::InvalidInput)
    } else if market.total_shares@[i] < shares {
        Some(OpinionMarketError::InsufficientShares)
    } else if !(0 <= proceeds(market, i, shares) <= u64::MAX) {
        Some(OpinionMarketError::ArithmeticOverflow)
    } else if expected_cost == 0 {
        Some(OpinionMarketError::InvalidInput)
    } else if !within_slippage(
        expected_cost as int,
        proceeds(market, i, shares),
        SLIPPAGE_TOLERANCE as int,
    ) {
        Some(OpinionMarketError::SlippageExceeded)
    } else {
        let fee = fee_spec(proceeds(market, i, shares), config.fee_rate as int);
        if position.total_fees_paid + fee > u64::MAX || fee_account.total_fees + fee > u64::MAX {
            Some(OpinionMarketError::ArithmeticOverflow)
        } else {
            None
        }
    }
}

/// Sells `shares` of outcome `option_index` held in `position` back to
/// `market` at time `now`.
///
/// The proceeds are the quote for the sale; they must lie within the slippage
/// tolerance of `expected_cost`. The outcome's outstanding quantity and the
/// holder's shares shrink by `shares`, the cost basis by the proceeds (down to
/// zero at most), and the fee on the proceeds goes to the fee pool. Returns
/// what the holder receives: the proceeds less the fee.
pub fn handler(
    config: &AdminConfig,
    market: &mut Market,
    position: &mut Position,
    fee_account: &mut FeeAccount,
    option_index: u8,
    shares: u64,
    expected_cost: u64,
    now: i64,
) -> (r: Result<u64, OpinionMarketError>)
    requires
        config.wf(),
        old(market).wf(),
    ensures
        final(market).wf(),
        ({
            let refusal = sell_refusal(
                *config,
                *old(market),
                *old(position),
                *old(fee_account),
                option_index,
                shares,
                expected_cost,
                now,
            );
            &&& refusal is Some ==> r == Err::<u64, OpinionMarketError>(refusal->Some_0)
                && *final(market) == *old(market) && *final(position) == *old(position)
                && *final(fee_account) == *old(fee_account)
            &&& refusal is None ==> r is Ok
        }),
        r is Ok ==> {
            let i = option_index as int;
            let om = *old(market);
            let fm = *final(market);
            let op = *old(position);
            let fp = *final(position);
            let c = proceeds(om, i, shares);
            let fee = fee_spec(c, config.fee_rate as int);
            &&& r->Ok_0 == c - fee
            &&& fm.total_shares@ == om.total_shares@.update(i, (om.total_shares@[i] - shares) as u64)
            &&& fm.options == om.options
            &&& fm.liquidity == om.liquidity
            &&& fm.end_time == om.end_time
            &&& fm.is_resolved == om.is_resolved
            &&& fm.winning_option == om.winning_option
            &&& fp.shares@ == op.shares@.update(i, (op.shares@[i] - shares) as u64)
            &&& fp.total_cost == if op.total_cost >= c {
                op.total_cost - c
            } else {
                0
            }
            &&& fp.total_fees_paid == op.total_fees_paid + fee
            &&& fp.updated_at == now
            &&& fp.market == op.market
            &&& fp.user == op.user
            &&& fp.has_claimed == op.has_claimed
            &&& fp.created_at == op.created_at
            &&& final(fee_account).total_fees == old(fee_account).total_fees + fee
            &&& final(fee_account).authority == old(fee_account).authority
        },
{
    let n = market.options.len();
    let i = option_index as usize;
    if market.is_resolved {
        return Err(OpinionMarketError::MarketResolved);
    }
    if now >= market.end_time {
        return Err(OpinionMarketError::MarketClosed);
    }
    if i >= n {
        return Err(OpinionMarketError::InvalidInput);
    }
    if shares < MIN_SHARES {
        return Err(OpinionMarketError::SharesTooLow);
    }
    if shares > MAX_SHARES {
        return Err(OpinionMarketError::SharesTooHigh);
    }
    let opened = !position.market.is_default();
    if opened && position.shares.len() != n {
        return Err(OpinionMarketError::InvalidInput);
    }
    if !opened || position.shares[i] < shares {
        return Err(OpinionMarketError::InsufficientShares);
    }
    let b = match LsLmsr::liquidity_param_from_total(market.liquidity) {
        Ok(b) => b,
        Err(e) => return Err(e),
    };
    let actual_cost = match LsLmsr::sell_cost(market.total_shares.as_slice(), i, shares, b) {
        Ok(c) => c,
        Err(e) => return Err(e),
    };
    match LsLmsr::validate_slippage(expected_cost, actual_cost, SLIPPAGE_TOLERANCE) {
        Ok(()) => {},
        Err(e) => return Err(e),
    }
    let fee = match LsLmsr::calculate_fee(actual_cost, config.fee_rate) {
        Ok(f) => f,
        Err(e) => return Err(e),
    };
    let new_paid = match position.total_fees_paid.checked_add(fee) {
        Some(v) => v,
        None => return Err(OpinionMarketError::ArithmeticOverflow),
    };
    let new_pool = match fee_account.total_fees.checked_add(fee) {
        Some(v) => v,
        None => return Err(OpinionMarketError::ArithmeticOverflow),
    };
    let new_outstanding = market.total_shares[i] - shares;
    let new_held = position.shares[i] - shares;
    market.total_shares.set(i, new_outstanding);
    position.shares.set(i, new_held);
    position.total_cost = position.total_cost.saturating_sub(actual_cost);
    position.total_fees_paid = new_paid;
    position.updated_at = now;
    fee_account.total_fees = new_pool;
    Ok(actual_cost - fee)
}

} // verus!
