//! Buying shares of one outcome, either with a budget or by share count.
use crate::constants::{MAX_COST, MAX_SHARES, MIN_COST, MIN_SHARES, SLIPPAGE_TOLERANCE};
use crate::errors::OpinionMarketError;
use crate::lmsr::{
    buy_cost_result, fee_spec, shares_for_cost_spec, within_slippage, LsLmsr, LIQUIDITY_SCALE,
};
use crate::state::{zeros, AccountKey, AdminConfig, FeeAccount, Market, Position};
use vstd::prelude::*;

verus! {

/// The shares that a budget of `cost` buys in `market`, on outcome `i`.
pub open spec fn shares_bought(market: Market, i: int, cost: u64) -> int {
    shares_for_cost_spec(
        market.total_shares@,
        i,
        cost as int,
        market.liquidity * LIQUIDITY_SCALE,
    )
}

/// The shares of outcome `i` that `position` holds; an unopened position
/// holds none.
pub open spec fn held(position: Position, i: int) -> int {
    if position.market.is_unset() {
        0
    } else {
        position.shares@[i] as int
    }
}

/// The cost basis of `position`; nothing for an unopened one.
pub open spec fn basis(position: Position) -> int {
    if position.market.is_unset() {
        0
    } else {
        position.total_cost as int
    }
}

/// The fees paid by `position`; nothing for an unopened one.
pub open spec fn fees_paid(position: Position) -> int {
    if position.market.is_unset() {
        0
    } else {
        position.total_fees_paid as int
    }
}

/// The checks common to both kinds of purchase that run before any price
/// is computed, in order.
pub open spec fn trading_refusal(market: Market, option_index: u8, now: i64) -> Option<
    OpinionMarketError,
> {
    if market.is_resolved {
        Some(OpinionMarketError::MarketResolved)
    } else if now >= market.end_time {
        Some(OpinionMarketError::MarketClosed)
    } else if option_index as int >= market.options@.len() {
        Some(OpinionMarketError::InvalidInput)
    } else {
        None
    }
}

/// The refusal of recording a priced purchase of `shares` for `cost`, or
/// `None` when it can be recorded: the position must list every outcome,
/// and no quantity, cost basis or fee total may leave 64 bits.
pub open spec fn purchase_refusal(
    config: AdminConfig,
    market: Market,
    position: Position,
    fee_account: FeeAccount,
    i: int,
    shares: int,
    cost: int,
) -> Option<OpinionMarketError> {
    let fee = fee_spec(cost, config.fee_rate as int);
    if !position.market.is_unset() && position.shares@.len() != market.options@.len() {
        Some(OpinionMarketError::InvalidInput)
    } else if market.total_shares@[i] + shares > u64::MAX || held(position, i) + shares > u64::MAX
        || basis(position) + cost > u64::MAX || fees_paid(position) + fee > u64::MAX
        || fee_account.total_fees + fee > u64::MAX {
        Some(OpinionMarketError::ArithmeticOverflow)
    } else {
        None
    }
}

/// The records after a purchase of `shares` of outcome `i` for `cost`: the
/// outcome's outstanding quantity and the holder's shares grow by `shares`,
/// the cost basis by `cost`, and the fee on `cost` goes to the fee pool and
/// the holder's fee total. An unopened position is opened for `buyer`.
pub open spec fn purchase_recorded(
    config: AdminConfig,
    om: Market,
    fm: Market,
    op: Position,
    fp: Position,
    of: FeeAccount,
    ff: FeeAccount,
    market_key: AccountKey,
    buyer: AccountKey,
    i: int,
    shares: int,
    cost: int,
    now: i64,
) -> bool {
    let fee = fee_spec(cost, config.fee_rate as int);
    let opening = op.market.is_unset();
    &&& fm == (Market {
        total_shares: fm.total_shares,
        ..om
    })
    &&& fm.total_shares@ == om.total_shares@.update(i, (om.total_shares@[i] + shares) as u64)
    &&& fp.shares@.len() == om.options@.len()
    &&& fp.shares@[i] == held(op, i) + shares
    &&& forall|k: int|
        0 <= k < fp.shares@.len() && k != i ==> #[trigger] fp.shares@[k] == if opening {
            0
        } else {
            op.shares@[k]
        }
    &&& fp.total_cost == basis(op) + cost
    &&& fp.total_fees_paid == fees_paid(op) + fee
    &&& fp.has_claimed == (!opening && op.has_claimed)
    &&& fp.updated_at == now
    &&& opening ==> fp.market == market_key && fp.user == buyer && fp.created_at == now
    &&& !opening ==> fp.market == op.market && fp.user == op.user && fp.created_at
        == op.created_at
    &&& ff == (FeeAccount { total_fees: (of.total_fees + fee) as u64, ..of })
}

/// The refusal of a purchase with a budget, in the order in which the checks
/// run, or `None` when it goes through.
pub open spec fn buy_refusal(
    config: AdminConfig,
    market: Market,
    position: Position,
    fee_account: FeeAccount,
    option_index: u8,
    cost: u64,
    expected_shares: u64,
    now: i64,
) -> Option<OpinionMarketError> {
    let i = option_index as int;
    if trading_refusal(market, option_index, now) is Some {
        trading_refusal(market, option_index, now)
    } else if cost < MIN_COST {
        Some(OpinionMarketError::CostTooLow)
    } else if cost > MAX_COST {
        Some(OpinionMarketError::CostTooHigh)
    } else if expected_shares < MIN_SHARES {
        Some(OpinionMarketError::SharesTooLow)
    } else if expected_shares > MAX_SHARES {
        Some(OpinionMarketError::SharesTooHigh)
    } else if market.liquidity * LIQUIDITY_SCALE > u64::MAX {
        Some(OpinionMarketError::ArithmeticOverflow)
    } else if market.liquidity == 0 {
        Some(OpinionMarketError::InvalidInput)
    } else if !within_slippage(
        expected_shares as int,
        shares_bought(market, i, cost),
        SLIPPAGE_TOLERANCE as int,
    ) {
        Some(OpinionMarketError::SlippageExceeded)
    } else {
        purchase_refusal(
            config,
            market,
            position,
            fee_account,
            i,
            shares_bought(market, i, cost),
            cost as int,
        )
    }
}

/// Records a priced purchase, or refuses it changing nothing.
fn record_purchase(
    config: &AdminConfig,
    market: &mut Market,
    position: &mut Position,
    fee_account: &mut FeeAccount,
    market_key: AccountKey,
    buyer: AccountKey,
    i: usize,
    shares: u64,
    cost: u64,
    now: i64,
) -> (r: Result<(), OpinionMarketError>)
    requires
        config.wf(),
        old(market).wf(),
        i < old(market).options@.len(),
    ensures
        final(market).wf(),
        ({
            let refusal = purchase_refusal(
                *config,
                *old(market),
                *old(position),
                *old(fee_account),
                i as int,
                shares as int,
                cost as int,
            );
            &&& refusal is Some ==> r == Err::<(), OpinionMarketError>(refusal->Some_0)
                && *final(market) == *old(market) && *final(position) == *old(position)
                && *final(fee_account) == *old(fee_account)
            &&& refusal is None ==> r is Ok && purchase_recorded(
                *config,
                *old(market),
                *final(market),
                *old(position),
                *final(position),
                *old(fee_account),
                *final(fee_account),
                market_key,
                buyer,
                i as int,
                shares as int,
                cost as int,
                now,
            )
        }),
{
    let n = market.options.len();
    let fee = match LsLmsr::calculate_fee(cost, config.fee_rate) {
        Ok(f) => f,
        Err(e) => return Err(e),
    };
    let opening = position.market.is_default();
    if !opening && position.shares.len() != n {
        return Err(OpinionMarketError::InvalidInput);
    }
    let held_before: u64 = if opening {
        0
    } else {
        position.shares[i]
    };
    let basis_before: u64 = if opening {
        0
    } else {
        position.total_cost
    };
    let paid_before: u64 = if opening {
        0
    } else {
        position.total_fees_paid
    };
    let new_outstanding = match market.total_shares[i].checked_add(shares) {
        Some(v) => v,
        None => return Err(OpinionMarketError::ArithmeticOverflow),
    };
    let new_held = match held_before.checked_add(shares) {
        Some(v) => v,
        None => return Err(OpinionMarketError::ArithmeticOverflow),
    };
    let new_basis = match basis_before.checked_add(cost) {
        Some(v) => v,
        None => return Err(OpinionMarketError::ArithmeticOverflow),
    };
    let new_paid = match paid_before.checked_add(fee) {
        Some(v) => v,
        None => return Err(OpinionMarketError::ArithmeticOverflow),
    };
    let new_pool = match fee_account.total_fees.checked_add(fee) {
        Some(v) => v,
        None => return Err(OpinionMarketError::ArithmeticOverflow),
    };
    market.total_shares.set(i, new_outstanding);
    if opening {
        position.market = market_key;
        position.user = buyer;
        position.shares = zeros(n);
        position.has_claimed = false;
        position.created_at = now;
    }
    position.shares.set(i, new_held);
    position.total_cost = new_basis;
    position.total_fees_paid = new_paid;
    position.updated_at = now;
    fee_account.total_fees = new_pool;
    Ok(())
}

/// Buys outcome `option_index` of `market` with a budget of `cost` base units
/// at time `now`, for `buyer`, whose position in the market (opened here on
/// the first purchase) is `position`.
///
/// The shares bought are what the solver gives for the budget; they must lie
/// within the slippage tolerance of `expected_shares`. The outcome's
/// outstanding quantity and the holder's shares grow by them, the cost basis
/// by the whole budget, and the fee on the budget goes to the fee pool.
/// Returns the shares bought.
pub fn handler(
    config: &AdminConfig,
    market: &mut Market,
    position: &mut Position,
    fee_account: &mut FeeAccount,
    market_key: AccountKey,
    buyer: AccountKey,
    option_index: u8,
    cost: u64,
    expected_shares: u64,
    now: i64,
) -> (r: Result<u64, OpinionMarketError>)
    requires
        config.wf(),
        old(market).wf(),
    ensures
        final(market).wf(),
        ({
            let refusal = buy_refusal(
                *config,
                *old(market),
                *old(position),
                *old(fee_account),
                option_index,
                cost,
                expected_shares,
                now,
            );
            &&& refusal is Some ==> r == Err::<u64, OpinionMarketError>(refusal->Some_0)
                && *final(market) == *old(market) && *final(position) == *old(position)
                && *final(fee_account) == *old(fee_account)
            &&& refusal is None ==> r == Ok::<u64, OpinionMarketError>(
                shares_bought(*old(market), option_index as int, cost) as u64,
            ) && purchase_recorded(
                *config,
                *old(market),
                *final(market),
                *old(position),
                *final(position),
                *old(fee_account),
                *final(fee_account),
                market_key,
                buyer,
                option_index as int,
                shares_bought(*old(market), option_index as int, cost),
                cost as int,
                now,
            )
        }),
{
    let i = option_index as usize;
    if market.is_resolved {
        return Err(OpinionMarketError::MarketResolved);
    }
    if now >= market.end_time {
        return Err(OpinionMarketError::MarketClosed);
    }
    if i >= market.options.len() {
        return Err(OpinionMarketError::InvalidInput);
    }
    if cost < MIN_COST {
        return Err(OpinionMarketError::CostTooLow);
    }
    if cost > MAX_COST {
        return Err(OpinionMarketError::CostTooHigh);
    }
    if expected_shares < MIN_SHARES {
        return Err(OpinionMarketError::SharesTooLow);
    }
    if expected_shares > MAX_SHARES {
        return Err(OpinionMarketError::SharesTooHigh);
    }
    let b = match LsLmsr::liquidity_param_from_total(market.liquidity) {
        Ok(b) => b,
        Err(e) => return Err(e),
    };
    let actual_shares = match LsLmsr::shares_for_cost(market.total_shares.as_slice(), i, cost, b) {
        Ok(s) => s,
        Err(e) => return Err(e),
    };
    match LsLmsr::validate_slippage(expected_shares, actual_shares, SLIPPAGE_TOLERANCE) {
        Ok(()) => {},
        Err(e) => return Err(e),
    }
    match record_purchase(
        config,
        market,
        position,
        fee_account,
        market_key,
        buyer,
        i,
        actual_shares,
        cost,
        now,
    ) {
        Ok(()) => Ok(actual_shares),
        Err(e) => Err(e),
    }
}

/// The quoted cost of `shares` of outcome `i` in `market`.
pub open spec fn quoted_cost(market: Market, i: int, shares: u64) -> Result<
    u64,
    OpinionMarketError,
> {
    buy_cost_result(market.total_shares@, i, shares as int, market.liquidity * LIQUIDITY_SCALE)
}

/// The refusal of a purchase by share count, in the order in which the
/// checks run, or `None` when it goes through.
pub open spec fn buy_exact_refusal(
    config: AdminConfig,
    market: Market,
    position: Position,
    fee_account: FeeAccount,
    option_index: u8,
    shares: u64,
    expected_cost: u64,
    now: i64,
) -> Option<OpinionMarketError> {
    let i = option_index as int;
    if trading_refusal(market, option_index, now) is Some {
        trading_refusal(market, option_index, now)
    } else if shares < MIN_SHARES {
        Some(OpinionMarketError::SharesTooLow)
    } else if shares > MAX_SHARES {
        Some(OpinionMarketError::SharesTooHigh)
    } else if market.liquidity * LIQUIDITY_SCALE > u64::MAX {
        Some(OpinionMarketError::ArithmeticOverflow)
    } else if quoted_cost(market, i, shares) is Err {
        Some(quoted_cost(market, i, shares)->Err_0)
    } else if quoted_cost(market, i, shares)->Ok_0 < MIN_COST {
        Some(OpinionMarketError::CostTooLow)
    } else if quoted_cost(market, i, shares)->Ok_0 > MAX_COST {
        Some(OpinionMarketError::CostTooHigh)
    } else if expected_cost == 0 {
        Some(OpinionMarketError::InvalidInput)
    } else if !within_slippage(
        expected_cost as int,
        quoted_cost(market, i, shares)->Ok_0 as int,
        SLIPPAGE_TOLERANCE as int,
    ) {
        Some(OpinionMarketError::SlippageExceeded)
    } else {
        purchase_refusal(
            config,
            market,
            position,
            fee_account,
            i,
            shares as int,
            quoted_cost(market, i, shares)->Ok_0 as int,
        )
    }
}

/// Buys exactly `shares` of outcome `option_index` of `market` at time `now`,
/// for `buyer`, at the quoted cost; the cost must lie within the budget
/// limits and within the slippage tolerance of `expected_cost`. The records
/// change as for a purchase with a budget of that cost. Returns the cost.
pub fn handler_for_shares(
    config: &AdminConfig,
    market: &mut Market,
    position: &mut Position,
    fee_account: &mut FeeAccount,
    market_key: AccountKey,
    buyer: AccountKey,
    option_index: u8,
    shares: u64,
    expected_cost: u64,
    now: i64,
) -> (r: Result<u64, OpinionMarketError>)
    requires
        config.wf(),
        old(market).wf(),
    ensures
        final(market).wf(),
        ({
            let refusal = buy_exact_refusal(
                *config,
                *old(market),
                *old(position),
                *old(fee_account),
                option_index,
                shares,
                expected_cost,
                now,
            );
            let cost = quoted_cost(*old(market), option_index as int, shares);
            &&& refusal is Some ==> r == Err::<u64, OpinionMarketError>(refusal->Some_0)
                && *final(market) == *old(market) && *final(position) == *old(position)
                && *final(fee_account) == *old(fee_account)
            &&& refusal is None ==> r == cost && purchase_recorded(
                *config,
                *old(market),
                *final(market),
                *old(position),
                *final(position),
                *old(fee_account),
                *final(fee_account),
                market_key,
                buyer,
                option_index as int,
                shares as int,
                cost->Ok_0 as int,
                now,
            )
        }),
{
    let i = option_index as usize;
    if market.is_resolved {
        return Err(OpinionMarketError::MarketResolved);
    }
    if now >= market.end_time {
        return Err(OpinionMarketError::MarketClosed);
    }
    if i >= market.options.len() {
        return Err(OpinionMarketError::InvalidInput);
    }
    if shares < MIN_SHARES {
        return Err(OpinionMarketError::SharesTooLow);
    }
    if shares > MAX_SHARES {
        return Err(OpinionMarketError::SharesTooHigh);
    }
    let b = match LsLmsr::liquidity_param_from_total(market.liquidity) {
        Ok(b) => b,
        Err(e) => return Err(e),
    };
    let cost = match LsLmsr::cost_for_shares(market.total_shares.as_slice(), i, shares, b) {
        Ok(c) => c,
        Err(e) => return Err(e),
    };
    if cost < MIN_COST {
        return Err(OpinionMarketError::CostTooLow);
    }
    if cost > MAX_COST {
        return Err(OpinionMarketError::CostTooHigh);
    }
    match LsLmsr::validate_slippage(expected_cost, cost, SLIPPAGE_TOLERANCE) {
        Ok(()) => {},
        Err(e) => return Err(e),
    }
    match record_purchase(
        config,
        market,
        position,
        fee_account,
        market_key,
        buyer,
        i,
        shares,
        cost,
        now,
    ) {
        Ok(()) => Ok(cost),
        Err(e) => Err(e),
    }
}

} // verus!
