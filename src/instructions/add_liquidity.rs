//! Adding liquidity to a market's pool.
use crate::constants::{MAX_COST, MIN_COST};
use crate::errors::OpinionMarketError;
use crate::state::Market;
use vstd::prelude::*;

verus! {

/// Adds `amount` base units to the pool of `market`. Fails with
/// `InvalidAmount` outside [`MIN_COST`, `MAX_COST`] and with
/// `ArithmeticOverflow` when the pool would leave 64 bits; a refusal changes
/// nothing.
pub fn handler(market: &mut Market, amount: u64) -> (r: Result<(), OpinionMarketError>)
    ensures
        amount < MIN_COST || amount > MAX_COST ==> r == Err::<(), OpinionMarketError>(
            OpinionMarketError::InvalidAmount,
        ) && *final(market) == *old(market),
        MIN_COST <= amount <= MAX_COST && old(market).liquidity + amount > u64::MAX ==> r == Err::<
            (),
            OpinionMarketError,
        >(OpinionMarketError::ArithmeticOverflow) && *final(market) == *old(market),
        MIN_COST <= amount <= MAX_COST && old(market).liquidity + amount <= u64::MAX ==> r == Ok::<
            (),
            OpinionMarketError,
        >(()) && *final(market) == (Market {
            liquidity: (old(market).liquidity + amount) as u64,
            ..*old(market)
        }),
        old(market).wf() ==> final(market).wf(),
{
    if amount < MIN_COST || amount > MAX_COST {
        return Err(OpinionMarketError::InvalidAmount);
    }
    let pool = match market.liquidity.checked_add(amount) {
        Some(v) => v,
        None => return Err(OpinionMarketError::ArithmeticOverflow),
    };
    market.liquidity = pool;
    Ok(())
}

} // verus!
