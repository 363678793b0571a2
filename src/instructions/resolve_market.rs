//! Resolving a market to its winning outcome.
use crate::errors::OpinionMarketError;
use crate::state::Market;
use vstd::prelude::*;

verus! {

/// The refusal of a resolution, in the order in which the checks run, or
/// `None` when it goes through.
pub open spec fn resolve_refusal(market: Market, winning_option: u8, now: i64) -> Option<
    OpinionMarketError,
> {
    if market.is_resolved {
        Some(OpinionMarketError::MarketResolved)
    } else if now < market.end_time {
        Some(OpinionMarketError::MarketNotResolved)
    } else if winning_option as int >= market.options@.len() {
        Some(OpinionMarketError::InvalidWinningOption)
    } else {
        None
    }
}

/// Resolves `market` to `winning_option` at time `now`, at or after its close
/// time. A market is resolved once: resolving it again fails with
/// `MarketResolved` and changes nothing.
pub fn handler(market: &mut Market, winning_option: u8, now: i64) -> (r: Result<
    (),
    OpinionMarketError,
>)
    requires
        old(market).wf(),
    ensures
        final(market).wf(),
        ({
            let refusal = resolve_refusal(*old(market), winning_option, now);
            &&& refusal is Some ==> r == Err::<(), OpinionMarketError>(refusal->Some_0)
                && *final(market) == *old(market)
            &&& refusal is None ==> r is Ok
        }),
        old(market).is_resolved ==> r == Err::<(), OpinionMarketError>(
            OpinionMarketError::MarketResolved,
        ) && *final(market) == *old(market),
        r is Ok ==> *final(market) == (Market {
            is_resolved: true,
            winning_option: Some(winning_option),
            ..*old(market)
        }),
{
    if market.is_resolved {
        return Err(OpinionMarketError::MarketResolved);
    }
    if now < market.end_time {
        return Err(OpinionMarketError::MarketNotResolved);
    }
    if winning_option as usize >= market.options.len() {
        return Err(OpinionMarketError::InvalidWinningOption);
    }
    market.is_resolved = true;
    market.winning_option = Some(winning_option);
    Ok(())
}

} // verus!
