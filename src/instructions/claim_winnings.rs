//! Settling a holder's position in a resolved market.
use crate::errors::OpinionMarketError;
use crate::state::{Market, Position};
use vstd::prelude::*;

verus! {

/// floor(pool * held / outstanding) when shares of the winning outcome are
/// outstanding, else 0.
pub open spec fn payout_spec(pool: int, held: int, outstanding: int) -> int {
    if outstanding > 0 {
        pool * held / outstanding
    } else {
        0
    }
}

/// The shares of the winning outcome `w` in `position`; none when the
/// position does not list that outcome.
pub open spec fn winning_held(position: Position, w: int) -> int {
    if w < position.shares@.len() {
        position.shares@[w] as int
    } else {
        0
    }
}

/// What the holder of `position` is owed from `market`, once resolved.
pub open spec fn winnings(market: Market, position: Position) -> int {
    let w = market.winning_option->Some_0 as int;
    payout_spec(
        market.liquidity as int,
        winning_held(position, w),
        market.total_shares@[w] as int,
    )
}

/// The refusal of a claim, in the order in which the checks run, or `None`
/// when it is paid.
pub open spec fn claim_refusal(market: Market, position: Position) -> Option<OpinionMarketError> {
    if market.winning_option is None {
        Some(OpinionMarketError::MarketNotResolved)
    } else if position.has_claimed {
        Some(OpinionMarketError::AlreadyClaimed)
    } else if winning_held(position, market.winning_option->Some_0 as int) == 0 {
        Some(OpinionMarketError::NoWinningsToClaim)
    } else if winnings(market, position) > u64::MAX {
        Some(OpinionMarketError::ArithmeticOverflow)
    } else if winnings(market, position) == 0 {
        Some(OpinionMarketError::NoWinningsToClaim)
    } else {
        None
    }
}

/// Pays out `position` in the resolved `market`: its share of the pooled
/// liquidity in proportion to its winning shares among all outstanding ones.
/// A position is paid once; a second claim fails with `AlreadyClaimed`.
/// Returns the payout.
pub fn handler(market: &Market, position: &mut Position) -> (r: Result<u64, OpinionMarketError>)
    requires
        market.wf(),
    ensures
        ({
            let refusal = claim_refusal(*market, *old(position));
            &&& refusal is Some ==> r == Err::<u64, OpinionMarketError>(refusal->Some_0)
                && *final(position) == *old(position)
            &&& refusal is None ==> r == Ok::<u64, OpinionMarketError>(
                winnings(*market, *old(position)) as u64,
            ) && *final(position) == (Position { has_claimed: true, ..*old(position) })
        }),
        old(position).has_claimed ==> r is Err,
{
    let w = match market.winning_option {
        Some(w) => w as usize,
        None => return Err(OpinionMarketError::MarketNotResolved),
    };
    if position.has_claimed {
        return Err(OpinionMarketError::AlreadyClaimed);
    }
    let winning_shares: u64 = if w < position.shares.len() {
        position.shares[w]
    } else {
        0
    };
    if winning_shares == 0 {
        return Err(OpinionMarketError::NoWinningsToClaim);
    }
    let outstanding = market.total_shares[w];
    let payout: u128 = if outstanding > 0 {
        assert((market.liquidity as u128) * (winning_shares as u128) <= 0xffff_ffff_ffff_ffffu128
            * 0xffff_ffff_ffff_ffffu128) by (nonlinear_arith);
        (market.liquidity as u128) * (winning_shares as u128) / (outstanding as u128)
    } else {
        0
    };
    if payout > u64::MAX as u128 {
        return Err(OpinionMarketError::ArithmeticOverflow);
    }
    if payout == 0 {
        return Err(OpinionMarketError::NoWinningsToClaim);
    }
    position.has_claimed = true;
    Ok(payout as u64)
}

} // verus!
