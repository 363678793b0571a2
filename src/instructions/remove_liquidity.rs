//! Withdrawing liquidity from a market's pool.
use crate::constants::{MAX_SHARES, MIN_SHARES};
use crate::errors::OpinionMarketError;
use crate::state::Market;
use vstd::prelude::*;

verus! {

/// The sum of the quantities in `q`.
pub open spec fn total_of(q: Seq<u64>) -> int
    decreases q.len(),
{
    if q.len() == 0 {
        0
    } else {
        total_of(q.drop_last()) + q.last()
    }
}

/// What withdrawing `shares` returns: the pool's share in proportion to
/// `shares` among all outstanding shares, or `shares` itself when none are
/// outstanding.
pub open spec fn withdrawal(market: Market, shares: u64) -> int {
    let total = total_of(market.total_shares@);
    if total > 0 {
        market.liquidity * shares / total
    } else {
        shares as int
    }
}

proof fn lemma_total_bound(q: Seq<u64>)
    ensures
        0 <= total_of(q) <= q.len() * u64::MAX,
    decreases q.len(),
{
    if q.len() > 0 {
        lemma_total_bound(q.drop_last());
    }
}

/// Withdraws the pool's share for `shares` from `market` and returns it.
/// Fails with `InvalidAmount` outside [`MIN_SHARES`, `MAX_SHARES`] and with
/// `InsufficientLiquidity` when the share exceeds the pool; a refusal changes
/// nothing.
pub fn handler(market: &mut Market, shares: u64) -> (r: Result<u64, OpinionMarketError>)
    requires
        old(market).wf(),
    ensures
        shares < MIN_SHARES || shares > MAX_SHARES ==> r == Err::<u64, OpinionMarketError>(
            OpinionMarketError::InvalidAmount,
        ) && *final(market) == *old(market),
        MIN_SHARES <= shares <= MAX_SHARES && withdrawal(*old(market), shares) > old(
            market,
        ).liquidity ==> r == Err::<u64, OpinionMarketError>(
            OpinionMarketError::InsufficientLiquidity,
        ) && *final(market) == *old(market),
        MIN_SHARES <= shares <= MAX_SHARES && withdrawal(*old(market), shares) <= old(
            market,
        ).liquidity ==> r == Ok::<u64, OpinionMarketError>(withdrawal(*old(market), shares) as u64)
            && *final(market) == (Market {
            liquidity: (old(market).liquidity - withdrawal(*old(market), shares)) as u64,
            ..*old(market)
        }),
        final(market).wf(),
{
    if shares < MIN_SHARES || shares > MAX_SHARES {
        return Err(OpinionMarketError::InvalidAmount);
    }
    let mut total: u128 = 0;
    let mut j: usize = 0;
    while j < market.total_shares.len()
        invariant
            j <= market.total_shares@.len(),
            market.total_shares@.len() <= 10,
            total == total_of(market.total_shares@.take(j as int)),
        decreases market.total_shares@.len() - j,
    {
        assert(market.total_shares@.take(j as int + 1).drop_last() =~= market.total_shares@.take(
            j as int,
        ));
        proof {
            lemma_total_bound(market.total_shares@.take(j as int));
        }
        total = total + market.total_shares[j] as u128;
        j = j + 1;
    }
    assert(market.total_shares@.take(market.total_shares@.len() as int) =~= market.total_shares@);
    let amount: u128 = if total > 0 {
        assert((market.liquidity as u128) * (shares as u128) <= 0xffff_ffff_ffff_ffffu128
            * 0xffff_ffff_ffff_ffffu128) by (nonlinear_arith);
        (market.liquidity as u128) * (shares as u128) / total
    } else {
        shares as u128
    };
    if amount > market.liquidity as u128 {
        return Err(OpinionMarketError::InsufficientLiquidity);
    }
    market.liquidity = market.liquidity - amount as u64;
    Ok(amount as u64)
}

} // verus!
