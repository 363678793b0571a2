//! Setting up the configuration and the fee pool.
use crate::constants::{MAX_FEE_RATE, MIN_LIQUIDITY};
use crate::errors::OpinionMarketError;
use crate::state::{AccountKey, AdminConfig, FeeAccount};
use vstd::prelude::*;

verus! {

/// Creates the configuration, administered by `admin` with the given fee
/// rate and minimum market liquidity, and an empty fee pool that `admin`
/// controls. Fails with `InvalidFeeRate` on a rate above 10% and with
/// `LiquidityTooLow` on a minimum below `MIN_LIQUIDITY`.
pub fn handler(admin: AccountKey, fee_rate: u64, min_liquidity: u64) -> (r: Result<
    (AdminConfig, FeeAccount),
    OpinionMarketError,
>)
    ensures
        fee_rate > MAX_FEE_RATE ==> r == Err::<(AdminConfig, FeeAccount), OpinionMarketError>(
            OpinionMarketError::InvalidFeeRate,
        ),
        fee_rate <= MAX_FEE_RATE && min_liquidity < MIN_LIQUIDITY ==> r == Err::<
            (AdminConfig, FeeAccount),
            OpinionMarketError,
        >(OpinionMarketError::LiquidityTooLow),
        fee_rate <= MAX_FEE_RATE && min_liquidity >= MIN_LIQUIDITY ==> r == Ok::<
            (AdminConfig, FeeAccount),
            OpinionMarketError,
        >(
            (
                AdminConfig { admin, fee_rate, min_liquidity, total_fees_collected: 0 },
                FeeAccount { authority: admin, total_fees: 0 },
            ),
        ),
        r is Ok ==> r->Ok_0.0.wf(),
{
    if fee_rate > MAX_FEE_RATE {
        return Err(OpinionMarketError::InvalidFeeRate);
    }
    if min_liquidity < MIN_LIQUIDITY {
        return Err(OpinionMarketError::LiquidityTooLow);
    }
    Ok(
        (
            AdminConfig { admin, fee_rate, min_liquidity, total_fees_collected: 0 },
            FeeAccount { authority: admin, total_fees: 0 },
        ),
    )
}

} // verus!
