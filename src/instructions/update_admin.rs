//! Changing the administrator and the fee rate.
use crate::constants::MAX_FEE_RATE;
use crate::errors::OpinionMarketError;
use crate::state::{AccountKey, AdminConfig};
use vstd::prelude::*;

verus! {

/// Hands the configuration to `new_admin` with fee rate `new_fee_rate`.
/// Fails with `InvalidFeeRate`, changing nothing, on a rate above 10%.
pub fn handler(config: &mut AdminConfig, new_admin: AccountKey, new_fee_rate: u64) -> (r: Result<
    (),
    OpinionMarketError,
>)
    ensures
        new_fee_rate > MAX_FEE_RATE ==> r == Err::<(), OpinionMarketError>(
            OpinionMarketError::InvalidFeeRate,
        ) && *final(config) == *old(config),
        new_fee_rate <= MAX_FEE_RATE ==> r == Ok::<(), OpinionMarketError>(()) && *final(config)
            == (AdminConfig { admin: new_admin, fee_rate: new_fee_rate, ..*old(config) }),
        old(config).wf() ==> final(config).wf(),
{
    if new_fee_rate > MAX_FEE_RATE {
        return Err(OpinionMarketError::InvalidFeeRate);
    }
    config.admin = new_admin;
    config.fee_rate = new_fee_rate;
    Ok(())
}

} // verus!
