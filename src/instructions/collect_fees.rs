//! Withdrawing collected fees.
use crate::errors::OpinionMarketError;
use crate::state::FeeAccount;
use vstd::prelude::*;

verus! {

/// Takes `amount` out of the fee pool. Fails with `InvalidAmount`, changing
/// nothing, when `amount` is zero or more than the pool holds.
pub fn handler(fee_account: &mut FeeAccount, amount: u64) -> (r: Result<(), OpinionMarketError>)
    ensures
        amount == 0 || amount > old(fee_account).total_fees ==> r == Err::<(), OpinionMarketError>(
            OpinionMarketError::InvalidAmount,
        ) && *final(fee_account) == *old(fee_account),
        0 < amount <= old(fee_account).total_fees ==> r == Ok::<(), OpinionMarketError>(())
            && *final(fee_account) == (FeeAccount {
            total_fees: (old(fee_account).total_fees - amount) as u64,
            ..*old(fee_account)
        }),
{
    if amount == 0 || amount > fee_account.total_fees {
        return Err(OpinionMarketError::InvalidAmount);
    }
    fee_account.total_fees = fee_account.total_fees - amount;
    Ok(())
}

} // verus!
