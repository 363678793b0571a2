//! The error kinds that the engine and the ledger report.
use vstd::prelude::*;

verus! {

/// Why an operation was refused. Every refusal leaves all state as it was.
#[derive(Debug, Clone, Copy, PartialEq, Eq, Structural)]
pub enum OpinionMarketError {
    /// Malformed or out-of-range argument: outcome index, empty quantities,
    /// zero liquidity parameter, zero expected amount.
    InvalidInput,
    /// A sale exceeds the shares held or outstanding.
    InsufficientShares,
    /// A checked operation on costs or quantities left the integer domain.
    ArithmeticOverflow,
    /// The actual amount deviates from the expected one beyond the tolerance.
    SlippageExceeded,
    /// Trading was attempted at or after the market's close time.
    MarketClosed,
    /// Trading or resolution was attempted on a resolved market.
    MarketResolved,
    /// Resolution before close time, or settlement before resolution.
    MarketNotResolved,
    /// The winning outcome index is out of range.
    InvalidWinningOption,
    /// The holder has nothing to claim.
    NoWinningsToClaim,
    /// The position has already been settled.
    AlreadyClaimed,
    /// The token-transfer collaborator refused to move funds.
    TransferFailed,
    MarketIdTooLong,
    QuestionTooLong,
    OptionTooLong,
    TooManyOptions,
    MarketEndTimeInPast,
    MarketDurationTooShort,
    MarketDurationTooLong,
    LiquidityTooLow,
    LiquidityTooHigh,
    CostTooLow,
    CostTooHigh,
    SharesTooLow,
    SharesTooHigh,
    InvalidFeeRate,
    InvalidAmount,
    InsufficientLiquidity,
}

/// Shorter name of the error type.
pub type ErrorCode = OpinionMarketError;

} // verus!
