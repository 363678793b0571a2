//! Limits and policy constants of the markets.
use vstd::prelude::*;

verus! {

/// Fewest outcomes a market may list.
pub const MIN_OPTIONS: usize = 2;

/// Most outcomes a market may list.
pub const MAX_OPTIONS: usize = 10;

/// Longest market identifier, in bytes.
pub const MAX_MARKET_ID_LENGTH: usize = 100;

/// Longest question, in bytes.
pub const MAX_QUESTION_LENGTH: usize = 500;

/// Longest outcome label, in bytes.
pub const MAX_OPTION_LENGTH: usize = 200;

/// Highest fee rate in basis points (10%).
pub const MAX_FEE_RATE: u64 = 1000;

/// Lowest fee rate in basis points.
pub const MIN_FEE_RATE: u64 = 0;

/// Lowest minimum liquidity that the configuration may demand, in base units.
pub const MIN_LIQUIDITY: u64 = 1_000_000;

/// Most liquidity a market may open with, in base units.
pub const MAX_LIQUIDITY: u64 = 1_000_000_000_000;

/// Smallest budget of a purchase or liquidity deposit, in base units.
pub const MIN_COST: u64 = 10_000;

/// Largest budget of a purchase or liquidity deposit, in base units.
pub const MAX_COST: u64 = 1_000_000_000;

/// Fewest shares in a sale, an expectation or a withdrawal.
pub const MIN_SHARES: u64 = 1;

/// Most shares in a sale, an expectation or a withdrawal.
pub const MAX_SHARES: u64 = 1_000_000_000;

/// Slippage tolerance of trades, in basis points (1%).
pub const SLIPPAGE_TOLERANCE: u64 = 100;

/// Shortest time a market stays open, in seconds (one day).
pub const MIN_MARKET_DURATION: i64 = 86400;

/// Longest time a market stays open, in seconds (365 days).
pub const MAX_MARKET_DURATION: i64 = 31536000;

} // verus!
