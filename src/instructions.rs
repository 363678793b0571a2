//! The ledger's operations. Each checks everything before it changes
//! anything, so a refused operation leaves every record as it was.
pub mod add_liquidity;
pub mod buy_shares;
pub mod claim_winnings;
pub mod collect_fees;
pub mod create_market;
pub mod initialize;
pub mod remove_liquidity;
pub mod resolve_market;
pub mod sell_shares;
pub mod update_admin;
