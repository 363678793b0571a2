//! Pricing and settlement engine for multi-outcome prediction markets that
//! price outcomes with the logarithmic market scoring rule.
pub mod constants;
pub mod errors;
pub mod fixed;
pub mod lmsr;
pub mod state;
pub mod instructions;
