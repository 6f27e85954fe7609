//! Constant-product liquidity pool: deposits mint shares, withdrawals burn
//! them, and swaps trade one asset for the other at the price the reserves
//! imply.

pub mod errors;
pub mod instructions;
pub mod invariants;
pub mod state;
pub mod utils;
