//! The three operations on a pool. Each takes the balances it may touch,
//! decides the amounts, and either books all of them or none.

pub mod deposit_liquidity;
pub mod swap;
pub mod withdraw_liquidity;
