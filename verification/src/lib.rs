//! Verified logic of three on-chain programs: a constant-product liquidity
//! pool, a single-token staking vault and a per-user list of short notes.
//!
//! Every function here works on plain values. The surrounding program reads
//! account balances, hands them to this library, and performs the transfers
//! that the library decides on.

pub mod amm;
pub mod stake_program;
pub mod todo_app;
