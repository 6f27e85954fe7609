//! A staking vault for one token: a staker locks an amount, and on taking
//! it out is paid a reward of one percent of it for every slot it was
//! locked.

use vstd::prelude::*;

verus! {

/// Why an unstake request was refused. A refused request changes nothing.
#[derive(Clone, Copy, Debug, PartialEq, Eq, Structural)]
pub enum AppError {
    /// The record holds no stake.
    NotStaked,
    /// The request names no tokens, or more than are staked.
    NoToken,
}

/// One staker's record: how much is locked and since which slot.
#[derive(Clone, Copy, Debug, PartialEq, Eq, Structural)]
pub struct StakeInfo {
    /// The slot at which the reward started to accrue.
    pub stake_at: u64,
    pub is_staked: bool,
    /// The amount locked.
    pub amount: u64,
}

/// What the product of amount and slots is divided by: the reward is one
/// percent of the amount per slot.
pub const REWARD_DIVISOR: u64 = 100;

/// The reward for `amount` locked over `slots` slots, rounded down.
pub open spec fn reward_for(amount: nat, slots: nat) -> nat {
    amount * slots / 100
}

/// Why taking `unstake_amount` out of `info` is refused, if it is.
pub open spec fn unstake_refusal(info: StakeInfo, unstake_amount: u64) -> Option<AppError> {
    if !info.is_staked || info.amount == 0 {
        Some(AppError::NotStaked)
    } else if unstake_amount == 0 || unstake_amount > info.amount {
        Some(AppError::NoToken)
    } else {
        None
    }
}

/// The record after `unstake_amount` left it at `slot`: with nothing left
/// it is no longer staked, with something left the reward accrues afresh
/// from `slot`.
pub open spec fn after_unstake(info: StakeInfo, slot: u64, unstake_amount: u64) -> StakeInfo
    recommends
        unstake_amount <= info.amount,
{
    if unstake_amount == info.amount {
        StakeInfo { stake_at: info.stake_at, is_staked: false, amount: 0 }
    } else {
        StakeInfo {
            stake_at: slot,
            is_staked: true,
            amount: (info.amount - unstake_amount) as u64,
        }
    }
}

/// Whether `unstake_amount` can be taken out of the stake: there must be a
/// stake, and the amount must be positive and within it.
pub fn check_unstake(stake_info: &StakeInfo, unstake_amount: u64) -> (result: Result<(), AppError>)
    ensures
        result is Ok <==> unstake_refusal(*stake_info, unstake_amount) is None,
        result matches Err(e) ==> unstake_refusal(*stake_info, unstake_amount) == Some(e),
{
    if !stake_info.is_staked || stake_info.amount == 0 {
        return Err(AppError::NotStaked);
    }
    if unstake_amount == 0 || unstake_amount > stake_info.amount {
        return Err(AppError::NoToken);
    }
    Ok(())
}

/// Takes `unstake_amount` out of the stake at `slot` and returns the reward
/// to pay with it.
///
/// A request that is not refused needs `slot` to be at or after the slot the
/// stake dates from, and the product of the amount and the slots passed to
/// fit in 64 bits.
pub fn unstake(stake_info: &mut StakeInfo, slot: u64, unstake_amount: u64) -> (result: Result<
    u64,
    AppError,
>)
    requires
        unstake_refusal(*old(stake_info), unstake_amount) is None ==> old(stake_info).stake_at
            <= slot && unstake_amount * (slot - old(stake_info).stake_at) <= u64::MAX,
    ensures
        result is Ok <==> unstake_refusal(*old(stake_info), unstake_amount) is None,
        result matches Err(e) ==> unstake_refusal(*old(stake_info), unstake_amount) == Some(e),
        result is Err ==> *final(stake_info) == *old(stake_info),
        result matches Ok(reward) ==> {
            &&& reward == reward_for(
                unstake_amount as nat,
                (slot - old(stake_info).stake_at) as nat,
            )
            &&& *final(stake_info) == after_unstake(*old(stake_info), slot, unstake_amount)
        },
{
    check_unstake(stake_info, unstake_amount)?;
    let blocks: u64 = slot - stake_info.stake_at;
    let reward: u64 = unstake_amount * blocks / REWARD_DIVISOR;
    stake_info.amount = stake_info.amount - unstake_amount;
    if stake_info.amount == 0 {
        stake_info.is_staked = false;
    } else {
        stake_info.stake_at = slot;
    }
    Ok(reward)
}

} // verus!
