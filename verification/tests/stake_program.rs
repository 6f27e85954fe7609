use programs::stake_program::{check_unstake, unstake, AppError, StakeInfo, REWARD_DIVISOR};

fn staked(amount: u64, stake_at: u64) -> StakeInfo {
    StakeInfo { stake_at, is_staked: true, amount }
}

#[test]
fn unstake_pays_one_percent_per_slot() {
    assert_eq!(REWARD_DIVISOR, 100);
    let mut info = staked(1000, 10);
    // 400 * (60 - 10) / 100
    assert_eq!(unstake(&mut info, 60, 400), Ok(200));
    assert_eq!(info, StakeInfo { stake_at: 60, is_staked: true, amount: 600 });
}

#[test]
fn unstake_rounds_the_reward_down() {
    let mut info = staked(1000, 0);
    // 33 * 5 / 100 = 1.65
    assert_eq!(unstake(&mut info, 5, 33), Ok(1));
    let mut info = staked(1000, 0);
    // 33 * 3 / 100 = 0.99
    assert_eq!(unstake(&mut info, 3, 33), Ok(0));
}

#[test]
fn unstake_in_the_slot_of_the_stake_earns_nothing() {
    let mut info = staked(1000, 77);
    assert_eq!(unstake(&mut info, 77, 1000), Ok(0));
}

#[test]
fn unstaking_everything_ends_the_stake() {
    let mut info = staked(1000, 10);
    assert_eq!(unstake(&mut info, 110, 1000), Ok(1000));
    assert_eq!(info, StakeInfo { stake_at: 10, is_staked: false, amount: 0 });
    // nothing is left to take
    assert_eq!(unstake(&mut info, 120, 1), Err(AppError::NotStaked));
}

#[test]
fn unstake_without_a_stake_fails() {
    let mut info = StakeInfo { stake_at: 0, is_staked: false, amount: 500 };
    assert_eq!(unstake(&mut info, 10, 100), Err(AppError::NotStaked));
    assert_eq!(info, StakeInfo { stake_at: 0, is_staked: false, amount: 500 });
    let mut info = staked(0, 0);
    assert_eq!(unstake(&mut info, 10, 0), Err(AppError::NotStaked));
    assert_eq!(info, staked(0, 0));
}

#[test]
fn unstake_of_nothing_or_too_much_fails() {
    let mut info = staked(500, 3);
    assert_eq!(unstake(&mut info, 10, 0), Err(AppError::NoToken));
    assert_eq!(unstake(&mut info, 10, 501), Err(AppError::NoToken));
    assert_eq!(info, staked(500, 3));
    assert_eq!(unstake(&mut info, 10, 500), Ok(35));
}

#[test]
fn a_refused_unstake_does_not_look_at_the_slot() {
    // the slot lies before the stake, which only a request that goes through may not
    let mut info = StakeInfo { stake_at: 100, is_staked: false, amount: 0 };
    assert_eq!(unstake(&mut info, 1, u64::MAX), Err(AppError::NotStaked));
    let mut info = staked(5, 100);
    assert_eq!(unstake(&mut info, 1, 6), Err(AppError::NoToken));
}

#[test]
fn check_unstake_tells_why_a_request_is_refused() {
    assert_eq!(check_unstake(&staked(500, 3), 1), Ok(()));
    assert_eq!(check_unstake(&staked(500, 3), 500), Ok(()));
    assert_eq!(check_unstake(&staked(500, 3), 0), Err(AppError::NoToken));
    assert_eq!(check_unstake(&staked(500, 3), 501), Err(AppError::NoToken));
    assert_eq!(check_unstake(&staked(0, 3), 0), Err(AppError::NotStaked));
    let idle = StakeInfo { stake_at: 3, is_staked: false, amount: 500 };
    assert_eq!(check_unstake(&idle, 100), Err(AppError::NotStaked));
}
