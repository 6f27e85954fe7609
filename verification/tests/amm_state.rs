use programs::amm::errors::AppError;
use programs::amm::state::Pool;

#[test]
fn an_empty_pool_holds_nothing() {
    let pool = Pool::empty();
    assert_eq!(pool.reserves(), (0, 0));
    assert_eq!(pool.total_shares(), 0);
    assert_eq!(pool, Pool::new(0, 0, 0));
}

#[test]
fn a_pool_reports_the_balances_it_was_made_with() {
    let pool = Pool::new(1000, 4000, 2000);
    assert_eq!(pool.reserves(), (1000, 4000));
    assert_eq!(pool.total_shares(), 2000);
}

#[test]
fn apply_deposit_adds_to_both_reserves() {
    let mut pool = Pool::new(1000, 4000, 2000);
    assert_eq!(pool.apply_deposit(100, 400), Ok(()));
    assert_eq!(pool.reserves(), (1100, 4400));
    assert_eq!(pool.total_shares(), 2000);
}

#[test]
fn apply_deposit_refuses_to_overflow_either_reserve() {
    let mut pool = Pool::new(u64::MAX - 1, 5, 7);
    assert_eq!(pool.apply_deposit(2, 1), Err(AppError::CalculationError));
    assert_eq!(pool, Pool::new(u64::MAX - 1, 5, 7));
    let mut pool = Pool::new(5, u64::MAX, 7);
    assert_eq!(pool.apply_deposit(1, 1), Err(AppError::CalculationError));
    assert_eq!(pool, Pool::new(5, u64::MAX, 7));
    let mut pool = Pool::new(u64::MAX - 1, 5, 7);
    assert_eq!(pool.apply_deposit(1, 0), Ok(()));
    assert_eq!(pool.reserves(), (u64::MAX, 5));
}

#[test]
fn apply_withdraw_takes_from_both_reserves() {
    let mut pool = Pool::new(1000, 4000, 2000);
    assert_eq!(pool.apply_withdraw(500, 2000), Ok(()));
    assert_eq!(pool.reserves(), (500, 2000));
    assert_eq!(pool.total_shares(), 2000);
    assert_eq!(pool.apply_withdraw(500, 2000), Ok(()));
    assert_eq!(pool.reserves(), (0, 0));
}

#[test]
fn apply_withdraw_refuses_more_than_a_reserve_holds() {
    let mut pool = Pool::new(1000, 4000, 2000);
    assert_eq!(pool.apply_withdraw(1001, 0), Err(AppError::CalculationError));
    assert_eq!(pool.apply_withdraw(0, 4001), Err(AppError::CalculationError));
    assert_eq!(pool, Pool::new(1000, 4000, 2000));
}

#[test]
fn shares_are_minted_and_burned() {
    let mut pool = Pool::new(1000, 4000, 2000);
    assert_eq!(pool.mint_shares(50), Ok(()));
    assert_eq!(pool.total_shares(), 2050);
    assert_eq!(pool.burn_shares(2050), Ok(()));
    assert_eq!(pool.total_shares(), 0);
    assert_eq!(pool.reserves(), (1000, 4000));
}

#[test]
fn the_share_supply_stays_within_bounds() {
    let mut pool = Pool::new(1, 1, u64::MAX);
    assert_eq!(pool.mint_shares(1), Err(AppError::CalculationError));
    assert_eq!(pool.total_shares(), u64::MAX);
    let mut pool = Pool::new(1, 1, 10);
    assert_eq!(pool.burn_shares(11), Err(AppError::CalculationError));
    assert_eq!(pool.total_shares(), 10);
}
