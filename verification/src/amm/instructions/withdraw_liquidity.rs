use crate::amm::errors::AppError;
use crate::amm::state::{Pool, PoolState, ProviderState};
use crate::amm::utils::mul_div_u64;
use vstd::prelude::*;

verus! {

/// The part of each reserve that `shares` out of the whole supply stand for,
/// rounded down.
pub open spec fn amounts_for(pool: PoolState, shares: nat) -> (nat, nat) {
    (
        pool.reserve_a * shares / pool.total_shares,
        pool.reserve_b * shares / pool.total_shares,
    )
}

/// Why `pool` cannot say what `shares` are worth, if it cannot: no shares
/// exist, none were named, or an amount leaves 64 bits.
pub open spec fn redemption_refusal(pool: PoolState, shares: nat) -> Option<AppError> {
    if pool.total_shares == 0 {
        Some(AppError::CalculationError)
    } else if shares == 0 {
        Some(AppError::DepositTooSmall)
    } else if amounts_for(pool, shares).0 > u64::MAX || amounts_for(pool, shares).1 > u64::MAX {
        Some(AppError::CalculationError)
    } else {
        None
    }
}

/// Shares never redeem for more than the reserves while they are at most the
/// supply, and the whole supply redeems for exactly the reserves.
pub proof fn lemma_amounts_within_reserves(pool: PoolState, shares: nat)
    requires
        0 < pool.total_shares,
        shares <= pool.total_shares,
    ensures
        amounts_for(pool, shares).0 <= pool.reserve_a,
        amounts_for(pool, shares).1 <= pool.reserve_b,
        shares == pool.total_shares ==> amounts_for(pool, shares) == (
            pool.reserve_a,
            pool.reserve_b,
        ),
{
    let t = pool.total_shares as int;
    let s = shares as int;
    let ra = pool.reserve_a as int;
    let rb = pool.reserve_b as int;
    assert(ra * s / t <= ra && (s == t ==> ra * s / t == ra)) by (nonlinear_arith)
        requires
            0 < t,
            0 <= s <= t,
            0 <= ra,
    ;
    assert(rb * s / t <= rb && (s == t ==> rb * s / t == rb)) by (nonlinear_arith)
        requires
            0 < t,
            0 <= s <= t,
            0 <= rb,
    ;
}

/// The amounts of asset A and asset B that `shares` redeem for.
pub fn amounts_for_shares(pool: &Pool, shares: u64) -> (result: Result<(u64, u64), AppError>)
    ensures
        result is Ok <==> redemption_refusal(pool@, shares as nat) is None,
        result matches Err(e) ==> redemption_refusal(pool@, shares as nat) == Some(e),
        result matches Ok(amounts) ==> (amounts.0 as nat, amounts.1 as nat) == amounts_for(
            pool@,
            shares as nat,
        ),
{
    let (reserve_a, reserve_b) = pool.reserves();
    let supply: u64 = pool.total_shares();
    if supply == 0 {
        return Err(AppError::CalculationError);
    }
    if shares == 0 {
        return Err(AppError::DepositTooSmall);
    }
    let amount_a: u64 = mul_div_u64(reserve_a, shares, supply)?;
    let amount_b: u64 = mul_div_u64(reserve_b, shares, supply)?;
    Ok((amount_a, amount_b))
}

/// The balances that a withdrawal reads and moves: the pool's, and the
/// withdrawer's accounts for asset A, asset B and liquidity shares.
#[derive(Clone, Copy, Debug, PartialEq, Eq, Structural)]
pub struct WithdrawLiquidity {
    pub pool: Pool,
    pub depositor_account_a: u64,
    pub depositor_account_b: u64,
    pub depositor_account_liquidity: u64,
}

impl View for WithdrawLiquidity {
    type V = ProviderState;

    open spec fn view(&self) -> ProviderState {
        ProviderState {
            pool: self.pool@,
            balance_a: self.depositor_account_a as nat,
            balance_b: self.depositor_account_b as nat,
            shares: self.depositor_account_liquidity as nat,
        }
    }
}

/// The balances after a withdrawal of `shares` went through.
pub open spec fn after_withdraw(s: ProviderState, shares: nat) -> ProviderState {
    let amounts = amounts_for(s.pool, shares);
    ProviderState {
        pool: s.pool.withdrawn(amounts.0, amounts.1).burned(shares),
        balance_a: s.balance_a + amounts.0,
        balance_b: s.balance_b + amounts.1,
        shares: (s.shares - shares) as nat,
    }
}

/// Why a withdrawal of `shares` is refused, if it is.
///
/// The pool must be able to say what the shares are worth. The reserves must
/// cover both amounts and the withdrawer's balances must have room for them:
/// `CalculationError` otherwise. The withdrawer must hold the shares:
/// `InsufficientBalance` otherwise. And the supply must cover them.
pub open spec fn withdraw_refusal(s: ProviderState, shares: nat) -> Option<AppError> {
    let amounts = amounts_for(s.pool, shares);
    if redemption_refusal(s.pool, shares) is Some {
        redemption_refusal(s.pool, shares)
    } else if amounts.0 > s.pool.reserve_a || amounts.1 > s.pool.reserve_b {
        Some(AppError::CalculationError)
    } else if s.balance_a + amounts.0 > u64::MAX || s.balance_b + amounts.1 > u64::MAX {
        Some(AppError::CalculationError)
    } else if shares > s.shares {
        Some(AppError::InsufficientBalance)
    } else if shares > s.pool.total_shares {
        Some(AppError::CalculationError)
    } else {
        None
    }
}

/// Burns `amount` shares and pays out the part of each reserve that they
/// stand for, rounded down. On failure nothing has moved.
pub fn withdraw_liquidity(ctx: &mut WithdrawLiquidity, amount: u64) -> (result: Result<
    (u64, u64),
    AppError,
>)
    ensures
        result is Ok <==> withdraw_refusal(old(ctx)@, amount as nat) is None,
        result matches Err(e) ==> withdraw_refusal(old(ctx)@, amount as nat) == Some(e),
        result is Err ==> *final(ctx) == *old(ctx),
        result matches Ok(amounts) ==> {
            &&& (amounts.0 as nat, amounts.1 as nat) == amounts_for(old(ctx)@.pool, amount as nat)
            &&& final(ctx)@ == after_withdraw(old(ctx)@, amount as nat)
        },
{
    let (amount_a, amount_b) = amounts_for_shares(&ctx.pool, amount)?;
    let mut pool: Pool = ctx.pool;
    pool.apply_withdraw(amount_a, amount_b)?;
    let balance_a: u64 = match ctx.depositor_account_a.checked_add(amount_a) {
        Some(sum) => sum,
        None => { return Err(AppError::CalculationError); },
    };
    let balance_b: u64 = match ctx.depositor_account_b.checked_add(amount_b) {
        Some(sum) => sum,
        None => { return Err(AppError::CalculationError); },
    };
    let holding: u64 = match ctx.depositor_account_liquidity.checked_sub(amount) {
        Some(rest) => rest,
        None => { return Err(AppError::InsufficientBalance); },
    };
    pool.burn_shares(amount)?;
    ctx.pool = pool;
    ctx.depositor_account_a = balance_a;
    ctx.depositor_account_b = balance_b;
    ctx.depositor_account_liquidity = holding;
    Ok((amount_a, amount_b))
}

} // verus!
