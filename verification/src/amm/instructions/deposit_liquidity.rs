use crate::amm::errors::AppError;
use crate::amm::state::{Pool, PoolState, ProviderState};
use crate::amm::utils::{
    floor_sqrt, integer_sqrt, lemma_floor_sqrt, lemma_product_fits, mul_div_u64,
};
use vstd::prelude::*;

verus! {

/// The smaller of two amounts.
pub open spec fn at_most(desired: nat, available: nat) -> nat {
    if desired > available {
        available
    } else {
        desired
    }
}

/// Whether the pool can price a deposit that offers `amount_b` of asset B: an
/// empty pool takes any pair, any other needs a reserve of B to divide by and
/// an ideal amount of A within 64 bits.
pub open spec fn ratio_defined(pool: PoolState, amount_b: nat) -> bool {
    pool.is_empty() || (pool.reserve_b > 0 && pool.reserve_a * amount_b / pool.reserve_b
        <= u64::MAX)
}

/// The pair that a deposit offering `amount_a` and `amount_b` puts in.
///
/// An empty pool takes the offer as it is. Otherwise the pool takes all of B
/// with the amount of A that the reserves' ratio asks for, where A suffices;
/// where it does not, it takes all of A with the matching amount of B.
pub open spec fn amounts_at_ratio(pool: PoolState, amount_a: nat, amount_b: nat) -> (nat, nat) {
    if pool.is_empty() {
        (amount_a, amount_b)
    } else {
        let ideal_a = pool.reserve_a * amount_b / pool.reserve_b;
        if amount_a >= ideal_a {
            (ideal_a, amount_b)
        } else {
            (amount_a, pool.reserve_b * amount_a / pool.reserve_a)
        }
    }
}

/// The shares minted for a deposit of `amount_a` and `amount_b`: the
/// geometric mean of the two while no shares exist, afterwards reserve A
/// times `amount_a` over the share supply.
pub open spec fn shares_for(pool: PoolState, amount_a: nat, amount_b: nat) -> nat {
    if pool.total_shares == 0 {
        floor_sqrt(amount_a * amount_b)
    } else {
        pool.reserve_a * amount_a / pool.total_shares
    }
}

/// A deposit never takes more of either asset than was offered.
pub proof fn lemma_amounts_within_offer(pool: PoolState, amount_a: nat, amount_b: nat)
    requires
        ratio_defined(pool, amount_b),
    ensures
        amounts_at_ratio(pool, amount_a, amount_b).0 <= amount_a,
        amounts_at_ratio(pool, amount_a, amount_b).1 <= amount_b,
{
    if !pool.is_empty() {
        let ra = pool.reserve_a as int;
        let rb = pool.reserve_b as int;
        let a = amount_a as int;
        let b = amount_b as int;
        let ideal_a = ra * b / rb;
        if a < ideal_a {
            assert(ra > 0 && rb * a / ra <= b) by (nonlinear_arith)
                requires
                    0 <= ra,
                    0 < rb,
                    0 <= a,
                    0 <= b,
                    a + 1 <= ra * b / rb,
            ;
        }
    }
}

/// The integer square root of a product of two 64-bit amounts fits in 64 bits.
pub proof fn lemma_geometric_mean_fits(amount_a: u64, amount_b: u64)
    ensures
        floor_sqrt(amount_a as nat * amount_b as nat) <= u64::MAX,
{
    let n = amount_a as nat * amount_b as nat;
    let r = floor_sqrt(n);
    lemma_floor_sqrt(n, r);
    lemma_product_fits(amount_a, amount_b);
    assert(r < 0x1_0000_0000_0000_0000) by (nonlinear_arith)
        requires
            r * r <= n,
            n < 0x1_0000_0000_0000_0000_0000_0000_0000_0000,
    ;
}

/// The pair of amounts that a deposit offering `amount_a` and `amount_b`
/// puts into `pool`, or `CalculationError` where the pool cannot price it.
pub fn ideal_amounts(pool: &Pool, amount_a: u64, amount_b: u64) -> (result: Result<
    (u64, u64),
    AppError,
>)
    ensures
        result is Ok <==> ratio_defined(pool@, amount_b as nat),
        result is Err ==> result == Err::<(u64, u64), AppError>(AppError::CalculationError),
        result matches Ok(amounts) ==> (amounts.0 as nat, amounts.1 as nat) == amounts_at_ratio(
            pool@,
            amount_a as nat,
            amount_b as nat,
        ),
{
    let (reserve_a, reserve_b) = pool.reserves();
    if reserve_a == 0 && reserve_b == 0 {
        return Ok((amount_a, amount_b));
    }
    let ideal_amount_a: u64 = mul_div_u64(reserve_a, amount_b, reserve_b)?;
    if amount_a >= ideal_amount_a {
        Ok((ideal_amount_a, amount_b))
    } else {
        proof {
            lemma_amounts_within_offer(pool@, amount_a as nat, amount_b as nat);
        }
        let ideal_amount_b: u64 = mul_div_u64(reserve_b, amount_a, reserve_a)?;
        Ok((amount_a, ideal_amount_b))
    }
}

/// The shares to mint for a deposit of `amount_a` and `amount_b`, or
/// `CalculationError` where they do not fit in 64 bits.
pub fn shares_to_mint(pool: &Pool, amount_a: u64, amount_b: u64) -> (result: Result<u64, AppError>)
    ensures
        result is Ok <==> shares_for(pool@, amount_a as nat, amount_b as nat) <= u64::MAX,
        result is Err ==> result == Err::<u64, AppError>(AppError::CalculationError),
        result matches Ok(shares) ==> shares == shares_for(
            pool@,
            amount_a as nat,
            amount_b as nat,
        ),
{
    let (reserve_a, _) = pool.reserves();
    let supply: u64 = pool.total_shares();
    if supply == 0 {
        proof {
            lemma_product_fits(amount_a, amount_b);
            lemma_geometric_mean_fits(amount_a, amount_b);
        }
        let product: u128 = (amount_a as u128) * (amount_b as u128);
        Ok(integer_sqrt(product))
    } else {
        mul_div_u64(reserve_a, amount_a, supply)
    }
}

/// The balances that a deposit reads and moves: the pool's, and the
/// depositor's accounts for asset A, asset B and liquidity shares.
#[derive(Clone, Copy, Debug, PartialEq, Eq, Structural)]
pub struct DepositLiquidity {
    pub pool: Pool,
    pub depositor_account_a: u64,
    pub depositor_account_b: u64,
    pub depositor_account_liquidity: u64,
}

impl View for DepositLiquidity {
    type V = ProviderState;

    open spec fn view(&self) -> ProviderState {
        ProviderState {
            pool: self.pool@,
            balance_a: self.depositor_account_a as nat,
            balance_b: self.depositor_account_b as nat,
            shares: self.depositor_account_liquidity as nat,
        }
    }
}

/// What a deposit moved: the two amounts taken from the depositor and the
/// shares credited to them.
#[derive(Clone, Copy, Debug, PartialEq, Eq, Structural)]
pub struct DepositReceipt {
    pub amount_a: u64,
    pub amount_b: u64,
    pub shares_minted: u64,
}

/// The pair of amounts that a deposit takes: the desired amounts, each
/// capped at what the depositor holds, brought to the pool's ratio.
pub open spec fn deposit_amounts(s: ProviderState, desired_a: nat, desired_b: nat) -> (nat, nat) {
    amounts_at_ratio(s.pool, at_most(desired_a, s.balance_a), at_most(desired_b, s.balance_b))
}

/// The shares that a deposit mints.
pub open spec fn deposit_shares(s: ProviderState, desired_a: nat, desired_b: nat) -> nat {
    let amounts = deposit_amounts(s, desired_a, desired_b);
    shares_for(s.pool, amounts.0, amounts.1)
}

/// The balances after a deposit went through.
pub open spec fn after_deposit(s: ProviderState, desired_a: nat, desired_b: nat) -> ProviderState {
    let amounts = deposit_amounts(s, desired_a, desired_b);
    let shares = deposit_shares(s, desired_a, desired_b);
    ProviderState {
        pool: s.pool.deposited(amounts.0, amounts.1).minted(shares),
        balance_a: (s.balance_a - amounts.0) as nat,
        balance_b: (s.balance_b - amounts.1) as nat,
        shares: s.shares + shares,
    }
}

/// Whether a deposit goes through: the pool can price the offer, and the
/// reserves, the share supply and the depositor's share balance all stay
/// within 64 bits.
pub open spec fn deposit_succeeds(s: ProviderState, desired_a: nat, desired_b: nat) -> bool {
    &&& ratio_defined(s.pool, at_most(desired_b, s.balance_b))
    &&& after_deposit(s, desired_a, desired_b).pool.fits()
    &&& after_deposit(s, desired_a, desired_b).shares <= u64::MAX
}

/// Deposits up to `amount_a_desired` and `amount_b_desired` into the pool and
/// mints shares for them.
///
/// Each desired amount is first capped at the depositor's balance. The pool
/// then takes the pair at its current ratio, leaving any excess with the
/// depositor, and credits the shares. On failure nothing has moved.
pub fn deposit_liquidity(
    ctx: &mut DepositLiquidity,
    amount_a_desired: u64,
    amount_b_desired: u64,
) -> (result: Result<DepositReceipt, AppError>)
    ensures
        result is Ok <==> deposit_succeeds(
            old(ctx)@,
            amount_a_desired as nat,
            amount_b_desired as nat,
        ),
        result is Err ==> result == Err::<DepositReceipt, AppError>(AppError::CalculationError),
        result is Err ==> *final(ctx) == *old(ctx),
        result matches Ok(receipt) ==> {
            &&& (receipt.amount_a as nat, receipt.amount_b as nat) == deposit_amounts(
                old(ctx)@,
                amount_a_desired as nat,
                amount_b_desired as nat,
            )
            &&& receipt.shares_minted == deposit_shares(
                old(ctx)@,
                amount_a_desired as nat,
                amount_b_desired as nat,
            )
            &&& final(ctx)@ == after_deposit(
                old(ctx)@,
                amount_a_desired as nat,
                amount_b_desired as nat,
            )
        },
{
    let offered_a: u64 = if amount_a_desired > ctx.depositor_account_a {
        ctx.depositor_account_a
    } else {
        amount_a_desired
    };
    let offered_b: u64 = if amount_b_desired > ctx.depositor_account_b {
        ctx.depositor_account_b
    } else {
        amount_b_desired
    };
    proof {
        ctx.pool.lemma_fits();
    }
    let (amount_a, amount_b) = ideal_amounts(&ctx.pool, offered_a, offered_b)?;
    proof {
        lemma_amounts_within_offer(ctx.pool@, offered_a as nat, offered_b as nat);
    }
    let shares_minted: u64 = shares_to_mint(&ctx.pool, amount_a, amount_b)?;
    let mut pool: Pool = ctx.pool;
    pool.apply_deposit(amount_a, amount_b)?;
    pool.mint_shares(shares_minted)?;
    let holding: u64 = match ctx.depositor_account_liquidity.checked_add(shares_minted) {
        Some(sum) => sum,
        None => { return Err(AppError::CalculationError); },
    };
    ctx.pool = pool;
    ctx.depositor_account_a = ctx.depositor_account_a - amount_a;
    ctx.depositor_account_b = ctx.depositor_account_b - amount_b;
    ctx.depositor_account_liquidity = holding;
    Ok(DepositReceipt { amount_a, amount_b, shares_minted })
}

} // verus!
