use crate::amm::errors::AppError;
use crate::amm::state::{Amm, Pool, PoolState, TraderState};
use crate::amm::utils::mul_div_u64;
use vstd::prelude::*;

verus! {

/// Basis points in a whole.
pub const FEE_DENOMINATOR: u64 = 10_000;

/// The fee on `input` at `fee` basis points, rounded down.
pub open spec fn fee_on(input: nat, fee: nat) -> nat {
    input * fee / 10_000
}

/// What is left of `input` after the fee.
pub open spec fn net_of_fee(input: nat, fee: nat) -> nat
    recommends
        fee_on(input, fee) <= input,
{
    (input - fee_on(input, fee)) as nat
}

/// The constant-product payout: what leaves `reserve_out` when `net_input`
/// joins `reserve_in`, so that the product of the two does not fall.
pub open spec fn payout(reserve_in: nat, reserve_out: nat, net_input: nat) -> nat {
    reserve_out * net_input / (reserve_in + net_input)
}

/// The output that `input` buys at reserves `reserve_in` and `reserve_out`
/// and a fee of `fee` basis points.
pub open spec fn output_for(reserve_in: nat, reserve_out: nat, fee: nat, input: nat) -> nat {
    payout(reserve_in, reserve_out, net_of_fee(input, fee))
}

/// Whether an output can be computed: the fee product and the grown input
/// reserve stay within 64 bits, the fee does not exceed the input, and there
/// is something to divide by.
pub open spec fn output_defined(reserve_in: nat, fee: nat, input: nat) -> bool {
    &&& input * fee <= u64::MAX
    &&& fee_on(input, fee) <= input
    &&& 0 < reserve_in + net_of_fee(input, fee) <= u64::MAX
}

/// The payout never exceeds the reserve it is taken from, and leaves some of
/// it where the input reserve was not empty.
pub proof fn lemma_payout_within_reserve(reserve_in: nat, reserve_out: nat, net_input: nat)
    requires
        0 < reserve_in + net_input,
    ensures
        payout(reserve_in, reserve_out, net_input) <= reserve_out,
        0 < reserve_in && 0 < reserve_out ==> payout(reserve_in, reserve_out, net_input)
            < reserve_out,
{
    let x = reserve_in as int;
    let y = reserve_out as int;
    let d = net_input as int;
    assert(y * d / (x + d) <= y && (0 < x && 0 < y ==> y * d / (x + d) < y)) by (nonlinear_arith)
        requires
            0 <= x,
            0 <= y,
            0 <= d,
            0 < x + d,
    ;
}

/// After a payout the product of the reserves is at least what it was, even
/// counting only the net input.
pub proof fn lemma_payout_keeps_product(reserve_in: nat, reserve_out: nat, net_input: nat)
    requires
        0 < reserve_in + net_input,
    ensures
        reserve_in * reserve_out <= (reserve_in + net_input) * (reserve_out - payout(
            reserve_in,
            reserve_out,
            net_input,
        )),
{
    let x = reserve_in as int;
    let y = reserve_out as int;
    let d = net_input as int;
    let out = y * d / (x + d);
    assert(out * (x + d) <= y * d) by (nonlinear_arith)
        requires
            0 <= y * d,
            0 < x + d,
            out == y * d / (x + d),
    ;
    assert(x * y <= (x + d) * (y - out)) by (nonlinear_arith)
        requires
            out * (x + d) <= y * d,
    ;
}

/// The output that `input_amount` buys, after the fee, from a pool with
/// `reserve_in` of the asset paid in and `reserve_out` of the asset paid out.
pub fn swap_output(reserve_in: u64, reserve_out: u64, fee: u16, input_amount: u64) -> (result:
    Result<u64, AppError>)
    ensures
        result is Ok <==> output_defined(reserve_in as nat, fee as nat, input_amount as nat),
        result is Err ==> result == Err::<u64, AppError>(AppError::CalculationError),
        result matches Ok(output) ==> output == output_for(
            reserve_in as nat,
            reserve_out as nat,
            fee as nat,
            input_amount as nat,
        ),
{
    let fee_product: u64 = match input_amount.checked_mul(fee as u64) {
        Some(product) => product,
        None => { return Err(AppError::CalculationError); },
    };
    let fee_amount: u64 = fee_product / FEE_DENOMINATOR;
    let net_input: u64 = match input_amount.checked_sub(fee_amount) {
        Some(rest) => rest,
        None => { return Err(AppError::CalculationError); },
    };
    let grown_reserve: u64 = match reserve_in.checked_add(net_input) {
        Some(sum) => sum,
        None => { return Err(AppError::CalculationError); },
    };
    if grown_reserve == 0 {
        return Err(AppError::CalculationError);
    }
    proof {
        lemma_payout_within_reserve(reserve_in as nat, reserve_out as nat, net_input as nat);
    }
    mul_div_u64(reserve_out, net_input, grown_reserve)
}

/// The balances that a swap reads and moves: the fee schedule, the pool's
/// reserves, and the trader's accounts for asset A and asset B.
#[derive(Clone, Copy, Debug, PartialEq, Eq, Structural)]
pub struct Swap {
    pub amm: Amm,
    pub pool: Pool,
    pub user_account_a: u64,
    pub user_account_b: u64,
}

impl View for Swap {
    type V = TraderState;

    open spec fn view(&self) -> TraderState {
        TraderState {
            pool: self.pool@,
            fee: self.amm.fee as nat,
            balance_a: self.user_account_a as nat,
            balance_b: self.user_account_b as nat,
        }
    }
}

impl TraderState {
    /// The reserve of the asset that the trader pays in.
    pub open spec fn reserve_in(self, swap_a: bool) -> nat {
        if swap_a {
            self.pool.reserve_a
        } else {
            self.pool.reserve_b
        }
    }

    /// The reserve of the asset that the trader is paid in.
    pub open spec fn reserve_out(self, swap_a: bool) -> nat {
        if swap_a {
            self.pool.reserve_b
        } else {
            self.pool.reserve_a
        }
    }

    /// The trader's balance of the asset that they pay in.
    pub open spec fn balance_in(self, swap_a: bool) -> nat {
        if swap_a {
            self.balance_a
        } else {
            self.balance_b
        }
    }

    /// The trader's balance of the asset that they are paid in.
    pub open spec fn balance_out(self, swap_a: bool) -> nat {
        if swap_a {
            self.balance_b
        } else {
            self.balance_a
        }
    }

    /// The output that a swap of `input` pays.
    pub open spec fn output(self, swap_a: bool, input: nat) -> nat {
        output_for(self.reserve_in(swap_a), self.reserve_out(swap_a), self.fee, input)
    }
}

/// The balances after a swap of `input` went through. The whole input joins
/// the input reserve, fee included; the output leaves the other reserve.
pub open spec fn after_swap(s: TraderState, swap_a: bool, input: nat) -> TraderState {
    let output = s.output(swap_a, input);
    if swap_a {
        TraderState {
            pool: s.pool.deposited(input, 0).withdrawn(0, output),
            fee: s.fee,
            balance_a: (s.balance_a - input) as nat,
            balance_b: s.balance_b + output,
        }
    } else {
        TraderState {
            pool: s.pool.deposited(0, input).withdrawn(output, 0),
            fee: s.fee,
            balance_a: s.balance_a + output,
            balance_b: (s.balance_b - input) as nat,
        }
    }
}

/// Why a swap is refused, if it is.
///
/// The output must be computable: `CalculationError` otherwise. It must
/// reach `min_output`: `OutputTooSmall` otherwise. The trader must hold the
/// input: `InsufficientBalance` otherwise. And the input reserve and the
/// trader's balance of the other asset must have room for what comes in:
/// `CalculationError` otherwise.
pub open spec fn swap_refusal(s: TraderState, swap_a: bool, input: nat, min_output: nat) -> Option<
    AppError,
> {
    if !output_defined(s.reserve_in(swap_a), s.fee, input) {
        Some(AppError::CalculationError)
    } else if s.output(swap_a, input) < min_output {
        Some(AppError::OutputTooSmall)
    } else if s.balance_in(swap_a) < input {
        Some(AppError::InsufficientBalance)
    } else if s.reserve_in(swap_a) + input > u64::MAX {
        Some(AppError::CalculationError)
    } else if s.balance_out(swap_a) + s.output(swap_a, input) > u64::MAX {
        Some(AppError::CalculationError)
    } else {
        None
    }
}

/// A swap that goes through leaves the product of the reserves at least as
/// large as it was. Where a fee was collected and both reserves held
/// something, the product has grown.
pub proof fn lemma_swap_keeps_product(s: TraderState, swap_a: bool, input: nat)
    requires
        output_defined(s.reserve_in(swap_a), s.fee, input),
    ensures
        s.pool.product() <= after_swap(s, swap_a, input).pool.product(),
        0 < fee_on(input, s.fee) && 0 < s.pool.reserve_a && 0 < s.pool.reserve_b
            ==> s.pool.product() < after_swap(s, swap_a, input).pool.product(),
{
    let x = s.reserve_in(swap_a);
    let y = s.reserve_out(swap_a);
    let net = net_of_fee(input, s.fee);
    let fee = fee_on(input, s.fee);
    let out = payout(x, y, net);
    lemma_payout_within_reserve(x, y, net);
    lemma_payout_keeps_product(x, y, net);
    let rest = (y - out) as nat;
    assert((x + input) * rest == (x + net) * rest + fee * rest) by (nonlinear_arith)
        requires
            input == net + fee,
    ;
    assert(0 <= fee * rest && (0 < fee && 0 < rest ==> 0 < fee * rest)) by (nonlinear_arith);
    assert(x * y == y * x && (x + input) * rest == rest * (x + input)) by (nonlinear_arith);
}

/// Trades `input_amount` of one asset for the other: asset A for asset B
/// where `swap_a` holds, asset B for asset A where it does not.
///
/// The fee is taken off the input, rounded down, and stays in the pool. The
/// rest buys the constant-product payout, rounded down. The swap is refused
/// where the output falls short of `min_output_amount`. On failure nothing
/// has moved.
pub fn swap(ctx: &mut Swap, swap_a: bool, input_amount: u64, min_output_amount: u64) -> (result:
    Result<u64, AppError>)
    ensures
        result is Ok <==> swap_refusal(
            old(ctx)@,
            swap_a,
            input_amount as nat,
            min_output_amount as nat,
        ) is None,
        result matches Err(e) ==> swap_refusal(
            old(ctx)@,
            swap_a,
            input_amount as nat,
            min_output_amount as nat,
        ) == Some(e),
        result is Err ==> *final(ctx) == *old(ctx),
        result matches Ok(output) ==> {
            &&& output == old(ctx)@.output(swap_a, input_amount as nat)
            &&& output >= min_output_amount
            &&& final(ctx)@ == after_swap(old(ctx)@, swap_a, input_amount as nat)
            &&& final(ctx)@.pool.product() >= old(ctx)@.pool.product()
        },
{
    let (reserve_a, reserve_b) = ctx.pool.reserves();
    let (reserve_in, reserve_out): (u64, u64) = if swap_a {
        (reserve_a, reserve_b)
    } else {
        (reserve_b, reserve_a)
    };
    let (user_in, user_out): (u64, u64) = if swap_a {
        (ctx.user_account_a, ctx.user_account_b)
    } else {
        (ctx.user_account_b, ctx.user_account_a)
    };
    let output_amount: u64 = swap_output(reserve_in, reserve_out, ctx.amm.fee, input_amount)?;
    if output_amount < min_output_amount {
        return Err(AppError::OutputTooSmall);
    }
    let user_in_after: u64 = match user_in.checked_sub(input_amount) {
        Some(rest) => rest,
        None => { return Err(AppError::InsufficientBalance); },
    };
    proof {
        lemma_payout_within_reserve(
            reserve_in as nat,
            reserve_out as nat,
            net_of_fee(input_amount as nat, ctx.amm.fee as nat),
        );
        lemma_swap_keeps_product(ctx@, swap_a, input_amount as nat);
        ctx.pool.lemma_fits();
    }
    let mut pool: Pool = ctx.pool;
    if swap_a {
        pool.apply_deposit(input_amount, 0)?;
        pool.apply_withdraw(0, output_amount)?;
    } else {
        pool.apply_deposit(0, input_amount)?;
        pool.apply_withdraw(output_amount, 0)?;
    }
    let user_out_after: u64 = match user_out.checked_add(output_amount) {
        Some(sum) => sum,
        None => { return Err(AppError::CalculationError); },
    };
    ctx.pool = pool;
    if swap_a {
        ctx.user_account_a = user_in_after;
        ctx.user_account_b = user_out_after;
    } else {
        ctx.user_account_b = user_in_after;
        ctx.user_account_a = user_out_after;
    }
    Ok(output_amount)
}

} // verus!
