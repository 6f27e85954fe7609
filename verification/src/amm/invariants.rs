//! What holds of the pool across operations: swaps never lower the product
//! of the reserves, shares redeemed right after they were minted return no
//! more than went in, and a deposit at the pool's ratio followed by its
//! withdrawal leaves the ratio where it was.

use crate::amm::instructions::deposit_liquidity::{
    after_deposit, amounts_at_ratio, at_most, deposit_amounts, deposit_shares, deposit_succeeds,
    shares_for,
};
use crate::amm::instructions::swap::{
    after_swap, fee_on, lemma_swap_keeps_product, swap_refusal,
};
use crate::amm::instructions::withdraw_liquidity::{after_withdraw, amounts_for, withdraw_refusal};
use crate::amm::state::{PoolState, ProviderState, TraderState};
use vstd::prelude::*;

verus! {

/// One trader's request to swap, with the balances they bring.
pub struct SwapOrder {
    pub balance_a: nat,
    pub balance_b: nat,
    pub swap_a: bool,
    pub input: nat,
    pub min_output: nat,
}

impl SwapOrder {
    /// The balances that the swap works on where the pool is `pool` and its
    /// fee is `fee`.
    pub open spec fn against(self, pool: PoolState, fee: nat) -> TraderState {
        TraderState { pool, fee, balance_a: self.balance_a, balance_b: self.balance_b }
    }

    /// Whether the swap goes through against `pool`.
    pub open spec fn goes_through(self, pool: PoolState, fee: nat) -> bool {
        swap_refusal(self.against(pool, fee), self.swap_a, self.input, self.min_output) is None
    }
}

/// The pool after `order` was tried against it: swapped where the swap goes
/// through, untouched where it is refused.
pub open spec fn pool_after_order(pool: PoolState, fee: nat, order: SwapOrder) -> PoolState {
    if order.goes_through(pool, fee) {
        after_swap(order.against(pool, fee), order.swap_a, order.input).pool
    } else {
        pool
    }
}

/// The pool after every order of `orders` was tried against it, in turn.
pub open spec fn pool_after_orders(pool: PoolState, fee: nat, orders: Seq<SwapOrder>) -> PoolState
    decreases orders.len(),
{
    if orders.len() == 0 {
        pool
    } else {
        pool_after_order(pool_after_orders(pool, fee, orders.drop_last()), fee, orders.last())
    }
}

/// No swap lowers the product of the reserves, whatever the fee. A swap
/// that goes through and collects a fee from a pool with both reserves
/// positive raises it.
pub proof fn lemma_order_keeps_product(pool: PoolState, fee: nat, order: SwapOrder)
    ensures
        pool.product() <= pool_after_order(pool, fee, order).product(),
        order.goes_through(pool, fee) && 0 < fee_on(order.input, fee) && 0 < pool.reserve_a && 0
            < pool.reserve_b ==> pool.product() < pool_after_order(pool, fee, order).product(),
{
    if order.goes_through(pool, fee) {
        lemma_swap_keeps_product(order.against(pool, fee), order.swap_a, order.input);
    }
}

/// Over any sequence of swaps, at any fee, the product of the reserves
/// after each swap is at least what it was before that swap, and so at
/// least what it was at the start.
pub proof fn lemma_swaps_never_lower_product(pool: PoolState, fee: nat, orders: Seq<SwapOrder>)
    ensures
        pool.product() <= pool_after_orders(pool, fee, orders).product(),
        forall|i: int|
            0 <= i < orders.len() ==> pool_after_orders(pool, fee, orders.take(i)).product()
                <= #[trigger] pool_after_orders(pool, fee, orders.take(i + 1)).product(),
    decreases orders.len(),
{
    if orders.len() > 0 {
        let front = orders.drop_last();
        lemma_swaps_never_lower_product(pool, fee, front);
        lemma_order_keeps_product(pool_after_orders(pool, fee, front), fee, orders.last());
        assert forall|i: int| 0 <= i < orders.len() implies pool_after_orders(
            pool,
            fee,
            orders.take(i),
        ).product() <= #[trigger] pool_after_orders(pool, fee, orders.take(i + 1)).product() by {
            if i + 1 < orders.len() {
                assert(orders.take(i) == front.take(i));
                assert(orders.take(i + 1) == front.take(i + 1));
            } else {
                assert(orders.take(i) == front);
                assert(orders.take(i + 1) == orders);
            }
        }
    }
}

/// The shares stand for no more of the supply than `amount_a` is of
/// reserve A: `shares / total_shares <= amount_a / reserve_a`, multiplied
/// out.
pub open spec fn minted_in_proportion(pool: PoolState, amount_a: nat, shares: nat) -> bool {
    shares * pool.reserve_a <= amount_a * pool.total_shares
}

/// The arithmetic behind redeeming fresh shares: where `shares` stand for no
/// more of the supply than `amount_a` is of reserve A, and `amount_a` and
/// `amount_b` stand in the reserves' ratio up to rounding, the shares are
/// worth at most `amount_a` and `amount_b` of the grown reserves.
proof fn lemma_fresh_shares_worth(
    reserve_a: int,
    reserve_b: int,
    supply: int,
    amount_a: int,
    amount_b: int,
    shares: int,
)
    requires
        0 < reserve_a,
        0 <= reserve_b,
        0 < supply,
        0 <= amount_a,
        0 <= amount_b,
        0 < shares,
        shares * reserve_a <= amount_a * supply,
        reserve_b * amount_a < (amount_b + 1) * reserve_a,
    ensures
        (reserve_a + amount_a) * shares / (supply + shares) <= amount_a,
        (reserve_b + amount_b) * shares / (supply + shares) <= amount_b,
{
    assert((reserve_a + amount_a) * shares <= amount_a * (supply + shares)) by (nonlinear_arith)
        requires
            shares * reserve_a <= amount_a * supply,
    ;
    assert((reserve_a + amount_a) * shares / (supply + shares) <= amount_a) by (nonlinear_arith)
        requires
            0 < supply + shares,
            (reserve_a + amount_a) * shares <= amount_a * (supply + shares),
    ;
    // reserve_b * shares stays below (amount_b + 1) * supply
    assert(reserve_a * (reserve_b * shares) <= supply * (reserve_b * amount_a))
        by (nonlinear_arith)
        requires
            0 <= reserve_b,
            shares * reserve_a <= amount_a * supply,
    ;
    assert(supply * (reserve_b * amount_a) < supply * ((amount_b + 1) * reserve_a))
        by (nonlinear_arith)
        requires
            0 < supply,
            reserve_b * amount_a < (amount_b + 1) * reserve_a,
    ;
    assert(supply * ((amount_b + 1) * reserve_a) == reserve_a * ((amount_b + 1) * supply))
        by (nonlinear_arith);
    assert(reserve_b * shares < (amount_b + 1) * supply) by (nonlinear_arith)
        requires
            0 < reserve_a,
            reserve_a * (reserve_b * shares) < reserve_a * ((amount_b + 1) * supply),
    ;
    assert((reserve_b + amount_b) * shares < (amount_b + 1) * (supply + shares))
        by (nonlinear_arith)
        requires
            reserve_b * shares < (amount_b + 1) * supply,
            0 < shares,
            0 <= amount_b,
    ;
    assert((reserve_b + amount_b) * shares / (supply + shares) <= amount_b) by (nonlinear_arith)
        requires
            0 < supply + shares,
            0 <= (reserve_b + amount_b) * shares,
            (reserve_b + amount_b) * shares < (amount_b + 1) * (supply + shares),
    ;
}

/// The amounts that a deposit takes stand in the reserves' ratio, up to the
/// rounding of the one that was computed.
proof fn lemma_amounts_keep_ratio(pool: PoolState, amount_a: nat, amount_b: nat)
    requires
        !pool.is_empty(),
        0 < pool.reserve_a,
        0 < pool.reserve_b,
    ensures
        pool.reserve_b * amounts_at_ratio(pool, amount_a, amount_b).0 < (amounts_at_ratio(
            pool,
            amount_a,
            amount_b,
        ).1 + 1) * pool.reserve_a,
{
    let ra = pool.reserve_a as int;
    let rb = pool.reserve_b as int;
    let a = amount_a as int;
    let b = amount_b as int;
    let ideal_a = ra * b / rb;
    if a >= ideal_a {
        assert(rb * ideal_a < (b + 1) * ra) by (nonlinear_arith)
            requires
                0 < ra,
                0 < rb,
                0 <= b,
                ideal_a == ra * b / rb,
        ;
    } else {
        let ideal_b = rb * a / ra;
        assert(rb * a < (ideal_b + 1) * ra) by (nonlinear_arith)
            requires
                0 < ra,
                0 <= rb * a,
                ideal_b == rb * a / ra,
        ;
    }
}

/// In a pool whose reserve A does not exceed its share supply, a deposit
/// mints shares in proportion: they stand for no more of the supply than
/// the amount of asset A that was put in is of reserve A.
pub proof fn lemma_minted_in_proportion(pool: PoolState, amount_a: nat, amount_b: nat)
    requires
        0 < pool.total_shares,
        pool.reserve_a <= pool.total_shares,
    ensures
        minted_in_proportion(pool, amount_a, shares_for(pool, amount_a, amount_b)),
{
    let ra = pool.reserve_a as int;
    let supply = pool.total_shares as int;
    let a = amount_a as int;
    let shares = ra * a / supply;
    assert(shares * supply <= ra * a) by (nonlinear_arith)
        requires
            0 < supply,
            0 <= ra * a,
            shares == ra * a / supply,
    ;
    assert(shares * ra <= a * supply) by (nonlinear_arith)
        requires
            0 <= ra <= supply,
            0 <= a,
            0 <= shares,
            shares * supply <= ra * a,
    ;
}

/// Shares redeemed right after the deposit that minted them return no more
/// of either asset than the deposit took.
///
/// This holds of a pool that is empty while it has no shares, and of a
/// deposit whose shares were minted in proportion, as they are wherever
/// reserve A does not exceed the share supply. Shares minted beyond that
/// stand for more of the pool than was put in, and redeem for more.
pub proof fn lemma_withdraw_after_deposit(s: ProviderState, desired_a: nat, desired_b: nat)
    requires
        s.pool.total_shares == 0 ==> s.pool.is_empty(),
        minted_in_proportion(
            s.pool,
            deposit_amounts(s, desired_a, desired_b).0,
            deposit_shares(s, desired_a, desired_b),
        ),
        deposit_succeeds(s, desired_a, desired_b),
        withdraw_refusal(
            after_deposit(s, desired_a, desired_b),
            deposit_shares(s, desired_a, desired_b),
        ) is None,
    ensures
        amounts_for(
            after_deposit(s, desired_a, desired_b).pool,
            deposit_shares(s, desired_a, desired_b),
        ).0 <= deposit_amounts(s, desired_a, desired_b).0,
        amounts_for(
            after_deposit(s, desired_a, desired_b).pool,
            deposit_shares(s, desired_a, desired_b),
        ).1 <= deposit_amounts(s, desired_a, desired_b).1,
{
    let offered_a = at_most(desired_a, s.balance_a);
    let offered_b = at_most(desired_b, s.balance_b);
    let amounts = deposit_amounts(s, desired_a, desired_b);
    let shares = deposit_shares(s, desired_a, desired_b);
    let supply = s.pool.total_shares;
    assert(0 < shares);
    if supply == 0 {
        assert(amounts.0 * shares / shares == amounts.0 && amounts.1 * shares / shares
            == amounts.1) by (nonlinear_arith)
            requires
                0 < shares,
        ;
    } else {
        assert(0 < s.pool.reserve_a) by {
            if s.pool.reserve_a == 0 {
                assert(0 * amounts.0 / supply == 0) by (nonlinear_arith)
                    requires
                        0 < supply,
                ;
            }
        }
        assert(0 < s.pool.reserve_b);
        lemma_amounts_keep_ratio(s.pool, offered_a, offered_b);
        lemma_fresh_shares_worth(
            s.pool.reserve_a as int,
            s.pool.reserve_b as int,
            supply as int,
            amounts.0 as int,
            amounts.1 as int,
            shares as int,
        );
    }
}

/// The reserves of `other` stand in the ratio of the reserves of `pool`, up
/// to one unit: with one unit less of asset A the ratio of A to B in `other`
/// is below that in `pool`, and with one unit less of asset B it is above.
pub open spec fn same_ratio_within_one(pool: PoolState, other: PoolState) -> bool {
    &&& (other.reserve_a - 1) * pool.reserve_b < other.reserve_b * pool.reserve_a
    &&& (other.reserve_b - 1) * pool.reserve_a < other.reserve_a * pool.reserve_b
}

/// Equal parts, rounded down, of two amounts that stand in the ratio of
/// `ra` to `rb` stand in that ratio too, up to one unit.
proof fn lemma_parts_keep_ratio(x: int, y: int, ra: int, rb: int, shares: int, supply: int)
    requires
        0 <= x,
        0 <= y,
        0 < ra,
        0 < rb,
        0 <= shares,
        0 < supply,
        x * rb == y * ra,
    ensures
        (y * shares / supply) * ra < (x * shares / supply + 1) * rb,
        (x * shares / supply) * rb < (y * shares / supply + 1) * ra,
{
    let px = x * shares / supply;
    let py = y * shares / supply;
    assert(supply * px <= x * shares && x * shares < supply * (px + 1)) by (nonlinear_arith)
        requires
            0 < supply,
            0 <= x * shares,
            px == x * shares / supply,
    ;
    assert(supply * py <= y * shares && y * shares < supply * (py + 1)) by (nonlinear_arith)
        requires
            0 < supply,
            0 <= y * shares,
            py == y * shares / supply,
    ;
    assert((x * shares) * rb == (y * shares) * ra) by (nonlinear_arith)
        requires
            x * rb == y * ra,
    ;
    assert(supply * (py * ra) <= (y * shares) * ra) by (nonlinear_arith)
        requires
            0 < ra,
            supply * py <= y * shares,
    ;
    assert((x * shares) * rb < supply * ((px + 1) * rb)) by (nonlinear_arith)
        requires
            0 < rb,
            x * shares < supply * (px + 1),
    ;
    assert(py * ra < (px + 1) * rb) by (nonlinear_arith)
        requires
            0 < supply,
            supply * (py * ra) < supply * ((px + 1) * rb),
    ;
    assert(supply * (px * rb) <= (x * shares) * rb) by (nonlinear_arith)
        requires
            0 < rb,
            supply * px <= x * shares,
    ;
    assert((y * shares) * ra < supply * ((py + 1) * ra)) by (nonlinear_arith)
        requires
            0 < ra,
            y * shares < supply * (py + 1),
    ;
    assert(px * rb < (py + 1) * ra) by (nonlinear_arith)
        requires
            0 < supply,
            supply * (px * rb) < supply * ((py + 1) * ra),
    ;
}

/// A deposit offered exactly at the pool's ratio is taken whole and leaves
/// the ratio exactly where it was. Withdrawing the shares it minted then
/// leaves the reserves in that ratio up to one unit.
pub proof fn lemma_round_trip_keeps_ratio(s: ProviderState, desired_a: nat, desired_b: nat)
    requires
        0 < s.pool.reserve_a,
        0 < s.pool.reserve_b,
        at_most(desired_a, s.balance_a) * s.pool.reserve_b == at_most(desired_b, s.balance_b)
            * s.pool.reserve_a,
        deposit_succeeds(s, desired_a, desired_b),
        withdraw_refusal(
            after_deposit(s, desired_a, desired_b),
            deposit_shares(s, desired_a, desired_b),
        ) is None,
    ensures
        deposit_amounts(s, desired_a, desired_b) == (
            at_most(desired_a, s.balance_a),
            at_most(desired_b, s.balance_b),
        ),
        after_deposit(s, desired_a, desired_b).pool.reserve_a * s.pool.reserve_b == after_deposit(
            s,
            desired_a,
            desired_b,
        ).pool.reserve_b * s.pool.reserve_a,
        same_ratio_within_one(
            s.pool,
            after_withdraw(
                after_deposit(s, desired_a, desired_b),
                deposit_shares(s, desired_a, desired_b),
            ).pool,
        ),
{
    let ra = s.pool.reserve_a as int;
    let rb = s.pool.reserve_b as int;
    let a = at_most(desired_a, s.balance_a) as int;
    let b = at_most(desired_b, s.balance_b) as int;
    assert(ra * b / rb == a) by (nonlinear_arith)
        requires
            0 < rb,
            a * rb == b * ra,
    ;
    let grown = after_deposit(s, desired_a, desired_b);
    let shares = deposit_shares(s, desired_a, desired_b);
    let x = grown.pool.reserve_a as int;
    let y = grown.pool.reserve_b as int;
    assert(x == ra + a && y == rb + b);
    assert(x * rb == y * ra) by (nonlinear_arith)
        requires
            x == ra + a,
            y == rb + b,
            a * rb == b * ra,
    ;
    lemma_parts_keep_ratio(x, y, ra, rb, shares as int, grown.pool.total_shares as int);
    let part_a = x * shares / (grown.pool.total_shares as int);
    let part_b = y * shares / (grown.pool.total_shares as int);
    let rest = after_withdraw(grown, shares).pool;
    assert(rest.reserve_a == x - part_a && rest.reserve_b == y - part_b);
    assert((x - part_a - 1) * rb < (y - part_b) * ra && (y - part_b - 1) * ra < (x - part_a) * rb)
        by (nonlinear_arith)
        requires
            x * rb == y * ra,
            part_b * ra < (part_a + 1) * rb,
            part_a * rb < (part_b + 1) * ra,
    ;
}

} // verus!
