use crate::amm::errors::AppError;
use vstd::prelude::*;

verus! {

/// The mathematical state of a pool: how much of each asset it holds and how
/// many liquidity shares are outstanding.
pub struct PoolState {
    pub reserve_a: nat,
    pub reserve_b: nat,
    pub total_shares: nat,
}

impl PoolState {
    /// Both reserves are zero.
    pub open spec fn is_empty(self) -> bool {
        self.reserve_a == 0 && self.reserve_b == 0
    }

    /// The product of the two reserves, which swaps never decrease.
    pub open spec fn product(self) -> nat {
        self.reserve_a * self.reserve_b
    }

    /// Every balance fits in 64 bits.
    pub open spec fn fits(self) -> bool {
        self.reserve_a <= u64::MAX && self.reserve_b <= u64::MAX && self.total_shares <= u64::MAX
    }

    /// The pool after `delta_a` and `delta_b` came in.
    pub open spec fn deposited(self, delta_a: nat, delta_b: nat) -> PoolState {
        PoolState {
            reserve_a: self.reserve_a + delta_a,
            reserve_b: self.reserve_b + delta_b,
            total_shares: self.total_shares,
        }
    }

    /// The pool after `delta_a` and `delta_b` went out.
    pub open spec fn withdrawn(self, delta_a: nat, delta_b: nat) -> PoolState
        recommends
            delta_a <= self.reserve_a,
            delta_b <= self.reserve_b,
    {
        PoolState {
            reserve_a: (self.reserve_a - delta_a) as nat,
            reserve_b: (self.reserve_b - delta_b) as nat,
            total_shares: self.total_shares,
        }
    }

    /// The pool after `shares` were minted.
    pub open spec fn minted(self, shares: nat) -> PoolState {
        PoolState {
            reserve_a: self.reserve_a,
            reserve_b: self.reserve_b,
            total_shares: self.total_shares + shares,
        }
    }

    /// The pool after `shares` were burned.
    pub open spec fn burned(self, shares: nat) -> PoolState
        recommends
            shares <= self.total_shares,
    {
        PoolState {
            reserve_a: self.reserve_a,
            reserve_b: self.reserve_b,
            total_shares: (self.total_shares - shares) as nat,
        }
    }
}

/// A pool together with the balances of one liquidity provider: what a
/// deposit or a withdrawal can touch.
pub struct ProviderState {
    pub pool: PoolState,
    /// The provider's balance of asset A.
    pub balance_a: nat,
    /// The provider's balance of asset B.
    pub balance_b: nat,
    /// The provider's balance of liquidity shares.
    pub shares: nat,
}

/// A pool together with its fee and the balances of one trader: what a swap
/// can touch.
pub struct TraderState {
    pub pool: PoolState,
    /// Swap fee in basis points of the input.
    pub fee: nat,
    /// The trader's balance of asset A.
    pub balance_a: nat,
    /// The trader's balance of asset B.
    pub balance_b: nat,
}

/// The fee schedule that the pools of one exchange share.
#[derive(Clone, Copy, Debug, PartialEq, Eq, Structural)]
pub struct Amm {
    /// Swap fee in basis points (hundredths of a percent) of the input.
    pub fee: u16,
}

/// A pool's recorded balances: the two reserves and the share supply.
///
/// The record does no pricing of its own. Deposits, withdrawals and swaps
/// decide the amounts and then book them here.
#[derive(Clone, Copy, Debug, PartialEq, Eq, Structural)]
pub struct Pool {
    reserve_a: u64,
    reserve_b: u64,
    total_shares: u64,
}

impl View for Pool {
    type V = PoolState;

    closed spec fn view(&self) -> PoolState {
        PoolState {
            reserve_a: self.reserve_a as nat,
            reserve_b: self.reserve_b as nat,
            total_shares: self.total_shares as nat,
        }
    }
}

impl Pool {
    /// A pool with the balances read from the ledger.
    pub fn new(reserve_a: u64, reserve_b: u64, total_shares: u64) -> (pool: Pool)
        ensures
            pool@ == (PoolState {
                reserve_a: reserve_a as nat,
                reserve_b: reserve_b as nat,
                total_shares: total_shares as nat,
            }),
    {
        Pool { reserve_a, reserve_b, total_shares }
    }

    /// A pool that holds nothing and has issued no shares.
    pub fn empty() -> (pool: Pool)
        ensures
            pool@ == (PoolState { reserve_a: 0, reserve_b: 0, total_shares: 0 }),
    {
        Pool { reserve_a: 0, reserve_b: 0, total_shares: 0 }
    }

    /// The balances of a pool fit in 64 bits each.
    pub proof fn lemma_fits(self)
        ensures
            self@.fits(),
    {
    }

    /// The two reserves, asset A first.
    pub fn reserves(&self) -> (reserves: (u64, u64))
        ensures
            reserves.0 == self@.reserve_a,
            reserves.1 == self@.reserve_b,
    {
        (self.reserve_a, self.reserve_b)
    }

    /// The number of shares outstanding.
    pub fn total_shares(&self) -> (shares: u64)
        ensures
            shares == self@.total_shares,
    {
        self.total_shares
    }

    /// Adds `delta_a` and `delta_b` to the reserves, unless either sum would
    /// leave 64 bits.
    pub fn apply_deposit(&mut self, delta_a: u64, delta_b: u64) -> (result: Result<(), AppError>)
        ensures
            result is Ok <==> old(self)@.deposited(delta_a as nat, delta_b as nat).fits(),
            result is Ok ==> final(self)@ == old(self)@.deposited(delta_a as nat, delta_b as nat),
            result is Err ==> result == Err::<(), AppError>(AppError::CalculationError),
            result is Err ==> *final(self) == *old(self),
    {
        let reserve_a: u64 = match self.reserve_a.checked_add(delta_a) {
            Some(sum) => sum,
            None => { return Err(AppError::CalculationError); },
        };
        let reserve_b: u64 = match self.reserve_b.checked_add(delta_b) {
            Some(sum) => sum,
            None => { return Err(AppError::CalculationError); },
        };
        self.reserve_a = reserve_a;
        self.reserve_b = reserve_b;
        Ok(())
    }

    /// Takes `delta_a` and `delta_b` out of the reserves, unless either
    /// exceeds what is there.
    pub fn apply_withdraw(&mut self, delta_a: u64, delta_b: u64) -> (result: Result<(), AppError>)
        ensures
            result is Ok <==> delta_a <= old(self)@.reserve_a && delta_b <= old(self)@.reserve_b,
            result is Ok ==> final(self)@ == old(self)@.withdrawn(delta_a as nat, delta_b as nat),
            result is Err ==> result == Err::<(), AppError>(AppError::CalculationError),
            result is Err ==> *final(self) == *old(self),
    {
        let reserve_a: u64 = match self.reserve_a.checked_sub(delta_a) {
            Some(rest) => rest,
            None => { return Err(AppError::CalculationError); },
        };
        let reserve_b: u64 = match self.reserve_b.checked_sub(delta_b) {
            Some(rest) => rest,
            None => { return Err(AppError::CalculationError); },
        };
        self.reserve_a = reserve_a;
        self.reserve_b = reserve_b;
        Ok(())
    }

    /// Raises the share supply by `shares`, unless the sum would leave 64
    /// bits.
    pub fn mint_shares(&mut self, shares: u64) -> (result: Result<(), AppError>)
        ensures
            result is Ok <==> old(self)@.total_shares + shares <= u64::MAX,
            result is Ok ==> final(self)@ == old(self)@.minted(shares as nat),
            result is Err ==> result == Err::<(), AppError>(AppError::CalculationError),
            result is Err ==> *final(self) == *old(self),
    {
        match self.total_shares.checked_add(shares) {
            Some(supply) => {
                self.total_shares = supply;
                Ok(())
            },
            None => Err(AppError::CalculationError),
        }
    }

    /// Lowers the share supply by `shares`, unless more are named than exist.
    pub fn burn_shares(&mut self, shares: u64) -> (result: Result<(), AppError>)
        ensures
            result is Ok <==> shares <= old(self)@.total_shares,
            result is Ok ==> final(self)@ == old(self)@.burned(shares as nat),
            result is Err ==> result == Err::<(), AppError>(AppError::CalculationError),
            result is Err ==> *final(self) == *old(self),
    {
        match self.total_shares.checked_sub(shares) {
            Some(supply) => {
                self.total_shares = supply;
                Ok(())
            },
            None => Err(AppError::CalculationError),
        }
    }
}

} // verus!
