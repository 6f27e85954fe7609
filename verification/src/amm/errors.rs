use vstd::prelude::*;

verus! {

/// Why a pool operation was refused. A refused operation changes nothing.
#[derive(Clone, Copy, Debug, PartialEq, Eq, Structural)]
pub enum AppError {
    /// An intermediate or final amount does not fit in 64 bits, a division
    /// had a zero divisor, or the share supply or a reserve is inconsistent
    /// with the request.
    CalculationError,
    /// A swap would pay out less than the minimum the trader asked for.
    OutputTooSmall,
    /// The caller tried to move more than they hold.
    InsufficientBalance,
    /// A withdrawal named zero shares.
    DepositTooSmall,
}

} // verus!
