use vstd::prelude::*;

verus! {

/// Why an operation was refused. Every error is a terminal rejection of the
/// single requested operation: no state mutation has happened when one is
/// returned.
#[derive(Clone, Copy, PartialEq, Eq, Structural, Debug)]
pub enum PotError {
    /// The caller is not allowed to perform this action.
    Unauthorized,
    /// The maximum number of traders has been reached.
    MaxTradersReached,
    /// This trader is already on the list.
    TraderAlreadyExists,
    /// Trader not found in the list.
    TraderNotFound,
    /// Deposit value should be greater than 0.
    ZeroDeposit,
    /// Shares should be greater than 0.
    ZeroShares,
    /// Calculation overflowed.
    CalculationOverflow,
    /// Not enough shares to burn.
    InsufficientShares,
    /// A delegate is already set for this pot.
    DelegateAlreadySet,
    /// Amount must be greater than zero.
    ZeroAmount,
    /// Signer is not the current delegate.
    InvalidDelegate,
}

} // verus!
