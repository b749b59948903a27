//! The failure modes of the staking engine and of its collaborators.

use vstd::prelude::*;

verus! {

/// An error of the position registry collaborator.
#[derive(Debug, Clone, Copy, PartialEq, Eq, Structural)]
pub enum NftError {
    /// No position carries the given identifier.
    TokenNotFound,
    /// The account asking to burn a position does not own it.
    NotOwner,
    /// Increasing the position's weight would exceed the weight type's range.
    WeightOverflow,
    /// The position's weight is smaller than the amount to remove from it.
    WeightUnderflow,
}

/// An error of the fungible token collaborator. The verified core never
/// constructs one: the host reports it when the token ledger rejects a
/// transfer that an operation asked for.
#[derive(Debug, Clone, Copy, PartialEq, Eq, Structural)]
pub enum TokenError {
    /// The paying account holds less than the transfer amount.
    InsufficientBalance,
    /// The contract may spend less of the payer's balance than the amount.
    InsufficientAllowance,
}

/// What a staking operation reports when it refuses to change state.
#[derive(Debug, Clone, Copy, PartialEq, Eq, Structural)]
pub enum StakingError {
    /// A precondition failed: the clock ran backwards, an accumulator or a
    /// balance would leave its type's range, or no pending request exists.
    Invalid,
    /// The caller is not the owner of the unstake request.
    Unauthorized,
    /// Withdrawal was attempted before the cooling-off period elapsed.
    InvalidTimeWindow,
    /// The position registry collaborator refused its part of the operation.
    NFTError(NftError),
    /// The token collaborator refused a transfer; passed through by the host.
    TokenError(TokenError),
}

} // verus!
