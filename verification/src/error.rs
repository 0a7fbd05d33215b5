use vstd::prelude::*;

verus! {

/// Every way an operation on the [`crate::state::Dao`] can fail.
///
/// A failed operation never mutates the state: each operation's `ensures`
/// says that on `Err` the state equals the old one.
#[derive(Debug, Clone, Copy, PartialEq, Eq, Structural)]
pub enum ContractError {
    /// A proposal or governance-item identifier is out of range.
    /// Distinct from a zero-balance lookup, which is never an error.
    NotFound,
    /// Arithmetic could not be performed on checked, unsigned integers:
    /// a balance or the holding account would go negative, or a balance or
    /// the total supply would exceed the integer range.
    Overflow,
    /// A vote or withdrawal was attempted against a proposal whose status
    /// is already terminal (`Passed` or `Failed`).
    VoteOnCompletedProposal,
    /// At initialization the quorum was zero or larger than the total
    /// token supply.
    InvalidQuorum,
    /// The amount delivered with a proposal is below the configured
    /// proposal cost.
    InsufficentProposalFunds { needed: u128, got: u128 },
    /// Transfer, burn, send, vote and withdrawal all move a positive
    /// number of tokens; an amount of exactly zero is rejected.
    InvalidZeroAmount,
    /// The token name is not 3 to 50 bytes long.
    InvalidName,
    /// The token symbol is not 3 to 12 bytes of `[a-zA-Z-]`.
    InvalidSymbol,
    /// The token's display decimals exceed 18.
    InvalidDecimals,
    /// The same holder appears twice in the initial balance list.
    DuplicateHolder,
}

} // verus!
