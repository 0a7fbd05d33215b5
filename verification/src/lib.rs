//! Governance and accounting core of a token-weighted decision-making body:
//! a fungible-token ledger combined with a proposal/voting engine that
//! resolves proposals by quorum and executes their effects.
//!
//! The library is a deterministic state-transition machine: the whole
//! contract state lives in [`state::Dao`], and every operation is a verified
//! method on it that either succeeds (mutating the state as its contract
//! says) or fails (leaving the state untouched). Persistence, message
//! encoding and host dispatch are left to the embedding runtime.

pub mod actions;
pub mod contract;
mod error;
pub mod ledger;
pub mod msg;
pub mod state;
pub mod tokens;

pub use crate::error::ContractError;
