//! A staking ledger: tracks token amounts deposited per account, accrues
//! time-based rewards at a fixed annualized rate, and releases deposits plus
//! rewards on withdrawal or claim.
//!
//! The ledger is a pure state machine. The surrounding host supplies the
//! caller's identity, the current slot time, and the results of the token
//! contract queries (`operatorOf`, `balanceOf`); the transaction handlers in
//! [`contract`] take those as plain values, decide, mutate the ledger, and
//! hand back the transfer instruction that the host is to dispatch.

pub mod errors;
pub mod types;
pub mod reward;
pub mod state;
pub mod client;
pub mod contract;
pub mod nft;

use vstd::prelude::*;

verus! {

/// Entry point on the token contract queried to learn whether this module is
/// an operator for an owner's tokens.
pub const OPERATOR_OF_ENTRYPOINT_NAME: &'static str = "operatorOf";

/// Entry point on the token contract queried for an owner's balance.
pub const BALANCE_OF_ENTRYPOINT_NAME: &'static str = "balanceOf";

/// Entry point on the token contract that executes a transfer.
pub const TRANSFER_ENTRYPOINT_NAME: &'static str = "transfer";

} // verus!
