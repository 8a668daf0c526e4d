//! The error taxonomy of the staking module.
//!
//! Errors are flat and terminal: every error aborts the current transaction
//! and no partial state change survives it.

use vstd::prelude::*;

verus! {

/// Failures of the token-protocol client: the outbound call could not be
/// dispatched or returned no answer, the request could not be encoded, or the
/// response could not be decoded.
#[derive(Clone, Copy, PartialEq, Eq, Structural, Debug)]
pub enum Cis2ClientError {
    InvokeContractError,
    ParseParams,
    ParseResult,
}

/// Module-level error codes surfaced by the transaction handlers.
#[derive(Clone, Copy, PartialEq, Eq, Structural, Debug)]
pub enum CustomContractError {
    /// The inbound request could not be decoded.
    ParseParams,
    /// A token-protocol client call failed.
    Cis2ClientError(Cis2ClientError),
    /// The referenced token is unknown.
    TokenNotFound,
    /// The token is already in the global staked set (double-stake attempt)
    /// or, symmetrically, absent when removal was attempted.
    TokenAlreadyStaked,
    /// An external call could not be dispatched or returned no result.
    InvokeContractError,
    /// The owner's token balance is insufficient for the requested stake.
    NoBalance,
    /// The staking module is not an operator for the owner's tokens.
    NotOperator,
}

/// The error type the entry points return: either the caller is not the
/// claimed owner, or a module-level error wrapped as `Custom`.
#[derive(Clone, Copy, PartialEq, Eq, Structural, Debug)]
pub enum ContractError {
    /// The caller is not the account named as owner in the request.
    Unauthorized,
    Custom(CustomContractError),
}

impl core::convert::From<CustomContractError> for ContractError {
    fn from(c: CustomContractError) -> (r: Self) {
        ContractError::Custom(c)
    }
}

impl vstd::std_specs::convert::FromSpecImpl<CustomContractError> for ContractError {
    open spec fn obeys_from_spec() -> bool {
        true
    }

    open spec fn from_spec(c: CustomContractError) -> Self {
        ContractError::Custom(c)
    }
}

} // verus!
