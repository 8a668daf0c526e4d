//! The token-protocol client, split at the host boundary.
//!
//! The host performs the outbound `operatorOf` and `balanceOf` calls and
//! decodes the responses; what arrives here is the decoded response list (or
//! the client error the call produced). The functions in this module carry
//! the client's decision logic: extracting the single answer from the
//! response list, comparing a balance against the required amount, and
//! building the transfer instruction for the host to dispatch.

use vstd::prelude::*;

use crate::errors::Cis2ClientError;
use crate::errors::CustomContractError;
use crate::types::AccountAddress;
use crate::types::ContractAddress;
use crate::types::TransferRequest;

verus! {

/// What the `operatorOf` query yields once interpreted: the call's own error
/// if it failed, an empty response counted as a dispatch failure, and
/// otherwise the first (and only) answer.
pub open spec fn operator_of_outcome(query: Result<Vec<bool>, Cis2ClientError>) -> Result<
    bool,
    Cis2ClientError,
> {
    match query {
        Result::Err(e) => Result::Err(e),
        Result::Ok(v) => if v@.len() == 0 {
            Result::Err(Cis2ClientError::InvokeContractError)
        } else {
            Result::Ok(v@[0])
        },
    }
}

/// What the `balanceOf` query yields once interpreted: the call's own error
/// if it failed, an empty response counted as a dispatch failure, and
/// otherwise whether the answered balance covers `amount`.
pub open spec fn balance_outcome(query: Result<Vec<u64>, Cis2ClientError>, amount: u64) -> Result<
    bool,
    Cis2ClientError,
> {
    match query {
        Result::Err(e) => Result::Err(e),
        Result::Ok(v) => if v@.len() == 0 {
            Result::Err(Cis2ClientError::InvokeContractError)
        } else {
            Result::Ok(v@[0] >= amount)
        },
    }
}

/// The stake handler's balance precondition: a client failure propagates as
/// is, and an insufficient balance is `NoBalance`.
pub open spec fn ensure_balance_outcome(
    query: Result<Vec<u64>, Cis2ClientError>,
    amount: u64,
) -> Result<(), CustomContractError> {
    match balance_outcome(query, amount) {
        Result::Err(e) => Result::Err(CustomContractError::Cis2ClientError(e)),
        Result::Ok(b) => if b {
            Result::Ok(())
        } else {
            Result::Err(CustomContractError::NoBalance)
        },
    }
}

/// The stake handler's operator precondition: a client failure propagates as
/// is, and a negative answer is `NotOperator`.
pub open spec fn ensure_operator_outcome(query: Result<Vec<bool>, Cis2ClientError>) -> Result<
    (),
    CustomContractError,
> {
    match operator_of_outcome(query) {
        Result::Err(e) => Result::Err(CustomContractError::Cis2ClientError(e)),
        Result::Ok(b) => if b {
            Result::Ok(())
        } else {
            Result::Err(CustomContractError::NotOperator)
        },
    }
}

/// The protocol client. Its three operations each correspond to one
/// round-trip against the token contract; the host makes the round trip, and
/// the methods here turn its decoded response into the client's answer.
pub struct Cis2Client;

impl Cis2Client {
    /// Whether the staking module is an operator for the owner's tokens,
    /// read off the decoded `operatorOf` response.
    pub fn is_operator_of(query: Result<Vec<bool>, Cis2ClientError>) -> (r: Result<
        bool,
        Cis2ClientError,
    >)
        ensures
            r == operator_of_outcome(query),
    {
        match query {
            Result::Err(e) => Result::Err(e),
            Result::Ok(v) => {
                if v.len() == 0 {
                    Result::Err(Cis2ClientError::InvokeContractError)
                } else {
                    Result::Ok(v[0])
                }
            },
        }
    }

    /// Whether the owner's balance covers `amount`, read off the decoded
    /// `balanceOf` response.
    pub fn has_balance(query: Result<Vec<u64>, Cis2ClientError>, amount: u64) -> (r: Result<
        bool,
        Cis2ClientError,
    >)
        ensures
            r == balance_outcome(query, amount),
    {
        match query {
            Result::Err(e) => Result::Err(e),
            Result::Ok(v) => {
                if v.len() == 0 {
                    Result::Err(Cis2ClientError::InvokeContractError)
                } else {
                    Result::Ok(v[0] >= amount)
                }
            },
        }
    }

    /// The single-transfer instruction moving `amount` from `from` to the
    /// account `to`, for the host to dispatch to the token contract.
    pub fn transfer(
        token_contract_address: ContractAddress,
        amount: u64,
        from: AccountAddress,
        to: AccountAddress,
    ) -> (r: TransferRequest)
        ensures
            r == (TransferRequest { token_contract_address, amount, from, to }),
    {
        TransferRequest { token_contract_address, amount, from, to }
    }
}

/// Requires the module to be an operator for the owner's tokens; fails with
/// `NotOperator` otherwise, and propagates a client failure.
pub fn ensure_is_operator(query: Result<Vec<bool>, Cis2ClientError>) -> (r: Result<
    (),
    CustomContractError,
>)
    ensures
        r == ensure_operator_outcome(query),
{
    match Cis2Client::is_operator_of(query) {
        Result::Err(e) => Result::Err(CustomContractError::Cis2ClientError(e)),
        Result::Ok(b) => {
            if b {
                Result::Ok(())
            } else {
                Result::Err(CustomContractError::NotOperator)
            }
        },
    }
}

/// Requires the owner's balance to cover `amount`; fails with `NoBalance`
/// otherwise, and propagates a client failure.
pub fn ensure_balance(query: Result<Vec<u64>, Cis2ClientError>, amount: u64) -> (r: Result<
    (),
    CustomContractError,
>)
    ensures
        r == ensure_balance_outcome(query, amount),
{
    match Cis2Client::has_balance(query, amount) {
        Result::Err(e) => Result::Err(CustomContractError::Cis2ClientError(e)),
        Result::Ok(b) => {
            if b {
                Result::Ok(())
            } else {
                Result::Err(CustomContractError::NoBalance)
            }
        },
    }
}

} // verus!
