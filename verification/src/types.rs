//! Plain-value models of the host's identity types, and the transfer
//! instruction the handlers hand back to the host.
//!
//! The host's account address is 32 bytes; here it is held as four 64-bit
//! words so that equality is structural and visible to the verifier. The
//! glue around the library converts between the two shapes.

use vstd::prelude::*;

verus! {

/// A 32-byte account address, held as four 64-bit words.
#[derive(Clone, Copy, PartialEq, Eq, Structural, Debug)]
pub struct AccountAddress {
    pub w0: u64,
    pub w1: u64,
    pub w2: u64,
    pub w3: u64,
}

/// The address of a contract instance: an index and a subindex.
#[derive(Clone, Copy, PartialEq, Eq, Structural, Debug)]
pub struct ContractAddress {
    pub index: u64,
    pub subindex: u64,
}

/// The identity of a transaction's sender: an account or a contract.
#[derive(Clone, Copy, PartialEq, Eq, Structural, Debug)]
pub enum Address {
    Account(AccountAddress),
    Contract(ContractAddress),
}

impl Address {
    /// True exactly when this address is the given account.
    pub fn matches_account(&self, acc: &AccountAddress) -> (r: bool)
        ensures
            r == (*self == Address::Account(*acc)),
    {
        match self {
            Address::Account(a) => a == acc,
            Address::Contract(_) => false,
        }
    }
}

/// A single transfer instruction for the token contract: move `amount` of
/// the token from `from` to the account `to`. The handlers return it as the
/// payout action; the host dispatches it to the token contract's `transfer`
/// entry point.
#[derive(Clone, Copy, PartialEq, Eq, Structural, Debug)]
pub struct TransferRequest {
    /// The token contract that is to execute the transfer.
    pub token_contract_address: ContractAddress,
    /// The amount of the token to move.
    pub amount: u64,
    /// The paying account: the registered owner of the staking instance.
    pub from: AccountAddress,
    /// The receiving account: the invoker of the transaction.
    pub to: AccountAddress,
}

} // verus!
