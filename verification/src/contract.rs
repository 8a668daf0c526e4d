//! The transaction handlers: `stake`, `unstake` and `claim`, each one atomic
//! transition over the ledger.
//!
//! The host decodes the request, and supplies the sender's identity, the
//! slot time, and the decoded token-contract query responses; the handlers
//! authorize, check the protocol preconditions, mutate the ledger, and hand
//! back the payout instruction (for `unstake` and `claim`) that the host is
//! to dispatch. Any error leaves the ledger exactly as it was.

use vstd::prelude::*;

use crate::client::ensure_balance;
use crate::client::ensure_balance_outcome;
use crate::client::ensure_is_operator;
use crate::client::ensure_operator_outcome;
use crate::client::Cis2Client;
use crate::errors::Cis2ClientError;
use crate::errors::ContractError;
use crate::errors::CustomContractError;
use crate::reward::elapsed_seconds;
use crate::reward::reward_value;
use crate::state::empty_record;
use crate::state::StakeState;
use crate::state::State;
use crate::types::AccountAddress;
use crate::types::Address;
use crate::types::ContractAddress;
use crate::types::TransferRequest;

verus! {

/// A request to stake `amount` units held on the given token contract.
#[derive(Clone, Copy, PartialEq, Eq, Structural, Debug)]
pub struct StakeParams {
    pub owner: AccountAddress,
    pub amount: u64,
    pub token_contract_address: ContractAddress,
}

/// A request to withdraw the owner's stake and be paid the accrued reward.
#[derive(Clone, Copy, PartialEq, Eq, Structural, Debug)]
pub struct UnStakeParams {
    pub owner: AccountAddress,
    pub token_contract_address: ContractAddress,
}

/// A request to claim: behaviourally the same transition as unstake.
#[derive(Clone, Copy, PartialEq, Eq, Structural, Debug)]
pub struct ClaimParams {
    pub owner: AccountAddress,
    pub token_contract_address: ContractAddress,
}

/// Two ledgers with the same records and the same aggregate: what "no
/// mutation" means in the handlers' contracts.
pub open spec fn unchanged(pre: State, post: State) -> bool {
    post.stake@ == pre.stake@ && post.total_staked == pre.total_staked
}

/// The caller must be exactly the account named as owner: the staking action
/// itself cannot be delegated. Checked first, before any other effect.
pub fn authorize(caller: &Address, claimed_owner: &AccountAddress) -> (r: Result<
    (),
    ContractError,
>)
    ensures
        *caller == Address::Account(*claimed_owner) ==> r == Result::<(), ContractError>::Ok(()),
        *caller != Address::Account(*claimed_owner) ==> r == Result::<(), ContractError>::Err(
            ContractError::Unauthorized,
        ),
{
    if caller.matches_account(claimed_owner) {
        Result::Ok(())
    } else {
        Result::Err(ContractError::Unauthorized)
    }
}

/// The result the stake handler owes for each combination of sender and
/// query responses: authorization first, then the balance precondition, then
/// the operator precondition, and success only past all three.
pub open spec fn stake_outcome(
    sender: Address,
    owner: AccountAddress,
    amount: u64,
    balance_query: Result<Vec<u64>, Cis2ClientError>,
    operator_query: Result<Vec<bool>, Cis2ClientError>,
) -> Result<(), ContractError> {
    if sender != Address::Account(owner) {
        Result::Err(ContractError::Unauthorized)
    } else {
        match ensure_balance_outcome(balance_query, amount) {
            Result::Err(e) => Result::Err(ContractError::Custom(e)),
            Result::Ok(_) => match ensure_operator_outcome(operator_query) {
                Result::Err(e) => Result::Err(ContractError::Custom(e)),
                Result::Ok(_) => Result::Ok(()),
            },
        }
    }
}

/// The stake transition. On success the owner's record is set to `amount`
/// at `slot_time_millis` and the aggregate is debited the owner's prior
/// amount and credited `amount`; on any failure the ledger is untouched.
pub fn stake_token(
    state: &mut State,
    sender: Address,
    params: &StakeParams,
    balance_query: Result<Vec<u64>, Cis2ClientError>,
    operator_query: Result<Vec<bool>, Cis2ClientError>,
    slot_time_millis: u64,
) -> (r: Result<(), ContractError>)
    requires
        sender == Address::Account(params.owner) && ensure_balance_outcome(
            balance_query,
            params.amount,
        ) == Result::<(), CustomContractError>::Ok(()) && ensure_operator_outcome(operator_query)
            == Result::<(), CustomContractError>::Ok(()) ==> {
            &&& old(state).record_of(params.owner).amount <= old(state).total_staked
            &&& old(state).total_staked - old(state).record_of(params.owner).amount
                + params.amount <= u64::MAX
        },
    ensures
        r == stake_outcome(sender, params.owner, params.amount, balance_query, operator_query),
        r is Err ==> unchanged(*old(state), *final(state)),
        r is Ok ==> final(state).record_of(params.owner) == (StakeState {
            amount: params.amount,
            staked_start_at: slot_time_millis,
        }),
        r is Ok ==> forall|p: AccountAddress|
            p != params.owner ==> final(state).record_of(p) == old(state).record_of(p),
        r is Ok ==> final(state).total_staked == old(state).total_staked - old(state).record_of(
            params.owner,
        ).amount + params.amount,
        old(state).well_formed() ==> final(state).well_formed(),
{
    match authorize(&sender, &params.owner) {
        Result::Err(e) => {
            return Result::Err(e);
        },
        Result::Ok(_) => {},
    }
    match ensure_balance(balance_query, params.amount) {
        Result::Err(e) => {
            return Result::Err(ContractError::Custom(e));
        },
        Result::Ok(_) => {},
    }
    match ensure_is_operator(operator_query) {
        Result::Err(e) => {
            return Result::Err(ContractError::Custom(e));
        },
        Result::Ok(_) => {},
    }
    match state.insert_token(&params.owner, params.amount, slot_time_millis) {
        Result::Ok(_) => Result::Ok(()),
        Result::Err(e) => Result::Err(e),
    }
}

/// Elapsed staking time and reward for `owner` at host time
/// `slot_time_millis`, by the fixed-rate formula, computed from the record
/// as it stands.
pub fn calculate_reward(state: &State, owner: &AccountAddress, slot_time_millis: u64) -> (r: Result<
    u64,
    CustomContractError,
>)
    requires
        state.record_of(*owner).staked_start_at <= slot_time_millis,
        state.record_of(*owner).amount * elapsed_seconds(
            state.record_of(*owner).staked_start_at,
            slot_time_millis,
        ) <= u64::MAX,
    ensures
        r is Ok,
        r->Ok_0 == reward_value(
            state.record_of(*owner).amount,
            elapsed_seconds(state.record_of(*owner).staked_start_at, slot_time_millis),
        ),
{
    let time = match state.get_time(owner, slot_time_millis) {
        Result::Ok(t) => t,
        Result::Err(_) => {
            return Result::Err(CustomContractError::InvokeContractError);
        },
    };
    let reward = match state.get_reward(owner, time) {
        Result::Ok(v) => v,
        Result::Err(_) => {
            return Result::Err(CustomContractError::InvokeContractError);
        },
    };
    Result::Ok(reward)
}

/// The unstake transition. The accrued reward is computed from the record
/// before the stake is cleared, so withdrawal pays out the accrual up to
/// this slot time; the handler returns the payout instruction, paid by the
/// instance's registered owner to the transaction's invoker.
pub fn unstake_token(
    state: &mut State,
    sender: Address,
    params: &UnStakeParams,
    contract_owner: AccountAddress,
    invoker: AccountAddress,
    slot_time_millis: u64,
) -> (r: Result<TransferRequest, ContractError>)
    requires
        sender == Address::Account(params.owner) ==> {
            &&& old(state).record_of(params.owner).amount <= old(state).total_staked
            &&& old(state).record_of(params.owner).staked_start_at <= slot_time_millis
            &&& old(state).record_of(params.owner).amount * elapsed_seconds(
                old(state).record_of(params.owner).staked_start_at,
                slot_time_millis,
            ) <= u64::MAX
        },
    ensures
        sender != Address::Account(params.owner) ==> r == Result::<
            TransferRequest,
            ContractError,
        >::Err(ContractError::Unauthorized) && unchanged(*old(state), *final(state)),
        sender == Address::Account(params.owner) ==> {
            &&& r is Ok
            &&& r->Ok_0.token_contract_address == params.token_contract_address
            &&& r->Ok_0.from == contract_owner
            &&& r->Ok_0.to == invoker
            &&& r->Ok_0.amount == reward_value(
                old(state).record_of(params.owner).amount,
                elapsed_seconds(
                    old(state).record_of(params.owner).staked_start_at,
                    slot_time_millis,
                ),
            )
            &&& final(state).record_of(params.owner) == empty_record()
            &&& forall|p: AccountAddress|
                p != params.owner ==> final(state).record_of(p) == old(state).record_of(p)
            &&& final(state).total_staked == old(state).total_staked - old(state).record_of(
                params.owner,
            ).amount
        },
        old(state).well_formed() ==> final(state).well_formed(),
{
    match authorize(&sender, &params.owner) {
        Result::Err(e) => {
            return Result::Err(e);
        },
        Result::Ok(_) => {},
    }
    let reward = match calculate_reward(state, &params.owner, slot_time_millis) {
        Result::Ok(v) => v,
        Result::Err(e) => {
            return Result::Err(ContractError::Custom(e));
        },
    };
    match state.remove_token(&params.owner) {
        Result::Ok(_) => {},
        Result::Err(e) => {
            return Result::Err(e);
        },
    }
    Result::Ok(Cis2Client::transfer(params.token_contract_address, reward, contract_owner, invoker))
}

/// The claim transition: behaviourally identical to unstake — it clears the
/// owner's stake and pays out the accrued reward.
pub fn claim_reward(
    state: &mut State,
    sender: Address,
    params: &ClaimParams,
    contract_owner: AccountAddress,
    invoker: AccountAddress,
    slot_time_millis: u64,
) -> (r: Result<TransferRequest, ContractError>)
    requires
        sender == Address::Account(params.owner) ==> {
            &&& old(state).record_of(params.owner).amount <= old(state).total_staked
            &&& old(state).record_of(params.owner).staked_start_at <= slot_time_millis
            &&& old(state).record_of(params.owner).amount * elapsed_seconds(
                old(state).record_of(params.owner).staked_start_at,
                slot_time_millis,
            ) <= u64::MAX
        },
    ensures
        sender != Address::Account(params.owner) ==> r == Result::<
            TransferRequest,
            ContractError,
        >::Err(ContractError::Unauthorized) && unchanged(*old(state), *final(state)),
        sender == Address::Account(params.owner) ==> {
            &&& r is Ok
            &&& r->Ok_0.token_contract_address == params.token_contract_address
            &&& r->Ok_0.from == contract_owner
            &&& r->Ok_0.to == invoker
            &&& r->Ok_0.amount == reward_value(
                old(state).record_of(params.owner).amount,
                elapsed_seconds(
                    old(state).record_of(params.owner).staked_start_at,
                    slot_time_millis,
                ),
            )
            &&& final(state).record_of(params.owner) == empty_record()
            &&& forall|p: AccountAddress|
                p != params.owner ==> final(state).record_of(p) == old(state).record_of(p)
            &&& final(state).total_staked == old(state).total_staked - old(state).record_of(
                params.owner,
            ).amount
        },
        old(state).well_formed() ==> final(state).well_formed(),
{
    match authorize(&sender, &params.owner) {
        Result::Err(e) => {
            return Result::Err(e);
        },
        Result::Ok(_) => {},
    }
    let reward = match calculate_reward(state, &params.owner, slot_time_millis) {
        Result::Ok(v) => v,
        Result::Err(e) => {
            return Result::Err(ContractError::Custom(e));
        },
    };
    match state.remove_token(&params.owner) {
        Result::Ok(_) => {},
        Result::Err(e) => {
            return Result::Err(e);
        },
    }
    Result::Ok(Cis2Client::transfer(params.token_contract_address, reward, contract_owner, invoker))
}

} // verus!
