use token_staking::client::ensure_balance;
use token_staking::client::ensure_is_operator;
use token_staking::client::Cis2Client;
use token_staking::contract::authorize;
use token_staking::contract::calculate_reward;
use token_staking::contract::claim_reward;
use token_staking::contract::stake_token;
use token_staking::contract::unstake_token;
use token_staking::contract::ClaimParams;
use token_staking::contract::StakeParams;
use token_staking::contract::UnStakeParams;
use token_staking::errors::Cis2ClientError;
use token_staking::errors::ContractError;
use token_staking::errors::CustomContractError;
use token_staking::state::StakeState;
use token_staking::state::State;
use token_staking::types::AccountAddress;
use token_staking::types::Address;
use token_staking::types::ContractAddress;

fn acct(n: u64) -> AccountAddress {
    AccountAddress { w0: n, w1: 0, w2: 0, w3: 0 }
}

fn token_contract() -> ContractAddress {
    ContractAddress { index: 7, subindex: 0 }
}

fn ok_balance(b: u64) -> Result<Vec<u64>, Cis2ClientError> {
    Ok(vec![b])
}

fn ok_operator(b: bool) -> Result<Vec<bool>, Cis2ClientError> {
    Ok(vec![b])
}

const YEAR_MS: u64 = 31_536_000_000;

#[test]
fn stake_success_updates_ledger() {
    let owner = acct(1);
    let mut st = State::empty();
    let params = StakeParams { owner, amount: 1000, token_contract_address: token_contract() };
    let r = stake_token(
        &mut st,
        Address::Account(owner),
        &params,
        ok_balance(5000),
        ok_operator(true),
        2000,
    );
    assert_eq!(r, Ok(()));
    assert_eq!(st.total_staked, 1000);
    assert_eq!(st.staked_amount_of(&owner), 1000);
    assert_eq!(st.staked_start_of(&owner), 2000);
}

#[test]
fn unauthorized_stake_fails_without_mutation() {
    let owner = acct(1);
    let intruder = acct(2);
    let mut st = State::empty();
    let params = StakeParams { owner, amount: 1000, token_contract_address: token_contract() };
    let r = stake_token(
        &mut st,
        Address::Account(intruder),
        &params,
        ok_balance(5000),
        ok_operator(true),
        2000,
    );
    assert_eq!(r, Err(ContractError::Unauthorized));
    assert_eq!(st.total_staked, 0);
    assert_eq!(st.staked_amount_of(&owner), 0);
}

#[test]
fn contract_sender_is_unauthorized() {
    let owner = acct(1);
    let mut st = State::empty();
    let params = StakeParams { owner, amount: 10, token_contract_address: token_contract() };
    let r = stake_token(
        &mut st,
        Address::Contract(ContractAddress { index: 1, subindex: 0 }),
        &params,
        ok_balance(5000),
        ok_operator(true),
        2000,
    );
    assert_eq!(r, Err(ContractError::Unauthorized));
    assert_eq!(st.total_staked, 0);
}

#[test]
fn unauthorized_unstake_fails_without_mutation() {
    let owner = acct(1);
    let intruder = acct(2);
    let mut st = State::empty();
    let sp = StakeParams { owner, amount: 500, token_contract_address: token_contract() };
    stake_token(
        &mut st,
        Address::Account(owner),
        &sp,
        ok_balance(500),
        ok_operator(true),
        1000,
    )
    .unwrap();
    let up = UnStakeParams { owner, token_contract_address: token_contract() };
    let r = unstake_token(&mut st, Address::Account(intruder), &up, acct(9), intruder, 9000);
    assert_eq!(r, Err(ContractError::Unauthorized));
    assert_eq!(st.total_staked, 500);
    assert_eq!(st.staked_amount_of(&owner), 500);
}

#[test]
fn unauthorized_claim_fails_without_mutation() {
    let owner = acct(1);
    let intruder = acct(2);
    let mut st = State::empty();
    let sp = StakeParams { owner, amount: 500, token_contract_address: token_contract() };
    stake_token(
        &mut st,
        Address::Account(owner),
        &sp,
        ok_balance(500),
        ok_operator(true),
        1000,
    )
    .unwrap();
    let cp = ClaimParams { owner, token_contract_address: token_contract() };
    let r = claim_reward(&mut st, Address::Account(intruder), &cp, acct(9), intruder, 9000);
    assert_eq!(r, Err(ContractError::Unauthorized));
    assert_eq!(st.staked_amount_of(&owner), 500);
}

#[test]
fn insufficient_balance_fails_with_no_balance() {
    let owner = acct(1);
    let mut st = State::empty();
    let params = StakeParams { owner, amount: 1000, token_contract_address: token_contract() };
    let r = stake_token(
        &mut st,
        Address::Account(owner),
        &params,
        ok_balance(999),
        ok_operator(true),
        2000,
    );
    assert_eq!(r, Err(ContractError::Custom(CustomContractError::NoBalance)));
    assert_eq!(st.total_staked, 0);
    assert_eq!(st.staked_amount_of(&owner), 0);
}

#[test]
fn missing_operator_fails_with_not_operator() {
    let owner = acct(1);
    let mut st = State::empty();
    let params = StakeParams { owner, amount: 1000, token_contract_address: token_contract() };
    let r = stake_token(
        &mut st,
        Address::Account(owner),
        &params,
        ok_balance(5000),
        ok_operator(false),
        2000,
    );
    assert_eq!(r, Err(ContractError::Custom(CustomContractError::NotOperator)));
    assert_eq!(st.total_staked, 0);
}

#[test]
fn balance_query_failure_propagates() {
    let owner = acct(1);
    let mut st = State::empty();
    let params = StakeParams { owner, amount: 1000, token_contract_address: token_contract() };
    let r = stake_token(
        &mut st,
        Address::Account(owner),
        &params,
        Err(Cis2ClientError::ParseResult),
        ok_operator(true),
        2000,
    );
    assert_eq!(
        r,
        Err(ContractError::Custom(CustomContractError::Cis2ClientError(
            Cis2ClientError::ParseResult
        )))
    );
    assert_eq!(st.total_staked, 0);
}

#[test]
fn empty_operator_response_is_invoke_error() {
    let owner = acct(1);
    let mut st = State::empty();
    let params = StakeParams { owner, amount: 1000, token_contract_address: token_contract() };
    let r = stake_token(
        &mut st,
        Address::Account(owner),
        &params,
        ok_balance(5000),
        Ok(vec![]),
        2000,
    );
    assert_eq!(
        r,
        Err(ContractError::Custom(CustomContractError::Cis2ClientError(
            Cis2ClientError::InvokeContractError
        )))
    );
}

#[test]
fn round_trip_full_year_pays_principal() {
    let owner = acct(1);
    let treasury = acct(3);
    let mut st = State::empty();
    let sp = StakeParams { owner, amount: 1000, token_contract_address: token_contract() };
    let t0: u64 = 5000;
    stake_token(
        &mut st,
        Address::Account(owner),
        &sp,
        ok_balance(1000),
        ok_operator(true),
        t0,
    )
    .unwrap();
    let up = UnStakeParams { owner, token_contract_address: token_contract() };
    let req = unstake_token(&mut st, Address::Account(owner), &up, treasury, owner, t0 + YEAR_MS)
        .unwrap();
    assert_eq!(req.amount, 1000);
    assert_eq!(req.from, treasury);
    assert_eq!(req.to, owner);
    assert_eq!(req.token_contract_address, token_contract());
    assert_eq!(st.total_staked, 0);
    assert_eq!(st.staked_amount_of(&owner), 0);
    assert_eq!(st.staked_start_of(&owner), 0);
}

#[test]
fn immediate_unstake_pays_zero() {
    let owner = acct(1);
    let mut st = State::empty();
    let sp = StakeParams { owner, amount: 1000, token_contract_address: token_contract() };
    stake_token(
        &mut st,
        Address::Account(owner),
        &sp,
        ok_balance(1000),
        ok_operator(true),
        5000,
    )
    .unwrap();
    let up = UnStakeParams { owner, token_contract_address: token_contract() };
    let req = unstake_token(&mut st, Address::Account(owner), &up, acct(3), owner, 5000).unwrap();
    assert_eq!(req.amount, 0);
    assert_eq!(st.total_staked, 0);
}

#[test]
fn claim_pays_like_unstake() {
    let owner = acct(1);
    let mut st = State::empty();
    let sp = StakeParams { owner, amount: 2000, token_contract_address: token_contract() };
    let t0: u64 = 0;
    stake_token(
        &mut st,
        Address::Account(owner),
        &sp,
        ok_balance(2000),
        ok_operator(true),
        t0,
    )
    .unwrap();
    let cp = ClaimParams { owner, token_contract_address: token_contract() };
    // Half a year at principal 2000 accrues exactly 1000.
    let req = claim_reward(&mut st, Address::Account(owner), &cp, acct(3), owner, YEAR_MS / 2)
        .unwrap();
    assert_eq!(req.amount, 1000);
    assert_eq!(st.staked_amount_of(&owner), 0);
    assert_eq!(st.total_staked, 0);
}

#[test]
fn reward_formula_exact_values() {
    let owner = acct(1);
    let mut st = State::empty();
    let sp = StakeParams { owner, amount: 63_072_000, token_contract_address: token_contract() };
    stake_token(&mut st, Address::Account(owner), &sp, ok_balance(63_072_000), ok_operator(true), 0)
        .unwrap();
    // 63_072_000 is two years of seconds: one second of staking pays 2.
    assert_eq!(calculate_reward(&st, &owner, 1000).unwrap(), 2);
    // 499 ms round down to zero elapsed seconds.
    assert_eq!(calculate_reward(&st, &owner, 499).unwrap(), 0);
    // A minute pays 120.
    assert_eq!(calculate_reward(&st, &owner, 60_000).unwrap(), 120);
}

#[test]
fn reward_is_monotone_in_time() {
    let owner = acct(1);
    let mut st = State::empty();
    let sp = StakeParams { owner, amount: 12345, token_contract_address: token_contract() };
    stake_token(&mut st, Address::Account(owner), &sp, ok_balance(12345), ok_operator(true), 0)
        .unwrap();
    let mut last = 0u64;
    for step in 0..40u64 {
        let now = step * 97_000_003;
        let r = calculate_reward(&st, &owner, now).unwrap();
        assert!(r >= last);
        last = r;
    }
}

#[test]
fn restake_overwrites_record() {
    let owner = acct(1);
    let mut st = State::empty();
    let sp1 = StakeParams { owner, amount: 100, token_contract_address: token_contract() };
    stake_token(&mut st, Address::Account(owner), &sp1, ok_balance(100), ok_operator(true), 10)
        .unwrap();
    let sp2 = StakeParams { owner, amount: 40, token_contract_address: token_contract() };
    stake_token(&mut st, Address::Account(owner), &sp2, ok_balance(40), ok_operator(true), 20)
        .unwrap();
    // Overwrite semantics: the record is replaced, and the aggregate is
    // debited the prior amount and credited the new one.
    assert_eq!(st.staked_amount_of(&owner), 40);
    assert_eq!(st.staked_start_of(&owner), 20);
    assert_eq!(st.total_staked, 40);
}

#[test]
fn total_tracks_sum_over_operation_sequence() {
    let a = acct(1);
    let b = acct(2);
    let c = acct(3);
    let mut st = State::empty();
    for (owner, amount, t) in [(a, 100u64, 10u64), (b, 250, 20), (c, 7, 30)] {
        let sp = StakeParams { owner, amount, token_contract_address: token_contract() };
        stake_token(&mut st, Address::Account(owner), &sp, ok_balance(amount), ok_operator(true), t)
            .unwrap();
        let sum = st.staked_amount_of(&a) + st.staked_amount_of(&b) + st.staked_amount_of(&c);
        assert_eq!(st.total_staked, sum);
    }
    let up = UnStakeParams { owner: b, token_contract_address: token_contract() };
    unstake_token(&mut st, Address::Account(b), &up, acct(9), b, 40).unwrap();
    let sum = st.staked_amount_of(&a) + st.staked_amount_of(&b) + st.staked_amount_of(&c);
    assert_eq!(st.total_staked, sum);
    assert_eq!(st.total_staked, 107);
}

#[test]
fn unstake_of_unknown_owner_is_a_zero_withdrawal() {
    let owner = acct(1);
    let mut st = State::empty();
    let up = UnStakeParams { owner, token_contract_address: token_contract() };
    let req = unstake_token(&mut st, Address::Account(owner), &up, acct(9), owner, 1000).unwrap();
    assert_eq!(req.amount, 0);
    assert_eq!(st.total_staked, 0);
}

#[test]
fn client_interprets_operator_response() {
    assert_eq!(Cis2Client::is_operator_of(Ok(vec![true])), Ok(true));
    assert_eq!(Cis2Client::is_operator_of(Ok(vec![false])), Ok(false));
    assert_eq!(
        Cis2Client::is_operator_of(Ok(vec![])),
        Err(Cis2ClientError::InvokeContractError)
    );
    assert_eq!(
        Cis2Client::is_operator_of(Err(Cis2ClientError::ParseResult)),
        Err(Cis2ClientError::ParseResult)
    );
}

#[test]
fn client_compares_balance_against_required_amount() {
    assert_eq!(Cis2Client::has_balance(Ok(vec![1000]), 1000), Ok(true));
    assert_eq!(Cis2Client::has_balance(Ok(vec![999]), 1000), Ok(false));
    assert_eq!(
        Cis2Client::has_balance(Ok(vec![]), 1),
        Err(Cis2ClientError::InvokeContractError)
    );
    assert_eq!(
        Cis2Client::has_balance(Err(Cis2ClientError::InvokeContractError), 1),
        Err(Cis2ClientError::InvokeContractError)
    );
}

#[test]
fn client_builds_transfer_instruction() {
    let req = Cis2Client::transfer(token_contract(), 55, acct(3), acct(4));
    assert_eq!(req.token_contract_address, token_contract());
    assert_eq!(req.amount, 55);
    assert_eq!(req.from, acct(3));
    assert_eq!(req.to, acct(4));
}

#[test]
fn ensure_helpers_map_client_errors() {
    assert_eq!(ensure_is_operator(Ok(vec![true])), Ok(()));
    assert_eq!(
        ensure_is_operator(Ok(vec![false])),
        Err(CustomContractError::NotOperator)
    );
    assert_eq!(
        ensure_is_operator(Err(Cis2ClientError::ParseParams)),
        Err(CustomContractError::Cis2ClientError(Cis2ClientError::ParseParams))
    );
    assert_eq!(ensure_balance(Ok(vec![5]), 5), Ok(()));
    assert_eq!(ensure_balance(Ok(vec![4]), 5), Err(CustomContractError::NoBalance));
    assert_eq!(
        ensure_balance(Err(Cis2ClientError::ParseResult), 5),
        Err(CustomContractError::Cis2ClientError(Cis2ClientError::ParseResult))
    );
}

#[test]
fn authorize_requires_exact_account() {
    let owner = acct(1);
    assert_eq!(authorize(&Address::Account(owner), &owner), Ok(()));
    assert_eq!(
        authorize(&Address::Account(acct(2)), &owner),
        Err(ContractError::Unauthorized)
    );
    assert_eq!(
        authorize(&Address::Contract(token_contract()), &owner),
        Err(ContractError::Unauthorized)
    );
}

#[test]
fn get_time_converts_millis_to_whole_seconds() {
    let owner = acct(1);
    let mut st = State::empty();
    let sp = StakeParams { owner, amount: 5, token_contract_address: token_contract() };
    stake_token(&mut st, Address::Account(owner), &sp, ok_balance(5), ok_operator(true), 1000)
        .unwrap();
    assert_eq!(st.get_time(&owner, 3500), Ok(2));
    assert_eq!(st.get_time(&owner, 1000), Ok(0));
}

#[test]
fn get_reward_applies_annual_rate() {
    let owner = acct(1);
    let mut st = State::empty();
    let sp = StakeParams { owner, amount: 31_536_000, token_contract_address: token_contract() };
    stake_token(
        &mut st,
        Address::Account(owner),
        &sp,
        ok_balance(31_536_000),
        ok_operator(true),
        0,
    )
    .unwrap();
    // One year of seconds as principal: each second of staking pays one.
    assert_eq!(st.get_reward(&owner, 2), Ok(2));
    assert_eq!(st.get_reward(&owner, 0), Ok(0));
}

#[test]
fn empty_stake_record_is_zero() {
    let r = StakeState::empty();
    assert_eq!(r.amount, 0);
    assert_eq!(r.staked_start_at, 0);
}

#[test]
fn custom_error_converts_to_contract_error() {
    let e = ContractError::from(CustomContractError::NoBalance);
    assert_eq!(e, ContractError::Custom(CustomContractError::NoBalance));
}
