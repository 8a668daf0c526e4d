//! The stake ledger and handlers for the non-fungible variant: owners stake
//! distinct token identifiers at a price in micro-currency units.
//!
//! A token identifier may be staked by at most one owner at a time. The
//! ledger keeps one entry per currently staked token (its identifier, its
//! owner, and the millisecond timestamp staking began) — the entries as a
//! whole are the global staked set that gates insertion — plus each owner's
//! cumulative staked price and the aggregate `total_staked`.
//!
//! The price removed at unstake time is supplied by the caller rather than
//! read from a per-token record kept at stake time; the ledger debits both
//! the owner's cumulative price and the aggregate by that supplied value.

use vstd::prelude::*;

use crate::client::ensure_balance;
use crate::client::ensure_balance_outcome;
use crate::client::ensure_is_operator;
use crate::client::ensure_operator_outcome;
use crate::client::Cis2Client;
use crate::contract::authorize;
use crate::errors::Cis2ClientError;
use crate::errors::ContractError;
use crate::errors::CustomContractError;
use crate::reward::elapsed_seconds;
use crate::reward::reward_value;
use crate::reward::SECOND_PER_YEAR;
use crate::types::AccountAddress;
use crate::types::Address;
use crate::types::ContractAddress;
use crate::types::TransferRequest;

verus! {

/// The entry the token ledger `s` holds for `token`: its owner and staking
/// start time, or `None` where the token is not staked.
pub open spec fn token_entry_of(s: Seq<(u64, AccountAddress, u64)>, token: u64) -> Option<
    (AccountAddress, u64),
>
    decreases s.len(),
{
    if s.len() == 0 {
        Option::None
    } else if s.last().0 == token {
        Option::Some((s.last().1, s.last().2))
    } else {
        token_entry_of(s.drop_last(), token)
    }
}

/// No token identifier occurs twice: each staked token has one owner.
pub open spec fn unique_tokens(s: Seq<(u64, AccountAddress, u64)>) -> bool {
    forall|i: int, j: int| 0 <= i < j < s.len() ==> s[i].0 != s[j].0
}

/// An entry whose token does not recur later in the list is what the lookup
/// returns for that token.
pub proof fn lemma_token_found(s: Seq<(u64, AccountAddress, u64)>, i: int)
    requires
        0 <= i < s.len(),
        forall|j: int| i < j < s.len() ==> s[j].0 != s[i].0,
    ensures
        token_entry_of(s, s[i].0) == Option::Some((s[i].1, s[i].2)),
    decreases s.len(),
{
    if i == s.len() - 1 {
        assert(s.last() == s[i]);
    } else {
        assert(s.last().0 != s[i].0);
        assert(s.drop_last()[i] == s[i]);
        lemma_token_found(s.drop_last(), i);
    }
}

/// A token with no entry in the list is not staked.
pub proof fn lemma_token_absent(s: Seq<(u64, AccountAddress, u64)>, token: u64)
    requires
        forall|j: int| 0 <= j < s.len() ==> s[j].0 != token,
    ensures
        token_entry_of(s, token) is None,
    decreases s.len(),
{
    if s.len() > 0 {
        lemma_token_absent(s.drop_last(), token);
    }
}

/// Removing one entry leaves every other token's entry unchanged.
pub proof fn lemma_token_remove_other(s: Seq<(u64, AccountAddress, u64)>, i: int, p: u64)
    requires
        0 <= i < s.len(),
        p != s[i].0,
    ensures
        token_entry_of(s.remove(i), p) == token_entry_of(s, p),
    decreases s.len(),
{
    let t = s.remove(i);
    s.remove_ensures(i);
    if i == s.len() - 1 {
        assert(t =~= s.drop_last());
    } else {
        assert(t.last() == s.last());
        assert(t.drop_last() =~= s.drop_last().remove(i));
        if s.last().0 != p {
            lemma_token_remove_other(s.drop_last(), i, p);
        }
    }
}

/// Appending an entry registers its token and leaves every other token's
/// entry unchanged.
pub proof fn lemma_token_push(s: Seq<(u64, AccountAddress, u64)>, x: (u64, AccountAddress, u64))
    ensures
        token_entry_of(s.push(x), x.0) == Option::Some((x.1, x.2)),
        forall|p: u64| p != x.0 ==> token_entry_of(s.push(x), p) == token_entry_of(s, p),
{
    assert(s.push(x).drop_last() =~= s);
    assert(s.push(x).last() == x);
}

/// The cumulative staked price the list `s` records for `owner`; zero where
/// no entry exists.
pub open spec fn price_of(s: Seq<(AccountAddress, u64)>, owner: AccountAddress) -> u64
    decreases s.len(),
{
    if s.len() == 0 {
        0u64
    } else if s.last().0 == owner {
        s.last().1
    } else {
        price_of(s.drop_last(), owner)
    }
}

/// The sum of all owners' cumulative staked prices.
pub open spec fn sum_prices(s: Seq<(AccountAddress, u64)>) -> int
    decreases s.len(),
{
    if s.len() == 0 {
        0
    } else {
        sum_prices(s.drop_last()) + s.last().1
    }
}

/// An entry whose owner does not recur later in the list is what the price
/// lookup returns for that owner.
pub proof fn lemma_price_found(s: Seq<(AccountAddress, u64)>, i: int)
    requires
        0 <= i < s.len(),
        forall|j: int| i < j < s.len() ==> s[j].0 != s[i].0,
    ensures
        price_of(s, s[i].0) == s[i].1,
    decreases s.len(),
{
    if i == s.len() - 1 {
        assert(s.last() == s[i]);
    } else {
        assert(s.last().0 != s[i].0);
        assert(s.drop_last()[i] == s[i]);
        lemma_price_found(s.drop_last(), i);
    }
}

/// An owner with no entry has cumulative price zero.
pub proof fn lemma_price_absent(s: Seq<(AccountAddress, u64)>, owner: AccountAddress)
    requires
        forall|j: int| 0 <= j < s.len() ==> s[j].0 != owner,
    ensures
        price_of(s, owner) == 0,
    decreases s.len(),
{
    if s.len() > 0 {
        lemma_price_absent(s.drop_last(), owner);
    }
}

/// Replacing the entry at one index shifts the sum by the difference of the
/// two prices.
pub proof fn lemma_price_sum_update(s: Seq<(AccountAddress, u64)>, i: int, x: (AccountAddress, u64))
    requires
        0 <= i < s.len(),
    ensures
        sum_prices(s.update(i, x)) == sum_prices(s) - s[i].1 + x.1,
    decreases s.len(),
{
    let t = s.update(i, x);
    if i == s.len() - 1 {
        assert(t.drop_last() =~= s.drop_last());
        assert(t.last() == x);
    } else {
        assert(t.drop_last() =~= s.drop_last().update(i, x));
        assert(t.last() == s.last());
        lemma_price_sum_update(s.drop_last(), i, x);
    }
}

/// Replacing the entry at one index leaves every other owner's price
/// unchanged.
pub proof fn lemma_price_update_other(
    s: Seq<(AccountAddress, u64)>,
    i: int,
    x: (AccountAddress, u64),
    p: AccountAddress,
)
    requires
        0 <= i < s.len(),
        p != s[i].0,
        p != x.0,
    ensures
        price_of(s.update(i, x), p) == price_of(s, p),
    decreases s.len(),
{
    let t = s.update(i, x);
    if i == s.len() - 1 {
        assert(t.drop_last() =~= s.drop_last());
        assert(t.last() == x);
    } else {
        assert(t.drop_last() =~= s.drop_last().update(i, x));
        assert(t.last() == s.last());
        lemma_price_update_other(s.drop_last(), i, x, p);
    }
}

/// Appending an entry adds its price to the sum, makes its owner read as it,
/// and leaves every other owner's price unchanged.
pub proof fn lemma_price_push(s: Seq<(AccountAddress, u64)>, x: (AccountAddress, u64))
    ensures
        sum_prices(s.push(x)) == sum_prices(s) + x.1,
        price_of(s.push(x), x.0) == x.1,
        forall|p: AccountAddress| p != x.0 ==> price_of(s.push(x), p) == price_of(s, p),
{
    assert(s.push(x).drop_last() =~= s);
    assert(s.push(x).last() == x);
}

/// The stake ledger of the non-fungible variant.
pub struct NftState {
    /// One entry per currently staked token: its identifier, its owner, and
    /// the millisecond timestamp staking began. The identifiers herein are
    /// the global staked set.
    pub tokens: Vec<(u64, AccountAddress, u64)>,
    /// Each owner's cumulative staked price, in micro-currency units.
    pub prices: Vec<(AccountAddress, u64)>,
    /// The aggregate staked price across all owners.
    pub total_staked: u64,
}

/// Two ledgers with the same entries, prices and aggregate: what "no
/// mutation" means in the contracts of this variant.
pub open spec fn nft_unchanged(pre: NftState, post: NftState) -> bool {
    post.tokens@ == pre.tokens@ && post.prices@ == pre.prices@ && post.total_staked
        == pre.total_staked
}

impl NftState {
    /// The entry held for `token`: its owner and staking start time, or
    /// `None` where the token is not staked by anyone.
    pub open spec fn token_of(self, token: u64) -> Option<(AccountAddress, u64)> {
        token_entry_of(self.tokens@, token)
    }

    /// The cumulative staked price recorded for `owner`.
    pub open spec fn staked_price_of(self, owner: AccountAddress) -> u64 {
        price_of(self.prices@, owner)
    }

    /// The ledger invariant: each token is staked by at most one owner, and
    /// the aggregate equals the sum of all owners' cumulative prices.
    pub open spec fn well_formed(self) -> bool {
        unique_tokens(self.tokens@) && self.total_staked == sum_prices(self.prices@)
    }

    /// A new ledger with no stakes.
    pub fn empty() -> (r: NftState)
        ensures
            r.total_staked == 0,
            r.well_formed(),
            forall|t: u64| r.token_of(t) is None,
            forall|p: AccountAddress| r.staked_price_of(p) == 0,
    {
        let r = NftState { tokens: Vec::new(), prices: Vec::new(), total_staked: 0u64 };
        proof {
            assert forall|t: u64| r.token_of(t) is None by {
                lemma_token_absent(r.tokens@, t);
            }
            assert forall|p: AccountAddress| r.staked_price_of(p) == 0 by {
                lemma_price_absent(r.prices@, p);
            }
        }
        r
    }

    /// The index of `token`'s entry, scanning so that any hit is the entry
    /// the lookup reads; `None` where the token is not staked.
    fn find_token(&self, token: u64) -> (r: Option<usize>)
        ensures
            match r {
                Option::Some(i) => i < self.tokens@.len() && self.tokens@[i as int].0 == token
                    && forall|j: int| i < j < self.tokens@.len() ==> self.tokens@[j].0 != token,
                Option::None => forall|j: int|
                    0 <= j < self.tokens@.len() ==> self.tokens@[j].0 != token,
            },
    {
        let mut i: usize = self.tokens.len();
        while i > 0
            invariant
                i <= self.tokens@.len(),
                forall|j: int| i <= j < self.tokens@.len() ==> self.tokens@[j].0 != token,
            decreases i,
        {
            i = i - 1;
            if self.tokens[i].0 == token {
                return Option::Some(i);
            }
        }
        Option::None
    }

    /// The index of `owner`'s price entry, scanning so that any hit is the
    /// entry the lookup reads; `None` where the owner has none.
    fn find_price(&self, owner: &AccountAddress) -> (r: Option<usize>)
        ensures
            match r {
                Option::Some(i) => i < self.prices@.len() && self.prices@[i as int].0 == *owner
                    && forall|j: int| i < j < self.prices@.len() ==> self.prices@[j].0 != *owner,
                Option::None => forall|j: int|
                    0 <= j < self.prices@.len() ==> self.prices@[j].0 != *owner,
            },
    {
        let mut i: usize = self.prices.len();
        while i > 0
            invariant
                i <= self.prices@.len(),
                forall|j: int| i <= j < self.prices@.len() ==> self.prices@[j].0 != *owner,
            decreases i,
        {
            i = i - 1;
            if self.prices[i].0 == *owner {
                return Option::Some(i);
            }
        }
        Option::None
    }

    /// Stakes `token` for `owner` at `price`: fails with `TokenAlreadyStaked`
    /// and leaves the ledger untouched when the token is already in the
    /// global staked set; otherwise registers the entry, credits the owner's
    /// cumulative price, and grows the aggregate by `price`.
    pub fn insert_token(
        &mut self,
        owner: &AccountAddress,
        token: u64,
        price: u64,
        staked_time: u64,
    ) -> (r: Result<(), ContractError>)
        requires
            old(self).token_of(token) is None ==> {
                &&& old(self).total_staked + price <= u64::MAX
                &&& old(self).staked_price_of(*owner) + price <= u64::MAX
            },
        ensures
            old(self).token_of(token) is Some ==> r == Result::<(), ContractError>::Err(
                ContractError::Custom(CustomContractError::TokenAlreadyStaked),
            ) && nft_unchanged(*old(self), *final(self)),
            old(self).token_of(token) is None ==> {
                &&& r == Result::<(), ContractError>::Ok(())
                &&& final(self).token_of(token) == Option::Some((*owner, staked_time))
                &&& forall|t: u64| t != token ==> final(self).token_of(t) == old(self).token_of(t)
                &&& final(self).staked_price_of(*owner) == old(self).staked_price_of(*owner)
                    + price
                &&& forall|p: AccountAddress|
                    p != *owner ==> final(self).staked_price_of(p) == old(self).staked_price_of(p)
                &&& final(self).total_staked == old(self).total_staked + price
            },
            old(self).well_formed() ==> final(self).well_formed(),
    {
        match self.find_token(token) {
            Option::Some(i) => {
                proof {
                    lemma_token_found(self.tokens@, i as int);
                }
                return Result::Err(ContractError::Custom(CustomContractError::TokenAlreadyStaked));
            },
            Option::None => {
                proof {
                    lemma_token_absent(self.tokens@, token);
                }
            },
        }
        let ghost ts = self.tokens@;
        self.tokens.push((token, *owner, staked_time));
        proof {
            lemma_token_push(ts, (token, *owner, staked_time));
        }
        let ghost ps = self.prices@;
        match self.find_price(owner) {
            Option::Some(i) => {
                proof {
                    lemma_price_found(ps, i as int);
                }
                let key = self.prices[i].0;
                let prior = self.prices[i].1;
                self.prices.set(i, (key, prior + price));
                proof {
                    lemma_price_sum_update(ps, i as int, (key, (prior + price) as u64));
                    assert forall|j: int|
                        i < j < self.prices@.len() implies self.prices@[j].0 != *owner by {
                        assert(self.prices@[j] == ps[j]);
                    }
                    lemma_price_found(self.prices@, i as int);
                    assert forall|p: AccountAddress|
                        p != *owner implies price_of(self.prices@, p) == price_of(ps, p) by {
                        lemma_price_update_other(ps, i as int, (key, (prior + price) as u64), p);
                    }
                }
            },
            Option::None => {
                proof {
                    lemma_price_absent(ps, *owner);
                }
                self.prices.push((*owner, price));
                proof {
                    lemma_price_push(ps, (*owner, price));
                }
            },
        }
        self.total_staked = self.total_staked + price;
        Result::Ok(())
    }

    /// Unstakes `token` for `owner`, debiting the caller-supplied `price`
    /// from the owner's cumulative price and from the aggregate. Fails with
    /// `TokenAlreadyStaked` (and no mutation) when the token is not staked
    /// at all, and with `TokenNotFound` when it is staked by someone else.
    pub fn remove_token(&mut self, owner: &AccountAddress, token: u64, price: u64) -> (r: Result<
        (),
        ContractError,
    >)
        requires
            unique_tokens(old(self).tokens@),
            match old(self).token_of(token) {
                Option::Some(e) => e.0 == *owner ==> price <= old(self).staked_price_of(*owner)
                    && price <= old(self).total_staked,
                Option::None => true,
            },
        ensures
            old(self).token_of(token) is None ==> r == Result::<(), ContractError>::Err(
                ContractError::Custom(CustomContractError::TokenAlreadyStaked),
            ) && nft_unchanged(*old(self), *final(self)),
            old(self).token_of(token) is Some && (old(self).token_of(token)->0).0 != *owner ==> r
                == Result::<(), ContractError>::Err(
                ContractError::Custom(CustomContractError::TokenNotFound),
            ) && nft_unchanged(*old(self), *final(self)),
            old(self).token_of(token) is Some && (old(self).token_of(token)->0).0 == *owner ==> {
                &&& r == Result::<(), ContractError>::Ok(())
                &&& final(self).token_of(token) is None
                &&& forall|t: u64| t != token ==> final(self).token_of(t) == old(self).token_of(t)
                &&& final(self).staked_price_of(*owner) == old(self).staked_price_of(*owner)
                    - price
                &&& forall|p: AccountAddress|
                    p != *owner ==> final(self).staked_price_of(p) == old(self).staked_price_of(p)
                &&& final(self).total_staked == old(self).total_staked - price
            },
            old(self).well_formed() ==> final(self).well_formed(),
    {
        let i = match self.find_token(token) {
            Option::Some(i) => {
                proof {
                    lemma_token_found(self.tokens@, i as int);
                }
                i
            },
            Option::None => {
                proof {
                    lemma_token_absent(self.tokens@, token);
                }
                return Result::Err(ContractError::Custom(CustomContractError::TokenAlreadyStaked));
            },
        };
        if !(self.tokens[i].1 == *owner) {
            return Result::Err(ContractError::Custom(CustomContractError::TokenNotFound));
        }
        let ghost ts = self.tokens@;
        self.tokens.remove(i);
        proof {
            ts.remove_ensures(i as int);
            assert forall|j: int|
                0 <= j < self.tokens@.len() implies self.tokens@[j].0 != token by {}
            lemma_token_absent(self.tokens@, token);
            assert forall|t: u64|
                t != token implies token_entry_of(self.tokens@, t) == token_entry_of(ts, t) by {
                lemma_token_remove_other(ts, i as int, t);
            }
            assert forall|a: int, b: int|
                0 <= a < b < self.tokens@.len() implies self.tokens@[a].0 != self.tokens@[b].0 by {}
        }
        let ghost ps = self.prices@;
        match self.find_price(owner) {
            Option::Some(k) => {
                proof {
                    lemma_price_found(ps, k as int);
                }
                let key = self.prices[k].0;
                let prior = self.prices[k].1;
                self.prices.set(k, (key, prior - price));
                proof {
                    lemma_price_sum_update(ps, k as int, (key, (prior - price) as u64));
                    assert forall|j: int|
                        k < j < self.prices@.len() implies self.prices@[j].0 != *owner by {
                        assert(self.prices@[j] == ps[j]);
                    }
                    lemma_price_found(self.prices@, k as int);
                    assert forall|p: AccountAddress|
                        p != *owner implies price_of(self.prices@, p) == price_of(ps, p) by {
                        lemma_price_update_other(ps, k as int, (key, (prior - price) as u64), p);
                    }
                }
            },
            Option::None => {
                proof {
                    lemma_price_absent(ps, *owner);
                }
            },
        }
        self.total_staked = self.total_staked - price;
        Result::Ok(())
    }

    /// The millisecond timestamp at which `token` was staked; zero where it
    /// is not staked.
    pub fn staked_start_of(&self, token: u64) -> (r: u64)
        ensures
            r == match self.token_of(token) {
                Option::Some(e) => e.1,
                Option::None => 0u64,
            },
    {
        match self.find_token(token) {
            Option::Some(i) => {
                proof {
                    lemma_token_found(self.tokens@, i as int);
                }
                self.tokens[i].2
            },
            Option::None => {
                proof {
                    lemma_token_absent(self.tokens@, token);
                }
                0u64
            },
        }
    }

    /// The cumulative staked price recorded for `owner`.
    pub fn staked_price(&self, owner: &AccountAddress) -> (r: u64)
        ensures
            r == self.staked_price_of(*owner),
    {
        match self.find_price(owner) {
            Option::Some(i) => {
                proof {
                    lemma_price_found(self.prices@, i as int);
                }
                self.prices[i].1
            },
            Option::None => {
                proof {
                    lemma_price_absent(self.prices@, *owner);
                }
                0u64
            },
        }
    }
}

/// A request to stake one token identifier at a price in micro-currency
/// units.
#[derive(Clone, Copy, PartialEq, Eq, Structural, Debug)]
pub struct NftStakeParams {
    pub owner: AccountAddress,
    pub token_id: u64,
    pub price: u64,
    pub token_contract_address: ContractAddress,
}

/// A request to withdraw one staked token identifier, naming the price to
/// debit.
#[derive(Clone, Copy, PartialEq, Eq, Structural, Debug)]
pub struct NftUnstakeParams {
    pub owner: AccountAddress,
    pub token_id: u64,
    pub price: u64,
    pub token_contract_address: ContractAddress,
}

/// A claim request of the non-fungible variant.
#[derive(Clone, Copy, PartialEq, Eq, Structural, Debug)]
pub struct NftClaimParams {
    pub owner: AccountAddress,
    pub token_contract_address: ContractAddress,
}

/// The stake transition of the non-fungible variant: authorization, then the
/// balance precondition (the owner must hold the token, so one unit is
/// required), then the operator precondition, then insertion, which refuses
/// a token that is already in the global staked set. Any failure leaves the
/// ledger untouched.
pub fn stake_token(
    state: &mut NftState,
    sender: Address,
    params: &NftStakeParams,
    balance_query: Result<Vec<u64>, Cis2ClientError>,
    operator_query: Result<Vec<bool>, Cis2ClientError>,
    slot_time_millis: u64,
) -> (r: Result<(), ContractError>)
    requires
        sender == Address::Account(params.owner) && ensure_balance_outcome(balance_query, 1) is Ok
            && ensure_operator_outcome(operator_query) is Ok && old(state).token_of(
            params.token_id,
        ) is None ==> {
            &&& old(state).total_staked + params.price <= u64::MAX
            &&& old(state).staked_price_of(params.owner) + params.price <= u64::MAX
        },
    ensures
        sender != Address::Account(params.owner) ==> r == Result::<(), ContractError>::Err(
            ContractError::Unauthorized,
        ) && nft_unchanged(*old(state), *final(state)),
        sender == Address::Account(params.owner) && ensure_balance_outcome(balance_query, 1) is Err
            ==> r == Result::<(), ContractError>::Err(
            ContractError::Custom(ensure_balance_outcome(balance_query, 1)->Err_0),
        ) && nft_unchanged(*old(state), *final(state)),
        sender == Address::Account(params.owner) && ensure_balance_outcome(balance_query, 1) is Ok
            && ensure_operator_outcome(operator_query) is Err ==> r == Result::<
            (),
            ContractError,
        >::Err(ContractError::Custom(ensure_operator_outcome(operator_query)->Err_0))
            && nft_unchanged(*old(state), *final(state)),
        sender == Address::Account(params.owner) && ensure_balance_outcome(balance_query, 1) is Ok
            && ensure_operator_outcome(operator_query) is Ok && old(state).token_of(
            params.token_id,
        ) is Some ==> r == Result::<(), ContractError>::Err(
            ContractError::Custom(CustomContractError::TokenAlreadyStaked),
        ) && nft_unchanged(*old(state), *final(state)),
        sender == Address::Account(params.owner) && ensure_balance_outcome(balance_query, 1) is Ok
            && ensure_operator_outcome(operator_query) is Ok && old(state).token_of(
            params.token_id,
        ) is None ==> {
            &&& r == Result::<(), ContractError>::Ok(())
            &&& final(state).token_of(params.token_id) == Option::Some(
                (params.owner, slot_time_millis),
            )
            &&& forall|t: u64|
                t != params.token_id ==> final(state).token_of(t) == old(state).token_of(t)
            &&& final(state).staked_price_of(params.owner) == old(state).staked_price_of(
                params.owner,
            ) + params.price
            &&& forall|p: AccountAddress|
                p != params.owner ==> final(state).staked_price_of(p) == old(
                    state,
                ).staked_price_of(p)
            &&& final(state).total_staked == old(state).total_staked + params.price
        },
        old(state).well_formed() ==> final(state).well_formed(),
{
    match authorize(&sender, &params.owner) {
        Result::Err(e) => {
            return Result::Err(e);
        },
        Result::Ok(_) => {},
    }
    match ensure_balance(balance_query, 1u64) {
        Result::Err(e) => {
            return Result::Err(ContractError::Custom(e));
        },
        Result::Ok(_) => {},
    }
    match ensure_is_operator(operator_query) {
        Result::Err(e) => {
            return Result::Err(ContractError::Custom(e));
        },
        Result::Ok(_) => {},
    }
    state.insert_token(&params.owner, params.token_id, params.price, slot_time_millis)
}

/// The unstake transition of the non-fungible variant. The reward accrues on
/// the caller-supplied price from the token's recorded staking start; it is
/// computed before the entry is cleared, and the handler returns the payout
/// instruction, paid by the instance's registered owner to the transaction's
/// invoker.
pub fn unstake_token(
    state: &mut NftState,
    sender: Address,
    params: &NftUnstakeParams,
    contract_owner: AccountAddress,
    invoker: AccountAddress,
    slot_time_millis: u64,
) -> (r: Result<TransferRequest, ContractError>)
    requires
        sender == Address::Account(params.owner) ==> unique_tokens(old(state).tokens@),
        match old(state).token_of(params.token_id) {
            Option::Some(e) => sender == Address::Account(params.owner) && e.0 == params.owner
                ==> {
                &&& e.1 <= slot_time_millis
                &&& params.price * elapsed_seconds(e.1, slot_time_millis) <= u64::MAX
                &&& params.price <= old(state).staked_price_of(params.owner)
                &&& params.price <= old(state).total_staked
            },
            Option::None => true,
        },
    ensures
        sender != Address::Account(params.owner) ==> r == Result::<
            TransferRequest,
            ContractError,
        >::Err(ContractError::Unauthorized) && nft_unchanged(*old(state), *final(state)),
        sender == Address::Account(params.owner) && old(state).token_of(params.token_id) is None
            ==> r == Result::<TransferRequest, ContractError>::Err(
            ContractError::Custom(CustomContractError::TokenAlreadyStaked),
        ) && nft_unchanged(*old(state), *final(state)),
        sender == Address::Account(params.owner) && old(state).token_of(params.token_id) is Some
            && (old(state).token_of(params.token_id)->0).0 != params.owner ==> r == Result::<
            TransferRequest,
            ContractError,
        >::Err(ContractError::Custom(CustomContractError::TokenNotFound)) && nft_unchanged(
            *old(state),
            *final(state),
        ),
        sender == Address::Account(params.owner) && old(state).token_of(params.token_id) is Some
            && (old(state).token_of(params.token_id)->0).0 == params.owner ==> {
            &&& r is Ok
            &&& r->Ok_0.token_contract_address == params.token_contract_address
            &&& r->Ok_0.from == contract_owner
            &&& r->Ok_0.to == invoker
            &&& r->Ok_0.amount == reward_value(
                params.price,
                elapsed_seconds((old(state).token_of(params.token_id)->0).1, slot_time_millis),
            )
            &&& final(state).token_of(params.token_id) is None
            &&& forall|t: u64|
                t != params.token_id ==> final(state).token_of(t) == old(state).token_of(t)
            &&& final(state).staked_price_of(params.owner) == old(state).staked_price_of(
                params.owner,
            ) - params.price
            &&& forall|p: AccountAddress|
                p != params.owner ==> final(state).staked_price_of(p) == old(
                    state,
                ).staked_price_of(p)
            &&& final(state).total_staked == old(state).total_staked - params.price
        },
        old(state).well_formed() ==> final(state).well_formed(),
{
    match authorize(&sender, &params.owner) {
        Result::Err(e) => {
            return Result::Err(e);
        },
        Result::Ok(_) => {},
    }
    // The staking start is read before the entry is cleared: withdrawal pays
    // the accrual up to this slot time.
    let start = state.staked_start_of(params.token_id);
    match state.remove_token(&params.owner, params.token_id, params.price) {
        Result::Err(e) => {
            return Result::Err(e);
        },
        Result::Ok(_) => {},
    }
    let elapsed = (slot_time_millis - start) / 1000u64;
    let reward = params.price * elapsed / SECOND_PER_YEAR;
    Result::Ok(Cis2Client::transfer(params.token_contract_address, reward, contract_owner, invoker))
}

/// The claim transition of the non-fungible variant is a placeholder: it
/// authorizes the caller and performs no further action — no reward is paid
/// and no stake is cleared.
pub fn claim_reward(state: &mut NftState, sender: Address, params: &NftClaimParams) -> (r: Result<
    (),
    ContractError,
>)
    ensures
        sender != Address::Account(params.owner) ==> r == Result::<(), ContractError>::Err(
            ContractError::Unauthorized,
        ),
        sender == Address::Account(params.owner) ==> r == Result::<(), ContractError>::Ok(()),
        nft_unchanged(*old(state), *final(state)),
{
    match authorize(&sender, &params.owner) {
        Result::Err(e) => {
            return Result::Err(e);
        },
        Result::Ok(_) => {},
    }
    Result::Ok(())
}

} // verus!
