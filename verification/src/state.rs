//! The stake ledger for the fungible variant: one record per owner holding
//! the staked amount and the millisecond timestamp staking began, plus the
//! aggregate `total_staked`.
//!
//! The ledger invariant is [`State::well_formed`]: `total_staked` equals the
//! sum of all per-owner staked amounts. Every mutating operation states in
//! its contract how it moves both sides of that equation, so preservation of
//! the invariant across any sequence of operations follows from the
//! contracts alone.
//!
//! Records are stored as an association list keyed by owner. A record is
//! never deleted: removal resets it to the zero record, and an owner without
//! an entry is read as the zero record, so access is lazy get-or-create.

use vstd::prelude::*;

use crate::errors::ContractError;
use crate::reward::elapsed_seconds;
use crate::reward::reward_value;
use crate::reward::SECOND_PER_YEAR;
use crate::types::AccountAddress;

verus! {

/// One owner's stake: the staked amount and the millisecond timestamp at
/// which staking began.
#[derive(Clone, Copy, PartialEq, Eq, Structural, Debug)]
pub struct StakeState {
    pub amount: u64,
    pub staked_start_at: u64,
}

/// The zero record: nothing staked, zero start time. Owners without an
/// entry, and owners whose stake was removed, read as this record.
pub open spec fn empty_record() -> StakeState {
    StakeState { amount: 0, staked_start_at: 0 }
}

impl StakeState {
    /// A fresh, zero-valued record.
    pub fn empty() -> (r: StakeState)
        ensures
            r == empty_record(),
    {
        StakeState { amount: 0u64, staked_start_at: 0u64 }
    }
}

/// The record the association list `s` holds for `owner`: the entry nearest
/// the end of the list, or the zero record where none exists.
pub open spec fn lookup_seq(s: Seq<(AccountAddress, StakeState)>, owner: AccountAddress) -> StakeState
    decreases s.len(),
{
    if s.len() == 0 {
        empty_record()
    } else if s.last().0 == owner {
        s.last().1
    } else {
        lookup_seq(s.drop_last(), owner)
    }
}

/// The sum of all staked amounts recorded in `s`.
pub open spec fn sum_amounts(s: Seq<(AccountAddress, StakeState)>) -> int
    decreases s.len(),
{
    if s.len() == 0 {
        0
    } else {
        sum_amounts(s.drop_last()) + s.last().1.amount
    }
}

/// An entry whose owner does not recur later in the list is what the lookup
/// returns for that owner.
pub proof fn lemma_lookup_found(s: Seq<(AccountAddress, StakeState)>, i: int)
    requires
        0 <= i < s.len(),
        forall|j: int| i < j < s.len() ==> s[j].0 != s[i].0,
    ensures
        lookup_seq(s, s[i].0) == s[i].1,
    decreases s.len(),
{
    if i == s.len() - 1 {
        assert(s.last() == s[i]);
    } else {
        assert(s.last().0 != s[i].0);
        assert(s.drop_last()[i] == s[i]);
        lemma_lookup_found(s.drop_last(), i);
    }
}

/// An owner with no entry in the list reads as the zero record.
pub proof fn lemma_lookup_absent(s: Seq<(AccountAddress, StakeState)>, owner: AccountAddress)
    requires
        forall|j: int| 0 <= j < s.len() ==> s[j].0 != owner,
    ensures
        lookup_seq(s, owner) == empty_record(),
    decreases s.len(),
{
    if s.len() > 0 {
        lemma_lookup_absent(s.drop_last(), owner);
    }
}

/// Replacing the entry at one index shifts the sum by the difference of the
/// two amounts.
pub proof fn lemma_sum_update(
    s: Seq<(AccountAddress, StakeState)>,
    i: int,
    x: (AccountAddress, StakeState),
)
    requires
        0 <= i < s.len(),
    ensures
        sum_amounts(s.update(i, x)) == sum_amounts(s) - s[i].1.amount + x.1.amount,
    decreases s.len(),
{
    let t = s.update(i, x);
    if i == s.len() - 1 {
        assert(t.drop_last() =~= s.drop_last());
        assert(t.last() == x);
    } else {
        assert(t.drop_last() =~= s.drop_last().update(i, x));
        assert(t.last() == s.last());
        lemma_sum_update(s.drop_last(), i, x);
    }
}

/// Replacing the entry at one index leaves every other owner's lookup
/// unchanged.
pub proof fn lemma_lookup_update_other(
    s: Seq<(AccountAddress, StakeState)>,
    i: int,
    x: (AccountAddress, StakeState),
    p: AccountAddress,
)
    requires
        0 <= i < s.len(),
        p != s[i].0,
        p != x.0,
    ensures
        lookup_seq(s.update(i, x), p) == lookup_seq(s, p),
    decreases s.len(),
{
    let t = s.update(i, x);
    if i == s.len() - 1 {
        assert(t.drop_last() =~= s.drop_last());
        assert(t.last() == x);
    } else {
        assert(t.drop_last() =~= s.drop_last().update(i, x));
        assert(t.last() == s.last());
        lemma_lookup_update_other(s.drop_last(), i, x, p);
    }
}

/// Appending an entry adds its amount to the sum, makes its owner read as
/// it, and leaves every other owner's lookup unchanged.
pub proof fn lemma_push_effects(
    s: Seq<(AccountAddress, StakeState)>,
    x: (AccountAddress, StakeState),
)
    ensures
        sum_amounts(s.push(x)) == sum_amounts(s) + x.1.amount,
        lookup_seq(s.push(x), x.0) == x.1,
        forall|p: AccountAddress| p != x.0 ==> lookup_seq(s.push(x), p) == lookup_seq(s, p),
{
    assert(s.push(x).drop_last() =~= s);
    assert(s.push(x).last() == x);
}

/// The sum of amounts is never negative.
pub proof fn lemma_sum_nonneg(s: Seq<(AccountAddress, StakeState)>)
    ensures
        sum_amounts(s) >= 0,
    decreases s.len(),
{
    if s.len() > 0 {
        lemma_sum_nonneg(s.drop_last());
    }
}

/// No single owner's recorded amount exceeds the sum of all amounts.
pub proof fn lemma_lookup_le_sum(s: Seq<(AccountAddress, StakeState)>, owner: AccountAddress)
    ensures
        lookup_seq(s, owner).amount <= sum_amounts(s),
    decreases s.len(),
{
    if s.len() > 0 {
        if s.last().0 == owner {
            lemma_sum_nonneg(s.drop_last());
        } else {
            lemma_lookup_le_sum(s.drop_last(), owner);
        }
    }
}

/// The stake ledger: per-owner records and the aggregate total.
pub struct State {
    pub stake: Vec<(AccountAddress, StakeState)>,
    pub total_staked: u64,
}

impl State {
    /// The record held for `owner`; the zero record where none exists.
    pub open spec fn record_of(self, owner: AccountAddress) -> StakeState {
        lookup_seq(self.stake@, owner)
    }

    /// The ledger invariant: the aggregate equals the sum of all per-owner
    /// staked amounts.
    pub open spec fn well_formed(self) -> bool {
        self.total_staked == sum_amounts(self.stake@)
    }

    /// A new ledger with no stakes.
    pub fn empty() -> (r: State)
        ensures
            r.total_staked == 0,
            r.stake@.len() == 0,
            r.well_formed(),
            forall|p: AccountAddress| r.record_of(p) == empty_record(),
    {
        let r = State { stake: Vec::new(), total_staked: 0u64 };
        proof {
            assert forall|p: AccountAddress| r.record_of(p) == empty_record() by {
                lemma_lookup_absent(r.stake@, p);
            }
        }
        r
    }

    /// The index of `owner`'s entry, scanning so that any hit is the entry
    /// the lookup reads; `None` where the owner has no entry.
    fn find_owner(&self, owner: &AccountAddress) -> (r: Option<usize>)
        ensures
            match r {
                Option::Some(i) => i < self.stake@.len() && self.stake@[i as int].0 == *owner
                    && forall|j: int| i < j < self.stake@.len() ==> self.stake@[j].0 != *owner,
                Option::None => forall|j: int|
                    0 <= j < self.stake@.len() ==> self.stake@[j].0 != *owner,
            },
    {
        let mut i: usize = self.stake.len();
        while i > 0
            invariant
                i <= self.stake@.len(),
                forall|j: int| i <= j < self.stake@.len() ==> self.stake@[j].0 != *owner,
            decreases i,
        {
            i = i - 1;
            if self.stake[i].0 == *owner {
                return Option::Some(i);
            }
        }
        Option::None
    }

    /// Records a stake for `owner`: the record is set to `amount` and
    /// `staked_time` outright (re-staking replaces, it does not add), and
    /// the aggregate is debited the owner's prior amount and credited the
    /// new one, so it never double-counts. The invariant is preserved
    /// unconditionally.
    pub fn insert_token(&mut self, owner: &AccountAddress, amount: u64, staked_time: u64) -> (r:
        Result<(), ContractError>)
        requires
            old(self).record_of(*owner).amount <= old(self).total_staked,
            old(self).total_staked - old(self).record_of(*owner).amount + amount <= u64::MAX,
        ensures
            r == Result::<(), ContractError>::Ok(()),
            final(self).record_of(*owner) == (StakeState { amount, staked_start_at: staked_time }),
            forall|p: AccountAddress|
                p != *owner ==> final(self).record_of(p) == old(self).record_of(p),
            final(self).total_staked == old(self).total_staked - old(self).record_of(*owner).amount
                + amount,
            sum_amounts(final(self).stake@) == sum_amounts(old(self).stake@) - old(self).record_of(
                *owner,
            ).amount + amount,
            old(self).well_formed() ==> final(self).well_formed(),
    {
        let rec = StakeState { amount, staked_start_at: staked_time };
        match self.find_owner(owner) {
            Option::Some(i) => {
                let ghost s = self.stake@;
                proof {
                    lemma_lookup_found(s, i as int);
                }
                let key = self.stake[i].0;
                let prior = self.stake[i].1.amount;
                self.stake.set(i, (key, rec));
                self.total_staked = self.total_staked - prior + amount;
                proof {
                    lemma_sum_update(s, i as int, (key, rec));
                    assert forall|j: int|
                        i < j < self.stake@.len() implies self.stake@[j].0 != *owner by {
                        assert(self.stake@[j] == s[j]);
                    }
                    lemma_lookup_found(self.stake@, i as int);
                    assert forall|p: AccountAddress|
                        p != *owner implies lookup_seq(self.stake@, p) == lookup_seq(s, p) by {
                        lemma_lookup_update_other(s, i as int, (key, rec), p);
                    }
                }
            },
            Option::None => {
                let ghost s = self.stake@;
                proof {
                    lemma_lookup_absent(s, *owner);
                }
                self.stake.push((*owner, rec));
                self.total_staked = self.total_staked + amount;
                proof {
                    lemma_push_effects(s, (*owner, rec));
                }
            },
        }
        Result::Ok(())
    }

    /// Clears `owner`'s stake: the record is reset to the zero record and the
    /// aggregate shrinks by the amount the record held. The invariant is
    /// preserved unconditionally.
    pub fn remove_token(&mut self, owner: &AccountAddress) -> (r: Result<(), ContractError>)
        requires
            old(self).record_of(*owner).amount <= old(self).total_staked,
        ensures
            r == Result::<(), ContractError>::Ok(()),
            final(self).record_of(*owner) == empty_record(),
            forall|p: AccountAddress|
                p != *owner ==> final(self).record_of(p) == old(self).record_of(p),
            final(self).total_staked == old(self).total_staked - old(self).record_of(*owner).amount,
            sum_amounts(final(self).stake@) == sum_amounts(old(self).stake@) - old(self).record_of(
                *owner,
            ).amount,
            old(self).well_formed() ==> final(self).well_formed(),
    {
        match self.find_owner(owner) {
            Option::Some(i) => {
                let ghost s = self.stake@;
                proof {
                    lemma_lookup_found(s, i as int);
                }
                let key = self.stake[i].0;
                let prior = self.stake[i].1.amount;
                self.total_staked = self.total_staked - prior;
                self.stake.set(i, (key, StakeState::empty()));
                proof {
                    lemma_sum_update(s, i as int, (key, empty_record()));
                    assert forall|j: int|
                        i < j < self.stake@.len() implies self.stake@[j].0 != *owner by {
                        assert(self.stake@[j] == s[j]);
                    }
                    lemma_lookup_found(self.stake@, i as int);
                    assert forall|p: AccountAddress|
                        p != *owner implies lookup_seq(self.stake@, p) == lookup_seq(s, p) by {
                        lemma_lookup_update_other(s, i as int, (key, empty_record()), p);
                    }
                }
            },
            Option::None => {
                proof {
                    lemma_lookup_absent(self.stake@, *owner);
                }
            },
        }
        Result::Ok(())
    }

    /// Whole seconds `owner`'s stake has been in place at host time
    /// `curr_time` (milliseconds). The host clock must not run behind the
    /// recorded staking start.
    pub fn get_time(&self, owner: &AccountAddress, curr_time: u64) -> (r: Result<
        u64,
        ContractError,
    >)
        requires
            self.record_of(*owner).staked_start_at <= curr_time,
        ensures
            r is Ok,
            r->Ok_0 == elapsed_seconds(self.record_of(*owner).staked_start_at, curr_time),
    {
        let start = match self.find_owner(owner) {
            Option::Some(i) => {
                proof {
                    lemma_lookup_found(self.stake@, i as int);
                }
                self.stake[i].1.staked_start_at
            },
            Option::None => {
                proof {
                    lemma_lookup_absent(self.stake@, *owner);
                }
                0u64
            },
        };
        Result::Ok((curr_time - start) / 1000u64)
    }

    /// The reward owed to `owner` for `time` seconds of staking, by the
    /// fixed-rate formula. The product must fit the machine word.
    pub fn get_reward(&self, owner: &AccountAddress, time: u64) -> (r: Result<u64, ContractError>)
        requires
            self.record_of(*owner).amount * time <= u64::MAX,
        ensures
            r is Ok,
            r->Ok_0 == reward_value(self.record_of(*owner).amount, time as int),
    {
        let amount = match self.find_owner(owner) {
            Option::Some(i) => {
                proof {
                    lemma_lookup_found(self.stake@, i as int);
                }
                self.stake[i].1.amount
            },
            Option::None => {
                proof {
                    lemma_lookup_absent(self.stake@, *owner);
                }
                0u64
            },
        };
        Result::Ok(amount * time / SECOND_PER_YEAR)
    }

    /// The amount `owner` currently has staked.
    pub fn staked_amount_of(&self, owner: &AccountAddress) -> (r: u64)
        ensures
            r == self.record_of(*owner).amount,
    {
        match self.find_owner(owner) {
            Option::Some(i) => {
                proof {
                    lemma_lookup_found(self.stake@, i as int);
                }
                self.stake[i].1.amount
            },
            Option::None => {
                proof {
                    lemma_lookup_absent(self.stake@, *owner);
                }
                0u64
            },
        }
    }

    /// The millisecond timestamp at which `owner`'s stake began.
    pub fn staked_start_of(&self, owner: &AccountAddress) -> (r: u64)
        ensures
            r == self.record_of(*owner).staked_start_at,
    {
        match self.find_owner(owner) {
            Option::Some(i) => {
                proof {
                    lemma_lookup_found(self.stake@, i as int);
                }
                self.stake[i].1.staked_start_at
            },
            Option::None => {
                proof {
                    lemma_lookup_absent(self.stake@, *owner);
                }
                0u64
            },
        }
    }
}

/// Under the ledger invariant, no owner's recorded amount exceeds the
/// aggregate, so removal can never drive the aggregate negative.
pub proof fn lemma_record_le_total(state: State, owner: AccountAddress)
    requires
        state.well_formed(),
    ensures
        state.record_of(owner).amount <= state.total_staked,
{
    lemma_lookup_le_sum(state.stake@, owner);
}

} // verus!
