//! The reward engine: elapsed staking time and the fixed-rate, simple-interest
//! reward formula.
//!
//! Rewards accrue linearly per second at an annualized rate of one unit of
//! reward per unit of principal per year. Division is integer (floor)
//! division: sub-second and sub-unit remainders are lost, never carried
//! forward, so rewards are always rounded down.

use vstd::prelude::*;

verus! {

/// The number of seconds in one year: the denominator of the reward formula.
pub const SECOND_PER_YEAR: u64 = 365 * 24 * 60 * 60;

/// Whole seconds elapsed between the millisecond timestamps `staked_start_at`
/// and `now_millis` (floor of the millisecond delta over 1000).
pub open spec fn elapsed_seconds(staked_start_at: u64, now_millis: u64) -> int {
    (now_millis - staked_start_at) / 1000
}

/// The reward owed for `amount` units of principal staked for `elapsed_secs`
/// seconds: `floor(amount * elapsed_secs / SECOND_PER_YEAR)`.
pub open spec fn reward_value(amount: u64, elapsed_secs: int) -> int {
    amount * elapsed_secs / (SECOND_PER_YEAR as int)
}

/// For a fixed principal, the reward is non-decreasing in elapsed time.
pub proof fn lemma_reward_monotonic(amount: u64, t1: int, t2: int)
    requires
        0 <= t1 <= t2,
    ensures
        reward_value(amount, t1) <= reward_value(amount, t2),
{
    vstd::arithmetic::mul::lemma_mul_inequality(t1, t2, amount as int);
    vstd::arithmetic::mul::lemma_mul_is_commutative(t1, amount as int);
    vstd::arithmetic::mul::lemma_mul_is_commutative(t2, amount as int);
    vstd::arithmetic::div_mod::lemma_div_is_ordered(
        amount as int * t1,
        amount as int * t2,
        SECOND_PER_YEAR as int,
    );
}

/// For a fixed principal and staking start, the reward is non-decreasing in
/// the host's clock: a later slot time never pays less.
pub proof fn lemma_reward_monotonic_in_time(
    amount: u64,
    staked_start_at: u64,
    now1: u64,
    now2: u64,
)
    requires
        staked_start_at <= now1 <= now2,
    ensures
        reward_value(amount, elapsed_seconds(staked_start_at, now1)) <= reward_value(
            amount,
            elapsed_seconds(staked_start_at, now2),
        ),
{
    vstd::arithmetic::div_mod::lemma_div_is_ordered(
        now1 - staked_start_at,
        now2 - staked_start_at,
        1000,
    );
    vstd::arithmetic::div_mod::lemma_div_pos_is_pos(now1 - staked_start_at, 1000);
    lemma_reward_monotonic(
        amount,
        elapsed_seconds(staked_start_at, now1),
        elapsed_seconds(staked_start_at, now2),
    );
}

} // verus!
