//! Weekly boosted-yield splitter.
//!
//! Boosted rewards are apportioned per discrete week, weighted by a
//! time-decaying per-user energy metric. Each week has a bucket of totals;
//! the bucket of a past week is frozen. A user's claim progress records the
//! last settled week; on any interaction the user catches up across all
//! skipped weeks, taking for each one the proportional share
//! `rewards * user_energy / total_energy` of that week's frozen totals,
//! with the user's energy as of that week (the energy oracle is
//! authoritative per week). A week with zero total energy owes nothing.

use vstd::prelude::*;
use crate::math::{lemma_share_le_whole, mul_div_spec};
use vstd::arithmetic::mul::lemma_mul_upper_bound;

verus! {

/// Accumulated totals of one week. Frozen once the week has elapsed.
#[derive(Clone, Copy, PartialEq, Eq, Structural, Debug)]
pub struct WeeklyBucket {
    /// Boosted rewards accumulated for this week.
    pub total_rewards: u64,
    /// Total user energy registered for this week.
    pub total_energy: u64,
    /// Total locked tokens registered for this week.
    pub total_locked_tokens: u64,
}

/// A user's boosted-reward settlement checkpoint. Advanced monotonically;
/// created on first interaction.
#[derive(Clone, Copy, PartialEq, Eq, Structural, Debug)]
pub struct ClaimProgress {
    /// Last week index for which boosted rewards were settled.
    pub last_claimed_week: usize,
    /// Energy snapshot taken at the last settlement, used to project the
    /// user forward into weeks they did not touch.
    pub cached_energy: u64,
}

/// The bucket of week `w` in a table indexed by week; weeks the table does
/// not reach have empty, zero-valued buckets.
pub open spec fn bucket_at(buckets: Seq<WeeklyBucket>, w: int) -> WeeklyBucket {
    if 0 <= w < buckets.len() {
        buckets[w]
    } else {
        WeeklyBucket { total_rewards: 0, total_energy: 0, total_locked_tokens: 0 }
    }
}

/// A user's share of one week: `total_rewards * user_energy / total_energy`
/// of the week's totals, and zero where the week has no energy at all.
pub open spec fn week_share_spec(b: WeeklyBucket, user_energy: int) -> int {
    if b.total_energy == 0 {
        0
    } else {
        mul_div_spec(b.total_rewards as int, user_energy, b.total_energy as int)
    }
}

/// Total owed across `count` weeks starting at `start`, with `energies[i]`
/// the user's energy as of week `start + i`.
pub open spec fn owed_range(
    buckets: Seq<WeeklyBucket>,
    start: int,
    count: nat,
    energies: Seq<u64>,
) -> int
    decreases count,
{
    if count == 0 {
        0
    } else {
        week_share_spec(bucket_at(buckets, start), energies[0] as int) + owed_range(
            buckets,
            start + 1,
            (count - 1) as nat,
            energies.skip(1),
        )
    }
}

/// The oracle's per-week energies are coherent with the buckets: a user
/// never holds more energy in a week than the week's registered total.
pub open spec fn energies_valid(
    buckets: Seq<WeeklyBucket>,
    start: int,
    energies: Seq<u64>,
) -> bool {
    forall|i: int|
        0 <= i < energies.len() ==> energies[i]
            <= bucket_at(buckets, start + i).total_energy
}

/// A single week's share never exceeds that week's rewards.
pub proof fn lemma_week_share_bound(b: WeeklyBucket, user_energy: int)
    requires
        0 <= user_energy <= b.total_energy,
    ensures
        0 <= week_share_spec(b, user_energy) <= b.total_rewards,
{
    if b.total_energy != 0 {
        lemma_share_le_whole(b.total_rewards as int, user_energy, b.total_energy as int);
        vstd::arithmetic::div_mod::lemma_div_pos_is_pos(
            b.total_rewards as int * user_energy,
            b.total_energy as int,
        );
        assert(b.total_rewards as int * user_energy >= 0) by (nonlinear_arith)
            requires
                b.total_rewards >= 0,
                user_energy >= 0,
        ;
    }
}

/// Catch-up is order independent: settling the first `k` skipped weeks and
/// then the rest yields exactly the total of settling them all in one call,
/// for every split point `k`. Settling week by week is the repeated case.
pub proof fn lemma_catch_up_split(
    buckets: Seq<WeeklyBucket>,
    start: int,
    count: nat,
    energies: Seq<u64>,
    k: nat,
)
    requires
        energies.len() == count,
        k <= count,
    ensures
        owed_range(buckets, start, count, energies) == owed_range(
            buckets,
            start,
            k,
            energies.take(k as int),
        ) + owed_range(buckets, start + k, (count - k) as nat, energies.skip(k as int)),
    decreases k,
{
    if k == 0 {
        assert(energies.skip(0) =~= energies);
    } else {
        lemma_catch_up_split(
            buckets,
            start + 1,
            (count - 1) as nat,
            energies.skip(1),
            (k - 1) as nat,
        );
        assert(energies.skip(1).take(k - 1) =~= energies.take(k as int).skip(1));
        assert(energies.skip(1).skip(k - 1) =~= energies.skip(k as int));
        assert(energies.take(k as int)[0] == energies[0]);
    }
}

/// Computes a user's share of one week's totals.
pub fn week_share(b: &WeeklyBucket, user_energy: u64) -> (r: u64)
    requires
        user_energy <= b.total_energy,
    ensures
        r == week_share_spec(*b, user_energy as int),
        r <= b.total_rewards,
{
    if b.total_energy == 0 {
        0
    } else {
        proof {
            lemma_week_share_bound(*b, user_energy as int);
            lemma_mul_upper_bound(
                b.total_rewards as int,
                u64::MAX as int,
                user_energy as int,
                u64::MAX as int,
            );
        }
        (((b.total_rewards as u128) * (user_energy as u128)) / (b.total_energy as u128)) as u64
    }
}

/// A user's share of the still-open current week, computed on demand from
/// the live totals. Nothing is persisted for the current week until it
/// closes, so this value can change until then.
pub fn current_week_live_share(
    buckets: &Vec<WeeklyBucket>,
    current_week: usize,
    user_energy: u64,
) -> (r: u64)
    requires
        user_energy <= bucket_at(buckets@, current_week as int).total_energy,
    ensures
        r == week_share_spec(bucket_at(buckets@, current_week as int), user_energy as int),
{
    if current_week < buckets.len() {
        week_share(&buckets[current_week], user_energy)
    } else {
        0
    }
}

/// Settles `count` weeks starting at `start` against the frozen bucket
/// table, returning the total owed. `energies[i]` is the oracle's value for
/// the user's energy as of week `start + i`.
pub fn settle_weeks(
    buckets: &Vec<WeeklyBucket>,
    start: usize,
    count: usize,
    energies: &Vec<u64>,
) -> (owed: u128)
    requires
        energies@.len() == count,
        start + count <= usize::MAX,
        energies_valid(buckets@, start as int, energies@),
    ensures
        owed == owed_range(buckets@, start as int, count as nat, energies@),
{
    let mut acc: u128 = 0;
    let mut i: usize = 0;
    while i < count
        invariant
            i <= count,
            energies@.len() == count,
            start + count <= usize::MAX,
            energies_valid(buckets@, start as int, energies@),
            acc == owed_range(buckets@, start as int, i as nat, energies@.take(i as int)),
            acc <= i * u64::MAX,
        decreases count - i,
    {
        let w = start + i;
        let share: u64 = if w < buckets.len() {
            let e = energies[i];
            proof {
                assert(energies@[i as int] <= bucket_at(buckets@, start + i).total_energy);
            }
            week_share(&buckets[w], e)
        } else {
            proof {
                assert(energies@[i as int] <= bucket_at(buckets@, start + i).total_energy);
            }
            0
        };
        proof {
            lemma_week_share_bound(bucket_at(buckets@, start + i), energies@[i as int] as int);
            lemma_catch_up_split(
                buckets@,
                start as int,
                (i + 1) as nat,
                energies@.take(i + 1),
                i as nat,
            );
            assert(energies@.take(i + 1).take(i as int) =~= energies@.take(i as int));
            assert(energies@.take(i + 1).skip(i as int) =~= seq![energies@[i as int]]);
            assert(owed_range(buckets@, start + i + 1, 0nat, seq![energies@[i as int]].skip(1))
                == 0);
            assert(owed_range(buckets@, start + i, 1nat, seq![energies@[i as int]])
                == week_share_spec(bucket_at(buckets@, start + i), energies@[i as int] as int));
            assert(i * u64::MAX + u64::MAX == (i + 1) * u64::MAX) by (nonlinear_arith);
            assert((i + 1) * u64::MAX <= u64::MAX * (u64::MAX as int)) by (nonlinear_arith)
                requires
                    i + 1 <= u64::MAX,
            ;
        }
        acc = acc + (share as u128);
        i = i + 1;
    }
    proof {
        assert(energies@.take(count as int) =~= energies@);
    }
    acc
}

/// Advances a user's claim progress to the current week, returning the
/// boosted reward owed for all skipped weeks. Progress never moves
/// backwards, and the energy snapshot is refreshed to the current value.
pub fn advance_claim_progress(
    progress: &mut ClaimProgress,
    buckets: &Vec<WeeklyBucket>,
    energies: &Vec<u64>,
    current_week: usize,
    current_energy: u64,
) -> (owed: u128)
    requires
        old(progress).last_claimed_week <= current_week,
        energies@.len() == current_week - old(progress).last_claimed_week,
        energies_valid(buckets@, old(progress).last_claimed_week as int, energies@),
    ensures
        final(progress).last_claimed_week == current_week,
        final(progress).cached_energy == current_energy,
        owed == owed_range(
            buckets@,
            old(progress).last_claimed_week as int,
            (current_week - old(progress).last_claimed_week) as nat,
            energies@,
        ),
{
    let owed = settle_weeks(
        buckets,
        progress.last_claimed_week,
        current_week - progress.last_claimed_week,
        energies,
    );
    progress.last_claimed_week = current_week;
    progress.cached_energy = current_energy;
    owed
}

/// Extends the bucket table with empty buckets so that `week` is a valid
/// index; existing buckets, frozen or current, are untouched.
pub fn extend_buckets_to(buckets: &mut Vec<WeeklyBucket>, week: usize)
    requires
        week < usize::MAX,
    ensures
        final(buckets)@.len() >= week + 1,
        final(buckets)@.len() >= old(buckets)@.len(),
        forall|i: int|
            0 <= i < old(buckets)@.len() ==> final(buckets)@[i] == old(buckets)@[i],
        forall|i: int|
            old(buckets)@.len() <= i < final(buckets)@.len() ==> final(buckets)@[i]
                == (WeeklyBucket { total_rewards: 0, total_energy: 0, total_locked_tokens: 0 }),
{
    while buckets.len() < week + 1
        invariant
            week < usize::MAX,
            buckets@.len() >= old(buckets)@.len(),
            forall|i: int|
                0 <= i < old(buckets)@.len() ==> buckets@[i] == old(buckets)@[i],
            forall|i: int|
                old(buckets)@.len() <= i < buckets@.len() ==> buckets@[i]
                    == (WeeklyBucket { total_rewards: 0, total_energy: 0, total_locked_tokens: 0 }),
        decreases week + 1 - buckets@.len(),
    {
        buckets.push(WeeklyBucket { total_rewards: 0, total_energy: 0, total_locked_tokens: 0 });
    }
}

/// Adds boosted rewards to the bucket of `week`. Only the current week is
/// ever passed here: past weeks stay frozen.
pub fn add_rewards_for_week(buckets: &mut Vec<WeeklyBucket>, week: usize, amount: u64)
    requires
        week < old(buckets)@.len(),
        old(buckets)@[week as int].total_rewards + amount <= u64::MAX,
    ensures
        final(buckets)@.len() == old(buckets)@.len(),
        final(buckets)@[week as int].total_rewards
            == old(buckets)@[week as int].total_rewards + amount,
        final(buckets)@[week as int].total_energy == old(buckets)@[week as int].total_energy,
        final(buckets)@[week as int].total_locked_tokens
            == old(buckets)@[week as int].total_locked_tokens,
        forall|i: int|
            0 <= i < old(buckets)@.len() && i != week ==> final(buckets)@[i]
                == old(buckets)@[i],
{
    let b = &buckets[week];
    let updated = WeeklyBucket {
        total_rewards: b.total_rewards + amount,
        total_energy: b.total_energy,
        total_locked_tokens: b.total_locked_tokens,
    };
    buckets.set(week, updated);
}

/// Overwrites the live energy and locked-token totals of the bucket of
/// `week`. Only the current, still-open week is ever passed here.
pub fn set_week_totals(
    buckets: &mut Vec<WeeklyBucket>,
    week: usize,
    total_energy: u64,
    total_locked_tokens: u64,
)
    requires
        week < old(buckets)@.len(),
    ensures
        final(buckets)@.len() == old(buckets)@.len(),
        final(buckets)@[week as int].total_rewards == old(buckets)@[week as int].total_rewards,
        final(buckets)@[week as int].total_energy == total_energy,
        final(buckets)@[week as int].total_locked_tokens == total_locked_tokens,
        forall|i: int|
            0 <= i < old(buckets)@.len() && i != week ==> final(buckets)@[i]
                == old(buckets)@[i],
{
    let b = &buckets[week];
    let updated = WeeklyBucket {
        total_rewards: b.total_rewards,
        total_energy,
        total_locked_tokens,
    };
    buckets.set(week, updated);
}

/// The week an epoch falls in, counted from the protocol's first week.
pub fn week_of_epoch(epoch: u64, first_week_start_epoch: u64, epochs_per_week: u64) -> (w: u64)
    requires
        1 <= epochs_per_week,
        first_week_start_epoch <= epoch,
    ensures
        w == (epoch - first_week_start_epoch) as int / epochs_per_week as int,
{
    (epoch - first_week_start_epoch) / epochs_per_week
}

} // verus!
