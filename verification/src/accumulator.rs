//! Global reward accumulator: per-block emission into a reward-per-share
//! ledger.
//!
//! `sync` brings the ledger up to the current block. Emission over the elapsed
//! blocks is capped by the unallocated reserve and by the lifetime capacity,
//! and is folded into `reward_per_share` scaled by the division-safety
//! constant, with floor rounding so the reserve is never over-paid. While the
//! staked supply is zero the block marker still advances but nothing accrues,
//! so returning stake earns no retroactive back-payment.

use vstd::prelude::*;
use crate::math::{lemma_quotient_le_numerator, mul_div_spec};
use vstd::arithmetic::mul::{lemma_mul_inequality, lemma_mul_is_distributive_add_other_way,
    lemma_mul_upper_bound};

verus! {

/// Process-wide reward ledger and its emission configuration.
#[derive(Clone, Copy, PartialEq, Eq, Structural, Debug)]
pub struct RewardState {
    /// Cumulative reward earned by one unit of stake, scaled by
    /// `division_safety`. Monotonically non-decreasing.
    pub reward_per_share: u128,
    /// Unallocated rewards still available to distribute.
    pub reward_reserve: u64,
    /// Last block at which emission was applied.
    pub last_reward_block: u64,
    /// Configured emission per block.
    pub per_block_reward: u64,
    /// Hard cap on cumulative emission over the ledger's lifetime.
    pub reward_capacity: u64,
    /// Cumulative emission so far; never exceeds `reward_capacity`.
    pub accumulated_rewards: u64,
    /// Fixed-point scale applied to `reward_per_share`.
    pub division_safety: u64,
    /// Configured annual percentage bound on the emission rate, kept for
    /// operator queries.
    pub annual_percentage_cap: u64,
}

impl RewardState {
    /// Structural invariant: the scale is positive, emission stays within
    /// capacity, and the per-share ledger is bounded by what was ever
    /// emitted (which is what rules out overflow of the `u128` ledger).
    pub open spec fn well_formed(self) -> bool {
        &&& 1 <= self.division_safety
        &&& self.accumulated_rewards <= self.reward_capacity
        &&& self.reward_per_share as int
            <= self.accumulated_rewards as int * self.division_safety as int
    }

    /// Emission owed for a sync at `current_block` with `staked_supply` units
    /// staked: `min(elapsed * per_block_reward, reserve, remaining capacity)`,
    /// and nothing while no stake is present.
    pub open spec fn emission_amount(self, current_block: int, staked_supply: int) -> int {
        let elapsed = current_block - self.last_reward_block;
        if elapsed <= 0 || staked_supply <= 0 {
            0
        } else {
            let by_rate = elapsed * self.per_block_reward as int;
            let remaining = self.reward_capacity as int - self.accumulated_rewards as int;
            if by_rate <= self.reward_reserve as int && by_rate <= remaining {
                by_rate
            } else if self.reward_reserve as int <= remaining {
                self.reward_reserve as int
            } else {
                remaining
            }
        }
    }

    /// The state after a sync at `current_block`: the block marker advances,
    /// the emission moves from the reserve into the per-share ledger (scaled
    /// and floor-divided by the staked supply), and the configuration is
    /// untouched.
    pub open spec fn synced(self, current_block: int, staked_supply: int) -> RewardState {
        let emission = self.emission_amount(current_block, staked_supply);
        let delta = if staked_supply > 0 {
            mul_div_spec(emission, self.division_safety as int, staked_supply)
        } else {
            0
        };
        RewardState {
            reward_per_share: (self.reward_per_share + delta) as u128,
            reward_reserve: (self.reward_reserve - emission) as u64,
            last_reward_block: current_block as u64,
            accumulated_rewards: (self.accumulated_rewards + emission) as u64,
            ..self
        }
    }

    /// Creates a ledger that has emitted nothing yet.
    pub fn initial(
        per_block_reward: u64,
        division_safety: u64,
        annual_percentage_cap: u64,
        first_block: u64,
    ) -> (r: RewardState)
        requires
            1 <= division_safety,
        ensures
            r.well_formed(),
            r.reward_per_share == 0,
            r.reward_reserve == 0,
            r.reward_capacity == 0,
            r.accumulated_rewards == 0,
            r.last_reward_block == first_block,
            r.per_block_reward == per_block_reward,
            r.division_safety == division_safety,
            r.annual_percentage_cap == annual_percentage_cap,
    {
        RewardState {
            reward_per_share: 0,
            reward_reserve: 0,
            last_reward_block: first_block,
            per_block_reward,
            reward_capacity: 0,
            accumulated_rewards: 0,
            division_safety,
            annual_percentage_cap,
        }
    }

    /// Adds fresh rewards to the reserve and raises the lifetime capacity by
    /// the same amount.
    pub fn top_up(&mut self, amount: u64)
        requires
            old(self).well_formed(),
            old(self).reward_reserve + amount <= u64::MAX,
            old(self).reward_capacity + amount <= u64::MAX,
        ensures
            final(self).well_formed(),
            *final(self) == (RewardState {
                reward_reserve: (old(self).reward_reserve + amount) as u64,
                reward_capacity: (old(self).reward_capacity + amount) as u64,
                ..*old(self)
            }),
    {
        self.reward_reserve = self.reward_reserve + amount;
        self.reward_capacity = self.reward_capacity + amount;
    }

    /// Withdraws undistributed rewards, shrinking reserve and capacity alike.
    pub fn withdraw(&mut self, amount: u64)
        requires
            old(self).well_formed(),
            amount <= old(self).reward_reserve,
            old(self).accumulated_rewards + amount <= old(self).reward_capacity,
        ensures
            final(self).well_formed(),
            *final(self) == (RewardState {
                reward_reserve: (old(self).reward_reserve - amount) as u64,
                reward_capacity: (old(self).reward_capacity - amount) as u64,
                ..*old(self)
            }),
    {
        self.reward_reserve = self.reward_reserve - amount;
        self.reward_capacity = self.reward_capacity - amount;
    }

    /// Applies all emission owed up to `current_block`.
    pub fn sync(&mut self, current_block: u64, staked_supply: u64)
        requires
            old(self).well_formed(),
            old(self).last_reward_block <= current_block,
        ensures
            final(self).well_formed(),
            *final(self) == old(self).synced(current_block as int, staked_supply as int),
            old(self).reward_per_share <= final(self).reward_per_share,
            old(self).last_reward_block == current_block ==> *final(self) == *old(self),
    {
        proof {
            lemma_sync_within_bounds(*old(self), current_block as int, staked_supply as int);
        }
        let elapsed: u64 = current_block - self.last_reward_block;
        if elapsed > 0 && staked_supply > 0 {
            let by_rate: u128 = (elapsed as u128) * (self.per_block_reward as u128);
            proof {
                assert(by_rate == (current_block - old(self).last_reward_block)
                    * old(self).per_block_reward as int);
            }
            let remaining: u64 = self.reward_capacity - self.accumulated_rewards;
            let capped: u64 = if by_rate <= self.reward_reserve as u128 {
                by_rate as u64
            } else {
                self.reward_reserve
            };
            let emission: u64 = if capped <= remaining {
                capped
            } else {
                remaining
            };
            proof {
                assert(emission
                    == old(self).emission_amount(current_block as int, staked_supply as int));
            }
            let delta: u128 = crate::math::mul_div(
                emission as u128,
                self.division_safety,
                staked_supply,
            );
            self.reward_per_share = self.reward_per_share + delta;
            self.reward_reserve = self.reward_reserve - emission;
            self.accumulated_rewards = self.accumulated_rewards + emission;
        }
        self.last_reward_block = current_block;
    }
}

/// The emission of one sync fits every bound the executable arithmetic needs:
/// it stays within the reserve and the remaining capacity, and the per-share
/// ledger after the sync is still bounded by emission times scale.
pub proof fn lemma_sync_within_bounds(s: RewardState, current_block: int, staked_supply: int)
    requires
        s.well_formed(),
        s.last_reward_block <= current_block <= u64::MAX,
    ensures
        0 <= s.emission_amount(current_block, staked_supply),
        s.emission_amount(current_block, staked_supply) <= s.reward_reserve,
        s.accumulated_rewards + s.emission_amount(current_block, staked_supply)
            <= s.reward_capacity,
        (current_block - s.last_reward_block) * s.per_block_reward as int <= u128::MAX,
        0 <= (current_block - s.last_reward_block) * s.per_block_reward as int,
        staked_supply > 0 ==> mul_div_spec(
            s.emission_amount(current_block, staked_supply),
            s.division_safety as int,
            staked_supply,
        ) <= u128::MAX - s.reward_per_share,
        staked_supply > 0 ==> 0 <= mul_div_spec(
            s.emission_amount(current_block, staked_supply),
            s.division_safety as int,
            staked_supply,
        ),
        s.synced(current_block, staked_supply).well_formed(),
        s.reward_per_share <= s.synced(current_block, staked_supply).reward_per_share,
{
    let e = s.emission_amount(current_block, staked_supply);
    let p = s.division_safety as int;
    let acc = s.accumulated_rewards as int;
    let elapsed = current_block - s.last_reward_block;
    lemma_mul_upper_bound(elapsed, u64::MAX as int, s.per_block_reward as int, u64::MAX as int);
    assert(elapsed * s.per_block_reward as int >= 0) by (nonlinear_arith)
        requires
            elapsed >= 0,
            s.per_block_reward >= 0,
    ;
    let delta = if staked_supply > 0 {
        mul_div_spec(e, p, staked_supply)
    } else {
        0
    };
    if staked_supply > 0 {
        lemma_mul_upper_bound(e, u64::MAX as int, p, u64::MAX as int);
        assert(e * p >= 0) by (nonlinear_arith)
            requires
                e >= 0,
                p >= 0,
        ;
        lemma_quotient_le_numerator(e * p, staked_supply);
    }
    assert(s.reward_per_share + delta <= (acc + e) * p) by {
        lemma_mul_is_distributive_add_other_way(p, acc, e);
    }
    lemma_mul_inequality(acc + e, s.reward_capacity as int, p);
    lemma_mul_upper_bound(s.reward_capacity as int, u64::MAX as int, p, u64::MAX as int);
}

/// Reward-per-share is monotone under sync, whatever the call pattern: any
/// chain of syncs at non-decreasing blocks only ever raises the ledger.
pub proof fn lemma_sync_monotonic(s: RewardState, current_block: int, staked_supply: int)
    requires
        s.well_formed(),
        s.last_reward_block <= current_block <= u64::MAX,
    ensures
        s.reward_per_share <= s.synced(current_block, staked_supply).reward_per_share,
        s.synced(current_block, staked_supply).well_formed(),
        s.synced(current_block, staked_supply).last_reward_block == current_block,
{
    lemma_sync_within_bounds(s, current_block, staked_supply);
}

/// Syncing is idempotent by block: a second sync at the same block is a
/// no-op, so batching or repeating calls changes nothing.
pub proof fn lemma_sync_idempotent(s: RewardState, current_block: int, staked_supply: int)
    requires
        s.well_formed(),
        s.last_reward_block <= current_block <= u64::MAX,
    ensures
        s.synced(current_block, staked_supply).synced(current_block, staked_supply)
            == s.synced(current_block, staked_supply),
{
    lemma_sync_within_bounds(s, current_block, staked_supply);
    let s1 = s.synced(current_block, staked_supply);
    assert(s1.emission_amount(current_block, staked_supply) == 0);
    if staked_supply > 0 {
        vstd::arithmetic::div_mod::lemma_div_of0(staked_supply);
        assert(mul_div_spec(0, s1.division_safety as int, staked_supply) == 0);
    }
    assert(s1.synced(current_block, staked_supply) == s1);
}

/// Lifetime emission never exceeds the configured capacity, and emission is
/// always covered by the reserve, so the reserve cannot go negative.
pub proof fn lemma_emission_within_capacity(s: RewardState, current_block: int, staked_supply: int)
    requires
        s.well_formed(),
        s.last_reward_block <= current_block <= u64::MAX,
    ensures
        s.emission_amount(current_block, staked_supply) <= s.reward_reserve,
        s.synced(current_block, staked_supply).accumulated_rewards <= s.reward_capacity,
        s.synced(current_block, staked_supply).reward_reserve
            == s.reward_reserve - s.emission_amount(current_block, staked_supply),
{
    lemma_sync_within_bounds(s, current_block, staked_supply);
}

} // verus!
