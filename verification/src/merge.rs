//! Position merge engine.
//!
//! Every lifecycle action is one primitive: crystallize the pending reward
//! of the existing record under its old stake weight, then issue a fresh
//! record at the current reward-per-share checkpoint. Stake adds the deposit
//! to the amount, claim and unstake add nothing, compound routes the pending
//! reward back into the amount. Because pending reward is always computed
//! before the weight changes, merges neither lose nor double-count reward.

use vstd::prelude::*;
use crate::math::{lemma_mul_div_split, mul_div, mul_div_spec};
use crate::position::Position;
use vstd::arithmetic::div_mod::{
    lemma_div_is_ordered, lemma_fundamental_div_mod, lemma_mod_division_less_than_divisor,
};
use vstd::arithmetic::mul::lemma_mul_upper_bound;

verus! {

/// Reward owed to a record since its checkpoint:
/// `(current_rps - checkpoint) * staked_amount / division_safety`,
/// floor-rounded.
pub open spec fn pending_reward_spec(p: Position, current_rps: int, division_safety: int) -> int {
    mul_div_spec(current_rps - p.reward_per_share_checkpoint, p.staked_amount as int,
        division_safety)
}

/// A record is coherent with a ledger when its checkpoint does not lie in
/// the ledger's future.
pub open spec fn checkpoint_valid(p: Position, current_rps: int) -> bool {
    p.reward_per_share_checkpoint <= current_rps
}

/// The pending reward of any record fits the machine word: the
/// reward-per-share ledger is bounded by `emitted * division_safety`
/// (see the accumulator's invariant), which caps the quotient.
pub proof fn lemma_pending_reward_bound(p: Position, current_rps: int, division_safety: int)
    requires
        1 <= division_safety,
        checkpoint_valid(p, current_rps),
        current_rps <= u64::MAX * division_safety,
    ensures
        0 <= pending_reward_spec(p, current_rps, division_safety) <= u64::MAX * u64::MAX,
{
    let diff = current_rps - p.reward_per_share_checkpoint;
    let a = p.staked_amount as int;
    lemma_mul_div_split(diff, a, division_safety);
    let q = diff / division_safety;
    let r = diff % division_safety;
    assert(0 <= q <= u64::MAX) by {
        lemma_div_is_ordered(diff, u64::MAX * division_safety, division_safety);
        vstd::arithmetic::div_mod::lemma_div_by_multiple(u64::MAX as int, division_safety);
        vstd::arithmetic::div_mod::lemma_div_pos_is_pos(diff, division_safety);
        assert(u64::MAX * division_safety == (u64::MAX as int) * division_safety);
    }
    lemma_mod_division_less_than_divisor(diff, division_safety);
    assert(0 <= r * a) by (nonlinear_arith)
        requires
            0 <= r,
            0 <= a,
    ;
    assert(0 <= (r * a) / division_safety) by {
        vstd::arithmetic::div_mod::lemma_div_pos_is_pos(r * a, division_safety);
    }
    assert(0 <= q * a) by (nonlinear_arith)
        requires
            0 <= q,
            0 <= a,
    ;
    // Upper bound: diff * a <= (MAX * a) * p, so the quotient is at most
    // MAX * a, which is at most MAX * MAX.
    assert(diff * a <= (u64::MAX as int * a) * division_safety) by (nonlinear_arith)
        requires
            0 <= diff <= u64::MAX * division_safety,
            0 <= a,
            1 <= division_safety,
    ;
    assert(0 <= diff * a) by (nonlinear_arith)
        requires
            0 <= diff,
            0 <= a,
    ;
    lemma_div_is_ordered(diff * a, (u64::MAX as int * a) * division_safety, division_safety);
    vstd::arithmetic::div_mod::lemma_div_by_multiple(u64::MAX as int * a, division_safety);
    assert(u64::MAX as int * a <= u64::MAX * u64::MAX) by {
        lemma_mul_upper_bound(u64::MAX as int, u64::MAX as int, a, u64::MAX as int);
        assert(u64::MAX as int * a == a * (u64::MAX as int)) by (nonlinear_arith);
    }
}

/// Computes the reward owed to `p` since its checkpoint.
pub fn pending_reward(p: &Position, current_rps: u128, division_safety: u64) -> (r: u128)
    requires
        1 <= division_safety,
        checkpoint_valid(*p, current_rps as int),
        current_rps <= u64::MAX * division_safety,
    ensures
        r == pending_reward_spec(*p, current_rps as int, division_safety as int),
        r <= u64::MAX * u64::MAX,
{
    proof {
        lemma_pending_reward_bound(*p, current_rps as int, division_safety as int);
    }
    let diff: u128 = current_rps - p.reward_per_share_checkpoint;
    mul_div(diff, p.staked_amount, division_safety)
}

/// Enters the farm: merges an optional existing record with a fresh deposit.
///
/// With no existing record the result is a fresh record checkpointed at the
/// current ledger with zero pending reward. With one, the pending reward is
/// crystallized under the old stake weight first, and the merged record
/// carries the combined amount at the current checkpoint.
pub fn enter_position(
    existing: Option<&Position>,
    deposit_amount: u64,
    current_rps: u128,
    division_safety: u64,
    current_epoch: u64,
) -> (r: (Position, u128))
    requires
        1 <= division_safety,
        current_rps <= u64::MAX * division_safety,
        existing matches Some(p) ==> checkpoint_valid(*p, current_rps as int),
        existing matches Some(p) ==> p.staked_amount + deposit_amount <= u64::MAX,
    ensures
        r.0.reward_per_share_checkpoint == current_rps,
        r.0.entering_epoch == current_epoch,
        existing is None ==> r.0.staked_amount == deposit_amount && r.1 == 0,
        existing matches Some(p) ==> r.0.staked_amount == p.staked_amount + deposit_amount
            && r.1 == pending_reward_spec(*p, current_rps as int, division_safety as int),
{
    match existing {
        None => (
            Position {
                staked_amount: deposit_amount,
                reward_per_share_checkpoint: current_rps,
                entering_epoch: current_epoch,
            },
            0,
        ),
        Some(p) => {
            let pending = pending_reward(p, current_rps, division_safety);
            (
                Position {
                    staked_amount: p.staked_amount + deposit_amount,
                    reward_per_share_checkpoint: current_rps,
                    entering_epoch: current_epoch,
                },
                pending,
            )
        },
    }
}

/// Claims: crystallizes the pending reward and reissues the record with the
/// same amount at the current checkpoint. The old record is consumed.
pub fn harvest_position(
    p: &Position,
    current_rps: u128,
    division_safety: u64,
    current_epoch: u64,
) -> (r: (Position, u128))
    requires
        1 <= division_safety,
        checkpoint_valid(*p, current_rps as int),
        current_rps <= u64::MAX * division_safety,
    ensures
        r.0.staked_amount == p.staked_amount,
        r.0.reward_per_share_checkpoint == current_rps,
        r.0.entering_epoch == current_epoch,
        r.1 == pending_reward_spec(*p, current_rps as int, division_safety as int),
{
    let pending = pending_reward(p, current_rps, division_safety);
    (
        Position {
            staked_amount: p.staked_amount,
            reward_per_share_checkpoint: current_rps,
            entering_epoch: current_epoch,
        },
        pending,
    )
}

/// Compounds: the pending reward is routed back into the staked amount
/// instead of being paid out. Fails when the combined amount would not fit
/// the farming token's word size.
pub fn compound_position(
    p: &Position,
    current_rps: u128,
    division_safety: u64,
    current_epoch: u64,
) -> (r: Option<(Position, u128)>)
    requires
        1 <= division_safety,
        checkpoint_valid(*p, current_rps as int),
        current_rps <= u64::MAX * division_safety,
    ensures
        ({
            let pending = pending_reward_spec(*p, current_rps as int, division_safety as int);
            if p.staked_amount + pending <= u64::MAX {
                r matches Some(out) && out.1 == pending
                    && out.0.staked_amount == p.staked_amount + pending
                    && out.0.reward_per_share_checkpoint == current_rps
                    && out.0.entering_epoch == current_epoch
            } else {
                r is None
            }
        }),
{
    let pending = pending_reward(p, current_rps, division_safety);
    if pending > (u64::MAX - p.staked_amount) as u128 {
        return None;
    }
    Some((
        Position {
            staked_amount: p.staked_amount + (pending as u64),
            reward_per_share_checkpoint: current_rps,
            entering_epoch: current_epoch,
        },
        pending,
    ))
}

/// Starts an exit: crystallizes the pending reward and removes
/// `unstake_amount` from the record. Fails when the record does not hold
/// that much.
pub fn reduce_position(
    p: &Position,
    unstake_amount: u64,
    current_rps: u128,
    division_safety: u64,
    current_epoch: u64,
) -> (r: Option<(Position, u128)>)
    requires
        1 <= division_safety,
        checkpoint_valid(*p, current_rps as int),
        current_rps <= u64::MAX * division_safety,
    ensures
        if unstake_amount <= p.staked_amount {
            r matches Some(out)
                && out.1 == pending_reward_spec(*p, current_rps as int, division_safety as int)
                && out.0.staked_amount == p.staked_amount - unstake_amount
                && out.0.reward_per_share_checkpoint == current_rps
                && out.0.entering_epoch == current_epoch
        } else {
            r is None
        },
{
    if unstake_amount > p.staked_amount {
        return None;
    }
    let pending = pending_reward(p, current_rps, division_safety);
    Some((
        Position {
            staked_amount: p.staked_amount - unstake_amount,
            reward_per_share_checkpoint: current_rps,
            entering_epoch: current_epoch,
        },
        pending,
    ))
}

/// Conservation across merges: for a fixed stake weight, claiming at an
/// intermediate checkpoint and again at a later one pays out at most what a
/// single claim over the whole interval pays, loses at most one indivisible
/// unit to floor rounding, and pays exactly the same whenever the first
/// interval is a whole multiple of the division-safety constant. No reward
/// is ever created by splitting a claim, and none beyond the rounding unit
/// is destroyed.
pub proof fn lemma_claim_conservation(
    amount: int,
    checkpoint: int,
    mid_rps: int,
    final_rps: int,
    division_safety: int,
)
    requires
        0 <= amount,
        1 <= division_safety,
        checkpoint <= mid_rps <= final_rps,
    ensures
        ({
            let split_total = mul_div_spec(mid_rps - checkpoint, amount, division_safety)
                + mul_div_spec(final_rps - mid_rps, amount, division_safety);
            let whole = mul_div_spec(final_rps - checkpoint, amount, division_safety);
            split_total <= whole <= split_total + 1
        }),
        (mid_rps - checkpoint) % division_safety == 0 ==> mul_div_spec(
            mid_rps - checkpoint,
            amount,
            division_safety,
        ) + mul_div_spec(final_rps - mid_rps, amount, division_safety) == mul_div_spec(
            final_rps - checkpoint,
            amount,
            division_safety,
        ),
{
    let d1 = mid_rps - checkpoint;
    let d2 = final_rps - mid_rps;
    let p = division_safety;
    let a = amount;
    assert((d1 + d2) * a == d1 * a + d2 * a) by (nonlinear_arith);
    assert(0 <= d1 * a && 0 <= d2 * a) by (nonlinear_arith)
        requires
            0 <= d1,
            0 <= d2,
            0 <= a,
    ;
    lemma_floor_add(d1 * a, d2 * a, p);
    if d1 % p == 0 {
        // The first interval is a whole multiple of the scale, so its share
        // divides exactly and no rounding unit is lost at the split.
        lemma_fundamental_div_mod(d1, p);
        let q1 = d1 / p;
        assert(d1 * a == (q1 * a) * p) by (nonlinear_arith)
            requires
                d1 == p * q1,
        ;
        assert((d1 * a) / p + (d2 * a) / p == (d1 * a + d2 * a) / p) by {
            vstd::arithmetic::div_mod::lemma_hoist_over_denominator(d2 * a, q1 * a, p as nat);
            vstd::arithmetic::div_mod::lemma_div_by_multiple(q1 * a, p);
            assert(0 <= q1 * a) by (nonlinear_arith)
                requires
                    0 <= q1,
                    0 <= a,
            ;
        }
    }
}

/// `x/p + y/p <= (x+y)/p <= x/p + y/p + 1` for nonnegative `x`, `y`.
proof fn lemma_floor_add(x: int, y: int, p: int)
    requires
        1 <= p,
        0 <= x,
        0 <= y,
    ensures
        x / p + y / p <= (x + y) / p <= x / p + y / p + 1,
{
    lemma_fundamental_div_mod(x, p);
    lemma_fundamental_div_mod(y, p);
    lemma_mod_division_less_than_divisor(x, p);
    lemma_mod_division_less_than_divisor(y, p);
    let qx = x / p;
    let qy = y / p;
    let rx = x % p;
    let ry = y % p;
    assert(x + y == (rx + ry) + (qx + qy) * p) by (nonlinear_arith)
        requires
            x == p * qx + rx,
            y == p * qy + ry,
    ;
    assert((x + y) / p == qx + qy + (rx + ry) / p) by {
        vstd::arithmetic::div_mod::lemma_hoist_over_denominator(rx + ry, qx + qy, p as nat);
    }
    assert(0 <= (rx + ry) / p <= 1) by {
        vstd::arithmetic::div_mod::lemma_div_pos_is_pos(rx + ry, p);
        vstd::arithmetic::div_mod::lemma_multiply_divide_lt(rx + ry, p, 2);
        assert(rx + ry < p * 2) by (nonlinear_arith)
            requires
                rx < p,
                ry < p,
        ;
    }
}


/// Total paid out by claiming at each checkpoint of `cps` in turn, for a
/// record of constant `amount` whose checkpoint starts at `cps[0]`.
pub open spec fn sequential_payout(amount: int, cps: Seq<int>, scale: int) -> int
    decreases cps.len(),
{
    if cps.len() <= 1 {
        0
    } else {
        mul_div_spec(cps[1] - cps[0], amount, scale) + sequential_payout(
            amount,
            cps.skip(1),
            scale,
        )
    }
}

/// In a sequence whose adjacent elements are ordered, any two elements are.
proof fn lemma_adjacent_sorted_le(cps: Seq<int>, i: int, j: int)
    requires
        forall|k: int| 0 <= k < cps.len() - 1 ==> #[trigger] cps[k] <= cps[k + 1],
        0 <= i <= j < cps.len(),
    ensures
        cps[i] <= cps[j],
    decreases j - i,
{
    if i < j {
        lemma_adjacent_sorted_le(cps, i, j - 1);
    }
}

/// Conservation over any sequence of claims: for a fixed stake weight,
/// claiming at every checkpoint of a non-decreasing chain in turn pays at
/// most what one claim over the whole interval pays, and at most one
/// indivisible rounding unit per intermediate checkpoint less. No sequence
/// of stake, claim or compound operations creates reward, and none loses
/// more than floor rounding at each crystallization.
pub proof fn lemma_sequence_conservation(amount: int, cps: Seq<int>, scale: int)
    requires
        0 <= amount,
        1 <= scale,
        cps.len() >= 1,
        forall|k: int| 0 <= k < cps.len() - 1 ==> #[trigger] cps[k] <= cps[k + 1],
    ensures
        sequential_payout(amount, cps, scale) <= mul_div_spec(
            cps.last() - cps[0],
            amount,
            scale,
        ),
        mul_div_spec(cps.last() - cps[0], amount, scale) <= sequential_payout(
            amount,
            cps,
            scale,
        ) + cps.len() - 1,
    decreases cps.len(),
{
    if cps.len() <= 1 {
        assert(cps.last() == cps[0]);
        assert((cps.last() - cps[0]) * amount == 0);
        vstd::arithmetic::div_mod::lemma_div_of0(scale);
    } else {
        let rest = cps.skip(1);
        assert(forall|k: int| 0 <= k < rest.len() - 1 ==> #[trigger] rest[k] <= rest[k + 1]);
        lemma_sequence_conservation(amount, rest, scale);
        lemma_adjacent_sorted_le(cps, 1, cps.len() - 1);
        assert(rest.last() == cps.last());
        lemma_claim_conservation(amount, cps[0], cps[1], cps.last(), scale);
    }
}

} // verus!\n