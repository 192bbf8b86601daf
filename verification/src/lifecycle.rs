//! Lifecycle orchestrator: stake, claim, compound, unstake and unbond.
//!
//! Each operation is a pure function from the engine state and the event's
//! data to either a complete outcome or an error. The host environment
//! performs everything the engine cannot: it collects the caller's
//! payments, runs the registered hooks, mints and burns tokens and moves
//! funds. An operation therefore receives the hook registry's answer as a
//! value and validates it; it never trusts it. Because an operation either
//! returns a full outcome or an error and never mutates the state it was
//! given, the host commits an operation by adopting the returned state, and
//! every error path trivially leaves all shared state untouched.
//!
//! Hook discipline: a hook may transform payment quantities and
//! composition, but the first payment of a list is semantically tagged (it
//! is the position or receipt token, never a hook-injected payment), so its
//! identity and place must survive. `apply_hook_outcome` enforces exactly
//! that, and is used after every hook call, on the input payments here and
//! on the output payments by the host.

use vstd::prelude::*;
use crate::accumulator::RewardState;
use crate::merge::pending_reward_spec;
use crate::merge;
use crate::position::Position;
use crate::weekly::{
    advance_claim_progress, bucket_at, energies_valid, extend_buckets_to, owed_range,
    set_week_totals, ClaimProgress, WeeklyBucket,
};
use vstd::arithmetic::mul::lemma_mul_inequality;

verus! {

/// Why an operation was refused. Every refusal aborts the whole operation
/// with no state change.
#[derive(Clone, Copy, PartialEq, Eq, Structural, Debug)]
pub enum FarmError {
    /// State-mutating operations are refused while the engine is paused.
    Paused,
    /// The caller is not permitted to act for the target user.
    NotPermitted,
    /// A zero quantity was deposited or presented.
    ZeroAmount,
    /// A payment carries a token the operation does not accept.
    WrongToken,
    /// A presented position payment disagrees with its decoded record.
    BadPosition,
    /// A computed quantity would not fit the token's word size.
    AmountTooLarge,
    /// An unbonding receipt was presented before its cool-down deadline.
    CooldownNotElapsed,
    /// A hook rejected the operation outright.
    HookRejected,
    /// A hook moved or replaced the leading tagged payment.
    HookReorderedPayments,
}

/// One payment: a token identifier, a mint nonce and a quantity. A nonce of
/// zero marks a payment the host is to mint fresh.
#[derive(Clone, Copy, PartialEq, Eq, Structural, Debug)]
pub struct Payment {
    pub token: u64,
    pub nonce: u64,
    pub amount: u64,
}

/// What the hook registry answered for one hook point.
pub enum HookOutcome {
    /// The hook aborted the operation.
    Rejected,
    /// The hook returned this (possibly transformed) payment list.
    Output(Vec<Payment>),
}

/// An unbonding receipt's attributes: the exit completes no earlier than
/// `unlock_epoch`.
#[derive(Clone, Copy, PartialEq, Eq, Structural, Debug)]
pub struct UnbondReceipt {
    pub unlock_epoch: u64,
}

/// Token identifiers and exit configuration of one deployed engine.
#[derive(Clone, Copy, PartialEq, Eq, Structural, Debug)]
pub struct FarmConfig {
    /// The asset users deposit.
    pub farming_token: u64,
    /// The token whose attributes carry position records.
    pub farm_token: u64,
    /// The asset rewards are paid in.
    pub reward_token: u64,
    /// The token whose attributes carry unbonding receipts.
    pub unbond_token: u64,
    /// Cool-down between unstake and unbond, in epochs.
    pub min_unbond_epochs: u64,
}

/// The engine's owned state: configuration, the reward accumulator, the
/// outstanding farm-token supply, and the weekly bucket table.
#[derive(Debug)]
pub struct FarmState {
    pub config: FarmConfig,
    pub paused: bool,
    pub reward: RewardState,
    pub farm_token_supply: u64,
    pub weekly_buckets: Vec<WeeklyBucket>,
    pub current_week: usize,
}

impl FarmState {
    pub open spec fn well_formed(self) -> bool {
        self.reward.well_formed()
    }
}

/// The complete effect of one accepted operation. The host adopts
/// `new_state` and `new_progress`, reissues `new_position` (if any) and the
/// receipt (if any) as token attributes, and routes `output_payments`
/// through the after-hook before delivering them.
#[derive(Debug)]
pub struct OperationOutcome {
    pub new_state: FarmState,
    pub new_progress: ClaimProgress,
    pub new_position: Option<Position>,
    pub unbond_receipt: Option<UnbondReceipt>,
    pub output_payments: Vec<Payment>,
}

/// The leading tagged payment survived the hook: the list is non-empty and
/// its first payment is the same token and nonce as before the hook (its
/// quantity may have been transformed).
pub open spec fn first_payment_kept(expected: Payment, out: Seq<Payment>) -> bool {
    &&& out.len() >= 1
    &&& out[0].token == expected.token
    &&& out[0].nonce == expected.nonce
}

/// Validates a hook's answer: a rejection aborts, and a transformed list
/// that moved or replaced the leading tagged payment aborts; any other
/// transformation passes through.
pub fn apply_hook_outcome(expected_first: &Payment, outcome: HookOutcome) -> (r: Result<
    Vec<Payment>,
    FarmError,
>)
    ensures
        match outcome {
            HookOutcome::Rejected => r === Err(FarmError::HookRejected),
            HookOutcome::Output(pays) => {
                if first_payment_kept(*expected_first, pays@) {
                    r matches Ok(v) && v@ == pays@
                } else {
                    r === Err(FarmError::HookReorderedPayments)
                }
            },
        },
{
    match outcome {
        HookOutcome::Rejected => Err(FarmError::HookRejected),
        HookOutcome::Output(pays) => {
            if pays.len() == 0 {
                return Err(FarmError::HookReorderedPayments);
            }
            let first = &pays[0];
            if first.token != expected_first.token || first.nonce != expected_first.nonce {
                return Err(FarmError::HookReorderedPayments);
            }
            Ok(pays)
        },
    }
}

/// What the before-hook's answer parses to for an operation that expects a
/// leading farming-asset (or position) payment list.
pub open spec fn hook_answer(expected: Payment, outcome: HookOutcome) -> Result<
    Seq<Payment>,
    FarmError,
> {
    match outcome {
        HookOutcome::Rejected => Err(FarmError::HookRejected),
        HookOutcome::Output(pays) => if first_payment_kept(expected, pays@) {
            Ok(pays@)
        } else {
            Err(FarmError::HookReorderedPayments)
        },
    }
}

/// A payment to be minted fresh by the host.
pub open spec fn fresh_payment(token: int, amount: int) -> Payment {
    Payment { token: token as u64, nonce: 0, amount: amount as u64 }
}

/// Boosted reward owed to a user for the weeks skipped since the last
/// settlement, per the frozen bucket table.
pub open spec fn boosted_owed(
    state: FarmState,
    progress: ClaimProgress,
    energies: Seq<u64>,
    current_week: usize,
) -> int {
    owed_range(
        state.weekly_buckets@,
        progress.last_claimed_week as int,
        (current_week - progress.last_claimed_week) as nat,
        energies,
    )
}

/// The payment list an accepted operation hands to the after-hook: the
/// fresh position (or receipt) payment first, then the base reward payout
/// if any, then the boosted payout if any. Zero payouts are not listed.
pub open spec fn outputs_of(first: Payment, reward_token: int, pending: int, owed: int) -> Seq<
    Payment,
> {
    seq![first] + (if pending > 0 {
        seq![fresh_payment(reward_token, pending)]
    } else {
        Seq::<Payment>::empty()
    }) + (if owed > 0 {
        seq![fresh_payment(reward_token, owed)]
    } else {
        Seq::<Payment>::empty()
    })
}

/// The state every accepted operation leaves: the accumulator synced to the
/// current block, the supply replaced, the bucket table extended to the
/// current week with the current week's locked total refreshed and every
/// other bucket untouched.
pub open spec fn state_after(
    state: FarmState,
    current_block: int,
    new_supply: u64,
    current_week: usize,
    new_state: FarmState,
) -> bool {
    &&& new_state.config == state.config
    &&& new_state.paused == state.paused
    &&& new_state.reward == state.reward.synced(current_block, state.farm_token_supply as int)
    &&& new_state.farm_token_supply == new_supply
    &&& new_state.current_week == current_week
    &&& new_state.weekly_buckets@.len() >= current_week + 1
    &&& bucket_at(new_state.weekly_buckets@, current_week as int).total_locked_tokens
        == new_supply
    &&& bucket_at(new_state.weekly_buckets@, current_week as int).total_rewards == bucket_at(
        state.weekly_buckets@,
        current_week as int,
    ).total_rewards
    &&& bucket_at(new_state.weekly_buckets@, current_week as int).total_energy == bucket_at(
        state.weekly_buckets@,
        current_week as int,
    ).total_energy
    &&& forall|i: int|
        0 <= i < new_state.weekly_buckets@.len() && i != current_week ==> bucket_at(
            new_state.weekly_buckets@,
            i,
        ) == bucket_at(state.weekly_buckets@, i)
}

/// The refusal, if any, of a stake request, in the order the checks are
/// made: pause and permission, then the hook's answer, then payment shape,
/// then word-size limits on the merged amount, the supply, the crystallized
/// pending reward and the boosted payout.
pub open spec fn stake_refusal(
    state: FarmState,
    caller_permitted: bool,
    request: Seq<Payment>,
    before_hook: HookOutcome,
    existing: Option<Position>,
    progress: ClaimProgress,
    energies: Seq<u64>,
    current_block: int,
    current_week: usize,
) -> Option<FarmError> {
    if state.paused {
        Some(FarmError::Paused)
    } else if !caller_permitted {
        Some(FarmError::NotPermitted)
    } else {
        match hook_answer(request[0], before_hook) {
            Err(e) => Some(e),
            Ok(ps) => if ps[0].token != state.config.farming_token {
                Some(FarmError::WrongToken)
            } else if ps[0].amount == 0 {
                Some(FarmError::ZeroAmount)
            } else if ps.len() > 2 {
                Some(FarmError::WrongToken)
            } else if ps.len() == 2 && ps[1].token != state.config.farm_token {
                Some(FarmError::WrongToken)
            } else if ps.len() == 2 && !(existing matches Some(p) && p.staked_amount
                == ps[1].amount) {
                Some(FarmError::BadPosition)
            } else if ps.len() == 1 && existing is Some {
                Some(FarmError::BadPosition)
            } else {
                let synced = state.reward.synced(current_block, state.farm_token_supply as int);
                let rps = synced.reward_per_share as int;
                let scale = state.reward.division_safety as int;
                let deposit = ps[0].amount as int;
                let prior = match existing {
                    Some(p) => p.staked_amount as int,
                    None => 0,
                };
                let pending = match existing {
                    Some(p) => pending_reward_spec(p, rps, scale),
                    None => 0,
                };
                if prior + deposit > u64::MAX {
                    Some(FarmError::AmountTooLarge)
                } else if state.farm_token_supply + deposit > u64::MAX {
                    Some(FarmError::AmountTooLarge)
                } else if pending > u64::MAX {
                    Some(FarmError::AmountTooLarge)
                } else if boosted_owed(state, progress, energies, current_week) > u64::MAX {
                    Some(FarmError::AmountTooLarge)
                } else {
                    None
                }
            },
        }
    }
}

/// What an accepted stake produced: the merged record checkpointed at the
/// synced ledger, the crystallized pending reward and the boosted payout
/// delivered behind the fresh position payment, and the claim progress
/// caught up to the current week.
pub open spec fn stake_outcome_correct(
    state: FarmState,
    ps: Seq<Payment>,
    existing: Option<Position>,
    progress: ClaimProgress,
    energies: Seq<u64>,
    current_block: int,
    current_epoch: u64,
    current_week: usize,
    current_energy: u64,
    out: OperationOutcome,
) -> bool {
    let synced = state.reward.synced(current_block, state.farm_token_supply as int);
    let rps = synced.reward_per_share;
    let scale = state.reward.division_safety as int;
    let deposit = ps[0].amount as int;
    let prior = match existing {
        Some(p) => p.staked_amount as int,
        None => 0,
    };
    let pending = match existing {
        Some(p) => pending_reward_spec(p, rps as int, scale),
        None => 0,
    };
    let owed = boosted_owed(state, progress, energies, current_week);
    let merged = prior + deposit;
    let pos_pay = fresh_payment(state.config.farm_token as int, merged);
    &&& state_after(state, current_block, (state.farm_token_supply + deposit) as u64,
        current_week, out.new_state)
    &&& out.new_progress.last_claimed_week == current_week
    &&& out.new_progress.cached_energy == current_energy
    &&& (out.new_position matches Some(np) && np.staked_amount == merged
        && np.reward_per_share_checkpoint == rps && np.entering_epoch == current_epoch)
    &&& out.unbond_receipt is None
    &&& out.output_payments@ == outputs_of(pos_pay, state.config.reward_token as int, pending,
        owed)
}

/// Copies the bucket table so an operation can produce a new state without
/// touching the one it was given.
fn copy_buckets(src: &Vec<WeeklyBucket>) -> (r: Vec<WeeklyBucket>)
    ensures
        r@ == src@,
{
    let mut out: Vec<WeeklyBucket> = Vec::new();
    let mut i: usize = 0;
    while i < src.len()
        invariant
            i <= src@.len(),
            out@ == src@.take(i as int),
        decreases src@.len() - i,
    {
        out.push(src[i]);
        proof {
            assert(out@ =~= src@.take(i + 1));
        }
        i = i + 1;
    }
    proof {
        assert(src@.take(src@.len() as int) =~= src@);
    }
    out
}

/// Stakes a deposit for a user, optionally merging it into an existing
/// position presented alongside it.
///
/// `request` is the caller's payment list (the farming-asset deposit first,
/// then at most one farm-token position payment whose decoded record is
/// `existing`); `before_hook` is the hook registry's answer for that list;
/// `energies` are the oracle's per-week energies for the user's skipped
/// weeks. On success the outcome holds the merged record, the synced state
/// and the payments to deliver; on refusal nothing changes.
pub fn stake(
    state: &FarmState,
    caller_permitted: bool,
    request: &Vec<Payment>,
    existing: Option<Position>,
    before_hook: HookOutcome,
    progress: &ClaimProgress,
    energies: &Vec<u64>,
    current_block: u64,
    current_epoch: u64,
    current_week: usize,
    current_energy: u64,
) -> (r: Result<OperationOutcome, FarmError>)
    requires
        state.well_formed(),
        request@.len() >= 1,
        state.reward.last_reward_block <= current_block,
        existing matches Some(p) ==> p.reward_per_share_checkpoint
            <= state.reward.reward_per_share,
        progress.last_claimed_week <= current_week,
        energies@.len() == current_week - progress.last_claimed_week,
        energies_valid(state.weekly_buckets@, progress.last_claimed_week as int, energies@),
        current_week < usize::MAX,
    ensures
        r is Err <==> (stake_refusal(*state, caller_permitted, request@, before_hook, existing,
        *progress, energies@, current_block as int, current_week) is Some),
        r matches Err(e) ==> (Some(e) == stake_refusal(*state, caller_permitted, request@,
        before_hook, existing, *progress, energies@, current_block as int, current_week)),
        r matches Ok(out) ==> (hook_answer(request@[0], before_hook) matches Ok(ps)
            && stake_outcome_correct(*state, ps, existing, *progress, energies@,
        current_block as int, current_epoch, current_week, current_energy, out)),
        r matches Ok(out) ==> out.new_state.well_formed(),
{
    if state.paused {
        return Err(FarmError::Paused);
    }
    if !caller_permitted {
        return Err(FarmError::NotPermitted);
    }
    let ps = match apply_hook_outcome(&request[0], before_hook) {
        Ok(v) => v,
        Err(e) => {
            return Err(e);
        },
    };
    if ps[0].token != state.config.farming_token {
        return Err(FarmError::WrongToken);
    }
    let deposit = ps[0].amount;
    if deposit == 0 {
        return Err(FarmError::ZeroAmount);
    }
    if ps.len() > 2 {
        return Err(FarmError::WrongToken);
    }
    if ps.len() == 2 {
        if ps[1].token != state.config.farm_token {
            return Err(FarmError::WrongToken);
        }
        let presented_ok = match &existing {
            Some(p) => p.staked_amount == ps[1].amount,
            None => false,
        };
        if !presented_ok {
            return Err(FarmError::BadPosition);
        }
    } else {
        if existing.is_some() {
            return Err(FarmError::BadPosition);
        }
    }
    let mut reward = state.reward;
    reward.sync(current_block, state.farm_token_supply);
    proof {
        lemma_mul_inequality(
            reward.accumulated_rewards as int,
            u64::MAX as int,
            reward.division_safety as int,
        );
    }
    let merged_fits = match &existing {
        Some(p) => deposit <= u64::MAX - p.staked_amount,
        None => true,
    };
    if !merged_fits {
        return Err(FarmError::AmountTooLarge);
    }
    if deposit > u64::MAX - state.farm_token_supply {
        return Err(FarmError::AmountTooLarge);
    }
    let (new_position, pending) = match &existing {
        Some(p) => merge::enter_position(
            Some(p),
            deposit,
            reward.reward_per_share,
            reward.division_safety,
            current_epoch,
        ),
        None => merge::enter_position(
            None,
            deposit,
            reward.reward_per_share,
            reward.division_safety,
            current_epoch,
        ),
    };
    if pending > u64::MAX as u128 {
        return Err(FarmError::AmountTooLarge);
    }
    let mut new_progress = ClaimProgress {
        last_claimed_week: progress.last_claimed_week,
        cached_energy: progress.cached_energy,
    };
    let owed = advance_claim_progress(
        &mut new_progress,
        &state.weekly_buckets,
        energies,
        current_week,
        current_energy,
    );
    if owed > u64::MAX as u128 {
        return Err(FarmError::AmountTooLarge);
    }
    let new_supply = state.farm_token_supply + deposit;
    let mut buckets = copy_buckets(&state.weekly_buckets);
    extend_buckets_to(&mut buckets, current_week);
    let live_energy = buckets[current_week].total_energy;
    set_week_totals(&mut buckets, current_week, live_energy, new_supply);
    let pos_pay = Payment {
        token: state.config.farm_token,
        nonce: 0,
        amount: new_position.staked_amount,
    };
    let mut outputs: Vec<Payment> = Vec::new();
    outputs.push(pos_pay);
    if pending > 0 {
        outputs.push(Payment { token: state.config.reward_token, nonce: 0, amount: pending as u64 });
    }
    if owed > 0 {
        outputs.push(Payment { token: state.config.reward_token, nonce: 0, amount: owed as u64 });
    }
    proof {
        assert(outputs@ =~= outputs_of(
            fresh_payment(state.config.farm_token as int, new_position.staked_amount as int),
            state.config.reward_token as int,
            pending as int,
            owed as int,
        ));
    }
    Ok(OperationOutcome {
        new_state: FarmState {
            config: state.config,
            paused: state.paused,
            reward,
            farm_token_supply: new_supply,
            weekly_buckets: buckets,
            current_week,
        },
        new_progress,
        new_position: Some(new_position),
        unbond_receipt: None,
        output_payments: outputs,
    })
}


/// The refusal, if any, of a claim or compound request: the single
/// presented payment must be the farm token, non-zero, and agree with its
/// decoded record; word-size limits then apply to the crystallized reward
/// (for compound, to the recompounded amount and supply) and to the
/// boosted payout.
pub open spec fn claim_refusal(
    state: FarmState,
    caller_permitted: bool,
    request: Seq<Payment>,
    before_hook: HookOutcome,
    position: Position,
    progress: ClaimProgress,
    energies: Seq<u64>,
    current_block: int,
    current_week: usize,
    compound: bool,
) -> Option<FarmError> {
    if state.paused {
        Some(FarmError::Paused)
    } else if !caller_permitted {
        Some(FarmError::NotPermitted)
    } else {
        match hook_answer(request[0], before_hook) {
            Err(e) => Some(e),
            Ok(ps) => if ps[0].token != state.config.farm_token {
                Some(FarmError::WrongToken)
            } else if ps[0].amount == 0 {
                Some(FarmError::ZeroAmount)
            } else if ps.len() > 1 {
                Some(FarmError::WrongToken)
            } else if ps[0].amount != position.staked_amount {
                Some(FarmError::BadPosition)
            } else {
                let synced = state.reward.synced(current_block, state.farm_token_supply as int);
                let pending = pending_reward_spec(
                    position,
                    synced.reward_per_share as int,
                    state.reward.division_safety as int,
                );
                if !compound && pending > u64::MAX {
                    Some(FarmError::AmountTooLarge)
                } else if compound && position.staked_amount + pending > u64::MAX {
                    Some(FarmError::AmountTooLarge)
                } else if compound && state.farm_token_supply + pending > u64::MAX {
                    Some(FarmError::AmountTooLarge)
                } else if boosted_owed(state, progress, energies, current_week) > u64::MAX {
                    Some(FarmError::AmountTooLarge)
                } else {
                    None
                }
            },
        }
    }
}

/// What an accepted claim produced: a fresh record of the same amount
/// checkpointed at the synced ledger (the presented record is consumed),
/// the crystallized reward and boosted payout behind the fresh position
/// payment, and the supply unchanged.
pub open spec fn claim_outcome_correct(
    state: FarmState,
    position: Position,
    progress: ClaimProgress,
    energies: Seq<u64>,
    current_block: int,
    current_epoch: u64,
    current_week: usize,
    current_energy: u64,
    out: OperationOutcome,
) -> bool {
    let synced = state.reward.synced(current_block, state.farm_token_supply as int);
    let rps = synced.reward_per_share;
    let pending = pending_reward_spec(position, rps as int, state.reward.division_safety as int);
    let owed = boosted_owed(state, progress, energies, current_week);
    let pos_pay = fresh_payment(state.config.farm_token as int, position.staked_amount as int);
    &&& state_after(state, current_block, state.farm_token_supply, current_week, out.new_state)
    &&& out.new_progress.last_claimed_week == current_week
    &&& out.new_progress.cached_energy == current_energy
    &&& (out.new_position matches Some(np) && np.staked_amount == position.staked_amount
        && np.reward_per_share_checkpoint == rps && np.entering_epoch == current_epoch)
    &&& out.unbond_receipt is None
    &&& out.output_payments@ == outputs_of(pos_pay, state.config.reward_token as int, pending,
        owed)
}

/// What an accepted compound produced: the crystallized reward is routed
/// back into the record's amount instead of being paid out, and the supply
/// grows by the same quantity.
pub open spec fn compound_outcome_correct(
    state: FarmState,
    position: Position,
    progress: ClaimProgress,
    energies: Seq<u64>,
    current_block: int,
    current_epoch: u64,
    current_week: usize,
    current_energy: u64,
    out: OperationOutcome,
) -> bool {
    let synced = state.reward.synced(current_block, state.farm_token_supply as int);
    let rps = synced.reward_per_share;
    let pending = pending_reward_spec(position, rps as int, state.reward.division_safety as int);
    let owed = boosted_owed(state, progress, energies, current_week);
    let merged = position.staked_amount + pending;
    let pos_pay = fresh_payment(state.config.farm_token as int, merged);
    &&& state_after(state, current_block, (state.farm_token_supply + pending) as u64,
        current_week, out.new_state)
    &&& out.new_progress.last_claimed_week == current_week
    &&& out.new_progress.cached_energy == current_energy
    &&& (out.new_position matches Some(np) && np.staked_amount == merged
        && np.reward_per_share_checkpoint == rps && np.entering_epoch == current_epoch)
    &&& out.unbond_receipt is None
    &&& out.output_payments@ == outputs_of(pos_pay, state.config.reward_token as int, 0, owed)
}

/// Claims the rewards of a presented position: crystallizes its pending
/// reward, pays it out, and reissues the record at the current checkpoint.
/// The presented token is consumed and replaced; it is single-use.
pub fn claim(
    state: &FarmState,
    caller_permitted: bool,
    request: &Vec<Payment>,
    position: Position,
    before_hook: HookOutcome,
    progress: &ClaimProgress,
    energies: &Vec<u64>,
    current_block: u64,
    current_epoch: u64,
    current_week: usize,
    current_energy: u64,
) -> (r: Result<OperationOutcome, FarmError>)
    requires
        state.well_formed(),
        request@.len() >= 1,
        state.reward.last_reward_block <= current_block,
        position.reward_per_share_checkpoint <= state.reward.reward_per_share,
        progress.last_claimed_week <= current_week,
        energies@.len() == current_week - progress.last_claimed_week,
        energies_valid(state.weekly_buckets@, progress.last_claimed_week as int, energies@),
        current_week < usize::MAX,
    ensures
        r is Err <==> (claim_refusal(*state, caller_permitted, request@, before_hook, position,
        *progress, energies@, current_block as int, current_week, false) is Some),
        r matches Err(e) ==> (Some(e) == claim_refusal(*state, caller_permitted, request@,
        before_hook, position, *progress, energies@, current_block as int, current_week, false)),
        r matches Ok(out) ==> claim_outcome_correct(*state, position, *progress, energies@,
        current_block as int, current_epoch, current_week, current_energy, out),
        r matches Ok(out) ==> out.new_state.well_formed(),
{
    if state.paused {
        return Err(FarmError::Paused);
    }
    if !caller_permitted {
        return Err(FarmError::NotPermitted);
    }
    let ps = match apply_hook_outcome(&request[0], before_hook) {
        Ok(v) => v,
        Err(e) => {
            return Err(e);
        },
    };
    if ps[0].token != state.config.farm_token {
        return Err(FarmError::WrongToken);
    }
    if ps[0].amount == 0 {
        return Err(FarmError::ZeroAmount);
    }
    if ps.len() > 1 {
        return Err(FarmError::WrongToken);
    }
    if ps[0].amount != position.staked_amount {
        return Err(FarmError::BadPosition);
    }
    let mut reward = state.reward;
    reward.sync(current_block, state.farm_token_supply);
    proof {
        lemma_mul_inequality(
            reward.accumulated_rewards as int,
            u64::MAX as int,
            reward.division_safety as int,
        );
    }
    let (new_position, pending) = merge::harvest_position(
        &position,
        reward.reward_per_share,
        reward.division_safety,
        current_epoch,
    );
    if pending > u64::MAX as u128 {
        return Err(FarmError::AmountTooLarge);
    }
    let mut new_progress = ClaimProgress {
        last_claimed_week: progress.last_claimed_week,
        cached_energy: progress.cached_energy,
    };
    let owed = advance_claim_progress(
        &mut new_progress,
        &state.weekly_buckets,
        energies,
        current_week,
        current_energy,
    );
    if owed > u64::MAX as u128 {
        return Err(FarmError::AmountTooLarge);
    }
    let mut buckets = copy_buckets(&state.weekly_buckets);
    extend_buckets_to(&mut buckets, current_week);
    let live_energy = buckets[current_week].total_energy;
    set_week_totals(&mut buckets, current_week, live_energy, state.farm_token_supply);
    let pos_pay = Payment {
        token: state.config.farm_token,
        nonce: 0,
        amount: new_position.staked_amount,
    };
    let mut outputs: Vec<Payment> = Vec::new();
    outputs.push(pos_pay);
    if pending > 0 {
        outputs.push(Payment { token: state.config.reward_token, nonce: 0, amount: pending as u64 });
    }
    if owed > 0 {
        outputs.push(Payment { token: state.config.reward_token, nonce: 0, amount: owed as u64 });
    }
    proof {
        assert(outputs@ =~= outputs_of(
            fresh_payment(state.config.farm_token as int, new_position.staked_amount as int),
            state.config.reward_token as int,
            pending as int,
            owed as int,
        ));
    }
    Ok(OperationOutcome {
        new_state: FarmState {
            config: state.config,
            paused: state.paused,
            reward,
            farm_token_supply: state.farm_token_supply,
            weekly_buckets: buckets,
            current_week,
        },
        new_progress,
        new_position: Some(new_position),
        unbond_receipt: None,
        output_payments: outputs,
    })
}

/// Compounds the rewards of a presented position: the crystallized reward
/// is added to the staked amount instead of being paid out, and the farm
/// supply grows accordingly.
pub fn compound(
    state: &FarmState,
    caller_permitted: bool,
    request: &Vec<Payment>,
    position: Position,
    before_hook: HookOutcome,
    progress: &ClaimProgress,
    energies: &Vec<u64>,
    current_block: u64,
    current_epoch: u64,
    current_week: usize,
    current_energy: u64,
) -> (r: Result<OperationOutcome, FarmError>)
    requires
        state.well_formed(),
        request@.len() >= 1,
        state.reward.last_reward_block <= current_block,
        position.reward_per_share_checkpoint <= state.reward.reward_per_share,
        progress.last_claimed_week <= current_week,
        energies@.len() == current_week - progress.last_claimed_week,
        energies_valid(state.weekly_buckets@, progress.last_claimed_week as int, energies@),
        current_week < usize::MAX,
    ensures
        r is Err <==> (claim_refusal(*state, caller_permitted, request@, before_hook, position,
        *progress, energies@, current_block as int, current_week, true) is Some),
        r matches Err(e) ==> (Some(e) == claim_refusal(*state, caller_permitted, request@,
        before_hook, position, *progress, energies@, current_block as int, current_week, true)),
        r matches Ok(out) ==> compound_outcome_correct(*state, position, *progress, energies@,
        current_block as int, current_epoch, current_week, current_energy, out),
        r matches Ok(out) ==> out.new_state.well_formed(),
{
    if state.paused {
        return Err(FarmError::Paused);
    }
    if !caller_permitted {
        return Err(FarmError::NotPermitted);
    }
    let ps = match apply_hook_outcome(&request[0], before_hook) {
        Ok(v) => v,
        Err(e) => {
            return Err(e);
        },
    };
    if ps[0].token != state.config.farm_token {
        return Err(FarmError::WrongToken);
    }
    if ps[0].amount == 0 {
        return Err(FarmError::ZeroAmount);
    }
    if ps.len() > 1 {
        return Err(FarmError::WrongToken);
    }
    if ps[0].amount != position.staked_amount {
        return Err(FarmError::BadPosition);
    }
    let mut reward = state.reward;
    reward.sync(current_block, state.farm_token_supply);
    proof {
        lemma_mul_inequality(
            reward.accumulated_rewards as int,
            u64::MAX as int,
            reward.division_safety as int,
        );
    }
    let compounded = match merge::compound_position(
        &position,
        reward.reward_per_share,
        reward.division_safety,
        current_epoch,
    ) {
        Some(v) => v,
        None => {
            return Err(FarmError::AmountTooLarge);
        },
    };
    let new_position = compounded.0;
    let pending = compounded.1;
    if pending > (u64::MAX - state.farm_token_supply) as u128 {
        return Err(FarmError::AmountTooLarge);
    }
    let mut new_progress = ClaimProgress {
        last_claimed_week: progress.last_claimed_week,
        cached_energy: progress.cached_energy,
    };
    let owed = advance_claim_progress(
        &mut new_progress,
        &state.weekly_buckets,
        energies,
        current_week,
        current_energy,
    );
    if owed > u64::MAX as u128 {
        return Err(FarmError::AmountTooLarge);
    }
    let new_supply = state.farm_token_supply + (pending as u64);
    let mut buckets = copy_buckets(&state.weekly_buckets);
    extend_buckets_to(&mut buckets, current_week);
    let live_energy = buckets[current_week].total_energy;
    set_week_totals(&mut buckets, current_week, live_energy, new_supply);
    let pos_pay = Payment {
        token: state.config.farm_token,
        nonce: 0,
        amount: new_position.staked_amount,
    };
    let mut outputs: Vec<Payment> = Vec::new();
    outputs.push(pos_pay);
    if owed > 0 {
        outputs.push(Payment { token: state.config.reward_token, nonce: 0, amount: owed as u64 });
    }
    proof {
        assert(outputs@ =~= outputs_of(
            fresh_payment(state.config.farm_token as int, new_position.staked_amount as int),
            state.config.reward_token as int,
            0,
            owed as int,
        ));
    }
    Ok(OperationOutcome {
        new_state: FarmState {
            config: state.config,
            paused: state.paused,
            reward,
            farm_token_supply: new_supply,
            weekly_buckets: buckets,
            current_week,
        },
        new_progress,
        new_position: Some(new_position),
        unbond_receipt: None,
        output_payments: outputs,
    })
}

/// The refusal, if any, of an unstake request.
pub open spec fn unstake_refusal(
    state: FarmState,
    payment: Payment,
    position: Position,
    progress: ClaimProgress,
    energies: Seq<u64>,
    current_block: int,
    current_week: usize,
) -> Option<FarmError> {
    if state.paused {
        Some(FarmError::Paused)
    } else if payment.token != state.config.farm_token {
        Some(FarmError::WrongToken)
    } else if payment.amount == 0 {
        Some(FarmError::ZeroAmount)
    } else if payment.amount != position.staked_amount {
        Some(FarmError::BadPosition)
    } else {
        let synced = state.reward.synced(current_block, state.farm_token_supply as int);
        let pending = pending_reward_spec(
            position,
            synced.reward_per_share as int,
            state.reward.division_safety as int,
        );
        if pending > u64::MAX {
            Some(FarmError::AmountTooLarge)
        } else if boosted_owed(state, progress, energies, current_week) > u64::MAX {
            Some(FarmError::AmountTooLarge)
        } else {
            None
        }
    }
}

/// Starts an exit: consumes the presented position, pays its crystallized
/// reward, removes its amount from the supply, and issues an unbonding
/// receipt that matures after the configured cool-down. No hooks run on
/// exits.
pub fn unstake(
    state: &FarmState,
    payment: &Payment,
    position: Position,
    progress: &ClaimProgress,
    energies: &Vec<u64>,
    current_block: u64,
    current_epoch: u64,
    current_week: usize,
    current_energy: u64,
) -> (r: Result<OperationOutcome, FarmError>)
    requires
        state.well_formed(),
        state.reward.last_reward_block <= current_block,
        position.reward_per_share_checkpoint <= state.reward.reward_per_share,
        position.staked_amount <= state.farm_token_supply,
        progress.last_claimed_week <= current_week,
        energies@.len() == current_week - progress.last_claimed_week,
        energies_valid(state.weekly_buckets@, progress.last_claimed_week as int, energies@),
        current_week < usize::MAX,
        current_epoch + state.config.min_unbond_epochs <= u64::MAX,
    ensures
        r is Err <==> (unstake_refusal(*state, *payment, position, *progress, energies@,
        current_block as int, current_week) is Some),
        r matches Err(e) ==> (Some(e) == unstake_refusal(*state, *payment, position, *progress,
        energies@, current_block as int, current_week)),
        r matches Ok(out) ==> ({
            let synced = state.reward.synced(current_block as int, state.farm_token_supply as int);
            let pending = pending_reward_spec(position, synced.reward_per_share as int,
                state.reward.division_safety as int);
            let owed = boosted_owed(*state, *progress, energies@, current_week);
            let receipt_pay = fresh_payment(state.config.unbond_token as int,
                position.staked_amount as int);
            &&& state_after(*state, current_block as int,
                (state.farm_token_supply - position.staked_amount) as u64, current_week,
                out.new_state)
            &&& out.new_progress.last_claimed_week == current_week
            &&& out.new_progress.cached_energy == current_energy
            &&& out.new_position is None
            &&& (out.unbond_receipt matches Some(rc) && rc.unlock_epoch == current_epoch
                + state.config.min_unbond_epochs)
            &&& out.output_payments@ == outputs_of(receipt_pay,
                state.config.reward_token as int, pending, owed)
        }),
        r matches Ok(out) ==> out.new_state.well_formed(),
{
    if state.paused {
        return Err(FarmError::Paused);
    }
    if payment.token != state.config.farm_token {
        return Err(FarmError::WrongToken);
    }
    if payment.amount == 0 {
        return Err(FarmError::ZeroAmount);
    }
    if payment.amount != position.staked_amount {
        return Err(FarmError::BadPosition);
    }
    let mut reward = state.reward;
    reward.sync(current_block, state.farm_token_supply);
    proof {
        lemma_mul_inequality(
            reward.accumulated_rewards as int,
            u64::MAX as int,
            reward.division_safety as int,
        );
    }
    let (_, pending) = merge::harvest_position(
        &position,
        reward.reward_per_share,
        reward.division_safety,
        current_epoch,
    );
    if pending > u64::MAX as u128 {
        return Err(FarmError::AmountTooLarge);
    }
    let mut new_progress = ClaimProgress {
        last_claimed_week: progress.last_claimed_week,
        cached_energy: progress.cached_energy,
    };
    let owed = advance_claim_progress(
        &mut new_progress,
        &state.weekly_buckets,
        energies,
        current_week,
        current_energy,
    );
    if owed > u64::MAX as u128 {
        return Err(FarmError::AmountTooLarge);
    }
    let new_supply = state.farm_token_supply - position.staked_amount;
    let mut buckets = copy_buckets(&state.weekly_buckets);
    extend_buckets_to(&mut buckets, current_week);
    let live_energy = buckets[current_week].total_energy;
    set_week_totals(&mut buckets, current_week, live_energy, new_supply);
    let receipt_pay = Payment {
        token: state.config.unbond_token,
        nonce: 0,
        amount: position.staked_amount,
    };
    let mut outputs: Vec<Payment> = Vec::new();
    outputs.push(receipt_pay);
    if pending > 0 {
        outputs.push(Payment { token: state.config.reward_token, nonce: 0, amount: pending as u64 });
    }
    if owed > 0 {
        outputs.push(Payment { token: state.config.reward_token, nonce: 0, amount: owed as u64 });
    }
    proof {
        assert(outputs@ =~= outputs_of(
            fresh_payment(state.config.unbond_token as int, position.staked_amount as int),
            state.config.reward_token as int,
            pending as int,
            owed as int,
        ));
    }
    Ok(OperationOutcome {
        new_state: FarmState {
            config: state.config,
            paused: state.paused,
            reward,
            farm_token_supply: new_supply,
            weekly_buckets: buckets,
            current_week,
        },
        new_progress,
        new_position: None,
        unbond_receipt: Some(UnbondReceipt {
            unlock_epoch: current_epoch + state.config.min_unbond_epochs,
        }),
        output_payments: outputs,
    })
}

/// Completes an exit: exchanges a matured unbonding receipt for the
/// underlying farming asset. Presented before its deadline, the operation
/// aborts with the cool-down error, the receipt stays unconsumed and no
/// tokens move; the engine state is never touched either way.
pub fn unbond(
    state: &FarmState,
    payment: &Payment,
    receipt: UnbondReceipt,
    current_epoch: u64,
) -> (r: Result<Payment, FarmError>)
    ensures
        r === if state.paused {
            Err(FarmError::Paused)
        } else if payment.token != state.config.unbond_token {
            Err(FarmError::WrongToken)
        } else if payment.amount == 0 {
            Err(FarmError::ZeroAmount)
        } else if current_epoch < receipt.unlock_epoch {
            Err(FarmError::CooldownNotElapsed)
        } else {
            Ok(Payment { token: state.config.farming_token, nonce: 0, amount: payment.amount })
        },
{
    if state.paused {
        return Err(FarmError::Paused);
    }
    if payment.token != state.config.unbond_token {
        return Err(FarmError::WrongToken);
    }
    if payment.amount == 0 {
        return Err(FarmError::ZeroAmount);
    }
    if current_epoch < receipt.unlock_epoch {
        return Err(FarmError::CooldownNotElapsed);
    }
    Ok(Payment { token: state.config.farming_token, nonce: 0, amount: payment.amount })
}

/// Brings a record of the deprecated format (one issued before the
/// entering-epoch field existed) into the current format. Amount and
/// checkpoint carry over unchanged; the record is stamped with the epoch of
/// the migration.
pub fn migrate_position(staked_amount: u64, checkpoint: u128, current_epoch: u64) -> (r: Position)
    ensures
        r.staked_amount == staked_amount,
        r.reward_per_share_checkpoint == checkpoint,
        r.entering_epoch == current_epoch,
{
    Position {
        staked_amount,
        reward_per_share_checkpoint: checkpoint,
        entering_epoch: current_epoch,
    }
}

} // verus!
