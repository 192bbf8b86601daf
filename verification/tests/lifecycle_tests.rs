use farm_staking::accumulator::RewardState;
use farm_staking::lifecycle::{
    apply_hook_outcome, claim, compound, migrate_position, stake, unbond, unstake, FarmConfig,
    FarmError, FarmState, HookOutcome, Payment, UnbondReceipt,
};
use farm_staking::position::Position;
use farm_staking::weekly::{ClaimProgress, WeeklyBucket};

const FARMING: u64 = 1;
const FARM: u64 = 2;
const REWARD: u64 = 3;
const UNBOND: u64 = 4;

fn config() -> FarmConfig {
    FarmConfig {
        farming_token: FARMING,
        farm_token: FARM,
        reward_token: REWARD,
        unbond_token: UNBOND,
        min_unbond_epochs: 5,
    }
}

fn state() -> FarmState {
    let mut reward = RewardState::initial(100, 10, 0, 0);
    reward.top_up(1_000_000);
    FarmState {
        config: config(),
        paused: false,
        reward,
        farm_token_supply: 0,
        weekly_buckets: Vec::new(),
        current_week: 0,
    }
}

fn pay(token: u64, amount: u64) -> Payment {
    Payment {
        token,
        nonce: 0,
        amount,
    }
}

fn progress() -> ClaimProgress {
    ClaimProgress {
        last_claimed_week: 0,
        cached_energy: 0,
    }
}

fn passthrough(request: &[Payment]) -> HookOutcome {
    HookOutcome::Output(request.to_vec())
}

#[test]
fn stake_mints_a_position_for_the_deposit() {
    let s = state();
    let request = vec![pay(FARMING, 100)];
    let r = stake(
        &s,
        true,
        &request,
        None,
        passthrough(&request),
        &progress(),
        &Vec::new(),
        0,
        1,
        0,
        0,
    )
    .unwrap();
    let p = r.new_position.unwrap();
    assert_eq!(p.staked_amount, 100);
    assert_eq!(p.reward_per_share_checkpoint, 0);
    assert_eq!(r.new_state.farm_token_supply, 100);
    assert_eq!(r.output_payments, vec![pay(FARM, 100)]);
}

#[test]
fn stake_merges_an_existing_position() {
    let mut s = state();
    s.farm_token_supply = 100;
    let existing = Position {
        staked_amount: 100,
        reward_per_share_checkpoint: 0,
        entering_epoch: 0,
    };
    let request = vec![pay(FARMING, 50), pay(FARM, 100)];
    // 10 blocks of emission: 1000 rewards over 100 staked at scale 10.
    let r = stake(
        &s,
        true,
        &request,
        Some(existing),
        passthrough(&request),
        &progress(),
        &Vec::new(),
        10,
        2,
        0,
        0,
    )
    .unwrap();
    let rps = r.new_state.reward.reward_per_share;
    assert_eq!(rps, 1000 * 10 / 100);
    let p = r.new_position.unwrap();
    assert_eq!(p.staked_amount, 150);
    assert_eq!(p.reward_per_share_checkpoint, rps);
    let pending = (rps * 100 / 10) as u64;
    assert_eq!(r.output_payments, vec![pay(FARM, 150), pay(REWARD, pending)]);
    assert_eq!(r.new_state.farm_token_supply, 150);
}

#[test]
fn stake_refusals_cover_every_validation() {
    let mut paused = state();
    paused.paused = true;
    let request = vec![pay(FARMING, 100)];
    let empty: Vec<u64> = Vec::new();
    let go = |s: &FarmState, permitted: bool, req: &Vec<Payment>, hook: HookOutcome| {
        stake(s, permitted, req, None, hook, &progress(), &empty, 0, 0, 0, 0)
    };
    assert_eq!(
        go(&paused, true, &request, passthrough(&request)).unwrap_err(),
        FarmError::Paused
    );
    let s = state();
    assert_eq!(
        go(&s, false, &request, passthrough(&request)).unwrap_err(),
        FarmError::NotPermitted
    );
    assert_eq!(
        go(&s, true, &request, HookOutcome::Rejected).unwrap_err(),
        FarmError::HookRejected
    );
    let wrong = vec![pay(REWARD, 100)];
    assert_eq!(
        go(&s, true, &wrong, passthrough(&wrong)).unwrap_err(),
        FarmError::WrongToken
    );
    let zero = vec![pay(FARMING, 0)];
    assert_eq!(
        go(&s, true, &zero, passthrough(&zero)).unwrap_err(),
        FarmError::ZeroAmount
    );
    let with_pos = vec![pay(FARMING, 1), pay(FARM, 10)];
    assert_eq!(
        go(&s, true, &with_pos, passthrough(&with_pos)).unwrap_err(),
        FarmError::BadPosition
    );
}

#[test]
fn stake_refuses_an_overflowing_merge() {
    let mut s = state();
    s.farm_token_supply = u64::MAX - 10;
    let existing = Position {
        staked_amount: u64::MAX - 10,
        reward_per_share_checkpoint: 0,
        entering_epoch: 0,
    };
    let request = vec![pay(FARMING, 11), pay(FARM, u64::MAX - 10)];
    let r = stake(
        &s,
        true,
        &request,
        Some(existing),
        passthrough(&request),
        &progress(),
        &Vec::new(),
        0,
        0,
        0,
        0,
    );
    assert_eq!(r.unwrap_err(), FarmError::AmountTooLarge);
}

#[test]
fn doubling_hook_passes_and_doubles_the_deposit() {
    // A hook that doubles quantities but keeps the leading payment's
    // identity and place is accepted, and the doubled quantity is staked.
    let s = state();
    let request = vec![pay(FARMING, 100)];
    let hook = HookOutcome::Output(vec![pay(FARMING, 200)]);
    let r = stake(
        &s, true, &request, None, hook, &progress(), &Vec::new(), 0, 0, 0, 0,
    )
    .unwrap();
    assert_eq!(r.new_position.unwrap().staked_amount, 200);
}

#[test]
fn reordering_hook_is_rejected() {
    let s = state();
    let request = vec![pay(FARMING, 100)];
    let hook = HookOutcome::Output(vec![pay(REWARD, 1), pay(FARMING, 100)]);
    let r = stake(
        &s, true, &request, None, hook, &progress(), &Vec::new(), 0, 0, 0, 0,
    );
    assert_eq!(r.unwrap_err(), FarmError::HookReorderedPayments);
}

#[test]
fn hook_check_keeps_first_payment_identity() {
    let expected = pay(FARM, 100);
    let doubled = apply_hook_outcome(
        &expected,
        HookOutcome::Output(vec![pay(FARM, 200), pay(REWARD, 50)]),
    )
    .unwrap();
    assert_eq!(doubled[0].token, FARM);
    let swapped = apply_hook_outcome(
        &expected,
        HookOutcome::Output(vec![pay(REWARD, 50), pay(FARM, 200)]),
    );
    assert_eq!(swapped.unwrap_err(), FarmError::HookReorderedPayments);
    let emptied = apply_hook_outcome(&expected, HookOutcome::Output(Vec::new()));
    assert_eq!(emptied.unwrap_err(), FarmError::HookReorderedPayments);
}

#[test]
fn claim_pays_pending_and_boosted_rewards() {
    let mut s = state();
    s.farm_token_supply = 100;
    s.current_week = 0;
    s.weekly_buckets = vec![WeeklyBucket {
        total_rewards: 600,
        total_energy: 300,
        total_locked_tokens: 100,
    }];
    let position = Position {
        staked_amount: 100,
        reward_per_share_checkpoint: 0,
        entering_epoch: 0,
    };
    let request = vec![pay(FARM, 100)];
    let energies = vec![100u64];
    let r = claim(
        &s,
        true,
        &request,
        position,
        passthrough(&request),
        &progress(),
        &energies,
        10,
        3,
        1,
        100,
    )
    .unwrap();
    let rps = r.new_state.reward.reward_per_share;
    assert_eq!(rps, 1000 * 10 / 100);
    let pending = (rps * 100 / 10) as u64;
    let boosted = 600 * 100 / 300;
    assert_eq!(
        r.output_payments,
        vec![pay(FARM, 100), pay(REWARD, pending), pay(REWARD, boosted)]
    );
    let p = r.new_position.unwrap();
    assert_eq!(p.staked_amount, 100);
    assert_eq!(p.reward_per_share_checkpoint, rps);
    assert_eq!(r.new_progress.last_claimed_week, 1);
    assert_eq!(r.new_state.farm_token_supply, 100);
}

#[test]
fn claim_requires_the_presented_record_to_match() {
    let mut s = state();
    s.farm_token_supply = 100;
    let position = Position {
        staked_amount: 100,
        reward_per_share_checkpoint: 0,
        entering_epoch: 0,
    };
    let request = vec![pay(FARM, 99)];
    let r = claim(
        &s,
        true,
        &request,
        position,
        passthrough(&request),
        &progress(),
        &Vec::new(),
        0,
        0,
        0,
        0,
    );
    assert_eq!(r.unwrap_err(), FarmError::BadPosition);
}

#[test]
fn compound_grows_supply_by_the_pending_reward() {
    let mut s = state();
    s.farm_token_supply = 100;
    let position = Position {
        staked_amount: 100,
        reward_per_share_checkpoint: 0,
        entering_epoch: 0,
    };
    let request = vec![pay(FARM, 100)];
    let r = compound(
        &s,
        true,
        &request,
        position,
        passthrough(&request),
        &progress(),
        &Vec::new(),
        10,
        4,
        0,
        0,
    )
    .unwrap();
    let rps = r.new_state.reward.reward_per_share;
    let pending = (rps * 100 / 10) as u64;
    let p = r.new_position.unwrap();
    assert_eq!(p.staked_amount, 100 + pending);
    assert_eq!(r.new_state.farm_token_supply, 100 + pending);
    // The pending reward is not paid out.
    assert_eq!(r.output_payments, vec![pay(FARM, 100 + pending)]);
}

#[test]
fn unstake_issues_a_cooldown_receipt() {
    let mut s = state();
    s.farm_token_supply = 100;
    let position = Position {
        staked_amount: 100,
        reward_per_share_checkpoint: 0,
        entering_epoch: 0,
    };
    let r = unstake(
        &s,
        &pay(FARM, 100),
        position,
        &progress(),
        &Vec::new(),
        10,
        20,
        0,
        0,
    )
    .unwrap();
    assert_eq!(r.unbond_receipt.unwrap().unlock_epoch, 25);
    assert!(r.new_position.is_none());
    assert_eq!(r.new_state.farm_token_supply, 0);
    assert_eq!(r.output_payments[0], pay(UNBOND, 100));
}

#[test]
fn unbond_before_cooldown_aborts_and_moves_nothing() {
    // The receipt matures at epoch 25; presenting it at 24 aborts with the
    // cool-down error and consumes nothing.
    let s = state();
    let receipt = UnbondReceipt { unlock_epoch: 25 };
    let r = unbond(&s, &pay(UNBOND, 100), receipt, 24);
    assert_eq!(r.unwrap_err(), FarmError::CooldownNotElapsed);
    // At the deadline the receipt exchanges for the farming asset.
    let r = unbond(&s, &pay(UNBOND, 100), receipt, 25).unwrap();
    assert_eq!(r, pay(FARMING, 100));
}

#[test]
fn unbond_validates_the_receipt_token() {
    let s = state();
    let receipt = UnbondReceipt { unlock_epoch: 0 };
    assert_eq!(
        unbond(&s, &pay(FARM, 100), receipt, 10).unwrap_err(),
        FarmError::WrongToken
    );
    assert_eq!(
        unbond(&s, &pay(UNBOND, 0), receipt, 10).unwrap_err(),
        FarmError::ZeroAmount
    );
}

#[test]
fn migration_preserves_amount_and_checkpoint() {
    let p = migrate_position(500, 77, 9);
    assert_eq!(p.staked_amount, 500);
    assert_eq!(p.reward_per_share_checkpoint, 77);
    assert_eq!(p.entering_epoch, 9);
}
