use farm_staking::merge::{
    compound_position, enter_position, harvest_position, pending_reward, reduce_position,
};
use farm_staking::position::Position;

fn pos(amount: u64, checkpoint: u128) -> Position {
    Position {
        staked_amount: amount,
        reward_per_share_checkpoint: checkpoint,
        entering_epoch: 1,
    }
}

#[test]
fn fresh_entry_has_no_pending_reward() {
    let (p, pending) = enter_position(None, 100, 0, 10, 7);
    assert_eq!(p.staked_amount, 100);
    assert_eq!(p.reward_per_share_checkpoint, 0);
    assert_eq!(p.entering_epoch, 7);
    assert_eq!(pending, 0);
}

#[test]
fn compound_routes_pending_into_amount() {
    // User stakes 100 at rps 0; at rps 10 (scale 10) they compound:
    // pending = 10 * 100 / 10 = 100, new amount 200, checkpoint 10.
    let p = pos(100, 0);
    let (p2, pending) = compound_position(&p, 10, 10, 3).unwrap();
    assert_eq!(pending, 100);
    assert_eq!(p2.staked_amount, 200);
    assert_eq!(p2.reward_per_share_checkpoint, 10);
    assert_eq!(p2.entering_epoch, 3);
}

#[test]
fn merge_crystallizes_under_old_weight() {
    // Depositing 50 more at rps 8 pays the old 100-unit weight first.
    let p = pos(100, 2);
    let (p2, pending) = enter_position(Some(&p), 50, 8, 2, 9);
    assert_eq!(pending, (8 - 2) * 100 / 2);
    assert_eq!(p2.staked_amount, 150);
    assert_eq!(p2.reward_per_share_checkpoint, 8);
}

#[test]
fn harvest_keeps_amount_and_moves_checkpoint() {
    let p = pos(40, 5);
    let (p2, pending) = harvest_position(&p, 25, 4, 11);
    assert_eq!(pending, (25 - 5) * 40 / 4);
    assert_eq!(p2.staked_amount, 40);
    assert_eq!(p2.reward_per_share_checkpoint, 25);
}

#[test]
fn pending_reward_floor_rounds() {
    let p = pos(3, 0);
    // (7 - 0) * 3 / 10 = 2 with floor rounding: the reserve is never
    // over-paid.
    assert_eq!(pending_reward(&p, 7, 10), 2);
}

#[test]
fn split_claim_conserves_reward_when_scale_divides() {
    // With the first interval a whole multiple of the scale, claiming at 5
    // then at 10 pays exactly what one claim over the whole interval pays.
    let p = pos(33, 0);
    let (mid, paid1) = harvest_position(&p, 5, 5, 0);
    let (_, paid2) = harvest_position(&mid, 10, 5, 0);
    let (_, whole) = harvest_position(&p, 10, 5, 0);
    assert_eq!(paid1 + paid2, whole);
}

#[test]
fn split_claim_never_creates_reward() {
    let p = pos(1, 0);
    let (mid, paid1) = harvest_position(&p, 5, 10, 0);
    let (_, paid2) = harvest_position(&mid, 10, 10, 0);
    let (_, whole) = harvest_position(&p, 10, 10, 0);
    assert!(paid1 + paid2 <= whole);
    assert!(whole <= paid1 + paid2 + 1);
}

#[test]
fn reduce_removes_stake_and_pays_pending() {
    let p = pos(100, 0);
    let (p2, pending) = reduce_position(&p, 100, 30, 10, 2).unwrap();
    assert_eq!(pending, 300);
    assert_eq!(p2.staked_amount, 0);
    assert!(reduce_position(&p, 101, 30, 10, 2).is_none());
}

#[test]
fn compound_refuses_overflowing_amount() {
    let p = pos(u64::MAX - 10, 0);
    // pending = 100 * (MAX - 10) / 1 overflows the amount word.
    assert!(compound_position(&p, 100, 1, 0).is_none());
}
