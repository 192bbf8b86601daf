use farm_staking::weekly::{
    add_rewards_for_week, advance_claim_progress, current_week_live_share, extend_buckets_to,
    set_week_totals, settle_weeks, week_of_epoch, week_share, ClaimProgress, WeeklyBucket,
};

fn bucket(rewards: u64, energy: u64) -> WeeklyBucket {
    WeeklyBucket {
        total_rewards: rewards,
        total_energy: energy,
        total_locked_tokens: 0,
    }
}

#[test]
fn share_is_proportional() {
    assert_eq!(week_share(&bucket(1000, 400), 100), 250);
}

#[test]
fn zero_energy_week_owes_nothing() {
    assert_eq!(week_share(&bucket(1000, 0), 0), 0);
}

#[test]
fn catch_up_is_order_independent() {
    // Settling weeks [2, 3, 4] one at a time yields the same total as one
    // catch-up call.
    let buckets = vec![
        bucket(0, 0),
        bucket(0, 0),
        bucket(900, 300),
        bucket(500, 250),
        bucket(700, 7),
    ];
    let energies = vec![30u64, 50, 7];
    let at_once = settle_weeks(&buckets, 2, 3, &energies);
    let mut one_at_a_time: u128 = 0;
    for (i, e) in energies.iter().enumerate() {
        one_at_a_time += settle_weeks(&buckets, 2 + i, 1, &vec![*e]);
    }
    assert_eq!(at_once, one_at_a_time);
    assert_eq!(at_once, (900 * 30 / 300) + (500 * 50 / 250) + (700 * 7 / 7));
}

#[test]
fn weeks_beyond_the_table_owe_nothing() {
    let buckets = vec![bucket(100, 10)];
    let energies = vec![10u64, 0, 0];
    assert_eq!(settle_weeks(&buckets, 0, 3, &energies), 100);
}

#[test]
fn progress_advances_to_current_week() {
    let buckets = vec![bucket(100, 10), bucket(200, 20)];
    let mut progress = ClaimProgress {
        last_claimed_week: 0,
        cached_energy: 5,
    };
    let energies = vec![5u64, 10];
    let owed = advance_claim_progress(&mut progress, &buckets, &energies, 2, 77);
    assert_eq!(owed, 100 * 5 / 10 + 200 * 10 / 20);
    assert_eq!(progress.last_claimed_week, 2);
    assert_eq!(progress.cached_energy, 77);
}

#[test]
fn bucket_table_extends_with_empty_buckets() {
    let mut buckets = vec![bucket(9, 9)];
    extend_buckets_to(&mut buckets, 3);
    assert_eq!(buckets.len(), 4);
    assert_eq!(buckets[0].total_rewards, 9);
    assert_eq!(buckets[3].total_rewards, 0);
    assert_eq!(buckets[3].total_energy, 0);
}

#[test]
fn bucket_updates_touch_only_their_week() {
    let mut buckets = vec![bucket(1, 2), bucket(3, 4)];
    add_rewards_for_week(&mut buckets, 1, 10);
    set_week_totals(&mut buckets, 1, 40, 50);
    assert_eq!(buckets[0].total_rewards, 1);
    assert_eq!(buckets[0].total_energy, 2);
    assert_eq!(buckets[1].total_rewards, 13);
    assert_eq!(buckets[1].total_energy, 40);
    assert_eq!(buckets[1].total_locked_tokens, 50);
}

#[test]
fn week_of_epoch_counts_from_the_first_week() {
    assert_eq!(week_of_epoch(100, 100, 7), 0);
    assert_eq!(week_of_epoch(106, 100, 7), 0);
    assert_eq!(week_of_epoch(107, 100, 7), 1);
    assert_eq!(week_of_epoch(121, 100, 7), 3);
}

#[test]
fn live_share_of_the_open_week_is_not_persisted() {
    let mut buckets = vec![bucket(100, 10)];
    assert_eq!(current_week_live_share(&buckets, 0, 5), 50);
    // The open week's totals are still mutable: the share follows them.
    set_week_totals(&mut buckets, 0, 20, 0);
    assert_eq!(current_week_live_share(&buckets, 0, 5), 25);
    // A week the table does not reach yet has empty totals.
    assert_eq!(current_week_live_share(&buckets, 7, 0), 0);
}
