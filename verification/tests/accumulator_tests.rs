use farm_staking::accumulator::RewardState;

fn ledger(per_block: u64, scale: u64) -> RewardState {
    RewardState::initial(per_block, scale, 0, 0)
}

#[test]
fn five_blocks_of_emission() {
    // per-block reward 100, reserve 1000, staked supply 50 at block 0:
    // after 5 blocks reward-per-share rises by 500 * scale / 50 and the
    // reserve halves.
    let scale: u64 = 1_000_000;
    let mut s = ledger(100, scale);
    s.top_up(1000);
    assert_eq!(s.reward_reserve, 1000);
    assert_eq!(s.reward_capacity, 1000);
    s.sync(5, 50);
    assert_eq!(s.reward_per_share, 500u128 * scale as u128 / 50);
    assert_eq!(s.reward_reserve, 500);
    assert_eq!(s.accumulated_rewards, 500);
    assert_eq!(s.last_reward_block, 5);
}

#[test]
fn sync_is_idempotent_by_block() {
    let mut s = ledger(100, 1_000_000);
    s.top_up(1000);
    s.sync(5, 50);
    let snapshot = s;
    s.sync(5, 50);
    assert_eq!(s, snapshot);
}

#[test]
fn reward_per_share_never_decreases() {
    let mut s = ledger(7, 1_000);
    s.top_up(10_000);
    let mut last: u128 = s.reward_per_share;
    for block in [1u64, 2, 2, 5, 50, 50, 51] {
        s.sync(block, 13);
        assert!(s.reward_per_share >= last);
        last = s.reward_per_share;
    }
}

#[test]
fn emission_capped_by_reserve_and_capacity() {
    // A long gap would emit 10_000, but only 300 was ever funded: the
    // accumulator caps silently, the reserve never goes negative, and
    // lifetime emission stays within capacity.
    let mut s = ledger(100, 10);
    s.top_up(300);
    s.sync(100, 10);
    assert_eq!(s.accumulated_rewards, 300);
    assert_eq!(s.reward_reserve, 0);
    assert!(s.accumulated_rewards <= s.reward_capacity);
    s.sync(200, 10);
    assert_eq!(s.accumulated_rewards, 300);
    assert_eq!(s.reward_reserve, 0);
}

#[test]
fn zero_supply_advances_block_without_emission() {
    // While nothing is staked the block marker still moves, so returning
    // stake earns no retroactive back-payment.
    let mut s = ledger(100, 10);
    s.top_up(1000);
    s.sync(5, 0);
    assert_eq!(s.reward_per_share, 0);
    assert_eq!(s.reward_reserve, 1000);
    assert_eq!(s.last_reward_block, 5);
    s.sync(6, 50);
    assert_eq!(s.accumulated_rewards, 100);
}

#[test]
fn withdraw_shrinks_reserve_and_capacity() {
    let mut s = ledger(10, 10);
    s.top_up(500);
    s.sync(3, 10);
    assert_eq!(s.reward_reserve, 470);
    s.withdraw(400);
    assert_eq!(s.reward_reserve, 70);
    assert_eq!(s.reward_capacity, 100);
}
