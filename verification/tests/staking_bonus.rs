use swaptrade::staking_bonus::StakingBonusManager;

const T0: u64 = 1_700_000_000;
const DAY: u64 = 24 * 60 * 60;

#[test]
fn test_stake_30_days() {
    let mut manager = StakingBonusManager::new();
    let result = manager.stake("user", 1000, 30, T0);
    assert!(result.is_ok());
    let stake_id = result.unwrap();
    assert_eq!(stake_id, 0);
    let stakes = manager.get_user_stakes("user");
    assert_eq!(stakes.len(), 1);
    let stake = stakes[0];
    assert_eq!(stake.amount, 1000);
    assert_eq!(stake.bonus_bps, 500);
    assert_eq!(stake.bonus_amount, 50);
    assert!(stake.is_active);
}

#[test]
fn test_stake_60_days() {
    let mut manager = StakingBonusManager::new();
    manager.stake("user", 1000, 60, T0).unwrap();
    let stakes = manager.get_user_stakes("user");
    let stake = stakes[0];
    assert_eq!(stake.bonus_bps, 1200);
    assert_eq!(stake.bonus_amount, 120);
}

#[test]
fn test_stake_90_days() {
    let mut manager = StakingBonusManager::new();
    manager.stake("user", 1000, 90, T0).unwrap();
    let stakes = manager.get_user_stakes("user");
    let stake = stakes[0];
    assert_eq!(stake.bonus_bps, 2000);
    assert_eq!(stake.bonus_amount, 200);
}

#[test]
fn test_stake_365_days() {
    let mut manager = StakingBonusManager::new();
    manager.stake("user", 1000, 365, T0).unwrap();
    let stakes = manager.get_user_stakes("user");
    let stake = stakes[0];
    assert_eq!(stake.bonus_bps, 5000);
    assert_eq!(stake.bonus_amount, 500);
}

#[test]
fn test_stake_invalid_amount() {
    let mut manager = StakingBonusManager::new();
    let result = manager.stake("user", 0, 30, T0);
    assert!(result.is_err());
}

#[test]
fn test_stake_invalid_duration() {
    let mut manager = StakingBonusManager::new();
    let result = manager.stake("user", 1000, 45, T0);
    assert!(result.is_err());
}

#[test]
fn test_multiple_stakes() {
    let mut manager = StakingBonusManager::new();
    let stake_id_1 = manager.stake("user", 1000, 30, T0).unwrap();
    let stake_id_2 = manager.stake("user", 2000, 60, T0).unwrap();
    let stake_id_3 = manager.stake("user", 3000, 90, T0).unwrap();
    assert_eq!(stake_id_1, 0);
    assert_eq!(stake_id_2, 1);
    assert_eq!(stake_id_3, 2);
    let stakes = manager.get_user_stakes("user");
    assert_eq!(stakes.len(), 3);
    let total = manager.get_user_total_staked("user");
    assert_eq!(total, 6000);
}

#[test]
fn test_bonus_not_claimable_before_holding_period() {
    let mut manager = StakingBonusManager::new();
    manager.stake("user", 1000, 30, T0).unwrap();
    let result = manager.claim_bonuses("user", T0);
    assert!(result.is_err());
    let pending = manager.get_user_pending_bonuses("user", T0);
    assert_eq!(pending, 0);
}

#[test]
fn test_bonus_claimable_after_holding_period() {
    let mut manager = StakingBonusManager::new();
    manager.stake("user", 1000, 30, T0).unwrap();
    let now = T0 + 31 * DAY;
    let result = manager.claim_bonuses("user", now);
    assert!(result.is_ok());
    let claimed_amount = result.unwrap();
    assert_eq!(claimed_amount, 50);
}

#[test]
fn test_stake_not_claimable_before_unlock() {
    let mut manager = StakingBonusManager::new();
    manager.stake("user", 1000, 30, T0).unwrap();
    let now = T0 + 29 * DAY;
    let result = manager.claim_stake("user", 0, now);
    assert!(result.is_err());
}

#[test]
fn test_stake_claimable_after_unlock() {
    let mut manager = StakingBonusManager::new();
    manager.stake("user", 1000, 30, T0).unwrap();
    let now = T0 + 31 * DAY;
    let result = manager.claim_stake("user", 0, now);
    assert!(result.is_ok());
    let principal = result.unwrap();
    assert_eq!(principal, 1000);
    let stakes = manager.get_user_stakes("user");
    let stake = stakes[0];
    assert!(!stake.is_active);
}

#[test]
fn test_bonus_calculations() {
    let mut manager = StakingBonusManager::new();
    manager.stake("user", 1000, 30, T0).unwrap();
    assert_eq!(manager.get_user_stakes("user")[0].bonus_amount, 50);
    manager.stake("user", 1000, 60, T0).unwrap();
    assert_eq!(manager.get_user_stakes("user")[1].bonus_amount, 120);
    manager.stake("user", 1000, 90, T0).unwrap();
    assert_eq!(manager.get_user_stakes("user")[2].bonus_amount, 200);
    manager.stake("user", 1000, 365, T0).unwrap();
    assert_eq!(manager.get_user_stakes("user")[3].bonus_amount, 500);
}

#[test]
fn test_bonus_with_large_amounts() {
    let mut manager = StakingBonusManager::new();
    manager.stake("user", 1_000_000, 90, T0).unwrap();
    let stakes = manager.get_user_stakes("user");
    let stake = stakes[0];
    assert_eq!(stake.bonus_amount, 200_000);
}

#[test]
fn test_early_unstaking_penalty() {
    let mut manager = StakingBonusManager::new();
    manager.stake("user", 1000, 90, T0).unwrap();
    let result = manager.unstake_early("user", 0);
    assert!(result.is_ok());
    let (principal_returned, penalty) = result.unwrap();
    assert_eq!(penalty, 100);
    assert_eq!(principal_returned, 900);
    let stakes = manager.get_user_stakes("user");
    let stake = stakes[0];
    assert!(!stake.is_active);
}

#[test]
fn test_cannot_unstake_already_claimed() {
    let mut manager = StakingBonusManager::new();
    manager.stake("user", 1000, 30, T0).unwrap();
    let now = T0 + 31 * DAY;
    manager.claim_stake("user", 0, now).unwrap();
    let result = manager.unstake_early("user", 0);
    assert!(result.is_err());
}

#[test]
fn test_query_user_totals() {
    let mut manager = StakingBonusManager::new();
    manager.stake("user", 1000, 30, T0).unwrap();
    manager.stake("user", 2000, 60, T0).unwrap();
    manager.stake("user", 3000, 90, T0).unwrap();
    assert_eq!(manager.get_user_total_staked("user"), 6000);
    // 5% of 1000, 12% of 2000 and 20% of 3000, per the bonus tiers.
    assert_eq!(manager.get_user_earned_bonuses("user"), 50 + 240 + 600);
}

#[test]
fn test_query_pending_bonuses() {
    let mut manager = StakingBonusManager::new();
    manager.stake("user", 1000, 30, T0).unwrap();
    manager.stake("user", 2000, 60, T0).unwrap();
    assert_eq!(manager.get_user_pending_bonuses("user", T0), 0);
    // 5% of 1000 and 12% of 2000, both past the 30-day holding period.
    assert_eq!(manager.get_user_pending_bonuses("user", T0 + 31 * DAY), 50 + 240);
}

#[test]
fn test_query_stake_details() {
    let mut manager = StakingBonusManager::new();
    manager.stake("user", 1000, 90, T0).unwrap();
    let result = manager.get_stake_details("user", 0);
    assert!(result.is_ok());
    let stake = result.unwrap();
    assert_eq!(stake.amount, 1000);
    assert_eq!(stake.bonus_bps, 2000);
    assert_eq!(stake.bonus_amount, 200);
    let result = manager.get_stake_details("user", 999);
    assert!(result.is_err());
}

#[test]
fn test_query_statistics() {
    let mut manager = StakingBonusManager::new();
    manager.stake("user1", 1000, 30, T0).unwrap();
    manager.stake("user2", 2000, 60, T0).unwrap();
    let (total_staked, _, _) = manager.get_statistics();
    assert_eq!(total_staked, 3000);
}

#[test]
fn test_distribution_requires_waiting_period() {
    let mut manager = StakingBonusManager::new();
    let result = manager.execute_distribution(T0);
    assert!(result.is_ok());
    let result = manager.execute_distribution(T0);
    assert!(result.is_err());
}

#[test]
fn test_distribution_history_tracking() {
    let mut manager = StakingBonusManager::new();
    manager.execute_distribution(T0).unwrap();
    let history = manager.get_distribution_history();
    assert_eq!(history.len(), 1);
    let record = history[0];
    assert!(record.distributed_at > 0);
}

#[test]
fn test_full_staking_lifecycle() {
    let mut manager = StakingBonusManager::new();
    manager.stake("user", 1000, 90, T0).unwrap();
    assert_eq!(manager.get_user_total_staked("user"), 1000);
    let now = T0 + 31 * DAY;
    let bonus = manager.claim_bonuses("user", now).unwrap();
    assert_eq!(bonus, 200);
    let claimed = manager.get_user_claimed_bonuses("user");
    assert_eq!(claimed, 200);
    let result = manager.claim_stake("user", 0, now);
    assert!(result.is_err());
    let now = now + 60 * DAY;
    let principal = manager.claim_stake("user", 0, now).unwrap();
    assert_eq!(principal, 1000);
    let stakes = manager.get_user_stakes("user");
    assert!(!stakes[0].is_active);
}

#[test]
fn test_claimed_bonus_not_reusable() {
    let mut manager = StakingBonusManager::new();
    manager.stake("user", 1000, 30, T0).unwrap();
    let now = T0 + 31 * DAY;
    manager.claim_bonuses("user", now).unwrap();
    let result = manager.claim_bonuses("user", now);
    assert!(result.is_err());
}

#[test]
fn staking_error_messages() {
    let mut manager = StakingBonusManager::new();
    assert_eq!(manager.stake("u", -5, 30, T0).unwrap_err(), "Amount must be positive");
    assert_eq!(manager.stake("u", 5, 7, T0).unwrap_err(), "Invalid duration: use 30, 60, 90, or 365 days");
    assert_eq!(manager.unstake_early("nobody", 0).unwrap_err(), "No stakes found for user");
    assert_eq!(manager.claim_bonuses("nobody", T0).unwrap_err(), "No stakes found for user");
    manager.stake("u", 1000, 30, T0).unwrap();
    assert_eq!(manager.unstake_early("u", 3).unwrap_err(), "Invalid stake ID");
    assert_eq!(manager.claim_stake("u", 0, T0 + 10).unwrap_err(), format!("Stake locked for {} more seconds", 30 * DAY - 10));
    assert_eq!(manager.claim_bonuses("u", T0).unwrap_err(), "No claimable bonuses available");
    manager.unstake_early("u", 0).unwrap();
    assert_eq!(manager.unstake_early("u", 0).unwrap_err(), "Stake is not active");
    assert_eq!(manager.claim_stake("u", 0, T0 + 40 * DAY).unwrap_err(), "Stake is not active");
}

#[test]
fn distribution_waiting_message_and_next_window() {
    let mut manager = StakingBonusManager::new();
    let rec = manager.execute_distribution(T0).unwrap();
    assert_eq!(rec.distributed_at, T0);
    assert_eq!(rec.total_distributed, 0);
    assert_eq!(rec.recipient_count, 0);
    let err = manager.execute_distribution(T0 + 100).unwrap_err();
    assert_eq!(err, format!("Distribution already executed recently. Try again in {} seconds", 7 * DAY - 100));
    assert!(manager.execute_distribution(T0 + 7 * DAY).is_ok());
    assert_eq!(manager.get_statistics().2, 2);
}

#[test]
fn exiting_early_forfeits_bonus_and_totals_follow() {
    let mut manager = StakingBonusManager::new();
    manager.stake("a", 1000, 30, T0).unwrap();
    manager.stake("b", 500, 60, T0).unwrap();
    manager.unstake_early("a", 0).unwrap();
    assert_eq!(manager.get_user_total_staked("a"), 0);
    assert_eq!(manager.get_user_earned_bonuses("a"), 0);
    assert_eq!(manager.get_user_pending_bonuses("a", T0 + 31 * DAY), 0);
    assert_eq!(manager.get_statistics().0, 500);
    assert_eq!(manager.claim_bonuses("b", T0 + 31 * DAY).unwrap(), 60);
    assert_eq!(manager.get_statistics().1, 60);
}

#[test]
fn bonus_helpers() {
    assert_eq!(StakingBonusManager::calculate_bonus(1000, 1200), 120);
    assert_eq!(StakingBonusManager::calculate_bonus(99, 500), 4);
    assert_eq!(StakingBonusManager::get_bonus_tier(30 * DAY), 500);
    assert_eq!(StakingBonusManager::get_bonus_tier(365 * DAY), 5000);
    assert_eq!(StakingBonusManager::get_bonus_tier(31 * DAY), 0);
    assert_eq!(StakingBonusManager::format_bonus_percentage(1250), 12);
}

#[test]
fn fresh_manager_stake_then_claim_once() {
    let mut m = StakingBonusManager::new();
    assert!(m.get_user_stakes("u").is_empty());
    assert_eq!(m.stake("u", 1000, 90, 1_000), Ok(0));
    let s = m.get_user_stakes("u");
    assert_eq!(s.len(), 1);
    assert_eq!((s[0].bonus_amount, s[0].unlock_at, s[0].claimable_at), (200, 7_777_000, 2_593_000));
    assert_eq!(m.get_user_pending_bonuses("u", 1_000 + 31 * 86_400), 200);
    assert_eq!(m.claim_bonuses("u", 1_000 + 31 * 86_400), Ok(200));
    assert!(m.claim_bonuses("u", 1_000 + 31 * 86_400).is_err());
}
