use swaptrade::counter::{CounterContract, PoolError};
use swaptrade::kyc::{KYCError, KYCStatus};

const T0: u64 = 1_700_000_000;
const DAY: u64 = 24 * 60 * 60;

fn contract_with_verified(user: &str) -> CounterContract {
    let mut c = CounterContract::new("admin");
    c.kyc_submit(user, T0).unwrap();
    c.kyc_update_status("admin", user, KYCStatus::InReview, None, T0 + 1).unwrap();
    c.kyc_update_status("admin", user, KYCStatus::Verified, None, T0 + 2).unwrap();
    c
}

#[test]
fn staking_is_refused_without_verified_kyc() {
    let mut c = contract_with_verified("alice");
    let refused = c.stake("bob", 1_000, 30, T0);
    assert_eq!(refused, Err("KYC_VERIFICATION_REQUIRED".to_string()));
    assert_eq!(c.get_staking_statistics(), (0, 0, 0));
    assert!(c.get_user_stakes("bob").is_empty());
    assert_eq!(c.claim_staking_bonuses("bob", T0), Err("KYC_VERIFICATION_REQUIRED".to_string()));
    assert_eq!(c.claim_stake("bob", 0, T0), Err("KYC_VERIFICATION_REQUIRED".to_string()));
    assert_eq!(c.unstake_early("bob", 0), Err("KYC_VERIFICATION_REQUIRED".to_string()));
}

#[test]
fn verified_user_stakes_claims_and_withdraws() {
    let mut c = contract_with_verified("alice");
    assert_eq!(c.stake("alice", 1_000, 30, T0), Ok(0));
    assert_eq!(c.stake("alice", 0, 30, T0), Err("Amount must be positive".to_string()));
    assert_eq!(c.get_user_total_staked("alice"), 1_000);
    assert_eq!(c.get_user_earned_bonuses("alice"), 50);
    assert_eq!(c.get_user_pending_bonuses("alice", T0), 0);
    assert_eq!(
        c.claim_staking_bonuses("alice", T0 + DAY),
        Err("No claimable bonuses available".to_string())
    );
    assert_eq!(c.get_user_pending_bonuses("alice", T0 + 30 * DAY), 50);
    assert_eq!(c.claim_staking_bonuses("alice", T0 + 30 * DAY), Ok(50));
    assert_eq!(c.get_user_claimed_bonuses("alice"), 50);
    assert_eq!(c.claim_stake("alice", 0, T0 + 30 * DAY), Ok(1_000));
    assert!(!c.get_stake_details("alice", 0).unwrap().is_active);
    assert_eq!(c.get_stake_details("alice", 3), Err("Invalid stake ID".to_string()));
    assert_eq!(c.get_staking_statistics(), (0, 50, 0));
}

#[test]
fn verified_user_exits_early_with_penalty() {
    let mut c = contract_with_verified("alice");
    c.stake("alice", 1_000, 90, T0).unwrap();
    assert_eq!(c.unstake_early("alice", 0), Ok((900, 100)));
    assert_eq!(c.unstake_early("alice", 0), Err("Stake is not active".to_string()));
    assert_eq!(c.get_user_total_staked("alice"), 0);
    assert_eq!(c.get_user_earned_bonuses("alice"), 0);
    assert_eq!(c.get_user_pending_bonuses("alice", T0 + 100 * DAY), 0);
    assert_eq!(
        c.claim_staking_bonuses("alice", T0 + 100 * DAY),
        Err("No claimable bonuses available".to_string())
    );
}

#[test]
fn staking_distribution_through_the_contract() {
    let mut c = CounterContract::new("admin");
    let first = c.execute_staking_distribution(T0).unwrap();
    assert_eq!(first.distributed_at, T0);
    assert!(c.execute_staking_distribution(T0 + DAY).is_err());
    assert!(c.execute_staking_distribution(T0 + 7 * DAY).is_ok());
    assert_eq!(c.get_distribution_history().len(), 2);
}

#[test]
fn kyc_entry_points_forward_to_the_kyc_system() {
    let mut c = CounterContract::new("admin");
    assert_eq!(c.kyc_add_operator("mallory", "op"), Err(KYCError::NotKYCOperator));
    c.kyc_add_operator("admin", "op").unwrap();
    assert!(c.kyc_is_operator("op"));
    assert!(c.kyc_is_operator("admin"));
    c.kyc_submit("carol", T0).unwrap();
    assert_eq!(c.kyc_get_record("carol", T0).status, KYCStatus::Pending);
    c.kyc_update_status("op", "carol", KYCStatus::InReview, None, T0 + 1).unwrap();
    c.kyc_update_status("op", "carol", KYCStatus::AdditionalInfoRequired, None, T0 + 2).unwrap();
    c.kyc_resubmit("carol", T0 + 3).unwrap();
    assert_eq!(c.kyc_get_record("carol", T0 + 3).status, KYCStatus::InReview);
    c.kyc_update_status("op", "carol", KYCStatus::Verified, None, T0 + 4).unwrap();
    assert!(c.kyc_is_verified("carol"));
    c.kyc_remove_operator("admin", "op").unwrap();
    assert!(!c.kyc_is_operator("op"));
}

#[test]
fn kyc_overrides_through_the_contract() {
    let mut c = contract_with_verified("dave");
    assert_eq!(c.kyc_set_timelock_duration("admin", 10), Err(KYCError::InvalidTimelockDuration));
    c.kyc_set_timelock_duration("admin", 2 * DAY).unwrap();
    assert_eq!(c.kyc_get_timelock_duration(), 2 * DAY);
    assert_eq!(
        c.kyc_propose_override("admin", "erin", KYCStatus::Verified, "appeal", T0),
        Err(KYCError::InvalidStateTransition)
    );
    let id = c.kyc_propose_override("admin", "dave", KYCStatus::Rejected, "fraud", T0 + 10).unwrap();
    assert_eq!(id, 0);
    assert_eq!(c.kyc_execute_override("admin", id, T0 + 11), Err(KYCError::TimelockNotElapsed));
    c.kyc_execute_override("admin", id, T0 + 10 + 2 * DAY).unwrap();
    assert_eq!(c.kyc_get_record("dave", T0 + 10 + 2 * DAY).status, KYCStatus::Rejected);
    assert!(c.kyc_get_override(id).unwrap().executed);
    assert!(c.kyc_get_override(7).is_none());
}

#[test]
fn pause_admin_and_cache_lifetime() {
    let mut c = CounterContract::new("admin");
    assert!(c.pause_trading());
    assert!(c.trading_paused);
    assert!(c.resume_trading());
    assert!(!c.trading_paused);
    assert_eq!(c.get_cache_ttl(), 60);
    assert!(c.cache_is_fresh(100, 160));
    assert!(!c.cache_is_fresh(100, 161));
    assert_eq!(c.set_cache_ttl("someone", 5), Err(PoolError::Unauthorized));
    c.set_admin("boss");
    c.set_cache_ttl("boss", 5).unwrap();
    assert_eq!(c.get_cache_ttl(), 5);
    assert!(c.cache_is_fresh(100, 50));
    c.mint("XLM", "alice", 7);
    assert_eq!(c.get_balance("XLM", "alice"), 7);
    assert_eq!(c.max_slippage_bps, None);
    c.set_max_slippage_bps(50);
    assert_eq!(c.max_slippage_bps, Some(50));
}

#[test]
fn portfolio_queries_are_cached_until_expiry_or_a_write() {
    let mut c = CounterContract::new("admin");
    assert_eq!(c.get_portfolio("alice", 1_000, (3, 40)), (3, 40));
    assert_eq!(c.get_cache_stats(), (0, 1, 0));
    assert_eq!(c.get_portfolio("alice", 1_030, (9, 99)), (3, 40));
    assert_eq!(c.get_cache_stats(), (1, 1, 5000));
    assert_eq!(c.get_portfolio("alice", 1_061, (9, 99)), (9, 99));
    assert_eq!(c.get_portfolio("alice", 1_062, (1, 1)), (9, 99));
    c.mint("XLM", "alice", 5);
    assert_eq!(c.get_portfolio("alice", 1_063, (1, 1)), (1, 1));
    assert_eq!(c.get_cache_stats(), (2, 3, 4000));
}

#[test]
fn top_traders_are_cached_and_cut() {
    let mut c = CounterContract::new("admin");
    let board: Vec<(String, i128)> = (0..5).map(|i| (format!("t{}", i), 100 - i as i128)).collect();
    let first = c.get_top_traders(2, 500, board.clone());
    assert_eq!(first, board[..2].to_vec());
    let warm = c.get_top_traders(10, 520, Vec::new());
    assert_eq!(warm, board);
    assert_eq!(c.clear_cache("someone"), Err(PoolError::Unauthorized));
    c.clear_cache("admin").unwrap();
    assert!(c.get_top_traders(10, 521, Vec::new()).is_empty());
    assert_eq!(c.get_cache_stats(), (1, 2, 3333));
}
