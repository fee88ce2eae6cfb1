use swaptrade::counter::{
    apply_trader_limit, babylonian_sqrt, cache_ratio_bps, lp_tokens_for_deposit, swap_fee_split,
    swap_request_valid, withdrawal_amount, CounterContract, PoolError,
};
use swaptrade::kyc::KYCStatus;

fn contract_with_verified(user: &str) -> CounterContract {
    let mut c = CounterContract::new("admin");
    c.kyc.submit_kyc(user, 1).unwrap();
    c.kyc.update_status("admin", user, KYCStatus::InReview, None, 2).unwrap();
    c.kyc.update_status("admin", user, KYCStatus::Verified, None, 3).unwrap();
    c
}

#[test]
fn cache_ratio_values() {
    assert_eq!(cache_ratio_bps(0, 0), 0);
    assert_eq!(cache_ratio_bps(1, 1), 5000);
    assert_eq!(cache_ratio_bps(3, 1), 7500);
    assert_eq!(cache_ratio_bps(u64::MAX, 0), 1);
    assert_eq!(cache_ratio_bps(1_000_000_000_000_000, 0), 10000);
}

#[test]
fn trader_limit_caps_at_one_hundred() {
    let traders: Vec<(String, i128)> = (0..150).map(|i| (format!("t{}", i), i as i128)).collect();
    assert_eq!(apply_trader_limit(&traders, 5).len(), 5);
    assert_eq!(apply_trader_limit(&traders, 500).len(), 100);
    assert_eq!(apply_trader_limit(&traders[..3].to_vec(), 10).len(), 3);
    assert_eq!(apply_trader_limit(&traders, 2)[1], ("t1".to_string(), 1));
}

#[test]
fn babylonian_root_values() {
    assert_eq!(babylonian_sqrt(1), 1);
    assert_eq!(babylonian_sqrt(4), 2);
    assert_eq!(babylonian_sqrt(1_000_000), 1000);
    assert_eq!(babylonian_sqrt(10), 3);
    let r = babylonian_sqrt(1_000_000_000_000_000_000);
    assert_eq!(r, 1_000_000_000);
}

#[test]
fn lp_and_withdrawal_formulas() {
    assert_eq!(lp_tokens_for_deposit(100, 400, 0, 0, 0), 200);
    assert_eq!(lp_tokens_for_deposit(100, 100, 1000, 2000, 500), 25);
    assert_eq!(lp_tokens_for_deposit(100, 100, 0, 2000, 500), 0);
    assert_eq!(withdrawal_amount(50, 1000, 200), 250);
    assert_eq!(swap_fee_split(1000, 30), (3, 997));
    assert!(swap_request_valid("XLM", "USDCSIM", 5));
    assert!(!swap_request_valid("XLM", "XLM", 5));
    assert!(!swap_request_valid("BTC", "XLM", 5));
    assert!(!swap_request_valid("XLM", "USDCSIM", 0));
}

#[test]
fn add_and_remove_liquidity_round_trip() {
    let mut c = contract_with_verified("alice");
    c.mint("XLM", "alice", 1_000);
    c.mint("USDCSIM", "alice", 4_000);
    let lp = c.add_liquidity(100, 400, "alice").unwrap();
    assert_eq!(lp, 200);
    assert_eq!(c.balance_of("XLM", "alice"), 900);
    assert_eq!(c.balance_of("USDCSIM", "alice"), 3_600);
    let positions = c.get_lp_positions("alice");
    assert_eq!(positions.len(), 1);
    assert_eq!(positions[0].lp_tokens_minted, 200);
    let (x, u) = c.remove_liquidity(100, "alice").unwrap();
    assert_eq!((x, u), (50, 200));
    assert_eq!(c.balance_of("XLM", "alice"), 950);
    assert_eq!(c.balance_of("USDCSIM", "alice"), 3_800);
    assert_eq!(c.get_lp_positions("alice")[0].lp_tokens_minted, 100);
}

#[test]
fn liquidity_refusals() {
    let mut c = contract_with_verified("alice");
    assert_eq!(c.add_liquidity(1, 1, "bob"), Err(PoolError::KycVerificationRequired));
    assert_eq!(c.add_liquidity(0, 1, "alice"), Err(PoolError::XlmAmountNotPositive));
    assert_eq!(c.add_liquidity(1, 0, "alice"), Err(PoolError::UsdcAmountNotPositive));
    assert_eq!(c.add_liquidity(1, 1, "alice"), Err(PoolError::InsufficientXlmBalance));
    c.mint("XLM", "alice", 10);
    assert_eq!(c.add_liquidity(1, 1, "alice"), Err(PoolError::InsufficientUsdcBalance));
    assert_eq!(c.remove_liquidity(0, "alice"), Err(PoolError::LpAmountNotPositive));
    assert_eq!(c.remove_liquidity(1, "alice"), Err(PoolError::NoLpPosition));
    c.mint("USDCSIM", "alice", 10);
    c.add_liquidity(4, 9, "alice").unwrap();
    assert_eq!(c.remove_liquidity(100, "alice"), Err(PoolError::InsufficientLpTokens));
    assert_eq!(PoolError::InsufficientLpTokens.message(), "Insufficient LP tokens");
    assert_eq!(PoolError::KycVerificationRequired.message(), "KYC_VERIFICATION_REQUIRED");
}

#[test]
fn cache_counters_and_version() {
    let mut c = CounterContract::new("admin");
    assert_eq!(c.record_cache_access(true), 10000);
    assert_eq!(c.record_cache_access(false), 5000);
    assert_eq!(c.get_cache_stats(), (1, 1, 5000));
    assert_eq!(c.get_contract_version(), 0);
    c.initialize();
    assert_eq!(c.get_contract_version(), 1);
}

#[test]
fn removing_all_lp_returns_the_whole_pool() {
    let mut c = contract_with_verified("alice");
    c.mint("XLM", "alice", 1_000);
    c.mint("USDCSIM", "alice", 4_000);
    let lp = c.add_liquidity(100, 400, "alice").unwrap();
    assert_eq!(c.remove_liquidity(lp, "alice"), Ok((100, 400)));
    assert_eq!(c.balance_of("XLM", "alice"), 1_000);
    assert_eq!(c.balance_of("USDCSIM", "alice"), 4_000);
    assert_eq!(withdrawal_amount(3, 10, 7), 4);
    assert_eq!(withdrawal_amount(7, 10, 7), 10);
}

#[test]
fn first_deposit_mints_the_integer_square_root() {
    assert_eq!(babylonian_sqrt(8), 2);
    assert_eq!(babylonian_sqrt(3), 1);
    assert_eq!(babylonian_sqrt(24), 4);
    assert_eq!(babylonian_sqrt(35), 5);
    assert_eq!(lp_tokens_for_deposit(2, 4, 0, 0, 0), 2);
    let mut c = contract_with_verified("alice");
    c.mint("XLM", "alice", 10);
    c.mint("USDCSIM", "alice", 10);
    assert_eq!(c.add_liquidity(2, 4, "alice"), Ok(2));
}
