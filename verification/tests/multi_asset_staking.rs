use swaptrade::governance::multi_asset_staking::MultiAssetStaking;

#[test]
fn test_stake_and_balance() {
    let mut s = MultiAssetStaking::new();
    s.stake("alice", "USDC", 1_000, 0).unwrap();
    assert_eq!(s.staked_balance("alice", "USDC"), 1_000);
}

#[test]
fn test_unstake() {
    let mut s = MultiAssetStaking::new();
    s.stake("alice", "XLM", 500, 0).unwrap();
    s.unstake("alice", "XLM", 200).unwrap();
    assert_eq!(s.staked_balance("alice", "XLM"), 300);
}

#[test]
fn test_insufficient_unstake() {
    let mut s = MultiAssetStaking::new();
    s.stake("bob", "ETH", 100, 0).unwrap();
    assert!(s.unstake("bob", "ETH", 200).is_err());
}

#[test]
fn test_pending_rewards() {
    let mut s = MultiAssetStaking::new();
    s.set_reward_rate("USDC", 1);
    s.stake("alice", "USDC", 10_000, 0).unwrap();
    assert_eq!(s.pending_rewards("alice", "USDC", 100), 100);
}

#[test]
fn pending_rewards_formula_and_unknown_stake() {
    let mut s = MultiAssetStaking::new();
    s.set_reward_rate("XLM", 3);
    s.stake("carol", "XLM", 2_000, 50).unwrap();
    assert_eq!(s.pending_rewards("carol", "XLM", 150), 2_000 * 3 * 100 / 10_000);
    assert_eq!(s.pending_rewards("carol", "XLM", 10), 0);
    assert_eq!(s.pending_rewards("dave", "XLM", 150), 0);
    assert_eq!(s.staked_balance("dave", "XLM"), 0);
}

#[test]
fn unstaking_everything_clears_balance() {
    let mut s = MultiAssetStaking::new();
    s.stake("alice", "XLM", 500, 0).unwrap();
    s.unstake("alice", "XLM", 500).unwrap();
    assert_eq!(s.staked_balance("alice", "XLM"), 0);
    assert!(s.unstake("alice", "XLM", 1).is_err());
}

#[test]
fn stake_then_unstake_restores_balances_and_rewards() {
    let mut s = MultiAssetStaking::new();
    s.set_reward_rate("XLM", 5);
    s.stake("alice", "XLM", 100, 10).unwrap();
    let before = (s.staked_balance("alice", "XLM"), s.pending_rewards("alice", "XLM", 1_010));
    s.stake("alice", "XLM", 40, 500).unwrap();
    s.unstake("alice", "XLM", 40).unwrap();
    assert_eq!((s.staked_balance("alice", "XLM"), s.pending_rewards("alice", "XLM", 1_010)), before);
    s.stake("bob", "USDC", 7, 20).unwrap();
    s.unstake("bob", "USDC", 7).unwrap();
    assert_eq!(s.staked_balance("bob", "USDC"), 0);
    assert!(s.unstake("bob", "USDC", 1).is_err());
}
