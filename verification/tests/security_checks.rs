use swaptrade::security_checks::{
    assert_authorized, validate_fee, validate_slippage, validate_trade_amount, RateLimiter, SecurityError,
    MAX_TRADE_AMOUNT,
};

#[test]
fn test_validate_trade_amount() {
    assert!(validate_trade_amount(0).is_err());
    assert!(validate_trade_amount(1).is_ok());
    assert!(validate_trade_amount(MAX_TRADE_AMOUNT + 1).is_err());
}

#[test]
fn test_validate_fee() {
    assert!(validate_fee(0).is_err());
    assert!(validate_fee(30).is_ok());
    assert!(validate_fee(10_001).is_err());
}

#[test]
fn test_validate_slippage() {
    assert!(validate_slippage(5_001).is_err());
    assert!(validate_slippage(100).is_ok());
}

#[test]
fn test_assert_authorized() {
    assert!(assert_authorized("alice", &["alice", "bob"]).is_ok());
    assert!(assert_authorized("eve", &["alice", "bob"]).is_err());
}

#[test]
fn test_rate_limiter() {
    let mut rl = RateLimiter::new(60, 3);
    assert!(rl.check("alice", 0).is_ok());
    assert!(rl.check("alice", 1).is_ok());
    assert!(rl.check("alice", 2).is_ok());
    assert!(rl.check("alice", 3).is_err());
    assert!(rl.check("alice", 70).is_ok());
}

#[test]
fn security_error_variants_and_messages() {
    assert_eq!(validate_trade_amount(0), Err(SecurityError::ZeroAmount));
    assert_eq!(validate_trade_amount(MAX_TRADE_AMOUNT + 1), Err(SecurityError::AmountExceedsLimit));
    assert_eq!(validate_trade_amount(MAX_TRADE_AMOUNT), Ok(()));
    assert_eq!(validate_fee(10_000), Ok(()));
    assert_eq!(validate_fee(0), Err(SecurityError::InvalidFee));
    assert_eq!(validate_slippage(5_000), Ok(()));
    assert_eq!(validate_slippage(5_001), Err(SecurityError::SlippageTooHigh));
    assert_eq!(assert_authorized("eve", &[]), Err(SecurityError::UnauthorizedCaller));
    assert_eq!(SecurityError::RateLimitExceeded.message(), "rate limit exceeded");
    assert_eq!(SecurityError::ZeroAmount.message(), "amount must be non-zero");
}

#[test]
fn rate_limiter_separates_callers_and_refuses_with_rate_limit_error() {
    let mut rl = RateLimiter::new(10, 1);
    assert!(rl.check("alice", 0).is_ok());
    assert!(rl.check("bob", 0).is_ok());
    assert_eq!(rl.check("alice", 5), Err(SecurityError::RateLimitExceeded));
    assert!(rl.check("alice", 10).is_err());
    assert!(rl.check("alice", 11).is_ok());
}

#[test]
fn zero_limit_refuses_and_refusals_record_nothing() {
    let mut rl = RateLimiter::new(60, 0);
    assert_eq!(rl.check("a", 1), Err(SecurityError::RateLimitExceeded));
    let mut rl = RateLimiter::new(10, 2);
    assert!(rl.check("a", 0).is_ok());
    assert!(rl.check("a", 1).is_ok());
    assert_eq!(rl.check("a", 2), Err(SecurityError::RateLimitExceeded));
    assert!(rl.check("b", 2).is_ok());
    assert!(rl.check("a", 11).is_ok());
}
