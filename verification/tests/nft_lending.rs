use swaptrade::nft_lending::{LendingDesk, NFTError, NFTHolding, LIQUIDATION_GRACE_PERIOD};

const DAY: u64 = 86400;

fn desk_with_nft(owner: &str) -> LendingDesk {
    let mut d = LendingDesk::new();
    d.nfts.insert((1, 7), NFTHolding { owner: owner.to_string(), is_fractionalized: false, has_active_listing: false });
    d
}

#[test]
fn loan_lifecycle_repaid() {
    let mut d = desk_with_nft("bob");
    let id = d.request_loan("bob", 1, 7, 10_000, 10, 30 * DAY).unwrap();
    assert_eq!(id, 1);
    assert_eq!(d.get_loan_by_collateral(1, 7), Some(id));
    assert!(!d.can_use_as_collateral(1, 7));
    d.fund_loan("lucy", id, 1_000).unwrap();
    let loan = d.get_loan(id).unwrap();
    assert_eq!(loan.repayment_amount, 10_000 + 10 * 30);
    assert_eq!(loan.due_date, 1_000 + 30 * DAY);
    assert_eq!(d.get_total_active_loans(), 1);
    assert_eq!(d.calculate_repayment_amount(id, 2_000), 10_300);
    assert_eq!(d.repay_loan("bob", id, 10_299, 2_000), Err(NFTError::InsufficientRepayment));
    d.repay_loan("bob", id, 10_300, 2_000).unwrap();
    assert!(d.get_loan(id).unwrap().is_repaid);
    assert_eq!(d.get_total_active_loans(), 0);
    assert_eq!(d.get_loan_by_collateral(1, 7), None);
    assert_eq!(d.repay_loan("bob", id, 10_300, 2_000), Err(NFTError::LoanAlreadyRepaid));
    assert_eq!(d.liquidate_loan(id, 1_000 + 40 * DAY), Err(NFTError::LoanAlreadyRepaid));
    assert_eq!(d.get_borrower_loans("bob"), vec![1]);
    assert_eq!(d.get_lender_loans("lucy"), vec![1]);
}

#[test]
fn loan_liquidation_after_grace() {
    let mut d = desk_with_nft("bob");
    let id = d.request_loan("bob", 1, 7, 5_000, 100, DAY).unwrap();
    d.fund_loan("lucy", id, 0).unwrap();
    let due = d.get_loan(id).unwrap().due_date;
    assert!(d.is_loan_overdue(id, due + 1));
    assert!(!d.is_loan_overdue(id, due));
    assert_eq!(d.liquidate_loan(id, due + LIQUIDATION_GRACE_PERIOD), Err(NFTError::LoanNotOverdue));
    d.liquidate_loan(id, due + LIQUIDATION_GRACE_PERIOD + 1).unwrap();
    assert!(d.get_loan(id).unwrap().is_liquidated);
    assert_eq!(d.nfts.get(&(1, 7)).unwrap().owner, "lucy");
    assert_eq!(d.liquidate_loan(id, due + 3 * DAY), Err(NFTError::LoanLiquidated));
    assert!(d.can_use_as_collateral(1, 7));
}

#[test]
fn loan_request_refusals() {
    let mut d = desk_with_nft("bob");
    assert_eq!(d.request_loan("bob", 1, 7, 0, 10, DAY), Err(NFTError::InvalidAmount));
    assert_eq!(d.request_loan("bob", 1, 7, 10, 0, DAY), Err(NFTError::InvalidInterestRate));
    assert_eq!(d.request_loan("bob", 1, 7, 10, 101, DAY), Err(NFTError::InvalidInterestRate));
    assert_eq!(d.request_loan("bob", 1, 7, 10, 10, DAY - 1), Err(NFTError::InvalidDuration));
    assert_eq!(d.request_loan("bob", 1, 7, 10, 10, 366 * DAY), Err(NFTError::InvalidDuration));
    assert_eq!(d.request_loan("bob", 2, 7, 10, 10, DAY), Err(NFTError::NFTNotFound));
    assert_eq!(d.request_loan("eve", 1, 7, 10, 10, DAY), Err(NFTError::NotOwner));
    let id = d.request_loan("bob", 1, 7, 10, 10, DAY).unwrap();
    assert_eq!(d.request_loan("bob", 1, 7, 10, 10, DAY), Err(NFTError::AlreadyCollateralized));
    assert_eq!(d.fund_loan("bob", id, 0), Err(NFTError::SelfDealing));
    assert_eq!(d.fund_loan("lucy", 99, 0), Err(NFTError::LoanNotFound));
    assert_eq!(d.cancel_loan_request("eve", id), Err(NFTError::Unauthorized));
    assert_eq!(d.cancel_loan_request("bob", id), Ok(()));
    d.fund_loan("lucy", id, 0).unwrap();
    assert_eq!(d.fund_loan("lucy", id, 0), Err(NFTError::LoanAlreadyRepaid));
    assert_eq!(d.cancel_loan_request("bob", id), Err(NFTError::LoanAlreadyRepaid));
    d.paused = true;
    assert_eq!(d.request_loan("bob", 1, 7, 10, 10, DAY), Err(NFTError::MarketplacePaused));
    d.paused = false;
    d.frozen.push("lucy".to_string());
    assert_eq!(d.fund_loan("lucy", id, 0), Err(NFTError::UserFrozen));
}

#[test]
fn fractionalized_or_listed_nft_cannot_back_a_loan() {
    let mut d = LendingDesk::new();
    d.nfts.insert((1, 1), NFTHolding { owner: "bob".to_string(), is_fractionalized: true, has_active_listing: false });
    d.nfts.insert((1, 2), NFTHolding { owner: "bob".to_string(), is_fractionalized: false, has_active_listing: true });
    assert_eq!(d.request_loan("bob", 1, 1, 10, 10, DAY), Err(NFTError::UnsupportedOperation));
    assert_eq!(d.request_loan("bob", 1, 2, 10, 10, DAY), Err(NFTError::UnsupportedOperation));
    assert!(!d.can_use_as_collateral(1, 1));
    assert!(d.can_use_as_collateral(1, 2));
    assert!(!d.can_use_as_collateral(9, 9));
    assert_eq!(d.calculate_repayment_amount(5, 0), 0);
    assert!(!d.is_loan_overdue(5, 0));
}
