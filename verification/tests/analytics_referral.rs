use swaptrade::analytics::{calculate, calculate_risk, check_circuit_breaker, RiskBook};
use swaptrade::referral::{ClaimError, InviteStatus, ReferralProgram, Report, ReportStatus};
use swaptrade::keyed::KeyedMap;

#[test]
fn confidence_scores() {
    assert_eq!(calculate(1, 0), 80);
    assert_eq!(calculate(-1, 5_000), 75);
    assert_eq!(calculate(0, 10_999), 60);
    assert_eq!(calculate(1, 50_000), 100);
    assert_eq!(calculate(1, -1), 100);
}

#[test]
fn risk_and_breaker() {
    let positions = vec![("XLM".to_string(), 100), ("BTC".to_string(), 55), ("ETH".to_string(), -15)];
    assert_eq!(calculate_risk(&positions), 10 + 5 - 1);
    assert_eq!(calculate_risk(&vec![]), 0);
    assert!(check_circuit_breaker(51));
    assert!(!check_circuit_breaker(50));
}

#[test]
fn risk_book_storage() {
    let mut b = RiskBook::new();
    assert_eq!(b.get_signal("XLM"), (0, 0));
    b.store_signal("XLM", 1, 85);
    assert_eq!(b.get_signal("XLM"), (1, 85));
    assert_eq!(b.get_limit("alice"), 0);
    b.set_limit("alice", 500);
    assert_eq!(b.get_limit("alice"), 500);
    b.send_alert("alice", "margin");
    b.send_alert("alice", "halt");
    assert_eq!(b.alerts.get(&"alice".to_string()).unwrap().clone(), vec!["margin".to_string(), "halt".to_string()]);
}

fn program() -> ReferralProgram {
    ReferralProgram {
        volumes: KeyedMap::new(),
        referrers: KeyedMap::new(),
        commission_rate: Some(5),
        commissions: KeyedMap::new(),
        queue: vec!["a".to_string(), "b".to_string(), "c".to_string()],
        queue_start: 0,
        queue_end: 3,
        batch_size: Some(2),
        statuses: KeyedMap::new(),
        reports: KeyedMap::new(),
    }
}

#[test]
fn referral_volume_and_commission() {
    let mut p = program();
    p.referrers.insert("bob".to_string(), "ref".to_string());
    p.record_volume("bob", 1_000);
    p.record_volume("bob", 30);
    p.record_volume("carol", 70);
    assert_eq!(*p.volumes.get(&"bob".to_string()).unwrap(), 1_030);
    assert_eq!(*p.commissions.get(&"ref".to_string()).unwrap(), 50 + 1);
    assert!(p.commissions.get(&"carol".to_string()).is_none());
}

#[test]
fn waitlist_released_in_batches() {
    let mut p = program();
    p.release_batch();
    assert_eq!(p.queue_start, 2);
    assert_eq!(*p.statuses.get(&"a".to_string()).unwrap(), InviteStatus::Invited);
    assert!(p.statuses.get(&"c".to_string()).is_none());
    p.release_batch();
    assert_eq!(p.queue_start, 3);
    p.release_batch();
    assert_eq!(p.queue_start, 3);
}

#[test]
fn report_rewards() {
    let mut p = program();
    p.reports.insert(1, Report { reporter: "rita".to_string(), status: ReportStatus::Approved, reward: 500 });
    p.reports.insert(2, Report { reporter: "rita".to_string(), status: ReportStatus::Pending, reward: 50 });
    assert_eq!(p.claim("eve", 1), Err(ClaimError::NotReportOwner));
    assert_eq!(p.claim("rita", 2), Err(ClaimError::NotEligible));
    assert_eq!(p.claim("rita", 1), Ok(500));
    assert_eq!(p.claim("rita", 1), Err(ClaimError::NotEligible));
    assert_eq!(ClaimError::NotEligible.message(), "Not eligible");
}
