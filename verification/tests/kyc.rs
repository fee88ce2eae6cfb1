use swaptrade::kyc::{KYCError, KYCStatus, KYCSystem, DEFAULT_TIMELOCK_DURATION, MIN_TIMELOCK_DURATION};

const NOW: u64 = 1_000_000;

fn verified_system(user: &str) -> KYCSystem {
    let mut k = KYCSystem::new("admin");
    k.add_operator("admin", "op").unwrap();
    k.submit_kyc(user, NOW).unwrap();
    k.update_status("op", user, KYCStatus::InReview, None, NOW + 1).unwrap();
    k.update_status("op", user, KYCStatus::Verified, None, NOW + 2).unwrap();
    k
}

#[test]
fn kyc_transitions_table() {
    assert!(KYCStatus::Unverified.can_transition_to(&KYCStatus::Pending));
    assert!(KYCStatus::Pending.can_transition_to(&KYCStatus::InReview));
    assert!(KYCStatus::InReview.can_transition_to(&KYCStatus::Verified));
    assert!(KYCStatus::InReview.can_transition_to(&KYCStatus::Rejected));
    assert!(KYCStatus::InReview.can_transition_to(&KYCStatus::AdditionalInfoRequired));
    assert!(KYCStatus::AdditionalInfoRequired.can_transition_to(&KYCStatus::InReview));
    assert!(!KYCStatus::Unverified.can_transition_to(&KYCStatus::Verified));
    assert!(!KYCStatus::Verified.can_transition_to(&KYCStatus::Rejected));
    assert!(KYCStatus::Verified.is_terminal());
    assert!(KYCStatus::Rejected.is_terminal());
    assert!(!KYCStatus::Pending.is_terminal());
}

#[test]
fn kyc_full_verification_flow() {
    let k = verified_system("alice");
    assert!(k.is_verified("alice"));
    assert_eq!(k.require_verified("alice"), Ok(()));
    let rec = k.get_record("alice", NOW + 5);
    assert_eq!(rec.status, KYCStatus::Verified);
    assert_eq!(rec.finalized_at, Some(NOW + 2));
    assert_eq!(rec.updated_by, Some("op".to_string()));
    assert_eq!(rec.expires_at, None);
}

#[test]
fn kyc_terminal_state_is_immutable() {
    let mut k = verified_system("alice");
    assert_eq!(
        k.update_status("op", "alice", KYCStatus::InReview, None, NOW + 3),
        Err(KYCError::TerminalStateImmutable)
    );
    assert!(k.is_verified("alice"));
}

#[test]
fn kyc_refusals() {
    let mut k = KYCSystem::new("admin");
    assert_eq!(k.add_operator("eve", "op"), Err(KYCError::NotKYCOperator));
    assert_eq!(k.update_status("eve", "bob", KYCStatus::Pending, None, NOW), Err(KYCError::NotKYCOperator));
    assert_eq!(k.update_status("admin", "admin", KYCStatus::Pending, None, NOW), Err(KYCError::SelfVerificationNotAllowed));
    assert_eq!(k.update_status("admin", "bob", KYCStatus::Verified, None, NOW), Err(KYCError::InvalidStateTransition));
    assert_eq!(k.resubmit_kyc("bob", NOW), Err(KYCError::InvalidStateTransition));
    assert_eq!(k.require_verified("bob"), Err(KYCError::NotVerified));
    k.submit_kyc("bob", NOW).unwrap();
    assert_eq!(k.submit_kyc("bob", NOW), Err(KYCError::InvalidStateTransition));
    let expiry = k.get_pending_expiry_duration();
    assert_eq!(
        k.update_status("admin", "bob", KYCStatus::InReview, None, NOW + expiry),
        Err(KYCError::RequestExpired)
    );
    assert_eq!(k.set_timelock_duration("admin", MIN_TIMELOCK_DURATION - 1), Err(KYCError::InvalidTimelockDuration));
    assert_eq!(k.set_pending_expiry_duration("admin", 10), Err(KYCError::InvalidExpiryDuration));
    assert_eq!(KYCError::RequestExpired.code(), 1009);
    assert_eq!(KYCError::NotKYCOperator.code(), 1000);
}

#[test]
fn kyc_operators_and_resubmission() {
    let mut k = KYCSystem::new("admin");
    assert!(k.is_operator("admin"));
    assert!(!k.is_operator("op"));
    k.add_operator("admin", "op").unwrap();
    k.add_operator("admin", "op").unwrap();
    assert!(k.is_operator("op"));
    k.submit_kyc("carol", NOW).unwrap();
    k.update_status("op", "carol", KYCStatus::InReview, None, NOW + 1).unwrap();
    k.update_status("op", "carol", KYCStatus::AdditionalInfoRequired, None, NOW + 2).unwrap();
    k.resubmit_kyc("carol", NOW + 3).unwrap();
    assert_eq!(k.get_record("carol", NOW).status, KYCStatus::InReview);
    k.update_status("op", "carol", KYCStatus::Rejected, Some("docs".to_string()), NOW + 4).unwrap();
    let rec = k.get_record("carol", NOW);
    assert_eq!(rec.rejection_reason, Some("docs".to_string()));
    k.remove_operator("admin", "op").unwrap();
    assert!(!k.is_operator("op"));
    assert_eq!(k.require_operator("op"), Err(KYCError::NotKYCOperator));
}

#[test]
fn kyc_governance_override_waits_for_timelock_and_runs_once() {
    let mut k = verified_system("alice");
    assert_eq!(k.propose_override("admin", "bob", KYCStatus::Unverified, "x", NOW), Err(KYCError::InvalidStateTransition));
    let id = k.propose_override("admin", "alice", KYCStatus::Rejected, "fraud", NOW + 10).unwrap();
    assert_eq!(id, 0);
    assert_eq!(k.get_timelock_duration(), DEFAULT_TIMELOCK_DURATION);
    assert_eq!(k.execute_override("admin", id, NOW + 11), Err(KYCError::TimelockNotElapsed));
    assert_eq!(k.execute_override("admin", 7, NOW + 11), Err(KYCError::OverrideNotFound));
    k.execute_override("admin", id, NOW + 10 + DEFAULT_TIMELOCK_DURATION).unwrap();
    let rec = k.get_record("alice", NOW);
    assert_eq!(rec.status, KYCStatus::Rejected);
    assert_eq!(rec.rejection_reason, Some("fraud".to_string()));
    assert!(!k.is_verified("alice"));
    assert_eq!(
        k.execute_override("admin", id, NOW + 20 + DEFAULT_TIMELOCK_DURATION),
        Err(KYCError::OverrideAlreadyExecuted)
    );
    assert!(k.get_override(id).unwrap().executed);
    assert!(k.get_override(1).is_none());
}
