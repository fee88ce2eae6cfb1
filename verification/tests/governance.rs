use swaptrade::governance::schnorr::{make_schnorr_proof, verify_schnorr_proof_test_compat};
use swaptrade::governance::{
    DecentralizationSchedule, GovernanceContract, GovernanceEvent, GovernanceLog, GovernancePhase, Timelock,
    SECS_PER_MONTH, TIMELOCK_DELAY_SECS,
};

fn guardians() -> Vec<String> {
    (0..5).map(|i| format!("g{}", i)).collect()
}

#[test]
fn phases_follow_the_schedule() {
    assert_eq!(GovernancePhase::from_elapsed(0), GovernancePhase::FullAdmin);
    assert_eq!(GovernancePhase::from_elapsed(3 * SECS_PER_MONTH - 1), GovernancePhase::FullAdmin);
    assert_eq!(GovernancePhase::from_elapsed(3 * SECS_PER_MONTH), GovernancePhase::PauseOnly);
    assert_eq!(GovernancePhase::from_elapsed(6 * SECS_PER_MONTH), GovernancePhase::MultiSig);
    assert_eq!(GovernancePhase::from_elapsed(12 * SECS_PER_MONTH), GovernancePhase::DaoOnly);
    assert_eq!(GovernancePhase::MultiSig.start_month(), 7);
    assert_eq!(GovernancePhase::DaoOnly.start_month(), 13);
}

#[test]
fn schedule_commitment_and_months() {
    let s = DecentralizationSchedule::new(1_000, guardians(), "dao".to_string());
    assert!(s.verify_commitment());
    assert_eq!(s.current_phase_at(1_000 + 4 * SECS_PER_MONTH), GovernancePhase::PauseOnly);
    assert_eq!(s.elapsed_months_at(1_000 + 4 * SECS_PER_MONTH), 4);
    assert_eq!(s.months_to_next_phase_at(1_000 + 4 * SECS_PER_MONTH), Some(2));
    assert_eq!(s.months_to_next_phase_at(1_000 + 20 * SECS_PER_MONTH), None);
    let mut tampered = s.clone_schedule_for_test();
    tampered.dao_address = "evil".to_string();
    assert!(!tampered.verify_commitment());
}

trait CloneSchedule {
    fn clone_schedule_for_test(&self) -> DecentralizationSchedule;
}

impl CloneSchedule for DecentralizationSchedule {
    fn clone_schedule_for_test(&self) -> DecentralizationSchedule {
        DecentralizationSchedule {
            deployed_at: self.deployed_at,
            commitment_hash: self.commitment_hash,
            guardian_addresses: self.guardian_addresses.clone(),
            dao_address: self.dao_address.clone(),
        }
    }
}

#[test]
fn timelock_waits_and_runs_once() {
    let mut t = Timelock::new();
    let id = t.queue_at("raise fee", b"payload", TIMELOCK_DELAY_SECS, 100);
    let early = t.execute_at(&id, b"payload", 100 + TIMELOCK_DELAY_SECS - 1);
    assert!(early.unwrap_err().starts_with("Timelock not expired"));
    assert!(t.execute_at(&id, b"other", 100 + TIMELOCK_DELAY_SECS).is_err());
    assert!(t.execute_at(&id, b"payload", 100 + TIMELOCK_DELAY_SECS).is_ok());
    assert_eq!(t.execute_at(&id, b"payload", 100 + TIMELOCK_DELAY_SECS).unwrap_err(), "Already executed");
    assert_eq!(t.cancel(&id).unwrap_err(), "Already executed");
    assert_eq!(t.cancel(&[0u8; 32]).unwrap_err(), "Operation not found");
}

#[test]
fn cancelled_operation_never_runs() {
    let mut t = Timelock::new();
    let id = t.queue_at("op", b"p", 10, 0);
    t.cancel(&id).unwrap();
    assert_eq!(t.execute_at(&id, b"p", 100).unwrap_err(), "Operation cancelled");
}

#[test]
fn log_chain_and_merkle_root() {
    let mut log = GovernanceLog::new();
    assert!(log.merkle_root().is_none());
    assert!(log.verify_chain());
    log.append_at(GovernanceEvent::ScheduleVerified { commitment_hash: "ab".to_string() }, 5);
    let h2 = log.append_at(GovernanceEvent::TimelockExecuted { operation_id: "01".to_string() }, 6);
    assert_eq!(log.len(), 2);
    assert!(log.verify_chain());
    assert_eq!(log.entries[1].entry_hash, h2);
    assert_eq!(log.entries[1].prev_hash, log.entries[0].entry_hash);
    assert_eq!(log.entries[0].seq, 1);
    assert!(log.merkle_root().is_some());
    log.entries[0].timestamp = 99;
    assert!(!log.verify_chain());
}

#[test]
fn event_json_matches_serde_layout() {
    let e = GovernanceEvent::TimelockQueued { operation_id: "x\"y".to_string(), eta: 7 };
    assert_eq!(String::from_utf8(e.to_json()).unwrap(), r#"{"TimelockQueued":{"operation_id":"x\"y","eta":7}}"#);
    let p = GovernanceEvent::PhaseTransition { from: GovernancePhase::FullAdmin, to: GovernancePhase::PauseOnly };
    assert_eq!(String::from_utf8(p.to_json()).unwrap(), r#"{"PhaseTransition":{"from":"FullAdmin","to":"PauseOnly"}}"#);
}

#[test]
fn contract_phase_rules() {
    let c = GovernanceContract::deploy_at(guardians(), "dao".to_string(), 0);
    assert_eq!(c.current_phase_at(0), GovernancePhase::FullAdmin);
    assert!(c.assert_can_modify_state_at("admin", 0).is_ok());
    assert!(c.assert_can_pause_at(0).is_ok());
    assert!(c.assert_can_modify_state_at("admin", 4 * SECS_PER_MONTH).is_err());
    assert!(c.assert_can_pause_at(4 * SECS_PER_MONTH).is_ok());
    assert!(c.assert_can_pause_at(8 * SECS_PER_MONTH).is_err());
    let d = c.dashboard_at(0);
    assert_eq!(d.current_phase, "FullAdmin");
    assert_eq!(d.log_entries, 2);
    assert!(d.log_chain_valid);
    assert!(d.commitment_valid);
}

#[test]
fn contract_ticks_log_phase_changes() {
    let mut c = GovernanceContract::deploy_at(guardians(), "dao".to_string(), 0);
    c.tick_at(1);
    assert_eq!(c.dashboard_at(1).log_entries, 2);
    c.tick_at(4 * SECS_PER_MONTH);
    assert_eq!(c.dashboard_at(4 * SECS_PER_MONTH).log_entries, 3);
}

#[test]
fn guardian_override_checks_proof() {
    let mut c = GovernanceContract::deploy_at(guardians(), "dao".to_string(), 0);
    let proof = make_schnorr_proof(&[7u8; 32], b"halt");
    assert!(verify_schnorr_proof_test_compat(&proof));
    let r = c.guardian_override_at(&proof, "emergency", 10);
    assert_eq!(r.unwrap_err(), "Guardian not in authorized signer set");
}

#[test]
fn test_proof_helper_builds_an_accepted_proof() {
    let proof = swaptrade::governance::schnorr::create_test_schnorr_proof(&[3u8; 32], b"pause");
    assert!(verify_schnorr_proof_test_compat(&proof));
    assert_eq!(proof.message, b"pause".to_vec());
}

#[test]
fn re_splitting_guardian_addresses_is_detected() {
    let list = vec!["ab".to_string(), "c".to_string(), "d".to_string(), "e".to_string(), "f".to_string()];
    let s = DecentralizationSchedule::new(1_000, list, "dao".to_string());
    assert!(s.verify_commitment());
    let mut moved = s.clone_schedule_for_test();
    moved.guardian_addresses[0] = "a".to_string();
    moved.guardian_addresses[1] = "bc".to_string();
    assert!(!moved.verify_commitment());
    let mut later = s.clone_schedule_for_test();
    later.deployed_at = 1_001;
    assert!(!later.verify_commitment());
    let mut resealed = s.clone_schedule_for_test();
    resealed.commitment_hash[0] ^= 1;
    assert!(!resealed.verify_commitment());
}

#[test]
fn tampered_log_entries_are_detected() {
    let mut log = GovernanceLog::new();
    log.append_at(GovernanceEvent::ScheduleVerified { commitment_hash: "ab".to_string() }, 5);
    log.append_at(GovernanceEvent::TimelockExecuted { operation_id: "01".to_string() }, 6);
    log.entries[1].seq = 7;
    assert!(!log.verify_chain());
    log.entries[1].seq = 2;
    assert!(log.verify_chain());
    log.entries[1].prev_hash[0] ^= 1;
    assert!(!log.verify_chain());
    log.entries[1].prev_hash[0] ^= 1;
    log.entries[0].entry_hash[5] ^= 1;
    assert!(!log.verify_chain());
    log.entries[0].entry_hash[5] ^= 1;
    assert!(log.verify_chain());
}

#[test]
fn ticking_twice_at_once_logs_once() {
    let mut c = GovernanceContract::deploy_at(guardians(), "dao".to_string(), 0);
    c.tick_at(4 * SECS_PER_MONTH);
    c.tick_at(4 * SECS_PER_MONTH);
    assert_eq!(c.dashboard_at(4 * SECS_PER_MONTH).log_entries, 3);
}
