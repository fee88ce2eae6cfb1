use swaptrade::governance::{MultiSigCoordinator, MULTISIG_THRESHOLD, MULTISIG_TOTAL};

fn signers() -> Vec<String> {
    (0..MULTISIG_TOTAL).map(|i| format!("signer_{}", i)).collect()
}

#[test]
fn test_multisig_requires_minimum_signatures() {
    let mut coordinator = MultiSigCoordinator::new(signers());
    let payload = b"test payload";
    let proposal_id = coordinator.propose("signer_0", "Test proposal", payload).unwrap();
    let proposal = coordinator.proposals.get(&proposal_id).unwrap();
    assert!(!proposal.is_approved());
    assert_eq!(proposal.approval_count(), 1);
    coordinator.approve(&proposal_id, "signer_1").unwrap();
    coordinator.approve(&proposal_id, "signer_2").unwrap();
    let proposal = coordinator.proposals.get(&proposal_id).unwrap();
    assert!(proposal.is_approved());
    assert_eq!(proposal.approval_count(), MULTISIG_THRESHOLD);
}

#[test]
fn test_multisig_fails_without_quorum() {
    let mut coordinator = MultiSigCoordinator::new(signers());
    let payload = b"test payload";
    let proposal_id = coordinator.propose("signer_0", "Test proposal", payload).unwrap();
    coordinator.approve(&proposal_id, "signer_1").unwrap();
    let result = coordinator.execute(&proposal_id, payload);
    assert!(result.is_err());
    assert!(result.unwrap_err().contains("Insufficient approvals"));
}

#[test]
fn test_multisig_succeeds_with_required_signatures() {
    let mut coordinator = MultiSigCoordinator::new(signers());
    let payload = b"test payload";
    let proposal_id = coordinator.propose("signer_0", "Test proposal", payload).unwrap();
    coordinator.approve(&proposal_id, "signer_1").unwrap();
    coordinator.approve(&proposal_id, "signer_2").unwrap();
    let result = coordinator.execute(&proposal_id, payload);
    assert!(result.is_ok());
    let proposal = coordinator.proposals.get(&proposal_id).unwrap();
    assert!(proposal.executed);
}

#[test]
fn test_multisig_prevents_duplicate_signatures() {
    let mut coordinator = MultiSigCoordinator::new(signers());
    let payload = b"test payload";
    let proposal_id = coordinator.propose("signer_0", "Test proposal", payload).unwrap();
    let result1 = coordinator.approve(&proposal_id, "signer_1");
    assert!(result1.is_ok());
    let result2 = coordinator.approve(&proposal_id, "signer_1");
    assert!(result2.is_err());
    assert!(result2.unwrap_err().contains("already approved"));
}

#[test]
fn test_multisig_rejects_unauthorized_signer() {
    let mut coordinator = MultiSigCoordinator::new(signers());
    let payload = b"test payload";
    let proposal_id = coordinator.propose("signer_0", "Test proposal", payload).unwrap();
    let result = coordinator.approve(&proposal_id, "unauthorized_signer");
    assert!(result.is_err());
    assert!(result.unwrap_err().contains("not an authorized signer"));
}

#[test]
fn test_multisig_tracks_approval_count_correctly() {
    let mut coordinator = MultiSigCoordinator::new(signers());
    let payload = b"test payload";
    let proposal_id = coordinator.propose("signer_0", "Test proposal", payload).unwrap();
    let proposal = coordinator.proposals.get(&proposal_id).unwrap();
    assert_eq!(proposal.approval_count(), 1);
    for i in 1..MULTISIG_TOTAL {
        coordinator.approve(&proposal_id, &format!("signer_{}", i)).unwrap();
        let proposal = coordinator.proposals.get(&proposal_id).unwrap();
        assert_eq!(proposal.approval_count(), i + 1);
    }
}

#[test]
fn test_multisig_execution_prevented_after_rejection() {
    let mut coordinator = MultiSigCoordinator::new(signers());
    let payload = b"test payload";
    let proposal_id = coordinator.propose("signer_0", "Test proposal", payload).unwrap();
    let mut proposal = coordinator.proposals.remove(&proposal_id).unwrap();
    proposal.rejected = true;
    coordinator.proposals.insert(proposal_id, proposal);
    let result = coordinator.execute(&proposal_id, payload);
    assert!(result.is_err());
    assert!(result.unwrap_err().contains("Proposal rejected"));
}

#[test]
fn test_multisig_stores_total_signers_at_creation() {
    let mut coordinator = MultiSigCoordinator::new(signers());
    let payload = b"test payload";
    let proposal_id = coordinator.propose("signer_0", "Test proposal", payload).unwrap();
    let proposal = coordinator.proposals.get(&proposal_id).unwrap();
    assert_eq!(proposal.total_signers, MULTISIG_TOTAL);
    assert_eq!(proposal.required_signatures, MULTISIG_THRESHOLD);
}

#[test]
fn multisig_execution_runs_once_and_checks_payload() {
    let mut coordinator = MultiSigCoordinator::new(signers());
    let payload = b"test payload";
    let proposal_id = coordinator.propose("signer_0", "Test proposal", payload).unwrap();
    coordinator.approve(&proposal_id, "signer_1").unwrap();
    coordinator.approve(&proposal_id, "signer_2").unwrap();
    assert!(coordinator.execute(&proposal_id, b"other payload").is_err());
    assert!(coordinator.execute(&proposal_id, payload).is_ok());
    assert!(coordinator.execute(&proposal_id, payload).is_err());
}

#[test]
fn multisig_proposer_must_be_signer() {
    let mut coordinator = MultiSigCoordinator::new(signers());
    assert!(coordinator.propose("mallory", "Test proposal", b"x").is_err());
}
