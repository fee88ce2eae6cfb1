use swaptrade::governance::voting::{GovernanceVoting, ProposalStatus};

#[test]
fn test_vote_and_pass() {
    let mut gov = GovernanceVoting::new();
    let id = gov.create_proposal("Enable fee discount".to_string(), "alice".to_string(), 2, 3600, 0);
    gov.vote(id, "alice", true, 100).unwrap();
    gov.vote(id, "bob", true, 200).unwrap();
    let status = gov.finalize(id, 300).unwrap();
    assert_eq!(status, ProposalStatus::Passed);
}

#[test]
fn test_duplicate_vote_rejected() {
    let mut gov = GovernanceVoting::new();
    let id = gov.create_proposal("Change quorum".to_string(), "alice".to_string(), 1, 3600, 0);
    gov.vote(id, "alice", true, 100).unwrap();
    assert!(gov.vote(id, "alice", true, 200).is_err());
}

#[test]
fn test_expired_proposal() {
    let mut gov = GovernanceVoting::new();
    let id = gov.create_proposal("Expired prop".to_string(), "alice".to_string(), 5, 60, 0);
    assert!(gov.vote(id, "alice", true, 120).is_err());
}

#[test]
fn test_proposal_cannot_be_executed_twice() {
    let mut gov = GovernanceVoting::new();
    let id = gov.create_proposal("Test proposal".to_string(), "alice".to_string(), 2, 3600, 0);
    gov.vote(id, "alice", true, 100).unwrap();
    gov.vote(id, "bob", true, 200).unwrap();
    let status = gov.finalize(id, 300).unwrap();
    assert_eq!(status, ProposalStatus::Passed);
    let result = gov.execute_proposal(id);
    assert!(result.is_ok());
    let proposal = gov.get(id).unwrap();
    assert_eq!(proposal.status, ProposalStatus::Executed);
    let result = gov.execute_proposal(id);
    assert!(result.is_err());
    assert!(result.unwrap_err().contains("already been executed"));
}

#[test]
fn test_failed_proposal_cannot_be_executed() {
    let mut gov = GovernanceVoting::new();
    let id = gov.create_proposal("Test proposal".to_string(), "alice".to_string(), 2, 3600, 0);
    gov.vote(id, "alice", false, 100).unwrap();
    gov.vote(id, "bob", false, 200).unwrap();
    let status = gov.finalize(id, 300).unwrap();
    assert_eq!(status, ProposalStatus::Rejected);
    let result = gov.execute_proposal(id);
    assert!(result.is_err());
    assert!(result.unwrap_err().contains("cannot be executed"));
}

#[test]
fn test_expired_proposal_cannot_be_executed() {
    let mut gov = GovernanceVoting::new();
    let id = gov.create_proposal("Test proposal".to_string(), "alice".to_string(), 2, 60, 0);
    let result = gov.vote(id, "alice", true, 120);
    assert!(result.is_err());
    let status = gov.finalize(id, 120).unwrap();
    assert_eq!(status, ProposalStatus::Expired);
    let result = gov.execute_proposal(id);
    assert!(result.is_err());
}

#[test]
fn test_active_proposal_cannot_be_executed() {
    let mut gov = GovernanceVoting::new();
    let id = gov.create_proposal("Test proposal".to_string(), "alice".to_string(), 2, 3600, 0);
    gov.vote(id, "alice", true, 100).unwrap();
    let result = gov.execute_proposal(id);
    assert!(result.is_err());
    assert!(result.unwrap_err().contains("cannot be executed"));
}

#[test]
fn test_execution_state_transitions_are_correct() {
    let mut gov = GovernanceVoting::new();
    let id = gov.create_proposal("Test proposal".to_string(), "alice".to_string(), 2, 3600, 0);
    let proposal = gov.get(id).unwrap();
    assert_eq!(proposal.status, ProposalStatus::Active);
    gov.vote(id, "alice", true, 100).unwrap();
    gov.vote(id, "bob", true, 200).unwrap();
    gov.finalize(id, 300).unwrap();
    let proposal = gov.get(id).unwrap();
    assert_eq!(proposal.status, ProposalStatus::Passed);
    gov.execute_proposal(id).unwrap();
    let proposal = gov.get(id).unwrap();
    assert_eq!(proposal.status, ProposalStatus::Executed);
}

#[test]
fn test_multiple_proposals_have_independent_execution_state() {
    let mut gov = GovernanceVoting::new();
    let id1 = gov.create_proposal("Proposal 1".to_string(), "alice".to_string(), 2, 3600, 0);
    let id2 = gov.create_proposal("Proposal 2".to_string(), "bob".to_string(), 2, 3600, 0);
    gov.vote(id1, "alice", true, 100).unwrap();
    gov.vote(id1, "bob", true, 200).unwrap();
    gov.finalize(id1, 300).unwrap();
    gov.vote(id2, "alice", true, 100).unwrap();
    gov.vote(id2, "bob", true, 200).unwrap();
    gov.finalize(id2, 300).unwrap();
    gov.execute_proposal(id1).unwrap();
    let proposal1 = gov.get(id1).unwrap();
    assert_eq!(proposal1.status, ProposalStatus::Executed);
    let proposal2 = gov.get(id2).unwrap();
    assert_eq!(proposal2.status, ProposalStatus::Passed);
    gov.execute_proposal(id2).unwrap();
    let proposal2 = gov.get(id2).unwrap();
    assert_eq!(proposal2.status, ProposalStatus::Executed);
    let result = gov.execute_proposal(id1);
    assert!(result.is_err());
}

#[test]
fn proposal_ids_start_at_one_and_unknown_ids_are_refused() {
    let mut gov = GovernanceVoting::new();
    let id = gov.create_proposal("First".to_string(), "alice".to_string(), 1, 10, 0);
    assert_eq!(id, 1);
    assert!(gov.get(2).is_none());
    assert!(gov.vote(2, "alice", true, 1).is_err());
    assert!(gov.finalize(2, 1).is_err());
    assert!(gov.execute_proposal(2).is_err());
}

#[test]
fn quorum_not_met_rejects() {
    let mut gov = GovernanceVoting::new();
    let id = gov.create_proposal("Needs three".to_string(), "alice".to_string(), 3, 3600, 0);
    gov.vote(id, "alice", true, 1).unwrap();
    gov.vote(id, "bob", true, 2).unwrap();
    assert_eq!(gov.finalize(id, 3).unwrap(), ProposalStatus::Active);
    assert_eq!(gov.finalize(id, 3601).unwrap(), ProposalStatus::Expired);
}

#[test]
fn proposal_ids_count_up_from_one() {
    let mut gov = GovernanceVoting::new();
    for k in 1..=4u64 {
        let id = gov.create_proposal(format!("p{}", k), "alice".to_string(), 1, 60, 0);
        assert_eq!(id, k);
    }
}
