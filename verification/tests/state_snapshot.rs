use swaptrade::state_snapshot::{
    AtomicOperation, ReadConsistencyGuard, StateConsistencyChecker, StateSnapshot, StateSnapshotManager,
};

const TIMESTAMP: u64 = 1_700_000_000;
const SEQUENCE: u32 = 100;

#[test]
fn test_snapshot_creation() {
    let mut manager = StateSnapshotManager::new();
    let snapshot = manager.create_snapshot(TIMESTAMP, SEQUENCE);
    assert!(snapshot.timestamp > 0);
    assert!(snapshot.block_number > 0);
    assert!(snapshot.snapshot_id > 0);
}

#[test]
fn test_snapshot_validation_same_block() {
    let mut manager = StateSnapshotManager::new();
    let snapshot = manager.create_snapshot(TIMESTAMP, SEQUENCE);
    let valid = StateSnapshotManager::validate_snapshot(SEQUENCE, &snapshot);
    assert!(valid);
}

#[test]
fn test_snapshot_validation_next_block() {
    let mut manager = StateSnapshotManager::new();
    let snapshot = manager.create_snapshot(TIMESTAMP, SEQUENCE);
    let valid = StateSnapshotManager::validate_snapshot(SEQUENCE + 1, &snapshot);
    assert!(valid);
}

#[test]
fn test_snapshot_invalid_after_multiple_blocks() {
    let mut manager = StateSnapshotManager::new();
    let snapshot = manager.create_snapshot(TIMESTAMP, SEQUENCE);
    let valid = StateSnapshotManager::validate_snapshot(SEQUENCE + 5, &snapshot);
    assert!(!valid);
}

#[test]
fn test_read_consistency_guard() {
    let mut manager = StateSnapshotManager::new();
    let guard = ReadConsistencyGuard::new(&mut manager, TIMESTAMP, SEQUENCE);
    assert!(guard.validate(SEQUENCE));
    assert!(guard.validate(SEQUENCE + 1));
}

#[test]
fn test_state_consistency_checker_validates_transition() {
    let allowed_transitions = vec![(0, 1), (1, 2), (2, 3)];
    assert!(StateConsistencyChecker::validate_transition(&0, &1, &allowed_transitions));
    assert!(!StateConsistencyChecker::validate_transition(&0, &2, &allowed_transitions));
}

#[test]
fn test_state_consistency_checker_preconditions() {
    let result = StateConsistencyChecker::validate_preconditions(|| true);
    assert!(result);
    let result = StateConsistencyChecker::validate_preconditions(|| false);
    assert!(!result);
}

#[test]
fn test_execute_with_validation_success() {
    let result = StateConsistencyChecker::execute_with_validation(|| 42, |value| *value == 42);
    assert!(result.is_ok());
    assert_eq!(result.unwrap(), 42);
}

#[test]
fn test_execute_with_validation_failure() {
    let result = StateConsistencyChecker::execute_with_validation(|| 42, |value| *value == 100);
    assert!(result.is_err());
}

#[test]
fn test_snapshot_ids_increment() {
    let mut manager = StateSnapshotManager::new();
    let snapshot1 = manager.create_snapshot(TIMESTAMP, SEQUENCE);
    let snapshot2 = manager.create_snapshot(TIMESTAMP, SEQUENCE);
    assert_eq!(snapshot2.snapshot_id, snapshot1.snapshot_id + 1);
}

#[test]
fn test_atomic_operation_executes_successfully() {
    let mut manager = StateSnapshotManager::new();
    let result = AtomicOperation::execute(&mut manager, TIMESTAMP, SEQUENCE, |snapshot: &StateSnapshot| {
        assert!(snapshot.timestamp > 0);
        snapshot.block_number
    });
    assert!(result > 0);
}

#[test]
fn execute_validated_passes_result_or_error() {
    let mut manager = StateSnapshotManager::new();
    let ok: Result<u32, String> = AtomicOperation::execute_validated(
        &mut manager,
        TIMESTAMP,
        SEQUENCE,
        |s: &StateSnapshot| s.block_number * 2,
        |_s: &StateSnapshot, r: &u32| if *r == 200 { Ok(()) } else { Err("bad".to_string()) },
    );
    assert_eq!(ok, Ok(200));
    let err: Result<u32, String> = AtomicOperation::execute_validated(
        &mut manager,
        TIMESTAMP,
        SEQUENCE,
        |s: &StateSnapshot| s.block_number,
        |_s: &StateSnapshot, r: &u32| if *r == 200 { Ok(()) } else { Err("bad".to_string()) },
    );
    assert_eq!(err, Err("bad".to_string()));
}

#[test]
fn validation_failure_message() {
    let result = StateConsistencyChecker::execute_with_validation(|| 1, |v| *v == 2);
    assert_eq!(result, Err("State validation failed after operation"));
    let guard = {
        let mut manager = StateSnapshotManager::new();
        ReadConsistencyGuard::new(&mut manager, TIMESTAMP, SEQUENCE)
    };
    guard.ensure_consistent(SEQUENCE + 1);
    assert!(!guard.validate(SEQUENCE + 10));
}
