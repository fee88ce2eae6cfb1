//! Snapshots of the ledger position taken before a critical operation, so
//! that the operation can check it ran against consistent state, and small
//! helpers that validate state transitions and operation results.

use vstd::prelude::*;
use vstd::std_specs::cmp::PartialEqSpec;

verus! {

/// Where the ledger stood when a snapshot was taken.
#[derive(Clone, Copy, Debug, PartialEq, Eq, Structural)]
pub struct StateSnapshot {
    pub timestamp: u64,
    pub block_number: u32,
    pub snapshot_id: u64,
}

/// A snapshot stays valid in its own block and the next one.
pub open spec fn snapshot_valid(current_block: u32, snapshot: StateSnapshot) -> bool {
    current_block <= snapshot.block_number + 1
}

/// Hands out snapshots with increasing numbers, starting at one.
pub struct StateSnapshotManager {
    last_id: u64,
}

impl StateSnapshotManager {
    /// The number of the latest snapshot (zero before the first).
    pub closed spec fn last_snapshot_id(&self) -> u64 {
        self.last_id
    }

    /// A manager that has handed out no snapshot.
    pub fn new() -> (m: Self)
        ensures
            m.last_snapshot_id() == 0,
    {
        StateSnapshotManager { last_id: 0 }
    }

    /// Takes a snapshot of the ledger at `timestamp` and `sequence`.
    pub fn create_snapshot(&mut self, timestamp: u64, sequence: u32) -> (s: StateSnapshot)
        requires
            old(self).last_snapshot_id() < u64::MAX,
        ensures
            s == (StateSnapshot { timestamp, block_number: sequence, snapshot_id: (old(self).last_snapshot_id() + 1) as u64 }),
            final(self).last_snapshot_id() == old(self).last_snapshot_id() + 1,
    {
        let next_id = self.last_id + 1;
        self.last_id = next_id;
        StateSnapshot { timestamp, block_number: sequence, snapshot_id: next_id }
    }

    /// Whether `snapshot` is still valid at block `current_block`.
    pub fn validate_snapshot(current_block: u32, snapshot: &StateSnapshot) -> (b: bool)
        ensures
            b == snapshot_valid(current_block, *snapshot),
    {
        current_block as u64 <= snapshot.block_number as u64 + 1
    }
}

/// Runs operations against a snapshot taken just before them.
pub struct AtomicOperation;

impl AtomicOperation {
    /// Takes a snapshot at `timestamp` and `sequence`, runs `operation` on
    /// it and returns the operation's result. The ledger does not move during
    /// the call, so the snapshot is still valid afterwards.
    pub fn execute<F, R>(manager: &mut StateSnapshotManager, timestamp: u64, sequence: u32, operation: F) -> (r: R)
        where
            F: FnOnce(&StateSnapshot) -> R,
        requires
            old(manager).last_snapshot_id() < u64::MAX,
            forall|s: StateSnapshot| #[trigger] call_requires(operation, (&s,)),
        ensures
            final(manager).last_snapshot_id() == old(manager).last_snapshot_id() + 1,
            call_ensures(operation, (&StateSnapshot { timestamp, block_number: sequence,
                snapshot_id: (old(manager).last_snapshot_id() + 1) as u64 },), r),
    {
        let snapshot = manager.create_snapshot(timestamp, sequence);
        let result = operation(&snapshot);
        assert(snapshot_valid(sequence, snapshot));
        result
    }

    /// As `execute`, then runs `validator` on the snapshot and the result and
    /// hands back its error if it refuses.
    pub fn execute_validated<F, R, E, V>(manager: &mut StateSnapshotManager, timestamp: u64, sequence: u32,
        operation: F, validator: V) -> (r: Result<R, E>)
        where
            F: FnOnce(&StateSnapshot) -> R,
            V: FnOnce(&StateSnapshot, &R) -> Result<(), E>,
        requires
            old(manager).last_snapshot_id() < u64::MAX,
            forall|s: StateSnapshot| #[trigger] call_requires(operation, (&s,)),
            forall|s: StateSnapshot, x: &R| #[trigger] call_requires(validator, (&s, x)),
        ensures
            final(manager).last_snapshot_id() == old(manager).last_snapshot_id() + 1,
            ({
                let s = StateSnapshot { timestamp, block_number: sequence, snapshot_id: (old(manager).last_snapshot_id() + 1) as u64 };
                exists|x: R| #[trigger] call_ensures(operation, (&s,), x) && match r {
                    Ok(y) => y == x && call_ensures(validator, (&s, &x), Ok::<(), E>(())),
                    Err(e) => call_ensures(validator, (&s, &x), Err::<(), E>(e)),
                }
            }),
    {
        let snapshot = manager.create_snapshot(timestamp, sequence);
        let result = operation(&snapshot);
        let verdict = validator(&snapshot, &result);
        assert(call_ensures(operation, (&snapshot,), result));
        assert(call_ensures(validator, (&snapshot, &result), verdict));
        match verdict {
            Ok(u) => {
                assert(verdict == Ok::<(), E>(()));
                Ok(result)
            },
            Err(e) => {
                assert(call_ensures(validator, (&snapshot, &result), Err::<(), E>(e)));
                Err(e)
            },
        }
    }
}

/// Checks around state mutations.
pub struct StateConsistencyChecker;

/// Whether the pair `(old_state, new_state)` is among `allowed`, compared
/// with each type's own equality.
pub open spec fn transition_listed<T: PartialEqSpec>(old_state: T, new_state: T, allowed: Seq<(T, T)>) -> bool {
    exists|i: int| 0 <= i < allowed.len() && (#[trigger] allowed[i]).0.eq_spec(&old_state) && allowed[i].1.eq_spec(&new_state)
}

impl StateConsistencyChecker {
    /// Whether moving from `old_state` to `new_state` is one of `allowed_transitions`.
    pub fn validate_transition<T: PartialEq + Clone>(old_state: &T, new_state: &T, allowed_transitions: &[(T, T)]) -> (b: bool)
        requires
            T::obeys_eq_spec(),
        ensures
            b == transition_listed(*old_state, *new_state, allowed_transitions@),
    {
        let n = allowed_transitions.len();
        let mut i: usize = 0;
        while i < n
            invariant
                T::obeys_eq_spec(),
                n == allowed_transitions@.len(),
                0 <= i <= n,
                forall|j: int| 0 <= j < i ==> !((#[trigger] allowed_transitions@[j]).0.eq_spec(old_state)
                    && allowed_transitions@[j].1.eq_spec(new_state)),
            decreases n - i,
        {
            let pair = &allowed_transitions[i];
            if pair.0 == *old_state && pair.1 == *new_state {
                assert(allowed_transitions@[i as int] == *pair);
                return true;
            }
            i = i + 1;
        }
        false
    }

    /// Evaluates `preconditions`.
    pub fn validate_preconditions<F>(preconditions: F) -> (b: bool)
        where
            F: FnOnce() -> bool,
        requires
            call_requires(preconditions, ()),
        ensures
            call_ensures(preconditions, (), b),
    {
        preconditions()
    }

    /// Runs `operation` and keeps its result only if `validator` accepts it.
    pub fn execute_with_validation<F, R, V>(operation: F, validator: V) -> (r: Result<R, &'static str>)
        where
            F: FnOnce() -> R,
            V: FnOnce(&R) -> bool,
        requires
            call_requires(operation, ()),
            forall|x: &R| #[trigger] call_requires(validator, (x,)),
        ensures
            exists|x: R| #[trigger] call_ensures(operation, (), x) && match r {
                Ok(y) => y == x && call_ensures(validator, (&x,), true),
                Err(m) => call_ensures(validator, (&x,), false) && m@ == "State validation failed after operation"@,
            },
    {
        let result = operation();
        if validator(&result) {
            Ok(result)
        } else {
            Err("State validation failed after operation")
        }
    }
}

/// Guards reads that must come from one consistent ledger position.
pub struct ReadConsistencyGuard {
    pub snapshot: StateSnapshot,
}

impl ReadConsistencyGuard {
    /// A guard over a snapshot taken at `timestamp` and `sequence`.
    pub fn new(manager: &mut StateSnapshotManager, timestamp: u64, sequence: u32) -> (g: Self)
        requires
            old(manager).last_snapshot_id() < u64::MAX,
        ensures
            g.snapshot == (StateSnapshot { timestamp, block_number: sequence, snapshot_id: (old(manager).last_snapshot_id() + 1) as u64 }),
            final(manager).last_snapshot_id() == old(manager).last_snapshot_id() + 1,
    {
        ReadConsistencyGuard { snapshot: manager.create_snapshot(timestamp, sequence) }
    }

    /// Whether the reads are still consistent at block `current_block`.
    pub fn validate(&self, current_block: u32) -> (b: bool)
        ensures
            b == snapshot_valid(current_block, self.snapshot),
    {
        StateSnapshotManager::validate_snapshot(current_block, &self.snapshot)
    }

    /// Checks consistency at block `current_block`; callers must only use it
    /// while the snapshot is valid.
    pub fn ensure_consistent(&self, current_block: u32)
        requires
            snapshot_valid(current_block, self.snapshot),
    {
        let ok = self.validate(current_block);
        assert(ok);
    }
}

} // verus!
