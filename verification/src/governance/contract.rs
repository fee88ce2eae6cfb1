//! The governance contract: the schedule, the timelock, the multi-sig
//! coordinator and the log together, with phase-gated admin checks. Every
//! state change is recorded in the log.

use vstd::prelude::*;
use crate::codec::{hex_encode, spec_hex};
use crate::keyed::{ExecKey, KeyedMap};
use crate::governance::phase::{
    now_secs, phase_rank, phase_name, phase_description, elapsed_since, months_to_next, SECS_PER_MONTH, DecentralizationSchedule, GovernancePhase, MULTISIG_TOTAL, TIMELOCK_DELAY_SECS,
};
use crate::governance::timelock::{sat_add, timelock_cancel_post, timelock_execute_post, timelock_queue_post, Timelock, TimelockEntry};
use crate::governance::multisig::{approve_post, multisig_execute_post, propose_post, MultiSigCoordinator, MultiSigProposal};
use crate::governance::schnorr::{commitment_relation, verify_schnorr_proof_test_compat, SchnorrProof};
use crate::governance::log::{appended, chain_valid, entry_hashes, merkle_root_of, GovernanceEvent, GovernanceLog, GovernanceLogEntry};

verus! {

/// The complete governance state.
pub struct GovernanceContract {
    pub schedule: DecentralizationSchedule,
    pub timelock: Timelock,
    pub multisig: MultiSigCoordinator,
    pub log: GovernanceLog,
    last_reported_phase: GovernancePhase,
}

/// `e` is a phase transition from `from` to `to`.
pub open spec fn is_phase_transition(e: GovernanceEvent, from: GovernancePhase, to: GovernancePhase) -> bool {
    e matches GovernanceEvent::PhaseTransition { from: f, to: t } && f == from && t == to
}

/// The message refusing a state change in each phase (none in the first).
pub open spec fn modify_refusal(p: GovernancePhase) -> Seq<char> {
    match p {
        GovernancePhase::FullAdmin => Seq::empty(),
        GovernancePhase::PauseOnly => "Phase 2: admin may only pause; state modification not allowed"@,
        GovernancePhase::MultiSig => "Phase 3: state modifications require 3-of-5 multi-sig approval"@,
        GovernancePhase::DaoOnly => "Phase 4: contract is immutable; submit a DAO proposal"@,
    }
}

/// The message refusing a pause in each phase (none in the first two).
pub open spec fn pause_refusal(p: GovernancePhase) -> Seq<char> {
    match p {
        GovernancePhase::MultiSig => "Phase 3: pause requires multi-sig approval"@,
        GovernancePhase::DaoOnly => "Phase 4: contract is governed by DAO only"@,
        _ => Seq::empty(),
    }
}

impl GovernanceContract {
    /// The log's entries.
    pub closed spec fn log_entries(&self) -> Seq<GovernanceLogEntry> {
        self.log.entries_seq()
    }

    /// The schedule.
    pub closed spec fn sched(&self) -> DecentralizationSchedule {
        self.schedule
    }

    /// The queued operations.
    pub closed spec fn ops(&self) -> Map<Seq<u8>, TimelockEntry> {
        self.timelock.entries.map()
    }

    /// The multi-sig proposals.
    pub closed spec fn proposals(&self) -> Map<Seq<u8>, MultiSigProposal> {
        self.multisig.proposals.map()
    }

    /// The guardians authorized to sign.
    pub closed spec fn guardians(&self) -> Set<Seq<char>> {
        self.multisig.signers()
    }

    /// The last phase recorded in the log.
    pub closed spec fn last_phase(&self) -> GovernancePhase {
        self.last_reported_phase
    }

    /// Components are well formed and the log's hash chain is valid.
    pub closed spec fn wf(&self) -> bool {
        &&& self.log.wf()
        &&& self.timelock.wf()
        &&& self.multisig.wf()
        &&& chain_valid(self.log.entries_seq())
    }

    /// Only the log (and the recorded phase) may differ.
    pub open spec fn same_state(&self, other: &Self) -> bool {
        &&& self.sched() == other.sched()
        &&& self.ops() == other.ops()
        &&& self.proposals() == other.proposals()
        &&& self.guardians() == other.guardians()
    }

    /// Deploys at `now`: commits the schedule, makes the guardians the
    /// signers, and logs the commitment and the initial phase.
    pub fn deploy_at(guardian_addresses: Vec<String>, dao_address: String, now: u64) -> (c: Self)
        requires
            guardian_addresses@.len() == MULTISIG_TOTAL,
        ensures
            c.wf(),
            c.sched().deployed_at == now,
            c.sched().guardian_addresses@ == guardian_addresses@,
            c.sched().dao_address == dao_address,
            c.sched().commitment_hash@ == c.sched().digest(),
            c.ops() == Map::<Seq<u8>, TimelockEntry>::empty(),
            c.proposals() == Map::<Seq<u8>, MultiSigProposal>::empty(),
            forall|k: Seq<char>| c.guardians().contains(k) <==> exists|j: int|
                0 <= j < guardian_addresses@.len() && (#[trigger] guardian_addresses@[j])@ == k,
            c.last_phase() == GovernancePhase::FullAdmin,
            c.log_entries().len() == 2,
            appended(Seq::empty(), c.log_entries().take(1), now),
            c.log_entries()[0].event matches GovernanceEvent::ScheduleVerified { commitment_hash }
                && commitment_hash@ == spec_hex(c.sched().commitment_hash@),
            appended(c.log_entries().take(1), c.log_entries(), now),
            is_phase_transition(c.log_entries()[1].event, GovernancePhase::FullAdmin, GovernancePhase::FullAdmin),
    {
        let signers = guardian_addresses.clone();
        proof {
            assert forall|j: int| 0 <= j < signers@.len() implies signers@[j] == guardian_addresses@[j] by {
                assert(cloned::<String>(guardian_addresses@[j], signers@[j]));
            }
            assert(signers@ =~= guardian_addresses@);
        }
        let schedule = DecentralizationSchedule::new(now, guardian_addresses, dao_address);
        let mut log = GovernanceLog::new();
        let commitment_hex = hex_encode(schedule.commitment_hash.as_slice());
        log.append_at(GovernanceEvent::ScheduleVerified { commitment_hash: commitment_hex }, now);
        let ghost first = log.entries_seq();
        let mut contract = GovernanceContract {
            timelock: Timelock::new(),
            multisig: MultiSigCoordinator::new(signers),
            last_reported_phase: GovernancePhase::FullAdmin,
            schedule,
            log,
        };
        contract.log.append_at(
            GovernanceEvent::PhaseTransition { from: GovernancePhase::FullAdmin, to: GovernancePhase::FullAdmin },
            now,
        );
        proof {
            assert(contract.log.entries_seq().take(1) =~= first);
            assert(first =~= first.take(1));
            assert(chain_valid(Seq::<GovernanceLogEntry>::empty()));
            assert(contract.log.entries_seq()[0] == first[0]);
        }
        contract
    }

    /// Deploys at the system clock's time; see `deploy_at`.
    pub fn deploy(guardian_addresses: Vec<String>, dao_address: String) -> (c: Self)
        requires
            guardian_addresses@.len() == MULTISIG_TOTAL,
        ensures
            c.wf(),
            c.sched().guardian_addresses@ == guardian_addresses@,
            c.sched().dao_address == dao_address,
            c.sched().commitment_hash@ == c.sched().digest(),
            c.ops() == Map::<Seq<u8>, TimelockEntry>::empty(),
            c.proposals() == Map::<Seq<u8>, MultiSigProposal>::empty(),
            forall|k: Seq<char>| c.guardians().contains(k) <==> exists|j: int|
                0 <= j < guardian_addresses@.len() && (#[trigger] guardian_addresses@[j])@ == k,
            c.last_phase() == GovernancePhase::FullAdmin,
            c.log_entries().len() == 2,
            c.log_entries()[0].timestamp == c.sched().deployed_at,
            c.log_entries()[0].event matches GovernanceEvent::ScheduleVerified { commitment_hash }
                && commitment_hash@ == spec_hex(c.sched().commitment_hash@),
            is_phase_transition(c.log_entries()[1].event, GovernancePhase::FullAdmin, GovernancePhase::FullAdmin),
    {
        let now = now_secs();
        Self::deploy_at(guardian_addresses, dao_address, now)
    }

    /// What `tick_at(now)` leaves: the state but the log and the last phase
    /// kept, the last phase set to the phase in force at `now`, and a
    /// transition logged exactly when that phase changed.
    pub open spec fn tick_post(o: Self, n: Self, now: u64) -> bool {
        &&& n.same_state(&o)
        &&& n.last_phase() == o.sched().phase_at(now)
        &&& o.sched().phase_at(now) == o.last_phase() ==> n.log_entries() == o.log_entries()
        &&& o.sched().phase_at(now) != o.last_phase() ==> {
            &&& appended(o.log_entries(), n.log_entries(), now)
            &&& is_phase_transition(n.log_entries().last().event, o.last_phase(), o.sched().phase_at(now))
        }
    }

    /// Logs a phase change if the phase in force at `now` differs from the
    /// last one recorded.
    pub fn tick_at(&mut self, now: u64)
        requires
            old(self).wf(),
            old(self).log_entries().len() < u64::MAX,
        ensures
            final(self).wf(),
            Self::tick_post(*old(self), *final(self), now),
    {
        let current = self.schedule.current_phase_at(now);
        if current != self.last_reported_phase {
            self.log.append_at(
                GovernanceEvent::PhaseTransition { from: self.last_reported_phase, to: current },
                now,
            );
            self.last_reported_phase = current;
        }
    }

    /// Ticking twice at the same time logs at most once: the second tick
    /// changes neither the log nor the last phase.
    pub proof fn law_tick_idempotent(a: Self, b: Self, c: Self, now: u64)
        requires
            Self::tick_post(a, b, now),
            Self::tick_post(b, c, now),
        ensures
            c.log_entries() == b.log_entries(),
            c.last_phase() == b.last_phase(),
            c.same_state(&b),
    {
    }

    /// Logs a phase change by the system clock; see `tick_at`.
    pub fn tick(&mut self)
        requires
            old(self).wf(),
            old(self).log_entries().len() < u64::MAX,
        ensures
            final(self).wf(),
            final(self).same_state(old(self)),
            exists|t: u64| final(self).last_phase() == #[trigger] old(self).sched().phase_at(t),
            final(self).last_phase() == old(self).last_phase() ==> final(self).log_entries() == old(self).log_entries(),
            final(self).last_phase() != old(self).last_phase() ==> {
                &&& exists|t: u64| appended(old(self).log_entries(), final(self).log_entries(), t)
                &&& is_phase_transition(final(self).log_entries().last().event, old(self).last_phase(), final(self).last_phase())
            },
    {
        let now = now_secs();
        self.tick_at(now);
    }

    /// The phase in force at `now`.
    pub fn current_phase_at(&self, now: u64) -> (p: GovernancePhase)
        ensures
            p == self.sched().phase_at(now),
    {
        self.schedule.current_phase_at(now)
    }

    /// The phase in force by the system clock.
    pub fn current_phase(&self) -> (p: GovernancePhase)
        ensures
            exists|t: u64| p == self.sched().phase_at(t),
    {
        let p = self.schedule.current_phase();
        proof {
            let t = choose|t: u64| p == self.schedule.phase_at(t);
            assert(p == self.sched().phase_at(t));
        }
        p
    }

    /// Whether the admin may perform a full state change at `now`: only in
    /// the first phase.
    pub fn assert_can_modify_state_at(&self, actor: &str, now: u64) -> (r: Result<(), String>)
        ensures
            self.sched().phase_at(now) == GovernancePhase::FullAdmin ==> r is Ok,
            self.sched().phase_at(now) != GovernancePhase::FullAdmin ==> (r matches Err(m)
                && m@ == modify_refusal(self.sched().phase_at(now))),
    {
        match self.current_phase_at(now) {
            GovernancePhase::FullAdmin => Ok(()),
            GovernancePhase::PauseOnly => Err(String::from_str("Phase 2: admin may only pause; state modification not allowed")),
            GovernancePhase::MultiSig => Err(String::from_str("Phase 3: state modifications require 3-of-5 multi-sig approval")),
            GovernancePhase::DaoOnly => Err(String::from_str("Phase 4: contract is immutable; submit a DAO proposal")),
        }
    }

    /// Whether the admin may perform a full state change now, by the
    /// system clock; see `assert_can_modify_state_at`.
    pub fn assert_can_modify_state(&self, actor: &str) -> (r: Result<(), String>)
        ensures
            exists|t: u64| {
                &&& #[trigger] self.sched().phase_at(t) == GovernancePhase::FullAdmin ==> r is Ok
                &&& self.sched().phase_at(t) != GovernancePhase::FullAdmin ==> (r matches Err(m)
                    && m@ == modify_refusal(self.sched().phase_at(t)))
            },
    {
        let now = now_secs();
        self.assert_can_modify_state_at(actor, now)
    }

    /// Whether the admin may pause at `now`: only in the first two phases.
    pub fn assert_can_pause_at(&self, now: u64) -> (r: Result<(), String>)
        ensures
            phase_rank(self.sched().phase_at(now)) <= 1 ==> r is Ok,
            phase_rank(self.sched().phase_at(now)) > 1 ==> (r matches Err(m)
                && m@ == pause_refusal(self.sched().phase_at(now))),
    {
        match self.current_phase_at(now) {
            GovernancePhase::FullAdmin | GovernancePhase::PauseOnly => Ok(()),
            GovernancePhase::MultiSig => Err(String::from_str("Phase 3: pause requires multi-sig approval")),
            GovernancePhase::DaoOnly => Err(String::from_str("Phase 4: contract is governed by DAO only")),
        }
    }

    /// Whether the admin may pause now, by the system clock; see
    /// `assert_can_pause_at`.
    pub fn assert_can_pause(&self) -> (r: Result<(), String>)
        ensures
            exists|t: u64| {
                &&& phase_rank(#[trigger] self.sched().phase_at(t)) <= 1 ==> r is Ok
                &&& phase_rank(self.sched().phase_at(t)) > 1 ==> (r matches Err(m)
                    && m@ == pause_refusal(self.sched().phase_at(t)))
            },
    {
        let now = now_secs();
        self.assert_can_pause_at(now)
    }

    /// Queues an operation at `now` with the standard delay and logs it.
    pub fn queue_operation_at(&mut self, description: &str, payload: &[u8], now: u64) -> (id: [u8; 32])
        requires
            old(self).wf(),
            old(self).log_entries().len() < u64::MAX,
        ensures
            final(self).wf(),
            queue_operation_post(*old(self), *final(self), description@, payload@, now, id),
    {
        let op_id = self.timelock.queue_at(description, payload, TIMELOCK_DELAY_SECS, now);
        let hex_id = hex_encode(op_id.as_slice());
        self.log.append_at(
            GovernanceEvent::TimelockQueued { operation_id: hex_id, eta: now.saturating_add(TIMELOCK_DELAY_SECS) },
            now,
        );
        op_id
    }

    /// Queues an operation by the system clock; see `queue_operation_at`.
    pub fn queue_operation(&mut self, description: &str, payload: &[u8]) -> (id: [u8; 32])
        requires
            old(self).wf(),
            old(self).log_entries().len() < u64::MAX,
        ensures
            final(self).wf(),
            exists|t: u64| queue_operation_post(*old(self), *final(self), description@, payload@, t, id),
    {
        let now = now_secs();
        self.queue_operation_at(description, payload, now)
    }

    /// Executes a queued operation at `now` (see `Timelock::execute_at`)
    /// and logs it.
    pub fn execute_operation_at(&mut self, op_id: &[u8; 32], payload: &[u8], now: u64) -> (r: Result<(), String>)
        requires
            old(self).wf(),
            old(self).log_entries().len() < u64::MAX,
        ensures
            final(self).wf(),
            execute_operation_post(*old(self), *final(self), op_id@, payload@, now, r),
    {
        let r = self.timelock.execute_at(op_id, payload, now);
        if r.is_err() {
            return r;
        }
        let hex_id = hex_encode(op_id.as_slice());
        self.log.append_at(GovernanceEvent::TimelockExecuted { operation_id: hex_id }, now);
        Ok(())
    }

    /// Executes a queued operation by the system clock; see
    /// `execute_operation_at`.
    pub fn execute_operation(&mut self, op_id: &[u8; 32], payload: &[u8]) -> (r: Result<(), String>)
        requires
            old(self).wf(),
            old(self).log_entries().len() < u64::MAX,
        ensures
            final(self).wf(),
            exists|t: u64| execute_operation_post(*old(self), *final(self), op_id@, payload@, t, r),
    {
        let now = now_secs();
        self.execute_operation_at(op_id, payload, now)
    }

    /// Cancels a queued operation (see `Timelock::cancel`) and logs it at `now`.
    pub fn cancel_operation_at(&mut self, op_id: &[u8; 32], now: u64) -> (r: Result<(), String>)
        requires
            old(self).wf(),
            old(self).log_entries().len() < u64::MAX,
        ensures
            final(self).wf(),
            cancel_operation_post(*old(self), *final(self), op_id@, now, r),
    {
        let r = self.timelock.cancel(op_id);
        if r.is_err() {
            return r;
        }
        let hex_id = hex_encode(op_id.as_slice());
        self.log.append_at(GovernanceEvent::TimelockCancelled { operation_id: hex_id }, now);
        Ok(())
    }

    /// Cancels a queued operation, logged by the system clock; see
    /// `cancel_operation_at`.
    pub fn cancel_operation(&mut self, op_id: &[u8; 32]) -> (r: Result<(), String>)
        requires
            old(self).wf(),
            old(self).log_entries().len() < u64::MAX,
        ensures
            final(self).wf(),
            exists|t: u64| cancel_operation_post(*old(self), *final(self), op_id@, t, r),
    {
        let now = now_secs();
        self.cancel_operation_at(op_id, now)
    }

    /// Opens a multi-sig proposal at `now` (see
    /// `MultiSigCoordinator::propose_at`) and logs it.
    pub fn propose_multisig_at(&mut self, proposer: &str, description: &str, payload: &[u8], now: u64) -> (r: Result<[u8; 32], String>)
        requires
            old(self).wf(),
            old(self).log_entries().len() < u64::MAX,
        ensures
            final(self).wf(),
            propose_multisig_post(*old(self), *final(self), proposer@, description@, payload@, now, r),
    {
        let r = self.multisig.propose_at(proposer, description, payload, now);
        match r {
            Err(e) => Err(e),
            Ok(pid) => {
                let hex_id = hex_encode(pid.as_slice());
                self.log.append_at(
                    GovernanceEvent::ProposalCreated { proposal_id: hex_id, proposer: proposer.to_owned() },
                    now,
                );
                Ok(pid)
            },
        }
    }

    /// Opens a multi-sig proposal by the system clock; see
    /// `propose_multisig_at`.
    pub fn propose_multisig(&mut self, proposer: &str, description: &str, payload: &[u8]) -> (r: Result<[u8; 32], String>)
        requires
            old(self).wf(),
            old(self).log_entries().len() < u64::MAX,
        ensures
            final(self).wf(),
            exists|t: u64| propose_multisig_post(*old(self), *final(self), proposer@, description@, payload@, t, r),
    {
        let now = now_secs();
        self.propose_multisig_at(proposer, description, payload, now)
    }

    /// Approves a multi-sig proposal (see `MultiSigCoordinator::approve`)
    /// and logs it at `now`.
    pub fn approve_multisig_at(&mut self, proposal_id: &[u8; 32], signer: &str, now: u64) -> (r: Result<usize, String>)
        requires
            old(self).wf(),
            old(self).log_entries().len() < u64::MAX,
        ensures
            final(self).wf(),
            approve_multisig_post(*old(self), *final(self), proposal_id@, signer@, now, r),
    {
        let r = self.multisig.approve(proposal_id, signer);
        match r {
            Err(e) => Err(e),
            Ok(count) => {
                let hex_id = hex_encode(proposal_id.as_slice());
                self.log.append_at(
                    GovernanceEvent::ProposalApproved { proposal_id: hex_id, approver: signer.to_owned(), count },
                    now,
                );
                Ok(count)
            },
        }
    }

    /// Approves a multi-sig proposal, logged by the system clock; see
    /// `approve_multisig_at`.
    pub fn approve_multisig(&mut self, proposal_id: &[u8; 32], signer: &str) -> (r: Result<usize, String>)
        requires
            old(self).wf(),
            old(self).log_entries().len() < u64::MAX,
        ensures
            final(self).wf(),
            exists|t: u64| approve_multisig_post(*old(self), *final(self), proposal_id@, signer@, t, r),
    {
        let now = now_secs();
        self.approve_multisig_at(proposal_id, signer, now)
    }

    /// Executes a multi-sig proposal (see `MultiSigCoordinator::execute`)
    /// and logs it at `now`.
    pub fn execute_multisig_at(&mut self, proposal_id: &[u8; 32], payload: &[u8], now: u64) -> (r: Result<(), String>)
        requires
            old(self).wf(),
            old(self).log_entries().len() < u64::MAX,
        ensures
            final(self).wf(),
            execute_multisig_post(*old(self), *final(self), proposal_id@, payload@, now, r),
    {
        let r = self.multisig.execute(proposal_id, payload);
        if r.is_err() {
            return r;
        }
        let hex_id = hex_encode(proposal_id.as_slice());
        self.log.append_at(GovernanceEvent::ProposalExecuted { proposal_id: hex_id }, now);
        Ok(())
    }

    /// Executes a multi-sig proposal, logged by the system clock; see
    /// `execute_multisig_at`.
    pub fn execute_multisig(&mut self, proposal_id: &[u8; 32], payload: &[u8]) -> (r: Result<(), String>)
        requires
            old(self).wf(),
            old(self).log_entries().len() < u64::MAX,
        ensures
            final(self).wf(),
            exists|t: u64| execute_multisig_post(*old(self), *final(self), proposal_id@, payload@, t, r),
    {
        let now = now_secs();
        self.execute_multisig_at(proposal_id, payload, now)
    }

    /// Accepts a guardian override at `now` when the proof's public key (in
    /// hex) is an authorized signer and the proof checks out, and logs it.
    pub fn guardian_override_at(&mut self, proof: &SchnorrProof, reason: &str, now: u64) -> (r: Result<(), String>)
        requires
            old(self).wf(),
            old(self).log_entries().len() < u64::MAX,
        ensures
            final(self).wf(),
            guardian_override_post(*old(self), *final(self), *proof, reason@, now, r),
    {
        let guardian = hex_encode(proof.pubkey.as_slice());
        if self.multisig.authorized_signers.find(&guardian).is_none() {
            return Err(String::from_str("Guardian not in authorized signer set"));
        }
        if !verify_schnorr_proof_test_compat(proof) {
            return Err(String::from_str("Invalid Schnorr proof"));
        }
        self.log.append_at(GovernanceEvent::GuardianOverride { guardian, reason: reason.to_owned() }, now);
        Ok(())
    }

    /// Accepts a guardian override, logged by the system clock; see
    /// `guardian_override_at`.
    pub fn guardian_override(&mut self, proof: &SchnorrProof, reason: &str) -> (r: Result<(), String>)
        requires
            old(self).wf(),
            old(self).log_entries().len() < u64::MAX,
        ensures
            final(self).wf(),
            exists|t: u64| guardian_override_post(*old(self), *final(self), *proof, reason@, t, r),
    {
        let now = now_secs();
        self.guardian_override_at(proof, reason, now)
    }
}

/// The multi-sig state and the schedule are unchanged.
pub open spec fn keeps_schedule_and_signers(o: GovernanceContract, n: GovernanceContract) -> bool {
    &&& n.sched() == o.sched()
    &&& n.guardians() == o.guardians()
    &&& n.last_phase() == o.last_phase()
}

/// What `queue_operation_at` does.
pub open spec fn queue_operation_post(
    o: GovernanceContract,
    n: GovernanceContract,
    description: Seq<char>,
    payload: Seq<u8>,
    t: u64,
    id: [u8; 32],
) -> bool {
    &&& keeps_schedule_and_signers(o, n)
    &&& n.proposals() == o.proposals()
    &&& timelock_queue_post(o.ops(), n.ops(), description, payload, TIMELOCK_DELAY_SECS, t, id)
    &&& appended(o.log_entries(), n.log_entries(), t)
    &&& n.log_entries().last().event matches GovernanceEvent::TimelockQueued { operation_id, eta }
        && operation_id@ == spec_hex(id@) && eta == sat_add(t, TIMELOCK_DELAY_SECS)
}

/// What `execute_operation_at` does.
pub open spec fn execute_operation_post(
    o: GovernanceContract,
    n: GovernanceContract,
    id: Seq<u8>,
    payload: Seq<u8>,
    t: u64,
    r: Result<(), String>,
) -> bool {
    &&& keeps_schedule_and_signers(o, n)
    &&& n.proposals() == o.proposals()
    &&& timelock_execute_post(o.ops(), n.ops(), id, payload, t, r)
    &&& r is Err ==> n.log_entries() == o.log_entries()
    &&& r is Ok ==> appended(o.log_entries(), n.log_entries(), t)
        && (n.log_entries().last().event matches GovernanceEvent::TimelockExecuted { operation_id }
        && operation_id@ == spec_hex(id))
}

/// What `cancel_operation_at` does.
pub open spec fn cancel_operation_post(
    o: GovernanceContract,
    n: GovernanceContract,
    id: Seq<u8>,
    t: u64,
    r: Result<(), String>,
) -> bool {
    &&& keeps_schedule_and_signers(o, n)
    &&& n.proposals() == o.proposals()
    &&& timelock_cancel_post(o.ops(), n.ops(), id, r)
    &&& r is Err ==> n.log_entries() == o.log_entries()
    &&& r is Ok ==> appended(o.log_entries(), n.log_entries(), t)
        && (n.log_entries().last().event matches GovernanceEvent::TimelockCancelled { operation_id }
        && operation_id@ == spec_hex(id))
}

/// What `propose_multisig_at` does.
pub open spec fn propose_multisig_post(
    o: GovernanceContract,
    n: GovernanceContract,
    proposer: Seq<char>,
    description: Seq<char>,
    payload: Seq<u8>,
    t: u64,
    r: Result<[u8; 32], String>,
) -> bool {
    &&& keeps_schedule_and_signers(o, n)
    &&& n.ops() == o.ops()
    &&& propose_post(o.guardians(), o.proposals(), n.proposals(), proposer, description, payload, t, r)
    &&& r is Err ==> n.log_entries() == o.log_entries()
    &&& r matches Ok(pid) ==> appended(o.log_entries(), n.log_entries(), t)
        && (n.log_entries().last().event matches GovernanceEvent::ProposalCreated { proposal_id, proposer: who }
        && proposal_id@ == spec_hex(pid@) && who@ == proposer)
}

/// What `approve_multisig_at` does.
pub open spec fn approve_multisig_post(
    o: GovernanceContract,
    n: GovernanceContract,
    id: Seq<u8>,
    signer: Seq<char>,
    t: u64,
    r: Result<usize, String>,
) -> bool {
    &&& keeps_schedule_and_signers(o, n)
    &&& n.ops() == o.ops()
    &&& approve_post(o.guardians(), o.proposals(), n.proposals(), id, signer, r)
    &&& r is Err ==> n.log_entries() == o.log_entries()
    &&& r matches Ok(c) ==> appended(o.log_entries(), n.log_entries(), t)
        && (n.log_entries().last().event matches GovernanceEvent::ProposalApproved { proposal_id, approver, count }
        && proposal_id@ == spec_hex(id) && approver@ == signer && count == c)
}

/// What `execute_multisig_at` does.
pub open spec fn execute_multisig_post(
    o: GovernanceContract,
    n: GovernanceContract,
    id: Seq<u8>,
    payload: Seq<u8>,
    t: u64,
    r: Result<(), String>,
) -> bool {
    &&& keeps_schedule_and_signers(o, n)
    &&& n.ops() == o.ops()
    &&& multisig_execute_post(o.proposals(), n.proposals(), id, payload, r)
    &&& r is Err ==> n.log_entries() == o.log_entries()
    &&& r is Ok ==> appended(o.log_entries(), n.log_entries(), t)
        && (n.log_entries().last().event matches GovernanceEvent::ProposalExecuted { proposal_id }
        && proposal_id@ == spec_hex(id))
}

/// What `guardian_override_at` does.
pub open spec fn guardian_override_post(
    o: GovernanceContract,
    n: GovernanceContract,
    proof: SchnorrProof,
    reason: Seq<char>,
    t: u64,
    r: Result<(), String>,
) -> bool {
    &&& keeps_schedule_and_signers(o, n)
    &&& n.ops() == o.ops()
    &&& n.proposals() == o.proposals()
    &&& if !o.guardians().contains(spec_hex(proof.pubkey@)) {
        (r matches Err(m) && m@ == "Guardian not in authorized signer set"@) && n.log_entries() == o.log_entries()
    } else if !commitment_relation(proof) {
        (r matches Err(m) && m@ == "Invalid Schnorr proof"@) && n.log_entries() == o.log_entries()
    } else {
        &&& r is Ok
        &&& appended(o.log_entries(), n.log_entries(), t)
        &&& n.log_entries().last().event matches GovernanceEvent::GuardianOverride { guardian, reason: why }
            && guardian@ == spec_hex(proof.pubkey@) && why@ == reason
    }
}

/// A summary of the governance state.
pub struct DecentralizationStatus {
    pub current_phase: String,
    pub phase_description: String,
    pub deployed_at: u64,
    pub elapsed_months: u64,
    pub months_to_next_phase: Option<u64>,
    pub commitment_hash: String,
    pub commitment_valid: bool,
    pub log_entries: usize,
    pub log_merkle_root: Option<String>,
    pub log_chain_valid: bool,
    pub pending_timelocks: usize,
    pub pending_proposals: usize,
}

/// Number of operations neither executed nor cancelled.
pub open spec fn count_pending_ops(s: Seq<([u8; 32], TimelockEntry)>) -> nat
    decreases s.len(),
{
    if s.len() == 0 {
        0
    } else {
        count_pending_ops(s.drop_last()) + (if !s.last().1.executed && !s.last().1.cancelled { 1nat } else { 0nat })
    }
}

/// Number of proposals neither executed nor rejected.
pub open spec fn count_pending_proposals(s: Seq<([u8; 32], MultiSigProposal)>) -> nat
    decreases s.len(),
{
    if s.len() == 0 {
        0
    } else {
        count_pending_proposals(s.drop_last()) + (if !s.last().1.executed && !s.last().1.rejected { 1nat } else { 0nat })
    }
}

proof fn lemma_count_ops_bound(s: Seq<([u8; 32], TimelockEntry)>)
    ensures
        count_pending_ops(s) <= s.len(),
    decreases s.len(),
{
    if s.len() > 0 {
        lemma_count_ops_bound(s.drop_last());
    }
}

proof fn lemma_count_props_bound(s: Seq<([u8; 32], MultiSigProposal)>)
    ensures
        count_pending_proposals(s) <= s.len(),
    decreases s.len(),
{
    if s.len() > 0 {
        lemma_count_props_bound(s.drop_last());
    }
}

impl GovernanceContract {
    /// The stored operations, in insertion order.
    pub closed spec fn op_pairs(&self) -> Seq<([u8; 32], TimelockEntry)> {
        self.timelock.entries.pairs()
    }

    /// The stored proposals, in insertion order.
    pub closed spec fn proposal_pairs(&self) -> Seq<([u8; 32], MultiSigProposal)> {
        self.multisig.proposals.pairs()
    }

    /// The summary at `now`.
    pub fn dashboard_at(&self, now: u64) -> (d: DecentralizationStatus)
        requires
            self.wf(),
        ensures
            d.current_phase@ == phase_name(self.sched().phase_at(now)),
            d.phase_description@ == phase_description(self.sched().phase_at(now)),
            d.deployed_at == self.sched().deployed_at,
            d.elapsed_months == elapsed_since(self.sched().deployed_at, now) / SECS_PER_MONTH,
            d.months_to_next_phase == months_to_next(elapsed_since(self.sched().deployed_at, now) / SECS_PER_MONTH),
            d.commitment_hash@ == spec_hex(self.sched().commitment_hash@),
            d.commitment_valid == (self.sched().commitment_hash@ == self.sched().digest()),
            d.log_entries == self.log_entries().len(),
            self.log_entries().len() == 0 ==> d.log_merkle_root is None,
            self.log_entries().len() > 0 ==> (d.log_merkle_root matches Some(h)
                && h@ == spec_hex(merkle_root_of(entry_hashes(self.log_entries())))),
            d.log_chain_valid == chain_valid(self.log_entries()),
            d.pending_timelocks == count_pending_ops(self.op_pairs()),
            d.pending_proposals == count_pending_proposals(self.proposal_pairs()),
    {
        let phase = self.current_phase_at(now);
        let root = match self.log.merkle_root() {
            Some(h) => Some(hex_encode(h.as_slice())),
            None => None,
        };
        let mut pending_timelocks: usize = 0;
        let n = self.timelock.entries.len();
        let mut i: usize = 0;
        while i < n
            invariant
                n == self.timelock.entries.pairs().len(),
                n == self.timelock.entries.size(),
                0 <= i <= n,
                pending_timelocks == count_pending_ops(self.timelock.entries.pairs().take(i as int)),
            decreases n - i,
        {
            let (_, e) = self.timelock.entries.at(i);
            proof {
                let s = self.timelock.entries.pairs();
                assert(s.take(i + 1).drop_last() =~= s.take(i as int));
                lemma_count_ops_bound(s.take(i as int));
            }
            if !e.executed && !e.cancelled {
                pending_timelocks = pending_timelocks + 1;
            }
            i = i + 1;
        }
        assert(self.timelock.entries.pairs().take(n as int) =~= self.timelock.entries.pairs());
        let mut pending_proposals: usize = 0;
        let m = self.multisig.proposals.len();
        let mut j: usize = 0;
        while j < m
            invariant
                m == self.multisig.proposals.pairs().len(),
                m == self.multisig.proposals.size(),
                0 <= j <= m,
                pending_proposals == count_pending_proposals(self.multisig.proposals.pairs().take(j as int)),
            decreases m - j,
        {
            let (_, p) = self.multisig.proposals.at(j);
            proof {
                let s = self.multisig.proposals.pairs();
                assert(s.take(j + 1).drop_last() =~= s.take(j as int));
                lemma_count_props_bound(s.take(j as int));
            }
            if !p.executed && !p.rejected {
                pending_proposals = pending_proposals + 1;
            }
            j = j + 1;
        }
        assert(self.multisig.proposals.pairs().take(m as int) =~= self.multisig.proposals.pairs());
        DecentralizationStatus {
            current_phase: String::from_str(phase.name()),
            phase_description: String::from_str(phase.description()),
            deployed_at: self.schedule.deployed_at,
            elapsed_months: self.schedule.elapsed_months_at(now),
            months_to_next_phase: self.schedule.months_to_next_phase_at(now),
            commitment_hash: hex_encode(self.schedule.commitment_hash.as_slice()),
            commitment_valid: self.schedule.verify_commitment(),
            log_entries: self.log.len(),
            log_merkle_root: root,
            log_chain_valid: self.log.verify_chain(),
            pending_timelocks,
            pending_proposals,
        }
    }

    /// The summary by the system clock; see `dashboard_at`.
    pub fn dashboard(&self) -> (d: DecentralizationStatus)
        requires
            self.wf(),
        ensures
            exists|t: u64| {
                &&& d.current_phase@ == phase_name(#[trigger] self.sched().phase_at(t))
                &&& d.phase_description@ == phase_description(self.sched().phase_at(t))
                &&& d.elapsed_months == elapsed_since(self.sched().deployed_at, t) / SECS_PER_MONTH
                &&& d.months_to_next_phase == months_to_next(elapsed_since(self.sched().deployed_at, t) / SECS_PER_MONTH)
            },
            d.deployed_at == self.sched().deployed_at,
            d.commitment_hash@ == spec_hex(self.sched().commitment_hash@),
            d.commitment_valid == (self.sched().commitment_hash@ == self.sched().digest()),
            d.log_entries == self.log_entries().len(),
            d.log_chain_valid == chain_valid(self.log_entries()),
            d.pending_timelocks == count_pending_ops(self.op_pairs()),
            d.pending_proposals == count_pending_proposals(self.proposal_pairs()),
    {
        let now = now_secs();
        self.dashboard_at(now)
    }
}

} // verus!
