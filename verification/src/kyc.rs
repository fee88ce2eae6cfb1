//! KYC verification: a state machine per user with immutable terminal
//! states, operators who move users through it, and admin overrides of
//! terminal states that wait for a timelock.

use vstd::prelude::*;
use crate::keyed::KeyedMap;

verus! {

/// Where a user stands in verification.
#[derive(Clone, Copy, Debug, PartialEq, Eq, Structural, PartialOrd, Ord)]
pub enum KYCStatus {
    /// Nothing submitted yet.
    Unverified,
    /// Documents submitted, awaiting review.
    Pending,
    /// Under review by an operator.
    InReview,
    /// The user was asked for more information.
    AdditionalInfoRequired,
    /// Verification succeeded (terminal).
    Verified,
    /// Verification failed (terminal).
    Rejected,
}

/// Terminal states change only by an override.
pub open spec fn terminal(s: KYCStatus) -> bool {
    s == KYCStatus::Verified || s == KYCStatus::Rejected
}

/// The transitions operators may make.
pub open spec fn allowed_transition(from: KYCStatus, to: KYCStatus) -> bool {
    ||| from == KYCStatus::Unverified && to == KYCStatus::Pending
    ||| from == KYCStatus::Pending && to == KYCStatus::InReview
    ||| from == KYCStatus::InReview && to == KYCStatus::AdditionalInfoRequired
    ||| from == KYCStatus::InReview && to == KYCStatus::Verified
    ||| from == KYCStatus::InReview && to == KYCStatus::Rejected
    ||| from == KYCStatus::AdditionalInfoRequired && to == KYCStatus::InReview
}

impl KYCStatus {
    /// Whether this state is terminal.
    pub fn is_terminal(&self) -> (b: bool)
        ensures
            b == terminal(*self),
    {
        match self {
            KYCStatus::Verified | KYCStatus::Rejected => true,
            _ => false,
        }
    }

    /// Whether an operator may move a user from this state to `target`.
    pub fn can_transition_to(&self, target: &KYCStatus) -> (b: bool)
        ensures
            b == allowed_transition(*self, *target),
    {
        match (self, target) {
            (KYCStatus::Unverified, KYCStatus::Pending) => true,
            (KYCStatus::Pending, KYCStatus::InReview) => true,
            (KYCStatus::InReview, KYCStatus::AdditionalInfoRequired) => true,
            (KYCStatus::InReview, KYCStatus::Verified) => true,
            (KYCStatus::InReview, KYCStatus::Rejected) => true,
            (KYCStatus::AdditionalInfoRequired, KYCStatus::InReview) => true,
            _ => false,
        }
    }
}

/// A user's verification record.
pub struct KYCRecord {
    pub status: KYCStatus,
    pub updated_at: u64,
    /// When a terminal state was reached.
    pub finalized_at: Option<u64>,
    /// Operator or admin who made the last change.
    pub updated_by: Option<String>,
    pub rejection_reason: Option<String>,
    /// When a pending submission lapses.
    pub expires_at: Option<u64>,
}

/// The record of a user who never submitted anything, as of `now`.
pub open spec fn fresh_record(now: u64) -> KYCRecord {
    KYCRecord {
        status: KYCStatus::Unverified,
        updated_at: now,
        finalized_at: None,
        updated_by: None,
        rejection_reason: None,
        expires_at: None,
    }
}

/// A copy of an optional string.
fn copy_opt_string(s: &Option<String>) -> (r: Option<String>)
    ensures
        r == *s,
{
    match s {
        Some(x) => Some(x.clone()),
        None => None,
    }
}

impl KYCRecord {
    /// An unverified record updated at `now`.
    pub fn new(now: u64) -> (r: Self)
        ensures
            r == fresh_record(now),
    {
        KYCRecord {
            status: KYCStatus::Unverified,
            updated_at: now,
            finalized_at: None,
            updated_by: None,
            rejection_reason: None,
            expires_at: None,
        }
    }

    /// A field-by-field copy.
    pub fn copy_record(&self) -> (r: Self)
        ensures
            r == *self,
    {
        KYCRecord {
            status: self.status,
            updated_at: self.updated_at,
            finalized_at: self.finalized_at,
            updated_by: copy_opt_string(&self.updated_by),
            rejection_reason: copy_opt_string(&self.rejection_reason),
            expires_at: self.expires_at,
        }
    }

    /// Whether a terminal state was reached.
    pub fn is_finalized(&self) -> (b: bool)
        ensures
            b == self.finalized_at is Some,
    {
        self.finalized_at.is_some()
    }

    /// Whether the pending submission lapsed by `current_time`.
    pub fn is_expired(&self, current_time: u64) -> (b: bool)
        ensures
            b == (self.expires_at matches Some(e) && current_time >= e),
    {
        if let Some(expires_at) = self.expires_at {
            return current_time >= expires_at;
        }
        false
    }
}

/// A proposed change of a terminal state.
pub struct GovernanceOverride {
    pub user: String,
    pub new_status: KYCStatus,
    pub proposed_at: u64,
    /// Earliest time at which it may run.
    pub executable_at: u64,
    pub proposer: String,
    pub reason: String,
    pub executed: bool,
}

impl GovernanceOverride {
    /// A field-by-field copy.
    pub fn copy_override(&self) -> (r: Self)
        ensures
            r == *self,
    {
        GovernanceOverride {
            user: self.user.clone(),
            new_status: self.new_status,
            proposed_at: self.proposed_at,
            executable_at: self.executable_at,
            proposer: self.proposer.clone(),
            reason: self.reason.clone(),
            executed: self.executed,
        }
    }
}

/// Default wait before an override may run: 7 days.
pub const DEFAULT_TIMELOCK_DURATION: u64 = 7 * 24 * 60 * 60;

/// Shortest allowed override wait: 1 day.
pub const MIN_TIMELOCK_DURATION: u64 = 24 * 60 * 60;

/// Default lifetime of a pending submission: 30 days.
pub const DEFAULT_PENDING_EXPIRY_DURATION: u64 = 30 * 24 * 60 * 60;

/// Shortest allowed lifetime of a pending submission: 7 days.
pub const MIN_PENDING_EXPIRY_DURATION: u64 = 7 * 24 * 60 * 60;

/// Why a KYC request was refused.
#[derive(Copy, Clone, Debug, Eq, PartialEq, Structural)]
pub enum KYCError {
    NotKYCOperator,
    InvalidStateTransition,
    TerminalStateImmutable,
    NotVerified,
    SelfVerificationNotAllowed,
    OverrideNotFound,
    TimelockNotElapsed,
    OverrideAlreadyExecuted,
    InvalidTimelockDuration,
    RequestExpired,
    InvalidExpiryDuration,
}

/// The numeric code of each error.
pub open spec fn kyc_error_code(e: KYCError) -> u32 {
    match e {
        KYCError::NotKYCOperator => 1000,
        KYCError::InvalidStateTransition => 1001,
        KYCError::TerminalStateImmutable => 1002,
        KYCError::NotVerified => 1003,
        KYCError::SelfVerificationNotAllowed => 1004,
        KYCError::OverrideNotFound => 1005,
        KYCError::TimelockNotElapsed => 1006,
        KYCError::OverrideAlreadyExecuted => 1007,
        KYCError::InvalidTimelockDuration => 1008,
        KYCError::RequestExpired => 1009,
        KYCError::InvalidExpiryDuration => 1010,
    }
}

impl KYCError {
    /// The numeric code of this error.
    pub fn code(&self) -> (c: u32)
        ensures
            c == kyc_error_code(*self),
    {
        match self {
            KYCError::NotKYCOperator => 1000,
            KYCError::InvalidStateTransition => 1001,
            KYCError::TerminalStateImmutable => 1002,
            KYCError::NotVerified => 1003,
            KYCError::SelfVerificationNotAllowed => 1004,
            KYCError::OverrideNotFound => 1005,
            KYCError::TimelockNotElapsed => 1006,
            KYCError::OverrideAlreadyExecuted => 1007,
            KYCError::InvalidTimelockDuration => 1008,
            KYCError::RequestExpired => 1009,
            KYCError::InvalidExpiryDuration => 1010,
        }
    }
}

/// Records, operators, overrides and durations.
pub struct KYCSystem {
    admin: String,
    records: KeyedMap<String, KYCRecord>,
    operators: Vec<String>,
    overrides: KeyedMap<u64, GovernanceOverride>,
    override_counter: u64,
    timelock_duration: u64,
    pending_expiry_duration: u64,
}

/// Whether `s` holds a string with view `a`.
pub open spec fn holds(s: Seq<String>, a: Seq<char>) -> bool {
    exists|i: int| 0 <= i < s.len() && (#[trigger] s[i])@ == a
}

/// Whether `x` is a string with view `a`.
pub open spec fn is_text(x: Option<String>, a: Seq<char>) -> bool {
    x matches Some(t) && t@ == a
}

/// What `update_status` stores when it accepts a change of `r` to `status`.
pub open spec fn updated_record_ok(r: KYCRecord, n: KYCRecord, status: KYCStatus, operator: Seq<char>, reason: Option<String>, now: u64) -> bool {
    &&& n.status == status
    &&& n.updated_at == now
    &&& is_text(n.updated_by, operator)
    &&& n.expires_at == (if status != KYCStatus::Pending { None } else { r.expires_at })
    &&& n.finalized_at == (if terminal(status) { Some(now) } else { r.finalized_at })
    &&& n.rejection_reason == (if status == KYCStatus::Rejected { reason } else { None })
}

impl KYCSystem {
    /// The admin.
    pub closed spec fn admin_of(&self) -> Seq<char> {
        self.admin@
    }

    /// The stored record of `u`, if any.
    pub closed spec fn stored(&self, u: Seq<char>) -> Option<KYCRecord> {
        if self.records.map().contains_key(u) { Some(self.records.map()[u]) } else { None }
    }

    /// The record of `u` as seen at `now`.
    pub open spec fn record_at(&self, u: Seq<char>, now: u64) -> KYCRecord {
        match self.stored(u) {
            Some(r) => r,
            None => fresh_record(now),
        }
    }

    /// The status of `u`.
    pub open spec fn status_of(&self, u: Seq<char>) -> KYCStatus {
        match self.stored(u) {
            Some(r) => r.status,
            None => KYCStatus::Unverified,
        }
    }

    /// The operators besides the admin, in the order added.
    pub closed spec fn operator_list(&self) -> Seq<String> {
        self.operators@
    }

    /// Whether `a` may act as an operator.
    pub open spec fn is_op(&self, a: Seq<char>) -> bool {
        a == self.admin_of() || holds(self.operator_list(), a)
    }

    /// The override stored under `id`, if any.
    pub closed spec fn override_of(&self, id: u64) -> Option<GovernanceOverride> {
        if self.overrides.map().contains_key(id) { Some(self.overrides.map()[id]) } else { None }
    }

    /// The number the next override gets.
    pub closed spec fn next_override_id(&self) -> u64 {
        self.override_counter
    }

    /// The override wait.
    pub closed spec fn timelock(&self) -> u64 {
        self.timelock_duration
    }

    /// The lifetime of a pending submission.
    pub closed spec fn expiry(&self) -> u64 {
        self.pending_expiry_duration
    }

    /// Maps are well formed, and a record is finalized exactly when its
    /// status is terminal.
    pub closed spec fn wf(&self) -> bool {
        &&& self.records.wf()
        &&& self.overrides.wf()
        &&& forall|u: Seq<char>| #[trigger] self.records.map().contains_key(u) ==>
            (self.records.map()[u].finalized_at is Some) == terminal(self.records.map()[u].status)
    }

    /// Everything but the record of `u` stays.
    pub open spec fn only_record_changed(o: Self, n: Self, u: Seq<char>) -> bool {
        &&& n.admin_of() == o.admin_of()
        &&& n.operator_list() == o.operator_list()
        &&& n.next_override_id() == o.next_override_id()
        &&& n.timelock() == o.timelock()
        &&& n.expiry() == o.expiry()
        &&& forall|id: u64| #[trigger] n.override_of(id) == o.override_of(id)
        &&& forall|v: Seq<char>| v != u ==> #[trigger] n.stored(v) == o.stored(v)
    }

    /// Everything but the operator list stays.
    pub open spec fn only_operators_changed(o: Self, n: Self) -> bool {
        &&& n.admin_of() == o.admin_of()
        &&& n.next_override_id() == o.next_override_id()
        &&& n.timelock() == o.timelock()
        &&& n.expiry() == o.expiry()
        &&& forall|id: u64| #[trigger] n.override_of(id) == o.override_of(id)
        &&& forall|v: Seq<char>| #[trigger] n.stored(v) == o.stored(v)
    }

    /// Everything but the two durations stays.
    pub open spec fn same_but_durations(o: Self, n: Self) -> bool {
        &&& n.admin_of() == o.admin_of()
        &&& n.operator_list() == o.operator_list()
        &&& n.next_override_id() == o.next_override_id()
        &&& forall|id: u64| #[trigger] n.override_of(id) == o.override_of(id)
        &&& forall|v: Seq<char>| #[trigger] n.stored(v) == o.stored(v)
    }

    /// A system administered by `admin`, with default durations.
    pub fn new(admin: &str) -> (k: Self)
        ensures
            k.wf(),
            k.admin_of() == admin@,
            k.operator_list() == Seq::<String>::empty(),
            forall|u: Seq<char>| #[trigger] k.stored(u) is None,
            forall|id: u64| #[trigger] k.override_of(id) is None,
            k.next_override_id() == 0,
            k.timelock() == DEFAULT_TIMELOCK_DURATION,
            k.expiry() == DEFAULT_PENDING_EXPIRY_DURATION,
    {
        let k = KYCSystem {
            admin: admin.to_owned(),
            records: KeyedMap::new(),
            operators: Vec::new(),
            overrides: KeyedMap::new(),
            override_counter: 0,
            timelock_duration: DEFAULT_TIMELOCK_DURATION,
            pending_expiry_duration: DEFAULT_PENDING_EXPIRY_DURATION,
        };
        assert(k.operators@ =~= Seq::<String>::empty());
        k
    }

    /// Makes `new_admin` the admin.
    pub fn replace_admin(&mut self, new_admin: &str)
        requires
            old(self).wf(),
        ensures
            final(self).wf(),
            final(self).admin_of() == new_admin@,
            final(self).operator_list() == old(self).operator_list(),
            final(self).next_override_id() == old(self).next_override_id(),
            forall|id: u64| #[trigger] final(self).override_of(id) == old(self).override_of(id),
            forall|v: Seq<char>| #[trigger] final(self).stored(v) == old(self).stored(v),
            final(self).timelock() == old(self).timelock(),
            final(self).expiry() == old(self).expiry(),
    {
        self.admin = new_admin.to_owned();
    }

    /// Whether `a` is the admin.
    pub fn is_admin(&self, a: &str) -> (b: bool)
        ensures
            b == (a@ == self.admin_of()),
    {
        let s = a.to_owned();
        self.admin == s
    }

    fn operators_contain(&self, a: &str) -> (b: bool)
        ensures
            b == holds(self.operator_list(), a@),
    {
        let s = a.to_owned();
        let n = self.operators.len();
        let mut i: usize = 0;
        while i < n
            invariant
                n == self.operators@.len(),
                0 <= i <= n,
                s@ == a@,
                forall|j: int| 0 <= j < i ==> (#[trigger] self.operators@[j])@ != s@,
            decreases n - i,
        {
            if self.operators[i] == s {
                assert(self.operators@[i as int]@ == a@);
                return true;
            }
            i = i + 1;
        }
        false
    }

    /// What `add_operator` answers and leaves: a refusal for callers other than the admin, else the
    /// operator appended unless already listed.
    pub open spec fn add_operator_post(before: Self, after: Self, admin: Seq<char>, operator: Seq<char>, r: Result<(), KYCError>) -> bool {
        &&& (admin != before.admin_of() ==> r == Err::<(), KYCError>(KYCError::NotKYCOperator) && after == before)
        &&& (admin == before.admin_of() ==> {
            &&& r is Ok
            &&& holds(before.operator_list(), operator) ==> after == before
            &&& !holds(before.operator_list(), operator) ==> after.operator_list().len() == before.operator_list().len() + 1
                && after.operator_list().drop_last() == before.operator_list()
                && after.operator_list().last()@ == operator
                && Self::only_operators_changed(before, after)
        })
    }

    /// Adds `operator` (admin only); adding one twice keeps one entry.
    pub fn add_operator(&mut self, admin: &str, operator: &str) -> (r: Result<(), KYCError>)
        requires
            old(self).wf(),
        ensures
            final(self).wf(),
            Self::add_operator_post(*old(self), *final(self), admin@, operator@, r),
    {
        if !self.is_admin(admin) {
            return Err(KYCError::NotKYCOperator);
        }
        if !self.operators_contain(operator) {
            self.operators.push(operator.to_owned());
            assert(self.operators@.drop_last() =~= old(self).operators@);
        }
        Ok(())
    }

    /// What `remove_operator` answers and leaves: a refusal for callers other than the admin, else
    /// every entry of the operator dropped.
    pub open spec fn remove_operator_post(before: Self, after: Self, admin: Seq<char>, operator: Seq<char>, r: Result<(), KYCError>) -> bool {
        &&& (admin != before.admin_of() ==> r == Err::<(), KYCError>(KYCError::NotKYCOperator) && after == before)
        &&& (admin == before.admin_of() ==> {
            &&& r is Ok
            &&& after.operator_list() == before.operator_list().filter(|s: String| s@ != operator)
            &&& Self::only_operators_changed(before, after)
        })
    }

    /// Removes every entry of `operator` (admin only).
    pub fn remove_operator(&mut self, admin: &str, operator: &str) -> (r: Result<(), KYCError>)
        requires
            old(self).wf(),
        ensures
            final(self).wf(),
            Self::remove_operator_post(*old(self), *final(self), admin@, operator@, r),
    {
        if !self.is_admin(admin) {
            return Err(KYCError::NotKYCOperator);
        }
        let target = operator.to_owned();
        let ghost ops = self.operators@;
        let ghost keep = |s: String| s@ != operator@;
        let mut kept: Vec<String> = Vec::new();
        let n = self.operators.len();
        let mut i: usize = 0;
        while i < n
            invariant
                n == ops.len(),
                self.operators@ == ops,
                target@ == operator@,
                0 <= i <= n,
                keep == (|s: String| s@ != operator@),
                kept@ == ops.take(i as int).filter(keep),
            decreases n - i,
        {
            let ghost before = kept@;
            let op = &self.operators[i];
            if !(*op == target) {
                kept.push(op.clone());
            }
            proof {
                reveal(Seq::filter);
                let t = ops.take(i + 1);
                assert(t.drop_last() =~= ops.take(i as int));
                assert(t.last() == ops[i as int]);
                assert(t.filter(keep) == (if keep(t.last()) { t.drop_last().filter(keep).push(t.last()) } else { t.drop_last().filter(keep) }));
            }
            i = i + 1;
        }
        assert(ops.take(n as int) =~= ops);
        self.operators = kept;
        Ok(())
    }

    /// Whether `address` is the admin or an operator.
    pub fn is_operator(&self, address: &str) -> (b: bool)
        ensures
            b == self.is_op(address@),
    {
        if self.is_admin(address) {
            return true;
        }
        self.operators_contain(address)
    }

    /// Refuses callers that are not operators.
    pub fn require_operator(&self, caller: &str) -> (r: Result<(), KYCError>)
        ensures
            r is Ok == self.is_op(caller@),
            r is Err ==> r == Err::<(), KYCError>(KYCError::NotKYCOperator),
    {
        if self.is_operator(caller) {
            Ok(())
        } else {
            Err(KYCError::NotKYCOperator)
        }
    }

    /// The record of `user` at `now` (a fresh unverified one if none is stored).
    pub fn get_record(&self, user: &str, now: u64) -> (r: KYCRecord)
        requires
            self.wf(),
        ensures
            r == self.record_at(user@, now),
    {
        let key = user.to_owned();
        match self.records.get(&key) {
            Some(rec) => rec.copy_record(),
            None => KYCRecord::new(now),
        }
    }

    /// Whether `user` is verified.
    pub fn is_verified(&self, user: &str) -> (b: bool)
        requires
            self.wf(),
        ensures
            b == (self.status_of(user@) == KYCStatus::Verified),
    {
        let key = user.to_owned();
        match self.records.get(&key) {
            Some(rec) => rec.status == KYCStatus::Verified,
            None => false,
        }
    }

    /// Refuses users that are not verified.
    pub fn require_verified(&self, user: &str) -> (r: Result<(), KYCError>)
        requires
            self.wf(),
        ensures
            r is Ok == (self.status_of(user@) == KYCStatus::Verified),
            r is Err ==> r == Err::<(), KYCError>(KYCError::NotVerified),
    {
        if self.is_verified(user) {
            Ok(())
        } else {
            Err(KYCError::NotVerified)
        }
    }

    proof fn lemma_terminal_finalized(&self, u: Seq<char>)
        requires
            self.wf(),
        ensures
            terminal(self.status_of(u)) ==> (self.stored(u) matches Some(r) && r.finalized_at is Some),
    {
    }

    /// Whether the pending submission of `r` lapsed by `now`.
    pub open spec fn lapsed(r: KYCRecord, now: u64) -> bool {
        r.expires_at matches Some(e) && now >= e
    }

    /// The error `update_status` answers with, if any.
    pub open spec fn update_error(&self, operator: Seq<char>, user: Seq<char>, new_status: KYCStatus, now: u64) -> Option<KYCError> {
        let rec = self.record_at(user, now);
        if !self.is_op(operator) {
            Some(KYCError::NotKYCOperator)
        } else if operator == user {
            Some(KYCError::SelfVerificationNotAllowed)
        } else if rec.finalized_at is Some {
            Some(KYCError::TerminalStateImmutable)
        } else if rec.status == KYCStatus::Pending && Self::lapsed(rec, now) {
            Some(KYCError::RequestExpired)
        } else if !allowed_transition(rec.status, new_status) {
            Some(KYCError::InvalidStateTransition)
        } else {
            None
        }
    }

    proof fn lemma_store(o: Self, n: Self, u: Seq<char>, rec: KYCRecord)
        requires
            o.wf(),
            n.records.wf(),
            n.records.map() == o.records.map().insert(u, rec),
            n.overrides == o.overrides,
            n.admin == o.admin,
            n.operators == o.operators,
            n.override_counter == o.override_counter,
            n.timelock_duration == o.timelock_duration,
            n.pending_expiry_duration == o.pending_expiry_duration,
            (rec.finalized_at is Some) == terminal(rec.status),
        ensures
            n.wf(),
            n.stored(u) == Some(rec),
            Self::only_record_changed(o, n, u),
    {
    }

    /// What `update_status` answers and leaves: the error of `update_error` with nothing changed,
    /// or the record of the user moved to the new status.
    pub open spec fn update_status_post(before: Self, after: Self, operator: Seq<char>, user: Seq<char>, new_status: KYCStatus, reason: Option<String>, now: u64, r: Result<(), KYCError>) -> bool {
        &&& match before.update_error(operator, user, new_status, now) {
            Some(e) => r == Err::<(), KYCError>(e) && after == before,
            None => {
                &&& r is Ok
                &&& after.stored(user) matches Some(n)
                    && updated_record_ok(before.record_at(user, now), n, new_status, operator, reason, now)
                &&& Self::only_record_changed(before, after, user)
            },
        }
    }

    /// Moves `user` to `new_status` on behalf of `operator` at `now`.
    pub fn update_status(&mut self, operator: &str, user: &str, new_status: KYCStatus, reason: Option<String>, now: u64) -> (r: Result<(), KYCError>)
        requires
            old(self).wf(),
        ensures
            final(self).wf(),
            Self::update_status_post(*old(self), *final(self), operator@, user@, new_status, reason, now, r),
    {
        if !self.is_operator(operator) {
            return Err(KYCError::NotKYCOperator);
        }
        if operator.to_owned() == user.to_owned() {
            return Err(KYCError::SelfVerificationNotAllowed);
        }
        let mut record = self.get_record(user, now);
        if record.is_finalized() {
            return Err(KYCError::TerminalStateImmutable);
        }
        if record.status == KYCStatus::Pending && record.is_expired(now) {
            return Err(KYCError::RequestExpired);
        }
        if !record.status.can_transition_to(&new_status) {
            return Err(KYCError::InvalidStateTransition);
        }
        let ghost o = *self;
        let ghost old_rec = record;
        record.status = new_status;
        record.updated_at = now;
        record.updated_by = Some(operator.to_owned());
        record.rejection_reason = None;
        if new_status != KYCStatus::Pending {
            record.expires_at = None;
        }
        if new_status.is_terminal() {
            record.finalized_at = Some(now);
            if new_status == KYCStatus::Rejected {
                record.rejection_reason = reason;
            }
        }
        let ghost nr = record;
        self.records.insert(user.to_owned(), record);
        proof {
            assert(old_rec.finalized_at is None);
            Self::lemma_store(o, *self, user@, nr);
        }
        Ok(())
    }

    /// What `submit_kyc` needs: the expiry of a new submission fits in `u64`.
    pub open spec fn submit_kyc_pre(before: Self, user: Seq<char>, now: u64) -> bool {
        &&& (before.status_of(user) == KYCStatus::Unverified ==> now + before.expiry() <= u64::MAX)
    }

    /// What `submit_kyc` answers and leaves: a refusal unless the user is unverified, else a
    /// pending record that expires after the pending lifetime.
    pub open spec fn submit_kyc_post(before: Self, after: Self, user: Seq<char>, now: u64, r: Result<(), KYCError>) -> bool {
        &&& (before.status_of(user) != KYCStatus::Unverified ==> r == Err::<(), KYCError>(KYCError::InvalidStateTransition)
            && after == before)
        &&& (before.status_of(user) == KYCStatus::Unverified ==> {
            &&& r is Ok
            &&& after.stored(user) == Some(KYCRecord {
                status: KYCStatus::Pending,
                updated_at: now,
                updated_by: None,
                rejection_reason: None,
                expires_at: Some((now + before.expiry()) as u64),
                ..before.record_at(user, now)
            })
            &&& Self::only_record_changed(before, after, user)
        })
    }

    /// `user` submits documents at `now`; allowed only from Unverified.
    pub fn submit_kyc(&mut self, user: &str, now: u64) -> (r: Result<(), KYCError>)
        requires
            old(self).wf(),
            Self::submit_kyc_pre(*old(self), user@, now),
        ensures
            final(self).wf(),
            Self::submit_kyc_post(*old(self), *final(self), user@, now, r),
    {
        let record = self.get_record(user, now);
        if record.status != KYCStatus::Unverified {
            return Err(KYCError::InvalidStateTransition);
        }
        let ghost o = *self;
        let expiry_duration = self.pending_expiry_duration;
        let mut new_record = record;
        new_record.status = KYCStatus::Pending;
        new_record.updated_at = now;
        new_record.updated_by = None;
        new_record.rejection_reason = None;
        new_record.expires_at = Some(now + expiry_duration);
        let ghost nr = new_record;
        proof {
            if o.records.map().contains_key(user@) {
                assert(!terminal(record.status));
            }
        }
        self.records.insert(user.to_owned(), new_record);
        proof {
            Self::lemma_store(o, *self, user@, nr);
        }
        Ok(())
    }

    /// What `resubmit_kyc` answers and leaves: a refusal unless more information was asked for,
    /// else the record back in review.
    pub open spec fn resubmit_kyc_post(before: Self, after: Self, user: Seq<char>, now: u64, r: Result<(), KYCError>) -> bool {
        &&& (before.status_of(user) != KYCStatus::AdditionalInfoRequired ==> r == Err::<(), KYCError>(KYCError::InvalidStateTransition)
            && after == before)
        &&& (before.status_of(user) == KYCStatus::AdditionalInfoRequired ==> {
            &&& r is Ok
            &&& after.stored(user) == Some(KYCRecord {
                status: KYCStatus::InReview,
                updated_at: now,
                rejection_reason: None,
                ..before.record_at(user, now)
            })
            &&& Self::only_record_changed(before, after, user)
        })
    }

    /// `user` answers a request for more information at `now`.
    pub fn resubmit_kyc(&mut self, user: &str, now: u64) -> (r: Result<(), KYCError>)
        requires
            old(self).wf(),
        ensures
            final(self).wf(),
            Self::resubmit_kyc_post(*old(self), *final(self), user@, now, r),
    {
        let record = self.get_record(user, now);
        if record.status != KYCStatus::AdditionalInfoRequired {
            return Err(KYCError::InvalidStateTransition);
        }
        let ghost o = *self;
        let mut new_record = record;
        new_record.status = KYCStatus::InReview;
        new_record.updated_at = now;
        new_record.rejection_reason = None;
        let ghost nr = new_record;
        self.records.insert(user.to_owned(), new_record);
        proof {
            Self::lemma_store(o, *self, user@, nr);
        }
        Ok(())
    }

    /// What `set_timelock_duration` answers and leaves: a refusal for callers other than the admin
    /// or a wait below the minimum, else the new wait.
    pub open spec fn set_timelock_duration_post(before: Self, after: Self, admin: Seq<char>, duration: u64, r: Result<(), KYCError>) -> bool {
        &&& (admin != before.admin_of() ==> r == Err::<(), KYCError>(KYCError::NotKYCOperator) && after == before)
        &&& (admin == before.admin_of() && duration < MIN_TIMELOCK_DURATION ==> r == Err::<(), KYCError>(KYCError::InvalidTimelockDuration)
            && after == before)
        &&& (admin == before.admin_of() && duration >= MIN_TIMELOCK_DURATION ==> r is Ok
            && Self::same_but_durations(before, after) && after.expiry() == before.expiry())
        &&& after.timelock() == (if r is Ok { duration } else { before.timelock() })
    }

    /// Sets the override wait (admin only, at least one day).
    pub fn set_timelock_duration(&mut self, admin: &str, duration: u64) -> (r: Result<(), KYCError>)
        requires
            old(self).wf(),
        ensures
            final(self).wf(),
            Self::set_timelock_duration_post(*old(self), *final(self), admin@, duration, r),
    {
        if !self.is_admin(admin) {
            return Err(KYCError::NotKYCOperator);
        }
        if duration < MIN_TIMELOCK_DURATION {
            return Err(KYCError::InvalidTimelockDuration);
        }
        self.timelock_duration = duration;
        Ok(())
    }

    /// The number the next override will get.
    pub fn get_override_counter(&self) -> (n: u64)
        ensures
            n == self.next_override_id(),
    {
        self.override_counter
    }

    /// The override wait.
    pub fn get_timelock_duration(&self) -> (d: u64)
        ensures
            d == self.timelock(),
    {
        self.timelock_duration
    }

    /// Sets the lifetime of pending submissions (admin only, at least 7 days).
    pub fn set_pending_expiry_duration(&mut self, admin: &str, duration: u64) -> (r: Result<(), KYCError>)
        requires
            old(self).wf(),
        ensures
            final(self).wf(),
            admin@ != old(self).admin_of() ==> r == Err::<(), KYCError>(KYCError::NotKYCOperator) && *final(self) == *old(self),
            admin@ == old(self).admin_of() && duration < MIN_PENDING_EXPIRY_DURATION ==> r == Err::<(), KYCError>(KYCError::InvalidExpiryDuration)
                && *final(self) == *old(self),
            admin@ == old(self).admin_of() && duration >= MIN_PENDING_EXPIRY_DURATION ==> r is Ok
                && Self::same_but_durations(*old(self), *final(self)) && final(self).timelock() == old(self).timelock(),
            final(self).expiry() == (if r is Ok { duration } else { old(self).expiry() }),
    {
        if !self.is_admin(admin) {
            return Err(KYCError::NotKYCOperator);
        }
        if duration < MIN_PENDING_EXPIRY_DURATION {
            return Err(KYCError::InvalidExpiryDuration);
        }
        self.pending_expiry_duration = duration;
        Ok(())
    }

    /// The lifetime of pending submissions.
    pub fn get_pending_expiry_duration(&self) -> (d: u64)
        ensures
            d == self.expiry(),
    {
        self.pending_expiry_duration
    }

    /// What `propose_override` needs: for an override it accepts, its time and number fit in `u64`.
    pub open spec fn propose_override_pre(before: Self, admin: Seq<char>, user: Seq<char>, new_status: KYCStatus, reason: Seq<char>, now: u64) -> bool {
        &&& (admin == before.admin_of() && before.record_at(user, now).finalized_at is Some ==> {
            &&& now + before.timelock() <= u64::MAX
            &&& before.next_override_id() < u64::MAX
        })
    }

    /// What `propose_override` answers and leaves: a refusal for callers other than the admin or a
    /// record not finalized, else a new override under the next number.
    pub open spec fn propose_override_post(before: Self, after: Self, admin: Seq<char>, user: Seq<char>, new_status: KYCStatus, reason: Seq<char>, now: u64, r: Result<u64, KYCError>) -> bool {
        &&& (admin != before.admin_of() ==> r == Err::<u64, KYCError>(KYCError::NotKYCOperator) && after == before)
        &&& (admin == before.admin_of() && before.record_at(user, now).finalized_at is None ==> r == Err::<u64, KYCError>(KYCError::InvalidStateTransition)
            && after == before)
        &&& (admin == before.admin_of() && before.record_at(user, now).finalized_at is Some ==> {
            let id = before.next_override_id();
            &&& r == Ok::<u64, KYCError>(id)
            &&& after.override_of(id) matches Some(o) && o.user@ == user && o.new_status == new_status
                && o.proposed_at == now && o.executable_at == now + before.timelock() && o.proposer@ == admin
                && o.reason@ == reason && !o.executed
            &&& after.next_override_id() == id + 1
            &&& forall|j: u64| j != id ==> #[trigger] after.override_of(j) == before.override_of(j)
            &&& forall|v: Seq<char>| #[trigger] after.stored(v) == before.stored(v)
            &&& after.admin_of() == before.admin_of()
            &&& after.operator_list() == before.operator_list()
            &&& after.timelock() == before.timelock()
            &&& after.expiry() == before.expiry()
        })
    }

    /// Proposes at `now` to change the terminal status of `user` (admin
    /// only); returns the override's number.
    pub fn propose_override(&mut self, admin: &str, user: &str, new_status: KYCStatus, reason: &str, now: u64) -> (r: Result<u64, KYCError>)
        requires
            old(self).wf(),
            Self::propose_override_pre(*old(self), admin@, user@, new_status, reason@, now),
        ensures
            final(self).wf(),
            Self::propose_override_post(*old(self), *final(self), admin@, user@, new_status, reason@, now, r),
    {
        if !self.is_admin(admin) {
            return Err(KYCError::NotKYCOperator);
        }
        let record = self.get_record(user, now);
        if !record.is_finalized() {
            return Err(KYCError::InvalidStateTransition);
        }
        let timelock = self.timelock_duration;
        let override_id = self.override_counter;
        let next_id = override_id + 1;
        let request = GovernanceOverride {
            user: user.to_owned(),
            new_status,
            proposed_at: now,
            executable_at: now + timelock,
            proposer: admin.to_owned(),
            reason: reason.to_owned(),
            executed: false,
        };
        self.overrides.insert(override_id, request);
        self.override_counter = next_id;
        Ok(override_id)
    }

    /// The error `execute_override` answers with, if any.
    pub open spec fn execute_error(&self, admin: Seq<char>, id: u64, now: u64) -> Option<KYCError> {
        if admin != self.admin_of() {
            Some(KYCError::NotKYCOperator)
        } else if self.override_of(id) is None {
            Some(KYCError::OverrideNotFound)
        } else if self.override_of(id).unwrap().executed {
            Some(KYCError::OverrideAlreadyExecuted)
        } else if now < self.override_of(id).unwrap().executable_at {
            Some(KYCError::TimelockNotElapsed)
        } else {
            None
        }
    }

    /// What `execute_override` answers and leaves: the error of `execute_error` with nothing
    /// changed, or the status of the override applied and the override marked executed.
    pub open spec fn execute_override_post(before: Self, after: Self, admin: Seq<char>, override_id: u64, now: u64, r: Result<(), KYCError>) -> bool {
        &&& match before.execute_error(admin, override_id, now) {
            Some(e) => r == Err::<(), KYCError>(e) && after == before,
            None => {
                let o = before.override_of(override_id).unwrap();
                let prev = before.record_at(o.user@, now);
                &&& r is Ok
                &&& after.stored(o.user@) matches Some(n)
                    && n.status == o.new_status
                    && n.updated_at == now
                    && is_text(n.updated_by, admin)
                    && n.finalized_at == (if terminal(o.new_status) { Some(now) } else { None })
                    && n.rejection_reason == (if o.new_status == KYCStatus::Rejected { Some(o.reason) } else { None })
                    && n.expires_at == prev.expires_at
                &&& after.override_of(override_id) == Some(GovernanceOverride { executed: true, ..o })
                &&& forall|j: u64| j != override_id ==> #[trigger] after.override_of(j) == before.override_of(j)
                &&& forall|v: Seq<char>| v != o.user@ ==> #[trigger] after.stored(v) == before.stored(v)
                &&& after.admin_of() == before.admin_of()
                &&& after.operator_list() == before.operator_list()
                &&& after.next_override_id() == before.next_override_id()
                &&& after.timelock() == before.timelock()
                &&& after.expiry() == before.expiry()
            },
        }
    }

    /// Runs override `override_id` at `now` (admin only), once its wait is over.
    pub fn execute_override(&mut self, admin: &str, override_id: u64, now: u64) -> (r: Result<(), KYCError>)
        requires
            old(self).wf(),
        ensures
            final(self).wf(),
            Self::execute_override_post(*old(self), *final(self), admin@, override_id, now, r),
    {
        if !self.is_admin(admin) {
            return Err(KYCError::NotKYCOperator);
        }
        let mut request = match self.overrides.get(&override_id) {
            Some(o) => o.copy_override(),
            None => {
                return Err(KYCError::OverrideNotFound);
            },
        };
        if request.executed {
            return Err(KYCError::OverrideAlreadyExecuted);
        }
        if now < request.executable_at {
            return Err(KYCError::TimelockNotElapsed);
        }
        let ghost o = *self;
        let mut record = self.get_record(request.user.as_str(), now);
        record.status = request.new_status;
        record.updated_at = now;
        record.updated_by = Some(admin.to_owned());
        record.rejection_reason = None;
        if request.new_status.is_terminal() {
            record.finalized_at = Some(now);
            if request.new_status == KYCStatus::Rejected {
                record.rejection_reason = Some(request.reason.clone());
            }
        } else {
            record.finalized_at = None;
        }
        let ghost nr = record;
        self.records.insert(request.user.clone(), record);
        proof {
            Self::lemma_store(o, *self, request.user@, nr);
        }
        request.executed = true;
        self.overrides.insert(override_id, request);
        Ok(())
    }

    /// Override `override_id`, if stored.
    pub fn get_override(&self, override_id: u64) -> (r: Option<GovernanceOverride>)
        requires
            self.wf(),
        ensures
            r == self.override_of(override_id),
    {
        match self.overrides.get(&override_id) {
            Some(o) => Some(o.copy_override()),
            None => None,
        }
    }
}

/// A user whose status is terminal cannot be moved by an operator: every
/// request to change it is refused.
pub proof fn law_terminal_immutable(k: KYCSystem, operator: Seq<char>, user: Seq<char>, new_status: KYCStatus, now: u64)
    requires
        k.wf(),
        terminal(k.status_of(user)),
    ensures
        k.update_error(operator, user, new_status, now) is Some,
{
    k.lemma_terminal_finalized(user);
}

/// An accepted status change is one of the allowed transitions.
pub proof fn law_update_follows_transitions(k: KYCSystem, operator: Seq<char>, user: Seq<char>, new_status: KYCStatus, now: u64)
    requires
        k.update_error(operator, user, new_status, now) is None,
    ensures
        allowed_transition(k.status_of(user), new_status),
        !terminal(k.status_of(user)),
{
}

/// The path an operator can take a user along: an unverified user can only
/// become pending, a pending user can only go into review, only a user in
/// review can be verified or rejected, and nothing leaves a verified or
/// rejected state.
pub proof fn law_transition_order(from: KYCStatus, to: KYCStatus)
    ensures
        allowed_transition(from, to) && from == KYCStatus::Unverified ==> to == KYCStatus::Pending,
        allowed_transition(from, to) && from == KYCStatus::Pending ==> to == KYCStatus::InReview,
        allowed_transition(from, to) && (to == KYCStatus::Verified || to == KYCStatus::Rejected)
            ==> from == KYCStatus::InReview,
        from == KYCStatus::Verified || from == KYCStatus::Rejected ==> !allowed_transition(from, to),
        allowed_transition(from, to) ==> from != to,
{
}

/// An operator can verify a user only out of review: whenever a change to
/// `Verified` is accepted, the user's status was `InReview`; in particular
/// a pending submission cannot be verified directly.
pub proof fn law_verify_needs_review(k: KYCSystem, operator: Seq<char>, user: Seq<char>, now: u64)
    requires
        k.update_error(operator, user, KYCStatus::Verified, now) is None,
    ensures
        k.record_at(user, now).status == KYCStatus::InReview,
{
}

/// An override runs at most once: after it ran, running it again is refused.
pub proof fn law_override_once(k: KYCSystem, admin: Seq<char>, id: u64, now: u64)
    requires
        k.override_of(id) matches Some(o) && o.executed,
        admin == k.admin_of(),
    ensures
        k.execute_error(admin, id, now) == Some(KYCError::OverrideAlreadyExecuted),
{
}

} // verus!
