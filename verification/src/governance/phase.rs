//! The decentralization schedule: four phases of shrinking admin power,
//! committed by hash at deployment.
//!
//! Phase 1 (months 1-3): full admin control. Phase 2 (months 4-6): admin may
//! pause only. Phase 3 (months 7-12): 3-of-5 multi-sig for any change.
//! Phase 4 (month 13 on): immutable, DAO governance only.

use vstd::prelude::*;
use crate::codec::{le_bytes, lemma_le_prefix, push_bytes, push_le_u64, push_str_bytes, sha256, spec_sha256};
use crate::keyed::ExecKey;

verus! {

/// Seconds in a (30-day) month.
pub const SECS_PER_MONTH: u64 = 30 * 24 * 3600;

/// Delay before a queued operation may execute.
pub const TIMELOCK_DELAY_SECS: u64 = 72 * 3600;

/// Signatures needed to execute a multi-sig proposal.
pub const MULTISIG_THRESHOLD: usize = 3;

/// Number of guardians.
pub const MULTISIG_TOTAL: usize = 5;

/// Governance phases.
#[derive(Debug, Clone, Copy, PartialEq, Eq, Structural)]
pub enum GovernancePhase {
    /// Months 1-3: full admin control
    FullAdmin,
    /// Months 4-6: admin may only pause, not modify state
    PauseOnly,
    /// Months 7-12: all changes require 3-of-5 multi-sig
    MultiSig,
    /// Month 13 on: contract is immutable; only DAO proposals execute
    DaoOnly,
}

/// The phase in force after `months` whole months.
pub open spec fn phase_of_months(months: u64) -> GovernancePhase {
    if months <= 2 {
        GovernancePhase::FullAdmin
    } else if months <= 5 {
        GovernancePhase::PauseOnly
    } else if months <= 11 {
        GovernancePhase::MultiSig
    } else {
        GovernancePhase::DaoOnly
    }
}

/// Position of a phase in the schedule, from 0.
pub open spec fn phase_rank(p: GovernancePhase) -> int {
    match p {
        GovernancePhase::FullAdmin => 0,
        GovernancePhase::PauseOnly => 1,
        GovernancePhase::MultiSig => 2,
        GovernancePhase::DaoOnly => 3,
    }
}

/// The phase that follows `p` (the last phase follows itself).
pub open spec fn next_phase(p: GovernancePhase) -> GovernancePhase {
    match p {
        GovernancePhase::FullAdmin => GovernancePhase::PauseOnly,
        GovernancePhase::PauseOnly => GovernancePhase::MultiSig,
        GovernancePhase::MultiSig => GovernancePhase::DaoOnly,
        GovernancePhase::DaoOnly => GovernancePhase::DaoOnly,
    }
}

/// The first month (counting from 1) of each phase.
pub open spec fn phase_start_month(p: GovernancePhase) -> int {
    match p {
        GovernancePhase::FullAdmin => 1,
        GovernancePhase::PauseOnly => 4,
        GovernancePhase::MultiSig => 7,
        GovernancePhase::DaoOnly => 13,
    }
}

/// The description of each phase.
pub open spec fn phase_description(p: GovernancePhase) -> Seq<char> {
    match p {
        GovernancePhase::FullAdmin => "Full admin control"@,
        GovernancePhase::PauseOnly => "Admin pause-only; no state modification"@,
        GovernancePhase::MultiSig => "3-of-5 multi-sig required for all changes"@,
        GovernancePhase::DaoOnly => "Immutable contract; DAO governance only"@,
    }
}

/// The name of each phase.
pub open spec fn phase_name(p: GovernancePhase) -> Seq<char> {
    match p {
        GovernancePhase::FullAdmin => "FullAdmin"@,
        GovernancePhase::PauseOnly => "PauseOnly"@,
        GovernancePhase::MultiSig => "MultiSig"@,
        GovernancePhase::DaoOnly => "DaoOnly"@,
    }
}

/// Seconds elapsed at `now` since `start` (0 before it).
pub open spec fn elapsed_since(start: u64, now: u64) -> u64 {
    if now >= start {
        (now - start) as u64
    } else {
        0
    }
}

impl GovernancePhase {
    /// The phase after `elapsed_secs` seconds since deployment.
    pub fn from_elapsed(elapsed_secs: u64) -> (p: Self)
        ensures
            p == phase_of_months(elapsed_secs / SECS_PER_MONTH),
    {
        let months = elapsed_secs / SECS_PER_MONTH;
        if months <= 2 {
            GovernancePhase::FullAdmin
        } else if months <= 5 {
            GovernancePhase::PauseOnly
        } else if months <= 11 {
            GovernancePhase::MultiSig
        } else {
            GovernancePhase::DaoOnly
        }
    }

    /// A one-line description of the phase.
    pub fn description(&self) -> (s: &'static str)
        ensures
            s@ == phase_description(*self),
    {
        match self {
            GovernancePhase::FullAdmin => "Full admin control",
            GovernancePhase::PauseOnly => "Admin pause-only; no state modification",
            GovernancePhase::MultiSig => "3-of-5 multi-sig required for all changes",
            GovernancePhase::DaoOnly => "Immutable contract; DAO governance only",
        }
    }

    /// The variant's name.
    pub fn name(&self) -> (s: &'static str)
        ensures
            s@ == phase_name(*self),
    {
        match self {
            GovernancePhase::FullAdmin => "FullAdmin",
            GovernancePhase::PauseOnly => "PauseOnly",
            GovernancePhase::MultiSig => "MultiSig",
            GovernancePhase::DaoOnly => "DaoOnly",
        }
    }

    /// The first month (counting from 1) in which this phase is in force.
    pub fn start_month(&self) -> (m: u64)
        ensures
            m == phase_start_month(*self),
    {
        match self {
            GovernancePhase::FullAdmin => 1,
            GovernancePhase::PauseOnly => 4,
            GovernancePhase::MultiSig => 7,
            GovernancePhase::DaoOnly => 13,
        }
    }
}

/// Phases never go back: more elapsed time gives the same or a later phase.
pub proof fn law_phase_monotone(a: u64, b: u64)
    requires
        a <= b,
    ensures
        phase_rank(phase_of_months(a / SECS_PER_MONTH)) <= phase_rank(phase_of_months(b / SECS_PER_MONTH)),
{
    assert(a / SECS_PER_MONTH <= b / SECS_PER_MONTH) by (nonlinear_arith)
        requires a <= b;
}

/// The phase in force in month `m` (counting from 1) is the last one whose
/// start month is at most `m`.
pub proof fn law_phase_start_month(elapsed_secs: u64)
    ensures
        ({
            let m = elapsed_secs / SECS_PER_MONTH + 1;
            let p = phase_of_months(elapsed_secs / SECS_PER_MONTH);
            &&& phase_start_month(p) <= m
            &&& p != GovernancePhase::DaoOnly ==> m < phase_start_month(next_phase(p))
        }),
{
}

/// A string framed for hashing: the 8-byte little-endian length of its
/// UTF-8 bytes, then those bytes.
pub open spec fn framed(s: Seq<char>) -> Seq<u8> {
    le_bytes(vstd::utf8::encode_utf8(s).len() as u64) + vstd::utf8::encode_utf8(s)
}

/// A list of strings framed one after another, first to last.
pub open spec fn framed_all(strs: Seq<Seq<char>>) -> Seq<u8>
    decreases strs.len(),
{
    if strs.len() == 0 {
        Seq::empty()
    } else {
        framed_all(strs.drop_last()) + framed(strs.last())
    }
}

/// The views of a list of strings.
pub open spec fn string_views(v: Seq<String>) -> Seq<Seq<char>> {
    v.map_values(|s: String| s@)
}

/// The phase boundaries that a schedule commits to, as bytes.
pub open spec fn phase_boundary_bytes() -> Seq<u8> {
    vstd::utf8::encode_utf8("FullAdmin:0-2months"@)
        + vstd::utf8::encode_utf8("PauseOnly:3-5months"@)
        + vstd::utf8::encode_utf8("MultiSig:6-11months"@)
        + vstd::utf8::encode_utf8("DaoOnly:12+months"@)
}

/// The bytes a schedule commits to: the deployment time and the number of
/// guardians (little-endian), each guardian address and the DAO address
/// framed by its length, and the phase boundaries.
pub open spec fn schedule_bytes(deployed_at: u64, guardians: Seq<Seq<char>>, dao: Seq<char>) -> Seq<u8> {
    le_bytes(deployed_at) + le_bytes(guardians.len() as u64) + framed_all(guardians) + framed(dao)
        + phase_boundary_bytes()
}

/// The commitment of a schedule: SHA-256 over `schedule_bytes`.
pub open spec fn schedule_digest(deployed_at: u64, guardians: Seq<Seq<char>>, dao: Seq<char>) -> Seq<u8> {
    spec_sha256(schedule_bytes(deployed_at, guardians, dao))
}

/// Appends `s` framed by the length of its UTF-8 bytes.
fn push_framed(out: &mut Vec<u8>, s: &str)
    ensures
        final(out)@ == old(out)@ + framed(s@),
{
    let b = s.as_bytes();
    push_le_u64(out, b.len() as u64);
    push_bytes(out, b);
}

/// Whether the UTF-8 encoding of `s` has a length that fits in `u64`, as
/// that of every string in memory does.
pub open spec fn framable(s: Seq<char>) -> bool {
    vstd::utf8::encode_utf8(s).len() <= u64::MAX
}

proof fn lemma_framed_parse(a: Seq<char>, b: Seq<char>, ra: Seq<u8>, rb: Seq<u8>)
    requires
        framable(a),
        framable(b),
        framed(a) + ra == framed(b) + rb,
    ensures
        a == b,
        ra == rb,
{
    let ea = vstd::utf8::encode_utf8(a);
    let eb = vstd::utf8::encode_utf8(b);
    assert(framed(a) + ra =~= le_bytes(ea.len() as u64) + (ea + ra));
    assert(framed(b) + rb =~= le_bytes(eb.len() as u64) + (eb + rb));
    lemma_le_prefix(ea.len() as u64, eb.len() as u64, ea + ra, eb + rb);
    assert(ea.len() == eb.len());
    let l = ea.len() as int;
    assert((ea + ra).subrange(0, l) =~= ea);
    assert((eb + rb).subrange(0, l) =~= eb);
    assert((ea + ra).subrange(l, (ea + ra).len() as int) =~= ra);
    assert((eb + rb).subrange(l, (eb + rb).len() as int) =~= rb);
    vstd::utf8::encode_utf8_decode_utf8(a);
    vstd::utf8::encode_utf8_decode_utf8(b);
}

proof fn lemma_framed_all_front(strs: Seq<Seq<char>>)
    requires
        strs.len() > 0,
    ensures
        framed_all(strs) == framed(strs[0]) + framed_all(strs.drop_first()),
    decreases strs.len(),
{
    if strs.len() == 1 {
        assert(strs.drop_last() =~= Seq::<Seq<char>>::empty());
        assert(strs.drop_first() =~= Seq::<Seq<char>>::empty());
        assert(framed_all(strs) =~= framed(strs[0]) + framed_all(strs.drop_first()));
    } else {
        let p = strs.drop_last();
        lemma_framed_all_front(p);
        assert(p.drop_first() =~= strs.drop_first().drop_last());
        assert(strs.drop_first().last() == strs.last());
        assert(framed_all(strs) =~= framed(strs[0]) + framed_all(strs.drop_first()));
    }
}

proof fn lemma_framed_all_parse(a: Seq<Seq<char>>, b: Seq<Seq<char>>, ra: Seq<u8>, rb: Seq<u8>)
    requires
        a.len() == b.len(),
        forall|i: int| 0 <= i < a.len() ==> framable(#[trigger] a[i]),
        forall|i: int| 0 <= i < b.len() ==> framable(#[trigger] b[i]),
        framed_all(a) + ra == framed_all(b) + rb,
    ensures
        a == b,
        ra == rb,
    decreases a.len(),
{
    if a.len() == 0 {
        assert(framed_all(a) + ra =~= ra);
        assert(framed_all(b) + rb =~= rb);
        assert(a =~= b);
    } else {
        lemma_framed_all_front(a);
        lemma_framed_all_front(b);
        let ta = a.drop_first();
        let tb = b.drop_first();
        assert(framed_all(a) + ra =~= framed(a[0]) + (framed_all(ta) + ra));
        assert(framed_all(b) + rb =~= framed(b[0]) + (framed_all(tb) + rb));
        assert(framable(a[0]) && framable(b[0]));
        lemma_framed_parse(a[0], b[0], framed_all(ta) + ra, framed_all(tb) + rb);
        assert forall|i: int| 0 <= i < ta.len() implies framable(#[trigger] ta[i]) by {
            assert(ta[i] == a[i + 1]);
        }
        assert forall|i: int| 0 <= i < tb.len() implies framable(#[trigger] tb[i]) by {
            assert(tb[i] == b[i + 1]);
        }
        lemma_framed_all_parse(ta, tb, ra, rb);
        assert forall|i: int| 0 <= i < a.len() implies a[i] == b[i] by {
            if i > 0 {
                assert(a[i] == ta[i - 1] && b[i] == tb[i - 1]);
            }
        }
        assert(a =~= b);
    }
}

/// The committed bytes determine the schedule: two schedules whose
/// `schedule_bytes` agree have the same deployment time, guardian list and
/// DAO address.
pub proof fn law_schedule_bytes_injective(
    d1: u64,
    g1: Seq<Seq<char>>,
    dao1: Seq<char>,
    d2: u64,
    g2: Seq<Seq<char>>,
    dao2: Seq<char>,
)
    requires
        g1.len() <= u64::MAX,
        g2.len() <= u64::MAX,
        forall|i: int| 0 <= i < g1.len() ==> framable(#[trigger] g1[i]),
        forall|i: int| 0 <= i < g2.len() ==> framable(#[trigger] g2[i]),
        framable(dao1),
        framable(dao2),
        schedule_bytes(d1, g1, dao1) == schedule_bytes(d2, g2, dao2),
    ensures
        d1 == d2,
        g1 == g2,
        dao1 == dao2,
{
    let t = phase_boundary_bytes();
    let r1 = framed_all(g1) + (framed(dao1) + t);
    let r2 = framed_all(g2) + (framed(dao2) + t);
    assert(schedule_bytes(d1, g1, dao1) =~= le_bytes(d1) + (le_bytes(g1.len() as u64) + r1));
    assert(schedule_bytes(d2, g2, dao2) =~= le_bytes(d2) + (le_bytes(g2.len() as u64) + r2));
    lemma_le_prefix(d1, d2, le_bytes(g1.len() as u64) + r1, le_bytes(g2.len() as u64) + r2);
    lemma_le_prefix(g1.len() as u64, g2.len() as u64, r1, r2);
    lemma_framed_all_parse(g1, g2, framed(dao1) + t, framed(dao2) + t);
    lemma_framed_parse(dao1, dao2, t, t);
}

/// Immutable schedule committed at deployment.
pub struct DecentralizationSchedule {
    /// Unix timestamp (seconds) when the contract was deployed
    pub deployed_at: u64,
    /// SHA-256 commitment over the other fields and the phase boundaries
    pub commitment_hash: [u8; 32],
    /// Addresses of the 5 multi-sig guardians
    pub guardian_addresses: Vec<String>,
    /// Address of the DAO contract that governs Phase 4
    pub dao_address: String,
}

/// Whether two schedules have the same deployment time, guardian list and
/// DAO address.
pub open spec fn same_content(s: DecentralizationSchedule, t: DecentralizationSchedule) -> bool {
    &&& s.deployed_at == t.deployed_at
    &&& string_views(s.guardian_addresses@) == string_views(t.guardian_addresses@)
    &&& s.dao_address@ == t.dao_address@
}

/// Whether every address of `s` has a UTF-8 length, and its guardian list a
/// length, that fit in `u64`, as those of any schedule in memory do.
pub open spec fn schedule_framable(s: DecentralizationSchedule) -> bool {
    &&& s.guardian_addresses@.len() <= u64::MAX
    &&& forall|i: int| 0 <= i < s.guardian_addresses@.len() ==> framable(#[trigger] s.guardian_addresses@[i]@)
    &&& framable(s.dao_address@)
}

/// Tampering after deployment is caught unless SHA-256 collides. If a sealed
/// schedule `s` and a copy `t` that keeps its commitment but has another
/// deployment time, guardian list or DAO address both pass
/// `verify_commitment`, then the two committed byte strings differ and have
/// the same digest. A copy that changes only the commitment never passes.
pub proof fn law_tampering_detected(s: DecentralizationSchedule, t: DecentralizationSchedule)
    requires
        s.commitment_hash@ == s.digest(),
        schedule_framable(s),
        schedule_framable(t),
    ensures
        t.commitment_hash@ == s.commitment_hash@ && t.commitment_hash@ == t.digest() && !same_content(s, t)
            ==> schedule_bytes(t.deployed_at, string_views(t.guardian_addresses@), t.dao_address@)
                != schedule_bytes(s.deployed_at, string_views(s.guardian_addresses@), s.dao_address@)
            && t.digest() == s.digest(),
        same_content(s, t) && t.commitment_hash@ != s.commitment_hash@ ==> t.commitment_hash@ != t.digest(),
{
    let gs = string_views(s.guardian_addresses@);
    let gt = string_views(t.guardian_addresses@);
    assert forall|i: int| 0 <= i < gs.len() implies framable(#[trigger] gs[i]) by {
        assert(gs[i] == s.guardian_addresses@[i]@);
    }
    assert forall|i: int| 0 <= i < gt.len() implies framable(#[trigger] gt[i]) by {
        assert(gt[i] == t.guardian_addresses@[i]@);
    }
    if schedule_bytes(t.deployed_at, gt, t.dao_address@) == schedule_bytes(s.deployed_at, gs, s.dao_address@) {
        law_schedule_bytes_injective(t.deployed_at, gt, t.dao_address@, s.deployed_at, gs, s.dao_address@);
    }
}

/// Months to the next phase boundary after `months` whole months, none in
/// the last phase.
pub open spec fn months_to_next(months: u64) -> Option<u64> {
    if months <= 2 {
        Some((3 - months) as u64)
    } else if months <= 5 {
        Some((6 - months) as u64)
    } else if months <= 11 {
        Some((12 - months) as u64)
    } else {
        None
    }
}

impl DecentralizationSchedule {
    /// The digest that the schedule's fields commit to.
    pub open spec fn digest(&self) -> Seq<u8> {
        schedule_digest(self.deployed_at, string_views(self.guardian_addresses@), self.dao_address@)
    }

    /// The phase in force at `now`.
    pub open spec fn phase_at(&self, now: u64) -> GovernancePhase {
        phase_of_months(elapsed_since(self.deployed_at, now) / SECS_PER_MONTH)
    }

    /// Builds and seals a schedule; the commitment covers every field.
    pub fn new(deployed_at: u64, guardian_addresses: Vec<String>, dao_address: String) -> (s: Self)
        requires
            guardian_addresses@.len() == MULTISIG_TOTAL,
        ensures
            s.deployed_at == deployed_at,
            s.guardian_addresses == guardian_addresses,
            s.dao_address == dao_address,
            s.commitment_hash@ == s.digest(),
    {
        let mut s = DecentralizationSchedule {
            deployed_at,
            commitment_hash: [0u8; 32],
            guardian_addresses,
            dao_address,
        };
        s.commitment_hash = s.compute_hash();
        s
    }

    fn compute_hash(&self) -> (h: [u8; 32])
        ensures
            h@ == self.digest(),
    {
        let mut buf: Vec<u8> = Vec::new();
        push_le_u64(&mut buf, self.deployed_at);
        let n = self.guardian_addresses.len();
        push_le_u64(&mut buf, n as u64);
        let ghost start = buf@;
        let mut i: usize = 0;
        while i < n
            invariant
                n == self.guardian_addresses@.len(),
                0 <= i <= n,
                buf@ == start + framed_all(string_views(self.guardian_addresses@).take(i as int)),
            decreases n - i,
        {
            push_framed(&mut buf, self.guardian_addresses[i].as_str());
            proof {
                let views = string_views(self.guardian_addresses@);
                assert(views.take(i + 1).drop_last() =~= views.take(i as int));
                assert(views.take(i + 1).last() == self.guardian_addresses@[i as int]@);
            }
            i = i + 1;
        }
        assert(string_views(self.guardian_addresses@).take(n as int) =~= string_views(self.guardian_addresses@));
        push_framed(&mut buf, self.dao_address.as_str());
        push_str_bytes(&mut buf, "FullAdmin:0-2months");
        push_str_bytes(&mut buf, "PauseOnly:3-5months");
        push_str_bytes(&mut buf, "MultiSig:6-11months");
        push_str_bytes(&mut buf, "DaoOnly:12+months");
        assert(string_views(self.guardian_addresses@).len() == n);
        assert(buf@ =~= schedule_bytes(
            self.deployed_at,
            string_views(self.guardian_addresses@),
            self.dao_address@,
        ));
        sha256(buf.as_slice())
    }

    /// Whether the stored commitment still matches the schedule's fields.
    pub fn verify_commitment(&self) -> (ok: bool)
        ensures
            ok == (self.commitment_hash@ == self.digest()),
    {
        let h = self.compute_hash();
        self.commitment_hash.key_eq(&h)
    }

    /// The phase in force at `now`.
    pub fn current_phase_at(&self, now: u64) -> (p: GovernancePhase)
        ensures
            p == self.phase_at(now),
    {
        GovernancePhase::from_elapsed(now.saturating_sub(self.deployed_at))
    }

    /// The phase in force now (by the system clock).
    pub fn current_phase(&self) -> (p: GovernancePhase)
        ensures
            exists|t: u64| p == self.phase_at(t),
    {
        let now = now_secs();
        self.current_phase_at(now)
    }

    /// Whole months elapsed at `now` since deployment.
    pub fn elapsed_months_at(&self, now: u64) -> (m: u64)
        ensures
            m == elapsed_since(self.deployed_at, now) / SECS_PER_MONTH,
    {
        now.saturating_sub(self.deployed_at) / SECS_PER_MONTH
    }

    /// Whole months elapsed since deployment, by the system clock.
    pub fn elapsed_months(&self) -> (m: u64)
        ensures
            exists|t: u64| m == elapsed_since(self.deployed_at, t) / SECS_PER_MONTH,
    {
        let now = now_secs();
        self.elapsed_months_at(now)
    }

    /// Months left at `now` until the next phase starts; none in the last phase.
    pub fn months_to_next_phase_at(&self, now: u64) -> (r: Option<u64>)
        ensures
            r == months_to_next(elapsed_since(self.deployed_at, now) / SECS_PER_MONTH),
    {
        let elapsed_months = self.elapsed_months_at(now);
        assert(elapsed_months * SECS_PER_MONTH <= elapsed_since(self.deployed_at, now)) by (nonlinear_arith)
            requires elapsed_months == elapsed_since(self.deployed_at, now) / SECS_PER_MONTH;
        assert((elapsed_months * SECS_PER_MONTH) as int / SECS_PER_MONTH as int == elapsed_months) by (nonlinear_arith);
        let next_start: u64 = match GovernancePhase::from_elapsed(elapsed_months * SECS_PER_MONTH) {
            GovernancePhase::FullAdmin => 3,
            GovernancePhase::PauseOnly => 6,
            GovernancePhase::MultiSig => 12,
            GovernancePhase::DaoOnly => return None,
        };
        Some(next_start.saturating_sub(elapsed_months))
    }

    /// Months until the next phase starts, by the system clock.
    pub fn months_to_next_phase(&self) -> (r: Option<u64>)
        ensures
            exists|t: u64| r == months_to_next(elapsed_since(self.deployed_at, t) / SECS_PER_MONTH),
    {
        let now = now_secs();
        self.months_to_next_phase_at(now)
    }
}

/// The system clock, in seconds since the Unix epoch (0 if the clock reads
/// earlier). Nothing is claimed of the value.
#[verifier::external_body]
pub fn now_secs() -> u64 {
    std::time::SystemTime::now()
        .duration_since(std::time::UNIX_EPOCH)
        .unwrap_or_default()
        .as_secs()
}

} // verus!
