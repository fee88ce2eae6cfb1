//! Timelocked operations: an operation is queued with a committed payload
//! hash and may execute once its delay has passed, at most once and only
//! with the same payload.

use vstd::prelude::*;
use vstd::utf8::encode_utf8;
use crate::codec::{push_bytes, push_le_u64, push_str_bytes, sha256, spec_sha256, le_bytes, dec_chars, push_decimal_str};
use crate::keyed::{ExecKey, KeyedMap};
use crate::governance::phase::now_secs;

verus! {

/// A queued operation.
pub struct TimelockEntry {
    pub operation_id: [u8; 32],
    pub description: String,
    /// Payload hash (prevents substitution attacks)
    pub payload_hash: [u8; 32],
    pub queued_at: u64,
    pub eta: u64,
    pub executed: bool,
    pub cancelled: bool,
}

impl TimelockEntry {
    /// Whether the entry may execute at `now`.
    pub open spec fn ready_at(&self, now: u64) -> bool {
        !self.executed && !self.cancelled && now >= self.eta
    }

    /// Whether the entry may execute at `now`.
    pub fn is_ready_at(&self, now: u64) -> (b: bool)
        ensures
            b == self.ready_at(now),
    {
        !self.executed && !self.cancelled && now >= self.eta
    }

    /// Whether the entry may execute now, by the system clock.
    pub fn is_ready(&self) -> (b: bool)
        ensures
            exists|t: u64| b == self.ready_at(t),
            b ==> !self.executed && !self.cancelled,
    {
        let now = now_secs();
        self.is_ready_at(now)
    }
}

/// The id of an operation queued at `now`: SHA-256 over its description,
/// payload and the time (little-endian).
pub open spec fn operation_digest(description: Seq<char>, payload: Seq<u8>, now: u64) -> Seq<u8> {
    spec_sha256(encode_utf8(description) + payload + le_bytes(now))
}

/// `a + b`, or `u64::MAX` if that overflows.
pub open spec fn sat_add(a: u64, b: u64) -> u64 {
    if a + b <= u64::MAX {
        (a + b) as u64
    } else {
        u64::MAX
    }
}

/// Queued operations keyed by id.
pub struct Timelock {
    pub entries: KeyedMap<[u8; 32], TimelockEntry>,
}

/// What `execute_at` does to the entry and what it returns.
pub open spec fn timelock_execute_post(
    old: Map<Seq<u8>, TimelockEntry>,
    new: Map<Seq<u8>, TimelockEntry>,
    id: Seq<u8>,
    payload: Seq<u8>,
    now: u64,
    r: Result<(), String>,
) -> bool {
    if !old.contains_key(id) {
        (r matches Err(m) && m@ == "Operation not found"@) && new == old
    } else if old[id].executed {
        (r matches Err(m) && m@ == "Already executed"@) && new == old
    } else if old[id].cancelled {
        (r matches Err(m) && m@ == "Operation cancelled"@) && new == old
    } else if now < old[id].eta {
        (r matches Err(m) && m@ == "Timelock not expired; "@ + dec_chars((old[id].eta - now) as nat) + " seconds remaining"@)
            && new == old
    } else if spec_sha256(payload) != old[id].payload_hash@ {
        (r matches Err(m) && m@ == "Payload hash mismatch – possible substitution attack"@) && new == old
    } else {
        &&& r is Ok
        &&& new.contains_key(id)
        &&& new.remove(id) == old.remove(id)
        &&& new[id].executed
        &&& new[id].operation_id == old[id].operation_id
        &&& new[id].description == old[id].description
        &&& new[id].payload_hash == old[id].payload_hash
        &&& new[id].queued_at == old[id].queued_at
        &&& new[id].eta == old[id].eta
        &&& new[id].cancelled == old[id].cancelled
    }
}

/// What `cancel` does to the entry and what it returns.
pub open spec fn timelock_cancel_post(
    old_m: Map<Seq<u8>, TimelockEntry>,
    new_m: Map<Seq<u8>, TimelockEntry>,
    id: Seq<u8>,
    r: Result<(), String>,
) -> bool {
    if !old_m.contains_key(id) {
        (r matches Err(m) && m@ == "Operation not found"@) && new_m == old_m
    } else if old_m[id].executed {
        (r matches Err(m) && m@ == "Already executed"@) && new_m == old_m
    } else {
        &&& r is Ok
        &&& new_m.contains_key(id)
        &&& new_m.remove(id) == old_m.remove(id)
        &&& new_m[id].cancelled
        &&& new_m[id].operation_id == old_m[id].operation_id
        &&& new_m[id].description == old_m[id].description
        &&& new_m[id].payload_hash == old_m[id].payload_hash
        &&& new_m[id].queued_at == old_m[id].queued_at
        &&& new_m[id].eta == old_m[id].eta
        &&& new_m[id].executed == old_m[id].executed
    }
}

/// What `queue_at` does: the new entry, stored under its id.
pub open spec fn timelock_queue_post(
    old_m: Map<Seq<u8>, TimelockEntry>,
    new_m: Map<Seq<u8>, TimelockEntry>,
    description: Seq<char>,
    payload: Seq<u8>,
    delay_secs: u64,
    now: u64,
    id: [u8; 32],
) -> bool {
    &&& id@ == operation_digest(description, payload, now)
    &&& new_m.contains_key(id@)
    &&& new_m.remove(id@) == old_m.remove(id@)
    &&& new_m[id@].operation_id == id
    &&& new_m[id@].description@ == description
    &&& new_m[id@].payload_hash@ == spec_sha256(payload)
    &&& new_m[id@].queued_at == now
    &&& new_m[id@].eta == sat_add(now, delay_secs)
    &&& !new_m[id@].executed
    &&& !new_m[id@].cancelled
}

impl Timelock {
    /// Every entry is stored under its own id.
    pub open spec fn wf(&self) -> bool {
        &&& self.entries.wf()
        &&& forall|k: Seq<u8>| #[trigger] self.entries.map().contains_key(k) ==> self.entries.map()[k].operation_id@ == k
    }

    /// No queued operations.
    pub fn new() -> (t: Self)
        ensures
            t.wf(),
            t.entries.map() == Map::<Seq<u8>, TimelockEntry>::empty(),
    {
        Timelock { entries: KeyedMap::new() }
    }

    /// Queues an operation at `now`, executable `delay_secs` later (the eta
    /// saturates at `u64::MAX`), and returns its id.
    pub fn queue_at(&mut self, description: &str, payload: &[u8], delay_secs: u64, now: u64) -> (id: [u8; 32])
        requires
            old(self).wf(),
        ensures
            final(self).wf(),
            timelock_queue_post(old(self).entries.map(), final(self).entries.map(), description@, payload@, delay_secs, now, id),
    {
        let eta = now.saturating_add(delay_secs);
        let mut buf: Vec<u8> = Vec::new();
        push_str_bytes(&mut buf, description);
        push_bytes(&mut buf, payload);
        push_le_u64(&mut buf, now);
        assert(buf@ =~= encode_utf8(description@) + payload@ + le_bytes(now));
        let operation_id = sha256(buf.as_slice());
        let payload_hash = sha256(payload);
        let entry = TimelockEntry {
            operation_id,
            description: description.to_owned(),
            payload_hash,
            queued_at: now,
            eta,
            executed: false,
            cancelled: false,
        };
        let ghost before = self.entries.map();
        self.entries.insert(operation_id, entry);
        assert(self.entries.map().remove(operation_id@) =~= before.remove(operation_id@));
        operation_id
    }

    /// Queues an operation at the system clock's time; see `queue_at`.
    pub fn queue(&mut self, description: &str, payload: &[u8], delay_secs: u64) -> (id: [u8; 32])
        requires
            old(self).wf(),
        ensures
            final(self).wf(),
            exists|t: u64| timelock_queue_post(old(self).entries.map(), final(self).entries.map(), description@, payload@, delay_secs, t, id),
    {
        let now = now_secs();
        self.queue_at(description, payload, delay_secs, now)
    }

    /// Executes operation `operation_id` at `now` if it is queued, neither
    /// executed nor cancelled, past its eta, and `payload` hashes to the
    /// committed payload hash.
    pub fn execute_at(&mut self, operation_id: &[u8; 32], payload: &[u8], now: u64) -> (r: Result<(), String>)
        requires
            old(self).wf(),
        ensures
            final(self).wf(),
            timelock_execute_post(old(self).entries.map(), final(self).entries.map(), operation_id@, payload@, now, r),
    {
        let ghost before = self.entries.map();
        let mut entry = match self.entries.remove(operation_id) {
            Some(e) => e,
            None => {
                assert(self.entries.map() =~= before);
                return Err(String::from_str("Operation not found"));
            },
        };
        let r: Result<(), String> = if entry.executed {
            Err(String::from_str("Already executed"))
        } else if entry.cancelled {
            Err(String::from_str("Operation cancelled"))
        } else if now < entry.eta {
            let mut m = String::from_str("Timelock not expired; ");
            push_decimal_str(&mut m, entry.eta - now);
            m.append(" seconds remaining");
            Err(m)
        } else {
            let payload_hash = sha256(payload);
            if !payload_hash.key_eq(&entry.payload_hash) {
                Err(String::from_str("Payload hash mismatch – possible substitution attack"))
            } else {
                entry.executed = true;
                Ok(())
            }
        };
        self.entries.insert(*operation_id, entry);
        proof {
            if r is Err {
                assert(self.entries.map() =~= before);
            } else {
                assert(self.entries.map().remove(operation_id@) =~= before.remove(operation_id@));
            }
        }
        r
    }

    /// Executes an operation at the system clock's time; see `execute_at`.
    pub fn execute(&mut self, operation_id: &[u8; 32], payload: &[u8]) -> (r: Result<(), String>)
        requires
            old(self).wf(),
        ensures
            final(self).wf(),
            exists|t: u64| timelock_execute_post(old(self).entries.map(), final(self).entries.map(), operation_id@, payload@, t, r),
    {
        let now = now_secs();
        self.execute_at(operation_id, payload, now)
    }

    /// Cancels a queued operation that has not executed.
    pub fn cancel(&mut self, operation_id: &[u8; 32]) -> (r: Result<(), String>)
        requires
            old(self).wf(),
        ensures
            final(self).wf(),
            timelock_cancel_post(old(self).entries.map(), final(self).entries.map(), operation_id@, r),
    {
        let ghost before = self.entries.map();
        let mut entry = match self.entries.remove(operation_id) {
            Some(e) => e,
            None => {
                assert(self.entries.map() =~= before);
                return Err(String::from_str("Operation not found"));
            },
        };
        if entry.executed {
            self.entries.insert(*operation_id, entry);
            assert(self.entries.map() =~= before);
            return Err(String::from_str("Already executed"));
        }
        entry.cancelled = true;
        self.entries.insert(*operation_id, entry);
        assert(self.entries.map().remove(operation_id@) =~= before.remove(operation_id@));
        Ok(())
    }
}

/// An operation executes at most once: once an execution has succeeded, any
/// later attempt is refused and changes nothing.
pub proof fn law_timelock_executes_once(
    m0: Map<Seq<u8>, TimelockEntry>,
    m1: Map<Seq<u8>, TimelockEntry>,
    m2: Map<Seq<u8>, TimelockEntry>,
    id: Seq<u8>,
    p1: Seq<u8>,
    p2: Seq<u8>,
    t1: u64,
    t2: u64,
    r1: Result<(), String>,
    r2: Result<(), String>,
)
    requires
        timelock_execute_post(m0, m1, id, p1, t1, r1),
        timelock_execute_post(m1, m2, id, p2, t2, r2),
        r1 is Ok,
    ensures
        r2 is Err,
        m2 == m1,
{
}

/// A successful execution happens only at or after the eta, with the
/// committed payload, on an operation that was not cancelled.
pub proof fn law_timelock_execute_guard(
    m0: Map<Seq<u8>, TimelockEntry>,
    m1: Map<Seq<u8>, TimelockEntry>,
    id: Seq<u8>,
    p: Seq<u8>,
    t: u64,
    r: Result<(), String>,
)
    requires
        timelock_execute_post(m0, m1, id, p, t, r),
        r is Ok,
    ensures
        m0.contains_key(id),
        t >= m0[id].eta,
        spec_sha256(p) == m0[id].payload_hash@,
        !m0[id].cancelled,
        !m0[id].executed,
{
}

} // verus!
