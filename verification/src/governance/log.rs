//! The governance log: an append-only list of events, each entry hashed over
//! its sequence number, timestamp, JSON-encoded event and the previous
//! entry's hash, with a Merkle root over the entry hashes.

use vstd::prelude::*;
use vstd::utf8::encode_utf8;
use crate::codec::{
    dec_digits, le_bytes, lemma_le_prefix, push_bytes, push_decimal, push_le_u64, push_str_bytes, sha256,
    spec_sha256,
};
use crate::keyed::ExecKey;
use crate::governance::phase::{GovernancePhase, phase_name, now_secs};

verus! {

/// Something that happened in governance.
pub enum GovernanceEvent {
    PhaseTransition { from: GovernancePhase, to: GovernancePhase },
    TimelockQueued { operation_id: String, eta: u64 },
    TimelockExecuted { operation_id: String },
    TimelockCancelled { operation_id: String },
    ProposalCreated { proposal_id: String, proposer: String },
    ProposalApproved { proposal_id: String, approver: String, count: usize },
    ProposalExecuted { proposal_id: String },
    GuardianOverride { guardian: String, reason: String },
    ScheduleVerified { commitment_hash: String },
}

/// JSON escape of one byte of a UTF-8 string: quote, backslash and control
/// bytes are escaped, every other byte is kept.
pub open spec fn json_escape_byte(b: u8) -> Seq<u8> {
    if b == 0x22 {
        seq![0x5cu8, 0x22u8]
    } else if b == 0x5c {
        seq![0x5cu8, 0x5cu8]
    } else if b == 0x08 {
        seq![0x5cu8, 0x62u8]
    } else if b == 0x0c {
        seq![0x5cu8, 0x66u8]
    } else if b == 0x0a {
        seq![0x5cu8, 0x6eu8]
    } else if b == 0x0d {
        seq![0x5cu8, 0x72u8]
    } else if b == 0x09 {
        seq![0x5cu8, 0x74u8]
    } else if b < 0x20 {
        seq![0x5cu8, 0x75u8, 0x30u8, 0x30u8, hex_digit_byte(b / 16), hex_digit_byte(b % 16)]
    } else {
        seq![b]
    }
}

/// ASCII lower-case hex digit of a value below 16.
pub open spec fn hex_digit_byte(n: u8) -> u8 {
    if n < 10 {
        (48 + n) as u8
    } else {
        (87 + n) as u8
    }
}

/// JSON escape of a byte string.
pub open spec fn json_escape(s: Seq<u8>) -> Seq<u8>
    decreases s.len(),
{
    if s.len() == 0 {
        Seq::empty()
    } else {
        json_escape(s.drop_last()) + json_escape_byte(s.last())
    }
}

/// A JSON string literal holding `s`.
pub open spec fn json_string(s: Seq<char>) -> Seq<u8> {
    seq![0x22u8] + json_escape(encode_utf8(s)) + seq![0x22u8]
}

/// UTF-8 bytes of a string literal.
pub open spec fn lit(s: &str) -> Seq<u8> {
    encode_utf8(s@)
}

/// The compact JSON encoding of an event, in serde's externally tagged
/// form with fields in declaration order.
pub open spec fn event_json(e: GovernanceEvent) -> Seq<u8> {
    match e {
        GovernanceEvent::PhaseTransition { from, to } => lit("{\"PhaseTransition\":{\"from\":")
            + json_string(phase_name(from)) + lit(",\"to\":") + json_string(phase_name(to)) + lit("}}"),
        GovernanceEvent::TimelockQueued { operation_id, eta } => lit("{\"TimelockQueued\":{\"operation_id\":")
            + json_string(operation_id@) + lit(",\"eta\":") + dec_digits(eta as nat) + lit("}}"),
        GovernanceEvent::TimelockExecuted { operation_id } => lit("{\"TimelockExecuted\":{\"operation_id\":")
            + json_string(operation_id@) + lit("}}"),
        GovernanceEvent::TimelockCancelled { operation_id } => lit("{\"TimelockCancelled\":{\"operation_id\":")
            + json_string(operation_id@) + lit("}}"),
        GovernanceEvent::ProposalCreated { proposal_id, proposer } => lit("{\"ProposalCreated\":{\"proposal_id\":")
            + json_string(proposal_id@) + lit(",\"proposer\":") + json_string(proposer@) + lit("}}"),
        GovernanceEvent::ProposalApproved { proposal_id, approver, count } => lit("{\"ProposalApproved\":{\"proposal_id\":")
            + json_string(proposal_id@) + lit(",\"approver\":") + json_string(approver@)
            + lit(",\"count\":") + dec_digits(count as nat) + lit("}}"),
        GovernanceEvent::ProposalExecuted { proposal_id } => lit("{\"ProposalExecuted\":{\"proposal_id\":")
            + json_string(proposal_id@) + lit("}}"),
        GovernanceEvent::GuardianOverride { guardian, reason } => lit("{\"GuardianOverride\":{\"guardian\":")
            + json_string(guardian@) + lit(",\"reason\":") + json_string(reason@) + lit("}}"),
        GovernanceEvent::ScheduleVerified { commitment_hash } => lit("{\"ScheduleVerified\":{\"commitment_hash\":")
            + json_string(commitment_hash@) + lit("}}"),
    }
}

fn push_escaped(out: &mut Vec<u8>, s: &str)
    ensures
        final(out)@ == old(out)@ + json_escape(encode_utf8(s@)),
{
    let bytes = s.as_bytes();
    let ghost start = out@;
    let n = bytes.len();
    let mut i: usize = 0;
    while i < n
        invariant
            n == bytes@.len(),
            bytes@ == encode_utf8(s@),
            0 <= i <= n,
            out@ == start + json_escape(bytes@.take(i as int)),
        decreases n - i,
    {
        let b = bytes[i];
        let ghost before = out@;
        if b == 0x22 {
            out.push(0x5c);
            out.push(0x22);
        } else if b == 0x5c {
            out.push(0x5c);
            out.push(0x5c);
        } else if b == 0x08 {
            out.push(0x5c);
            out.push(0x62);
        } else if b == 0x0c {
            out.push(0x5c);
            out.push(0x66);
        } else if b == 0x0a {
            out.push(0x5c);
            out.push(0x6e);
        } else if b == 0x0d {
            out.push(0x5c);
            out.push(0x72);
        } else if b == 0x09 {
            out.push(0x5c);
            out.push(0x74);
        } else if b < 0x20 {
            out.push(0x5c);
            out.push(0x75);
            out.push(0x30);
            out.push(0x30);
            let hi = b / 16;
            let lo = b % 16;
            out.push(if hi < 10 { 48 + hi } else { 87 + hi });
            out.push(if lo < 10 { 48 + lo } else { 87 + lo });
        } else {
            out.push(b);
        }
        proof {
            assert(bytes@.take(i + 1).drop_last() =~= bytes@.take(i as int));
            assert(bytes@.take(i + 1).last() == b);
            assert(out@ =~= before + json_escape_byte(b));
        }
        i = i + 1;
    }
    assert(bytes@.take(n as int) =~= bytes@);
}

fn push_json_string(out: &mut Vec<u8>, s: &str)
    ensures
        final(out)@ == old(out)@ + json_string(s@),
{
    out.push(0x22);
    push_escaped(out, s);
    out.push(0x22);
    assert(out@ =~= old(out)@ + json_string(s@));
}

impl GovernanceEvent {
    /// The compact JSON encoding of this event.
    pub fn to_json(&self) -> (j: Vec<u8>)
        ensures
            j@ == event_json(*self),
    {
        let mut out: Vec<u8> = Vec::new();
        match self {
            GovernanceEvent::PhaseTransition { from, to } => {
                push_str_bytes(&mut out, "{\"PhaseTransition\":{\"from\":");
                push_json_string(&mut out, from.name());
                push_str_bytes(&mut out, ",\"to\":");
                push_json_string(&mut out, to.name());
                push_str_bytes(&mut out, "}}");
            },
            GovernanceEvent::TimelockQueued { operation_id, eta } => {
                push_str_bytes(&mut out, "{\"TimelockQueued\":{\"operation_id\":");
                push_json_string(&mut out, operation_id.as_str());
                push_str_bytes(&mut out, ",\"eta\":");
                push_decimal(&mut out, *eta);
                push_str_bytes(&mut out, "}}");
            },
            GovernanceEvent::TimelockExecuted { operation_id } => {
                push_str_bytes(&mut out, "{\"TimelockExecuted\":{\"operation_id\":");
                push_json_string(&mut out, operation_id.as_str());
                push_str_bytes(&mut out, "}}");
            },
            GovernanceEvent::TimelockCancelled { operation_id } => {
                push_str_bytes(&mut out, "{\"TimelockCancelled\":{\"operation_id\":");
                push_json_string(&mut out, operation_id.as_str());
                push_str_bytes(&mut out, "}}");
            },
            GovernanceEvent::ProposalCreated { proposal_id, proposer } => {
                push_str_bytes(&mut out, "{\"ProposalCreated\":{\"proposal_id\":");
                push_json_string(&mut out, proposal_id.as_str());
                push_str_bytes(&mut out, ",\"proposer\":");
                push_json_string(&mut out, proposer.as_str());
                push_str_bytes(&mut out, "}}");
            },
            GovernanceEvent::ProposalApproved { proposal_id, approver, count } => {
                push_str_bytes(&mut out, "{\"ProposalApproved\":{\"proposal_id\":");
                push_json_string(&mut out, proposal_id.as_str());
                push_str_bytes(&mut out, ",\"approver\":");
                push_json_string(&mut out, approver.as_str());
                push_str_bytes(&mut out, ",\"count\":");
                push_decimal(&mut out, *count as u64);
                push_str_bytes(&mut out, "}}");
            },
            GovernanceEvent::ProposalExecuted { proposal_id } => {
                push_str_bytes(&mut out, "{\"ProposalExecuted\":{\"proposal_id\":");
                push_json_string(&mut out, proposal_id.as_str());
                push_str_bytes(&mut out, "}}");
            },
            GovernanceEvent::GuardianOverride { guardian, reason } => {
                push_str_bytes(&mut out, "{\"GuardianOverride\":{\"guardian\":");
                push_json_string(&mut out, guardian.as_str());
                push_str_bytes(&mut out, ",\"reason\":");
                push_json_string(&mut out, reason.as_str());
                push_str_bytes(&mut out, "}}");
            },
            GovernanceEvent::ScheduleVerified { commitment_hash } => {
                push_str_bytes(&mut out, "{\"ScheduleVerified\":{\"commitment_hash\":");
                push_json_string(&mut out, commitment_hash.as_str());
                push_str_bytes(&mut out, "}}");
            },
        }
        assert(out@ =~= event_json(*self));
        out
    }
}

/// One log entry.
pub struct GovernanceLogEntry {
    pub seq: u64,
    pub timestamp: u64,
    pub event: GovernanceEvent,
    pub prev_hash: [u8; 32],
    pub entry_hash: [u8; 32],
}

/// The hash of an entry: SHA-256 over the sequence number and timestamp
/// (little-endian), the JSON of the event and the previous hash.
pub open spec fn entry_digest(seq: u64, timestamp: u64, event: GovernanceEvent, prev_hash: Seq<u8>) -> Seq<u8> {
    spec_sha256(entry_bytes(seq, timestamp, event, prev_hash))
}

/// The bytes an entry's hash is taken over.
pub open spec fn entry_bytes(seq: u64, timestamp: u64, event: GovernanceEvent, prev_hash: Seq<u8>) -> Seq<u8> {
    le_bytes(seq) + le_bytes(timestamp) + event_json(event) + prev_hash
}

/// Each entry's hash matches its contents and each entry points at the hash
/// of the one before it.
pub open spec fn chain_valid(entries: Seq<GovernanceLogEntry>) -> bool {
    forall|i: int| 0 <= i < entries.len() ==> {
        &&& (#[trigger] entries[i]).entry_hash@ == entry_digest(entries[i].seq, entries[i].timestamp, entries[i].event, entries[i].prev_hash@)
        &&& i > 0 ==> entries[i].prev_hash@ == entries[i - 1].entry_hash@
    }
}

/// Appending keeps the chain: a valid chain with one entry appended (hashed
/// over its contents and linked to the last hash) is a valid chain, so any
/// number of appends to a new log gives a valid chain.
pub proof fn law_append_keeps_chain(old: Seq<GovernanceLogEntry>, new: Seq<GovernanceLogEntry>, t: u64)
    requires
        chain_valid(old),
        appended(old, new, t),
    ensures
        chain_valid(new),
        new.last().seq == old.len() + 1,
{
    assert forall|i: int| 0 <= i < new.len() implies {
        &&& (#[trigger] new[i]).entry_hash@ == entry_digest(new[i].seq, new[i].timestamp, new[i].event, new[i].prev_hash@)
        &&& i > 0 ==> new[i].prev_hash@ == new[i - 1].entry_hash@
    } by {
        if i < old.len() {
            assert(new[i] == old[i]);
            if i > 0 {
                assert(new[i - 1] == old[i - 1]);
            }
        } else {
            assert(new[i] == new.last());
            if i > 0 {
                assert(new[i - 1] == old.last());
            }
        }
    }
}

/// Tampering with a logged entry is caught unless SHA-256 collides. Put
/// `e2` in place of entry `i` of a valid chain, with the same event: if it
/// keeps the stored hash but changes the sequence number, timestamp or
/// previous hash, the chain still verifies only if two different byte
/// strings share a digest; if it changes only the stored hash, the chain
/// no longer verifies.
pub proof fn law_entry_tampering_detected(entries: Seq<GovernanceLogEntry>, i: int, e2: GovernanceLogEntry)
    requires
        chain_valid(entries),
        0 <= i < entries.len(),
        e2.event == entries[i].event,
    ensures
        ({
            let e = entries[i];
            e2.entry_hash@ == e.entry_hash@
                && (e2.seq != e.seq || e2.timestamp != e.timestamp || e2.prev_hash@ != e.prev_hash@)
                && chain_valid(entries.update(i, e2))
                ==> entry_bytes(e2.seq, e2.timestamp, e2.event, e2.prev_hash@)
                    != entry_bytes(e.seq, e.timestamp, e.event, e.prev_hash@)
                && spec_sha256(entry_bytes(e2.seq, e2.timestamp, e2.event, e2.prev_hash@))
                    == spec_sha256(entry_bytes(e.seq, e.timestamp, e.event, e.prev_hash@))
        }),
        ({
            let e = entries[i];
            e2.entry_hash@ != e.entry_hash@ && e2.seq == e.seq && e2.timestamp == e.timestamp
                && e2.prev_hash@ == e.prev_hash@ ==> !chain_valid(entries.update(i, e2))
        }),
{
    let e = entries[i];
    let u = entries.update(i, e2);
    assert(u[i] == e2);
    let b1 = entry_bytes(e.seq, e.timestamp, e.event, e.prev_hash@);
    let b2 = entry_bytes(e2.seq, e2.timestamp, e2.event, e2.prev_hash@);
    if b1 == b2 {
        let j = event_json(e.event);
        assert(b1 =~= le_bytes(e.seq) + (le_bytes(e.timestamp) + (j + e.prev_hash@)));
        assert(b2 =~= le_bytes(e2.seq) + (le_bytes(e2.timestamp) + (j + e2.prev_hash@)));
        lemma_le_prefix(e.seq, e2.seq, le_bytes(e.timestamp) + (j + e.prev_hash@), le_bytes(e2.timestamp) + (j + e2.prev_hash@));
        lemma_le_prefix(e.timestamp, e2.timestamp, j + e.prev_hash@, j + e2.prev_hash@);
        assert((j + e.prev_hash@).subrange(j.len() as int, (j + e.prev_hash@).len() as int) =~= e.prev_hash@);
        assert((j + e2.prev_hash@).subrange(j.len() as int, (j + e2.prev_hash@).len() as int) =~= e2.prev_hash@);
    }
}

/// All-zero hash.
pub open spec fn zero_hash() -> Seq<u8> {
    Seq::new(32, |i: int| 0u8)
}

/// One entry was added at time `t`: numbered after the others, linked to
/// the last hash, and hashed over its contents.
pub open spec fn appended(old: Seq<GovernanceLogEntry>, new: Seq<GovernanceLogEntry>, t: u64) -> bool {
    &&& new.len() == old.len() + 1
    &&& new.drop_last() == old
    &&& new.last().seq == old.len() + 1
    &&& new.last().timestamp == t
    &&& new.last().prev_hash@ == (if old.len() == 0 { zero_hash() } else { old.last().entry_hash@ })
    &&& new.last().entry_hash@ == entry_digest(new.last().seq, t, new.last().event, new.last().prev_hash@)
}

/// What appending `event` at time `t` does: one entry holding `event` is
/// added, and its hash is returned.
pub open spec fn append_post(
    old: Seq<GovernanceLogEntry>,
    new: Seq<GovernanceLogEntry>,
    event: GovernanceEvent,
    t: u64,
    h: Seq<u8>,
) -> bool {
    &&& appended(old, new, t)
    &&& new.last().event == event
    &&& h == new.last().entry_hash@
}

impl GovernanceLogEntry {
    /// The hash this entry's contents call for.
    pub fn compute_hash(&self) -> (h: [u8; 32])
        ensures
            h@ == entry_digest(self.seq, self.timestamp, self.event, self.prev_hash@),
    {
        let mut buf: Vec<u8> = Vec::new();
        push_le_u64(&mut buf, self.seq);
        push_le_u64(&mut buf, self.timestamp);
        let json = self.event.to_json();
        push_bytes(&mut buf, json.as_slice());
        push_bytes(&mut buf, self.prev_hash.as_slice());
        assert(buf@ =~= le_bytes(self.seq) + le_bytes(self.timestamp) + event_json(self.event) + self.prev_hash@);
        sha256(buf.as_slice())
    }
}

/// The log: entries numbered from 1.
pub struct GovernanceLog {
    pub entries: Vec<GovernanceLogEntry>,
    seq: u64,
}

impl GovernanceLog {
    /// The entries, oldest first.
    pub closed spec fn entries_seq(&self) -> Seq<GovernanceLogEntry> {
        self.entries@
    }

    /// The sequence counter equals the number of entries, and entry `i`
    /// carries number `i + 1`.
    pub closed spec fn wf(&self) -> bool {
        &&& self.seq == self.entries_seq().len()
        &&& forall|i: int| 0 <= i < self.entries_seq().len() ==> (#[trigger] self.entries_seq()[i]).seq == i + 1
    }

    /// An empty log.
    pub fn new() -> (l: Self)
        ensures
            l.wf(),
            l.entries_seq() == Seq::<GovernanceLogEntry>::empty(),
            chain_valid(l.entries_seq()),
    {
        let l = GovernanceLog { entries: Vec::new(), seq: 0 };
        assert(l.entries_seq() =~= Seq::<GovernanceLogEntry>::empty());
        l
    }

    /// Number of entries in the log.
    pub fn len(&self) -> (n: usize)
        ensures
            n == self.entries_seq().len(),
    {
        self.entries.len()
    }

    /// Appends `event` stamped with time `now` and returns the new entry's hash.
    pub fn append_at(&mut self, event: GovernanceEvent, now: u64) -> (h: [u8; 32])
        requires
            old(self).wf(),
            old(self).entries_seq().len() < u64::MAX,
        ensures
            final(self).wf(),
            append_post(old(self).entries_seq(), final(self).entries_seq(), event, now, h@),
            chain_valid(old(self).entries_seq()) ==> chain_valid(final(self).entries_seq()),
    {
        let prev_hash: [u8; 32] = if self.entries.len() == 0 {
            [0u8; 32]
        } else {
            self.entries[self.entries.len() - 1].entry_hash
        };
        assert(self.entries_seq().len() == 0 ==> prev_hash@ =~= zero_hash());
        self.seq = self.seq + 1;
        let mut entry = GovernanceLogEntry {
            seq: self.seq,
            timestamp: now,
            event,
            prev_hash,
            entry_hash: [0u8; 32],
        };
        entry.entry_hash = entry.compute_hash();
        let hash = entry.entry_hash;
        self.entries.push(entry);
        assert(self.entries_seq().drop_last() =~= old(self).entries_seq());
        proof {
            if chain_valid(old(self).entries_seq()) {
                assert forall|i: int| 0 <= i < self.entries_seq().len() implies {
                    &&& (#[trigger] self.entries_seq()[i]).entry_hash@ == entry_digest(self.entries_seq()[i].seq, self.entries_seq()[i].timestamp, self.entries_seq()[i].event, self.entries_seq()[i].prev_hash@)
                    &&& i > 0 ==> self.entries_seq()[i].prev_hash@ == self.entries_seq()[i - 1].entry_hash@
                } by {
                    if i < old(self).entries_seq().len() {
                        assert(self.entries_seq()[i] == old(self).entries_seq()[i]);
                        if i > 0 {
                            assert(self.entries_seq()[i - 1] == old(self).entries_seq()[i - 1]);
                        }
                    }
                }
            }
        }
        hash
    }

    /// Appends `event` stamped with the system clock and returns its hash.
    pub fn append(&mut self, event: GovernanceEvent) -> (h: [u8; 32])
        requires
            old(self).wf(),
            old(self).entries_seq().len() < u64::MAX,
        ensures
            final(self).wf(),
            exists|t: u64| append_post(old(self).entries_seq(), final(self).entries_seq(), event, t, h@),
            chain_valid(old(self).entries_seq()) ==> chain_valid(final(self).entries_seq()),
    {
        let now = now_secs();
        self.append_at(event, now)
    }

    /// Whether every entry's hash matches its contents and links to the
    /// previous entry.
    pub fn verify_chain(&self) -> (ok: bool)
        ensures
            ok == chain_valid(self.entries_seq()),
    {
        let n = self.entries.len();
        let mut i: usize = 0;
        while i < n
            invariant
                n == self.entries_seq().len(),
                0 <= i <= n,
                forall|j: int| 0 <= j < i ==> {
                    &&& (#[trigger] self.entries_seq()[j]).entry_hash@ == entry_digest(self.entries_seq()[j].seq, self.entries_seq()[j].timestamp, self.entries_seq()[j].event, self.entries_seq()[j].prev_hash@)
                    &&& j > 0 ==> self.entries_seq()[j].prev_hash@ == self.entries_seq()[j - 1].entry_hash@
                },
            decreases n - i,
        {
            let e = &self.entries[i];
            let h = e.compute_hash();
            if !e.entry_hash.key_eq(&h) {
                assert(self.entries_seq()[i as int] == *e);
                return false;
            }
            if i > 0 && !e.prev_hash.key_eq(&self.entries[i - 1].entry_hash) {
                assert(self.entries_seq()[i as int] == *e);
                return false;
            }
            i = i + 1;
        }
        true
    }

    /// The Merkle root over the entry hashes; none for an empty log.
    pub fn merkle_root(&self) -> (r: Option<[u8; 32]>)
        ensures
            self.entries_seq().len() == 0 ==> r is None,
            self.entries_seq().len() > 0 ==> (r matches Some(h) && h@ == merkle_root_of(entry_hashes(self.entries_seq()))),
    {
        let mut hashes: Vec<[u8; 32]> = Vec::new();
        let n = self.entries.len();
        let mut i: usize = 0;
        while i < n
            invariant
                n == self.entries_seq().len(),
                0 <= i <= n,
                hash_views(hashes@) == entry_hashes(self.entries_seq().take(i as int)),
                hashes@.len() == i,
            decreases n - i,
        {
            let ghost before = hashes@;
            hashes.push(self.entries[i].entry_hash);
            proof {
                let lhs = hash_views(hashes@);
                let rhs = entry_hashes(self.entries_seq().take(i + 1));
                assert forall|j: int| 0 <= j < i + 1 implies lhs[j] == rhs[j] by {
                    if j < i {
                        assert(hashes@[j] == before[j]);
                        assert(hash_views(before)[j] == entry_hashes(self.entries_seq().take(i as int))[j]);
                    }
                }
                assert(lhs =~= rhs);
            }
            i = i + 1;
        }
        assert(self.entries_seq().take(n as int) =~= self.entries_seq());
        merkle_root_from(hashes.as_slice())
    }
}

/// The hashes of a list of entries.
pub open spec fn entry_hashes(entries: Seq<GovernanceLogEntry>) -> Seq<Seq<u8>> {
    entries.map_values(|e: GovernanceLogEntry| e.entry_hash@)
}

/// The byte views of a list of hashes.
pub open spec fn hash_views(hashes: Seq<[u8; 32]>) -> Seq<Seq<u8>> {
    hashes.map_values(|h: [u8; 32]| h@)
}

/// One Merkle layer: each pair hashed together, an odd last node hashed
/// with itself.
pub open spec fn merkle_layer(nodes: Seq<Seq<u8>>) -> Seq<Seq<u8>> {
    Seq::new(
        ((nodes.len() + 1) / 2) as nat,
        |i: int| spec_sha256(nodes[2 * i] + (if 2 * i + 1 < nodes.len() { nodes[2 * i + 1] } else { nodes[2 * i] })),
    )
}

/// The Merkle root of a non-empty list of nodes.
pub open spec fn merkle_root_of(nodes: Seq<Seq<u8>>) -> Seq<u8>
    decreases nodes.len(),
{
    if nodes.len() <= 1 {
        nodes[0]
    } else {
        merkle_root_of(merkle_layer(nodes))
    }
}

/// The root of one leaf is that leaf, and the root of two leaves is the hash
/// of the first followed by the second.
pub proof fn law_merkle_small_roots(h1: Seq<u8>, h2: Seq<u8>)
    ensures
        merkle_root_of(seq![h1]) == h1,
        merkle_root_of(seq![h1, h2]) == spec_sha256(h1 + h2),
{
    let l = merkle_layer(seq![h1, h2]);
    assert(l.len() == 1);
    assert(l[0] == spec_sha256(h1 + h2));
    assert(merkle_root_of(seq![h1, h2]) == merkle_root_of(l));
}

proof fn lemma_concat_split(a: Seq<u8>, x: Seq<u8>, b: Seq<u8>, y: Seq<u8>)
    requires
        a.len() == b.len(),
        a + x == b + y,
    ensures
        a == b,
        x == y,
{
    assert((a + x).subrange(0, a.len() as int) =~= a);
    assert((b + y).subrange(0, a.len() as int) =~= b);
    assert((a + x).subrange(a.len() as int, (a + x).len() as int) =~= x);
    assert((b + y).subrange(a.len() as int, (b + y).len() as int) =~= y);
}

/// The Merkle root commits to every leaf: when SHA-256 gives 32 bytes and
/// no two different inputs share a digest, two lists of 32-byte leaves of
/// the same length that differ at any one position have different roots.
pub proof fn law_merkle_root_binds_every_leaf(a: Seq<Seq<u8>>, b: Seq<Seq<u8>>, j: int)
    requires
        a.len() == b.len(),
        0 <= j < a.len(),
        a[j] != b[j],
        forall|i: int| 0 <= i < a.len() ==> (#[trigger] a[i]).len() == 32,
        forall|i: int| 0 <= i < b.len() ==> (#[trigger] b[i]).len() == 32,
        forall|d: Seq<u8>| (#[trigger] spec_sha256(d)).len() == 32,
        forall|d: Seq<u8>, e: Seq<u8>| #[trigger] spec_sha256(d) == #[trigger] spec_sha256(e) ==> d == e,
    ensures
        merkle_root_of(a) != merkle_root_of(b),
    decreases a.len(),
{
    if a.len() > 1 {
        let la = merkle_layer(a);
        let lb = merkle_layer(b);
        let i = j / 2;
        let n = a.len() as int;
        let xa = if 2 * i + 1 < n { a[2 * i + 1] } else { a[2 * i] };
        let xb = if 2 * i + 1 < n { b[2 * i + 1] } else { b[2 * i] };
        assert(la[i] == spec_sha256(a[2 * i] + xa));
        assert(lb[i] == spec_sha256(b[2 * i] + xb));
        if la[i] == lb[i] {
            assert(a[2 * i] + xa == b[2 * i] + xb);
            lemma_concat_split(a[2 * i], xa, b[2 * i], xb);
            assert(j == 2 * i || j == 2 * i + 1);
        }
        assert forall|k: int| 0 <= k < la.len() implies (#[trigger] la[k]).len() == 32 by {
            assert(la[k] == spec_sha256(a[2 * k] + (if 2 * k + 1 < n { a[2 * k + 1] } else { a[2 * k] })));
        }
        assert forall|k: int| 0 <= k < lb.len() implies (#[trigger] lb[k]).len() == 32 by {
            assert(lb[k] == spec_sha256(b[2 * k] + (if 2 * k + 1 < n { b[2 * k + 1] } else { b[2 * k] })));
        }
        law_merkle_root_binds_every_leaf(la, lb, i);
    }
}

/// The Merkle root of `hashes`; none if there are none.
pub fn merkle_root_from(hashes: &[[u8; 32]]) -> (r: Option<[u8; 32]>)
    ensures
        hashes@.len() == 0 ==> r is None,
        hashes@.len() > 0 ==> (r matches Some(h) && h@ == merkle_root_of(hash_views(hashes@))),
{
    if hashes.len() == 0 {
        return None;
    }
    let mut layer: Vec<[u8; 32]> = Vec::new();
    let mut k: usize = 0;
    while k < hashes.len()
        invariant
            0 <= k <= hashes@.len(),
            layer@ == hashes@.take(k as int),
        decreases hashes@.len() - k,
    {
        layer.push(hashes[k]);
        assert(layer@ =~= hashes@.take(k + 1));
        k = k + 1;
    }
    assert(layer@ =~= hashes@);
    while layer.len() > 1
        invariant
            layer@.len() >= 1,
            merkle_root_of(hash_views(layer@)) == merkle_root_of(hash_views(hashes@)),
        decreases layer@.len(),
    {
        let len = layer.len();
        let mut next: Vec<[u8; 32]> = Vec::new();
        let half = len / 2 + len % 2;
        let mut i: usize = 0;
        while i < half
            invariant
                len == layer@.len(),
                len > 1,
                half == (len + 1) / 2,
                0 <= i <= half,
                next@.len() == i,
                hash_views(next@) == merkle_layer(hash_views(layer@)).take(i as int),
            decreases half - i,
        {
            let a = layer[2 * i];
            let b = if 2 * i + 1 < len { layer[2 * i + 1] } else { layer[2 * i] };
            let mut buf: Vec<u8> = Vec::new();
            push_bytes(&mut buf, a.as_slice());
            push_bytes(&mut buf, b.as_slice());
            let h = sha256(buf.as_slice());
            let ghost before = next@;
            next.push(h);
            proof {
                let views = hash_views(layer@);
                assert(views[2 * i as int] == a@);
                assert(views[if 2 * i + 1 < len { 2 * i + 1 } else { 2 * i } as int] == b@);
                let lhs = hash_views(next@);
                let rhs = merkle_layer(views).take(i + 1);
                assert forall|j: int| 0 <= j < i + 1 implies lhs[j] == rhs[j] by {
                    if j < i {
                        assert(next@[j] == before[j]);
                        assert(hash_views(before)[j] == merkle_layer(views).take(i as int)[j]);
                    } else {
                        assert(lhs[j] == h@);
                        assert(buf@ == a@ + b@);
                    }
                }
                assert(lhs =~= rhs);
            }
            i = i + 1;
        }
        assert(hash_views(next@) =~= merkle_layer(hash_views(layer@)));
        layer = next;
    }
    Some(layer[0])
}

} // verus!
