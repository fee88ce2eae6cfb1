//! Multi-signature proposals: an authorized signer proposes a payload, other
//! signers approve, and the proposal executes once enough have approved.

use vstd::prelude::*;
use vstd::utf8::encode_utf8;
use crate::codec::{push_bytes, push_le_u64, push_str_bytes, sha256, spec_sha256, le_bytes, dec_chars, push_decimal_str};
use crate::keyed::{ExecKey, KeyedMap};
use crate::governance::phase::{now_secs, MULTISIG_THRESHOLD};

verus! {

/// A pending multi-sig proposal.
pub struct MultiSigProposal {
    pub proposal_id: [u8; 32],
    pub description: String,
    pub payload_hash: [u8; 32],
    pub proposer: String,
    pub created_at: u64,
    pub approvals: KeyedMap<String, ()>,
    pub executed: bool,
    pub rejected: bool,
    /// Minimum signatures required for execution
    pub required_signatures: usize,
    /// Total authorized signers at time of creation
    pub total_signers: usize,
}

impl MultiSigProposal {
    /// The signers who have approved.
    pub open spec fn approvers(&self) -> Set<Seq<char>> {
        self.approvals.map().dom()
    }

    /// Number of approvals so far.
    pub fn approval_count(&self) -> (n: usize)
        requires
            self.approvals.wf(),
        ensures
            n == self.approvers().len(),
    {
        proof { self.approvals.lemma_keys(); }
        self.approvals.len()
    }

    /// Whether enough signers have approved.
    pub fn is_approved(&self) -> (b: bool)
        requires
            self.approvals.wf(),
        ensures
            b == (self.approvers().len() >= self.required_signatures),
    {
        proof { self.approvals.lemma_keys(); }
        self.approvals.len() >= self.required_signatures
    }
}

/// The id of a proposal made at `now`: SHA-256 over proposer, description,
/// payload and the time (little-endian).
pub open spec fn proposal_digest(proposer: Seq<char>, description: Seq<char>, payload: Seq<u8>, now: u64) -> Seq<u8> {
    spec_sha256(encode_utf8(proposer) + encode_utf8(description) + payload + le_bytes(now))
}

/// The message that refuses a signer who is not authorized.
pub open spec fn not_signer_msg(name: Seq<char>) -> Seq<char> {
    "'"@ + name + "' is not an authorized signer"@
}

/// Proposals keyed by id, and the authorized signers.
pub struct MultiSigCoordinator {
    pub proposals: KeyedMap<[u8; 32], MultiSigProposal>,
    pub authorized_signers: KeyedMap<String, ()>,
}

/// Fields other than the approvals and the two flags are equal.
pub open spec fn same_proposal_terms(a: MultiSigProposal, b: MultiSigProposal) -> bool {
    &&& a.proposal_id == b.proposal_id
    &&& a.description == b.description
    &&& a.payload_hash == b.payload_hash
    &&& a.proposer == b.proposer
    &&& a.created_at == b.created_at
    &&& a.required_signatures == b.required_signatures
    &&& a.total_signers == b.total_signers
}

/// What `propose_at` does: refuse an unknown proposer, else store the new
/// proposal under its id with the proposer's approval.
pub open spec fn propose_post(
    signers: Set<Seq<char>>,
    old: Map<Seq<u8>, MultiSigProposal>,
    new: Map<Seq<u8>, MultiSigProposal>,
    proposer: Seq<char>,
    description: Seq<char>,
    payload: Seq<u8>,
    now: u64,
    r: Result<[u8; 32], String>,
) -> bool {
    if !signers.contains(proposer) {
        (r matches Err(m) && m@ == not_signer_msg(proposer)) && new == old
    } else {
        r matches Ok(id) && {
            let p = new[id@];
            &&& id@ == proposal_digest(proposer, description, payload, now)
            &&& new.contains_key(id@)
            &&& new.remove(id@) == old.remove(id@)
            &&& p.proposal_id == id
            &&& p.description@ == description
            &&& p.payload_hash@ == spec_sha256(payload)
            &&& p.proposer@ == proposer
            &&& p.created_at == now
            &&& p.approvers() == set![proposer]
            &&& !p.executed
            &&& !p.rejected
            &&& p.required_signatures == MULTISIG_THRESHOLD
            &&& p.total_signers == signers.len()
        }
    }
}

/// What `approve` does.
pub open spec fn approve_post(
    signers: Set<Seq<char>>,
    old: Map<Seq<u8>, MultiSigProposal>,
    new: Map<Seq<u8>, MultiSigProposal>,
    id: Seq<u8>,
    signer: Seq<char>,
    r: Result<usize, String>,
) -> bool {
    if !signers.contains(signer) {
        (r matches Err(m) && m@ == not_signer_msg(signer)) && new == old
    } else if !old.contains_key(id) {
        (r matches Err(m) && m@ == "Proposal not found"@) && new == old
    } else if old[id].executed {
        (r matches Err(m) && m@ == "Already executed"@) && new == old
    } else if old[id].rejected {
        (r matches Err(m) && m@ == "Proposal rejected"@) && new == old
    } else if old[id].approvers().contains(signer) {
        (r matches Err(m) && m@ == "'"@ + signer + "' has already approved this proposal"@) && new == old
    } else {
        &&& new.contains_key(id)
        &&& new.remove(id) == old.remove(id)
        &&& same_proposal_terms(new[id], old[id])
        &&& new[id].executed == old[id].executed
        &&& new[id].rejected == old[id].rejected
        &&& new[id].approvers() == old[id].approvers().insert(signer)
        &&& r == Ok::<usize, String>(new[id].approvers().len() as usize)
    }
}

/// What `execute` does.
pub open spec fn multisig_execute_post(
    old: Map<Seq<u8>, MultiSigProposal>,
    new: Map<Seq<u8>, MultiSigProposal>,
    id: Seq<u8>,
    payload: Seq<u8>,
    r: Result<(), String>,
) -> bool {
    if !old.contains_key(id) {
        (r matches Err(m) && m@ == "Proposal not found"@) && new == old
    } else if old[id].executed {
        (r matches Err(m) && m@ == "Already executed"@) && new == old
    } else if old[id].rejected {
        (r matches Err(m) && m@ == "Proposal rejected"@) && new == old
    } else if old[id].approvers().len() < old[id].required_signatures {
        (r matches Err(m) && m@ == "Insufficient approvals: "@ + dec_chars(old[id].approvers().len())
            + "/"@ + dec_chars(old[id].required_signatures as nat)) && new == old
    } else if spec_sha256(payload) != old[id].payload_hash@ {
        (r matches Err(m) && m@ == "Payload hash mismatch"@) && new == old
    } else {
        &&& r is Ok
        &&& new.contains_key(id)
        &&& new.remove(id) == old.remove(id)
        &&& same_proposal_terms(new[id], old[id])
        &&& new[id].executed
        &&& new[id].rejected == old[id].rejected
        &&& new[id].approvers() == old[id].approvers()
    }
}

impl MultiSigCoordinator {
    /// The authorized signers.
    pub open spec fn signers(&self) -> Set<Seq<char>> {
        self.authorized_signers.map().dom()
    }

    /// Every proposal is stored under its own id, and every approval comes
    /// from an authorized signer.
    pub open spec fn wf(&self) -> bool {
        &&& self.proposals.wf()
        &&& self.authorized_signers.wf()
        &&& forall|k: Seq<u8>| #[trigger] self.proposals.map().contains_key(k) ==> {
            &&& self.proposals.map()[k].proposal_id@ == k
            &&& self.proposals.map()[k].approvals.wf()
            &&& self.proposals.map()[k].approvers().subset_of(self.signers())
        }
    }

    /// A coordinator with no proposals whose signers are `signers`.
    pub fn new(signers: Vec<String>) -> (c: Self)
        ensures
            c.wf(),
            c.proposals.map() == Map::<Seq<u8>, MultiSigProposal>::empty(),
            forall|k: Seq<char>| c.signers().contains(k) <==> exists|j: int| 0 <= j < signers@.len() && (#[trigger] signers@[j])@ == k,
    {
        let mut set: KeyedMap<String, ()> = KeyedMap::new();
        let n = signers.len();
        let mut i: usize = 0;
        while i < n
            invariant
                n == signers@.len(),
                0 <= i <= n,
                set.wf(),
                forall|k: Seq<char>| set.map().dom().contains(k) <==> exists|j: int| 0 <= j < i && (#[trigger] signers@[j])@ == k,
            decreases n - i,
        {
            let ghost before = set.map();
            set.insert(signers[i].clone(), ());
            proof {
                assert forall|k: Seq<char>| set.map().dom().contains(k) <==> exists|j: int| 0 <= j < i + 1 && (#[trigger] signers@[j])@ == k by {
                    if k == signers@[i as int]@ {
                        assert(set.map().dom().contains(k));
                    } else if set.map().dom().contains(k) {
                        assert(before.dom().contains(k));
                    } else {
                        assert(!before.dom().contains(k));
                    }
                }
            }
            i = i + 1;
        }
        let c = MultiSigCoordinator { proposals: KeyedMap::new(), authorized_signers: set };
        c
    }

    /// Opens a proposal by `proposer` at `now`; the proposer counts as the
    /// first approval and three approvals are required.
    pub fn propose_at(&mut self, proposer: &str, description: &str, payload: &[u8], now: u64) -> (r: Result<[u8; 32], String>)
        requires
            old(self).wf(),
        ensures
            final(self).wf(),
            final(self).signers() == old(self).signers(),
            propose_post(old(self).signers(), old(self).proposals.map(), final(self).proposals.map(),
                proposer@, description@, payload@, now, r),
    {
        let name: String = proposer.to_owned();
        if self.authorized_signers.find(&name).is_none() {
            let mut m = String::from_str("'");
            m.append(proposer);
            m.append("' is not an authorized signer");
            return Err(m);
        }
        let mut buf: Vec<u8> = Vec::new();
        push_str_bytes(&mut buf, proposer);
        push_str_bytes(&mut buf, description);
        push_bytes(&mut buf, payload);
        push_le_u64(&mut buf, now);
        assert(buf@ =~= encode_utf8(proposer@) + encode_utf8(description@) + payload@ + le_bytes(now));
        let proposal_id = sha256(buf.as_slice());
        let payload_hash = sha256(payload);
        let mut approvals: KeyedMap<String, ()> = KeyedMap::new();
        approvals.insert(name, ());
        assert(approvals.map().dom() =~= set![proposer@]);
        proof {
            self.authorized_signers.lemma_keys();
        }
        let total = self.authorized_signers.len();
        let p = MultiSigProposal {
            proposal_id,
            description: description.to_owned(),
            payload_hash,
            proposer: proposer.to_owned(),
            created_at: now,
            approvals,
            executed: false,
            rejected: false,
            required_signatures: MULTISIG_THRESHOLD,
            total_signers: total,
        };
        let ghost before = self.proposals.map();
        self.proposals.insert(proposal_id, p);
        assert(self.proposals.map().remove(proposal_id@) =~= before.remove(proposal_id@));
        Ok(proposal_id)
    }

    /// Opens a proposal at the system clock's time; see `propose_at`.
    pub fn propose(&mut self, proposer: &str, description: &str, payload: &[u8]) -> (r: Result<[u8; 32], String>)
        requires
            old(self).wf(),
        ensures
            final(self).wf(),
            final(self).signers() == old(self).signers(),
            exists|t: u64| propose_post(old(self).signers(), old(self).proposals.map(), final(self).proposals.map(),
                proposer@, description@, payload@, t, r),
    {
        let now = now_secs();
        self.propose_at(proposer, description, payload, now)
    }

    /// Adds `signer`'s approval to a live proposal and returns the new count.
    pub fn approve(&mut self, proposal_id: &[u8; 32], signer: &str) -> (r: Result<usize, String>)
        requires
            old(self).wf(),
        ensures
            final(self).wf(),
            final(self).signers() == old(self).signers(),
            approve_post(old(self).signers(), old(self).proposals.map(), final(self).proposals.map(),
                proposal_id@, signer@, r),
    {
        let ghost before = self.proposals.map();
        let name: String = signer.to_owned();
        if self.authorized_signers.find(&name).is_none() {
            let mut m = String::from_str("'");
            m.append(signer);
            m.append("' is not an authorized signer");
            return Err(m);
        }
        let mut p = match self.proposals.remove(proposal_id) {
            Some(p) => p,
            None => {
                assert(self.proposals.map() =~= before);
                return Err(String::from_str("Proposal not found"));
            },
        };
        let r: Result<usize, String> = if p.executed {
            Err(String::from_str("Already executed"))
        } else if p.rejected {
            Err(String::from_str("Proposal rejected"))
        } else if p.approvals.find(&name).is_some() {
            let mut m = String::from_str("'");
            m.append(signer);
            m.append("' has already approved this proposal");
            Err(m)
        } else {
            p.approvals.insert(name, ());
            proof { p.approvals.lemma_keys(); }
            Ok(p.approvals.len())
        };
        self.proposals.insert(*proposal_id, p);
        proof {
            if r is Err {
                assert(self.proposals.map() =~= before);
            } else {
                assert(self.proposals.map().remove(proposal_id@) =~= before.remove(proposal_id@));
                assert(self.proposals.map()[proposal_id@].approvers() =~= before[proposal_id@].approvers().insert(signer@));
            }
            assert forall|k: Seq<u8>| #[trigger] self.proposals.map().contains_key(k) implies {
                &&& self.proposals.map()[k].proposal_id@ == k
                &&& self.proposals.map()[k].approvals.wf()
                &&& self.proposals.map()[k].approvers().subset_of(self.signers())
            } by {
                if k != proposal_id@ {
                    assert(before.contains_key(k));
                }
            }
        }
        r
    }

    /// Executes a live proposal with enough approvals whose payload matches.
    pub fn execute(&mut self, proposal_id: &[u8; 32], payload: &[u8]) -> (r: Result<(), String>)
        requires
            old(self).wf(),
        ensures
            final(self).wf(),
            final(self).signers() == old(self).signers(),
            multisig_execute_post(old(self).proposals.map(), final(self).proposals.map(), proposal_id@, payload@, r),
    {
        let ghost before = self.proposals.map();
        let mut p = match self.proposals.remove(proposal_id) {
            Some(p) => p,
            None => {
                assert(self.proposals.map() =~= before);
                return Err(String::from_str("Proposal not found"));
            },
        };
        let r: Result<(), String> = if p.executed {
            Err(String::from_str("Already executed"))
        } else if p.rejected {
            Err(String::from_str("Proposal rejected"))
        } else if !p.is_approved() {
            let mut m = String::from_str("Insufficient approvals: ");
            let count = p.approval_count();
            push_decimal_str(&mut m, count as u64);
            m.append("/");
            push_decimal_str(&mut m, p.required_signatures as u64);
            Err(m)
        } else {
            let hash = sha256(payload);
            if !hash.key_eq(&p.payload_hash) {
                Err(String::from_str("Payload hash mismatch"))
            } else {
                p.executed = true;
                Ok(())
            }
        };
        self.proposals.insert(*proposal_id, p);
        proof {
            if r is Err {
                assert(self.proposals.map() =~= before);
            } else {
                assert(self.proposals.map().remove(proposal_id@) =~= before.remove(proposal_id@));
            }
            assert forall|k: Seq<u8>| #[trigger] self.proposals.map().contains_key(k) implies {
                &&& self.proposals.map()[k].proposal_id@ == k
                &&& self.proposals.map()[k].approvals.wf()
                &&& self.proposals.map()[k].approvers().subset_of(self.signers())
            } by {
                if k != proposal_id@ {
                    assert(before.contains_key(k));
                }
            }
        }
        r
    }
}

/// A proposal executes only with at least the required approvals, and at
/// most once.
pub proof fn law_multisig_execution(
    m0: Map<Seq<u8>, MultiSigProposal>,
    m1: Map<Seq<u8>, MultiSigProposal>,
    m2: Map<Seq<u8>, MultiSigProposal>,
    id: Seq<u8>,
    p1: Seq<u8>,
    p2: Seq<u8>,
    r1: Result<(), String>,
    r2: Result<(), String>,
)
    requires
        multisig_execute_post(m0, m1, id, p1, r1),
        multisig_execute_post(m1, m2, id, p2, r2),
        r1 is Ok,
    ensures
        m0[id].approvers().len() >= m0[id].required_signatures,
        spec_sha256(p1) == m0[id].payload_hash@,
        r2 is Err,
        m2 == m1,
{
}

/// A signer's approval counts once: a second approval by the same signer
/// is refused and changes nothing.
pub proof fn law_approval_once(
    signers: Set<Seq<char>>,
    m0: Map<Seq<u8>, MultiSigProposal>,
    m1: Map<Seq<u8>, MultiSigProposal>,
    m2: Map<Seq<u8>, MultiSigProposal>,
    id: Seq<u8>,
    s: Seq<char>,
    r1: Result<usize, String>,
    r2: Result<usize, String>,
)
    requires
        approve_post(signers, m0, m1, id, s, r1),
        approve_post(signers, m1, m2, id, s, r2),
        r1 is Ok,
    ensures
        r2 is Err,
        m2 == m1,
{
}

} // verus!
