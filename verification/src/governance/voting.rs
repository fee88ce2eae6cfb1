//! Proposals and vote tracking for the DAO phase. Each proposal collects
//! `votes_for` and `votes_against` from unique voters.

use vstd::prelude::*;
use crate::keyed::KeyedMap;

verus! {

/// Lifecycle of a proposal.
#[derive(Debug, Clone, Copy, PartialEq, Eq, Structural)]
pub enum ProposalStatus {
    Active,
    Passed,
    Rejected,
    Expired,
    Executed,
}

/// A proposal and the votes it has received.
pub struct Proposal {
    pub id: u64,
    pub description: String,
    pub proposer: String,
    pub votes_for: u64,
    pub votes_against: u64,
    pub quorum: u64,
    pub deadline_secs: u64,
    pub created_at: u64,
    pub status: ProposalStatus,
    pub voters: KeyedMap<String, ()>,
}

/// Whether the voting period of a proposal created at `created_at` with
/// `deadline_secs` is over at `now`.
pub open spec fn voting_closed(created_at: u64, deadline_secs: u64, now: u64) -> bool {
    now > created_at + deadline_secs
}

/// What `cast_vote` does: the relation between the proposal before and
/// after, and the result.
pub open spec fn vote_post(
    old: Proposal,
    new: Proposal,
    voter: Seq<char>,
    in_favor: bool,
    now: u64,
    r: Result<(), String>,
) -> bool {
    &&& new.id == old.id
    &&& new.description == old.description
    &&& new.proposer == old.proposer
    &&& new.quorum == old.quorum
    &&& new.deadline_secs == old.deadline_secs
    &&& new.created_at == old.created_at
    &&& if old.status != ProposalStatus::Active {
        &&& r matches Err(m) && m@ == "proposal is not active"@
        &&& new.status == old.status
        &&& new.votes_for == old.votes_for
        &&& new.votes_against == old.votes_against
        &&& new.voter_set() == old.voter_set()
    } else if voting_closed(old.created_at, old.deadline_secs, now) {
        &&& r matches Err(m) && m@ == "voting period has ended"@
        &&& new.status == ProposalStatus::Expired
        &&& new.votes_for == old.votes_for
        &&& new.votes_against == old.votes_against
        &&& new.voter_set() == old.voter_set()
    } else if old.voter_set().contains(voter) {
        &&& r matches Err(m) && m@ == "voter has already voted"@
        &&& new.status == old.status
        &&& new.votes_for == old.votes_for
        &&& new.votes_against == old.votes_against
        &&& new.voter_set() == old.voter_set()
    } else {
        &&& r is Ok
        &&& new.status == old.status
        &&& new.voter_set() == old.voter_set().insert(voter)
        &&& new.votes_for == old.votes_for + (if in_favor { 1int } else { 0int })
        &&& new.votes_against == old.votes_against + (if in_favor { 0int } else { 1int })
    }
}

/// What `finalize` does to the status; nothing else changes.
pub open spec fn finalized_status(p: Proposal, now: u64) -> ProposalStatus {
    if p.status != ProposalStatus::Active {
        p.status
    } else if p.votes_for + p.votes_against < p.quorum {
        if voting_closed(p.created_at, p.deadline_secs, now) {
            ProposalStatus::Expired
        } else {
            p.status
        }
    } else if p.votes_for > p.votes_against {
        ProposalStatus::Passed
    } else {
        ProposalStatus::Rejected
    }
}

/// What executing a proposal does: only a passed proposal executes, once.
pub open spec fn execute_post(old: ProposalStatus, new: ProposalStatus, r: Result<(), String>) -> bool {
    if old == ProposalStatus::Passed {
        r is Ok && new == ProposalStatus::Executed
    } else if old == ProposalStatus::Executed {
        &&& r matches Err(m) && m@ == "proposal has already been executed"@
        &&& new == old
    } else {
        &&& r matches Err(m) && m@ == "proposal cannot be executed"@
        &&& new == old
    }
}

/// How an active proposal is decided: it passes exactly when quorum is
/// reached with strictly more votes for than against; with quorum reached,
/// a tie or more votes against rejects it; short of quorum it stays active
/// until its deadline and then expires. A decided proposal keeps its status.
pub proof fn law_decision_by_strict_majority(p: Proposal, now: u64)
    ensures
        p.status == ProposalStatus::Active ==> {
            &&& (finalized_status(p, now) == ProposalStatus::Passed
                <==> p.votes_for + p.votes_against >= p.quorum && p.votes_for > p.votes_against)
            &&& (p.votes_for + p.votes_against >= p.quorum && p.votes_for <= p.votes_against
                ==> finalized_status(p, now) == ProposalStatus::Rejected)
            &&& (p.votes_for + p.votes_against < p.quorum ==> finalized_status(p, now) == (if now
                > p.created_at + p.deadline_secs { ProposalStatus::Expired } else { ProposalStatus::Active }))
        },
        p.status != ProposalStatus::Active ==> finalized_status(p, now) == p.status,
{
}

impl Proposal {
    /// The voters who have voted.
    pub closed spec fn voter_set(&self) -> Set<Seq<char>> {
        self.voters.map().dom()
    }

    /// Every recorded vote comes from a distinct voter.
    pub closed spec fn wf(&self) -> bool {
        &&& self.voters.wf()
        &&& self.voters.map().dom().finite()
        &&& self.votes_for + self.votes_against == self.voters.map().dom().len()
    }

    /// The remaining fields are unchanged between `self` and `other`.
    pub open spec fn same_terms(&self, other: &Proposal) -> bool {
        &&& self.id == other.id
        &&& self.description == other.description
        &&& self.proposer == other.proposer
        &&& self.quorum == other.quorum
        &&& self.deadline_secs == other.deadline_secs
        &&& self.created_at == other.created_at
    }

    /// A new active proposal with no votes.
    pub fn new(
        id: u64,
        description: String,
        proposer: String,
        quorum: u64,
        deadline_secs: u64,
        created_at: u64,
    ) -> (p: Self)
        ensures
            p.wf(),
            p.id == id,
            p.description == description,
            p.proposer == proposer,
            p.quorum == quorum,
            p.deadline_secs == deadline_secs,
            p.created_at == created_at,
            p.status == ProposalStatus::Active,
            p.votes_for == 0,
            p.votes_against == 0,
            p.voter_set() == Set::<Seq<char>>::empty(),
    {
        let voters: KeyedMap<String, ()> = KeyedMap::new();
        proof { voters.lemma_keys(); }
        Proposal {
            id,
            description,
            proposer,
            votes_for: 0,
            votes_against: 0,
            quorum,
            deadline_secs,
            created_at,
            status: ProposalStatus::Active,
            voters,
        }
    }

    /// Records a vote by `voter` while the proposal is active and the voting
    /// period is open; a vote after the period marks the proposal expired.
    pub fn cast_vote(&mut self, voter: &str, in_favor: bool, now: u64) -> (r: Result<(), String>)
        requires
            old(self).wf(),
            old(self).created_at + old(self).deadline_secs <= u64::MAX,
        ensures
            final(self).wf(),
            vote_post(*old(self), *final(self), voter@, in_favor, now, r),
    {
        if self.status != ProposalStatus::Active {
            return Err(String::from_str("proposal is not active"));
        }
        if now > self.created_at + self.deadline_secs {
            self.status = ProposalStatus::Expired;
            return Err(String::from_str("voting period has ended"));
        }
        let name: String = voter.to_owned();
        proof { self.voters.lemma_keys(); }
        if self.voters.find(&name).is_some() {
            return Err(String::from_str("voter has already voted"));
        }
        let ghost old_voters = self.voters.map();
        self.voters.insert(name, ());
        proof {
            self.voters.lemma_keys();
            assert(self.voters.map().dom() =~= old_voters.dom().insert(voter@));
            assert(self.votes_for + self.votes_against + 1 <= usize::MAX);
        }
        if in_favor {
            self.votes_for = self.votes_for + 1;
        } else {
            self.votes_against = self.votes_against + 1;
        }
        Ok(())
    }

    /// Settles an active proposal: with quorum it passes on a strict majority
    /// in favor and is rejected otherwise; without quorum it expires once the
    /// voting period is over.
    pub fn finalize(&mut self, now: u64)
        requires
            old(self).wf(),
            old(self).created_at + old(self).deadline_secs <= u64::MAX,
        ensures
            final(self).wf(),
            final(self).status == finalized_status(*old(self), now),
            final(self).same_terms(old(self)),
            final(self).votes_for == old(self).votes_for,
            final(self).votes_against == old(self).votes_against,
            final(self).voter_set() == old(self).voter_set(),
    {
        if self.status != ProposalStatus::Active {
            return;
        }
        proof { self.voters.lemma_keys(); }
        let total = self.votes_for + self.votes_against;
        if total < self.quorum {
            if now > self.created_at + self.deadline_secs {
                self.status = ProposalStatus::Expired;
            }
            return;
        }
        if self.votes_for > self.votes_against {
            self.status = ProposalStatus::Passed;
        } else {
            self.status = ProposalStatus::Rejected;
        }
    }
}

/// Proposals numbered from 1 in order of creation.
pub struct GovernanceVoting {
    proposals: Vec<Proposal>,
    next_id: u64,
}

impl GovernanceVoting {
    /// The proposals, the one with id `i + 1` at position `i`.
    pub closed spec fn all(&self) -> Seq<Proposal> {
        self.proposals@
    }

    /// The id the next proposal will get.
    pub closed spec fn next(&self) -> u64 {
        self.next_id
    }

    /// Whether a proposal with this id exists.
    pub open spec fn has(&self, id: u64) -> bool {
        1 <= id <= self.all().len()
    }

    /// The proposal with this id.
    pub open spec fn proposal(&self, id: u64) -> Proposal {
        self.all()[id - 1]
    }

    /// Ids run from 1 in order, and each proposal is well formed.
    pub closed spec fn wf(&self) -> bool {
        &&& self.next_id == self.proposals@.len() + 1
        &&& forall|i: int| 0 <= i < self.proposals@.len() ==> {
            &&& (#[trigger] self.proposals@[i]).id == i + 1
            &&& self.proposals@[i].wf()
        }
    }

    /// All proposals other than `id` are the same in `self` and `other`.
    pub open spec fn others_unchanged(&self, other: &GovernanceVoting, id: u64) -> bool {
        &&& self.all().len() == other.all().len()
        &&& forall|j: int| 0 <= j < self.all().len() && j != id - 1 ==> self.all()[j] == other.all()[j]
    }

    /// Proposal ids are handed out in order from 1: after `k` proposals the
    /// `i`-th carries id `i`, and the next one will get id `k + 1`.
    pub proof fn law_ids_in_order(&self)
        requires
            self.wf(),
        ensures
            self.next() == self.all().len() + 1,
            forall|id: u64| #[trigger] self.has(id) ==> self.proposal(id).id == id,
    {
        assert forall|id: u64| #[trigger] self.has(id) implies self.proposal(id).id == id by {
            assert(self.proposals@[id - 1].id == id - 1 + 1);
        }
    }

    /// No proposals; the first will get id 1.
    pub fn new() -> (g: Self)
        ensures
            g.wf(),
            g.all().len() == 0,
            g.next() == 1,
    {
        GovernanceVoting { proposals: Vec::new(), next_id: 1 }
    }

    /// Opens a new active proposal created at `now` and returns its id.
    pub fn create_proposal(
        &mut self,
        description: String,
        proposer: String,
        quorum: u64,
        deadline_secs: u64,
        now: u64,
    ) -> (id: u64)
        requires
            old(self).wf(),
            old(self).next() < u64::MAX,
        ensures
            final(self).wf(),
            id == old(self).next(),
            final(self).next() == old(self).next() + 1,
            final(self).all().len() == old(self).all().len() + 1,
            forall|j: int| 0 <= j < old(self).all().len() ==> final(self).all()[j] == old(self).all()[j],
            final(self).has(id),
            final(self).proposal(id).description == description,
            final(self).proposal(id).proposer == proposer,
            final(self).proposal(id).quorum == quorum,
            final(self).proposal(id).deadline_secs == deadline_secs,
            final(self).proposal(id).created_at == now,
            final(self).proposal(id).status == ProposalStatus::Active,
            final(self).proposal(id).votes_for == 0,
            final(self).proposal(id).votes_against == 0,
            final(self).proposal(id).voter_set() == Set::<Seq<char>>::empty(),
    {
        let id = self.next_id;
        self.next_id = self.next_id + 1;
        let proposal = Proposal::new(id, description, proposer, quorum, deadline_secs, now);
        self.proposals.push(proposal);
        id
    }

    /// Casts a vote on proposal `proposal_id` (see `Proposal::cast_vote`).
    pub fn vote(&mut self, proposal_id: u64, voter: &str, in_favor: bool, now: u64) -> (r: Result<(), String>)
        requires
            old(self).wf(),
            old(self).has(proposal_id) ==> old(self).proposal(proposal_id).created_at
                + old(self).proposal(proposal_id).deadline_secs <= u64::MAX,
        ensures
            final(self).wf(),
            final(self).next() == old(self).next(),
            final(self).others_unchanged(old(self), proposal_id),
            !old(self).has(proposal_id) ==> (r matches Err(m) && m@ == "proposal not found"@)
                && final(self).all() == old(self).all(),
            old(self).has(proposal_id) ==> vote_post(old(self).proposal(proposal_id),
                final(self).proposal(proposal_id), voter@, in_favor, now, r),
    {
        if proposal_id == 0 || proposal_id > self.proposals.len() as u64 {
            return Err(String::from_str("proposal not found"));
        }
        let idx = (proposal_id - 1) as usize;
        let mut p = self.proposals.remove(idx);
        let r = p.cast_vote(voter, in_favor, now);
        self.proposals.insert(idx, p);
        proof {
            assert forall|i: int| 0 <= i < self.proposals@.len() implies {
                &&& (#[trigger] self.proposals@[i]).id == i + 1
                &&& self.proposals@[i].wf()
            } by {
                if i != idx as int {
                    assert(self.proposals@[i] == old(self).proposals@[i]);
                }
            }
        }
        r
    }

    /// Settles proposal `proposal_id` (see `Proposal::finalize`) and returns
    /// its status.
    pub fn finalize(&mut self, proposal_id: u64, now: u64) -> (r: Result<ProposalStatus, String>)
        requires
            old(self).wf(),
            old(self).has(proposal_id) ==> old(self).proposal(proposal_id).created_at
                + old(self).proposal(proposal_id).deadline_secs <= u64::MAX,
        ensures
            final(self).wf(),
            final(self).next() == old(self).next(),
            final(self).others_unchanged(old(self), proposal_id),
            !old(self).has(proposal_id) ==> (r matches Err(m) && m@ == "proposal not found"@)
                && final(self).all() == old(self).all(),
            old(self).has(proposal_id) ==> {
                let o = old(self).proposal(proposal_id);
                let n = final(self).proposal(proposal_id);
                &&& r == Ok::<ProposalStatus, String>(finalized_status(o, now))
                &&& n.status == finalized_status(o, now)
                &&& n.same_terms(&o)
                &&& n.votes_for == o.votes_for
                &&& n.votes_against == o.votes_against
                &&& n.voter_set() == o.voter_set()
            },
    {
        if proposal_id == 0 || proposal_id > self.proposals.len() as u64 {
            return Err(String::from_str("proposal not found"));
        }
        let idx = (proposal_id - 1) as usize;
        let mut p = self.proposals.remove(idx);
        p.finalize(now);
        let status = p.status;
        self.proposals.insert(idx, p);
        proof {
            assert forall|i: int| 0 <= i < self.proposals@.len() implies {
                &&& (#[trigger] self.proposals@[i]).id == i + 1
                &&& self.proposals@[i].wf()
            } by {
                if i != idx as int {
                    assert(self.proposals@[i] == old(self).proposals@[i]);
                }
            }
        }
        Ok(status)
    }

    /// Executes a passed proposal; a proposal executes at most once.
    pub fn execute_proposal(&mut self, proposal_id: u64) -> (r: Result<(), String>)
        requires
            old(self).wf(),
        ensures
            final(self).wf(),
            final(self).next() == old(self).next(),
            final(self).others_unchanged(old(self), proposal_id),
            !old(self).has(proposal_id) ==> (r matches Err(m) && m@ == "proposal not found"@)
                && final(self).all() == old(self).all(),
            old(self).has(proposal_id) ==> {
                let o = old(self).proposal(proposal_id);
                let n = final(self).proposal(proposal_id);
                &&& execute_post(o.status, n.status, r)
                &&& n.same_terms(&o)
                &&& n.votes_for == o.votes_for
                &&& n.votes_against == o.votes_against
                &&& n.voter_set() == o.voter_set()
            },
    {
        if proposal_id == 0 || proposal_id > self.proposals.len() as u64 {
            return Err(String::from_str("proposal not found"));
        }
        let idx = (proposal_id - 1) as usize;
        let mut p = self.proposals.remove(idx);
        let r = match p.status {
            ProposalStatus::Passed => {
                p.status = ProposalStatus::Executed;
                Ok(())
            },
            ProposalStatus::Executed => Err(String::from_str("proposal has already been executed")),
            _ => Err(String::from_str("proposal cannot be executed")),
        };
        self.proposals.insert(idx, p);
        proof {
            assert forall|i: int| 0 <= i < self.proposals@.len() implies {
                &&& (#[trigger] self.proposals@[i]).id == i + 1
                &&& self.proposals@[i].wf()
            } by {
                if i != idx as int {
                    assert(self.proposals@[i] == old(self).proposals@[i]);
                }
            }
        }
        r
    }

    /// The proposal with this id, if any.
    pub fn get(&self, proposal_id: u64) -> (r: Option<&Proposal>)
        requires
            self.wf(),
        ensures
            self.has(proposal_id) ==> r == Some(&self.proposal(proposal_id)),
            !self.has(proposal_id) ==> r is None,
    {
        if proposal_id == 0 || proposal_id > self.proposals.len() as u64 {
            return None;
        }
        Some(&self.proposals[(proposal_id - 1) as usize])
    }
}

/// A proposal executes at most once: after an execution succeeds, a second
/// attempt on the same proposal fails.
pub proof fn law_execute_at_most_once(
    s0: ProposalStatus,
    s1: ProposalStatus,
    s2: ProposalStatus,
    r1: Result<(), String>,
    r2: Result<(), String>,
)
    requires
        execute_post(s0, s1, r1),
        execute_post(s1, s2, r2),
        r1 is Ok,
    ensures
        r2 is Err,
        s2 == ProposalStatus::Executed,
{
}

/// A vote only ever adds its voter once: a second vote by the same voter on
/// the same proposal is refused and changes no tally.
pub proof fn law_one_vote_per_voter(
    p0: Proposal,
    p1: Proposal,
    p2: Proposal,
    voter: Seq<char>,
    f1: bool,
    f2: bool,
    t1: u64,
    t2: u64,
    r1: Result<(), String>,
    r2: Result<(), String>,
)
    requires
        vote_post(p0, p1, voter, f1, t1, r1),
        vote_post(p1, p2, voter, f2, t2, r2),
        r1 is Ok,
    ensures
        r2 is Err,
        p2.votes_for == p1.votes_for,
        p2.votes_against == p1.votes_against,
{
}

} // verus!
