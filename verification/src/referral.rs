//! The referral program: trading volume with commissions for referrers, a
//! waitlist released in batches, and rewards for approved reports.

use vstd::prelude::*;
use crate::keyed::KeyedMap;

verus! {

/// Where a waitlisted user stands.
#[derive(Clone, Copy, Debug, PartialEq, Eq, Structural)]
pub enum InviteStatus {
    Waitlisted,
    Invited,
}

/// Where a report stands.
#[derive(Clone, Copy, Debug, PartialEq, Eq, Structural)]
pub enum ReportStatus {
    Pending,
    Approved,
    Rejected,
    Paid,
}

/// A report and its reward.
pub struct Report {
    pub reporter: String,
    pub status: ReportStatus,
    pub reward: i128,
}

/// Why a reward claim was refused.
#[derive(Clone, Copy, Debug, PartialEq, Eq, Structural)]
pub enum ClaimError {
    NotReportOwner,
    NotEligible,
}

/// The text of each refusal.
pub open spec fn claim_error_text(e: ClaimError) -> Seq<char> {
    match e {
        ClaimError::NotReportOwner => "Not report owner"@,
        ClaimError::NotEligible => "Not eligible"@,
    }
}

impl ClaimError {
    /// The text of this refusal.
    pub fn message(&self) -> (s: String)
        ensures
            s@ == claim_error_text(*self),
    {
        match self {
            ClaimError::NotReportOwner => String::from_str("Not report owner"),
            ClaimError::NotEligible => String::from_str("Not eligible"),
        }
    }
}

/// `a / b` rounded toward zero, for `b != 0`.
pub open spec fn div_toward_zero(a: int, b: int) -> int {
    if (a >= 0) == (b > 0) { (if a >= 0 { a } else { -a }) / (if b > 0 { b } else { -b }) }
    else { -((if a >= 0 { a } else { -a }) / (if b > 0 { b } else { -b })) }
}

/// Commission on `amount` at `rate` percent, rounded toward zero.
pub open spec fn commission_of(amount: int, rate: int) -> int {
    div_toward_zero(amount * rate, 100)
}

/// Volumes, referrals, commissions, the waitlist and reports.
pub struct ReferralProgram {
    pub volumes: KeyedMap<String, i128>,
    pub referrers: KeyedMap<String, String>,
    /// Percent paid to referrers; must be set before referred users trade.
    pub commission_rate: Option<i128>,
    pub commissions: KeyedMap<String, i128>,
    /// Waitlisted users by queue position.
    pub queue: Vec<String>,
    pub queue_start: u32,
    pub queue_end: u32,
    /// Users released per batch; must be set before a release.
    pub batch_size: Option<u32>,
    pub statuses: KeyedMap<String, InviteStatus>,
    pub reports: KeyedMap<u32, Report>,
}

/// Statuses after inviting `users` in order.
pub open spec fn invite_all(m: Map<Seq<char>, InviteStatus>, users: Seq<String>) -> Map<Seq<char>, InviteStatus>
    decreases users.len(),
{
    if users.len() == 0 { m } else { invite_all(m, users.drop_last()).insert(users.last()@, InviteStatus::Invited) }
}

impl ReferralProgram {
    /// Maps are well formed.
    pub open spec fn wf(&self) -> bool {
        &&& self.volumes.wf()
        &&& self.referrers.wf()
        &&& self.commissions.wf()
        &&& self.statuses.wf()
        &&& self.reports.wf()
    }

    /// Traded volume of `u` (zero when none).
    pub open spec fn volume_of(&self, u: Seq<char>) -> int {
        if self.volumes.map().contains_key(u) { self.volumes.map()[u] as int } else { 0 }
    }

    /// Commission earned by `u` (zero when none).
    pub open spec fn commission_earned(&self, u: Seq<char>) -> int {
        if self.commissions.map().contains_key(u) { self.commissions.map()[u] as int } else { 0 }
    }

    /// The referrer of `u`, if any.
    pub open spec fn referrer_of(&self, u: Seq<char>) -> Option<Seq<char>> {
        if self.referrers.map().contains_key(u) { Some(self.referrers.map()[u]@) } else { None }
    }

    /// Adds `amount` to the volume of `user` and credits the commission to
    /// the user's referrer, if any.
    pub fn record_volume(&mut self, user: &str, amount: i128)
        requires
            old(self).wf(),
            i128::MIN <= old(self).volume_of(user@) + amount <= i128::MAX,
            old(self).referrer_of(user@) is Some ==> {
                &&& old(self).commission_rate is Some
                &&& i128::MIN <= amount * old(self).commission_rate.unwrap() <= i128::MAX
                &&& i128::MIN <= old(self).commission_earned(old(self).referrer_of(user@).unwrap())
                    + commission_of(amount as int, old(self).commission_rate.unwrap() as int) <= i128::MAX
            },
        ensures
            final(self).wf(),
            final(self).volume_of(user@) == old(self).volume_of(user@) + amount,
            forall|u: Seq<char>| u != user@ ==> #[trigger] final(self).volume_of(u) == old(self).volume_of(u),
            match old(self).referrer_of(user@) {
                Some(r) => {
                    &&& final(self).commission_earned(r) == old(self).commission_earned(r)
                        + commission_of(amount as int, old(self).commission_rate.unwrap() as int)
                    &&& forall|u: Seq<char>| u != r ==> #[trigger] final(self).commission_earned(u) == old(self).commission_earned(u)
                },
                None => forall|u: Seq<char>| #[trigger] final(self).commission_earned(u) == old(self).commission_earned(u),
            },
            final(self).referrers == old(self).referrers,
            final(self).commission_rate == old(self).commission_rate,
    {
        let key = user.to_owned();
        let current: i128 = match self.volumes.get(&key) {
            Some(v) => *v,
            None => 0,
        };
        self.volumes.insert(key.clone(), current + amount);
        let referrer: Option<String> = match self.referrers.get(&key) {
            Some(r) => Some(r.clone()),
            None => None,
        };
        if let Some(referrer) = referrer {
            let rate = match self.commission_rate {
                Some(r) => r,
                None => 0,
            };
            let commission = amount * rate / 100;
            let current_commission: i128 = match self.commissions.get(&referrer) {
                Some(c) => *c,
                None => 0,
            };
            self.commissions.insert(referrer, current_commission + commission);
        }
    }

    /// The queue position after releasing one batch from `start`.
    pub open spec fn batch_end(start: u32, end: u32, batch: u32) -> u32 {
        if start >= end { start } else if end - start < batch { end } else { (start + batch) as u32 }
    }

    /// Invites the next batch of waitlisted users.
    pub fn release_batch(&mut self)
        requires
            old(self).wf(),
            old(self).batch_size is Some,
            old(self).queue_end <= old(self).queue@.len(),
        ensures
            final(self).wf(),
            final(self).queue_start == Self::batch_end(old(self).queue_start, old(self).queue_end, old(self).batch_size.unwrap()),
            old(self).queue_start >= old(self).queue_end ==> final(self).statuses == old(self).statuses,
            old(self).queue_start < old(self).queue_end ==> final(self).statuses.map() == invite_all(old(self).statuses.map(),
                old(self).queue@.subrange(old(self).queue_start as int, final(self).queue_start as int)),
            final(self).queue == old(self).queue,
            final(self).queue_end == old(self).queue_end,
            final(self).batch_size == old(self).batch_size,
    {
        let mut start = self.queue_start;
        let end = self.queue_end;
        let batch = match self.batch_size {
            Some(b) => b,
            None => 0,
        };
        if start >= end {
            return;
        }
        let ghost s0 = start;
        let ghost m0 = self.statuses.map();
        assert(self.queue@.subrange(s0 as int, s0 as int) =~= Seq::<String>::empty());
        let mut count: u32 = 0;
        while start < end && count < batch
            invariant
                s0 <= start <= end,
                end == self.queue_end,
                end <= self.queue@.len(),
                count == start - s0,
                count <= batch,
                self.wf(),
                s0 == old(self).queue_start,
                m0 == old(self).statuses.map(),
                self.queue == old(self).queue,
                self.queue_start == old(self).queue_start,
                self.batch_size == old(self).batch_size,
                self.statuses.map() == invite_all(m0, self.queue@.subrange(s0 as int, start as int)),
            decreases end - start,
        {
            let user = self.queue[start as usize].clone();
            proof {
                assert(self.queue@.subrange(s0 as int, start + 1).drop_last() =~= self.queue@.subrange(s0 as int, start as int));
            }
            self.statuses.insert(user, InviteStatus::Invited);
            start = start + 1;
            count = count + 1;
        }
        self.queue_start = start;
    }

    /// The report `id`, if any.
    pub open spec fn report(&self, id: u32) -> Option<Report> {
        if self.reports.map().contains_key(id) { Some(self.reports.map()[id]) } else { None }
    }

    /// `user` collects the reward of approved report `report_id`, which
    /// becomes paid.
    pub fn claim(&mut self, user: &str, report_id: u32) -> (r: Result<i128, ClaimError>)
        requires
            old(self).wf(),
            old(self).report(report_id) is Some,
        ensures
            final(self).wf(),
            ({
                let rep = old(self).report(report_id).unwrap();
                if rep.reporter@ != user@ {
                    r == Err::<i128, ClaimError>(ClaimError::NotReportOwner) && *final(self) == *old(self)
                } else if rep.status != ReportStatus::Approved {
                    r == Err::<i128, ClaimError>(ClaimError::NotEligible) && *final(self) == *old(self)
                } else {
                    &&& r == Ok::<i128, ClaimError>(rep.reward)
                    &&& final(self).report(report_id) matches Some(n) && n.status == ReportStatus::Paid
                        && n.reporter == rep.reporter && n.reward == rep.reward
                    &&& forall|j: u32| j != report_id ==> #[trigger] final(self).report(j) == old(self).report(j)
                }
            }),
    {
        let i = match self.reports.find(&report_id) {
            Some(i) => i,
            None => {
                return Err(ClaimError::NotEligible);
            },
        };
        proof {
            self.reports.lemma_keys();
        }
        let rep = self.reports.at(i).1;
        if !(rep.reporter == user.to_owned()) {
            return Err(ClaimError::NotReportOwner);
        }
        if rep.status != ReportStatus::Approved {
            return Err(ClaimError::NotEligible);
        }
        let reward = rep.reward;
        let paid = Report { reporter: rep.reporter.clone(), status: ReportStatus::Paid, reward };
        self.reports.replace_at(i, paid);
        Ok(reward)
    }
}

/// A report reward is paid once: a paid report cannot be claimed again.
pub proof fn law_reward_paid_once(p: ReferralProgram, id: u32)
    requires
        p.report(id) matches Some(rep) && rep.status == ReportStatus::Paid,
    ensures
        p.report(id).unwrap().status != ReportStatus::Approved,
{
}

} // verus!
