//! Long-term staking with duration-based bonuses: stakes lock principal for
//! 30, 60, 90 or 365 days, their bonus becomes claimable after a 30-day
//! holding period, early exit costs 10% of the principal, and a distribution
//! record may be written once every 7 days.
//!
//! Bonus tiers: 30 days 5%, 60 days 12%, 90 days 20%, 365 days 50%.

use vstd::prelude::*;
use crate::codec::{dec_chars, push_decimal_str};
use crate::keyed::KeyedMap;
use crate::sums::{
    lemma_sum_nonneg, lemma_sum_prefix, lemma_sum_push, lemma_sum_take_next, lemma_sum_update,
    lemma_sum_le, seq_sum,
};

verus! {

/// Shortest staking period.
pub const MIN_STAKING_PERIOD_SECS: u64 = 30 * 24 * 60 * 60;

/// 30-day tier: length and bonus.
pub const TIER_30_DAYS_SECS: u64 = 30 * 24 * 60 * 60;
pub const TIER_30_DAYS_BONUS_BPS: u32 = 500;

/// 60-day tier: length and bonus.
pub const TIER_60_DAYS_SECS: u64 = 60 * 24 * 60 * 60;
pub const TIER_60_DAYS_BONUS_BPS: u32 = 1200;

/// 90-day tier: length and bonus.
pub const TIER_90_DAYS_SECS: u64 = 90 * 24 * 60 * 60;
pub const TIER_90_DAYS_BONUS_BPS: u32 = 2000;

/// 365-day tier: length and bonus.
pub const TIER_365_DAYS_SECS: u64 = 365 * 24 * 60 * 60;
pub const TIER_365_DAYS_BONUS_BPS: u32 = 5000;

/// Time after staking before the bonus can be claimed.
pub const BONUS_HOLDING_PERIOD_SECS: u64 = 30 * 24 * 60 * 60;

/// Shortest gap between two distributions.
pub const DISTRIBUTION_PERIOD_SECS: u64 = 7 * 24 * 60 * 60;

/// One stake.
#[derive(Clone, Copy, Debug, PartialEq, Eq, Structural)]
pub struct StakeRecord {
    pub amount: i128,
    pub staked_at: u64,
    pub unlock_at: u64,
    pub duration_secs: u64,
    pub bonus_bps: u32,
    pub bonus_amount: i128,
    pub bonus_claimed: bool,
    pub claimable_at: u64,
    pub is_active: bool,
}

/// One distribution.
#[derive(Clone, Copy, Debug, PartialEq, Eq, Structural)]
pub struct DistributionRecord {
    pub distributed_at: u64,
    pub total_distributed: i128,
    pub recipient_count: u32,
    pub average_bonus: i128,
}

/// The lock length of a valid duration in days.
pub open spec fn tier_secs(days: u32) -> Option<u64> {
    if days == 30 {
        Some(TIER_30_DAYS_SECS)
    } else if days == 60 {
        Some(TIER_60_DAYS_SECS)
    } else if days == 90 {
        Some(TIER_90_DAYS_SECS)
    } else if days == 365 {
        Some(TIER_365_DAYS_SECS)
    } else {
        None
    }
}

/// The bonus rate, in basis points, of a lock length in seconds.
pub open spec fn bps_for_secs(secs: u64) -> u32 {
    if secs == TIER_30_DAYS_SECS {
        TIER_30_DAYS_BONUS_BPS
    } else if secs == TIER_60_DAYS_SECS {
        TIER_60_DAYS_BONUS_BPS
    } else if secs == TIER_90_DAYS_SECS {
        TIER_90_DAYS_BONUS_BPS
    } else if secs == TIER_365_DAYS_SECS {
        TIER_365_DAYS_BONUS_BPS
    } else {
        0
    }
}

/// `bps` basis points of `amount`, rounded down.
pub open spec fn bonus_of(amount: int, bps: int) -> int {
    (amount * bps) / 10000
}

/// The stake that `stake` records for a valid duration.
pub open spec fn new_stake(amount: i128, days: u32, now: u64) -> StakeRecord {
    let secs = tier_secs(days).unwrap();
    StakeRecord {
        amount,
        staked_at: now,
        unlock_at: (now + secs) as u64,
        duration_secs: secs,
        bonus_bps: bps_for_secs(secs),
        bonus_amount: bonus_of(amount as int, bps_for_secs(secs) as int) as i128,
        bonus_claimed: false,
        claimable_at: (now + BONUS_HOLDING_PERIOD_SECS) as u64,
        is_active: true,
    }
}

/// Principal of an active stake.
pub open spec fn active_amount(r: StakeRecord) -> int {
    if r.is_active { r.amount as int } else { 0 }
}

/// Bonus of an active stake.
pub open spec fn earned_bonus(r: StakeRecord) -> int {
    if r.is_active { r.bonus_amount as int } else { 0 }
}

/// Bonus of a stake whose bonus was claimed.
pub open spec fn claimed_bonus(r: StakeRecord) -> int {
    if r.bonus_claimed { r.bonus_amount as int } else { 0 }
}

/// Bonus that can be claimed at `now`.
pub open spec fn pending_bonus(r: StakeRecord, now: u64) -> int {
    if r.is_active && !r.bonus_claimed && now >= r.claimable_at { r.bonus_amount as int } else { 0 }
}

/// The same stake after its bonus was claimed at `now`, if it could be.
pub open spec fn after_claim(r: StakeRecord, now: u64) -> StakeRecord {
    if pending_bonus(r, now) > 0 { StakeRecord { bonus_claimed: true, ..r } } else { r }
}

/// Every stake after `claim_bonuses` at `now`.
pub open spec fn claim_all(s: Seq<StakeRecord>, now: u64) -> Seq<StakeRecord> {
    Seq::new(s.len(), |i: int| after_claim(s[i], now))
}

/// Sum of active principal.
pub open spec fn active_sum(s: Seq<StakeRecord>) -> int {
    seq_sum(s, |r: StakeRecord| active_amount(r))
}

/// Sum of bonuses of active stakes.
pub open spec fn earned_sum(s: Seq<StakeRecord>) -> int {
    seq_sum(s, |r: StakeRecord| earned_bonus(r))
}

/// Sum of claimed bonuses.
pub open spec fn claimed_sum(s: Seq<StakeRecord>) -> int {
    seq_sum(s, |r: StakeRecord| claimed_bonus(r))
}

/// Sum of bonuses claimable at `now`.
pub open spec fn pending_sum(s: Seq<StakeRecord>, now: u64) -> int {
    seq_sum(s, |r: StakeRecord| pending_bonus(r, now))
}

/// A stake has positive principal and a bonus between zero and its principal.
pub open spec fn stake_wf(r: StakeRecord) -> bool {
    &&& r.amount > 0
    &&& 0 <= r.bonus_amount <= r.amount
}

/// The stakes of one user and the totals kept beside them.
pub struct StakerAccount {
    pub stakes: Vec<StakeRecord>,
    pub total_staked: i128,
    pub claimed_bonuses: i128,
}

/// The kept totals equal the sums over the stakes.
pub open spec fn account_wf(a: StakerAccount) -> bool {
    &&& forall|i: int| 0 <= i < a.stakes@.len() ==> stake_wf(#[trigger] a.stakes@[i])
    &&& a.total_staked == active_sum(a.stakes@)
    &&& a.claimed_bonuses == claimed_sum(a.stakes@)
}

/// A user's kept principal total.
pub open spec fn acct_total(p: (String, StakerAccount)) -> int {
    p.1.total_staked as int
}

/// A user's kept claimed total.
pub open spec fn acct_claimed(p: (String, StakerAccount)) -> int {
    p.1.claimed_bonuses as int
}

/// Text of the error for a stake that is still locked.
pub open spec fn locked_msg(remaining: u64) -> Seq<char> {
    "Stake locked for "@ + dec_chars(remaining as nat) + " more seconds"@
}

/// Text of the error for a distribution inside the waiting period.
pub open spec fn too_soon_msg(remaining: u64) -> Seq<char> {
    "Distribution already executed recently. Try again in "@ + dec_chars(remaining as nat) + " seconds"@
}

/// Stakes, totals and distribution history.
pub struct StakingBonusManager {
    accounts: KeyedMap<String, StakerAccount>,
    distributions: Vec<DistributionRecord>,
    last_distribution: Option<u64>,
    total_staked: i128,
    total_distributed: i128,
}

impl StakingBonusManager {
    /// Whether `u` has ever staked.
    pub closed spec fn has_account(&self, u: Seq<char>) -> bool {
        self.accounts.map().contains_key(u)
    }

    /// The stakes of `u`, in the order made (empty if none).
    pub closed spec fn stakes_of(&self, u: Seq<char>) -> Seq<StakeRecord> {
        if self.has_account(u) { self.accounts.map()[u].stakes@ } else { Seq::empty() }
    }

    /// The principal total kept for `u`.
    pub closed spec fn user_total(&self, u: Seq<char>) -> int {
        if self.has_account(u) { self.accounts.map()[u].total_staked as int } else { 0 }
    }

    /// The claimed-bonus total kept for `u`.
    pub closed spec fn user_claimed(&self, u: Seq<char>) -> int {
        if self.has_account(u) { self.accounts.map()[u].claimed_bonuses as int } else { 0 }
    }

    /// Principal staked over all users.
    pub closed spec fn total_staked_spec(&self) -> int {
        self.total_staked as int
    }

    /// Bonuses claimed over all users.
    pub closed spec fn total_distributed_spec(&self) -> int {
        self.total_distributed as int
    }

    /// Distribution records, oldest first.
    pub closed spec fn history(&self) -> Seq<DistributionRecord> {
        self.distributions@
    }

    /// Time of the latest distribution, if any.
    pub closed spec fn last_distribution_spec(&self) -> Option<u64> {
        self.last_distribution
    }

    /// Each account is consistent, and the global totals are the sums of
    /// the users' totals.
    pub closed spec fn wf(&self) -> bool {
        &&& self.accounts.wf()
        &&& forall|i: int| 0 <= i < self.accounts.pairs().len() ==> account_wf(#[trigger] self.accounts.pairs()[i].1)
        &&& self.total_staked == seq_sum(self.accounts.pairs(), |p: (String, StakerAccount)| acct_total(p))
        &&& self.total_distributed == seq_sum(self.accounts.pairs(), |p: (String, StakerAccount)| acct_claimed(p))
    }

    /// Users other than `u` keep their stakes and totals.
    pub open spec fn others_same(o: Self, n: Self, u: Seq<char>) -> bool {
        forall|v: Seq<char>| v != u ==> {
            &&& #[trigger] n.has_account(v) == o.has_account(v)
            &&& n.stakes_of(v) == o.stakes_of(v)
            &&& n.user_total(v) == o.user_total(v)
            &&& n.user_claimed(v) == o.user_claimed(v)
        }
    }

    /// No stakes and no distributions.
    pub fn new() -> (m: Self)
        ensures
            m.wf(),
            forall|u: Seq<char>| !#[trigger] m.has_account(u),
            forall|u: Seq<char>| #[trigger] m.stakes_of(u) == Seq::<StakeRecord>::empty(),
            forall|u: Seq<char>| #[trigger] m.user_total(u) == 0 && m.user_claimed(u) == 0,
            m.total_staked_spec() == 0,
            m.total_distributed_spec() == 0,
            m.history() == Seq::<DistributionRecord>::empty(),
            m.last_distribution_spec() is None,
    {
        let m = StakingBonusManager {
            accounts: KeyedMap::new(),
            distributions: Vec::new(),
            last_distribution: None,
            total_staked: 0,
            total_distributed: 0,
        };
        proof {
            m.accounts.lemma_keys();
            assert(m.accounts.pairs().len() == 0);
            assert(m.distributions@ =~= Seq::<DistributionRecord>::empty());
        }
        m
    }

    proof fn lemma_pairs(&self)
        requires
            self.wf(),
        ensures
            forall|u: Seq<char>| #[trigger] self.has_account(u) ==> account_wf(self.accounts.map()[u]),
            forall|u: Seq<char>| #[trigger] self.has_account(u) ==> 0 <= self.user_total(u) <= self.total_staked,
            forall|u: Seq<char>| #[trigger] self.has_account(u) ==> 0 <= self.user_claimed(u) <= self.total_distributed,
            0 <= self.total_staked,
            0 <= self.total_distributed,
    {
        self.accounts.lemma_keys();
        let ps = self.accounts.pairs();
        let ft = |p: (String, StakerAccount)| acct_total(p);
        let fc = |p: (String, StakerAccount)| acct_claimed(p);
        assert forall|j: int| 0 <= j < ps.len() implies ft(#[trigger] ps[j]) >= 0 && fc(ps[j]) >= 0 by {
            let a = ps[j].1;
            assert(account_wf(a));
            lemma_stake_sums(a.stakes@);
        }
        lemma_sum_nonneg(ps, ft);
        lemma_sum_nonneg(ps, fc);
        assert forall|u: Seq<char>| #[trigger] self.has_account(u) implies {
            &&& account_wf(self.accounts.map()[u])
            &&& 0 <= self.user_total(u) <= self.total_staked
            &&& 0 <= self.user_claimed(u) <= self.total_distributed
        } by {
            let j = choose|j: int| 0 <= j < ps.len() && (#[trigger] ps[j]).0@ == u;
            assert(self.accounts.map()[u] == ps[j].1);
            assert(ft(ps[j]) >= 0 && fc(ps[j]) >= 0);
        }
    }

    /// Replacing the account at position `i` keeps the state consistent when
    /// the global totals move by the account's change.
    proof fn lemma_replace(o: Self, n: Self, i: int, a: StakerAccount)
        requires
            o.wf(),
            0 <= i < o.accounts.pairs().len(),
            n.accounts.wf(),
            n.accounts.pairs() == o.accounts.pairs().update(i, (o.accounts.pairs()[i].0, a)),
            n.accounts.map() == o.accounts.map().insert(o.accounts.pairs()[i].0@, a),
            account_wf(a),
            n.total_staked == o.total_staked - o.accounts.pairs()[i].1.total_staked + a.total_staked,
            n.total_distributed == o.total_distributed - o.accounts.pairs()[i].1.claimed_bonuses + a.claimed_bonuses,
        ensures
            n.wf(),
            Self::others_same(o, n, o.accounts.pairs()[i].0@),
            n.has_account(o.accounts.pairs()[i].0@),
            o.has_account(o.accounts.pairs()[i].0@),
            o.accounts.map()[o.accounts.pairs()[i].0@] == o.accounts.pairs()[i].1,
            n.stakes_of(o.accounts.pairs()[i].0@) == a.stakes@,
            n.user_total(o.accounts.pairs()[i].0@) == a.total_staked,
            n.user_claimed(o.accounts.pairs()[i].0@) == a.claimed_bonuses,
    {
        let ps = o.accounts.pairs();
        let np = (ps[i].0, a);
        o.accounts.lemma_keys();
        lemma_sum_update(ps, i, np, |p: (String, StakerAccount)| acct_total(p));
        lemma_sum_update(ps, i, np, |p: (String, StakerAccount)| acct_claimed(p));
        assert forall|j: int| 0 <= j < n.accounts.pairs().len() implies account_wf(#[trigger] n.accounts.pairs()[j].1) by {
            if j != i {
                assert(n.accounts.pairs()[j] == ps[j]);
            }
        }
    }

    /// Adding a new account keeps the state consistent when the global
    /// totals grow by the account's totals.
    proof fn lemma_add(o: Self, n: Self, k: String, a: StakerAccount)
        requires
            o.wf(),
            !o.accounts.map().contains_key(k@),
            n.accounts.wf(),
            n.accounts.pairs() == o.accounts.pairs().push((k, a)),
            n.accounts.map() == o.accounts.map().insert(k@, a),
            account_wf(a),
            n.total_staked == o.total_staked + a.total_staked,
            n.total_distributed == o.total_distributed + a.claimed_bonuses,
        ensures
            n.wf(),
            Self::others_same(o, n, k@),
            n.has_account(k@),
            n.stakes_of(k@) == a.stakes@,
            n.user_total(k@) == a.total_staked,
            n.user_claimed(k@) == a.claimed_bonuses,
    {
        let ps = o.accounts.pairs();
        lemma_sum_push(ps, (k, a), |p: (String, StakerAccount)| acct_total(p));
        lemma_sum_push(ps, (k, a), |p: (String, StakerAccount)| acct_claimed(p));
        assert forall|j: int| 0 <= j < n.accounts.pairs().len() implies account_wf(#[trigger] n.accounts.pairs()[j].1) by {
            if j < ps.len() {
                assert(n.accounts.pairs()[j] == ps[j]);
            }
        }
    }

    /// What `execute_distribution` needs: the end of the waiting period fits in `u64`.
    pub open spec fn execute_distribution_pre(o: Self, now: u64) -> bool {
        &&& (o.last_distribution_spec() matches Some(l) ==> l + DISTRIBUTION_PERIOD_SECS <= u64::MAX)
    }

    /// What `execute_distribution` answers and leaves: a refusal inside the waiting period with the
    /// state unchanged, or an empty record appended to the history.
    pub open spec fn execute_distribution_post(o: Self, n: Self, now: u64, r: Result<DistributionRecord, String>) -> bool {
        &&& ((o.last_distribution_spec() matches Some(l) && now < l + DISTRIBUTION_PERIOD_SECS) ==> (r matches Err(m)
            && m@ == too_soon_msg((o.last_distribution_spec().unwrap() + DISTRIBUTION_PERIOD_SECS - now) as u64))
            && n == o)
        &&& (!(o.last_distribution_spec() matches Some(l) && now < l + DISTRIBUTION_PERIOD_SECS) ==> {
            let rec = DistributionRecord { distributed_at: now, total_distributed: 0, recipient_count: 0, average_bonus: 0 };
            &&& r == Ok::<DistributionRecord, String>(rec)
            &&& n.history() == o.history().push(rec)
            &&& n.last_distribution_spec() == Some(now)
            &&& n.total_staked_spec() == o.total_staked_spec()
            &&& n.total_distributed_spec() == o.total_distributed_spec()
            &&& forall|u: Seq<char>| {
                &&& #[trigger] n.has_account(u) == o.has_account(u)
                &&& n.stakes_of(u) == o.stakes_of(u)
                &&& n.user_total(u) == o.user_total(u)
                &&& n.user_claimed(u) == o.user_claimed(u)
            }
        })
    }

    /// What `stake` needs: room for one more stake and, for a stake it accepts, no overflow.
    pub open spec fn stake_pre(o: Self, user: Seq<char>, amount: i128, duration_days: u32, now: u64) -> bool {
        &&& o.stakes_of(user).len() < u32::MAX
        &&& (amount > 0 && tier_secs(duration_days) is Some ==> {
            &&& now + tier_secs(duration_days).unwrap() <= u64::MAX
            &&& now + BONUS_HOLDING_PERIOD_SECS <= u64::MAX
            &&& amount * bps_for_secs(tier_secs(duration_days).unwrap()) <= i128::MAX
            &&& o.total_staked_spec() + amount <= i128::MAX
        })
    }

    /// What `stake` answers and leaves: a refusal with the state unchanged, or the new stake
    /// appended to the user's stakes.
    pub open spec fn stake_post(o: Self, n: Self, user: Seq<char>, amount: i128, duration_days: u32, now: u64, r: Result<u32, String>) -> bool {
        &&& (amount <= 0 ==> (r matches Err(m) && m@ == "Amount must be positive"@) && n == o)
        &&& (amount > 0 && tier_secs(duration_days) is None ==> (r matches Err(m)
            && m@ == "Invalid duration: use 30, 60, 90, or 365 days"@) && n == o)
        &&& (amount > 0 && tier_secs(duration_days) is Some ==> {
            &&& r == Ok::<u32, String>(o.stakes_of(user).len() as u32)
            &&& n.has_account(user)
            &&& n.stakes_of(user) == o.stakes_of(user).push(new_stake(amount, duration_days, now))
            &&& n.user_total(user) == o.user_total(user) + amount
            &&& n.user_claimed(user) == o.user_claimed(user)
            &&& n.total_staked_spec() == o.total_staked_spec() + amount
            &&& n.total_distributed_spec() == o.total_distributed_spec()
            &&& n.history() == o.history()
            &&& n.last_distribution_spec() == o.last_distribution_spec()
            &&& Self::others_same(o, n, user)
        })
    }

    /// What `unstake_early` needs: the penalty of an existing stake fits in `i128`.
    pub open spec fn unstake_early_pre(o: Self, user: Seq<char>, stake_id: u32) -> bool {
        &&& (stake_id < o.stakes_of(user).len() ==> o.stakes_of(user)[stake_id as int].amount * 10 <= i128::MAX)
    }

    /// What `unstake_early` answers and leaves: a refusal with the state unchanged, or the stake
    /// closed with 10% kept.
    pub open spec fn unstake_early_post(o: Self, n: Self, user: Seq<char>, stake_id: u32, r: Result<(i128, i128), String>) -> bool {
        &&& (!o.has_account(user) ==> (r matches Err(m) && m@ == "No stakes found for user"@) && n == o)
        &&& (o.has_account(user) && stake_id >= o.stakes_of(user).len() ==> (r matches Err(m)
            && m@ == "Invalid stake ID"@) && n == o)
        &&& (o.has_account(user) && stake_id < o.stakes_of(user).len()
            && !o.stakes_of(user)[stake_id as int].is_active ==> (r matches Err(m)
            && m@ == "Stake is not active"@) && n == o)
        &&& (o.has_account(user) && stake_id < o.stakes_of(user).len()
            && o.stakes_of(user)[stake_id as int].is_active ==> {
            let st = o.stakes_of(user)[stake_id as int];
            let penalty = (st.amount * 10) / 100;
            &&& r == Ok::<(i128, i128), String>(((st.amount - penalty) as i128, penalty as i128))
            &&& n.stakes_of(user) == o.stakes_of(user).update(stake_id as int, StakeRecord { is_active: false, ..st })
            &&& n.user_total(user) == o.user_total(user) - st.amount
            &&& n.user_claimed(user) == o.user_claimed(user)
            &&& n.total_staked_spec() == o.total_staked_spec() - st.amount
            &&& n.total_distributed_spec() == o.total_distributed_spec()
            &&& n.history() == o.history()
            &&& n.last_distribution_spec() == o.last_distribution_spec()
            &&& Self::others_same(o, n, user)
        })
    }

    /// What `claim_stake` answers and leaves: a refusal with the state unchanged, or the unlocked
    /// stake closed and its principal returned.
    pub open spec fn claim_stake_post(o: Self, n: Self, user: Seq<char>, stake_id: u32, now: u64, r: Result<i128, String>) -> bool {
        &&& (!o.has_account(user) ==> (r matches Err(m) && m@ == "No stakes found for user"@) && n == o)
        &&& (o.has_account(user) && stake_id >= o.stakes_of(user).len() ==> (r matches Err(m)
            && m@ == "Invalid stake ID"@) && n == o)
        &&& (o.has_account(user) && stake_id < o.stakes_of(user).len()
            && !o.stakes_of(user)[stake_id as int].is_active ==> (r matches Err(m)
            && m@ == "Stake is not active"@) && n == o)
        &&& (o.has_account(user) && stake_id < o.stakes_of(user).len()
            && o.stakes_of(user)[stake_id as int].is_active
            && now < o.stakes_of(user)[stake_id as int].unlock_at ==> (r matches Err(m)
            && m@ == locked_msg((o.stakes_of(user)[stake_id as int].unlock_at - now) as u64))
            && n == o)
        &&& (o.has_account(user) && stake_id < o.stakes_of(user).len()
            && o.stakes_of(user)[stake_id as int].is_active
            && now >= o.stakes_of(user)[stake_id as int].unlock_at ==> {
            let st = o.stakes_of(user)[stake_id as int];
            &&& r == Ok::<i128, String>(st.amount)
            &&& n.stakes_of(user) == o.stakes_of(user).update(stake_id as int, StakeRecord { is_active: false, ..st })
            &&& n.user_total(user) == o.user_total(user) - st.amount
            &&& n.user_claimed(user) == o.user_claimed(user)
            &&& n.total_staked_spec() == o.total_staked_spec() - st.amount
            &&& n.total_distributed_spec() == o.total_distributed_spec()
            &&& n.history() == o.history()
            &&& n.last_distribution_spec() == o.last_distribution_spec()
            &&& Self::others_same(o, n, user)
        })
    }

    /// What `claim_bonuses` needs: the claimed total stays within `i128`.
    pub open spec fn claim_bonuses_pre(o: Self, user: Seq<char>, now: u64) -> bool {
        &&& o.total_distributed_spec() + pending_sum(o.stakes_of(user), now) <= i128::MAX
    }

    /// What `claim_bonuses` answers and leaves: a refusal with the state unchanged, or every due
    /// bonus marked claimed and their sum returned.
    pub open spec fn claim_bonuses_post(o: Self, n: Self, user: Seq<char>, now: u64, r: Result<i128, String>) -> bool {
        &&& (!o.has_account(user) ==> (r matches Err(m) && m@ == "No stakes found for user"@) && n == o)
        &&& (o.has_account(user) && pending_sum(o.stakes_of(user), now) == 0 ==> (r matches Err(m)
            && m@ == "No claimable bonuses available"@) && n == o)
        &&& (o.has_account(user) && pending_sum(o.stakes_of(user), now) != 0 ==> {
            let total = pending_sum(o.stakes_of(user), now);
            &&& r == Ok::<i128, String>(total as i128)
            &&& n.stakes_of(user) == claim_all(o.stakes_of(user), now)
            &&& n.user_total(user) == o.user_total(user)
            &&& n.user_claimed(user) == o.user_claimed(user) + total
            &&& n.total_staked_spec() == o.total_staked_spec()
            &&& n.total_distributed_spec() == o.total_distributed_spec() + total
            &&& n.history() == o.history()
            &&& n.last_distribution_spec() == o.last_distribution_spec()
            &&& Self::others_same(o, n, user)
        })
    }

    /// Records a stake of `amount` for `duration_days` (30, 60, 90 or 365)
    /// made at `now`, and returns its number among the user's stakes.
    pub fn stake(&mut self, user: &str, amount: i128, duration_days: u32, now: u64) -> (r: Result<u32, String>)
        requires
            old(self).wf(),
            Self::stake_pre(*old(self), user@, amount, duration_days, now),
        ensures
            final(self).wf(),
            Self::stake_post(*old(self), *final(self), user@, amount, duration_days, now, r),
    {
        if amount <= 0 {
            return Err(String::from_str("Amount must be positive"));
        }
        let duration_secs: u64 = match duration_days {
            30 => TIER_30_DAYS_SECS,
            60 => TIER_60_DAYS_SECS,
            90 => TIER_90_DAYS_SECS,
            365 => TIER_365_DAYS_SECS,
            _ => {
                return Err(String::from_str("Invalid duration: use 30, 60, 90, or 365 days"));
            },
        };
        let unlock_time = now + duration_secs;
        let claimable_time = now + BONUS_HOLDING_PERIOD_SECS;
        let bonus_bps = Self::get_bonus_tier(duration_secs);
        let bonus_amount = Self::calculate_bonus(amount, bonus_bps);
        let stake = StakeRecord {
            amount,
            staked_at: now,
            unlock_at: unlock_time,
            duration_secs,
            bonus_bps,
            bonus_amount,
            bonus_claimed: false,
            claimable_at: claimable_time,
            is_active: true,
        };
        assert(stake == new_stake(amount, duration_days, now));
        assert(bonus_amount <= amount) by (nonlinear_arith)
            requires
                bonus_amount == (amount * bonus_bps) / 10000,
                bonus_bps <= 5000,
                amount > 0,
        ;
        assert(bonus_amount >= 0) by (nonlinear_arith)
            requires
                bonus_amount == (amount * bonus_bps) / 10000,
                amount > 0,
        ;
        let ghost o = *self;
        proof {
            self.lemma_pairs();
        }
        let key = user.to_owned();
        let stake_id: u32;
        match self.accounts.find(&key) {
            Some(i) => {
                let placeholder = StakerAccount { stakes: Vec::new(), total_staked: 0, claimed_bonuses: 0 };
                let mut acct = self.accounts.replace_at(i, placeholder);
                let ghost oa = acct;
                proof {
                    o.accounts.lemma_keys();
                    assert(oa == o.accounts.map()[user@]);
                }
                stake_id = acct.stakes.len() as u32;
                acct.stakes.push(stake);
                acct.total_staked = acct.total_staked + amount;
                proof {
                    lemma_sum_push(oa.stakes@, stake, |r: StakeRecord| active_amount(r));
                    lemma_sum_push(oa.stakes@, stake, |r: StakeRecord| claimed_bonus(r));
                    assert forall|j: int| 0 <= j < acct.stakes@.len() implies stake_wf(#[trigger] acct.stakes@[j]) by {
                        if j < oa.stakes@.len() {
                            assert(acct.stakes@[j] == oa.stakes@[j]);
                        }
                    }
                }
                let ghost na = acct;
                self.accounts.replace_at(i, acct);
                self.total_staked = self.total_staked + amount;
                proof {
                    assert(self.accounts.pairs() =~= o.accounts.pairs().update(i as int, (o.accounts.pairs()[i as int].0, na)));
                    assert(self.accounts.map() =~= o.accounts.map().insert(user@, na));
                    Self::lemma_replace(o, *self, i as int, na);
                }
            },
            None => {
                let mut stakes: Vec<StakeRecord> = Vec::new();
                stakes.push(stake);
                stake_id = 0;
                let acct = StakerAccount { stakes, total_staked: amount, claimed_bonuses: 0 };
                proof {
                    lemma_sum_push(Seq::<StakeRecord>::empty(), stake, |r: StakeRecord| active_amount(r));
                    lemma_sum_push(Seq::<StakeRecord>::empty(), stake, |r: StakeRecord| claimed_bonus(r));
                    assert(acct.stakes@ =~= Seq::<StakeRecord>::empty().push(stake));
                    assert(o.stakes_of(user@) =~= Seq::<StakeRecord>::empty());
                }
                let ghost na = acct;
                let ghost kk = key;
                self.accounts.insert(key, acct);
                self.total_staked = self.total_staked + amount;
                proof {
                    Self::lemma_add(o, *self, kk, na);
                }
            },
        }
        Ok(stake_id)
    }

    /// Position of the account of `user`, with the facts the callers need.
    fn account_index(&self, user: &String) -> (r: Option<usize>)
        requires
            self.wf(),
        ensures
            match r {
                Some(i) => {
                    &&& i < self.accounts.pairs().len()
                    &&& i < self.accounts.size()
                    &&& self.accounts.pairs()[i as int].0@ == user@
                    &&& self.has_account(user@)
                    &&& self.accounts.map()[user@] == self.accounts.pairs()[i as int].1
                    &&& account_wf(self.accounts.pairs()[i as int].1)
                },
                None => !self.has_account(user@),
            },
    {
        let r = self.accounts.find(user);
        proof {
            self.accounts.lemma_keys();
            self.lemma_pairs();
        }
        r
    }

    /// Marks stake `sid` of the account at position `i` inactive and takes
    /// its principal out of the totals.
    fn close_stake(&mut self, i: usize, sid: usize, Ghost(user): Ghost<Seq<char>>) -> (amount: i128)
        requires
            old(self).wf(),
            i < old(self).accounts.pairs().len(),
            i < old(self).accounts.size(),
            old(self).accounts.pairs()[i as int].0@ == user,
            sid < old(self).stakes_of(user).len(),
            old(self).stakes_of(user)[sid as int].is_active,
        ensures
            final(self).wf(),
            amount == old(self).stakes_of(user)[sid as int].amount,
            final(self).has_account(user),
            final(self).stakes_of(user) == old(self).stakes_of(user).update(sid as int, StakeRecord { is_active: false, ..old(self).stakes_of(user)[sid as int] }),
            final(self).user_total(user) == old(self).user_total(user) - amount,
            final(self).user_claimed(user) == old(self).user_claimed(user),
            final(self).total_staked_spec() == old(self).total_staked_spec() - amount,
            final(self).total_distributed_spec() == old(self).total_distributed_spec(),
            final(self).history() == old(self).history(),
            final(self).last_distribution_spec() == old(self).last_distribution_spec(),
            Self::others_same(*old(self), *final(self), user),
    {
        let ghost o = *self;
        proof {
            o.lemma_pairs();
            o.accounts.lemma_keys();
        }
        let placeholder = StakerAccount { stakes: Vec::new(), total_staked: 0, claimed_bonuses: 0 };
        let mut acct = self.accounts.replace_at(i, placeholder);
        let ghost oa = acct;
        assert(oa == o.accounts.map()[user]);
        let mut st = acct.stakes[sid];
        let amount = st.amount;
        st.is_active = false;
        acct.stakes.set(sid, st);
        proof {
            let fa = |r: StakeRecord| active_amount(r);
            lemma_sum_update(oa.stakes@, sid as int, st, fa);
            lemma_sum_update(oa.stakes@, sid as int, st, |r: StakeRecord| claimed_bonus(r));
            assert forall|j: int| 0 <= j < oa.stakes@.len() implies fa(#[trigger] oa.stakes@[j]) >= 0 by {
                assert(stake_wf(oa.stakes@[j]));
            }
            lemma_sum_nonneg(oa.stakes@, fa);
            assert(fa(oa.stakes@[sid as int]) == amount);
            assert forall|j: int| 0 <= j < acct.stakes@.len() implies stake_wf(#[trigger] acct.stakes@[j]) by {
                if j != sid {
                    assert(acct.stakes@[j] == oa.stakes@[j]);
                }
            }
        }
        acct.total_staked = acct.total_staked - amount;
        let ghost na = acct;
        self.accounts.replace_at(i, acct);
        self.total_staked = self.total_staked - amount;
        proof {
            assert(self.accounts.pairs() =~= o.accounts.pairs().update(i as int, (o.accounts.pairs()[i as int].0, na)));
            assert(self.accounts.map() =~= o.accounts.map().insert(user, na));
            Self::lemma_replace(o, *self, i as int, na);
        }
        amount
    }

    /// Ends stake `stake_id` before its lock expires, keeping 10% of the
    /// principal as penalty; returns the principal paid back and the penalty.
    pub fn unstake_early(&mut self, user: &str, stake_id: u32) -> (r: Result<(i128, i128), String>)
        requires
            old(self).wf(),
            Self::unstake_early_pre(*old(self), user@, stake_id),
        ensures
            final(self).wf(),
            Self::unstake_early_post(*old(self), *final(self), user@, stake_id, r),
    {
        let key = user.to_owned();
        let i = match self.account_index(&key) {
            Some(i) => i,
            None => {
                return Err(String::from_str("No stakes found for user"));
            },
        };
        if stake_id as usize >= self.accounts.at(i).1.stakes.len() {
            return Err(String::from_str("Invalid stake ID"));
        }
        if !self.accounts.at(i).1.stakes[stake_id as usize].is_active {
            return Err(String::from_str("Stake is not active"));
        }
        let amount = self.close_stake(i, stake_id as usize, Ghost(user@));
        let penalty = (amount * 10) / 100;
        let principal_returned = amount - penalty;
        Ok((principal_returned, penalty))
    }

    /// Pays back the principal of stake `stake_id` once its lock expired at `now`.
    pub fn claim_stake(&mut self, user: &str, stake_id: u32, now: u64) -> (r: Result<i128, String>)
        requires
            old(self).wf(),
        ensures
            final(self).wf(),
            Self::claim_stake_post(*old(self), *final(self), user@, stake_id, now, r),
    {
        let key = user.to_owned();
        let i = match self.account_index(&key) {
            Some(i) => i,
            None => {
                return Err(String::from_str("No stakes found for user"));
            },
        };
        if stake_id as usize >= self.accounts.at(i).1.stakes.len() {
            return Err(String::from_str("Invalid stake ID"));
        }
        let st = self.accounts.at(i).1.stakes[stake_id as usize];
        if !st.is_active {
            return Err(String::from_str("Stake is not active"));
        }
        if now < st.unlock_at {
            let remaining = st.unlock_at - now;
            let mut msg = String::from_str("Stake locked for ");
            push_decimal_str(&mut msg, remaining);
            msg.append(" more seconds");
            return Err(msg);
        }
        let principal = self.close_stake(i, stake_id as usize, Ghost(user@));
        Ok(principal)
    }

    /// Claims, at `now`, every bonus whose holding period is over and that
    /// was not claimed yet; returns their sum.
    pub fn claim_bonuses(&mut self, user: &str, now: u64) -> (r: Result<i128, String>)
        requires
            old(self).wf(),
            Self::claim_bonuses_pre(*old(self), user@, now),
        ensures
            final(self).wf(),
            Self::claim_bonuses_post(*old(self), *final(self), user@, now, r),
    {
        let key = user.to_owned();
        let i = match self.account_index(&key) {
            Some(i) => i,
            None => {
                return Err(String::from_str("No stakes found for user"));
            },
        };
        if self.get_user_pending_bonuses(user, now) == 0 {
            return Err(String::from_str("No claimable bonuses available"));
        }
        let ghost o = *self;
        let ghost orig = o.stakes_of(user@);
        proof {
            o.lemma_pairs();
            lemma_stake_sums(orig);
            assert forall|j: int| 0 <= j < orig.len() implies pending_bonus(#[trigger] orig[j], now) >= 0 by {
                assert(stake_wf(orig[j]));
            }
        }
        let placeholder = StakerAccount { stakes: Vec::new(), total_staked: 0, claimed_bonuses: 0 };
        let mut acct = self.accounts.replace_at(i, placeholder);
        let ghost oa = acct;
        proof {
            o.accounts.lemma_keys();
            assert(oa == o.accounts.map()[user@]);
            assert(account_wf(oa));
        }
        assert(acct.stakes@ == orig);
        let mut total_claimed: i128 = 0;
        let n = acct.stakes.len();
        let mut k: usize = 0;
        while k < n
            invariant
                n == orig.len(),
                acct.stakes@.len() == n,
                acct.total_staked == oa.total_staked,
                acct.claimed_bonuses == oa.claimed_bonuses,
                0 <= k <= n,
                forall|j: int| 0 <= j < k ==> acct.stakes@[j] == after_claim(orig[j], now),
                forall|j: int| k <= j < n ==> acct.stakes@[j] == orig[j],
                forall|j: int| 0 <= j < n ==> pending_bonus(#[trigger] orig[j], now) >= 0,
                total_claimed == pending_sum(orig.take(k as int), now),
                pending_sum(orig, now) <= i128::MAX,
            decreases n - k,
        {
            let mut st = acct.stakes[k];
            proof {
                lemma_sum_take_next(orig, k as int, |r: StakeRecord| pending_bonus(r, now));
                lemma_sum_prefix(orig, k + 1, |r: StakeRecord| pending_bonus(r, now));
            }
            if !st.bonus_claimed && st.is_active && now >= st.claimable_at && st.bonus_amount > 0 {
                total_claimed = total_claimed + st.bonus_amount;
                st.bonus_claimed = true;
                acct.stakes.set(k, st);
            }
            k = k + 1;
        }
        assert(orig.take(n as int) =~= orig);
        proof {
            assert(acct.stakes@ =~= claim_all(orig, now));
            lemma_claim_all(orig, now);
        }
        acct.claimed_bonuses = acct.claimed_bonuses + total_claimed;
        let ghost na = acct;
        self.accounts.replace_at(i, acct);
        self.total_distributed = self.total_distributed + total_claimed;
        proof {
            assert(self.accounts.pairs() =~= o.accounts.pairs().update(i as int, (o.accounts.pairs()[i as int].0, na)));
            assert(self.accounts.map() =~= o.accounts.map().insert(user@, na));
            Self::lemma_replace(o, *self, i as int, na);
        }
        Ok(total_claimed)
    }

    /// Writes a distribution record at `now`; refused within 7 days of the
    /// previous one. The first distribution always succeeds.
    pub fn execute_distribution(&mut self, now: u64) -> (r: Result<DistributionRecord, String>)
        requires
            old(self).wf(),
            Self::execute_distribution_pre(*old(self), now),
        ensures
            final(self).wf(),
            Self::execute_distribution_post(*old(self), *final(self), now, r),
    {
        if let Some(last) = self.last_distribution {
            if now < last + DISTRIBUTION_PERIOD_SECS {
                let remaining = (last + DISTRIBUTION_PERIOD_SECS) - now;
                let mut msg = String::from_str("Distribution already executed recently. Try again in ");
                push_decimal_str(&mut msg, remaining);
                msg.append(" seconds");
                return Err(msg);
            }
        }
        let total_distributed: i128 = 0;
        let recipient_count: u32 = 0;
        let average_bonus: i128 = if recipient_count > 0 {
            total_distributed / (recipient_count as i128)
        } else {
            0
        };
        let record = DistributionRecord {
            distributed_at: now,
            total_distributed,
            recipient_count,
            average_bonus,
        };
        self.distributions.push(record);
        self.last_distribution = Some(now);
        Ok(record)
    }

    /// Every stake of `user`, in the order made.
    pub fn get_user_stakes(&self, user: &str) -> (v: Vec<StakeRecord>)
        requires
            self.wf(),
        ensures
            v@ == self.stakes_of(user@),
    {
        let key = user.to_owned();
        let mut out: Vec<StakeRecord> = Vec::new();
        match self.account_index(&key) {
            Some(i) => {
                let stakes = &self.accounts.at(i).1.stakes;
                let n = stakes.len();
                let mut k: usize = 0;
                while k < n
                    invariant
                        n == stakes@.len(),
                        0 <= k <= n,
                        out@ == stakes@.take(k as int),
                    decreases n - k,
                {
                    out.push(stakes[k]);
                    k = k + 1;
                    assert(out@ =~= stakes@.take(k as int));
                }
                assert(stakes@.take(n as int) =~= stakes@);
            },
            None => {
                assert(out@ =~= self.stakes_of(user@));
            },
        }
        out
    }

    /// The principal total kept for `user`.
    pub fn get_user_total_staked(&self, user: &str) -> (t: i128)
        requires
            self.wf(),
        ensures
            t == self.user_total(user@),
            t == active_sum(self.stakes_of(user@)),
    {
        let key = user.to_owned();
        match self.account_index(&key) {
            Some(i) => self.accounts.at(i).1.total_staked,
            None => {
                assert(self.stakes_of(user@) =~= Seq::<StakeRecord>::empty());
                0
            },
        }
    }

    /// Sum of the bonuses of the active stakes of `user`.
    pub fn get_user_earned_bonuses(&self, user: &str) -> (t: i128)
        requires
            self.wf(),
        ensures
            t == earned_sum(self.stakes_of(user@)),
    {
        let stakes = self.get_user_stakes(user);
        let ghost s = stakes@;
        proof {
            if self.has_account(user@) {
                self.lemma_pairs();
            }
            assert forall|j: int| 0 <= j < s.len() implies stake_wf(#[trigger] s[j]) by {
                self.lemma_pairs();
            }
            lemma_stake_sums(s);
            assert forall|j: int| 0 <= j < s.len() implies earned_bonus(#[trigger] s[j]) >= 0 by {
                assert(stake_wf(s[j]));
            }
            self.lemma_user_total_bound(user@);
        }
        let n = stakes.len();
        let mut total: i128 = 0;
        let mut k: usize = 0;
        while k < n
            invariant
                n == s.len(),
                stakes@ == s,
                0 <= k <= n,
                forall|j: int| 0 <= j < n ==> earned_bonus(#[trigger] s[j]) >= 0,
                total == earned_sum(s.take(k as int)),
                earned_sum(s) <= i128::MAX,
            decreases n - k,
        {
            proof {
                lemma_sum_take_next(s, k as int, |r: StakeRecord| earned_bonus(r));
                lemma_sum_prefix(s, k + 1, |r: StakeRecord| earned_bonus(r));
            }
            if stakes[k].is_active {
                total = total + stakes[k].bonus_amount;
            }
            k = k + 1;
        }
        assert(s.take(n as int) =~= s);
        total
    }

    /// The claimed-bonus total kept for `user`.
    pub fn get_user_claimed_bonuses(&self, user: &str) -> (t: i128)
        requires
            self.wf(),
        ensures
            t == self.user_claimed(user@),
            t == claimed_sum(self.stakes_of(user@)),
    {
        let key = user.to_owned();
        match self.account_index(&key) {
            Some(i) => self.accounts.at(i).1.claimed_bonuses,
            None => {
                assert(self.stakes_of(user@) =~= Seq::<StakeRecord>::empty());
                0
            },
        }
    }

    /// Sum of the bonuses of `user` that can be claimed at `now`.
    pub fn get_user_pending_bonuses(&self, user: &str, now: u64) -> (t: i128)
        requires
            self.wf(),
        ensures
            t == pending_sum(self.stakes_of(user@), now),
    {
        let stakes = self.get_user_stakes(user);
        let ghost s = stakes@;
        proof {
            assert forall|j: int| 0 <= j < s.len() implies stake_wf(#[trigger] s[j]) by {
                self.lemma_pairs();
            }
            lemma_stake_sums(s);
            assert forall|j: int| 0 <= j < s.len() implies pending_bonus(#[trigger] s[j], now) >= 0 by {
                assert(stake_wf(s[j]));
            }
            self.lemma_user_total_bound(user@);
            assert(pending_sum(s, now) <= earned_sum(s));
        }
        let n = stakes.len();
        let mut total: i128 = 0;
        let mut k: usize = 0;
        while k < n
            invariant
                n == s.len(),
                stakes@ == s,
                0 <= k <= n,
                forall|j: int| 0 <= j < n ==> pending_bonus(#[trigger] s[j], now) >= 0,
                total == pending_sum(s.take(k as int), now),
                pending_sum(s, now) <= i128::MAX,
            decreases n - k,
        {
            proof {
                lemma_sum_take_next(s, k as int, |r: StakeRecord| pending_bonus(r, now));
                lemma_sum_prefix(s, k + 1, |r: StakeRecord| pending_bonus(r, now));
            }
            let st = stakes[k];
            if st.is_active && !st.bonus_claimed && now >= st.claimable_at {
                total = total + st.bonus_amount;
            }
            k = k + 1;
        }
        assert(s.take(n as int) =~= s);
        total
    }

    /// Stake `stake_id` of `user`.
    pub fn get_stake_details(&self, user: &str, stake_id: u32) -> (r: Result<StakeRecord, String>)
        requires
            self.wf(),
        ensures
            stake_id < self.stakes_of(user@).len() ==> r == Ok::<StakeRecord, String>(self.stakes_of(user@)[stake_id as int]),
            stake_id >= self.stakes_of(user@).len() ==> (r matches Err(m) && m@ == "Invalid stake ID"@),
    {
        let stakes = self.get_user_stakes(user);
        if stake_id as usize >= stakes.len() {
            return Err(String::from_str("Invalid stake ID"));
        }
        Ok(stakes[stake_id as usize])
    }

    /// Principal staked over all users, bonuses claimed over all users, and
    /// the number of distribution records.
    pub fn get_statistics(&self) -> (r: (i128, i128, u64))
        ensures
            r.0 == self.total_staked_spec(),
            r.1 == self.total_distributed_spec(),
            r.2 == self.history().len(),
    {
        (self.total_staked, self.total_distributed, self.distributions.len() as u64)
    }

    /// Every distribution record, oldest first.
    pub fn get_distribution_history(&self) -> (v: Vec<DistributionRecord>)
        ensures
            v@ == self.history(),
    {
        let mut out: Vec<DistributionRecord> = Vec::new();
        let n = self.distributions.len();
        let mut k: usize = 0;
        while k < n
            invariant
                n == self.distributions@.len(),
                0 <= k <= n,
                out@ == self.distributions@.take(k as int),
            decreases n - k,
        {
            out.push(self.distributions[k]);
            k = k + 1;
            assert(out@ =~= self.distributions@.take(k as int));
        }
        assert(self.distributions@.take(n as int) =~= self.distributions@);
        out
    }

    /// What each user's kept totals and the global totals amount to.
    proof fn lemma_user_total_bound(&self, u: Seq<char>)
        requires
            self.wf(),
        ensures
            forall|j: int| 0 <= j < self.stakes_of(u).len() ==> stake_wf(#[trigger] self.stakes_of(u)[j]),
            self.user_total(u) == active_sum(self.stakes_of(u)),
            self.user_claimed(u) == claimed_sum(self.stakes_of(u)),
            0 <= earned_sum(self.stakes_of(u)) <= active_sum(self.stakes_of(u)) <= self.total_staked_spec() <= i128::MAX,
            0 <= claimed_sum(self.stakes_of(u)) <= self.total_distributed_spec(),
    {
        self.lemma_pairs();
        if !self.has_account(u) {
            assert(self.stakes_of(u) =~= Seq::<StakeRecord>::empty());
        }
        lemma_stake_sums(self.stakes_of(u));
    }

    /// In a consistent state each user's principal total is the sum of the
    /// principal of the user's active stakes, its claimed total is the sum of
    /// the claimed bonuses, and neither exceeds the global total of its kind.
    pub proof fn law_user_totals(&self, u: Seq<char>)
        requires
            self.wf(),
        ensures
            self.user_total(u) == active_sum(self.stakes_of(u)),
            self.user_claimed(u) == claimed_sum(self.stakes_of(u)),
            0 <= self.user_total(u) <= self.total_staked_spec(),
            0 <= self.user_claimed(u) <= self.total_distributed_spec(),
    {
        self.lemma_user_total_bound(u);
    }

    /// A user without a record has no stakes and nothing staked or claimed.
    pub proof fn law_no_record_no_stakes(&self, u: Seq<char>)
        ensures
            !self.has_account(u) ==> {
                &&& self.stakes_of(u) == Seq::<StakeRecord>::empty()
                &&& self.user_total(u) == 0
                &&& self.user_claimed(u) == 0
            },
    {
    }

    /// In a consistent state every stake of every user is valid: its
    /// principal is positive and its bonus lies between zero and the
    /// principal.
    pub proof fn law_stakes_valid(&self, u: Seq<char>)
        requires
            self.wf(),
        ensures
            forall|i: int| 0 <= i < self.stakes_of(u).len() ==> stake_wf(#[trigger] self.stakes_of(u)[i]),
    {
        self.lemma_pairs();
    }

    /// A bonus is paid once, on the manager: right after a claim at `now`,
    /// whatever it answered, nothing is left to claim at `now`, so a second
    /// claim at `now` is refused.
    pub proof fn law_claim_once_on_manager(o: Self, n: Self, user: Seq<char>, now: u64, r: Result<i128, String>)
        requires
            o.wf(),
            Self::claim_bonuses_post(o, n, user, now, r),
        ensures
            pending_sum(n.stakes_of(user), now) == 0,
    {
        o.law_stakes_valid(user);
        law_claim_once(o.stakes_of(user), now);
        if !o.has_account(user) {
            assert(o.stakes_of(user) =~= Seq::<StakeRecord>::empty());
            assert(pending_sum(Seq::<StakeRecord>::empty(), now) == 0) by {
                reveal_with_fuel(seq_sum, 1);
            }
        }
    }

    /// Staking and then exiting early at once gives back the principal less
    /// a tenth, and leaves the user's principal total and every other user
    /// as before.
    pub proof fn law_stake_then_exit(
        o: Self,
        m: Self,
        n: Self,
        user: Seq<char>,
        amount: i128,
        duration_days: u32,
        now: u64,
        id: u32,
        r: Result<(i128, i128), String>,
    )
        requires
            Self::stake_pre(o, user, amount, duration_days, now),
            Self::stake_post(o, m, user, amount, duration_days, now, Ok(id)),
            Self::unstake_early_post(m, n, user, id, r),
        ensures
            r == Ok::<(i128, i128), String>(((amount - (amount * 10) / 100) as i128, ((amount * 10) / 100) as i128)),
            n.user_total(user) == o.user_total(user),
            n.total_staked_spec() == o.total_staked_spec(),
            n.stakes_of(user).len() == o.stakes_of(user).len() + 1,
            !n.stakes_of(user)[id as int].is_active,
    {
        assert(amount > 0 && tier_secs(duration_days) is Some);
        assert(id as int == o.stakes_of(user).len());
        assert(m.stakes_of(user)[id as int] == new_stake(amount, duration_days, now));
    }

    /// Bonus of `bps` basis points on `amount`, rounded down.
    pub fn calculate_bonus(amount: i128, bonus_bps: u32) -> (b: i128)
        requires
            amount >= 0,
            amount * bonus_bps <= i128::MAX,
        ensures
            b == bonus_of(amount as int, bonus_bps as int),
    {
        (amount * (bonus_bps as i128)) / 10000
    }

    /// The bonus rate of a lock length in seconds; zero for other lengths.
    pub fn get_bonus_tier(duration_secs: u64) -> (b: u32)
        ensures
            b == bps_for_secs(duration_secs),
    {
        if duration_secs == TIER_30_DAYS_SECS {
            TIER_30_DAYS_BONUS_BPS
        } else if duration_secs == TIER_60_DAYS_SECS {
            TIER_60_DAYS_BONUS_BPS
        } else if duration_secs == TIER_90_DAYS_SECS {
            TIER_90_DAYS_BONUS_BPS
        } else if duration_secs == TIER_365_DAYS_SECS {
            TIER_365_DAYS_BONUS_BPS
        } else {
            0
        }
    }

    /// A rate in basis points as whole percent, rounded down.
    pub fn format_bonus_percentage(bonus_bps: u32) -> (p: u32)
        ensures
            p == bonus_bps / 100,
    {
        bonus_bps / 100
    }
}

/// Sums over valid stakes are non-negative, and bonuses never exceed principal.
pub proof fn lemma_stake_sums(s: Seq<StakeRecord>)
    requires
        forall|i: int| 0 <= i < s.len() ==> stake_wf(#[trigger] s[i]),
    ensures
        0 <= active_sum(s),
        0 <= claimed_sum(s),
        0 <= earned_sum(s) <= active_sum(s),
        forall|now: u64| 0 <= #[trigger] pending_sum(s, now) <= earned_sum(s),
{
    let fa = |r: StakeRecord| active_amount(r);
    let fe = |r: StakeRecord| earned_bonus(r);
    let fc = |r: StakeRecord| claimed_bonus(r);
    assert forall|j: int| 0 <= j < s.len() implies fa(#[trigger] s[j]) >= 0 && fe(s[j]) >= 0 && fc(s[j]) >= 0 && fe(s[j]) <= fa(s[j]) by {
        assert(stake_wf(s[j]));
    }
    lemma_sum_nonneg(s, fa);
    lemma_sum_nonneg(s, fe);
    lemma_sum_nonneg(s, fc);
    lemma_sum_le(s, fe, fa);
    assert forall|now: u64| 0 <= #[trigger] pending_sum(s, now) <= earned_sum(s) by {
        let fp = |r: StakeRecord| pending_bonus(r, now);
        assert forall|j: int| 0 <= j < s.len() implies fp(#[trigger] s[j]) >= 0 && fp(s[j]) <= fe(s[j]) by {
            assert(stake_wf(s[j]));
        }
        lemma_sum_nonneg(s, fp);
        lemma_sum_le(s, fp, fe);
    }
}

/// A bonus is paid once: right after claiming at `now`, nothing more can be
/// claimed at `now`.
pub proof fn law_claim_once(s: Seq<StakeRecord>, now: u64)
    requires
        forall|i: int| 0 <= i < s.len() ==> stake_wf(#[trigger] s[i]),
    ensures
        pending_sum(claim_all(s, now), now) == 0,
    decreases s.len(),
{
    if s.len() > 0 {
        let p = s.drop_last();
        assert forall|i: int| 0 <= i < p.len() implies stake_wf(#[trigger] p[i]) by {
            assert(p[i] == s[i]);
        }
        law_claim_once(p, now);
        assert(claim_all(s, now).drop_last() =~= claim_all(p, now));
        assert(stake_wf(s.last()));
    }
}

/// The totals after `claim_all`: principal unchanged, claimed bonuses grown
/// by what was claimable, every stake still valid.
pub proof fn lemma_claim_all(s: Seq<StakeRecord>, now: u64)
    requires
        forall|i: int| 0 <= i < s.len() ==> stake_wf(#[trigger] s[i]),
    ensures
        active_sum(claim_all(s, now)) == active_sum(s),
        claimed_sum(claim_all(s, now)) == claimed_sum(s) + pending_sum(s, now),
        forall|i: int| 0 <= i < s.len() ==> stake_wf(#[trigger] claim_all(s, now)[i]),
    decreases s.len(),
{
    if s.len() > 0 {
        let p = s.drop_last();
        assert forall|i: int| 0 <= i < p.len() implies stake_wf(#[trigger] p[i]) by {
            assert(p[i] == s[i]);
        }
        lemma_claim_all(p, now);
        assert(claim_all(s, now).drop_last() =~= claim_all(p, now));
        assert(claim_all(s, now).last() == after_claim(s.last(), now));
        assert(stake_wf(s.last()));
    }
}

/// An early exit pays back the principal less a tenth, and the exited stake
/// earns nothing more: at no later time is any bonus of it claimable, and it
/// no longer counts toward the user's principal or earned bonuses.
pub proof fn law_exit_forfeits_bonus(
    o: StakingBonusManager,
    n: StakingBonusManager,
    user: Seq<char>,
    stake_id: u32,
    r: Result<(i128, i128), String>,
)
    requires
        StakingBonusManager::unstake_early_post(o, n, user, stake_id, r),
        r is Ok,
    ensures
        stake_id < n.stakes_of(user).len(),
        r.unwrap().0 + r.unwrap().1 == o.stakes_of(user)[stake_id as int].amount,
        r.unwrap().1 == o.stakes_of(user)[stake_id as int].amount * 10 / 100,
        forall|later: u64| pending_bonus(#[trigger] n.stakes_of(user)[stake_id as int], later) == 0,
        earned_bonus(n.stakes_of(user)[stake_id as int]) == 0,
        active_amount(n.stakes_of(user)[stake_id as int]) == 0,
{
}

} // verus!
