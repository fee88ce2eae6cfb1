//! Loans backed by NFTs: a borrower offers an NFT as collateral for a loan
//! request, a lender funds it, and the loan ends either repaid by the
//! borrower or liquidated, the NFT passing to the lender, once it is overdue
//! past a grace period.

use vstd::prelude::*;
use crate::keyed::KeyedMap;

verus! {

/// Shortest loan: one day.
pub const MIN_LOAN_DURATION: u64 = 86400;

/// Longest loan: 365 days.
pub const MAX_LOAN_DURATION: u64 = 31536000;

/// Highest daily interest rate: 1% (100 basis points).
pub const MAX_INTEREST_RATE_BPS: u32 = 100;

/// Time after the due date before a loan can be liquidated.
pub const LIQUIDATION_GRACE_PERIOD: u64 = 86400;

/// Seconds per day, the unit of interest.
pub const SECONDS_PER_DAY: u64 = 86400;

/// Why an NFT marketplace request was refused.
#[derive(Clone, Copy, Debug, PartialEq, Eq, Structural)]
pub enum NFTError {
    MarketplacePaused,
    UserFrozen,
    InvalidAmount,
    InvalidInterestRate,
    InvalidDuration,
    NFTNotFound,
    NotOwner,
    AlreadyCollateralized,
    UnsupportedOperation,
    LoanNotFound,
    LoanAlreadyRepaid,
    SelfDealing,
    Unauthorized,
    LoanNotActive,
    LoanLiquidated,
    InsufficientRepayment,
    LoanNotOverdue,
}

/// A loan, from request to repayment or liquidation.
pub struct NFTLoan {
    pub loan_id: u64,
    pub token_id: u64,
    pub collection_id: u64,
    pub borrower: String,
    /// The borrower until the loan is funded.
    pub lender: String,
    pub loan_amount: i128,
    /// Daily rate in basis points.
    pub interest_rate_bps: u32,
    /// The loan amount until funded, then amount plus interest.
    pub repayment_amount: i128,
    pub start_time: u64,
    pub duration: u64,
    pub due_date: u64,
    pub is_active: bool,
    pub is_repaid: bool,
    pub is_liquidated: bool,
}

impl NFTLoan {
    /// A field-by-field copy.
    pub fn copy_loan(&self) -> (r: Self)
        ensures
            r == *self,
    {
        NFTLoan {
            loan_id: self.loan_id,
            token_id: self.token_id,
            collection_id: self.collection_id,
            borrower: self.borrower.clone(),
            lender: self.lender.clone(),
            loan_amount: self.loan_amount,
            interest_rate_bps: self.interest_rate_bps,
            repayment_amount: self.repayment_amount,
            start_time: self.start_time,
            duration: self.duration,
            due_date: self.due_date,
            is_active: self.is_active,
            is_repaid: self.is_repaid,
            is_liquidated: self.is_liquidated,
        }
    }

    /// What the borrower owes: the repayment amount fixed when funded.
    pub fn total_due(&self, current_time: u64) -> (d: i128)
        ensures
            d == self.repayment_amount,
    {
        self.repayment_amount
    }

    /// Whether an active, unsettled loan is past its due date at `current_time`.
    pub fn is_overdue(&self, current_time: u64) -> (b: bool)
        ensures
            b == (self.is_active && !self.is_repaid && !self.is_liquidated && current_time > self.due_date),
    {
        self.is_active && !self.is_repaid && !self.is_liquidated && current_time > self.due_date
    }
}

/// What the lending logic reads of an NFT.
pub struct NFTHolding {
    pub owner: String,
    pub is_fractionalized: bool,
    /// Whether some active listing offers it for sale.
    pub has_active_listing: bool,
}

/// Loan counters of a user.
#[derive(Clone, Copy, Debug, PartialEq, Eq, Structural)]
pub struct LoanCounts {
    pub active_loans: u32,
    pub loans_given: u32,
}

/// Interest over a loan's whole term: the daily interest times whole days.
pub open spec fn total_interest(amount: int, rate_bps: int, duration: int) -> int {
    ((amount * rate_bps) / 10000) * (duration / (SECONDS_PER_DAY as int))
}

/// Loans, the NFTs that can back them, and the loan counters of users.
pub struct LendingDesk {
    pub paused: bool,
    pub frozen: Vec<String>,
    pub nfts: KeyedMap<(u64, u64), NFTHolding>,
    pub loans: KeyedMap<u64, NFTLoan>,
    /// The loan each collateralized NFT backs.
    pub collateral: KeyedMap<(u64, u64), u64>,
    pub next_loan_id: u64,
    /// Loans funded and not yet settled.
    pub active_count: u64,
    pub counts: KeyedMap<String, LoanCounts>,
}

/// Whether `s` holds a string with view `a`.
pub open spec fn listed(s: Seq<String>, a: Seq<char>) -> bool {
    exists|i: int| 0 <= i < s.len() && (#[trigger] s[i])@ == a
}

/// `a + 1`, capped at `u32::MAX`.
pub open spec fn inc_sat(a: u32) -> u32 {
    if a == u32::MAX { a } else { (a + 1) as u32 }
}

/// `a - 1`, floored at zero.
pub open spec fn dec_sat(a: u32) -> u32 {
    if a == 0 { a } else { (a - 1) as u32 }
}

impl LendingDesk {
    /// The loan `id`, if any.
    pub open spec fn loan(&self, id: u64) -> Option<NFTLoan> {
        if self.loans.map().contains_key(id) { Some(self.loans.map()[id]) } else { None }
    }

    /// The NFT `(collection, token)`, if any.
    pub open spec fn nft(&self, c: u64, t: u64) -> Option<NFTHolding> {
        if self.nfts.map().contains_key((c, t)) { Some(self.nfts.map()[(c, t)]) } else { None }
    }

    /// The loan that NFT `(collection, token)` backs, if any.
    pub open spec fn backing(&self, c: u64, t: u64) -> Option<u64> {
        if self.collateral.map().contains_key((c, t)) { Some(self.collateral.map()[(c, t)]) } else { None }
    }

    /// Loan counters of `u` (zero if never touched).
    pub open spec fn counts_of(&self, u: Seq<char>) -> LoanCounts {
        if self.counts.map().contains_key(u) { self.counts.map()[u] } else { LoanCounts { active_loans: 0, loans_given: 0 } }
    }

    /// Maps are well formed.
    pub open spec fn wf(&self) -> bool {
        &&& self.nfts.wf()
        &&& self.loans.wf()
        &&& self.collateral.wf()
        &&& self.counts.wf()
        &&& forall|id: u64| #[trigger] self.loans.map().contains_key(id) ==> self.loans.map()[id].loan_amount > 0
    }

    /// No NFTs, no loans; the first loan gets number one.
    pub fn new() -> (d: Self)
        ensures
            d.wf(),
            !d.paused,
            d.frozen@ == Seq::<String>::empty(),
            forall|c: u64, t: u64| #[trigger] d.nft(c, t) is None,
            forall|id: u64| #[trigger] d.loan(id) is None,
            forall|c: u64, t: u64| #[trigger] d.backing(c, t) is None,
            d.next_loan_id == 1,
            d.active_count == 0,
    {
        let d = LendingDesk {
            paused: false,
            frozen: Vec::new(),
            nfts: KeyedMap::new(),
            loans: KeyedMap::new(),
            collateral: KeyedMap::new(),
            next_loan_id: 1,
            active_count: 0,
            counts: KeyedMap::new(),
        };
        assert(d.frozen@ =~= Seq::<String>::empty());
        d
    }

    /// Whether `user` is frozen.
    pub fn is_frozen(&self, user: &str) -> (b: bool)
        ensures
            b == listed(self.frozen@, user@),
    {
        let u = user.to_owned();
        let n = self.frozen.len();
        let mut i: usize = 0;
        while i < n
            invariant
                n == self.frozen@.len(),
                0 <= i <= n,
                u@ == user@,
                forall|j: int| 0 <= j < i ==> (#[trigger] self.frozen@[j])@ != u@,
            decreases n - i,
        {
            if self.frozen[i] == u {
                assert(self.frozen@[i as int]@ == user@);
                return true;
            }
            i = i + 1;
        }
        false
    }

    fn read_counts(&self, user: &String) -> (c: LoanCounts)
        requires
            self.wf(),
        ensures
            c == self.counts_of(user@),
    {
        match self.counts.get(user) {
            Some(c) => *c,
            None => LoanCounts { active_loans: 0, loans_given: 0 },
        }
    }

    fn write_counts(&mut self, user: &String, c: LoanCounts)
        requires
            old(self).wf(),
        ensures
            final(self).wf(),
            final(self).counts_of(user@) == c,
            forall|v: Seq<char>| v != user@ ==> #[trigger] final(self).counts_of(v) == old(self).counts_of(v),
            final(self).loans == old(self).loans,
            final(self).nfts == old(self).nfts,
            final(self).collateral == old(self).collateral,
            final(self).paused == old(self).paused,
            final(self).frozen == old(self).frozen,
            final(self).next_loan_id == old(self).next_loan_id,
            final(self).active_count == old(self).active_count,
    {
        self.counts.insert(user.clone(), c);
    }

    /// The error `request_loan` answers with, if any.
    pub open spec fn request_error(&self, borrower: Seq<char>, c: u64, t: u64, amount: i128, rate: u32, duration: u64) -> Option<NFTError> {
        if self.paused {
            Some(NFTError::MarketplacePaused)
        } else if listed(self.frozen@, borrower) {
            Some(NFTError::UserFrozen)
        } else if amount <= 0 {
            Some(NFTError::InvalidAmount)
        } else if rate == 0 || rate > MAX_INTEREST_RATE_BPS {
            Some(NFTError::InvalidInterestRate)
        } else if duration < MIN_LOAN_DURATION || duration > MAX_LOAN_DURATION {
            Some(NFTError::InvalidDuration)
        } else if self.nft(c, t) is None {
            Some(NFTError::NFTNotFound)
        } else if self.nft(c, t).unwrap().owner@ != borrower {
            Some(NFTError::NotOwner)
        } else if self.backing(c, t) is Some {
            Some(NFTError::AlreadyCollateralized)
        } else if self.nft(c, t).unwrap().is_fractionalized || self.nft(c, t).unwrap().has_active_listing {
            Some(NFTError::UnsupportedOperation)
        } else {
            None
        }
    }

    /// Requests a loan of `loan_amount` at `interest_rate_bps` per day for
    /// `duration` seconds against NFT `(collection_id, token_id)`; returns the
    /// loan's number.
    pub fn request_loan(&mut self, borrower: &str, collection_id: u64, token_id: u64, loan_amount: i128,
        interest_rate_bps: u32, duration: u64) -> (r: Result<u64, NFTError>)
        requires
            old(self).wf(),
            old(self).next_loan_id < u64::MAX,
        ensures
            final(self).wf(),
            match old(self).request_error(borrower@, collection_id, token_id, loan_amount, interest_rate_bps, duration) {
                Some(e) => r == Err::<u64, NFTError>(e) && *final(self) == *old(self),
                None => {
                    let id = old(self).next_loan_id;
                    &&& r == Ok::<u64, NFTError>(id)
                    &&& final(self).loan(id) matches Some(l) && l.loan_id == id && l.collection_id == collection_id
                        && l.token_id == token_id && l.borrower@ == borrower@ && l.lender@ == borrower@
                        && l.loan_amount == loan_amount && l.interest_rate_bps == interest_rate_bps
                        && l.repayment_amount == loan_amount && l.start_time == 0 && l.duration == duration
                        && l.due_date == 0 && !l.is_active && !l.is_repaid && !l.is_liquidated
                    &&& forall|j: u64| j != id ==> #[trigger] final(self).loan(j) == old(self).loan(j)
                    &&& final(self).backing(collection_id, token_id) == Some(id)
                    &&& forall|a: u64, b: u64| (a, b) != (collection_id, token_id) ==> #[trigger] final(self).backing(a, b) == old(self).backing(a, b)
                    &&& final(self).next_loan_id == id + 1
                    &&& final(self).nfts == old(self).nfts
                    &&& final(self).counts == old(self).counts
                    &&& final(self).active_count == old(self).active_count
                    &&& final(self).paused == old(self).paused
                    &&& final(self).frozen == old(self).frozen
                },
            },
    {
        if self.paused {
            return Err(NFTError::MarketplacePaused);
        }
        if self.is_frozen(borrower) {
            return Err(NFTError::UserFrozen);
        }
        if loan_amount <= 0 {
            return Err(NFTError::InvalidAmount);
        }
        if interest_rate_bps == 0 || interest_rate_bps > MAX_INTEREST_RATE_BPS {
            return Err(NFTError::InvalidInterestRate);
        }
        if duration < MIN_LOAN_DURATION || duration > MAX_LOAN_DURATION {
            return Err(NFTError::InvalidDuration);
        }
        let key = (collection_id, token_id);
        let nft = match self.nfts.get(&key) {
            Some(n) => n,
            None => {
                return Err(NFTError::NFTNotFound);
            },
        };
        let who = borrower.to_owned();
        if !(nft.owner == who) {
            return Err(NFTError::NotOwner);
        }
        if self.collateral.get(&key).is_some() {
            return Err(NFTError::AlreadyCollateralized);
        }
        if nft.is_fractionalized {
            return Err(NFTError::UnsupportedOperation);
        }
        if nft.has_active_listing {
            return Err(NFTError::UnsupportedOperation);
        }
        let loan_id = self.next_loan_id;
        self.next_loan_id = loan_id + 1;
        let loan = NFTLoan {
            loan_id,
            token_id,
            collection_id,
            borrower: who.clone(),
            lender: who,
            loan_amount,
            interest_rate_bps,
            repayment_amount: loan_amount,
            start_time: 0,
            duration,
            due_date: 0,
            is_active: false,
            is_repaid: false,
            is_liquidated: false,
        };
        self.loans.insert(loan_id, loan);
        self.collateral.insert(key, loan_id);
        Ok(loan_id)
    }

    /// The error `fund_loan` answers with, if any.
    pub open spec fn fund_error(&self, lender: Seq<char>, id: u64) -> Option<NFTError> {
        if self.paused {
            Some(NFTError::MarketplacePaused)
        } else if listed(self.frozen@, lender) {
            Some(NFTError::UserFrozen)
        } else if self.loan(id) is None {
            Some(NFTError::LoanNotFound)
        } else if self.loan(id).unwrap().is_active {
            Some(NFTError::LoanAlreadyRepaid)
        } else if self.loan(id).unwrap().borrower@ == lender {
            Some(NFTError::SelfDealing)
        } else {
            None
        }
    }

    /// `lender` funds loan `loan_id` at `now`: interest for the whole term is
    /// fixed and the loan becomes active.
    pub fn fund_loan(&mut self, lender: &str, loan_id: u64, now: u64) -> (r: Result<(), NFTError>)
        requires
            old(self).wf(),
            old(self).fund_error(lender@, loan_id) is None ==> {
                let l = old(self).loan(loan_id).unwrap();
                &&& i128::MIN <= l.loan_amount * l.interest_rate_bps <= i128::MAX
                &&& i128::MIN <= (l.loan_amount * l.interest_rate_bps) / 10000 * ((l.duration / SECONDS_PER_DAY) as int) <= i128::MAX
                &&& i128::MIN <= l.loan_amount + total_interest(l.loan_amount as int, l.interest_rate_bps as int, l.duration as int) <= i128::MAX
                &&& now + l.duration <= u64::MAX
                &&& old(self).active_count < u64::MAX
            },
        ensures
            final(self).wf(),
            match old(self).fund_error(lender@, loan_id) {
                Some(e) => r == Err::<(), NFTError>(e) && *final(self) == *old(self),
                None => {
                    let l = old(self).loan(loan_id).unwrap();
                    &&& r is Ok
                    &&& final(self).loan(loan_id) matches Some(n)
                        && n.lender@ == lender@ && n.start_time == now && n.due_date == now + l.duration && n.is_active
                        && n.repayment_amount == l.loan_amount + total_interest(l.loan_amount as int, l.interest_rate_bps as int, l.duration as int)
                        && n.loan_id == l.loan_id && n.token_id == l.token_id && n.collection_id == l.collection_id
                        && n.borrower == l.borrower && n.loan_amount == l.loan_amount && n.interest_rate_bps == l.interest_rate_bps
                        && n.duration == l.duration && n.is_repaid == l.is_repaid && n.is_liquidated == l.is_liquidated
                    &&& forall|j: u64| j != loan_id ==> #[trigger] final(self).loan(j) == old(self).loan(j)
                    &&& final(self).counts_of(l.borrower@).active_loans == inc_sat(old(self).counts_of(l.borrower@).active_loans)
                    &&& final(self).counts_of(l.borrower@).loans_given == old(self).counts_of(l.borrower@).loans_given
                    &&& final(self).counts_of(lender@).loans_given == inc_sat(old(self).counts_of(lender@).loans_given)
                    &&& final(self).counts_of(lender@).active_loans == old(self).counts_of(lender@).active_loans
                    &&& forall|v: Seq<char>| v != l.borrower@ && v != lender@ ==> #[trigger] final(self).counts_of(v) == old(self).counts_of(v)
                    &&& final(self).active_count == old(self).active_count + 1
                    &&& final(self).collateral == old(self).collateral
                    &&& final(self).nfts == old(self).nfts
                    &&& final(self).next_loan_id == old(self).next_loan_id
                    &&& final(self).paused == old(self).paused
                    &&& final(self).frozen == old(self).frozen
                },
            },
    {
        if self.paused {
            return Err(NFTError::MarketplacePaused);
        }
        if self.is_frozen(lender) {
            return Err(NFTError::UserFrozen);
        }
        let i = match self.loans.find(&loan_id) {
            Some(i) => i,
            None => {
                return Err(NFTError::LoanNotFound);
            },
        };
        let ghost o = *self;
        let mut loan = self.loans.at(i).1.copy_loan();
        if loan.is_active {
            return Err(NFTError::LoanAlreadyRepaid);
        }
        let who = lender.to_owned();
        if loan.borrower == who {
            return Err(NFTError::SelfDealing);
        }
        let daily_interest = (loan.loan_amount * loan.interest_rate_bps as i128) / 10000;
        let total = daily_interest * ((loan.duration / SECONDS_PER_DAY) as i128);
        loan.repayment_amount = loan.loan_amount + total;
        loan.lender = who.clone();
        loan.start_time = now;
        loan.due_date = now + loan.duration;
        loan.is_active = true;
        let borrower = loan.borrower.clone();
        self.loans.replace_at(i, loan);
        self.active_count = self.active_count + 1;
        let bc = self.read_counts(&borrower);
        let bc2 = LoanCounts { active_loans: bc.active_loans.saturating_add(1), loans_given: bc.loans_given };
        self.write_counts(&borrower, bc2);
        let lc = self.read_counts(&who);
        let lc2 = LoanCounts { active_loans: lc.active_loans, loans_given: lc.loans_given.saturating_add(1) };
        self.write_counts(&who, lc2);
        Ok(())
    }

    /// Marks the loan at position `i` settled: `repaid` or liquidated; frees
    /// its collateral and updates the counters of both parties.
    fn settle(&mut self, i: usize, repaid: bool) -> (l: NFTLoan)
        requires
            old(self).wf(),
            i < old(self).loans.size(),
        ensures
            final(self).wf(),
            old(self).loans.size() == old(self).loans.pairs().len(),
            l == old(self).loans.pairs()[i as int].1,
            final(self).loans.map() == old(self).loans.map().insert(old(self).loans.pairs()[i as int].0@,
                if repaid { NFTLoan { is_repaid: true, ..l } } else { NFTLoan { is_liquidated: true, ..l } }),
            final(self).collateral.map() == old(self).collateral.map().remove((l.collection_id, l.token_id)),
            final(self).active_count == (if old(self).active_count == 0 { 0 } else { old(self).active_count - 1 }),
            final(self).counts_of(l.borrower@).active_loans == dec_sat(old(self).counts_of(l.borrower@).active_loans),
            final(self).counts_of(l.lender@).loans_given == dec_sat(old(self).counts_of(l.lender@).loans_given),
            l.borrower@ != l.lender@ ==> final(self).counts_of(l.borrower@).loans_given == old(self).counts_of(l.borrower@).loans_given,
            l.borrower@ != l.lender@ ==> final(self).counts_of(l.lender@).active_loans == old(self).counts_of(l.lender@).active_loans,
            forall|v: Seq<char>| v != l.borrower@ && v != l.lender@ ==> #[trigger] final(self).counts_of(v) == old(self).counts_of(v),
            final(self).nfts == old(self).nfts,
            final(self).next_loan_id == old(self).next_loan_id,
            final(self).paused == old(self).paused,
            final(self).frozen == old(self).frozen,
    {
        proof {
            self.loans.lemma_keys();
        }
        let loan = self.loans.at(i).1.copy_loan();
        let mut settled = loan.copy_loan();
        if repaid {
            settled.is_repaid = true;
        } else {
            settled.is_liquidated = true;
        }
        self.loans.replace_at(i, settled);
        let key = (loan.collection_id, loan.token_id);
        self.collateral.remove(&key);
        if self.active_count > 0 {
            self.active_count = self.active_count - 1;
        }
        let bc = self.read_counts(&loan.borrower);
        self.write_counts(&loan.borrower, LoanCounts { active_loans: if bc.active_loans > 0 { bc.active_loans - 1 } else { 0 }, loans_given: bc.loans_given });
        let lc = self.read_counts(&loan.lender);
        self.write_counts(&loan.lender, LoanCounts { active_loans: lc.active_loans, loans_given: if lc.loans_given > 0 { lc.loans_given - 1 } else { 0 } });
        loan
    }

    /// The error `repay_loan` answers with, if any.
    pub open spec fn repay_error(&self, borrower: Seq<char>, id: u64, amount: i128) -> Option<NFTError> {
        if self.paused {
            Some(NFTError::MarketplacePaused)
        } else if self.loan(id) is None {
            Some(NFTError::LoanNotFound)
        } else if self.loan(id).unwrap().borrower@ != borrower {
            Some(NFTError::Unauthorized)
        } else if !self.loan(id).unwrap().is_active {
            Some(NFTError::LoanNotActive)
        } else if self.loan(id).unwrap().is_repaid {
            Some(NFTError::LoanAlreadyRepaid)
        } else if self.loan(id).unwrap().is_liquidated {
            Some(NFTError::LoanLiquidated)
        } else if amount < self.loan(id).unwrap().repayment_amount {
            Some(NFTError::InsufficientRepayment)
        } else {
            None
        }
    }

    /// `borrower` repays loan `loan_id` with `repayment_amount` at `now`.
    pub fn repay_loan(&mut self, borrower: &str, loan_id: u64, repayment_amount: i128, now: u64) -> (r: Result<(), NFTError>)
        requires
            old(self).wf(),
        ensures
            final(self).wf(),
            match old(self).repay_error(borrower@, loan_id, repayment_amount) {
                Some(e) => r == Err::<(), NFTError>(e) && *final(self) == *old(self),
                None => {
                    let l = old(self).loan(loan_id).unwrap();
                    &&& r is Ok
                    &&& final(self).loan(loan_id) == Some(NFTLoan { is_repaid: true, ..l })
                    &&& forall|j: u64| j != loan_id ==> #[trigger] final(self).loan(j) == old(self).loan(j)
                    &&& final(self).backing(l.collection_id, l.token_id) is None
                    &&& forall|a: u64, b: u64| (a, b) != (l.collection_id, l.token_id) ==> #[trigger] final(self).backing(a, b) == old(self).backing(a, b)
                    &&& final(self).active_count == (if old(self).active_count == 0 { 0 } else { old(self).active_count - 1 })
                    &&& final(self).counts_of(l.borrower@).active_loans == dec_sat(old(self).counts_of(l.borrower@).active_loans)
                    &&& final(self).counts_of(l.lender@).loans_given == dec_sat(old(self).counts_of(l.lender@).loans_given)
                    &&& final(self).nfts == old(self).nfts
                },
            },
    {
        if self.paused {
            return Err(NFTError::MarketplacePaused);
        }
        let i = match self.loans.find(&loan_id) {
            Some(i) => i,
            None => {
                return Err(NFTError::LoanNotFound);
            },
        };
        proof {
            self.loans.lemma_keys();
        }
        let loan = self.loans.at(i).1;
        if !(loan.borrower == borrower.to_owned()) {
            return Err(NFTError::Unauthorized);
        }
        if !loan.is_active {
            return Err(NFTError::LoanNotActive);
        }
        if loan.is_repaid {
            return Err(NFTError::LoanAlreadyRepaid);
        }
        if loan.is_liquidated {
            return Err(NFTError::LoanLiquidated);
        }
        let amount_due = loan.total_due(now);
        if repayment_amount < amount_due {
            return Err(NFTError::InsufficientRepayment);
        }
        self.settle(i, true);
        Ok(())
    }

    /// The error `liquidate_loan` answers with, if any.
    pub open spec fn liquidate_error(&self, id: u64, now: u64) -> Option<NFTError> {
        if self.loan(id) is None {
            Some(NFTError::LoanNotFound)
        } else if !self.loan(id).unwrap().is_active {
            Some(NFTError::LoanNotActive)
        } else if self.loan(id).unwrap().is_repaid {
            Some(NFTError::LoanAlreadyRepaid)
        } else if self.loan(id).unwrap().is_liquidated {
            Some(NFTError::LoanLiquidated)
        } else if now <= self.loan(id).unwrap().due_date + LIQUIDATION_GRACE_PERIOD {
            Some(NFTError::LoanNotOverdue)
        } else if self.nft(self.loan(id).unwrap().collection_id, self.loan(id).unwrap().token_id) is None {
            Some(NFTError::NFTNotFound)
        } else {
            None
        }
    }

    /// Liquidates loan `loan_id` at `now`, once it is past its due date and
    /// the grace period: the collateral passes to the lender.
    pub fn liquidate_loan(&mut self, loan_id: u64, now: u64) -> (r: Result<(), NFTError>)
        requires
            old(self).wf(),
            old(self).loan(loan_id) matches Some(l) ==> l.due_date + LIQUIDATION_GRACE_PERIOD <= u64::MAX,
        ensures
            final(self).wf(),
            match old(self).liquidate_error(loan_id, now) {
                Some(e) => r == Err::<(), NFTError>(e) && *final(self) == *old(self),
                None => {
                    let l = old(self).loan(loan_id).unwrap();
                    &&& r is Ok
                    &&& final(self).loan(loan_id) == Some(NFTLoan { is_liquidated: true, ..l })
                    &&& forall|j: u64| j != loan_id ==> #[trigger] final(self).loan(j) == old(self).loan(j)
                    &&& final(self).nft(l.collection_id, l.token_id) matches Some(n)
                        && n.owner@ == l.lender@
                        && n.is_fractionalized == old(self).nft(l.collection_id, l.token_id).unwrap().is_fractionalized
                        && n.has_active_listing == old(self).nft(l.collection_id, l.token_id).unwrap().has_active_listing
                    &&& forall|a: u64, b: u64| (a, b) != (l.collection_id, l.token_id) ==> #[trigger] final(self).nft(a, b) == old(self).nft(a, b)
                    &&& final(self).backing(l.collection_id, l.token_id) is None
                    &&& forall|a: u64, b: u64| (a, b) != (l.collection_id, l.token_id) ==> #[trigger] final(self).backing(a, b) == old(self).backing(a, b)
                    &&& final(self).active_count == (if old(self).active_count == 0 { 0 } else { old(self).active_count - 1 })
                    &&& final(self).counts_of(l.borrower@).active_loans == dec_sat(old(self).counts_of(l.borrower@).active_loans)
                    &&& final(self).counts_of(l.lender@).loans_given == dec_sat(old(self).counts_of(l.lender@).loans_given)
                },
            },
    {
        let i = match self.loans.find(&loan_id) {
            Some(i) => i,
            None => {
                return Err(NFTError::LoanNotFound);
            },
        };
        proof {
            self.loans.lemma_keys();
        }
        let loan = self.loans.at(i).1;
        if !loan.is_active {
            return Err(NFTError::LoanNotActive);
        }
        if loan.is_repaid {
            return Err(NFTError::LoanAlreadyRepaid);
        }
        if loan.is_liquidated {
            return Err(NFTError::LoanLiquidated);
        }
        if now <= loan.due_date + LIQUIDATION_GRACE_PERIOD {
            return Err(NFTError::LoanNotOverdue);
        }
        let key = (loan.collection_id, loan.token_id);
        let j = match self.nfts.find(&key) {
            Some(j) => j,
            None => {
                return Err(NFTError::NFTNotFound);
            },
        };
        proof {
            self.nfts.lemma_keys();
        }
        let new_owner = loan.lender.clone();
        let holding = self.nfts.at(j).1;
        let moved = NFTHolding {
            owner: new_owner,
            is_fractionalized: holding.is_fractionalized,
            has_active_listing: holding.has_active_listing,
        };
        self.nfts.replace_at(j, moved);
        self.settle(i, false);
        Ok(())
    }

    /// The error `cancel_loan_request` answers with, if any.
    pub open spec fn cancel_error(&self, borrower: Seq<char>, id: u64) -> Option<NFTError> {
        if self.loan(id) is None {
            Some(NFTError::LoanNotFound)
        } else if self.loan(id).unwrap().borrower@ != borrower {
            Some(NFTError::Unauthorized)
        } else if self.loan(id).unwrap().is_active {
            Some(NFTError::LoanAlreadyRepaid)
        } else {
            None
        }
    }

    /// `borrower` withdraws an unfunded request; the request stays recorded.
    pub fn cancel_loan_request(&self, borrower: &str, loan_id: u64) -> (r: Result<(), NFTError>)
        requires
            self.wf(),
        ensures
            match self.cancel_error(borrower@, loan_id) {
                Some(e) => r == Err::<(), NFTError>(e),
                None => r is Ok,
            },
    {
        let loan = match self.loans.get(&loan_id) {
            Some(l) => l,
            None => {
                return Err(NFTError::LoanNotFound);
            },
        };
        if !(loan.borrower == borrower.to_owned()) {
            return Err(NFTError::Unauthorized);
        }
        if loan.is_active {
            return Err(NFTError::LoanAlreadyRepaid);
        }
        Ok(())
    }

    /// Loan `loan_id`, if any.
    pub fn get_loan(&self, loan_id: u64) -> (r: Option<NFTLoan>)
        requires
            self.wf(),
        ensures
            r == self.loan(loan_id),
    {
        match self.loans.get(&loan_id) {
            Some(l) => Some(l.copy_loan()),
            None => None,
        }
    }

    /// The loan NFT `(collection_id, token_id)` backs, if any.
    pub fn get_loan_by_collateral(&self, collection_id: u64, token_id: u64) -> (r: Option<u64>)
        requires
            self.wf(),
        ensures
            r == self.backing(collection_id, token_id),
    {
        match self.collateral.get(&(collection_id, token_id)) {
            Some(id) => Some(*id),
            None => None,
        }
    }

    /// Number of funded loans not yet settled.
    pub fn get_total_active_loans(&self) -> (n: u64)
        ensures
            n == self.active_count,
    {
        self.active_count
    }

    /// Whether loan `loan_id` is overdue at `now` (false for an unknown loan).
    pub fn is_loan_overdue(&self, loan_id: u64, now: u64) -> (b: bool)
        requires
            self.wf(),
        ensures
            b == (self.loan(loan_id) matches Some(l) && l.is_active && !l.is_repaid && !l.is_liquidated && now > l.due_date),
    {
        match self.loans.get(&loan_id) {
            Some(l) => l.is_overdue(now),
            None => false,
        }
    }

    /// What loan `loan_id` asks to be repaid at `now` (zero for an unknown loan).
    pub fn calculate_repayment_amount(&self, loan_id: u64, now: u64) -> (a: i128)
        requires
            self.wf(),
        ensures
            a == (match self.loan(loan_id) {
                Some(l) => l.repayment_amount,
                None => 0,
            }),
    {
        match self.loans.get(&loan_id) {
            Some(l) => l.total_due(now),
            None => 0,
        }
    }

    /// Whether NFT `(collection_id, token_id)` exists, backs no loan and is
    /// not fractionalized.
    pub fn can_use_as_collateral(&self, collection_id: u64, token_id: u64) -> (b: bool)
        requires
            self.wf(),
        ensures
            b == (self.nft(collection_id, token_id) matches Some(n) && self.backing(collection_id, token_id) is None
                && !n.is_fractionalized),
    {
        let key = (collection_id, token_id);
        match self.nfts.get(&key) {
            Some(nft) => {
                if self.collateral.get(&key).is_some() {
                    return false;
                }
                if nft.is_fractionalized {
                    return false;
                }
                true
            },
            None => false,
        }
    }

    /// Whether the pair holds a loan of `u`, as borrower or, when
    /// `as_lender`, as the lender of a funded loan.
    pub open spec fn party_of(p: (u64, NFTLoan), u: Seq<char>, as_lender: bool) -> bool {
        if as_lender { p.1.is_active && p.1.lender@ == u } else { p.1.borrower@ == u }
    }

    fn loans_of(&self, user: &str, as_lender: bool) -> (v: Vec<u64>)
        ensures
            v@ == self.loans.pairs().filter(|p: (u64, NFTLoan)| Self::party_of(p, user@, as_lender)).map_values(|p: (u64, NFTLoan)| p.0),
    {
        let u = user.to_owned();
        let ghost ps = self.loans.pairs();
        let ghost keep = |p: (u64, NFTLoan)| Self::party_of(p, user@, as_lender);
        let ghost key = |p: (u64, NFTLoan)| p.0;
        let n = self.loans.len();
        let mut out: Vec<u64> = Vec::new();
        let mut i: usize = 0;
        while i < n
            invariant
                n == ps.len(),
                n == self.loans.size(),
                ps == self.loans.pairs(),
                u@ == user@,
                0 <= i <= n,
                keep == (|p: (u64, NFTLoan)| Self::party_of(p, user@, as_lender)),
                key == (|p: (u64, NFTLoan)| p.0),
                out@ == ps.take(i as int).filter(keep).map_values(key),
            decreases n - i,
        {
            let (id, loan) = self.loans.at(i);
            let hit = if as_lender { loan.is_active && loan.lender == u } else { loan.borrower == u };
            if hit {
                out.push(*id);
            }
            proof {
                reveal(Seq::filter);
                let t = ps.take(i + 1);
                assert(t.drop_last() =~= ps.take(i as int));
                assert(t.last() == ps[i as int]);
                assert(t.filter(keep) == (if keep(t.last()) { t.drop_last().filter(keep).push(t.last()) } else { t.drop_last().filter(keep) }));
                if keep(t.last()) {
                    assert(t.filter(keep).map_values(key) =~= t.drop_last().filter(keep).map_values(key).push(key(t.last())));
                }
            }
            i = i + 1;
        }
        assert(ps.take(n as int) =~= ps);
        out
    }

    /// Numbers of the loans `borrower` requested, in the order stored.
    pub fn get_borrower_loans(&self, borrower: &str) -> (v: Vec<u64>)
        ensures
            v@ == self.loans.pairs().filter(|p: (u64, NFTLoan)| Self::party_of(p, borrower@, false)).map_values(|p: (u64, NFTLoan)| p.0),
    {
        self.loans_of(borrower, false)
    }

    /// Numbers of the funded loans `lender` gave, in the order stored.
    pub fn get_lender_loans(&self, lender: &str) -> (v: Vec<u64>)
        ensures
            v@ == self.loans.pairs().filter(|p: (u64, NFTLoan)| Self::party_of(p, lender@, true)).map_values(|p: (u64, NFTLoan)| p.0),
    {
        self.loans_of(lender, true)
    }
}

/// A loan is settled once: after it was repaid or liquidated, both repaying
/// and liquidating it are refused.
pub proof fn law_settled_once(d: LendingDesk, id: u64, borrower: Seq<char>, amount: i128, now: u64)
    requires
        d.loan(id) matches Some(l) && (l.is_repaid || l.is_liquidated),
    ensures
        d.repay_error(borrower, id, amount) is Some,
        d.liquidate_error(id, now) is Some,
{
}

/// An NFT that backs a loan cannot back another: a new request on it is
/// refused.
pub proof fn law_one_loan_per_nft(d: LendingDesk, borrower: Seq<char>, c: u64, t: u64, amount: i128, rate: u32, duration: u64)
    requires
        d.backing(c, t) is Some,
    ensures
        d.request_error(borrower, c, t, amount, rate, duration) is Some,
{
}

} // verus!
