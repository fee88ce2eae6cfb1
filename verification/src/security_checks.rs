//! Input validation and per-caller rate limiting applied before
//! state-mutating operations.

use vstd::prelude::*;

verus! {

/// Largest amount accepted for a single trade.
pub const MAX_TRADE_AMOUNT: u128 = 1_000_000_000_000;

/// Smallest accepted fee, in basis points.
pub const MIN_FEE_BPS: u16 = 1;

/// Largest accepted fee, in basis points.
pub const MAX_FEE_BPS: u16 = 10_000;

/// Largest accepted slippage tolerance, in basis points.
pub const MAX_SLIPPAGE_BPS: u16 = 5_000;

/// Reasons for which a security check refuses an input.
#[derive(Debug, PartialEq, Eq, Structural, Clone, Copy)]
pub enum SecurityError {
    AmountExceedsLimit,
    InvalidFee,
    SlippageTooHigh,
    ZeroAmount,
    UnauthorizedCaller,
    RateLimitExceeded,
}

/// The human-readable text of each error.
pub open spec fn security_error_text(e: SecurityError) -> Seq<char> {
    match e {
        SecurityError::AmountExceedsLimit => "amount exceeds protocol limit"@,
        SecurityError::InvalidFee => "fee bps out of valid range"@,
        SecurityError::SlippageTooHigh => "slippage tolerance too high"@,
        SecurityError::ZeroAmount => "amount must be non-zero"@,
        SecurityError::UnauthorizedCaller => "caller is not authorized"@,
        SecurityError::RateLimitExceeded => "rate limit exceeded"@,
    }
}

impl SecurityError {
    /// The message that describes this error.
    pub fn message(&self) -> (s: String)
        ensures
            s@ == security_error_text(*self),
    {
        match self {
            SecurityError::AmountExceedsLimit => String::from_str("amount exceeds protocol limit"),
            SecurityError::InvalidFee => String::from_str("fee bps out of valid range"),
            SecurityError::SlippageTooHigh => String::from_str("slippage tolerance too high"),
            SecurityError::ZeroAmount => String::from_str("amount must be non-zero"),
            SecurityError::UnauthorizedCaller => String::from_str("caller is not authorized"),
            SecurityError::RateLimitExceeded => String::from_str("rate limit exceeded"),
        }
    }
}

/// Accepts a trade amount that is non-zero and at most `MAX_TRADE_AMOUNT`.
pub fn validate_trade_amount(amount: u128) -> (r: Result<(), SecurityError>)
    ensures
        amount == 0 ==> r == Err::<(), SecurityError>(SecurityError::ZeroAmount),
        amount > MAX_TRADE_AMOUNT ==> r == Err::<(), SecurityError>(
            SecurityError::AmountExceedsLimit,
        ),
        0 < amount <= MAX_TRADE_AMOUNT ==> r is Ok,
{
    if amount == 0 {
        return Err(SecurityError::ZeroAmount);
    }
    if amount > MAX_TRADE_AMOUNT {
        return Err(SecurityError::AmountExceedsLimit);
    }
    Ok(())
}

/// Accepts a fee within `[MIN_FEE_BPS, MAX_FEE_BPS]`.
pub fn validate_fee(fee_bps: u16) -> (r: Result<(), SecurityError>)
    ensures
        (MIN_FEE_BPS <= fee_bps <= MAX_FEE_BPS) ==> r is Ok,
        !(MIN_FEE_BPS <= fee_bps <= MAX_FEE_BPS) ==> r == Err::<(), SecurityError>(
            SecurityError::InvalidFee,
        ),
{
    if fee_bps < MIN_FEE_BPS || fee_bps > MAX_FEE_BPS {
        return Err(SecurityError::InvalidFee);
    }
    Ok(())
}

/// Accepts a slippage tolerance of at most `MAX_SLIPPAGE_BPS`.
pub fn validate_slippage(slippage_bps: u16) -> (r: Result<(), SecurityError>)
    ensures
        slippage_bps <= MAX_SLIPPAGE_BPS ==> r is Ok,
        slippage_bps > MAX_SLIPPAGE_BPS ==> r == Err::<(), SecurityError>(
            SecurityError::SlippageTooHigh,
        ),
{
    if slippage_bps > MAX_SLIPPAGE_BPS {
        return Err(SecurityError::SlippageTooHigh);
    }
    Ok(())
}

/// Whether `caller` is one of the names in `allowed`.
pub open spec fn is_allowed(caller: Seq<char>, allowed: Seq<&str>) -> bool {
    exists|i: int| 0 <= i < allowed.len() && (#[trigger] allowed[i])@ == caller
}

/// Accepts a caller that appears in the allow-list.
pub fn assert_authorized(caller: &str, allowed: &[&str]) -> (r: Result<(), SecurityError>)
    ensures
        is_allowed(caller@, allowed@) ==> r is Ok,
        !is_allowed(caller@, allowed@) ==> r == Err::<(), SecurityError>(
            SecurityError::UnauthorizedCaller,
        ),
{
    let me: String = caller.to_owned();
    let n = allowed.len();
    let mut i: usize = 0;
    while i < n
        invariant
            n == allowed@.len(),
            0 <= i <= n,
            me@ == caller@,
            forall|j: int| 0 <= j < i ==> (#[trigger] allowed@[j])@ != caller@,
        decreases n - i,
    {
        let other: String = allowed[i].to_owned();
        if other == me {
            return Ok(());
        }
        i = i + 1;
    }
    Err(SecurityError::UnauthorizedCaller)
}

/// The call times recorded for one caller.
pub struct CallHistory {
    pub caller: String,
    pub times: Vec<u64>,
}

/// Sliding-window limiter: at most `max_calls` calls per caller within the
/// last `window_secs` seconds.
pub struct RateLimiter {
    calls: Vec<CallHistory>,
    window_secs: u64,
    max_calls: usize,
}

/// The first second of the window that ends at `now`.
pub open spec fn window_start(now: u64, window_secs: u64) -> u64 {
    if now >= window_secs {
        (now - window_secs) as u64
    } else {
        0
    }
}

/// The recorded times that fall inside a window starting at `start`.
pub open spec fn in_window(times: Seq<u64>, start: u64) -> Seq<u64> {
    times.filter(|t: u64| t >= start)
}

/// Filtering by a later window start after an earlier one is filtering by
/// the later one.
pub proof fn lemma_in_window_narrow(times: Seq<u64>, a: u64, b: u64)
    requires
        a <= b,
    ensures
        in_window(in_window(times, a), b) == in_window(times, b),
    decreases times.len(),
{
    reveal(Seq::filter);
    if times.len() > 0 {
        lemma_in_window_narrow(times.drop_last(), a, b);
        let t = times.last();
        if t >= a {
            assert(in_window(times, a).drop_last() =~= in_window(times.drop_last(), a));
            assert(in_window(times, a).last() == t);
        }
    }
}

/// A time appended to a record is kept by a window exactly when it is not
/// before the window's start.
pub proof fn lemma_in_window_push(times: Seq<u64>, t: u64, start: u64)
    ensures
        in_window(times.push(t), start) == (if t >= start { in_window(times, start).push(t) } else { in_window(times, start) }),
{
    reveal(Seq::filter);
    assert(times.push(t).drop_last() =~= times);
}

impl RateLimiter {
    /// Length of the window, in seconds.
    pub closed spec fn window(&self) -> u64 {
        self.window_secs
    }

    /// Largest number of calls admitted within one window.
    pub closed spec fn limit(&self) -> nat {
        self.max_calls as nat
    }

    /// The times recorded for `caller` (empty if none).
    pub closed spec fn history(&self, caller: Seq<char>) -> Seq<u64> {
        if exists|i: int| 0 <= i < self.calls@.len() && (#[trigger] self.calls@[i]).caller@ == caller {
            let i = choose|i: int| 0 <= i < self.calls@.len() && (#[trigger] self.calls@[i]).caller@ == caller;
            self.calls@[i].times@
        } else {
            Seq::empty()
        }
    }

    /// Each caller has one history, and no history holds more than the limit.
    pub closed spec fn wf(&self) -> bool {
        &&& forall|i: int, j: int|
            0 <= i < j < self.calls@.len() ==> (#[trigger] self.calls@[i]).caller@
                != (#[trigger] self.calls@[j]).caller@
        &&& forall|i: int|
            0 <= i < self.calls@.len() ==> (#[trigger] self.calls@[i]).times@.len()
                <= self.max_calls
    }

    proof fn lemma_history_at(&self, i: int)
        requires
            self.wf(),
            0 <= i < self.calls@.len(),
        ensures
            self.history(self.calls@[i].caller@) == self.calls@[i].times@,
    {
        let c = self.calls@[i].caller@;
        assert(exists|k: int| 0 <= k < self.calls@.len() && (#[trigger] self.calls@[k]).caller@ == c);
        let k = choose|k: int| 0 <= k < self.calls@.len() && (#[trigger] self.calls@[k]).caller@ == c;
        if k != i {
            if k < i {
                assert(self.calls@[k].caller@ != self.calls@[i].caller@);
            } else {
                assert(self.calls@[i].caller@ != self.calls@[k].caller@);
            }
        }
    }

    /// However the calls came, no caller ever has more than the limit of
    /// calls on record, so no window admits more than the limit.
    pub proof fn law_history_bounded(&self, caller: Seq<char>)
        requires
            self.wf(),
        ensures
            self.history(caller).len() <= self.limit(),
    {
        if exists|i: int| 0 <= i < self.calls@.len() && (#[trigger] self.calls@[i]).caller@ == caller {
            let i = choose|i: int| 0 <= i < self.calls@.len() && (#[trigger] self.calls@[i]).caller@ == caller;
            self.lemma_history_at(i);
        }
    }

    /// A call refused by `check` leaves the caller's record as if the call
    /// had not been made but the window had moved on, and a limiter whose
    /// limit is zero refuses every call.
    pub proof fn law_refusal_records_nothing(
        o: Self,
        n: Self,
        caller: Seq<char>,
        now: u64,
        r: Result<(), SecurityError>,
    )
        requires
            ({
                let kept = in_window(o.history(caller), window_start(now, o.window()));
                &&& (r is Err <==> kept.len() >= o.limit())
                &&& r is Err ==> n.history(caller) == kept
            }),
        ensures
            o.limit() == 0 ==> r is Err,
            r is Err ==> n.history(caller) == in_window(o.history(caller), window_start(now, o.window())),
            r is Err ==> n.history(caller).len() <= o.history(caller).len(),
    {
        let start = window_start(now, o.window());
        o.history(caller).lemma_filter_len(|t: u64| t >= start);
    }

    /// A limiter with no recorded calls.
    pub fn new(window_secs: u64, max_calls: usize) -> (s: Self)
        ensures
            s.wf(),
            s.window() == window_secs,
            s.limit() == max_calls,
            forall|c: Seq<char>| #[trigger] s.history(c) == Seq::<u64>::empty(),
    {
        RateLimiter { calls: Vec::new(), window_secs, max_calls }
    }

    fn find(&self, caller: &String) -> (r: Option<usize>)
        requires
            self.wf(),
        ensures
            match r {
                Some(i) => i < self.calls@.len() && self.calls@[i as int].caller@ == caller@,
                None => forall|i: int|
                    0 <= i < self.calls@.len() ==> (#[trigger] self.calls@[i]).caller@ != caller@,
            },
    {
        let n = self.calls.len();
        let mut i: usize = 0;
        while i < n
            invariant
                n == self.calls@.len(),
                0 <= i <= n,
                forall|j: int| 0 <= j < i ==> (#[trigger] self.calls@[j]).caller@ != caller@,
            decreases n - i,
        {
            if self.calls[i].caller == *caller {
                return Some(i);
            }
            i = i + 1;
        }
        None
    }

    /// What `check` answers and leaves: the call is refused exactly when the
    /// caller already has the limit of calls inside the window ending at
    /// `now`; either way older calls are dropped, an admitted call is
    /// recorded, and other callers are untouched.
    pub open spec fn check_post(o: Self, n: Self, caller: Seq<char>, now: u64, r: Result<(), SecurityError>) -> bool {
        let kept = in_window(o.history(caller), window_start(now, o.window()));
        &&& n.window() == o.window()
        &&& n.limit() == o.limit()
        &&& (r is Err <==> kept.len() >= o.limit())
        &&& r is Err ==> r == Err::<(), SecurityError>(SecurityError::RateLimitExceeded) && n.history(caller) == kept
        &&& r is Ok ==> n.history(caller) == kept.push(now)
        &&& forall|c: Seq<char>| c != caller ==> #[trigger] n.history(c) == o.history(c)
    }

    /// The law of the limiter over all calls. Let `accepted` be the times of
    /// the earlier admitted calls of `caller`, and `last` the time of its
    /// latest call, no later than `now` (for a new limiter: no times, any
    /// `last`). If the record is those times inside the window that ended
    /// at `last`, then a call at `now` is admitted exactly when fewer than
    /// the limit of them fall inside the window ending at `now`; afterwards
    /// the record is again the admitted times (with `now` if admitted)
    /// inside the window ending at `now`. A refused call adds nothing.
    pub proof fn law_window_over_admitted_calls(
        o: Self,
        n: Self,
        caller: Seq<char>,
        accepted: Seq<u64>,
        last: u64,
        now: u64,
        r: Result<(), SecurityError>,
    )
        requires
            o.history(caller) == in_window(accepted, window_start(last, o.window())),
            last <= now,
            Self::check_post(o, n, caller, now, r),
        ensures
            r is Ok <==> in_window(accepted, window_start(now, o.window())).len() < o.limit(),
            n.history(caller) == in_window(
                if r is Ok { accepted.push(now) } else { accepted },
                window_start(now, n.window()),
            ),
            forall|c: Seq<char>| c != caller ==> #[trigger] n.history(c) == o.history(c),
    {
        let a = window_start(last, o.window());
        let b = window_start(now, o.window());
        lemma_in_window_narrow(accepted, a, b);
        lemma_in_window_push(accepted, now, b);
    }

    /// Records a call by `caller` at `now` if fewer than the limit of its
    /// calls fall within the window; calls older than the window are dropped
    /// either way.
    pub fn check(&mut self, caller: &str, now: u64) -> (r: Result<(), SecurityError>)
        requires
            old(self).wf(),
        ensures
            final(self).wf(),
            Self::check_post(*old(self), *final(self), caller@, now, r),
    {
        let ghost old_self = *self;
        let start = now.saturating_sub(self.window_secs);
        let key: String = caller.to_owned();
        let idx = match self.find(&key) {
            Some(i) => {
                proof { old_self.lemma_history_at(i as int); }
                i
            },
            None => {
                proof {
                    assert(old_self.history(caller@) == Seq::<u64>::empty());
                }
                self.calls.push(CallHistory { caller: key, times: Vec::new() });
                proof {
                    assert forall|i: int, j: int|
                        0 <= i < j < self.calls@.len() implies (#[trigger] self.calls@[i]).caller@
                        != (#[trigger] self.calls@[j]).caller@ by {
                        if j == self.calls@.len() - 1 {
                            assert(old_self.calls@[i] == self.calls@[i]);
                        } else {
                            assert(old_self.calls@[i] == self.calls@[i]);
                            assert(old_self.calls@[j] == self.calls@[j]);
                        }
                    }
                    self.lemma_history_at(self.calls@.len() - 1);
                }
                self.calls.len() - 1
            },
        };
        let ghost mid = *self;
        let ghost hist = self.calls@[idx as int].times@;
        assert(hist == old_self.history(caller@));
        let mut kept: Vec<u64> = Vec::new();
        let n = self.calls[idx].times.len();
        let mut j: usize = 0;
        while j < n
            invariant
                *self == mid,
                idx < self.calls@.len(),
                hist == self.calls@[idx as int].times@,
                n == hist.len(),
                0 <= j <= n,
                kept@ == in_window(hist.take(j as int), start),
                start == window_start(now, old_self.window()),
            decreases n - j,
        {
            let t = self.calls[idx].times[j];
            proof {
                assert(hist.take(j + 1) =~= hist.take(j as int).push(t));
                hist.take(j as int).lemma_filter_push(t, |t: u64| t >= start);
            }
            if t >= start {
                kept.push(t);
            }
            j = j + 1;
        }
        assert(hist.take(n as int) =~= hist);
        proof {
            hist.lemma_filter_len(|t: u64| t >= start);
        }
        let full = kept.len() >= self.max_calls;
        if !full {
            kept.push(now);
        }
        let caller_name = self.calls[idx].caller.clone();
        let ghost before_set = *self;
        self.calls.set(idx, CallHistory { caller: caller_name, times: kept });
        proof {
            assert forall|i: int, j: int|
                0 <= i < j < self.calls@.len() implies (#[trigger] self.calls@[i]).caller@
                != (#[trigger] self.calls@[j]).caller@ by {
                assert(self.calls@[i].caller@ == before_set.calls@[i].caller@);
                assert(self.calls@[j].caller@ == before_set.calls@[j].caller@);
            }
            self.lemma_history_at(idx as int);
            assert forall|c: Seq<char>| c != caller@ implies #[trigger] self.history(c) == old_self.history(c) by {
                if exists|i: int| 0 <= i < self.calls@.len() && (#[trigger] self.calls@[i]).caller@ == c {
                    let i = choose|i: int| 0 <= i < self.calls@.len() && (#[trigger] self.calls@[i]).caller@ == c;
                    self.lemma_history_at(i);
                    assert(i != idx);
                    assert(self.calls@[i] == mid.calls@[i]);
                    if i < old_self.calls@.len() {
                        assert(old_self.calls@[i] == mid.calls@[i]);
                        old_self.lemma_history_at(i);
                    } else {
                        assert(mid.calls@[i].caller@ == caller@);
                    }
                } else {
                    if exists|i: int| 0 <= i < old_self.calls@.len() && (#[trigger] old_self.calls@[i]).caller@ == c {
                        let i = choose|i: int| 0 <= i < old_self.calls@.len() && (#[trigger] old_self.calls@[i]).caller@ == c;
                        assert(mid.calls@[i] == old_self.calls@[i]);
                        assert(i != idx);
                        assert(self.calls@[i] == mid.calls@[i]);
                    }
                }
            }
        }
        if full {
            Err(SecurityError::RateLimitExceeded)
        } else {
            Ok(())
        }
    }
}

} // verus!
