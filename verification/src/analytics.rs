//! Trading signals with a confidence score, per-user position risk and
//! limits, user alerts, and the volatility circuit breaker.

use vstd::prelude::*;
use crate::keyed::KeyedMap;

verus! {

/// Volatility above which trading in an asset halts.
pub const VOLATILITY_THRESHOLD: i32 = 50;

/// Highest confidence score.
pub const MAX_CONFIDENCE: u32 = 100;

/// Confidence of a signal before volume is counted: buy 80, sell 70, hold 50.
pub open spec fn base_confidence(signal: i32) -> u32 {
    if signal == 1 { 80 } else if signal == -1 { 70 } else { 50 }
}

/// Confidence of `signal` at `volume`: the base plus one point per thousand
/// of volume (volume read as unsigned), capped at 100.
pub open spec fn confidence(signal: i32, volume: i32) -> u8 {
    let scaled = base_confidence(signal) + (volume as u32) / 1000;
    if scaled > MAX_CONFIDENCE { 100 } else { scaled as u8 }
}

/// Confidence score of a signal (1 buy, -1 sell, anything else hold).
pub fn calculate(signal: i32, volume: i32) -> (c: u8)
    ensures
        c == confidence(signal, volume),
        c <= 100,
{
    let base_conf: u8 = match signal {
        1 => 80,
        -1 => 70,
        _ => 50,
    };
    let scaled = base_conf as u32 + (volume as u32 / 1000);
    if scaled > MAX_CONFIDENCE {
        100
    } else {
        scaled as u8
    }
}

/// `a / b` rounded toward zero, for `b > 0`.
pub open spec fn div_toward_zero(a: int, b: int) -> int {
    if a >= 0 { a / b } else { -((-a) / b) }
}

/// Risk of one position: 10% of its value, rounded toward zero.
pub open spec fn position_risk(value: i32) -> int {
    div_toward_zero(value * 10, 100)
}

/// Summed risk of positions.
pub open spec fn risk_sum(positions: Seq<(String, i32)>) -> int
    decreases positions.len(),
{
    if positions.len() == 0 { 0 } else { risk_sum(positions.drop_last()) + position_risk(positions.last().1) }
}

/// Value at risk of a user's positions: 10% of each, summed.
pub fn calculate_risk(positions: &Vec<(String, i32)>) -> (r: i32)
    requires
        forall|k: int| 0 <= k < positions@.len() ==> i32::MIN <= #[trigger] positions@[k].1 * 10 <= i32::MAX,
        forall|k: int| 0 <= k <= positions@.len() ==> i32::MIN <= #[trigger] risk_sum(positions@.take(k)) <= i32::MAX,
    ensures
        r == risk_sum(positions@),
{
    let n = positions.len();
    let mut risk: i32 = 0;
    let mut i: usize = 0;
    while i < n
        invariant
            n == positions@.len(),
            0 <= i <= n,
            risk == risk_sum(positions@.take(i as int)),
            forall|k: int| 0 <= k < positions@.len() ==> i32::MIN <= #[trigger] positions@[k].1 * 10 <= i32::MAX,
            forall|k: int| 0 <= k <= positions@.len() ==> i32::MIN <= #[trigger] risk_sum(positions@.take(k)) <= i32::MAX,
        decreases n - i,
    {
        let value = positions[i].1;
        assert(positions@.take(i + 1).drop_last() =~= positions@.take(i as int));
        assert(positions@.take(i + 1).last() == positions@[i as int]);
        assert(i32::MIN <= positions@[i as int].1 * 10 <= i32::MAX);
        assert(i32::MIN <= risk_sum(positions@.take(i + 1)) <= i32::MAX);
        risk = risk + (value * 10) / 100;
        i = i + 1;
    }
    assert(positions@.take(n as int) =~= positions@);
    risk
}

/// Whether trading in an asset with `volatility` must halt.
pub fn check_circuit_breaker(volatility: i32) -> (b: bool)
    ensures
        b == (volatility > VOLATILITY_THRESHOLD),
{
    if volatility > VOLATILITY_THRESHOLD {
        true
    } else {
        false
    }
}

/// Latest signals per asset, limits and alerts per user.
pub struct RiskBook {
    pub signals: KeyedMap<String, (i32, u8)>,
    pub limits: KeyedMap<String, i32>,
    pub alerts: KeyedMap<String, Vec<String>>,
}

impl RiskBook {
    /// Maps are well formed.
    pub open spec fn wf(&self) -> bool {
        &&& self.signals.wf()
        &&& self.limits.wf()
        &&& self.alerts.wf()
    }

    /// The latest signal for `asset` (zero, zero when none).
    pub open spec fn signal_of(&self, asset: Seq<char>) -> (i32, u8) {
        if self.signals.map().contains_key(asset) { self.signals.map()[asset] } else { (0, 0) }
    }

    /// The limit of `user` (zero when unset).
    pub open spec fn limit_of(&self, user: Seq<char>) -> i32 {
        if self.limits.map().contains_key(user) { self.limits.map()[user] } else { 0 }
    }

    /// The alerts sent to `user`, oldest first.
    pub open spec fn alerts_of(&self, user: Seq<char>) -> Seq<Seq<char>> {
        if self.alerts.map().contains_key(user) { self.alerts.map()[user]@.map_values(|m: String| m@) } else { Seq::empty() }
    }

    /// Nothing stored.
    pub fn new() -> (b: Self)
        ensures
            b.wf(),
            forall|a: Seq<char>| #[trigger] b.signal_of(a) == (0i32, 0u8),
            forall|u: Seq<char>| #[trigger] b.limit_of(u) == 0,
            forall|u: Seq<char>| #[trigger] b.alerts_of(u) == Seq::<Seq<char>>::empty(),
    {
        RiskBook { signals: KeyedMap::new(), limits: KeyedMap::new(), alerts: KeyedMap::new() }
    }

    /// Stores the latest signal for `asset`.
    pub fn store_signal(&mut self, asset: &str, signal: i32, confidence: u8)
        requires
            old(self).wf(),
        ensures
            final(self).wf(),
            final(self).signal_of(asset@) == (signal, confidence),
            forall|a: Seq<char>| a != asset@ ==> #[trigger] final(self).signal_of(a) == old(self).signal_of(a),
            final(self).limits == old(self).limits,
            final(self).alerts == old(self).alerts,
    {
        self.signals.insert(asset.to_owned(), (signal, confidence));
    }

    /// The latest signal for `asset`.
    pub fn get_signal(&self, asset: &str) -> (r: (i32, u8))
        requires
            self.wf(),
        ensures
            r == self.signal_of(asset@),
    {
        match self.signals.get(&asset.to_owned()) {
            Some(s) => *s,
            None => (0, 0),
        }
    }

    /// Sets the limit of `user`.
    pub fn set_limit(&mut self, user: &str, limit: i32)
        requires
            old(self).wf(),
        ensures
            final(self).wf(),
            final(self).limit_of(user@) == limit,
            forall|u: Seq<char>| u != user@ ==> #[trigger] final(self).limit_of(u) == old(self).limit_of(u),
            final(self).signals == old(self).signals,
            final(self).alerts == old(self).alerts,
    {
        self.limits.insert(user.to_owned(), limit);
    }

    /// The limit of `user`.
    pub fn get_limit(&self, user: &str) -> (l: i32)
        requires
            self.wf(),
        ensures
            l == self.limit_of(user@),
    {
        match self.limits.get(&user.to_owned()) {
            Some(l) => *l,
            None => 0,
        }
    }

    /// Appends `message` to the alerts of `user`.
    pub fn send_alert(&mut self, user: &str, message: &str)
        requires
            old(self).wf(),
        ensures
            final(self).wf(),
            final(self).alerts_of(user@) == old(self).alerts_of(user@).push(message@),
            forall|u: Seq<char>| u != user@ ==> #[trigger] final(self).alerts_of(u) == old(self).alerts_of(u),
            final(self).signals == old(self).signals,
            final(self).limits == old(self).limits,
    {
        let key = user.to_owned();
        let mut list: Vec<String> = Vec::new();
        match self.alerts.get(&key) {
            Some(existing) => {
                let n = existing.len();
                let mut i: usize = 0;
                while i < n
                    invariant
                        n == existing@.len(),
                        0 <= i <= n,
                        list@ == existing@.take(i as int),
                    decreases n - i,
                {
                    list.push(existing[i].clone());
                    i = i + 1;
                    assert(list@ =~= existing@.take(i as int));
                }
                assert(existing@.take(n as int) =~= existing@);
            },
            None => {},
        }
        let ghost before = list@;
        list.push(message.to_owned());
        proof {
            assert(list@.map_values(|m: String| m@) =~= before.map_values(|m: String| m@).push(message@));
        }
        self.alerts.insert(key, list);
    }
}

} // verus!
