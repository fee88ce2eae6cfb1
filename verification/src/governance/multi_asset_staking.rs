//! Staked balances per (staker, asset) pair with simple time-weighted
//! rewards per asset.

use vstd::prelude::*;
use crate::keyed::KeyedMap;

verus! {

/// One staker's position in one asset.
pub struct StakeEntry {
    pub asset: String,
    pub amount: u128,
    pub staked_at: u64,
}

/// Stakes keyed by (staker, asset) and reward rates keyed by asset.
pub struct MultiAssetStaking {
    stakes: KeyedMap<(String, String), StakeEntry>,
    reward_rates: KeyedMap<String, u64>,
}

/// Reward accrued by `amount` at `rate` basis points per second over `elapsed` seconds.
pub open spec fn reward_formula(amount: u128, rate: u64, elapsed: u64) -> int {
    (amount * rate * elapsed) / 10_000
}

impl MultiAssetStaking {
    /// Positions, keyed by (staker, asset).
    pub closed spec fn positions(&self) -> Map<(Seq<char>, Seq<char>), StakeEntry> {
        self.stakes.map()
    }

    /// Reward rates, keyed by asset.
    pub closed spec fn rates(&self) -> Map<Seq<char>, u64> {
        self.reward_rates.map()
    }

    /// The reward rate of `asset` (0 if none was set).
    pub open spec fn rate_of(&self, asset: Seq<char>) -> u64 {
        if self.rates().contains_key(asset) {
            self.rates()[asset]
        } else {
            0
        }
    }

    /// The staked amount of `staker` in `asset` (0 if none).
    pub open spec fn balance_of(&self, staker: Seq<char>, asset: Seq<char>) -> u128 {
        if self.positions().contains_key((staker, asset)) {
            self.positions()[(staker, asset)].amount
        } else {
            0
        }
    }

    /// Keys are unique, each position names its own asset, and no empty
    /// position is kept.
    pub closed spec fn wf(&self) -> bool {
        &&& self.stakes.wf()
        &&& self.reward_rates.wf()
        &&& forall|k: (Seq<char>, Seq<char>)| #[trigger] self.stakes.map().contains_key(k) ==> {
            &&& self.stakes.map()[k].asset@ == k.1
            &&& self.stakes.map()[k].amount > 0
        }
    }

    /// In a consistent book every kept position is non-empty and names the
    /// asset it is kept under.
    pub proof fn law_positions_positive(&self)
        requires
            self.wf(),
        ensures
            forall|k: (Seq<char>, Seq<char>)| #[trigger] self.positions().contains_key(k) ==> {
                &&& self.positions()[k].amount > 0
                &&& self.positions()[k].asset@ == k.1
            },
    {
    }

    /// No stakes and no reward rates.
    pub fn new() -> (s: Self)
        ensures
            s.wf(),
            s.positions() == Map::<(Seq<char>, Seq<char>), StakeEntry>::empty(),
            s.rates() == Map::<Seq<char>, u64>::empty(),
    {
        let s = MultiAssetStaking { stakes: KeyedMap::new(), reward_rates: KeyedMap::new() };
        assert(s.stakes.map() =~= Map::empty());
        s
    }

    /// Sets the reward rate of `asset`, in basis points per second.
    pub fn set_reward_rate(&mut self, asset: &str, rate_bps_per_sec: u64)
        requires
            old(self).wf(),
        ensures
            final(self).wf(),
            final(self).rates() == old(self).rates().insert(asset@, rate_bps_per_sec),
            final(self).positions() == old(self).positions(),
    {
        self.reward_rates.insert(asset.to_owned(), rate_bps_per_sec);
    }

    /// What `stake` answers and leaves: a refusal with the positions unchanged, or the position
    /// grown by `amount`.
    pub open spec fn stake_post(o: Self, n: Self, staker: Seq<char>, asset: Seq<char>, amount: u128, now: u64, r: Result<(), String>) -> bool {
        let key = (staker, asset);
        let old_pos = o.positions();
        let new_pos = n.positions();
        if amount == 0 {
            &&& r matches Err(m) && m@ == "stake amount must be greater than zero"@
            &&& new_pos == old_pos
        } else if old_pos.contains_key(key) && old_pos[key].amount + amount > u128::MAX {
            &&& r matches Err(m) && m@ == "overflow"@
            &&& new_pos == old_pos
        } else {
            &&& r is Ok
            &&& new_pos.contains_key(key)
            &&& new_pos.remove(key) == old_pos.remove(key)
            &&& new_pos[key].amount == o.balance_of(staker, asset) + amount
            &&& new_pos[key].asset@ == asset
            &&& new_pos[key].staked_at == (if old_pos.contains_key(key) {
                old_pos[key].staked_at
            } else {
                now
            })
            &&& old_pos.contains_key(key) ==> new_pos[key] == (StakeEntry {
                amount: (old_pos[key].amount + amount) as u128,
                ..old_pos[key]
            })
        }
    }

    /// Adds `amount` to the position of `staker` in `asset`; a new position
    /// starts at `now`, an existing one keeps its start time.
    pub fn stake(&mut self, staker: &str, asset: &str, amount: u128, now: u64) -> (r: Result<(), String>)
        requires
            old(self).wf(),
        ensures
            final(self).wf(),
            final(self).rates() == old(self).rates(),
            Self::stake_post(*old(self), *final(self), staker@, asset@, amount, now, r),
    {
        if amount == 0 {
            return Err(String::from_str("stake amount must be greater than zero"));
        }
        let key: (String, String) = (staker.to_owned(), asset.to_owned());
        let ghost old_pos = self.stakes.map();
        let ghost k = key@;
        match self.stakes.remove(&key) {
            Some(entry) => {
                match entry.amount.checked_add(amount) {
                    Some(total) => {
                        let updated = StakeEntry { asset: entry.asset, amount: total, staked_at: entry.staked_at };
                        let ghost upd = updated;
                        self.stakes.insert(key, updated);
                        assert(self.stakes.map().remove(k) =~= old_pos.remove(k));
                        Ok(())
                    },
                    None => {
                        self.stakes.insert(key, entry);
                        assert(self.stakes.map() =~= old_pos);
                        Err(String::from_str("overflow"))
                    },
                }
            },
            None => {
                let fresh = StakeEntry { asset: asset.to_owned(), amount, staked_at: now };
                self.stakes.insert(key, fresh);
                assert(self.stakes.map().remove(k) =~= old_pos.remove(k));
                Ok(())
            },
        }
    }

    /// What `unstake` answers and leaves: a refusal with the positions unchanged, or the position
    /// shrunk by `amount` and removed at zero.
    pub open spec fn unstake_post(o: Self, n: Self, staker: Seq<char>, asset: Seq<char>, amount: u128, r: Result<(), String>) -> bool {
        let key = (staker, asset);
        let old_pos = o.positions();
        let new_pos = n.positions();
        if !old_pos.contains_key(key) {
            &&& r matches Err(m) && m@ == "no stake found"@
            &&& new_pos == old_pos
        } else if amount > old_pos[key].amount {
            &&& r matches Err(m) && m@ == "insufficient staked balance"@
            &&& new_pos == old_pos
        } else if amount == old_pos[key].amount {
            &&& r is Ok
            &&& new_pos == old_pos.remove(key)
        } else {
            &&& r is Ok
            &&& new_pos.contains_key(key)
            &&& new_pos.remove(key) == old_pos.remove(key)
            &&& new_pos[key].amount == old_pos[key].amount - amount
            &&& new_pos[key].asset == old_pos[key].asset
            &&& new_pos[key].staked_at == old_pos[key].staked_at
        }
    }

    /// Takes `amount` off the position of `staker` in `asset`; a position
    /// that reaches zero is removed.
    pub fn unstake(&mut self, staker: &str, asset: &str, amount: u128) -> (r: Result<(), String>)
        requires
            old(self).wf(),
        ensures
            final(self).wf(),
            final(self).rates() == old(self).rates(),
            Self::unstake_post(*old(self), *final(self), staker@, asset@, amount, r),
    {
        let key: (String, String) = (staker.to_owned(), asset.to_owned());
        let ghost old_pos = self.stakes.map();
        let ghost k = key@;
        match self.stakes.remove(&key) {
            None => {
                assert(self.stakes.map() =~= old_pos);
                Err(String::from_str("no stake found"))
            },
            Some(entry) => {
                if amount > entry.amount {
                    self.stakes.insert(key, entry);
                    assert(self.stakes.map() =~= old_pos);
                    return Err(String::from_str("insufficient staked balance"));
                }
                let rest = entry.amount - amount;
                if rest == 0 {
                    assert(self.stakes.map() =~= old_pos.remove(k));
                    Ok(())
                } else {
                    let updated = StakeEntry { asset: entry.asset, amount: rest, staked_at: entry.staked_at };
                    self.stakes.insert(key, updated);
                    assert(self.stakes.map().remove(k) =~= old_pos.remove(k));
                    Ok(())
                }
            },
        }
    }

    /// Staking `amount` and then unstaking the same amount gives every
    /// position back as it was, so every balance and every pending reward is
    /// as before.
    pub proof fn law_stake_then_unstake(
        s0: Self,
        s1: Self,
        s2: Self,
        staker: Seq<char>,
        asset: Seq<char>,
        amount: u128,
        now: u64,
        r2: Result<(), String>,
    )
        requires
            s0.wf(),
            Self::stake_post(s0, s1, staker, asset, amount, now, Ok(())),
            s1.rates() == s0.rates(),
            Self::unstake_post(s1, s2, staker, asset, amount, r2),
            s2.rates() == s1.rates(),
        ensures
            r2 is Ok,
            s2.positions() == s0.positions(),
            s2.rates() == s0.rates(),
    {
        let key = (staker, asset);
        let p0 = s0.positions();
        let p1 = s1.positions();
        let p2 = s2.positions();
        if p0.contains_key(key) {
            assert(p0[key].amount > 0);
            assert(p2.remove(key) == p0.remove(key));
            assert(p2[key] == p0[key]);
            assert(p2 =~= p0) by {
                assert forall|k: (Seq<char>, Seq<char>)| #[trigger] p2.contains_key(k) == p0.contains_key(k) by {
                    if k != key {
                        assert(p2.remove(key).contains_key(k) == p2.contains_key(k));
                    }
                }
                assert forall|k: (Seq<char>, Seq<char>)| p2.contains_key(k) implies #[trigger] p2[k] == p0[k] by {
                    if k != key {
                        assert(p2.remove(key)[k] == p2[k]);
                        assert(p0.remove(key)[k] == p0[k]);
                    }
                }
            }
        } else {
            assert(p2 == p1.remove(key));
            assert(p2 =~= p0) by {
                assert forall|k: (Seq<char>, Seq<char>)| #[trigger] p2.contains_key(k) == p0.contains_key(k) by {
                    if k != key {
                        assert(p1.remove(key).contains_key(k) == p0.remove(key).contains_key(k));
                    }
                }
                assert forall|k: (Seq<char>, Seq<char>)| p2.contains_key(k) implies #[trigger] p2[k] == p0[k] by {
                    assert(p1.remove(key)[k] == p0.remove(key)[k]);
                }
            }
        }
    }

    /// Reward accrued by the position of `staker` in `asset` at `now`:
    /// amount times rate times elapsed seconds, over 10 000.
    pub fn pending_rewards(&self, staker: &str, asset: &str, now: u64) -> (r: u128)
        requires
            self.wf(),
            self.positions().contains_key((staker@, asset@)) ==> {
                let e = self.positions()[(staker@, asset@)];
                &&& e.amount * self.rate_of(asset@) <= u128::MAX
                &&& e.amount * self.rate_of(asset@) * (if now >= e.staked_at { now - e.staked_at } else { 0 }) <= u128::MAX
            },
        ensures
            !self.positions().contains_key((staker@, asset@)) ==> r == 0,
            self.positions().contains_key((staker@, asset@)) ==> {
                let e = self.positions()[(staker@, asset@)];
                r == reward_formula(e.amount, self.rate_of(asset@),
                    (if now >= e.staked_at { now - e.staked_at } else { 0 }) as u64)
            },
    {
        let key: (String, String) = (staker.to_owned(), asset.to_owned());
        let entry = match self.stakes.get(&key) {
            Some(e) => e,
            None => return 0,
        };
        let asset_key: String = asset.to_owned();
        let rate: u64 = match self.reward_rates.get(&asset_key) {
            Some(r) => *r,
            None => 0,
        };
        let rate = rate as u128;
        let elapsed = now.saturating_sub(entry.staked_at) as u128;
        let a = entry.amount * rate;
        let b = a * elapsed;
        b / 10_000
    }

    /// The staked amount of `staker` in `asset` (0 if none).
    pub fn staked_balance(&self, staker: &str, asset: &str) -> (r: u128)
        requires
            self.wf(),
        ensures
            r == self.balance_of(staker@, asset@),
    {
        let key: (String, String) = (staker.to_owned(), asset.to_owned());
        match self.stakes.get(&key) {
            Some(e) => e.amount,
            None => 0,
        }
    }
}

} // verus!
