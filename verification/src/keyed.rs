//! An association list with unique keys, viewed as a finite map. Keys are
//! compared by value through `ExecKey`.

use vstd::prelude::*;

verus! {

/// A key that can be compared by its view at run time.
pub trait ExecKey: View + Sized {
    fn key_eq(&self, other: &Self) -> (b: bool)
        ensures
            b == (self@ == other@);

    fn key_clone(&self) -> (c: Self)
        ensures
            c@ == self@;
}

impl ExecKey for String {
    fn key_eq(&self, other: &Self) -> (b: bool) {
        *self == *other
    }

    fn key_clone(&self) -> (c: Self) {
        self.clone()
    }
}

impl ExecKey for [u8; 32] {
    fn key_eq(&self, other: &Self) -> (b: bool) {
        let mut i: usize = 0;
        while i < 32
            invariant
                0 <= i <= 32,
                self@.len() == 32,
                other@.len() == 32,
                forall|j: int| 0 <= j < i ==> self@[j] == other@[j],
            decreases 32 - i,
        {
            if self[i] != other[i] {
                assert(self@[i as int] != other@[i as int]);
                return false;
            }
            i = i + 1;
        }
        assert(self@ =~= other@);
        true
    }

    fn key_clone(&self) -> (c: Self) {
        *self
    }
}

impl ExecKey for (String, String) {
    fn key_eq(&self, other: &Self) -> (b: bool) {
        self.0 == other.0 && self.1 == other.1
    }

    fn key_clone(&self) -> (c: Self) {
        (self.0.clone(), self.1.clone())
    }
}

impl ExecKey for u32 {
    fn key_eq(&self, other: &Self) -> (b: bool) {
        *self == *other
    }

    fn key_clone(&self) -> (c: Self) {
        *self
    }
}

impl ExecKey for u64 {
    fn key_eq(&self, other: &Self) -> (b: bool) {
        *self == *other
    }

    fn key_clone(&self) -> (c: Self) {
        *self
    }
}

impl ExecKey for (u64, u64) {
    fn key_eq(&self, other: &Self) -> (b: bool) {
        self.0 == other.0 && self.1 == other.1
    }

    fn key_clone(&self) -> (c: Self) {
        *self
    }
}

/// Key/value pairs with no key twice.
pub struct KeyedMap<K: ExecKey, V> {
    entries: Vec<(K, V)>,
}

impl<K: ExecKey, V> KeyedMap<K, V> {
    /// The stored pairs, in insertion order.
    pub closed spec fn pairs(&self) -> Seq<(K, V)> {
        self.entries@
    }

    /// No key is stored twice.
    pub closed spec fn wf(&self) -> bool {
        forall|i: int, j: int|
            0 <= i < j < self.entries@.len() ==> (#[trigger] self.entries@[i]).0@
                != (#[trigger] self.entries@[j]).0@
    }

    pub closed spec fn has(&self, k: K::V) -> bool {
        exists|i: int| 0 <= i < self.entries@.len() && (#[trigger] self.entries@[i]).0@ == k
    }

    pub closed spec fn index_of(&self, k: K::V) -> int {
        choose|i: int| 0 <= i < self.entries@.len() && (#[trigger] self.entries@[i]).0@ == k
    }

    /// The map from each stored key's view to its value.
    pub closed spec fn map(&self) -> Map<K::V, V> {
        Map::new(|k: K::V| self.has(k), |k: K::V| self.entries@[self.index_of(k)].1)
    }

    /// Number of stored pairs.
    pub closed spec fn size(&self) -> nat {
        self.entries@.len()
    }

    proof fn lemma_at(&self, i: int)
        requires
            self.wf(),
            0 <= i < self.entries@.len(),
        ensures
            self.map().contains_key(self.entries@[i].0@),
            self.index_of(self.entries@[i].0@) == i,
            self.map()[self.entries@[i].0@] == self.entries@[i].1,
    {
        let k = self.entries@[i].0@;
        assert(self.has(k));
        let j = self.index_of(k);
        if j != i {
            if j < i {
                assert(self.entries@[j].0@ != self.entries@[i].0@);
            } else {
                assert(self.entries@[i].0@ != self.entries@[j].0@);
            }
        }
    }

    /// Every key of the map has its pair at some position.
    pub proof fn lemma_keys(&self)
        requires
            self.wf(),
        ensures
            forall|k: K::V| #[trigger] self.map().contains_key(k) ==> exists|i: int|
                0 <= i < self.pairs().len() && (#[trigger] self.pairs()[i]).0@ == k,
            forall|i: int|
                0 <= i < self.pairs().len() ==> {
                    &&& self.map().contains_key((#[trigger] self.pairs()[i]).0@)
                    &&& self.map()[self.pairs()[i].0@] == self.pairs()[i].1
                },
            self.map().dom().finite(),
            self.map().dom().len() == self.size(),
            self.size() <= usize::MAX,
            self.size() == self.pairs().len(),
    {
        assert(self.entries.len() == self.entries@.len());
        assert forall|i: int| 0 <= i < self.pairs().len() implies {
            &&& self.map().contains_key((#[trigger] self.pairs()[i]).0@)
            &&& self.map()[self.pairs()[i].0@] == self.pairs()[i].1
        } by {
            self.lemma_at(i);
        }
        assert forall|k: K::V| #[trigger] self.map().contains_key(k) implies exists|i: int|
            0 <= i < self.pairs().len() && (#[trigger] self.pairs()[i]).0@ == k by {
            assert(self.has(k));
            let i = self.index_of(k);
            assert(self.pairs()[i].0@ == k);
        }
        self.lemma_dom_len(self.entries@.len() as int);
        assert(self.map().dom() =~= self.prefix_keys(self.entries@.len() as int));
    }

    spec fn prefix_keys(&self, n: int) -> Set<K::V> {
        Set::new(|k: K::V| exists|i: int| 0 <= i < n && (#[trigger] self.entries@[i]).0@ == k)
    }

    proof fn lemma_dom_len(&self, n: int)
        requires
            self.wf(),
            0 <= n <= self.entries@.len(),
        ensures
            self.prefix_keys(n).finite(),
            self.prefix_keys(n).len() == n,
        decreases n,
    {
        if n == 0 {
            assert(self.prefix_keys(0) =~= Set::empty());
        } else {
            self.lemma_dom_len(n - 1);
            let k = self.entries@[n - 1].0@;
            assert(!self.prefix_keys(n - 1).contains(k)) by {
                if self.prefix_keys(n - 1).contains(k) {
                    let i = choose|i: int| 0 <= i < n - 1 && (#[trigger] self.entries@[i]).0@ == k;
                    assert(self.entries@[i].0@ != self.entries@[n - 1].0@);
                }
            }
            assert(self.prefix_keys(n) =~= self.prefix_keys(n - 1).insert(k));
        }
    }

    /// An empty map.
    pub fn new() -> (m: Self)
        ensures
            m.wf(),
            m.map() == Map::<K::V, V>::empty(),
            m.size() == 0,
            m.pairs() == Seq::<(K, V)>::empty(),
    {
        let m = KeyedMap { entries: Vec::new() };
        assert(m.map() =~= Map::<K::V, V>::empty());
        assert(m.pairs() =~= Seq::<(K, V)>::empty());
        m
    }

    /// Number of stored pairs.
    pub fn len(&self) -> (n: usize)
        ensures
            n == self.size(),
            n == self.pairs().len(),
    {
        self.entries.len()
    }

    /// Position of `key`, if stored.
    pub fn find(&self, key: &K) -> (r: Option<usize>)
        requires
            self.wf(),
        ensures
            match r {
                Some(i) => i < self.size() && self.pairs()[i as int].0@ == key@
                    && self.map().contains_key(key@) && self.map()[key@] == self.pairs()[i as int].1,
                None => !self.map().contains_key(key@),
            },
    {
        let n = self.entries.len();
        let mut i: usize = 0;
        while i < n
            invariant
                self.wf(),
                n == self.entries@.len(),
                0 <= i <= n,
                forall|j: int| 0 <= j < i ==> (#[trigger] self.entries@[j]).0@ != key@,
            decreases n - i,
        {
            if self.entries[i].0.key_eq(key) {
                proof { self.lemma_at(i as int); }
                return Some(i);
            }
            i = i + 1;
        }
        None
    }

    /// The pair at position `i`.
    pub fn at(&self, i: usize) -> (r: (&K, &V))
        requires
            i < self.size(),
        ensures
            *r.0 == self.pairs()[i as int].0,
            *r.1 == self.pairs()[i as int].1,
    {
        (&self.entries[i].0, &self.entries[i].1)
    }

    /// The value stored under `key`, if any.
    pub fn get(&self, key: &K) -> (r: Option<&V>)
        requires
            self.wf(),
        ensures
            match r {
                Some(v) => self.map().contains_key(key@) && *v == self.map()[key@],
                None => !self.map().contains_key(key@),
            },
    {
        match self.find(key) {
            Some(i) => Some(&self.entries[i].1),
            None => None,
        }
    }

    /// Stores `value` under `key`, replacing any earlier value.
    pub fn insert(&mut self, key: K, value: V)
        requires
            old(self).wf(),
        ensures
            final(self).wf(),
            final(self).map() == old(self).map().insert(key@, value),
            !old(self).map().contains_key(key@) ==> final(self).pairs() == old(self).pairs().push((key, value)),
            old(self).map().contains_key(key@) ==> exists|i: int|
                0 <= i < old(self).pairs().len() && (#[trigger] old(self).pairs()[i]).0@ == key@
                    && final(self).pairs() == old(self).pairs().update(i, (key, value)),
    {
        let ghost old_self = *self;
        let ghost kv = key@;
        let ghost kk = key;
        match self.find(&key) {
            Some(i) => {
                self.entries.set(i, (key, value));
                proof {
                    assert forall|a: int, b: int|
                        0 <= a < b < self.entries@.len() implies (#[trigger] self.entries@[a]).0@
                        != (#[trigger] self.entries@[b]).0@ by {
                        assert(self.entries@[a].0@ == old_self.entries@[a].0@);
                        assert(self.entries@[b].0@ == old_self.entries@[b].0@);
                    }
                    self.lemma_at(i as int);
                    assert forall|k: K::V| #[trigger] self.map().contains_key(k) == old_self.map().insert(kv, value).contains_key(k) by {
                        if old_self.has(k) {
                            let j = old_self.index_of(k);
                            assert(self.entries@[j].0@ == k);
                        }
                        if self.has(k) {
                            let j = self.index_of(k);
                            assert(old_self.entries@[j].0@ == k);
                        }
                    }
                    assert forall|k: K::V| self.map().contains_key(k) implies #[trigger] self.map()[k] == old_self.map().insert(kv, value)[k] by {
                        let j = self.index_of(k);
                        self.lemma_at(j);
                        if k != kv {
                            assert(j != i);
                            old_self.lemma_at(j);
                        }
                    }
                    assert(self.map() =~= old_self.map().insert(kv, value));
                    assert(old_self.pairs()[i as int].0@ == kv);
                    assert(self.pairs() =~= old_self.pairs().update(i as int, (kk, value)));
                }
            },
            None => {
                self.entries.push((key, value));
                proof {
                    let last = self.entries@.len() - 1;
                    assert forall|a: int, b: int|
                        0 <= a < b < self.entries@.len() implies (#[trigger] self.entries@[a]).0@
                        != (#[trigger] self.entries@[b]).0@ by {
                        assert(self.entries@[a] == old_self.entries@[a]);
                        if b < last {
                            assert(self.entries@[b] == old_self.entries@[b]);
                        } else {
                            assert(!old_self.has(kv));
                        }
                    }
                    self.lemma_at(last);
                    assert forall|k: K::V| #[trigger] self.map().contains_key(k) == old_self.map().insert(kv, value).contains_key(k) by {
                        if old_self.has(k) {
                            let j = old_self.index_of(k);
                            assert(self.entries@[j].0@ == k);
                        }
                        if self.has(k) && k != kv {
                            let j = self.index_of(k);
                            assert(j != last);
                            assert(old_self.entries@[j].0@ == k);
                        }
                    }
                    assert forall|k: K::V| self.map().contains_key(k) implies #[trigger] self.map()[k] == old_self.map().insert(kv, value)[k] by {
                        let j = self.index_of(k);
                        self.lemma_at(j);
                        if k != kv {
                            assert(j != last);
                            assert(self.entries@[j] == old_self.entries@[j]);
                            old_self.lemma_at(j);
                        }
                    }
                    assert(self.map() =~= old_self.map().insert(kv, value));
                }
            },
        }
    }

    /// Puts `value` in the pair at position `i` and hands back the value
    /// that was there; the key and the order stay.
    pub fn replace_at(&mut self, i: usize, value: V) -> (r: V)
        requires
            old(self).wf(),
            i < old(self).size(),
        ensures
            final(self).wf(),
            final(self).size() == old(self).size(),
            old(self).size() == old(self).pairs().len(),
            r == old(self).pairs()[i as int].1,
            final(self).pairs() == old(self).pairs().update(i as int, (old(self).pairs()[i as int].0, value)),
            final(self).map() == old(self).map().insert(old(self).pairs()[i as int].0@, value),
    {
        let ghost old_self = *self;
        let (k, v) = self.entries.remove(i);
        self.entries.insert(i, (k, value));
        proof {
            let kv = old_self.entries@[i as int].0@;
            assert(self.entries@ =~= old_self.entries@.update(i as int, (old_self.entries@[i as int].0, value)));
            assert forall|a: int, b: int|
                0 <= a < b < self.entries@.len() implies (#[trigger] self.entries@[a]).0@
                != (#[trigger] self.entries@[b]).0@ by {
                assert(self.entries@[a].0@ == old_self.entries@[a].0@);
                assert(self.entries@[b].0@ == old_self.entries@[b].0@);
            }
            old_self.lemma_at(i as int);
            self.lemma_at(i as int);
            assert forall|k: K::V| #[trigger] self.map().contains_key(k) == old_self.map().insert(kv, value).contains_key(k) by {
                if old_self.has(k) {
                    let j = old_self.index_of(k);
                    assert(self.entries@[j].0@ == k);
                }
                if self.has(k) {
                    let j = self.index_of(k);
                    assert(old_self.entries@[j].0@ == k);
                }
            }
            assert forall|k: K::V| self.map().contains_key(k) implies #[trigger] self.map()[k] == old_self.map().insert(kv, value)[k] by {
                let j = self.index_of(k);
                self.lemma_at(j);
                if k != kv {
                    assert(j != i);
                    old_self.lemma_at(j);
                }
            }
            assert(self.map() =~= old_self.map().insert(kv, value));
        }
        v
    }

    /// Removes the pair stored under `key`, if any, and hands back its value.
    pub fn remove(&mut self, key: &K) -> (r: Option<V>)
        requires
            old(self).wf(),
        ensures
            final(self).wf(),
            final(self).map() == old(self).map().remove(key@),
            match r {
                Some(v) => old(self).map().contains_key(key@) && v == old(self).map()[key@],
                None => !old(self).map().contains_key(key@),
            },
    {
        let ghost old_self = *self;
        let ghost kv = key@;
        match self.find(key) {
            Some(i) => {
                let (_, v) = self.entries.remove(i);
                proof {
                    assert forall|a: int, b: int|
                        0 <= a < b < self.entries@.len() implies (#[trigger] self.entries@[a]).0@
                        != (#[trigger] self.entries@[b]).0@ by {
                        let oa = if a < i { a } else { a + 1 };
                        let ob = if b < i { b } else { b + 1 };
                        assert(self.entries@[a] == old_self.entries@[oa]);
                        assert(self.entries@[b] == old_self.entries@[ob]);
                    }
                    assert forall|k: K::V| #[trigger] self.map().contains_key(k) == old_self.map().remove(kv).contains_key(k) by {
                        if old_self.has(k) && k != kv {
                            let j = old_self.index_of(k);
                            assert(j != i);
                            let nj = if j < i { j } else { j - 1 };
                            assert(self.entries@[nj] == old_self.entries@[j]);
                        }
                        if self.has(k) {
                            let j = self.index_of(k);
                            let oj = if j < i { j } else { j + 1 };
                            assert(self.entries@[j] == old_self.entries@[oj]);
                            old_self.lemma_at(oj);
                            old_self.lemma_at(i as int);
                        }
                    }
                    assert forall|k: K::V| self.map().contains_key(k) implies #[trigger] self.map()[k] == old_self.map().remove(kv)[k] by {
                        let j = self.index_of(k);
                        self.lemma_at(j);
                        let oj = if j < i { j } else { j + 1 };
                        assert(self.entries@[j] == old_self.entries@[oj]);
                        old_self.lemma_at(oj);
                    }
                    assert(self.map() =~= old_self.map().remove(kv));
                }
                Some(v)
            },
            None => {
                assert(old_self.map().remove(kv) =~= old_self.map());
                None
            },
        }
    }
}

} // verus!
