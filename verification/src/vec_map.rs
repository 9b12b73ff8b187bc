//! A small association map: the contract's keyed storage entries
//! (users, cards, records) in insertion order, each key at most once.
use vstd::prelude::*;
use crate::types::{AccountId, ActionKey, CardKey, DeckKey, RoundPlayer, TokenId, UserToken};

verus! {

/// Keys that can be compared for equality in executable code.
pub trait MapKey: Copy + Sized {
    fn key_eq(&self, other: &Self) -> (b: bool)
        ensures
            b == (*self == *other),
    ;
}

impl MapKey for u32 {
    fn key_eq(&self, other: &Self) -> (b: bool) {
        *self == *other
    }
}

impl MapKey for AccountId {
    fn key_eq(&self, other: &Self) -> (b: bool) {
        self.0 == other.0
    }
}

impl MapKey for TokenId {
    fn key_eq(&self, other: &Self) -> (b: bool) {
        self.0 == other.0
    }
}

impl MapKey for ActionKey {
    fn key_eq(&self, other: &Self) -> (b: bool) {
        *self == *other
    }
}

impl MapKey for DeckKey {
    fn key_eq(&self, other: &Self) -> (b: bool) {
        self.owner.0 == other.owner.0
    }
}

impl MapKey for CardKey {
    fn key_eq(&self, other: &Self) -> (b: bool) {
        self.owner.0 == other.owner.0 && self.token_id.0 == other.token_id.0
    }
}

impl MapKey for RoundPlayer {
    fn key_eq(&self, other: &Self) -> (b: bool) {
        self.round == other.round && self.player.0 == other.player.0
    }
}

impl MapKey for UserToken {
    fn key_eq(&self, other: &Self) -> (b: bool) {
        self.user.0 == other.user.0 && self.token.0 == other.token.0
    }
}

/// A finite map kept as a list of entries without repeated keys.
pub struct VecMap<K: MapKey, V> {
    entries: Vec<(K, V)>,
}

pub open spec fn entry_keys<K, V>(s: Seq<(K, V)>) -> Seq<K> {
    s.map_values(|e: (K, V)| e.0)
}

impl<K: MapKey, V> VecMap<K, V> {
    /// No key occurs twice.
    pub closed spec fn inv(self) -> bool {
        entry_keys(self.entries@).no_duplicates()
    }

    pub closed spec fn keys(self) -> Seq<K> {
        entry_keys(self.entries@)
    }

    pub closed spec fn spec_map(self) -> Map<K, V> {
        Map::new(
            |k: K| entry_keys(self.entries@).contains(k),
            |k: K| self.entries@[entry_keys(self.entries@).index_of(k)].1,
        )
    }

    proof fn lemma_index_of(self, i: int)
        requires
            self.inv(),
            0 <= i < self.entries@.len(),
        ensures
            entry_keys(self.entries@).index_of(self.entries@[i].0) == i,
            self.spec_map().contains_key(self.entries@[i].0),
            self.spec_map()[self.entries@[i].0] == self.entries@[i].1,
    {
        let ks = entry_keys(self.entries@);
        assert(ks[i] == self.entries@[i].0);
        assert(ks.contains(self.entries@[i].0));
        let j = ks.index_of(self.entries@[i].0);
        assert(0 <= j < ks.len() && ks[j] == self.entries@[i].0);
    }

    pub fn new() -> (r: Self)
        ensures
            r.inv(),
            r@ == Map::<K, V>::empty(),
    {
        let r = VecMap { entries: Vec::new() };
        assert(r.spec_map() =~= Map::<K, V>::empty());
        r
    }

    /// Index of the entry holding `k`, if any.
    fn find(&self, k: &K) -> (r: Option<usize>)
        requires
            self.inv(),
        ensures
            match r {
                Some(i) => i < self.entries@.len() && self.entries@[i as int].0 == *k
                    && self@.contains_key(*k) && self@[*k] == self.entries@[i as int].1,
                None => !self@.contains_key(*k),
            },
    {
        let mut i: usize = 0;
        while i < self.entries.len()
            invariant
                self.inv(),
                i <= self.entries@.len(),
                forall|j: int| 0 <= j < i ==> self.entries@[j].0 != *k,
            decreases self.entries@.len() - i,
        {
            if self.entries[i].0.key_eq(k) {
                proof {
                    self.lemma_index_of(i as int);
                }
                return Some(i);
            }
            i = i + 1;
        }
        proof {
            if self@.contains_key(*k) {
                let ks = entry_keys(self.entries@);
                let j = choose|j: int| 0 <= j < ks.len() && ks[j] == *k;
                assert(self.entries@[j].0 == ks[j]);
            }
        }
        None
    }

    pub fn contains_key(&self, k: &K) -> (b: bool)
        requires
            self.inv(),
        ensures
            b == self@.contains_key(*k),
    {
        self.find(k).is_some()
    }

    pub fn get(&self, k: &K) -> (r: Option<&V>)
        requires
            self.inv(),
        ensures
            match r {
                Some(v) => self@.contains_key(*k) && *v == self@[*k],
                None => !self@.contains_key(*k),
            },
    {
        match self.find(k) {
            Some(i) => Some(&self.entries[i].1),
            None => None,
        }
    }

    pub fn insert(&mut self, k: K, v: V)
        requires
            old(self).inv(),
        ensures
            final(self).inv(),
            final(self)@ == old(self)@.insert(k, v),
    {
        let ghost old_entries = self.entries@;
        match self.find(&k) {
            Some(i) => {
                proof {
                    assert(entry_keys(old_entries.update(i as int, (k, v))) =~= entry_keys(
                        old_entries,
                    ));
                }
                self.entries.set(i, (k, v));
                proof {
                    let ks = entry_keys(self.entries@);
                    assert(ks =~= entry_keys(old_entries));
                    assert(self.inv());
                    assert forall|kk: K| #[trigger]
                        self.spec_map().contains_key(kk) == old(self).spec_map().insert(
                            k,
                            v,
                        ).contains_key(kk) by {}
                    assert forall|kk: K| #[trigger] self.spec_map().contains_key(kk) implies self.spec_map()[kk]
                        == old(self).spec_map().insert(k, v)[kk] by {
                        let j = ks.index_of(kk);
                        assert(0 <= j < ks.len() && ks[j] == kk);
                        self.lemma_index_of(j);
                        if kk == k {
                            assert(ks[i as int] == k);
                            assert(j == i);
                            assert(self.entries@[i as int] == (k, v));
                        }
                        if kk != k {
                            assert(j != i);
                            assert(self.entries@[j] == old_entries[j]);
                            old(self).lemma_index_of(j);
                        }
                    }
                    assert(self.spec_map() =~= old(self).spec_map().insert(k, v));
                }
            },
            None => {
                proof {
                    let ks = entry_keys(old_entries);
                    assert(entry_keys(old_entries.push((k, v))) =~= ks.push(k));
                    assert(!ks.contains(k));
                }
                self.entries.push((k, v));
                proof {
                    let ks = entry_keys(self.entries@);
                    let oks = entry_keys(old_entries);
                    assert(ks =~= oks.push(k));
                    assert(self.inv()) by {
                        assert forall|a: int, b: int|
                            0 <= a < ks.len() && 0 <= b < ks.len() && a != b implies ks[a]
                            != ks[b] by {
                            if a < oks.len() && b < oks.len() {
                            } else if a < oks.len() {
                                assert(oks.contains(ks[a]));
                            } else {
                                assert(oks.contains(ks[b]));
                            }
                        }
                    }
                    assert forall|kk: K| #[trigger] self.spec_map().contains_key(kk) implies self.spec_map()[kk]
                        == old(self).spec_map().insert(k, v)[kk] by {
                        let j = ks.index_of(kk);
                        assert(0 <= j < ks.len() && ks[j] == kk);
                        self.lemma_index_of(j);
                        if kk != k {
                            assert(j < oks.len());
                            assert(self.entries@[j] == old_entries[j]);
                            old(self).lemma_index_of(j);
                        }
                    }
                    assert forall|kk: K| #[trigger]
                        self.spec_map().contains_key(kk) == old(self).spec_map().insert(
                            k,
                            v,
                        ).contains_key(kk) by {
                        if kk == k {
                            assert(ks[oks.len() as int] == k);
                        }
                        if old(self).spec_map().contains_key(kk) {
                            let j = oks.index_of(kk);
                            assert(ks[j] == kk);
                        }
                        if ks.contains(kk) {
                            let j = ks.index_of(kk);
                            if j < oks.len() {
                                assert(oks[j] == kk);
                            }
                        }
                    }
                    assert(self.spec_map() =~= old(self).spec_map().insert(k, v));
                }
            },
        }
    }

    pub fn remove(&mut self, k: &K) -> (r: Option<V>)
        requires
            old(self).inv(),
        ensures
            final(self).inv(),
            final(self)@ == old(self)@.remove(*k),
            match r {
                Some(v) => old(self)@.contains_key(*k) && v == old(self)@[*k],
                None => !old(self)@.contains_key(*k),
            },
    {
        let ghost old_entries = self.entries@;
        match self.find(k) {
            Some(i) => {
                proof {
                    let ks = entry_keys(old_entries);
                    assert(entry_keys(old_entries.remove(i as int)) =~= ks.remove(i as int));
                    assert forall|a: int, b: int|
                        0 <= a < ks.len() - 1 && 0 <= b < ks.len() - 1 && a != b implies ks.remove(
                        i as int,
                    )[a] != ks.remove(i as int)[b] by {
                        let a2 = if a < i { a } else { a + 1 };
                        let b2 = if b < i { b } else { b + 1 };
                        assert(ks.remove(i as int)[a] == ks[a2]);
                        assert(ks.remove(i as int)[b] == ks[b2]);
                    }
                }
                let (_, v) = self.entries.remove(i);
                proof {
                    assert(self.inv());
                    let ks = entry_keys(self.entries@);
                    let oks = entry_keys(old_entries);
                    assert(ks =~= oks.remove(i as int));
                    assert forall|kk: K| #[trigger]
                        self.spec_map().contains_key(kk) == old(self).spec_map().remove(
                            *k,
                        ).contains_key(kk) by {
                        if ks.contains(kk) {
                            let j = ks.index_of(kk);
                            let j2 = if j < i { j } else { j + 1 };
                            assert(oks[j2] == kk);
                            assert(oks[i as int] == *k);
                        }
                        if old(self).spec_map().remove(*k).contains_key(kk) {
                            let j = oks.index_of(kk);
                            assert(oks[j] == kk);
                            assert(j != i);
                            let j1 = if j < i { j } else { j - 1 };
                            assert(ks[j1] == kk);
                        }
                    }
                    assert forall|kk: K| #[trigger] self.spec_map().contains_key(kk) implies self.spec_map()[kk]
                        == old(self).spec_map().remove(*k)[kk] by {
                        let j = ks.index_of(kk);
                        assert(0 <= j < ks.len() && ks[j] == kk);
                        self.lemma_index_of(j);
                        let j2 = if j < i { j } else { j + 1 };
                        assert(old_entries[j2] == self.entries@[j]);
                        old(self).lemma_index_of(j2);
                    }
                    assert(self.spec_map() =~= old(self).spec_map().remove(*k));
                }
                Some(v)
            },
            None => {
                proof {
                    assert(old(self).spec_map().remove(*k) =~= old(self).spec_map());
                }
                None
            },
        }
    }

    pub fn len(&self) -> (n: usize)
        requires
            self.inv(),
        ensures
            n == self@.len(),
    {
        proof {
            self.lemma_len();
        }
        self.entries.len()
    }

    proof fn lemma_len(self)
        requires
            self.inv(),
        ensures
            self.spec_map().dom() == entry_keys(self.entries@).to_set(),
            self.spec_map().len() == self.entries@.len(),
    {
        let ks = entry_keys(self.entries@);
        assert(self.spec_map().dom() =~= ks.to_set());
        ks.unique_seq_to_set();
    }
}

impl<K: MapKey, V> View for VecMap<K, V> {
    type V = Map<K, V>;

    open spec fn view(&self) -> Map<K, V> {
        self.spec_map()
    }
}


impl<K: MapKey, V: Copy> VecMap<K, V> {
    /// A copy of the map.
    pub fn copy(&self) -> (r: Self)
        requires
            self.inv(),
        ensures
            r.inv(),
            r@ == self@,
    {
        let mut entries: Vec<(K, V)> = Vec::new();
        let mut i: usize = 0;
        while i < self.entries.len()
            invariant
                i <= self.entries@.len(),
                entries@ == self.entries@.subrange(0, i as int),
            decreases self.entries@.len() - i,
        {
            entries.push(self.entries[i]);
            i = i + 1;
            proof {
                assert(entries@ =~= self.entries@.subrange(0, i as int));
            }
        }
        proof {
            assert(entries@ =~= self.entries@);
        }
        VecMap { entries }
    }
}

} // verus!
