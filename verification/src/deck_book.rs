//! Storage of decks: each player's deck, the older global list kept while
//! `pages_only` is off, and the paged index of players with a non-empty deck.
use vstd::prelude::*;
use crate::types::{AccountId, Deck, DeckKey, DeckV};
use crate::vec_map::VecMap;
use crate::paged::{PagedList, window, swap_remove_spec, min_nat};
use crate::book::{migrate_index, migrate_end};
use crate::math::{effective_power_spec, calculate_effective_power};

verus! {

/// A deck's share of the total effective deck power, in basis points.
pub open spec fn haw_pct_spec(d: DeckV, total_effective: u32) -> u32 {
    if total_effective > 0 {
        ((effective_power_spec(d.total_power, d.bonus) as int * 10000) / (total_effective as int)) as u32
    } else {
        0
    }
}

/// The deck as read: its `haw_ai_percentage` computed against `total_effective`.
pub open spec fn with_pct(d: DeckV, total_effective: u32) -> DeckV {
    DeckV { haw_ai_percentage: haw_pct_spec(d, total_effective), ..d }
}

/// The bonus stays small enough for the effective-power formula, and no card is in a
/// deck twice.
pub open spec fn deck_ok(d: DeckV) -> bool {
    d.bonus <= u32::MAX - 100 && d.token_ids.no_duplicates()
}

/// The first slot of `s` whose deck belongs to `owner`.
pub open spec fn first_owner_index(s: Seq<DeckV>, owner: AccountId) -> Option<int> {
    if exists|i: int| 0 <= i < s.len() && #[trigger] s[i].owner == owner {
        Some(
            choose|i: int|
                0 <= i < s.len() && #[trigger] s[i].owner == owner && forall|j: int|
                    0 <= j < i ==> s[j].owner != owner,
        )
    } else {
        None
    }
}

pub open spec fn deck_upsert(s: Seq<DeckV>, owner: AccountId, d: DeckV) -> Seq<DeckV> {
    match first_owner_index(s, owner) {
        Some(p) => s.update(p, d),
        None => s.push(d),
    }
}

/// The decks that the index lists, in index order, skipping players without a deck.
pub open spec fn paged_decks(keys: Seq<DeckKey>, decks: Map<AccountId, DeckV>) -> Seq<DeckV>
    decreases keys.len(),
{
    if keys.len() == 0 {
        Seq::empty()
    } else {
        let rest = paged_decks(keys.drop_last(), decks);
        if decks.contains_key(keys.last().owner) {
            rest.push(decks[keys.last().owner])
        } else {
            rest
        }
    }
}

/// The index keys of the non-empty decks of a list, in order.
pub open spec fn nonempty_deck_keys(s: Seq<DeckV>) -> Seq<DeckKey>
    decreases s.len(),
{
    if s.len() == 0 {
        Seq::empty()
    } else {
        let rest = nonempty_deck_keys(s.drop_last());
        if s.last().token_ids.len() > 0 {
            rest.push(DeckKey { owner: s.last().owner })
        } else {
            rest
        }
    }
}

/// The abstract contents of a `DeckBook`.
pub struct DeckBookV {
    pub decks: Map<AccountId, DeckV>,
    pub legacy: Option<Seq<DeckV>>,
    pub index: Seq<DeckKey>,
    pub count_written: bool,
    pub page_size: u32,
}

impl DeckBookV {
    pub open spec fn legacy_or_empty(self) -> Seq<DeckV> {
        match self.legacy {
            Some(s) => s,
            None => Seq::empty(),
        }
    }

    /// Every deck as stored (before the share is computed).
    pub open spec fn stored_all(self, pages_only: bool) -> Seq<DeckV> {
        if pages_only {
            paged_decks(self.index, self.decks)
        } else {
            self.legacy_or_empty()
        }
    }

    pub open spec fn count_spec(self, pages_only: bool) -> int {
        if self.index.len() == 0 && !pages_only && self.legacy_or_empty().len() > 0 {
            self.legacy_or_empty().len() as int
        } else {
            self.index.len() as int
        }
    }

    pub open spec fn page_spec(self, cursor: u32, limit: u32, pages_only: bool) -> Seq<DeckKey> {
        if limit == 0 {
            Seq::empty()
        } else if !pages_only && !self.count_written {
            window(self.legacy_or_empty(), cursor, limit).map_values(|d: DeckV| DeckKey { owner: d.owner })
        } else if cursor >= self.count_spec(pages_only) {
            Seq::empty()
        } else {
            let end = min_nat(min_nat(cursor + limit, u32::MAX as int), self.count_spec(pages_only));
            if cursor >= self.index.len() {
                Seq::empty()
            } else {
                self.index.subrange(cursor as int, min_nat(end, self.index.len() as int))
            }
        }
    }

    /// The book after `d` is written as `owner`'s deck.
    pub open spec fn write_spec(self, owner: AccountId, d: DeckV, pages_only: bool) -> DeckBookV {
        let key = DeckKey { owner };
        let slot = if self.index.contains(key) {
            Some(choose|i: int| 0 <= i < self.index.len() && self.index[i] == key && forall|j: int| 0 <= j < i ==> self.index[j] != key)
        } else {
            None
        };
        DeckBookV {
            decks: self.decks.insert(owner, d),
            legacy: if pages_only { self.legacy } else { Some(deck_upsert(self.legacy_or_empty(), owner, d)) },
            index: if d.token_ids.len() > 0 {
                if self.index.contains(key) { self.index } else { self.index.push(key) }
            } else {
                match slot {
                    Some(p) => swap_remove_spec(self.index, p),
                    None => self.index,
                }
            },
            count_written: self.count_written || (d.token_ids.len() > 0 && !self.index.contains(key))
                || (d.token_ids.len() == 0 && self.index.contains(key)),
            page_size: self.page_size,
        }
    }
}

pub struct DeckBook {
    decks: VecMap<AccountId, Deck>,
    legacy: Option<Vec<Deck>>,
    index: PagedList<DeckKey>,
}

impl View for DeckBook {
    type V = DeckBookV;

    closed spec fn view(&self) -> DeckBookV {
        DeckBookV {
            decks: self.decks@.map_values(|d: Deck| d@),
            legacy: match self.legacy {
                Some(v) => Some(v@.map_values(|d: Deck| d@)),
                None => None,
            },
            index: self.index@,
            count_written: self.index.count_written(),
            page_size: self.index.page_size(),
        }
    }
}

impl DeckBook {
    pub closed spec fn wf(self) -> bool {
        &&& self.decks.inv()
        &&& self.index.wf()
        &&& self.index@.no_duplicates()
        &&& forall|k: AccountId| #[trigger] self.decks@.contains_key(k) ==> deck_ok(self.decks@[k]@)
        &&& match self.legacy {
            Some(v) => v@.len() <= u32::MAX && forall|i: int| 0 <= i < v@.len() ==> deck_ok(#[trigger] v@[i]@),
            None => true,
        }
    }

    proof fn lemma_view_facts(self)
        requires
            self.wf(),
        ensures
            forall|k: AccountId| #[trigger] self@.decks.contains_key(k) ==> deck_ok(self@.decks[k]),
            forall|i: int| 0 <= i < self@.legacy_or_empty().len() ==> deck_ok(#[trigger] self@.legacy_or_empty()[i]),
            self@.legacy_or_empty().len() <= u32::MAX,
            self@.index.no_duplicates(),
    {
    }

    pub fn new(page_size: u32) -> (r: Self)
        requires
            page_size > 0,
        ensures
            r.wf(),
            r@.decks == Map::<AccountId, DeckV>::empty(),
            r@.legacy is None,
            r@.index == Seq::<DeckKey>::empty(),
            !r@.count_written,
            r@.page_size == page_size,
    {
        let r = DeckBook { decks: VecMap::new(), legacy: None, index: PagedList::new(page_size) };
        assert(r@.decks =~= Map::<AccountId, DeckV>::empty());
        r
    }

    /// Replaces the older global list, as a ledger carried over from before the
    /// paged index holds it.
    pub fn set_legacy(&mut self, list: Vec<Deck>)
        requires
            old(self).wf(),
            list@.len() <= u32::MAX,
            forall|i: int| 0 <= i < list@.len() ==> deck_ok(#[trigger] list@[i]@),
        ensures
            final(self).wf(),
            final(self)@ == (DeckBookV { legacy: Some(list@.map_values(|d: Deck| d@)), ..old(self)@ }),
    {
        self.legacy = Some(list);
    }

    /// Stores `deck` as `owner`'s without touching the older list or the index, as a
    /// ledger carried over from before the index holds it.
    pub fn load_stored(&mut self, owner: AccountId, deck: Deck)
        requires
            old(self).wf(),
            deck_ok(deck@),
        ensures
            final(self).wf(),
            final(self)@ == (DeckBookV { decks: old(self)@.decks.insert(owner, deck@), ..old(self)@ }),
    {
        let ghost dv = deck@;
        self.decks.insert(owner, deck);
        proof {
            assert(self.decks@.map_values(|d: Deck| d@) =~= old(self).decks@.map_values(|d: Deck| d@).insert(owner, dv));
        }
    }

    /// `owner`'s stored deck, copied.
    pub fn stored(&self, owner: &AccountId) -> (r: Option<Deck>)
        requires
            self.wf(),
        ensures
            match r {
                Some(d) => self@.decks.contains_key(*owner) && d@ == self@.decks[*owner] && deck_ok(d@),
                None => !self@.decks.contains_key(*owner),
            },
    {
        proof {
            self.lemma_view_facts();
        }
        match self.decks.get(owner) {
            Some(d) => Some(d.copy()),
            None => None,
        }
    }

    pub fn has_index_key(&self, owner: &AccountId) -> (b: bool)
        requires
            self.wf(),
        ensures
            b == self@.index.contains(DeckKey { owner: *owner }),
    {
        self.index.contains(&DeckKey { owner: *owner })
    }

    pub fn index_position(&self, owner: &AccountId) -> (r: Option<u32>)
        requires
            self.wf(),
        ensures
            match r {
                Some(i) => i < self@.index.len() && self@.index[i as int] == (DeckKey { owner: *owner }),
                None => !self@.index.contains(DeckKey { owner: *owner }),
            },
    {
        self.index.position_of(&DeckKey { owner: *owner })
    }

    /// Whether one more key fits in the index and in the older list.
    pub fn has_room(&self) -> (b: bool)
        requires
            self.wf(),
        ensures
            b == (self@.index.len() < u32::MAX && self@.legacy_or_empty().len() < u32::MAX),
    {
        let legacy_ok = match &self.legacy {
            Some(v) => v.len() < u32::MAX as usize,
            None => true,
        };
        self.index.count() < u32::MAX && legacy_ok
    }

    pub fn index_count(&self) -> (n: u32)
        requires
            self.wf(),
        ensures
            n == self@.index.len(),
    {
        self.index.count()
    }

    pub fn index_at(&self, idx: u32) -> (r: Option<DeckKey>)
        requires
            self.wf(),
        ensures
            r == (if idx < self@.index.len() { Some(self@.index[idx as int]) } else { None::<DeckKey> }),
    {
        self.index.at(idx)
    }

    fn find_owner(s: &Vec<Deck>, owner: &AccountId) -> (r: Option<usize>)
        ensures
            match r {
                Some(p) => p < s@.len() && first_owner_index(s@.map_values(|d: Deck| d@), *owner) == Some(p as int),
                None => first_owner_index(s@.map_values(|d: Deck| d@), *owner) is None,
            },
    {
        let ghost sv = s@.map_values(|d: Deck| d@);
        let mut i: usize = 0;
        while i < s.len()
            invariant
                i <= s@.len(),
                sv == s@.map_values(|d: Deck| d@),
                forall|j: int| 0 <= j < i ==> sv[j].owner != *owner,
            decreases s@.len() - i,
        {
            if s[i].owner.0 == owner.0 {
                proof {
                    assert(sv[i as int].owner == *owner);
                    let c = choose|c: int|
                        0 <= c < sv.len() && #[trigger] sv[c].owner == *owner && forall|j: int|
                            0 <= j < c ==> sv[j].owner != *owner;
                    assert(c == i);
                }
                return Some(i);
            }
            i = i + 1;
        }
        None
    }

    /// Writes `owner`'s deck. While `pages_only` is off the older list is kept in step.
    /// A non-empty deck puts `owner` in the index; an empty one takes them out.
    pub fn write(&mut self, owner: AccountId, deck: Deck, pages_only: bool)
        requires
            old(self).wf(),
            deck_ok(deck@),
            old(self)@.index.len() < u32::MAX,
            old(self)@.legacy_or_empty().len() < u32::MAX,
        ensures
            final(self).wf(),
            final(self)@ == old(self)@.write_spec(owner, deck@, pages_only),
    {
        let ghost dv = deck@;
        let nonempty: bool = deck.token_ids.len() > 0;
        if !pages_only {
            let copy = deck.copy();
            let mut list: Vec<Deck> = match self.legacy.take() {
                Some(v) => v,
                None => Vec::new(),
            };
            let ghost before = list@;
            match Self::find_owner(&list, &owner) {
                Some(p) => {
                    list.set(p, copy);
                    proof {
                        assert(list@.map_values(|d: Deck| d@) =~= before.map_values(|d: Deck| d@).update(p as int, dv));
                    }
                },
                None => {
                    list.push(copy);
                    proof {
                        assert(list@.map_values(|d: Deck| d@) =~= before.map_values(|d: Deck| d@).push(dv));
                    }
                },
            }
            self.legacy = Some(list);
        }
        self.decks.insert(owner, deck);
        proof {
            assert(self.decks@.map_values(|d: Deck| d@) =~= old(self).decks@.map_values(|d: Deck| d@).insert(owner, dv));
        }
        let key = DeckKey { owner };
        if nonempty {
            if !self.index.contains(&key) {
                let ghost s = self.index@;
                self.index.push(key);
                proof {
                    assert forall|a: int, b: int|
                        0 <= a < s.len() + 1 && 0 <= b < s.len() + 1 && a != b implies s.push(key)[a]
                        != s.push(key)[b] by {
                        if a < s.len() && b < s.len() {
                        } else if a < s.len() {
                            assert(s.contains(s[a]));
                        } else {
                            assert(s.contains(s[b]));
                        }
                    }
                }
            }
        } else {
            let ghost s = self.index@;
            let ghost slot = if s.contains(key) {
                Some(choose|i: int| 0 <= i < s.len() && s[i] == key && forall|j: int| 0 <= j < i ==> s[j] != key)
            } else {
                None
            };
            self.index.swap_remove_key(&key);
            proof {
                lemma_swap_remove_nodup_deck(s, key, slot);
            }
        }
        proof {
            assert(final(self)@.decks =~= old(self)@.write_spec(owner, dv, pages_only).decks);
            assert(final(self)@.legacy == old(self)@.write_spec(owner, dv, pages_only).legacy);
        }
    }

    /// Every deck with its share computed: in index order when `pages_only` is on,
    /// else the older list.
    pub fn read_all(&self, total_effective: u32, pages_only: bool) -> (r: Vec<Deck>)
        requires
            self.wf(),
        ensures
            r@.len() == self@.stored_all(pages_only).len(),
            forall|i: int| 0 <= i < r@.len() ==> (#[trigger] r@[i])@ == with_pct(self@.stored_all(pages_only)[i], total_effective),
    {
        let mut out: Vec<Deck> = Vec::new();
        if pages_only {
            let count: u32 = self.index.count();
            let mut idx: u32 = 0;
            while idx < count
                invariant
                    self.wf(),
                    count == self.index@.len(),
                    idx <= count,
                    out@.len() == paged_decks(self.index@.subrange(0, idx as int), self@.decks).len(),
                    forall|i: int| 0 <= i < out@.len() ==> (#[trigger] out@[i])@ == with_pct(paged_decks(self.index@.subrange(0, idx as int), self@.decks)[i], total_effective),
                decreases count - idx,
            {
                let ghost prefix = self.index@.subrange(0, idx as int);
                proof {
                    assert(self.index@.subrange(0, idx + 1).drop_last() =~= prefix);
                    self.lemma_view_facts();
                }
                match self.index.at(idx) {
                    Some(key) => {
                        match self.decks.get(&key.owner) {
                            Some(d) => {
                                let mut c = d.copy();
                                proof {
                                    assert(self@.decks.contains_key(key.owner));
                                    assert(self@.decks[key.owner] == d@);
                                }
                                c.haw_ai_percentage = Self::share(&c, total_effective);
                                out.push(c);
                            },
                            None => {},
                        }
                    },
                    None => {},
                }
                idx = idx + 1;
            }
            proof {
                assert(self.index@.subrange(0, count as int) =~= self.index@);
            }
            out
        } else {
            match &self.legacy {
                Some(v) => {
                    let ghost sv = v@.map_values(|d: Deck| d@);
                    let mut i: usize = 0;
                    while i < v.len()
                        invariant
                            self.wf(),
                            self.legacy == Some(*v),
                            sv == v@.map_values(|d: Deck| d@),
                            i <= v@.len(),
                            out@.len() == i,
                            forall|j: int| 0 <= j < i ==> (#[trigger] out@[j])@ == with_pct(sv[j], total_effective),
                        decreases v@.len() - i,
                    {
                        let mut c = v[i].copy();
                        proof {
                            assert(deck_ok(v@[i as int]@));
                        }
                        c.haw_ai_percentage = Self::share(&c, total_effective);
                        out.push(c);
                        i = i + 1;
                    }
                    out
                },
                None => out,
            }
        }
    }

    /// A deck's share of `total_effective` in basis points.
    pub fn share(d: &Deck, total_effective: u32) -> (r: u32)
        requires
            deck_ok(d@),
        ensures
            r == haw_pct_spec(d@, total_effective),
    {
        if total_effective > 0 {
            let eff: u64 = calculate_effective_power(d.total_power, d.bonus) as u64;
            ((eff * 10000) / (total_effective as u64)) as u32
        } else {
            0
        }
    }

    fn legacy_len(&self) -> (n: u32)
        requires
            self.wf(),
        ensures
            n == self@.legacy_or_empty().len(),
    {
        match &self.legacy {
            Some(v) => v.len() as u32,
            None => 0,
        }
    }

    pub fn count(&self, pages_only: bool) -> (n: u32)
        requires
            self.wf(),
        ensures
            n == self@.count_spec(pages_only),
    {
        let count: u32 = self.index.count();
        if count == 0 && !pages_only {
            let legacy: u32 = self.legacy_len();
            if legacy > 0 {
                return legacy;
            }
        }
        count
    }

    pub fn page(&self, cursor: u32, limit: u32, pages_only: bool) -> (r: Vec<DeckKey>)
        requires
            self.wf(),
        ensures
            r@ == self@.page_spec(cursor, limit, pages_only),
    {
        if limit == 0 {
            return Vec::new();
        }
        let count: u32 = self.count(pages_only);
        if !pages_only && !self.index.has_count() {
            let mut out: Vec<DeckKey> = Vec::new();
            match &self.legacy {
                Some(v) => {
                    let ghost sv = v@.map_values(|d: Deck| d@);
                    let total: u32 = v.len() as u32;
                    if cursor >= total {
                        return out;
                    }
                    let sum: u32 = cursor.saturating_add(limit);
                    let end: u32 = if sum < total { sum } else { total };
                    let mut i: u32 = cursor;
                    while i < end
                        invariant
                            cursor <= i <= end <= total,
                            total == v@.len(),
                            sv == v@.map_values(|d: Deck| d@),
                            out@ == sv.subrange(cursor as int, i as int).map_values(|d: DeckV| DeckKey { owner: d.owner }),
                        decreases end - i,
                    {
                        out.push(DeckKey { owner: v[i as usize].owner });
                        i = i + 1;
                        proof {
                            assert(out@ =~= sv.subrange(cursor as int, i as int).map_values(|d: DeckV| DeckKey { owner: d.owner }));
                        }
                    }
                    proof {
                        assert(window(sv, cursor, limit) == sv.subrange(cursor as int, end as int));
                    }
                },
                None => {
                    proof {
                        assert(window(Seq::<DeckV>::empty(), cursor, limit).map_values(|d: DeckV| DeckKey { owner: d.owner }) =~= Seq::<DeckKey>::empty());
                    }
                },
            }
            return out;
        }
        if cursor >= count {
            return Vec::new();
        }
        let sum: u32 = cursor.saturating_add(limit);
        let end: u32 = if sum < count { sum } else { count };
        self.index.window(cursor, end - cursor)
    }

    /// Adds to the index, in order, every player with a non-empty deck in slots
    /// `[start, min(start + limit, total))` of the global read that it lacks.
    pub fn migrate(&mut self, start: u32, limit: u32, pages_only: bool) -> (next: u32)
        requires
            old(self).wf(),
            old(self)@.index.len() + old(self)@.stored_all(pages_only).len() <= u32::MAX,
        ensures
            final(self).wf(),
            next == migrate_end(old(self)@.stored_all(pages_only).len() as int, start, limit),
            final(self)@.decks == old(self)@.decks,
            final(self)@.legacy == old(self)@.legacy,
            final(self)@.page_size == old(self)@.page_size,
            final(self)@.count_written == (old(self)@.count_written || final(self)@.index != old(self)@.index),
            final(self)@.index == migrate_index(
                old(self)@.index,
                nonempty_deck_keys(
                    old(self)@.stored_all(pages_only).subrange(
                        if start >= old(self)@.stored_all(pages_only).len() {
                            old(self)@.stored_all(pages_only).len() as int
                        } else {
                            start as int
                        },
                        next as int,
                    ),
                ),
            ),
    {
        let list: Vec<Deck> = self.read_all(0, pages_only);
        let ghost sall = old(self)@.stored_all(pages_only);
        let total: u32 = list.len() as u32;
        if start >= total {
            proof {
                assert(sall.subrange(total as int, total as int) =~= Seq::<DeckV>::empty());
            }
            return total;
        }
        let sum: u32 = start.saturating_add(limit);
        let end: u32 = if sum < total { sum } else { total };
        let mut idx: u32 = start;
        let ghost base = self.index@;
        while idx < end
            invariant
                self.wf(),
                start <= idx <= end <= total,
                total == list@.len(),
                list@.len() == sall.len(),
                forall|i: int| 0 <= i < list@.len() ==> (#[trigger] list@[i])@ == with_pct(sall[i], 0),
                base.len() + total <= u32::MAX,
                self.decks@ == old(self).decks@,
                self.legacy == old(self).legacy,
                self.index.page_size() == old(self).index.page_size(),
                self.index@ == migrate_index(base, nonempty_deck_keys(sall.subrange(start as int, idx as int))),
                base.len() <= self.index@.len() <= base.len() + (idx - start),
                self.index@.subrange(0, base.len() as int) == base,
                self.index.count_written() == (old(self).index.count_written() || self.index@.len() > base.len()),
                base == old(self).index@,
            decreases end - idx,
        {
            let ghost ks = nonempty_deck_keys(sall.subrange(start as int, idx + 1));
            proof {
                assert(sall.subrange(start as int, idx + 1).drop_last() =~= sall.subrange(start as int, idx as int));
                assert(sall.subrange(start as int, idx + 1).last() == sall[idx as int]);
                assert(list@[idx as int]@ == with_pct(sall[idx as int], 0));
                lemma_nonempty_keys_len(sall.subrange(start as int, idx as int));
            }
            let ghost rest = nonempty_deck_keys(sall.subrange(start as int, idx as int));
            if list[idx as usize].token_ids.len() > 0 {
                let key = DeckKey { owner: list[idx as usize].owner };
                proof {
                    assert(ks == rest.push(key));
                    assert(ks.drop_last() =~= rest);
                    assert(ks.last() == key);
                }
                if !self.index.contains(&key) {
                    let ghost before = self.index@;
                    self.index.push(key);
                    proof {
                        assert(self.index@.subrange(0, base.len() as int) =~= before.subrange(0, base.len() as int));
                        let s = before;
                        assert forall|a: int, b: int|
                            0 <= a < s.len() + 1 && 0 <= b < s.len() + 1 && a != b implies s.push(key)[a]
                            != s.push(key)[b] by {
                            if a < s.len() && b < s.len() {
                            } else if a < s.len() {
                                assert(s.contains(s[a]));
                            } else {
                                assert(s.contains(s[b]));
                            }
                        }
                    }
                }
            }
            else {
                proof {
                    assert(ks == rest);
                }
            }
            proof {
                lemma_nonempty_keys_len(sall.subrange(start as int, idx + 1));
                lemma_migrate_len(base, ks);
            }
            idx = idx + 1;
        }
        proof {
            if self.index@.len() == base.len() {
                assert(self.index@ =~= self.index@.subrange(0, base.len() as int));
            }
        }
        end
    }
}

proof fn lemma_nonempty_keys_len(s: Seq<DeckV>)
    ensures
        nonempty_deck_keys(s).len() <= s.len(),
    decreases s.len(),
{
    if s.len() > 0 {
        lemma_nonempty_keys_len(s.drop_last());
    }
}

proof fn lemma_migrate_len<K>(idx: Seq<K>, keys: Seq<K>)
    ensures
        migrate_index(idx, keys).len() <= idx.len() + keys.len(),
    decreases keys.len(),
{
    if keys.len() > 0 {
        lemma_migrate_len(idx, keys.drop_last());
    }
}

proof fn lemma_swap_remove_nodup_deck(s: Seq<DeckKey>, k: DeckKey, slot: Option<int>)
    requires
        s.no_duplicates(),
        slot == (if s.contains(k) {
            Some(choose|i: int| 0 <= i < s.len() && s[i] == k && forall|j: int| 0 <= j < i ==> s[j] != k)
        } else {
            None::<int>
        }),
    ensures
        match slot {
            Some(p) => swap_remove_spec(s, p).no_duplicates(),
            None => true,
        },
{
    match slot {
        Some(p) => {
            let i = choose|i: int| 0 <= i < s.len() && s[i] == k && forall|j: int| 0 <= j < i ==> s[j] != k;
            assert(0 <= p < s.len());
            let t = swap_remove_spec(s, p);
            assert forall|a: int, b: int| 0 <= a < t.len() && 0 <= b < t.len() && a != b implies t[a] != t[b] by {
                let a2 = if a == p { s.len() - 1 } else { a };
                let b2 = if b == p { s.len() - 1 } else { b };
                assert(t[a] == s[a2]);
                assert(t[b] == s[b2]);
            }
        },
        None => {},
    }
}

} // verus!
