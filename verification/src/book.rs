//! Storage of one kind of action record (stakes, fights, lendings or
//! borrowings): the records by key, the older global list that is kept
//! while `pages_only` is off, and the paged global index of keys.
use vstd::prelude::*;
use crate::types::ActionKey;
use crate::vec_map::VecMap;
use crate::paged::{PagedList, window, swap_remove_spec};

verus! {

/// A record that names the owner, category and card it belongs to.
pub trait Record: Copy + Sized {
    spec fn rkey(&self) -> ActionKey;

    fn key(&self) -> (k: ActionKey)
        ensures
            k == self.rkey(),
    ;
}

/// The keys of a list of records, in order.
pub open spec fn keys_of<R: Record>(s: Seq<R>) -> Seq<ActionKey> {
    s.map_values(|r: R| r.rkey())
}

/// The first slot of `s` whose record has key `k`.
pub open spec fn first_key_index<R: Record>(s: Seq<R>, k: ActionKey) -> Option<int> {
    if exists|i: int| 0 <= i < s.len() && #[trigger] s[i].rkey() == k {
        Some(
            choose|i: int|
                0 <= i < s.len() && #[trigger] s[i].rkey() == k && forall|j: int|
                    0 <= j < i ==> s[j].rkey() != k,
        )
    } else {
        None
    }
}

/// The list with the record of key `k` replaced by `r`, or with `r` appended.
pub open spec fn legacy_upsert<R: Record>(s: Seq<R>, k: ActionKey, r: R) -> Seq<R> {
    match first_key_index(s, k) {
        Some(p) => s.update(p, r),
        None => s.push(r),
    }
}

/// The list without its first record of key `k`.
pub open spec fn legacy_delete<R: Record>(s: Seq<R>, k: ActionKey) -> Seq<R> {
    match first_key_index(s, k) {
        Some(p) => s.remove(p),
        None => s,
    }
}

/// The records that the index lists, in index order, skipping keys without a record.
pub open spec fn paged_records<R>(keys: Seq<ActionKey>, recs: Map<ActionKey, R>) -> Seq<R>
    decreases keys.len(),
{
    if keys.len() == 0 {
        Seq::empty()
    } else {
        let rest = paged_records(keys.drop_last(), recs);
        if recs.contains_key(keys.last()) {
            rest.push(recs[keys.last()])
        } else {
            rest
        }
    }
}

/// The index after each key of `keys` that it lacks is appended, in order.
pub open spec fn migrate_index<K>(idx: Seq<K>, keys: Seq<K>) -> Seq<K>
    decreases keys.len(),
{
    if keys.len() == 0 {
        idx
    } else {
        let acc = migrate_index(idx, keys.drop_last());
        if acc.contains(keys.last()) {
            acc
        } else {
            acc.push(keys.last())
        }
    }
}

/// The slots `[start, min(start + limit, len))` that a migration step covers.
pub open spec fn migrate_end(len: int, start: u32, limit: u32) -> int {
    if start >= len {
        len
    } else {
        crate::paged::min_nat(crate::paged::min_nat(start + limit, u32::MAX as int), len)
    }
}

/// The abstract contents of an `ActionBook`.
pub struct BookV<R> {
    pub records: Map<ActionKey, R>,
    pub legacy: Option<Seq<R>>,
    pub index: Seq<ActionKey>,
    pub count_written: bool,
    pub page_size: u32,
}

impl<R: Record> BookV<R> {
    pub open spec fn legacy_or_empty(self) -> Seq<R> {
        match self.legacy {
            Some(s) => s,
            None => Seq::empty(),
        }
    }

    /// The book after `rec` is written under `k`.
    pub open spec fn write_spec(self, k: ActionKey, rec: R, pages_only: bool) -> BookV<R> {
        BookV {
            records: self.records.insert(k, rec),
            legacy: if pages_only { self.legacy } else { Some(legacy_upsert(self.legacy_or_empty(), k, rec)) },
            index: if self.index.contains(k) { self.index } else { self.index.push(k) },
            count_written: self.count_written || !self.index.contains(k),
            page_size: self.page_size,
        }
    }

    /// The first slot of the index holding `k`.
    pub open spec fn slot(self, k: ActionKey) -> Option<int> {
        if self.index.contains(k) {
            Some(choose|i: int| 0 <= i < self.index.len() && self.index[i] == k && forall|j: int| 0 <= j < i ==> self.index[j] != k)
        } else {
            None
        }
    }

    /// The book after the record under `k` is deleted.
    pub open spec fn remove_spec(self, k: ActionKey, pages_only: bool) -> BookV<R> {
        BookV {
            records: self.records.remove(k),
            legacy: if pages_only { self.legacy } else { Some(legacy_delete(self.legacy_or_empty(), k)) },
            index: match self.slot(k) {
                Some(p) => swap_remove_spec(self.index, p),
                None => self.index,
            },
            count_written: self.count_written || self.index.contains(k),
            page_size: self.page_size,
        }
    }

    pub open spec fn get(self, k: ActionKey) -> Option<R> {
        if self.records.contains_key(k) {
            Some(self.records[k])
        } else {
            None
        }
    }
}

pub struct ActionBook<R: Record> {
    records: VecMap<ActionKey, R>,
    legacy: Option<Vec<R>>,
    index: PagedList<ActionKey>,
}

impl<R: Record> View for ActionBook<R> {
    type V = BookV<R>;

    open spec fn view(&self) -> BookV<R> {
        BookV {
            records: self.records(),
            legacy: self.legacy(),
            index: self.index(),
            count_written: self.index_list().count_written(),
            page_size: self.index_list().page_size(),
        }
    }
}

impl<R: Record> ActionBook<R> {
    pub closed spec fn records(self) -> Map<ActionKey, R> {
        self.records@
    }

    /// The older global list, if it was ever stored.
    pub closed spec fn legacy(self) -> Option<Seq<R>> {
        match self.legacy {
            Some(v) => Some(v@),
            None => None,
        }
    }

    pub closed spec fn index(self) -> Seq<ActionKey> {
        self.index@
    }

    pub closed spec fn index_list(self) -> PagedList<ActionKey> {
        self.index
    }

    pub closed spec fn wf(self) -> bool {
        &&& self.records.inv()
        &&& self.index.wf()
        &&& self.index@.no_duplicates()
        &&& match self.legacy {
            Some(v) => v@.len() <= u32::MAX,
            None => true,
        }
    }

    /// A well-formed book holds at most `u32::MAX` keys in its index and in its older list.
    pub proof fn lemma_wf_lengths(self)
        requires
            self.wf(),
        ensures
            self.index().len() <= u32::MAX,
            self.legacy_or_empty().len() <= u32::MAX,
    {
        self.index.lemma_len();
    }

    /// The older list as read: empty when never stored.
    pub open spec fn legacy_or_empty(self) -> Seq<R> {
        match self.legacy() {
            Some(s) => s,
            None => Seq::empty(),
        }
    }

    /// Every record, as the global read returns them.
    pub open spec fn all_spec(self, pages_only: bool) -> Seq<R> {
        if pages_only {
            paged_records(self.index(), self.records())
        } else {
            self.legacy_or_empty()
        }
    }

    /// The number of entries as the count read returns it.
    pub open spec fn count_spec(self, pages_only: bool) -> int {
        if self.index().len() == 0 && !pages_only && self.legacy_or_empty().len() > 0 {
            self.legacy_or_empty().len() as int
        } else {
            self.index().len() as int
        }
    }

    /// A page of keys as the paged read returns it.
    pub open spec fn page_spec(self, cursor: u32, limit: u32, pages_only: bool) -> Seq<ActionKey> {
        if limit == 0 {
            Seq::empty()
        } else if !pages_only && !self.index_list().count_written() {
            keys_of(window(self.legacy_or_empty(), cursor, limit))
        } else if cursor >= self.count_spec(pages_only) {
            Seq::empty()
        } else {
            let end = crate::paged::min_nat(
                crate::paged::min_nat(cursor + limit, u32::MAX as int),
                self.count_spec(pages_only),
            );
            if cursor >= self.index().len() {
                Seq::empty()
            } else {
                self.index().subrange(cursor as int, crate::paged::min_nat(end, self.index().len() as int))
            }
        }
    }

    /// Replaces the older global list, as a ledger carried over from before the
    /// paged index holds it.
    pub fn set_legacy(&mut self, list: Vec<R>)
        requires
            old(self).wf(),
            list@.len() <= u32::MAX,
        ensures
            final(self).wf(),
            final(self)@ == (BookV { legacy: Some(list@), ..old(self)@ }),
    {
        self.legacy = Some(list);
    }

    pub fn new(page_size: u32) -> (r: Self)
        requires
            page_size > 0,
        ensures
            r.wf(),
            r.records() == Map::<ActionKey, R>::empty(),
            r.legacy() is None,
            r.index() == Seq::<ActionKey>::empty(),
            !r.index_list().count_written(),
            r.index_list().page_size() == page_size,
    {
        ActionBook { records: VecMap::new(), legacy: None, index: PagedList::new(page_size) }
    }

    /// The record stored under `k`.
    pub fn read(&self, k: &ActionKey) -> (r: Option<R>)
        requires
            self.wf(),
        ensures
            r == (if self.records().contains_key(*k) {
                Some(self.records()[*k])
            } else {
                None::<R>
            }),
    {
        match self.records.get(k) {
            Some(r) => Some(*r),
            None => None,
        }
    }

    pub fn index_page(&self, p: u32) -> (r: Vec<ActionKey>)
        requires
            self.wf(),
        ensures
            r@ == self.index_list().page_spec(p as int),
    {
        self.index.page(p)
    }

    pub fn index_position(&self, k: &ActionKey) -> (r: Option<u32>)
        requires
            self.wf(),
        ensures
            match r {
                Some(i) => i < self.index().len() && self.index()[i as int] == *k,
                None => !self.index().contains(*k),
            },
    {
        self.index.position_of(k)
    }

    /// Whether one more key fits in the index and in the older list.
    pub fn has_room(&self) -> (b: bool)
        requires
            self.wf(),
        ensures
            b == (self@.index.len() < u32::MAX && self@.legacy_or_empty().len() < u32::MAX),
    {
        let legacy_ok = match &self.legacy {
            Some(v) => v.len() < u32::MAX as usize,
            None => true,
        };
        self.index.count() < u32::MAX && legacy_ok
    }

    pub fn has_legacy(&self) -> (b: bool)
        ensures
            b == self.legacy() is Some,
    {
        self.legacy.is_some()
    }

    pub fn page_size(&self) -> (n: u32)
        ensures
            n == self.index_list().page_size(),
    {
        self.index.get_page_size()
    }

    fn legacy_find(s: &Vec<R>, k: &ActionKey) -> (r: Option<usize>)
        ensures
            match r {
                Some(p) => p < s@.len() && first_key_index(s@, *k) == Some(p as int),
                None => first_key_index(s@, *k) is None,
            },
    {
        let mut i: usize = 0;
        while i < s.len()
            invariant
                i <= s@.len(),
                forall|j: int| 0 <= j < i ==> s@[j].rkey() != *k,
            decreases s@.len() - i,
        {
            let rk = s[i].key();
            if rk == *k {
                proof {
                    assert(s@[i as int].rkey() == *k);
                    let c = choose|c: int|
                        0 <= c < s@.len() && #[trigger] s@[c].rkey() == *k && forall|j: int|
                            0 <= j < c ==> s@[j].rkey() != *k;
                    assert(c == i);
                }
                return Some(i);
            }
            i = i + 1;
        }
        None
    }

    /// Stores `rec` under `k`; keeps the older list in step while `pages_only` is off;
    /// adds `k` to the index when it is not there yet.
    pub fn write(&mut self, k: ActionKey, rec: R, pages_only: bool)
        requires
            old(self).wf(),
            old(self).index().len() < u32::MAX,
            old(self).legacy_or_empty().len() < u32::MAX,
        ensures
            final(self).wf(),
            final(self).records() == old(self).records().insert(k, rec),
            final(self).legacy() == (if pages_only {
                old(self).legacy()
            } else {
                Some(legacy_upsert(old(self).legacy_or_empty(), k, rec))
            }),
            final(self).index() == (if old(self).index().contains(k) {
                old(self).index()
            } else {
                old(self).index().push(k)
            }),
            final(self).index_list().count_written() == (old(self).index_list().count_written()
                || !old(self).index().contains(k)),
            final(self).index_list().page_size() == old(self).index_list().page_size(),
            final(self)@ == old(self)@.write_spec(k, rec, pages_only),
    {
        self.records.insert(k, rec);
        if !pages_only {
            let mut list: Vec<R> = match self.legacy.take() {
                Some(v) => v,
                None => Vec::new(),
            };
            let ghost before = list@;
            assert(before == old(self).legacy_or_empty());
            match Self::legacy_find(&list, &k) {
                Some(p) => {
                    list.set(p, rec);
                    assert(list@ == legacy_upsert(before, k, rec));
                },
                None => {
                    list.push(rec);
                    assert(list@ == legacy_upsert(before, k, rec));
                },
            }
            self.legacy = Some(list);
        }
        if !self.index.contains(&k) {
            self.index.push(k);
            proof {
                let s = old(self).index();
                assert forall|a: int, b: int|
                    0 <= a < s.len() + 1 && 0 <= b < s.len() + 1 && a != b implies s.push(
                    k,
                )[a] != s.push(k)[b] by {
                    if a < s.len() && b < s.len() {
                    } else if a < s.len() {
                        assert(s.contains(s[a]));
                    } else {
                        assert(s.contains(s[b]));
                    }
                }
            }
        }
    }

    /// Deletes the record under `k`, drops it from the older list while `pages_only`
    /// is off, and takes `k` out of the index (the last key moves into its slot).
    pub fn remove(&mut self, k: &ActionKey, pages_only: bool)
        requires
            old(self).wf(),
        ensures
            final(self).wf(),
            final(self).records() == old(self).records().remove(*k),
            final(self).legacy() == (if pages_only {
                old(self).legacy()
            } else {
                Some(legacy_delete(old(self).legacy_or_empty(), *k))
            }),
            final(self).index() == (match old(self).index_list().first_slot(*k) {
                Some(p) => swap_remove_spec(old(self).index(), p),
                None => old(self).index(),
            }),
            !final(self).index().contains(*k),
            final(self).index_list().count_written() == (old(self).index_list().count_written()
                || old(self).index().contains(*k)),
            final(self).index_list().page_size() == old(self).index_list().page_size(),
            final(self)@ == old(self)@.remove_spec(*k, pages_only),
    {
        self.records.remove(k);
        if !pages_only {
            let mut list: Vec<R> = match self.legacy.take() {
                Some(v) => v,
                None => Vec::new(),
            };
            match Self::legacy_find(&list, k) {
                Some(p) => {
                    list.remove(p);
                },
                None => {},
            }
            self.legacy = Some(list);
        }
        let ghost before = self.index@;
        self.index.swap_remove_key(k);
        proof {
            lemma_swap_remove_nodup(before, *k, old(self).index_list().first_slot(*k));
        }
    }

    /// Every record: in index order when `pages_only` is on, else the older list.
    pub fn read_all(&self, pages_only: bool) -> (r: Vec<R>)
        requires
            self.wf(),
        ensures
            r@ == self.all_spec(pages_only),
    {
        if pages_only {
            let count: u32 = self.index.count();
            let mut out: Vec<R> = Vec::new();
            let mut idx: u32 = 0;
            while idx < count
                invariant
                    self.wf(),
                    count == self.index@.len(),
                    idx <= count,
                    out@ == paged_records(self.index@.subrange(0, idx as int), self.records@),
                decreases count - idx,
            {
                let ghost prefix = self.index@.subrange(0, idx as int);
                proof {
                    assert(self.index@.subrange(0, idx + 1).drop_last() =~= prefix);
                }
                match self.index.at(idx) {
                    Some(key) => {
                        match self.records.get(&key) {
                            Some(r) => {
                                out.push(*r);
                            },
                            None => {},
                        }
                    },
                    None => {},
                }
                idx = idx + 1;
            }
            proof {
                assert(self.index@.subrange(0, count as int) =~= self.index@);
            }
            out
        } else {
            match &self.legacy {
                Some(v) => {
                    let mut out: Vec<R> = Vec::new();
                    let mut i: usize = 0;
                    while i < v.len()
                        invariant
                            i <= v@.len(),
                            out@ == v@.subrange(0, i as int),
                        decreases v@.len() - i,
                    {
                        out.push(v[i]);
                        i = i + 1;
                        proof {
                            assert(out@ =~= v@.subrange(0, i as int));
                        }
                    }
                    proof {
                        assert(v@.subrange(0, v@.len() as int) =~= v@);
                    }
                    out
                },
                None => Vec::new(),
            }
        }
    }

    fn legacy_len(&self) -> (n: u32)
        requires
            self.wf(),
        ensures
            n == self.legacy_or_empty().len(),
    {
        match &self.legacy {
            Some(v) => v.len() as u32,
            None => 0,
        }
    }

    /// The number of entries: the index's count, or the older list's length while the
    /// index is empty and `pages_only` is off.
    pub fn count(&self, pages_only: bool) -> (n: u32)
        requires
            self.wf(),
        ensures
            n == self.count_spec(pages_only),
    {
        let count: u32 = self.index.count();
        if count == 0 && !pages_only {
            let legacy: u32 = self.legacy_len();
            if legacy > 0 {
                return legacy;
            }
        }
        count
    }

    /// Up to `limit` keys starting at slot `cursor`: from the older list while the
    /// index's count was never stored and `pages_only` is off, else from the index.
    pub fn page(&self, cursor: u32, limit: u32, pages_only: bool) -> (r: Vec<ActionKey>)
        requires
            self.wf(),
        ensures
            r@ == self.page_spec(cursor, limit, pages_only),
    {
        if limit == 0 {
            return Vec::new();
        }
        let count: u32 = self.count(pages_only);
        if !pages_only && !self.index.has_count() {
            let mut out: Vec<ActionKey> = Vec::new();
            match &self.legacy {
                Some(v) => {
                    let total: u32 = v.len() as u32;
                    if cursor >= total {
                        return out;
                    }
                    let sum: u32 = cursor.saturating_add(limit);
                    let end: u32 = if sum < total { sum } else { total };
                    let mut i: u32 = cursor;
                    while i < end
                        invariant
                            cursor <= i <= end <= total,
                            total == v@.len(),
                            out@ == keys_of(v@.subrange(cursor as int, i as int)),
                        decreases end - i,
                    {
                        out.push(v[i as usize].key());
                        i = i + 1;
                        proof {
                            assert(out@ =~= keys_of(v@.subrange(cursor as int, i as int)));
                        }
                    }
                },
                None => {},
            }
            return out;
        }
        if cursor >= count {
            return Vec::new();
        }
        let sum: u32 = cursor.saturating_add(limit);
        let end: u32 = if sum < count { sum } else { count };
        self.index.window(cursor, end - cursor)
    }

    /// Adds to the index, in order, the key of every record in slots
    /// `[start, min(start + limit, total))` of the global read that the index lacks.
    /// Returns where the next step starts.
    pub fn migrate(&mut self, start: u32, limit: u32, pages_only: bool) -> (next: u32)
        requires
            old(self).wf(),
            old(self).index().len() + old(self).all_spec(pages_only).len() <= u32::MAX,
        ensures
            final(self).wf(),
            next == migrate_end(old(self).all_spec(pages_only).len() as int, start, limit),
            final(self).records() == old(self).records(),
            final(self).legacy() == old(self).legacy(),
            final(self).index() == migrate_index(
                old(self).index(),
                keys_of(
                    old(self).all_spec(pages_only).subrange(
                        if start >= old(self).all_spec(pages_only).len() {
                            old(self).all_spec(pages_only).len() as int
                        } else {
                            start as int
                        },
                        next as int,
                    ),
                ),
            ),
            final(self).index_list().page_size() == old(self).index_list().page_size(),
            final(self).index_list().count_written() ==> old(self).index_list().count_written()
                || final(self).index() != old(self).index(),
            old(self).index_list().count_written() ==> final(self).index_list().count_written(),
            final(self).index() != old(self).index() ==> final(self).index_list().count_written(),
    {
        let list: Vec<R> = self.read_all(pages_only);
        let total: u32 = list.len() as u32;
        if start >= total {
            proof {
                assert(keys_of(list@.subrange(total as int, total as int)) =~= Seq::<
                    ActionKey,
                >::empty());
            }
            return total;
        }
        let sum: u32 = start.saturating_add(limit);
        let end: u32 = if sum < total { sum } else { total };
        let mut idx: u32 = start;
        let ghost base = self.index@;
        while idx < end
            invariant
                self.wf(),
                start <= idx <= end <= total,
                total == list@.len(),
                base.len() + total <= u32::MAX,
                self.records@ == old(self).records@,
                self.legacy == old(self).legacy,
                self.index.page_size() == old(self).index.page_size(),
                self.index@ == migrate_index(
                    base,
                    keys_of(list@.subrange(start as int, idx as int)),
                ),
                self.index@.len() <= base.len() + (idx - start),
                self.index.count_written() ==> old(self).index.count_written() || self.index@
                    != base,
                old(self).index.count_written() ==> self.index.count_written(),
                self.index@ != base ==> self.index.count_written(),
                base == old(self).index@,
            decreases end - idx,
        {
            let rec: R = list[idx as usize];
            let k: ActionKey = rec.key();
            let ghost ks = keys_of(list@.subrange(start as int, idx + 1));
            proof {
                assert(ks.drop_last() =~= keys_of(list@.subrange(start as int, idx as int)));
                assert(ks.last() == k);
            }
            if !self.index.contains(&k) {
                let ghost before = self.index@;
                self.index.push(k);
                proof {
                    let s = before;
                    assert forall|a: int, b: int|
                        0 <= a < s.len() + 1 && 0 <= b < s.len() + 1 && a != b implies s.push(
                        k,
                    )[a] != s.push(k)[b] by {
                        if a < s.len() && b < s.len() {
                        } else if a < s.len() {
                            assert(s.contains(s[a]));
                        } else {
                            assert(s.contains(s[b]));
                        }
                    }
                    lemma_migrate_index_grows(base, ks.drop_last());
                    assert(self.index@.len() > base.len());
                }
            }
            idx = idx + 1;
        }
        end
    }
}

proof fn lemma_swap_remove_nodup(s: Seq<ActionKey>, k: ActionKey, slot: Option<int>)
    requires
        s.no_duplicates(),
        slot == (if s.contains(k) {
            Some(
                choose|i: int|
                    0 <= i < s.len() && s[i] == k && forall|j: int| 0 <= j < i ==> s[j] != k,
            )
        } else {
            None::<int>
        }),
    ensures
        match slot {
            Some(p) => swap_remove_spec(s, p).no_duplicates() && !swap_remove_spec(s, p).contains(
                k,
            ),
            None => !s.contains(k),
        },
{
    match slot {
        Some(p) => {
            let i = choose|i: int| 0 <= i < s.len() && s[i] == k && forall|j: int| 0 <= j < i ==> s[j] != k;
            assert(0 <= p < s.len() && s[p] == k);
            let t = swap_remove_spec(s, p);
            assert forall|a: int, b: int| 0 <= a < t.len() && 0 <= b < t.len() && a != b implies t[a]
                != t[b] by {
                let a2 = if a == p { s.len() - 1 } else { a };
                let b2 = if b == p { s.len() - 1 } else { b };
                assert(t[a] == s[a2]);
                assert(t[b] == s[b2]);
            }
            if t.contains(k) {
                let a = choose|a: int| 0 <= a < t.len() && t[a] == k;
                let a2 = if a == p { s.len() - 1 } else { a };
                assert(t[a] == s[a2]);
            }
        },
        None => {},
    }
}

proof fn lemma_migrate_index_grows<K>(idx: Seq<K>, keys: Seq<K>)
    ensures
        migrate_index(idx, keys).len() >= idx.len(),
        migrate_index(idx, keys).len() <= idx.len() + keys.len(),
        migrate_index(idx, keys).subrange(0, idx.len() as int) == idx,
    decreases keys.len(),
{
    if keys.len() > 0 {
        lemma_migrate_index_grows(idx, keys.drop_last());
        let acc = migrate_index(idx, keys.drop_last());
        if !acc.contains(keys.last()) {
            assert(acc.push(keys.last()).subrange(0, idx.len() as int) =~= acc.subrange(
                0,
                idx.len() as int,
            ));
        }
    }
}

/// Every key that a migration covers ends up in the index.
pub proof fn lemma_migrate_index_contains<K>(idx: Seq<K>, keys: Seq<K>)
    ensures
        forall|i: int| 0 <= i < keys.len() ==> migrate_index(idx, keys).contains(#[trigger] keys[i]),
        forall|x: K| idx.contains(x) ==> migrate_index(idx, keys).contains(x),
    decreases keys.len(),
{
    if keys.len() > 0 {
        lemma_migrate_index_contains(idx, keys.drop_last());
        let acc = migrate_index(idx, keys.drop_last());
        assert forall|i: int| 0 <= i < keys.len() implies migrate_index(idx, keys).contains(
            #[trigger] keys[i],
        ) by {
            if i < keys.len() - 1 {
                assert(keys.drop_last()[i] == keys[i]);
                assert(acc.contains(keys[i]));
                if !acc.contains(keys.last()) {
                    let j = choose|j: int| 0 <= j < acc.len() && acc[j] == keys[i];
                    assert(acc.push(keys.last())[j] == keys[i]);
                }
            } else {
                if !acc.contains(keys.last()) {
                    assert(acc.push(keys.last())[acc.len() as int] == keys.last());
                }
            }
        }
        assert forall|x: K| idx.contains(x) implies migrate_index(idx, keys).contains(x) by {
            if !acc.contains(keys.last()) {
                let j = choose|j: int| 0 <= j < acc.len() && acc[j] == x;
                assert(acc.push(keys.last())[j] == x);
            }
        }
    }
}

/// Migrating keys into an index that already holds all of them changes nothing.
pub proof fn lemma_migrate_index_noop<K>(idx: Seq<K>, keys: Seq<K>)
    requires
        forall|i: int| 0 <= i < keys.len() ==> idx.contains(#[trigger] keys[i]),
    ensures
        migrate_index(idx, keys) == idx,
    decreases keys.len(),
{
    if keys.len() > 0 {
        assert forall|i: int| 0 <= i < keys.drop_last().len() implies idx.contains(
            #[trigger] keys.drop_last()[i],
        ) by {
            assert(keys.drop_last()[i] == keys[i]);
        }
        lemma_migrate_index_noop(idx, keys.drop_last());
        assert(idx.contains(keys[keys.len() - 1]));
    }
}

/// A migration step is idempotent: running it again on its own result adds nothing.
pub proof fn lemma_migrate_idempotent<K>(idx: Seq<K>, keys: Seq<K>)
    ensures
        migrate_index(migrate_index(idx, keys), keys) == migrate_index(idx, keys),
{
    lemma_migrate_index_contains(idx, keys);
    lemma_migrate_index_noop(migrate_index(idx, keys), keys);
}

/// Migrating a list of distinct keys into an empty index copies the list: the key in
/// slot `i` of the list gets position `i`.
pub proof fn lemma_migrate_from_empty<K>(keys: Seq<K>)
    requires
        keys.no_duplicates(),
    ensures
        migrate_index(Seq::<K>::empty(), keys) == keys,
    decreases keys.len(),
{
    if keys.len() > 0 {
        let d = keys.drop_last();
        assert(d.no_duplicates());
        lemma_migrate_from_empty(d);
        if d.contains(keys.last()) {
            let j = choose|j: int| 0 <= j < d.len() && d[j] == keys.last();
            assert(keys[j] == keys[keys.len() - 1]);
        }
        assert(d.push(keys.last()) =~= keys);
    }
}

} // verus!
