//! Paged global indexes: an ordered list of keys read page by page, where a
//! key's position is its slot and removal moves the last key into the hole.
use vstd::prelude::*;
use crate::vec_map::MapKey;

verus! {

pub const PAGE_SIZE_STAKES: u32 = 50;

pub const PAGE_SIZE_FIGHTS: u32 = 50;

pub const PAGE_SIZE_LENDINGS: u32 = 50;

pub const PAGE_SIZE_BORROWINGS: u32 = 50;

pub const PAGE_SIZE_DECKS: u32 = 50;

pub const PAGE_SIZE_ROUNDS: u32 = 50;

/// A paged list: slot `i` lives on page `i / page_size` at offset `i % page_size`.
/// `count_written` records whether the list's count was ever stored.
pub struct PagedList<T: MapKey> {
    items: Vec<T>,
    page_size: u32,
    count_written: bool,
}

pub open spec fn min_nat(a: int, b: int) -> int {
    if a <= b { a } else { b }
}

/// The slots `[cursor, min(cursor + limit, count))`, saturating `cursor + limit` at
/// `u32::MAX`, or nothing where `cursor` is past the end.
pub open spec fn window<T>(s: Seq<T>, cursor: u32, limit: u32) -> Seq<T> {
    if cursor >= s.len() {
        Seq::empty()
    } else {
        s.subrange(
            cursor as int,
            min_nat(min_nat(cursor + limit, u32::MAX as int), s.len() as int),
        )
    }
}

impl<T: MapKey> PagedList<T> {
    pub closed spec fn spec_items(self) -> Seq<T> {
        self.items@
    }

    pub closed spec fn page_size(self) -> u32 {
        self.page_size
    }

    /// Whether the list's count has been stored at least once.
    pub closed spec fn count_written(self) -> bool {
        self.count_written
    }

    /// The count fits in a `u32` and pages are not empty.
    pub closed spec fn wf(self) -> bool {
        &&& self.items@.len() <= u32::MAX
        &&& self.page_size > 0
    }

    /// The keys on page `p`.
    pub open spec fn page_spec(self, p: int) -> Seq<T> {
        let n = self@.len() as int;
        let ps = self.page_size() as int;
        self@.subrange(min_nat(p * ps, n), min_nat((p + 1) * ps, n))
    }

    /// A well-formed list holds at most `u32::MAX` keys.
    pub proof fn lemma_len(self)
        requires
            self.wf(),
        ensures
            self@.len() <= u32::MAX,
    {
    }

    pub fn new(page_size: u32) -> (r: Self)
        requires
            page_size > 0,
        ensures
            r.wf(),
            r@ == Seq::<T>::empty(),
            r.page_size() == page_size,
            !r.count_written(),
    {
        PagedList { items: Vec::new(), page_size, count_written: false }
    }

    pub fn count(&self) -> (n: u32)
        requires
            self.wf(),
        ensures
            n == self@.len(),
    {
        self.items.len() as u32
    }

    pub fn has_count(&self) -> (b: bool)
        ensures
            b == self.count_written(),
    {
        self.count_written
    }

    pub fn get_page_size(&self) -> (n: u32)
        ensures
            n == self.page_size(),
    {
        self.page_size
    }

    /// The key in slot `idx`, if the list is that long.
    pub fn at(&self, idx: u32) -> (r: Option<T>)
        ensures
            r == (if idx < self@.len() { Some(self@[idx as int]) } else { None::<T> }),
    {
        if (idx as usize) < self.items.len() {
            Some(self.items[idx as usize])
        } else {
            None
        }
    }

    /// The keys stored on page `p`.
    pub fn page(&self, p: u32) -> (r: Vec<T>)
        requires
            self.wf(),
        ensures
            r@ == self.page_spec(p as int),
    {
        let n: u64 = self.items.len() as u64;
        let ps: u64 = self.page_size as u64;
        proof {
            assert((p as int) * (ps as int) <= (u32::MAX as int) * (u32::MAX as int)) by (nonlinear_arith)
                requires
                    p <= u32::MAX,
                    ps <= u32::MAX,
            ;
            assert(((p as int) + 1) * (ps as int) == (p as int) * (ps as int) + ps) by (nonlinear_arith);
        }
        let start: u64 = if (p as u64) * ps < n { (p as u64) * ps } else { n };
        let end: u64 = if (p as u64) * ps + ps < n { (p as u64) * ps + ps } else { n };
        let mut out: Vec<T> = Vec::new();
        let mut i: u64 = start;
        while i < end
            invariant
                start <= i <= end <= n,
                n == self.items@.len(),
                self.items@.len() <= usize::MAX,
                out@ == self.items@.subrange(start as int, i as int),
            decreases end - i,
        {
            proof {
                assert((i as usize) as int == i as int);
            }
            out.push(self.items[i as usize]);
            i = i + 1;
            proof {
                assert(out@ =~= self.items@.subrange(start as int, i as int));
            }
        }
        out
    }

    /// The keys in slots `[cursor, min(cursor + limit, count))`.
    pub fn window(&self, cursor: u32, limit: u32) -> (r: Vec<T>)
        requires
            self.wf(),
        ensures
            r@ == window(self@, cursor, limit),
    {
        let n: u32 = self.items.len() as u32;
        let mut out: Vec<T> = Vec::new();
        if cursor >= n {
            return out;
        }
        let sum: u32 = cursor.saturating_add(limit);
        let end: u32 = if sum < n { sum } else { n };
        let mut i: u32 = cursor;
        while i < end
            invariant
                cursor <= i <= end <= n,
                n == self.items@.len(),
                out@ == self.items@.subrange(cursor as int, i as int),
            decreases end - i,
        {
            out.push(self.items[i as usize]);
            i = i + 1;
            proof {
                assert(out@ =~= self.items@.subrange(cursor as int, i as int));
            }
        }
        out
    }

    /// The slot of `k`, if it is in the list.
    pub fn position_of(&self, k: &T) -> (r: Option<u32>)
        requires
            self.wf(),
        ensures
            match r {
                Some(i) => i < self@.len() && self@[i as int] == *k && forall|j: int|
                    0 <= j < i ==> self@[j] != *k,
                None => !self@.contains(*k),
            },
    {
        let mut i: usize = 0;
        while i < self.items.len()
            invariant
                i <= self.items@.len() <= u32::MAX,
                forall|j: int| 0 <= j < i ==> self.items@[j] != *k,
            decreases self.items@.len() - i,
        {
            if self.items[i].key_eq(k) {
                return Some(i as u32);
            }
            i = i + 1;
        }
        None
    }

    pub fn contains(&self, k: &T) -> (b: bool)
        requires
            self.wf(),
        ensures
            b == self@.contains(*k),
    {
        self.position_of(k).is_some()
    }

    /// Appends `k` in the next slot and stores the new count.
    pub fn push(&mut self, k: T)
        requires
            old(self).wf(),
            old(self)@.len() < u32::MAX,
        ensures
            final(self).wf(),
            final(self)@ == old(self)@.push(k),
            final(self).page_size() == old(self).page_size(),
            final(self).count_written(),
    {
        self.items.push(k);
        self.count_written = true;
    }

    /// Removes `k`: the last key moves into its slot and the count drops by one.
    /// A key that is not in the list leaves it unchanged.
    pub fn swap_remove_key(&mut self, k: &T)
        requires
            old(self).wf(),
        ensures
            final(self).wf(),
            final(self).page_size() == old(self).page_size(),
            match old(self).first_slot(*k) {
                Some(p) => final(self)@ == swap_remove_spec(old(self)@, p) && final(self).count_written(),
                None => final(self)@ == old(self)@ && final(self).count_written() == old(self).count_written(),
            },
    {
        match self.position_of(k) {
            None => {},
            Some(pos) => {
                let last: usize = self.items.len() - 1;
                if (pos as usize) != last {
                    let moved = self.items[last];
                    self.items.set(pos as usize, moved);
                }
                self.items.pop();
                self.count_written = true;
                proof {
                    assert(final(self).items@ =~= swap_remove_spec(old(self)@, pos as int));
                }
            },
        }
    }

    /// The first slot holding `k`.
    pub open spec fn first_slot(self, k: T) -> Option<int> {
        if self@.contains(k) {
            Some(choose|i: int| 0 <= i < self@.len() && self@[i] == k && forall|j: int| 0 <= j < i ==> self@[j] != k)
        } else {
            None
        }
    }
}

/// The list after the key in slot `p` is removed and the last key takes its place.
pub open spec fn swap_remove_spec<T>(s: Seq<T>, p: int) -> Seq<T> {
    if p == s.len() - 1 {
        s.drop_last()
    } else {
        s.update(p, s.last()).drop_last()
    }
}

impl<T: MapKey> View for PagedList<T> {
    type V = Seq<T>;

    open spec fn view(&self) -> Seq<T> {
        self.spec_items()
    }
}

/// Slot `i` of a list lives on page `i / page_size`, at offset `i % page_size`.
pub proof fn lemma_slot_on_page<T: MapKey>(l: PagedList<T>, i: int)
    requires
        l.wf(),
        0 <= i < l@.len(),
    ensures
        0 <= i % (l.page_size() as int) < l.page_spec(i / (l.page_size() as int)).len(),
        l.page_spec(i / (l.page_size() as int))[i % (l.page_size() as int)] == l@[i],
{
    let ps = l.page_size() as int;
    let p = i / ps;
    let off = i % ps;
    assert(p * ps + off == i && 0 <= off < ps) by (nonlinear_arith)
        requires
            ps > 0,
            p == i / ps,
            off == i % ps,
            i >= 0,
    ;
    assert((p + 1) * ps == p * ps + ps) by (nonlinear_arith);
    assert(p * ps >= 0) by (nonlinear_arith)
        requires
            p >= 0,
            ps > 0,
    ;
    assert(p >= 0) by (nonlinear_arith)
        requires
            ps > 0,
            p == i / ps,
            i >= 0,
    ;
}

} // verus!
