//! Storage of the opened rounds: the older global list kept while
//! `pages_only` is off, and the paged list of rounds.
use vstd::prelude::*;
use crate::paged::{PagedList, window, min_nat};
use crate::book::{migrate_end, migrate_index};

verus! {

/// The abstract contents of a `RoundBook`.
pub struct RoundBookV {
    pub legacy: Option<Seq<u32>>,
    pub index: Seq<u32>,
    pub count_written: bool,
    pub page_size: u32,
}

impl RoundBookV {
    pub open spec fn legacy_or_empty(self) -> Seq<u32> {
        match self.legacy {
            Some(s) => s,
            None => Seq::empty(),
        }
    }

    pub open spec fn all_spec(self, pages_only: bool) -> Seq<u32> {
        if pages_only {
            self.index
        } else {
            self.legacy_or_empty()
        }
    }

    pub open spec fn count_spec(self, pages_only: bool) -> int {
        if self.index.len() == 0 && !pages_only && self.legacy_or_empty().len() > 0 {
            self.legacy_or_empty().len() as int
        } else {
            self.index.len() as int
        }
    }

    pub open spec fn page_spec(self, cursor: u32, limit: u32, pages_only: bool) -> Seq<u32> {
        if limit == 0 {
            Seq::empty()
        } else if !pages_only && !self.count_written {
            window(self.legacy_or_empty(), cursor, limit)
        } else if cursor >= self.count_spec(pages_only) {
            Seq::empty()
        } else {
            let end = min_nat(min_nat(cursor + limit, u32::MAX as int), self.count_spec(pages_only));
            if cursor >= self.index.len() {
                Seq::empty()
            } else {
                self.index.subrange(cursor as int, min_nat(end, self.index.len() as int))
            }
        }
    }

    /// The book after `round` is recorded as opened.
    pub open spec fn add_spec(self, round: u32, pages_only: bool) -> RoundBookV {
        let legacy_len: int = if pages_only { 0 } else { self.legacy_or_empty().len() as int + 1 };
        let push = pages_only || self.index.len() < legacy_len;
        RoundBookV {
            legacy: if pages_only { self.legacy } else { Some(self.legacy_or_empty().push(round)) },
            index: if push { self.index.push(round) } else { self.index },
            count_written: self.count_written || push,
            page_size: self.page_size,
        }
    }

    /// The book after a migration step: each round in slots `[start, start + limit)` of
    /// the global read that the paged list lacks is appended, in order.
    pub open spec fn migrate_spec(self, start: u32, limit: u32, pages_only: bool) -> RoundBookV {
        let all = self.all_spec(pages_only);
        let end = migrate_end(all.len() as int, start, limit);
        let from: int = if start >= all.len() { all.len() as int } else { start as int };
        let index = migrate_index(self.index, all.subrange(from, end));
        RoundBookV {
            index,
            count_written: self.count_written || index != self.index,
            ..self
        }
    }
}

pub struct RoundBook {
    legacy: Option<Vec<u32>>,
    index: PagedList<u32>,
}

impl View for RoundBook {
    type V = RoundBookV;

    closed spec fn view(&self) -> RoundBookV {
        RoundBookV {
            legacy: match self.legacy {
                Some(v) => Some(v@),
                None => None,
            },
            index: self.index@,
            count_written: self.index.count_written(),
            page_size: self.index.page_size(),
        }
    }
}

impl RoundBook {
    pub closed spec fn wf(self) -> bool {
        &&& self.index.wf()
        &&& match self.legacy {
            Some(v) => v@.len() <= u32::MAX,
            None => true,
        }
    }

    pub fn new(page_size: u32) -> (r: Self)
        requires
            page_size > 0,
        ensures
            r.wf(),
            r@.legacy is None,
            r@.index == Seq::<u32>::empty(),
            !r@.count_written,
            r@.page_size == page_size,
    {
        RoundBook { legacy: None, index: PagedList::new(page_size) }
    }

    /// Replaces the older global list, as a ledger carried over from before the
    /// paged list holds it.
    pub fn set_legacy(&mut self, list: Vec<u32>)
        requires
            old(self).wf(),
            list@.len() <= u32::MAX,
        ensures
            final(self).wf(),
            final(self)@ == (RoundBookV { legacy: Some(list@), ..old(self)@ }),
    {
        self.legacy = Some(list);
    }

    pub fn index_page(&self, p: u32) -> (r: Vec<u32>)
        requires
            self.wf(),
        ensures
            r@ == self.index_list().page_spec(p as int),
    {
        self.index.page(p)
    }

    pub closed spec fn index_list(self) -> PagedList<u32> {
        self.index
    }

    /// Whether one more round fits in the index and in the older list.
    pub fn has_room(&self) -> (b: bool)
        requires
            self.wf(),
        ensures
            b == (self@.index.len() < u32::MAX && self@.legacy_or_empty().len() < u32::MAX),
    {
        let legacy_ok = match &self.legacy {
            Some(v) => v.len() < u32::MAX as usize,
            None => true,
        };
        self.index.count() < u32::MAX && legacy_ok
    }

    pub fn has_legacy(&self) -> (b: bool)
        ensures
            b == self@.legacy is Some,
    {
        self.legacy.is_some()
    }

    fn copy_vec(v: &Vec<u32>) -> (r: Vec<u32>)
        ensures
            r@ == v@,
    {
        let mut out: Vec<u32> = Vec::new();
        let mut i: usize = 0;
        while i < v.len()
            invariant
                i <= v@.len(),
                out@ == v@.subrange(0, i as int),
            decreases v@.len() - i,
        {
            out.push(v[i]);
            i = i + 1;
            proof {
                assert(out@ =~= v@.subrange(0, i as int));
            }
        }
        proof {
            assert(v@.subrange(0, v@.len() as int) =~= v@);
        }
        out
    }

    /// Every opened round: the paged list when `pages_only` is on, else the older list.
    pub fn all(&self, pages_only: bool) -> (r: Vec<u32>)
        requires
            self.wf(),
        ensures
            r@ == self@.all_spec(pages_only),
    {
        if pages_only {
            let n: u32 = self.index.count();
            let w = self.index.window(0, n);
            proof {
                assert(self.index@.subrange(0, n as int) =~= self.index@);
            }
            w
        } else {
            match &self.legacy {
                Some(v) => Self::copy_vec(v),
                None => Vec::new(),
            }
        }
    }

    fn legacy_len(&self) -> (n: u32)
        requires
            self.wf(),
        ensures
            n == self@.legacy_or_empty().len(),
    {
        match &self.legacy {
            Some(v) => v.len() as u32,
            None => 0,
        }
    }

    pub fn count(&self, pages_only: bool) -> (n: u32)
        requires
            self.wf(),
        ensures
            n == self@.count_spec(pages_only),
    {
        let count: u32 = self.index.count();
        if count == 0 && !pages_only {
            let legacy: u32 = self.legacy_len();
            if legacy > 0 {
                return legacy;
            }
        }
        count
    }

    pub fn page(&self, cursor: u32, limit: u32, pages_only: bool) -> (r: Vec<u32>)
        requires
            self.wf(),
        ensures
            r@ == self@.page_spec(cursor, limit, pages_only),
    {
        if limit == 0 {
            return Vec::new();
        }
        let count: u32 = self.count(pages_only);
        if !pages_only && !self.index.has_count() {
            let list = self.all(false);
            let n: u32 = list.len() as u32;
            let mut out: Vec<u32> = Vec::new();
            if cursor >= n {
                return out;
            }
            let sum: u32 = cursor.saturating_add(limit);
            let end: u32 = if sum < n { sum } else { n };
            let mut i: u32 = cursor;
            while i < end
                invariant
                    cursor <= i <= end <= n,
                    n == list@.len(),
                    out@ == list@.subrange(cursor as int, i as int),
                decreases end - i,
            {
                out.push(list[i as usize]);
                i = i + 1;
                proof {
                    assert(out@ =~= list@.subrange(cursor as int, i as int));
                }
            }
            return out;
        }
        if cursor >= count {
            return Vec::new();
        }
        let sum: u32 = cursor.saturating_add(limit);
        let end: u32 = if sum < count { sum } else { count };
        self.index.window(cursor, end - cursor)
    }

    /// Records `round` as opened.
    pub fn add(&mut self, round: u32, pages_only: bool)
        requires
            old(self).wf(),
            old(self)@.index.len() < u32::MAX,
            old(self)@.legacy_or_empty().len() < u32::MAX,
        ensures
            final(self).wf(),
            final(self)@ == old(self)@.add_spec(round, pages_only),
    {
        let mut legacy_len: u32 = 0;
        if !pages_only {
            let mut list: Vec<u32> = match self.legacy.take() {
                Some(v) => v,
                None => Vec::new(),
            };
            list.push(round);
            legacy_len = list.len() as u32;
            self.legacy = Some(list);
        }
        let stored: u32 = self.index.count();
        if pages_only {
            self.index.push(round);
        } else if stored < legacy_len {
            self.index.push(round);
        }
    }

    /// Appends to the paged list, in order, each round in slots
    /// `[start, min(start + limit, total))` of the global read that it lacks. Returns
    /// where the next step starts.
    pub fn migrate(&mut self, start: u32, limit: u32, pages_only: bool) -> (next: u32)
        requires
            old(self).wf(),
            old(self)@.index.len() + old(self)@.all_spec(pages_only).len() <= u32::MAX,
        ensures
            final(self).wf(),
            next == migrate_end(old(self)@.all_spec(pages_only).len() as int, start, limit),
            final(self)@ == old(self)@.migrate_spec(start, limit, pages_only),
    {
        let list = self.all(pages_only);
        let total: u32 = list.len() as u32;
        if start >= total {
            proof {
                assert(list@.subrange(total as int, total as int) =~= Seq::<u32>::empty());
                assert(final(self)@ =~= old(self)@.migrate_spec(start, limit, pages_only));
            }
            return total;
        }
        let sum: u32 = start.saturating_add(limit);
        let end: u32 = if sum < total { sum } else { total };
        let ghost base = self.index@;
        let mut idx: u32 = start;
        while idx < end
            invariant
                self.wf(),
                start <= idx <= end <= total,
                total == list@.len(),
                base.len() + total <= u32::MAX,
                self.legacy == old(self).legacy,
                self.index.page_size() == old(self).index.page_size(),
                self.index@ == migrate_index(base, list@.subrange(start as int, idx as int)),
                base.len() <= self.index@.len() <= base.len() + (idx - start),
                self.index@.subrange(0, base.len() as int) == base,
                self.index.count_written() == (old(self).index.count_written() || self.index@.len() > base.len()),
                base == old(self).index@,
            decreases end - idx,
        {
            let r: u32 = list[idx as usize];
            let ghost ks = list@.subrange(start as int, idx + 1);
            proof {
                assert(ks.drop_last() =~= list@.subrange(start as int, idx as int));
                assert(ks.last() == r);
            }
            if !self.index.contains(&r) {
                let ghost before = self.index@;
                self.index.push(r);
                proof {
                    assert(self.index@.subrange(0, base.len() as int) =~= before.subrange(0, base.len() as int));
                }
            }
            idx = idx + 1;
        }
        proof {
            if self.index@.len() == base.len() {
                assert(self.index@ =~= self.index@.subrange(0, base.len() as int));
            }
            assert(final(self)@ =~= old(self)@.migrate_spec(start, limit, pages_only));
        }
        end
    }
}

} // verus!
