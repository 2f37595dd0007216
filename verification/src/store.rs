//! The interval heap and its result cache.
//!
//! The live partition of the integration domain is a set of intervals, each
//! with its error estimate and its cached result vector. The engine needs
//! two reads of that set: the entry of largest error (the heap) and the
//! result vector under a given interval key (the cache). `IntervalStore`
//! keeps one sequence, ordered by ascending error, with the key-to-result
//! mapping over it; pushing and popping maintain both reads atomically, so
//! the invariant of the design - every interval in the heap has exactly one
//! cache entry under the same key, and vice versa - holds by construction.
//!
//! Interval keys are the raw endpoint bit patterns, compared bit-for-bit.
//! Error estimates are compared in the IEEE value order; NaN errors are
//! never admitted.

use vstd::prelude::*;
use crate::dbits::{dlt, is_nan_bits, val_key};

verus! {

/// An entry popped from the store: the interval, its error estimate and its
/// cached result vector.
pub struct Popped {
    pub x: u64,
    pub y: u64,
    pub err: u64,
    pub res: Vec<u64>,
}

struct Entry {
    x: u64,
    y: u64,
    err: u64,
    res: Vec<u64>,
}

/// Ghost image of one entry.
pub ghost struct SEntry {
    pub x: u64,
    pub y: u64,
    pub err: u64,
    pub res: Seq<u64>,
}

/// The combined heap and cache.
pub struct IntervalStore {
    entries: Vec<Entry>,
}

impl View for IntervalStore {
    type V = Seq<SEntry>;

    /// The entries in heap order: ascending error, the maximum last.
    closed spec fn view(&self) -> Seq<SEntry> {
        self.entries@.map_values(
            |e: Entry| SEntry { x: e.x, y: e.y, err: e.err, res: e.res@ },
        )
    }
}


/// Ghost image of a popped entry.
pub open spec fn popped_entry(p: Popped) -> SEntry {
    SEntry { x: p.x, y: p.y, err: p.err, res: p.res@ }
}

/// The interval key of an entry.
pub open spec fn key_of(e: SEntry) -> (u64, u64) {
    (e.x, e.y)
}

impl IntervalStore {
    /// Entries are sorted by ascending error in the IEEE value order, no
    /// error is a NaN, and the interval keys are pairwise distinct - the
    /// one-entry-per-interval invariant of the cache.
    pub open spec fn wf(self) -> bool {
        &&& forall|i: int, j: int|
            0 <= i < j < self@.len() ==> val_key(self@[i].err) <= val_key(self@[j].err)
        &&& forall|i: int| 0 <= i < self@.len() ==> !is_nan_bits(#[trigger] self@[i].err)
        &&& forall|i: int, j: int|
            0 <= i < j < self@.len() ==> key_of(self@[i]) != key_of(self@[j])
    }

    /// The cache holds an entry under this interval key.
    pub open spec fn has_key(self, k: (u64, u64)) -> bool {
        exists|i: int| 0 <= i < self@.len() && key_of(#[trigger] self@[i]) == k
    }

    /// Index of the entry under a key (meaningful when `has_key`; unique
    /// when `wf`).
    pub open spec fn idx_of(self, k: (u64, u64)) -> int {
        choose|i: int| 0 <= i < self@.len() && key_of(#[trigger] self@[i]) == k
    }

    /// The entry under a key.
    pub open spec fn entry_of(self, k: (u64, u64)) -> SEntry {
        self@[self.idx_of(k)]
    }

    /// In a well-formed store an index with a given key is the index of
    /// that key.
    pub proof fn lemma_key_at(self, i: int)
        requires
            self.wf(),
            0 <= i < self@.len(),
        ensures
            self.has_key(key_of(self@[i])),
            self.idx_of(key_of(self@[i])) == i,
    {
        let k = key_of(self@[i]);
        assert(self.has_key(k));
        let j = self.idx_of(k);
        if i < j {
            assert(key_of(self@[i]) != key_of(self@[j]));
        } else if j < i {
            assert(key_of(self@[j]) != key_of(self@[i]));
        }
    }

    /// An empty store.
    pub fn new() -> (s: IntervalStore)
        ensures
            s.wf(),
            s@ =~= Seq::<SEntry>::empty(),
    {
        IntervalStore { entries: Vec::new() }
    }

    /// Number of live intervals; heap and cache agree on it.
    pub fn len(&self) -> (n: usize)
        ensures
            n == self@.len(),
    {
        self.entries.len()
    }

    /// True iff no interval is live.
    pub fn is_empty(&self) -> (r: bool)
        ensures
            r == (self@.len() == 0),
    {
        self.entries.len() == 0
    }

    /// True iff the cache holds an entry whose endpoint bit patterns equal
    /// the given ones.
    pub fn contains_key(&self, x: u64, y: u64) -> (r: bool)
        ensures
            r == self.has_key((x, y)),
    {
        let n = self.entries.len();
        let mut i: usize = 0;
        while i < n
            invariant
                n == self@.len(),
                0 <= i <= n,
                forall|j: int| 0 <= j < i ==> key_of(#[trigger] self@[j]) != (x, y),
            decreases n - i,
        {
            if self.entries[i].x == x && self.entries[i].y == y {
                assert(key_of(self@[i as int]) == (x, y));
                return true;
            }
            i += 1;
        }
        false
    }

    /// Inserts an interval with its result vector and error estimate into
    /// heap and cache atomically.
    pub fn push(&mut self, x: u64, y: u64, err: u64, res: Vec<u64>)
        requires
            old(self).wf(),
            !is_nan_bits(err),
            !old(self).has_key((x, y)),
        ensures
            final(self).wf(),
            final(self)@.len() == old(self)@.len() + 1,
            final(self).has_key((x, y)),
            final(self).entry_of((x, y)) == (SEntry { x, y, err, res: res@ }),
            forall|k: (u64, u64)|
                k != (x, y) ==> #[trigger] final(self).has_key(k) == old(self).has_key(k),
            forall|k: (u64, u64)|
                k != (x, y) && old(self).has_key(k) ==> #[trigger] final(self).entry_of(k)
                    == old(self).entry_of(k),
    {
        let ghost old_view = self@;
        let n = self.entries.len();
        let mut i: usize = n;
        while i > 0 && dlt(err, self.entries[i - 1].err)
            invariant
                n == self@.len(),
                0 <= i <= n,
                self.wf(),
                !is_nan_bits(err),
                forall|j: int| i <= j < n ==> val_key(err) < val_key(#[trigger] self@[j].err),
            decreases i,
        {
            i -= 1;
        }
        let ghost pos = i as int;
        self.entries.insert(i, Entry { x, y, err, res });
        proof {
            let new_view = self@;
            let se = SEntry { x, y, err, res: res@ };
            assert(new_view =~= old_view.insert(pos, se));
            // sortedness around the insertion point
            assert forall|a: int, b: int|
                0 <= a < b < new_view.len() implies val_key(new_view[a].err) <= val_key(
                new_view[b].err,
            ) by {
                if a < pos && b < pos {
                    assert(new_view[a] == old_view[a]);
                    assert(new_view[b] == old_view[b]);
                } else if a >= pos + 1 && b >= pos + 1 {
                    assert(new_view[a] == old_view[a - 1]);
                    assert(new_view[b] == old_view[b - 1]);
                } else if b == pos {
                    // a < pos: the scan stopped, so the entry before the
                    // insertion point is at most the new error
                    assert(new_view[a] == old_view[a]);
                    assert(val_key(old_view[pos - 1].err) <= val_key(err));
                    assert(val_key(old_view[a].err) <= val_key(old_view[pos - 1].err));
                } else if a == pos {
                    // b > pos: the scan passed these entries, all above the
                    // new error
                    assert(new_view[b] == old_view[b - 1]);
                    assert(val_key(err) < val_key(old_view[b - 1].err));
                } else {
                    // a < pos < b
                    assert(new_view[a] == old_view[a]);
                    assert(new_view[b] == old_view[b - 1]);
                    assert(val_key(err) < val_key(old_view[b - 1].err));
                    assert(val_key(old_view[a].err) <= val_key(err)) by {
                        assert(val_key(old_view[pos - 1].err) <= val_key(err));
                        assert(val_key(old_view[a].err) <= val_key(old_view[pos - 1].err));
                    }
                }
            }
            // distinctness: the new key differs from every old key
            assert forall|a: int, b: int|
                0 <= a < b < new_view.len() implies key_of(new_view[a]) != key_of(
                new_view[b],
            ) by {
                if a == pos {
                    assert(new_view[b] == old_view[b - 1]);
                    assert(old(self).has_key((x, y)) || key_of(old_view[b - 1]) != (x, y));
                } else if b == pos {
                    assert(new_view[a] == old_view[a]);
                    assert(old(self).has_key((x, y)) || key_of(old_view[a]) != (x, y));
                } else {
                    let a0 = if a < pos { a } else { a - 1 };
                    let b0 = if b < pos { b } else { b - 1 };
                    assert(new_view[a] == old_view[a0]);
                    assert(new_view[b] == old_view[b0]);
                }
            }
            self.lemma_key_at(pos);
            // other keys keep their entries
            assert forall|k: (u64, u64)| k != (x, y) implies #[trigger] final(self).has_key(k)
                == old(self).has_key(k) by {
                if old(self).has_key(k) {
                    let j = old(self).idx_of(k);
                    let j2 = if j < pos { j } else { j + 1 };
                    assert(new_view[j2] == old_view[j]);
                }
                if final(self).has_key(k) {
                    let j = final(self).idx_of(k);
                    let j0 = if j < pos { j } else { j - 1 };
                    assert(new_view[j] == old_view[j0]);
                    assert(old(self).has_key(k));
                }
            }
            assert forall|k: (u64, u64)|
                k != (x, y) && old(self).has_key(k) implies #[trigger] final(self).entry_of(k)
                == old(self).entry_of(k) by {
                let j = old(self).idx_of(k);
                old(self).lemma_key_at(j);
                let j2 = if j < pos { j } else { j + 1 };
                assert(new_view[j2] == old_view[j]);
                final(self).lemma_key_at(j2);
            }
        }
    }

    /// Removes and returns the entry of largest error from heap and cache
    /// atomically. The cache entry under the popped key is removed exactly
    /// once: it was present before and is gone after. Every remaining error
    /// is at most the popped one, so successive pops are non-increasing.
    pub fn pop_max(&mut self) -> (r: Popped)
        requires
            old(self).wf(),
            old(self)@.len() > 0,
        ensures
            final(self).wf(),
            final(self)@ == old(self)@.drop_last(),
            (SEntry { x: r.x, y: r.y, err: r.err, res: r.res@ }) == old(self)@.last(),
            old(self).has_key((r.x, r.y)),
            old(self).entry_of((r.x, r.y)) == old(self)@.last(),
            !final(self).has_key((r.x, r.y)),
            forall|k: (u64, u64)|
                k != (r.x, r.y) ==> #[trigger] final(self).has_key(k) == old(self).has_key(k),
            forall|k: (u64, u64)|
                k != (r.x, r.y) && old(self).has_key(k) ==> #[trigger] final(self).entry_of(k)
                    == old(self).entry_of(k),
            !is_nan_bits(r.err),
            forall|i: int|
                0 <= i < final(self)@.len() ==> val_key(#[trigger] final(self)@[i].err)
                    <= val_key(r.err),
    {
        let ghost old_view = self@;
        let ghost last = old_view.len() - 1;
        let e = match self.entries.pop() {
            Some(e) => e,
            None => {
                proof {
                    assert(false);
                }
                Entry { x: 0, y: 0, err: 0, res: Vec::new() }
            },
        };
        proof {
            assert(self@ =~= old_view.drop_last());
            old(self).lemma_key_at(last);
            let k = key_of(old_view[last]);
            if final(self).has_key(k) {
                let j = final(self).idx_of(k);
                assert(old_view[j] == final(self)@[j]);
                assert(key_of(old_view[j]) != key_of(old_view[last]));
            }
            assert forall|k2: (u64, u64)| k2 != k implies #[trigger] final(self).has_key(k2)
                == old(self).has_key(k2) by {
                if old(self).has_key(k2) {
                    let j = old(self).idx_of(k2);
                    old(self).lemma_key_at(j);
                    assert(j != last);
                    assert(final(self)@[j] == old_view[j]);
                }
                if final(self).has_key(k2) {
                    let j = final(self).idx_of(k2);
                    assert(old_view[j] == final(self)@[j]);
                }
            }
            assert forall|k2: (u64, u64)|
                k2 != k && old(self).has_key(k2) implies #[trigger] final(self).entry_of(k2)
                == old(self).entry_of(k2) by {
                let j = old(self).idx_of(k2);
                old(self).lemma_key_at(j);
                assert(j != last);
                assert(final(self)@[j] == old_view[j]);
                final(self).lemma_key_at(j);
            }
        }
        Popped { x: e.x, y: e.y, err: e.err, res: e.res }
    }

    /// Empties the store in decreasing-error order: the order in which the
    /// final partition is reported. The result lists the entries from the
    /// maximum down, so errors never increase along it.
    pub fn drain(&mut self) -> (r: Vec<Popped>)
        requires
            old(self).wf(),
        ensures
            final(self).wf(),
            final(self)@.len() == 0,
            r@.len() == old(self)@.len(),
            forall|i: int|
                0 <= i < r@.len() ==> popped_entry(#[trigger] r@[i]) == old(self)@[old(
                    self,
                )@.len() - 1 - i],
            forall|i: int, j: int|
                0 <= i < j < r@.len() ==> val_key(r@[j].err) <= val_key(r@[i].err),
    {
        let ghost orig = self@;
        let mut r: Vec<Popped> = Vec::new();
        while !self.is_empty()
            invariant
                orig == old(self)@,
                self.wf(),
                old(self).wf(),
                r@.len() <= orig.len(),
                self@ == orig.take(orig.len() - r@.len()),
                forall|i: int|
                    0 <= i < r@.len() ==> popped_entry(#[trigger] r@[i]) == orig[orig.len() - 1
                        - i],
            decreases self@.len(),
        {
            let ghost done = r@.len();
            proof {
                assert(self@.len() == orig.len() - done);
                assert(self@.last() == orig[orig.len() - 1 - done]);
            }
            let p = self.pop_max();
            r.push(p);
            proof {
                assert(self@ =~= orig.take(orig.len() - r@.len()));
            }
        }
        proof {
            assert forall|i: int, j: int|
                0 <= i < j < r@.len() implies val_key(r@[j].err) <= val_key(r@[i].err) by {
                assert(popped_entry(r@[i]) == orig[orig.len() - 1 - i]);
                assert(popped_entry(r@[j]) == orig[orig.len() - 1 - j]);
                assert(val_key(orig[orig.len() - 1 - j].err) <= val_key(
                    orig[orig.len() - 1 - i].err,
                ));
            }
        }
        r
    }
}

} // verus!
