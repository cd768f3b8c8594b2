//! The replicated log: entries keyed by their index, kept in index order.

use crate::raft::{Entry, EntryView, LogId};
use vstd::prelude::*;

verus! {

/// One end of a range of log indexes.
#[derive(Debug, Clone, Copy, PartialEq, Eq, Structural)]
pub enum IndexBound {
    Included(u64),
    Excluded(u64),
    Unbounded,
}

/// Whether the index `k` lies at or after the start `bound`.
pub open spec fn after_start(bound: IndexBound, k: u64) -> bool {
    match bound {
        IndexBound::Included(a) => k >= a,
        IndexBound::Excluded(a) => k > a,
        IndexBound::Unbounded => true,
    }
}

/// Whether the index `k` lies at or before the end `bound`.
pub open spec fn before_end(bound: IndexBound, k: u64) -> bool {
    match bound {
        IndexBound::Included(b) => k <= b,
        IndexBound::Excluded(b) => k < b,
        IndexBound::Unbounded => true,
    }
}

/// The indexes from `start` to `end`.
pub open spec fn index_range(start: IndexBound, end: IndexBound) -> Set<u64> {
    Set::new(|k: u64| after_start(start, k) && before_end(end, k))
}

/// The indexes below `index`.
pub open spec fn indexes_below(index: u64) -> Set<u64> {
    Set::new(|k: u64| k < index)
}

/// The indexes above `index`.
pub open spec fn indexes_above(index: u64) -> Set<u64> {
    Set::new(|k: u64| k > index)
}

/// Whether the entry at position `i` of `s` has the index `k`.
pub open spec fn holds_at(s: Seq<EntryView>, i: int, k: u64) -> bool {
    0 <= i < s.len() && s[i].log_id.index == k
}

/// Whether the entries stand in strictly increasing order of index.
pub open spec fn increasing(s: Seq<EntryView>) -> bool {
    forall|i: int, j: int| 0 <= i < j < s.len() ==> s[i].log_id.index < s[j].log_id.index
}

/// The entries of `s`, each under its index.
pub open spec fn keyed(s: Seq<EntryView>) -> Map<u64, EntryView> {
    Map::new(
        |k: u64| exists|i: int| holds_at(s, i, k),
        |k: u64| s[choose|i: int| holds_at(s, i, k)],
    )
}

/// What a vector of entries holds.
pub open spec fn entries_view(entries: Seq<Entry>) -> Seq<EntryView> {
    Seq::new(entries.len(), |i: int| entries[i]@)
}

/// In an increasing sequence every entry is found under its own index.
pub proof fn lemma_keyed(s: Seq<EntryView>)
    requires
        increasing(s),
    ensures
        forall|i: int|
            0 <= i < s.len() ==> keyed(s).contains_key(#[trigger] s[i].log_id.index) && keyed(
                s,
            )[s[i].log_id.index] == s[i],
        forall|k: u64| #[trigger]
            keyed(s).contains_key(k) ==> keyed(s)[k].log_id.index == k && exists|i: int|
                holds_at(s, i, k),
{
    assert forall|i: int| 0 <= i < s.len() implies keyed(s).contains_key(
        #[trigger] s[i].log_id.index,
    ) && keyed(s)[s[i].log_id.index] == s[i] by {
        let k = s[i].log_id.index;
        assert(holds_at(s, i, k));
        let c = choose|c: int| holds_at(s, c, k);
        assert(holds_at(s, c, k));
        if c < i {
            assert(s[c].log_id.index < s[i].log_id.index);
        }
        if i < c {
            assert(s[i].log_id.index < s[c].log_id.index);
        }
    }
    assert forall|k: u64| #[trigger] keyed(s).contains_key(k) implies keyed(s)[k].log_id.index
        == k && exists|i: int| holds_at(s, i, k) by {
        let c = choose|c: int| holds_at(s, c, k);
        assert(holds_at(s, c, k));
    }
}

/// A stretch of an increasing sequence that holds exactly the entries whose
/// index is in `keep` is the whole restricted to `keep`.
pub proof fn lemma_stretch(s: Seq<EntryView>, from: int, to: int, keep: Set<u64>)
    requires
        increasing(s),
        0 <= from <= to <= s.len(),
        forall|i: int|
            0 <= i < s.len() ==> (from <= i < to <==> keep.contains(#[trigger] s[i].log_id.index)),
    ensures
        increasing(s.subrange(from, to)),
        keyed(s.subrange(from, to)) == keyed(s).restrict(keep),
{
    let part = s.subrange(from, to);
    assert forall|i: int, j: int| 0 <= i < j < part.len() implies part[i].log_id.index
        < part[j].log_id.index by {
        assert(part[i] == s[from + i]);
        assert(part[j] == s[from + j]);
    }
    lemma_keyed(s);
    lemma_keyed(part);
    let whole = keyed(s).restrict(keep);
    assert forall|k: u64| keyed(part).contains_key(k) <==> whole.contains_key(k) by {
        if keyed(part).contains_key(k) {
            let i = choose|i: int| holds_at(part, i, k);
            assert(holds_at(part, i, k));
            assert(part[i] == s[from + i]);
            assert(holds_at(s, from + i, k));
            assert(keep.contains(s[from + i].log_id.index));
        }
        if whole.contains_key(k) {
            let i = choose|i: int| holds_at(s, i, k);
            assert(holds_at(s, i, k));
            assert(keep.contains(s[i].log_id.index));
            assert(part[i - from] == s[i]);
            assert(holds_at(part, i - from, k));
        }
    }
    assert forall|k: u64| keyed(part).contains_key(k) implies keyed(part)[k] == whole[k] by {
        let i = choose|i: int| holds_at(part, i, k);
        assert(holds_at(part, i, k));
        assert(part[i] == s[from + i]);
        assert(keyed(part)[part[i].log_id.index] == part[i]);
        assert(keyed(s)[s[from + i].log_id.index] == s[from + i]);
    }
    assert(keyed(part) =~= whole);
}

/// Putting an entry between the entries below its index and those above
/// keeps the order, and puts the entry under its index.
pub proof fn lemma_insert(s: Seq<EntryView>, p: int, e: EntryView)
    requires
        increasing(s),
        0 <= p <= s.len(),
        forall|i: int| 0 <= i < p ==> (#[trigger] s[i]).log_id.index < e.log_id.index,
        forall|i: int| p <= i < s.len() ==> (#[trigger] s[i]).log_id.index > e.log_id.index,
    ensures
        increasing(s.insert(p, e)),
        keyed(s.insert(p, e)) == keyed(s).insert(e.log_id.index, e),
{
    let after = s.insert(p, e);
    let index = e.log_id.index;
    assert(after.len() == s.len() + 1);
    assert(after[p] == e);
    assert forall|i: int| 0 <= i < p implies #[trigger] after[i] == s[i] by {}
    assert forall|i: int| p < i < after.len() implies #[trigger] after[i] == s[i - 1] by {}
    assert forall|i: int, j: int| 0 <= i < j < after.len() implies after[i].log_id.index
        < after[j].log_id.index by {
        if j < p {
            assert(after[i] == s[i]);
            assert(after[j] == s[j]);
        } else if j == p {
            assert(after[i] == s[i]);
            assert(s[i].log_id.index < index);
        } else if i < p {
            assert(after[i] == s[i]);
            assert(after[j] == s[j - 1]);
            assert(s[i].log_id.index < index);
            assert(s[j - 1].log_id.index > index);
        } else if i == p {
            assert(after[j] == s[j - 1]);
            assert(s[j - 1].log_id.index > index);
        } else {
            assert(after[i] == s[i - 1]);
            assert(after[j] == s[j - 1]);
        }
    }
    lemma_keyed(s);
    lemma_keyed(after);
    let target = keyed(s).insert(index, e);
    assert forall|k: u64| #[trigger] keyed(after).dom().contains(k) == target.dom().contains(
        k,
    ) by {
        if keyed(after).contains_key(k) && k != index {
            let i = choose|i: int| holds_at(after, i, k);
            assert(holds_at(after, i, k));
            if i < p {
                assert(after[i] == s[i]);
                assert(holds_at(s, i, k));
            } else {
                assert(after[i] == s[i - 1]);
                assert(holds_at(s, i - 1, k));
            }
        }
        if keyed(s).contains_key(k) && k != index {
            let i = choose|i: int| holds_at(s, i, k);
            assert(holds_at(s, i, k));
            if i < p {
                assert(after[i] == s[i]);
                assert(holds_at(after, i, k));
            } else {
                assert(after[i + 1] == s[i]);
                assert(holds_at(after, i + 1, k));
            }
        }
        if k == index {
            assert(holds_at(after, p, k));
        }
    }
    assert forall|k: u64| #[trigger] keyed(after).dom().contains(k) implies keyed(after)[k]
        == target[k] by {
        let i = choose|i: int| holds_at(after, i, k);
        assert(holds_at(after, i, k));
        assert(keyed(after)[after[i].log_id.index] == after[i]);
        if i < p {
            assert(after[i] == s[i]);
            assert(keyed(s)[s[i].log_id.index] == s[i]);
        } else if i > p {
            assert(after[i] == s[i - 1]);
            assert(keyed(s)[s[i - 1].log_id.index] == s[i - 1]);
        }
    }
    assert(keyed(after) =~= target);
}

/// Putting an entry in place of the one with its index keeps the order, and
/// puts the entry under its index.
pub proof fn lemma_replace(s: Seq<EntryView>, p: int, e: EntryView)
    requires
        increasing(s),
        0 <= p < s.len(),
        s[p].log_id.index == e.log_id.index,
    ensures
        increasing(s.update(p, e)),
        keyed(s.update(p, e)) == keyed(s).insert(e.log_id.index, e),
{
    let after = s.update(p, e);
    let index = e.log_id.index;
    assert forall|i: int| 0 <= i < after.len() implies (#[trigger] after[i]).log_id.index
        == s[i].log_id.index by {}
    assert forall|i: int, j: int| 0 <= i < j < after.len() implies after[i].log_id.index
        < after[j].log_id.index by {
        assert(s[i].log_id.index < s[j].log_id.index);
        assert(after[i].log_id.index == s[i].log_id.index);
        assert(after[j].log_id.index == s[j].log_id.index);
    }
    lemma_keyed(s);
    lemma_keyed(after);
    let target = keyed(s).insert(index, e);
    assert forall|k: u64| #[trigger] keyed(after).dom().contains(k) == target.dom().contains(
        k,
    ) by {
        if keyed(after).contains_key(k) {
            let i = choose|i: int| holds_at(after, i, k);
            assert(holds_at(after, i, k));
            assert(after[i].log_id.index == s[i].log_id.index);
            assert(holds_at(s, i, k));
        }
        if keyed(s).contains_key(k) {
            let i = choose|i: int| holds_at(s, i, k);
            assert(holds_at(s, i, k));
            assert(after[i].log_id.index == s[i].log_id.index);
            assert(holds_at(after, i, k));
        }
        if k == index {
            assert(holds_at(after, p, k));
            assert(holds_at(s, p, k));
        }
    }
    assert forall|k: u64| #[trigger] keyed(after).dom().contains(k) implies keyed(after)[k]
        == target[k] by {
        let i = choose|i: int| holds_at(after, i, k);
        assert(holds_at(after, i, k));
        assert(keyed(after)[after[i].log_id.index] == after[i]);
        if i != p {
            assert(after[i] == s[i]);
            assert(keyed(s)[s[i].log_id.index] == s[i]);
        }
    }
    assert(keyed(after) =~= target);
}

/// The log: at most one entry per index, in index order.
#[derive(Debug, PartialEq)]
pub struct Log {
    entries: Vec<Entry>,
}

impl View for Log {
    type V = Map<u64, EntryView>;

    closed spec fn view(&self) -> Map<u64, EntryView> {
        keyed(entries_view(self.entries@))
    }
}

impl Log {
    /// The log's invariant: its entries stand in increasing index order.
    pub closed spec fn wf(&self) -> bool {
        increasing(entries_view(self.entries@))
    }

    /// In a log every entry is kept under its own index.
    pub proof fn lemma_keys(&self)
        requires
            self.wf(),
        ensures
            forall|k: u64| #[trigger] self@.contains_key(k) ==> self@[k].log_id.index == k,
    {
        lemma_keyed(entries_view(self.entries@));
    }

    /// The empty log.
    pub fn new() -> (r: Self)
        ensures
            r.wf(),
            r@ == Map::<u64, EntryView>::empty(),
    {
        let r = Log { entries: Vec::new() };
        proof {
            assert(r@ =~= Map::<u64, EntryView>::empty());
        }
        r
    }

    /// The first position whose entry has an index of at least `index`.
    fn first_at_least(&self, index: u64) -> (p: usize)
        requires
            self.wf(),
        ensures
            p <= self.entries.len(),
            forall|i: int|
                0 <= i < p ==> (#[trigger] entries_view(self.entries@)[i]).log_id.index < index,
            forall|i: int|
                p <= i < self.entries.len() ==> (#[trigger] entries_view(
                    self.entries@,
                )[i]).log_id.index >= index,
    {
        let ghost s = entries_view(self.entries@);
        let mut lo: usize = 0;
        let mut hi: usize = self.entries.len();
        while lo < hi
            invariant
                lo <= hi <= self.entries.len(),
                s == entries_view(self.entries@),
                increasing(s),
                forall|i: int| 0 <= i < lo ==> (#[trigger] s[i]).log_id.index < index,
                forall|i: int| hi <= i < s.len() ==> (#[trigger] s[i]).log_id.index >= index,
            decreases hi - lo,
        {
            let mid = lo + (hi - lo) / 2;
            proof {
                assert(s[mid as int] == self.entries@[mid as int]@);
            }
            if self.entries[mid].log_id.index < index {
                proof {
                    assert forall|i: int| 0 <= i < mid + 1 implies (#[trigger] s[i]).log_id.index
                        < index by {
                        if i < mid {
                            assert(s[i].log_id.index < s[mid as int].log_id.index);
                        }
                    }
                }
                lo = mid + 1;
            } else {
                proof {
                    assert forall|i: int| mid <= i < s.len() implies (#[trigger] s[i]).log_id.index
                        >= index by {
                        if mid < i {
                            assert(s[mid as int].log_id.index < s[i].log_id.index);
                        }
                    }
                }
                hi = mid;
            }
        }
        lo
    }

    /// The first position whose entry has an index above `index`.
    fn first_above(&self, index: u64) -> (p: usize)
        requires
            self.wf(),
        ensures
            p <= self.entries.len(),
            forall|i: int|
                0 <= i < p ==> (#[trigger] entries_view(self.entries@)[i]).log_id.index <= index,
            forall|i: int|
                p <= i < self.entries.len() ==> (#[trigger] entries_view(
                    self.entries@,
                )[i]).log_id.index > index,
    {
        if index == u64::MAX {
            self.entries.len()
        } else {
            self.first_at_least(index + 1)
        }
    }

    /// Puts `entry` under its index, in place of the entry that was there.
    pub fn insert(&mut self, entry: Entry)
        requires
            old(self).wf(),
        ensures
            final(self).wf(),
            final(self)@ == old(self)@.insert(entry@.log_id.index, entry@),
    {
        let index = entry.log_id.index;
        let p = self.first_at_least(index);
        let ghost before = entries_view(self.entries@);
        let ghost e = entry@;
        if p < self.entries.len() && self.entries[p].log_id.index == index {
            proof {
                assert(before[p as int] == self.entries@[p as int]@);
            }
            self.entries.set(p, entry);
            proof {
                assert(entries_view(self.entries@) =~= before.update(p as int, e));
                lemma_replace(before, p as int, e);
            }
        } else {
            proof {
                assert forall|i: int| p <= i < before.len() implies (
                #[trigger] before[i]).log_id.index > index by {
                    assert(before[i] == self.entries@[i]@);
                    assert(before[p as int] == self.entries@[p as int]@);
                    if i > p {
                        assert(before[p as int].log_id.index < before[i].log_id.index);
                    }
                }
            }
            self.entries.insert(p, entry);
            proof {
                assert(entries_view(self.entries@) =~= before.insert(p as int, e));
                lemma_insert(before, p as int, e);
            }
        }
    }

    /// Removes every entry whose index is `index` or more.
    pub fn delete_since(&mut self, index: u64)
        requires
            old(self).wf(),
        ensures
            final(self).wf(),
            final(self)@ == old(self)@.restrict(indexes_below(index)),
    {
        let p = self.first_at_least(index);
        let ghost before = entries_view(self.entries@);
        self.entries.truncate(p);
        proof {
            assert(entries_view(self.entries@) =~= before.subrange(0, p as int));
            lemma_stretch(before, 0, p as int, indexes_below(index));
        }
    }

    /// Removes every entry whose index is `index` or less.
    pub fn purge_upto(&mut self, index: u64)
        requires
            old(self).wf(),
        ensures
            final(self).wf(),
            final(self)@ == old(self)@.restrict(indexes_above(index)),
    {
        let p = self.first_above(index);
        let ghost before = entries_view(self.entries@);
        let kept = self.entries.split_off(p);
        self.entries = kept;
        proof {
            assert(entries_view(self.entries@) =~= before.subrange(p as int, before.len() as int));
            lemma_stretch(before, p as int, before.len() as int, indexes_above(index));
        }
    }

    /// The id of the entry with the highest index, if the log has an entry.
    pub fn last_log_id(&self) -> (r: Option<LogId>)
        requires
            self.wf(),
        ensures
            match r {
                Some(id) => self@.contains_key(id.index) && self@[id.index].log_id == id
                    && forall|k: u64| self@.contains_key(k) ==> k <= id.index,
                None => self@ == Map::<u64, EntryView>::empty(),
            },
    {
        let ghost s = entries_view(self.entries@);
        proof {
            lemma_keyed(s);
        }
        if self.entries.len() == 0 {
            proof {
                assert forall|k: u64| !self@.contains_key(k) by {
                    if self@.contains_key(k) {
                        let i = choose|i: int| holds_at(s, i, k);
                        assert(holds_at(s, i, k));
                    }
                }
                assert(self@ =~= Map::<u64, EntryView>::empty());
            }
            None
        } else {
            let last = self.entries.len() - 1;
            let id = self.entries[last].log_id;
            proof {
                assert(s[last as int].log_id == id);
                assert forall|k: u64| self@.contains_key(k) implies k <= id.index by {
                    let i = choose|i: int| holds_at(s, i, k);
                    assert(holds_at(s, i, k));
                    if i < last {
                        assert(s[i].log_id.index < s[last as int].log_id.index);
                    }
                }
            }
            Some(id)
        }
    }

    /// The entries whose index lies from `start` to `end`, in index order.
    pub fn range(&self, start: IndexBound, end: IndexBound) -> (r: Vec<Entry>)
        requires
            self.wf(),
        ensures
            increasing(entries_view(r@)),
            keyed(entries_view(r@)) == self@.restrict(index_range(start, end)),
    {
        let ghost s = entries_view(self.entries@);
        let lo = match start {
            IndexBound::Included(a) => self.first_at_least(a),
            IndexBound::Excluded(a) => self.first_above(a),
            IndexBound::Unbounded => 0,
        };
        let hi = match end {
            IndexBound::Included(b) => self.first_above(b),
            IndexBound::Excluded(b) => self.first_at_least(b),
            IndexBound::Unbounded => self.entries.len(),
        };
        let hi = if hi < lo {
            lo
        } else {
            hi
        };
        proof {
            assert forall|i: int| 0 <= i < s.len() implies (lo <= i < hi <==> index_range(
                start,
                end,
            ).contains(#[trigger] s[i].log_id.index)) by {
                assert(s[i] == self.entries@[i]@);
                if 0 < s.len() && i != lo && lo < s.len() {
                    if i < lo {
                        assert(s[i].log_id.index < s[lo as int].log_id.index);
                    } else {
                        assert(s[lo as int].log_id.index < s[i].log_id.index);
                    }
                }
            }
            lemma_stretch(s, lo as int, hi as int, index_range(start, end));
        }
        let mut r: Vec<Entry> = Vec::new();
        let mut i: usize = lo;
        while i < hi
            invariant
                lo <= i <= hi <= self.entries.len(),
                s == entries_view(self.entries@),
                entries_view(r@) == s.subrange(lo as int, i as int),
            decreases hi - i,
        {
            let ghost so_far = entries_view(r@);
            let entry = self.entries[i].clone();
            r.push(entry);
            proof {
                assert(s[i as int] == self.entries@[i as int]@);
                assert(entries_view(r@) =~= so_far.push(s[i as int]));
                assert(entries_view(r@) =~= s.subrange(lo as int, i + 1));
            }
            i = i + 1;
        }
        r
    }
}

} // verus!
