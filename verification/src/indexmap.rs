//! Maps from indexes to positions, kept in index order, as the row and
//! column indexes of a data block.

use vstd::prelude::*;

use crate::indexing::NasIndex;
use crate::order::{lemma_nas_order, nas_lt};

verus! {

/// The entries are in strictly increasing index order.
pub open spec fn keys_sorted(s: Seq<(NasIndex, usize)>) -> bool {
    forall|i: int, j: int| 0 <= i < j < s.len() ==> nas_lt(#[trigger] s[i].0, #[trigger] s[j].0)
}

/// Some entry has the given index.
pub open spec fn has_key(s: Seq<(NasIndex, usize)>, k: NasIndex) -> bool {
    exists|i: int| 0 <= i < s.len() && #[trigger] s[i].0 == k
}

/// The position of the entry with the given index.
pub open spec fn key_pos(s: Seq<(NasIndex, usize)>, k: NasIndex) -> int {
    choose|i: int| 0 <= i < s.len() && #[trigger] s[i].0 == k
}

/// The map that a list of entries stands for.
pub open spec fn entries_map(s: Seq<(NasIndex, usize)>) -> Map<NasIndex, usize> {
    Map::new(|k: NasIndex| has_key(s, k), |k: NasIndex| s[key_pos(s, k)].1)
}

/// The indexes of a list of entries, in order.
pub open spec fn entry_keys(s: Seq<(NasIndex, usize)>) -> Seq<NasIndex> {
    s.map_values(|e: (NasIndex, usize)| e.0)
}

/// The values of a list of entries, in order.
pub open spec fn entry_values(s: Seq<(NasIndex, usize)>) -> Seq<usize> {
    s.map_values(|e: (NasIndex, usize)| e.1)
}

/// In a sorted list, the entry with a given index is the only one.
pub proof fn lemma_sorted_unique(s: Seq<(NasIndex, usize)>, i: int)
    requires
        keys_sorted(s),
        0 <= i < s.len(),
    ensures
        has_key(s, s[i].0),
        key_pos(s, s[i].0) == i,
        entries_map(s).contains_key(s[i].0),
        entries_map(s)[s[i].0] == s[i].1,
{
    let k = s[i].0;
    assert(has_key(s, k));
    let j = key_pos(s, k);
    if j < i {
        assert(nas_lt(s[j].0, s[i].0));
        lemma_nas_order(k, k, k);
    } else if j > i {
        assert(nas_lt(s[i].0, s[j].0));
        lemma_nas_order(k, k, k);
    }
}

/// A map from indexes to positions, kept in increasing index order.
#[derive(Clone, Debug)]
pub struct IndexMap {
    /// The entries, in increasing index order.
    pub entries: Vec<(NasIndex, usize)>,
}

impl View for IndexMap {
    type V = Map<NasIndex, usize>;

    open spec fn view(&self) -> Map<NasIndex, usize> {
        entries_map(self.entries@)
    }
}

impl IndexMap {
    /// The entries are in increasing index order.
    pub open spec fn wf(&self) -> bool {
        keys_sorted(self.entries@)
    }

    /// The indexes, in increasing order.
    pub open spec fn key_seq(&self) -> Seq<NasIndex> {
        entry_keys(self.entries@)
    }

    /// An empty map.
    pub fn new() -> (r: IndexMap)
        ensures
            r.wf(),
            r.entries@ == Seq::<(NasIndex, usize)>::empty(),
            r@ == Map::<NasIndex, usize>::empty(),
    {
        let r = IndexMap { entries: Vec::new() };
        assert(r@ =~= Map::<NasIndex, usize>::empty());
        r
    }

    /// The number of entries.
    pub fn len(&self) -> (r: usize)
        ensures
            r == self.entries@.len(),
    {
        self.entries.len()
    }

    /// Is the map empty?
    pub fn is_empty(&self) -> (r: bool)
        ensures
            r == (self.entries@.len() == 0),
    {
        self.entries.len() == 0
    }

    /// The position of the entry with a given index, if any.
    pub fn find(&self, k: &NasIndex) -> (r: Option<usize>)
        requires
            self.wf(),
        ensures
            r.is_none() == !has_key(self.entries@, *k),
            r matches Some(i) ==> i < self.entries@.len() && self.entries@[i as int].0 == *k,
    {
        let mut i: usize = 0;
        while i < self.entries.len()
            invariant
                i <= self.entries@.len(),
                forall|j: int| 0 <= j < i ==> self.entries@[j].0 != *k,
            decreases self.entries.len() - i,
        {
            if self.entries[i].0 == *k {
                return Some(i);
            }
            i = i + 1;
        }
        None
    }

    /// The value for an index, if any.
    pub fn get(&self, k: &NasIndex) -> (r: Option<usize>)
        requires
            self.wf(),
        ensures
            r == (if self@.contains_key(*k) { Some(self@[*k]) } else { None }),
    {
        match self.find(k) {
            Some(i) => {
                proof {
                    lemma_sorted_unique(self.entries@, i as int);
                }
                Some(self.entries[i].1)
            },
            None => None,
        }
    }

    /// Does the map hold an index?
    pub fn contains_key(&self, k: &NasIndex) -> (r: bool)
        requires
            self.wf(),
        ensures
            r == self@.contains_key(*k),
    {
        self.find(k).is_some()
    }

    /// The indexes, in increasing order.
    pub fn keys(&self) -> (r: Vec<NasIndex>)
        ensures
            r@ == self.key_seq(),
    {
        let mut r: Vec<NasIndex> = Vec::new();
        let mut i: usize = 0;
        while i < self.entries.len()
            invariant
                i <= self.entries@.len(),
                r@ == entry_keys(self.entries@).take(i as int),
            decreases self.entries.len() - i,
        {
            r.push(self.entries[i].0);
            i = i + 1;
            assert(r@ =~= entry_keys(self.entries@).take(i as int));
        }
        assert(entry_keys(self.entries@).take(i as int) =~= entry_keys(self.entries@));
        r
    }

    /// Sets the value for an index, adding the index at its place in order
    /// if it was absent.
    pub fn insert(&mut self, k: NasIndex, v: usize)
        requires
            old(self).wf(),
        ensures
            final(self).wf(),
            final(self)@ == old(self)@.insert(k, v),
            final(self).entries@.len() == old(self).entries@.len() + (if old(self)@.contains_key(k) { 0int } else { 1int }),
            old(self)@.contains_key(k) ==> final(self).entries@ == old(self).entries@.update(
                key_pos(old(self).entries@, k),
                (k, v),
            ),
            !old(self)@.contains_key(k) ==> exists|p: int|
                0 <= p <= old(self).entries@.len() && final(self).entries@ == old(self).entries@.insert(p, (k, v)),
    {
        let ghost s = self.entries@;
        let mut p: usize = 0;
        while p < self.entries.len() && self.entries[p].0.less(&k)
            invariant
                self.entries@ == s,
                p <= s.len(),
                forall|j: int| 0 <= j < p ==> nas_lt(s[j].0, k),
            decreases self.entries.len() - p,
        {
            p = p + 1;
        }
        if p < self.entries.len() && self.entries[p].0 == k {
            self.entries.set(p, (k, v));
            proof {
                let t = self.entries@;
                assert(entry_keys(t) =~= entry_keys(s));
                assert forall|i: int, j: int| 0 <= i < j < t.len() implies nas_lt(#[trigger] t[i].0, #[trigger] t[j].0) by {
                    assert(t[i].0 == s[i].0 && t[j].0 == s[j].0);
                }
                lemma_sorted_unique(s, p as int);
                assert forall|x: NasIndex| #[trigger] self@.contains_key(x) == old(self)@.insert(k, v).contains_key(x) by {
                    if has_key(t, x) {
                        let i = key_pos(t, x);
                        assert(s[i].0 == x);
                    }
                    if has_key(s, x) {
                        let i = key_pos(s, x);
                        assert(t[i].0 == x);
                    }
                }
                assert forall|x: NasIndex| #[trigger] self@.contains_key(x) implies self@[x] == old(self)@.insert(k, v)[x] by {
                    let i = key_pos(t, x);
                    lemma_sorted_unique(t, i);
                    lemma_sorted_unique(s, i);
                }
                assert(self@ =~= old(self)@.insert(k, v));
            }
        } else {
            self.entries.insert(p, (k, v));
            proof {
                let t = self.entries@;
                assert(t == s.insert(p as int, (k, v)));
                assert(!has_key(s, k)) by {
                    if has_key(s, k) {
                        let i = key_pos(s, k);
                        lemma_nas_order(k, k, k);
                        if i < p {
                            assert(nas_lt(s[i].0, k));
                        } else if i > p {
                            assert(nas_lt(s[p as int].0, s[i].0));
                            lemma_nas_order(k, s[p as int].0, k);
                        }
                    }
                }
                assert forall|i: int, j: int| 0 <= i < j < t.len() implies nas_lt(#[trigger] t[i].0, #[trigger] t[j].0) by {
                    if j < p {
                        assert(t[i] == s[i] && t[j] == s[j]);
                    } else if j == p {
                        assert(t[i] == s[i]);
                    } else if i < p {
                        assert(t[i] == s[i] && t[j] == s[j - 1]);
                        lemma_nas_order(s[i].0, k, s[j - 1].0);
                        if p < s.len() {
                            assert(!nas_lt(s[p as int].0, k));
                            lemma_nas_order(s[p as int].0, k, s[p as int].0);
                            if j - 1 > p {
                                assert(nas_lt(s[p as int].0, s[j - 1].0));
                                lemma_nas_order(k, s[p as int].0, s[j - 1].0);
                            }
                        }
                    } else if i == p {
                        assert(t[j] == s[j - 1]);
                        assert(!nas_lt(s[p as int].0, k));
                        lemma_nas_order(s[p as int].0, k, s[p as int].0);
                        if j - 1 > p {
                            assert(nas_lt(s[p as int].0, s[j - 1].0));
                            lemma_nas_order(k, s[p as int].0, s[j - 1].0);
                        }
                    } else {
                        assert(t[i] == s[i - 1] && t[j] == s[j - 1]);
                    }
                }
                assert forall|x: NasIndex| #[trigger] self@.contains_key(x) == old(self)@.insert(k, v).contains_key(x) by {
                    if has_key(t, x) {
                        let i = key_pos(t, x);
                        if i < p {
                            assert(s[i].0 == x);
                        } else if i > p {
                            assert(s[i - 1].0 == x);
                        }
                    }
                    if has_key(s, x) {
                        let i = key_pos(s, x);
                        if i < p {
                            assert(t[i].0 == x);
                        } else {
                            assert(t[i + 1].0 == x);
                        }
                    }
                    assert(t[p as int].0 == k);
                }
                assert forall|x: NasIndex| #[trigger] self@.contains_key(x) implies self@[x] == old(self)@.insert(k, v)[x] by {
                    let i = key_pos(t, x);
                    lemma_sorted_unique(t, i);
                    if i < p {
                        lemma_sorted_unique(s, i);
                    } else if i > p {
                        lemma_sorted_unique(s, i - 1);
                    }
                }
                assert(self@ =~= old(self)@.insert(k, v));
            }
        }
    }
}

} // verus!
