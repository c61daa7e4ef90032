//! The blocks that make up an F06 file: data matrices with their row and
//! column indexes, and the operations that sort and merge them.

use vstd::prelude::*;

use crate::blocktypes::BlockType;
use crate::indexing::NasIndex;
use crate::indexmap::{has_key, key_pos, keys_sorted, lemma_sorted_unique, IndexMap};
use crate::numbers::{F06Number, NumberView};

verus! {

/// The kind of scalar held in a data matrix.
#[derive(Copy, Clone, Debug, PartialEq, Eq, Structural)]
pub enum ScalarKind {
    /// Real values.
    Real,
    /// Integer values.
    Integer,
    /// Natural values.
    Natural,
}

/// The value at row `i`, column `j` of a list of rows, if there is one.
pub open spec fn cell_of(rows: Seq<Vec<F06Number>>, i: int, j: int) -> Option<NumberView> {
    if 0 <= i < rows.len() && 0 <= j < rows[i]@.len() {
        Some(rows[i]@[j]@)
    } else {
        None
    }
}

/// The data matrix of a finalised block, kept as a list of rows.
#[derive(Clone, Debug)]
pub struct FinalDMat {
    /// The kind of scalar within.
    pub kind: ScalarKind,
    /// The rows.
    pub rows: Vec<Vec<F06Number>>,
}

/// Swaps two entries of a sequence.
pub open spec fn swapped<T>(s: Seq<T>, a: int, b: int) -> Seq<T> {
    s.update(a, s[b]).update(b, s[a])
}

/// Swaps two entries of a vector.
fn swap_in<T>(v: &mut Vec<T>, a: usize, b: usize, filler: T)
    requires
        a < old(v).len(),
        b < old(v).len(),
    ensures
        final(v)@ == swapped(old(v)@, a as int, b as int),
{
    if a != b {
        let mut x = filler;
        v.set_and_swap(a, &mut x);
        v.set_and_swap(b, &mut x);
        v.set_and_swap(a, &mut x);
        assert(v@ =~= swapped(old(v)@, a as int, b as int));
    } else {
        assert(v@ =~= swapped(old(v)@, a as int, b as int));
    }
}

impl FinalDMat {
    /// The value at row `i`, column `j`, if there is one.
    pub open spec fn cell(&self, i: int, j: int) -> Option<NumberView> {
        cell_of(self.rows@, i, j)
    }

    /// Swaps two rows.
    pub fn swap_rows(&mut self, a: usize, b: usize)
        requires
            a < old(self).rows@.len(),
            b < old(self).rows@.len(),
        ensures
            final(self).kind == old(self).kind,
            final(self).rows@ == swapped(old(self).rows@, a as int, b as int),
    {
        swap_in(&mut self.rows, a, b, Vec::new());
    }

    /// Swaps two columns.
    pub fn swap_columns(&mut self, a: usize, b: usize)
        requires
            forall|i: int| 0 <= i < old(self).rows@.len() ==> a < (#[trigger] old(self).rows@[i])@.len(),
            forall|i: int| 0 <= i < old(self).rows@.len() ==> b < (#[trigger] old(self).rows@[i])@.len(),
        ensures
            final(self).kind == old(self).kind,
            final(self).rows@.len() == old(self).rows@.len(),
            forall|i: int|
                0 <= i < final(self).rows@.len() ==> (#[trigger] final(self).rows@[i])@ == swapped(
                    old(self).rows@[i]@,
                    a as int,
                    b as int,
                ),
    {
        let ghost orig = self.rows@;
        let mut i: usize = 0;
        while i < self.rows.len()
            invariant
                self.kind == old(self).kind,
                self.rows@.len() == orig.len(),
                i <= orig.len(),
                forall|k: int| 0 <= k < orig.len() ==> a < (#[trigger] orig[k])@.len(),
                forall|k: int| 0 <= k < orig.len() ==> b < (#[trigger] orig[k])@.len(),
                forall|k: int| 0 <= k < i ==> (#[trigger] self.rows@[k])@ == swapped(orig[k]@, a as int, b as int),
                forall|k: int| i <= k < orig.len() ==> #[trigger] self.rows@[k] == orig[k],
            decreases orig.len() - i,
        {
            let mut row: Vec<F06Number> = Vec::new();
            self.rows.set_and_swap(i, &mut row);
            assert(row == orig[i as int]);
            swap_in(&mut row, a, b, F06Number::Natural(0));
            self.rows.set_and_swap(i, &mut row);
            i = i + 1;
        }
    }
}

/// The entries of a map give distinct positions below `n`, one for each
/// position: the map is a bijection onto `0..n`.
pub open spec fn positions_ok(m: IndexMap, n: int) -> bool {
    &&& m.wf()
    &&& m.entries@.len() == n
    &&& forall|i: int| 0 <= i < n ==> (#[trigger] m.entries@[i]).1 < n
    &&& forall|i: int, j: int| 0 <= i < j < n ==> (#[trigger] m.entries@[i]).1 != (#[trigger] m.entries@[j]).1
}

/// Is a value of the given kind of scalar?
pub open spec fn of_kind(v: NumberView, k: ScalarKind) -> bool {
    match k {
        ScalarKind::Real => v is Real,
        ScalarKind::Integer => v is Integer,
        ScalarKind::Natural => v is Natural,
    }
}

/// Does every cell of the rows hold a value of the kind?
pub open spec fn rows_of_kind(rows: Seq<Vec<F06Number>>, k: ScalarKind) -> bool {
    forall|i: int, j: int| 0 <= i < rows.len() && 0 <= j < rows[i]@.len() ==> of_kind((#[trigger] rows[i]@[j])@, k)
}

/// Every value a well-formed block holds is of the kind of its matrix.
pub proof fn law_values_of_kind(b: FinalBlock, r: NasIndex, c: NasIndex)
    requires
        b.wf(),
    ensures
        b.value_at(r, c) matches Some(v) ==> (b.data matches Some(m) && of_kind(v, m.kind)),
{
}

/// An immutable view into a result block once it is finalised.
#[derive(Clone, Debug)]
pub struct FinalBlock {
    /// The block type that originated the data.
    pub block_type: BlockType,
    /// The subcase where this block appears.
    pub subcase: usize,
    /// The row indexes.
    pub row_indexes: IndexMap,
    /// The column indexes.
    pub col_indexes: IndexMap,
    /// The data within.
    pub data: Option<FinalDMat>,
}

impl FinalBlock {
    /// The number of rows in the data matrix.
    pub open spec fn nrows(&self) -> int {
        match self.data {
            Some(m) => m.rows@.len() as int,
            None => 0,
        }
    }

    /// The number of columns.
    pub open spec fn ncols(&self) -> int {
        self.col_indexes.entries@.len() as int
    }

    /// The indexes map rows and columns one to one onto the data matrix,
    /// whose rows all have one value per column, each of the matrix's kind.
    pub open spec fn wf(&self) -> bool {
        &&& positions_ok(self.row_indexes, self.nrows())
        &&& positions_ok(self.col_indexes, self.ncols())
        &&& (self.data matches Some(m) ==> forall|i: int|
            0 <= i < m.rows@.len() ==> (#[trigger] m.rows@[i])@.len() == self.ncols())
        &&& (self.data matches Some(m) ==> rows_of_kind(m.rows@, m.kind))
    }

    /// The value at a row and a column, if both are known and hold one.
    pub open spec fn value_at(&self, r: NasIndex, c: NasIndex) -> Option<NumberView> {
        if self.row_indexes@.contains_key(r) && self.col_indexes@.contains_key(c) {
            match self.data {
                Some(m) => m.cell(self.row_indexes@[r] as int, self.col_indexes@[c] as int),
                None => None,
            }
        } else {
            None
        }
    }

    /// Returns the data at a certain location.
    pub fn get(&self, row: NasIndex, col: NasIndex) -> (r: Option<F06Number>)
        requires
            self.row_indexes.wf(),
            self.col_indexes.wf(),
        ensures
            r is Some == self.value_at(row, col) is Some,
            r matches Some(x) ==> self.value_at(row, col) == Some(x@),
    {
        let ri = match self.row_indexes.get(&row) {
            Some(i) => i,
            None => return None,
        };
        let ci = match self.col_indexes.get(&col) {
            Some(i) => i,
            None => return None,
        };
        match &self.data {
            Some(m) => {
                if ri < m.rows.len() && ci < m.rows[ri].len() {
                    Some(m.rows[ri][ci].copy())
                } else {
                    None
                }
            },
            None => None,
        }
    }
}


/// In a map that gives distinct positions, two different indexes have
/// different positions, each below the bound.
pub proof fn lemma_positions_distinct(m: IndexMap, n: int, x: NasIndex, y: NasIndex)
    requires
        positions_ok(m, n),
        m@.contains_key(x),
        m@.contains_key(y),
    ensures
        m@[x] < n,
        x != y ==> m@[x] != m@[y],
{
    let s = m.entries@;
    let px = key_pos(s, x);
    let py = key_pos(s, y);
    lemma_sorted_unique(s, px);
    lemma_sorted_unique(s, py);
    if x != y {
        assert(px != py);
        if px < py {
            assert(s[px].1 != s[py].1);
        } else {
            assert(s[py].1 != s[px].1);
        }
    }
}

/// Giving two indexes each other's positions keeps the positions a
/// bijection.
proof fn lemma_swap_positions(m0: IndexMap, m1: IndexMap, m2: IndexMap, n: int, a: NasIndex, b: NasIndex)
    requires
        positions_ok(m0, n),
        m0@.contains_key(a),
        m0@.contains_key(b),
        m1.wf(),
        m2.wf(),
        m1.entries@ == m0.entries@.update(key_pos(m0.entries@, a), (a, m0@[b])),
        m2.entries@ == m1.entries@.update(key_pos(m1.entries@, b), (b, m0@[a])),
    ensures
        positions_ok(m2, n),
{
    let s0 = m0.entries@;
    let pa = key_pos(s0, a);
    let pb = key_pos(s0, b);
    lemma_sorted_unique(s0, pa);
    lemma_sorted_unique(s0, pb);
    assert(m1.entries@[pb].0 == b);
    lemma_sorted_unique(m1.entries@, pb);
    let s2 = m2.entries@;
    assert forall|i: int| 0 <= i < n implies (#[trigger] s2[i]).1 < n by {
        if i != pa && i != pb {
            assert(s2[i] == s0[i]);
        }
    }
    assert forall|i: int, j: int| 0 <= i < j < n implies (#[trigger] s2[i]).1 != (#[trigger] s2[j]).1 by {
        if a == b {
            assert(pa == pb);
            if i != pa && j != pa {
                assert(s2[i] == s0[i] && s2[j] == s0[j]);
            } else if i == pa {
                assert(s2[j] == s0[j]);
            } else {
                assert(s2[i] == s0[i]);
            }
        } else {
            assert(pa != pb);
            if i == pa && j == pb {
            } else if i == pb && j == pa {
            } else if i == pa {
                assert(s2[j] == s0[j]);
                if j < pb { assert(s0[j].1 != s0[pb].1); } else { assert(s0[pb].1 != s0[j].1); }
            } else if i == pb {
                assert(s2[j] == s0[j]);
                if j < pa { assert(s0[j].1 != s0[pa].1); } else { assert(s0[pa].1 != s0[j].1); }
            } else if j == pa {
                assert(s2[i] == s0[i]);
                if i < pb { assert(s0[i].1 != s0[pb].1); } else { assert(s0[pb].1 != s0[i].1); }
            } else if j == pb {
                assert(s2[i] == s0[i]);
                if i < pa { assert(s0[i].1 != s0[pa].1); } else { assert(s0[pa].1 != s0[i].1); }
            } else {
                assert(s2[i] == s0[i] && s2[j] == s0[j]);
            }
        }
    }
}

impl FinalBlock {
    /// Swaps two rows and updates the row indexes.
    pub fn swap_rows(&mut self, a: NasIndex, b: NasIndex)
        requires
            old(self).wf(),
        ensures
            final(self).wf(),
            final(self).block_type == old(self).block_type,
            final(self).subcase == old(self).subcase,
            final(self).col_indexes == old(self).col_indexes,
            final(self).nrows() == old(self).nrows(),
            (old(self).data is Some && old(self).row_indexes@.contains_key(a) && old(self).row_indexes@.contains_key(b))
                ==> final(self).row_indexes@ == old(self).row_indexes@.insert(a, old(self).row_indexes@[b]).insert(
                b,
                old(self).row_indexes@[a],
            ),
            !(old(self).data is Some && old(self).row_indexes@.contains_key(a) && old(self).row_indexes@.contains_key(b))
                ==> final(self).row_indexes == old(self).row_indexes,
            forall|r: NasIndex, c: NasIndex| #[trigger] final(self).value_at(r, c) == old(self).value_at(r, c),
    {
        let ai = match self.row_indexes.get(&a) {
            Some(i) => i,
            None => return,
        };
        let bi = match self.row_indexes.get(&b) {
            Some(i) => i,
            None => return,
        };
        let ghost n = self.nrows();
        let ghost m0 = self.row_indexes;
        proof {
            lemma_positions_distinct(m0, n, a, b);
            lemma_positions_distinct(m0, n, b, a);
        }
        match &mut self.data {
            Some(m) => {
                m.swap_rows(ai, bi);
            },
            None => return,
        }
        self.row_indexes.insert(a, bi);
        let ghost m1 = self.row_indexes;
        self.row_indexes.insert(b, ai);
        proof {
            lemma_swap_positions(m0, m1, self.row_indexes, n, a, b);
            let od = old(self).data.unwrap();
            let nd = self.data.unwrap();
            assert forall|r: NasIndex, c: NasIndex| #[trigger] self.value_at(r, c) == old(self).value_at(r, c) by {
                if m0@.contains_key(r) && self.col_indexes@.contains_key(c) {
                    lemma_positions_distinct(m0, n, r, a);
                    lemma_positions_distinct(m0, n, r, b);
                    let ri = m0@[r];
                    let ci = self.col_indexes@[c];
                    if r == b {
                        assert(nd.rows@[ai as int] == od.rows@[bi as int]);
                    } else if r == a {
                        assert(nd.rows@[bi as int] == od.rows@[ai as int]);
                    } else {
                        assert(nd.rows@[ri as int] == od.rows@[ri as int]);
                    }
                }
            }
            assert forall|i: int| 0 <= i < nd.rows@.len() implies (#[trigger] nd.rows@[i])@.len() == self.ncols() by {
                if i == ai {
                    assert(nd.rows@[i] == od.rows@[bi as int]);
                } else if i == bi {
                    assert(nd.rows@[i] == od.rows@[ai as int]);
                } else {
                    assert(nd.rows@[i] == od.rows@[i]);
                }
            }
        }
    }

    /// Swaps two columns and updates the column indexes.
    pub fn swap_columns(&mut self, a: NasIndex, b: NasIndex)
        requires
            old(self).wf(),
        ensures
            final(self).wf(),
            final(self).block_type == old(self).block_type,
            final(self).subcase == old(self).subcase,
            final(self).row_indexes == old(self).row_indexes,
            final(self).nrows() == old(self).nrows(),
            (old(self).data is Some && old(self).col_indexes@.contains_key(a) && old(self).col_indexes@.contains_key(b))
                ==> final(self).col_indexes@ == old(self).col_indexes@.insert(a, old(self).col_indexes@[b]).insert(
                b,
                old(self).col_indexes@[a],
            ),
            !(old(self).data is Some && old(self).col_indexes@.contains_key(a) && old(self).col_indexes@.contains_key(b))
                ==> final(self).col_indexes == old(self).col_indexes,
            forall|r: NasIndex, c: NasIndex| #[trigger] final(self).value_at(r, c) == old(self).value_at(r, c),
    {
        let ai = match self.col_indexes.get(&a) {
            Some(i) => i,
            None => return,
        };
        let bi = match self.col_indexes.get(&b) {
            Some(i) => i,
            None => return,
        };
        let ghost n = self.ncols();
        let ghost m0 = self.col_indexes;
        proof {
            lemma_positions_distinct(m0, n, a, b);
            lemma_positions_distinct(m0, n, b, a);
        }
        match &mut self.data {
            Some(m) => {
                m.swap_columns(ai, bi);
            },
            None => return,
        }
        self.col_indexes.insert(a, bi);
        let ghost m1 = self.col_indexes;
        self.col_indexes.insert(b, ai);
        proof {
            lemma_swap_positions(m0, m1, self.col_indexes, n, a, b);
            let od = old(self).data.unwrap();
            let nd = self.data.unwrap();
            assert forall|r: NasIndex, c: NasIndex| #[trigger] self.value_at(r, c) == old(self).value_at(r, c) by {
                if self.row_indexes@.contains_key(r) && m0@.contains_key(c) {
                    lemma_positions_distinct(m0, n, c, a);
                    lemma_positions_distinct(m0, n, c, b);
                    let ri = self.row_indexes@[r] as int;
                    if 0 <= ri < nd.rows@.len() {
                        assert(nd.rows@[ri]@ == swapped(od.rows@[ri]@, ai as int, bi as int));
                    }
                }
            }
        }
    }
}


/// The positions in a list of entries are distinct and below `n`.
pub open spec fn distinct_positions(e: Seq<(NasIndex, usize)>, n: int) -> bool {
    &&& forall|i: int| 0 <= i < e.len() ==> (#[trigger] e[i]).1 < n
    &&& forall|i: int, j: int| 0 <= i < j < e.len() ==> (#[trigger] e[i]).1 != (#[trigger] e[j]).1
}

/// Takes the cells of a row in the order of the positions in `perm`.
fn permute_cells(row: Vec<F06Number>, perm: &Vec<(NasIndex, usize)>) -> (r: Vec<F06Number>)
    requires
        distinct_positions(perm@, row@.len() as int),
    ensures
        r@.len() == perm@.len(),
        forall|k: int| 0 <= k < perm@.len() ==> #[trigger] r@[k] == row@[perm@[k].1 as int],
{
    let mut row = row;
    let ghost orig = row@;
    let mut out: Vec<F06Number> = Vec::new();
    let mut k: usize = 0;
    while k < perm.len()
        invariant
            distinct_positions(perm@, orig.len() as int),
            row@.len() == orig.len(),
            k <= perm@.len(),
            out@.len() == k,
            forall|j: int| 0 <= j < k ==> #[trigger] out@[j] == orig[perm@[j].1 as int],
            forall|j: int| k <= j < perm@.len() ==> row@[(#[trigger] perm@[j]).1 as int] == orig[perm@[j].1 as int],
        decreases perm.len() - k,
    {
        let p = perm[k].1;
        let mut x = F06Number::Natural(0);
        row.set_and_swap(p, &mut x);
        out.push(x);
        proof {
            assert forall|j: int| k < j < perm@.len() implies row@[(#[trigger] perm@[j]).1 as int] == orig[perm@[j].1 as int] by {
                assert(perm@[k as int].1 != perm@[j].1);
            }
        }
        k = k + 1;
    }
    out
}

/// Takes the rows of a matrix in the order of the positions in `perm`.
fn permute_rows(rows: Vec<Vec<F06Number>>, perm: &Vec<(NasIndex, usize)>) -> (r: Vec<Vec<F06Number>>)
    requires
        distinct_positions(perm@, rows@.len() as int),
    ensures
        r@.len() == perm@.len(),
        forall|k: int| 0 <= k < perm@.len() ==> #[trigger] r@[k] == rows@[perm@[k].1 as int],
{
    let mut rows = rows;
    let ghost orig = rows@;
    let mut out: Vec<Vec<F06Number>> = Vec::new();
    let mut k: usize = 0;
    while k < perm.len()
        invariant
            distinct_positions(perm@, orig.len() as int),
            rows@.len() == orig.len(),
            k <= perm@.len(),
            out@.len() == k,
            forall|j: int| 0 <= j < k ==> #[trigger] out@[j] == orig[perm@[j].1 as int],
            forall|j: int| k <= j < perm@.len() ==> rows@[(#[trigger] perm@[j]).1 as int] == orig[perm@[j].1 as int],
        decreases perm.len() - k,
    {
        let p = perm[k].1;
        let mut x: Vec<F06Number> = Vec::new();
        rows.set_and_swap(p, &mut x);
        out.push(x);
        proof {
            assert forall|j: int| k < j < perm@.len() implies rows@[(#[trigger] perm@[j]).1 as int] == orig[perm@[j].1 as int] by {
                assert(perm@[k as int].1 != perm@[j].1);
            }
        }
        k = k + 1;
    }
    out
}

/// The same indexes, each at its own place in index order.
fn in_order(e: &Vec<(NasIndex, usize)>) -> (r: IndexMap)
    requires
        keys_sorted(e@),
    ensures
        r.wf(),
        r.entries@.len() == e@.len(),
        forall|k: int| 0 <= k < e@.len() ==> (#[trigger] r.entries@[k]).0 == e@[k].0 && r.entries@[k].1 == k,
{
    let mut out: Vec<(NasIndex, usize)> = Vec::new();
    let mut k: usize = 0;
    while k < e.len()
        invariant
            keys_sorted(e@),
            k <= e@.len(),
            out@.len() == k,
            forall|j: int| 0 <= j < k ==> (#[trigger] out@[j]).0 == e@[j].0 && out@[j].1 == j,
        decreases e.len() - k,
    {
        out.push((e[k].0, k));
        k = k + 1;
    }
    let r = IndexMap { entries: out };
    assert forall|i: int, j: int| 0 <= i < j < r.entries@.len() implies crate::order::nas_lt(
        #[trigger] r.entries@[i].0,
        #[trigger] r.entries@[j].0,
    ) by {
        assert(r.entries@[i].0 == e@[i].0 && r.entries@[j].0 == e@[j].0);
    }
    r
}

/// The position of each index is its place in index order.
pub open spec fn positions_in_order(m: IndexMap) -> bool {
    forall|k: int| 0 <= k < m.entries@.len() ==> (#[trigger] m.entries@[k]).1 == k
}

/// Two maps hold the same indexes in the same order.
pub open spec fn same_keys(a: IndexMap, b: IndexMap) -> bool {
    &&& a.entries@.len() == b.entries@.len()
    &&& forall|k: int| 0 <= k < a.entries@.len() ==> (#[trigger] a.entries@[k]).0 == b.entries@[k].0
}

impl FinalBlock {
    /// Moves rows in the data matrix (updating the row indexes accordingly)
    /// so that the row positions grow with the row indexes.
    pub fn sort_rows(&mut self)
        requires
            old(self).wf(),
        ensures
            final(self).wf(),
            final(self).block_type == old(self).block_type,
            final(self).subcase == old(self).subcase,
            final(self).col_indexes == old(self).col_indexes,
            same_keys(final(self).row_indexes, old(self).row_indexes),
            positions_in_order(final(self).row_indexes),
            forall|r: NasIndex, c: NasIndex| #[trigger] final(self).value_at(r, c) == old(self).value_at(r, c),
    {
        let ghost old_self = *self;
        let ghost e = self.row_indexes.entries@;
        let ghost n = self.nrows();
        let data = self.data.take();
        let nm = match data {
            Some(m) => {
                let rows = permute_rows(m.rows, &self.row_indexes.entries);
                FinalDMat { kind: m.kind, rows }
            },
            None => {
                self.data = None;
                return;
            },
        };
        let idx = in_order(&self.row_indexes.entries);
        self.data = Some(nm);
        self.row_indexes = idx;
        proof {
            let od = old_self.data.unwrap();
            assert(self.nrows() == n);
            assert(positions_ok(self.row_indexes, n));
            assert forall|i: int| 0 <= i < nm.rows@.len() implies (#[trigger] nm.rows@[i])@.len() == self.ncols() by {
                assert(nm.rows@[i] == od.rows@[e[i].1 as int]);
            }
            assert forall|r: NasIndex, c: NasIndex| #[trigger] self.value_at(r, c) == old_self.value_at(r, c) by {
                if has_key(e, r) {
                    let p = key_pos(e, r);
                    lemma_sorted_unique(e, p);
                    assert(self.row_indexes.entries@[p].0 == r);
                    lemma_sorted_unique(self.row_indexes.entries@, p);
                    assert(nm.rows@[p] == od.rows@[e[p].1 as int]);
                }
                if has_key(self.row_indexes.entries@, r) {
                    let q = key_pos(self.row_indexes.entries@, r);
                    assert(e[q].0 == r);
                }
            }
        }
    }

    /// Moves columns in the data matrix (updating the column indexes
    /// accordingly) so that the column positions grow with the column
    /// indexes.
    pub fn sort_columns(&mut self)
        requires
            old(self).wf(),
        ensures
            final(self).wf(),
            final(self).block_type == old(self).block_type,
            final(self).subcase == old(self).subcase,
            final(self).row_indexes == old(self).row_indexes,
            same_keys(final(self).col_indexes, old(self).col_indexes),
            final(self).data is Some == old(self).data is Some,
            final(self).nrows() == old(self).nrows(),
            old(self).data is Some ==> positions_in_order(final(self).col_indexes),
            old(self).data is None ==> final(self).col_indexes == old(self).col_indexes,
            final(self).data matches Some(m) ==> m.kind == old(self).data.unwrap().kind,
            forall|r: NasIndex, c: NasIndex| #[trigger] final(self).value_at(r, c) == old(self).value_at(r, c),
    {
        let ghost old_self = *self;
        let ghost e = self.col_indexes.entries@;
        let ghost n = self.ncols();
        let data = self.data.take();
        let m = match data {
            Some(m) => m,
            None => {
                self.data = None;
                return;
            },
        };
        let ghost orows = m.rows@;
        let kind = m.kind;
        let mut rows = m.rows;
        let mut i: usize = 0;
        while i < rows.len()
            invariant
                rows@.len() == orows.len(),
                i <= orows.len(),
                e == self.col_indexes.entries@,
                positions_ok(self.col_indexes, n),
                forall|j: int| 0 <= j < orows.len() ==> (#[trigger] orows[j])@.len() == n,
                forall|j: int| i <= j < orows.len() ==> #[trigger] rows@[j] == orows[j],
                forall|j: int|
                    0 <= j < i ==> (#[trigger] rows@[j])@.len() == n && forall|k: int|
                        0 <= k < n ==> #[trigger] rows@[j]@[k] == orows[j]@[e[k].1 as int],
            decreases orows.len() - i,
        {
            let mut row: Vec<F06Number> = Vec::new();
            rows.set_and_swap(i, &mut row);
            assert(row == orows[i as int]);
            let nrow = permute_cells(row, &self.col_indexes.entries);
            let mut nrow = nrow;
            rows.set_and_swap(i, &mut nrow);
            i = i + 1;
        }
        let idx = in_order(&self.col_indexes.entries);
        self.data = Some(FinalDMat { kind, rows });
        self.col_indexes = idx;
        proof {
            assert(positions_ok(self.col_indexes, n));
            assert forall|r: NasIndex, c: NasIndex| #[trigger] self.value_at(r, c) == old_self.value_at(r, c) by {
                if has_key(e, c) {
                    let p = key_pos(e, c);
                    lemma_sorted_unique(e, p);
                    assert(self.col_indexes.entries@[p].0 == c);
                    lemma_sorted_unique(self.col_indexes.entries@, p);
                }
                if has_key(self.col_indexes.entries@, c) {
                    let q = key_pos(self.col_indexes.entries@, c);
                    assert(e[q].0 == c);
                }
            }
        }
    }
}


/// The indexes of `ks` that the map lacks, in order.
pub open spec fn keys_missing(ks: Seq<NasIndex>, m: Map<NasIndex, usize>) -> Seq<NasIndex>
    decreases ks.len(),
{
    if ks.len() == 0 {
        Seq::empty()
    } else {
        let rest = keys_missing(ks.drop_last(), m);
        if m.contains_key(ks.last()) { rest } else { rest.push(ks.last()) }
    }
}

/// The indexes of `ks` that the map holds too, in order.
pub open spec fn keys_shared(ks: Seq<NasIndex>, m: Map<NasIndex, usize>) -> Seq<NasIndex>
    decreases ks.len(),
{
    if ks.len() == 0 {
        Seq::empty()
    } else {
        let rest = keys_shared(ks.drop_last(), m);
        if m.contains_key(ks.last()) { rest.push(ks.last()) } else { rest }
    }
}

/// When no index of `ks` is missing from the map, the map holds them all.
pub proof fn lemma_none_missing(ks: Seq<NasIndex>, m: Map<NasIndex, usize>)
    requires
        keys_missing(ks, m).len() == 0,
    ensures
        forall|i: int| 0 <= i < ks.len() ==> m.contains_key(#[trigger] ks[i]),
    decreases ks.len(),
{
    if ks.len() > 0 {
        let rest = keys_missing(ks.drop_last(), m);
        if !m.contains_key(ks.last()) {
            assert(rest.push(ks.last()).len() > 0);
        }
        lemma_none_missing(ks.drop_last(), m);
        assert forall|i: int| 0 <= i < ks.len() implies m.contains_key(#[trigger] ks[i]) by {
            if i < ks.len() - 1 {
                assert(ks.drop_last()[i] == ks[i]);
            }
        }
    }
}

/// When some index of `ks` is missing from the map, one of them is.
pub proof fn lemma_some_missing(ks: Seq<NasIndex>, m: Map<NasIndex, usize>)
    requires
        keys_missing(ks, m).len() > 0,
    ensures
        exists|k: NasIndex| ks.contains(k) && !m.contains_key(k),
    decreases ks.len(),
{
    if ks.len() == 0 {
        assert(keys_missing(ks, m).len() == 0);
    } else {
        if m.contains_key(ks.last()) {
            lemma_some_missing(ks.drop_last(), m);
            let k = choose|k: NasIndex| ks.drop_last().contains(k) && !m.contains_key(k);
            let i = choose|i: int| 0 <= i < ks.drop_last().len() && ks.drop_last()[i] == k;
            assert(ks[i] == k);
            assert(ks.contains(k));
        } else {
            assert(ks[ks.len() - 1] == ks.last());
            assert(ks.contains(ks.last()));
        }
    }
}

/// Every index of a sorted map is among its keys in order.
pub proof fn lemma_key_in_seq(m: IndexMap, k: NasIndex)
    requires
        m.wf(),
        m@.contains_key(k),
    ensures
        0 <= key_pos(m.entries@, k) < m.key_seq().len(),
        m.key_seq()[key_pos(m.entries@, k)] == k,
{
    let p = key_pos(m.entries@, k);
    lemma_sorted_unique(m.entries@, p);
}

/// Lists the indexes of one map that another map lacks.
pub fn missing_keys(from: &IndexMap, other: &IndexMap) -> (r: Vec<NasIndex>)
    requires
        other.wf(),
    ensures
        r@ == keys_missing(from.key_seq(), other@),
{
    let mut r: Vec<NasIndex> = Vec::new();
    let mut i: usize = 0;
    while i < from.entries.len()
        invariant
            other.wf(),
            i <= from.entries@.len(),
            from.key_seq().len() == from.entries@.len(),
            r@ == keys_missing(from.key_seq().take(i as int), other@),
        decreases from.entries.len() - i,
    {
        let k = from.entries[i].0;
        assert(from.key_seq().take(i + 1).drop_last() =~= from.key_seq().take(i as int));
        assert(from.key_seq()[i as int] == k);
        if !other.contains_key(&k) {
            r.push(k);
        }
        i = i + 1;
    }
    assert(from.key_seq().take(i as int) =~= from.key_seq());
    r
}

/// Lists the indexes of one map that another map holds too.
fn shared_keys(from: &IndexMap, other: &IndexMap) -> (r: Vec<NasIndex>)
    requires
        other.wf(),
    ensures
        r@ == keys_shared(from.key_seq(), other@),
{
    let mut r: Vec<NasIndex> = Vec::new();
    let mut i: usize = 0;
    while i < from.entries.len()
        invariant
            other.wf(),
            i <= from.entries@.len(),
            from.key_seq().len() == from.entries@.len(),
            r@ == keys_shared(from.key_seq().take(i as int), other@),
        decreases from.entries.len() - i,
    {
        let k = from.entries[i].0;
        assert(from.key_seq().take(i + 1).drop_last() =~= from.key_seq().take(i as int));
        assert(from.key_seq()[i as int] == k);
        if other.contains_key(&k) {
            r.push(k);
        }
        i = i + 1;
    }
    assert(from.key_seq().take(i as int) =~= from.key_seq());
    r
}

/// The incompatibilities that can happen when attempting to merge two
/// finalised blocks.
#[derive(Clone, Debug, PartialEq, Eq)]
pub enum MergeIncompatible {
    /// Merge found conflicting columns and did nothing.
    ColumnConflict {
        /// Columns missing in the primary, in index order.
        missing_in_primary: Vec<NasIndex>,
        /// Columns missing in the secondary, in index order.
        missing_in_secondary: Vec<NasIndex>,
    },
    /// Blocks were not the same type.
    BlockTypeMismatch,
    /// Matrices did not have the same type of scalar.
    ScalarMismatch,
    /// Subcases don't match.
    SubcaseMismatch,
}

/// Two blocks can be merged: same type, same subcase, same columns, and the
/// same kind of scalar where both hold data.
pub open spec fn compatible(a: FinalBlock, b: FinalBlock) -> bool {
    &&& a.block_type == b.block_type
    &&& a.subcase == b.subcase
    &&& keys_missing(b.col_indexes.key_seq(), a.col_indexes@).len() == 0
    &&& keys_missing(a.col_indexes.key_seq(), b.col_indexes@).len() == 0
    &&& !(a.data is Some && b.data is Some && a.data.unwrap().kind != b.data.unwrap().kind)
}

/// The error that a merge of `a` with `b` is refused with: the first failed
/// check of type, subcase, columns and scalar kind.
pub open spec fn is_merge_error(a: FinalBlock, b: FinalBlock, e: MergeIncompatible) -> bool {
    if a.block_type != b.block_type {
        e is BlockTypeMismatch
    } else if a.subcase != b.subcase {
        e is SubcaseMismatch
    } else if keys_missing(b.col_indexes.key_seq(), a.col_indexes@).len() > 0 || keys_missing(
        a.col_indexes.key_seq(),
        b.col_indexes@,
    ).len() > 0 {
        e matches MergeIncompatible::ColumnConflict { missing_in_primary, missing_in_secondary }
            && missing_in_primary@ == keys_missing(b.col_indexes.key_seq(), a.col_indexes@)
            && missing_in_secondary@ == keys_missing(a.col_indexes.key_seq(), b.col_indexes@)
    } else {
        e is ScalarMismatch
    }
}

/// Compatible blocks have the same columns.
pub proof fn lemma_compatible_columns(a: FinalBlock, b: FinalBlock)
    requires
        a.col_indexes.wf(),
        b.col_indexes.wf(),
        compatible(a, b),
    ensures
        a.col_indexes@.dom() =~= b.col_indexes@.dom(),
{
    lemma_none_missing(b.col_indexes.key_seq(), a.col_indexes@);
    lemma_none_missing(a.col_indexes.key_seq(), b.col_indexes@);
    assert forall|c: NasIndex| a.col_indexes@.contains_key(c) implies b.col_indexes@.contains_key(c) by {
        lemma_key_in_seq(a.col_indexes, c);
    }
    assert forall|c: NasIndex| b.col_indexes@.contains_key(c) implies a.col_indexes@.contains_key(c) by {
        lemma_key_in_seq(b.col_indexes, c);
    }
}

impl FinalBlock {
    /// Checks for merge compatibility.
    pub fn can_merge(&self, other: &Self) -> (r: Result<(), MergeIncompatible>)
        requires
            self.col_indexes.wf(),
            other.col_indexes.wf(),
        ensures
            r is Ok == compatible(*self, *other),
            r matches Err(e) ==> is_merge_error(*self, *other, e),
    {
        if self.block_type != other.block_type {
            return Err(MergeIncompatible::BlockTypeMismatch);
        }
        if self.subcase != other.subcase {
            return Err(MergeIncompatible::SubcaseMismatch);
        }
        let missing_in_primary = missing_keys(&other.col_indexes, &self.col_indexes);
        let missing_in_secondary = missing_keys(&self.col_indexes, &other.col_indexes);
        if missing_in_primary.len() > 0 || missing_in_secondary.len() > 0 {
            return Err(MergeIncompatible::ColumnConflict { missing_in_primary, missing_in_secondary });
        }
        match (&self.data, &other.data) {
            (Some(ms), Some(mo)) => {
                if ms.kind != mo.kind {
                    return Err(MergeIncompatible::ScalarMismatch);
                }
            },
            _ => {},
        }
        Ok(())
    }

    /// Returns the row indexes this has in common with another, in index
    /// order.
    pub fn row_conflicts(&self, other: &Self) -> (r: Vec<NasIndex>)
        requires
            other.row_indexes.wf(),
        ensures
            r@ == keys_shared(self.row_indexes.key_seq(), other.row_indexes@),
    {
        shared_keys(&self.row_indexes, &other.row_indexes)
    }
}


/// The result of an attempt to merge two blocks.
#[derive(Clone, Debug)]
pub enum MergeResult {
    /// Merge was successful.
    Success {
        /// The block with the merged data.
        merged: FinalBlock,
    },
    /// Found conflicting rows; the others were put in the primary.
    Partial {
        /// The block with the merged data.
        merged: FinalBlock,
        /// The block with the remaining data.
        residue: FinalBlock,
        /// The rows skipped for their already being in the primary, in index
        /// order.
        skipped: Vec<NasIndex>,
    },
}

impl MergeResult {
    /// The block with the merged data.
    pub open spec fn merged_block(self) -> FinalBlock {
        match self {
            MergeResult::Success { merged } => merged,
            MergeResult::Partial { merged, .. } => merged,
        }
    }
}

/// Adding an index with the next free position keeps the positions a
/// bijection.
pub proof fn lemma_positions_push(m0: IndexMap, m1: IndexMap, n: int, k: NasIndex, p: int)
    requires
        positions_ok(m0, n),
        !m0@.contains_key(k),
        m1.wf(),
        0 <= p <= m0.entries@.len(),
        m1.entries@ == m0.entries@.insert(p, (k, n as usize)),
        n < usize::MAX,
    ensures
        positions_ok(m1, n + 1),
{
    let s0 = m0.entries@;
    let s1 = m1.entries@;
    assert forall|i: int| 0 <= i < n + 1 implies (#[trigger] s1[i]).1 < n + 1 by {
        if i < p {
            assert(s1[i] == s0[i]);
        } else if i > p {
            assert(s1[i] == s0[i - 1]);
        }
    }
    assert forall|i: int, j: int| 0 <= i < j < n + 1 implies (#[trigger] s1[i]).1 != (#[trigger] s1[j]).1 by {
        if j < p {
            assert(s1[i] == s0[i] && s1[j] == s0[j]);
        } else if j == p {
            assert(s1[i] == s0[i]);
        } else if i < p {
            assert(s1[i] == s0[i] && s1[j] == s0[j - 1]);
        } else if i == p {
            assert(s1[j] == s0[j - 1]);
        } else {
            assert(s1[i] == s0[i - 1] && s1[j] == s0[j - 1]);
        }
    }
}

/// A row for the columns of `cols`, taken from row `src` of `from` by
/// column index.
fn row_by_columns(cols: &IndexMap, from: &FinalBlock, src: usize) -> (r: Vec<F06Number>)
    requires
        from.wf(),
        from.data is Some,
        src < from.nrows(),
        cols.wf(),
        forall|c: NasIndex| cols@.contains_key(c) ==> from.col_indexes@.contains_key(c),
    ensures
        r@.len() == cols.entries@.len(),
        forall|j: int|
            0 <= j < cols.entries@.len() ==> Some((#[trigger] r@[j])@) == from.data.unwrap().cell(
                src as int,
                from.col_indexes@[cols.entries@[j].0] as int,
            ),
{
    let m = match &from.data {
        Some(m) => m,
        None => return Vec::new(),
    };
    let mut r: Vec<F06Number> = Vec::new();
    let mut j: usize = 0;
    while j < cols.entries.len()
        invariant
            from.wf(),
            from.data == Some(*m),
            src < m.rows@.len(),
            cols.wf(),
            forall|c: NasIndex| cols@.contains_key(c) ==> from.col_indexes@.contains_key(c),
            j <= cols.entries@.len(),
            r@.len() == j,
            forall|i: int|
                0 <= i < j ==> Some((#[trigger] r@[i])@) == m.cell(
                    src as int,
                    from.col_indexes@[cols.entries@[i].0] as int,
                ),
        decreases cols.entries.len() - j,
    {
        let c = cols.entries[j].0;
        proof {
            lemma_sorted_unique(cols.entries@, j as int);
            assert(cols@.contains_key(c));
            assert(from.col_indexes@.contains_key(c));
            lemma_positions_distinct(from.col_indexes, from.ncols(), c, c);
        }
        let p = match from.col_indexes.get(&c) {
            Some(p) => p,
            None => return r,
        };
        r.push(m.rows[src][p].copy());
        j = j + 1;
    }
    r
}

/// The elements of a sequence with one more at its end.
proof fn lemma_push_to_set(s: Seq<NasIndex>, x: NasIndex)
    ensures
        s.push(x).to_set() =~= s.to_set().insert(x),
{
    assert forall|a: NasIndex| #[trigger] s.push(x).to_set().contains(a) <==> s.to_set().insert(x).contains(a) by {
        if s.contains(a) {
            let i = choose|i: int| 0 <= i < s.len() && s[i] == a;
            assert(s.push(x)[i] == a);
        }
        if s.push(x).contains(a) {
            let i = choose|i: int| 0 <= i < s.push(x).len() && s.push(x)[i] == a;
            if i < s.len() {
                assert(s[i] == a);
            }
        }
        assert(s.push(x)[s.len() as int] == x);
    }
}

/// The rows of `me` followed, for each row of `ot` that `me` lacks, by that
/// row. Returns the rows of `ot` that `me` had, in index order.
fn copy_missing_rows(me: &mut FinalBlock, ot: &FinalBlock) -> (skipped: Vec<NasIndex>)
    requires
        old(me).wf(),
        ot.wf(),
        old(me).data is Some,
        ot.data is Some,
        ot.data.unwrap().kind == old(me).data.unwrap().kind,
        old(me).col_indexes@.dom() =~= ot.col_indexes@.dom(),
        positions_in_order(old(me).col_indexes),
    ensures
        final(me).wf(),
        final(me).block_type == old(me).block_type,
        final(me).subcase == old(me).subcase,
        final(me).col_indexes == old(me).col_indexes,
        final(me).data is Some,
        final(me).data.unwrap().kind == old(me).data.unwrap().kind,
        final(me).row_indexes@.dom() =~= old(me).row_indexes@.dom() + ot.row_indexes@.dom(),
        forall|r: NasIndex, c: NasIndex| #[trigger] final(me).value_at(r, c) == (if old(me).row_indexes@.contains_key(r) {
            old(me).value_at(r, c)
        } else {
            ot.value_at(r, c)
        }),
        skipped@ == keys_shared(ot.row_indexes.key_seq(), old(me).row_indexes@),
{
    let ghost orig = *me;
    let ghost ks = ot.row_indexes.key_seq();
    let ghost ncols = me.ncols();
    let mut md = match me.data.take() {
        Some(m) => m,
        None => return Vec::new(),
    };
    let mut skipped: Vec<NasIndex> = Vec::new();
    let mut k: usize = 0;
    while k < ot.row_indexes.entries.len()
        invariant
            ot.wf(),
            ot.data is Some,
            me.block_type == orig.block_type,
            me.subcase == orig.subcase,
            me.col_indexes == orig.col_indexes,
            me.data is None,
            positions_ok(me.col_indexes, ncols),
            positions_in_order(me.col_indexes),
            orig == *old(me),
            ks == ot.row_indexes.key_seq(),
            orig.col_indexes@.dom() =~= ot.col_indexes@.dom(),
            md.kind == orig.data.unwrap().kind,
            ot.data.unwrap().kind == md.kind,
            rows_of_kind(md.rows@, md.kind),
            k <= ot.row_indexes.entries@.len(),
            ks.len() == ot.row_indexes.entries@.len(),
            positions_ok(me.row_indexes, md.rows@.len() as int),
            orig.nrows() <= md.rows@.len(),
            forall|i: int| 0 <= i < md.rows@.len() ==> (#[trigger] md.rows@[i])@.len() == ncols,
            forall|i: int| 0 <= i < orig.nrows() ==> #[trigger] md.rows@[i] == orig.data.unwrap().rows@[i],
            me.row_indexes@.dom() =~= orig.row_indexes@.dom() + ks.take(k as int).to_set(),
            forall|r: NasIndex| #[trigger] orig.row_indexes@.contains_key(r) ==> me.row_indexes@[r] == orig.row_indexes@[r],
            forall|r: NasIndex, c: NasIndex|
                me.row_indexes@.contains_key(r) && !orig.row_indexes@.contains_key(r) && me.col_indexes@.contains_key(c)
                    ==> #[trigger] md.cell(me.row_indexes@[r] as int, me.col_indexes@[c] as int) == ot.value_at(r, c),
            skipped@ == keys_shared(ks.take(k as int), orig.row_indexes@),
        decreases ot.row_indexes.entries.len() - k,
    {
        let (rk, rpos) = ot.row_indexes.entries[k];
        proof {
            lemma_sorted_unique(ot.row_indexes.entries@, k as int);
            lemma_positions_distinct(ot.row_indexes, ot.nrows(), rk, rk);
            assert(ks[k as int] == rk);
            assert(ks.take(k + 1).drop_last() =~= ks.take(k as int));
            assert(ks.take(k + 1) =~= ks.take(k as int).push(rk));
            // the index was not seen before: the keys of `ot` are sorted
            assert(!ks.take(k as int).to_set().contains(rk)) by {
                if ks.take(k as int).to_set().contains(rk) {
                    let j = choose|j: int| 0 <= j < k && ks.take(k as int)[j] == rk;
                    assert(ks[j] == rk);
                    assert(crate::order::nas_lt(ot.row_indexes.entries@[j].0, ot.row_indexes.entries@[k as int].0));
                    crate::order::lemma_nas_order(rk, rk, rk);
                }
            }
        }
        if me.row_indexes.contains_key(&rk) {
            skipped.push(rk);
            proof {
                assert(orig.row_indexes@.contains_key(rk));
                lemma_push_to_set(ks.take(k as int), rk);
            }
        } else {
            let row = row_by_columns(&me.col_indexes, ot, rpos);
            let n = md.rows.len();
            let ghost m0 = me.row_indexes;
            let ghost md0 = md;
            proof {
                assert forall|j: int| 0 <= j < row@.len() implies of_kind((#[trigger] row@[j])@, md.kind) by {
                    let cj = ot.col_indexes@[me.col_indexes.entries@[j].0] as int;
                    assert(Some(row@[j]@) == ot.data.unwrap().cell(rpos as int, cj));
                    assert(row@[j]@ == ot.data.unwrap().rows@[rpos as int]@[cj]@);
                }
            }
            md.rows.push(row);
            assert(md.rows.len() == md.rows@.len());
            proof {
                assert forall|i: int, j: int| 0 <= i < md.rows@.len() && 0 <= j < md.rows@[i]@.len() implies of_kind(
                    (#[trigger] md.rows@[i]@[j])@,
                    md.kind,
                ) by {
                    if i < md0.rows@.len() {
                        assert(md.rows@[i] == md0.rows@[i]);
                    }
                }
            }
            me.row_indexes.insert(rk, n);
            proof {
                let p = choose|p: int|
                    0 <= p <= m0.entries@.len() && me.row_indexes.entries@ == m0.entries@.insert(p, (rk, n));
                lemma_positions_push(m0, me.row_indexes, n as int, rk, p);
                lemma_push_to_set(ks.take(k as int), rk);
                assert forall|r: NasIndex, c: NasIndex|
                    me.row_indexes@.contains_key(r) && !orig.row_indexes@.contains_key(r) && me.col_indexes@.contains_key(c)
                        implies #[trigger] md.cell(me.row_indexes@[r] as int, me.col_indexes@[c] as int) == ot.value_at(r, c) by {
                    lemma_positions_distinct(me.col_indexes, ncols, c, c);
                    if r == rk {
                        let j = key_pos(me.col_indexes.entries@, c);
                        lemma_sorted_unique(me.col_indexes.entries@, j);
                        assert(me.col_indexes@[c] == j);
                        assert(md.rows@[n as int] == row);
                        assert(Some(row@[j]@) == ot.data.unwrap().cell(rpos as int, ot.col_indexes@[c] as int));
                    } else {
                        lemma_positions_distinct(m0, n as int, r, r);
                        assert(m0@.contains_key(r));
                        assert(me.row_indexes@[r] == m0@[r]);
                        assert(md0.cell(m0@[r] as int, me.col_indexes@[c] as int) == ot.value_at(r, c));
                        assert(md.rows@[m0@[r] as int] == md0.rows@[m0@[r] as int]);
                    }
                }
            }
        }
        k = k + 1;
    }
    me.data = Some(md);
    proof {
        assert(ks.take(k as int) =~= ks);
        assert(ot.row_indexes@.dom() =~= ks.to_set()) by {
            assert forall|r: NasIndex| ot.row_indexes@.contains_key(r) implies ks.to_set().contains(r) by {
                lemma_key_in_seq(ot.row_indexes, r);
            }
            assert forall|r: NasIndex| ks.to_set().contains(r) implies ot.row_indexes@.contains_key(r) by {
                let j = choose|j: int| 0 <= j < ks.len() && ks[j] == r;
                lemma_sorted_unique(ot.row_indexes.entries@, j);
            }
        }
        assert forall|r: NasIndex, c: NasIndex| #[trigger] me.value_at(r, c) == (if orig.row_indexes@.contains_key(r) {
            orig.value_at(r, c)
        } else {
            ot.value_at(r, c)
        }) by {
            if orig.row_indexes@.contains_key(r) {
                lemma_positions_distinct(orig.row_indexes, orig.nrows(), r, r);
                let pos = orig.row_indexes@[r] as int;
                assert(me.row_indexes@[r] == pos);
                assert(md.rows@[pos] == orig.data.unwrap().rows@[pos]);
            } else if me.row_indexes@.contains_key(r) {
                if me.col_indexes@.contains_key(c) {
                    assert(md.cell(me.row_indexes@[r] as int, me.col_indexes@[c] as int) == ot.value_at(r, c));
                } else {
                    assert(!ot.col_indexes@.contains_key(c));
                }
            } else {
                assert(!ot.row_indexes@.contains_key(r));
            }
        }
    }
    skipped
}


/// Two maps with the same indexes in the same order hold the same indexes.
pub proof fn lemma_same_keys_dom(a: IndexMap, b: IndexMap)
    requires
        same_keys(a, b),
    ensures
        a@.dom() =~= b@.dom(),
{
    assert forall|k: NasIndex| a@.contains_key(k) implies b@.contains_key(k) by {
        let i = key_pos(a.entries@, k);
        assert(b.entries@[i].0 == k);
    }
    assert forall|k: NasIndex| b@.contains_key(k) implies a@.contains_key(k) by {
        let i = key_pos(b.entries@, k);
        assert(a.entries@[i].0 == k);
    }
}

/// No index of `ks` is shared with a map that holds none of them.
pub proof fn lemma_none_shared(ks: Seq<NasIndex>, m: Map<NasIndex, usize>)
    requires
        forall|i: int| 0 <= i < ks.len() ==> !m.contains_key(#[trigger] ks[i]),
    ensures
        keys_shared(ks, m).len() == 0,
    decreases ks.len(),
{
    if ks.len() > 0 {
        assert forall|i: int| 0 <= i < ks.drop_last().len() implies !m.contains_key(#[trigger] ks.drop_last()[i]) by {
            assert(ks.drop_last()[i] == ks[i]);
        }
        lemma_none_shared(ks.drop_last(), m);
        assert(!m.contains_key(ks[ks.len() - 1]));
    }
}

/// What a merge of `a` with `b` gives: a well-formed block of the same
/// type, subcase and columns, holding the rows of both; a row that both
/// hold keeps the values of `a`. It is partial when some rows were shared,
/// which it lists, and then gives `b` back as the residue.
pub open spec fn merge_outcome(a: FinalBlock, b: FinalBlock, res: MergeResult) -> bool {
    let m = res.merged_block();
    &&& m.wf()
    &&& m.block_type == a.block_type
    &&& m.subcase == a.subcase
    &&& m.col_indexes@.dom() == a.col_indexes@.dom()
    &&& m.row_indexes@.dom() == a.row_indexes@.dom() + b.row_indexes@.dom()
    &&& forall|r: NasIndex, c: NasIndex| #[trigger] m.value_at(r, c) == (if a.row_indexes@.contains_key(r) {
        a.value_at(r, c)
    } else {
        b.value_at(r, c)
    })
    &&& m.data is Some == (a.data is Some || b.data is Some)
    &&& (m.data matches Some(d) ==> d.kind == (if a.data is Some { a.data.unwrap().kind } else { b.data.unwrap().kind }))
    &&& (res is Partial <==> keys_shared(b.row_indexes.key_seq(), a.row_indexes@).len() > 0)
    &&& (res matches MergeResult::Partial { residue, skipped, .. } ==> {
        &&& skipped@ == keys_shared(b.row_indexes.key_seq(), a.row_indexes@)
        &&& residue.wf()
        &&& residue.row_indexes == b.row_indexes
        &&& forall|r: NasIndex, c: NasIndex| #[trigger] residue.value_at(r, c) == b.value_at(r, c)
    })
}

impl FinalBlock {
    /// Copies the rows of another block that this one lacks into this one.
    pub fn try_merge(self, other: FinalBlock) -> (r: Result<MergeResult, MergeIncompatible>)
        requires
            self.wf(),
            other.wf(),
        ensures
            r is Ok == compatible(self, other),
            r matches Err(e) ==> is_merge_error(self, other, e),
            r matches Ok(res) ==> merge_outcome(self, other, res),
    {
        match self.can_merge(&other) {
            Err(e) => return Err(e),
            Ok(()) => {},
        }
        proof {
            lemma_compatible_columns(self, other);
        }
        let ghost a = self;
        let ghost b = other;
        let mut me = self;
        me.sort_columns();
        let mut ot = other;
        ot.sort_columns();
        proof {
            lemma_same_keys_dom(me.col_indexes, a.col_indexes);
            lemma_same_keys_dom(ot.col_indexes, b.col_indexes);
        }
        let me_has = me.data.is_some();
        let ot_has = ot.data.is_some();
        if !me_has || !ot_has {
            proof {
                if !me_has {
                    assert(a.row_indexes@.dom() =~= Set::<NasIndex>::empty());
                    lemma_none_shared(b.row_indexes.key_seq(), a.row_indexes@);
                } else {
                    assert(b.row_indexes@.dom() =~= Set::<NasIndex>::empty());
                    assert(b.row_indexes.key_seq().len() == 0);
                }
            }
            if !me_has && ot_has {
                proof {
                    assert(ot.row_indexes@.dom() =~= a.row_indexes@.dom() + b.row_indexes@.dom());
                    assert forall|r: NasIndex, c: NasIndex| #[trigger] ot.value_at(r, c) == (if a.row_indexes@.contains_key(r) {
                        a.value_at(r, c)
                    } else {
                        b.value_at(r, c)
                    }) by {
                        assert(!a.row_indexes@.contains_key(r));
                    }
                    assert(merge_outcome(a, b, MergeResult::Success { merged: ot }));
                }
                return Ok(MergeResult::Success { merged: ot });
            }
            proof {
                assert(me.row_indexes@.dom() =~= a.row_indexes@.dom() + b.row_indexes@.dom());
                assert forall|r: NasIndex, c: NasIndex| #[trigger] me.value_at(r, c) == (if a.row_indexes@.contains_key(r) {
                    a.value_at(r, c)
                } else {
                    b.value_at(r, c)
                }) by {
                    if !a.row_indexes@.contains_key(r) {
                        assert(!b.row_indexes@.contains_key(r));
                    }
                }
                assert(merge_outcome(a, b, MergeResult::Success { merged: me }));
            }
            return Ok(MergeResult::Success { merged: me });
        }
        let skipped = copy_missing_rows(&mut me, &ot);
        if skipped.len() == 0 {
            Ok(MergeResult::Success { merged: me })
        } else {
            Ok(MergeResult::Partial { merged: me, residue: ot, skipped })
        }
    }
}


/// The values of a row, by their views.
pub open spec fn row_view(row: Seq<F06Number>) -> Seq<NumberView> {
    row.map_values(|x: F06Number| x@)
}

/// A block being filled by a decoder: rows are added or replaced by row
/// index; the columns are fixed when it is made.
#[derive(Clone, Debug)]
pub struct RowBlock {
    /// The kind of scalar within.
    kind: ScalarKind,
    /// The row indexes.
    row_indexes: IndexMap,
    /// The column indexes.
    col_indexes: IndexMap,
    /// The rows, one value per column each.
    rows: Vec<Vec<F06Number>>,
}

impl RowBlock {
    /// The kind of scalar within.
    pub closed spec fn kind_of(&self) -> ScalarKind {
        self.kind
    }

    /// The number of columns.
    pub closed spec fn width(&self) -> int {
        self.col_indexes.entries@.len() as int
    }

    /// The rows, by row index: the values in column-position order.
    pub closed spec fn contents(&self) -> Map<NasIndex, Seq<NumberView>> {
        Map::new(
            |r: NasIndex| self.row_indexes@.contains_key(r),
            |r: NasIndex| row_view(self.rows@[self.row_indexes@[r] as int]@),
        )
    }

    /// The columns, by column index: their positions.
    pub closed spec fn columns(&self) -> Map<NasIndex, usize> {
        self.col_indexes@
    }

    /// The number of rows held.
    pub closed spec fn row_count(&self) -> int {
        self.rows@.len() as int
    }

    /// Indexes map one to one onto rows and column positions; every row has
    /// one value per column.
    pub closed spec fn wf(&self) -> bool {
        &&& positions_ok(self.row_indexes, self.rows@.len() as int)
        &&& positions_ok(self.col_indexes, self.col_indexes.entries@.len() as int)
        &&& forall|i: int| 0 <= i < self.rows@.len() ==> (#[trigger] self.rows@[i])@.len() == self.width()
        &&& rows_of_kind(self.rows@, self.kind)
    }

    /// Creates an empty block with the given columns.
    pub fn new(kind: ScalarKind, col_indexes: IndexMap) -> (r: RowBlock)
        requires
            positions_ok(col_indexes, col_indexes.entries@.len() as int),
        ensures
            r.wf(),
            r.kind_of() == kind,
            r.contents() == Map::<NasIndex, Seq<NumberView>>::empty(),
            r.columns() == col_indexes@,
            r.width() == col_indexes.entries@.len(),
            r.row_count() == 0,
    {
        let r = RowBlock { kind, row_indexes: IndexMap::new(), col_indexes, rows: Vec::new() };
        assert(r.contents() =~= Map::<NasIndex, Seq<NumberView>>::empty());
        r
    }

    /// The number of columns.
    pub fn width_of(&self) -> (r: usize)
        ensures
            r == self.width(),
    {
        self.col_indexes.entries.len()
    }

    /// The column indexes.
    pub fn col_indexes(&self) -> (r: &IndexMap)
        ensures
            r@ == self.columns(),
    {
        &self.col_indexes
    }

    /// Inserts a row of values (in column-position order), replacing the
    /// row with the same index if there is one. Returns the position of the
    /// row in the underlying matrix.
    pub fn insert_raw(&mut self, row_index: NasIndex, row: Vec<F06Number>) -> (r: usize)
        requires
            old(self).wf(),
            row@.len() == old(self).width(),
            forall|i: int| 0 <= i < row@.len() ==> of_kind((#[trigger] row@[i])@, old(self).kind_of()),
        ensures
            final(self).wf(),
            final(self).kind_of() == old(self).kind_of(),
            final(self).columns() == old(self).columns(),
            final(self).width() == old(self).width(),
            final(self).contents() == old(self).contents().insert(row_index, row_view(row@)),
            final(self).row_count() == old(self).row_count() + (if old(self).contents().contains_key(row_index) {
                0int
            } else {
                1int
            }),
    {
        let ghost old_rows = self.rows@;
        let ghost m0 = self.row_indexes;
        let n = self.rows.len();
        match self.row_indexes.get(&row_index) {
            Some(p) => {
                proof {
                    lemma_positions_distinct(m0, n as int, row_index, row_index);
                }
                let ghost new_row = row@;
                let mut row = row;
                self.rows.set_and_swap(p, &mut row);
                proof {
                    assert forall|r: NasIndex| #[trigger] self.contents().contains_key(r) implies self.contents()[r]
                        == old(self).contents().insert(row_index, row_view(new_row))[r] by {
                        if r != row_index {
                            lemma_positions_distinct(m0, n as int, r, row_index);
                        }
                    }
                    assert(self.contents() =~= old(self).contents().insert(row_index, row_view(new_row)));
                }
                p
            },
            None => {
                self.rows.push(row);
                assert(self.rows.len() == self.rows@.len());
                self.row_indexes.insert(row_index, n);
                proof {
                    let p = choose|p: int|
                        0 <= p <= m0.entries@.len() && self.row_indexes.entries@ == m0.entries@.insert(p, (row_index, n));
                    lemma_positions_push(m0, self.row_indexes, n as int, row_index, p);
                    assert forall|r: NasIndex| #[trigger] self.contents().contains_key(r) implies self.contents()[r]
                        == old(self).contents().insert(row_index, row_view(row@))[r] by {
                        if r != row_index {
                            lemma_positions_distinct(m0, n as int, r, r);
                            assert(self.rows@[m0@[r] as int] == old_rows[m0@[r] as int]);
                        }
                    }
                    assert(self.contents() =~= old(self).contents().insert(row_index, row_view(row@)));
                }
                n
            },
        }
    }

    /// Consumes this block and gives the finalised block, with the data
    /// matrix only when some row was inserted.
    pub fn finalise(self, block_type: BlockType, subcase: usize) -> (r: FinalBlock)
        requires
            self.wf(),
        ensures
            r.wf(),
            r.block_type == block_type,
            r.subcase == subcase,
            r.row_indexes@.dom() == self.contents().dom(),
            r.col_indexes@ == self.columns(),
            r.data is Some == (self.row_count() > 0),
            r.data matches Some(m) ==> m.kind == self.kind_of(),
            forall|row: NasIndex, col: NasIndex| #[trigger] r.value_at(row, col) == (if self.contents().contains_key(row)
                && self.columns().contains_key(col) {
                Some(self.contents()[row][self.columns()[col] as int])
            } else {
                None
            }),
    {
        let ghost me = self;
        let data = if self.rows.len() > 0 {
            Some(FinalDMat { kind: self.kind, rows: self.rows })
        } else {
            None
        };
        let r = FinalBlock { block_type, subcase, row_indexes: self.row_indexes, col_indexes: self.col_indexes, data };
        proof {
            assert forall|row: NasIndex, col: NasIndex| #[trigger] r.value_at(row, col) == (if me.contents().contains_key(row)
                && me.columns().contains_key(col) {
                Some(me.contents()[row][me.columns()[col] as int])
            } else {
                None
            }) by {
                if me.contents().contains_key(row) && me.columns().contains_key(col) {
                    lemma_positions_distinct(me.row_indexes, me.rows@.len() as int, row, row);
                    lemma_positions_distinct(me.col_indexes, me.width(), col, col);
                }
            }
        }
        r
    }
}


/// The zero of a kind of scalar.
pub open spec fn zero_view(kind: ScalarKind) -> NumberView {
    match kind {
        ScalarKind::Real => NumberView::Real(seq!['0', '.', '0']),
        ScalarKind::Integer => NumberView::Integer(0),
        ScalarKind::Natural => NumberView::Natural(0),
    }
}

/// The zero of a kind of scalar.
pub fn zero_of(kind: ScalarKind) -> (r: F06Number)
    ensures
        r@ == zero_view(kind),
{
    match kind {
        ScalarKind::Real => F06Number::Real(crate::numbers::RealText::zero()),
        ScalarKind::Integer => F06Number::Integer(0),
        ScalarKind::Natural => F06Number::Natural(0),
    }
}

/// The row that `insert_row` makes of some values by column index: each
/// position holds the value of the last pair for the column at that
/// position, or zero.
pub open spec fn row_from_pairs(
    pairs: Seq<(NasIndex, NumberView)>,
    cols: Map<NasIndex, usize>,
    width: int,
    zero: NumberView,
) -> Seq<NumberView>
    decreases pairs.len(),
{
    if pairs.len() == 0 {
        Seq::new(width as nat, |i: int| zero)
    } else {
        let rest = row_from_pairs(pairs.drop_last(), cols, width, zero);
        rest.update(cols[pairs.last().0] as int, pairs.last().1)
    }
}

/// The views of some pairs of a column index and a value.
pub open spec fn pair_views(pairs: Seq<(NasIndex, F06Number)>) -> Seq<(NasIndex, NumberView)> {
    pairs.map_values(|p: (NasIndex, F06Number)| (p.0, p.1@))
}

impl RowBlock {
    /// Inserts a row given as values by column index; columns given no
    /// value hold zero.
    pub fn insert_row(&mut self, row_index: NasIndex, data: &Vec<(NasIndex, F06Number)>) -> (r: usize)
        requires
            old(self).wf(),
            forall|i: int| 0 <= i < data@.len() ==> old(self).columns().contains_key(#[trigger] data@[i].0),
            forall|i: int| 0 <= i < data@.len() ==> of_kind((#[trigger] data@[i]).1@, old(self).kind_of()),
        ensures
            final(self).wf(),
            final(self).kind_of() == old(self).kind_of(),
            final(self).columns() == old(self).columns(),
            final(self).width() == old(self).width(),
            final(self).contents() == old(self).contents().insert(
                row_index,
                row_from_pairs(pair_views(data@), old(self).columns(), old(self).width(), zero_view(old(self).kind_of())),
            ),
    {
        let w = self.col_indexes.entries.len();
        let mut raw: Vec<F06Number> = Vec::new();
        let mut i: usize = 0;
        while i < w
            invariant
                i <= w,
                raw@.len() == i,
                forall|k: int| 0 <= k < i ==> (#[trigger] raw@[k])@ == zero_view(self.kind),
                forall|k: int| 0 <= k < i ==> of_kind((#[trigger] raw@[k])@, self.kind),
            decreases w - i,
        {
            raw.push(zero_of(self.kind));
            i = i + 1;
        }
        proof {
            assert(row_view(raw@) =~= row_from_pairs(pair_views(data@).take(0), self.columns(), w as int, zero_view(self.kind)));
        }
        let mut j: usize = 0;
        while j < data.len()
            invariant
                self.wf(),
                *self == *old(self),
                w == self.width(),
                forall|i: int| 0 <= i < data@.len() ==> self.columns().contains_key(#[trigger] data@[i].0),
                j <= data@.len(),
                raw@.len() == w,
                forall|i: int| 0 <= i < data@.len() ==> of_kind((#[trigger] data@[i]).1@, self.kind),
                forall|k: int| 0 <= k < w ==> of_kind((#[trigger] raw@[k])@, self.kind),
                row_view(raw@) == row_from_pairs(pair_views(data@).take(j as int), self.columns(), w as int, zero_view(self.kind)),
            decreases data.len() - j,
        {
            let c = data[j].0;
            proof {
                assert(self.columns().contains_key(data@[j as int].0));
                lemma_positions_distinct(self.col_indexes, w as int, c, c);
                assert(pair_views(data@).take(j + 1).drop_last() =~= pair_views(data@).take(j as int));
            }
            let p = match self.col_indexes.get(&c) {
                Some(p) => p,
                None => return self.insert_raw(row_index, raw),
            };
            raw.set(p, data[j].1.copy());
            proof {
                assert(row_view(raw@) =~= row_from_pairs(pair_views(data@).take(j + 1), self.columns(), w as int, zero_view(self.kind)));
            }
            j = j + 1;
        }
        proof {
            assert(pair_views(data@).take(j as int) =~= pair_views(data@));
        }
        self.insert_raw(row_index, raw)
    }
}

/// The response of a block decoder upon receiving a line.
#[derive(Copy, Clone, Debug, PartialEq, Eq, Structural)]
pub enum LineResponse {
    /// The supplied line contained no useful information.
    Useless,
    /// The supplied line contained useful metadata, but was not a data line.
    Metadata,
    /// The supplied line contained useful data that went into the matrix.
    Data,
    /// The supplied line makes the decoder think this block is finished.
    Done,
    /// The flavour is incompatible (e.g. unknown solver).
    BadFlavour,
    /// The supplied line looks like it contains data but the metadata to
    /// decode it is missing.
    MissingMetadata,
    /// The supplied line suggests the wrong decoder for the right solver.
    WrongDecoder,
    /// The supplied line suggests the solver is wrong.
    WrongSolver,
    /// Unsupported data format.
    Unsupported,
    /// Something went terribly wrong.
    Abort,
}

/// Is the response one that ends a block abnormally?
pub open spec fn is_abnormal(r: LineResponse) -> bool {
    !(r is Useless || r is Metadata || r is Data || r is Done)
}

impl LineResponse {
    /// Returns true if the response was abnormal.
    pub fn abnormal(&self) -> (r: bool)
        ensures
            r == is_abnormal(*self),
    {
        match self {
            LineResponse::Useless | LineResponse::Metadata | LineResponse::Data | LineResponse::Done => false,
            _ => true,
        }
    }
}


/// A copy of an index map.
pub fn copy_index_map(m: &IndexMap) -> (r: IndexMap)
    ensures
        r.entries@ == m.entries@,
{
    let mut e: Vec<(NasIndex, usize)> = Vec::new();
    let mut i: usize = 0;
    while i < m.entries.len()
        invariant
            i <= m.entries@.len(),
            e@ == m.entries@.take(i as int),
        decreases m.entries.len() - i,
    {
        e.push(m.entries[i]);
        i = i + 1;
        assert(e@ =~= m.entries@.take(i as int));
    }
    assert(m.entries@.take(i as int) =~= m.entries@);
    IndexMap { entries: e }
}

/// A copy of a row of values.
fn copy_row(row: &Vec<F06Number>) -> (r: Vec<F06Number>)
    ensures
        row_view(r@) == row_view(row@),
{
    let mut v: Vec<F06Number> = Vec::new();
    let mut i: usize = 0;
    while i < row.len()
        invariant
            i <= row@.len(),
            row_view(v@) == row_view(row@).take(i as int),
        decreases row.len() - i,
    {
        let ghost before = row_view(v@);
        v.push(row[i].copy());
        assert(row_view(v@) =~= before.push(row@[i as int]@));
        i = i + 1;
        assert(row_view(v@) =~= row_view(row@).take(i as int));
    }
    assert(row_view(row@).take(i as int) =~= row_view(row@));
    v
}

impl FinalDMat {
    /// A copy of this matrix.
    pub fn duplicate(&self) -> (r: FinalDMat)
        ensures
            r.kind == self.kind,
            r.rows@.len() == self.rows@.len(),
            forall|i: int| 0 <= i < self.rows@.len() ==> row_view((#[trigger] r.rows@[i])@) == row_view(self.rows@[i]@),
    {
        let mut rows: Vec<Vec<F06Number>> = Vec::new();
        let mut i: usize = 0;
        while i < self.rows.len()
            invariant
                i <= self.rows@.len(),
                rows@.len() == i,
                forall|k: int| 0 <= k < i ==> row_view((#[trigger] rows@[k])@) == row_view(self.rows@[k]@),
            decreases self.rows.len() - i,
        {
            rows.push(copy_row(&self.rows[i]));
            i = i + 1;
        }
        FinalDMat { kind: self.kind, rows }
    }
}

/// Rows with the same values have the same cells.
pub proof fn lemma_same_rows_cells(a: Seq<Vec<F06Number>>, b: Seq<Vec<F06Number>>, i: int, j: int)
    requires
        a.len() == b.len(),
        forall|k: int| 0 <= k < a.len() ==> row_view((#[trigger] a[k])@) == row_view(b[k]@),
    ensures
        cell_of(a, i, j) == cell_of(b, i, j),
{
    if 0 <= i < a.len() {
        assert(row_view(a[i]@) == row_view(b[i]@));
        assert(a[i]@.len() == row_view(a[i]@).len());
        assert(b[i]@.len() == row_view(b[i]@).len());
        if 0 <= j < a[i]@.len() {
            assert(row_view(a[i]@)[j] == a[i]@[j]@);
            assert(row_view(b[i]@)[j] == b[i]@[j]@);
        }
    }
}

impl FinalBlock {
    /// A copy of this block.
    pub fn duplicate(&self) -> (r: FinalBlock)
        ensures
            r.block_type == self.block_type,
            r.subcase == self.subcase,
            r.row_indexes.entries@ == self.row_indexes.entries@,
            r.col_indexes.entries@ == self.col_indexes.entries@,
            r.data is Some == self.data is Some,
            r.data matches Some(m) ==> m.kind == self.data.unwrap().kind,
            r.data matches Some(m) ==> forall|i: int, j: int| #[trigger] m.cell(i, j) == self.data.unwrap().cell(i, j),
            forall|row: NasIndex, col: NasIndex| #[trigger] r.value_at(row, col) == self.value_at(row, col),
    {
        let data = match &self.data {
            Some(m) => Some(m.duplicate()),
            None => None,
        };
        let r = FinalBlock {
            block_type: self.block_type,
            subcase: self.subcase,
            row_indexes: copy_index_map(&self.row_indexes),
            col_indexes: copy_index_map(&self.col_indexes),
            data,
        };
        proof {
            if r.data is Some {
                assert forall|i: int, j: int| #[trigger] r.data.unwrap().cell(i, j) == self.data.unwrap().cell(i, j) by {
                    lemma_same_rows_cells(r.data.unwrap().rows@, self.data.unwrap().rows@, i, j);
                }
            }
            assert forall|row: NasIndex, col: NasIndex| #[trigger] r.value_at(row, col) == self.value_at(row, col) by {
                if r.data is Some {
                    let ri = self.row_indexes@[row] as int;
                    let ci = self.col_indexes@[col] as int;
                    lemma_same_rows_cells(r.data.unwrap().rows@, self.data.unwrap().rows@, ri, ci);
                }
            }
        }
        r
    }
}

/// The entries of a list whose indexes are in a keep list, in order.
pub open spec fn kept_entries(e: Seq<(NasIndex, usize)>, keep: Seq<NasIndex>) -> Seq<(NasIndex, usize)>
    decreases e.len(),
{
    if e.len() == 0 {
        Seq::empty()
    } else {
        let r = kept_entries(e.drop_last(), keep);
        if keep.contains(e.last().0) { r.push(e.last()) } else { r }
    }
}

/// The kept entries are some of the entries, in order.
proof fn lemma_kept_sub(e: Seq<(NasIndex, usize)>, keep: Seq<NasIndex>)
    ensures
        forall|i: int| 0 <= i < kept_entries(e, keep).len() ==> exists|j: int| 0 <= j < e.len() && #[trigger] kept_entries(e, keep)[i] == e[j],
        keys_sorted(e) ==> keys_sorted(kept_entries(e, keep)),
        forall|k: NasIndex| #[trigger] has_key(kept_entries(e, keep), k) <==> has_key(e, k) && keep.contains(k),
    decreases e.len(),
{
    if e.len() > 0 {
        let d = e.drop_last();
        lemma_kept_sub(d, keep);
        let r = kept_entries(d, keep);
        let k = kept_entries(e, keep);
        assert forall|i: int| 0 <= i < k.len() implies exists|j: int| 0 <= j < e.len() && #[trigger] k[i] == e[j] by {
            if i < r.len() {
                let j = choose|j: int| 0 <= j < d.len() && r[i] == d[j];
                assert(k[i] == e[j]);
            } else {
                assert(k[i] == e[e.len() - 1]);
            }
        }
        if keys_sorted(e) {
            assert(keys_sorted(d)) by {
                assert forall|a: int, b: int| 0 <= a < b < d.len() implies crate::order::nas_lt(#[trigger] d[a].0, #[trigger] d[b].0) by {
                    assert(d[a] == e[a] && d[b] == e[b]);
                }
            }
            assert forall|a: int, b: int| 0 <= a < b < k.len() implies crate::order::nas_lt(#[trigger] k[a].0, #[trigger] k[b].0) by {
                if b < r.len() {
                    assert(k[a] == r[a] && k[b] == r[b]);
                } else {
                    assert(k[a] == r[a]);
                    let j = choose|j: int| 0 <= j < d.len() && r[a] == d[j];
                    assert(e[j] == d[j]);
                    assert(k[b] == e[e.len() - 1]);
                }
            }
        }
        assert forall|x: NasIndex| #[trigger] has_key(k, x) <==> has_key(e, x) && keep.contains(x) by {
            if has_key(k, x) {
                let i = choose|i: int| 0 <= i < k.len() && #[trigger] k[i].0 == x;
                if i < r.len() {
                    assert(r[i] == k[i]);
                    assert(has_key(r, x));
                    let j = choose|j: int| 0 <= j < d.len() && #[trigger] d[j].0 == x;
                    assert(e[j] == d[j]);
                } else {
                    assert(e[e.len() - 1].0 == x);
                }
            }
            if has_key(e, x) && keep.contains(x) {
                let j = choose|j: int| 0 <= j < e.len() && #[trigger] e[j].0 == x;
                if j < d.len() {
                    assert(d[j] == e[j]);
                    assert(has_key(d, x));
                    assert(has_key(r, x));
                    let i = choose|i: int| 0 <= i < r.len() && #[trigger] r[i].0 == x;
                    assert(k[i] == r[i]);
                } else {
                    assert(k[k.len() - 1] == e.last());
                }
            }
        }
    }
}

/// The entries of a map whose indexes are in a keep list.
pub fn retain_keys(m: &IndexMap, keep: &Vec<NasIndex>) -> (r: IndexMap)
    requires
        m.wf(),
    ensures
        r.wf(),
        r.entries@ == kept_entries(m.entries@, keep@),
        forall|k: NasIndex| #[trigger] r@.contains_key(k) <==> m@.contains_key(k) && keep@.contains(k),
        forall|k: NasIndex| #[trigger] r@.contains_key(k) ==> r@[k] == m@[k],
{
    let mut e: Vec<(NasIndex, usize)> = Vec::new();
    let mut i: usize = 0;
    while i < m.entries.len()
        invariant
            i <= m.entries@.len(),
            e@ == kept_entries(m.entries@.take(i as int), keep@),
        decreases m.entries.len() - i,
    {
        assert(m.entries@.take(i + 1).drop_last() =~= m.entries@.take(i as int));
        let k = m.entries[i].0;
        let mut found = false;
        let mut j: usize = 0;
        while j < keep.len()
            invariant
                j <= keep@.len(),
                found == exists|q: int| 0 <= q < j && keep@[q] == k,
            decreases keep.len() - j,
        {
            if keep[j] == k {
                found = true;
            }
            j = j + 1;
        }
        if found {
            e.push(m.entries[i]);
        }
        i = i + 1;
    }
    assert(m.entries@.take(i as int) =~= m.entries@);
    let r = IndexMap { entries: e };
    proof {
        lemma_kept_sub(m.entries@, keep@);
        assert forall|k: NasIndex| #[trigger] r@.contains_key(k) implies r@[k] == m@[k] by {
            let i = key_pos(r.entries@, k);
            lemma_sorted_unique(r.entries@, i);
            let j = choose|j: int| 0 <= j < m.entries@.len() && r.entries@[i] == m.entries@[j];
            lemma_sorted_unique(m.entries@, j);
        }
    }
    r
}

} // verus!
