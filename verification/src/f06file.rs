//! The structure of an F06 file as it is interpreted: its blocks, grouped
//! by subcase and type, its warnings, fatal errors and unknown headers.

use vstd::prelude::*;

use crate::blocks::{keys_shared, lemma_none_shared, merge_outcome, FinalBlock, MergeResult};
use crate::blocktypes::{block_index, lemma_block_index_injective, BlockType};
use crate::flavour::Flavour;
use crate::headers::PotentialHeader;
use crate::indexing::NasIndex;
use crate::numbers::NumberView;

verus! {

/// A reference to a specific subcase and type (generally used to refer to a
/// specific block).
#[derive(Copy, Clone, Debug, PartialEq, Eq, Structural)]
pub struct BlockRef {
    /// The subcase. A value of 1 is pre-set for when the output file doesn't
    /// ever mention subcases.
    pub subcase: usize,
    /// The type of the block (or blocks).
    pub block_type: BlockType,
}

/// The order of block references: by subcase, then by block type.
pub open spec fn bref_lt(a: BlockRef, b: BlockRef) -> bool {
    a.subcase < b.subcase || (a.subcase == b.subcase && block_index(a.block_type) < block_index(b.block_type))
}

/// The order of block references is a strict total order.
pub proof fn lemma_bref_order(a: BlockRef, b: BlockRef, c: BlockRef)
    ensures
        !bref_lt(a, a),
        bref_lt(a, b) && bref_lt(b, c) ==> bref_lt(a, c),
        a != b ==> bref_lt(a, b) || bref_lt(b, a),
{
    lemma_block_index_injective(a.block_type, b.block_type);
}

impl BlockRef {
    /// Orders block references by subcase, then by block type.
    pub fn less(&self, other: &BlockRef) -> (r: bool)
        ensures
            r == bref_lt(*self, *other),
    {
        self.subcase < other.subcase || (self.subcase == other.subcase && self.block_type.less(&other.block_type))
    }
}

impl FinalBlock {
    /// The reference of a block: its subcase and type.
    pub open spec fn bref(&self) -> BlockRef {
        BlockRef { subcase: self.subcase, block_type: self.block_type }
    }

    /// Returns the reference of this block: its subcase and type.
    pub fn block_ref(&self) -> (r: BlockRef)
        ensures
            r == self.bref(),
    {
        BlockRef { subcase: self.subcase, block_type: self.block_type }
    }
}

/// The entries are in strictly increasing order of block reference.
pub open spec fn brefs_sorted(s: Seq<(BlockRef, Vec<FinalBlock>)>) -> bool {
    forall|i: int, j: int| 0 <= i < j < s.len() ==> bref_lt(#[trigger] s[i].0, #[trigger] s[j].0)
}

/// Some entry has the given reference.
pub open spec fn has_bref(s: Seq<(BlockRef, Vec<FinalBlock>)>, k: BlockRef) -> bool {
    exists|i: int| 0 <= i < s.len() && #[trigger] s[i].0 == k
}

/// The place of the entry with the given reference.
pub open spec fn bref_pos(s: Seq<(BlockRef, Vec<FinalBlock>)>, k: BlockRef) -> int {
    choose|i: int| 0 <= i < s.len() && #[trigger] s[i].0 == k
}

/// The blocks of a list of entries, by reference.
pub open spec fn blocks_map(s: Seq<(BlockRef, Vec<FinalBlock>)>) -> Map<BlockRef, Seq<FinalBlock>> {
    Map::new(|k: BlockRef| has_bref(s, k), |k: BlockRef| s[bref_pos(s, k)].1@)
}

/// In a sorted list, the entry with a given reference is the only one.
pub proof fn lemma_bref_unique(s: Seq<(BlockRef, Vec<FinalBlock>)>, i: int)
    requires
        brefs_sorted(s),
        0 <= i < s.len(),
    ensures
        has_bref(s, s[i].0),
        bref_pos(s, s[i].0) == i,
        blocks_map(s).contains_key(s[i].0),
        blocks_map(s)[s[i].0] == s[i].1@,
{
    let k = s[i].0;
    assert(has_bref(s, k));
    let j = bref_pos(s, k);
    if j < i {
        assert(bref_lt(s[j].0, s[i].0));
        lemma_bref_order(k, k, k);
    } else if j > i {
        assert(bref_lt(s[i].0, s[j].0));
        lemma_bref_order(k, k, k);
    }
}

/// The potential headers are in strictly increasing order of their start,
/// each covering at least one line, with line numbers that fit.
pub open spec fn headers_ok(s: Seq<PotentialHeader>) -> bool {
    &&& forall|i: int, j: int| 0 <= i < j < s.len() ==> (#[trigger] s[i]).start < (#[trigger] s[j]).start
    &&& forall|i: int| 0 <= i < s.len() ==> (#[trigger] s[i]).span > 0 && s[i].start + s[i].span <= usize::MAX
}

/// The lines are in strictly increasing order.
pub open spec fn lines_sorted(s: Seq<(usize, String)>) -> bool {
    forall|i: int, j: int| 0 <= i < j < s.len() ==> (#[trigger] s[i]).0 < (#[trigger] s[j]).0
}

/// The interpretation of an F06 file.
#[derive(Clone, Debug)]
pub struct F06File {
    /// The name of the file, if known.
    pub filename: Option<String>,
    /// The flavour of the file.
    pub flavour: Flavour,
    /// The detected blocks, by reference, in increasing order of reference.
    pub blocks: Vec<(BlockRef, Vec<FinalBlock>)>,
    /// The warning messages, by line number, in increasing order of line.
    pub warnings: Vec<(usize, String)>,
    /// The fatal error messages, by line number, in increasing order of line.
    pub fatal_errors: Vec<(usize, String)>,
    /// The lines with potential, unknown headers, in increasing order of
    /// their start.
    pub potential_headers: Vec<PotentialHeader>,
}

impl F06File {
    /// The blocks, by reference.
    pub open spec fn blocks_view(&self) -> Map<BlockRef, Seq<FinalBlock>> {
        blocks_map(self.blocks@)
    }

    /// Entries are sorted by reference, none is empty, and each block is
    /// well formed and listed under its own reference; the lines of messages
    /// and headers are in order.
    pub open spec fn wf(&self) -> bool {
        &&& brefs_sorted(self.blocks@)
        &&& forall|i: int| 0 <= i < self.blocks@.len() ==> (#[trigger] self.blocks@[i]).1@.len() > 0
        &&& forall|i: int, j: int|
            0 <= i < self.blocks@.len() && 0 <= j < self.blocks@[i].1@.len() ==> (#[trigger] self.blocks@[i].1@[j]).wf()
                && self.blocks@[i].1@[j].bref() == self.blocks@[i].0
        &&& lines_sorted(self.warnings@)
        &&& lines_sorted(self.fatal_errors@)
        &&& headers_ok(self.potential_headers@)
    }

    /// An F06 file with nothing inside.
    pub fn new() -> (r: F06File)
        ensures
            r.wf(),
            r.blocks@.len() == 0,
            r.warnings@.len() == 0,
            r.fatal_errors@.len() == 0,
            r.potential_headers@.len() == 0,
            r.filename is None,
            r.flavour.solver is None,
            r.flavour.soltype is None,
    {
        F06File {
            filename: None,
            flavour: Flavour::unknown(),
            blocks: Vec::new(),
            warnings: Vec::new(),
            fatal_errors: Vec::new(),
            potential_headers: Vec::new(),
        }
    }

    /// Inserts a new block into the file, after the blocks of its subcase
    /// and type.
    pub fn insert_block(&mut self, block: FinalBlock)
        requires
            old(self).wf(),
            block.wf(),
        ensures
            final(self).wf(),
            final(self).blocks_view() == old(self).blocks_view().insert(
                block.bref(),
                if old(self).blocks_view().contains_key(block.bref()) {
                    old(self).blocks_view()[block.bref()].push(block)
                } else {
                    seq![block]
                },
            ),
            final(self).filename == old(self).filename,
            final(self).flavour == old(self).flavour,
            final(self).warnings == old(self).warnings,
            final(self).fatal_errors == old(self).fatal_errors,
            final(self).potential_headers == old(self).potential_headers,
    {
        let br = block.block_ref();
        let ghost s = self.blocks@;
        let ghost nb = block;
        let mut p: usize = 0;
        while p < self.blocks.len() && self.blocks[p].0.less(&br)
            invariant
                self.blocks@ == s,
                p <= s.len(),
                forall|j: int| 0 <= j < p ==> bref_lt(s[j].0, br),
            decreases self.blocks.len() - p,
        {
            p = p + 1;
        }
        if p < self.blocks.len() && self.blocks[p].0 == br {
            let mut entry: (BlockRef, Vec<FinalBlock>) = (br, Vec::new());
            self.blocks.set_and_swap(p, &mut entry);
            let (k, mut v) = entry;
            v.push(block);
            let mut back = (k, v);
            self.blocks.set_and_swap(p, &mut back);
            proof {
                let t = self.blocks@;
                lemma_bref_unique(s, p as int);
                assert forall|i: int, j: int| 0 <= i < j < t.len() implies bref_lt(#[trigger] t[i].0, #[trigger] t[j].0) by {
                    assert(t[i].0 == s[i].0 && t[j].0 == s[j].0);
                }
                assert forall|x: BlockRef| #[trigger] has_bref(t, x) == has_bref(s, x) by {
                    if has_bref(t, x) {
                        let i = bref_pos(t, x);
                        assert(s[i].0 == x);
                    }
                    if has_bref(s, x) {
                        let i = bref_pos(s, x);
                        assert(t[i].0 == x);
                    }
                }
                let want = blocks_map(s).insert(br, blocks_map(s)[br].push(nb));
                assert forall|x: BlockRef| #[trigger] blocks_map(t).contains_key(x) implies blocks_map(t)[x] == want[x] by {
                    let i = bref_pos(t, x);
                    lemma_bref_unique(t, i);
                    lemma_bref_unique(s, i);
                }
                assert(blocks_map(t) =~= want);
                assert forall|i: int, j: int|
                    0 <= i < t.len() && 0 <= j < t[i].1@.len() implies (#[trigger] t[i].1@[j]).wf() && t[i].1@[j].bref() == t[i].0 by {
                    if i != p {
                        assert(t[i] == s[i]);
                    } else if j < s[i].1@.len() {
                        assert(t[i].1@[j] == s[i].1@[j]);
                    }
                }
                assert forall|i: int| 0 <= i < t.len() implies (#[trigger] t[i]).1@.len() > 0 by {
                    if i != p {
                        assert(t[i] == s[i]);
                    }
                }
            }
        } else {
            let mut v: Vec<FinalBlock> = Vec::new();
            v.push(block);
            self.blocks.insert(p, (br, v));
            proof {
                let t = self.blocks@;
                assert(t == s.insert(p as int, (br, v)));
                assert(!has_bref(s, br)) by {
                    if has_bref(s, br) {
                        let i = bref_pos(s, br);
                        lemma_bref_order(br, br, br);
                        if i < p {
                            assert(bref_lt(s[i].0, br));
                        } else if i > p {
                            assert(bref_lt(s[p as int].0, s[i].0));
                            lemma_bref_order(br, s[p as int].0, br);
                        }
                    }
                }
                assert forall|i: int, j: int| 0 <= i < j < t.len() implies bref_lt(#[trigger] t[i].0, #[trigger] t[j].0) by {
                    if j < p {
                        assert(t[i] == s[i] && t[j] == s[j]);
                    } else if j == p {
                        assert(t[i] == s[i]);
                    } else if i < p {
                        assert(t[i] == s[i] && t[j] == s[j - 1]);
                        lemma_bref_order(s[i].0, br, s[j - 1].0);
                        if p < s.len() {
                            assert(!bref_lt(s[p as int].0, br));
                            lemma_bref_order(s[p as int].0, br, s[p as int].0);
                            if j - 1 > p {
                                assert(bref_lt(s[p as int].0, s[j - 1].0));
                                lemma_bref_order(br, s[p as int].0, s[j - 1].0);
                            }
                        }
                    } else if i == p {
                        assert(t[j] == s[j - 1]);
                        assert(!bref_lt(s[p as int].0, br));
                        lemma_bref_order(s[p as int].0, br, s[p as int].0);
                        if j - 1 > p {
                            assert(bref_lt(s[p as int].0, s[j - 1].0));
                            lemma_bref_order(br, s[p as int].0, s[j - 1].0);
                        }
                    } else {
                        assert(t[i] == s[i - 1] && t[j] == s[j - 1]);
                    }
                }
                assert forall|x: BlockRef| #[trigger] has_bref(t, x) == (has_bref(s, x) || x == br) by {
                    if has_bref(t, x) {
                        let i = bref_pos(t, x);
                        if i < p {
                            assert(s[i].0 == x);
                        } else if i > p {
                            assert(s[i - 1].0 == x);
                        }
                    }
                    if has_bref(s, x) {
                        let i = bref_pos(s, x);
                        if i < p {
                            assert(t[i].0 == x);
                        } else {
                            assert(t[i + 1].0 == x);
                        }
                    }
                    assert(t[p as int].0 == br);
                }
                let want = blocks_map(s).insert(br, seq![nb]);
                assert forall|x: BlockRef| #[trigger] blocks_map(t).contains_key(x) implies blocks_map(t)[x] == want[x] by {
                    let i = bref_pos(t, x);
                    lemma_bref_unique(t, i);
                    if i < p {
                        lemma_bref_unique(s, i);
                    } else if i > p {
                        lemma_bref_unique(s, i - 1);
                    } else {
                        assert(t[i].1@ =~= seq![nb]);
                    }
                }
                assert(blocks_map(t) =~= want);
                assert forall|i: int, j: int|
                    0 <= i < t.len() && 0 <= j < t[i].1@.len() implies (#[trigger] t[i].1@[j]).wf() && t[i].1@[j].bref() == t[i].0 by {
                    if i < p {
                        assert(t[i] == s[i]);
                    } else if i > p {
                        assert(t[i] == s[i - 1]);
                    }
                }
                assert forall|i: int| 0 <= i < t.len() implies (#[trigger] t[i]).1@.len() > 0 by {
                    if i < p {
                        assert(t[i] == s[i]);
                    } else if i > p {
                        assert(t[i] == s[i - 1]);
                    }
                }
            }
        }
    }
}


/// When no index of `ks` is shared with the map, the map holds none of them.
pub proof fn lemma_shared_none(ks: Seq<NasIndex>, m: Map<NasIndex, usize>)
    requires
        keys_shared(ks, m).len() == 0,
    ensures
        forall|i: int| 0 <= i < ks.len() ==> !m.contains_key(#[trigger] ks[i]),
    decreases ks.len(),
{
    if ks.len() > 0 {
        let rest = keys_shared(ks.drop_last(), m);
        if m.contains_key(ks.last()) {
            assert(rest.push(ks.last()).len() > 0);
        }
        lemma_shared_none(ks.drop_last(), m);
        assert forall|i: int| 0 <= i < ks.len() implies !m.contains_key(#[trigger] ks[i]) by {
            if i < ks.len() - 1 {
                assert(ks.drop_last()[i] == ks[i]);
            }
        }
    }
}

/// Two blocks have rows in common one way round exactly when they have
/// them the other way round.
pub proof fn lemma_conflicts_symmetric(a: FinalBlock, b: FinalBlock)
    requires
        a.row_indexes.wf(),
        b.row_indexes.wf(),
        keys_shared(a.row_indexes.key_seq(), b.row_indexes@).len() == 0,
    ensures
        keys_shared(b.row_indexes.key_seq(), a.row_indexes@).len() == 0,
{
    lemma_shared_none(a.row_indexes.key_seq(), b.row_indexes@);
    let kb = b.row_indexes.key_seq();
    assert forall|j: int| 0 <= j < kb.len() implies !a.row_indexes@.contains_key(#[trigger] kb[j]) by {
        if a.row_indexes@.contains_key(kb[j]) {
            crate::blocks::lemma_key_in_seq(a.row_indexes, kb[j]);
            crate::indexmap::lemma_sorted_unique(b.row_indexes.entries@, j);
        }
    }
    lemma_none_shared(kb, a.row_indexes@);
}

/// Every block of the list is well formed and has the given reference.
pub open spec fn blocks_of(v: Seq<FinalBlock>, br: BlockRef) -> bool {
    forall|j: int| 0 <= j < v.len() ==> (#[trigger] v[j]).wf() && v[j].bref() == br
}

/// Does one of the blocks hold a value at a row and a column?
pub open spec fn holds_cell(v: Seq<FinalBlock>, r: NasIndex, c: NasIndex, x: NumberView) -> bool {
    exists|j: int| 0 <= j < v.len() && (#[trigger] v[j]).value_at(r, c) == Some(x)
}

/// Does one of the blocks have a row index?
pub open spec fn holds_row(v: Seq<FinalBlock>, r: NasIndex) -> bool {
    exists|j: int| 0 <= j < v.len() && (#[trigger] v[j]).row_indexes@.contains_key(r)
}

/// The rows held after a push are those held before and those of the
/// pushed block.
proof fn lemma_rows_push(v: Seq<FinalBlock>, b: FinalBlock, r: NasIndex)
    ensures
        holds_row(v.push(b), r) == (holds_row(v, r) || b.row_indexes@.contains_key(r)),
{
    let w = v.push(b);
    if holds_row(v, r) {
        let j = choose|j: int| 0 <= j < v.len() && (#[trigger] v[j]).row_indexes@.contains_key(r);
        assert(w[j] == v[j]);
    }
    if b.row_indexes@.contains_key(r) {
        assert(w[v.len() as int] == b);
    }
    if holds_row(w, r) {
        let j = choose|j: int| 0 <= j < w.len() && (#[trigger] w[j]).row_indexes@.contains_key(r);
        if j < v.len() {
            assert(w[j] == v[j]);
        }
    }
}

/// The rows held by a list are those held without one of its blocks and
/// those of that block.
proof fn lemma_rows_remove(v: Seq<FinalBlock>, i: int, r: NasIndex)
    requires
        0 <= i < v.len(),
    ensures
        holds_row(v, r) == (holds_row(v.remove(i), r) || v[i].row_indexes@.contains_key(r)),
{
    let w = v.remove(i);
    if holds_row(v, r) {
        let j = choose|j: int| 0 <= j < v.len() && (#[trigger] v[j]).row_indexes@.contains_key(r);
        if j < i {
            assert(w[j] == v[j]);
        } else if j > i {
            assert(w[j - 1] == v[j]);
        }
    }
    if holds_row(w, r) {
        let j = choose|j: int| 0 <= j < w.len() && (#[trigger] w[j]).row_indexes@.contains_key(r);
        if j < i {
            assert(w[j] == v[j]);
        } else {
            assert(w[j] == v[j + 1]);
        }
    }
}

/// Two blocks with no row in common merge into a block that holds exactly
/// the values of both.
proof fn lemma_merge_cells(a: FinalBlock, b: FinalBlock, m: FinalBlock, r: NasIndex, c: NasIndex, x: NumberView)
    requires
        a.wf(),
        b.wf(),
        merge_outcome(a, b, MergeResult::Success { merged: m }),
        keys_shared(a.row_indexes.key_seq(), b.row_indexes@).len() == 0,
    ensures
        (m.value_at(r, c) == Some(x)) <==> (a.value_at(r, c) == Some(x) || b.value_at(r, c) == Some(x)),
{
    if a.row_indexes@.contains_key(r) {
        lemma_shared_none(a.row_indexes.key_seq(), b.row_indexes@);
        crate::blocks::lemma_key_in_seq(a.row_indexes, r);
        assert(!b.row_indexes@.contains_key(r));
    }
}

/// The values held after a push are those held before and those of the
/// pushed block.
proof fn lemma_cells_push(v: Seq<FinalBlock>, b: FinalBlock, r: NasIndex, c: NasIndex, x: NumberView)
    ensures
        holds_cell(v.push(b), r, c, x) == (holds_cell(v, r, c, x) || b.value_at(r, c) == Some(x)),
{
    let w = v.push(b);
    if holds_cell(v, r, c, x) {
        let j = choose|j: int| 0 <= j < v.len() && (#[trigger] v[j]).value_at(r, c) == Some(x);
        assert(w[j] == v[j]);
    }
    if b.value_at(r, c) == Some(x) {
        assert(w[v.len() as int] == b);
    }
    if holds_cell(w, r, c, x) {
        let j = choose|j: int| 0 <= j < w.len() && (#[trigger] w[j]).value_at(r, c) == Some(x);
        if j < v.len() {
            assert(w[j] == v[j]);
        }
    }
}

/// The values held by a list are those held without one of its blocks and
/// those of that block.
proof fn lemma_cells_remove(v: Seq<FinalBlock>, i: int, r: NasIndex, c: NasIndex, x: NumberView)
    requires
        0 <= i < v.len(),
    ensures
        holds_cell(v, r, c, x) == (holds_cell(v.remove(i), r, c, x) || v[i].value_at(r, c) == Some(x)),
{
    let w = v.remove(i);
    if holds_cell(v, r, c, x) {
        let j = choose|j: int| 0 <= j < v.len() && (#[trigger] v[j]).value_at(r, c) == Some(x);
        if j < i {
            assert(w[j] == v[j]);
        } else if j > i {
            assert(w[j - 1] == v[j]);
        }
    }
    if holds_cell(w, r, c, x) {
        let j = choose|j: int| 0 <= j < w.len() && (#[trigger] w[j]).value_at(r, c) == Some(x);
        if j < i {
            assert(w[j] == v[j]);
        } else {
            assert(w[j] == v[j + 1]);
        }
    }
}

/// Can two blocks be merged without conflict: the same type and subcase, the
/// same columns, one kind of scalar where both hold data, and no row in
/// common?
pub open spec fn mergeable(a: FinalBlock, b: FinalBlock) -> bool {
    &&& a.block_type == b.block_type
    &&& a.subcase == b.subcase
    &&& a.col_indexes@.dom() == b.col_indexes@.dom()
    &&& !(a.data is Some && b.data is Some && a.data.unwrap().kind != b.data.unwrap().kind)
    &&& a.row_indexes@.dom().disjoint(b.row_indexes@.dom())
}

/// Could two blocks be merged but for rows they have in common: the same
/// type and subcase, the same columns, one kind of scalar where both hold
/// data, and some row in common?
pub open spec fn conflicting(a: FinalBlock, b: FinalBlock) -> bool {
    &&& a.block_type == b.block_type
    &&& a.subcase == b.subcase
    &&& a.col_indexes@.dom() == b.col_indexes@.dom()
    &&& !(a.data is Some && b.data is Some && a.data.unwrap().kind != b.data.unwrap().kind)
    &&& exists|r: NasIndex| a.row_indexes@.contains_key(r) && b.row_indexes@.contains_key(r)
}

/// No two blocks of a list conflict.
pub open spec fn none_conflicting(v: Seq<FinalBlock>) -> bool {
    forall|i: int, j: int|
        0 <= i < v.len() && 0 <= j < v.len() && i != j ==> !conflicting(#[trigger] v[i], #[trigger] v[j])
}

/// Compatible blocks that do not conflict have no rows in common.
proof fn lemma_compatible_apart(a: FinalBlock, b: FinalBlock)
    requires
        a.wf(),
        b.wf(),
        crate::blocks::compatible(a, b),
        !conflicting(a, b),
    ensures
        keys_shared(a.row_indexes.key_seq(), b.row_indexes@).len() == 0,
{
    crate::blocks::lemma_compatible_columns(a, b);
    assert(mergeable(a, b));
    lemma_mergeable_checks(a, b);
}

/// Whether two blocks conflict does not depend on their order.
proof fn lemma_conflicting_symmetric(a: FinalBlock, b: FinalBlock)
    ensures
        conflicting(a, b) == conflicting(b, a),
{
    if conflicting(a, b) {
        let r = choose|r: NasIndex| a.row_indexes@.contains_key(r) && b.row_indexes@.contains_key(r);
        assert(b.row_indexes@.contains_key(r) && a.row_indexes@.contains_key(r));
    }
    if conflicting(b, a) {
        let r = choose|r: NasIndex| b.row_indexes@.contains_key(r) && a.row_indexes@.contains_key(r);
        assert(a.row_indexes@.contains_key(r) && b.row_indexes@.contains_key(r));
    }
}

/// A well-formed block with a row holds data.
proof fn lemma_rows_data(a: FinalBlock, r: NasIndex)
    requires
        a.wf(),
        a.row_indexes@.contains_key(r),
    ensures
        a.data is Some,
{
    crate::blocks::lemma_key_in_seq(a.row_indexes, r);
}

/// A block that conflicts with neither block of a merge does not conflict
/// with its result.
proof fn lemma_merge_no_conflict(w: FinalBlock, p: FinalBlock, q: FinalBlock, m: FinalBlock)
    requires
        w.wf(),
        p.wf(),
        q.wf(),
        crate::blocks::compatible(p, q),
        merge_outcome(p, q, MergeResult::Success { merged: m }),
        !conflicting(w, p),
        !conflicting(w, q),
    ensures
        !conflicting(w, m),
{
    crate::blocks::lemma_compatible_columns(p, q);
    if conflicting(w, m) {
        let r = choose|r: NasIndex| w.row_indexes@.contains_key(r) && m.row_indexes@.contains_key(r);
        lemma_rows_data(w, r);
        if p.row_indexes@.contains_key(r) {
            lemma_rows_data(p, r);
            assert(conflicting(w, p));
        } else {
            assert(q.row_indexes@.contains_key(r));
            lemma_rows_data(q, r);
            assert(conflicting(w, q));
        }
    }
}

/// Whether two blocks can be merged does not depend on their order.
proof fn lemma_mergeable_symmetric(a: FinalBlock, b: FinalBlock)
    ensures
        mergeable(a, b) == mergeable(b, a),
{
}

/// No two blocks of a list can be merged.
pub open spec fn none_mergeable(v: Seq<FinalBlock>) -> bool {
    forall|i: int, j: int| 0 <= i < v.len() && 0 <= j < v.len() && i != j ==> !mergeable(#[trigger] v[i], #[trigger] v[j])
}

/// When the map holds every index of `ks`, none of them is missing.
proof fn lemma_all_present(ks: Seq<NasIndex>, m: Map<NasIndex, usize>)
    requires
        forall|i: int| 0 <= i < ks.len() ==> m.contains_key(#[trigger] ks[i]),
    ensures
        crate::blocks::keys_missing(ks, m).len() == 0,
    decreases ks.len(),
{
    if ks.len() > 0 {
        assert forall|i: int| 0 <= i < ks.drop_last().len() implies m.contains_key(#[trigger] ks.drop_last()[i]) by {
            assert(ks.drop_last()[i] == ks[i]);
        }
        lemma_all_present(ks.drop_last(), m);
        assert(m.contains_key(ks[ks.len() - 1]));
    }
}

/// Every index listed by a map is one of its keys.
proof fn lemma_key_seq_keys(m: crate::indexmap::IndexMap)
    ensures
        forall|i: int| 0 <= i < m.key_seq().len() ==> m@.contains_key(#[trigger] m.key_seq()[i]),
{
    assert forall|i: int| 0 <= i < m.key_seq().len() implies m@.contains_key(#[trigger] m.key_seq()[i]) by {
        assert(m.key_seq()[i] == m.entries@[i].0);
        assert(crate::indexmap::has_key(m.entries@, m.entries@[i].0));
    }
}

/// The checks that merging makes, compatibility and no rows in common, tell
/// exactly whether two blocks can be merged.
proof fn lemma_mergeable_checks(a: FinalBlock, b: FinalBlock)
    requires
        a.wf(),
        b.wf(),
    ensures
        (crate::blocks::compatible(a, b) && keys_shared(a.row_indexes.key_seq(), b.row_indexes@).len() == 0)
            == mergeable(a, b),
{
    lemma_key_seq_keys(a.row_indexes);
    lemma_key_seq_keys(a.col_indexes);
    lemma_key_seq_keys(b.col_indexes);
    if crate::blocks::compatible(a, b) && keys_shared(a.row_indexes.key_seq(), b.row_indexes@).len() == 0 {
        crate::blocks::lemma_compatible_columns(a, b);
        lemma_shared_none(a.row_indexes.key_seq(), b.row_indexes@);
        assert forall|r: NasIndex| a.row_indexes@.contains_key(r) implies !b.row_indexes@.contains_key(r) by {
            crate::blocks::lemma_key_in_seq(a.row_indexes, r);
        }
    }
    if mergeable(a, b) {
        lemma_all_present(b.col_indexes.key_seq(), a.col_indexes@);
        lemma_all_present(a.col_indexes.key_seq(), b.col_indexes@);
        let ks = a.row_indexes.key_seq();
        assert forall|i: int| 0 <= i < ks.len() implies !b.row_indexes@.contains_key(#[trigger] ks[i]) by {
            assert(a.row_indexes@.contains_key(ks[i]));
        }
        lemma_none_shared(ks, b.row_indexes@);
    }
}

/// A block that cannot be merged with the primary of a merge cannot be
/// merged with its result either.
proof fn lemma_merge_apart(d: FinalBlock, p: FinalBlock, q: FinalBlock, m: FinalBlock)
    requires
        merge_outcome(p, q, MergeResult::Success { merged: m }),
        !mergeable(d, p),
    ensures
        !mergeable(d, m),
{
    if mergeable(d, m) {
        assert(d.row_indexes@.dom().disjoint(p.row_indexes@.dom()));
        assert(mergeable(d, p));
    }
}

impl F06File {
    /// Merges the blocks of a list that can be merged without conflicting
    /// rows, merging each merged block again while it can be. Returns the
    /// number of merges.
    fn merge_block_vec(vec: &mut Vec<FinalBlock>, clean: bool, Ghost(br): Ghost<BlockRef>) -> (r: usize)
        requires
            blocks_of(old(vec)@, br),
            clean || none_conflicting(old(vec)@),
        ensures
            !clean ==> none_conflicting(final(vec)@),
            blocks_of(final(vec)@, br),
            final(vec)@.len() == old(vec)@.len() - r,
            old(vec)@.len() > 0 ==> final(vec)@.len() > 0,
            forall|r: NasIndex, c: NasIndex, x: NumberView|
                #[trigger] holds_cell(final(vec)@, r, c, x) == holds_cell(old(vec)@, r, c, x),
            forall|r: NasIndex| #[trigger] holds_row(final(vec)@, r) == holds_row(old(vec)@, r),
            none_mergeable(final(vec)@),
    {
        let ghost orig = vec@;
        let ghost n = vec@.len();
        assert(vec.len() == n);
        let mut work: Vec<FinalBlock> = Vec::new();
        std::mem::swap(&mut work, vec);
        let mut done: Vec<FinalBlock> = Vec::new();
        let mut merges: usize = 0;
        while work.len() > 0
            invariant
                blocks_of(work@, br),
                blocks_of(done@, br),
                !clean ==> none_conflicting(work@),
                !clean ==> none_conflicting(done@),
                !clean ==> forall|i: int, j: int|
                    0 <= i < done@.len() && 0 <= j < work@.len() ==> !conflicting(#[trigger] done@[i], #[trigger] work@[j]),
                merges + work@.len() + done@.len() == n,
                n <= usize::MAX,
                n > 0 ==> work@.len() + done@.len() > 0,
                forall|r: NasIndex, c: NasIndex, x: NumberView|
                    #[trigger] holds_cell(orig, r, c, x) == (holds_cell(work@, r, c, x) || holds_cell(done@, r, c, x)),
                forall|r: NasIndex| #[trigger] holds_row(orig, r) == (holds_row(work@, r) || holds_row(done@, r)),
                none_mergeable(done@),
                forall|i: int, j: int|
                    0 <= i < done@.len() && 0 <= j < work@.len() ==> !mergeable(#[trigger] done@[i], #[trigger] work@[j]),
            decreases work@.len(),
        {
            let ghost w0 = work@;
            let primary = work.pop().unwrap();
            proof {
                assert(w0 =~= work@.push(primary));
                assert forall|i: int, j: int|
                    0 <= i < done@.len() && 0 <= j < work@.len() implies !mergeable(#[trigger] done@[i], #[trigger] work@[j]) by {
                    assert(work@[j] == w0[j]);
                }
                assert forall|i: int| 0 <= i < done@.len() implies !mergeable(#[trigger] done@[i], primary) by {
                    assert(w0[w0.len() - 1] == primary);
                }
                if !clean {
                    assert forall|i: int, j: int|
                        0 <= i < work@.len() && 0 <= j < work@.len() && i != j implies !conflicting(
                        #[trigger] work@[i],
                        #[trigger] work@[j],
                    ) by {
                        assert(work@[i] == w0[i] && work@[j] == w0[j]);
                    }
                    assert forall|i: int, j: int|
                        0 <= i < done@.len() && 0 <= j < work@.len() implies !conflicting(
                        #[trigger] done@[i],
                        #[trigger] work@[j],
                    ) by {
                        assert(work@[j] == w0[j]);
                    }
                    assert forall|j: int| 0 <= j < work@.len() implies !conflicting(primary, #[trigger] work@[j]) by {
                        assert(work@[j] == w0[j]);
                        assert(primary == w0[w0.len() - 1]);
                    }
                    assert forall|i: int| 0 <= i < done@.len() implies !conflicting(#[trigger] done@[i], primary) by {
                        assert(primary == w0[w0.len() - 1]);
                    }
                }
                assert forall|r: NasIndex, c: NasIndex, x: NumberView|
                    #[trigger] holds_cell(orig, r, c, x) == (holds_cell(work@, r, c, x) || holds_cell(done@, r, c, x)
                        || primary.value_at(r, c) == Some(x)) by {
                    assert(w0 =~= work@.push(primary));
                    lemma_cells_push(work@, primary, r, c, x);
                }
                assert forall|r: NasIndex|
                    #[trigger] holds_row(orig, r) == (holds_row(work@, r) || holds_row(done@, r)
                        || primary.row_indexes@.contains_key(r)) by {
                    assert(w0 =~= work@.push(primary));
                    lemma_rows_push(work@, primary, r);
                }
            }
            let mut si: usize = 0;
            let mut found = false;
            while si < work.len()
                invariant
                    blocks_of(work@, br),
                    primary.wf(),
                    primary.bref() == br,
                    !clean ==> none_conflicting(work@),
                    !clean ==> none_conflicting(done@),
                    !clean ==> forall|i: int, j: int|
                        0 <= i < done@.len() && 0 <= j < work@.len() ==> !conflicting(#[trigger] done@[i], #[trigger] work@[j]),
                    !clean ==> forall|j: int| 0 <= j < work@.len() ==> !conflicting(primary, #[trigger] work@[j]),
                    !clean ==> forall|i: int| 0 <= i < done@.len() ==> !conflicting(#[trigger] done@[i], primary),
                    si <= work@.len(),
                    found ==> si < work@.len() && crate::blocks::compatible(primary, work@[si as int])
                        && keys_shared(primary.row_indexes.key_seq(), work@[si as int].row_indexes@).len() == 0,
                    !found ==> forall|j: int| 0 <= j < si ==> !mergeable(primary, #[trigger] work@[j]),
                    none_mergeable(done@),
                    forall|i: int, j: int|
                        0 <= i < done@.len() && 0 <= j < work@.len() ==> !mergeable(#[trigger] done@[i], #[trigger] work@[j]),
                    forall|i: int| 0 <= i < done@.len() ==> !mergeable(#[trigger] done@[i], primary),
                    forall|r: NasIndex, c: NasIndex, x: NumberView|
                        #[trigger] holds_cell(orig, r, c, x) == (holds_cell(work@, r, c, x) || holds_cell(done@, r, c, x)
                            || primary.value_at(r, c) == Some(x)),
                    forall|r: NasIndex|
                        #[trigger] holds_row(orig, r) == (holds_row(work@, r) || holds_row(done@, r)
                            || primary.row_indexes@.contains_key(r)),
                ensures
                    !found ==> si == work@.len(),
                decreases work@.len() - si + (if found { 0int } else { 1int }),
            {
                let ok = primary.can_merge(&work[si]).is_ok();
                let conflicts = primary.row_conflicts(&work[si]);
                proof {
                    lemma_mergeable_checks(primary, work@[si as int]);
                    if !clean && ok {
                        lemma_compatible_apart(primary, work@[si as int]);
                    }
                }
                if ok && (conflicts.len() == 0 || !clean) {
                    found = true;
                    break;
                }
                si = si + 1;
            }
            if found {
                let ghost w1 = work@;
                let secondary = work.remove(si);
                proof {
                    lemma_conflicts_symmetric(primary, secondary);
                }
                let ghost p = primary;
                let ghost q = secondary;
                match primary.try_merge(secondary) {
                    Ok(MergeResult::Success { merged }) => {
                        let ghost w2 = work@;
                        work.push(merged);
                        merges = merges + 1;
                        proof {
                            assert forall|r: NasIndex, c: NasIndex, x: NumberView|
                                #[trigger] holds_cell(orig, r, c, x) == (holds_cell(work@, r, c, x) || holds_cell(
                                    done@,
                                    r,
                                    c,
                                    x,
                                )) by {
                                lemma_cells_remove(w1, si as int, r, c, x);
                                lemma_cells_push(w2, merged, r, c, x);
                                lemma_merge_cells(p, q, merged, r, c, x);
                            }
                            assert forall|r: NasIndex|
                                #[trigger] holds_row(orig, r) == (holds_row(work@, r) || holds_row(done@, r)) by {
                                lemma_rows_remove(w1, si as int, r);
                                lemma_rows_push(w2, merged, r);
                            }
                            assert forall|i: int, j: int|
                                0 <= i < done@.len() && 0 <= j < work@.len() implies !mergeable(
                                #[trigger] done@[i],
                                #[trigger] work@[j],
                            ) by {
                                if j < w2.len() {
                                    assert(work@[j] == w2[j]);
                                    if j < si {
                                        assert(w2[j] == w1[j]);
                                    } else {
                                        assert(w2[j] == w1[j + 1]);
                                    }
                                } else {
                                    assert(work@[j] == merged);
                                    lemma_merge_apart(done@[i], p, q, merged);
                                }
                            }
                            if !clean {
                                assert(p.wf() && q.wf());
                                assert forall|i: int, j: int|
                                    0 <= i < work@.len() && 0 <= j < work@.len() && i != j implies !conflicting(
                                    #[trigger] work@[i],
                                    #[trigger] work@[j],
                                ) by {
                                    let ii = if i < si { i } else { i + 1 };
                                    let jj = if j < si { j } else { j + 1 };
                                    if i < w2.len() {
                                        assert(work@[i] == w2[i] && w2[i] == w1[ii]);
                                    }
                                    if j < w2.len() {
                                        assert(work@[j] == w2[j] && w2[j] == w1[jj]);
                                    }
                                    if i == w2.len() {
                                        assert(work@[i] == merged);
                                        assert(w1[jj].wf());
                                        lemma_merge_no_conflict(w1[jj], p, q, merged);
                                        lemma_conflicting_symmetric(w1[jj], merged);
                                    } else if j == w2.len() {
                                        assert(work@[j] == merged);
                                        assert(w1[ii].wf());
                                        lemma_merge_no_conflict(w1[ii], p, q, merged);
                                    }
                                }
                                assert forall|i: int, j: int|
                                    0 <= i < done@.len() && 0 <= j < work@.len() implies !conflicting(
                                    #[trigger] done@[i],
                                    #[trigger] work@[j],
                                ) by {
                                    if j < w2.len() {
                                        let jj = if j < si { j } else { j + 1 };
                                        assert(work@[j] == w2[j] && w2[j] == w1[jj]);
                                    } else {
                                        assert(work@[j] == merged);
                                        assert(done@[i].wf());
                                        lemma_merge_no_conflict(done@[i], p, q, merged);
                                    }
                                }
                            }
                        }
                    },
                    _ => {
                        proof {
                            assert(false);
                        }
                    },
                }
            } else {
                let ghost d0 = done@;
                done.push(primary);
                proof {
                    assert forall|i: int, j: int|
                        0 <= i < done@.len() && 0 <= j < done@.len() && i != j implies !mergeable(
                        #[trigger] done@[i],
                        #[trigger] done@[j],
                    ) by {
                        if i < d0.len() && j < d0.len() {
                            assert(done@[i] == d0[i] && done@[j] == d0[j]);
                        } else if i < d0.len() {
                            assert(done@[i] == d0[i] && done@[j] == primary);
                        } else {
                            assert(done@[j] == d0[j] && done@[i] == primary);
                            assert(!mergeable(d0[j], primary));
                        }
                    }
                    assert forall|i: int, j: int|
                        0 <= i < done@.len() && 0 <= j < work@.len() implies !mergeable(
                        #[trigger] done@[i],
                        #[trigger] work@[j],
                    ) by {
                        if i < d0.len() {
                            assert(done@[i] == d0[i]);
                        } else {
                            assert(done@[i] == primary);
                            assert(!mergeable(primary, work@[j]));
                            lemma_mergeable_symmetric(primary, work@[j]);
                        }
                    }
                    if !clean {
                        assert forall|i: int, j: int|
                            0 <= i < done@.len() && 0 <= j < done@.len() && i != j implies !conflicting(
                            #[trigger] done@[i],
                            #[trigger] done@[j],
                        ) by {
                            if i < d0.len() && j < d0.len() {
                                assert(done@[i] == d0[i] && done@[j] == d0[j]);
                            } else if i < d0.len() {
                                assert(done@[i] == d0[i] && done@[j] == primary);
                            } else {
                                assert(done@[j] == d0[j] && done@[i] == primary);
                                lemma_conflicting_symmetric(d0[j], primary);
                            }
                        }
                        assert forall|i: int, j: int|
                            0 <= i < done@.len() && 0 <= j < work@.len() implies !conflicting(
                            #[trigger] done@[i],
                            #[trigger] work@[j],
                        ) by {
                            if i < d0.len() {
                                assert(done@[i] == d0[i]);
                            } else {
                                assert(done@[i] == primary);
                            }
                        }
                    }
                    assert forall|r: NasIndex, c: NasIndex, x: NumberView|
                        #[trigger] holds_cell(orig, r, c, x) == (holds_cell(work@, r, c, x) || holds_cell(done@, r, c, x)) by {
                        lemma_cells_push(d0, primary, r, c, x);
                    }
                    assert forall|r: NasIndex| #[trigger] holds_row(orig, r) == (holds_row(work@, r) || holds_row(done@, r)) by {
                        lemma_rows_push(d0, primary, r);
                    }
                }
            }
        }
        proof {
            assert forall|r: NasIndex, c: NasIndex, x: NumberView| !#[trigger] holds_cell(work@, r, c, x) by {}
            assert forall|r: NasIndex| !#[trigger] holds_row(work@, r) by {}
        }
        *vec = done;
        merges
    }
}


/// The number of blocks of all entries.
pub open spec fn total_blocks(s: Seq<(BlockRef, Vec<FinalBlock>)>) -> int
    decreases s.len(),
{
    if s.len() == 0 {
        0
    } else {
        total_blocks(s.drop_last()) + s.last().1@.len()
    }
}

/// A count, capped at the largest `usize`.
pub open spec fn capped(n: int) -> int {
    if n <= usize::MAX { n } else { usize::MAX as int }
}

/// A header by its first line, its number of lines and its text.
pub open spec fn header_views(v: Seq<PotentialHeader>) -> Seq<(int, int, Seq<char>)> {
    v.map_values(|h: PotentialHeader| (h.start as int, h.span as int, h.text@))
}

/// What merging headers in order gives: a header whose lines follow those
/// of the header before it is joined to that one, the texts separated by a
/// space.
pub open spec fn merged_views(s: Seq<PotentialHeader>) -> Seq<(int, int, Seq<char>)>
    decreases s.len(),
{
    if s.len() == 0 {
        Seq::empty()
    } else {
        let r = merged_views(s.drop_last());
        let h = s.last();
        if r.len() > 0 && r.last().0 + r.last().1 == h.start {
            r.drop_last().push((r.last().0, r.last().1 + h.span, r.last().2 + seq![' '] + h.text@))
        } else {
            r.push((h.start as int, h.span as int, h.text@))
        }
    }
}

/// Is the line covered by one of the headers?
pub open spec fn covers(s: Seq<PotentialHeader>, line: int) -> bool {
    exists|i: int| 0 <= i < s.len() && (#[trigger] s[i]).start <= line < s[i].start + s[i].span
}

impl F06File {
    /// Locates blocks that can be merged (same subcase and type, same
    /// columns, no rows in common) and merges them, until no two blocks of
    /// a reference can be merged. Returns the number of merges (capped at the
    /// largest `usize`). Clean merges look only at blocks with no rows in
    /// common; merges that are not clean take any compatible pair, which
    /// needs that no two compatible blocks have rows in common (a partial
    /// merge is not supported).
    pub fn merge_blocks(&mut self, clean: bool) -> (r: usize)
        requires
            old(self).wf(),
            clean || forall|i: int| 0 <= i < old(self).blocks@.len() ==> none_conflicting(#[trigger] old(self).blocks@[i].1@),
        ensures
            !clean ==> forall|i: int| 0 <= i < final(self).blocks@.len() ==> none_conflicting(#[trigger] final(self).blocks@[i].1@),
            final(self).wf(),
            final(self).blocks@.len() == old(self).blocks@.len(),
            forall|i: int|
                0 <= i < old(self).blocks@.len() ==> (#[trigger] final(self).blocks@[i]).0 == old(self).blocks@[i].0
                    && final(self).blocks@[i].1@.len() <= old(self).blocks@[i].1@.len(),
            r == capped(total_blocks(old(self).blocks@) - total_blocks(final(self).blocks@)),
            forall|i: int, r: NasIndex, c: NasIndex, x: NumberView|
                0 <= i < old(self).blocks@.len() ==> (#[trigger] holds_cell(final(self).blocks@[i].1@, r, c, x)
                    == holds_cell(old(self).blocks@[i].1@, r, c, x)),
            forall|i: int, r: NasIndex|
                0 <= i < old(self).blocks@.len() ==> (#[trigger] holds_row(final(self).blocks@[i].1@, r) == holds_row(
                    old(self).blocks@[i].1@,
                    r,
                )),
            forall|i: int| 0 <= i < final(self).blocks@.len() ==> none_mergeable(#[trigger] final(self).blocks@[i].1@),
            final(self).filename == old(self).filename,
            final(self).flavour == old(self).flavour,
            final(self).warnings == old(self).warnings,
            final(self).fatal_errors == old(self).fatal_errors,
            final(self).potential_headers == old(self).potential_headers,
    {
        let ghost s = self.blocks@;
        let mut total: usize = 0;
        let mut i: usize = 0;
        while i < self.blocks.len()
            invariant
                self.blocks@.len() == s.len(),
                i <= s.len(),
                brefs_sorted(s),
                forall|k: int| 0 <= k < s.len() ==> (#[trigger] self.blocks@[k]).0 == s[k].0,
                forall|k: int| i <= k < s.len() ==> #[trigger] self.blocks@[k] == s[k],
                forall|k: int| 0 <= k < s.len() ==> (#[trigger] self.blocks@[k]).1@.len() > 0,
                forall|k: int| 0 <= k < s.len() ==> (#[trigger] self.blocks@[k]).1@.len() <= s[k].1@.len(),
                forall|k: int| 0 <= k < s.len() ==> blocks_of((#[trigger] self.blocks@[k]).1@, s[k].0),
                forall|k: int, r: NasIndex, c: NasIndex, x: NumberView|
                    0 <= k < s.len() ==> (#[trigger] holds_cell(self.blocks@[k].1@, r, c, x) == holds_cell(s[k].1@, r, c, x)),
                forall|k: int, r: NasIndex|
                    0 <= k < s.len() ==> (#[trigger] holds_row(self.blocks@[k].1@, r) == holds_row(s[k].1@, r)),
                forall|k: int| 0 <= k < i ==> none_mergeable(#[trigger] self.blocks@[k].1@),
                total == capped(total_blocks(s.take(i as int)) - total_blocks(self.blocks@.take(i as int))),
                total_blocks(s.take(i as int)) >= total_blocks(self.blocks@.take(i as int)),
                clean || forall|k: int| 0 <= k < s.len() ==> none_conflicting(#[trigger] s[k].1@),
                !clean ==> forall|k: int| 0 <= k < i ==> none_conflicting(#[trigger] self.blocks@[k].1@),
                self.filename == old(self).filename,
                self.flavour == old(self).flavour,
                self.warnings == old(self).warnings,
                self.fatal_errors == old(self).fatal_errors,
                self.potential_headers == old(self).potential_headers,
            decreases s.len() - i,
        {
            let ghost before = self.blocks@;
            let mut entry: (BlockRef, Vec<FinalBlock>) = (self.blocks[i].0, Vec::new());
            self.blocks.set_and_swap(i, &mut entry);
            let (k, mut v) = entry;
            assert(blocks_of(v@, s[i as int].0));
            let m = Self::merge_block_vec(&mut v, clean, Ghost(k));
            let mut back = (k, v);
            self.blocks.set_and_swap(i, &mut back);
            proof {
                let t = self.blocks@;
                assert(s.take(i + 1).drop_last() =~= s.take(i as int));
                assert(t.take(i + 1).drop_last() =~= before.take(i as int));
                assert(t.take(i + 1).drop_last() =~= t.take(i as int));
                assert forall|q: int| 0 <= q < s.len() implies #[trigger] t[q].1@.len() > 0 by {
                    if q != i {
                        assert(t[q] == before[q]);
                    }
                }
                assert forall|q: int, r: NasIndex, c: NasIndex, x: NumberView|
                    0 <= q < s.len() implies (#[trigger] holds_cell(t[q].1@, r, c, x) == holds_cell(s[q].1@, r, c, x)) by {
                    if q != i {
                        assert(t[q] == before[q]);
                    } else {
                        assert(holds_cell(t[q].1@, r, c, x) == holds_cell(s[q].1@, r, c, x));
                    }
                }
                assert forall|q: int, r: NasIndex|
                    0 <= q < s.len() implies (#[trigger] holds_row(t[q].1@, r) == holds_row(s[q].1@, r)) by {
                    if q != i {
                        assert(t[q] == before[q]);
                    } else {
                        assert(holds_row(t[q].1@, r) == holds_row(s[q].1@, r));
                    }
                }
                assert forall|q: int| 0 <= q < i + 1 implies none_mergeable(#[trigger] t[q].1@) by {
                    if q != i {
                        assert(t[q] == before[q]);
                    }
                }
                if !clean {
                    assert forall|q: int| 0 <= q < i + 1 implies none_conflicting(#[trigger] t[q].1@) by {
                        if q != i {
                            assert(t[q] == before[q]);
                        }
                    }
                }
            }
            total = total.saturating_add(m);
            i = i + 1;
        }
        proof {
            assert(s.take(i as int) =~= s);
            assert(self.blocks@.take(i as int) =~= self.blocks@);
            let t = self.blocks@;
            assert forall|a: int, b: int| 0 <= a < b < t.len() implies bref_lt(#[trigger] t[a].0, #[trigger] t[b].0) by {
                assert(t[a].0 == s[a].0 && t[b].0 == s[b].0);
            }
            assert forall|a: int, j: int|
                0 <= a < t.len() && 0 <= j < t[a].1@.len() implies (#[trigger] t[a].1@[j]).wf() && t[a].1@[j].bref() == t[a].0 by {
                assert(blocks_of(t[a].1@, s[a].0));
            }
        }
        total
    }

    /// Merges the potential headers whose line ranges follow each other.
    /// Returns the number of merges.
    pub fn merge_potential_headers(&mut self) -> (r: usize)
        requires
            old(self).wf(),
        ensures
            final(self).wf(),
            final(self).potential_headers@.len() == old(self).potential_headers@.len() - r,
            forall|line: int| covers(final(self).potential_headers@, line) == covers(old(self).potential_headers@, line),
            header_views(final(self).potential_headers@) == merged_views(old(self).potential_headers@),
            final(self).blocks == old(self).blocks,
            final(self).filename == old(self).filename,
            final(self).flavour == old(self).flavour,
            final(self).warnings == old(self).warnings,
            final(self).fatal_errors == old(self).fatal_errors,
    {
        let mut hs: Vec<PotentialHeader> = Vec::new();
        std::mem::swap(&mut hs, &mut self.potential_headers);
        let ghost s = hs@;
        let n = hs.len();
        if n == 0 {
            std::mem::swap(&mut hs, &mut self.potential_headers);
            assert(header_views(self.potential_headers@) =~= merged_views(s));
            return 0;
        }
        let mut rest: Vec<PotentialHeader> = Vec::new();
        // the headers are taken in order, from the back of a reversed list
        let mut k: usize = n;
        while k > 1
            invariant
                hs@.len() == n,
                n == s.len(),
                1 <= k <= n,
                rest@.len() == n - k,
                forall|j: int| 0 <= j < n - k ==> #[trigger] rest@[j] == s[n - 1 - j],
                forall|j: int| 0 <= j < k ==> #[trigger] hs@[j] == s[j],
            decreases k,
        {
            k = k - 1;
            let mut h = PotentialHeader { start: 0, span: 0, text: String::new() };
            hs.set_and_swap(k, &mut h);
            rest.push(h);
        }
        let mut cur = PotentialHeader { start: 0, span: 0, text: String::new() };
        hs.set_and_swap(0, &mut cur);
        let mut out: Vec<PotentialHeader> = Vec::new();
        let mut merges: usize = 0;
        proof {
            assert(out@.push(cur) =~= seq![s[0]]);
            assert(s =~= seq![s[0]] + s.skip(1));
            assert(s.take(1).drop_last() =~= Seq::<PotentialHeader>::empty());
            assert(merged_views(Seq::<PotentialHeader>::empty()) =~= Seq::<(int, int, Seq<char>)>::empty());
            assert(s.take(1).last() == s[0]);
            assert(cur == s[0]);
            assert(merged_views(s.take(1)) =~= seq![(s[0].start as int, s[0].span as int, s[0].text@)]);
            assert(header_views(out@.push(cur)) =~= merged_views(s.take(1)));
        }
        while rest.len() > 0
            invariant
                n == s.len(),
                headers_ok(s),
                1 <= n,
                rest@.len() <= n - 1,
                merges + out@.len() + 1 + rest@.len() == n,
                headers_ok(out@.push(cur)),
                forall|j: int| 0 <= j < rest@.len() ==> #[trigger] rest@[j] == s[n - 1 - j],
                rest@.len() > 0 ==> cur.start < s[n - rest@.len()].start,
                forall|line: int| covers(s, line) == covers(out@.push(cur) + s.skip(n - rest@.len()), line),
                header_views(out@.push(cur)) == merged_views(s.take(n - rest@.len())),
            decreases rest@.len(),
        {
            let next = rest.pop().unwrap();
            let ghost q = n - rest@.len() - 1;
            let ghost old_out = out@;
            let ghost occ = cur;
            proof {
                assert(next == s[q]);
                assert(s.skip(q) =~= seq![next] + s.skip(q + 1));
                assert(old_out.push(cur)[old_out.len() as int] == cur);
                assert(cur.span > 0 && cur.start + cur.span <= usize::MAX);
                if rest@.len() > 0 {
                    assert(s[q + 1] == s[n - rest@.len()]);
                }
                lemma_concat_assoc(old_out.push(cur), seq![next], s.skip(q + 1));
                assert(s.take(q + 1).drop_last() =~= s.take(q));
                assert(s.take(q + 1).last() == next);
                assert(header_views(old_out.push(cur)).last() == (cur.start as int, cur.span as int, cur.text@));
                assert(header_views(old_out.push(cur)).drop_last() =~= header_views(old_out));
            }
            match cur.try_merge(next) {
                Ok(m) => {
                    cur = m;
                    merges = merges + 1;
                    proof {
                        assert(old_out.push(occ) + seq![next] =~= old_out.push(occ).push(next));
                        assert forall|line: int| covers(s, line) == covers(out@.push(cur) + s.skip(q + 1), line) by {
                            lemma_covers_concat(old_out.push(occ).push(next), s.skip(q + 1), line);
                            lemma_covers_merge(old_out, occ, next, cur, line);
                            lemma_covers_concat(out@.push(cur), s.skip(q + 1), line);
                        }
                        lemma_headers_replace_last(old_out, occ, cur);
                        assert(header_views(out@.push(cur)) =~= header_views(old_out).push(
                            (cur.start as int, cur.span as int, cur.text@),
                        ));
                        assert(header_views(out@.push(cur)) =~= merged_views(s.take(q + 1)));
                    }
                },
                Err((a, b)) => {
                    out.push(a);
                    cur = b;
                    proof {
                        assert forall|line: int| covers(s, line) == covers(out@.push(cur) + s.skip(q + 1), line) by {
                            lemma_covers_err(old_out, occ, next, out@, cur, s.skip(q + 1), line);
                        }
                        lemma_headers_err(old_out, occ, next, out@, cur);
                        assert(header_views(out@.push(cur)) =~= header_views(old_out.push(occ)).push(
                            (next.start as int, next.span as int, next.text@),
                        ));
                        assert(header_views(out@.push(cur)) =~= merged_views(s.take(q + 1)));
                        if rest@.len() > 0 {
                            assert(s[q].start < s[q + 1].start);
                        }
                    }
                },
            }
        }
        out.push(cur);
        proof {
            assert(s.skip(n as int) =~= Seq::<PotentialHeader>::empty());
            assert forall|line: int| covers(s, line) == covers(out@, line) by {
                assert(out@ + s.skip(n as int) =~= out@);
            }
            assert(s.take(n as int) =~= s);
        }
        self.potential_headers = out;
        merges
    }

}


/// Putting sequences together does not depend on the grouping.
proof fn lemma_concat_assoc(a: Seq<PotentialHeader>, b: Seq<PotentialHeader>, c: Seq<PotentialHeader>)
    ensures
        a + (b + c) =~= (a + b) + c,
{
}

/// A line is covered by two lists of headers together exactly when one of
/// them covers it.
proof fn lemma_covers_concat(a: Seq<PotentialHeader>, b: Seq<PotentialHeader>, line: int)
    ensures
        covers(a + b, line) == (covers(a, line) || covers(b, line)),
{
    if covers(a + b, line) {
        let i = choose|i: int| 0 <= i < (a + b).len() && (#[trigger] (a + b)[i]).start <= line < (a + b)[i].start + (a + b)[i].span;
        if i >= a.len() {
            assert(b[i - a.len()] == (a + b)[i]);
        }
    }
    if covers(a, line) {
        let i = choose|i: int| 0 <= i < a.len() && (#[trigger] a[i]).start <= line < a[i].start + a[i].span;
        assert((a + b)[i] == a[i]);
    }
    if covers(b, line) {
        let i = choose|i: int| 0 <= i < b.len() && (#[trigger] b[i]).start <= line < b[i].start + b[i].span;
        assert((a + b)[a.len() + i] == b[i]);
    }
}

/// Covering depends on the ranges of the headers only.
proof fn lemma_covers_ranges(a: Seq<PotentialHeader>, b: Seq<PotentialHeader>, line: int)
    requires
        a.len() == b.len(),
        forall|i: int| 0 <= i < a.len() ==> (#[trigger] a[i]).start == b[i].start && a[i].span == b[i].span,
    ensures
        covers(a, line) == covers(b, line),
{
    if covers(a, line) {
        let i = choose|i: int| 0 <= i < a.len() && (#[trigger] a[i]).start <= line < a[i].start + a[i].span;
        assert(b[i].start <= line < b[i].start + b[i].span);
    }
    if covers(b, line) {
        let i = choose|i: int| 0 <= i < b.len() && (#[trigger] b[i]).start <= line < b[i].start + b[i].span;
        assert(a[i].start <= line < a[i].start + a[i].span);
    }
}

/// A header merged from two that follow each other covers the lines of both.
proof fn lemma_covers_merge(o: Seq<PotentialHeader>, c: PotentialHeader, next: PotentialHeader, m: PotentialHeader, line: int)
    requires
        c.start + c.span == next.start,
        m.start == c.start,
        m.span == c.span + next.span,
    ensures
        covers(o.push(c).push(next), line) == covers(o.push(m), line),
{
    let two = seq![c, next];
    let one = seq![m];
    assert(o.push(c).push(next) =~= o + two);
    assert(o.push(m) =~= o + one);
    lemma_covers_concat(o, two, line);
    lemma_covers_concat(o, one, line);
    assert(one[0] == m);
    assert(two[0] == c && two[1] == next);
    if covers(two, line) {
        let i = choose|i: int| 0 <= i < two.len() && (#[trigger] two[i]).start <= line < two[i].start + two[i].span;
    }
    if covers(one, line) {
        if line < c.start + c.span {
            assert(two[0].start <= line < two[0].start + two[0].span);
        } else {
            assert(two[1].start <= line < two[1].start + two[1].span);
        }
    }
}

/// Covering after a refused merge: the two headers stay as they were.
proof fn lemma_covers_err(
    o: Seq<PotentialHeader>,
    c: PotentialHeader,
    next: PotentialHeader,
    o2: Seq<PotentialHeader>,
    c2: PotentialHeader,
    tail: Seq<PotentialHeader>,
    line: int,
)
    requires
        o2.len() == o.len() + 1,
        forall|i: int| 0 <= i < o.len() ==> #[trigger] o2[i] == o[i],
        o2[o.len() as int].start == c.start && o2[o.len() as int].span == c.span,
        c2.start == next.start && c2.span == next.span,
    ensures
        covers(o.push(c) + (seq![next] + tail), line) == covers(o2.push(c2) + tail, line),
{
    let x = o.push(c) + (seq![next] + tail);
    let y = o2.push(c2) + tail;
    assert(x.len() == y.len());
    assert forall|i: int| 0 <= i < x.len() implies (#[trigger] x[i]).start == y[i].start && x[i].span == y[i].span by {
        if i < o.len() {
            assert(x[i] == o[i] && y[i] == o2[i]);
        } else if i == o.len() {
            assert(x[i] == c && y[i] == o2[i]);
        } else if i == o.len() + 1 {
            assert(x[i] == next && y[i] == c2);
        } else {
            assert(x[i] == tail[i - o.len() - 2] && y[i] == tail[i - o.len() - 2]);
        }
    }
    lemma_covers_ranges(x, y, line);
}

/// Growing the span of the last header keeps the list in order.
proof fn lemma_headers_replace_last(o: Seq<PotentialHeader>, c: PotentialHeader, m: PotentialHeader)
    requires
        headers_ok(o.push(c)),
        m.start == c.start,
        m.span > 0,
        m.start + m.span <= usize::MAX,
    ensures
        headers_ok(o.push(m)),
{
    assert forall|i: int, j: int| 0 <= i < j < o.push(m).len() implies (#[trigger] o.push(m)[i]).start < (#[trigger] o.push(m)[j]).start by {
        assert(o.push(m)[i].start == o.push(c)[i].start);
        assert(o.push(m)[j].start == o.push(c)[j].start);
    }
    assert forall|i: int| 0 <= i < o.push(m).len() implies (#[trigger] o.push(m)[i]).span > 0 && o.push(m)[i].start + o.push(m)[i].span <= usize::MAX by {
        if i < o.len() {
            assert(o.push(m)[i] == o.push(c)[i]);
        }
    }
}

/// After a refused merge, the list with the earlier header and the later
/// one as current stays in order.
proof fn lemma_headers_err(o: Seq<PotentialHeader>, c: PotentialHeader, next: PotentialHeader, o2: Seq<PotentialHeader>, c2: PotentialHeader)
    requires
        headers_ok(o.push(c)),
        c.start < next.start,
        next.span > 0,
        next.start + next.span <= usize::MAX,
        o2.len() == o.len() + 1,
        forall|i: int| 0 <= i < o.len() ==> #[trigger] o2[i] == o[i],
        o2[o.len() as int].start == c.start && o2[o.len() as int].span == c.span,
        c2.start == next.start && c2.span == next.span,
    ensures
        headers_ok(o2.push(c2)),
{
    let y = o2.push(c2);
    assert forall|i: int, j: int| 0 <= i < j < y.len() implies (#[trigger] y[i]).start < (#[trigger] y[j]).start by {
        if j < o2.len() {
            assert(y[i].start == o.push(c)[i].start && y[j].start == o.push(c)[j].start);
        } else {
            assert(y[i].start == o.push(c)[i].start);
            if i < o.len() {
                assert(o.push(c)[i].start < o.push(c)[o.len() as int].start);
            }
        }
    }
    assert forall|i: int| 0 <= i < y.len() implies (#[trigger] y[i]).span > 0 && y[i].start + y[i].span <= usize::MAX by {
        if i < o.len() {
            assert(y[i] == o.push(c)[i]);
        } else if i == o.len() {
            assert(o.push(c)[i] == c);
        }
    }
}


/// The blocks of all entries in order, optionally only those alone in their
/// entry (the only one of their type in their subcase).
pub open spec fn listed_blocks(s: Seq<(BlockRef, Vec<FinalBlock>)>, unique: bool) -> Seq<FinalBlock>
    decreases s.len(),
{
    if s.len() == 0 {
        Seq::empty()
    } else {
        let r = listed_blocks(s.drop_last(), unique);
        if !unique || s.last().1@.len() == 1 { r + s.last().1@ } else { r }
    }
}

/// Does a block pass the filters of a search?
pub open spec fn search_ok(b: FinalBlock, type_filter: Option<BlockType>, subcase_filter: Option<usize>) -> bool {
    &&& (type_filter matches Some(t) ==> b.block_type == t)
    &&& (subcase_filter matches Some(c) ==> b.subcase == c)
}

/// The blocks of a list that pass the filters of a search, in order.
pub open spec fn searched(s: Seq<FinalBlock>, type_filter: Option<BlockType>, subcase_filter: Option<usize>) -> Seq<FinalBlock>
    decreases s.len(),
{
    if s.len() == 0 {
        Seq::empty()
    } else {
        let r = searched(s.drop_last(), type_filter, subcase_filter);
        if search_ok(s.last(), type_filter, subcase_filter) { r.push(s.last()) } else { r }
    }
}

/// The blocks pointed to by a list of references.
pub open spec fn derefs(v: Seq<&FinalBlock>) -> Seq<FinalBlock> {
    v.map_values(|b: &FinalBlock| *b)
}

impl F06File {
    /// Sorts the rows and columns of all blocks.
    pub fn sort_all_blocks(&mut self)
        requires
            old(self).wf(),
        ensures
            final(self).wf(),
            final(self).blocks@.len() == old(self).blocks@.len(),
            forall|i: int|
                0 <= i < old(self).blocks@.len() ==> (#[trigger] final(self).blocks@[i]).0 == old(self).blocks@[i].0
                    && final(self).blocks@[i].1@.len() == old(self).blocks@[i].1@.len(),
            forall|i: int, j: int, r: NasIndex, c: NasIndex|
                0 <= i < old(self).blocks@.len() && 0 <= j < old(self).blocks@[i].1@.len() ==> #[trigger] final(self).blocks@[i].1@[j].value_at(
                    r,
                    c,
                ) == old(self).blocks@[i].1@[j].value_at(r, c),
            forall|i: int, j: int|
                0 <= i < final(self).blocks@.len() && 0 <= j < final(self).blocks@[i].1@.len() ==> crate::blocks::positions_in_order(
                    (#[trigger] final(self).blocks@[i].1@[j]).row_indexes,
                ),
            forall|i: int, j: int|
                0 <= i < final(self).blocks@.len() && 0 <= j < final(self).blocks@[i].1@.len()
                    && old(self).blocks@[i].1@[j].data is Some ==> crate::blocks::positions_in_order(
                    (#[trigger] final(self).blocks@[i].1@[j]).col_indexes,
                ),
            final(self).filename == old(self).filename,
            final(self).flavour == old(self).flavour,
            final(self).warnings == old(self).warnings,
            final(self).fatal_errors == old(self).fatal_errors,
            final(self).potential_headers == old(self).potential_headers,
    {
        let ghost s = self.blocks@;
        let mut i: usize = 0;
        while i < self.blocks.len()
            invariant
                self.blocks@.len() == s.len(),
                i <= s.len(),
                forall|k: int| 0 <= k < s.len() ==> (#[trigger] self.blocks@[k]).0 == s[k].0 && self.blocks@[k].1@.len() == s[k].1@.len(),
                forall|k: int| i <= k < s.len() ==> #[trigger] self.blocks@[k] == s[k],
                forall|k: int| 0 <= k < s.len() ==> blocks_of((#[trigger] self.blocks@[k]).1@, s[k].0),
                forall|k: int, j: int, r: NasIndex, c: NasIndex|
                    0 <= k < s.len() && 0 <= j < s[k].1@.len() ==> #[trigger] self.blocks@[k].1@[j].value_at(r, c) == s[k].1@[j].value_at(r, c),
                forall|k: int, j: int|
                    0 <= k < i && 0 <= j < self.blocks@[k].1@.len() ==> crate::blocks::positions_in_order(
                        (#[trigger] self.blocks@[k].1@[j]).row_indexes,
                    ),
                forall|k: int, j: int|
                    0 <= k < i && 0 <= j < self.blocks@[k].1@.len() && s[k].1@[j].data is Some
                        ==> crate::blocks::positions_in_order((#[trigger] self.blocks@[k].1@[j]).col_indexes),
                self.filename == old(self).filename,
                self.flavour == old(self).flavour,
                self.warnings == old(self).warnings,
                self.fatal_errors == old(self).fatal_errors,
                self.potential_headers == old(self).potential_headers,
                s == old(self).blocks@,
                old(self).wf(),
            decreases s.len() - i,
        {
            let mut entry: (BlockRef, Vec<FinalBlock>) = (self.blocks[i].0, Vec::new());
            self.blocks.set_and_swap(i, &mut entry);
            let (k, mut v) = entry;
            let ghost v0 = v@;
            assert(blocks_of(v0, s[i as int].0));
            let mut j: usize = 0;
            while j < v.len()
                invariant
                    v@.len() == v0.len(),
                    j <= v0.len(),
                    blocks_of(v@, s[i as int].0),
                    blocks_of(v0, s[i as int].0),
                    forall|q: int| j <= q < v0.len() ==> #[trigger] v@[q] == v0[q],
                    forall|q: int, r: NasIndex, c: NasIndex| 0 <= q < v0.len() ==> #[trigger] v@[q].value_at(r, c) == v0[q].value_at(r, c),
                    forall|q: int| 0 <= q < j ==> crate::blocks::positions_in_order((#[trigger] v@[q]).row_indexes),
                    forall|q: int| 0 <= q < j && v0[q].data is Some ==> crate::blocks::positions_in_order(
                        (#[trigger] v@[q]).col_indexes,
                    ),
                decreases v0.len() - j,
            {
                let mut b = FinalBlock {
                    block_type: k.block_type,
                    subcase: 0,
                    row_indexes: crate::indexmap::IndexMap::new(),
                    col_indexes: crate::indexmap::IndexMap::new(),
                    data: None,
                };
                v.set_and_swap(j, &mut b);
                assert(b == v0[j as int]);
                b.sort_columns();
                b.sort_rows();
                v.set_and_swap(j, &mut b);
                j = j + 1;
            }
            let mut back = (k, v);
            self.blocks.set_and_swap(i, &mut back);
            i = i + 1;
        }
        proof {
            let t = self.blocks@;
            assert forall|a: int, b: int| 0 <= a < b < t.len() implies bref_lt(#[trigger] t[a].0, #[trigger] t[b].0) by {
                assert(t[a].0 == s[a].0 && t[b].0 == s[b].0);
            }
            assert forall|a: int, j: int|
                0 <= a < t.len() && 0 <= j < t[a].1@.len() implies (#[trigger] t[a].1@[j]).wf() && t[a].1@[j].bref() == t[a].0 by {
                assert(blocks_of(t[a].1@, s[a].0));
            }
        }
    }

    /// Returns all blocks, optionally only the unique ones (the only one of
    /// their type in their subcase).
    pub fn all_blocks(&self, unique: bool) -> (r: Vec<&FinalBlock>)
        ensures
            derefs(r@) == listed_blocks(self.blocks@, unique),
    {
        let mut r: Vec<&FinalBlock> = Vec::new();
        let mut i: usize = 0;
        while i < self.blocks.len()
            invariant
                i <= self.blocks@.len(),
                derefs(r@) == listed_blocks(self.blocks@.take(i as int), unique),
            decreases self.blocks.len() - i,
        {
            assert(self.blocks@.take(i + 1).drop_last() =~= self.blocks@.take(i as int));
            let v = &self.blocks[i].1;
            if !unique || v.len() == 1 {
                let ghost before = derefs(r@);
                let mut j: usize = 0;
                while j < v.len()
                    invariant
                        j <= v@.len(),
                        derefs(r@) == before + v@.take(j as int),
                    decreases v.len() - j,
                {
                    let ghost prev = derefs(r@);
                    r.push(&v[j]);
                    assert(derefs(r@) =~= prev.push(v@[j as int]));
                    assert(v@.take(j + 1) =~= v@.take(j as int).push(v@[j as int]));
                    j = j + 1;
                    assert(derefs(r@) =~= before + v@.take(j as int));
                }
                assert(v@.take(j as int) =~= v@);
            }
            i = i + 1;
        }
        assert(self.blocks@.take(i as int) =~= self.blocks@);
        r
    }

    /// Searches blocks filtering by type and/or subcase, optionally only the
    /// unique ones.
    pub fn block_search(&self, type_filter: Option<BlockType>, subcase_filter: Option<usize>, unique: bool) -> (r: Vec<
        &FinalBlock,
    >)
        ensures
            derefs(r@) == searched(listed_blocks(self.blocks@, unique), type_filter, subcase_filter),
    {
        let all = self.all_blocks(unique);
        let ghost a = derefs(all@);
        let mut r: Vec<&FinalBlock> = Vec::new();
        let mut i: usize = 0;
        while i < all.len()
            invariant
                a == derefs(all@),
                i <= all@.len(),
                derefs(r@) == searched(a.take(i as int), type_filter, subcase_filter),
            decreases all.len() - i,
        {
            assert(a.take(i + 1).drop_last() =~= a.take(i as int));
            let b = all[i];
            let ok = match type_filter {
                Some(t) => b.block_type == t,
                None => true,
            } && match subcase_filter {
                Some(c) => b.subcase == c,
                None => true,
            };
            if ok {
                let ghost before = derefs(r@);
                r.push(b);
                assert(derefs(r@) =~= before.push(*b));
            }
            i = i + 1;
        }
        assert(a.take(i as int) =~= a);
        r
    }

    /// Returns all the subcases, in increasing order.
    pub fn subcases(&self) -> (r: Vec<usize>)
        requires
            self.wf(),
        ensures
            forall|i: int, j: int| 0 <= i < j < r@.len() ==> r@[i] < r@[j],
            forall|x: usize| r@.contains(x) <==> exists|i: int| 0 <= i < self.blocks@.len() && (#[trigger] self.blocks@[i]).0.subcase == x,
    {
        let mut r: Vec<usize> = Vec::new();
        let mut i: usize = 0;
        while i < self.blocks.len()
            invariant
                self.wf(),
                i <= self.blocks@.len(),
                forall|a: int, b: int| 0 <= a < b < r@.len() ==> r@[a] < r@[b],
                r@.len() > 0 ==> i > 0 && r@.last() == self.blocks@[i - 1].0.subcase,
                i > 0 ==> r@.len() > 0,
                forall|x: usize| r@.contains(x) <==> exists|k: int| 0 <= k < i && (#[trigger] self.blocks@[k]).0.subcase == x,
            decreases self.blocks.len() - i,
        {
            let sc = self.blocks[i].0.subcase;
            let ghost before = r@;
            if r.len() == 0 || r[r.len() - 1] != sc {
                proof {
                    if r@.len() > 0 {
                        assert(bref_lt(self.blocks@[i - 1].0, self.blocks@[i as int].0));
                    }
                }
                r.push(sc);
                proof {
                    assert forall|x: usize| r@.contains(x) <==> exists|k: int| 0 <= k < i + 1 && (#[trigger] self.blocks@[k]).0.subcase == x by {
                        if r@.contains(x) {
                            let p = choose|p: int| 0 <= p < r@.len() && r@[p] == x;
                            if p < before.len() {
                                assert(before.contains(x));
                            }
                        }
                        if exists|k: int| 0 <= k < i + 1 && (#[trigger] self.blocks@[k]).0.subcase == x {
                            let k = choose|k: int| 0 <= k < i + 1 && (#[trigger] self.blocks@[k]).0.subcase == x;
                            if k < i {
                                assert(before.contains(x));
                                let p = choose|p: int| 0 <= p < before.len() && before[p] == x;
                                assert(r@[p] == x);
                            } else {
                                assert(r@[before.len() as int] == x);
                            }
                        }
                    }
                }
            } else {
                proof {
                    assert forall|x: usize| r@.contains(x) <==> exists|k: int| 0 <= k < i + 1 && (#[trigger] self.blocks@[k]).0.subcase == x by {
                        if exists|k: int| 0 <= k < i + 1 && (#[trigger] self.blocks@[k]).0.subcase == x {
                            let k = choose|k: int| 0 <= k < i + 1 && (#[trigger] self.blocks@[k]).0.subcase == x;
                            if k == i {
                                assert(r@[r@.len() - 1] == x);
                            }
                        }
                    }
                }
            }
            i = i + 1;
        }
        r
    }

    /// Returns all the block types, in canonical order.
    pub fn block_types(&self) -> (r: Vec<BlockType>)
        ensures
            forall|i: int, j: int| 0 <= i < j < r@.len() ==> block_index(r@[i]) < block_index(r@[j]),
            forall|bt: BlockType| r@.contains(bt) <==> exists|i: int| 0 <= i < self.blocks@.len() && (#[trigger] self.blocks@[i]).0.block_type == bt,
    {
        proof {
            crate::blocktypes::lemma_all_block_types();
        }
        let all = BlockType::all();
        let mut r: Vec<BlockType> = Vec::new();
        let mut t: usize = 0;
        while t < all.len()
            invariant
                all@ == crate::blocktypes::all_block_types(),
                all@.len() == 19,
                forall|bt: BlockType| block_index(bt) < 19 && #[trigger] all@[block_index(bt) as int] == bt,
                forall|i: int| 0 <= i < 19 ==> #[trigger] block_index(all@[i]) == i,
                t <= all@.len(),
                forall|a: int, b: int| 0 <= a < b < r@.len() ==> block_index(r@[a]) < block_index(r@[b]),
                forall|a: int| 0 <= a < r@.len() ==> block_index(#[trigger] r@[a]) < t,
                forall|bt: BlockType| r@.contains(bt) <==> block_index(bt) < t && exists|i: int| 0 <= i < self.blocks@.len() && (#[trigger] self.blocks@[i]).0.block_type == bt,
            decreases all.len() - t,
        {
            let bt = all[t];
            let mut found = false;
            let mut i: usize = 0;
            while i < self.blocks.len()
                invariant
                    i <= self.blocks@.len(),
                    found <==> exists|k: int| 0 <= k < i && (#[trigger] self.blocks@[k]).0.block_type == bt,
                decreases self.blocks.len() - i,
            {
                if self.blocks[i].0.block_type == bt {
                    found = true;
                }
                i = i + 1;
            }
            if found {
                let ghost before = r@;
                r.push(bt);
                proof {
                    assert forall|x: BlockType| r@.contains(x) <==> block_index(x) < t + 1 && exists|k: int| 0 <= k < self.blocks@.len() && (#[trigger] self.blocks@[k]).0.block_type == x by {
                        if r@.contains(x) {
                            let p = choose|p: int| 0 <= p < r@.len() && r@[p] == x;
                            if p < before.len() {
                                assert(before.contains(x));
                            }
                        }
                        if block_index(x) < t + 1 && exists|k: int| 0 <= k < self.blocks@.len() && (#[trigger] self.blocks@[k]).0.block_type == x {
                            if block_index(x) < t {
                                assert(before.contains(x));
                                let p = choose|p: int| 0 <= p < before.len() && before[p] == x;
                                assert(r@[p] == x);
                            } else {
                                assert(all@[block_index(x) as int] == x);
                                assert(r@[before.len() as int] == x);
                            }
                        }
                    }
                }
            } else {
                proof {
                    assert forall|x: BlockType| r@.contains(x) <==> block_index(x) < t + 1 && exists|k: int| 0 <= k < self.blocks@.len() && (#[trigger] self.blocks@[k]).0.block_type == x by {
                        if block_index(x) == t {
                            assert(all@[t as int] == x);
                        }
                    }
                }
            }
            t = t + 1;
        }
        r
    }
}

} // verus!
