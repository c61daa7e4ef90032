//! Comparison of blocks: what two blocks have in common, and which values
//! of theirs are to be compared.

use vstd::prelude::*;

use crate::blocks::{keys_shared, lemma_key_in_seq, lemma_none_missing, FinalBlock};
use crate::indexing::NasIndex;
use crate::indexmap::{key_pos, IndexMap};
use crate::numbers::{F06Number, NumberView};

verus! {

/// A "shallow" comparison of blocks: the data is not compared, only what
/// the blocks have in common, structurally speaking.
#[derive(Clone, Debug)]
pub enum BlockCompatibility {
    /// The blocks are not of the same type.
    DifferentType,
    /// The blocks are not of the same subcase.
    DifferentSubcase,
    /// The blocks do not have the same column indexes.
    DifferentColumns,
    /// The blocks have no row indexes in common.
    NoCommonRows,
    /// The blocks are compatible for data comparison.
    Compatible {
        /// The rows the blocks have in common, in index order.
        common_rows: Vec<NasIndex>,
        /// The rows one block has but the other does not, in index order.
        disjunction: Vec<NasIndex>,
    },
}

/// The rows of either block that the other lacks.
pub open spec fn disjunct_rows(a: FinalBlock, b: FinalBlock) -> Set<NasIndex> {
    a.row_indexes@.dom().difference(b.row_indexes@.dom()).union(b.row_indexes@.dom().difference(a.row_indexes@.dom()))
}

/// The indexes are in strictly increasing order.
pub open spec fn strictly_sorted(s: Seq<NasIndex>) -> bool {
    forall|i: int, j: int| 0 <= i < j < s.len() ==> crate::order::nas_lt(#[trigger] s[i], #[trigger] s[j])
}

/// Do two maps hold the same indexes?
fn same_keys(a: &IndexMap, b: &IndexMap) -> (r: bool)
    requires
        a.wf(),
        b.wf(),
    ensures
        r == (a@.dom() =~= b@.dom()),
{
    let ma = crate::blocks::missing_keys(b, a);
    let mb = crate::blocks::missing_keys(a, b);
    proof {
        if ma@.len() == 0 && mb@.len() == 0 {
            lemma_none_missing(b.key_seq(), a@);
            lemma_none_missing(a.key_seq(), b@);
            assert forall|c: NasIndex| a@.contains_key(c) implies b@.contains_key(c) by {
                lemma_key_in_seq(*a, c);
            }
            assert forall|c: NasIndex| b@.contains_key(c) implies a@.contains_key(c) by {
                lemma_key_in_seq(*b, c);
            }
        } else if ma@.len() > 0 {
            crate::blocks::lemma_some_missing(b.key_seq(), a@);
            let k = choose|k: NasIndex| b.key_seq().contains(k) && !a@.contains_key(k);
            let i = choose|i: int| 0 <= i < b.key_seq().len() && b.key_seq()[i] == k;
            crate::indexmap::lemma_sorted_unique(b.entries@, i);
            assert(b@.dom().contains(k) && !a@.dom().contains(k));
        } else {
            crate::blocks::lemma_some_missing(a.key_seq(), b@);
            let k = choose|k: NasIndex| a.key_seq().contains(k) && !b@.contains_key(k);
            let i = choose|i: int| 0 <= i < a.key_seq().len() && a.key_seq()[i] == k;
            crate::indexmap::lemma_sorted_unique(a.entries@, i);
            assert(a@.dom().contains(k) && !b@.dom().contains(k));
        }
    }
    ma.len() == 0 && mb.len() == 0
}

impl BlockCompatibility {
    /// Compares two blocks structurally.
    pub fn from_blocks(a: &FinalBlock, b: &FinalBlock) -> (r: BlockCompatibility)
        requires
            a.row_indexes.wf(),
            a.col_indexes.wf(),
            b.row_indexes.wf(),
            b.col_indexes.wf(),
        ensures
            a.block_type != b.block_type ==> r is DifferentType,
            a.block_type == b.block_type && a.subcase != b.subcase ==> r is DifferentSubcase,
            a.block_type == b.block_type && a.subcase == b.subcase && a.col_indexes@.dom() != b.col_indexes@.dom() ==> r is DifferentColumns,
            a.block_type == b.block_type && a.subcase == b.subcase && a.col_indexes@.dom() == b.col_indexes@.dom() ==> {
                let common = keys_shared(a.row_indexes.key_seq(), b.row_indexes@);
                if common.len() == 0 {
                    r is NoCommonRows
                } else {
                    r matches BlockCompatibility::Compatible { common_rows, disjunction } && common_rows@ == common
                        && strictly_sorted(disjunction@) && disjunction@.to_set() == disjunct_rows(*a, *b)
                }
            },
    {
        if a.block_type != b.block_type {
            return BlockCompatibility::DifferentType;
        }
        if a.subcase != b.subcase {
            return BlockCompatibility::DifferentSubcase;
        }
        if !same_keys(&a.col_indexes, &b.col_indexes) {
            return BlockCompatibility::DifferentColumns;
        }
        let common = a.row_conflicts(b);
        if common.len() == 0 {
            return BlockCompatibility::NoCommonRows;
        }
        let mut dx = IndexMap::new();
        let mut i: usize = 0;
        while i < a.row_indexes.entries.len()
            invariant
                a.row_indexes.wf(),
                b.row_indexes.wf(),
                dx.wf(),
                i <= a.row_indexes.entries@.len(),
                forall|k: NasIndex| #[trigger] dx@.contains_key(k) <==> (exists|j: int| 0 <= j < i && a.row_indexes.entries@[j].0 == k) && !b.row_indexes@.contains_key(k),
            decreases a.row_indexes.entries.len() - i,
        {
            let k = a.row_indexes.entries[i].0;
            if !b.row_indexes.contains_key(&k) {
                dx.insert(k, 0);
            }
            proof {
                assert forall|x: NasIndex| #[trigger] dx@.contains_key(x) <==> (exists|j: int| 0 <= j < i + 1 && a.row_indexes.entries@[j].0 == x) && !b.row_indexes@.contains_key(x) by {
                    if exists|j: int| 0 <= j < i + 1 && a.row_indexes.entries@[j].0 == x {
                        let j = choose|j: int| 0 <= j < i + 1 && a.row_indexes.entries@[j].0 == x;
                        if j < i {
                            assert(exists|j2: int| 0 <= j2 < i && a.row_indexes.entries@[j2].0 == x);
                        }
                    }
                }
            }
            i = i + 1;
        }
        let mut j: usize = 0;
        while j < b.row_indexes.entries.len()
            invariant
                a.row_indexes.wf(),
                b.row_indexes.wf(),
                dx.wf(),
                j <= b.row_indexes.entries@.len(),
                forall|k: NasIndex| #[trigger] dx@.contains_key(k) <==> (a.row_indexes@.contains_key(k) && !b.row_indexes@.contains_key(k)) || ((exists|q: int| 0 <= q < j && b.row_indexes.entries@[q].0 == k) && !a.row_indexes@.contains_key(k)),
            decreases b.row_indexes.entries.len() - j,
        {
            let k = b.row_indexes.entries[j].0;
            if !a.row_indexes.contains_key(&k) {
                dx.insert(k, 0);
            }
            proof {
                assert forall|x: NasIndex| #[trigger] dx@.contains_key(x) <==> (a.row_indexes@.contains_key(x) && !b.row_indexes@.contains_key(x)) || ((exists|q: int| 0 <= q < j + 1 && b.row_indexes.entries@[q].0 == x) && !a.row_indexes@.contains_key(x)) by {
                    if exists|q: int| 0 <= q < j + 1 && b.row_indexes.entries@[q].0 == x {
                        let q = choose|q: int| 0 <= q < j + 1 && b.row_indexes.entries@[q].0 == x;
                        if q < j {
                            assert(exists|q2: int| 0 <= q2 < j && b.row_indexes.entries@[q2].0 == x);
                        }
                    }
                }
            }
            j = j + 1;
        }
        let disjunction = dx.keys();
        proof {
            assert forall|x: NasIndex| #[trigger] a.row_indexes@.contains_key(x) implies (exists|q: int| 0 <= q < a.row_indexes.entries@.len() && a.row_indexes.entries@[q].0 == x) by {
                let q = key_pos(a.row_indexes.entries@, x);
            }
            assert forall|x: NasIndex| #[trigger] b.row_indexes@.contains_key(x) implies (exists|q: int| 0 <= q < b.row_indexes.entries@.len() && b.row_indexes.entries@[q].0 == x) by {
                let q = key_pos(b.row_indexes.entries@, x);
            }
            assert forall|x: NasIndex| (exists|q: int| 0 <= q < a.row_indexes.entries@.len() && a.row_indexes.entries@[q].0 == x) implies #[trigger] a.row_indexes@.contains_key(x) by {
                let q = choose|q: int| 0 <= q < a.row_indexes.entries@.len() && a.row_indexes.entries@[q].0 == x;
                crate::indexmap::lemma_sorted_unique(a.row_indexes.entries@, q);
            }
            assert forall|x: NasIndex| (exists|q: int| 0 <= q < b.row_indexes.entries@.len() && b.row_indexes.entries@[q].0 == x) implies #[trigger] b.row_indexes@.contains_key(x) by {
                let q = choose|q: int| 0 <= q < b.row_indexes.entries@.len() && b.row_indexes.entries@[q].0 == x;
                crate::indexmap::lemma_sorted_unique(b.row_indexes.entries@, q);
            }
            assert forall|x: NasIndex| disjunction@.to_set().contains(x) <==> #[trigger] disjunct_rows(*a, *b).contains(x) by {
                if disjunction@.to_set().contains(x) {
                    let q = choose|q: int| 0 <= q < disjunction@.len() && disjunction@[q] == x;
                    assert(disjunction@[q] == dx.entries@[q].0);
                    crate::indexmap::lemma_sorted_unique(dx.entries@, q);
                    assert(dx@.contains_key(x));
                    if a.row_indexes@.contains_key(x) {
                        assert(!b.row_indexes@.contains_key(x));
                    } else {
                        assert(b.row_indexes@.contains_key(x));
                    }
                }
                if disjunct_rows(*a, *b).contains(x) {
                    if b.row_indexes@.contains_key(x) {
                        assert(exists|q: int| 0 <= q < b.row_indexes.entries@.len() && b.row_indexes.entries@[q].0 == x);
                    }
                    assert(dx@.contains_key(x));
                    lemma_key_in_seq(dx, x);
                    assert(disjunction@[key_pos(dx.entries@, x)] == x);
                }
            }
            assert(disjunction@.to_set() =~= disjunct_rows(*a, *b));
        }
        BlockCompatibility::Compatible { common_rows: common, disjunction }
    }
}

/// What to do with rows that are in one block but not the other.
#[derive(Copy, Clone, Debug, PartialEq, Eq, Structural)]
pub enum DisjunctionBehaviour {
    /// Skip the disjunct rows: do not include them in the comparison.
    Skip,
    /// Assume an all-zero row where it is missing.
    AssumeZeroes,
    /// Flag the row and column.
    Flag,
}

/// All the variants, in order.
pub open spec fn all_dxn() -> Seq<DisjunctionBehaviour> {
    seq![DisjunctionBehaviour::Skip, DisjunctionBehaviour::AssumeZeroes, DisjunctionBehaviour::Flag]
}

/// The small lower-case name of a variant.
pub open spec fn dxn_name(d: DisjunctionBehaviour) -> Seq<char> {
    match d {
        DisjunctionBehaviour::Skip => "skip"@,
        DisjunctionBehaviour::AssumeZeroes => "zero"@,
        DisjunctionBehaviour::Flag => "flag"@,
    }
}

/// The code of the ASCII lower-case form of a character.
pub open spec fn lower_code(c: char) -> u32 {
    if 'A' <= c && c <= 'Z' { ((c as u32) + 32) as u32 } else { c as u32 }
}

/// Are two texts equal, ignoring ASCII case?
pub open spec fn eq_ignore_case(a: Seq<char>, b: Seq<char>) -> bool {
    a.len() == b.len() && forall|i: int| 0 <= i < a.len() ==> lower_code(#[trigger] a[i]) == lower_code(b[i])
}

/// Each small name names its own variant only, whatever the case it is
/// written in: parsing the name of a variant gives that variant back.
pub proof fn law_dxn_name_roundtrip(d: DisjunctionBehaviour, e: DisjunctionBehaviour)
    ensures
        eq_ignore_case(dxn_name(d), dxn_name(e)) <==> d == e,
{
    reveal_strlit("skip");
    reveal_strlit("zero");
    reveal_strlit("flag");
    if d == e {
        assert(eq_ignore_case(dxn_name(d), dxn_name(e)));
    } else {
        assert(lower_code(dxn_name(d)[0]) != lower_code(dxn_name(e)[0]));
    }
}

/// The code of the ASCII lower-case form of a character.
fn exec_lower_code(c: char) -> (r: u32)
    ensures
        r == lower_code(c),
{
    if 'A' <= c && c <= 'Z' {
        (c as u32) + 32
    } else {
        c as u32
    }
}

impl DisjunctionBehaviour {
    /// Returns all variants.
    pub fn all() -> (r: &'static [DisjunctionBehaviour])
        ensures
            r@ == all_dxn(),
    {
        let r: &'static [DisjunctionBehaviour] = &[DisjunctionBehaviour::Skip, DisjunctionBehaviour::AssumeZeroes, DisjunctionBehaviour::Flag];
        assert(r@ =~= all_dxn());
        r
    }

    /// Returns a small, lower-case name for the variant.
    pub fn small_lc_name(&self) -> (r: &'static str)
        ensures
            r@ == dxn_name(*self),
    {
        match self {
            DisjunctionBehaviour::Skip => "skip",
            DisjunctionBehaviour::AssumeZeroes => "zero",
            DisjunctionBehaviour::Flag => "flag",
        }
    }

    /// Parses a variant from its small name, ignoring ASCII case.
    pub fn from_str(s: &str) -> (r: Result<DisjunctionBehaviour, ()>)
        ensures
            r is Err == forall|d: DisjunctionBehaviour| !eq_ignore_case(s@, #[trigger] dxn_name(d)),
            r matches Ok(d) ==> eq_ignore_case(s@, dxn_name(d)),
    {
        let cs = crate::text::chars_of(s);
        let all = DisjunctionBehaviour::all();
        let mut i: usize = 0;
        while i < all.len()
            invariant
                all@ == all_dxn(),
                cs@ == s@,
                i <= 3,
                forall|k: int| 0 <= k < i ==> !eq_ignore_case(s@, dxn_name(#[trigger] all_dxn()[k])),
            decreases 3 - i,
        {
            let name = crate::text::chars_of(all[i].small_lc_name());
            if cs.len() == name.len() {
                let mut j: usize = 0;
                let mut ok = true;
                while j < cs.len()
                    invariant
                        cs@.len() == name@.len(),
                        j <= cs@.len(),
                        ok == forall|k: int| 0 <= k < j ==> lower_code(#[trigger] cs@[k]) == lower_code(name@[k]),
                    decreases cs.len() - j,
                {
                    if exec_lower_code(cs[j]) != exec_lower_code(name[j]) {
                        ok = false;
                    }
                    j = j + 1;
                }
                if ok {
                    return Ok(all[i]);
                }
            }
            i = i + 1;
        }
        proof {
            assert forall|d: DisjunctionBehaviour| !eq_ignore_case(s@, #[trigger] dxn_name(d)) by {
                match d {
                    DisjunctionBehaviour::Skip => assert(all_dxn()[0] == d),
                    DisjunctionBehaviour::AssumeZeroes => assert(all_dxn()[1] == d),
                    DisjunctionBehaviour::Flag => assert(all_dxn()[2] == d),
                }
            }
        }
        Err(())
    }
}

impl Default for DisjunctionBehaviour {
    /// Assumes zeroes for missing rows.
    fn default() -> (r: DisjunctionBehaviour)
        ensures
            r == DisjunctionBehaviour::AssumeZeroes,
    {
        DisjunctionBehaviour::AssumeZeroes
    }
}

/// What comparing two blocks at a position gives: both values, a skipped
/// position, or a disjunction to flag.
#[derive(Clone, Debug)]
pub enum PairOutcome {
    /// Both values, from the first block and the second.
    Values(F06Number, F06Number),
    /// A row is missing in one block and disjunctions are skipped.
    Skipped,
    /// A row is missing in one block and disjunctions are flagged.
    Disjunction,
}

/// A position of the first block with what comparing it gives.
#[derive(Clone, Debug)]
pub struct PositionPair {
    /// The row index.
    pub row: NasIndex,
    /// The column index.
    pub col: NasIndex,
    /// The outcome.
    pub outcome: PairOutcome,
}


/// The view of what comparing two blocks at a position gives.
pub ghost enum OutcomeView {
    /// Both values.
    Values(NumberView, NumberView),
    /// Skipped.
    Skipped,
    /// A disjunction to flag.
    Disjunction,
}

/// The view of an outcome.
pub open spec fn outcome_view(o: PairOutcome) -> OutcomeView {
    match o {
        PairOutcome::Values(x, y) => OutcomeView::Values(x@, y@),
        PairOutcome::Skipped => OutcomeView::Skipped,
        PairOutcome::Disjunction => OutcomeView::Disjunction,
    }
}

/// What comparing the first block with the second at a row of the first
/// gives: both values when the second has the row; otherwise, by the
/// disjunction behaviour, a skip, a zero for the second, or a disjunction.
pub open spec fn expected_outcome(a: FinalBlock, b: FinalBlock, dxn: DisjunctionBehaviour, r: NasIndex, c: NasIndex) -> OutcomeView {
    if b.row_indexes@.contains_key(r) {
        OutcomeView::Values(a.value_at(r, c).unwrap(), b.value_at(r, c).unwrap())
    } else {
        match dxn {
            DisjunctionBehaviour::Skip => OutcomeView::Skipped,
            DisjunctionBehaviour::AssumeZeroes => OutcomeView::Values(a.value_at(r, c).unwrap(), crate::blocks::zero_view(crate::blocks::ScalarKind::Real)),
            DisjunctionBehaviour::Flag => OutcomeView::Disjunction,
        }
    }
}

/// The outcome of a structural comparison of two blocks, without the rows
/// that a compatible pair lists.
pub ghost enum CompatView {
    /// Not of the same type.
    DifferentType,
    /// Not of the same subcase.
    DifferentSubcase,
    /// Not with the same columns.
    DifferentColumns,
    /// No rows in common.
    NoCommonRows,
    /// Compatible for data comparison.
    Compatible,
}

/// The view of a structural comparison.
pub open spec fn compat_view(c: BlockCompatibility) -> CompatView {
    match c {
        BlockCompatibility::DifferentType => CompatView::DifferentType,
        BlockCompatibility::DifferentSubcase => CompatView::DifferentSubcase,
        BlockCompatibility::DifferentColumns => CompatView::DifferentColumns,
        BlockCompatibility::NoCommonRows => CompatView::NoCommonRows,
        BlockCompatibility::Compatible { .. } => CompatView::Compatible,
    }
}

/// What comparing two blocks structurally gives: the first of type,
/// subcase, columns and common rows on which they fail, or compatible.
pub open spec fn compat_check(a: FinalBlock, b: FinalBlock) -> CompatView {
    if a.block_type != b.block_type {
        CompatView::DifferentType
    } else if a.subcase != b.subcase {
        CompatView::DifferentSubcase
    } else if a.col_indexes@.dom() != b.col_indexes@.dom() {
        CompatView::DifferentColumns
    } else if keys_shared(a.row_indexes.key_seq(), b.row_indexes@).len() == 0 {
        CompatView::NoCommonRows
    } else {
        CompatView::Compatible
    }
}

/// Are two blocks compatible for data comparison: same type, subcase and
/// columns, and some rows in common?
pub open spec fn comparable(a: FinalBlock, b: FinalBlock) -> bool {
    &&& a.block_type == b.block_type
    &&& a.subcase == b.subcase
    &&& a.col_indexes@.dom() == b.col_indexes@.dom()
    &&& keys_shared(a.row_indexes.key_seq(), b.row_indexes@).len() > 0
}

/// A well-formed block has a value at each of its rows and columns.
pub proof fn lemma_value_present(a: FinalBlock, r: NasIndex, c: NasIndex)
    requires
        a.wf(),
        a.row_indexes@.contains_key(r),
        a.col_indexes@.contains_key(c),
    ensures
        a.value_at(r, c) is Some,
{
    crate::blocks::lemma_positions_distinct(a.row_indexes, a.nrows(), r, r);
    crate::blocks::lemma_positions_distinct(a.col_indexes, a.ncols(), c, c);
}

/// The list holds, for each row of the first block (in index order) and
/// each of its columns (in index order), what comparing the blocks there
/// gives.
pub open spec fn positions_listed(a: FinalBlock, b: FinalBlock, dxn: DisjunctionBehaviour, v: Seq<PositionPair>) -> bool {
    let rows = a.row_indexes.key_seq();
    let cols = a.col_indexes.key_seq();
    &&& v.len() == rows.len() * cols.len()
    &&& forall|i: int, j: int|
        0 <= i < rows.len() && 0 <= j < cols.len() ==> {
            let p = #[trigger] v[i * cols.len() + j];
            &&& p.row == rows[i]
            &&& p.col == cols[j]
            &&& outcome_view(p.outcome) == expected_outcome(a, b, dxn, rows[i], cols[j])
        }
}

/// Lists, for each row of the first block (in index order) and each of its
/// columns (in index order), what comparing the two blocks there gives;
/// blocks that cannot be compared give their structural comparison.
pub fn diff_positions(a: &FinalBlock, b: &FinalBlock, dxn: DisjunctionBehaviour) -> (r: Result<Vec<PositionPair>, BlockCompatibility>)
    requires
        a.wf(),
        b.wf(),
    ensures
        r is Ok == comparable(*a, *b),
        r matches Err(c) ==> compat_view(c) == compat_check(*a, *b),
        compat_check(*a, *b) is Compatible == comparable(*a, *b),
        r matches Ok(v) ==> positions_listed(*a, *b, dxn, v@),
{
    let comp = BlockCompatibility::from_blocks(a, b);
    match comp {
        BlockCompatibility::Compatible { .. } => {},
        _ => return Err(comp),
    }
    let ghost rows = a.row_indexes.key_seq();
    let ghost cols = a.col_indexes.key_seq();
    let nr = a.row_indexes.entries.len();
    let nc = a.col_indexes.entries.len();
    let mut v: Vec<PositionPair> = Vec::new();
    let mut i: usize = 0;
    while i < nr
        invariant
            a.wf(),
            b.wf(),
            comparable(*a, *b),
            nr == rows.len(),
            nc == cols.len(),
            rows == a.row_indexes.key_seq(),
            cols == a.col_indexes.key_seq(),
            i <= nr,
            v@.len() == i * nc,
            forall|i2: int, j: int|
                0 <= i2 < i && 0 <= j < nc ==> {
                    let p = #[trigger] v@[i2 * nc + j];
                    &&& p.row == rows[i2]
                    &&& p.col == cols[j]
                    &&& outcome_view(p.outcome) == expected_outcome(*a, *b, dxn, rows[i2], cols[j])
                },
        decreases nr - i,
    {
        let r = a.row_indexes.entries[i].0;
        proof {
            crate::indexmap::lemma_sorted_unique(a.row_indexes.entries@, i as int);
        }
        let b_has = b.row_indexes.contains_key(&r);
        let mut j: usize = 0;
        while j < nc
            invariant
                a.wf(),
                b.wf(),
                comparable(*a, *b),
                nr == rows.len(),
                nc == cols.len(),
                rows == a.row_indexes.key_seq(),
                cols == a.col_indexes.key_seq(),
                i < nr,
                r == rows[i as int],
                a.row_indexes@.contains_key(r),
                b_has == b.row_indexes@.contains_key(r),
                j <= nc,
                v@.len() == i * nc + j,
                forall|i2: int, j2: int|
                    0 <= i2 < i && 0 <= j2 < nc ==> {
                        let p = #[trigger] v@[i2 * nc + j2];
                        &&& p.row == rows[i2]
                        &&& p.col == cols[j2]
                        &&& outcome_view(p.outcome) == expected_outcome(*a, *b, dxn, rows[i2], cols[j2])
                    },
                forall|j2: int|
                    0 <= j2 < j ==> {
                        let p = #[trigger] v@[i * nc + j2];
                        &&& p.row == rows[i as int]
                        &&& p.col == cols[j2]
                        &&& outcome_view(p.outcome) == expected_outcome(*a, *b, dxn, rows[i as int], cols[j2])
                    },
            decreases nc - j,
        {
            let c = a.col_indexes.entries[j].0;
            proof {
                crate::indexmap::lemma_sorted_unique(a.col_indexes.entries@, j as int);
                lemma_value_present(*a, r, c);
                if b_has {
                    assert(b.col_indexes@.contains_key(c));
                    lemma_value_present(*b, r, c);
                }
                assert(i * nc + j < (i + 1) * nc) by (nonlinear_arith)
                    requires j < nc;
            }
            let va = match a.get(r, c) {
                Some(x) => x,
                None => F06Number::Natural(0),
            };
            let outcome = if b_has {
                let vb = match b.get(r, c) {
                    Some(x) => x,
                    None => F06Number::Natural(0),
                };
                PairOutcome::Values(va, vb)
            } else {
                match dxn {
                    DisjunctionBehaviour::Skip => PairOutcome::Skipped,
                    DisjunctionBehaviour::AssumeZeroes => PairOutcome::Values(va, crate::blocks::zero_of(crate::blocks::ScalarKind::Real)),
                    DisjunctionBehaviour::Flag => PairOutcome::Disjunction,
                }
            };
            let ghost before = v@;
            v.push(PositionPair { row: r, col: c, outcome });
            proof {
                assert(v@[i * nc + j] == PositionPair { row: r, col: c, outcome });
                assert forall|i2: int, j2: int| 0 <= i2 < i && 0 <= j2 < nc implies #[trigger] v@[i2 * nc + j2] == before[i2 * nc + j2] by {
                    assert(i2 * nc + j2 < i * nc) by (nonlinear_arith)
                        requires i2 < i, j2 < nc, 0 <= i2, 0 <= j2;
                }
                assert forall|j2: int| 0 <= j2 < j implies #[trigger] v@[i * nc + j2] == before[i * nc + j2] by {}
            }
            j = j + 1;
        }
        proof {
            assert((i + 1) * nc == i * nc + nc) by (nonlinear_arith);
            assert forall|i2: int, j2: int| 0 <= i2 < i + 1 && 0 <= j2 < nc implies {
                let p = #[trigger] v@[i2 * nc + j2];
                &&& p.row == rows[i2]
                &&& p.col == cols[j2]
                &&& outcome_view(p.outcome) == expected_outcome(*a, *b, dxn, rows[i2], cols[j2])
            } by {
                if i2 == i {
                    assert(v@[i * nc + j2] == v@[i2 * nc + j2]);
                }
            }
        }
        i = i + 1;
    }
    Ok(v)
}


/// What comparing two comparable blocks gives at each position of the first:
/// where the second block has the row, both blocks' values; where it lacks
/// it, assuming zeroes compares the first block's value with the real zero,
/// skipping skips, and flagging flags a disjunction.
pub proof fn law_compared_positions(
    a: FinalBlock,
    b: FinalBlock,
    dxn: DisjunctionBehaviour,
    v: Seq<PositionPair>,
    i: int,
    j: int,
)
    requires
        a.wf(),
        b.wf(),
        comparable(a, b),
        positions_listed(a, b, dxn, v),
        0 <= i < a.row_indexes.key_seq().len(),
        0 <= j < a.col_indexes.key_seq().len(),
    ensures
        ({
            let n = a.col_indexes.key_seq().len();
            let r = a.row_indexes.key_seq()[i];
            let c = a.col_indexes.key_seq()[j];
            let p = v[i * n + j];
            &&& p.row == r
            &&& p.col == c
            &&& a.value_at(r, c) is Some
            &&& b.row_indexes@.contains_key(r) ==> (p.outcome matches PairOutcome::Values(x, y) && a.value_at(r, c)
                == Some(x@) && b.value_at(r, c) == Some(y@))
            &&& (!b.row_indexes@.contains_key(r) && dxn is AssumeZeroes) ==> (p.outcome matches PairOutcome::Values(x, y)
                && a.value_at(r, c) == Some(x@) && y@ == NumberView::Real(seq!['0', '.', '0']))
            &&& (!b.row_indexes@.contains_key(r) && dxn is Skip) ==> p.outcome is Skipped
            &&& (!b.row_indexes@.contains_key(r) && dxn is Flag) ==> p.outcome is Disjunction
        }),
{
    let n = a.col_indexes.key_seq().len();
    let r = a.row_indexes.key_seq()[i];
    let c = a.col_indexes.key_seq()[j];
    let p = v[i * n + j];
    assert(p.row == r && p.col == c);
    assert(a.row_indexes.key_seq()[i] == a.row_indexes.entries@[i].0);
    assert(a.col_indexes.key_seq()[j] == a.col_indexes.entries@[j].0);
    assert(crate::indexmap::has_key(a.row_indexes.entries@, r));
    assert(crate::indexmap::has_key(a.col_indexes.entries@, c));
    lemma_value_present(a, r, c);
    if b.row_indexes@.contains_key(r) {
        assert(b.col_indexes@.contains_key(c));
        lemma_value_present(b, r, c);
    }
}

} // verus!
