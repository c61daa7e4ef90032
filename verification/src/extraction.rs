//! Ways to specify subsets of the data of an F06 file, and to extract them.

use vstd::prelude::*;

use crate::blocks::FinalBlock;
use crate::blocktypes::BlockType;
use crate::compare::DisjunctionBehaviour;
use crate::f06file::{bref_lt, brefs_sorted, derefs, listed_blocks, search_ok, searched, BlockRef, F06File};
use crate::indexing::{index_element, index_grid_point, index_kind, ElementRef, GridPointRef, NasIndex};
use crate::indexmap::{has_key, lemma_sorted_unique, IndexMap};
use crate::numbers::{F06Number, NumberView};

verus! {

/// The items a specifier can list: they can be compared and copied.
pub trait SpecifierItem: Sized {
    /// Is this item the same as another?
    fn same(&self, other: &Self) -> (r: bool)
        ensures
            r == (*self == *other),
    ;

    /// A copy of this item.
    fn duplicate(&self) -> (r: Self)
        ensures
            r == *self,
    ;
}

impl SpecifierItem for usize {
    fn same(&self, other: &Self) -> (r: bool) {
        *self == *other
    }

    fn duplicate(&self) -> (r: Self) {
        *self
    }
}

impl SpecifierItem for BlockType {
    fn same(&self, other: &Self) -> (r: bool) {
        *self == *other
    }

    fn duplicate(&self) -> (r: Self) {
        *self
    }
}

impl SpecifierItem for GridPointRef {
    fn same(&self, other: &Self) -> (r: bool) {
        *self == *other
    }

    fn duplicate(&self) -> (r: Self) {
        *self
    }
}

impl SpecifierItem for ElementRef {
    fn same(&self, other: &Self) -> (r: bool) {
        *self == *other
    }

    fn duplicate(&self) -> (r: Self) {
        *self
    }
}

impl SpecifierItem for NasIndex {
    fn same(&self, other: &Self) -> (r: bool) {
        *self == *other
    }

    fn duplicate(&self) -> (r: Self) {
        *self
    }
}

/// A value or sets thereof.
#[derive(Debug)]
pub enum Specifier<A> {
    /// Use all in the file.
    All,
    /// Use a list.
    List(Vec<A>),
    /// Use an exclusion list.
    AllExcept(Vec<A>),
}

/// The type of a specifier.
#[derive(Debug, Copy, Clone, PartialEq, Eq, Structural)]
pub enum SpecifierType {
    /// Use all in the file.
    All,
    /// Use a list.
    List,
    /// Use an exclusion list.
    AllExcept,
}

/// The short name of a type of specifier.
pub open spec fn specifier_type_name(t: SpecifierType) -> Seq<char> {
    match t {
        SpecifierType::All => "all"@,
        SpecifierType::List => "only"@,
        SpecifierType::AllExcept => "except"@,
    }
}

impl SpecifierType {
    /// Returns a short name for this type of specifier.
    pub fn name(&self) -> (r: &'static str)
        ensures
            r@ == specifier_type_name(*self),
    {
        match self {
            SpecifierType::All => "all",
            SpecifierType::List => "only",
            SpecifierType::AllExcept => "except",
        }
    }
}

/// The type of a specifier.
pub open spec fn spec_type_of<A>(s: Specifier<A>) -> SpecifierType {
    match s {
        Specifier::All => SpecifierType::All,
        Specifier::List(_) => SpecifierType::List,
        Specifier::AllExcept(_) => SpecifierType::AllExcept,
    }
}

/// The items of a specifier: none for `All`.
pub open spec fn spec_items<A>(s: Specifier<A>) -> Seq<A> {
    match s {
        Specifier::All => Seq::empty(),
        Specifier::List(v) => v@,
        Specifier::AllExcept(v) => v@,
    }
}

/// Does a specifier let an item through?
pub open spec fn lets_through<A>(s: Specifier<A>, item: A) -> bool {
    match s {
        Specifier::All => true,
        Specifier::List(v) => v@.contains(item),
        Specifier::AllExcept(v) => !v@.contains(item),
    }
}

/// Does a specifier let an optional item through, `All` letting anything
/// through?
pub open spec fn lax_through<A>(s: Specifier<A>, item: Option<A>) -> bool {
    s is All || (item matches Some(v) && lets_through(s, v))
}

/// Does a specifier let an optional item through, nothing passing?
pub open spec fn strict_through<A>(s: Specifier<A>, item: Option<A>) -> bool {
    item matches Some(v) && lets_through(s, v)
}

/// What the strict filter lets through, the lax one does too; they differ
/// only on `All`, which lets everything through the lax filter, missing
/// items included. An exclusion list lets through exactly what the list of
/// the same items does not.
pub proof fn law_filters<A>(s: Specifier<A>, item: Option<A>, v: Vec<A>, x: A)
    ensures
        strict_through(s, item) ==> lax_through(s, item),
        !(s is All) ==> (strict_through(s, item) == lax_through(s, item)),
        lets_through(Specifier::AllExcept(v), x) == !lets_through(Specifier::List(v), x),
{
}

impl<A> Specifier<A> {
    /// Returns the type of this specifier.
    pub fn get_type(&self) -> (r: SpecifierType)
        ensures
            r == spec_type_of(*self),
    {
        match self {
            Specifier::All => SpecifierType::All,
            Specifier::List(_) => SpecifierType::List,
            Specifier::AllExcept(_) => SpecifierType::AllExcept,
        }
    }

    /// Converts this specifier to another type, keeping the list of items
    /// where both types have one.
    pub fn set_type(&mut self, to: SpecifierType)
        ensures
            spec_type_of(*final(self)) == to,
            !(to is All) ==> spec_items(*final(self)) == spec_items(*old(self)),
    {
        let mut cur = Specifier::All;
        std::mem::swap(&mut cur, self);
        let v = match cur {
            Specifier::All => Vec::new(),
            Specifier::List(v) => v,
            Specifier::AllExcept(v) => v,
        };
        *self = match to {
            SpecifierType::All => Specifier::All,
            SpecifierType::List => Specifier::List(v),
            SpecifierType::AllExcept => Specifier::AllExcept(v),
        };
    }

    /// Returns a reference into the inner vector if there is one.
    pub fn inner_vec(&self) -> (r: Option<&Vec<A>>)
        ensures
            r is Some == !(*self is All),
            r matches Some(v) ==> v@ == spec_items(*self),
    {
        match self {
            Specifier::All => None,
            Specifier::List(v) => Some(v),
            Specifier::AllExcept(v) => Some(v),
        }
    }

    /// Returns a mutable reference into the inner vector if there is one.
    pub fn inner_vec_mut(&mut self) -> (r: Option<&mut Vec<A>>)
        ensures
            r is Some == !(*old(self) is All),
            r matches Some(v) ==> *v == (match *old(self) {
                Specifier::List(w) => w,
                Specifier::AllExcept(w) => w,
                Specifier::All => *v,
            }),
            r matches Some(v) ==> *final(self) == (match *old(self) {
                Specifier::List(_) => Specifier::List(*final(v)),
                _ => Specifier::AllExcept(*final(v)),
            }),
            r is None ==> *final(self) == *old(self),
    {
        match self {
            Specifier::All => None,
            Specifier::List(v) => Some(v),
            Specifier::AllExcept(v) => Some(v),
        }
    }
}

/// A copy of a list of items.
fn copy_items<A: SpecifierItem>(v: &Vec<A>) -> (r: Vec<A>)
    ensures
        r@ == v@,
{
    let mut r: Vec<A> = Vec::new();
    let mut i: usize = 0;
    while i < v.len()
        invariant
            i <= v@.len(),
            r@ == v@.take(i as int),
        decreases v.len() - i,
    {
        r.push(v[i].duplicate());
        i = i + 1;
        assert(r@ =~= v@.take(i as int));
    }
    assert(v@.take(i as int) =~= v@);
    r
}

/// Does a list hold an item?
fn holds<A: SpecifierItem>(v: &Vec<A>, item: &A) -> (r: bool)
    ensures
        r == v@.contains(*item),
{
    let mut i: usize = 0;
    while i < v.len()
        invariant
            i <= v@.len(),
            forall|j: int| 0 <= j < i ==> v@[j] != *item,
        decreases v.len() - i,
    {
        if v[i].same(item) {
            return true;
        }
        i = i + 1;
    }
    false
}

impl<A: SpecifierItem> Specifier<A> {
    /// A copy of this specifier.
    pub fn duplicate(&self) -> (r: Self)
        ensures
            spec_type_of(r) == spec_type_of(*self),
            spec_items(r) == spec_items(*self),
    {
        match self {
            Specifier::All => Specifier::All,
            Specifier::List(v) => Specifier::List(copy_items(v)),
            Specifier::AllExcept(v) => Specifier::AllExcept(copy_items(v)),
        }
    }

    /// Returns a copy with another type.
    pub fn with_type(&self, to: SpecifierType) -> (r: Self)
        ensures
            spec_type_of(r) == to,
            !(to is All) ==> spec_items(r) == spec_items(*self),
    {
        let mut c = self.duplicate();
        c.set_type(to);
        c
    }

    /// Does this specifier let an item through?
    pub fn filter_fn(&self, item: &A) -> (r: bool)
        ensures
            r == lets_through(*self, *item),
    {
        match self {
            Specifier::All => true,
            Specifier::List(l) => holds(l, item),
            Specifier::AllExcept(l) => !holds(l, item),
        }
    }

    /// A lax filter: `All` lets anything through, else a missing item fails.
    pub fn lax_filter(&self, item: &Option<A>) -> (r: bool)
        ensures
            r == lax_through(*self, *item),
    {
        if let Specifier::All = self {
            return true;
        }
        match item {
            Some(v) => self.filter_fn(v),
            None => false,
        }
    }

    /// A strict filter: a missing item fails.
    pub fn strict_filter(&self, item: &Option<A>) -> (r: bool)
        ensures
            r == strict_through(*self, *item),
    {
        match item {
            Some(v) => self.filter_fn(v),
            None => false,
        }
    }
}


/// A reference to a single datum of an F06 file.
#[derive(Debug, Copy, Clone, PartialEq, Eq, Structural)]
pub struct DatumIndex {
    /// The block reference.
    pub block_ref: BlockRef,
    /// The row.
    pub row: NasIndex,
    /// The column.
    pub col: NasIndex,
}

/// What can go wrong when extracting a datum.
#[derive(Debug, Copy, Clone, PartialEq, Eq, Structural)]
pub enum ExtractionError {
    /// The F06 file has no block matching a subcase and type.
    NoSuchBlock(BlockRef),
    /// The block was found but the row index is of another type.
    RowTypeMismatch {
        /// The row index tried.
        tried: NasIndex,
        /// A row index of the block.
        against: NasIndex,
    },
    /// The block was found but the column index is of another type.
    ColumnTypeMismatch {
        /// The column index tried.
        tried: NasIndex,
        /// A column index of the block.
        against: NasIndex,
    },
    /// A row index of the right type is not part of the matrix.
    MissingRow(NasIndex),
    /// A column index of the right type is not part of the matrix.
    MissingColumn(NasIndex),
    /// The block has no data.
    BlockIsEmpty,
}

/// What extracting a datum gives: the value, or why there is none. The
/// block is the first unique one of the referenced subcase and type.
pub open spec fn datum_of(di: DatumIndex, file: F06File) -> Result<NumberView, ExtractionError> {
    let found = searched(listed_blocks(file.blocks@, true), Some(di.block_ref.block_type), Some(di.block_ref.subcase));
    if found.len() == 0 {
        Err(ExtractionError::NoSuchBlock(di.block_ref))
    } else {
        let b = found[0];
        if b.row_indexes.entries@.len() == 0 || b.col_indexes.entries@.len() == 0 {
            Err(ExtractionError::BlockIsEmpty)
        } else {
            let ri = b.row_indexes.entries@[0].0;
            let ci = b.col_indexes.entries@[0].0;
            if index_kind(di.row) != index_kind(ri) {
                Err(ExtractionError::RowTypeMismatch { tried: di.row, against: ri })
            } else if index_kind(di.col) != index_kind(ci) {
                Err(ExtractionError::ColumnTypeMismatch { tried: di.col, against: ci })
            } else if !b.row_indexes@.contains_key(di.row) {
                Err(ExtractionError::MissingRow(di.row))
            } else if !b.col_indexes@.contains_key(di.col) {
                Err(ExtractionError::MissingColumn(di.col))
            } else {
                Ok(b.value_at(di.row, di.col).unwrap())
            }
        }
    }
}

/// The blocks of a well-formed file are well formed, wherever they are
/// listed.
pub proof fn lemma_listed_wf(file: F06File, unique: bool)
    requires
        file.wf(),
    ensures
        forall|k: int| 0 <= k < listed_blocks(file.blocks@, unique).len() ==> (#[trigger] listed_blocks(file.blocks@, unique)[k]).wf(),
{
    lemma_listed_prefix_wf(file.blocks@, unique);
}

/// Every listed block of well-formed entries is well formed.
proof fn lemma_listed_prefix_wf(s: Seq<(BlockRef, Vec<FinalBlock>)>, unique: bool)
    requires
        forall|i: int, j: int| 0 <= i < s.len() && 0 <= j < s[i].1@.len() ==> (#[trigger] s[i].1@[j]).wf(),
    ensures
        forall|k: int| 0 <= k < listed_blocks(s, unique).len() ==> (#[trigger] listed_blocks(s, unique)[k]).wf(),
    decreases s.len(),
{
    if s.len() > 0 {
        let d = s.drop_last();
        assert forall|i: int, j: int| 0 <= i < d.len() && 0 <= j < d[i].1@.len() implies (#[trigger] d[i].1@[j]).wf() by {
            assert(d[i] == s[i]);
        }
        lemma_listed_prefix_wf(d, unique);
        let r = listed_blocks(d, unique);
        assert forall|k: int| 0 <= k < listed_blocks(s, unique).len() implies (#[trigger] listed_blocks(s, unique)[k]).wf() by {
            if k >= r.len() {
                assert(listed_blocks(s, unique)[k] == s.last().1@[k - r.len()]);
                assert(s[s.len() - 1] == s.last());
            }
        }
    }
}

/// Every searched block is one of those searched through.
pub proof fn lemma_searched_sub(s: Seq<FinalBlock>, tf: Option<BlockType>, sf: Option<usize>)
    ensures
        forall|k: int| 0 <= k < searched(s, tf, sf).len() ==> exists|j: int| 0 <= j < s.len() && #[trigger] searched(s, tf, sf)[k] == s[j],
    decreases s.len(),
{
    if s.len() > 0 {
        lemma_searched_sub(s.drop_last(), tf, sf);
        let r = searched(s.drop_last(), tf, sf);
        assert forall|k: int| 0 <= k < searched(s, tf, sf).len() implies exists|j: int| 0 <= j < s.len() && #[trigger] searched(s, tf, sf)[k] == s[j] by {
            if k < r.len() {
                let j = choose|j: int| 0 <= j < s.drop_last().len() && r[k] == s.drop_last()[j];
                assert(s[j] == s.drop_last()[j]);
            } else {
                assert(searched(s, tf, sf)[k] == s[s.len() - 1]);
            }
        }
    }
}

impl DatumIndex {
    /// Gets the value at this index from a file.
    pub fn get_from(&self, file: &F06File) -> (r: Result<F06Number, ExtractionError>)
        requires
            file.wf(),
        ensures
            r is Ok == datum_of(*self, *file) is Ok,
            r matches Ok(x) ==> datum_of(*self, *file) == Ok::<NumberView, ExtractionError>(x@),
            r matches Err(e) ==> datum_of(*self, *file) == Err::<NumberView, ExtractionError>(e),
    {
        let found = file.block_search(Some(self.block_ref.block_type), Some(self.block_ref.subcase), true);
        if found.len() == 0 {
            return Err(ExtractionError::NoSuchBlock(self.block_ref));
        }
        let b = found[0];
        proof {
            assert(derefs(found@)[0] == *b);
            lemma_listed_wf(*file, true);
            lemma_searched_sub(listed_blocks(file.blocks@, true), Some(self.block_ref.block_type), Some(self.block_ref.subcase));
            let j = choose|j: int| 0 <= j < listed_blocks(file.blocks@, true).len() && #[trigger] searched(listed_blocks(file.blocks@, true), Some(self.block_ref.block_type), Some(self.block_ref.subcase))[0] == listed_blocks(file.blocks@, true)[j];
            assert(b.wf());
        }
        if b.row_indexes.entries.len() == 0 || b.col_indexes.entries.len() == 0 {
            return Err(ExtractionError::BlockIsEmpty);
        }
        let ri = b.row_indexes.entries[0].0;
        let ci = b.col_indexes.entries[0].0;
        if self.row.kind() != ri.kind() {
            return Err(ExtractionError::RowTypeMismatch { tried: self.row, against: ri });
        }
        if self.col.kind() != ci.kind() {
            return Err(ExtractionError::ColumnTypeMismatch { tried: self.col, against: ci });
        }
        if !b.row_indexes.contains_key(&self.row) {
            return Err(ExtractionError::MissingRow(self.row));
        }
        if !b.col_indexes.contains_key(&self.col) {
            return Err(ExtractionError::MissingColumn(self.col));
        }
        proof {
            crate::compare::lemma_value_present(*b, self.row, self.col);
        }
        match b.get(self.row, self.col) {
            Some(x) => Ok(x),
            None => Err(ExtractionError::BlockIsEmpty),
        }
    }
}


/// A way to extract a subset of the data of an F06 file, so that criteria
/// can be applied to it.
#[derive(Debug)]
pub struct Extraction {
    /// Subcases to get data from.
    pub subcases: Specifier<usize>,
    /// Block types to get data from.
    pub block_types: Specifier<BlockType>,
    /// Grid point filter (filters out grid points if present).
    pub grid_points: Specifier<GridPointRef>,
    /// Element filter (filters out element IDs if present).
    pub elements: Specifier<ElementRef>,
    /// Row filter.
    pub rows: Specifier<NasIndex>,
    /// Column filter.
    pub cols: Specifier<NasIndex>,
    /// Raw column filter, by position.
    pub raw_cols: Specifier<usize>,
    /// What to do in case of disjunctions.
    pub dxn: DisjunctionBehaviour,
}

/// Does an extraction take data from a block (by its subcase and type)?
pub open spec fn block_kept(e: Extraction, b: FinalBlock) -> bool {
    lets_through(e.subcases, b.subcase) && lets_through(e.block_types, b.block_type)
}

/// Does an extraction keep a row index?
pub open spec fn row_kept(e: Extraction, ri: NasIndex) -> bool {
    &&& lets_through(e.rows, ri)
    &&& lax_through(e.grid_points, index_grid_point(ri))
    &&& lax_through(e.elements, index_element(ri))
}

/// Does an extraction keep a column index of a block?
pub open spec fn col_kept(e: Extraction, b: FinalBlock, ci: NasIndex) -> bool {
    &&& lets_through(e.cols, ci)
    &&& lax_through(e.grid_points, index_grid_point(ci))
    &&& lax_through(e.elements, index_element(ci))
    &&& lets_through(e.raw_cols, b.col_indexes@[ci])
}

/// The kept row indexes among some, in order.
pub open spec fn kept_rows(e: Extraction, ks: Seq<NasIndex>) -> Seq<NasIndex>
    decreases ks.len(),
{
    if ks.len() == 0 {
        Seq::empty()
    } else {
        let r = kept_rows(e, ks.drop_last());
        if row_kept(e, ks.last()) { r.push(ks.last()) } else { r }
    }
}

/// The kept column indexes of a block among some, in order.
pub open spec fn kept_cols(e: Extraction, b: FinalBlock, ks: Seq<NasIndex>) -> Seq<NasIndex>
    decreases ks.len(),
{
    if ks.len() == 0 {
        Seq::empty()
    } else {
        let r = kept_cols(e, b, ks.drop_last());
        if col_kept(e, b, ks.last()) { r.push(ks.last()) } else { r }
    }
}

/// The data indexes an extraction gives for a block: each kept row (in
/// order) with each kept column (in order).
pub open spec fn block_indexes(e: Extraction, b: FinalBlock) -> Seq<DatumIndex> {
    let rs = kept_rows(e, b.row_indexes.key_seq());
    let cs = kept_cols(e, b, b.col_indexes.key_seq());
    Seq::new(
        rs.len() * cs.len(),
        |k: int| DatumIndex { block_ref: b.bref(), row: rs[k / (cs.len() as int)], col: cs[k % (cs.len() as int)] },
    )
}

/// The data indexes an extraction gives for some blocks, in order.
pub open spec fn lookup_of(e: Extraction, bs: Seq<FinalBlock>) -> Seq<DatumIndex>
    decreases bs.len(),
{
    if bs.len() == 0 {
        Seq::empty()
    } else {
        let r = lookup_of(e, bs.drop_last());
        if block_kept(e, bs.last()) { r + block_indexes(e, bs.last()) } else { r }
    }
}

/// Is `r` the block `src` with only some of its rows and columns: the same
/// data matrix, with exactly the given row and column indexes (all of them
/// indexes of `src`), each at its place in `src`?
pub open spec fn restriction_of(r: FinalBlock, src: FinalBlock, rows: Seq<NasIndex>, cols: Seq<NasIndex>) -> bool {
    &&& r.row_indexes.wf()
    &&& r.col_indexes.wf()
    &&& r.row_indexes@.dom() == rows.to_set()
    &&& r.col_indexes@.dom() == cols.to_set()
    &&& r.row_indexes@.dom().subset_of(src.row_indexes@.dom())
    &&& r.col_indexes@.dom().subset_of(src.col_indexes@.dom())
    &&& forall|row: NasIndex| #[trigger] r.row_indexes@.contains_key(row) ==> r.row_indexes@[row] == src.row_indexes@[row]
    &&& forall|col: NasIndex| #[trigger] r.col_indexes@.contains_key(col) ==> r.col_indexes@[col] == src.col_indexes@[col]
    &&& (r.data is Some == src.data is Some)
    &&& (r.data matches Some(m) ==> m.kind == src.data.unwrap().kind && forall|i: int, j: int| #[trigger] m.cell(i, j)
        == src.data.unwrap().cell(i, j))
}

/// The value a block keeps at a row and a column once an extraction keeps
/// only its kept rows and columns.
pub open spec fn blockified_value(e: Extraction, b: FinalBlock, row: NasIndex, col: NasIndex) -> Option<NumberView> {
    if kept_rows(e, b.row_indexes.key_seq()).contains(row) && kept_cols(e, b, b.col_indexes.key_seq()).contains(col) {
        b.value_at(row, col)
    } else {
        None
    }
}

/// The blocks an extraction takes data from, among some, in order.
pub open spec fn kept_blocks(e: Extraction, bs: Seq<FinalBlock>) -> Seq<FinalBlock>
    decreases bs.len(),
{
    if bs.len() == 0 {
        Seq::empty()
    } else {
        let r = kept_blocks(e, bs.drop_last());
        if block_kept(e, bs.last()) { r.push(bs.last()) } else { r }
    }
}

impl Extraction {
    /// The kept row indexes of a block, in order.
    fn rows_of(&self, b: &FinalBlock) -> (r: Vec<NasIndex>)
        ensures
            r@ == kept_rows(*self, b.row_indexes.key_seq()),
    {
        let ghost ks = b.row_indexes.key_seq();
        let mut r: Vec<NasIndex> = Vec::new();
        let mut i: usize = 0;
        while i < b.row_indexes.entries.len()
            invariant
                ks == b.row_indexes.key_seq(),
                i <= ks.len(),
                r@ == kept_rows(*self, ks.take(i as int)),
            decreases b.row_indexes.entries.len() - i,
        {
            let ri = b.row_indexes.entries[i].0;
            assert(ks.take(i + 1).drop_last() =~= ks.take(i as int));
            assert(ks[i as int] == ri);
            if self.rows.filter_fn(&ri) && self.grid_points.lax_filter(&ri.grid_point_id()) && self.elements.lax_filter(
                &ri.element_id(),
            ) {
                r.push(ri);
            }
            i = i + 1;
        }
        assert(ks.take(i as int) =~= ks);
        r
    }

    /// The kept column indexes of a block, in order.
    fn cols_of(&self, b: &FinalBlock) -> (r: Vec<NasIndex>)
        requires
            b.col_indexes.wf(),
        ensures
            r@ == kept_cols(*self, *b, b.col_indexes.key_seq()),
    {
        let ghost ks = b.col_indexes.key_seq();
        let mut r: Vec<NasIndex> = Vec::new();
        let mut i: usize = 0;
        while i < b.col_indexes.entries.len()
            invariant
                b.col_indexes.wf(),
                ks == b.col_indexes.key_seq(),
                i <= ks.len(),
                r@ == kept_cols(*self, *b, ks.take(i as int)),
            decreases b.col_indexes.entries.len() - i,
        {
            let (ci, pos) = b.col_indexes.entries[i];
            assert(ks.take(i + 1).drop_last() =~= ks.take(i as int));
            assert(ks[i as int] == ci);
            proof {
                lemma_sorted_unique(b.col_indexes.entries@, i as int);
            }
            if self.cols.filter_fn(&ci) && self.grid_points.lax_filter(&ci.grid_point_id()) && self.elements.lax_filter(
                &ci.element_id(),
            ) && self.raw_cols.filter_fn(&pos) {
                r.push(ci);
            }
            i = i + 1;
        }
        assert(ks.take(i as int) =~= ks);
        r
    }

    /// Lists the data indexes this extraction gives for a file: for each
    /// unique block it takes data from, each kept row with each kept column.
    pub fn lookup(&self, file: &F06File) -> (r: Vec<DatumIndex>)
        requires
            file.wf(),
        ensures
            r@ == lookup_of(*self, listed_blocks(file.blocks@, true)),
    {
        let bs = file.all_blocks(true);
        let ghost lb = derefs(bs@);
        proof {
            lemma_listed_wf(*file, true);
        }
        let mut r: Vec<DatumIndex> = Vec::new();
        let mut k: usize = 0;
        while k < bs.len()
            invariant
                lb == derefs(bs@),
                lb == listed_blocks(file.blocks@, true),
                forall|q: int| 0 <= q < lb.len() ==> (#[trigger] lb[q]).wf(),
                k <= lb.len(),
                r@ == lookup_of(*self, lb.take(k as int)),
            decreases bs.len() - k,
        {
            let b = bs[k];
            assert(lb.take(k + 1).drop_last() =~= lb.take(k as int));
            assert(lb[k as int] == *b);
            if self.subcases.filter_fn(&b.subcase) && self.block_types.filter_fn(&b.block_type) {
                let rows = self.rows_of(b);
                let cols = self.cols_of(b);
                let br = b.block_ref();
                let ghost before = r@;
                let nc = cols.len();
                let mut i: usize = 0;
                while i < rows.len()
                    invariant
                        r@.len() == before.len() + i * nc,
                        i <= rows@.len(),
                        nc == cols@.len(),
                        forall|q: int| 0 <= q < before.len() ==> #[trigger] r@[q] == before[q],
                        forall|q: int| 0 <= q < i * nc ==> #[trigger] r@[before.len() + q] == (DatumIndex {
                            block_ref: br,
                            row: rows@[q / (nc as int)],
                            col: cols@[q % (nc as int)],
                        }),
                    decreases rows.len() - i,
                {
                    let mut j: usize = 0;
                    while j < nc
                        invariant
                            r@.len() == before.len() + i * nc + j,
                            i < rows@.len(),
                            j <= nc,
                            nc == cols@.len(),
                            forall|q: int| 0 <= q < before.len() ==> #[trigger] r@[q] == before[q],
                            forall|q: int| 0 <= q < i * nc + j ==> #[trigger] r@[before.len() + q] == (DatumIndex {
                                block_ref: br,
                                row: rows@[q / (nc as int)],
                                col: cols@[q % (nc as int)],
                            }),
                        decreases nc - j,
                    {
                        r.push(DatumIndex { block_ref: br, row: rows[i], col: cols[j] });
                        proof {
                            let q0 = i * nc + j;
                            assert(q0 / (nc as int) == i && q0 % (nc as int) == j) by (nonlinear_arith)
                                requires q0 == i * nc + j, j < nc, 0 <= j, 0 <= i;
                        }
                        j = j + 1;
                    }
                    proof {
                        assert((i + 1) * nc == i * nc + nc) by (nonlinear_arith);
                    }
                    i = i + 1;
                }
                proof {
                    let bi = block_indexes(*self, *b);
                    assert(r@.len() == before.len() + bi.len());
                    assert forall|q: int| 0 <= q < r@.len() implies #[trigger] r@[q] == (before + bi)[q] by {
                        if q >= before.len() {
                            let q2 = q - before.len();
                            assert(r@[before.len() + q2] == bi[q2]);
                        }
                    }
                    assert(r@ =~= before + bi);
                }
            }
            k = k + 1;
        }
        assert(lb.take(k as int) =~= lb);
        r
    }

    /// Gives, for each unique block of a file this extraction takes data
    /// from, a copy keeping only the kept rows and columns.
    pub fn blockify(&self, file: &F06File) -> (r: Vec<FinalBlock>)
        requires
            file.wf(),
        ensures
            r@.len() == kept_blocks(*self, listed_blocks(file.blocks@, true)).len(),
            forall|k: int|
                0 <= k < r@.len() ==> {
                    let src = kept_blocks(*self, listed_blocks(file.blocks@, true))[k];
                    &&& (#[trigger] r@[k]).block_type == src.block_type
                    &&& r@[k].subcase == src.subcase
                    &&& restriction_of(r@[k], src, kept_rows(*self, src.row_indexes.key_seq()), kept_cols(
                        *self,
                        src,
                        src.col_indexes.key_seq(),
                    ))
                    &&& forall|row: NasIndex, col: NasIndex| #[trigger] r@[k].value_at(row, col) == blockified_value(
                        *self,
                        src,
                        row,
                        col,
                    )
                },
    {
        let bs = file.all_blocks(true);
        let ghost lb = derefs(bs@);
        proof {
            lemma_listed_wf(*file, true);
        }
        let mut r: Vec<FinalBlock> = Vec::new();
        let mut k: usize = 0;
        while k < bs.len()
            invariant
                lb == derefs(bs@),
                lb == listed_blocks(file.blocks@, true),
                forall|q: int| 0 <= q < lb.len() ==> (#[trigger] lb[q]).wf(),
                k <= lb.len(),
                r@.len() == kept_blocks(*self, lb.take(k as int)).len(),
                forall|q: int|
                    0 <= q < r@.len() ==> {
                        let src = kept_blocks(*self, lb.take(k as int))[q];
                        &&& (#[trigger] r@[q]).block_type == src.block_type
                        &&& r@[q].subcase == src.subcase
                        &&& restriction_of(r@[q], src, kept_rows(*self, src.row_indexes.key_seq()), kept_cols(
                            *self,
                            src,
                            src.col_indexes.key_seq(),
                        ))
                        &&& forall|row: NasIndex, col: NasIndex| #[trigger] r@[q].value_at(row, col) == (if kept_rows(
                            *self,
                            src.row_indexes.key_seq(),
                        ).contains(row) && kept_cols(*self, src, src.col_indexes.key_seq()).contains(col) {
                            src.value_at(row, col)
                        } else {
                            None
                        })
                    },
            decreases bs.len() - k,
        {
            let b = bs[k];
            assert(lb.take(k + 1).drop_last() =~= lb.take(k as int));
            assert(lb[k as int] == *b);
            let ghost before = r@;
            let ghost kb0 = kept_blocks(*self, lb.take(k as int));
            if self.subcases.filter_fn(&b.subcase) && self.block_types.filter_fn(&b.block_type) {
                let rows = self.rows_of(b);
                let cols = self.cols_of(b);
                let mut c = b.duplicate();
                c.row_indexes = crate::blocks::retain_keys(&b.row_indexes, &rows);
                c.col_indexes = crate::blocks::retain_keys(&b.col_indexes, &cols);
                proof {
                    assert forall|row: NasIndex, col: NasIndex| #[trigger] c.value_at(row, col) == (if rows@.contains(row)
                        && cols@.contains(col) {
                        b.value_at(row, col)
                    } else {
                        None
                    }) by {
                        if rows@.contains(row) && cols@.contains(col) {
                            if b.row_indexes@.contains_key(row) && b.col_indexes@.contains_key(col) {
                                assert(c.row_indexes@[row] == b.row_indexes@[row]);
                                assert(c.col_indexes@[col] == b.col_indexes@[col]);
                                if b.data is Some {
                                    assert(c.data.unwrap().cell(b.row_indexes@[row] as int, b.col_indexes@[col] as int) == b.data.unwrap().cell(b.row_indexes@[row] as int, b.col_indexes@[col] as int));
                                }
                            }
                        }
                    }
                }
                proof {
                    lemma_kept_rows_in(*self, b.row_indexes.key_seq());
                    lemma_kept_cols_in(*self, *b, b.col_indexes.key_seq());
                    assert forall|row: NasIndex| c.row_indexes@.contains_key(row) <==> rows@.to_set().contains(row) by {
                        if rows@.contains(row) {
                            lemma_key_seq_in_map(b.row_indexes, row);
                        }
                    }
                    assert forall|col: NasIndex| c.col_indexes@.contains_key(col) <==> cols@.to_set().contains(col) by {
                        if cols@.contains(col) {
                            lemma_key_seq_in_map(b.col_indexes, col);
                        }
                    }
                    assert(c.row_indexes@.dom() =~= rows@.to_set());
                    assert(c.col_indexes@.dom() =~= cols@.to_set());
                    assert(restriction_of(c, *b, rows@, cols@));
                }
                r.push(c);
                proof {
                    assert(kept_blocks(*self, lb.take(k + 1)) == kb0.push(*b));
                    assert forall|q: int| 0 <= q < r@.len() implies {
                        let src = kept_blocks(*self, lb.take(k + 1))[q];
                        &&& (#[trigger] r@[q]).block_type == src.block_type
                        &&& r@[q].subcase == src.subcase
                        &&& restriction_of(r@[q], src, kept_rows(*self, src.row_indexes.key_seq()), kept_cols(
                            *self,
                            src,
                            src.col_indexes.key_seq(),
                        ))
                        &&& forall|row: NasIndex, col: NasIndex| #[trigger] r@[q].value_at(row, col) == (if kept_rows(
                            *self,
                            src.row_indexes.key_seq(),
                        ).contains(row) && kept_cols(*self, src, src.col_indexes.key_seq()).contains(col) {
                            src.value_at(row, col)
                        } else {
                            None
                        })
                    } by {
                        if q < before.len() {
                            assert(r@[q] == before[q]);
                            assert(kept_blocks(*self, lb.take(k + 1))[q] == kb0[q]);
                        }
                    }
                }
            }
            k = k + 1;
        }
        assert(lb.take(k as int) =~= lb);
        r
    }
}


/// All the row indexes of a block are of one kind, and so are all its
/// column indexes.
pub open spec fn kinds_uniform(b: FinalBlock) -> bool {
    &&& forall|i: int, j: int|
        0 <= i < b.row_indexes.entries@.len() && 0 <= j < b.row_indexes.entries@.len() ==> index_kind(
            #[trigger] b.row_indexes.entries@[i].0,
        ) == index_kind(#[trigger] b.row_indexes.entries@[j].0)
    &&& forall|i: int, j: int|
        0 <= i < b.col_indexes.entries@.len() && 0 <= j < b.col_indexes.entries@.len() ==> index_kind(
            #[trigger] b.col_indexes.entries@[i].0,
        ) == index_kind(#[trigger] b.col_indexes.entries@[j].0)
}

/// The kept rows are rows of the list, at increasing places.
proof fn lemma_kept_rows_in(e: Extraction, ks: Seq<NasIndex>)
    ensures
        forall|p: int| 0 <= p < kept_rows(e, ks).len() ==> ks.contains(#[trigger] kept_rows(e, ks)[p]),
    decreases ks.len(),
{
    if ks.len() > 0 {
        lemma_kept_rows_in(e, ks.drop_last());
        let r = kept_rows(e, ks.drop_last());
        assert forall|p: int| 0 <= p < kept_rows(e, ks).len() implies ks.contains(#[trigger] kept_rows(e, ks)[p]) by {
            if p < r.len() {
                let q = choose|q: int| 0 <= q < ks.drop_last().len() && ks.drop_last()[q] == r[p];
                assert(ks[q] == r[p]);
            } else {
                assert(ks[ks.len() - 1] == ks.last());
            }
        }
    }
}

/// The kept columns are columns of the list.
proof fn lemma_kept_cols_in(e: Extraction, b: FinalBlock, ks: Seq<NasIndex>)
    ensures
        forall|p: int| 0 <= p < kept_cols(e, b, ks).len() ==> ks.contains(#[trigger] kept_cols(e, b, ks)[p]),
    decreases ks.len(),
{
    if ks.len() > 0 {
        lemma_kept_cols_in(e, b, ks.drop_last());
        let r = kept_cols(e, b, ks.drop_last());
        assert forall|p: int| 0 <= p < kept_cols(e, b, ks).len() implies ks.contains(#[trigger] kept_cols(e, b, ks)[p]) by {
            if p < r.len() {
                let q = choose|q: int| 0 <= q < ks.drop_last().len() && ks.drop_last()[q] == r[p];
                assert(ks[q] == r[p]);
            } else {
                assert(ks[ks.len() - 1] == ks.last());
            }
        }
    }
}

/// A key of the list of keys of an index map is a key of the map.
proof fn lemma_key_seq_in_map(m: IndexMap, k: NasIndex)
    requires
        m.key_seq().contains(k),
    ensures
        m@.contains_key(k),
        exists|i: int| 0 <= i < m.entries@.len() && #[trigger] m.entries@[i].0 == k,
{
    let i = choose|i: int| 0 <= i < m.key_seq().len() && m.key_seq()[i] == k;
    assert(m.entries@[i].0 == k);
    assert(has_key(m.entries@, k));
}

/// Each index that an extraction gives for some blocks names one of them,
/// with a row and a column of that block.
proof fn lemma_lookup_from(e: Extraction, bs: Seq<FinalBlock>, k: int)
    requires
        0 <= k < lookup_of(e, bs).len(),
    ensures
        exists|j: int|
            0 <= j < bs.len() && (#[trigger] bs[j]).bref() == lookup_of(e, bs)[k].block_ref
                && bs[j].row_indexes.key_seq().contains(lookup_of(e, bs)[k].row)
                && bs[j].col_indexes.key_seq().contains(lookup_of(e, bs)[k].col),
    decreases bs.len(),
{
    let r = lookup_of(e, bs.drop_last());
    if k < r.len() {
        lemma_lookup_from(e, bs.drop_last(), k);
        let j = choose|j: int|
            0 <= j < bs.drop_last().len() && (#[trigger] bs.drop_last()[j]).bref() == r[k].block_ref
                && bs.drop_last()[j].row_indexes.key_seq().contains(r[k].row)
                && bs.drop_last()[j].col_indexes.key_seq().contains(r[k].col);
        assert(bs[j] == bs.drop_last()[j]);
    } else {
        let b = bs.last();
        let rs = kept_rows(e, b.row_indexes.key_seq());
        let cs = kept_cols(e, b, b.col_indexes.key_seq());
        let q = k - r.len();
        assert(block_kept(e, b));
        assert(0 <= q < rs.len() * cs.len());
        let n = cs.len() as int;
        assert(n > 0) by (nonlinear_arith)
            requires
                0 <= q < rs.len() * n,
                n >= 0,
        ;
        assert(0 <= q / n < rs.len()) by (nonlinear_arith)
            requires
                0 <= q < rs.len() * n,
                n > 0,
        ;
        assert(0 <= q % n < n) by (nonlinear_arith)
            requires
                n > 0,
                q >= 0,
        ;
        lemma_kept_rows_in(e, b.row_indexes.key_seq());
        lemma_kept_cols_in(e, b, b.col_indexes.key_seq());
        assert(lookup_of(e, bs)[k] == block_indexes(e, b)[q]);
        assert(bs[bs.len() - 1] == b);
    }
}

/// The blocks listed once for their reference, in a well-formed file, come
/// in strictly increasing order of reference, each under the reference of
/// an entry.
proof fn lemma_listed_unique_sorted(s: Seq<(BlockRef, Vec<FinalBlock>)>)
    requires
        brefs_sorted(s),
        forall|i: int, j: int|
            0 <= i < s.len() && 0 <= j < s[i].1@.len() ==> (#[trigger] s[i].1@[j]).bref() == s[i].0,
    ensures
        forall|p: int, q: int|
            0 <= p < q < listed_blocks(s, true).len() ==> bref_lt(
                (#[trigger] listed_blocks(s, true)[p]).bref(),
                (#[trigger] listed_blocks(s, true)[q]).bref(),
            ),
        forall|p: int|
            0 <= p < listed_blocks(s, true).len() ==> exists|i: int|
                0 <= i < s.len() && (#[trigger] listed_blocks(s, true)[p]).bref() == s[i].0,
    decreases s.len(),
{
    if s.len() > 0 {
        let d = s.drop_last();
        assert forall|i: int, j: int| 0 <= i < d.len() && 0 <= j < d[i].1@.len() implies (#[trigger] d[i].1@[j]).bref()
            == d[i].0 by {
            assert(d[i] == s[i]);
        }
        lemma_listed_unique_sorted(d);
        let r = listed_blocks(d, true);
        let l = listed_blocks(s, true);
        let last = s.len() - 1;
        assert(s[last] == s.last());
        assert forall|p: int| 0 <= p < l.len() implies exists|i: int| 0 <= i < s.len() && (#[trigger] l[p]).bref() == s[i].0 by {
            if p < r.len() {
                let i = choose|i: int| 0 <= i < d.len() && r[p].bref() == d[i].0;
                assert(s[i] == d[i]);
            } else {
                assert(l[p] == s.last().1@[p - r.len()]);
            }
        }
        assert forall|p: int, q: int| 0 <= p < q < l.len() implies bref_lt((#[trigger] l[p]).bref(), (#[trigger] l[q]).bref()) by {
            if q < r.len() {
                assert(l[p] == r[p] && l[q] == r[q]);
            } else if p < r.len() {
                let i = choose|i: int| 0 <= i < d.len() && r[p].bref() == d[i].0;
                assert(s[i] == d[i]);
                assert(l[p] == r[p]);
                assert(l[q] == s.last().1@[q - r.len()]);
                assert(bref_lt(s[i].0, s[last].0));
            } else {
                // the last entry adds a single block
                assert(s.last().1@.len() == 1);
                assert(false);
            }
        }
    }
}

/// Searching a list for the one block that passes finds that block first.
proof fn lemma_search_single(s: Seq<FinalBlock>, t: Option<BlockType>, c: Option<usize>, j: int)
    requires
        0 <= j < s.len(),
        search_ok(s[j], t, c),
        forall|q: int| 0 <= q < s.len() && q != j ==> !search_ok(#[trigger] s[q], t, c),
    ensures
        searched(s, t, c).len() > 0,
        searched(s, t, c)[0] == s[j],
    decreases s.len(),
{
    if j == s.len() - 1 {
        lemma_search_none(s.drop_last(), t, c);
        assert(s.last() == s[j]);
    } else {
        let d = s.drop_last();
        assert forall|q: int| 0 <= q < d.len() && q != j implies !search_ok(#[trigger] d[q], t, c) by {
            assert(d[q] == s[q]);
        }
        assert(d[j] == s[j]);
        lemma_search_single(d, t, c, j);
        assert(!search_ok(s[s.len() - 1], t, c));
        assert(s.last() == s[s.len() - 1]);
    }
}

/// Searching a list where no block passes finds nothing.
proof fn lemma_search_none(s: Seq<FinalBlock>, t: Option<BlockType>, c: Option<usize>)
    requires
        forall|q: int| 0 <= q < s.len() ==> !search_ok(#[trigger] s[q], t, c),
    ensures
        searched(s, t, c).len() == 0,
    decreases s.len(),
{
    if s.len() > 0 {
        let d = s.drop_last();
        assert forall|q: int| 0 <= q < d.len() implies !search_ok(#[trigger] d[q], t, c) by {
            assert(d[q] == s[q]);
        }
        lemma_search_none(d, t, c);
        assert(s.last() == s[s.len() - 1]);
    }
}

/// What an extraction lists for a file can be read back from that file:
/// each data index it gives has a value there, provided the file's blocks
/// keep to one kind of row index and one kind of column index each.
pub proof fn law_lookup_readable(e: Extraction, file: F06File, k: int)
    requires
        file.wf(),
        forall|i: int, j: int|
            0 <= i < file.blocks@.len() && 0 <= j < file.blocks@[i].1@.len() ==> kinds_uniform(
                #[trigger] file.blocks@[i].1@[j],
            ),
        0 <= k < lookup_of(e, listed_blocks(file.blocks@, true)).len(),
    ensures
        datum_of(lookup_of(e, listed_blocks(file.blocks@, true))[k], file) is Ok,
{
    let s = file.blocks@;
    let l = listed_blocks(s, true);
    let di = lookup_of(e, l)[k];
    lemma_lookup_from(e, l, k);
    let j = choose|j: int|
        0 <= j < l.len() && (#[trigger] l[j]).bref() == di.block_ref && l[j].row_indexes.key_seq().contains(di.row)
            && l[j].col_indexes.key_seq().contains(di.col);
    let b = l[j];
    lemma_listed_unique_sorted(s);
    assert forall|q: int| 0 <= q < l.len() && q != j implies !search_ok(
        #[trigger] l[q],
        Some(di.block_ref.block_type),
        Some(di.block_ref.subcase),
    ) by {
        if q < j {
            assert(bref_lt(l[q].bref(), l[j].bref()));
        } else {
            assert(bref_lt(l[j].bref(), l[q].bref()));
        }
    }
    lemma_search_single(l, Some(di.block_ref.block_type), Some(di.block_ref.subcase), j);
    let found = searched(l, Some(di.block_ref.block_type), Some(di.block_ref.subcase));
    assert(found[0] == b);
    // the block is one of the file's, so its kinds are uniform
    lemma_listed_entry(s, j);
    lemma_key_seq_in_map(b.row_indexes, di.row);
    lemma_key_seq_in_map(b.col_indexes, di.col);
    let ir = choose|i: int| 0 <= i < b.row_indexes.entries@.len() && #[trigger] b.row_indexes.entries@[i].0 == di.row;
    let ic = choose|i: int| 0 <= i < b.col_indexes.entries@.len() && #[trigger] b.col_indexes.entries@[i].0 == di.col;
    assert(index_kind(b.row_indexes.entries@[ir].0) == index_kind(b.row_indexes.entries@[0].0));
    assert(index_kind(b.col_indexes.entries@[ic].0) == index_kind(b.col_indexes.entries@[0].0));
}

/// A listed block is a block of one of the entries.
proof fn lemma_listed_entry(s: Seq<(BlockRef, Vec<FinalBlock>)>, p: int)
    requires
        0 <= p < listed_blocks(s, true).len(),
    ensures
        exists|i: int, j: int|
            0 <= i < s.len() && 0 <= j < s[i].1@.len() && #[trigger] s[i].1@[j] == listed_blocks(s, true)[p],
    decreases s.len(),
{
    let d = s.drop_last();
    let r = listed_blocks(d, true);
    if p < r.len() {
        lemma_listed_entry(d, p);
        let (i, j) = choose|i: int, j: int|
            0 <= i < d.len() && 0 <= j < d[i].1@.len() && #[trigger] d[i].1@[j] == r[p];
        assert(s[i] == d[i]);
    } else {
        let last = s.len() - 1;
        assert(s[last] == s.last());
        assert(s[last].1@[p - r.len()] == listed_blocks(s, true)[p]);
    }
}


/// An index is one of those an extraction gives for a block exactly when it
/// names the block, a kept row and a kept column.
proof fn lemma_block_indexes_contain(e: Extraction, b: FinalBlock, di: DatumIndex)
    ensures
        block_indexes(e, b).contains(di) <==> (di.block_ref == b.bref() && kept_rows(e, b.row_indexes.key_seq()).contains(
            di.row,
        ) && kept_cols(e, b, b.col_indexes.key_seq()).contains(di.col)),
{
    let rs = kept_rows(e, b.row_indexes.key_seq());
    let cs = kept_cols(e, b, b.col_indexes.key_seq());
    let bi = block_indexes(e, b);
    let n = cs.len() as int;
    if bi.contains(di) {
        let k = choose|k: int| 0 <= k < bi.len() && bi[k] == di;
        assert(n > 0) by (nonlinear_arith)
            requires
                0 <= k < rs.len() * n,
                n >= 0,
        ;
        assert(0 <= k / n < rs.len()) by (nonlinear_arith)
            requires
                0 <= k < rs.len() * n,
                n > 0,
        ;
        assert(0 <= k % n < n) by (nonlinear_arith)
            requires
                n > 0,
                k >= 0,
        ;
        assert(rs[k / n] == di.row);
        assert(cs[k % n] == di.col);
    }
    if di.block_ref == b.bref() && rs.contains(di.row) && cs.contains(di.col) {
        let i = choose|i: int| 0 <= i < rs.len() && rs[i] == di.row;
        let j = choose|j: int| 0 <= j < cs.len() && cs[j] == di.col;
        let k = i * n + j;
        assert(0 <= k < rs.len() * n) by (nonlinear_arith)
            requires
                0 <= i < rs.len(),
                0 <= j < n,
                k == i * n + j,
        ;
        vstd::arithmetic::div_mod::lemma_fundamental_div_mod_converse(k, n, i, j);
        assert(bi[k] == di);
    }
}

/// Over well-formed blocks, the indexes an extraction lists are exactly the
/// places where the blocks it keeps hold a value once restricted.
proof fn lemma_lookup_kept(e: Extraction, bs: Seq<FinalBlock>, di: DatumIndex)
    requires
        forall|q: int| 0 <= q < bs.len() ==> (#[trigger] bs[q]).wf(),
    ensures
        lookup_of(e, bs).contains(di) <==> exists|k: int|
            0 <= k < kept_blocks(e, bs).len() && (#[trigger] kept_blocks(e, bs)[k]).bref() == di.block_ref
                && blockified_value(e, kept_blocks(e, bs)[k], di.row, di.col) is Some,
    decreases bs.len(),
{
    if bs.len() > 0 {
        let d = bs.drop_last();
        assert forall|q: int| 0 <= q < d.len() implies (#[trigger] d[q]).wf() by {
            assert(d[q] == bs[q]);
        }
        lemma_lookup_kept(e, d, di);
        let b = bs.last();
        assert(b == bs[bs.len() - 1]);
        let r = lookup_of(e, d);
        let kd = kept_blocks(e, d);
        let kb = kept_blocks(e, bs);
        lemma_block_indexes_contain(e, b, di);
        let rs = kept_rows(e, b.row_indexes.key_seq());
        let cs = kept_cols(e, b, b.col_indexes.key_seq());
        lemma_kept_rows_in(e, b.row_indexes.key_seq());
        lemma_kept_cols_in(e, b, b.col_indexes.key_seq());
        // a kept row and column of the last block hold a value
        if rs.contains(di.row) && cs.contains(di.col) {
            let i = choose|i: int| 0 <= i < rs.len() && rs[i] == di.row;
            let j = choose|j: int| 0 <= j < cs.len() && cs[j] == di.col;
            lemma_key_seq_in_map(b.row_indexes, di.row);
            lemma_key_seq_in_map(b.col_indexes, di.col);
            crate::compare::lemma_value_present(b, di.row, di.col);
        }
        if block_kept(e, b) {
            assert(lookup_of(e, bs) == r + block_indexes(e, b));
            assert(kb == kd.push(b));
            if lookup_of(e, bs).contains(di) {
                let p = choose|p: int| 0 <= p < lookup_of(e, bs).len() && lookup_of(e, bs)[p] == di;
                if p < r.len() {
                    assert(r[p] == di);
                    let k = choose|k: int|
                        0 <= k < kd.len() && (#[trigger] kd[k]).bref() == di.block_ref
                            && blockified_value(e, kd[k], di.row, di.col) is Some;
                    assert(kb[k] == kd[k]);
                } else {
                    assert(block_indexes(e, b)[p - r.len()] == di);
                    assert(kb[kd.len() as int] == b);
                }
            }
            if exists|k: int|
                0 <= k < kb.len() && (#[trigger] kb[k]).bref() == di.block_ref
                    && blockified_value(e, kb[k], di.row, di.col) is Some {
                let k = choose|k: int|
                    0 <= k < kb.len() && (#[trigger] kb[k]).bref() == di.block_ref
                        && blockified_value(e, kb[k], di.row, di.col) is Some;
                if k < kd.len() {
                    assert(kb[k] == kd[k]);
                    let p = choose|p: int| 0 <= p < r.len() && r[p] == di;
                    assert(lookup_of(e, bs)[p] == di);
                } else {
                    assert(kb[k] == b);
                    let p = choose|p: int| 0 <= p < block_indexes(e, b).len() && block_indexes(e, b)[p] == di;
                    assert(lookup_of(e, bs)[r.len() + p] == di);
                }
            }
        } else {
            assert(lookup_of(e, bs) == r);
            assert(kb == kd);
        }
    }
}

/// Does one of the blocks an extraction keeps, under the index's reference,
/// keep the index's row and column?
pub open spec fn kept_position(e: Extraction, kb: Seq<FinalBlock>, di: DatumIndex) -> bool {
    exists|k: int|
        0 <= k < kb.len() && (#[trigger] kb[k]).bref() == di.block_ref && kept_rows(e, kb[k].row_indexes.key_seq()).contains(
            di.row,
        ) && kept_cols(e, kb[k], kb[k].col_indexes.key_seq()).contains(di.col)
}

/// The indexes an extraction lists are exactly the kept rows and columns of
/// the blocks it keeps.
proof fn lemma_lookup_kept_keys(e: Extraction, bs: Seq<FinalBlock>, di: DatumIndex)
    ensures
        lookup_of(e, bs).contains(di) <==> kept_position(e, kept_blocks(e, bs), di),
    decreases bs.len(),
{
    if bs.len() > 0 {
        let d = bs.drop_last();
        lemma_lookup_kept_keys(e, d, di);
        let b = bs.last();
        let r = lookup_of(e, d);
        let kd = kept_blocks(e, d);
        let kb = kept_blocks(e, bs);
        lemma_block_indexes_contain(e, b, di);
        if block_kept(e, b) {
            assert(lookup_of(e, bs) == r + block_indexes(e, b));
            assert(kb == kd.push(b));
            if lookup_of(e, bs).contains(di) {
                let p = choose|p: int| 0 <= p < lookup_of(e, bs).len() && lookup_of(e, bs)[p] == di;
                if p < r.len() {
                    assert(r[p] == di);
                    let k = choose|k: int|
                        0 <= k < kd.len() && (#[trigger] kd[k]).bref() == di.block_ref && kept_rows(
                            e,
                            kd[k].row_indexes.key_seq(),
                        ).contains(di.row) && kept_cols(e, kd[k], kd[k].col_indexes.key_seq()).contains(di.col);
                    assert(kb[k] == kd[k]);
                } else {
                    assert(block_indexes(e, b)[p - r.len()] == di);
                    assert(kb[kd.len() as int] == b);
                }
            }
            if kept_position(e, kb, di) {
                let k = choose|k: int|
                    0 <= k < kb.len() && (#[trigger] kb[k]).bref() == di.block_ref && kept_rows(
                        e,
                        kb[k].row_indexes.key_seq(),
                    ).contains(di.row) && kept_cols(e, kb[k], kb[k].col_indexes.key_seq()).contains(di.col);
                if k < kd.len() {
                    assert(kb[k] == kd[k]);
                    assert(kept_position(e, kd, di));
                    let p = choose|p: int| 0 <= p < r.len() && r[p] == di;
                    assert(lookup_of(e, bs)[p] == di);
                } else {
                    assert(kb[k] == b);
                    let p = choose|p: int| 0 <= p < block_indexes(e, b).len() && block_indexes(e, b)[p] == di;
                    assert(lookup_of(e, bs)[r.len() + p] == di);
                }
            }
        } else {
            assert(lookup_of(e, bs) == r);
            assert(kb == kd);
        }
    }
}

/// What an extraction looks up in a file is exactly what the blocks it makes
/// of that file hold: a data index is listed exactly when one of those
/// blocks, under the index's reference, holds a value at its row and column,
/// and exactly when that block keeps the row and the column (the row and
/// column indexes of the blocks `blockify` gives are the kept ones).
pub proof fn law_lookup_blockify(e: Extraction, file: F06File, di: DatumIndex)
    requires
        file.wf(),
    ensures
        lookup_of(e, listed_blocks(file.blocks@, true)).contains(di) <==> exists|k: int|
            0 <= k < kept_blocks(e, listed_blocks(file.blocks@, true)).len() && (#[trigger] kept_blocks(
                e,
                listed_blocks(file.blocks@, true),
            )[k]).bref() == di.block_ref && blockified_value(
                e,
                kept_blocks(e, listed_blocks(file.blocks@, true))[k],
                di.row,
                di.col,
            ) is Some,
        lookup_of(e, listed_blocks(file.blocks@, true)).contains(di) <==> kept_position(
            e,
            kept_blocks(e, listed_blocks(file.blocks@, true)),
            di,
        ),
{
    lemma_listed_wf(file, true);
    lemma_lookup_kept(e, listed_blocks(file.blocks@, true), di);
    lemma_lookup_kept_keys(e, listed_blocks(file.blocks@, true), di);
}


/// The rows an extraction keeps pass its row filter.
proof fn lemma_kept_rows_pass(e: Extraction, ks: Seq<NasIndex>)
    ensures
        forall|p: int| 0 <= p < kept_rows(e, ks).len() ==> lets_through(e.rows, #[trigger] kept_rows(e, ks)[p]),
    decreases ks.len(),
{
    if ks.len() > 0 {
        lemma_kept_rows_pass(e, ks.drop_last());
        let r = kept_rows(e, ks.drop_last());
        assert forall|p: int| 0 <= p < kept_rows(e, ks).len() implies lets_through(e.rows, #[trigger] kept_rows(e, ks)[p]) by {
            if p < r.len() {
                assert(kept_rows(e, ks)[p] == r[p]);
            }
        }
    }
}

/// The columns an extraction keeps pass its column filter.
proof fn lemma_kept_cols_pass(e: Extraction, b: FinalBlock, ks: Seq<NasIndex>)
    ensures
        forall|p: int| 0 <= p < kept_cols(e, b, ks).len() ==> lets_through(e.cols, #[trigger] kept_cols(e, b, ks)[p]),
    decreases ks.len(),
{
    if ks.len() > 0 {
        lemma_kept_cols_pass(e, b, ks.drop_last());
        let r = kept_cols(e, b, ks.drop_last());
        assert forall|p: int| 0 <= p < kept_cols(e, b, ks).len() implies lets_through(e.cols, #[trigger] kept_cols(e, b, ks)[p]) by {
            if p < r.len() {
                assert(kept_cols(e, b, ks)[p] == r[p]);
            }
        }
    }
}

/// Every block an extraction keeps is of a subcase and a type that its
/// specifiers let through.
pub proof fn law_kept_blocks_pass(e: Extraction, bs: Seq<FinalBlock>, k: int)
    requires
        0 <= k < kept_blocks(e, bs).len(),
    ensures
        lets_through(e.subcases, kept_blocks(e, bs)[k].subcase),
        lets_through(e.block_types, kept_blocks(e, bs)[k].block_type),
    decreases bs.len(),
{
    let d = bs.drop_last();
    if k < kept_blocks(e, d).len() {
        law_kept_blocks_pass(e, d, k);
    }
}

/// Every data index an extraction lists passes its filters: its block's
/// subcase and type, its row and its column are each let through by the
/// extraction's specifier for them.
pub proof fn law_lookup_passes(e: Extraction, bs: Seq<FinalBlock>, k: int)
    requires
        0 <= k < lookup_of(e, bs).len(),
    ensures
        lets_through(e.subcases, lookup_of(e, bs)[k].block_ref.subcase),
        lets_through(e.block_types, lookup_of(e, bs)[k].block_ref.block_type),
        lets_through(e.rows, lookup_of(e, bs)[k].row),
        lets_through(e.cols, lookup_of(e, bs)[k].col),
    decreases bs.len(),
{
    let d = bs.drop_last();
    let r = lookup_of(e, d);
    if k < r.len() {
        law_lookup_passes(e, d, k);
    } else {
        let b = bs.last();
        let rs = kept_rows(e, b.row_indexes.key_seq());
        let cs = kept_cols(e, b, b.col_indexes.key_seq());
        let q = k - r.len();
        let n = cs.len() as int;
        assert(n > 0) by (nonlinear_arith)
            requires
                0 <= q < rs.len() * n,
                n >= 0,
        ;
        assert(0 <= q / n < rs.len()) by (nonlinear_arith)
            requires
                0 <= q < rs.len() * n,
                n > 0,
        ;
        assert(0 <= q % n < n) by (nonlinear_arith)
            requires
                n > 0,
                q >= 0,
        ;
        lemma_kept_rows_pass(e, b.row_indexes.key_seq());
        lemma_kept_cols_pass(e, b, b.col_indexes.key_seq());
        assert(lookup_of(e, bs)[k] == block_indexes(e, b)[q]);
    }
}

} // verus!
