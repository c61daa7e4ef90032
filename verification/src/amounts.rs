//! Loose ways of writing down numbers and items in extraction scripts (a
//! number, a list, ranges; none, one or many), and their conversion into
//! extractions.

use vstd::prelude::*;

use crate::blocktypes::BlockType;
use crate::compare::DisjunctionBehaviour;
use crate::elements::ElementType;
use crate::extraction::{Extraction, Specifier};
use crate::geometry::Dof;
use crate::indexing::{ElementRef, GridPointRef, NasIndex};

verus! {

/// A simple, inclusive range.
#[derive(Copy, Clone, Debug, PartialEq, Eq, Structural)]
pub struct InclusiveRange {
    /// Start of the inclusive range.
    pub from: usize,
    /// End of the inclusive range.
    pub to: usize,
}

/// The numbers of an inclusive range, in increasing order; none when it
/// ends before it starts.
pub open spec fn range_values(r: InclusiveRange) -> Seq<usize> {
    if r.from <= r.to {
        Seq::new((r.to - r.from + 1) as nat, |i: int| (r.from + i) as usize)
    } else {
        Seq::empty()
    }
}

impl InclusiveRange {
    /// The numbers of the range, in increasing order.
    pub fn values(&self) -> (r: Vec<usize>)
        ensures
            r@ == range_values(*self),
    {
        let mut r: Vec<usize> = Vec::new();
        if self.from > self.to {
            assert(r@ =~= range_values(*self));
            return r;
        }
        let mut x: usize = self.from;
        loop
            invariant_except_break
                self.from <= x <= self.to,
                r@ =~= Seq::new((x - self.from) as nat, |i: int| (self.from + i) as usize),
            ensures
                r@ =~= Seq::new((self.to - self.from + 1) as nat, |i: int| (self.from + i) as usize),
            decreases self.to - x,
        {
            r.push(x);
            if x == self.to {
                break;
            }
            x = x + 1;
        }
        assert(r@ =~= range_values(*self));
        r
    }
}

/// For inputs that can take a number, a list of numbers, or a min/max.
#[derive(Clone, Debug)]
pub enum NumListRange {
    /// No numbers.
    Nothing,
    /// A single number.
    Single(usize),
    /// A list of numbers.
    List(Vec<usize>),
    /// A minimum and a maximum (inclusive).
    Range(InclusiveRange),
    /// Several inclusive ranges.
    Ranges(Vec<InclusiveRange>),
}

impl Default for NumListRange {
    /// No numbers.
    fn default() -> (r: NumListRange)
        ensures
            r is Nothing,
    {
        NumListRange::Nothing
    }
}

/// The numbers of several ranges, one range after the other.
pub open spec fn ranges_values(rs: Seq<InclusiveRange>) -> Seq<usize> {
    rs.map_values(|r: InclusiveRange| range_values(r)).flatten()
}

/// The numbers an input stands for, in order.
pub open spec fn num_list_values(n: NumListRange) -> Seq<usize> {
    match n {
        NumListRange::Nothing => Seq::empty(),
        NumListRange::Single(x) => seq![x],
        NumListRange::List(v) => v@,
        NumListRange::Range(r) => range_values(r),
        NumListRange::Ranges(rs) => ranges_values(rs@),
    }
}

/// Does a specifier list exactly these items?
pub open spec fn lists<A>(s: Specifier<A>, items: Seq<A>) -> bool {
    s matches Specifier::List(v) && v@ == items
}

impl NumListRange {
    /// The numbers this input stands for, in order.
    pub fn values(self) -> (r: Vec<usize>)
        ensures
            r@ == num_list_values(self),
    {
        match self {
            NumListRange::Nothing => Vec::new(),
            NumListRange::Single(x) => {
                let mut v: Vec<usize> = Vec::new();
                v.push(x);
                assert(v@ =~= seq![x]);
                v
            },
            NumListRange::List(v) => v,
            NumListRange::Range(r) => r.values(),
            NumListRange::Ranges(rs) => {
                let mut v: Vec<usize> = Vec::new();
                let mut i: usize = 0;
                while i < rs.len()
                    invariant
                        i <= rs@.len(),
                        v@ == ranges_values(rs@.take(i as int)),
                    decreases rs@.len() - i,
                {
                    let mut more = rs[i].values();
                    let ghost before = v@;
                    let ghost vals = more@;
                    v.append(&mut more);
                    proof {
                        let f = |r: InclusiveRange| range_values(r);
                        assert(rs@.take(i + 1) =~= rs@.take(i as int).push(rs@[i as int]));
                        assert(rs@.take(i + 1).map_values(f) =~= rs@.take(i as int).map_values(f).push(vals));
                        rs@.take(i as int).map_values(f).lemma_flatten_push(vals);
                    }
                    i = i + 1;
                }
                assert(rs@.take(rs@.len() as int) =~= rs@);
                v
            },
        }
    }

    /// The specifier this input stands for: all for no numbers, else the
    /// list of its numbers.
    pub fn to_specifier(self) -> (r: Specifier<usize>)
        ensures
            self is Nothing ==> r is All,
            !(self is Nothing) ==> lists(r, num_list_values(self)),
    {
        match self {
            NumListRange::Nothing => Specifier::All,
            _ => Specifier::List(self.values()),
        }
    }
}

/// One or many of anything.
#[derive(Clone, Debug)]
pub enum OneOrMany<T> {
    /// One of the thing.
    One(T),
    /// Many of the thing.
    Many(Vec<T>),
}

/// None, one or many of anything.
#[derive(Clone, Debug)]
pub enum AnyAmount<T> {
    /// None of the thing.
    Nothing,
    /// One of the thing.
    One(T),
    /// Many of the thing.
    Many(Vec<T>),
}

impl<T> Default for AnyAmount<T> {
    /// None of the thing.
    fn default() -> (r: AnyAmount<T>)
        ensures
            r is Nothing,
    {
        AnyAmount::Nothing
    }
}

/// The items of one or many, in order.
pub open spec fn one_or_many_items<T>(x: OneOrMany<T>) -> Seq<T> {
    match x {
        OneOrMany::One(t) => seq![t],
        OneOrMany::Many(v) => v@,
    }
}

/// The items of any amount, in order.
pub open spec fn any_amount_items<T>(x: AnyAmount<T>) -> Seq<T> {
    match x {
        AnyAmount::Nothing => Seq::empty(),
        AnyAmount::One(t) => seq![t],
        AnyAmount::Many(v) => v@,
    }
}

impl<T> OneOrMany<T> {
    /// The items, in order.
    pub fn into_vec(self) -> (r: Vec<T>)
        ensures
            r@ == one_or_many_items(self),
    {
        match self {
            OneOrMany::One(x) => {
                let mut v: Vec<T> = Vec::new();
                v.push(x);
                assert(v@ =~= seq![x]);
                v
            },
            OneOrMany::Many(v) => v,
        }
    }

    /// The same items, as any amount.
    pub fn to_any_amount(self) -> (r: AnyAmount<T>)
        ensures
            match self {
                OneOrMany::One(x) => r == AnyAmount::One(x),
                OneOrMany::Many(v) => r == AnyAmount::Many(v),
            },
    {
        match self {
            OneOrMany::One(x) => AnyAmount::One(x),
            OneOrMany::Many(v) => AnyAmount::Many(v),
        }
    }
}

impl<T> AnyAmount<T> {
    /// The items, in order.
    pub fn into_vec(self) -> (r: Vec<T>)
        ensures
            r@ == any_amount_items(self),
    {
        match self {
            AnyAmount::Nothing => Vec::new(),
            AnyAmount::One(x) => {
                let mut v: Vec<T> = Vec::new();
                v.push(x);
                assert(v@ =~= seq![x]);
                v
            },
            AnyAmount::Many(v) => v,
        }
    }

    /// The specifier this stands for: all for none, else the list of the
    /// items.
    pub fn to_specifier(self) -> (r: Specifier<T>)
        ensures
            self is Nothing ==> r is All,
            !(self is Nothing) ==> lists(r, any_amount_items(self)),
    {
        match self {
            AnyAmount::Nothing => Specifier::All,
            _ => Specifier::List(self.into_vec()),
        }
    }
}

/// A procedure for extracting values from an F06, as a script writes it.
#[derive(Clone, Debug)]
pub struct SimpleExtraction {
    /// Extraction name; unique in a script.
    pub name: String,
    /// Block types.
    pub blocks: AnyAmount<BlockType>,
    /// Subcase numbers.
    pub subcases: NumListRange,
    /// Grid point IDs.
    pub nodes: NumListRange,
    /// Element IDs.
    pub elements: NumListRange,
    /// Element types.
    pub element_types: AnyAmount<ElementType>,
    /// Degrees of freedom.
    pub dof: AnyAmount<Dof>,
    /// Raw column indices.
    pub columns: AnyAmount<usize>,
}

/// The grid points of some IDs.
pub open spec fn grid_refs(ids: Seq<usize>) -> Seq<GridPointRef> {
    ids.map_values(|g: usize| GridPointRef { gid: g })
}

/// The elements of some IDs, of unknown type.
pub open spec fn element_refs(ids: Seq<usize>) -> Seq<ElementRef> {
    ids.map_values(|e: usize| ElementRef { eid: e, etype: None })
}

/// The column indexes of some degrees of freedom.
pub open spec fn dof_indexes(dofs: Seq<Dof>) -> Seq<NasIndex> {
    dofs.map_values(|d: Dof| NasIndex::Dof(d))
}

/// Grid point references for the numbers of an input, all for no numbers.
fn grid_specifier(n: NumListRange) -> (r: Specifier<GridPointRef>)
    ensures
        n is Nothing ==> r is All,
        !(n is Nothing) ==> lists(r, grid_refs(num_list_values(n))),
{
    if let NumListRange::Nothing = n {
        return Specifier::All;
    }
    let ids = n.values();
    let mut v: Vec<GridPointRef> = Vec::new();
    let mut i: usize = 0;
    while i < ids.len()
        invariant
            i <= ids@.len(),
            v@ =~= grid_refs(ids@.take(i as int)),
        decreases ids@.len() - i,
    {
        v.push(GridPointRef { gid: ids[i] });
        i = i + 1;
        assert(ids@.take(i as int) =~= ids@.take(i - 1).push(ids@[i - 1]));
    }
    assert(ids@.take(ids@.len() as int) =~= ids@);
    Specifier::List(v)
}

/// Element references for the numbers of an input, all for no numbers.
fn element_specifier(n: NumListRange) -> (r: Specifier<ElementRef>)
    ensures
        n is Nothing ==> r is All,
        !(n is Nothing) ==> lists(r, element_refs(num_list_values(n))),
{
    if let NumListRange::Nothing = n {
        return Specifier::All;
    }
    let ids = n.values();
    let mut v: Vec<ElementRef> = Vec::new();
    let mut i: usize = 0;
    while i < ids.len()
        invariant
            i <= ids@.len(),
            v@ =~= element_refs(ids@.take(i as int)),
        decreases ids@.len() - i,
    {
        v.push(ElementRef::from_id(ids[i]));
        i = i + 1;
        assert(ids@.take(i as int) =~= ids@.take(i - 1).push(ids@[i - 1]));
    }
    assert(ids@.take(ids@.len() as int) =~= ids@);
    Specifier::List(v)
}

/// Column indexes for degrees of freedom, all for none.
fn dof_specifier(d: AnyAmount<Dof>) -> (r: Specifier<NasIndex>)
    ensures
        d is Nothing ==> r is All,
        !(d is Nothing) ==> lists(r, dof_indexes(any_amount_items(d))),
{
    if let AnyAmount::Nothing = d {
        return Specifier::All;
    }
    let dofs = d.into_vec();
    let mut v: Vec<NasIndex> = Vec::new();
    let mut i: usize = 0;
    while i < dofs.len()
        invariant
            i <= dofs@.len(),
            v@ =~= dof_indexes(dofs@.take(i as int)),
        decreases dofs@.len() - i,
    {
        v.push(NasIndex::Dof(dofs[i]));
        i = i + 1;
        assert(dofs@.take(i as int) =~= dofs@.take(i - 1).push(dofs@[i - 1]));
    }
    assert(dofs@.take(dofs@.len() as int) =~= dofs@);
    Specifier::List(v)
}

impl SimpleExtraction {
    /// The extraction a script's procedure stands for: every item that the
    /// script leaves out lets everything through; rows are not filtered and
    /// missing values are taken as zeroes.
    pub fn to_extraction(self) -> (r: Extraction)
        ensures
            self.subcases is Nothing ==> r.subcases is All,
            !(self.subcases is Nothing) ==> lists(r.subcases, num_list_values(self.subcases)),
            self.blocks is Nothing ==> r.block_types is All,
            !(self.blocks is Nothing) ==> lists(r.block_types, any_amount_items(self.blocks)),
            self.nodes is Nothing ==> r.grid_points is All,
            !(self.nodes is Nothing) ==> lists(r.grid_points, grid_refs(num_list_values(self.nodes))),
            self.elements is Nothing ==> r.elements is All,
            !(self.elements is Nothing) ==> lists(r.elements, element_refs(num_list_values(self.elements))),
            r.rows is All,
            self.dof is Nothing ==> r.cols is All,
            !(self.dof is Nothing) ==> lists(r.cols, dof_indexes(any_amount_items(self.dof))),
            self.columns is Nothing ==> r.raw_cols is All,
            !(self.columns is Nothing) ==> lists(r.raw_cols, any_amount_items(self.columns)),
            r.dxn == DisjunctionBehaviour::AssumeZeroes,
    {
        Extraction {
            subcases: self.subcases.to_specifier(),
            block_types: self.blocks.to_specifier(),
            grid_points: grid_specifier(self.nodes),
            elements: element_specifier(self.elements),
            rows: Specifier::All,
            cols: dof_specifier(self.dof),
            raw_cols: self.columns.to_specifier(),
            dxn: DisjunctionBehaviour::AssumeZeroes,
        }
    }
}

} // verus!
