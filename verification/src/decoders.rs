//! The decoders of the known data blocks: each turns the lines of a block
//! into rows of its data matrix.

use vstd::prelude::*;

use crate::blocks::{row_view, FinalBlock, LineResponse, RowBlock, ScalarKind};
use crate::blocktypes::BlockType;
use crate::columns::{
    bar_force_col_seq, bar_force_cols, bar_strain_col_seq, bar_strain_cols, bar_stress_col_seq,
    bar_stress_cols, dof_col_seq, dof_cols, plate_force_col_seq, plate_force_cols, plate_strain_col_seq,
    plate_strain_cols, plate_stress_col_seq, plate_stress_cols, rod_force_col_seq, rod_force_cols,
    rod_strain_col_seq, rod_strain_cols, rod_stress_col_seq, rod_stress_cols, single_force_col_seq,
    single_force_cols, single_strain_col_seq, single_strain_cols, single_stress_col_seq,
    single_stress_cols,
};
use crate::elements::ElementType;
use crate::flavour::{Flavour, Solver};
use crate::indexing::{
    ElementPoint, ElementRef, ElementSide, ElementSidedPoint, ForceOrigin, GridPointForceOrigin,
    GridPointRef, NasIndex, PointInElement,
};
use crate::indexmap::IndexMap;
use crate::numbers::{F06Number, NumberView, RealText};
use crate::util::{
    field_ints, field_naturals, field_reals, field_views, line_breakdown, line_fields, real_texts,
    FieldView, LineField,
};

verus! {

/// The reals of a line, by their text.
pub open spec fn reals_of(line: Seq<char>) -> Seq<Seq<char>> {
    field_reals(line_fields(line))
}

/// The integers of a line.
pub open spec fn ints_of(line: Seq<char>) -> Seq<isize> {
    field_ints(line_fields(line))
}

/// The non-negative integers of a line.
pub open spec fn nats_of(line: Seq<char>) -> Seq<usize> {
    field_naturals(line_fields(line))
}

/// A row of reals, by their text.
pub open spec fn real_row(v: Seq<Seq<char>>) -> Seq<NumberView> {
    v.map_values(|t: Seq<char>| NumberView::Real(t))
}

/// Turns reals into block values.
fn to_numbers(v: Vec<RealText>) -> (r: Vec<F06Number>)
    ensures
        row_view(r@) == real_row(real_texts(v@)),
{
    let mut r: Vec<F06Number> = Vec::new();
    let mut i: usize = 0;
    while i < v.len()
        invariant
            i <= v@.len(),
            row_view(r@) == real_row(real_texts(v@).take(i as int)),
        decreases v.len() - i,
    {
        let ghost before = row_view(r@);
        r.push(F06Number::Real(v[i].copy()));
        assert(row_view(r@) =~= before.push(NumberView::Real(v@[i as int]@)));
        assert(real_texts(v@).take(i + 1) =~= real_texts(v@).take(i as int).push(v@[i as int]@));
        i = i + 1;
        assert(row_view(r@) =~= real_row(real_texts(v@).take(i as int)));
    }
    assert(real_texts(v@).take(i as int) =~= real_texts(v@));
    r
}

/// The number of columns of each block type.
pub open spec fn block_width(bt: BlockType) -> int {
    match bt {
        BlockType::Displacements | BlockType::GridPointForceBalance | BlockType::SpcForces
        | BlockType::AppliedForces => 6,
        BlockType::Elas1Forces | BlockType::Elas1Stresses | BlockType::Elas1Strains => 1,
        BlockType::RodForces => 2,
        BlockType::RodStresses | BlockType::RodStrains => 4,
        BlockType::BarStresses | BlockType::BarStrains => 15,
        _ => 8,
    }
}

/// The column indexes of each block type, in canonical order.
pub open spec fn block_col_seq(bt: BlockType) -> Seq<NasIndex> {
    match bt {
        BlockType::Displacements | BlockType::GridPointForceBalance | BlockType::SpcForces
        | BlockType::AppliedForces => dof_col_seq(),
        BlockType::Elas1Forces => single_force_col_seq(),
        BlockType::Elas1Stresses => single_stress_col_seq(),
        BlockType::Elas1Strains => single_strain_col_seq(),
        BlockType::RodForces => rod_force_col_seq(),
        BlockType::RodStresses => rod_stress_col_seq(),
        BlockType::RodStrains => rod_strain_col_seq(),
        BlockType::BarForces => bar_force_col_seq(),
        BlockType::BarStresses => bar_stress_col_seq(),
        BlockType::BarStrains => bar_strain_col_seq(),
        BlockType::TriaForces | BlockType::QuadForces => plate_force_col_seq(),
        BlockType::TriaStresses | BlockType::QuadStresses => plate_stress_col_seq(),
        BlockType::TriaStrains | BlockType::QuadStrains => plate_strain_col_seq(),
    }
}

/// The column indexes of a block type, each at its place in canonical
/// order.
fn block_cols(bt: BlockType) -> (r: IndexMap)
    ensures
        crate::blocks::positions_ok(r, block_width(bt)),
        forall|i: int| 0 <= i < block_width(bt) ==> r@.contains_key(#[trigger] block_col_seq(bt)[i]) && r@[block_col_seq(bt)[i]] == i,
        forall|k: NasIndex| #[trigger] r@.contains_key(k) ==> block_col_seq(bt).contains(k),
{
    match bt {
        BlockType::Displacements | BlockType::GridPointForceBalance | BlockType::SpcForces
        | BlockType::AppliedForces => dof_cols(),
        BlockType::Elas1Forces => single_force_cols(),
        BlockType::Elas1Stresses => single_stress_cols(),
        BlockType::Elas1Strains => single_strain_cols(),
        BlockType::RodForces => rod_force_cols(),
        BlockType::RodStresses => rod_stress_cols(),
        BlockType::RodStrains => rod_strain_cols(),
        BlockType::BarForces => bar_force_cols(),
        BlockType::BarStresses => bar_stress_cols(),
        BlockType::BarStrains => bar_strain_cols(),
        BlockType::TriaForces | BlockType::QuadForces => plate_force_cols(),
        BlockType::TriaStresses | BlockType::QuadStresses => plate_stress_cols(),
        BlockType::TriaStrains | BlockType::QuadStrains => plate_strain_cols(),
    }
}

/// A decoder for a data block: the block type, the flavour of the file, the
/// rows decoded so far and what the decoder remembers between lines.
pub struct OpaqueDecoder {
    /// The block type this decoder is for.
    pub block_type: BlockType,
    /// The flavour of the file.
    pub flavour: Flavour,
    /// The rows decoded so far.
    pub data: RowBlock,
    /// The element type, gleaned from the header.
    pub etype: Option<ElementType>,
    /// The current grid point (grid point force balance).
    pub gpref: Option<GridPointRef>,
    /// The current row (quad stresses and strains).
    pub cur_sided: Option<ElementSidedPoint>,
    /// The current row (quad forces).
    pub cur_point: Option<PointInElement>,
    /// Does the block hold grid IDs (quad forces)?
    pub has_grid_id: bool,
    /// The current element ID (tria stresses and strains).
    pub eid: Option<usize>,
    /// The element ID and the values of the first line of a two-line row
    /// (bar stresses and strains).
    pub bar_first: Option<(usize, Vec<RealText>)>,
}

impl OpaqueDecoder {
    /// The data holds real values with the columns of the block type, in
    /// canonical order.
    pub open spec fn wf(&self) -> bool {
        &&& self.data.wf()
        &&& self.data.kind_of() == ScalarKind::Real
        &&& self.data.width() == block_width(self.block_type)
        &&& forall|i: int|
            0 <= i < block_width(self.block_type) ==> self.data.columns().contains_key(
                #[trigger] block_col_seq(self.block_type)[i],
            ) && self.data.columns()[block_col_seq(self.block_type)[i]] == i
        &&& forall|k: NasIndex| #[trigger] self.data.columns().contains_key(k) ==> block_col_seq(self.block_type).contains(k)
        &&& (self.bar_first matches Some((_, v)) ==> v@.len() == 8)
    }

    /// The rows decoded so far: by row index, the values in canonical column
    /// order.
    pub open spec fn rows(&self) -> Map<NasIndex, Seq<NumberView>> {
        self.data.contents()
    }

    /// The decoder state other than the rows is unchanged.
    pub open spec fn same_state(&self, other: &OpaqueDecoder) -> bool {
        &&& self.block_type == other.block_type
        &&& self.flavour == other.flavour
        &&& self.etype == other.etype
        &&& self.gpref == other.gpref
        &&& self.cur_sided == other.cur_sided
        &&& self.cur_point == other.cur_point
        &&& self.has_grid_id == other.has_grid_id
        &&& self.eid == other.eid
    }

    /// Initialises a decoder for a block type.
    pub fn new(block_type: BlockType, flavour: Flavour) -> (r: OpaqueDecoder)
        ensures
            r.wf(),
            r.block_type == block_type,
            r.flavour == flavour,
            r.rows() == Map::<NasIndex, Seq<NumberView>>::empty(),
            r.etype is None,
            r.gpref is None,
            r.cur_sided is None,
            r.cur_point is None,
            !r.has_grid_id,
            r.eid is None,
            r.bar_first is None,
    {
        let cols = block_cols(block_type);
        OpaqueDecoder {
            block_type,
            flavour,
            data: RowBlock::new(ScalarKind::Real, cols),
            etype: None,
            gpref: None,
            cur_sided: None,
            cur_point: None,
            has_grid_id: false,
            eid: None,
            bar_first: None,
        }
    }

    /// Returns the block type this decoder is for.
    pub fn block_type(&self) -> (r: BlockType)
        ensures
            r == self.block_type,
    {
        self.block_type
    }

    /// Extracts the data within.
    pub fn finalise(self, subcase: usize) -> (r: FinalBlock)
        requires
            self.wf(),
        ensures
            r.wf(),
            r.block_type == self.block_type,
            r.subcase == subcase,
            r.row_indexes@.dom() == self.rows().dom(),
            forall|row: NasIndex, i: int|
                0 <= i < block_width(self.block_type) ==> #[trigger] r.value_at(row, block_col_seq(self.block_type)[i])
                    == (if self.rows().contains_key(row) {
                    Some(self.rows()[row][i])
                } else {
                    None
                }),
            forall|row: NasIndex, c: NasIndex| !block_col_seq(self.block_type).contains(c) ==> #[trigger] r.value_at(row, c) is None,
    {
        let bt = self.block_type;
        let ghost d = self.data;
        let r = self.data.finalise(bt, subcase);
        proof {
            assert forall|row: NasIndex, c: NasIndex| !block_col_seq(bt).contains(c) implies #[trigger] r.value_at(row, c) is None by {
                if d.columns().contains_key(c) {
                    assert(block_col_seq(bt).contains(c));
                }
            }
        }
        r
    }

    /// Inserts a row of reals.
    fn put(&mut self, row_index: NasIndex, vals: Vec<RealText>)
        requires
            old(self).wf(),
            vals@.len() == block_width(old(self).block_type),
        ensures
            final(self).wf(),
            final(self).same_state(old(self)),
            final(self).bar_first == old(self).bar_first,
            final(self).rows() == old(self).rows().insert(row_index, real_row(real_texts(vals@))),
    {
        let row = to_numbers(vals);
        assert(row@.len() == row_view(row@).len());
        assert forall|i: int| 0 <= i < row@.len() implies crate::blocks::of_kind((#[trigger] row@[i])@, ScalarKind::Real) by {
            assert(row_view(row@)[i] == row@[i]@);
        }
        self.data.insert_raw(row_index, row);
    }
}

/// What a line gives a grid point vector block (displacements, forces of
/// single-point constraint, applied forces): six reals and a first integer,
/// the grid point ID, make a row; anything else is useless.
pub open spec fn grid_vector_line(line: Seq<char>) -> Option<(NasIndex, Seq<NumberView>)> {
    if reals_of(line).len() == 6 && ints_of(line).len() > 0 {
        Some((NasIndex::GridPointRef(GridPointRef { gid: ints_of(line)[0] as usize }), real_row(reals_of(line))))
    } else {
        None
    }
}

/// What a line gives a bar force block: eight reals and a first integer, the
/// element ID, make a row; eight reals and no integer abort.
pub open spec fn bar_force_line(line: Seq<char>) -> (Option<(NasIndex, Seq<NumberView>)>, LineResponse) {
    if reals_of(line).len() != 8 {
        (None, LineResponse::Useless)
    } else if ints_of(line).len() > 0 {
        (
            Some((NasIndex::ElementRef(ElementRef { eid: ints_of(line)[0] as usize, etype: Some(ElementType::Bar) }), real_row(reals_of(line)))),
            LineResponse::Data,
        )
    } else {
        (None, LineResponse::Abort)
    }
}

/// What a line gives a tria force block: eight reals and a first integer, the
/// element ID, make a row, and the line is reported as data; eight reals and
/// no integer abort.
pub open spec fn tria_force_line(line: Seq<char>, etype: Option<ElementType>) -> (Option<(NasIndex, Seq<NumberView>)>, LineResponse) {
    if reals_of(line).len() != 8 {
        (None, LineResponse::Useless)
    } else if ints_of(line).len() > 0 {
        (
            Some((NasIndex::ElementRef(ElementRef { eid: ints_of(line)[0] as usize, etype }), real_row(reals_of(line)))),
            LineResponse::Data,
        )
    } else {
        (None, LineResponse::Abort)
    }
}

/// The leading groups of an integer followed by `n` reals in some fields:
/// each an element ID with its reals.
pub open spec fn leading_groups(fs: Seq<FieldView>, n: nat) -> Seq<(isize, Seq<Seq<char>>)>
    decreases fs.len(),
{
    if fs.len() >= n + 1 && fs[0] is Integer && (forall|k: int| 1 <= k <= n ==> #[trigger] fs[k] is Real) {
        seq![(
            fs[0]->Integer_0,
            Seq::new(n, |k: int| fs[k + 1]->Real_0),
        )] + leading_groups(fs.skip((n + 1) as int), n)
    } else {
        Seq::empty()
    }
}

/// The rows some element groups make, for elements of a given type.
pub open spec fn element_rows(gs: Seq<(isize, Seq<Seq<char>>)>, etype: ElementType) -> Seq<(NasIndex, Seq<NumberView>)> {
    gs.map_values(
        |g: (isize, Seq<Seq<char>>)|
            (NasIndex::ElementRef(ElementRef { eid: g.0 as usize, etype: Some(etype) }), real_row(g.1)),
    )
}

/// The rows after inserting some rows in order.
pub open spec fn insert_all(m: Map<NasIndex, Seq<NumberView>>, rs: Seq<(NasIndex, Seq<NumberView>)>) -> Map<NasIndex, Seq<NumberView>>
    decreases rs.len(),
{
    if rs.len() == 0 {
        m
    } else {
        insert_all(m, rs.drop_last()).insert(rs.last().0, rs.last().1)
    }
}

/// The element type of the rows of a block of element groups.
pub open spec fn group_etype(bt: BlockType) -> ElementType {
    match bt {
        BlockType::RodForces => ElementType::Rod,
        _ => ElementType::Elas1,
    }
}

/// The number of reals following each element ID in a block of element
/// groups.
pub open spec fn group_size(bt: BlockType) -> nat {
    match bt {
        BlockType::RodForces => 2,
        _ => 1,
    }
}

impl OpaqueDecoder {
    /// Decodes a line of a grid point vector block.
    fn consume_grid_vector(&mut self, line: &Vec<char>, fs: &Vec<LineField>) -> (r: LineResponse)
        requires
            old(self).wf(),
            block_width(old(self).block_type) == 6,
            field_views(fs@) == line_fields(line@),
        ensures
            final(self).wf(),
            final(self).same_state(old(self)),
            final(self).bar_first == old(self).bar_first,
            match grid_vector_line(line@) {
                Some((k, v)) => r == LineResponse::Data && final(self).rows() == old(self).rows().insert(k, v),
                None => r == LineResponse::Useless && final(self).rows() == old(self).rows(),
            },
    {
        let vals = match crate::util::extract_reals(fs, 6) {
            Some(v) => v,
            None => return LineResponse::Useless,
        };
        match crate::util::nth_integer(fs, 0) {
            Some(gid) => {
                self.put(NasIndex::GridPointRef(GridPointRef { gid: gid as usize }), vals);
                LineResponse::Data
            },
            None => LineResponse::Useless,
        }
    }

    /// Decodes a line of a bar force or tria force block.
    fn consume_eight(&mut self, line: &Vec<char>, fs: &Vec<LineField>) -> (r: LineResponse)
        requires
            old(self).wf(),
            old(self).block_type is BarForces || old(self).block_type is TriaForces,
            field_views(fs@) == line_fields(line@),
        ensures
            final(self).wf(),
            final(self).same_state(old(self)),
            final(self).bar_first == old(self).bar_first,
            ({
                let (ins, resp) = if old(self).block_type is BarForces {
                    bar_force_line(line@)
                } else {
                    tria_force_line(line@, old(self).etype)
                };
                &&& r == resp
                &&& match ins {
                    Some((k, v)) => final(self).rows() == old(self).rows().insert(k, v),
                    None => final(self).rows() == old(self).rows(),
                }
            }),
    {
        let vals = match crate::util::extract_reals(fs, 8) {
            Some(v) => v,
            None => return LineResponse::Useless,
        };
        let is_bar = match self.block_type {
            BlockType::BarForces => true,
            _ => false,
        };
        match crate::util::nth_integer(fs, 0) {
            Some(eid) => {
                if is_bar {
                    self.put(NasIndex::ElementRef(ElementRef { eid: eid as usize, etype: Some(ElementType::Bar) }), vals);
                    LineResponse::Data
                } else {
                    let et = self.etype;
                    self.put(NasIndex::ElementRef(ElementRef { eid: eid as usize, etype: et }), vals);
                    LineResponse::Data
                }
            },
            None => LineResponse::Abort,
        }
    }

    /// Decodes a line of a block of element groups (ELAS1 forces, stresses
    /// and strains; rod forces): leading groups of an element ID and its
    /// reals.
    fn consume_groups(&mut self, line: &Vec<char>, fs: &Vec<LineField>) -> (r: LineResponse)
        requires
            old(self).wf(),
            old(self).block_type is Elas1Forces || old(self).block_type is Elas1Stresses
                || old(self).block_type is Elas1Strains || old(self).block_type is RodForces,
            field_views(fs@) == line_fields(line@),
        ensures
            final(self).wf(),
            final(self).same_state(old(self)),
            final(self).bar_first == old(self).bar_first,
            ({
                let gs = leading_groups(line_fields(line@), group_size(old(self).block_type));
                &&& r == (if gs.len() > 0 { LineResponse::Data } else { LineResponse::Useless })
                &&& final(self).rows() == insert_all(old(self).rows(), element_rows(gs, group_etype(old(self).block_type)))
            }),
    {
        let is_rod = match self.block_type {
            BlockType::RodForces => true,
            _ => false,
        };
        let n: usize = if is_rod { 2 } else { 1 };
        let et = if is_rod { ElementType::Rod } else { ElementType::Elas1 };
        let ghost fv = field_views(fs@);
        let ghost gs_all = leading_groups(fv, n as nat);
        let ghost start = self.rows();
        let mut pos: usize = 0;
        let mut found: usize = 0;
        proof {
            assert(fv.skip(0) =~= fv);
        }
        loop
            invariant
                self.wf(),
                self.same_state(old(self)),
                self.bar_first == old(self).bar_first,
                n == group_size(self.block_type),
                n == block_width(self.block_type),
                et == group_etype(self.block_type),
                n == 1 || n == 2,
                fv == field_views(fs@),
                pos <= fs@.len(),
                found <= pos,
                gs_all == leading_groups(fv, n as nat),
                found <= gs_all.len(),
                gs_all == gs_all.take(found as int) + leading_groups(fv.skip(pos as int), n as nat),
                self.rows() == insert_all(start, element_rows(gs_all.take(found as int), et)),
            ensures
                leading_groups(fv.skip(pos as int), n as nat).len() == 0,
            decreases fs.len() - pos,
        {
            let ghost rest = fv.skip(pos as int);
            if fs.len() - pos <= n {
                assert(leading_groups(rest, n as nat) =~= Seq::<(isize, Seq<Seq<char>>)>::empty());
                break;
            }
            let eid = match &fs[pos] {
                LineField::Integer(e) => *e,
                _ => {
                    assert(!(rest[0] is Integer));
                    assert(leading_groups(rest, n as nat) =~= Seq::<(isize, Seq<Seq<char>>)>::empty());
                    break;
                },
            };
            let mut vals: Vec<RealText> = Vec::new();
            let mut k: usize = 0;
            let mut ok = true;
            assert(fs.len() == fs@.len());
            while k < n
                invariant
                    n == 1 || n == 2,
                    pos <= fs@.len(),
                    fs@.len() <= usize::MAX,
                    fs@.len() - pos > n,
                    fv == field_views(fs@),
                    rest == fv.skip(pos as int),
                    k <= n,
                    vals@.len() == k,
                    ok ==> forall|j: int| 1 <= j <= k ==> #[trigger] rest[j] is Real,
                    ok ==> forall|j: int| 0 <= j < k ==> #[trigger] real_texts(vals@)[j] == rest[j + 1]->Real_0,
                    !ok ==> exists|j: int| 1 <= j <= n && !(#[trigger] rest[j] is Real),
                decreases n - k,
            {
                match &fs[pos + 1 + k] {
                    LineField::Real(x) => {
                        let ghost before = real_texts(vals@);
                        vals.push(x.copy());
                        assert(real_texts(vals@) =~= before.push(x@));
                        assert(rest[k + 1] == fs@[pos + 1 + k]@);
                    },
                    _ => {
                        ok = false;
                        assert(rest[k + 1] == fs@[pos + 1 + k]@);
                        assert(!(rest[k + 1] is Real));
                        vals.push(RealText::zero());
                    },
                }
                k = k + 1;
            }
            if !ok {
                assert(leading_groups(rest, n as nat) =~= Seq::<(isize, Seq<Seq<char>>)>::empty());
                break;
            }
            proof {
                let g = (eid, Seq::new(n as nat, |j: int| rest[j + 1]->Real_0));
                assert(real_texts(vals@) =~= g.1);
                assert(leading_groups(rest, n as nat) == seq![g] + leading_groups(rest.skip(n + 1), n as nat));
                assert(rest.skip(n + 1) =~= fv.skip(pos + n + 1));
                assert(gs_all[found as int] == g);
                assert(gs_all.take(found + 1) =~= gs_all.take(found as int).push(g));
                assert(gs_all =~= gs_all.take(found + 1) + leading_groups(fv.skip(pos + n + 1), n as nat));
                assert(element_rows(gs_all.take(found + 1), et).drop_last() =~= element_rows(gs_all.take(found as int), et));
            }
            self.put(NasIndex::ElementRef(ElementRef { eid: eid as usize, etype: Some(et) }), vals);
            pos = pos + n + 1;
            found = found + 1;
        }
        proof {
            assert(gs_all.take(found as int) =~= gs_all);
        }
        if found > 0 {
            LineResponse::Data
        } else {
            LineResponse::Useless
        }
    }
}


/// A group of a rod stress line that stops the line: one that does not
/// hold two, three or four reals.
pub open spec fn rod_bad(v: Seq<Seq<char>>) -> bool {
    !(v.len() == 2 || v.len() == 3 || v.len() == 4)
}

/// The real zero, by its text.
pub open spec fn zero_text() -> Seq<char> {
    seq!['0', '.', '0']
}

/// The row a group of a rod stress line makes: two reals are the axial
/// stress and the torsional stress; of three, a first zero is the axial
/// stress followed by the torsional stress and its margin, else the axial
/// stress and its margin followed by the torsional stress; four are all the
/// columns.
pub open spec fn rod_row(v: Seq<Seq<char>>) -> Seq<NumberView> {
    if v.len() == 2 {
        real_row(seq![v[0], zero_text(), v[1], zero_text()])
    } else if v.len() == 3 {
        if crate::numbers::real_is_zero(v[0]) {
            real_row(seq![v[0], zero_text(), v[1], v[2]])
        } else {
            real_row(seq![v[0], v[1], v[2], zero_text()])
        }
    } else {
        real_row(v)
    }
}

/// Is the index a rod element whose ID is a group of the line, below the
/// limit?
pub open spec fn rod_target(x: NasIndex, m: Map<usize, Seq<Seq<char>>>, lim: int) -> bool {
    x matches NasIndex::ElementRef(e) && e.etype == Some(ElementType::Rod) && m.contains_key(e.eid) && e.eid < lim
}

/// The rows after putting in the row of each group below the limit.
pub open spec fn rod_update(rows: Map<NasIndex, Seq<NumberView>>, m: Map<usize, Seq<Seq<char>>>, lim: int) -> Map<
    NasIndex,
    Seq<NumberView>,
> {
    Map::new(
        |x: NasIndex| rows.contains_key(x) || rod_target(x, m, lim),
        |x: NasIndex|
            if rod_target(x, m, lim) {
                rod_row(m[x->ElementRef_0.eid])
            } else {
                rows[x]
            },
    )
}

impl OpaqueDecoder {
    /// Decodes a line of a rod stress or strain block: groups of an element
    /// ID and its reals, taken in increasing order of the ID until one with
    /// no reals (the line is useless) or with one or more than four
    /// (abort).
    fn consume_rod_stresses(&mut self, line: &Vec<char>, fs: &Vec<LineField>) -> (r: LineResponse)
        requires
            old(self).wf(),
            old(self).block_type is RodStresses || old(self).block_type is RodStrains,
            field_views(fs@) == line_fields(line@),
        ensures
            final(self).wf(),
            final(self).same_state(old(self)),
            final(self).bar_first == old(self).bar_first,
            ({
                let m = crate::util::int_pattern_map(line_fields(line@));
                &&& (forall|k: usize| m.contains_key(k) ==> !rod_bad(#[trigger] m[k])) ==> {
                    &&& r == (if exists|k: usize| #[trigger] m.contains_key(k) {
                        LineResponse::Data
                    } else {
                        LineResponse::Useless
                    })
                    &&& final(self).rows() == rod_update(old(self).rows(), m, usize::MAX + 1)
                }
                &&& forall|b: usize|
                    #![trigger m[b]]
                    m.contains_key(b) && rod_bad(m[b]) && (forall|k: usize| k < b && m.contains_key(k) ==> !rod_bad(#[trigger] m[k]))
                        ==> {
                        &&& r == (if m[b].len() == 0 {
                            LineResponse::Useless
                        } else {
                            LineResponse::Abort
                        })
                        &&& final(self).rows() == rod_update(old(self).rows(), m, b as int)
                    }
            }),
    {
        let groups = crate::util::int_pattern(fs);
        let ghost m = crate::util::int_pattern_map(field_views(fs@));
        let ghost g = groups@;
        let ghost start = self.rows();
        let mut i: usize = 0;
        proof {
            assert(start =~= rod_update(start, m, if g.len() > 0 { g[0].0 as int } else { usize::MAX + 1 }));
        }
        while i < groups.len()
            invariant
                self.wf(),
                self.same_state(old(self)),
                self.bar_first == old(self).bar_first,
                self.block_type is RodStresses || self.block_type is RodStrains,
                g == groups@,
                crate::util::groups_sorted(g),
                crate::util::groups_map(g) == m,
                m == crate::util::int_pattern_map(line_fields(line@)),
                start == old(self).rows(),
                i <= g.len(),
                forall|j: int| 0 <= j < i ==> !rod_bad(real_texts((#[trigger] g[j]).1@)),
                self.rows() == rod_update(start, m, if i < g.len() { g[i as int].0 as int } else { usize::MAX + 1 }),
            decreases groups.len() - i,
        {
            let k = groups[i].0;
            let fl = &groups[i].1;
            let ghost v = real_texts(fl@);
            proof {
                crate::util::lemma_groups_unique_pub(g, i as int);
            }
            let n = fl.len();
            if n != 2 && n != 3 && n != 4 {
                proof {
                    self.lemma_rod_stop(m, g, i as int, start, line@);
                }
                if n == 0 {
                    return LineResponse::Useless;
                } else {
                    return LineResponse::Abort;
                }
            }
            let mut vals: Vec<RealText> = Vec::new();
            if n == 2 {
                vals.push(fl[0].copy());
                vals.push(RealText::zero());
                vals.push(fl[1].copy());
                vals.push(RealText::zero());
                assert(real_texts(vals@) =~= seq![v[0], zero_text(), v[1], zero_text()]);
            } else if n == 3 {
                if crate::numbers::is_zero_real(fl[0].text.as_slice()) {
                    vals.push(fl[0].copy());
                    vals.push(RealText::zero());
                    vals.push(fl[1].copy());
                    vals.push(fl[2].copy());
                    assert(real_texts(vals@) =~= seq![v[0], zero_text(), v[1], v[2]]);
                } else {
                    vals.push(fl[0].copy());
                    vals.push(fl[1].copy());
                    vals.push(fl[2].copy());
                    vals.push(RealText::zero());
                    assert(real_texts(vals@) =~= seq![v[0], v[1], v[2], zero_text()]);
                }
            } else {
                vals.push(fl[0].copy());
                vals.push(fl[1].copy());
                vals.push(fl[2].copy());
                vals.push(fl[3].copy());
                assert(real_texts(vals@) =~= v);
            }
            let ghost before = self.rows();
            self.put(NasIndex::ElementRef(ElementRef { eid: k, etype: Some(ElementType::Rod) }), vals);
            proof {
                lemma_rod_step(m, g, i as int, start, before);
            }
            i = i + 1;
        }
        proof {
            assert forall|b: usize| #![trigger m[b]] !(m.contains_key(b) && rod_bad(m[b])) by {
                if m.contains_key(b) {
                    let j = choose|j: int| 0 <= j < g.len() && #[trigger] g[j].0 == b;
                    crate::util::lemma_groups_unique_pub(g, j);
                }
            }
            if exists|k: usize| #[trigger] m.contains_key(k) {
                assert(g.len() > 0);
            } else {
                if g.len() > 0 {
                    crate::util::lemma_groups_unique_pub(g, 0);
                }
            }
        }
        if groups.len() > 0 {
            LineResponse::Data
        } else {
            LineResponse::Useless
        }
    }

    /// When the group at place `i` stops the line, it is the first group
    /// (by ID) that does.
    proof fn lemma_rod_stop(
        &self,
        m: Map<usize, Seq<Seq<char>>>,
        g: Seq<(usize, Vec<RealText>)>,
        i: int,
        start: Map<NasIndex, Seq<NumberView>>,
        line: Seq<char>,
    )
        requires
            crate::util::groups_sorted(g),
            crate::util::groups_map(g) == m,
            0 <= i < g.len(),
            rod_bad(real_texts(g[i].1@)),
            forall|j: int| 0 <= j < i ==> !rod_bad(real_texts((#[trigger] g[j]).1@)),
        ensures
            forall|b: usize|
                #![trigger m[b]]
                m.contains_key(b) && rod_bad(m[b]) && (forall|k: usize| k < b && m.contains_key(k) ==> !rod_bad(#[trigger] m[k]))
                    ==> b == g[i].0,
            !(forall|k: usize| m.contains_key(k) ==> !rod_bad(#[trigger] m[k])),
    {
        crate::util::lemma_groups_unique_pub(g, i);
        let b0 = g[i].0;
        assert forall|b: usize|
            #![trigger m[b]]
            m.contains_key(b) && rod_bad(m[b]) && (forall|k: usize| k < b && m.contains_key(k) ==> !rod_bad(#[trigger] m[k]))
                implies b == b0 by {
            let j = choose|j: int| 0 <= j < g.len() && #[trigger] g[j].0 == b;
            crate::util::lemma_groups_unique_pub(g, j);
            if b < b0 {
                assert(g[j].0 < g[i].0);
                if j >= i {
                    if j > i {
                        assert(g[i].0 < g[j].0);
                    }
                }
            } else if b > b0 {
                assert(!rod_bad(m[b0]));
            }
        }
        assert(m.contains_key(b0) && rod_bad(m[b0]));
    }
}

/// Putting in the row of the group at place `i` moves the limit to the next
/// group.
proof fn lemma_rod_step(
    m: Map<usize, Seq<Seq<char>>>,
    g: Seq<(usize, Vec<RealText>)>,
    i: int,
    start: Map<NasIndex, Seq<NumberView>>,
    before: Map<NasIndex, Seq<NumberView>>,
)
    requires
        crate::util::groups_sorted(g),
        crate::util::groups_map(g) == m,
        0 <= i < g.len(),
        before == rod_update(start, m, g[i].0 as int),
    ensures
        before.insert(
            NasIndex::ElementRef(ElementRef { eid: g[i].0, etype: Some(ElementType::Rod) }),
            rod_row(real_texts(g[i].1@)),
        ) == rod_update(start, m, if i + 1 < g.len() { g[i + 1].0 as int } else { usize::MAX + 1 }),
{
    crate::util::lemma_groups_unique_pub(g, i);
    let k = g[i].0;
    let lim2 = if i + 1 < g.len() { g[i + 1].0 as int } else { usize::MAX + 1 };
    let after = rod_update(start, m, lim2);
    let x0 = NasIndex::ElementRef(ElementRef { eid: k, etype: Some(ElementType::Rod) });
    assert forall|x: NasIndex| #[trigger] rod_target(x, m, lim2) == (rod_target(x, m, k as int) || x == x0) by {
        if rod_target(x, m, lim2) && !rod_target(x, m, k as int) {
            let e = x->ElementRef_0;
            let j = choose|j: int| 0 <= j < g.len() && #[trigger] g[j].0 == e.eid;
            if j < i {
                assert(g[j].0 < g[i].0);
            } else if j > i {
                if j > i + 1 {
                    assert(g[i + 1].0 < g[j].0);
                }
            }
            assert(j == i);
        }
        if x == x0 {
            if i + 1 < g.len() {
                assert(g[i].0 < g[i + 1].0);
            }
        }
    }
    assert(before.insert(x0, rod_row(real_texts(g[i].1@))) =~= after);
}


/// The first `n` reals of a line make a row.
pub open spec fn first_reals(line: Seq<char>, n: int) -> Seq<NumberView> {
    real_row(reals_of(line).take(n))
}

/// What a line does to a tria stress (or strain) block: with eight reals or
/// more, the element ID is the first natural (MYSTRAN) or the second one
/// (Simcenter), else the current one; the row is the element with its side
/// (top when the line holds no natural, bottom otherwise). Gives the new
/// element ID, the row to put in and the response.
pub open spec fn tria_stress_step(solver: Option<Solver>, eid: Option<usize>, etype: Option<ElementType>, line: Seq<char>) -> (
    Option<usize>,
    Option<(NasIndex, Seq<NumberView>)>,
    LineResponse,
) {
    let ns = nats_of(line);
    if reals_of(line).len() < 8 {
        (eid, None, LineResponse::Useless)
    } else {
        match solver {
            None => (eid, None, LineResponse::BadFlavour),
            Some(s) => {
                let pick = if s is Mystran { crate::util::nth(ns, 0) } else { crate::util::nth(ns, 1) };
                let e2 = if pick is Some { pick } else { eid };
                match e2 {
                    Some(e) => (
                        e2,
                        Some((
                            NasIndex::ElementSidedPoint(ElementSidedPoint {
                                element: ElementRef { eid: e, etype },
                                point: ElementPoint::Anywhere,
                                side: if ns.len() == 0 { ElementSide::Top } else { ElementSide::Bottom },
                            }),
                            first_reals(line, 8),
                        )),
                        LineResponse::Data,
                    ),
                    None => (None, None, LineResponse::Abort),
                }
            },
        }
    }
}

/// The element ID of a quad stress line with row information: the first
/// field if it is an integer (MYSTRAN) or the second integer (Simcenter),
/// else that of the current row.
pub open spec fn quad_stress_eid(s: Solver, cur: Option<ElementSidedPoint>, line: Seq<char>) -> Option<usize> {
    let fs = line_fields(line);
    let is = ints_of(line);
    let own = if s is Mystran {
        if fs.len() > 0 && fs[0] is Integer { Some(fs[0]->Integer_0 as usize) } else { None }
    } else {
        if is.len() > 1 { Some(is[1] as usize) } else { None }
    };
    if own is Some {
        own
    } else {
        match cur {
            Some(c) => Some(c.element.eid),
            None => None,
        }
    }
}

/// Does a line name the centroid (`CENTER` for MYSTRAN, `CEN/4` for
/// Simcenter)?
pub open spec fn names_centroid(s: Solver, line: Seq<char>) -> bool {
    if s is Mystran {
        crate::text::seq_contains(line, "CENTER"@)
    } else {
        crate::text::seq_contains(line, "CEN/4"@)
    }
}

/// What a line does to a quad stress (or strain) block: with eight reals or
/// more, a line without integers continues the current row on the other
/// side; a line with integers starts a row at the bottom side, of the
/// centroid or of the corner given by the last integer. Gives the new
/// current row, the row to put in and the response.
pub open spec fn quad_stress_step(solver: Option<Solver>, cur: Option<ElementSidedPoint>, etype: Option<ElementType>, line: Seq<char>) -> (
    Option<ElementSidedPoint>,
    Option<(NasIndex, Seq<NumberView>)>,
    LineResponse,
) {
    let is = ints_of(line);
    if reals_of(line).len() < 8 {
        (cur, None, LineResponse::Useless)
    } else {
        match solver {
            None => (cur, None, LineResponse::BadFlavour),
            Some(s) => {
                let next = if is.len() == 0 {
                    match cur {
                        Some(c) => Some(ElementSidedPoint { element: c.element, point: c.point, side: crate::indexing::opposite_side(c.side) }),
                        None => None,
                    }
                } else {
                    let point = if names_centroid(s, line) {
                        ElementPoint::Centroid
                    } else {
                        ElementPoint::Corner(GridPointRef { gid: is.last() as usize })
                    };
                    match quad_stress_eid(s, cur, line) {
                        Some(e) => Some(ElementSidedPoint { element: ElementRef { eid: e, etype }, point, side: ElementSide::Bottom }),
                        None => None,
                    }
                };
                match next {
                    Some(n) => (next, Some((NasIndex::ElementSidedPoint(n), first_reals(line, 8))), LineResponse::Data),
                    None => (cur, None, LineResponse::Abort),
                }
            },
        }
    }
}

impl OpaqueDecoder {
    /// Decodes a line of a tria stress or strain block.
    fn consume_tria_stresses(&mut self, line: &Vec<char>, fs: &Vec<LineField>) -> (r: LineResponse)
        requires
            old(self).wf(),
            old(self).block_type is TriaStresses || old(self).block_type is TriaStrains,
            field_views(fs@) == line_fields(line@),
        ensures
            final(self).wf(),
            final(self).block_type == old(self).block_type,
            final(self).flavour == old(self).flavour,
            final(self).etype == old(self).etype,
            final(self).gpref == old(self).gpref,
            final(self).cur_sided == old(self).cur_sided,
            final(self).cur_point == old(self).cur_point,
            final(self).has_grid_id == old(self).has_grid_id,
            final(self).bar_first == old(self).bar_first,
            ({
                let (e2, ins, resp) = tria_stress_step(old(self).flavour.solver, old(self).eid, old(self).etype, line@);
                &&& r == resp
                &&& final(self).eid == e2
                &&& match ins {
                    Some((k, v)) => final(self).rows() == old(self).rows().insert(k, v),
                    None => final(self).rows() == old(self).rows(),
                }
            }),
    {
        let vals = match crate::util::lax_reals(fs, 8) {
            Some(v) => v,
            None => return LineResponse::Useless,
        };
        let i0 = crate::util::nth_natural(fs, 0);
        let i1 = crate::util::nth_natural(fs, 1);
        let pick = match self.flavour.solver {
            Some(Solver::Mystran) => i0,
            Some(Solver::Simcenter) => i1,
            None => return LineResponse::BadFlavour,
        };
        self.eid = match pick {
            Some(x) => Some(x),
            None => self.eid,
        };
        match self.eid {
            Some(eid) => {
                let side = if i0.is_none() { ElementSide::Top } else { ElementSide::Bottom };
                let esp = ElementSidedPoint {
                    element: ElementRef { eid, etype: self.etype },
                    point: ElementPoint::Anywhere,
                    side,
                };
                self.put(NasIndex::ElementSidedPoint(esp), vals);
                LineResponse::Data
            },
            None => LineResponse::Abort,
        }
    }

    /// Decodes a line of a quad stress or strain block.
    fn consume_quad_stresses(&mut self, line: &Vec<char>, fs: &Vec<LineField>) -> (r: LineResponse)
        requires
            old(self).wf(),
            old(self).block_type is QuadStresses || old(self).block_type is QuadStrains,
            field_views(fs@) == line_fields(line@),
        ensures
            final(self).wf(),
            final(self).block_type == old(self).block_type,
            final(self).flavour == old(self).flavour,
            final(self).etype == old(self).etype,
            final(self).gpref == old(self).gpref,
            final(self).eid == old(self).eid,
            final(self).cur_point == old(self).cur_point,
            final(self).has_grid_id == old(self).has_grid_id,
            final(self).bar_first == old(self).bar_first,
            ({
                let (c2, ins, resp) = quad_stress_step(old(self).flavour.solver, old(self).cur_sided, old(self).etype, line@);
                &&& r == resp
                &&& final(self).cur_sided == c2
                &&& match ins {
                    Some((k, v)) => final(self).rows() == old(self).rows().insert(k, v),
                    None => final(self).rows() == old(self).rows(),
                }
            }),
    {
        let vals = match crate::util::lax_reals(fs, 8) {
            Some(v) => v,
            None => return LineResponse::Useless,
        };
        let s = match self.flavour.solver {
            Some(s) => s,
            None => return LineResponse::BadFlavour,
        };
        let ints = crate::util::ints_in(fs);
        let next = if ints.len() == 0 {
            match self.cur_sided {
                Some(c) => {
                    let mut n = c;
                    n.flip_side();
                    Some(n)
                },
                None => None,
            }
        } else {
            let center = match s {
                Solver::Mystran => crate::text::contains_str(line, "CENTER"),
                Solver::Simcenter => crate::text::contains_str(line, "CEN/4"),
            };
            let point = if center {
                ElementPoint::Centroid
            } else {
                ElementPoint::Corner(GridPointRef { gid: ints[ints.len() - 1] as usize })
            };
            let own = match s {
                Solver::Mystran => {
                    if fs.len() > 0 {
                        match &fs[0] {
                            LineField::Integer(e) => Some(*e as usize),
                            _ => None,
                        }
                    } else {
                        None
                    }
                },
                Solver::Simcenter => if ints.len() > 1 { Some(ints[1] as usize) } else { None },
            };
            let eid = match own {
                Some(e) => Some(e),
                None => match self.cur_sided {
                    Some(c) => Some(c.element.eid),
                    None => None,
                },
            };
            match eid {
                Some(e) => Some(ElementSidedPoint { element: ElementRef { eid: e, etype: self.etype }, point, side: ElementSide::Bottom }),
                None => None,
            }
        };
        match next {
            Some(n) => {
                self.cur_sided = Some(n);
                self.put(NasIndex::ElementSidedPoint(n), vals);
                LineResponse::Data
            },
            None => LineResponse::Abort,
        }
    }
}


/// What a line does to a quad force block: `GRID-ID` tells that the block
/// holds grid IDs; eight reals make a row for the element of the first
/// integer at the centroid (MYSTRAN), or (Simcenter) with grid IDs for the
/// point of the line and the element of the second integer or the current
/// one, without for the centroid of the element of the last integer. Gives
/// the new current row, whether the block holds grid IDs, the row to put in
/// and the response.
pub open spec fn quad_force_step(
    solver: Option<Solver>,
    cur: Option<PointInElement>,
    etype: Option<ElementType>,
    has_grid_id: bool,
    line: Seq<char>,
) -> (Option<PointInElement>, bool, Option<(NasIndex, Seq<NumberView>)>, LineResponse) {
    let is = ints_of(line);
    if crate::text::seq_contains(line, "GRID-ID"@) {
        (cur, true, None, LineResponse::Metadata)
    } else if reals_of(line).len() != 8 {
        (cur, has_grid_id, None, LineResponse::Useless)
    } else {
        match solver {
            None => (cur, has_grid_id, None, LineResponse::BadFlavour),
            Some(Solver::Mystran) => if is.len() > 0 {
                let n = PointInElement { element: ElementRef { eid: is[0] as usize, etype }, point: ElementPoint::Centroid };
                (Some(n), has_grid_id, Some((NasIndex::PointInElement(n), real_row(reals_of(line)))), LineResponse::Data)
            } else {
                (None, has_grid_id, None, LineResponse::Abort)
            },
            Some(Solver::Simcenter) => if has_grid_id {
                if !crate::text::seq_contains(line, "CEN/4"@) && is.len() == 0 {
                    (cur, has_grid_id, None, LineResponse::Abort)
                } else {
                    let point = if crate::text::seq_contains(line, "CEN/4"@) {
                        ElementPoint::Centroid
                    } else {
                        ElementPoint::Corner(GridPointRef { gid: is.last() as usize })
                    };
                    let eid = if is.len() > 1 {
                        Some(is[1] as usize)
                    } else {
                        match cur {
                            Some(c) => Some(c.element.eid),
                            None => None,
                        }
                    };
                    match eid {
                        Some(e) => {
                            let n = PointInElement { element: ElementRef { eid: e, etype }, point };
                            (Some(n), has_grid_id, Some((NasIndex::PointInElement(n), real_row(reals_of(line)))), LineResponse::Data)
                        },
                        None => (cur, has_grid_id, None, LineResponse::Abort),
                    }
                }
            } else if is.len() > 0 {
                let n = PointInElement { element: ElementRef { eid: is.last() as usize, etype }, point: ElementPoint::Centroid };
                (Some(n), has_grid_id, Some((NasIndex::PointInElement(n), real_row(reals_of(line)))), LineResponse::Data)
            } else {
                (cur, has_grid_id, None, LineResponse::Abort)
            },
        }
    }
}

/// The origin of the force on a MYSTRAN grid point force balance line.
pub open spec fn mystran_force_origin(line: Seq<char>) -> Option<ForceOrigin> {
    if crate::text::seq_contains(line, "APPLIED FORCE"@) {
        Some(ForceOrigin::Load)
    } else if crate::text::seq_contains(line, "SPC FORCE"@) {
        Some(ForceOrigin::SinglePointConstraint)
    } else if crate::text::seq_contains(line, "MPC FORCE"@) {
        Some(ForceOrigin::MultiPointConstraint)
    } else if crate::text::seq_contains(line, "ELEM"@) {
        if ints_of(line).len() > 0 {
            Some(ForceOrigin::Element {
                elem: ElementRef {
                    eid: ints_of(line)[0] as usize,
                    etype: crate::util::nth(crate::util::field_etypes(line_fields(line)), 0),
                },
            })
        } else {
            None
        }
    } else {
        None
    }
}

/// The grid point of a Simcenter grid point force balance line: the first
/// integer, or the second when the first is zero.
pub open spec fn simcenter_grid_point(line: Seq<char>) -> Option<GridPointRef> {
    let is = ints_of(line);
    if is.len() > 1 && is[0] as usize == 0 {
        Some(GridPointRef { gid: is[1] as usize })
    } else if is.len() > 0 {
        Some(GridPointRef { gid: is[0] as usize })
    } else {
        None
    }
}

/// The origin of the force on a Simcenter grid point force balance line;
/// for an element, the last integer is its ID and the grid point must be
/// known.
pub open spec fn simcenter_force_origin(line: Seq<char>, gp: Option<GridPointRef>) -> Option<ForceOrigin> {
    let is = ints_of(line);
    let ets = crate::util::field_etypes(line_fields(line));
    if crate::text::seq_contains(line, "APP-LOAD"@) {
        Some(ForceOrigin::Load)
    } else if crate::text::seq_contains(line, "F-OF-SPC"@) {
        Some(ForceOrigin::SinglePointConstraint)
    } else if crate::text::seq_contains(line, "F-OF-MPC"@) {
        Some(ForceOrigin::MultiPointConstraint)
    } else if gp is Some && is.len() > 0 && ets.len() > 0 {
        Some(ForceOrigin::Element { elem: ElementRef { eid: is.last() as usize, etype: Some(ets[0]) } })
    } else {
        None
    }
}

/// What a line does to a grid point force balance block: a `FORCE BALANCE
/// FOR GRID POINT` line sets the grid point; lines of totals are useless; a
/// line with a force origin and six reals makes the row of the grid point
/// and the origin. Gives the new grid point, the row to put in and the
/// response.
pub open spec fn force_balance_step(solver: Option<Solver>, gp: Option<GridPointRef>, line: Seq<char>) -> (
    Option<GridPointRef>,
    Option<(NasIndex, Seq<NumberView>)>,
    LineResponse,
) {
    if crate::text::seq_contains(line, "FORCE BALANCE FOR GRID POINT"@) {
        (
            match crate::util::nth(ints_of(line), 0) {
                Some(x) => Some(GridPointRef { gid: x as usize }),
                None => None,
            },
            None,
            LineResponse::Metadata,
        )
    } else if crate::text::seq_contains(line, "*TOTALS*"@) {
        (gp, None, LineResponse::Useless)
    } else {
        match solver {
            None => (gp, None, LineResponse::BadFlavour),
            Some(s) => {
                let g2 = if s is Mystran { gp } else { simcenter_grid_point(line) };
                let fo = if s is Mystran { mystran_force_origin(line) } else { simcenter_force_origin(line, g2) };
                match fo {
                    None => (g2, None, LineResponse::Useless),
                    Some(f) => match g2 {
                        None => (g2, None, LineResponse::Useless),
                        Some(g) => if reals_of(line).len() == 6 {
                            (
                                g2,
                                Some((
                                    NasIndex::GridPointForceOrigin(GridPointForceOrigin { grid_point: g, force_origin: f }),
                                    real_row(reals_of(line)),
                                )),
                                LineResponse::Data,
                            )
                        } else {
                            (g2, None, LineResponse::BadFlavour)
                        },
                    },
                }
            },
        }
    }
}

impl OpaqueDecoder {
    /// Decodes a line of a quad force block.
    fn consume_quad_forces(&mut self, line: &Vec<char>, fs: &Vec<LineField>) -> (r: LineResponse)
        requires
            old(self).wf(),
            old(self).block_type is QuadForces,
            field_views(fs@) == line_fields(line@),
        ensures
            final(self).wf(),
            final(self).block_type == old(self).block_type,
            final(self).flavour == old(self).flavour,
            final(self).etype == old(self).etype,
            final(self).gpref == old(self).gpref,
            final(self).eid == old(self).eid,
            final(self).cur_sided == old(self).cur_sided,
            final(self).bar_first == old(self).bar_first,
            ({
                let (c2, hg, ins, resp) = quad_force_step(
                    old(self).flavour.solver,
                    old(self).cur_point,
                    old(self).etype,
                    old(self).has_grid_id,
                    line@,
                );
                &&& r == resp
                &&& final(self).cur_point == c2
                &&& final(self).has_grid_id == hg
                &&& match ins {
                    Some((k, v)) => final(self).rows() == old(self).rows().insert(k, v),
                    None => final(self).rows() == old(self).rows(),
                }
            }),
    {
        if crate::text::contains_str(line, "GRID-ID") {
            self.has_grid_id = true;
            return LineResponse::Metadata;
        }
        let vals = match crate::util::extract_reals(fs, 8) {
            Some(v) => v,
            None => return LineResponse::Useless,
        };
        let ints = crate::util::ints_in(fs);
        let et = self.etype;
        let next = match self.flavour.solver {
            None => return LineResponse::BadFlavour,
            Some(Solver::Mystran) => {
                if ints.len() > 0 {
                    PointInElement { element: ElementRef { eid: ints[0] as usize, etype: et }, point: ElementPoint::Centroid }
                } else {
                    self.cur_point = None;
                    return LineResponse::Abort;
                }
            },
            Some(Solver::Simcenter) => {
                if self.has_grid_id {
                    let center = crate::text::contains_str(line, "CEN/4");
                    let point = if center {
                        ElementPoint::Centroid
                    } else if ints.len() > 0 {
                        ElementPoint::Corner(GridPointRef { gid: ints[ints.len() - 1] as usize })
                    } else {
                        return LineResponse::Abort;
                    };
                    let eid = if ints.len() > 1 {
                        ints[1] as usize
                    } else {
                        match self.cur_point {
                            Some(c) => c.element.eid,
                            None => return LineResponse::Abort,
                        }
                    };
                    PointInElement { element: ElementRef { eid, etype: et }, point }
                } else if ints.len() > 0 {
                    PointInElement { element: ElementRef { eid: ints[ints.len() - 1] as usize, etype: et }, point: ElementPoint::Centroid }
                } else {
                    return LineResponse::Abort;
                }
            },
        };
        self.cur_point = Some(next);
        self.put(NasIndex::PointInElement(next), vals);
        LineResponse::Data
    }

    /// Decodes a line of a grid point force balance block.
    fn consume_force_balance(&mut self, line: &Vec<char>, fs: &Vec<LineField>) -> (r: LineResponse)
        requires
            old(self).wf(),
            old(self).block_type is GridPointForceBalance,
            field_views(fs@) == line_fields(line@),
        ensures
            final(self).wf(),
            final(self).block_type == old(self).block_type,
            final(self).flavour == old(self).flavour,
            final(self).etype == old(self).etype,
            final(self).eid == old(self).eid,
            final(self).cur_sided == old(self).cur_sided,
            final(self).cur_point == old(self).cur_point,
            final(self).has_grid_id == old(self).has_grid_id,
            final(self).bar_first == old(self).bar_first,
            ({
                let (g2, ins, resp) = force_balance_step(old(self).flavour.solver, old(self).gpref, line@);
                &&& r == resp
                &&& final(self).gpref == g2
                &&& match ins {
                    Some((k, v)) => final(self).rows() == old(self).rows().insert(k, v),
                    None => final(self).rows() == old(self).rows(),
                }
            }),
    {
        let ints = crate::util::ints_in(fs);
        if crate::text::contains_str(line, "FORCE BALANCE FOR GRID POINT") {
            self.gpref = if ints.len() > 0 { Some(GridPointRef { gid: ints[0] as usize }) } else { None };
            return LineResponse::Metadata;
        }
        if crate::text::contains_str(line, "*TOTALS*") {
            return LineResponse::Useless;
        }
        let ets = crate::util::etypes_in(fs);
        let fo = match self.flavour.solver {
            None => return LineResponse::BadFlavour,
            Some(Solver::Mystran) => {
                if crate::text::contains_str(line, "APPLIED FORCE") {
                    ForceOrigin::Load
                } else if crate::text::contains_str(line, "SPC FORCE") {
                    ForceOrigin::SinglePointConstraint
                } else if crate::text::contains_str(line, "MPC FORCE") {
                    ForceOrigin::MultiPointConstraint
                } else if crate::text::contains_str(line, "ELEM") {
                    if ints.len() > 0 {
                        let et = if ets.len() > 0 { Some(ets[0]) } else { None };
                        ForceOrigin::Element { elem: ElementRef { eid: ints[0] as usize, etype: et } }
                    } else {
                        return LineResponse::Useless;
                    }
                } else {
                    return LineResponse::Useless;
                }
            },
            Some(Solver::Simcenter) => {
                self.gpref = if ints.len() > 1 && ints[0] as usize == 0 {
                    Some(GridPointRef { gid: ints[1] as usize })
                } else if ints.len() > 0 {
                    Some(GridPointRef { gid: ints[0] as usize })
                } else {
                    None
                };
                if crate::text::contains_str(line, "APP-LOAD") {
                    ForceOrigin::Load
                } else if crate::text::contains_str(line, "F-OF-SPC") {
                    ForceOrigin::SinglePointConstraint
                } else if crate::text::contains_str(line, "F-OF-MPC") {
                    ForceOrigin::MultiPointConstraint
                } else if self.gpref.is_some() && ints.len() > 0 && ets.len() > 0 {
                    ForceOrigin::Element { elem: ElementRef { eid: ints[ints.len() - 1] as usize, etype: Some(ets[0]) } }
                } else {
                    return LineResponse::Useless;
                }
            },
        };
        match self.gpref {
            Some(g) => match crate::util::extract_reals(fs, 6) {
                Some(vals) => {
                    self.put(NasIndex::GridPointForceOrigin(GridPointForceOrigin { grid_point: g, force_origin: fo }), vals);
                    LineResponse::Data
                },
                None => LineResponse::BadFlavour,
            },
            None => LineResponse::Useless,
        }
    }
}


/// The row of a bar made of its two lines, in canonical column order: the
/// first holds the four end-A recovery points, the axial stress, the end-A
/// maximum and minimum and the tension margin; the second the four end-B
/// recovery points, the end-B maximum and minimum and the compression
/// margin.
pub open spec fn bar_row(f: Seq<Seq<char>>, s: Seq<Seq<char>>) -> Seq<Seq<char>> {
    seq![f[0], f[1], f[2], f[3], f[5], f[6], s[0], s[1], s[2], s[3], s[4], s[5], f[4], f[7], s[6]]
}

/// The reals of a line padded with a zero, if it holds `n` of them, or one
/// fewer.
pub open spec fn padded_reals(line: Seq<char>, n: int) -> Option<Seq<Seq<char>>> {
    if reals_of(line).len() == n {
        Some(reals_of(line))
    } else if reals_of(line).len() == n - 1 {
        Some(reals_of(line).push(zero_text()))
    } else {
        None
    }
}

/// What a line does to a bar stress (or strain) block: a line with a natural
/// starts a row for the element of the first natural (MYSTRAN) or the second
/// one (Simcenter), keeping its eight reals; the next line, with seven
/// reals, completes the row. Gives the new pending first line, the row to
/// put in and the response.
pub open spec fn bar_stress_step(solver: Option<Solver>, first: Option<(usize, Seq<Seq<char>>)>, line: Seq<char>) -> (
    Option<(usize, Seq<Seq<char>>)>,
    Option<(NasIndex, Seq<NumberView>)>,
    LineResponse,
) {
    let ns = nats_of(line);
    if ns.len() > 0 {
        match solver {
            None => (first, None, LineResponse::BadFlavour),
            Some(s) => if s is Simcenter && ns.len() < 2 {
                (first, None, LineResponse::Abort)
            } else {
                let eid = if s is Mystran { ns[0] } else { ns[1] };
                match padded_reals(line, 8) {
                    Some(v) => (Some((eid, v)), None, LineResponse::Data),
                    None => (first, None, LineResponse::Useless),
                }
            },
        }
    } else {
        match first {
            Some((eid, f)) => match padded_reals(line, 7) {
                Some(v) => (
                    None,
                    Some((
                        NasIndex::ElementRef(ElementRef { eid, etype: Some(ElementType::Bar) }),
                        real_row(bar_row(f, v)),
                    )),
                    LineResponse::Data,
                ),
                None => (None, None, LineResponse::Abort),
            },
            None => if reals_of(line).len() == 7 {
                (None, None, LineResponse::Abort)
            } else {
                (None, None, LineResponse::Useless)
            },
        }
    }
}

/// The view of a pending first line of a bar.
pub open spec fn pending_view(p: Option<(usize, Vec<RealText>)>) -> Option<(usize, Seq<Seq<char>>)> {
    match p {
        Some((e, v)) => Some((e, real_texts(v@))),
        None => None,
    }
}

/// The reals of some fields padded with a zero, if there are `n` of them,
/// or one fewer.
fn padded(fs: &Vec<LineField>, n: usize) -> (r: Option<Vec<RealText>>)
    requires
        n >= 1,
    ensures
        r is Some == padded_reals_of(field_views(fs@), n as int) is Some,
        r matches Some(v) ==> real_texts(v@) == padded_reals_of(field_views(fs@), n as int).unwrap() && v@.len() == n,
{
    match crate::util::extract_reals(fs, n) {
        Some(v) => Some(v),
        None => match crate::util::extract_reals(fs, n - 1) {
            Some(v) => {
                let mut v = v;
                let ghost before = real_texts(v@);
                v.push(RealText::zero());
                assert(real_texts(v@) =~= before.push(zero_text()));
                Some(v)
            },
            None => None,
        },
    }
}

/// The reals of some fields padded with a zero, if there are `n` of them,
/// or one fewer.
pub open spec fn padded_reals_of(fs: Seq<FieldView>, n: int) -> Option<Seq<Seq<char>>> {
    if field_reals(fs).len() == n {
        Some(field_reals(fs))
    } else if field_reals(fs).len() == n - 1 {
        Some(field_reals(fs).push(zero_text()))
    } else {
        None
    }
}

impl OpaqueDecoder {
    /// Decodes a line of a bar stress or strain block.
    fn consume_bar_stresses(&mut self, line: &Vec<char>, fs: &Vec<LineField>) -> (r: LineResponse)
        requires
            old(self).wf(),
            old(self).block_type is BarStresses || old(self).block_type is BarStrains,
            field_views(fs@) == line_fields(line@),
        ensures
            final(self).wf(),
            final(self).same_state(old(self)),
            ({
                let (p2, ins, resp) = bar_stress_step(old(self).flavour.solver, pending_view(old(self).bar_first), line@);
                &&& r == resp
                &&& pending_view(final(self).bar_first) == p2
                &&& match ins {
                    Some((k, v)) => final(self).rows() == old(self).rows().insert(k, v),
                    None => final(self).rows() == old(self).rows(),
                }
            }),
    {
        let i0 = crate::util::nth_natural(fs, 0);
        let i1 = crate::util::nth_natural(fs, 1);
        if let Some(u0) = i0 {
            let eid = match self.flavour.solver {
                Some(Solver::Mystran) => u0,
                Some(Solver::Simcenter) => match i1 {
                    Some(u1) => u1,
                    None => return LineResponse::Abort,
                },
                None => return LineResponse::BadFlavour,
            };
            let vals = match padded(fs, 8) {
                Some(v) => v,
                None => return LineResponse::Useless,
            };
            self.bar_first = Some((eid, vals));
            return LineResponse::Data;
        }
        let taken = self.bar_first.take();
        match taken {
            Some((eid, f)) => {
                let v = match padded(fs, 7) {
                    Some(v) => v,
                    None => return LineResponse::Abort,
                };
                let ghost fv = real_texts(f@);
                let ghost sv = real_texts(v@);
                let mut row: Vec<RealText> = Vec::new();
                row.push(f[0].copy());
                row.push(f[1].copy());
                row.push(f[2].copy());
                row.push(f[3].copy());
                row.push(f[5].copy());
                row.push(f[6].copy());
                row.push(v[0].copy());
                row.push(v[1].copy());
                row.push(v[2].copy());
                row.push(v[3].copy());
                row.push(v[4].copy());
                row.push(v[5].copy());
                row.push(f[4].copy());
                row.push(f[7].copy());
                row.push(v[6].copy());
                assert(real_texts(row@) =~= bar_row(fv, sv));
                self.put(NasIndex::ElementRef(ElementRef { eid, etype: Some(ElementType::Bar) }), row);
                LineResponse::Data
            },
            None => {
                if crate::util::extract_reals(fs, 7).is_some() {
                    LineResponse::Abort
                } else {
                    LineResponse::Useless
                }
            },
        }
    }
}


/// The rows after a line: with the row put in, if there is one.
pub open spec fn applied(
    m0: Map<NasIndex, Seq<NumberView>>,
    ins: Option<(NasIndex, Seq<NumberView>)>,
    m1: Map<NasIndex, Seq<NumberView>>,
) -> bool {
    match ins {
        Some((k, v)) => m1 == m0.insert(k, v),
        None => m1 == m0,
    }
}

/// What consuming a line does to a decoder `d`, giving `n` and the response
/// `r`, by block type.
pub open spec fn consume_effect(d: OpaqueDecoder, line: Seq<char>, n: OpaqueDecoder, r: LineResponse) -> bool {
    &&& n.block_type == d.block_type
    &&& n.flavour == d.flavour
    &&& n.etype == d.etype
    &&& match d.block_type {
        BlockType::Displacements | BlockType::SpcForces | BlockType::AppliedForces => {
            &&& n.same_state(&d)
            &&& n.bar_first == d.bar_first
            &&& r == (if grid_vector_line(line) is Some { LineResponse::Data } else { LineResponse::Useless })
            &&& applied(d.rows(), grid_vector_line(line), n.rows())
        },
        BlockType::BarForces | BlockType::TriaForces => {
            let (ins, resp) = if d.block_type is BarForces { bar_force_line(line) } else { tria_force_line(line, d.etype) };
            &&& n.same_state(&d)
            &&& n.bar_first == d.bar_first
            &&& r == resp
            &&& applied(d.rows(), ins, n.rows())
        },
        BlockType::Elas1Forces | BlockType::Elas1Stresses | BlockType::Elas1Strains | BlockType::RodForces => {
            let gs = leading_groups(line_fields(line), group_size(d.block_type));
            &&& n.same_state(&d)
            &&& n.bar_first == d.bar_first
            &&& r == (if gs.len() > 0 { LineResponse::Data } else { LineResponse::Useless })
            &&& n.rows() == insert_all(d.rows(), element_rows(gs, group_etype(d.block_type)))
        },
        BlockType::RodStresses | BlockType::RodStrains => {
            let m = crate::util::int_pattern_map(line_fields(line));
            &&& n.same_state(&d)
            &&& n.bar_first == d.bar_first
            &&& (forall|k: usize| m.contains_key(k) ==> !rod_bad(#[trigger] m[k])) ==> {
                &&& r == (if exists|k: usize| #[trigger] m.contains_key(k) {
                    LineResponse::Data
                } else {
                    LineResponse::Useless
                })
                &&& n.rows() == rod_update(d.rows(), m, usize::MAX + 1)
            }
            &&& forall|b: usize|
                #![trigger m[b]]
                m.contains_key(b) && rod_bad(m[b]) && (forall|k: usize| k < b && m.contains_key(k) ==> !rod_bad(#[trigger] m[k]))
                    ==> {
                    &&& r == (if m[b].len() == 0 {
                        LineResponse::Useless
                    } else {
                        LineResponse::Abort
                    })
                    &&& n.rows() == rod_update(d.rows(), m, b as int)
                }
        },
        BlockType::TriaStresses | BlockType::TriaStrains => {
            let (e2, ins, resp) = tria_stress_step(d.flavour.solver, d.eid, d.etype, line);
            &&& n.gpref == d.gpref && n.cur_sided == d.cur_sided && n.cur_point == d.cur_point
            &&& n.has_grid_id == d.has_grid_id && n.bar_first == d.bar_first
            &&& n.eid == e2
            &&& r == resp
            &&& applied(d.rows(), ins, n.rows())
        },
        BlockType::QuadStresses | BlockType::QuadStrains => {
            let (c2, ins, resp) = quad_stress_step(d.flavour.solver, d.cur_sided, d.etype, line);
            &&& n.gpref == d.gpref && n.eid == d.eid && n.cur_point == d.cur_point
            &&& n.has_grid_id == d.has_grid_id && n.bar_first == d.bar_first
            &&& n.cur_sided == c2
            &&& r == resp
            &&& applied(d.rows(), ins, n.rows())
        },
        BlockType::QuadForces => {
            let (c2, hg, ins, resp) = quad_force_step(d.flavour.solver, d.cur_point, d.etype, d.has_grid_id, line);
            &&& n.gpref == d.gpref && n.eid == d.eid && n.cur_sided == d.cur_sided && n.bar_first == d.bar_first
            &&& n.cur_point == c2
            &&& n.has_grid_id == hg
            &&& r == resp
            &&& applied(d.rows(), ins, n.rows())
        },
        BlockType::GridPointForceBalance => {
            let (g2, ins, resp) = force_balance_step(d.flavour.solver, d.gpref, line);
            &&& n.eid == d.eid && n.cur_sided == d.cur_sided && n.cur_point == d.cur_point
            &&& n.has_grid_id == d.has_grid_id && n.bar_first == d.bar_first
            &&& n.gpref == g2
            &&& r == resp
            &&& applied(d.rows(), ins, n.rows())
        },
        BlockType::BarStresses | BlockType::BarStrains => {
            let (p2, ins, resp) = bar_stress_step(d.flavour.solver, pending_view(d.bar_first), line);
            &&& n.same_state(&d)
            &&& pending_view(n.bar_first) == p2
            &&& r == resp
            &&& applied(d.rows(), ins, n.rows())
        },
    }
}

/// Does the header of the block type tell the element type?
pub open spec fn header_sets_etype(bt: BlockType) -> bool {
    bt is QuadStresses || bt is QuadStrains || bt is QuadForces || bt is TriaForces || bt is TriaStresses
        || bt is TriaStrains
}

/// Is a header good for a decoder of the block type? Quad stress and strain
/// blocks refuse thermal and elastic ones.
pub open spec fn header_ok(bt: BlockType, header: Seq<char>) -> bool {
    (bt is QuadStresses || bt is QuadStrains) ==> !(crate::text::seq_contains(header, "THERMAL"@)
        || crate::text::seq_contains(header, "ELASTIC"@))
}

impl OpaqueDecoder {
    /// Checks the header of the block, learning the element type from it
    /// where the block type needs one.
    pub fn good_header(&mut self, header: &Vec<char>) -> (r: bool)
        requires
            old(self).wf(),
        ensures
            final(self).wf(),
            final(self).block_type == old(self).block_type,
            final(self).flavour == old(self).flavour,
            final(self).rows() == old(self).rows(),
            final(self).gpref == old(self).gpref,
            final(self).eid == old(self).eid,
            final(self).cur_sided == old(self).cur_sided,
            final(self).cur_point == old(self).cur_point,
            final(self).has_grid_id == old(self).has_grid_id,
            final(self).bar_first == old(self).bar_first,
            final(self).etype == (if header_sets_etype(old(self).block_type) {
                crate::util::nth(crate::util::field_etypes(line_fields(header@)), 0)
            } else {
                old(self).etype
            }),
            r == header_ok(old(self).block_type, header@),
    {
        let sets = match self.block_type {
            BlockType::QuadStresses | BlockType::QuadStrains | BlockType::QuadForces | BlockType::TriaForces
            | BlockType::TriaStresses | BlockType::TriaStrains => true,
            _ => false,
        };
        if sets {
            let fs = line_breakdown(header);
            self.etype = crate::util::nth_etype(&fs, 0);
        }
        match self.block_type {
            BlockType::QuadStresses | BlockType::QuadStrains => {
                !(crate::text::contains_str(header, "THERMAL") || crate::text::contains_str(header, "ELASTIC"))
            },
            _ => true,
        }
    }

    /// Hints the decoder about the last row of the block, for blocks that
    /// continue a row over a page break: the quadrilateral blocks take it as
    /// their current row, the triangular stress and strain blocks take its
    /// element; the others ignore it.
    pub fn hint_last(&mut self, last: NasIndex)
        requires
            old(self).wf(),
            (old(self).block_type is TriaStresses || old(self).block_type is TriaStrains) ==> last is ElementSidedPoint,
        ensures
            final(self).wf(),
            final(self).block_type == old(self).block_type,
            final(self).flavour == old(self).flavour,
            final(self).rows() == old(self).rows(),
            final(self).gpref == old(self).gpref,
            final(self).has_grid_id == old(self).has_grid_id,
            final(self).bar_first == old(self).bar_first,
            final(self).cur_sided == (match (old(self).block_type, last) {
                (BlockType::QuadStresses, NasIndex::ElementSidedPoint(esp)) => Some(esp),
                (BlockType::QuadStrains, NasIndex::ElementSidedPoint(esp)) => Some(esp),
                _ => old(self).cur_sided,
            }),
            final(self).cur_point == (match (old(self).block_type, last) {
                (BlockType::QuadForces, NasIndex::PointInElement(pie)) => Some(pie),
                _ => old(self).cur_point,
            }),
            final(self).etype == (match (old(self).block_type, last) {
                (BlockType::TriaStresses, NasIndex::ElementSidedPoint(esp)) => esp.element.etype,
                (BlockType::TriaStrains, NasIndex::ElementSidedPoint(esp)) => esp.element.etype,
                _ => old(self).etype,
            }),
            final(self).eid == (match (old(self).block_type, last) {
                (BlockType::TriaStresses, NasIndex::ElementSidedPoint(esp)) => Some(esp.element.eid),
                (BlockType::TriaStrains, NasIndex::ElementSidedPoint(esp)) => Some(esp.element.eid),
                _ => old(self).eid,
            }),
    {
        match (self.block_type, last) {
            (BlockType::QuadStresses, NasIndex::ElementSidedPoint(esp))
            | (BlockType::QuadStrains, NasIndex::ElementSidedPoint(esp)) => {
                self.cur_sided = Some(esp);
            },
            (BlockType::QuadForces, NasIndex::PointInElement(pie)) => {
                self.cur_point = Some(pie);
            },
            (BlockType::TriaStresses, NasIndex::ElementSidedPoint(esp))
            | (BlockType::TriaStrains, NasIndex::ElementSidedPoint(esp)) => {
                self.etype = esp.element.etype;
                self.eid = Some(esp.element.eid);
            },
            _ => {},
        }
    }

    /// The index of the row being read, for the quadrilateral blocks that
    /// keep one; none for the others.
    pub fn last_row_index(&self) -> (r: Option<NasIndex>)
        ensures
            r == (match self.block_type {
                BlockType::QuadStresses | BlockType::QuadStrains => match self.cur_sided {
                    Some(esp) => Some(NasIndex::ElementSidedPoint(esp)),
                    None => None,
                },
                BlockType::QuadForces => match self.cur_point {
                    Some(pie) => Some(NasIndex::PointInElement(pie)),
                    None => None,
                },
                _ => None,
            }),
    {
        match self.block_type {
            BlockType::QuadStresses | BlockType::QuadStrains => match self.cur_sided {
                Some(esp) => Some(NasIndex::ElementSidedPoint(esp)),
                None => None,
            },
            BlockType::QuadForces => match self.cur_point {
                Some(pie) => Some(NasIndex::PointInElement(pie)),
                None => None,
            },
            _ => None,
        }
    }

    /// Takes in a line and loads it into the decoder.
    pub fn consume(&mut self, line: &Vec<char>) -> (r: LineResponse)
        requires
            old(self).wf(),
        ensures
            final(self).wf(),
            consume_effect(*old(self), line@, *final(self), r),
    {
        let fs = line_breakdown(line);
        match self.block_type {
            BlockType::Displacements | BlockType::SpcForces | BlockType::AppliedForces => self.consume_grid_vector(line, &fs),
            BlockType::BarForces | BlockType::TriaForces => self.consume_eight(line, &fs),
            BlockType::Elas1Forces | BlockType::Elas1Stresses | BlockType::Elas1Strains | BlockType::RodForces => {
                self.consume_groups(line, &fs)
            },
            BlockType::RodStresses | BlockType::RodStrains => self.consume_rod_stresses(line, &fs),
            BlockType::TriaStresses | BlockType::TriaStrains => self.consume_tria_stresses(line, &fs),
            BlockType::QuadStresses | BlockType::QuadStrains => self.consume_quad_stresses(line, &fs),
            BlockType::QuadForces => self.consume_quad_forces(line, &fs),
            BlockType::GridPointForceBalance => self.consume_force_balance(line, &fs),
            BlockType::BarStresses | BlockType::BarStrains => self.consume_bar_stresses(line, &fs),
        }
    }
}

impl BlockType {
    /// Instantiates the decoder for this data block type.
    pub fn init_decoder(&self, flavour: Flavour) -> (r: OpaqueDecoder)
        ensures
            r.wf(),
            r.block_type == *self,
            r.flavour == flavour,
            r.rows() == Map::<NasIndex, Seq<NumberView>>::empty(),
            r.etype is None,
            r.gpref is None,
            r.cur_sided is None,
            r.cur_point is None,
            !r.has_grid_id,
            r.eid is None,
            r.bar_first is None,
    {
        OpaqueDecoder::new(*self, flavour)
    }
}


/// Do all rows of a block name an element of the type that the block type
/// fixes, where it fixes one?
pub open spec fn rows_fit_block(bt: BlockType, rows: Map<NasIndex, Seq<NumberView>>) -> bool {
    forall|k: NasIndex|
        #[trigger] rows.contains_key(k) ==> match crate::blocktypes::block_elem_type(bt) {
            Some(et) => k matches NasIndex::ElementRef(e) && e.etype == Some(et),
            None => true,
        }
}

/// The rows after inserting some come from the rows before or from those
/// inserted.
proof fn lemma_insert_all_keys(m: Map<NasIndex, Seq<NumberView>>, rs: Seq<(NasIndex, Seq<NumberView>)>, k: NasIndex)
    requires
        insert_all(m, rs).contains_key(k),
    ensures
        m.contains_key(k) || exists|i: int| 0 <= i < rs.len() && #[trigger] rs[i].0 == k,
    decreases rs.len(),
{
    if rs.len() > 0 && k != rs.last().0 {
        lemma_insert_all_keys(m, rs.drop_last(), k);
        if !m.contains_key(k) {
            let i = choose|i: int| 0 <= i < rs.drop_last().len() && #[trigger] rs.drop_last()[i].0 == k;
            assert(rs[i].0 == k);
        }
    } else if rs.len() > 0 {
        assert(rs[rs.len() - 1].0 == k);
    }
}

/// Among the groups of a line, if one is bad, a first bad one exists.
proof fn lemma_first_bad(m: Map<usize, Seq<Seq<char>>>, k: usize)
    requires
        m.contains_key(k),
        rod_bad(m[k]),
    ensures
        exists|b: usize|
            m.contains_key(b) && rod_bad(#[trigger] m[b]) && (forall|j: usize| j < b && m.contains_key(j) ==> !rod_bad(
                #[trigger] m[j],
            )),
    decreases k,
{
    if exists|j: usize| j < k && m.contains_key(j) && rod_bad(#[trigger] m[j]) {
        let j = choose|j: usize| j < k && m.contains_key(j) && rod_bad(#[trigger] m[j]);
        lemma_first_bad(m, j);
    } else {
        assert(m.contains_key(k) && rod_bad(m[k]) && (forall|j: usize| j < k && m.contains_key(j) ==> !rod_bad(
            #[trigger] m[j],
        )));
    }
}

/// The rows of a block stay those of elements of the type that its block
/// type fixes, where it fixes one: no line gives a block of rod stresses a
/// row of another element type, a block of bar forces a row of a rod, and
/// so on.
pub proof fn law_rows_fit_block(d: OpaqueDecoder, line: Seq<char>, n: OpaqueDecoder, r: LineResponse)
    requires
        consume_effect(d, line, n, r),
        rows_fit_block(d.block_type, d.rows()),
    ensures
        rows_fit_block(n.block_type, n.rows()),
{
    let bt = d.block_type;
    match bt {
        BlockType::Elas1Forces | BlockType::Elas1Stresses | BlockType::Elas1Strains | BlockType::RodForces => {
            let gs = leading_groups(line_fields(line), group_size(bt));
            let rs = element_rows(gs, group_etype(bt));
            assert forall|k: NasIndex| #[trigger] n.rows().contains_key(k) implies match crate::blocktypes::block_elem_type(
                bt,
            ) {
                Some(et) => k matches NasIndex::ElementRef(e) && e.etype == Some(et),
                None => true,
            } by {
                lemma_insert_all_keys(d.rows(), rs, k);
                if !d.rows().contains_key(k) {
                    let i = choose|i: int| 0 <= i < rs.len() && #[trigger] rs[i].0 == k;
                    assert(rs[i].0 == NasIndex::ElementRef(ElementRef { eid: gs[i].0 as usize, etype: Some(group_etype(bt)) }));
                }
            }
        },
        BlockType::RodStresses | BlockType::RodStrains => {
            let m = crate::util::int_pattern_map(line_fields(line));
            let lim: int = if forall|k: usize| m.contains_key(k) ==> !rod_bad(#[trigger] m[k]) {
                usize::MAX + 1
            } else {
                let k0 = choose|k: usize| m.contains_key(k) && rod_bad(#[trigger] m[k]);
                lemma_first_bad(m, k0);
                let b = choose|b: usize|
                    m.contains_key(b) && rod_bad(#[trigger] m[b]) && (forall|j: usize| j < b && m.contains_key(j) ==> !rod_bad(
                        #[trigger] m[j],
                    ));
                b as int
            };
            assert(n.rows() == rod_update(d.rows(), m, lim));
        },
        _ => {},
    }
}

} // verus!
