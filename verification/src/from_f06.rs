//! Conversion of parsed F06 blocks into CSV records.

use vstd::prelude::*;
use vstd::arithmetic::div_mod::lemma_fundamental_div_mod_converse;

use crate::blocks::FinalBlock;
use crate::blocktypes::{BlockType, block_desc, block_elem_type, block_short_name};
use crate::elements::ElementType;
use crate::f06file::{BlockRef, F06File};
use crate::flavour::{Flavour, soltype_name, soltype_number, solver_name};
use crate::index_fns::{IndexFn, index_fn_result};
use crate::indexing::NasIndex;
use crate::layout::{csv_block_number, CsvBlockId, CsvField, CsvRecord, FieldView, field_views, number_field, str_views};
use crate::numbers::F06Number;
use crate::text::{decimal_text, usize_text};

verus! {

/// Blank value for row headers.
pub const HBLANK: &'static str = "<UNUSED>";

/// A conversion error.
#[derive(Copy, Clone, Debug, PartialEq, Eq, Structural)]
#[non_exhaustive]
pub enum ConversionError {
    /// The wrong block type was passed.
    WrongBlockType {
        /// The type of the passed block.
        got: BlockType,
        /// The type of block the converter expected.
        expected: BlockType,
    },
    /// A value was missing from the block data.
    MissingDatum {
        /// The row we tried to access.
        row: NasIndex,
        /// The column we tried to access.
        col: NasIndex,
    },
    /// A row index has the wrong type (contains the index).
    BadRowIndexType(NasIndex),
    /// A column index has the wrong type (contains the index).
    BadColIndexType(NasIndex),
}

/// A "column generator": a conversion template has ten of them. They are
/// called with a block and a row index, and also the file flavour.
#[derive(Debug)]
pub enum ColumnGenerator {
    /// Generate a blank column.
    Blank,
    /// Output the value from a specific column. Errs if absent.
    ColumnValue(NasIndex),
    /// Output a constant field.
    ConstantField(CsvField),
    /// Outputs the grid point ID of the row, errs if absent.
    GridId,
    /// Outputs the element ID of the row, errs if absent.
    ElementId,
    /// Outputs the element type of the row, errs if absent.
    ElementType,
    /// Outputs some other function of the row index.
    RowIndexFn(IndexFn),
    /// Output the block short name.
    BlockShortName,
    /// Output the block long name.
    BlockLongName,
    /// Output the solution type number (0 if absent/unknown).
    SolTypeNumber,
    /// Output the solution type name ("?" if absent/unknown).
    SolTypeName,
    /// Output the solver name ("Unknown" if absent/unknown).
    SolverName,
    /// Output the subcase.
    Subcase,
    /// Output a constant number.
    ConstantNumber(F06Number),
    /// Output a constant string.
    ConstantString(&'static str),
    /// Runs another generator, with a default for errors.
    WithDefault(Box<ColumnGenerator>, CsvField),
}

/// What a generator gives for a row of a block, in a file of some flavour.
pub open spec fn generated(
    g: ColumnGenerator,
    block: FinalBlock,
    flavour: Flavour,
    row: NasIndex,
) -> Result<FieldView, ConversionError>
    decreases g,
{
    match g {
        ColumnGenerator::Blank => Ok(FieldView::Blank),
        ColumnGenerator::ColumnValue(col) => match block.value_at(row, col) {
            Some(x) => Ok(number_field(x)),
            None => Err(ConversionError::MissingDatum { row, col }),
        },
        ColumnGenerator::ConstantField(cf) => Ok(cf@),
        ColumnGenerator::GridId => index_fn_result(IndexFn::Gid, row),
        ColumnGenerator::ElementId => index_fn_result(IndexFn::Eid, row),
        ColumnGenerator::ElementType => index_fn_result(IndexFn::Etype, row),
        ColumnGenerator::RowIndexFn(f) => index_fn_result(f, row),
        ColumnGenerator::BlockShortName => Ok(FieldView::Text(block_short_name(block.block_type))),
        ColumnGenerator::BlockLongName => Ok(FieldView::Text(block_desc(block.block_type))),
        ColumnGenerator::SolTypeNumber => match flavour.soltype {
            Some(sol) => Ok(FieldView::Natural(soltype_number(sol))),
            None => Ok(FieldView::Natural(0)),
        },
        ColumnGenerator::SolTypeName => match flavour.soltype {
            Some(sol) => Ok(FieldView::Text(soltype_name(sol))),
            None => Ok(FieldView::Text("?"@)),
        },
        ColumnGenerator::SolverName => match flavour.solver {
            Some(solver) => Ok(FieldView::Text(solver_name(solver))),
            None => Ok(FieldView::Text("Unknown"@)),
        },
        ColumnGenerator::Subcase => Ok(FieldView::Natural(block.subcase as nat)),
        ColumnGenerator::ConstantNumber(x) => Ok(number_field(x@)),
        ColumnGenerator::ConstantString(s) => Ok(FieldView::Text(s@)),
        ColumnGenerator::WithDefault(inner, d) => match generated(*inner, block, flavour, row) {
            Ok(x) => Ok(x),
            Err(_) => Ok(d@),
        },
    }
}

/// The views of a result that holds a field.
pub open spec fn field_result(r: Result<CsvField, ConversionError>) -> Result<FieldView, ConversionError> {
    match r {
        Ok(f) => Ok(f@),
        Err(e) => Err(e),
    }
}

impl ColumnGenerator {
    /// Calls the generator to produce a CSV field, or an error.
    pub fn convert(&self, block: &FinalBlock, flavour: Flavour, row: NasIndex) -> (r: Result<
        CsvField,
        ConversionError,
    >)
        requires
            block.row_indexes.wf(),
            block.col_indexes.wf(),
        ensures
            field_result(r) == generated(*self, *block, flavour, row),
        decreases self,
    {
        match self {
            ColumnGenerator::Blank => Ok(CsvField::Blank),
            ColumnGenerator::ColumnValue(col) => match block.get(row, *col) {
                Some(x) => Ok(CsvField::from_number(x)),
                None => Err(ConversionError::MissingDatum { row, col: *col }),
            },
            ColumnGenerator::ConstantField(cf) => Ok(cf.copy()),
            ColumnGenerator::GridId => IndexFn::Gid.call(row),
            ColumnGenerator::ElementId => IndexFn::Eid.call(row),
            ColumnGenerator::ElementType => IndexFn::Etype.call(row),
            ColumnGenerator::RowIndexFn(f) => f.call(row),
            ColumnGenerator::BlockShortName => Ok(CsvField::String(block.block_type.short_name().to_owned())),
            ColumnGenerator::BlockLongName => Ok(CsvField::String(block.block_type.desc().to_owned())),
            ColumnGenerator::SolTypeNumber => match flavour.soltype {
                Some(sol) => Ok(CsvField::Natural(sol.number())),
                None => Ok(CsvField::Natural(0)),
            },
            ColumnGenerator::SolTypeName => match flavour.soltype {
                Some(sol) => Ok(CsvField::String(sol.name().to_owned())),
                None => Ok(CsvField::String("?".to_owned())),
            },
            ColumnGenerator::SolverName => match flavour.solver {
                Some(solver) => Ok(CsvField::String(solver.name().to_owned())),
                None => Ok(CsvField::String("Unknown".to_owned())),
            },
            ColumnGenerator::Subcase => Ok(CsvField::Natural(block.subcase)),
            ColumnGenerator::ConstantNumber(x) => Ok(CsvField::from_number(x.copy())),
            ColumnGenerator::ConstantString(s) => Ok(CsvField::String((*s).to_owned())),
            ColumnGenerator::WithDefault(g, d) => match g.convert(block, flavour, row) {
                Ok(x) => Ok(x),
                Err(_) => Ok(d.copy()),
            },
        }
    }
}


/// A generator's error, in a record, becomes the text `<ERROR>`.
pub open spec fn field_or_error(r: Result<FieldView, ConversionError>) -> FieldView {
    match r {
        Ok(f) => f,
        Err(_) => FieldView::Text("<ERROR>"@),
    }
}

/// The fields that a row of generators makes for a row of a block.
pub open spec fn row_fields(
    gens: Seq<ColumnGenerator>,
    block: FinalBlock,
    flavour: Flavour,
    row: NasIndex,
) -> Seq<FieldView> {
    gens.map_values(|g: ColumnGenerator| field_or_error(generated(g, block, flavour, row)))
}

/// The generators whose naturals a record also keeps apart.
pub ghost enum NatColumn {
    /// The grid point ID.
    GridId,
    /// The element ID.
    ElementId,
    /// The subcase.
    Subcase,
}

/// Is the generator the one for that column?
pub open spec fn makes_column(g: ColumnGenerator, c: NatColumn) -> bool {
    match c {
        NatColumn::GridId => g is GridId,
        NatColumn::ElementId => g is ElementId,
        NatColumn::Subcase => g is Subcase,
    }
}

/// The natural that a field holds, if it holds one.
pub open spec fn natural_of(f: FieldView) -> Option<nat> {
    match f {
        FieldView::Natural(n) => Some(n),
        _ => None,
    }
}

/// The element type that a field holds, if it holds one.
pub open spec fn etype_of_field(f: FieldView) -> Option<ElementType> {
    match f {
        FieldView::ElementType(et) => Some(et),
        _ => None,
    }
}

/// What the first `n` fields give for a column: going left to right, a
/// field of that column's generator is taken while nothing is held yet.
pub open spec fn picked_nat(gens: Seq<ColumnGenerator>, fields: Seq<FieldView>, c: NatColumn, n: nat) -> Option<
    nat,
>
    decreases n,
{
    if n == 0 {
        None
    } else {
        let prev = picked_nat(gens, fields, c, (n - 1) as nat);
        if makes_column(gens[n - 1], c) && prev is None {
            natural_of(fields[n - 1])
        } else {
            prev
        }
    }
}

/// What the first `n` fields give for the element type, in the same way.
pub open spec fn picked_etype(gens: Seq<ColumnGenerator>, fields: Seq<FieldView>, n: nat) -> Option<
    ElementType,
>
    decreases n,
{
    if n == 0 {
        None
    } else {
        let prev = picked_etype(gens, fields, (n - 1) as nat);
        if gens[n - 1] is ElementType && prev is None {
            etype_of_field(fields[n - 1])
        } else {
            prev
        }
    }
}

/// A natural number held in a machine integer, as a natural.
pub open spec fn nat_opt(o: Option<usize>) -> Option<nat> {
    match o {
        Some(x) => Some(x as nat),
        None => None,
    }
}

/// A template to convert an F06 block into a series of CSV records.
#[derive(Debug)]
pub struct BlockConverter {
    /// The block type this is meant for.
    pub input_block_type: BlockType,
    /// The type of CSV block this produces.
    pub output_block_id: CsvBlockId,
    /// Rows of ten generators: a single data block row may produce more than
    /// one CSV row.
    pub generators: Vec<Vec<ColumnGenerator>>,
    /// The headers for each of the rows this produces.
    pub headers: Vec<[&'static str; 10]>,
}

/// Is `r` the record that a converter makes of a row of a block with its
/// row of generators `irow`?
pub open spec fn converted_record(
    r: CsvRecord,
    conv: BlockConverter,
    block: FinalBlock,
    flavour: Flavour,
    row: NasIndex,
    irow: int,
) -> bool {
    let gens = conv.generators@[irow]@;
    let fields = row_fields(gens, block, flavour, row);
    &&& r.block_id == conv.output_block_id
    &&& r.block_type == Some(block.block_type)
    &&& field_views(r.fields@) == fields
    &&& nat_opt(r.gid) == picked_nat(gens, fields, NatColumn::GridId, gens.len())
    &&& nat_opt(r.eid) == picked_nat(gens, fields, NatColumn::ElementId, gens.len())
    &&& nat_opt(r.subcase) == picked_nat(gens, fields, NatColumn::Subcase, gens.len())
    &&& r.etype == (match picked_etype(gens, fields, gens.len()) {
        Some(et) => Some(et),
        None => block_elem_type(conv.input_block_type),
    })
    &&& r.headers == conv.headers@[irow]
}

/// Are `recs` the records that a converter makes of a block: one for each
/// row of the block, in increasing order of index, and each row of
/// generators, in order?
pub open spec fn converted_block(recs: Seq<CsvRecord>, conv: BlockConverter, block: FinalBlock, flavour: Flavour) -> bool {
    let ng = conv.generators@.len();
    let keys = block.row_indexes.entries@;
    &&& recs.len() == keys.len() * ng
    &&& forall|k: int| 0 <= k < recs.len() ==> converted_record(
        #[trigger] recs[k],
        conv,
        block,
        flavour,
        keys[k / ng as int].0,
        k % ng as int,
    )
}

impl BlockConverter {
    /// Each row of generators has ten of them, and a row of headers.
    pub open spec fn wf(&self) -> bool {
        &&& self.headers@.len() == self.generators@.len()
        &&& forall|i: int| 0 <= i < self.generators@.len() ==> (#[trigger] self.generators@[i])@.len() == 10
    }

    /// Converts one row of a block with one row of generators.
    fn convert_row(&self, block: &FinalBlock, flavour: &Flavour, row: NasIndex, irow: usize) -> (r: CsvRecord)
        requires
            self.wf(),
            irow < self.generators@.len(),
            block.row_indexes.wf(),
            block.col_indexes.wf(),
        ensures
            converted_record(r, *self, *block, *flavour, row, irow as int),
    {
        let gens = &self.generators[irow];
        let ghost fs = row_fields(gens@, *block, *flavour, row);
        let mut fields: Vec<CsvField> = Vec::new();
        let mut gid: Option<usize> = None;
        let mut eid: Option<usize> = None;
        let mut etype: Option<ElementType> = None;
        let mut subcase: Option<usize> = None;
        let mut i: usize = 0;
        while i < gens.len()
            invariant
                gens@ == self.generators@[irow as int]@,
                fs == row_fields(gens@, *block, *flavour, row),
                block.row_indexes.wf(),
                block.col_indexes.wf(),
                i <= gens@.len(),
                field_views(fields@) == fs.take(i as int),
                nat_opt(gid) == picked_nat(gens@, fs, NatColumn::GridId, i as nat),
                nat_opt(eid) == picked_nat(gens@, fs, NatColumn::ElementId, i as nat),
                nat_opt(subcase) == picked_nat(gens@, fs, NatColumn::Subcase, i as nat),
                etype == picked_etype(gens@, fs, i as nat),
            decreases gens@.len() - i,
        {
            let cgen = &gens[i];
            let fld = cgen.convert(block, *flavour, row);
            let flderr = match fld {
                Ok(f) => f,
                Err(_) => CsvField::String("<ERROR>".to_owned()),
            };
            assert(flderr@ == fs[i as int]);
            let fld_nat: Option<usize> = match &flderr {
                CsvField::Natural(n) => Some(*n),
                _ => None,
            };
            let fld_et: Option<ElementType> = match &flderr {
                CsvField::ElementType(et) => Some(*et),
                _ => None,
            };
            if matches!(cgen, ColumnGenerator::GridId) && gid.is_none() {
                gid = fld_nat;
            }
            if matches!(cgen, ColumnGenerator::ElementId) && eid.is_none() {
                eid = fld_nat;
            }
            if matches!(cgen, ColumnGenerator::ElementType) && etype.is_none() {
                etype = fld_et;
            }
            if matches!(cgen, ColumnGenerator::Subcase) && subcase.is_none() {
                subcase = fld_nat;
            }
            let ghost before = fields@;
            fields.push(flderr);
            assert(field_views(fields@) =~= field_views(before).push(fs[i as int]));
            i = i + 1;
            assert(fs.take(i as int) =~= fs.take(i - 1).push(fs[i - 1]));
        }
        assert(fs.take(gens@.len() as int) =~= fs);
        let etype = match etype {
            Some(et) => Some(et),
            None => self.input_block_type.elem_type(),
        };
        CsvRecord {
            block_id: self.output_block_id,
            block_type: Some(block.block_type),
            gid,
            eid,
            etype,
            subcase,
            fields,
            headers: self.headers[irow],
        }
    }
    /// Converts a block into CSV records: for each row of the block, in
    /// increasing order of index, one record per row of generators. Fields
    /// whose generator fails hold the text `<ERROR>`. A block of another type
    /// than the converter's is refused.
    pub fn convert_block(&self, block: &FinalBlock, flavour: &Flavour) -> (r: Result<
        Vec<CsvRecord>,
        ConversionError,
    >)
        requires
            self.wf(),
            block.row_indexes.wf(),
            block.col_indexes.wf(),
        ensures
            block.block_type != self.input_block_type ==> r == Err::<Vec<CsvRecord>, ConversionError>(
                ConversionError::WrongBlockType { got: block.block_type, expected: self.input_block_type },
            ),
            block.block_type == self.input_block_type ==> (r matches Ok(recs) && converted_block(
                recs@,
                *self,
                *block,
                *flavour,
            )),
    {
        if block.block_type != self.input_block_type {
            return Err(ConversionError::WrongBlockType { got: block.block_type, expected: self.input_block_type });
        }
        let ng = self.generators.len();
        let keys = &block.row_indexes.entries;
        let mut recs: Vec<CsvRecord> = Vec::new();
        let mut a: usize = 0;
        while a < keys.len()
            invariant
                self.wf(),
                ng == self.generators@.len(),
                keys@ == block.row_indexes.entries@,
                block.row_indexes.wf(),
                block.col_indexes.wf(),
                a <= keys@.len(),
                recs@.len() == a * ng,
                forall|k: int| 0 <= k < recs@.len() ==> converted_record(
                    #[trigger] recs@[k],
                    *self,
                    *block,
                    *flavour,
                    keys@[k / ng as int].0,
                    k % ng as int,
                ),
            decreases keys@.len() - a,
        {
            let row = keys[a].0;
            let mut b: usize = 0;
            while b < ng
                invariant
                    self.wf(),
                    ng == self.generators@.len(),
                    keys@ == block.row_indexes.entries@,
                    block.row_indexes.wf(),
                    block.col_indexes.wf(),
                    a < keys@.len(),
                    row == keys@[a as int].0,
                    b <= ng,
                    recs@.len() == a * ng + b,
                    forall|k: int| 0 <= k < recs@.len() ==> converted_record(
                        #[trigger] recs@[k],
                        *self,
                        *block,
                        *flavour,
                        keys@[k / ng as int].0,
                        k % ng as int,
                    ),
                decreases ng - b,
            {
                let rec = self.convert_row(block, flavour, row, b);
                proof {
                    lemma_fundamental_div_mod_converse((a * ng + b) as int, ng as int, a as int, b as int);
                }
                recs.push(rec);
                b = b + 1;
            }
            a = a + 1;
            assert(recs@.len() == a * ng) by (nonlinear_arith)
                requires
                    recs@.len() == (a - 1) * ng + ng,
            ;
        }
        Ok(recs)
    }
}


/// The fields of a record of the 0-block: a key, its value, then blanks.
pub open spec fn meta_fields(key: Seq<char>, value: Seq<char>) -> Seq<FieldView> {
    seq![FieldView::Text(key), FieldView::Text(value)] + Seq::new(8, |i: int| FieldView::Blank)
}

/// The headers of a record of the 0-block.
pub open spec fn meta_headers() -> Seq<Seq<char>> {
    seq!["Key"@, "Value"@] + Seq::new(8, |i: int| HBLANK@)
}

/// Is `r` the record of the 0-block for a key and its value?
pub open spec fn is_meta_record(r: CsvRecord, key: Seq<char>, value: Seq<char>) -> bool {
    &&& r.block_id == CsvBlockId::Metadata
    &&& r.block_type is None
    &&& r.gid is None
    &&& r.eid is None
    &&& r.etype is None
    &&& r.subcase is None
    &&& field_views(r.fields@) == meta_fields(key, value)
    &&& str_views(r.headers@) == meta_headers()
}

/// The text for a value that may be unknown.
pub open spec fn or_unknown(v: Option<Seq<char>>) -> Seq<char> {
    match v {
        Some(t) => t,
        None => "Unknown"@,
    }
}

/// The subcases that the blocks of a file belong to.
pub open spec fn file_subcases(f: F06File) -> Set<usize> {
    Set::new(|x: usize| exists|i: int| 0 <= i < f.blocks@.len() && (#[trigger] f.blocks@[i]).0.subcase == x)
}

/// The keys and values of the 0-block of a file.
pub open spec fn meta_pairs(f: F06File, version: Option<Seq<char>>, authors: Option<Seq<char>>) -> Seq<
    (Seq<char>, Seq<char>),
> {
    seq![
        ("Solver"@, match f.flavour.solver {
            Some(s) => solver_name(s),
            None => "Unknown"@,
        }),
        ("Solution"@, match f.flavour.soltype {
            Some(s) => soltype_name(s),
            None => "Unknown"@,
        }),
        ("Filename"@, match f.filename {
            Some(s) => s@,
            None => "Unknown"@,
        }),
        ("#Subcases"@, decimal_text(file_subcases(f).len())),
        ("#Warnings"@, decimal_text(f.warnings@.len())),
        ("#Fatals"@, decimal_text(f.fatal_errors@.len())),
        ("f06csv version"@, or_unknown(version)),
        ("f06csv authors"@, or_unknown(authors)),
        ("Part of"@, "the MYSTRAN project"@),
    ]
}

/// The view of a text that may be absent.
pub open spec fn opt_text(o: Option<&str>) -> Option<Seq<char>> {
    match o {
        Some(t) => Some(t@),
        None => None,
    }
}

/// Do the first nine records make the 0-block of a file?
pub open spec fn meta_block_ok(recs: Seq<CsvRecord>, f: F06File, version: Option<&str>, authors: Option<&str>) -> bool {
    let pairs = meta_pairs(f, opt_text(version), opt_text(authors));
    &&& recs.len() >= 9
    &&& forall|i: int| 0 <= i < 9 ==> is_meta_record(#[trigger] recs[i], pairs[i].0, pairs[i].1)
}

/// Whether records make the 0-block depends on their first nine only.
proof fn lemma_meta_block_prefix(
    a: Seq<CsvRecord>,
    b: Seq<CsvRecord>,
    f: F06File,
    version: Option<&str>,
    authors: Option<&str>,
)
    requires
        meta_block_ok(a, f, version, authors),
        b.len() >= 9,
        a.take(9) == b.take(9),
    ensures
        meta_block_ok(b, f, version, authors),
{
    assert forall|i: int| 0 <= i < 9 implies b[i] == a[i] by {
        assert(a.take(9)[i] == a[i]);
        assert(b.take(9)[i] == b[i]);
    }
}

/// A record of the 0-block.
fn meta_record(key: &str, value: String) -> (r: CsvRecord)
    ensures
        is_meta_record(r, key@, value@),
{
    let mut fields: Vec<CsvField> = Vec::new();
    fields.push(CsvField::String(key.to_owned()));
    fields.push(CsvField::String(value));
    let mut i: usize = 0;
    while i < 8
        invariant
            i <= 8,
            field_views(fields@) == seq![FieldView::Text(key@), FieldView::Text(value@)] + Seq::new(
                i as nat,
                |j: int| FieldView::Blank,
            ),
        decreases 8 - i,
    {
        let ghost before = fields@;
        fields.push(CsvField::Blank);
        i = i + 1;
        assert(field_views(fields@) =~= field_views(before).push(FieldView::Blank));
        assert(field_views(fields@) =~= seq![FieldView::Text(key@), FieldView::Text(value@)] + Seq::new(
            i as nat,
            |j: int| FieldView::Blank,
        ));
    }
    let headers: [&'static str; 10] = ["Key", "Value", HBLANK, HBLANK, HBLANK, HBLANK, HBLANK, HBLANK, HBLANK, HBLANK];
    assert(str_views(headers@) =~= meta_headers());
    assert(field_views(fields@) =~= meta_fields(key@, value@));
    CsvRecord {
        block_id: CsvBlockId::Metadata,
        block_type: None,
        gid: None,
        eid: None,
        etype: None,
        subcase: None,
        fields,
        headers,
    }
}

/// The owned text of a value that may be unknown.
fn unknown_or(v: Option<&str>) -> (r: String)
    ensures
        r@ == or_unknown(
            match v {
                Some(t) => Some(t@),
                None => None,
            },
        ),
{
    match v {
        Some(t) => t.to_owned(),
        None => "Unknown".to_owned(),
    }
}

/// Generates the 0-block for a file: the solver, the solution type, the
/// file's name, the numbers of subcases, warnings and fatal errors, and what
/// is known of the converting program (its version and authors).
pub fn zeroth_block(file: &F06File, version: Option<&str>, authors: Option<&str>) -> (r: Vec<CsvRecord>)
    requires
        file.wf(),
    ensures
        r@.len() == 9,
        meta_block_ok(r@, *file, version, authors),
{
    let solver: Option<&str> = match file.flavour.solver {
        Some(s) => Some(s.name()),
        None => None,
    };
    let soltype: Option<&str> = match file.flavour.soltype {
        Some(s) => Some(s.name()),
        None => None,
    };
    let filename: String = match &file.filename {
        Some(n) => n.clone(),
        None => "Unknown".to_owned(),
    };
    let subcases = file.subcases();
    proof {
        assert(subcases@.no_duplicates()) by {
            assert forall|i: int, j: int| 0 <= i < subcases@.len() && 0 <= j < subcases@.len() && i != j implies
                subcases@[i] != subcases@[j] by {
                if i < j {
                    assert(subcases@[i] < subcases@[j]);
                } else {
                    assert(subcases@[j] < subcases@[i]);
                }
            }
        }
        subcases@.unique_seq_to_set();
        assert(subcases@.to_set() =~= file_subcases(*file));
    }
    let mut r: Vec<CsvRecord> = Vec::new();
    r.push(meta_record("Solver", unknown_or(solver)));
    r.push(meta_record("Solution", unknown_or(soltype)));
    r.push(meta_record("Filename", filename));
    r.push(meta_record("#Subcases", usize_text(subcases.len())));
    r.push(meta_record("#Warnings", usize_text(file.warnings.len())));
    r.push(meta_record("#Fatals", usize_text(file.fatal_errors.len())));
    r.push(meta_record("f06csv version", unknown_or(version)));
    r.push(meta_record("f06csv authors", unknown_or(authors)));
    r.push(meta_record("Part of", "the MYSTRAN project".to_owned()));
    r
}


/// The first converter, from position `i` on, that is meant for a block type.
pub open spec fn converter_from(convs: Seq<BlockConverter>, bt: BlockType, i: int) -> Option<int>
    decreases convs.len() - i,
{
    if i < 0 || i >= convs.len() {
        None
    } else if convs[i].input_block_type == bt {
        Some(i)
    } else {
        converter_from(convs, bt, i + 1)
    }
}

/// The first converter that is meant for a block type.
pub open spec fn converter_for(convs: Seq<BlockConverter>, bt: BlockType) -> Option<int> {
    converter_from(convs, bt, 0)
}

/// The number of the CSV block that the blocks of a type go to.
pub open spec fn output_number(convs: Seq<BlockConverter>, bt: BlockType) -> nat {
    match converter_for(convs, bt) {
        Some(i) => csv_block_number(convs[i].output_block_id),
        None => 0,
    }
}

/// The converter found from a position on stands at or after it, and is
/// meant for the block type.
proof fn lemma_converter_from(convs: Seq<BlockConverter>, bt: BlockType, i: int)
    requires
        0 <= i,
    ensures
        converter_from(convs, bt, i) matches Some(k) ==> i <= k < convs.len() && convs[k].input_block_type == bt,
    decreases convs.len() - i,
{
    if i < convs.len() && convs[i].input_block_type != bt {
        lemma_converter_from(convs, bt, i + 1);
    }
}

/// Finds the first converter that is meant for a block type.
fn find_converter(convs: &Vec<BlockConverter>, bt: BlockType) -> (r: Option<usize>)
    ensures
        r matches Some(i) ==> converter_for(convs@, bt) == Some(i as int),
        r is None ==> converter_for(convs@, bt) is None,
        r matches Some(i) ==> i < convs@.len() && convs@[i as int].input_block_type == bt,
{
    proof {
        lemma_converter_from(convs@, bt, 0);
    }
    let mut i: usize = 0;
    while i < convs.len()
        invariant
            i <= convs@.len(),
            converter_from(convs@, bt, 0) == converter_from(convs@, bt, i as int),
        decreases convs@.len() - i,
    {
        if convs[i].input_block_type == bt {
            return Some(i);
        }
        i = i + 1;
    }
    None
}

/// The positions of the first `count` blocks of an entry.
pub open spec fn block_positions(e: int, count: nat) -> Seq<(int, int)> {
    Seq::new(count, |k: int| (e, k))
}

/// The (entry, block) positions of the blocks of the first `upto` entries
/// that go to the CSV block numbered `n`, in order.
pub open spec fn key_order(
    blocks: Seq<(BlockRef, Vec<FinalBlock>)>,
    convs: Seq<BlockConverter>,
    n: nat,
    upto: int,
) -> Seq<(int, int)>
    decreases upto,
{
    if upto <= 0 {
        Seq::empty()
    } else {
        let prev = key_order(blocks, convs, n, upto - 1);
        let bt = blocks[upto - 1].0.block_type;
        if converter_for(convs, bt) is Some && output_number(convs, bt) == n {
            prev + block_positions(upto - 1, blocks[upto - 1].1@.len())
        } else {
            prev
        }
    }
}

/// The (entry, block) positions of the blocks that go to the CSV blocks
/// numbered below `n`: by number of the CSV block, then in the file's order.
pub open spec fn record_order(blocks: Seq<(BlockRef, Vec<FinalBlock>)>, convs: Seq<BlockConverter>, n: nat) -> Seq<
    (int, int),
>
    decreases n,
{
    if n == 0 {
        Seq::empty()
    } else {
        record_order(blocks, convs, (n - 1) as nat) + key_order(blocks, convs, (n - 1) as nat, blocks.len() as int)
    }
}

/// Are `recs` the records that the blocks at the positions in `order` convert
/// into, one block after the other?
pub open spec fn records_of(
    recs: Seq<CsvRecord>,
    order: Seq<(int, int)>,
    f: F06File,
    convs: Seq<BlockConverter>,
) -> bool
    decreases order.len(),
{
    if order.len() == 0 {
        recs.len() == 0
    } else {
        let (e, j) = order.last();
        let blk = f.blocks@[e].1@[j];
        match converter_for(convs, blk.block_type) {
            Some(c) => {
                let n = blk.row_indexes.entries@.len() * convs[c].generators@.len();
                &&& n <= recs.len()
                &&& records_of(recs.take(recs.len() - n), order.drop_last(), f, convs)
                &&& converted_block(recs.skip(recs.len() - n), convs[c], blk, f.flavour)
            },
            None => false,
        }
    }
}

/// Generates all CSV records for a file: the 0-block, then the records of the
/// blocks that have a converter, by the number of the CSV block they go to
/// and, for one number, in the file's order.
pub fn to_records(file: &F06File, converters: &Vec<BlockConverter>, version: Option<&str>, authors: Option<&str>) -> (r:
    Vec<CsvRecord>)
    requires
        file.wf(),
        forall|i: int| 0 <= i < converters@.len() ==> (#[trigger] converters@[i]).wf(),
    ensures
        meta_block_ok(r@, *file, version, authors),
        records_of(r@.skip(9), record_order(file.blocks@, converters@, 10), *file, converters@),
        forall|i: int| 0 <= i < r@.len() ==> (#[trigger] r@[i]).wf(),
{
    let mut r = zeroth_block(file, version, authors);
    let ghost zeroth = r@;
    assert forall|i: int| 0 <= i < r@.len() implies (#[trigger] r@[i]).wf() by {
        assert(field_views(r@[i].fields@).len() == r@[i].fields@.len());
    }
    let ghost convs = converters@;
    let ghost blocks = file.blocks@;
    let mut n: usize = 0;
    assert(r@.skip(9) =~= Seq::<CsvRecord>::empty());
    while n < 10
        invariant
            file.wf(),
            convs == converters@,
            blocks == file.blocks@,
            forall|i: int| 0 <= i < convs.len() ==> (#[trigger] convs[i]).wf(),
            n <= 10,
            r@.len() >= 9,
            r@.take(9) == zeroth.take(9),
            forall|i: int| 0 <= i < r@.len() ==> (#[trigger] r@[i]).wf(),
            records_of(r@.skip(9), record_order(blocks, convs, n as nat), *file, convs),
        decreases 10 - n,
    {
        let mut e: usize = 0;
        while e < file.blocks.len()
            invariant
                file.wf(),
                convs == converters@,
                blocks == file.blocks@,
                forall|i: int| 0 <= i < convs.len() ==> (#[trigger] convs[i]).wf(),
                n < 10,
                e <= blocks.len(),
                r@.len() >= 9,
                r@.take(9) == zeroth.take(9),
                forall|i: int| 0 <= i < r@.len() ==> (#[trigger] r@[i]).wf(),
            forall|i: int| 0 <= i < r@.len() ==> (#[trigger] r@[i]).wf(),
                records_of(
                    r@.skip(9),
                    record_order(blocks, convs, n as nat) + key_order(blocks, convs, n as nat, e as int),
                    *file,
                    convs,
                ),
            decreases blocks.len() - e,
        {
            let entry = &file.blocks[e];
            let bt = entry.0.block_type;
            let found = find_converter(converters, bt);
            let ghost base = record_order(blocks, convs, n as nat) + key_order(blocks, convs, n as nat, e as int);
            if let Some(c) = found {
                let conv = &converters[c];
                assert(convs[c as int].wf());
                if conv.output_block_id.number() == n {
                    let mut j: usize = 0;
                    while j < entry.1.len()
                        invariant
                            file.wf(),
                            convs == converters@,
                            blocks == file.blocks@,
                            forall|i: int| 0 <= i < convs.len() ==> (#[trigger] convs[i]).wf(),
                            e < blocks.len(),
                            *entry == blocks[e as int],
                            converter_for(convs, bt) == Some(c as int),
                            bt == blocks[e as int].0.block_type,
                            c < convs.len(),
                            *conv == convs[c as int],
                            conv.wf(),
                            conv.input_block_type == bt,
                            j <= entry.1@.len(),
                            r@.len() >= 9,
                            r@.take(9) == zeroth.take(9),
                            forall|i: int| 0 <= i < r@.len() ==> (#[trigger] r@[i]).wf(),
                forall|i: int| 0 <= i < r@.len() ==> (#[trigger] r@[i]).wf(),
            forall|i: int| 0 <= i < r@.len() ==> (#[trigger] r@[i]).wf(),
                            records_of(r@.skip(9), base + block_positions(e as int, j as nat), *file, convs),
                        decreases entry.1@.len() - j,
                    {
                        let blk = &entry.1[j];
                        assert(blk.wf() && blk.bref() == blocks[e as int].0);
                        assert(blk.block_type == bt);
                        let converted = conv.convert_block(blk, &file.flavour);
                        if let Ok(mut recs) = converted {
                            let ghost old_r = r@;
                            let ghost new_recs = recs@;
                            r.append(&mut recs);
                            let ghost order = base + block_positions(e as int, (j + 1) as nat);
                            proof {
                                let nn = new_recs.len();
                                assert(*blk == file.blocks@[e as int].1@[j as int]);
                                assert(converted_block(new_recs, convs[c as int], *blk, file.flavour));
                                assert(nn == blk.row_indexes.entries@.len() * convs[c as int].generators@.len());
                                assert(order.last() == (e as int, j as int));
                                assert(order.drop_last() =~= base + block_positions(e as int, j as nat));
                                assert(r@.skip(9).take(r@.skip(9).len() - nn) =~= old_r.skip(9));
                                assert(r@.skip(9).skip(r@.skip(9).len() - nn) =~= new_recs);
                                assert(r@.take(9) =~= old_r.take(9));
                                assert(records_of(r@.skip(9), order, *file, convs));
                                assert forall|q: int| 0 <= q < r@.len() implies (#[trigger] r@[q]).wf() by {
                                    if q >= old_r.len() {
                                        let k = q - old_r.len();
                                        assert(r@[q] == new_recs[k]);
                                        let ng = convs[c as int].generators@.len() as int;
                                        assert(converted_record(new_recs[k], convs[c as int], *blk, file.flavour, blk.row_indexes.entries@[k / ng].0, k % ng));
                                        assert(0 <= k % ng < ng) by (nonlinear_arith)
                                            requires
                                                ng > 0,
                                                k >= 0,
                                        ;
                                        assert(convs[c as int].generators@[k % ng]@.len() == 10);
                                        assert(field_views(r@[q].fields@).len() == r@[q].fields@.len());
                                    } else {
                                        assert(r@[q] == old_r[q]);
                                    }
                                }
                            }
                        }
                        j = j + 1;
                    }
                    assert(base + block_positions(e as int, entry.1@.len()) =~= record_order(
                        blocks,
                        convs,
                        n as nat,
                    ) + key_order(blocks, convs, n as nat, e + 1));
                } else {
                    assert(base =~= record_order(blocks, convs, n as nat) + key_order(blocks, convs, n as nat, e + 1));
                }
            } else {
                assert(base =~= record_order(blocks, convs, n as nat) + key_order(blocks, convs, n as nat, e + 1));
            }
            e = e + 1;
        }
        n = n + 1;
    }
    proof {
        lemma_meta_block_prefix(zeroth, r@, *file, version, authors);
    }
    r
}

} // verus!
