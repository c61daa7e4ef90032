//! The general layout of the fixed-form CSV files made from F06 data: the
//! block identifiers, the fields and the records.

use vstd::prelude::*;
use vstd::string::StrSliceExecFns;

use crate::blocktypes::BlockType;
use crate::elements::{ElementType, etype_name};
use crate::numbers::{F06Number, NumberView, RealText};
use crate::text::{decimal_text, isize_text, signed_decimal_text, usize_text};

verus! {

/// Number of fields in a fixed-form CSV record.
pub const NAS_CSV_COLS: usize = 11;

/// CSV block IDs based on their content.
#[derive(Copy, Clone, Debug, PartialEq, Eq, Structural, PartialOrd, Ord)]
pub enum CsvBlockId {
    /// The 0-block: general solution info; subcase IDs, solution types, etc.
    Metadata,
    /// The 1-block: displacements.
    Displacements,
    /// The 2-block: stresses.
    Stresses,
    /// The 3-block: strains.
    Strains,
    /// The 4-block: element engineering forces.
    EngForces,
    /// The 5-block: grid point force balance.
    GridPointForces,
    /// The 6-block: applied forces.
    AppliedForces,
    /// The 7-block: forces of single-point constraint.
    SpcForces,
    /// The 8-block: eigenvectors.
    EigenVectors,
    /// The 9-block: real eigenvalues.
    Eigenvalues,
}

/// All block IDs, in the order of their numbers.
pub open spec fn all_csv_blocks() -> Seq<CsvBlockId> {
    seq![
        CsvBlockId::Metadata,
        CsvBlockId::Displacements,
        CsvBlockId::Stresses,
        CsvBlockId::Strains,
        CsvBlockId::EngForces,
        CsvBlockId::GridPointForces,
        CsvBlockId::AppliedForces,
        CsvBlockId::SpcForces,
        CsvBlockId::EigenVectors,
        CsvBlockId::Eigenvalues,
    ]
}

/// The number of a block ID, the first field of each of its records.
pub open spec fn csv_block_number(b: CsvBlockId) -> nat {
    match b {
        CsvBlockId::Metadata => 0,
        CsvBlockId::Displacements => 1,
        CsvBlockId::Stresses => 2,
        CsvBlockId::Strains => 3,
        CsvBlockId::EngForces => 4,
        CsvBlockId::GridPointForces => 5,
        CsvBlockId::AppliedForces => 6,
        CsvBlockId::SpcForces => 7,
        CsvBlockId::EigenVectors => 8,
        CsvBlockId::Eigenvalues => 9,
    }
}

/// The block ID of a number, if it is the number of one.
pub open spec fn csv_block_of_number(n: nat) -> Option<CsvBlockId> {
    if n < 10 {
        Some(all_csv_blocks()[n as int])
    } else {
        None
    }
}

/// The short help text of a block ID.
pub open spec fn csv_block_help(b: CsvBlockId) -> Seq<char> {
    match b {
        CsvBlockId::Metadata => "general solution info; subcase IDs, solution types, etc."@,
        CsvBlockId::Displacements => "displacements."@,
        CsvBlockId::Stresses => "stresses."@,
        CsvBlockId::Strains => "strains."@,
        CsvBlockId::EngForces => "element engineering forces."@,
        CsvBlockId::GridPointForces => "grid point force balance."@,
        CsvBlockId::AppliedForces => "applied forces."@,
        CsvBlockId::SpcForces => "forces of single-point constraint."@,
        CsvBlockId::EigenVectors => "eigenvectors."@,
        CsvBlockId::Eigenvalues => "real eigenvalues."@,
    }
}

/// The length of the help text of a block ID (all of them are ASCII, so this
/// is also their length in bytes).
pub open spec fn csv_block_help_len(b: CsvBlockId) -> nat {
    csv_block_help(b).len()
}

/// The constant name of a block ID.
pub open spec fn csv_block_name(b: CsvBlockId) -> Seq<char> {
    match b {
        CsvBlockId::Metadata => "Metadata"@,
        CsvBlockId::Displacements => "Displacements"@,
        CsvBlockId::Stresses => "Stresses"@,
        CsvBlockId::Strains => "Strains"@,
        CsvBlockId::EngForces => "EngForces"@,
        CsvBlockId::GridPointForces => "GridPointForces"@,
        CsvBlockId::AppliedForces => "AppliedForces"@,
        CsvBlockId::SpcForces => "SpcForces"@,
        CsvBlockId::EigenVectors => "EigenVectors"@,
        CsvBlockId::Eigenvalues => "Eigenvalues"@,
    }
}

/// The shorthand of a block ID.
pub open spec fn csv_block_shorthand(b: CsvBlockId) -> Seq<char> {
    match b {
        CsvBlockId::Metadata => "meta"@,
        CsvBlockId::Displacements => "disp"@,
        CsvBlockId::Stresses => "stress"@,
        CsvBlockId::Strains => "strain"@,
        CsvBlockId::EngForces => "engfor"@,
        CsvBlockId::GridPointForces => "gpforce"@,
        CsvBlockId::AppliedForces => "load"@,
        CsvBlockId::SpcForces => "spcfor"@,
        CsvBlockId::EigenVectors => "eigenvec"@,
        CsvBlockId::Eigenvalues => "eigenval"@,
    }
}

/// The hidden aliases of a block ID; the first is its number.
pub open spec fn csv_block_aliases(b: CsvBlockId) -> Seq<Seq<char>> {
    match b {
        CsvBlockId::Metadata => seq!["0"@, "sol"@, "sol_info"@, "info"@],
        CsvBlockId::Displacements => seq!["1"@, "disp"@, "displs"@, "displacements"@],
        CsvBlockId::Stresses => seq!["2"@, "stresses"@],
        CsvBlockId::Strains => seq!["3"@, "strains"@],
        CsvBlockId::EngForces => seq!["4"@, "engforces"@, "eng_forces"@],
        CsvBlockId::GridPointForces => seq![
            "5"@,
            "gpfb"@,
            "gpfor"@,
            "gpforces"@,
            "grid_point_forces"@,
            "grid_point_force_balance"@,
        ],
        CsvBlockId::AppliedForces => seq!["6"@, "applied"@],
        CsvBlockId::SpcForces => seq!["7"@, "spcf"@, "spcforces"@],
        CsvBlockId::EigenVectors => seq!["8"@, "eigenvectors"@],
        CsvBlockId::Eigenvalues => seq!["9"@, "eigenvalues"@],
    }
}

impl CsvBlockId {
    /// Returns all known block IDs.
    pub fn all() -> (r: &'static [CsvBlockId])
        ensures
            r@ == all_csv_blocks(),
    {
        let r: &'static [CsvBlockId] = &[
            CsvBlockId::Metadata,
            CsvBlockId::Displacements,
            CsvBlockId::Stresses,
            CsvBlockId::Strains,
            CsvBlockId::EngForces,
            CsvBlockId::GridPointForces,
            CsvBlockId::AppliedForces,
            CsvBlockId::SpcForces,
            CsvBlockId::EigenVectors,
            CsvBlockId::Eigenvalues,
        ];
        assert(r@ =~= all_csv_blocks());
        r
    }

    /// Returns the maximum length of all help strings.
    pub fn longest_help_len() -> (r: usize)
        ensures
            forall|b: CsvBlockId| csv_block_help_len(b) <= r,
            exists|b: CsvBlockId| csv_block_help_len(b) == r,
    {
        let all = CsvBlockId::all();
        let mut max: usize = 0;
        let mut i: usize = 0;
        while i < all.len()
            invariant
                all@ == all_csv_blocks(),
                i <= all@.len(),
                forall|j: int| 0 <= j < i ==> csv_block_help_len(#[trigger] all@[j]) <= max,
                i == 0 ==> max == 0,
                i > 0 ==> exists|j: int| 0 <= j < i && csv_block_help_len(#[trigger] all@[j]) == max,
            decreases all@.len() - i,
        {
            let help = all[i].help_string();
            let help_len = help.unicode_len();
            assert(help_len == csv_block_help_len(all@[i as int]));
            if help_len > max {
                max = help_len;
            }
            proof {
                if csv_block_help_len(all@[i as int]) != max {
                    let j = choose|j: int| 0 <= j < i && csv_block_help_len(#[trigger] all@[j]) == max;
                    assert(0 <= j < i + 1 && csv_block_help_len(all@[j]) == max);
                }
            }
            i = i + 1;
        }
        assert forall|b: CsvBlockId| csv_block_help_len(b) <= max by {
            lemma_csv_block_position(b);
        }
        let ghost j = choose|j: int| 0 <= j < all@.len() && csv_block_help_len(#[trigger] all@[j]) == max;
        assert(csv_block_help_len(all@[j]) == max);
        max
    }

    /// Returns a short help string for the specified case.
    pub fn help_string(&self) -> (r: &'static str)
        ensures
            r@ == csv_block_help(*self),
    {
        match self {
            CsvBlockId::Metadata => "general solution info; subcase IDs, solution types, etc.",
            CsvBlockId::Displacements => "displacements.",
            CsvBlockId::Stresses => "stresses.",
            CsvBlockId::Strains => "strains.",
            CsvBlockId::EngForces => "element engineering forces.",
            CsvBlockId::GridPointForces => "grid point force balance.",
            CsvBlockId::AppliedForces => "applied forces.",
            CsvBlockId::SpcForces => "forces of single-point constraint.",
            CsvBlockId::EigenVectors => "eigenvectors.",
            CsvBlockId::Eigenvalues => "real eigenvalues.",
        }
    }

    /// Returns a constant name for this block ID.
    pub fn name(&self) -> (r: &'static str)
        ensures
            r@ == csv_block_name(*self),
    {
        match self {
            CsvBlockId::Metadata => "Metadata",
            CsvBlockId::Displacements => "Displacements",
            CsvBlockId::Stresses => "Stresses",
            CsvBlockId::Strains => "Strains",
            CsvBlockId::EngForces => "EngForces",
            CsvBlockId::GridPointForces => "GridPointForces",
            CsvBlockId::AppliedForces => "AppliedForces",
            CsvBlockId::SpcForces => "SpcForces",
            CsvBlockId::EigenVectors => "EigenVectors",
            CsvBlockId::Eigenvalues => "Eigenvalues",
        }
    }

    /// Returns the shorthand for the block ID.
    pub fn shorthand(&self) -> (r: &'static str)
        ensures
            r@ == csv_block_shorthand(*self),
    {
        match self {
            CsvBlockId::Metadata => "meta",
            CsvBlockId::Displacements => "disp",
            CsvBlockId::Stresses => "stress",
            CsvBlockId::Strains => "strain",
            CsvBlockId::EngForces => "engfor",
            CsvBlockId::GridPointForces => "gpforce",
            CsvBlockId::AppliedForces => "load",
            CsvBlockId::SpcForces => "spcfor",
            CsvBlockId::EigenVectors => "eigenvec",
            CsvBlockId::Eigenvalues => "eigenval",
        }
    }

    /// Returns the hidden aliases for each block ID.
    pub fn aliases(&self) -> (r: &'static [&'static str])
        ensures
            r@.len() == csv_block_aliases(*self).len(),
            forall|i: int| 0 <= i < r@.len() ==> (#[trigger] r@[i])@ == csv_block_aliases(*self)[i],
    {
        match self {
            CsvBlockId::Metadata => {
                let r: &'static [&'static str] = &["0", "sol", "sol_info", "info"];
                r
            },
            CsvBlockId::Displacements => {
                let r: &'static [&'static str] = &["1", "disp", "displs", "displacements"];
                r
            },
            CsvBlockId::Stresses => {
                let r: &'static [&'static str] = &["2", "stresses"];
                r
            },
            CsvBlockId::Strains => {
                let r: &'static [&'static str] = &["3", "strains"];
                r
            },
            CsvBlockId::EngForces => {
                let r: &'static [&'static str] = &["4", "engforces", "eng_forces"];
                r
            },
            CsvBlockId::GridPointForces => {
                let r: &'static [&'static str] = &[
                    "5",
                    "gpfb",
                    "gpfor",
                    "gpforces",
                    "grid_point_forces",
                    "grid_point_force_balance",
                ];
                r
            },
            CsvBlockId::AppliedForces => {
                let r: &'static [&'static str] = &["6", "applied"];
                r
            },
            CsvBlockId::SpcForces => {
                let r: &'static [&'static str] = &["7", "spcf", "spcforces"];
                r
            },
            CsvBlockId::EigenVectors => {
                let r: &'static [&'static str] = &["8", "eigenvectors"];
                r
            },
            CsvBlockId::Eigenvalues => {
                let r: &'static [&'static str] = &["9", "eigenvalues"];
                r
            },
        }
    }

    /// Returns the number of the block ID.
    pub fn number(&self) -> (r: usize)
        ensures
            r == csv_block_number(*self),
    {
        match self {
            CsvBlockId::Metadata => 0,
            CsvBlockId::Displacements => 1,
            CsvBlockId::Stresses => 2,
            CsvBlockId::Strains => 3,
            CsvBlockId::EngForces => 4,
            CsvBlockId::GridPointForces => 5,
            CsvBlockId::AppliedForces => 6,
            CsvBlockId::SpcForces => 7,
            CsvBlockId::EigenVectors => 8,
            CsvBlockId::Eigenvalues => 9,
        }
    }

    /// Returns the block ID with a number, or an error for a number of none.
    pub fn from_number(value: usize) -> (r: Result<CsvBlockId, ()>)
        ensures
            r == (match csv_block_of_number(value as nat) {
                Some(b) => Ok(b),
                None => Err(()),
            }),
    {
        match value {
            0 => Ok(CsvBlockId::Metadata),
            1 => Ok(CsvBlockId::Displacements),
            2 => Ok(CsvBlockId::Stresses),
            3 => Ok(CsvBlockId::Strains),
            4 => Ok(CsvBlockId::EngForces),
            5 => Ok(CsvBlockId::GridPointForces),
            6 => Ok(CsvBlockId::AppliedForces),
            7 => Ok(CsvBlockId::SpcForces),
            8 => Ok(CsvBlockId::EigenVectors),
            9 => Ok(CsvBlockId::Eigenvalues),
            _ => Err(()),
        }
    }
}

/// Each block ID stands in the list of all of them at its number.
pub proof fn lemma_csv_block_position(b: CsvBlockId)
    ensures
        csv_block_number(b) < all_csv_blocks().len(),
        all_csv_blocks()[csv_block_number(b) as int] == b,
{
}

/// Reading back the number of a block ID gives that block ID, and each
/// number of a block ID is the number of exactly that one.
pub proof fn law_csv_block_number_roundtrip(b: CsvBlockId, n: nat)
    ensures
        csv_block_of_number(csv_block_number(b)) == Some(b),
        csv_block_of_number(n) matches Some(c) ==> csv_block_number(c) == n,
{
    if n < 10 {
        let c = all_csv_blocks()[n as int];
        assert(csv_block_number(c) == n);
    }
}

/// The first alias of a block ID is its number, written in decimal.
pub proof fn law_csv_block_first_alias(b: CsvBlockId)
    ensures
        csv_block_aliases(b)[0] == decimal_text(csv_block_number(b)),
{
    reveal_with_fuel(decimal_text, 2);
    match b {
        CsvBlockId::Metadata => {
            reveal_strlit("0");
            assert(csv_block_aliases(b)[0] =~= decimal_text(0));
        },
        CsvBlockId::Displacements => {
            reveal_strlit("1");
            assert(csv_block_aliases(b)[0] =~= decimal_text(1));
        },
        CsvBlockId::Stresses => {
            reveal_strlit("2");
            assert(csv_block_aliases(b)[0] =~= decimal_text(2));
        },
        CsvBlockId::Strains => {
            reveal_strlit("3");
            assert(csv_block_aliases(b)[0] =~= decimal_text(3));
        },
        CsvBlockId::EngForces => {
            reveal_strlit("4");
            assert(csv_block_aliases(b)[0] =~= decimal_text(4));
        },
        CsvBlockId::GridPointForces => {
            reveal_strlit("5");
            assert(csv_block_aliases(b)[0] =~= decimal_text(5));
        },
        CsvBlockId::AppliedForces => {
            reveal_strlit("6");
            assert(csv_block_aliases(b)[0] =~= decimal_text(6));
        },
        CsvBlockId::SpcForces => {
            reveal_strlit("7");
            assert(csv_block_aliases(b)[0] =~= decimal_text(7));
        },
        CsvBlockId::EigenVectors => {
            reveal_strlit("8");
            assert(csv_block_aliases(b)[0] =~= decimal_text(8));
        },
        CsvBlockId::Eigenvalues => {
            reveal_strlit("9");
            assert(csv_block_aliases(b)[0] =~= decimal_text(9));
        },
    }
}


/// The kinds of fields that a CSV record holds.
#[derive(Clone, Debug)]
pub enum CsvField {
    /// A blank field.
    Blank,
    /// An integer.
    Integer(isize),
    /// A natural number.
    Natural(usize),
    /// A real number, by its text.
    Real(RealText),
    /// A string.
    String(String),
    /// An element type.
    ElementType(ElementType),
}

/// The view of a CSV field.
pub ghost enum FieldView {
    /// A blank field.
    Blank,
    /// An integer.
    Integer(int),
    /// A natural number.
    Natural(nat),
    /// A real number, by its text.
    Real(Seq<char>),
    /// A string.
    Text(Seq<char>),
    /// An element type.
    ElementType(ElementType),
}

impl View for CsvField {
    type V = FieldView;

    open spec fn view(&self) -> FieldView {
        match self {
            CsvField::Blank => FieldView::Blank,
            CsvField::Integer(i) => FieldView::Integer(*i as int),
            CsvField::Natural(n) => FieldView::Natural(*n as nat),
            CsvField::Real(x) => FieldView::Real(x@),
            CsvField::String(s) => FieldView::Text(s@),
            CsvField::ElementType(et) => FieldView::ElementType(*et),
        }
    }
}

/// The field that holds a block value.
pub open spec fn number_field(n: NumberView) -> FieldView {
    match n {
        NumberView::Real(x) => FieldView::Real(x),
        NumberView::Integer(i) => FieldView::Integer(i),
        NumberView::Natural(k) => FieldView::Natural(k),
    }
}

/// The text that a field displays as, but for reals, whose display depends
/// on a floating-point formatting.
pub open spec fn field_text(f: FieldView) -> Seq<char> {
    match f {
        FieldView::Blank => Seq::empty(),
        FieldView::Integer(i) => signed_decimal_text(i),
        FieldView::Natural(n) => decimal_text(n),
        FieldView::Real(x) => x,
        FieldView::Text(s) => s,
        FieldView::ElementType(et) => etype_name(et),
    }
}

impl CsvField {
    /// The field that holds a block value.
    pub fn from_number(value: F06Number) -> (r: CsvField)
        ensures
            r@ == number_field(value@),
    {
        match value {
            F06Number::Real(x) => CsvField::Real(x),
            F06Number::Integer(i) => CsvField::Integer(i),
            F06Number::Natural(n) => CsvField::Natural(n),
        }
    }

    /// The field that holds the number of a block ID.
    pub fn from_block_id(value: CsvBlockId) -> (r: CsvField)
        ensures
            r@ == FieldView::Natural(csv_block_number(value)),
    {
        CsvField::Natural(value.number())
    }

    /// A copy of this field.
    pub fn copy(&self) -> (r: CsvField)
        ensures
            r@ == self@,
    {
        match self {
            CsvField::Blank => CsvField::Blank,
            CsvField::Integer(i) => CsvField::Integer(*i),
            CsvField::Natural(n) => CsvField::Natural(*n),
            CsvField::Real(x) => CsvField::Real(x.copy()),
            CsvField::String(s) => CsvField::String(s.clone()),
            CsvField::ElementType(et) => CsvField::ElementType(*et),
        }
    }

    /// The text this field displays as; none for a real, whose display is
    /// a floating-point formatting.
    pub fn display_text(&self) -> (r: Option<String>)
        ensures
            r is None <==> self@ is Real,
            r matches Some(t) ==> t@ == field_text(self@),
    {
        match self {
            CsvField::Blank => Some(String::new()),
            CsvField::Integer(i) => Some(isize_text(*i)),
            CsvField::Natural(n) => Some(usize_text(*n)),
            CsvField::Real(_) => None,
            CsvField::String(s) => Some(s.clone()),
            CsvField::ElementType(et) => Some(et.name().to_owned()),
        }
    }
}

/// A non-header line in a CSV file.
#[derive(Clone, Debug)]
pub struct CsvRecord {
    /// The CSV block type.
    pub block_id: CsvBlockId,
    /// Block type that originated this record. If none, it's the 0-block.
    pub block_type: Option<BlockType>,
    /// If this record relates to a grid point, its ID.
    pub gid: Option<usize>,
    /// If this record relates to an element, the element ID.
    pub eid: Option<usize>,
    /// If this record relates to an element, its type.
    pub etype: Option<ElementType>,
    /// If this record relates to a subcase, its ID.
    pub subcase: Option<usize>,
    /// The remaining ten fields.
    pub fields: Vec<CsvField>,
    /// The headers for the ten fields.
    pub headers: [&'static str; 10],
}

/// The views of a sequence of fields.
pub open spec fn field_views(s: Seq<CsvField>) -> Seq<FieldView> {
    s.map_values(|f: CsvField| f@)
}

/// The texts of a sequence of string slices.
pub open spec fn str_views(s: Seq<&str>) -> Seq<Seq<char>> {
    s.map_values(|t: &str| t@)
}

impl CsvRecord {
    /// A record is well formed when it has ten fields after the block ID.
    pub open spec fn wf(&self) -> bool {
        self.fields@.len() == NAS_CSV_COLS - 1
    }

    /// Returns this as eleven fields: the number of the block ID, then the
    /// ten fields.
    pub fn to_fields(self) -> (r: Vec<CsvField>)
        ensures
            field_views(r@) == seq![FieldView::Natural(csv_block_number(self.block_id))] + field_views(self.fields@),
    {
        let mut r: Vec<CsvField> = Vec::new();
        r.push(CsvField::from_block_id(self.block_id));
        let mut fields = self.fields;
        let ghost orig = fields@;
        r.append(&mut fields);
        assert(field_views(r@) =~= seq![FieldView::Natural(csv_block_number(self.block_id))] + field_views(orig));
        r
    }

    /// Returns this record's headers as eleven strings: the name of the block
    /// ID, then the headers of the ten fields.
    pub fn header_as_iter(&self) -> (r: Vec<&str>)
        ensures
            str_views(r@) == seq![csv_block_name(self.block_id)] + str_views(self.headers@),
    {
        let mut r: Vec<&str> = Vec::new();
        r.push(self.block_id.name());
        let mut i: usize = 0;
        while i < 10
            invariant
                i <= 10,
                self.headers@.len() == 10,
                str_views(r@) == seq![csv_block_name(self.block_id)] + str_views(self.headers@.take(i as int)),
            decreases 10 - i,
        {
            let h: &str = self.headers[i];
            assert(h == self.headers@[i as int]);
            assert(self.headers@.take(i + 1) =~= self.headers@.take(i as int).push(h));
            let ghost before = r@;
            r.push(h);
            i = i + 1;
            assert(str_views(r@) =~= str_views(before).push(h@));
            assert(str_views(self.headers@.take(i as int)) =~= str_views(self.headers@.take(i - 1)).push(h@));
            assert(str_views(r@) =~= seq![csv_block_name(self.block_id)] + str_views(self.headers@.take(i as int)));
        }
        assert(self.headers@.take(10) =~= self.headers@);
        r
    }
}


/// No spelling is an alias of two block IDs: the aliases name their block
/// ID unambiguously.
pub proof fn law_csv_block_aliases_distinct(a: CsvBlockId, b: CsvBlockId, i: int, j: int)
    requires
        a != b,
        0 <= i < csv_block_aliases(a).len(),
        0 <= j < csv_block_aliases(b).len(),
    ensures
        csv_block_aliases(a)[i] != csv_block_aliases(b)[j],
{
    reveal_strlit("0");
    reveal_strlit("sol");
    reveal_strlit("sol_info");
    reveal_strlit("info");
    reveal_strlit("1");
    reveal_strlit("disp");
    reveal_strlit("displs");
    reveal_strlit("displacements");
    reveal_strlit("2");
    reveal_strlit("stresses");
    reveal_strlit("3");
    reveal_strlit("strains");
    reveal_strlit("4");
    reveal_strlit("engforces");
    reveal_strlit("eng_forces");
    reveal_strlit("5");
    reveal_strlit("gpfb");
    reveal_strlit("gpfor");
    reveal_strlit("gpforces");
    reveal_strlit("grid_point_forces");
    reveal_strlit("grid_point_force_balance");
    reveal_strlit("6");
    reveal_strlit("applied");
    reveal_strlit("7");
    reveal_strlit("spcf");
    reveal_strlit("spcforces");
    reveal_strlit("8");
    reveal_strlit("eigenvectors");
    reveal_strlit("9");
    reveal_strlit("eigenvalues");
    let x = csv_block_aliases(a)[i];
    let y = csv_block_aliases(b)[j];
    if x == y {
        assert(x.len() == y.len());
        assert(x[0] == y[0]);
        assert(x[x.len() - 1] == y[y.len() - 1]);
    }
}

} // verus!
