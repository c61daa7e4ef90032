//! The known data blocks and the information tied to them: names, and the
//! header texts that signal their beginning.

use vstd::prelude::*;

use crate::elements::ElementType;
use crate::text::{chars_eq, chars_of};

verus! {

/// All the known data blocks.
#[derive(Copy, Clone, Debug, PartialEq, Eq, Structural)]
#[non_exhaustive]
pub enum BlockType {
    /// Grid point displacements.
    Displacements,
    /// Grid point force balance.
    GridPointForceBalance,
    /// Forces of single-point constraint.
    SpcForces,
    /// Applied forces.
    AppliedForces,
    /// Engineering forces in ELAS1 elements.
    Elas1Forces,
    /// Stresses in ELAS1 elements.
    Elas1Stresses,
    /// Strains in ELAS1 elements.
    Elas1Strains,
    /// Engineering forces in rod elements.
    RodForces,
    /// Stresses in rod elements.
    RodStresses,
    /// Strains in rod elements.
    RodStrains,
    /// Engineering forces in bar elements.
    BarForces,
    /// Stresses in bar elements.
    BarStresses,
    /// Strains in bar elements.
    BarStrains,
    /// Engineering forces in triangular elements.
    TriaForces,
    /// Stresses in triangular elements.
    TriaStresses,
    /// Strains in triangular elements.
    TriaStrains,
    /// Stresses in quadrilateral elements.
    QuadStresses,
    /// Strains in quadrilateral elements.
    QuadStrains,
    /// Engineering forces in quadrilateral elements.
    QuadForces,
}

/// The element type that a block type fixes for all of its rows: the blocks
/// of one-element families; none for grid point blocks and plate blocks,
/// whose element type comes from the block's header.
pub open spec fn block_elem_type(b: BlockType) -> Option<ElementType> {
    match b {
        BlockType::Elas1Forces | BlockType::Elas1Stresses | BlockType::Elas1Strains => Some(ElementType::Elas1),
        BlockType::RodForces | BlockType::RodStresses | BlockType::RodStrains => Some(ElementType::Rod),
        BlockType::BarForces | BlockType::BarStresses | BlockType::BarStrains => Some(ElementType::Bar),
        _ => None,
    }
}

/// The description of a block type.
pub open spec fn block_desc(b: BlockType) -> Seq<char> {
    match b {
        BlockType::Displacements => "Grid point displacements"@,
        BlockType::GridPointForceBalance => "Grid point force balance"@,
        BlockType::SpcForces => "Forces of single-point constraint"@,
        BlockType::AppliedForces => "Applied forces"@,
        BlockType::Elas1Forces => "Engineering forces in ELAS1 elements"@,
        BlockType::Elas1Stresses => "Stresses in ELAS1 elements"@,
        BlockType::Elas1Strains => "Strains in ELAS1 elements"@,
        BlockType::RodForces => "Engineering forces in rod elements"@,
        BlockType::RodStresses => "Stresses in rod elements"@,
        BlockType::RodStrains => "Strains in rod elements"@,
        BlockType::BarForces => "Engineering forces in bar elements"@,
        BlockType::BarStresses => "Stresses in bar elements"@,
        BlockType::BarStrains => "Strains in bar elements"@,
        BlockType::TriaForces => "Engineering forces in triangular elements"@,
        BlockType::TriaStresses => "Stresses in triangular elements"@,
        BlockType::TriaStrains => "Strains in triangular elements"@,
        BlockType::QuadStresses => "Stresses in quadrilateral elements"@,
        BlockType::QuadStrains => "Strains in quadrilateral elements"@,
        BlockType::QuadForces => "Engineering forces in quadrilateral elements"@,
    }
}

/// The CamelCase name of a block type.
pub open spec fn block_short_name(b: BlockType) -> Seq<char> {
    match b {
        BlockType::Displacements => "Displacements"@,
        BlockType::GridPointForceBalance => "GridPointForceBalance"@,
        BlockType::SpcForces => "SpcForces"@,
        BlockType::AppliedForces => "AppliedForces"@,
        BlockType::Elas1Forces => "Elas1Forces"@,
        BlockType::Elas1Stresses => "Elas1Stresses"@,
        BlockType::Elas1Strains => "Elas1Strains"@,
        BlockType::RodForces => "RodForces"@,
        BlockType::RodStresses => "RodStresses"@,
        BlockType::RodStrains => "RodStrains"@,
        BlockType::BarForces => "BarForces"@,
        BlockType::BarStresses => "BarStresses"@,
        BlockType::BarStrains => "BarStrains"@,
        BlockType::TriaForces => "TriaForces"@,
        BlockType::TriaStresses => "TriaStresses"@,
        BlockType::TriaStrains => "TriaStrains"@,
        BlockType::QuadStresses => "QuadStresses"@,
        BlockType::QuadStrains => "QuadStrains"@,
        BlockType::QuadForces => "QuadForces"@,
    }
}

/// The position of a block type in the canonical order, which is also their order.
pub open spec fn block_index(b: BlockType) -> nat {
    match b {
        BlockType::Displacements => 0,
        BlockType::GridPointForceBalance => 1,
        BlockType::SpcForces => 2,
        BlockType::AppliedForces => 3,
        BlockType::Elas1Forces => 4,
        BlockType::Elas1Stresses => 5,
        BlockType::Elas1Strains => 6,
        BlockType::RodForces => 7,
        BlockType::RodStresses => 8,
        BlockType::RodStrains => 9,
        BlockType::BarForces => 10,
        BlockType::BarStresses => 11,
        BlockType::BarStrains => 12,
        BlockType::TriaForces => 13,
        BlockType::TriaStresses => 14,
        BlockType::TriaStrains => 15,
        BlockType::QuadStresses => 16,
        BlockType::QuadStrains => 17,
        BlockType::QuadForces => 18,
    }
}

/// The upper-case header texts that signal the beginning of a block type.
pub open spec fn block_headers(b: BlockType) -> Seq<Seq<char>> {
    match b {
        BlockType::Displacements => seq!["DISPLACEMENTS"@, "DISPLACEMENT VECTOR"@],
        BlockType::GridPointForceBalance => seq!["GRID POINT FORCE BALANCE"@],
        BlockType::SpcForces => seq!["SPC FORCES"@, "FORCES OF SINGLE-POINT CONSTRAINT"@],
        BlockType::AppliedForces => seq!["APPLIED FORCES"@, "LOAD VECTOR"@],
        BlockType::Elas1Forces => seq!["FORCES IN SCALAR SPRINGS (CELAS1)"@, "ELEMENT ENGINEERING FORCES FOR ELEMENT TYPE ELAS1"@],
        BlockType::Elas1Stresses => seq!["STRESSES IN SCALAR SPRINGS (CELAS1)"@, "ELEMENT STRESSES IN LOCAL ELEMENT COORDINATE SYSTEM FOR ELEMENT TYPE ELAS1"@],
        BlockType::Elas1Strains => seq!["STRAINS IN SCALAR SPRINGS (CELAS1)"@, "ELEMENT STRAINS IN LOCAL ELEMENT COORDINATE SYSTEM FOR ELEMENT TYPE ELAS1"@],
        BlockType::RodForces => seq!["FORCES IN ROD ELEMENTS"@, "ELEMENT ENGINEERING FORCES FOR ELEMENT TYPE ROD"@],
        BlockType::RodStresses => seq!["STRESSES IN ROD ELEMENTS (CROD)"@, "ELEMENT STRESSES IN LOCAL ELEMENT COORDINATE SYSTEM FOR ELEMENT TYPE ROD"@],
        BlockType::RodStrains => seq!["STRAINS IN ROD ELEMENTS (CROD)"@, "ELEMENT STRAINS IN LOCAL ELEMENT COORDINATE SYSTEM FOR ELEMENT TYPE ROD"@],
        BlockType::BarForces => seq!["FORCES IN BAR ELEMENTS"@, "ELEMENT ENGINEERING FORCES FOR ELEMENT TYPE BAR"@],
        BlockType::BarStresses => seq!["STRESSES IN BAR ELEMENTS (CBAR)"@, "ELEMENT STRESSES IN LOCAL ELEMENT COORDINATE SYSTEM FOR ELEMENT TYPE BAR"@],
        BlockType::BarStrains => seq!["STRAINS IN BAR ELEMENTS (CBAR)"@, "ELEMENT STRAINS IN LOCAL ELEMENT COORDINATE SYSTEM FOR ELEMENT TYPE BAR"@],
        BlockType::TriaForces => seq!["FORCES IN TRIANGULAR ELEMENTS"@, "ELEMENT ENGINEERING FORCES FOR ELEMENT TYPE TRIA3"@],
        BlockType::TriaStresses => seq!["STRESSES IN TRIANGULAR ELEMENTS (TRIA3)"@, "ELEMENT STRESSES IN LOCAL ELEMENT COORDINATE SYSTEM FOR ELEMENT TYPE TRIA3"@],
        BlockType::TriaStrains => seq!["STRAINS IN TRIANGULAR ELEMENTS (TRIA3)"@, "ELEMENT STRAINS IN LOCAL ELEMENT COORDINATE SYSTEM FOR ELEMENT TYPE TRIA3"@],
        BlockType::QuadStresses => seq!["STRESSES IN QUADRILATERAL ELEMENTS"@, "ELEMENT STRESSES IN LOCAL ELEMENT COORDINATE SYSTEM FOR ELEMENT TYPE QUAD4"@],
        BlockType::QuadStrains => seq!["STRAINS IN QUADRILATERAL ELEMENTS"@, "ELEMENT STRAINS IN LOCAL ELEMENT COORDINATE SYSTEM FOR ELEMENT TYPE QUAD4"@],
        BlockType::QuadForces => seq!["FORCES IN QUADRILATERAL ELEMENTS"@, "ELEMENT ENGINEERING FORCES FOR ELEMENT TYPE QUAD4"@],
    }
}

/// All known block types, in canonical order.
pub open spec fn all_block_types() -> Seq<BlockType> {
    seq![
        BlockType::Displacements,
        BlockType::GridPointForceBalance,
        BlockType::SpcForces,
        BlockType::AppliedForces,
        BlockType::Elas1Forces,
        BlockType::Elas1Stresses,
        BlockType::Elas1Strains,
        BlockType::RodForces,
        BlockType::RodStresses,
        BlockType::RodStrains,
        BlockType::BarForces,
        BlockType::BarStresses,
        BlockType::BarStrains,
        BlockType::TriaForces,
        BlockType::TriaStresses,
        BlockType::TriaStrains,
        BlockType::QuadStresses,
        BlockType::QuadStrains,
        BlockType::QuadForces,
    ]
}

/// Names the result of converting a text to snake case with the
/// `convert_case` crate.
pub uninterp spec fn snake_case(s: Seq<char>) -> Seq<char>;

/// Calls `convert_case::Casing::to_case` with `Case::Snake`. The contract
/// claims only that the result is a function of the text alone.
#[verifier::external_body]
fn to_snake_case(s: &str) -> (r: String)
    ensures
        r@ == snake_case(s@),
{
    convert_case::Casing::to_case(&s, convert_case::Case::Snake)
}

/// Distinct block types have distinct positions in the canonical order.
pub proof fn lemma_block_index_injective(a: BlockType, b: BlockType)
    ensures
        block_index(a) == block_index(b) ==> a == b,
        block_index(a) < all_block_types().len(),
        all_block_types()[block_index(a) as int] == a,
{
}

impl BlockType {
    /// Returns all known block types.
    pub fn all() -> (r: &'static [BlockType])
        ensures
            r@ == all_block_types(),
    {
        let r: &'static [BlockType] = &[
            BlockType::Displacements,
            BlockType::GridPointForceBalance,
            BlockType::SpcForces,
            BlockType::AppliedForces,
            BlockType::Elas1Forces,
            BlockType::Elas1Stresses,
            BlockType::Elas1Strains,
            BlockType::RodForces,
            BlockType::RodStresses,
            BlockType::RodStrains,
            BlockType::BarForces,
            BlockType::BarStresses,
            BlockType::BarStrains,
            BlockType::TriaForces,
            BlockType::TriaStresses,
            BlockType::TriaStrains,
            BlockType::QuadStresses,
            BlockType::QuadStrains,
            BlockType::QuadForces,
        ];
        assert(r@ =~= all_block_types());
        r
    }

    /// Returns the description of the block.
    pub fn desc(&self) -> (r: &'static str)
        ensures
            r@ == block_desc(*self),
    {
        match self {
            BlockType::Displacements => "Grid point displacements",
            BlockType::GridPointForceBalance => "Grid point force balance",
            BlockType::SpcForces => "Forces of single-point constraint",
            BlockType::AppliedForces => "Applied forces",
            BlockType::Elas1Forces => "Engineering forces in ELAS1 elements",
            BlockType::Elas1Stresses => "Stresses in ELAS1 elements",
            BlockType::Elas1Strains => "Strains in ELAS1 elements",
            BlockType::RodForces => "Engineering forces in rod elements",
            BlockType::RodStresses => "Stresses in rod elements",
            BlockType::RodStrains => "Strains in rod elements",
            BlockType::BarForces => "Engineering forces in bar elements",
            BlockType::BarStresses => "Stresses in bar elements",
            BlockType::BarStrains => "Strains in bar elements",
            BlockType::TriaForces => "Engineering forces in triangular elements",
            BlockType::TriaStresses => "Stresses in triangular elements",
            BlockType::TriaStrains => "Strains in triangular elements",
            BlockType::QuadStresses => "Stresses in quadrilateral elements",
            BlockType::QuadStrains => "Strains in quadrilateral elements",
            BlockType::QuadForces => "Engineering forces in quadrilateral elements",
        }
    }

    /// Returns the small CamelCase name of the variant.
    pub fn short_name(&self) -> (r: &'static str)
        ensures
            r@ == block_short_name(*self),
    {
        match self {
            BlockType::Displacements => "Displacements",
            BlockType::GridPointForceBalance => "GridPointForceBalance",
            BlockType::SpcForces => "SpcForces",
            BlockType::AppliedForces => "AppliedForces",
            BlockType::Elas1Forces => "Elas1Forces",
            BlockType::Elas1Stresses => "Elas1Stresses",
            BlockType::Elas1Strains => "Elas1Strains",
            BlockType::RodForces => "RodForces",
            BlockType::RodStresses => "RodStresses",
            BlockType::RodStrains => "RodStrains",
            BlockType::BarForces => "BarForces",
            BlockType::BarStresses => "BarStresses",
            BlockType::BarStrains => "BarStrains",
            BlockType::TriaForces => "TriaForces",
            BlockType::TriaStresses => "TriaStresses",
            BlockType::TriaStrains => "TriaStrains",
            BlockType::QuadStresses => "QuadStresses",
            BlockType::QuadStrains => "QuadStrains",
            BlockType::QuadForces => "QuadForces",
        }
    }

    /// Returns the position of the variant in the canonical order.
    pub fn index(&self) -> (r: usize)
        ensures
            r == block_index(*self),
    {
        match self {
            BlockType::Displacements => 0,
            BlockType::GridPointForceBalance => 1,
            BlockType::SpcForces => 2,
            BlockType::AppliedForces => 3,
            BlockType::Elas1Forces => 4,
            BlockType::Elas1Stresses => 5,
            BlockType::Elas1Strains => 6,
            BlockType::RodForces => 7,
            BlockType::RodStresses => 8,
            BlockType::RodStrains => 9,
            BlockType::BarForces => 10,
            BlockType::BarStresses => 11,
            BlockType::BarStrains => 12,
            BlockType::TriaForces => 13,
            BlockType::TriaStresses => 14,
            BlockType::TriaStrains => 15,
            BlockType::QuadStresses => 16,
            BlockType::QuadStrains => 17,
            BlockType::QuadForces => 18,
        }
    }

    /// Returns the known upper-case forms that signal the beginning of this
    /// block.
    pub fn headers(&self) -> (r: &'static [&'static str])
        ensures
            r@.len() == block_headers(*self).len(),
            forall|i: int| 0 <= i < r@.len() ==> (#[trigger] r@[i])@ == block_headers(*self)[i],
    {
        match self {
            BlockType::Displacements => {
                let r: &'static [&'static str] = &["DISPLACEMENTS", "DISPLACEMENT VECTOR"];
                assert(r@.len() == block_headers(*self).len());
                r
            },
            BlockType::GridPointForceBalance => {
                let r: &'static [&'static str] = &["GRID POINT FORCE BALANCE"];
                assert(r@.len() == block_headers(*self).len());
                r
            },
            BlockType::SpcForces => {
                let r: &'static [&'static str] = &["SPC FORCES", "FORCES OF SINGLE-POINT CONSTRAINT"];
                assert(r@.len() == block_headers(*self).len());
                r
            },
            BlockType::AppliedForces => {
                let r: &'static [&'static str] = &["APPLIED FORCES", "LOAD VECTOR"];
                assert(r@.len() == block_headers(*self).len());
                r
            },
            BlockType::Elas1Forces => {
                let r: &'static [&'static str] = &["FORCES IN SCALAR SPRINGS (CELAS1)", "ELEMENT ENGINEERING FORCES FOR ELEMENT TYPE ELAS1"];
                assert(r@.len() == block_headers(*self).len());
                r
            },
            BlockType::Elas1Stresses => {
                let r: &'static [&'static str] = &["STRESSES IN SCALAR SPRINGS (CELAS1)", "ELEMENT STRESSES IN LOCAL ELEMENT COORDINATE SYSTEM FOR ELEMENT TYPE ELAS1"];
                assert(r@.len() == block_headers(*self).len());
                r
            },
            BlockType::Elas1Strains => {
                let r: &'static [&'static str] = &["STRAINS IN SCALAR SPRINGS (CELAS1)", "ELEMENT STRAINS IN LOCAL ELEMENT COORDINATE SYSTEM FOR ELEMENT TYPE ELAS1"];
                assert(r@.len() == block_headers(*self).len());
                r
            },
            BlockType::RodForces => {
                let r: &'static [&'static str] = &["FORCES IN ROD ELEMENTS", "ELEMENT ENGINEERING FORCES FOR ELEMENT TYPE ROD"];
                assert(r@.len() == block_headers(*self).len());
                r
            },
            BlockType::RodStresses => {
                let r: &'static [&'static str] = &["STRESSES IN ROD ELEMENTS (CROD)", "ELEMENT STRESSES IN LOCAL ELEMENT COORDINATE SYSTEM FOR ELEMENT TYPE ROD"];
                assert(r@.len() == block_headers(*self).len());
                r
            },
            BlockType::RodStrains => {
                let r: &'static [&'static str] = &["STRAINS IN ROD ELEMENTS (CROD)", "ELEMENT STRAINS IN LOCAL ELEMENT COORDINATE SYSTEM FOR ELEMENT TYPE ROD"];
                assert(r@.len() == block_headers(*self).len());
                r
            },
            BlockType::BarForces => {
                let r: &'static [&'static str] = &["FORCES IN BAR ELEMENTS", "ELEMENT ENGINEERING FORCES FOR ELEMENT TYPE BAR"];
                assert(r@.len() == block_headers(*self).len());
                r
            },
            BlockType::BarStresses => {
                let r: &'static [&'static str] = &["STRESSES IN BAR ELEMENTS (CBAR)", "ELEMENT STRESSES IN LOCAL ELEMENT COORDINATE SYSTEM FOR ELEMENT TYPE BAR"];
                assert(r@.len() == block_headers(*self).len());
                r
            },
            BlockType::BarStrains => {
                let r: &'static [&'static str] = &["STRAINS IN BAR ELEMENTS (CBAR)", "ELEMENT STRAINS IN LOCAL ELEMENT COORDINATE SYSTEM FOR ELEMENT TYPE BAR"];
                assert(r@.len() == block_headers(*self).len());
                r
            },
            BlockType::TriaForces => {
                let r: &'static [&'static str] = &["FORCES IN TRIANGULAR ELEMENTS", "ELEMENT ENGINEERING FORCES FOR ELEMENT TYPE TRIA3"];
                assert(r@.len() == block_headers(*self).len());
                r
            },
            BlockType::TriaStresses => {
                let r: &'static [&'static str] = &["STRESSES IN TRIANGULAR ELEMENTS (TRIA3)", "ELEMENT STRESSES IN LOCAL ELEMENT COORDINATE SYSTEM FOR ELEMENT TYPE TRIA3"];
                assert(r@.len() == block_headers(*self).len());
                r
            },
            BlockType::TriaStrains => {
                let r: &'static [&'static str] = &["STRAINS IN TRIANGULAR ELEMENTS (TRIA3)", "ELEMENT STRAINS IN LOCAL ELEMENT COORDINATE SYSTEM FOR ELEMENT TYPE TRIA3"];
                assert(r@.len() == block_headers(*self).len());
                r
            },
            BlockType::QuadStresses => {
                let r: &'static [&'static str] = &["STRESSES IN QUADRILATERAL ELEMENTS", "ELEMENT STRESSES IN LOCAL ELEMENT COORDINATE SYSTEM FOR ELEMENT TYPE QUAD4"];
                assert(r@.len() == block_headers(*self).len());
                r
            },
            BlockType::QuadStrains => {
                let r: &'static [&'static str] = &["STRAINS IN QUADRILATERAL ELEMENTS", "ELEMENT STRAINS IN LOCAL ELEMENT COORDINATE SYSTEM FOR ELEMENT TYPE QUAD4"];
                assert(r@.len() == block_headers(*self).len());
                r
            },
            BlockType::QuadForces => {
                let r: &'static [&'static str] = &["FORCES IN QUADRILATERAL ELEMENTS", "ELEMENT ENGINEERING FORCES FOR ELEMENT TYPE QUAD4"];
                assert(r@.len() == block_headers(*self).len());
                r
            },
        }
    }

    /// Returns the small, snake case name of the variant.
    pub fn snake_case_name(&self) -> (r: String)
        ensures
            r@ == snake_case(block_short_name(*self)),
    {
        to_snake_case(self.short_name())
    }

    /// The element type of every row of the block, where the block type
    /// alone fixes it.
    pub fn elem_type(&self) -> (r: Option<ElementType>)
        ensures
            r == block_elem_type(*self),
    {
        match self {
            BlockType::Elas1Forces | BlockType::Elas1Stresses | BlockType::Elas1Strains => Some(ElementType::Elas1),
            BlockType::RodForces | BlockType::RodStresses | BlockType::RodStrains => Some(ElementType::Rod),
            BlockType::BarForces | BlockType::BarStresses | BlockType::BarStrains => Some(ElementType::Bar),
            _ => None,
        }
    }

    /// The block type whose short name is the given text, if any.
    pub fn from_short_name(s: &str) -> (r: Option<BlockType>)
        ensures
            r matches Some(bt) ==> block_short_name(bt) == s@,
            r is None ==> forall|bt: BlockType| block_short_name(bt) != s@,
    {
        proof {
            lemma_all_block_types();
        }
        let cs = chars_of(s);
        let all = BlockType::all();
        let mut i: usize = 0;
        while i < all.len()
            invariant
                all@ == all_block_types(),
                all@.len() == 19,
                cs@ == s@,
                i <= all@.len(),
                forall|j: int| 0 <= j < i ==> block_short_name(#[trigger] all@[j]) != s@,
            decreases all.len() - i,
        {
            let n = chars_of(all[i].short_name());
            if chars_eq(&cs, &n) {
                return Some(all[i]);
            }
            i = i + 1;
        }
        proof {
            assert forall|bt: BlockType| block_short_name(bt) != s@ by {
                lemma_all_block_types();
                assert(all@[block_index(bt) as int] == bt);
            }
        }
        None
    }

    /// Orders block types by their position in the canonical order.
    pub fn less(&self, other: &BlockType) -> (r: bool)
        ensures
            r == (block_index(*self) < block_index(*other)),
    {
        self.index() < other.index()
    }
}


/// Each block type is in the list of all block types, at its index.
pub proof fn lemma_all_block_types()
    ensures
        all_block_types().len() == 19,
        forall|bt: BlockType| block_index(bt) < 19 && #[trigger] all_block_types()[block_index(bt) as int] == bt,
        forall|i: int| 0 <= i < 19 ==> #[trigger] block_index(all_block_types()[i]) == i,
{
    assert forall|bt: BlockType| block_index(bt) < 19 && #[trigger] all_block_types()[block_index(bt) as int] == bt by {
        match bt {
            BlockType::Displacements => {},
            BlockType::GridPointForceBalance => {},
            BlockType::SpcForces => {},
            BlockType::AppliedForces => {},
            BlockType::Elas1Forces => {},
            BlockType::Elas1Stresses => {},
            BlockType::Elas1Strains => {},
            BlockType::RodForces => {},
            BlockType::RodStresses => {},
            BlockType::RodStrains => {},
            BlockType::BarForces => {},
            BlockType::BarStresses => {},
            BlockType::BarStrains => {},
            BlockType::TriaForces => {},
            BlockType::TriaStresses => {},
            BlockType::TriaStrains => {},
            BlockType::QuadStresses => {},
            BlockType::QuadStrains => {},
            BlockType::QuadForces => {},
        }
    }
    assert forall|i: int| 0 <= i < 19 implies #[trigger] block_index(all_block_types()[i]) == i by {
        if i == 0 {} else if i == 1 {} else if i == 2 {} else if i == 3 {} else if i == 4 {} else if i == 5 {} else if i == 6 {} else if i == 7 {} else if i == 8 {} else if i == 9 {} else if i == 10 {} else if i == 11 {} else if i == 12 {} else if i == 13 {} else if i == 14 {} else if i == 15 {} else if i == 16 {} else if i == 17 {} else if i == 18 {}
    }
}

} // verus!
