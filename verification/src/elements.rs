//! The kinds of elements that appear in solver output, so that output
//! fields can be handled generically over elements.

use vstd::prelude::*;

use crate::text::{chars_eq, chars_of};

verus! {

/// Broadly-defined element categories.
#[derive(Copy, Clone, Debug, PartialEq, Eq, Structural)]
pub enum ElementCategory {
    /// Rigid-body elements, like RBE2.
    RigidBody,
    /// Scalar mass elements, like MASS1.
    ScalarMass,
    /// Scalar spring elements, like ELAS1.
    ScalarSpring,
    /// Bushing elements, like BUSH.
    Bushing,
    /// One-dimensional elastic elements, like ROD.
    OneDimensionalElastic,
    /// Two-dimensional elastic elements, like QUAD4.
    TwoDimensionalElastic,
    /// Three-dimensional elastic elements, like HEXA.
    ThreeDimensionalElastic,
}

/// Known element types.
#[derive(Copy, Clone, Debug, PartialEq, Eq, Structural)]
#[non_exhaustive]
pub enum ElementType {
    /// The RBE2 element.
    Rbe2,
    /// The RBE3 element.
    Rbe3,
    /// The RSPLINE element.
    Rspline,
    /// The MASS1 element.
    Mass1,
    /// The MASS2 element.
    Mass2,
    /// The MASS3 element.
    Mass3,
    /// The MASS4 element.
    Mass4,
    /// The ELAS1 element.
    Elas1,
    /// The ELAS2 element.
    Elas2,
    /// The ELAS3 element.
    Elas3,
    /// The ELAS4 element.
    Elas4,
    /// The BUSH element.
    Bush,
    /// The BAR element.
    Bar,
    /// The ROD element.
    Rod,
    /// The BEAM element.
    Beam,
    /// The QUAD4 element.
    Quad4,
    /// The QUAD4K element.
    Quad4k,
    /// The QUAD6 element.
    Quad6,
    /// The QUAD8 element.
    Quad8,
    /// The QUADR element.
    Quadr,
    /// The TRIA3 element.
    Tria3,
    /// The TRIA3K element.
    Tria3k,
    /// The TRIA6 element.
    Tria6,
    /// The TRIAR element.
    Triar,
    /// The SHEAR element.
    Shear,
    /// The TETRA element.
    Tetra,
    /// The PENTA element.
    Penta,
    /// The HEXA element.
    Hexa,
}

/// The all-caps name of an element type.
pub open spec fn etype_name(e: ElementType) -> Seq<char> {
    match e {
        ElementType::Rbe2 => "RBE2"@,
        ElementType::Rbe3 => "RBE3"@,
        ElementType::Rspline => "RSPLINE"@,
        ElementType::Mass1 => "MASS1"@,
        ElementType::Mass2 => "MASS2"@,
        ElementType::Mass3 => "MASS3"@,
        ElementType::Mass4 => "MASS4"@,
        ElementType::Elas1 => "ELAS1"@,
        ElementType::Elas2 => "ELAS2"@,
        ElementType::Elas3 => "ELAS3"@,
        ElementType::Elas4 => "ELAS4"@,
        ElementType::Bush => "BUSH"@,
        ElementType::Bar => "BAR"@,
        ElementType::Rod => "ROD"@,
        ElementType::Beam => "BEAM"@,
        ElementType::Quad4 => "QUAD4"@,
        ElementType::Quad4k => "QUAD4K"@,
        ElementType::Quad6 => "QUAD6"@,
        ElementType::Quad8 => "QUAD8"@,
        ElementType::Quadr => "QUADR"@,
        ElementType::Tria3 => "TRIA3"@,
        ElementType::Tria3k => "TRIA3K"@,
        ElementType::Tria6 => "TRIA6"@,
        ElementType::Triar => "TRIAR"@,
        ElementType::Shear => "SHEAR"@,
        ElementType::Tetra => "TETRA"@,
        ElementType::Penta => "PENTA"@,
        ElementType::Hexa => "HEXA"@,
    }
}

/// The category of an element type.
pub open spec fn etype_category(e: ElementType) -> ElementCategory {
    match e {
        ElementType::Rbe2 => ElementCategory::RigidBody,
        ElementType::Rbe3 => ElementCategory::RigidBody,
        ElementType::Rspline => ElementCategory::RigidBody,
        ElementType::Mass1 => ElementCategory::ScalarMass,
        ElementType::Mass2 => ElementCategory::ScalarMass,
        ElementType::Mass3 => ElementCategory::ScalarMass,
        ElementType::Mass4 => ElementCategory::ScalarMass,
        ElementType::Elas1 => ElementCategory::ScalarSpring,
        ElementType::Elas2 => ElementCategory::ScalarSpring,
        ElementType::Elas3 => ElementCategory::ScalarSpring,
        ElementType::Elas4 => ElementCategory::ScalarSpring,
        ElementType::Bush => ElementCategory::Bushing,
        ElementType::Bar => ElementCategory::OneDimensionalElastic,
        ElementType::Rod => ElementCategory::OneDimensionalElastic,
        ElementType::Beam => ElementCategory::OneDimensionalElastic,
        ElementType::Quad4 => ElementCategory::TwoDimensionalElastic,
        ElementType::Quad4k => ElementCategory::TwoDimensionalElastic,
        ElementType::Quad6 => ElementCategory::TwoDimensionalElastic,
        ElementType::Quad8 => ElementCategory::TwoDimensionalElastic,
        ElementType::Quadr => ElementCategory::TwoDimensionalElastic,
        ElementType::Tria3 => ElementCategory::TwoDimensionalElastic,
        ElementType::Tria3k => ElementCategory::TwoDimensionalElastic,
        ElementType::Tria6 => ElementCategory::TwoDimensionalElastic,
        ElementType::Triar => ElementCategory::TwoDimensionalElastic,
        ElementType::Shear => ElementCategory::TwoDimensionalElastic,
        ElementType::Tetra => ElementCategory::ThreeDimensionalElastic,
        ElementType::Penta => ElementCategory::ThreeDimensionalElastic,
        ElementType::Hexa => ElementCategory::ThreeDimensionalElastic,
    }
}

/// All known element types, in their canonical order.
pub open spec fn all_etypes() -> Seq<ElementType> {
    seq![
        ElementType::Rbe2,
        ElementType::Rbe3,
        ElementType::Rspline,
        ElementType::Mass1,
        ElementType::Mass2,
        ElementType::Mass3,
        ElementType::Mass4,
        ElementType::Elas1,
        ElementType::Elas2,
        ElementType::Elas3,
        ElementType::Elas4,
        ElementType::Bush,
        ElementType::Bar,
        ElementType::Rod,
        ElementType::Beam,
        ElementType::Quad4,
        ElementType::Quad4k,
        ElementType::Quad6,
        ElementType::Quad8,
        ElementType::Quadr,
        ElementType::Tria3,
        ElementType::Tria3k,
        ElementType::Tria6,
        ElementType::Triar,
        ElementType::Shear,
        ElementType::Tetra,
        ElementType::Penta,
        ElementType::Hexa,
    ]
}

/// The position of an element type's name in the alphabetical order of all
/// names; element types are ordered by their names.
pub open spec fn etype_rank(e: ElementType) -> nat {
    match e {
        ElementType::Rbe2 => 18,
        ElementType::Rbe3 => 19,
        ElementType::Rspline => 21,
        ElementType::Mass1 => 8,
        ElementType::Mass2 => 9,
        ElementType::Mass3 => 10,
        ElementType::Mass4 => 11,
        ElementType::Elas1 => 3,
        ElementType::Elas2 => 4,
        ElementType::Elas3 => 5,
        ElementType::Elas4 => 6,
        ElementType::Bush => 2,
        ElementType::Bar => 0,
        ElementType::Rod => 20,
        ElementType::Beam => 1,
        ElementType::Quad4 => 13,
        ElementType::Quad4k => 14,
        ElementType::Quad6 => 15,
        ElementType::Quad8 => 16,
        ElementType::Quadr => 17,
        ElementType::Tria3 => 24,
        ElementType::Tria3k => 25,
        ElementType::Tria6 => 26,
        ElementType::Triar => 27,
        ElementType::Shear => 22,
        ElementType::Tetra => 23,
        ElementType::Penta => 12,
        ElementType::Hexa => 7,
    }
}

/// The first element type, from position `i` of `all_etypes` on, whose
/// name is `s`.
pub open spec fn etype_named_from(s: Seq<char>, i: int) -> Option<ElementType>
    decreases all_etypes().len() - i,
{
    if i < 0 || i >= all_etypes().len() {
        None
    } else if etype_name(all_etypes()[i]) == s {
        Some(all_etypes()[i])
    } else {
        etype_named_from(s, i + 1)
    }
}

/// The element type whose name is `s`, if any.
pub open spec fn etype_named(s: Seq<char>) -> Option<ElementType> {
    etype_named_from(s, 0)
}

/// Distinct element types have distinct ranks.
pub proof fn lemma_etype_rank_injective(a: ElementType, b: ElementType)
    ensures
        etype_rank(a) == etype_rank(b) ==> a == b,
        etype_rank(a) < 28,
{
}

/// Every element type is listed in `all_etypes`.
pub proof fn lemma_all_etypes_complete(e: ElementType)
    ensures
        all_etypes().contains(e),
{
    match e {
        ElementType::Rbe2 => assert(all_etypes()[0] == e),
        ElementType::Rbe3 => assert(all_etypes()[1] == e),
        ElementType::Rspline => assert(all_etypes()[2] == e),
        ElementType::Mass1 => assert(all_etypes()[3] == e),
        ElementType::Mass2 => assert(all_etypes()[4] == e),
        ElementType::Mass3 => assert(all_etypes()[5] == e),
        ElementType::Mass4 => assert(all_etypes()[6] == e),
        ElementType::Elas1 => assert(all_etypes()[7] == e),
        ElementType::Elas2 => assert(all_etypes()[8] == e),
        ElementType::Elas3 => assert(all_etypes()[9] == e),
        ElementType::Elas4 => assert(all_etypes()[10] == e),
        ElementType::Bush => assert(all_etypes()[11] == e),
        ElementType::Bar => assert(all_etypes()[12] == e),
        ElementType::Rod => assert(all_etypes()[13] == e),
        ElementType::Beam => assert(all_etypes()[14] == e),
        ElementType::Quad4 => assert(all_etypes()[15] == e),
        ElementType::Quad4k => assert(all_etypes()[16] == e),
        ElementType::Quad6 => assert(all_etypes()[17] == e),
        ElementType::Quad8 => assert(all_etypes()[18] == e),
        ElementType::Quadr => assert(all_etypes()[19] == e),
        ElementType::Tria3 => assert(all_etypes()[20] == e),
        ElementType::Tria3k => assert(all_etypes()[21] == e),
        ElementType::Tria6 => assert(all_etypes()[22] == e),
        ElementType::Triar => assert(all_etypes()[23] == e),
        ElementType::Shear => assert(all_etypes()[24] == e),
        ElementType::Tetra => assert(all_etypes()[25] == e),
        ElementType::Penta => assert(all_etypes()[26] == e),
        ElementType::Hexa => assert(all_etypes()[27] == e),
    }
}

impl ElementType {
    /// Returns the all-caps name of the element type.
    pub fn name(&self) -> (r: &'static str)
        ensures
            r@ == etype_name(*self),
    {
        match self {
            ElementType::Rbe2 => "RBE2",
            ElementType::Rbe3 => "RBE3",
            ElementType::Rspline => "RSPLINE",
            ElementType::Mass1 => "MASS1",
            ElementType::Mass2 => "MASS2",
            ElementType::Mass3 => "MASS3",
            ElementType::Mass4 => "MASS4",
            ElementType::Elas1 => "ELAS1",
            ElementType::Elas2 => "ELAS2",
            ElementType::Elas3 => "ELAS3",
            ElementType::Elas4 => "ELAS4",
            ElementType::Bush => "BUSH",
            ElementType::Bar => "BAR",
            ElementType::Rod => "ROD",
            ElementType::Beam => "BEAM",
            ElementType::Quad4 => "QUAD4",
            ElementType::Quad4k => "QUAD4K",
            ElementType::Quad6 => "QUAD6",
            ElementType::Quad8 => "QUAD8",
            ElementType::Quadr => "QUADR",
            ElementType::Tria3 => "TRIA3",
            ElementType::Tria3k => "TRIA3K",
            ElementType::Tria6 => "TRIA6",
            ElementType::Triar => "TRIAR",
            ElementType::Shear => "SHEAR",
            ElementType::Tetra => "TETRA",
            ElementType::Penta => "PENTA",
            ElementType::Hexa => "HEXA",
        }
    }

    /// Returns the category of the element type.
    pub fn category(&self) -> (r: ElementCategory)
        ensures
            r == etype_category(*self),
    {
        match self {
            ElementType::Rbe2 => ElementCategory::RigidBody,
            ElementType::Rbe3 => ElementCategory::RigidBody,
            ElementType::Rspline => ElementCategory::RigidBody,
            ElementType::Mass1 => ElementCategory::ScalarMass,
            ElementType::Mass2 => ElementCategory::ScalarMass,
            ElementType::Mass3 => ElementCategory::ScalarMass,
            ElementType::Mass4 => ElementCategory::ScalarMass,
            ElementType::Elas1 => ElementCategory::ScalarSpring,
            ElementType::Elas2 => ElementCategory::ScalarSpring,
            ElementType::Elas3 => ElementCategory::ScalarSpring,
            ElementType::Elas4 => ElementCategory::ScalarSpring,
            ElementType::Bush => ElementCategory::Bushing,
            ElementType::Bar => ElementCategory::OneDimensionalElastic,
            ElementType::Rod => ElementCategory::OneDimensionalElastic,
            ElementType::Beam => ElementCategory::OneDimensionalElastic,
            ElementType::Quad4 => ElementCategory::TwoDimensionalElastic,
            ElementType::Quad4k => ElementCategory::TwoDimensionalElastic,
            ElementType::Quad6 => ElementCategory::TwoDimensionalElastic,
            ElementType::Quad8 => ElementCategory::TwoDimensionalElastic,
            ElementType::Quadr => ElementCategory::TwoDimensionalElastic,
            ElementType::Tria3 => ElementCategory::TwoDimensionalElastic,
            ElementType::Tria3k => ElementCategory::TwoDimensionalElastic,
            ElementType::Tria6 => ElementCategory::TwoDimensionalElastic,
            ElementType::Triar => ElementCategory::TwoDimensionalElastic,
            ElementType::Shear => ElementCategory::TwoDimensionalElastic,
            ElementType::Tetra => ElementCategory::ThreeDimensionalElastic,
            ElementType::Penta => ElementCategory::ThreeDimensionalElastic,
            ElementType::Hexa => ElementCategory::ThreeDimensionalElastic,
        }
    }

    /// Returns a static slice with all known element types.
    pub fn all() -> (r: &'static [ElementType])
        ensures
            r@ == all_etypes(),
    {
        let r: &'static [ElementType] = &[
            ElementType::Rbe2,
            ElementType::Rbe3,
            ElementType::Rspline,
            ElementType::Mass1,
            ElementType::Mass2,
            ElementType::Mass3,
            ElementType::Mass4,
            ElementType::Elas1,
            ElementType::Elas2,
            ElementType::Elas3,
            ElementType::Elas4,
            ElementType::Bush,
            ElementType::Bar,
            ElementType::Rod,
            ElementType::Beam,
            ElementType::Quad4,
            ElementType::Quad4k,
            ElementType::Quad6,
            ElementType::Quad8,
            ElementType::Quadr,
            ElementType::Tria3,
            ElementType::Tria3k,
            ElementType::Tria6,
            ElementType::Triar,
            ElementType::Shear,
            ElementType::Tetra,
            ElementType::Penta,
            ElementType::Hexa,
        ];
        assert(r@ =~= all_etypes());
        r
    }

    /// Returns the position of this type's name in the alphabetical order of
    /// all names.
    pub fn name_rank(&self) -> (r: usize)
        ensures
            r == etype_rank(*self),
    {
        match self {
            ElementType::Rbe2 => 18,
            ElementType::Rbe3 => 19,
            ElementType::Rspline => 21,
            ElementType::Mass1 => 8,
            ElementType::Mass2 => 9,
            ElementType::Mass3 => 10,
            ElementType::Mass4 => 11,
            ElementType::Elas1 => 3,
            ElementType::Elas2 => 4,
            ElementType::Elas3 => 5,
            ElementType::Elas4 => 6,
            ElementType::Bush => 2,
            ElementType::Bar => 0,
            ElementType::Rod => 20,
            ElementType::Beam => 1,
            ElementType::Quad4 => 13,
            ElementType::Quad4k => 14,
            ElementType::Quad6 => 15,
            ElementType::Quad8 => 16,
            ElementType::Quadr => 17,
            ElementType::Tria3 => 24,
            ElementType::Tria3k => 25,
            ElementType::Tria6 => 26,
            ElementType::Triar => 27,
            ElementType::Shear => 22,
            ElementType::Tetra => 23,
            ElementType::Penta => 12,
            ElementType::Hexa => 7,
        }
    }

    /// Parses an element type from its exact all-caps name.
    pub fn from_str(s: &str) -> (r: Result<ElementType, ()>)
        ensures
            r == (match etype_named(s@) {
                Some(e) => Ok(e),
                None => Err(()),
            }),
    {
        let cs = chars_of(s);
        let all = ElementType::all();
        let mut i: usize = 0;
        while i < all.len()
            invariant
                all@ == all_etypes(),
                cs@ == s@,
                i <= all.len(),
                etype_named(s@) == etype_named_from(s@, i as int),
            decreases all.len() - i,
        {
            let e = all[i];
            let n = chars_of(e.name());
            if chars_eq(&cs, &n) {
                return Ok(e);
            }
            i = i + 1;
        }
        Err(())
    }

    /// Orders element types by their names.
    pub fn name_less(&self, other: &ElementType) -> (r: bool)
        ensures
            r == (etype_rank(*self) < etype_rank(*other)),
    {
        self.name_rank() < other.name_rank()
    }
}

} // verus!
