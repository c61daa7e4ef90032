//! The display texts of indexes, and of the errors and reasons that name
//! them.

use vstd::prelude::*;

use crate::blocktypes::{block_desc, block_short_name};
use crate::compare::BlockCompatibility;
use crate::diff::NonCompareReason;
use crate::elements::etype_name;
use crate::extraction::ExtractionError;
use crate::from_f06::ConversionError;
use crate::geometry::{axis_letter, dof_type_letter, Dof};
use crate::indexing::{
    bar_end_name, bar_plane_name, index_kind_name, plate_force_field_name, plate_stress_field_name,
    real_eigenvalue_field_name, rod_force_field_name, rod_stress_field_name, single_force_name, single_strain_name,
    single_stress_name, BarForceField, BarStressField, ElementPoint, ElementRef, ElementSide, ForceOrigin, GridPointRef,
    NasIndex, NormalStressDirection,
};
use crate::text::{chars_of, decimal_text, push_decimal, string_of};

verus! {

/// Appends the characters of a string slice.
fn put(out: &mut Vec<char>, s: &str)
    ensures
        final(out)@ == old(out)@ + s@,
{
    let mut cs = chars_of(s);
    out.append(&mut cs);
}

/// The text of a grid point: `GRID` and its ID.
pub open spec fn grid_text(g: GridPointRef) -> Seq<char> {
    "GRID "@ + decimal_text(g.gid as nat)
}

/// The text of an element: `ELEMENT`, its ID and, where known, its type in
/// brackets.
pub open spec fn element_text(e: ElementRef) -> Seq<char> {
    match e.etype {
        Some(et) => "ELEMENT "@ + decimal_text(e.eid as nat) + " ("@ + etype_name(et) + ")"@,
        None => "ELEMENT "@ + decimal_text(e.eid as nat),
    }
}

/// The text of a force origin.
pub open spec fn force_origin_display(fo: ForceOrigin) -> Seq<char> {
    match fo {
        ForceOrigin::Load => "APPLIED LOAD"@,
        ForceOrigin::Element { elem } => element_text(elem),
        ForceOrigin::SinglePointConstraint => "SINGLE-POINT CONSTRAINT"@,
        ForceOrigin::MultiPointConstraint => "MULTI-POINT CONSTRAINT"@,
    }
}

/// The text of a point in an element.
pub open spec fn point_text(p: ElementPoint) -> Seq<char> {
    match p {
        ElementPoint::Centroid => "CENTROID"@,
        ElementPoint::Corner(g) => "CORNER AT GRID "@ + decimal_text(g.gid as nat),
        ElementPoint::Midpoint(g) => "MIDPOINT AT GRID "@ + decimal_text(g.gid as nat),
        ElementPoint::Anywhere => "ANYWHERE IN THE ELEMENT"@,
    }
}

/// The text of an element side.
pub open spec fn side_text(s: ElementSide) -> Seq<char> {
    match s {
        ElementSide::Bottom => "BOTTOM SIDE"@,
        ElementSide::Top => "TOP SIDE"@,
    }
}

/// The text of a degree of freedom: its type's letter and its axis' letter.
pub open spec fn dof_text(d: Dof) -> Seq<char> {
    seq![dof_type_letter(d.dof_type), axis_letter(d.axis)]
}

/// The text of a bar force column.
pub open spec fn bar_force_text(f: BarForceField) -> Seq<char> {
    match f {
        BarForceField::BendMoment { end, plane } => "BEND-MOMENT "@ + bar_end_name(end) + ", "@ + bar_plane_name(plane),
        BarForceField::Shear { plane } => "SHEAR "@ + bar_plane_name(plane),
        BarForceField::AxialForce => "AXIAL FORCE"@,
        BarForceField::Torque => "TORQUE"@,
    }
}

/// The text of a direction of normal stress.
pub open spec fn direction_text(d: NormalStressDirection) -> Seq<char> {
    match d {
        NormalStressDirection::Tension => "TENSION"@,
        NormalStressDirection::Compression => "COMPRESSION"@,
    }
}

/// The text of a bar stress column.
pub open spec fn bar_stress_text(f: BarStressField) -> Seq<char> {
    match f {
        BarStressField::AtRecoveryPoint { end, point } => bar_end_name(end) + ", RECOVERY POINT "@ + decimal_text(
            point as nat,
        ),
        BarStressField::Axial => "AXIAL"@,
        BarStressField::MaxAt(end) => "MAX AT "@ + bar_end_name(end),
        BarStressField::MinAt(end) => "MIN AT "@ + bar_end_name(end),
        BarStressField::SafetyMargin(dir) => "MARGIN OF SAFETY FOR "@ + direction_text(dir),
    }
}

/// The text of an index.
pub open spec fn index_text(ix: NasIndex) -> Seq<char> {
    match ix {
        NasIndex::Dof(d) => dof_text(d),
        NasIndex::GridPointRef(g) => grid_text(g),
        NasIndex::ElementRef(e) => element_text(e),
        NasIndex::PointInElement(p) => element_text(p.element) + ", "@ + point_text(p.point),
        NasIndex::GridPointForceOrigin(g) => force_origin_display(g.force_origin) + " FORCE AT "@ + grid_text(
            g.grid_point,
        ),
        NasIndex::ElementSidedPoint(p) => element_text(p.element) + ", "@ + point_text(p.point) + ", "@ + side_text(
            p.side,
        ),
        NasIndex::SingleForce(f) => single_force_name(f),
        NasIndex::SingleStress(f) => single_stress_name(f),
        NasIndex::SingleStrain(f) => single_strain_name(f),
        NasIndex::BarForceField(f) => bar_force_text(f),
        NasIndex::BarStressField(f) => bar_stress_text(f),
        NasIndex::BarStrainField(f) => bar_stress_text(f.0),
        NasIndex::RodForceField(f) => rod_force_field_name(f),
        NasIndex::RodStressField(f) => rod_stress_field_name(f),
        NasIndex::RodStrainField(f) => rod_stress_field_name(f.0),
        NasIndex::PlateForceField(f) => plate_force_field_name(f),
        NasIndex::PlateStressField(f) => plate_stress_field_name(f),
        NasIndex::PlateStrainField(f) => plate_stress_field_name(f.0),
        NasIndex::GridPointCsys(g) => grid_text(g.gid) + " ON COORD SYS "@ + decimal_text(g.cid.cid as nat),
        NasIndex::RealEigenvalueField(f) => real_eigenvalue_field_name(f),
        NasIndex::EigenSolutionMode(_) => "MODE"@,
    }
}

/// Appends the text of a grid point.
fn write_grid(g: GridPointRef, out: &mut Vec<char>)
    ensures
        final(out)@ == old(out)@ + grid_text(g),
{
    put(out, "GRID ");
    push_decimal(g.gid, out);
    assert(out@ =~= old(out)@ + grid_text(g));
}

/// Appends the text of an element.
fn write_element(e: ElementRef, out: &mut Vec<char>)
    ensures
        final(out)@ == old(out)@ + element_text(e),
{
    put(out, "ELEMENT ");
    push_decimal(e.eid, out);
    if let Some(et) = e.etype {
        put(out, " (");
        put(out, et.name());
        put(out, ")");
    }
    assert(out@ =~= old(out)@ + element_text(e));
}

/// Appends the text of a point in an element.
fn write_point(p: ElementPoint, out: &mut Vec<char>)
    ensures
        final(out)@ == old(out)@ + point_text(p),
{
    match p {
        ElementPoint::Centroid => put(out, "CENTROID"),
        ElementPoint::Corner(g) => {
            put(out, "CORNER AT GRID ");
            push_decimal(g.gid, out);
        },
        ElementPoint::Midpoint(g) => {
            put(out, "MIDPOINT AT GRID ");
            push_decimal(g.gid, out);
        },
        ElementPoint::Anywhere => put(out, "ANYWHERE IN THE ELEMENT"),
    }
    assert(out@ =~= old(out)@ + point_text(p));
}

/// Appends the text of an element side.
fn write_side(s: ElementSide, out: &mut Vec<char>)
    ensures
        final(out)@ == old(out)@ + side_text(s),
{
    match s {
        ElementSide::Bottom => put(out, "BOTTOM SIDE"),
        ElementSide::Top => put(out, "TOP SIDE"),
    }
}

/// Appends the text of a force origin.
fn write_force_origin(fo: ForceOrigin, out: &mut Vec<char>)
    ensures
        final(out)@ == old(out)@ + force_origin_display(fo),
{
    match fo {
        ForceOrigin::Load => put(out, "APPLIED LOAD"),
        ForceOrigin::Element { elem } => write_element(elem, out),
        ForceOrigin::SinglePointConstraint => put(out, "SINGLE-POINT CONSTRAINT"),
        ForceOrigin::MultiPointConstraint => put(out, "MULTI-POINT CONSTRAINT"),
    }
}

/// Appends the text of a bar stress column.
fn write_bar_stress(f: BarStressField, out: &mut Vec<char>)
    ensures
        final(out)@ == old(out)@ + bar_stress_text(f),
{
    match f {
        BarStressField::AtRecoveryPoint { end, point } => {
            put(out, end.name());
            put(out, ", RECOVERY POINT ");
            push_decimal(point as usize, out);
        },
        BarStressField::Axial => put(out, "AXIAL"),
        BarStressField::MaxAt(end) => {
            put(out, "MAX AT ");
            put(out, end.name());
        },
        BarStressField::MinAt(end) => {
            put(out, "MIN AT ");
            put(out, end.name());
        },
        BarStressField::SafetyMargin(dir) => {
            put(out, "MARGIN OF SAFETY FOR ");
            match dir {
                NormalStressDirection::Tension => put(out, "TENSION"),
                NormalStressDirection::Compression => put(out, "COMPRESSION"),
            }
        },
    }
    assert(out@ =~= old(out)@ + bar_stress_text(f));
}

/// Appends the text of an index.
fn write_index(ix: NasIndex, out: &mut Vec<char>)
    ensures
        final(out)@ == old(out)@ + index_text(ix),
{
    match ix {
        NasIndex::Dof(d) => {
            out.push(d.dof_type.letter());
            out.push(d.axis.letter());
        },
        NasIndex::GridPointRef(g) => write_grid(g, out),
        NasIndex::ElementRef(e) => write_element(e, out),
        NasIndex::PointInElement(p) => {
            write_element(p.element, out);
            put(out, ", ");
            write_point(p.point, out);
        },
        NasIndex::GridPointForceOrigin(g) => {
            write_force_origin(g.force_origin, out);
            put(out, " FORCE AT ");
            write_grid(g.grid_point, out);
        },
        NasIndex::ElementSidedPoint(p) => {
            write_element(p.element, out);
            put(out, ", ");
            write_point(p.point, out);
            put(out, ", ");
            write_side(p.side, out);
        },
        NasIndex::SingleForce(f) => put(out, f.name()),
        NasIndex::SingleStress(f) => put(out, f.name()),
        NasIndex::SingleStrain(f) => put(out, f.name()),
        NasIndex::BarForceField(f) => match f {
            BarForceField::BendMoment { end, plane } => {
                put(out, "BEND-MOMENT ");
                put(out, end.name());
                put(out, ", ");
                put(out, plane.name());
            },
            BarForceField::Shear { plane } => {
                put(out, "SHEAR ");
                put(out, plane.name());
            },
            BarForceField::AxialForce => put(out, "AXIAL FORCE"),
            BarForceField::Torque => put(out, "TORQUE"),
        },
        NasIndex::BarStressField(f) => write_bar_stress(f, out),
        NasIndex::BarStrainField(f) => write_bar_stress(f.0, out),
        NasIndex::RodForceField(f) => put(out, f.name()),
        NasIndex::RodStressField(f) => put(out, f.name()),
        NasIndex::RodStrainField(f) => put(out, f.0.name()),
        NasIndex::PlateForceField(f) => put(out, f.name()),
        NasIndex::PlateStressField(f) => put(out, f.name()),
        NasIndex::PlateStrainField(f) => put(out, f.0.name()),
        NasIndex::GridPointCsys(g) => {
            write_grid(g.gid, out);
            put(out, " ON COORD SYS ");
            push_decimal(g.cid.cid, out);
        },
        NasIndex::RealEigenvalueField(f) => put(out, f.name()),
        NasIndex::EigenSolutionMode(_) => put(out, "MODE"),
    }
    assert(out@ =~= old(out)@ + index_text(ix));
}

impl NasIndex {
    /// The display text of this index.
    pub fn text(&self) -> (r: String)
        ensures
            r@ == index_text(*self),
    {
        let mut v: Vec<char> = Vec::new();
        write_index(*self, &mut v);
        assert(v@ =~= index_text(*self));
        string_of(v.as_slice())
    }
}

/// The text of an extraction error.
pub open spec fn extraction_error_text(e: ExtractionError) -> Seq<char> {
    match e {
        ExtractionError::NoSuchBlock(bref) => "no such block ("@ + block_short_name(bref.block_type) + ", subcase "@
            + decimal_text(bref.subcase as nat) + ")"@,
        ExtractionError::RowTypeMismatch { tried, against } => "wrong row type (tried a "@ + index_kind_name(tried)
            + ", block uses "@ + index_kind_name(against) + ")"@,
        ExtractionError::ColumnTypeMismatch { tried, against } => "wrong column type (tried a "@ + index_kind_name(tried)
            + ", block uses "@ + index_kind_name(against) + ")"@,
        ExtractionError::MissingRow(ri) => "no such row ("@ + index_text(ri) + ")"@,
        ExtractionError::MissingColumn(ci) => "no such column ("@ + index_text(ci) + ")"@,
        ExtractionError::BlockIsEmpty => "block is empty"@,
    }
}

impl ExtractionError {
    /// The display text of this error.
    pub fn text(&self) -> (r: String)
        ensures
            r@ == extraction_error_text(*self),
    {
        let mut v: Vec<char> = Vec::new();
        match *self {
            ExtractionError::NoSuchBlock(bref) => {
                put(&mut v, "no such block (");
                put(&mut v, bref.block_type.short_name());
                put(&mut v, ", subcase ");
                push_decimal(bref.subcase, &mut v);
                put(&mut v, ")");
            },
            ExtractionError::RowTypeMismatch { tried, against } => {
                put(&mut v, "wrong row type (tried a ");
                put(&mut v, tried.kind_name());
                put(&mut v, ", block uses ");
                put(&mut v, against.kind_name());
                put(&mut v, ")");
            },
            ExtractionError::ColumnTypeMismatch { tried, against } => {
                put(&mut v, "wrong column type (tried a ");
                put(&mut v, tried.kind_name());
                put(&mut v, ", block uses ");
                put(&mut v, against.kind_name());
                put(&mut v, ")");
            },
            ExtractionError::MissingRow(ri) => {
                put(&mut v, "no such row (");
                write_index(ri, &mut v);
                put(&mut v, ")");
            },
            ExtractionError::MissingColumn(ci) => {
                put(&mut v, "no such column (");
                write_index(ci, &mut v);
                put(&mut v, ")");
            },
            ExtractionError::BlockIsEmpty => put(&mut v, "block is empty"),
        }
        assert(v@ =~= extraction_error_text(*self));
        string_of(v.as_slice())
    }
}

/// The text of a conversion error.
pub open spec fn conversion_error_text(e: ConversionError) -> Seq<char> {
    match e {
        ConversionError::WrongBlockType { got, expected } => "wrong block type (got "@ + block_desc(got)
            + ", expected "@ + block_desc(expected) + ")"@,
        ConversionError::MissingDatum { row, col } => "missing datum at ("@ + index_text(row) + ", "@ + index_text(col)
            + ")"@,
        ConversionError::BadRowIndexType(ni) => "row index "@ + index_text(ni) + " is of wrong/unexpected type"@,
        ConversionError::BadColIndexType(ni) => "col index "@ + index_text(ni) + " is of wrong/unexpected type"@,
    }
}

impl ConversionError {
    /// The display text of this error.
    pub fn text(&self) -> (r: String)
        ensures
            r@ == conversion_error_text(*self),
    {
        let mut v: Vec<char> = Vec::new();
        match *self {
            ConversionError::WrongBlockType { got, expected } => {
                put(&mut v, "wrong block type (got ");
                put(&mut v, got.desc());
                put(&mut v, ", expected ");
                put(&mut v, expected.desc());
                put(&mut v, ")");
            },
            ConversionError::MissingDatum { row, col } => {
                put(&mut v, "missing datum at (");
                write_index(row, &mut v);
                put(&mut v, ", ");
                write_index(col, &mut v);
                put(&mut v, ")");
            },
            ConversionError::BadRowIndexType(ni) => {
                put(&mut v, "row index ");
                write_index(ni, &mut v);
                put(&mut v, " is of wrong/unexpected type");
            },
            ConversionError::BadColIndexType(ni) => {
                put(&mut v, "col index ");
                write_index(ni, &mut v);
                put(&mut v, " is of wrong/unexpected type");
            },
        }
        assert(v@ =~= conversion_error_text(*self));
        string_of(v.as_slice())
    }
}

/// The text of the structural comparison of two blocks that could not be
/// compared.
pub open spec fn compatibility_text(c: BlockCompatibility) -> Seq<char> {
    match c {
        BlockCompatibility::DifferentType => "the blocks are not of the same type"@,
        BlockCompatibility::DifferentSubcase => "the blocks are not of the same subcase"@,
        BlockCompatibility::DifferentColumns => "the blocks do not have the same column indexes"@,
        BlockCompatibility::NoCommonRows => "the blocks have no row indexes in common"@,
        BlockCompatibility::Compatible { .. } => "the blocks are compatible"@,
    }
}

/// The text of a reason for not comparing blocks.
pub open spec fn non_compare_text(r: NonCompareReason) -> Seq<char> {
    match r {
        NonCompareReason::NoCounterpart(Some(file)) => "no counterpart in "@ + file@,
        NonCompareReason::NoCounterpart(None) => "no counterpart in one of the files"@,
        NonCompareReason::NotUniqueInOne(Some(file)) => "not unique in "@ + file@,
        NonCompareReason::NotUniqueInOne(None) => "not unique in one of the files"@,
        NonCompareReason::NotUniqueInBoth => "not unique in either file"@,
        NonCompareReason::NotCompatible(c) => "incompatibility: "@ + compatibility_text(c),
    }
}

impl NonCompareReason {
    /// The display text of this reason.
    pub fn text(&self) -> (r: String)
        ensures
            r@ == non_compare_text(*self),
    {
        let mut v: Vec<char> = Vec::new();
        match self {
            NonCompareReason::NoCounterpart(Some(file)) => {
                put(&mut v, "no counterpart in ");
                put(&mut v, file.as_str());
            },
            NonCompareReason::NoCounterpart(None) => put(&mut v, "no counterpart in one of the files"),
            NonCompareReason::NotUniqueInOne(Some(file)) => {
                put(&mut v, "not unique in ");
                put(&mut v, file.as_str());
            },
            NonCompareReason::NotUniqueInOne(None) => put(&mut v, "not unique in one of the files"),
            NonCompareReason::NotUniqueInBoth => put(&mut v, "not unique in either file"),
            NonCompareReason::NotCompatible(c) => {
                put(&mut v, "incompatibility: ");
                match c {
                    BlockCompatibility::DifferentType => put(&mut v, "the blocks are not of the same type"),
                    BlockCompatibility::DifferentSubcase => put(&mut v, "the blocks are not of the same subcase"),
                    BlockCompatibility::DifferentColumns => put(
                        &mut v,
                        "the blocks do not have the same column indexes",
                    ),
                    BlockCompatibility::NoCommonRows => put(&mut v, "the blocks have no row indexes in common"),
                    BlockCompatibility::Compatible { .. } => put(&mut v, "the blocks are compatible"),
                }
            },
        }
        assert(v@ =~= non_compare_text(*self));
        string_of(v.as_slice())
    }
}

} // verus!
