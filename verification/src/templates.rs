//! The conversion templates from the known F06 blocks to CSV blocks.

use vstd::prelude::*;

use crate::blocktypes::BlockType;
use crate::blocks::FinalBlock;
use crate::flavour::Flavour;
use crate::from_f06::{converted_record, row_fields, BlockConverter, ColumnGenerator, HBLANK};
use crate::geometry::{Axis, Dof, DofType};
use crate::index_fns::IndexFn;
use crate::indexing::{
    BarEnd, BarForceField, BarPlane, BarStrainField, BarStressField, NasIndex, PlateForceField, PlateStrainField,
    PlateStressField, RodForceField, RodStrainField, RodStressField, SingleForce, SingleStrain, SingleStress,
};
use crate::layout::{field_views, number_field, CsvBlockId, CsvField, CsvRecord, FieldView};
use crate::numbers::F06Number;

verus! {

/// Is there a converter for a block type?
pub open spec fn has_converter(convs: Seq<BlockConverter>, bt: BlockType) -> bool {
    exists|i: int| 0 <= i < convs.len() && (#[trigger] convs[i]).input_block_type == bt
}

/// The CSV block that the blocks of a type go to.
pub open spec fn csv_block_of(bt: BlockType) -> CsvBlockId {
    match bt {
        BlockType::Displacements => CsvBlockId::Displacements,
        BlockType::GridPointForceBalance => CsvBlockId::GridPointForces,
        BlockType::SpcForces => CsvBlockId::SpcForces,
        BlockType::AppliedForces => CsvBlockId::AppliedForces,
        BlockType::Elas1Stresses | BlockType::RodStresses | BlockType::BarStresses | BlockType::TriaStresses
        | BlockType::QuadStresses => CsvBlockId::Stresses,
        BlockType::Elas1Strains | BlockType::RodStrains | BlockType::BarStrains | BlockType::TriaStrains
        | BlockType::QuadStrains => CsvBlockId::Strains,
        BlockType::Elas1Forces | BlockType::RodForces | BlockType::BarForces | BlockType::TriaForces
        | BlockType::QuadForces => CsvBlockId::EngForces,
    }
}

/// The columns that the headers of displacement records name.
pub open spec fn disp_header(h: Seq<char>, end: BarEnd) -> Option<NasIndex> {
    if h == "Tx"@ {
        Some(NasIndex::Dof(Dof { dof_type: DofType::Translational, axis: Axis::X }))
    } else if h == "Ty"@ {
        Some(NasIndex::Dof(Dof { dof_type: DofType::Translational, axis: Axis::Y }))
    } else if h == "Tz"@ {
        Some(NasIndex::Dof(Dof { dof_type: DofType::Translational, axis: Axis::Z }))
    } else if h == "Rx"@ {
        Some(NasIndex::Dof(Dof { dof_type: DofType::Rotational, axis: Axis::X }))
    } else if h == "Ry"@ {
        Some(NasIndex::Dof(Dof { dof_type: DofType::Rotational, axis: Axis::Y }))
    } else if h == "Rz"@ {
        Some(NasIndex::Dof(Dof { dof_type: DofType::Rotational, axis: Axis::Z }))
    } else {
        None
    }
}

/// The columns that the headers of grid point force records name.
pub open spec fn force_header(h: Seq<char>, end: BarEnd) -> Option<NasIndex> {
    if h == "Fx"@ {
        Some(NasIndex::Dof(Dof { dof_type: DofType::Translational, axis: Axis::X }))
    } else if h == "Fy"@ {
        Some(NasIndex::Dof(Dof { dof_type: DofType::Translational, axis: Axis::Y }))
    } else if h == "Fz"@ {
        Some(NasIndex::Dof(Dof { dof_type: DofType::Translational, axis: Axis::Z }))
    } else if h == "Mx"@ {
        Some(NasIndex::Dof(Dof { dof_type: DofType::Rotational, axis: Axis::X }))
    } else if h == "My"@ {
        Some(NasIndex::Dof(Dof { dof_type: DofType::Rotational, axis: Axis::Y }))
    } else if h == "Mz"@ {
        Some(NasIndex::Dof(Dof { dof_type: DofType::Rotational, axis: Axis::Z }))
    } else {
        None
    }
}

/// The columns that the headers of plate stress records name.
pub open spec fn pstress_header(h: Seq<char>, end: BarEnd) -> Option<NasIndex> {
    if h == "FibreDistance"@ {
        Some(NasIndex::PlateStressField(PlateStressField::FibreDistance))
    } else if h == "NormalX"@ {
        Some(NasIndex::PlateStressField(PlateStressField::NormalX))
    } else if h == "NormalY"@ {
        Some(NasIndex::PlateStressField(PlateStressField::NormalY))
    } else if h == "ShearXY"@ {
        Some(NasIndex::PlateStressField(PlateStressField::ShearXY))
    } else {
        None
    }
}

/// The columns that the headers of plate strain records name.
pub open spec fn pstrain_header(h: Seq<char>, end: BarEnd) -> Option<NasIndex> {
    if h == "FibreDistance"@ {
        Some(NasIndex::PlateStrainField(PlateStrainField(PlateStressField::FibreDistance)))
    } else if h == "NormalX"@ {
        Some(NasIndex::PlateStrainField(PlateStrainField(PlateStressField::NormalX)))
    } else if h == "NormalY"@ {
        Some(NasIndex::PlateStrainField(PlateStrainField(PlateStressField::NormalY)))
    } else if h == "ShearXY"@ {
        Some(NasIndex::PlateStrainField(PlateStrainField(PlateStressField::ShearXY)))
    } else {
        None
    }
}

/// The columns that the headers of rod stress records name.
pub open spec fn rstress_header(h: Seq<char>, end: BarEnd) -> Option<NasIndex> {
    if h == "Axial"@ {
        Some(NasIndex::RodStressField(RodStressField::Axial))
    } else if h == "Torsional"@ {
        Some(NasIndex::RodStressField(RodStressField::Torsional))
    } else {
        None
    }
}

/// The columns that the headers of rod strain records name.
pub open spec fn rstrain_header(h: Seq<char>, end: BarEnd) -> Option<NasIndex> {
    if h == "Axial"@ {
        Some(NasIndex::RodStrainField(RodStrainField(RodStressField::Axial)))
    } else if h == "Torsional"@ {
        Some(NasIndex::RodStrainField(RodStrainField(RodStressField::Torsional)))
    } else {
        None
    }
}

/// The columns that the headers of bar stress records name.
pub open spec fn bstress_header(h: Seq<char>, end: BarEnd) -> Option<NasIndex> {
    if h == "Axial"@ {
        Some(NasIndex::BarStressField(BarStressField::Axial))
    } else if h == "S1"@ {
        Some(NasIndex::BarStressField(BarStressField::AtRecoveryPoint { end: end, point: 1 }))
    } else if h == "S2"@ {
        Some(NasIndex::BarStressField(BarStressField::AtRecoveryPoint { end: end, point: 2 }))
    } else if h == "S3"@ {
        Some(NasIndex::BarStressField(BarStressField::AtRecoveryPoint { end: end, point: 3 }))
    } else if h == "S4"@ {
        Some(NasIndex::BarStressField(BarStressField::AtRecoveryPoint { end: end, point: 4 }))
    } else {
        None
    }
}

/// The columns that the headers of bar strain records name.
pub open spec fn bstrain_header(h: Seq<char>, end: BarEnd) -> Option<NasIndex> {
    if h == "Axial"@ {
        Some(NasIndex::BarStrainField(BarStrainField(BarStressField::Axial)))
    } else if h == "S1"@ {
        Some(NasIndex::BarStrainField(BarStrainField(BarStressField::AtRecoveryPoint { end: end, point: 1 })))
    } else if h == "S2"@ {
        Some(NasIndex::BarStrainField(BarStrainField(BarStressField::AtRecoveryPoint { end: end, point: 2 })))
    } else if h == "S3"@ {
        Some(NasIndex::BarStrainField(BarStrainField(BarStressField::AtRecoveryPoint { end: end, point: 3 })))
    } else if h == "S4"@ {
        Some(NasIndex::BarStrainField(BarStrainField(BarStressField::AtRecoveryPoint { end: end, point: 4 })))
    } else {
        None
    }
}

/// The columns that the headers of ELAS1 stress records name.
pub open spec fn e1stress_header(h: Seq<char>, end: BarEnd) -> Option<NasIndex> {
    if h == "Stress"@ {
        Some(NasIndex::SingleStress(SingleStress::Stress))
    } else {
        None
    }
}

/// The columns that the headers of ELAS1 strain records name.
pub open spec fn e1strain_header(h: Seq<char>, end: BarEnd) -> Option<NasIndex> {
    if h == "Strain"@ {
        Some(NasIndex::SingleStrain(SingleStrain::Strain))
    } else {
        None
    }
}

/// The columns that the headers of ELAS1 force records name.
pub open spec fn e1force_header(h: Seq<char>, end: BarEnd) -> Option<NasIndex> {
    if h == "Force"@ {
        Some(NasIndex::SingleForce(SingleForce::Force))
    } else {
        None
    }
}

/// The columns that the headers of plate force records name.
pub open spec fn pforce_header(h: Seq<char>, end: BarEnd) -> Option<NasIndex> {
    if h == "NormalX"@ {
        Some(NasIndex::PlateForceField(PlateForceField::NormalX))
    } else if h == "NormalY"@ {
        Some(NasIndex::PlateForceField(PlateForceField::NormalY))
    } else if h == "NormalXY"@ {
        Some(NasIndex::PlateForceField(PlateForceField::NormalXY))
    } else if h == "MomentX"@ {
        Some(NasIndex::PlateForceField(PlateForceField::MomentX))
    } else if h == "MomentY"@ {
        Some(NasIndex::PlateForceField(PlateForceField::MomentY))
    } else if h == "MomentXY"@ {
        Some(NasIndex::PlateForceField(PlateForceField::MomentXY))
    } else {
        None
    }
}

/// The columns that the headers of rod force records name.
pub open spec fn rforce_header(h: Seq<char>, end: BarEnd) -> Option<NasIndex> {
    if h == "Axial"@ {
        Some(NasIndex::RodForceField(RodForceField::AxialForce))
    } else if h == "Torque"@ {
        Some(NasIndex::RodForceField(RodForceField::Torque))
    } else {
        None
    }
}

/// The columns that the headers of bar force records name.
pub open spec fn bforce_header(h: Seq<char>, end: BarEnd) -> Option<NasIndex> {
    if h == "Axial"@ {
        Some(NasIndex::BarForceField(BarForceField::AxialForce))
    } else if h == "S1"@ {
        Some(NasIndex::BarForceField(BarForceField::Shear { plane: BarPlane::Plane1 }))
    } else if h == "S2"@ {
        Some(NasIndex::BarForceField(BarForceField::Shear { plane: BarPlane::Plane2 }))
    } else if h == "M1"@ {
        Some(NasIndex::BarForceField(BarForceField::BendMoment { end: end, plane: BarPlane::Plane1 }))
    } else if h == "M2"@ {
        Some(NasIndex::BarForceField(BarForceField::BendMoment { end: end, plane: BarPlane::Plane2 }))
    } else if h == "Torque"@ {
        Some(NasIndex::BarForceField(BarForceField::Torque))
    } else {
        None
    }
}

/// The column that a header names in the CSV records of a block type, on
/// the CSV row `irow` made of each block row (bar blocks make a row for end A,
/// then one for end B); none for a header that names no column of the block.
pub open spec fn header_column(bt: BlockType, irow: int, h: Seq<char>) -> Option<NasIndex> {
    let end = if irow == 0 { BarEnd::EndA } else { BarEnd::EndB };
    match bt {
        BlockType::Displacements => disp_header(h, end),
        BlockType::GridPointForceBalance => force_header(h, end),
        BlockType::AppliedForces => force_header(h, end),
        BlockType::SpcForces => force_header(h, end),
        BlockType::QuadStresses => pstress_header(h, end),
        BlockType::TriaStresses => pstress_header(h, end),
        BlockType::QuadStrains => pstrain_header(h, end),
        BlockType::TriaStrains => pstrain_header(h, end),
        BlockType::RodStresses => rstress_header(h, end),
        BlockType::RodStrains => rstrain_header(h, end),
        BlockType::BarStresses => bstress_header(h, end),
        BlockType::BarStrains => bstrain_header(h, end),
        BlockType::Elas1Stresses => e1stress_header(h, end),
        BlockType::Elas1Strains => e1strain_header(h, end),
        BlockType::Elas1Forces => e1force_header(h, end),
        BlockType::QuadForces => pforce_header(h, end),
        BlockType::TriaForces => pforce_header(h, end),
        BlockType::RodForces => rforce_header(h, end),
        BlockType::BarForces => bforce_header(h, end),
    }
}

/// Does a generator read the column its header names, and no other
/// generator read a column?
pub open spec fn field_matches(bt: BlockType, irow: int, g: ColumnGenerator, h: Seq<char>) -> bool {
    match header_column(bt, irow, h) {
        Some(col) => g matches ColumnGenerator::ColumnValue(c) && c == col,
        None => !(g is ColumnValue),
    }
}

/// Does each of the ten generators of a row read the column its header names?
pub open spec fn row_matches(bt: BlockType, irow: int, gens: Seq<ColumnGenerator>, hs: Seq<&str>) -> bool {
    &&& gens.len() == 10
    &&& hs.len() == 10
    &&& field_matches(bt, irow, gens[0], hs[0]@)
    &&& field_matches(bt, irow, gens[1], hs[1]@)
    &&& field_matches(bt, irow, gens[2], hs[2]@)
    &&& field_matches(bt, irow, gens[3], hs[3]@)
    &&& field_matches(bt, irow, gens[4], hs[4]@)
    &&& field_matches(bt, irow, gens[5], hs[5]@)
    &&& field_matches(bt, irow, gens[6], hs[6]@)
    &&& field_matches(bt, irow, gens[7], hs[7]@)
    &&& field_matches(bt, irow, gens[8], hs[8]@)
    &&& field_matches(bt, irow, gens[9], hs[9]@)
}

/// Does every generator of a converter read the column its header names?
pub open spec fn converter_matches(c: BlockConverter) -> bool {
    forall|i: int| 0 <= i < c.generators@.len() ==> row_matches(c.input_block_type, i, (#[trigger] c.generators@[i])@, c.headers@[i]@)
}

/// The conversion template for displacements blocks.
fn ct_displacements() -> (r: BlockConverter)
    ensures
        r.wf(),
        r.input_block_type == BlockType::Displacements,
        r.output_block_id == CsvBlockId::Displacements,
        converter_matches(r),
{
    let mut generators: Vec<Vec<ColumnGenerator>> = Vec::new();
    let mut headers: Vec<[&'static str; 10]> = Vec::new();
    let mut g: Vec<ColumnGenerator> = Vec::new();
    g.push(ColumnGenerator::GridId);
    g.push(ColumnGenerator::Subcase);
    g.push(ColumnGenerator::ColumnValue(NasIndex::Dof(Dof { dof_type: DofType::Translational, axis: Axis::X })));
    g.push(ColumnGenerator::ColumnValue(NasIndex::Dof(Dof { dof_type: DofType::Translational, axis: Axis::Y })));
    g.push(ColumnGenerator::ColumnValue(NasIndex::Dof(Dof { dof_type: DofType::Translational, axis: Axis::Z })));
    g.push(ColumnGenerator::ColumnValue(NasIndex::Dof(Dof { dof_type: DofType::Rotational, axis: Axis::X })));
    g.push(ColumnGenerator::ColumnValue(NasIndex::Dof(Dof { dof_type: DofType::Rotational, axis: Axis::Y })));
    g.push(ColumnGenerator::ColumnValue(NasIndex::Dof(Dof { dof_type: DofType::Rotational, axis: Axis::Z })));
    g.push(ColumnGenerator::ConstantNumber(F06Number::Natural(0)));
    g.push(ColumnGenerator::Blank);
    let h: [&'static str; 10] = ["GID", "Subcase", "Tx", "Ty", "Tz", "Rx", "Ry", "Rz", "Coord", HBLANK];
    proof {
        reveal_strlit("<UNUSED>");
        reveal_strlit("Coord");
        reveal_strlit("GID");
        reveal_strlit("Rx");
        reveal_strlit("Ry");
        reveal_strlit("Rz");
        reveal_strlit("Subcase");
        reveal_strlit("Tx");
        reveal_strlit("Ty");
        reveal_strlit("Tz");
        assert(h@[0] == "GID");
        assert(h@[1] == "Subcase");
        assert(h@[2] == "Tx");
        assert(h@[3] == "Ty");
        assert(h@[4] == "Tz");
        assert(h@[5] == "Rx");
        assert(h@[6] == "Ry");
        assert(h@[7] == "Rz");
        assert(h@[8] == "Coord");
        assert(h@[9] == HBLANK);
        assert("GID"@.len() != "Tx"@.len());
        assert("GID"@.len() != "Ty"@.len());
        assert("GID"@.len() != "Tz"@.len());
        assert("GID"@.len() != "Rx"@.len());
        assert("GID"@.len() != "Ry"@.len());
        assert("GID"@.len() != "Rz"@.len());
        assert(field_matches(BlockType::Displacements, 0, g@[0], "GID"@));
        assert("Subcase"@.len() != "Tx"@.len());
        assert("Subcase"@.len() != "Ty"@.len());
        assert("Subcase"@.len() != "Tz"@.len());
        assert("Subcase"@.len() != "Rx"@.len());
        assert("Subcase"@.len() != "Ry"@.len());
        assert("Subcase"@.len() != "Rz"@.len());
        assert(field_matches(BlockType::Displacements, 0, g@[1], "Subcase"@));
        assert(field_matches(BlockType::Displacements, 0, g@[2], "Tx"@));
        assert("Ty"@[1] != "Tx"@[1]);
        assert(field_matches(BlockType::Displacements, 0, g@[3], "Ty"@));
        assert("Tz"@[1] != "Tx"@[1]);
        assert("Tz"@[1] != "Ty"@[1]);
        assert(field_matches(BlockType::Displacements, 0, g@[4], "Tz"@));
        assert("Rx"@[0] != "Tx"@[0]);
        assert("Rx"@[0] != "Ty"@[0]);
        assert("Rx"@[0] != "Tz"@[0]);
        assert(field_matches(BlockType::Displacements, 0, g@[5], "Rx"@));
        assert("Ry"@[0] != "Tx"@[0]);
        assert("Ry"@[0] != "Ty"@[0]);
        assert("Ry"@[0] != "Tz"@[0]);
        assert("Ry"@[1] != "Rx"@[1]);
        assert(field_matches(BlockType::Displacements, 0, g@[6], "Ry"@));
        assert("Rz"@[0] != "Tx"@[0]);
        assert("Rz"@[0] != "Ty"@[0]);
        assert("Rz"@[0] != "Tz"@[0]);
        assert("Rz"@[1] != "Rx"@[1]);
        assert("Rz"@[1] != "Ry"@[1]);
        assert(field_matches(BlockType::Displacements, 0, g@[7], "Rz"@));
        assert("Coord"@.len() != "Tx"@.len());
        assert("Coord"@.len() != "Ty"@.len());
        assert("Coord"@.len() != "Tz"@.len());
        assert("Coord"@.len() != "Rx"@.len());
        assert("Coord"@.len() != "Ry"@.len());
        assert("Coord"@.len() != "Rz"@.len());
        assert(field_matches(BlockType::Displacements, 0, g@[8], "Coord"@));
        assert("<UNUSED>"@.len() != "Tx"@.len());
        assert("<UNUSED>"@.len() != "Ty"@.len());
        assert("<UNUSED>"@.len() != "Tz"@.len());
        assert("<UNUSED>"@.len() != "Rx"@.len());
        assert("<UNUSED>"@.len() != "Ry"@.len());
        assert("<UNUSED>"@.len() != "Rz"@.len());
        assert(field_matches(BlockType::Displacements, 0, g@[9], HBLANK@));
        assert(row_matches(BlockType::Displacements, 0, g@, h@));
    }
    generators.push(g);
    headers.push(h);
    let r = BlockConverter { input_block_type: BlockType::Displacements, output_block_id: CsvBlockId::Displacements, generators, headers };
    r
}

/// The conversion template for grid point force balance blocks.
fn ct_gpforcebalance() -> (r: BlockConverter)
    ensures
        r.wf(),
        r.input_block_type == BlockType::GridPointForceBalance,
        r.output_block_id == CsvBlockId::GridPointForces,
        converter_matches(r),
{
    let mut generators: Vec<Vec<ColumnGenerator>> = Vec::new();
    let mut headers: Vec<[&'static str; 10]> = Vec::new();
    let mut g: Vec<ColumnGenerator> = Vec::new();
    g.push(ColumnGenerator::GridId);
    g.push(ColumnGenerator::Subcase);
    g.push(ColumnGenerator::WithDefault(Box::new(ColumnGenerator::ElementId), CsvField::Natural(0)));
    g.push(ColumnGenerator::RowIndexFn(IndexFn::Fo));
    g.push(ColumnGenerator::ColumnValue(NasIndex::Dof(Dof { dof_type: DofType::Translational, axis: Axis::X })));
    g.push(ColumnGenerator::ColumnValue(NasIndex::Dof(Dof { dof_type: DofType::Translational, axis: Axis::Y })));
    g.push(ColumnGenerator::ColumnValue(NasIndex::Dof(Dof { dof_type: DofType::Translational, axis: Axis::Z })));
    g.push(ColumnGenerator::ColumnValue(NasIndex::Dof(Dof { dof_type: DofType::Rotational, axis: Axis::X })));
    g.push(ColumnGenerator::ColumnValue(NasIndex::Dof(Dof { dof_type: DofType::Rotational, axis: Axis::Y })));
    g.push(ColumnGenerator::ColumnValue(NasIndex::Dof(Dof { dof_type: DofType::Rotational, axis: Axis::Z })));
    let h: [&'static str; 10] = ["GID", "Subcase", "EID", "TYPE", "Fx", "Fy", "Fz", "Mx", "My", "Mz"];
    proof {
        reveal_strlit("<UNUSED>");
        reveal_strlit("EID");
        reveal_strlit("Fx");
        reveal_strlit("Fy");
        reveal_strlit("Fz");
        reveal_strlit("GID");
        reveal_strlit("Mx");
        reveal_strlit("My");
        reveal_strlit("Mz");
        reveal_strlit("Subcase");
        reveal_strlit("TYPE");
        assert(h@[0] == "GID");
        assert(h@[1] == "Subcase");
        assert(h@[2] == "EID");
        assert(h@[3] == "TYPE");
        assert(h@[4] == "Fx");
        assert(h@[5] == "Fy");
        assert(h@[6] == "Fz");
        assert(h@[7] == "Mx");
        assert(h@[8] == "My");
        assert(h@[9] == "Mz");
        assert("GID"@.len() != "Fx"@.len());
        assert("GID"@.len() != "Fy"@.len());
        assert("GID"@.len() != "Fz"@.len());
        assert("GID"@.len() != "Mx"@.len());
        assert("GID"@.len() != "My"@.len());
        assert("GID"@.len() != "Mz"@.len());
        assert(field_matches(BlockType::GridPointForceBalance, 0, g@[0], "GID"@));
        assert("Subcase"@.len() != "Fx"@.len());
        assert("Subcase"@.len() != "Fy"@.len());
        assert("Subcase"@.len() != "Fz"@.len());
        assert("Subcase"@.len() != "Mx"@.len());
        assert("Subcase"@.len() != "My"@.len());
        assert("Subcase"@.len() != "Mz"@.len());
        assert(field_matches(BlockType::GridPointForceBalance, 0, g@[1], "Subcase"@));
        assert("EID"@.len() != "Fx"@.len());
        assert("EID"@.len() != "Fy"@.len());
        assert("EID"@.len() != "Fz"@.len());
        assert("EID"@.len() != "Mx"@.len());
        assert("EID"@.len() != "My"@.len());
        assert("EID"@.len() != "Mz"@.len());
        assert(field_matches(BlockType::GridPointForceBalance, 0, g@[2], "EID"@));
        assert("TYPE"@.len() != "Fx"@.len());
        assert("TYPE"@.len() != "Fy"@.len());
        assert("TYPE"@.len() != "Fz"@.len());
        assert("TYPE"@.len() != "Mx"@.len());
        assert("TYPE"@.len() != "My"@.len());
        assert("TYPE"@.len() != "Mz"@.len());
        assert(field_matches(BlockType::GridPointForceBalance, 0, g@[3], "TYPE"@));
        assert(field_matches(BlockType::GridPointForceBalance, 0, g@[4], "Fx"@));
        assert("Fy"@[1] != "Fx"@[1]);
        assert(field_matches(BlockType::GridPointForceBalance, 0, g@[5], "Fy"@));
        assert("Fz"@[1] != "Fx"@[1]);
        assert("Fz"@[1] != "Fy"@[1]);
        assert(field_matches(BlockType::GridPointForceBalance, 0, g@[6], "Fz"@));
        assert("Mx"@[0] != "Fx"@[0]);
        assert("Mx"@[0] != "Fy"@[0]);
        assert("Mx"@[0] != "Fz"@[0]);
        assert(field_matches(BlockType::GridPointForceBalance, 0, g@[7], "Mx"@));
        assert("My"@[0] != "Fx"@[0]);
        assert("My"@[0] != "Fy"@[0]);
        assert("My"@[0] != "Fz"@[0]);
        assert("My"@[1] != "Mx"@[1]);
        assert(field_matches(BlockType::GridPointForceBalance, 0, g@[8], "My"@));
        assert("Mz"@[0] != "Fx"@[0]);
        assert("Mz"@[0] != "Fy"@[0]);
        assert("Mz"@[0] != "Fz"@[0]);
        assert("Mz"@[1] != "Mx"@[1]);
        assert("Mz"@[1] != "My"@[1]);
        assert(field_matches(BlockType::GridPointForceBalance, 0, g@[9], "Mz"@));
        assert(row_matches(BlockType::GridPointForceBalance, 0, g@, h@));
    }
    generators.push(g);
    headers.push(h);
    let r = BlockConverter { input_block_type: BlockType::GridPointForceBalance, output_block_id: CsvBlockId::GridPointForces, generators, headers };
    r
}

/// The conversion template for quad stresses.
fn ct_stresses_quad() -> (r: BlockConverter)
    ensures
        r.wf(),
        r.input_block_type == BlockType::QuadStresses,
        r.output_block_id == CsvBlockId::Stresses,
        converter_matches(r),
{
    let mut generators: Vec<Vec<ColumnGenerator>> = Vec::new();
    let mut headers: Vec<[&'static str; 10]> = Vec::new();
    let mut g: Vec<ColumnGenerator> = Vec::new();
    g.push(ColumnGenerator::ElementId);
    g.push(ColumnGenerator::Subcase);
    g.push(ColumnGenerator::WithDefault(Box::new(ColumnGenerator::GridId), CsvField::Natural(0)));
    g.push(ColumnGenerator::ColumnValue(NasIndex::PlateStressField(PlateStressField::FibreDistance)));
    g.push(ColumnGenerator::ColumnValue(NasIndex::PlateStressField(PlateStressField::NormalX)));
    g.push(ColumnGenerator::ColumnValue(NasIndex::PlateStressField(PlateStressField::NormalY)));
    g.push(ColumnGenerator::Blank);
    g.push(ColumnGenerator::ColumnValue(NasIndex::PlateStressField(PlateStressField::ShearXY)));
    g.push(ColumnGenerator::Blank);
    g.push(ColumnGenerator::Blank);
    let h: [&'static str; 10] = ["EID (QUAD4)", "Subcase", "GID", "FibreDistance", "NormalX", "NormalY", HBLANK, "ShearXY", HBLANK, HBLANK];
    proof {
        reveal_strlit("<UNUSED>");
        reveal_strlit("EID (QUAD4)");
        reveal_strlit("FibreDistance");
        reveal_strlit("GID");
        reveal_strlit("NormalX");
        reveal_strlit("NormalY");
        reveal_strlit("ShearXY");
        reveal_strlit("Subcase");
        assert(h@[0] == "EID (QUAD4)");
        assert(h@[1] == "Subcase");
        assert(h@[2] == "GID");
        assert(h@[3] == "FibreDistance");
        assert(h@[4] == "NormalX");
        assert(h@[5] == "NormalY");
        assert(h@[6] == HBLANK);
        assert(h@[7] == "ShearXY");
        assert(h@[8] == HBLANK);
        assert(h@[9] == HBLANK);
        assert("EID (QUAD4)"@.len() != "FibreDistance"@.len());
        assert("EID (QUAD4)"@.len() != "NormalX"@.len());
        assert("EID (QUAD4)"@.len() != "NormalY"@.len());
        assert("EID (QUAD4)"@.len() != "ShearXY"@.len());
        assert(field_matches(BlockType::QuadStresses, 0, g@[0], "EID (QUAD4)"@));
        assert("Subcase"@.len() != "FibreDistance"@.len());
        assert("Subcase"@[0] != "NormalX"@[0]);
        assert("Subcase"@[0] != "NormalY"@[0]);
        assert("Subcase"@[1] != "ShearXY"@[1]);
        assert(field_matches(BlockType::QuadStresses, 0, g@[1], "Subcase"@));
        assert("GID"@.len() != "FibreDistance"@.len());
        assert("GID"@.len() != "NormalX"@.len());
        assert("GID"@.len() != "NormalY"@.len());
        assert("GID"@.len() != "ShearXY"@.len());
        assert(field_matches(BlockType::QuadStresses, 0, g@[2], "GID"@));
        assert(field_matches(BlockType::QuadStresses, 0, g@[3], "FibreDistance"@));
        assert("NormalX"@.len() != "FibreDistance"@.len());
        assert(field_matches(BlockType::QuadStresses, 0, g@[4], "NormalX"@));
        assert("NormalY"@.len() != "FibreDistance"@.len());
        assert("NormalY"@[6] != "NormalX"@[6]);
        assert(field_matches(BlockType::QuadStresses, 0, g@[5], "NormalY"@));
        assert("<UNUSED>"@.len() != "FibreDistance"@.len());
        assert("<UNUSED>"@.len() != "NormalX"@.len());
        assert("<UNUSED>"@.len() != "NormalY"@.len());
        assert("<UNUSED>"@.len() != "ShearXY"@.len());
        assert(field_matches(BlockType::QuadStresses, 0, g@[6], HBLANK@));
        assert("ShearXY"@.len() != "FibreDistance"@.len());
        assert("ShearXY"@[0] != "NormalX"@[0]);
        assert("ShearXY"@[0] != "NormalY"@[0]);
        assert(field_matches(BlockType::QuadStresses, 0, g@[7], "ShearXY"@));
        assert("<UNUSED>"@.len() != "FibreDistance"@.len());
        assert("<UNUSED>"@.len() != "NormalX"@.len());
        assert("<UNUSED>"@.len() != "NormalY"@.len());
        assert("<UNUSED>"@.len() != "ShearXY"@.len());
        assert(field_matches(BlockType::QuadStresses, 0, g@[8], HBLANK@));
        assert("<UNUSED>"@.len() != "FibreDistance"@.len());
        assert("<UNUSED>"@.len() != "NormalX"@.len());
        assert("<UNUSED>"@.len() != "NormalY"@.len());
        assert("<UNUSED>"@.len() != "ShearXY"@.len());
        assert(field_matches(BlockType::QuadStresses, 0, g@[9], HBLANK@));
        assert(row_matches(BlockType::QuadStresses, 0, g@, h@));
    }
    generators.push(g);
    headers.push(h);
    let r = BlockConverter { input_block_type: BlockType::QuadStresses, output_block_id: CsvBlockId::Stresses, generators, headers };
    r
}

/// The conversion template for tria stresses.
fn ct_stresses_tria() -> (r: BlockConverter)
    ensures
        r.wf(),
        r.input_block_type == BlockType::TriaStresses,
        r.output_block_id == CsvBlockId::Stresses,
        converter_matches(r),
{
    let mut generators: Vec<Vec<ColumnGenerator>> = Vec::new();
    let mut headers: Vec<[&'static str; 10]> = Vec::new();
    let mut g: Vec<ColumnGenerator> = Vec::new();
    g.push(ColumnGenerator::ElementId);
    g.push(ColumnGenerator::Subcase);
    g.push(ColumnGenerator::WithDefault(Box::new(ColumnGenerator::GridId), CsvField::Natural(0)));
    g.push(ColumnGenerator::ColumnValue(NasIndex::PlateStressField(PlateStressField::FibreDistance)));
    g.push(ColumnGenerator::ColumnValue(NasIndex::PlateStressField(PlateStressField::NormalX)));
    g.push(ColumnGenerator::ColumnValue(NasIndex::PlateStressField(PlateStressField::NormalY)));
    g.push(ColumnGenerator::Blank);
    g.push(ColumnGenerator::ColumnValue(NasIndex::PlateStressField(PlateStressField::ShearXY)));
    g.push(ColumnGenerator::Blank);
    g.push(ColumnGenerator::Blank);
    let h: [&'static str; 10] = ["EID (TRIA3)", "Subcase", "GID", "FibreDistance", "NormalX", "NormalY", HBLANK, "ShearXY", HBLANK, HBLANK];
    proof {
        reveal_strlit("<UNUSED>");
        reveal_strlit("EID (TRIA3)");
        reveal_strlit("FibreDistance");
        reveal_strlit("GID");
        reveal_strlit("NormalX");
        reveal_strlit("NormalY");
        reveal_strlit("ShearXY");
        reveal_strlit("Subcase");
        assert(h@[0] == "EID (TRIA3)");
        assert(h@[1] == "Subcase");
        assert(h@[2] == "GID");
        assert(h@[3] == "FibreDistance");
        assert(h@[4] == "NormalX");
        assert(h@[5] == "NormalY");
        assert(h@[6] == HBLANK);
        assert(h@[7] == "ShearXY");
        assert(h@[8] == HBLANK);
        assert(h@[9] == HBLANK);
        assert("EID (TRIA3)"@.len() != "FibreDistance"@.len());
        assert("EID (TRIA3)"@.len() != "NormalX"@.len());
        assert("EID (TRIA3)"@.len() != "NormalY"@.len());
        assert("EID (TRIA3)"@.len() != "ShearXY"@.len());
        assert(field_matches(BlockType::TriaStresses, 0, g@[0], "EID (TRIA3)"@));
        assert("Subcase"@.len() != "FibreDistance"@.len());
        assert("Subcase"@[0] != "NormalX"@[0]);
        assert("Subcase"@[0] != "NormalY"@[0]);
        assert("Subcase"@[1] != "ShearXY"@[1]);
        assert(field_matches(BlockType::TriaStresses, 0, g@[1], "Subcase"@));
        assert("GID"@.len() != "FibreDistance"@.len());
        assert("GID"@.len() != "NormalX"@.len());
        assert("GID"@.len() != "NormalY"@.len());
        assert("GID"@.len() != "ShearXY"@.len());
        assert(field_matches(BlockType::TriaStresses, 0, g@[2], "GID"@));
        assert(field_matches(BlockType::TriaStresses, 0, g@[3], "FibreDistance"@));
        assert("NormalX"@.len() != "FibreDistance"@.len());
        assert(field_matches(BlockType::TriaStresses, 0, g@[4], "NormalX"@));
        assert("NormalY"@.len() != "FibreDistance"@.len());
        assert("NormalY"@[6] != "NormalX"@[6]);
        assert(field_matches(BlockType::TriaStresses, 0, g@[5], "NormalY"@));
        assert("<UNUSED>"@.len() != "FibreDistance"@.len());
        assert("<UNUSED>"@.len() != "NormalX"@.len());
        assert("<UNUSED>"@.len() != "NormalY"@.len());
        assert("<UNUSED>"@.len() != "ShearXY"@.len());
        assert(field_matches(BlockType::TriaStresses, 0, g@[6], HBLANK@));
        assert("ShearXY"@.len() != "FibreDistance"@.len());
        assert("ShearXY"@[0] != "NormalX"@[0]);
        assert("ShearXY"@[0] != "NormalY"@[0]);
        assert(field_matches(BlockType::TriaStresses, 0, g@[7], "ShearXY"@));
        assert("<UNUSED>"@.len() != "FibreDistance"@.len());
        assert("<UNUSED>"@.len() != "NormalX"@.len());
        assert("<UNUSED>"@.len() != "NormalY"@.len());
        assert("<UNUSED>"@.len() != "ShearXY"@.len());
        assert(field_matches(BlockType::TriaStresses, 0, g@[8], HBLANK@));
        assert("<UNUSED>"@.len() != "FibreDistance"@.len());
        assert("<UNUSED>"@.len() != "NormalX"@.len());
        assert("<UNUSED>"@.len() != "NormalY"@.len());
        assert("<UNUSED>"@.len() != "ShearXY"@.len());
        assert(field_matches(BlockType::TriaStresses, 0, g@[9], HBLANK@));
        assert(row_matches(BlockType::TriaStresses, 0, g@, h@));
    }
    generators.push(g);
    headers.push(h);
    let r = BlockConverter { input_block_type: BlockType::TriaStresses, output_block_id: CsvBlockId::Stresses, generators, headers };
    r
}

/// The conversion template for rod stresses.
fn ct_stresses_rod() -> (r: BlockConverter)
    ensures
        r.wf(),
        r.input_block_type == BlockType::RodStresses,
        r.output_block_id == CsvBlockId::Stresses,
        converter_matches(r),
{
    let mut generators: Vec<Vec<ColumnGenerator>> = Vec::new();
    let mut headers: Vec<[&'static str; 10]> = Vec::new();
    let mut g: Vec<ColumnGenerator> = Vec::new();
    g.push(ColumnGenerator::ElementId);
    g.push(ColumnGenerator::Subcase);
    g.push(ColumnGenerator::Blank);
    g.push(ColumnGenerator::Blank);
    g.push(ColumnGenerator::ColumnValue(NasIndex::RodStressField(RodStressField::Axial)));
    g.push(ColumnGenerator::Blank);
    g.push(ColumnGenerator::Blank);
    g.push(ColumnGenerator::ColumnValue(NasIndex::RodStressField(RodStressField::Torsional)));
    g.push(ColumnGenerator::Blank);
    g.push(ColumnGenerator::Blank);
    let h: [&'static str; 10] = ["EID (ROD)", "Subcase", HBLANK, HBLANK, "Axial", HBLANK, HBLANK, "Torsional", HBLANK, HBLANK];
    proof {
        reveal_strlit("<UNUSED>");
        reveal_strlit("Axial");
        reveal_strlit("EID (ROD)");
        reveal_strlit("Subcase");
        reveal_strlit("Torsional");
        assert(h@[0] == "EID (ROD)");
        assert(h@[1] == "Subcase");
        assert(h@[2] == HBLANK);
        assert(h@[3] == HBLANK);
        assert(h@[4] == "Axial");
        assert(h@[5] == HBLANK);
        assert(h@[6] == HBLANK);
        assert(h@[7] == "Torsional");
        assert(h@[8] == HBLANK);
        assert(h@[9] == HBLANK);
        assert("EID (ROD)"@.len() != "Axial"@.len());
        assert("EID (ROD)"@[0] != "Torsional"@[0]);
        assert(field_matches(BlockType::RodStresses, 0, g@[0], "EID (ROD)"@));
        assert("Subcase"@.len() != "Axial"@.len());
        assert("Subcase"@.len() != "Torsional"@.len());
        assert(field_matches(BlockType::RodStresses, 0, g@[1], "Subcase"@));
        assert("<UNUSED>"@.len() != "Axial"@.len());
        assert("<UNUSED>"@.len() != "Torsional"@.len());
        assert(field_matches(BlockType::RodStresses, 0, g@[2], HBLANK@));
        assert("<UNUSED>"@.len() != "Axial"@.len());
        assert("<UNUSED>"@.len() != "Torsional"@.len());
        assert(field_matches(BlockType::RodStresses, 0, g@[3], HBLANK@));
        assert(field_matches(BlockType::RodStresses, 0, g@[4], "Axial"@));
        assert("<UNUSED>"@.len() != "Axial"@.len());
        assert("<UNUSED>"@.len() != "Torsional"@.len());
        assert(field_matches(BlockType::RodStresses, 0, g@[5], HBLANK@));
        assert("<UNUSED>"@.len() != "Axial"@.len());
        assert("<UNUSED>"@.len() != "Torsional"@.len());
        assert(field_matches(BlockType::RodStresses, 0, g@[6], HBLANK@));
        assert("Torsional"@.len() != "Axial"@.len());
        assert(field_matches(BlockType::RodStresses, 0, g@[7], "Torsional"@));
        assert("<UNUSED>"@.len() != "Axial"@.len());
        assert("<UNUSED>"@.len() != "Torsional"@.len());
        assert(field_matches(BlockType::RodStresses, 0, g@[8], HBLANK@));
        assert("<UNUSED>"@.len() != "Axial"@.len());
        assert("<UNUSED>"@.len() != "Torsional"@.len());
        assert(field_matches(BlockType::RodStresses, 0, g@[9], HBLANK@));
        assert(row_matches(BlockType::RodStresses, 0, g@, h@));
    }
    generators.push(g);
    headers.push(h);
    let r = BlockConverter { input_block_type: BlockType::RodStresses, output_block_id: CsvBlockId::Stresses, generators, headers };
    r
}

/// The conversion template for bar stresses: a row for each end.
fn ct_stresses_bar() -> (r: BlockConverter)
    ensures
        r.wf(),
        r.input_block_type == BlockType::BarStresses,
        r.output_block_id == CsvBlockId::Stresses,
        converter_matches(r),
{
    let mut generators: Vec<Vec<ColumnGenerator>> = Vec::new();
    let mut headers: Vec<[&'static str; 10]> = Vec::new();
    let mut g: Vec<ColumnGenerator> = Vec::new();
    g.push(ColumnGenerator::ElementId);
    g.push(ColumnGenerator::Subcase);
    g.push(ColumnGenerator::ConstantNumber(F06Number::Natural(0)));
    g.push(ColumnGenerator::ConstantString("End A"));
    g.push(ColumnGenerator::ColumnValue(NasIndex::BarStressField(BarStressField::Axial)));
    g.push(ColumnGenerator::ColumnValue(NasIndex::BarStressField(BarStressField::AtRecoveryPoint { end: BarEnd::EndA, point: 1 })));
    g.push(ColumnGenerator::ColumnValue(NasIndex::BarStressField(BarStressField::AtRecoveryPoint { end: BarEnd::EndA, point: 2 })));
    g.push(ColumnGenerator::ColumnValue(NasIndex::BarStressField(BarStressField::AtRecoveryPoint { end: BarEnd::EndA, point: 3 })));
    g.push(ColumnGenerator::ColumnValue(NasIndex::BarStressField(BarStressField::AtRecoveryPoint { end: BarEnd::EndA, point: 4 })));
    g.push(ColumnGenerator::Blank);
    let h: [&'static str; 10] = ["EID (BAR)", "Subcase", "GID", "End", "Axial", "S1", "S2", "S3", "S4", HBLANK];
    proof {
        reveal_strlit("<UNUSED>");
        reveal_strlit("Axial");
        reveal_strlit("EID (BAR)");
        reveal_strlit("End");
        reveal_strlit("GID");
        reveal_strlit("S1");
        reveal_strlit("S2");
        reveal_strlit("S3");
        reveal_strlit("S4");
        reveal_strlit("Subcase");
        assert(h@[0] == "EID (BAR)");
        assert(h@[1] == "Subcase");
        assert(h@[2] == "GID");
        assert(h@[3] == "End");
        assert(h@[4] == "Axial");
        assert(h@[5] == "S1");
        assert(h@[6] == "S2");
        assert(h@[7] == "S3");
        assert(h@[8] == "S4");
        assert(h@[9] == HBLANK);
        assert("EID (BAR)"@.len() != "Axial"@.len());
        assert("EID (BAR)"@.len() != "S1"@.len());
        assert("EID (BAR)"@.len() != "S2"@.len());
        assert("EID (BAR)"@.len() != "S3"@.len());
        assert("EID (BAR)"@.len() != "S4"@.len());
        assert(field_matches(BlockType::BarStresses, 0, g@[0], "EID (BAR)"@));
        assert("Subcase"@.len() != "Axial"@.len());
        assert("Subcase"@.len() != "S1"@.len());
        assert("Subcase"@.len() != "S2"@.len());
        assert("Subcase"@.len() != "S3"@.len());
        assert("Subcase"@.len() != "S4"@.len());
        assert(field_matches(BlockType::BarStresses, 0, g@[1], "Subcase"@));
        assert("GID"@.len() != "Axial"@.len());
        assert("GID"@.len() != "S1"@.len());
        assert("GID"@.len() != "S2"@.len());
        assert("GID"@.len() != "S3"@.len());
        assert("GID"@.len() != "S4"@.len());
        assert(field_matches(BlockType::BarStresses, 0, g@[2], "GID"@));
        assert("End"@.len() != "Axial"@.len());
        assert("End"@.len() != "S1"@.len());
        assert("End"@.len() != "S2"@.len());
        assert("End"@.len() != "S3"@.len());
        assert("End"@.len() != "S4"@.len());
        assert(field_matches(BlockType::BarStresses, 0, g@[3], "End"@));
        assert(field_matches(BlockType::BarStresses, 0, g@[4], "Axial"@));
        assert("S1"@.len() != "Axial"@.len());
        assert(field_matches(BlockType::BarStresses, 0, g@[5], "S1"@));
        assert("S2"@.len() != "Axial"@.len());
        assert("S2"@[1] != "S1"@[1]);
        assert(field_matches(BlockType::BarStresses, 0, g@[6], "S2"@));
        assert("S3"@.len() != "Axial"@.len());
        assert("S3"@[1] != "S1"@[1]);
        assert("S3"@[1] != "S2"@[1]);
        assert(field_matches(BlockType::BarStresses, 0, g@[7], "S3"@));
        assert("S4"@.len() != "Axial"@.len());
        assert("S4"@[1] != "S1"@[1]);
        assert("S4"@[1] != "S2"@[1]);
        assert("S4"@[1] != "S3"@[1]);
        assert(field_matches(BlockType::BarStresses, 0, g@[8], "S4"@));
        assert("<UNUSED>"@.len() != "Axial"@.len());
        assert("<UNUSED>"@.len() != "S1"@.len());
        assert("<UNUSED>"@.len() != "S2"@.len());
        assert("<UNUSED>"@.len() != "S3"@.len());
        assert("<UNUSED>"@.len() != "S4"@.len());
        assert(field_matches(BlockType::BarStresses, 0, g@[9], HBLANK@));
        assert(row_matches(BlockType::BarStresses, 0, g@, h@));
    }
    generators.push(g);
    headers.push(h);
    let mut g: Vec<ColumnGenerator> = Vec::new();
    g.push(ColumnGenerator::ElementId);
    g.push(ColumnGenerator::Subcase);
    g.push(ColumnGenerator::ConstantNumber(F06Number::Natural(0)));
    g.push(ColumnGenerator::ConstantString("End B"));
    g.push(ColumnGenerator::ColumnValue(NasIndex::BarStressField(BarStressField::Axial)));
    g.push(ColumnGenerator::ColumnValue(NasIndex::BarStressField(BarStressField::AtRecoveryPoint { end: BarEnd::EndB, point: 1 })));
    g.push(ColumnGenerator::ColumnValue(NasIndex::BarStressField(BarStressField::AtRecoveryPoint { end: BarEnd::EndB, point: 2 })));
    g.push(ColumnGenerator::ColumnValue(NasIndex::BarStressField(BarStressField::AtRecoveryPoint { end: BarEnd::EndB, point: 3 })));
    g.push(ColumnGenerator::ColumnValue(NasIndex::BarStressField(BarStressField::AtRecoveryPoint { end: BarEnd::EndB, point: 4 })));
    g.push(ColumnGenerator::Blank);
    let h: [&'static str; 10] = ["EID (BAR)", "Subcase", "GID", "End", "Axial", "S1", "S2", "S3", "S4", HBLANK];
    proof {
        reveal_strlit("<UNUSED>");
        reveal_strlit("Axial");
        reveal_strlit("EID (BAR)");
        reveal_strlit("End");
        reveal_strlit("GID");
        reveal_strlit("S1");
        reveal_strlit("S2");
        reveal_strlit("S3");
        reveal_strlit("S4");
        reveal_strlit("Subcase");
        assert(h@[0] == "EID (BAR)");
        assert(h@[1] == "Subcase");
        assert(h@[2] == "GID");
        assert(h@[3] == "End");
        assert(h@[4] == "Axial");
        assert(h@[5] == "S1");
        assert(h@[6] == "S2");
        assert(h@[7] == "S3");
        assert(h@[8] == "S4");
        assert(h@[9] == HBLANK);
        assert("EID (BAR)"@.len() != "Axial"@.len());
        assert("EID (BAR)"@.len() != "S1"@.len());
        assert("EID (BAR)"@.len() != "S2"@.len());
        assert("EID (BAR)"@.len() != "S3"@.len());
        assert("EID (BAR)"@.len() != "S4"@.len());
        assert(field_matches(BlockType::BarStresses, 1, g@[0], "EID (BAR)"@));
        assert("Subcase"@.len() != "Axial"@.len());
        assert("Subcase"@.len() != "S1"@.len());
        assert("Subcase"@.len() != "S2"@.len());
        assert("Subcase"@.len() != "S3"@.len());
        assert("Subcase"@.len() != "S4"@.len());
        assert(field_matches(BlockType::BarStresses, 1, g@[1], "Subcase"@));
        assert("GID"@.len() != "Axial"@.len());
        assert("GID"@.len() != "S1"@.len());
        assert("GID"@.len() != "S2"@.len());
        assert("GID"@.len() != "S3"@.len());
        assert("GID"@.len() != "S4"@.len());
        assert(field_matches(BlockType::BarStresses, 1, g@[2], "GID"@));
        assert("End"@.len() != "Axial"@.len());
        assert("End"@.len() != "S1"@.len());
        assert("End"@.len() != "S2"@.len());
        assert("End"@.len() != "S3"@.len());
        assert("End"@.len() != "S4"@.len());
        assert(field_matches(BlockType::BarStresses, 1, g@[3], "End"@));
        assert(field_matches(BlockType::BarStresses, 1, g@[4], "Axial"@));
        assert("S1"@.len() != "Axial"@.len());
        assert(field_matches(BlockType::BarStresses, 1, g@[5], "S1"@));
        assert("S2"@.len() != "Axial"@.len());
        assert("S2"@[1] != "S1"@[1]);
        assert(field_matches(BlockType::BarStresses, 1, g@[6], "S2"@));
        assert("S3"@.len() != "Axial"@.len());
        assert("S3"@[1] != "S1"@[1]);
        assert("S3"@[1] != "S2"@[1]);
        assert(field_matches(BlockType::BarStresses, 1, g@[7], "S3"@));
        assert("S4"@.len() != "Axial"@.len());
        assert("S4"@[1] != "S1"@[1]);
        assert("S4"@[1] != "S2"@[1]);
        assert("S4"@[1] != "S3"@[1]);
        assert(field_matches(BlockType::BarStresses, 1, g@[8], "S4"@));
        assert("<UNUSED>"@.len() != "Axial"@.len());
        assert("<UNUSED>"@.len() != "S1"@.len());
        assert("<UNUSED>"@.len() != "S2"@.len());
        assert("<UNUSED>"@.len() != "S3"@.len());
        assert("<UNUSED>"@.len() != "S4"@.len());
        assert(field_matches(BlockType::BarStresses, 1, g@[9], HBLANK@));
        assert(row_matches(BlockType::BarStresses, 1, g@, h@));
    }
    generators.push(g);
    headers.push(h);
    let r = BlockConverter { input_block_type: BlockType::BarStresses, output_block_id: CsvBlockId::Stresses, generators, headers };
    r
}

/// The conversion template for ELAS1 stresses.
fn ct_stresses_elas1() -> (r: BlockConverter)
    ensures
        r.wf(),
        r.input_block_type == BlockType::Elas1Stresses,
        r.output_block_id == CsvBlockId::Stresses,
        converter_matches(r),
{
    let mut generators: Vec<Vec<ColumnGenerator>> = Vec::new();
    let mut headers: Vec<[&'static str; 10]> = Vec::new();
    let mut g: Vec<ColumnGenerator> = Vec::new();
    g.push(ColumnGenerator::ElementId);
    g.push(ColumnGenerator::Subcase);
    g.push(ColumnGenerator::Blank);
    g.push(ColumnGenerator::Blank);
    g.push(ColumnGenerator::ColumnValue(NasIndex::SingleStress(SingleStress::Stress)));
    g.push(ColumnGenerator::Blank);
    g.push(ColumnGenerator::Blank);
    g.push(ColumnGenerator::Blank);
    g.push(ColumnGenerator::Blank);
    g.push(ColumnGenerator::Blank);
    let h: [&'static str; 10] = ["EID (ELAS1)", "Subcase", HBLANK, HBLANK, "Stress", HBLANK, HBLANK, HBLANK, HBLANK, HBLANK];
    proof {
        reveal_strlit("<UNUSED>");
        reveal_strlit("EID (ELAS1)");
        reveal_strlit("Stress");
        reveal_strlit("Subcase");
        assert(h@[0] == "EID (ELAS1)");
        assert(h@[1] == "Subcase");
        assert(h@[2] == HBLANK);
        assert(h@[3] == HBLANK);
        assert(h@[4] == "Stress");
        assert(h@[5] == HBLANK);
        assert(h@[6] == HBLANK);
        assert(h@[7] == HBLANK);
        assert(h@[8] == HBLANK);
        assert(h@[9] == HBLANK);
        assert("EID (ELAS1)"@.len() != "Stress"@.len());
        assert(field_matches(BlockType::Elas1Stresses, 0, g@[0], "EID (ELAS1)"@));
        assert("Subcase"@.len() != "Stress"@.len());
        assert(field_matches(BlockType::Elas1Stresses, 0, g@[1], "Subcase"@));
        assert("<UNUSED>"@.len() != "Stress"@.len());
        assert(field_matches(BlockType::Elas1Stresses, 0, g@[2], HBLANK@));
        assert("<UNUSED>"@.len() != "Stress"@.len());
        assert(field_matches(BlockType::Elas1Stresses, 0, g@[3], HBLANK@));
        assert(field_matches(BlockType::Elas1Stresses, 0, g@[4], "Stress"@));
        assert("<UNUSED>"@.len() != "Stress"@.len());
        assert(field_matches(BlockType::Elas1Stresses, 0, g@[5], HBLANK@));
        assert("<UNUSED>"@.len() != "Stress"@.len());
        assert(field_matches(BlockType::Elas1Stresses, 0, g@[6], HBLANK@));
        assert("<UNUSED>"@.len() != "Stress"@.len());
        assert(field_matches(BlockType::Elas1Stresses, 0, g@[7], HBLANK@));
        assert("<UNUSED>"@.len() != "Stress"@.len());
        assert(field_matches(BlockType::Elas1Stresses, 0, g@[8], HBLANK@));
        assert("<UNUSED>"@.len() != "Stress"@.len());
        assert(field_matches(BlockType::Elas1Stresses, 0, g@[9], HBLANK@));
        assert(row_matches(BlockType::Elas1Stresses, 0, g@, h@));
    }
    generators.push(g);
    headers.push(h);
    let r = BlockConverter { input_block_type: BlockType::Elas1Stresses, output_block_id: CsvBlockId::Stresses, generators, headers };
    r
}

/// The conversion template for quad strains.
fn ct_strains_quad() -> (r: BlockConverter)
    ensures
        r.wf(),
        r.input_block_type == BlockType::QuadStrains,
        r.output_block_id == CsvBlockId::Strains,
        converter_matches(r),
{
    let mut generators: Vec<Vec<ColumnGenerator>> = Vec::new();
    let mut headers: Vec<[&'static str; 10]> = Vec::new();
    let mut g: Vec<ColumnGenerator> = Vec::new();
    g.push(ColumnGenerator::ElementId);
    g.push(ColumnGenerator::Subcase);
    g.push(ColumnGenerator::WithDefault(Box::new(ColumnGenerator::GridId), CsvField::Natural(0)));
    g.push(ColumnGenerator::ColumnValue(NasIndex::PlateStrainField(PlateStrainField(PlateStressField::FibreDistance))));
    g.push(ColumnGenerator::ColumnValue(NasIndex::PlateStrainField(PlateStrainField(PlateStressField::NormalX))));
    g.push(ColumnGenerator::ColumnValue(NasIndex::PlateStrainField(PlateStrainField(PlateStressField::NormalY))));
    g.push(ColumnGenerator::Blank);
    g.push(ColumnGenerator::ColumnValue(NasIndex::PlateStrainField(PlateStrainField(PlateStressField::ShearXY))));
    g.push(ColumnGenerator::Blank);
    g.push(ColumnGenerator::Blank);
    let h: [&'static str; 10] = ["EID (QUAD4)", "Subcase", "GID", "FibreDistance", "NormalX", "NormalY", HBLANK, "ShearXY", HBLANK, HBLANK];
    proof {
        reveal_strlit("<UNUSED>");
        reveal_strlit("EID (QUAD4)");
        reveal_strlit("FibreDistance");
        reveal_strlit("GID");
        reveal_strlit("NormalX");
        reveal_strlit("NormalY");
        reveal_strlit("ShearXY");
        reveal_strlit("Subcase");
        assert(h@[0] == "EID (QUAD4)");
        assert(h@[1] == "Subcase");
        assert(h@[2] == "GID");
        assert(h@[3] == "FibreDistance");
        assert(h@[4] == "NormalX");
        assert(h@[5] == "NormalY");
        assert(h@[6] == HBLANK);
        assert(h@[7] == "ShearXY");
        assert(h@[8] == HBLANK);
        assert(h@[9] == HBLANK);
        assert("EID (QUAD4)"@.len() != "FibreDistance"@.len());
        assert("EID (QUAD4)"@.len() != "NormalX"@.len());
        assert("EID (QUAD4)"@.len() != "NormalY"@.len());
        assert("EID (QUAD4)"@.len() != "ShearXY"@.len());
        assert(field_matches(BlockType::QuadStrains, 0, g@[0], "EID (QUAD4)"@));
        assert("Subcase"@.len() != "FibreDistance"@.len());
        assert("Subcase"@[0] != "NormalX"@[0]);
        assert("Subcase"@[0] != "NormalY"@[0]);
        assert("Subcase"@[1] != "ShearXY"@[1]);
        assert(field_matches(BlockType::QuadStrains, 0, g@[1], "Subcase"@));
        assert("GID"@.len() != "FibreDistance"@.len());
        assert("GID"@.len() != "NormalX"@.len());
        assert("GID"@.len() != "NormalY"@.len());
        assert("GID"@.len() != "ShearXY"@.len());
        assert(field_matches(BlockType::QuadStrains, 0, g@[2], "GID"@));
        assert(field_matches(BlockType::QuadStrains, 0, g@[3], "FibreDistance"@));
        assert("NormalX"@.len() != "FibreDistance"@.len());
        assert(field_matches(BlockType::QuadStrains, 0, g@[4], "NormalX"@));
        assert("NormalY"@.len() != "FibreDistance"@.len());
        assert("NormalY"@[6] != "NormalX"@[6]);
        assert(field_matches(BlockType::QuadStrains, 0, g@[5], "NormalY"@));
        assert("<UNUSED>"@.len() != "FibreDistance"@.len());
        assert("<UNUSED>"@.len() != "NormalX"@.len());
        assert("<UNUSED>"@.len() != "NormalY"@.len());
        assert("<UNUSED>"@.len() != "ShearXY"@.len());
        assert(field_matches(BlockType::QuadStrains, 0, g@[6], HBLANK@));
        assert("ShearXY"@.len() != "FibreDistance"@.len());
        assert("ShearXY"@[0] != "NormalX"@[0]);
        assert("ShearXY"@[0] != "NormalY"@[0]);
        assert(field_matches(BlockType::QuadStrains, 0, g@[7], "ShearXY"@));
        assert("<UNUSED>"@.len() != "FibreDistance"@.len());
        assert("<UNUSED>"@.len() != "NormalX"@.len());
        assert("<UNUSED>"@.len() != "NormalY"@.len());
        assert("<UNUSED>"@.len() != "ShearXY"@.len());
        assert(field_matches(BlockType::QuadStrains, 0, g@[8], HBLANK@));
        assert("<UNUSED>"@.len() != "FibreDistance"@.len());
        assert("<UNUSED>"@.len() != "NormalX"@.len());
        assert("<UNUSED>"@.len() != "NormalY"@.len());
        assert("<UNUSED>"@.len() != "ShearXY"@.len());
        assert(field_matches(BlockType::QuadStrains, 0, g@[9], HBLANK@));
        assert(row_matches(BlockType::QuadStrains, 0, g@, h@));
    }
    generators.push(g);
    headers.push(h);
    let r = BlockConverter { input_block_type: BlockType::QuadStrains, output_block_id: CsvBlockId::Strains, generators, headers };
    r
}

/// The conversion template for tria strains.
fn ct_strains_tria() -> (r: BlockConverter)
    ensures
        r.wf(),
        r.input_block_type == BlockType::TriaStrains,
        r.output_block_id == CsvBlockId::Strains,
        converter_matches(r),
{
    let mut generators: Vec<Vec<ColumnGenerator>> = Vec::new();
    let mut headers: Vec<[&'static str; 10]> = Vec::new();
    let mut g: Vec<ColumnGenerator> = Vec::new();
    g.push(ColumnGenerator::ElementId);
    g.push(ColumnGenerator::Subcase);
    g.push(ColumnGenerator::WithDefault(Box::new(ColumnGenerator::GridId), CsvField::Natural(0)));
    g.push(ColumnGenerator::ColumnValue(NasIndex::PlateStrainField(PlateStrainField(PlateStressField::FibreDistance))));
    g.push(ColumnGenerator::ColumnValue(NasIndex::PlateStrainField(PlateStrainField(PlateStressField::NormalX))));
    g.push(ColumnGenerator::ColumnValue(NasIndex::PlateStrainField(PlateStrainField(PlateStressField::NormalY))));
    g.push(ColumnGenerator::Blank);
    g.push(ColumnGenerator::ColumnValue(NasIndex::PlateStrainField(PlateStrainField(PlateStressField::ShearXY))));
    g.push(ColumnGenerator::Blank);
    g.push(ColumnGenerator::Blank);
    let h: [&'static str; 10] = ["EID (TRIA3)", "Subcase", "GID", "FibreDistance", "NormalX", "NormalY", HBLANK, "ShearXY", HBLANK, HBLANK];
    proof {
        reveal_strlit("<UNUSED>");
        reveal_strlit("EID (TRIA3)");
        reveal_strlit("FibreDistance");
        reveal_strlit("GID");
        reveal_strlit("NormalX");
        reveal_strlit("NormalY");
        reveal_strlit("ShearXY");
        reveal_strlit("Subcase");
        assert(h@[0] == "EID (TRIA3)");
        assert(h@[1] == "Subcase");
        assert(h@[2] == "GID");
        assert(h@[3] == "FibreDistance");
        assert(h@[4] == "NormalX");
        assert(h@[5] == "NormalY");
        assert(h@[6] == HBLANK);
        assert(h@[7] == "ShearXY");
        assert(h@[8] == HBLANK);
        assert(h@[9] == HBLANK);
        assert("EID (TRIA3)"@.len() != "FibreDistance"@.len());
        assert("EID (TRIA3)"@.len() != "NormalX"@.len());
        assert("EID (TRIA3)"@.len() != "NormalY"@.len());
        assert("EID (TRIA3)"@.len() != "ShearXY"@.len());
        assert(field_matches(BlockType::TriaStrains, 0, g@[0], "EID (TRIA3)"@));
        assert("Subcase"@.len() != "FibreDistance"@.len());
        assert("Subcase"@[0] != "NormalX"@[0]);
        assert("Subcase"@[0] != "NormalY"@[0]);
        assert("Subcase"@[1] != "ShearXY"@[1]);
        assert(field_matches(BlockType::TriaStrains, 0, g@[1], "Subcase"@));
        assert("GID"@.len() != "FibreDistance"@.len());
        assert("GID"@.len() != "NormalX"@.len());
        assert("GID"@.len() != "NormalY"@.len());
        assert("GID"@.len() != "ShearXY"@.len());
        assert(field_matches(BlockType::TriaStrains, 0, g@[2], "GID"@));
        assert(field_matches(BlockType::TriaStrains, 0, g@[3], "FibreDistance"@));
        assert("NormalX"@.len() != "FibreDistance"@.len());
        assert(field_matches(BlockType::TriaStrains, 0, g@[4], "NormalX"@));
        assert("NormalY"@.len() != "FibreDistance"@.len());
        assert("NormalY"@[6] != "NormalX"@[6]);
        assert(field_matches(BlockType::TriaStrains, 0, g@[5], "NormalY"@));
        assert("<UNUSED>"@.len() != "FibreDistance"@.len());
        assert("<UNUSED>"@.len() != "NormalX"@.len());
        assert("<UNUSED>"@.len() != "NormalY"@.len());
        assert("<UNUSED>"@.len() != "ShearXY"@.len());
        assert(field_matches(BlockType::TriaStrains, 0, g@[6], HBLANK@));
        assert("ShearXY"@.len() != "FibreDistance"@.len());
        assert("ShearXY"@[0] != "NormalX"@[0]);
        assert("ShearXY"@[0] != "NormalY"@[0]);
        assert(field_matches(BlockType::TriaStrains, 0, g@[7], "ShearXY"@));
        assert("<UNUSED>"@.len() != "FibreDistance"@.len());
        assert("<UNUSED>"@.len() != "NormalX"@.len());
        assert("<UNUSED>"@.len() != "NormalY"@.len());
        assert("<UNUSED>"@.len() != "ShearXY"@.len());
        assert(field_matches(BlockType::TriaStrains, 0, g@[8], HBLANK@));
        assert("<UNUSED>"@.len() != "FibreDistance"@.len());
        assert("<UNUSED>"@.len() != "NormalX"@.len());
        assert("<UNUSED>"@.len() != "NormalY"@.len());
        assert("<UNUSED>"@.len() != "ShearXY"@.len());
        assert(field_matches(BlockType::TriaStrains, 0, g@[9], HBLANK@));
        assert(row_matches(BlockType::TriaStrains, 0, g@, h@));
    }
    generators.push(g);
    headers.push(h);
    let r = BlockConverter { input_block_type: BlockType::TriaStrains, output_block_id: CsvBlockId::Strains, generators, headers };
    r
}

/// The conversion template for rod strains.
fn ct_strains_rod() -> (r: BlockConverter)
    ensures
        r.wf(),
        r.input_block_type == BlockType::RodStrains,
        r.output_block_id == CsvBlockId::Strains,
        converter_matches(r),
{
    let mut generators: Vec<Vec<ColumnGenerator>> = Vec::new();
    let mut headers: Vec<[&'static str; 10]> = Vec::new();
    let mut g: Vec<ColumnGenerator> = Vec::new();
    g.push(ColumnGenerator::ElementId);
    g.push(ColumnGenerator::Subcase);
    g.push(ColumnGenerator::Blank);
    g.push(ColumnGenerator::Blank);
    g.push(ColumnGenerator::ColumnValue(NasIndex::RodStrainField(RodStrainField(RodStressField::Axial))));
    g.push(ColumnGenerator::Blank);
    g.push(ColumnGenerator::Blank);
    g.push(ColumnGenerator::ColumnValue(NasIndex::RodStrainField(RodStrainField(RodStressField::Torsional))));
    g.push(ColumnGenerator::Blank);
    g.push(ColumnGenerator::Blank);
    let h: [&'static str; 10] = ["EID (ROD)", "Subcase", HBLANK, HBLANK, "Axial", HBLANK, HBLANK, "Torsional", HBLANK, HBLANK];
    proof {
        reveal_strlit("<UNUSED>");
        reveal_strlit("Axial");
        reveal_strlit("EID (ROD)");
        reveal_strlit("Subcase");
        reveal_strlit("Torsional");
        assert(h@[0] == "EID (ROD)");
        assert(h@[1] == "Subcase");
        assert(h@[2] == HBLANK);
        assert(h@[3] == HBLANK);
        assert(h@[4] == "Axial");
        assert(h@[5] == HBLANK);
        assert(h@[6] == HBLANK);
        assert(h@[7] == "Torsional");
        assert(h@[8] == HBLANK);
        assert(h@[9] == HBLANK);
        assert("EID (ROD)"@.len() != "Axial"@.len());
        assert("EID (ROD)"@[0] != "Torsional"@[0]);
        assert(field_matches(BlockType::RodStrains, 0, g@[0], "EID (ROD)"@));
        assert("Subcase"@.len() != "Axial"@.len());
        assert("Subcase"@.len() != "Torsional"@.len());
        assert(field_matches(BlockType::RodStrains, 0, g@[1], "Subcase"@));
        assert("<UNUSED>"@.len() != "Axial"@.len());
        assert("<UNUSED>"@.len() != "Torsional"@.len());
        assert(field_matches(BlockType::RodStrains, 0, g@[2], HBLANK@));
        assert("<UNUSED>"@.len() != "Axial"@.len());
        assert("<UNUSED>"@.len() != "Torsional"@.len());
        assert(field_matches(BlockType::RodStrains, 0, g@[3], HBLANK@));
        assert(field_matches(BlockType::RodStrains, 0, g@[4], "Axial"@));
        assert("<UNUSED>"@.len() != "Axial"@.len());
        assert("<UNUSED>"@.len() != "Torsional"@.len());
        assert(field_matches(BlockType::RodStrains, 0, g@[5], HBLANK@));
        assert("<UNUSED>"@.len() != "Axial"@.len());
        assert("<UNUSED>"@.len() != "Torsional"@.len());
        assert(field_matches(BlockType::RodStrains, 0, g@[6], HBLANK@));
        assert("Torsional"@.len() != "Axial"@.len());
        assert(field_matches(BlockType::RodStrains, 0, g@[7], "Torsional"@));
        assert("<UNUSED>"@.len() != "Axial"@.len());
        assert("<UNUSED>"@.len() != "Torsional"@.len());
        assert(field_matches(BlockType::RodStrains, 0, g@[8], HBLANK@));
        assert("<UNUSED>"@.len() != "Axial"@.len());
        assert("<UNUSED>"@.len() != "Torsional"@.len());
        assert(field_matches(BlockType::RodStrains, 0, g@[9], HBLANK@));
        assert(row_matches(BlockType::RodStrains, 0, g@, h@));
    }
    generators.push(g);
    headers.push(h);
    let r = BlockConverter { input_block_type: BlockType::RodStrains, output_block_id: CsvBlockId::Strains, generators, headers };
    r
}

/// The conversion template for bar strains: a row for each end.
fn ct_strains_bar() -> (r: BlockConverter)
    ensures
        r.wf(),
        r.input_block_type == BlockType::BarStrains,
        r.output_block_id == CsvBlockId::Strains,
        converter_matches(r),
{
    let mut generators: Vec<Vec<ColumnGenerator>> = Vec::new();
    let mut headers: Vec<[&'static str; 10]> = Vec::new();
    let mut g: Vec<ColumnGenerator> = Vec::new();
    g.push(ColumnGenerator::ElementId);
    g.push(ColumnGenerator::Subcase);
    g.push(ColumnGenerator::ConstantNumber(F06Number::Natural(0)));
    g.push(ColumnGenerator::ConstantString("End A"));
    g.push(ColumnGenerator::ColumnValue(NasIndex::BarStrainField(BarStrainField(BarStressField::Axial))));
    g.push(ColumnGenerator::ColumnValue(NasIndex::BarStrainField(BarStrainField(BarStressField::AtRecoveryPoint { end: BarEnd::EndA, point: 1 }))));
    g.push(ColumnGenerator::ColumnValue(NasIndex::BarStrainField(BarStrainField(BarStressField::AtRecoveryPoint { end: BarEnd::EndA, point: 2 }))));
    g.push(ColumnGenerator::ColumnValue(NasIndex::BarStrainField(BarStrainField(BarStressField::AtRecoveryPoint { end: BarEnd::EndA, point: 3 }))));
    g.push(ColumnGenerator::ColumnValue(NasIndex::BarStrainField(BarStrainField(BarStressField::AtRecoveryPoint { end: BarEnd::EndA, point: 4 }))));
    g.push(ColumnGenerator::Blank);
    let h: [&'static str; 10] = ["EID (BAR)", "Subcase", "GID", "End", "Axial", "S1", "S2", "S3", "S4", HBLANK];
    proof {
        reveal_strlit("<UNUSED>");
        reveal_strlit("Axial");
        reveal_strlit("EID (BAR)");
        reveal_strlit("End");
        reveal_strlit("GID");
        reveal_strlit("S1");
        reveal_strlit("S2");
        reveal_strlit("S3");
        reveal_strlit("S4");
        reveal_strlit("Subcase");
        assert(h@[0] == "EID (BAR)");
        assert(h@[1] == "Subcase");
        assert(h@[2] == "GID");
        assert(h@[3] == "End");
        assert(h@[4] == "Axial");
        assert(h@[5] == "S1");
        assert(h@[6] == "S2");
        assert(h@[7] == "S3");
        assert(h@[8] == "S4");
        assert(h@[9] == HBLANK);
        assert("EID (BAR)"@.len() != "Axial"@.len());
        assert("EID (BAR)"@.len() != "S1"@.len());
        assert("EID (BAR)"@.len() != "S2"@.len());
        assert("EID (BAR)"@.len() != "S3"@.len());
        assert("EID (BAR)"@.len() != "S4"@.len());
        assert(field_matches(BlockType::BarStrains, 0, g@[0], "EID (BAR)"@));
        assert("Subcase"@.len() != "Axial"@.len());
        assert("Subcase"@.len() != "S1"@.len());
        assert("Subcase"@.len() != "S2"@.len());
        assert("Subcase"@.len() != "S3"@.len());
        assert("Subcase"@.len() != "S4"@.len());
        assert(field_matches(BlockType::BarStrains, 0, g@[1], "Subcase"@));
        assert("GID"@.len() != "Axial"@.len());
        assert("GID"@.len() != "S1"@.len());
        assert("GID"@.len() != "S2"@.len());
        assert("GID"@.len() != "S3"@.len());
        assert("GID"@.len() != "S4"@.len());
        assert(field_matches(BlockType::BarStrains, 0, g@[2], "GID"@));
        assert("End"@.len() != "Axial"@.len());
        assert("End"@.len() != "S1"@.len());
        assert("End"@.len() != "S2"@.len());
        assert("End"@.len() != "S3"@.len());
        assert("End"@.len() != "S4"@.len());
        assert(field_matches(BlockType::BarStrains, 0, g@[3], "End"@));
        assert(field_matches(BlockType::BarStrains, 0, g@[4], "Axial"@));
        assert("S1"@.len() != "Axial"@.len());
        assert(field_matches(BlockType::BarStrains, 0, g@[5], "S1"@));
        assert("S2"@.len() != "Axial"@.len());
        assert("S2"@[1] != "S1"@[1]);
        assert(field_matches(BlockType::BarStrains, 0, g@[6], "S2"@));
        assert("S3"@.len() != "Axial"@.len());
        assert("S3"@[1] != "S1"@[1]);
        assert("S3"@[1] != "S2"@[1]);
        assert(field_matches(BlockType::BarStrains, 0, g@[7], "S3"@));
        assert("S4"@.len() != "Axial"@.len());
        assert("S4"@[1] != "S1"@[1]);
        assert("S4"@[1] != "S2"@[1]);
        assert("S4"@[1] != "S3"@[1]);
        assert(field_matches(BlockType::BarStrains, 0, g@[8], "S4"@));
        assert("<UNUSED>"@.len() != "Axial"@.len());
        assert("<UNUSED>"@.len() != "S1"@.len());
        assert("<UNUSED>"@.len() != "S2"@.len());
        assert("<UNUSED>"@.len() != "S3"@.len());
        assert("<UNUSED>"@.len() != "S4"@.len());
        assert(field_matches(BlockType::BarStrains, 0, g@[9], HBLANK@));
        assert(row_matches(BlockType::BarStrains, 0, g@, h@));
    }
    generators.push(g);
    headers.push(h);
    let mut g: Vec<ColumnGenerator> = Vec::new();
    g.push(ColumnGenerator::ElementId);
    g.push(ColumnGenerator::Subcase);
    g.push(ColumnGenerator::ConstantNumber(F06Number::Natural(0)));
    g.push(ColumnGenerator::ConstantString("End B"));
    g.push(ColumnGenerator::ColumnValue(NasIndex::BarStrainField(BarStrainField(BarStressField::Axial))));
    g.push(ColumnGenerator::ColumnValue(NasIndex::BarStrainField(BarStrainField(BarStressField::AtRecoveryPoint { end: BarEnd::EndB, point: 1 }))));
    g.push(ColumnGenerator::ColumnValue(NasIndex::BarStrainField(BarStrainField(BarStressField::AtRecoveryPoint { end: BarEnd::EndB, point: 2 }))));
    g.push(ColumnGenerator::ColumnValue(NasIndex::BarStrainField(BarStrainField(BarStressField::AtRecoveryPoint { end: BarEnd::EndB, point: 3 }))));
    g.push(ColumnGenerator::ColumnValue(NasIndex::BarStrainField(BarStrainField(BarStressField::AtRecoveryPoint { end: BarEnd::EndB, point: 4 }))));
    g.push(ColumnGenerator::Blank);
    let h: [&'static str; 10] = ["EID (BAR)", "Subcase", "GID", "End", "Axial", "S1", "S2", "S3", "S4", HBLANK];
    proof {
        reveal_strlit("<UNUSED>");
        reveal_strlit("Axial");
        reveal_strlit("EID (BAR)");
        reveal_strlit("End");
        reveal_strlit("GID");
        reveal_strlit("S1");
        reveal_strlit("S2");
        reveal_strlit("S3");
        reveal_strlit("S4");
        reveal_strlit("Subcase");
        assert(h@[0] == "EID (BAR)");
        assert(h@[1] == "Subcase");
        assert(h@[2] == "GID");
        assert(h@[3] == "End");
        assert(h@[4] == "Axial");
        assert(h@[5] == "S1");
        assert(h@[6] == "S2");
        assert(h@[7] == "S3");
        assert(h@[8] == "S4");
        assert(h@[9] == HBLANK);
        assert("EID (BAR)"@.len() != "Axial"@.len());
        assert("EID (BAR)"@.len() != "S1"@.len());
        assert("EID (BAR)"@.len() != "S2"@.len());
        assert("EID (BAR)"@.len() != "S3"@.len());
        assert("EID (BAR)"@.len() != "S4"@.len());
        assert(field_matches(BlockType::BarStrains, 1, g@[0], "EID (BAR)"@));
        assert("Subcase"@.len() != "Axial"@.len());
        assert("Subcase"@.len() != "S1"@.len());
        assert("Subcase"@.len() != "S2"@.len());
        assert("Subcase"@.len() != "S3"@.len());
        assert("Subcase"@.len() != "S4"@.len());
        assert(field_matches(BlockType::BarStrains, 1, g@[1], "Subcase"@));
        assert("GID"@.len() != "Axial"@.len());
        assert("GID"@.len() != "S1"@.len());
        assert("GID"@.len() != "S2"@.len());
        assert("GID"@.len() != "S3"@.len());
        assert("GID"@.len() != "S4"@.len());
        assert(field_matches(BlockType::BarStrains, 1, g@[2], "GID"@));
        assert("End"@.len() != "Axial"@.len());
        assert("End"@.len() != "S1"@.len());
        assert("End"@.len() != "S2"@.len());
        assert("End"@.len() != "S3"@.len());
        assert("End"@.len() != "S4"@.len());
        assert(field_matches(BlockType::BarStrains, 1, g@[3], "End"@));
        assert(field_matches(BlockType::BarStrains, 1, g@[4], "Axial"@));
        assert("S1"@.len() != "Axial"@.len());
        assert(field_matches(BlockType::BarStrains, 1, g@[5], "S1"@));
        assert("S2"@.len() != "Axial"@.len());
        assert("S2"@[1] != "S1"@[1]);
        assert(field_matches(BlockType::BarStrains, 1, g@[6], "S2"@));
        assert("S3"@.len() != "Axial"@.len());
        assert("S3"@[1] != "S1"@[1]);
        assert("S3"@[1] != "S2"@[1]);
        assert(field_matches(BlockType::BarStrains, 1, g@[7], "S3"@));
        assert("S4"@.len() != "Axial"@.len());
        assert("S4"@[1] != "S1"@[1]);
        assert("S4"@[1] != "S2"@[1]);
        assert("S4"@[1] != "S3"@[1]);
        assert(field_matches(BlockType::BarStrains, 1, g@[8], "S4"@));
        assert("<UNUSED>"@.len() != "Axial"@.len());
        assert("<UNUSED>"@.len() != "S1"@.len());
        assert("<UNUSED>"@.len() != "S2"@.len());
        assert("<UNUSED>"@.len() != "S3"@.len());
        assert("<UNUSED>"@.len() != "S4"@.len());
        assert(field_matches(BlockType::BarStrains, 1, g@[9], HBLANK@));
        assert(row_matches(BlockType::BarStrains, 1, g@, h@));
    }
    generators.push(g);
    headers.push(h);
    let r = BlockConverter { input_block_type: BlockType::BarStrains, output_block_id: CsvBlockId::Strains, generators, headers };
    r
}

/// The conversion template for ELAS1 strains.
fn ct_strains_elas1() -> (r: BlockConverter)
    ensures
        r.wf(),
        r.input_block_type == BlockType::Elas1Strains,
        r.output_block_id == CsvBlockId::Strains,
        converter_matches(r),
{
    let mut generators: Vec<Vec<ColumnGenerator>> = Vec::new();
    let mut headers: Vec<[&'static str; 10]> = Vec::new();
    let mut g: Vec<ColumnGenerator> = Vec::new();
    g.push(ColumnGenerator::ElementId);
    g.push(ColumnGenerator::Subcase);
    g.push(ColumnGenerator::Blank);
    g.push(ColumnGenerator::Blank);
    g.push(ColumnGenerator::ColumnValue(NasIndex::SingleStrain(SingleStrain::Strain)));
    g.push(ColumnGenerator::Blank);
    g.push(ColumnGenerator::Blank);
    g.push(ColumnGenerator::Blank);
    g.push(ColumnGenerator::Blank);
    g.push(ColumnGenerator::Blank);
    let h: [&'static str; 10] = ["EID (ELAS1)", "Subcase", HBLANK, HBLANK, "Strain", HBLANK, HBLANK, HBLANK, HBLANK, HBLANK];
    proof {
        reveal_strlit("<UNUSED>");
        reveal_strlit("EID (ELAS1)");
        reveal_strlit("Strain");
        reveal_strlit("Subcase");
        assert(h@[0] == "EID (ELAS1)");
        assert(h@[1] == "Subcase");
        assert(h@[2] == HBLANK);
        assert(h@[3] == HBLANK);
        assert(h@[4] == "Strain");
        assert(h@[5] == HBLANK);
        assert(h@[6] == HBLANK);
        assert(h@[7] == HBLANK);
        assert(h@[8] == HBLANK);
        assert(h@[9] == HBLANK);
        assert("EID (ELAS1)"@.len() != "Strain"@.len());
        assert(field_matches(BlockType::Elas1Strains, 0, g@[0], "EID (ELAS1)"@));
        assert("Subcase"@.len() != "Strain"@.len());
        assert(field_matches(BlockType::Elas1Strains, 0, g@[1], "Subcase"@));
        assert("<UNUSED>"@.len() != "Strain"@.len());
        assert(field_matches(BlockType::Elas1Strains, 0, g@[2], HBLANK@));
        assert("<UNUSED>"@.len() != "Strain"@.len());
        assert(field_matches(BlockType::Elas1Strains, 0, g@[3], HBLANK@));
        assert(field_matches(BlockType::Elas1Strains, 0, g@[4], "Strain"@));
        assert("<UNUSED>"@.len() != "Strain"@.len());
        assert(field_matches(BlockType::Elas1Strains, 0, g@[5], HBLANK@));
        assert("<UNUSED>"@.len() != "Strain"@.len());
        assert(field_matches(BlockType::Elas1Strains, 0, g@[6], HBLANK@));
        assert("<UNUSED>"@.len() != "Strain"@.len());
        assert(field_matches(BlockType::Elas1Strains, 0, g@[7], HBLANK@));
        assert("<UNUSED>"@.len() != "Strain"@.len());
        assert(field_matches(BlockType::Elas1Strains, 0, g@[8], HBLANK@));
        assert("<UNUSED>"@.len() != "Strain"@.len());
        assert(field_matches(BlockType::Elas1Strains, 0, g@[9], HBLANK@));
        assert(row_matches(BlockType::Elas1Strains, 0, g@, h@));
    }
    generators.push(g);
    headers.push(h);
    let r = BlockConverter { input_block_type: BlockType::Elas1Strains, output_block_id: CsvBlockId::Strains, generators, headers };
    r
}

/// The conversion template for quad forces.
fn ct_forces_quad() -> (r: BlockConverter)
    ensures
        r.wf(),
        r.input_block_type == BlockType::QuadForces,
        r.output_block_id == CsvBlockId::EngForces,
        converter_matches(r),
{
    let mut generators: Vec<Vec<ColumnGenerator>> = Vec::new();
    let mut headers: Vec<[&'static str; 10]> = Vec::new();
    let mut g: Vec<ColumnGenerator> = Vec::new();
    g.push(ColumnGenerator::ElementId);
    g.push(ColumnGenerator::Subcase);
    g.push(ColumnGenerator::Blank);
    g.push(ColumnGenerator::Blank);
    g.push(ColumnGenerator::ColumnValue(NasIndex::PlateForceField(PlateForceField::NormalX)));
    g.push(ColumnGenerator::ColumnValue(NasIndex::PlateForceField(PlateForceField::NormalY)));
    g.push(ColumnGenerator::ColumnValue(NasIndex::PlateForceField(PlateForceField::NormalXY)));
    g.push(ColumnGenerator::ColumnValue(NasIndex::PlateForceField(PlateForceField::MomentX)));
    g.push(ColumnGenerator::ColumnValue(NasIndex::PlateForceField(PlateForceField::MomentY)));
    g.push(ColumnGenerator::ColumnValue(NasIndex::PlateForceField(PlateForceField::MomentXY)));
    let h: [&'static str; 10] = ["EID (QUAD4)", "Subcase", HBLANK, HBLANK, "NormalX", "NormalY", "NormalXY", "MomentX", "MomentY", "MomentXY"];
    proof {
        reveal_strlit("<UNUSED>");
        reveal_strlit("EID (QUAD4)");
        reveal_strlit("MomentX");
        reveal_strlit("MomentXY");
        reveal_strlit("MomentY");
        reveal_strlit("NormalX");
        reveal_strlit("NormalXY");
        reveal_strlit("NormalY");
        reveal_strlit("Subcase");
        assert(h@[0] == "EID (QUAD4)");
        assert(h@[1] == "Subcase");
        assert(h@[2] == HBLANK);
        assert(h@[3] == HBLANK);
        assert(h@[4] == "NormalX");
        assert(h@[5] == "NormalY");
        assert(h@[6] == "NormalXY");
        assert(h@[7] == "MomentX");
        assert(h@[8] == "MomentY");
        assert(h@[9] == "MomentXY");
        assert("EID (QUAD4)"@.len() != "NormalX"@.len());
        assert("EID (QUAD4)"@.len() != "NormalY"@.len());
        assert("EID (QUAD4)"@.len() != "NormalXY"@.len());
        assert("EID (QUAD4)"@.len() != "MomentX"@.len());
        assert("EID (QUAD4)"@.len() != "MomentY"@.len());
        assert("EID (QUAD4)"@.len() != "MomentXY"@.len());
        assert(field_matches(BlockType::QuadForces, 0, g@[0], "EID (QUAD4)"@));
        assert("Subcase"@[0] != "NormalX"@[0]);
        assert("Subcase"@[0] != "NormalY"@[0]);
        assert("Subcase"@.len() != "NormalXY"@.len());
        assert("Subcase"@[0] != "MomentX"@[0]);
        assert("Subcase"@[0] != "MomentY"@[0]);
        assert("Subcase"@.len() != "MomentXY"@.len());
        assert(field_matches(BlockType::QuadForces, 0, g@[1], "Subcase"@));
        assert("<UNUSED>"@.len() != "NormalX"@.len());
        assert("<UNUSED>"@.len() != "NormalY"@.len());
        assert("<UNUSED>"@[0] != "NormalXY"@[0]);
        assert("<UNUSED>"@.len() != "MomentX"@.len());
        assert("<UNUSED>"@.len() != "MomentY"@.len());
        assert("<UNUSED>"@[0] != "MomentXY"@[0]);
        assert(field_matches(BlockType::QuadForces, 0, g@[2], HBLANK@));
        assert("<UNUSED>"@.len() != "NormalX"@.len());
        assert("<UNUSED>"@.len() != "NormalY"@.len());
        assert("<UNUSED>"@[0] != "NormalXY"@[0]);
        assert("<UNUSED>"@.len() != "MomentX"@.len());
        assert("<UNUSED>"@.len() != "MomentY"@.len());
        assert("<UNUSED>"@[0] != "MomentXY"@[0]);
        assert(field_matches(BlockType::QuadForces, 0, g@[3], HBLANK@));
        assert(field_matches(BlockType::QuadForces, 0, g@[4], "NormalX"@));
        assert("NormalY"@[6] != "NormalX"@[6]);
        assert(field_matches(BlockType::QuadForces, 0, g@[5], "NormalY"@));
        assert("NormalXY"@.len() != "NormalX"@.len());
        assert("NormalXY"@.len() != "NormalY"@.len());
        assert(field_matches(BlockType::QuadForces, 0, g@[6], "NormalXY"@));
        assert("MomentX"@[0] != "NormalX"@[0]);
        assert("MomentX"@[0] != "NormalY"@[0]);
        assert("MomentX"@.len() != "NormalXY"@.len());
        assert(field_matches(BlockType::QuadForces, 0, g@[7], "MomentX"@));
        assert("MomentY"@[0] != "NormalX"@[0]);
        assert("MomentY"@[0] != "NormalY"@[0]);
        assert("MomentY"@.len() != "NormalXY"@.len());
        assert("MomentY"@[6] != "MomentX"@[6]);
        assert(field_matches(BlockType::QuadForces, 0, g@[8], "MomentY"@));
        assert("MomentXY"@.len() != "NormalX"@.len());
        assert("MomentXY"@.len() != "NormalY"@.len());
        assert("MomentXY"@[0] != "NormalXY"@[0]);
        assert("MomentXY"@.len() != "MomentX"@.len());
        assert("MomentXY"@.len() != "MomentY"@.len());
        assert(field_matches(BlockType::QuadForces, 0, g@[9], "MomentXY"@));
        assert(row_matches(BlockType::QuadForces, 0, g@, h@));
    }
    generators.push(g);
    headers.push(h);
    let r = BlockConverter { input_block_type: BlockType::QuadForces, output_block_id: CsvBlockId::EngForces, generators, headers };
    r
}

/// The conversion template for tria forces.
fn ct_forces_tria() -> (r: BlockConverter)
    ensures
        r.wf(),
        r.input_block_type == BlockType::TriaForces,
        r.output_block_id == CsvBlockId::EngForces,
        converter_matches(r),
{
    let mut generators: Vec<Vec<ColumnGenerator>> = Vec::new();
    let mut headers: Vec<[&'static str; 10]> = Vec::new();
    let mut g: Vec<ColumnGenerator> = Vec::new();
    g.push(ColumnGenerator::ElementId);
    g.push(ColumnGenerator::Subcase);
    g.push(ColumnGenerator::Blank);
    g.push(ColumnGenerator::Blank);
    g.push(ColumnGenerator::ColumnValue(NasIndex::PlateForceField(PlateForceField::NormalX)));
    g.push(ColumnGenerator::ColumnValue(NasIndex::PlateForceField(PlateForceField::NormalY)));
    g.push(ColumnGenerator::ColumnValue(NasIndex::PlateForceField(PlateForceField::NormalXY)));
    g.push(ColumnGenerator::ColumnValue(NasIndex::PlateForceField(PlateForceField::MomentX)));
    g.push(ColumnGenerator::ColumnValue(NasIndex::PlateForceField(PlateForceField::MomentY)));
    g.push(ColumnGenerator::ColumnValue(NasIndex::PlateForceField(PlateForceField::MomentXY)));
    let h: [&'static str; 10] = ["EID (QUAD4)", "Subcase", HBLANK, HBLANK, "NormalX", "NormalY", "NormalXY", "MomentX", "MomentY", "MomentXY"];
    proof {
        reveal_strlit("<UNUSED>");
        reveal_strlit("EID (QUAD4)");
        reveal_strlit("MomentX");
        reveal_strlit("MomentXY");
        reveal_strlit("MomentY");
        reveal_strlit("NormalX");
        reveal_strlit("NormalXY");
        reveal_strlit("NormalY");
        reveal_strlit("Subcase");
        assert(h@[0] == "EID (QUAD4)");
        assert(h@[1] == "Subcase");
        assert(h@[2] == HBLANK);
        assert(h@[3] == HBLANK);
        assert(h@[4] == "NormalX");
        assert(h@[5] == "NormalY");
        assert(h@[6] == "NormalXY");
        assert(h@[7] == "MomentX");
        assert(h@[8] == "MomentY");
        assert(h@[9] == "MomentXY");
        assert("EID (QUAD4)"@.len() != "NormalX"@.len());
        assert("EID (QUAD4)"@.len() != "NormalY"@.len());
        assert("EID (QUAD4)"@.len() != "NormalXY"@.len());
        assert("EID (QUAD4)"@.len() != "MomentX"@.len());
        assert("EID (QUAD4)"@.len() != "MomentY"@.len());
        assert("EID (QUAD4)"@.len() != "MomentXY"@.len());
        assert(field_matches(BlockType::TriaForces, 0, g@[0], "EID (QUAD4)"@));
        assert("Subcase"@[0] != "NormalX"@[0]);
        assert("Subcase"@[0] != "NormalY"@[0]);
        assert("Subcase"@.len() != "NormalXY"@.len());
        assert("Subcase"@[0] != "MomentX"@[0]);
        assert("Subcase"@[0] != "MomentY"@[0]);
        assert("Subcase"@.len() != "MomentXY"@.len());
        assert(field_matches(BlockType::TriaForces, 0, g@[1], "Subcase"@));
        assert("<UNUSED>"@.len() != "NormalX"@.len());
        assert("<UNUSED>"@.len() != "NormalY"@.len());
        assert("<UNUSED>"@[0] != "NormalXY"@[0]);
        assert("<UNUSED>"@.len() != "MomentX"@.len());
        assert("<UNUSED>"@.len() != "MomentY"@.len());
        assert("<UNUSED>"@[0] != "MomentXY"@[0]);
        assert(field_matches(BlockType::TriaForces, 0, g@[2], HBLANK@));
        assert("<UNUSED>"@.len() != "NormalX"@.len());
        assert("<UNUSED>"@.len() != "NormalY"@.len());
        assert("<UNUSED>"@[0] != "NormalXY"@[0]);
        assert("<UNUSED>"@.len() != "MomentX"@.len());
        assert("<UNUSED>"@.len() != "MomentY"@.len());
        assert("<UNUSED>"@[0] != "MomentXY"@[0]);
        assert(field_matches(BlockType::TriaForces, 0, g@[3], HBLANK@));
        assert(field_matches(BlockType::TriaForces, 0, g@[4], "NormalX"@));
        assert("NormalY"@[6] != "NormalX"@[6]);
        assert(field_matches(BlockType::TriaForces, 0, g@[5], "NormalY"@));
        assert("NormalXY"@.len() != "NormalX"@.len());
        assert("NormalXY"@.len() != "NormalY"@.len());
        assert(field_matches(BlockType::TriaForces, 0, g@[6], "NormalXY"@));
        assert("MomentX"@[0] != "NormalX"@[0]);
        assert("MomentX"@[0] != "NormalY"@[0]);
        assert("MomentX"@.len() != "NormalXY"@.len());
        assert(field_matches(BlockType::TriaForces, 0, g@[7], "MomentX"@));
        assert("MomentY"@[0] != "NormalX"@[0]);
        assert("MomentY"@[0] != "NormalY"@[0]);
        assert("MomentY"@.len() != "NormalXY"@.len());
        assert("MomentY"@[6] != "MomentX"@[6]);
        assert(field_matches(BlockType::TriaForces, 0, g@[8], "MomentY"@));
        assert("MomentXY"@.len() != "NormalX"@.len());
        assert("MomentXY"@.len() != "NormalY"@.len());
        assert("MomentXY"@[0] != "NormalXY"@[0]);
        assert("MomentXY"@.len() != "MomentX"@.len());
        assert("MomentXY"@.len() != "MomentY"@.len());
        assert(field_matches(BlockType::TriaForces, 0, g@[9], "MomentXY"@));
        assert(row_matches(BlockType::TriaForces, 0, g@, h@));
    }
    generators.push(g);
    headers.push(h);
    let r = BlockConverter { input_block_type: BlockType::TriaForces, output_block_id: CsvBlockId::EngForces, generators, headers };
    r
}

/// The conversion template for rod forces.
fn ct_forces_rod() -> (r: BlockConverter)
    ensures
        r.wf(),
        r.input_block_type == BlockType::RodForces,
        r.output_block_id == CsvBlockId::EngForces,
        converter_matches(r),
{
    let mut generators: Vec<Vec<ColumnGenerator>> = Vec::new();
    let mut headers: Vec<[&'static str; 10]> = Vec::new();
    let mut g: Vec<ColumnGenerator> = Vec::new();
    g.push(ColumnGenerator::ElementId);
    g.push(ColumnGenerator::Subcase);
    g.push(ColumnGenerator::Blank);
    g.push(ColumnGenerator::Blank);
    g.push(ColumnGenerator::ColumnValue(NasIndex::RodForceField(RodForceField::AxialForce)));
    g.push(ColumnGenerator::Blank);
    g.push(ColumnGenerator::Blank);
    g.push(ColumnGenerator::Blank);
    g.push(ColumnGenerator::Blank);
    g.push(ColumnGenerator::ColumnValue(NasIndex::RodForceField(RodForceField::Torque)));
    let h: [&'static str; 10] = ["EID (ROD)", "Subcase", HBLANK, HBLANK, "Axial", HBLANK, HBLANK, HBLANK, HBLANK, "Torque"];
    proof {
        reveal_strlit("<UNUSED>");
        reveal_strlit("Axial");
        reveal_strlit("EID (ROD)");
        reveal_strlit("Subcase");
        reveal_strlit("Torque");
        assert(h@[0] == "EID (ROD)");
        assert(h@[1] == "Subcase");
        assert(h@[2] == HBLANK);
        assert(h@[3] == HBLANK);
        assert(h@[4] == "Axial");
        assert(h@[5] == HBLANK);
        assert(h@[6] == HBLANK);
        assert(h@[7] == HBLANK);
        assert(h@[8] == HBLANK);
        assert(h@[9] == "Torque");
        assert("EID (ROD)"@.len() != "Axial"@.len());
        assert("EID (ROD)"@.len() != "Torque"@.len());
        assert(field_matches(BlockType::RodForces, 0, g@[0], "EID (ROD)"@));
        assert("Subcase"@.len() != "Axial"@.len());
        assert("Subcase"@.len() != "Torque"@.len());
        assert(field_matches(BlockType::RodForces, 0, g@[1], "Subcase"@));
        assert("<UNUSED>"@.len() != "Axial"@.len());
        assert("<UNUSED>"@.len() != "Torque"@.len());
        assert(field_matches(BlockType::RodForces, 0, g@[2], HBLANK@));
        assert("<UNUSED>"@.len() != "Axial"@.len());
        assert("<UNUSED>"@.len() != "Torque"@.len());
        assert(field_matches(BlockType::RodForces, 0, g@[3], HBLANK@));
        assert(field_matches(BlockType::RodForces, 0, g@[4], "Axial"@));
        assert("<UNUSED>"@.len() != "Axial"@.len());
        assert("<UNUSED>"@.len() != "Torque"@.len());
        assert(field_matches(BlockType::RodForces, 0, g@[5], HBLANK@));
        assert("<UNUSED>"@.len() != "Axial"@.len());
        assert("<UNUSED>"@.len() != "Torque"@.len());
        assert(field_matches(BlockType::RodForces, 0, g@[6], HBLANK@));
        assert("<UNUSED>"@.len() != "Axial"@.len());
        assert("<UNUSED>"@.len() != "Torque"@.len());
        assert(field_matches(BlockType::RodForces, 0, g@[7], HBLANK@));
        assert("<UNUSED>"@.len() != "Axial"@.len());
        assert("<UNUSED>"@.len() != "Torque"@.len());
        assert(field_matches(BlockType::RodForces, 0, g@[8], HBLANK@));
        assert("Torque"@.len() != "Axial"@.len());
        assert(field_matches(BlockType::RodForces, 0, g@[9], "Torque"@));
        assert(row_matches(BlockType::RodForces, 0, g@, h@));
    }
    generators.push(g);
    headers.push(h);
    let r = BlockConverter { input_block_type: BlockType::RodForces, output_block_id: CsvBlockId::EngForces, generators, headers };
    r
}

/// The conversion template for bar forces: a row for each end.
fn ct_forces_bar() -> (r: BlockConverter)
    ensures
        r.wf(),
        r.input_block_type == BlockType::BarForces,
        r.output_block_id == CsvBlockId::EngForces,
        converter_matches(r),
{
    let mut generators: Vec<Vec<ColumnGenerator>> = Vec::new();
    let mut headers: Vec<[&'static str; 10]> = Vec::new();
    let mut g: Vec<ColumnGenerator> = Vec::new();
    g.push(ColumnGenerator::ElementId);
    g.push(ColumnGenerator::Subcase);
    g.push(ColumnGenerator::ConstantNumber(F06Number::Natural(0)));
    g.push(ColumnGenerator::ConstantString("End A"));
    g.push(ColumnGenerator::ColumnValue(NasIndex::BarForceField(BarForceField::AxialForce)));
    g.push(ColumnGenerator::ColumnValue(NasIndex::BarForceField(BarForceField::Shear { plane: BarPlane::Plane1 })));
    g.push(ColumnGenerator::ColumnValue(NasIndex::BarForceField(BarForceField::Shear { plane: BarPlane::Plane2 })));
    g.push(ColumnGenerator::ColumnValue(NasIndex::BarForceField(BarForceField::BendMoment { end: BarEnd::EndA, plane: BarPlane::Plane1 })));
    g.push(ColumnGenerator::ColumnValue(NasIndex::BarForceField(BarForceField::BendMoment { end: BarEnd::EndA, plane: BarPlane::Plane2 })));
    g.push(ColumnGenerator::ColumnValue(NasIndex::BarForceField(BarForceField::Torque)));
    let h: [&'static str; 10] = ["EID (BAR)", "Subcase", "GID", "End", "Axial", "S1", "S2", "M1", "M2", "Torque"];
    proof {
        reveal_strlit("<UNUSED>");
        reveal_strlit("Axial");
        reveal_strlit("EID (BAR)");
        reveal_strlit("End");
        reveal_strlit("GID");
        reveal_strlit("M1");
        reveal_strlit("M2");
        reveal_strlit("S1");
        reveal_strlit("S2");
        reveal_strlit("Subcase");
        reveal_strlit("Torque");
        assert(h@[0] == "EID (BAR)");
        assert(h@[1] == "Subcase");
        assert(h@[2] == "GID");
        assert(h@[3] == "End");
        assert(h@[4] == "Axial");
        assert(h@[5] == "S1");
        assert(h@[6] == "S2");
        assert(h@[7] == "M1");
        assert(h@[8] == "M2");
        assert(h@[9] == "Torque");
        assert("EID (BAR)"@.len() != "Axial"@.len());
        assert("EID (BAR)"@.len() != "S1"@.len());
        assert("EID (BAR)"@.len() != "S2"@.len());
        assert("EID (BAR)"@.len() != "M1"@.len());
        assert("EID (BAR)"@.len() != "M2"@.len());
        assert("EID (BAR)"@.len() != "Torque"@.len());
        assert(field_matches(BlockType::BarForces, 0, g@[0], "EID (BAR)"@));
        assert("Subcase"@.len() != "Axial"@.len());
        assert("Subcase"@.len() != "S1"@.len());
        assert("Subcase"@.len() != "S2"@.len());
        assert("Subcase"@.len() != "M1"@.len());
        assert("Subcase"@.len() != "M2"@.len());
        assert("Subcase"@.len() != "Torque"@.len());
        assert(field_matches(BlockType::BarForces, 0, g@[1], "Subcase"@));
        assert("GID"@.len() != "Axial"@.len());
        assert("GID"@.len() != "S1"@.len());
        assert("GID"@.len() != "S2"@.len());
        assert("GID"@.len() != "M1"@.len());
        assert("GID"@.len() != "M2"@.len());
        assert("GID"@.len() != "Torque"@.len());
        assert(field_matches(BlockType::BarForces, 0, g@[2], "GID"@));
        assert("End"@.len() != "Axial"@.len());
        assert("End"@.len() != "S1"@.len());
        assert("End"@.len() != "S2"@.len());
        assert("End"@.len() != "M1"@.len());
        assert("End"@.len() != "M2"@.len());
        assert("End"@.len() != "Torque"@.len());
        assert(field_matches(BlockType::BarForces, 0, g@[3], "End"@));
        assert(field_matches(BlockType::BarForces, 0, g@[4], "Axial"@));
        assert("S1"@.len() != "Axial"@.len());
        assert(field_matches(BlockType::BarForces, 0, g@[5], "S1"@));
        assert("S2"@.len() != "Axial"@.len());
        assert("S2"@[1] != "S1"@[1]);
        assert(field_matches(BlockType::BarForces, 0, g@[6], "S2"@));
        assert("M1"@.len() != "Axial"@.len());
        assert("M1"@[0] != "S1"@[0]);
        assert("M1"@[0] != "S2"@[0]);
        assert(field_matches(BlockType::BarForces, 0, g@[7], "M1"@));
        assert("M2"@.len() != "Axial"@.len());
        assert("M2"@[0] != "S1"@[0]);
        assert("M2"@[0] != "S2"@[0]);
        assert("M2"@[1] != "M1"@[1]);
        assert(field_matches(BlockType::BarForces, 0, g@[8], "M2"@));
        assert("Torque"@.len() != "Axial"@.len());
        assert("Torque"@.len() != "S1"@.len());
        assert("Torque"@.len() != "S2"@.len());
        assert("Torque"@.len() != "M1"@.len());
        assert("Torque"@.len() != "M2"@.len());
        assert(field_matches(BlockType::BarForces, 0, g@[9], "Torque"@));
        assert(row_matches(BlockType::BarForces, 0, g@, h@));
    }
    generators.push(g);
    headers.push(h);
    let mut g: Vec<ColumnGenerator> = Vec::new();
    g.push(ColumnGenerator::ElementId);
    g.push(ColumnGenerator::Subcase);
    g.push(ColumnGenerator::ConstantNumber(F06Number::Natural(0)));
    g.push(ColumnGenerator::ConstantString("End B"));
    g.push(ColumnGenerator::ColumnValue(NasIndex::BarForceField(BarForceField::AxialForce)));
    g.push(ColumnGenerator::ColumnValue(NasIndex::BarForceField(BarForceField::Shear { plane: BarPlane::Plane1 })));
    g.push(ColumnGenerator::ColumnValue(NasIndex::BarForceField(BarForceField::Shear { plane: BarPlane::Plane2 })));
    g.push(ColumnGenerator::ColumnValue(NasIndex::BarForceField(BarForceField::BendMoment { end: BarEnd::EndB, plane: BarPlane::Plane1 })));
    g.push(ColumnGenerator::ColumnValue(NasIndex::BarForceField(BarForceField::BendMoment { end: BarEnd::EndB, plane: BarPlane::Plane2 })));
    g.push(ColumnGenerator::ColumnValue(NasIndex::BarForceField(BarForceField::Torque)));
    let h: [&'static str; 10] = ["EID (BAR)", "Subcase", "GID", "End", "Axial", "S1", "S2", "M1", "M2", "Torque"];
    proof {
        reveal_strlit("<UNUSED>");
        reveal_strlit("Axial");
        reveal_strlit("EID (BAR)");
        reveal_strlit("End");
        reveal_strlit("GID");
        reveal_strlit("M1");
        reveal_strlit("M2");
        reveal_strlit("S1");
        reveal_strlit("S2");
        reveal_strlit("Subcase");
        reveal_strlit("Torque");
        assert(h@[0] == "EID (BAR)");
        assert(h@[1] == "Subcase");
        assert(h@[2] == "GID");
        assert(h@[3] == "End");
        assert(h@[4] == "Axial");
        assert(h@[5] == "S1");
        assert(h@[6] == "S2");
        assert(h@[7] == "M1");
        assert(h@[8] == "M2");
        assert(h@[9] == "Torque");
        assert("EID (BAR)"@.len() != "Axial"@.len());
        assert("EID (BAR)"@.len() != "S1"@.len());
        assert("EID (BAR)"@.len() != "S2"@.len());
        assert("EID (BAR)"@.len() != "M1"@.len());
        assert("EID (BAR)"@.len() != "M2"@.len());
        assert("EID (BAR)"@.len() != "Torque"@.len());
        assert(field_matches(BlockType::BarForces, 1, g@[0], "EID (BAR)"@));
        assert("Subcase"@.len() != "Axial"@.len());
        assert("Subcase"@.len() != "S1"@.len());
        assert("Subcase"@.len() != "S2"@.len());
        assert("Subcase"@.len() != "M1"@.len());
        assert("Subcase"@.len() != "M2"@.len());
        assert("Subcase"@.len() != "Torque"@.len());
        assert(field_matches(BlockType::BarForces, 1, g@[1], "Subcase"@));
        assert("GID"@.len() != "Axial"@.len());
        assert("GID"@.len() != "S1"@.len());
        assert("GID"@.len() != "S2"@.len());
        assert("GID"@.len() != "M1"@.len());
        assert("GID"@.len() != "M2"@.len());
        assert("GID"@.len() != "Torque"@.len());
        assert(field_matches(BlockType::BarForces, 1, g@[2], "GID"@));
        assert("End"@.len() != "Axial"@.len());
        assert("End"@.len() != "S1"@.len());
        assert("End"@.len() != "S2"@.len());
        assert("End"@.len() != "M1"@.len());
        assert("End"@.len() != "M2"@.len());
        assert("End"@.len() != "Torque"@.len());
        assert(field_matches(BlockType::BarForces, 1, g@[3], "End"@));
        assert(field_matches(BlockType::BarForces, 1, g@[4], "Axial"@));
        assert("S1"@.len() != "Axial"@.len());
        assert(field_matches(BlockType::BarForces, 1, g@[5], "S1"@));
        assert("S2"@.len() != "Axial"@.len());
        assert("S2"@[1] != "S1"@[1]);
        assert(field_matches(BlockType::BarForces, 1, g@[6], "S2"@));
        assert("M1"@.len() != "Axial"@.len());
        assert("M1"@[0] != "S1"@[0]);
        assert("M1"@[0] != "S2"@[0]);
        assert(field_matches(BlockType::BarForces, 1, g@[7], "M1"@));
        assert("M2"@.len() != "Axial"@.len());
        assert("M2"@[0] != "S1"@[0]);
        assert("M2"@[0] != "S2"@[0]);
        assert("M2"@[1] != "M1"@[1]);
        assert(field_matches(BlockType::BarForces, 1, g@[8], "M2"@));
        assert("Torque"@.len() != "Axial"@.len());
        assert("Torque"@.len() != "S1"@.len());
        assert("Torque"@.len() != "S2"@.len());
        assert("Torque"@.len() != "M1"@.len());
        assert("Torque"@.len() != "M2"@.len());
        assert(field_matches(BlockType::BarForces, 1, g@[9], "Torque"@));
        assert(row_matches(BlockType::BarForces, 1, g@, h@));
    }
    generators.push(g);
    headers.push(h);
    let r = BlockConverter { input_block_type: BlockType::BarForces, output_block_id: CsvBlockId::EngForces, generators, headers };
    r
}

/// The conversion template for ELAS1 forces.
fn ct_forces_elas1() -> (r: BlockConverter)
    ensures
        r.wf(),
        r.input_block_type == BlockType::Elas1Forces,
        r.output_block_id == CsvBlockId::EngForces,
        converter_matches(r),
{
    let mut generators: Vec<Vec<ColumnGenerator>> = Vec::new();
    let mut headers: Vec<[&'static str; 10]> = Vec::new();
    let mut g: Vec<ColumnGenerator> = Vec::new();
    g.push(ColumnGenerator::ElementId);
    g.push(ColumnGenerator::Subcase);
    g.push(ColumnGenerator::Blank);
    g.push(ColumnGenerator::Blank);
    g.push(ColumnGenerator::ColumnValue(NasIndex::SingleForce(SingleForce::Force)));
    g.push(ColumnGenerator::Blank);
    g.push(ColumnGenerator::Blank);
    g.push(ColumnGenerator::Blank);
    g.push(ColumnGenerator::Blank);
    g.push(ColumnGenerator::Blank);
    let h: [&'static str; 10] = ["EID (ELAS1)", "Subcase", HBLANK, HBLANK, "Force", HBLANK, HBLANK, HBLANK, HBLANK, HBLANK];
    proof {
        reveal_strlit("<UNUSED>");
        reveal_strlit("EID (ELAS1)");
        reveal_strlit("Force");
        reveal_strlit("Subcase");
        assert(h@[0] == "EID (ELAS1)");
        assert(h@[1] == "Subcase");
        assert(h@[2] == HBLANK);
        assert(h@[3] == HBLANK);
        assert(h@[4] == "Force");
        assert(h@[5] == HBLANK);
        assert(h@[6] == HBLANK);
        assert(h@[7] == HBLANK);
        assert(h@[8] == HBLANK);
        assert(h@[9] == HBLANK);
        assert("EID (ELAS1)"@.len() != "Force"@.len());
        assert(field_matches(BlockType::Elas1Forces, 0, g@[0], "EID (ELAS1)"@));
        assert("Subcase"@.len() != "Force"@.len());
        assert(field_matches(BlockType::Elas1Forces, 0, g@[1], "Subcase"@));
        assert("<UNUSED>"@.len() != "Force"@.len());
        assert(field_matches(BlockType::Elas1Forces, 0, g@[2], HBLANK@));
        assert("<UNUSED>"@.len() != "Force"@.len());
        assert(field_matches(BlockType::Elas1Forces, 0, g@[3], HBLANK@));
        assert(field_matches(BlockType::Elas1Forces, 0, g@[4], "Force"@));
        assert("<UNUSED>"@.len() != "Force"@.len());
        assert(field_matches(BlockType::Elas1Forces, 0, g@[5], HBLANK@));
        assert("<UNUSED>"@.len() != "Force"@.len());
        assert(field_matches(BlockType::Elas1Forces, 0, g@[6], HBLANK@));
        assert("<UNUSED>"@.len() != "Force"@.len());
        assert(field_matches(BlockType::Elas1Forces, 0, g@[7], HBLANK@));
        assert("<UNUSED>"@.len() != "Force"@.len());
        assert(field_matches(BlockType::Elas1Forces, 0, g@[8], HBLANK@));
        assert("<UNUSED>"@.len() != "Force"@.len());
        assert(field_matches(BlockType::Elas1Forces, 0, g@[9], HBLANK@));
        assert(row_matches(BlockType::Elas1Forces, 0, g@, h@));
    }
    generators.push(g);
    headers.push(h);
    let r = BlockConverter { input_block_type: BlockType::Elas1Forces, output_block_id: CsvBlockId::EngForces, generators, headers };
    r
}

/// The conversion template for the load vector.
fn ct_applied_forces() -> (r: BlockConverter)
    ensures
        r.wf(),
        r.input_block_type == BlockType::AppliedForces,
        r.output_block_id == CsvBlockId::AppliedForces,
        converter_matches(r),
{
    let mut generators: Vec<Vec<ColumnGenerator>> = Vec::new();
    let mut headers: Vec<[&'static str; 10]> = Vec::new();
    let mut g: Vec<ColumnGenerator> = Vec::new();
    g.push(ColumnGenerator::GridId);
    g.push(ColumnGenerator::Subcase);
    g.push(ColumnGenerator::ColumnValue(NasIndex::Dof(Dof { dof_type: DofType::Translational, axis: Axis::X })));
    g.push(ColumnGenerator::ColumnValue(NasIndex::Dof(Dof { dof_type: DofType::Translational, axis: Axis::Y })));
    g.push(ColumnGenerator::ColumnValue(NasIndex::Dof(Dof { dof_type: DofType::Translational, axis: Axis::Z })));
    g.push(ColumnGenerator::ColumnValue(NasIndex::Dof(Dof { dof_type: DofType::Rotational, axis: Axis::X })));
    g.push(ColumnGenerator::ColumnValue(NasIndex::Dof(Dof { dof_type: DofType::Rotational, axis: Axis::Y })));
    g.push(ColumnGenerator::ColumnValue(NasIndex::Dof(Dof { dof_type: DofType::Rotational, axis: Axis::Z })));
    g.push(ColumnGenerator::Blank);
    g.push(ColumnGenerator::Blank);
    let h: [&'static str; 10] = ["GID", "Subcase", "Fx", "Fy", "Fz", "Mx", "My", "Mz", HBLANK, HBLANK];
    proof {
        reveal_strlit("<UNUSED>");
        reveal_strlit("Fx");
        reveal_strlit("Fy");
        reveal_strlit("Fz");
        reveal_strlit("GID");
        reveal_strlit("Mx");
        reveal_strlit("My");
        reveal_strlit("Mz");
        reveal_strlit("Subcase");
        assert(h@[0] == "GID");
        assert(h@[1] == "Subcase");
        assert(h@[2] == "Fx");
        assert(h@[3] == "Fy");
        assert(h@[4] == "Fz");
        assert(h@[5] == "Mx");
        assert(h@[6] == "My");
        assert(h@[7] == "Mz");
        assert(h@[8] == HBLANK);
        assert(h@[9] == HBLANK);
        assert("GID"@.len() != "Fx"@.len());
        assert("GID"@.len() != "Fy"@.len());
        assert("GID"@.len() != "Fz"@.len());
        assert("GID"@.len() != "Mx"@.len());
        assert("GID"@.len() != "My"@.len());
        assert("GID"@.len() != "Mz"@.len());
        assert(field_matches(BlockType::AppliedForces, 0, g@[0], "GID"@));
        assert("Subcase"@.len() != "Fx"@.len());
        assert("Subcase"@.len() != "Fy"@.len());
        assert("Subcase"@.len() != "Fz"@.len());
        assert("Subcase"@.len() != "Mx"@.len());
        assert("Subcase"@.len() != "My"@.len());
        assert("Subcase"@.len() != "Mz"@.len());
        assert(field_matches(BlockType::AppliedForces, 0, g@[1], "Subcase"@));
        assert(field_matches(BlockType::AppliedForces, 0, g@[2], "Fx"@));
        assert("Fy"@[1] != "Fx"@[1]);
        assert(field_matches(BlockType::AppliedForces, 0, g@[3], "Fy"@));
        assert("Fz"@[1] != "Fx"@[1]);
        assert("Fz"@[1] != "Fy"@[1]);
        assert(field_matches(BlockType::AppliedForces, 0, g@[4], "Fz"@));
        assert("Mx"@[0] != "Fx"@[0]);
        assert("Mx"@[0] != "Fy"@[0]);
        assert("Mx"@[0] != "Fz"@[0]);
        assert(field_matches(BlockType::AppliedForces, 0, g@[5], "Mx"@));
        assert("My"@[0] != "Fx"@[0]);
        assert("My"@[0] != "Fy"@[0]);
        assert("My"@[0] != "Fz"@[0]);
        assert("My"@[1] != "Mx"@[1]);
        assert(field_matches(BlockType::AppliedForces, 0, g@[6], "My"@));
        assert("Mz"@[0] != "Fx"@[0]);
        assert("Mz"@[0] != "Fy"@[0]);
        assert("Mz"@[0] != "Fz"@[0]);
        assert("Mz"@[1] != "Mx"@[1]);
        assert("Mz"@[1] != "My"@[1]);
        assert(field_matches(BlockType::AppliedForces, 0, g@[7], "Mz"@));
        assert("<UNUSED>"@.len() != "Fx"@.len());
        assert("<UNUSED>"@.len() != "Fy"@.len());
        assert("<UNUSED>"@.len() != "Fz"@.len());
        assert("<UNUSED>"@.len() != "Mx"@.len());
        assert("<UNUSED>"@.len() != "My"@.len());
        assert("<UNUSED>"@.len() != "Mz"@.len());
        assert(field_matches(BlockType::AppliedForces, 0, g@[8], HBLANK@));
        assert("<UNUSED>"@.len() != "Fx"@.len());
        assert("<UNUSED>"@.len() != "Fy"@.len());
        assert("<UNUSED>"@.len() != "Fz"@.len());
        assert("<UNUSED>"@.len() != "Mx"@.len());
        assert("<UNUSED>"@.len() != "My"@.len());
        assert("<UNUSED>"@.len() != "Mz"@.len());
        assert(field_matches(BlockType::AppliedForces, 0, g@[9], HBLANK@));
        assert(row_matches(BlockType::AppliedForces, 0, g@, h@));
    }
    generators.push(g);
    headers.push(h);
    let r = BlockConverter { input_block_type: BlockType::AppliedForces, output_block_id: CsvBlockId::AppliedForces, generators, headers };
    r
}

/// The conversion template for forces of single-point constraint.
fn ct_spc_forces() -> (r: BlockConverter)
    ensures
        r.wf(),
        r.input_block_type == BlockType::SpcForces,
        r.output_block_id == CsvBlockId::SpcForces,
        converter_matches(r),
{
    let mut generators: Vec<Vec<ColumnGenerator>> = Vec::new();
    let mut headers: Vec<[&'static str; 10]> = Vec::new();
    let mut g: Vec<ColumnGenerator> = Vec::new();
    g.push(ColumnGenerator::GridId);
    g.push(ColumnGenerator::Subcase);
    g.push(ColumnGenerator::ColumnValue(NasIndex::Dof(Dof { dof_type: DofType::Translational, axis: Axis::X })));
    g.push(ColumnGenerator::ColumnValue(NasIndex::Dof(Dof { dof_type: DofType::Translational, axis: Axis::Y })));
    g.push(ColumnGenerator::ColumnValue(NasIndex::Dof(Dof { dof_type: DofType::Translational, axis: Axis::Z })));
    g.push(ColumnGenerator::ColumnValue(NasIndex::Dof(Dof { dof_type: DofType::Rotational, axis: Axis::X })));
    g.push(ColumnGenerator::ColumnValue(NasIndex::Dof(Dof { dof_type: DofType::Rotational, axis: Axis::Y })));
    g.push(ColumnGenerator::ColumnValue(NasIndex::Dof(Dof { dof_type: DofType::Rotational, axis: Axis::Z })));
    g.push(ColumnGenerator::Blank);
    g.push(ColumnGenerator::Blank);
    let h: [&'static str; 10] = ["GID", "Subcase", "Fx", "Fy", "Fz", "Mx", "My", "Mz", HBLANK, HBLANK];
    proof {
        reveal_strlit("<UNUSED>");
        reveal_strlit("Fx");
        reveal_strlit("Fy");
        reveal_strlit("Fz");
        reveal_strlit("GID");
        reveal_strlit("Mx");
        reveal_strlit("My");
        reveal_strlit("Mz");
        reveal_strlit("Subcase");
        assert(h@[0] == "GID");
        assert(h@[1] == "Subcase");
        assert(h@[2] == "Fx");
        assert(h@[3] == "Fy");
        assert(h@[4] == "Fz");
        assert(h@[5] == "Mx");
        assert(h@[6] == "My");
        assert(h@[7] == "Mz");
        assert(h@[8] == HBLANK);
        assert(h@[9] == HBLANK);
        assert("GID"@.len() != "Fx"@.len());
        assert("GID"@.len() != "Fy"@.len());
        assert("GID"@.len() != "Fz"@.len());
        assert("GID"@.len() != "Mx"@.len());
        assert("GID"@.len() != "My"@.len());
        assert("GID"@.len() != "Mz"@.len());
        assert(field_matches(BlockType::SpcForces, 0, g@[0], "GID"@));
        assert("Subcase"@.len() != "Fx"@.len());
        assert("Subcase"@.len() != "Fy"@.len());
        assert("Subcase"@.len() != "Fz"@.len());
        assert("Subcase"@.len() != "Mx"@.len());
        assert("Subcase"@.len() != "My"@.len());
        assert("Subcase"@.len() != "Mz"@.len());
        assert(field_matches(BlockType::SpcForces, 0, g@[1], "Subcase"@));
        assert(field_matches(BlockType::SpcForces, 0, g@[2], "Fx"@));
        assert("Fy"@[1] != "Fx"@[1]);
        assert(field_matches(BlockType::SpcForces, 0, g@[3], "Fy"@));
        assert("Fz"@[1] != "Fx"@[1]);
        assert("Fz"@[1] != "Fy"@[1]);
        assert(field_matches(BlockType::SpcForces, 0, g@[4], "Fz"@));
        assert("Mx"@[0] != "Fx"@[0]);
        assert("Mx"@[0] != "Fy"@[0]);
        assert("Mx"@[0] != "Fz"@[0]);
        assert(field_matches(BlockType::SpcForces, 0, g@[5], "Mx"@));
        assert("My"@[0] != "Fx"@[0]);
        assert("My"@[0] != "Fy"@[0]);
        assert("My"@[0] != "Fz"@[0]);
        assert("My"@[1] != "Mx"@[1]);
        assert(field_matches(BlockType::SpcForces, 0, g@[6], "My"@));
        assert("Mz"@[0] != "Fx"@[0]);
        assert("Mz"@[0] != "Fy"@[0]);
        assert("Mz"@[0] != "Fz"@[0]);
        assert("Mz"@[1] != "Mx"@[1]);
        assert("Mz"@[1] != "My"@[1]);
        assert(field_matches(BlockType::SpcForces, 0, g@[7], "Mz"@));
        assert("<UNUSED>"@.len() != "Fx"@.len());
        assert("<UNUSED>"@.len() != "Fy"@.len());
        assert("<UNUSED>"@.len() != "Fz"@.len());
        assert("<UNUSED>"@.len() != "Mx"@.len());
        assert("<UNUSED>"@.len() != "My"@.len());
        assert("<UNUSED>"@.len() != "Mz"@.len());
        assert(field_matches(BlockType::SpcForces, 0, g@[8], HBLANK@));
        assert("<UNUSED>"@.len() != "Fx"@.len());
        assert("<UNUSED>"@.len() != "Fy"@.len());
        assert("<UNUSED>"@.len() != "Fz"@.len());
        assert("<UNUSED>"@.len() != "Mx"@.len());
        assert("<UNUSED>"@.len() != "My"@.len());
        assert("<UNUSED>"@.len() != "Mz"@.len());
        assert(field_matches(BlockType::SpcForces, 0, g@[9], HBLANK@));
        assert(row_matches(BlockType::SpcForces, 0, g@, h@));
    }
    generators.push(g);
    headers.push(h);
    let r = BlockConverter { input_block_type: BlockType::SpcForces, output_block_id: CsvBlockId::SpcForces, generators, headers };
    r
}

/// Returns all the conversion templates: one for each known block type,
/// in the order of the CSV blocks they go to.
pub fn all_converters() -> (r: Vec<BlockConverter>)
    ensures
        r@.len() == 19,
        forall|i: int| 0 <= i < r@.len() ==> (#[trigger] r@[i]).wf(),
        forall|i: int| 0 <= i < r@.len() ==> (#[trigger] r@[i]).output_block_id == csv_block_of(r@[i].input_block_type),
        forall|i: int, j: int| 0 <= i < j < r@.len() ==> (#[trigger] r@[i]).input_block_type != (#[trigger] r@[j]).input_block_type,
        forall|bt: BlockType| #[trigger] has_converter(r@, bt),
        forall|i: int| 0 <= i < r@.len() ==> converter_matches(#[trigger] r@[i]),
{
    let mut r: Vec<BlockConverter> = Vec::new();
    r.push(ct_displacements());
    r.push(ct_gpforcebalance());
    r.push(ct_stresses_quad());
    r.push(ct_stresses_tria());
    r.push(ct_stresses_rod());
    r.push(ct_stresses_bar());
    r.push(ct_stresses_elas1());
    r.push(ct_strains_quad());
    r.push(ct_strains_tria());
    r.push(ct_strains_rod());
    r.push(ct_strains_bar());
    r.push(ct_strains_elas1());
    r.push(ct_forces_quad());
    r.push(ct_forces_tria());
    r.push(ct_forces_rod());
    r.push(ct_forces_bar());
    r.push(ct_forces_elas1());
    r.push(ct_applied_forces());
    r.push(ct_spc_forces());
    proof {
        assert forall|bt: BlockType| #[trigger] has_converter(r@, bt) by {
            match bt {
                BlockType::Displacements => assert(r@[0].input_block_type == bt),
                BlockType::GridPointForceBalance => assert(r@[1].input_block_type == bt),
                BlockType::QuadStresses => assert(r@[2].input_block_type == bt),
                BlockType::TriaStresses => assert(r@[3].input_block_type == bt),
                BlockType::RodStresses => assert(r@[4].input_block_type == bt),
                BlockType::BarStresses => assert(r@[5].input_block_type == bt),
                BlockType::Elas1Stresses => assert(r@[6].input_block_type == bt),
                BlockType::QuadStrains => assert(r@[7].input_block_type == bt),
                BlockType::TriaStrains => assert(r@[8].input_block_type == bt),
                BlockType::RodStrains => assert(r@[9].input_block_type == bt),
                BlockType::BarStrains => assert(r@[10].input_block_type == bt),
                BlockType::Elas1Strains => assert(r@[11].input_block_type == bt),
                BlockType::QuadForces => assert(r@[12].input_block_type == bt),
                BlockType::TriaForces => assert(r@[13].input_block_type == bt),
                BlockType::RodForces => assert(r@[14].input_block_type == bt),
                BlockType::BarForces => assert(r@[15].input_block_type == bt),
                BlockType::Elas1Forces => assert(r@[16].input_block_type == bt),
                BlockType::AppliedForces => assert(r@[17].input_block_type == bt),
                BlockType::SpcForces => assert(r@[18].input_block_type == bt),
            }
        }
    }
    r
}


/// In a record made by a converter whose generators read the columns their
/// headers name, the field under a header that names a column of the block
/// holds the block's value in that column, and the text `<ERROR>` where the
/// block has no value there.
pub proof fn law_fields_under_headers(
    conv: BlockConverter,
    block: FinalBlock,
    flavour: Flavour,
    row: NasIndex,
    irow: int,
    rec: CsvRecord,
    k: int,
    col: NasIndex,
)
    requires
        conv.wf(),
        converter_matches(conv),
        0 <= irow < conv.generators@.len(),
        0 <= k < 10,
        converted_record(rec, conv, block, flavour, row, irow),
        header_column(conv.input_block_type, irow, conv.headers@[irow]@[k]@) == Some(col),
    ensures
        block.value_at(row, col) matches Some(x) ==> field_views(rec.fields@)[k] == number_field(x),
        block.value_at(row, col) is None ==> field_views(rec.fields@)[k] == FieldView::Text("<ERROR>"@),
{
    let gens = conv.generators@[irow]@;
    let hs = conv.headers@[irow]@;
    assert(row_matches(conv.input_block_type, irow, gens, hs));
    assert(field_matches(conv.input_block_type, irow, gens[k], hs[k]@)) by {
        if k == 0 {} else if k == 1 {} else if k == 2 {} else if k == 3 {} else if k == 4 {} else if k == 5 {}
        else if k == 6 {} else if k == 7 {} else if k == 8 {} else {}
    }
    assert(gens[k] == ColumnGenerator::ColumnValue(col));
    assert(field_views(rec.fields@)[k] == row_fields(gens, block, flavour, row)[k]);
}

} // verus!
