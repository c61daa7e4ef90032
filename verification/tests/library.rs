use f06::amounts::{AnyAmount, InclusiveRange, NumListRange, OneOrMany, SimpleExtraction};
use f06::blocks::{FinalBlock, LineResponse, MergeIncompatible, MergeResult, RowBlock, ScalarKind};
use f06::blocktypes::BlockType;
use f06::columns::dof_cols;
use f06::compare::{BlockCompatibility, DisjunctionBehaviour};
use f06::decoders::OpaqueDecoder;
use f06::diff::{F06Diff, NonCompareReason};
use f06::elements::ElementType;
use f06::extraction::{Extraction, ExtractionError, Specifier};
use f06::f06file::{BlockRef, F06File};
use f06::flavour::{Flavour, SolType, Solver};
use f06::formatting::{BlankDisplay, CsvFormatting, FloatFormat};
use f06::from_f06::{to_records, zeroth_block, BlockConverter, ColumnGenerator, ConversionError};
use f06::geometry::{Axis, Dof, DofType};
use f06::headers::{check_header, unspace, PotentialHeader};
use f06::index_fns::{ixfn_eid, ixfn_etype, ixfn_fo, ixfn_gid, IndexFn};
use f06::indexing::{
    BarEnd, BarForceField, BarPlane, BarStressField, EigenSolutionMode, ElementPoint, ElementRef, ElementSide,
    ElementSidedPoint, ForceOrigin, GridPointCsys, GridPointForceOrigin, GridPointRef, NasIndex, PlateForceField, PlateStressField,
    PointInElement,
};
use f06::layout::{CsvBlockId, CsvField, CsvRecord};
use f06::metrics::{ColumnCompareMetric, SingleColumnMetric, SolverPick};
use f06::numbers::{F06Number, RealText};
use f06::parser::{OnePassParser, ParserResponse};
use f06::record_filter::RecordFilter;
use f06::script::{checked_indices, value_or_zero};
use f06::templates::all_converters;
use f06::text::{isize_text, usize_text};

fn chars(s: &str) -> Vec<char> {
    s.chars().collect()
}

fn real_number(s: &str) -> F06Number {
    F06Number::Real(RealText { text: chars(s) })
}

fn gp(gid: usize) -> NasIndex {
    NasIndex::GridPointRef(GridPointRef { gid })
}

fn dof(t: DofType, a: Axis) -> NasIndex {
    NasIndex::Dof(Dof { dof_type: t, axis: a })
}

fn real_text(n: &Option<F06Number>) -> String {
    match n {
        Some(F06Number::Real(x)) => x.text.iter().collect(),
        _ => panic!("not a real: {:?}", n),
    }
}

/// A displacement block with one row per grid point, whose values are the
/// given texts in all six columns.
fn displacement_block(subcase: usize, rows: &[(usize, &str)]) -> FinalBlock {
    let mut rb = RowBlock::new(ScalarKind::Real, dof_cols());
    for (gid, v) in rows {
        let vals: Vec<F06Number> = (0..6).map(|_| real_number(v)).collect();
        rb.insert_raw(gp(*gid), vals);
    }
    rb.finalise(BlockType::Displacements, subcase)
}

fn field_text(f: &CsvField) -> String {
    match f {
        CsvField::String(s) => s.clone(),
        other => panic!("not a string field: {:?}", other),
    }
}

#[test]
fn decimal_texts() {
    assert_eq!(usize_text(0), "0");
    assert_eq!(usize_text(10), "10");
    assert_eq!(usize_text(1234567), "1234567");
    assert_eq!(isize_text(-42), "-42");
    assert_eq!(isize_text(7), "7");
    assert_eq!(isize_text(isize::MIN), isize::MIN.to_string());
}

#[test]
fn csv_block_numbers_roundtrip() {
    for (i, b) in CsvBlockId::all().iter().enumerate() {
        assert_eq!(b.number(), i);
        assert_eq!(CsvBlockId::from_number(b.number()), Ok(*b));
        assert_eq!(b.aliases()[0], i.to_string());
    }
    assert_eq!(CsvBlockId::from_number(10), Err(()));
    assert_eq!(CsvBlockId::all().len(), 10);
}

#[test]
fn csv_block_names() {
    assert_eq!(CsvBlockId::GridPointForces.name(), "GridPointForces");
    assert_eq!(CsvBlockId::GridPointForces.shorthand(), "gpforce");
    assert_eq!(CsvBlockId::AppliedForces.shorthand(), "load");
    assert_eq!(CsvBlockId::SpcForces.aliases(), &["7", "spcf", "spcforces"]);
    assert_eq!(CsvBlockId::Eigenvalues.help_string(), "real eigenvalues.");
    assert_eq!(CsvBlockId::longest_help_len(), 56);
}

#[test]
fn blank_display_and_formatting() {
    assert_eq!(BlankDisplay::default(), BlankDisplay::Zero);
    assert_eq!(BlankDisplay::Dashes.fmt_str(), "-----");
    assert_eq!(BlankDisplay::Empty.fmt_str(), "");
    let ff = FloatFormat::default();
    assert_eq!(ff.dec_places, Some(6));
    assert!(!ff.no_scientific && !ff.no_superfluous_plus && !ff.small_e);
    let fmt = CsvFormatting { reals: ff, blanks: BlankDisplay::Dash };
    assert_eq!(fmt.to_string(CsvField::Blank), Some("-".to_string()));
    assert_eq!(fmt.to_string(CsvField::Integer(-3)), Some("-3".to_string()));
    assert_eq!(fmt.to_string(CsvField::Natural(12)), Some("12".to_string()));
    assert_eq!(fmt.to_string(CsvField::String("abc".to_string())), Some("abc".to_string()));
    assert_eq!(fmt.to_string(CsvField::ElementType(ElementType::Quad4)), Some("QUAD4".to_string()));
    assert_eq!(fmt.to_string(CsvField::Real(RealText { text: chars("1.5") })), None);
    let d = CsvFormatting::default();
    assert_eq!(d.blanks, BlankDisplay::Zero);
    assert_eq!(d.to_string(CsvField::Blank), Some("0".to_string()));
}

#[test]
fn csv_record_fields_and_headers() {
    let rec = CsvRecord {
        block_id: CsvBlockId::Stresses,
        block_type: None,
        gid: None,
        eid: None,
        etype: None,
        subcase: None,
        fields: (0..10).map(|i| CsvField::Natural(i)).collect(),
        headers: ["a", "b", "c", "d", "e", "f", "g", "h", "i", "j"],
    };
    let hs = rec.header_as_iter();
    assert_eq!(hs.len(), 11);
    assert_eq!(hs[0], "Stresses");
    assert_eq!(hs[10], "j");
    let fs = rec.to_fields();
    assert_eq!(fs.len(), 11);
    assert!(matches!(fs[0], CsvField::Natural(2)));
    assert!(matches!(fs[10], CsvField::Natural(9)));
}

#[test]
fn index_functions() {
    let elem = ElementRef { eid: 7, etype: Some(ElementType::Quad4) };
    let corner = NasIndex::PointInElement(PointInElement { element: elem, point: ElementPoint::Corner(GridPointRef { gid: 3 }) });
    let centroid = NasIndex::PointInElement(PointInElement { element: elem, point: ElementPoint::Centroid });
    assert!(matches!(ixfn_gid(gp(5)), Ok(CsvField::Natural(5))));
    assert!(matches!(ixfn_gid(corner), Ok(CsvField::Natural(3))));
    assert!(matches!(ixfn_gid(centroid), Err(ConversionError::BadColIndexType(_))));
    assert!(matches!(ixfn_eid(corner), Ok(CsvField::Natural(7))));
    assert!(matches!(ixfn_eid(gp(5)), Err(ConversionError::BadColIndexType(_))));
    assert!(matches!(ixfn_etype(centroid), Ok(CsvField::ElementType(ElementType::Quad4))));
    let untyped = NasIndex::ElementRef(ElementRef { eid: 9, etype: None });
    assert_eq!(field_text(&ixfn_etype(untyped).unwrap()), "<UNKNOWN>");
    let sided = NasIndex::ElementSidedPoint(ElementSidedPoint { element: elem, point: ElementPoint::Corner(GridPointRef { gid: 4 }), side: ElementSide::Top });
    assert!(matches!(ixfn_gid(sided), Ok(CsvField::Natural(4))));
    let fo = |o: ForceOrigin| NasIndex::GridPointForceOrigin(GridPointForceOrigin { grid_point: GridPointRef { gid: 1 }, force_origin: o });
    assert_eq!(field_text(&ixfn_fo(fo(ForceOrigin::Load)).unwrap()), "APPLIED");
    assert_eq!(field_text(&ixfn_fo(fo(ForceOrigin::SinglePointConstraint)).unwrap()), "SPC");
    assert_eq!(field_text(&ixfn_fo(fo(ForceOrigin::MultiPointConstraint)).unwrap()), "MPC");
    assert_eq!(field_text(&ixfn_fo(fo(ForceOrigin::Element { elem })).unwrap()), "QUAD4");
    assert_eq!(field_text(&ixfn_fo(fo(ForceOrigin::Element { elem: ElementRef { eid: 2, etype: None } })).unwrap()), "<ELEM>");
    assert!(matches!(ixfn_fo(gp(1)), Err(ConversionError::BadColIndexType(_))));
    assert!(matches!(ixfn_eid(fo(ForceOrigin::Element { elem })), Ok(CsvField::Natural(7))));
    assert!(matches!(IndexFn::Gid.call(fo(ForceOrigin::Load)), Ok(CsvField::Natural(1))));
}

#[test]
fn column_generators() {
    let block = displacement_block(3, &[(1, "1.0"), (2, "2.5E-3")]);
    let flavour = Flavour { solver: Some(Solver::Mystran), soltype: Some(SolType::LinearStatic) };
    let t1 = dof(DofType::Translational, Axis::X);
    let c = |g: ColumnGenerator, row: NasIndex| g.convert(&block, flavour, row);
    match c(ColumnGenerator::ColumnValue(t1), gp(2)) {
        Ok(CsvField::Real(x)) => assert_eq!(x.text.iter().collect::<String>(), "2.5E-3"),
        other => panic!("{:?}", other),
    }
    assert!(matches!(c(ColumnGenerator::ColumnValue(t1), gp(9)), Err(ConversionError::MissingDatum { .. })));
    assert!(matches!(c(ColumnGenerator::GridId, gp(2)), Ok(CsvField::Natural(2))));
    assert!(matches!(c(ColumnGenerator::SolTypeNumber, gp(2)), Ok(CsvField::Natural(101))));
    assert_eq!(field_text(&c(ColumnGenerator::SolTypeName, gp(2)).unwrap()), "Linear static");
    assert_eq!(field_text(&c(ColumnGenerator::SolverName, gp(2)).unwrap()), "MYSTRAN");
    assert_eq!(field_text(&c(ColumnGenerator::BlockShortName, gp(2)).unwrap()), "Displacements");
    assert_eq!(field_text(&c(ColumnGenerator::BlockLongName, gp(2)).unwrap()), "Grid point displacements");
    assert!(matches!(c(ColumnGenerator::Subcase, gp(2)), Ok(CsvField::Natural(3))));
    assert!(matches!(c(ColumnGenerator::Blank, gp(2)), Ok(CsvField::Blank)));
    assert!(matches!(c(ColumnGenerator::ConstantNumber(F06Number::Integer(-4)), gp(2)), Ok(CsvField::Integer(-4))));
    assert_eq!(field_text(&c(ColumnGenerator::ConstantString("End A"), gp(2)).unwrap()), "End A");
    let dflt = ColumnGenerator::WithDefault(Box::new(ColumnGenerator::ElementId), CsvField::Natural(0));
    assert!(matches!(c(dflt, gp(2)), Ok(CsvField::Natural(0))));
    let unknown = Flavour::unknown();
    assert_eq!(field_text(&ColumnGenerator::SolverName.convert(&block, unknown, gp(1)).unwrap()), "Unknown");
    assert!(matches!(ColumnGenerator::SolTypeNumber.convert(&block, unknown, gp(1)), Ok(CsvField::Natural(0))));
}

fn displacement_converter() -> BlockConverter {
    let row: Vec<ColumnGenerator> = vec![
        ColumnGenerator::GridId,
        ColumnGenerator::Subcase,
        ColumnGenerator::ColumnValue(dof(DofType::Translational, Axis::X)),
        ColumnGenerator::ColumnValue(dof(DofType::Rotational, Axis::Z)),
        ColumnGenerator::ElementId,
        ColumnGenerator::Blank,
        ColumnGenerator::Blank,
        ColumnGenerator::Blank,
        ColumnGenerator::Blank,
        ColumnGenerator::Blank,
    ];
    BlockConverter {
        input_block_type: BlockType::Displacements,
        output_block_id: CsvBlockId::Displacements,
        generators: vec![row],
        headers: [["GID", "SUBCASE", "T1", "R3", "EID", "", "", "", "", ""]].to_vec(),
    }
}

#[test]
fn block_conversion() {
    let block = displacement_block(1, &[(20, "1.0"), (10, "-2.0")]);
    let conv = displacement_converter();
    let flavour = Flavour::unknown();
    let recs = conv.convert_block(&block, &flavour).unwrap();
    assert_eq!(recs.len(), 2);
    // rows come in increasing order of index
    assert_eq!(recs[0].gid, Some(10));
    assert_eq!(recs[1].gid, Some(20));
    assert_eq!(recs[0].subcase, Some(1));
    assert_eq!(recs[0].eid, None);
    assert_eq!(recs[0].etype, None);
    assert_eq!(recs[0].block_id, CsvBlockId::Displacements);
    assert_eq!(recs[0].block_type, Some(BlockType::Displacements));
    assert_eq!(field_text(&recs[0].fields[4]), "<ERROR>");
    match &recs[0].fields[2] {
        CsvField::Real(x) => assert_eq!(x.text.iter().collect::<String>(), "-2.0"),
        other => panic!("{:?}", other),
    }
    assert!(matches!(recs[0].fields[9], CsvField::Blank));
    assert_eq!(recs[0].headers[2], "T1");
    let other = FinalBlock { block_type: BlockType::SpcForces, ..block.clone() };
    assert!(matches!(
        conv.convert_block(&other, &flavour),
        Err(ConversionError::WrongBlockType { got: BlockType::SpcForces, expected: BlockType::Displacements })
    ));
}

#[test]
fn metadata_block() {
    let mut file = F06File::new();
    file.filename = Some("model.f06".to_string());
    file.flavour = Flavour { solver: Some(Solver::Mystran), soltype: None };
    file.insert_block(displacement_block(1, &[(1, "1.0")]));
    file.insert_block(displacement_block(2, &[(1, "1.0")]));
    file.warnings.push((3, "WARNING".to_string()));
    let recs = zeroth_block(&file, Some("1.2.3"), None);
    assert_eq!(recs.len(), 9);
    let kv: Vec<(String, String)> = recs.iter().map(|r| (field_text(&r.fields[0]), field_text(&r.fields[1]))).collect();
    assert_eq!(kv[0], ("Solver".to_string(), "MYSTRAN".to_string()));
    assert_eq!(kv[1], ("Solution".to_string(), "Unknown".to_string()));
    assert_eq!(kv[2], ("Filename".to_string(), "model.f06".to_string()));
    assert_eq!(kv[3], ("#Subcases".to_string(), "2".to_string()));
    assert_eq!(kv[4], ("#Warnings".to_string(), "1".to_string()));
    assert_eq!(kv[5], ("#Fatals".to_string(), "0".to_string()));
    assert_eq!(kv[6], ("f06csv version".to_string(), "1.2.3".to_string()));
    assert_eq!(kv[7], ("f06csv authors".to_string(), "Unknown".to_string()));
    assert_eq!(kv[8], ("Part of".to_string(), "the MYSTRAN project".to_string()));
    assert!(recs.iter().all(|r| r.block_id == CsvBlockId::Metadata && r.block_type.is_none()));
    assert_eq!(recs[0].headers[0], "Key");
    assert_eq!(recs[0].headers[9], "<UNUSED>");
}

#[test]
fn all_records_of_a_file() {
    let mut file = F06File::new();
    file.insert_block(displacement_block(2, &[(1, "1.0")]));
    file.insert_block(displacement_block(1, &[(1, "1.0"), (2, "3.0")]));
    let mut spc = displacement_block(1, &[(5, "0.0")]);
    spc.block_type = BlockType::SpcForces;
    file.insert_block(spc);
    let convs = vec![displacement_converter()];
    let recs = to_records(&file, &convs, None, None);
    // nine metadata records, then the displacements of subcase 1, then of
    // subcase 2; the block without a converter gives nothing
    assert_eq!(recs.len(), 12);
    assert_eq!(recs[9].subcase, Some(1));
    assert_eq!(recs[9].gid, Some(1));
    assert_eq!(recs[10].gid, Some(2));
    assert_eq!(recs[11].subcase, Some(2));
}

#[test]
fn parse_displacements() {
    let lines = [
        "                    MYSTRAN VERSION 15.0",
        "          OUTPUT FOR SUBCASE        2",
        "                                             D I S P L A C E M E N T S",
        "                                   (in global coordinate system at each grid)",
        "          GRID     COORD      T1            T2            T3            R1            R2            R3",
        "            1         0  0.000000E+00  0.000000E+00  0.000000E+00  0.000000E+00  0.000000E+00  0.000000E+00",
        "            2         0  1.234000E-03  2.000000E-03 -3.000000E-03  4.000000E-04  5.000000E-04  6.000000E-04",
    ];
    let mut parser = OnePassParser::new();
    let mut responses = Vec::new();
    for l in lines.iter() {
        responses.push(parser.consume(l));
    }
    assert_eq!(responses[0], ParserResponse::Solver(Solver::Mystran));
    assert_eq!(responses[1], ParserResponse::Subcase(2));
    assert_eq!(responses[2], ParserResponse::BlockHeader);
    assert!(matches!(responses[3], ParserResponse::PassedToDecoder(BlockType::Displacements, _)));
    let file = parser.finish();
    assert_eq!(file.flavour.solver, Some(Solver::Mystran));
    assert_eq!(file.blocks.len(), 1);
    let (bref, blocks) = &file.blocks[0];
    assert_eq!(bref.block_type, BlockType::Displacements);
    assert_eq!(bref.subcase, 2);
    assert_eq!(blocks.len(), 1);
    let b = &blocks[0];
    assert_eq!(b.row_indexes.len(), 2);
    assert_eq!(real_text(&b.get(gp(2), dof(DofType::Translational, Axis::X))), "1.234000E-03");
    assert_eq!(real_text(&b.get(gp(2), dof(DofType::Translational, Axis::Z))), "-3.000000E-03");
    assert_eq!(real_text(&b.get(gp(1), dof(DofType::Rotational, Axis::Z))), "0.000000E+00");
    assert!(b.get(gp(3), dof(DofType::Translational, Axis::X)).is_none());
    assert_eq!(file.subcases(), vec![2]);
}

#[test]
fn warnings_and_fatals_are_recorded() {
    let mut parser = OnePassParser::new();
    assert_eq!(parser.consume("nothing here"), ParserResponse::Useless);
    assert_eq!(parser.consume(" *WARNING: something odd"), ParserResponse::Warning);
    assert_eq!(parser.consume(" *FATAL ERROR: bad"), ParserResponse::Fatal);
    let file = parser.finish();
    assert_eq!(file.warnings.len(), 1);
    assert_eq!(file.warnings[0].0, 2);
    assert_eq!(file.fatal_errors.len(), 1);
    assert_eq!(file.fatal_errors[0].0, 3);
    assert!(file.blocks.is_empty());
}

#[test]
fn header_detection() {
    assert_eq!(unspace(&chars("          D I S P L A C E M E N T S")), Some(chars("DISPLACEMENTS")));
    assert_eq!(unspace(&chars("   A")), None);
    assert_eq!(unspace(&chars("   D i s p")), None);
    assert_eq!(
        check_header(&chars("       F O R C E S   I N   R O D   E L E M E N T S")),
        Some(chars("FORCES IN ROD ELEMENTS"))
    );
    // a spaced line without suspicious words or element names is no header
    assert_eq!(check_header(&chars("          H E L L O   W O R L D")), None);
}

#[test]
fn potential_headers_merge() {
    let a = PotentialHeader { start: 10, span: 2, text: "A".to_string() };
    let b = PotentialHeader { start: 12, span: 1, text: "B".to_string() };
    let m = b.try_merge(a).unwrap();
    assert_eq!(m.start, 10);
    assert_eq!(m.span, 3);
    assert_eq!(m.text, "A B");
    assert_eq!(m.lines(), vec![10, 11, 12]);
    let c = PotentialHeader { start: 20, span: 1, text: "C".to_string() };
    let d = PotentialHeader { start: 30, span: 1, text: "D".to_string() };
    let (x, y) = d.try_merge(c).unwrap_err();
    assert_eq!((x.start, y.start), (20, 30));

    let mut file = F06File::new();
    file.potential_headers = vec![
        PotentialHeader { start: 1, span: 1, text: "X".to_string() },
        PotentialHeader { start: 2, span: 2, text: "Y".to_string() },
        PotentialHeader { start: 7, span: 1, text: "Z".to_string() },
    ];
    assert_eq!(file.merge_potential_headers(), 1);
    assert_eq!(file.potential_headers.len(), 2);
    assert_eq!(file.potential_headers[0].text, "X Y");
    assert_eq!(file.potential_headers[0].span, 3);
    assert_eq!(file.potential_headers[1].start, 7);
}

#[test]
fn block_swaps_keep_values() {
    let mut b = displacement_block(1, &[(1, "1.0"), (2, "2.0"), (3, "3.0")]);
    let t1 = dof(DofType::Translational, Axis::X);
    let r3 = dof(DofType::Rotational, Axis::Z);
    b.swap_rows(gp(1), gp(3));
    b.swap_columns(t1, r3);
    assert_eq!(real_text(&b.get(gp(1), t1)), "1.0");
    assert_eq!(real_text(&b.get(gp(3), r3)), "3.0");
    b.sort_rows();
    b.sort_columns();
    assert_eq!(real_text(&b.get(gp(2), t1)), "2.0");
    assert_eq!(real_text(&b.get(gp(3), t1)), "3.0");
}

#[test]
fn block_merges() {
    let a = displacement_block(1, &[(1, "1.0"), (2, "2.0")]);
    let b = displacement_block(1, &[(2, "9.0"), (3, "3.0")]);
    assert_eq!(a.row_conflicts(&b), vec![gp(2)]);
    assert!(a.can_merge(&b).is_ok());
    let t1 = dof(DofType::Translational, Axis::X);
    match a.clone().try_merge(b.clone()) {
        Ok(MergeResult::Partial { merged, residue, skipped }) => {
            assert_eq!(skipped, vec![gp(2)]);
            assert_eq!(real_text(&merged.get(gp(2), t1)), "2.0");
            assert_eq!(real_text(&merged.get(gp(3), t1)), "3.0");
            assert_eq!(real_text(&residue.get(gp(2), t1)), "9.0");
        },
        other => panic!("{:?}", other),
    }
    let c = displacement_block(1, &[(4, "4.0")]);
    match a.clone().try_merge(c) {
        Ok(MergeResult::Success { merged }) => {
            assert_eq!(merged.row_indexes.len(), 3);
            assert_eq!(real_text(&merged.get(gp(4), t1)), "4.0");
        },
        other => panic!("{:?}", other),
    }
    let d = displacement_block(2, &[(4, "4.0")]);
    assert_eq!(a.can_merge(&d), Err(MergeIncompatible::SubcaseMismatch));
    let mut e = displacement_block(1, &[(4, "4.0")]);
    e.block_type = BlockType::SpcForces;
    assert!(matches!(a.clone().try_merge(e), Err(MergeIncompatible::BlockTypeMismatch)));
}

#[test]
fn file_merges_blocks() {
    let mut file = F06File::new();
    file.insert_block(displacement_block(1, &[(1, "1.0")]));
    file.insert_block(displacement_block(1, &[(2, "2.0")]));
    assert_eq!(file.blocks[0].1.len(), 2);
    assert_eq!(file.merge_blocks(true), 1);
    assert_eq!(file.blocks[0].1.len(), 1);
    assert_eq!(file.blocks[0].1[0].row_indexes.len(), 2);
    let t1 = dof(DofType::Translational, Axis::X);
    assert_eq!(real_text(&file.blocks[0].1[0].get(gp(1), t1)), "1.0");
    assert_eq!(real_text(&file.blocks[0].1[0].get(gp(2), t1)), "2.0");
    // blocks sharing a row are left apart
    let mut other = F06File::new();
    other.insert_block(displacement_block(1, &[(1, "1.0")]));
    other.insert_block(displacement_block(1, &[(1, "9.0")]));
    assert_eq!(other.merge_blocks(true), 0);
    assert_eq!(other.blocks[0].1.len(), 2);
}

#[test]
fn disjunction_behaviour_names() {
    for d in DisjunctionBehaviour::all() {
        assert_eq!(DisjunctionBehaviour::from_str(d.small_lc_name()), Ok(*d));
    }
    assert_eq!(DisjunctionBehaviour::from_str("FLAG"), Ok(DisjunctionBehaviour::Flag));
    assert_eq!(DisjunctionBehaviour::from_str("nonsense"), Err(()));
    assert_eq!(DisjunctionBehaviour::default(), DisjunctionBehaviour::AssumeZeroes);
}

#[test]
fn snake_case_block_names() {
    assert_eq!(BlockType::GridPointForceBalance.snake_case_name(), "grid_point_force_balance");
    assert_eq!(BlockType::SpcForces.snake_case_name(), "spc_forces");
}

#[test]
fn number_lists() {
    assert_eq!(InclusiveRange { from: 3, to: 5 }.values(), vec![3, 4, 5]);
    assert_eq!(InclusiveRange { from: 5, to: 3 }.values(), Vec::<usize>::new());
    assert_eq!(InclusiveRange { from: 4, to: 4 }.values(), vec![4]);
    let r = NumListRange::Ranges(vec![InclusiveRange { from: 1, to: 2 }, InclusiveRange { from: 7, to: 8 }]);
    assert_eq!(r.values(), vec![1, 2, 7, 8]);
    assert_eq!(NumListRange::Single(4).values(), vec![4]);
    assert!(matches!(NumListRange::Nothing.to_specifier(), Specifier::All));
    match NumListRange::Range(InclusiveRange { from: 2, to: 3 }).to_specifier() {
        Specifier::List(v) => assert_eq!(v, vec![2, 3]),
        other => panic!("{:?}", other),
    }
    assert_eq!(OneOrMany::One(3).into_vec(), vec![3]);
    assert!(matches!(OneOrMany::Many(vec![1, 2]).to_any_amount(), AnyAmount::Many(_)));
    assert_eq!(AnyAmount::One(5).into_vec(), vec![5]);
    assert!(matches!(AnyAmount::<usize>::Nothing.to_specifier(), Specifier::All));
}

#[test]
fn simple_extraction_converts() {
    let se = SimpleExtraction {
        name: "x".to_string(),
        blocks: AnyAmount::One(BlockType::Displacements),
        subcases: NumListRange::Nothing,
        nodes: NumListRange::List(vec![1, 2]),
        elements: NumListRange::Nothing,
        element_types: AnyAmount::Nothing,
        dof: AnyAmount::Many(vec![Dof { dof_type: DofType::Translational, axis: Axis::Y }]),
        columns: AnyAmount::Nothing,
    };
    let e = se.to_extraction();
    assert!(matches!(e.subcases, Specifier::All));
    assert!(matches!(e.elements, Specifier::All));
    assert!(matches!(e.rows, Specifier::All));
    assert!(matches!(e.raw_cols, Specifier::All));
    match e.block_types {
        Specifier::List(v) => assert_eq!(v, vec![BlockType::Displacements]),
        other => panic!("{:?}", other),
    }
    match e.grid_points {
        Specifier::List(v) => assert_eq!(v, vec![GridPointRef { gid: 1 }, GridPointRef { gid: 2 }]),
        other => panic!("{:?}", other),
    }
    match e.cols {
        Specifier::List(v) => assert_eq!(v, vec![dof(DofType::Translational, Axis::Y)]),
        other => panic!("{:?}", other),
    }
    assert_eq!(e.dxn, DisjunctionBehaviour::AssumeZeroes);
}

#[test]
fn metric_names() {
    assert_eq!(SingleColumnMetric::all().len(), 4);
    assert_eq!(SingleColumnMetric::StandardDeviation.short_name(), "sd");
    assert_eq!(SingleColumnMetric::Mininum.long_name(), "minimum");
    assert_eq!(ColumnCompareMetric::all().len(), 3);
    assert_eq!(ColumnCompareMetric::RootMeanSquareDeviation.short_name(), "rmsd");
    assert_eq!(ColumnCompareMetric::AverageAbsoluteDifference.long_name(), "average absolute deviation");
    assert_eq!(SolverPick::all(), &[SolverPick::Reference, SolverPick::Testing]);
}

#[test]
fn element_type_names() {
    assert_eq!(ElementType::from_str("QUAD4"), Ok(ElementType::Quad4));
    assert_eq!(ElementType::from_str("FOO"), Err(()));
    assert_eq!(ElementType::Tria3.name(), "TRIA3");
    assert_eq!(BlockType::RodForces.elem_type(), Some(ElementType::Rod));
    assert_eq!(BlockType::QuadForces.elem_type(), None);
}

#[test]
fn index_texts() {
    let quad = ElementRef { eid: 7, etype: Some(ElementType::Quad4) };
    assert_eq!(gp(5).text(), "GRID 5");
    assert_eq!(NasIndex::ElementRef(quad).text(), "ELEMENT 7 (QUAD4)");
    assert_eq!(NasIndex::ElementRef(ElementRef { eid: 8, etype: None }).text(), "ELEMENT 8");
    let corner = NasIndex::PointInElement(PointInElement { element: quad, point: ElementPoint::Corner(GridPointRef { gid: 3 }) });
    assert_eq!(corner.text(), "ELEMENT 7 (QUAD4), CORNER AT GRID 3");
    let sided = NasIndex::ElementSidedPoint(ElementSidedPoint { element: quad, point: ElementPoint::Centroid, side: ElementSide::Top });
    assert_eq!(sided.text(), "ELEMENT 7 (QUAD4), CENTROID, TOP SIDE");
    let fo = NasIndex::GridPointForceOrigin(GridPointForceOrigin { grid_point: GridPointRef { gid: 1 }, force_origin: ForceOrigin::Load });
    assert_eq!(fo.text(), "APPLIED LOAD FORCE AT GRID 1");
    assert_eq!(dof(DofType::Translational, Axis::X).text(), "Tx");
    assert_eq!(dof(DofType::Rotational, Axis::Z).text(), "Rz");
    let bs = NasIndex::BarStressField(BarStressField::AtRecoveryPoint { end: BarEnd::EndA, point: 2 });
    assert_eq!(bs.text(), "END-A, RECOVERY POINT 2");
    let bf = NasIndex::BarForceField(BarForceField::BendMoment { end: BarEnd::EndB, plane: BarPlane::Plane1 });
    assert_eq!(bf.text(), "BEND-MOMENT END-B, PLANE 1");
    assert_eq!(NasIndex::GridPointCsys(GridPointCsys::from_ids(4, 2)).text(), "GRID 4 ON COORD SYS 2");
    assert_eq!(NasIndex::EigenSolutionMode(EigenSolutionMode(3)).text(), "MODE");
    assert_eq!(NasIndex::PlateStressField(PlateStressField::VonMises).text(), PlateStressField::VonMises.name());
}

#[test]
fn error_texts() {
    let bref = BlockRef { subcase: 3, block_type: BlockType::RodForces };
    assert_eq!(ExtractionError::NoSuchBlock(bref).text(), "no such block (RodForces, subcase 3)");
    assert_eq!(ExtractionError::BlockIsEmpty.text(), "block is empty");
    assert_eq!(ExtractionError::MissingRow(gp(2)).text(), "no such row (GRID 2)");
    assert_eq!(
        ExtractionError::RowTypeMismatch { tried: gp(2), against: NasIndex::ElementRef(ElementRef { eid: 1, etype: None }) }.text(),
        "wrong row type (tried a GRID POINT ID, block uses ELEMENT ID)"
    );
    assert_eq!(
        ConversionError::WrongBlockType { got: BlockType::SpcForces, expected: BlockType::Displacements }.text(),
        "wrong block type (got Forces of single-point constraint, expected Grid point displacements)"
    );
    assert_eq!(ConversionError::BadColIndexType(gp(9)).text(), "col index GRID 9 is of wrong/unexpected type");
    assert_eq!(NonCompareReason::NoCounterpart(Some("a.f06".to_string())).text(), "no counterpart in a.f06");
    assert_eq!(NonCompareReason::NotUniqueInOne(None).text(), "not unique in one of the files");
    assert_eq!(NonCompareReason::NotUniqueInBoth.text(), "not unique in either file");
    assert_eq!(
        NonCompareReason::NotCompatible(BlockCompatibility::DifferentSubcase).text(),
        "incompatibility: the blocks are not of the same subcase"
    );
}

#[test]
fn conversion_templates() {
    let convs = all_converters();
    assert_eq!(convs.len(), 19);
    for bt in BlockType::all() {
        let found: Vec<&BlockConverter> = convs.iter().filter(|c| c.input_block_type == *bt).collect();
        assert_eq!(found.len(), 1);
        assert!(found[0].generators.iter().all(|g| g.len() == 10));
        assert_eq!(found[0].generators.len(), found[0].headers.len());
    }
    let bar = convs.iter().find(|c| c.input_block_type == BlockType::BarStresses).unwrap();
    assert_eq!(bar.output_block_id, CsvBlockId::Stresses);
    assert_eq!(bar.generators.len(), 2);
    let disp = convs.iter().find(|c| c.input_block_type == BlockType::Displacements).unwrap();
    assert_eq!(disp.headers[0][8], "Coord");
}

#[test]
fn parsed_file_to_csv() {
    let mut file = F06File::new();
    file.flavour = Flavour { solver: Some(Solver::Mystran), soltype: Some(SolType::LinearStatic) };
    file.insert_block(displacement_block(1, &[(1, "1.0"), (2, "2.0")]));
    let recs = to_records(&file, &all_converters(), None, None);
    assert_eq!(recs.len(), 11);
    let r = &recs[10];
    assert_eq!(r.block_id, CsvBlockId::Displacements);
    assert_eq!(r.gid, Some(2));
    assert!(matches!(r.fields[0], CsvField::Natural(2)));
    assert!(matches!(r.fields[1], CsvField::Natural(1)));
    assert!(matches!(r.fields[8], CsvField::Natural(0)));
    assert!(matches!(r.fields[9], CsvField::Blank));
    let fmt = CsvFormatting::default();
    assert_eq!(fmt.to_string(r.fields[9].clone()), Some("0".to_string()));
    assert!(recs.iter().all(|r| r.fields.len() == 10));
}

#[test]
fn script_indices_and_values() {
    let mut a = F06File::new();
    a.insert_block(displacement_block(1, &[(1, "1.0"), (2, "2.0")]));
    let mut b = F06File::new();
    b.insert_block(displacement_block(1, &[(2, "5.0"), (3, "3.0")]));
    let ex = SimpleExtraction {
        name: "all".to_string(),
        blocks: AnyAmount::Nothing,
        subcases: NumListRange::Nothing,
        nodes: NumListRange::Nothing,
        elements: NumListRange::Nothing,
        element_types: AnyAmount::Nothing,
        dof: AnyAmount::One(Dof { dof_type: DofType::Translational, axis: Axis::X }),
        columns: AnyAmount::Nothing,
    }
    .to_extraction();
    let in_a = ex.lookup(&a);
    assert_eq!(in_a.len(), 2);
    for ix in in_a.iter() {
        assert!(ix.get_from(&a).is_ok());
    }
    let idx = checked_indices(&vec![ex], &a, &b);
    // rows 1, 2 and 3, once each
    assert_eq!(idx.len(), 3);
    let row3 = idx.iter().find(|i| i.row == gp(3)).unwrap();
    assert_eq!(real_text(&Some(value_or_zero(row3, &a))), "0.0");
    assert_eq!(real_text(&Some(value_or_zero(row3, &b))), "3.0");
}

#[test]
fn decoder_hints() {
    let mut d = OpaqueDecoder::new(BlockType::QuadStresses, Flavour::unknown());
    assert_eq!(d.last_row_index(), None);
    let esp = ElementSidedPoint {
        element: ElementRef { eid: 4, etype: Some(ElementType::Quad4) },
        point: ElementPoint::Centroid,
        side: ElementSide::Bottom,
    };
    d.hint_last(NasIndex::ElementSidedPoint(esp));
    assert_eq!(d.last_row_index(), Some(NasIndex::ElementSidedPoint(esp)));
    let mut t = OpaqueDecoder::new(BlockType::TriaStresses, Flavour::unknown());
    t.hint_last(NasIndex::ElementSidedPoint(esp));
    assert_eq!(t.eid, Some(4));
    assert_eq!(t.etype, Some(ElementType::Quad4));
    assert_eq!(t.last_row_index(), None);
}

#[test]
fn specifier_filters() {
    let all: Specifier<usize> = Specifier::All;
    let list = Specifier::List(vec![1, 2]);
    let except = Specifier::AllExcept(vec![1, 2]);
    assert!(all.lax_filter(&None));
    assert!(!all.strict_filter(&None));
    assert!(list.lax_filter(&Some(1)) && list.strict_filter(&Some(1)));
    assert!(!list.lax_filter(&None));
    assert!(except.filter_fn(&3) && !except.filter_fn(&1));
    assert_eq!(list.filter_fn(&3), !except.filter_fn(&3));
}

#[test]
fn record_filters() {
    let rec = |gid: Option<usize>, bid: CsvBlockId| CsvRecord {
        block_id: bid,
        block_type: None,
        gid,
        eid: None,
        etype: None,
        subcase: Some(1),
        fields: (0..10).map(|_| CsvField::Blank).collect(),
        headers: ["a", "b", "c", "d", "e", "f", "g", "h", "i", "j"],
    };
    let open = RecordFilter { csv_blocks: vec![], gids: vec![], eids: vec![], etypes: vec![], subcases: vec![], cols: vec![] };
    assert!(open.should_write(&rec(Some(4), CsvBlockId::Displacements)));
    let f = RecordFilter {
        csv_blocks: vec![CsvBlockId::Displacements],
        gids: vec![1, 2],
        eids: vec![],
        etypes: vec![],
        subcases: vec![1],
        cols: vec![1, 3],
    };
    assert!(f.should_write(&rec(Some(2), CsvBlockId::Displacements)));
    assert!(!f.should_write(&rec(Some(4), CsvBlockId::Displacements)));
    // a record without a grid point passes the grid point filter
    assert!(f.should_write(&rec(None, CsvBlockId::Displacements)));
    assert!(!f.should_write(&rec(Some(2), CsvBlockId::Stresses)));
    assert_eq!(f.keep_cols(vec!["x", "y", "z", "w"]), vec!["x", "z"]);
    assert_eq!(open.keep_cols(vec![1, 2, 3]), vec![1, 2, 3]);
}

#[test]
fn block_types_by_short_name() {
    assert_eq!(BlockType::from_short_name("QuadForces"), Some(BlockType::QuadForces));
    assert_eq!(BlockType::from_short_name("quadforces"), None);
    for bt in BlockType::all() {
        assert_eq!(BlockType::from_short_name(bt.short_name()), Some(*bt));
    }
}

#[test]
fn roundtrips_and_involutions() {
    for d in Dof::all().iter() {
        assert_eq!(Dof::from_number(d.number()), Ok(*d));
        assert_eq!(DofType::from_letter(d.dof_type.letter()), Ok(d.dof_type));
        assert_eq!(Axis::from_number(d.axis.number()), Ok(d.axis));
    }
    assert_eq!(Dof::from_number(4), Ok(Dof { dof_type: DofType::Rotational, axis: Axis::X }));
    assert_eq!(Dof::from_number(7), Err(()));
    assert_eq!(SolType::from_number(SolType::LinearBuckling.number()), Ok(SolType::LinearBuckling));
    assert_eq!(SolType::from_number(1), Ok(SolType::LinearStatic));
    assert_eq!(SolType::from_number(102), Err(()));
    assert_eq!(ElementSide::Top.opposite().opposite(), ElementSide::Top);
    assert_eq!(BarEnd::EndA.opposite(), BarEnd::EndB);
    let mut esp = ElementSidedPoint {
        element: ElementRef { eid: 1, etype: None },
        point: ElementPoint::Anywhere,
        side: ElementSide::Bottom,
    };
    esp.flip_side();
    assert_eq!(esp.side, ElementSide::Top);
    esp.flip_side();
    assert_eq!(esp.side, ElementSide::Bottom);
}

#[test]
fn incompatible_unique_blocks_are_not_compared() {
    let mut a = F06File::new();
    a.filename = Some("a.f06".to_string());
    a.insert_block(displacement_block(1, &[(1, "1.0")]));
    let mut b = F06File::new();
    b.insert_block(displacement_block(1, &[(2, "1.0")]));
    let d = F06Diff::compare(DisjunctionBehaviour::Skip, &a, &b);
    assert!(d.compared.is_empty());
    assert_eq!(d.not_compared.len(), 1);
    assert!(matches!(d.not_compared[0].1, NonCompareReason::NotCompatible(BlockCompatibility::NoCommonRows)));
    assert_eq!(d.not_compared[0].1.text(), "incompatibility: the blocks have no row indexes in common");
}

#[test]
fn merging_without_the_clean_check() {
    let mut file = F06File::new();
    file.insert_block(displacement_block(1, &[(1, "1.0")]));
    file.insert_block(displacement_block(1, &[(2, "2.0")]));
    assert_eq!(file.merge_blocks(false), 1);
    assert_eq!(file.blocks[0].1.len(), 1);
    assert_eq!(file.blocks[0].1[0].row_indexes.len(), 2);
}

#[test]
fn tria_force_lines_are_data() {
    let mut d = OpaqueDecoder::new(BlockType::TriaForces, Flavour { solver: Some(Solver::Mystran), soltype: None });
    let r = d.consume(&chars("101 1.0 2.0 3.0 4.0 5.0 6.0 7.0 8.0"));
    assert_eq!(r, LineResponse::Data);
    let b = d.finalise(1);
    let row = NasIndex::ElementRef(ElementRef { eid: 101, etype: None });
    assert_eq!(real_text(&b.get(row, NasIndex::PlateForceField(PlateForceField::MomentX))), "4.0");
}

#[test]
fn solver_is_kept_once_known() {
    let mut p = OnePassParser::new();
    assert_eq!(p.consume("MYSTRAN"), ParserResponse::Solver(Solver::Mystran));
    assert_eq!(p.consume("MYSTRAN"), ParserResponse::Useless);
    let f = p.finish();
    assert_eq!(f.flavour.solver, Some(Solver::Mystran));
}

#[test]
fn header_merge_in_either_order() {
    let a = PotentialHeader { start: 3, span: 2, text: "A".to_string() };
    let b = PotentialHeader { start: 5, span: 1, text: "B".to_string() };
    let ab = a.clone().try_merge(b.clone()).unwrap();
    let ba = b.try_merge(a).unwrap();
    assert_eq!((ab.start, ab.span, ab.text.clone()), (ba.start, ba.span, ba.text.clone()));
    assert_eq!(ab.text, "A B");
}

#[test]
fn blockify_keeps_the_looked_up_keys() {
    let mut f = F06File::new();
    f.insert_block(displacement_block(1, &[(1, "1.0"), (2, "2.0"), (3, "3.0")]));
    let ex = Extraction {
        subcases: Specifier::All,
        block_types: Specifier::All,
        grid_points: Specifier::All,
        elements: Specifier::All,
        rows: Specifier::List(vec![gp(1), gp(3)]),
        cols: Specifier::List(vec![dof(DofType::Translational, Axis::X), dof(DofType::Rotational, Axis::Z)]),
        raw_cols: Specifier::All,
        dxn: DisjunctionBehaviour::AssumeZeroes,
    };
    let blocks = ex.blockify(&f);
    assert_eq!(blocks.len(), 1);
    let rows: Vec<NasIndex> = blocks[0].row_indexes.entries.iter().map(|e| e.0).collect();
    let cols: Vec<NasIndex> = blocks[0].col_indexes.entries.iter().map(|e| e.0).collect();
    assert_eq!(rows, vec![gp(1), gp(3)]);
    assert_eq!(cols.len(), 2);
    let looked = ex.lookup(&f);
    assert_eq!(looked.len(), rows.len() * cols.len());
    for d in looked.iter() {
        assert!(rows.contains(&d.row) && cols.contains(&d.col));
    }
    assert_eq!(real_text(&blocks[0].get(gp(3), dof(DofType::Rotational, Axis::Z))), "3.0");
    assert!(blocks[0].get(gp(2), dof(DofType::Translational, Axis::X)).is_none());
}

#[test]
fn sorting_all_blocks_orders_rows_and_columns() {
    let mut b = displacement_block(1, &[(3, "3.0"), (1, "1.0"), (2, "2.0")]);
    b.swap_columns(dof(DofType::Translational, Axis::X), dof(DofType::Rotational, Axis::Z));
    let mut f = F06File::new();
    f.insert_block(b);
    f.sort_all_blocks();
    let s = &f.blocks[0].1[0];
    for (i, e) in s.row_indexes.entries.iter().enumerate() {
        assert_eq!(e.1, i);
    }
    for (i, e) in s.col_indexes.entries.iter().enumerate() {
        assert_eq!(e.1, i);
    }
    assert_eq!(real_text(&s.get(gp(3), dof(DofType::Rotational, Axis::Z))), "3.0");
}

#[test]
fn aliases_name_one_block_each() {
    let all = CsvBlockId::all();
    for a in all.iter() {
        for b in all.iter() {
            if a != b {
                for x in a.aliases() {
                    assert!(!b.aliases().contains(x));
                }
            }
        }
    }
}
