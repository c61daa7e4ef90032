//! The order of indexes: every index maps to a sort key of six integers,
//! compared lexicographically, which orders indexes as the derived order of
//! their definitions does (kind first, then fields in declaration order,
//! element types by name).

use vstd::prelude::*;

use crate::elements::{etype_rank, lemma_etype_rank_injective, ElementType};
use crate::geometry::{Axis, Dof, DofType};
use crate::indexing::{
    lemma_plate_force_field_positions, lemma_plate_stress_field_positions,
    lemma_real_eigenvalue_field_positions, lemma_rod_force_field_positions,
    lemma_rod_stress_field_positions, plate_force_field_pos, plate_stress_field_pos,
    real_eigenvalue_field_pos, rod_force_field_pos, rod_stress_field_pos, BarEnd, BarForceField, BarPlane, BarStressField,
    ElementPoint, ElementSide, ForceOrigin, NasIndex, NormalStressDirection,
};

verus! {

/// A sort key: six integers, compared lexicographically.
pub type SortKey = (int, int, int, int, int, int);

/// The executable form of a sort key.
pub type ExecKey = (u64, u64, u64, u64, u64, u64);

/// The sort key an executable key stands for.
pub open spec fn key_of(k: ExecKey) -> SortKey {
    (k.0 as int, k.1 as int, k.2 as int, k.3 as int, k.4 as int, k.5 as int)
}

/// Strict lexicographic order on sort keys.
pub open spec fn key_lt(a: SortKey, b: SortKey) -> bool {
    ||| a.0 < b.0
    ||| (a.0 == b.0 && a.1 < b.1)
    ||| (a.0 == b.0 && a.1 == b.1 && a.2 < b.2)
    ||| (a.0 == b.0 && a.1 == b.1 && a.2 == b.2 && a.3 < b.3)
    ||| (a.0 == b.0 && a.1 == b.1 && a.2 == b.2 && a.3 == b.3 && a.4 < b.4)
    ||| (a.0 == b.0 && a.1 == b.1 && a.2 == b.2 && a.3 == b.3 && a.4 == b.4 && a.5 < b.5)
}

/// Lexicographic order is a strict total order.
pub proof fn lemma_key_order(a: SortKey, b: SortKey, c: SortKey)
    ensures
        !key_lt(a, a),
        key_lt(a, b) && key_lt(b, c) ==> key_lt(a, c),
        key_lt(a, b) ==> !key_lt(b, a),
        a != b ==> key_lt(a, b) || key_lt(b, a),
{
}

/// Compares two executable keys.
pub fn exec_key_lt(a: &ExecKey, b: &ExecKey) -> (r: bool)
    ensures
        r == key_lt(key_of(*a), key_of(*b)),
{
    if a.0 != b.0 {
        return a.0 < b.0;
    }
    if a.1 != b.1 {
        return a.1 < b.1;
    }
    if a.2 != b.2 {
        return a.2 < b.2;
    }
    if a.3 != b.3 {
        return a.3 < b.3;
    }
    if a.4 != b.4 {
        return a.4 < b.4;
    }
    a.5 < b.5
}

/// The key of an optional element type: unknown types come first, then the
/// types by name.
pub open spec fn etype_key(e: Option<ElementType>) -> int {
    match e {
        None => 0,
        Some(t) => 1 + etype_rank(t) as int,
    }
}

/// The key of an element point: its kind, then its grid point.
pub open spec fn point_key(p: ElementPoint) -> (int, int) {
    match p {
        ElementPoint::Centroid => (0, 0),
        ElementPoint::Corner(g) => (1, g.gid as int),
        ElementPoint::Midpoint(g) => (2, g.gid as int),
        ElementPoint::Anywhere => (3, 0),
    }
}

/// The key of a force origin: its kind, then its element.
pub open spec fn force_origin_key(f: ForceOrigin) -> (int, int, int) {
    match f {
        ForceOrigin::Load => (0, 0, 0),
        ForceOrigin::Element { elem } => (1, elem.eid as int, etype_key(elem.etype)),
        ForceOrigin::SinglePointConstraint => (2, 0, 0),
        ForceOrigin::MultiPointConstraint => (3, 0, 0),
    }
}

/// The key of a bar end.
pub open spec fn end_key(e: BarEnd) -> int {
    match e {
        BarEnd::EndA => 0,
        BarEnd::EndB => 1,
    }
}

/// The key of a bar plane.
pub open spec fn plane_key(p: BarPlane) -> int {
    match p {
        BarPlane::Plane1 => 0,
        BarPlane::Plane2 => 1,
    }
}

/// The key of a bar force field.
pub open spec fn bar_force_key(f: BarForceField) -> (int, int, int) {
    match f {
        BarForceField::BendMoment { end, plane } => (0, end_key(end), plane_key(plane)),
        BarForceField::Shear { plane } => (1, plane_key(plane), 0),
        BarForceField::AxialForce => (2, 0, 0),
        BarForceField::Torque => (3, 0, 0),
    }
}

/// The key of a bar stress field.
pub open spec fn bar_stress_key(f: BarStressField) -> (int, int, int) {
    match f {
        BarStressField::AtRecoveryPoint { end, point } => (0, end_key(end), point as int),
        BarStressField::Axial => (1, 0, 0),
        BarStressField::MaxAt(e) => (2, end_key(e), 0),
        BarStressField::MinAt(e) => (3, end_key(e), 0),
        BarStressField::SafetyMargin(d) => (4, match d {
            NormalStressDirection::Tension => 0,
            NormalStressDirection::Compression => 1,
        }, 0),
    }
}

/// The key of a degree of freedom: its type, then its axis.
pub open spec fn dof_key(d: Dof) -> (int, int) {
    (
        match d.dof_type {
            DofType::Translational => 0,
            DofType::Rotational => 1,
        },
        match d.axis {
            Axis::X => 0,
            Axis::Y => 1,
            Axis::Z => 2,
        },
    )
}

/// The sort key of an index.
pub open spec fn nas_key(ix: NasIndex) -> SortKey {
    match ix {
        NasIndex::Dof(d) => (0, dof_key(d).0, dof_key(d).1, 0, 0, 0),
        NasIndex::GridPointRef(g) => (1, g.gid as int, 0, 0, 0, 0),
        NasIndex::ElementRef(e) => (2, e.eid as int, etype_key(e.etype), 0, 0, 0),
        NasIndex::PointInElement(p) => (
            3,
            p.element.eid as int,
            etype_key(p.element.etype),
            point_key(p.point).0,
            point_key(p.point).1,
            0,
        ),
        NasIndex::GridPointForceOrigin(g) => (
            4,
            g.grid_point.gid as int,
            force_origin_key(g.force_origin).0,
            force_origin_key(g.force_origin).1,
            force_origin_key(g.force_origin).2,
            0,
        ),
        NasIndex::ElementSidedPoint(p) => (
            5,
            p.element.eid as int,
            etype_key(p.element.etype),
            point_key(p.point).0,
            point_key(p.point).1,
            match p.side {
                ElementSide::Bottom => 0,
                ElementSide::Top => 1,
            },
        ),
        NasIndex::SingleForce(_) => (6, 0, 0, 0, 0, 0),
        NasIndex::SingleStress(_) => (7, 0, 0, 0, 0, 0),
        NasIndex::SingleStrain(_) => (8, 0, 0, 0, 0, 0),
        NasIndex::BarForceField(f) => (9, bar_force_key(f).0, bar_force_key(f).1, bar_force_key(f).2, 0, 0),
        NasIndex::BarStressField(f) => (10, bar_stress_key(f).0, bar_stress_key(f).1, bar_stress_key(f).2, 0, 0),
        NasIndex::BarStrainField(f) => (11, bar_stress_key(f.0).0, bar_stress_key(f.0).1, bar_stress_key(f.0).2, 0, 0),
        NasIndex::RodForceField(f) => (12, rod_force_field_pos(f) as int, 0, 0, 0, 0),
        NasIndex::RodStressField(f) => (13, rod_stress_field_pos(f) as int, 0, 0, 0, 0),
        NasIndex::RodStrainField(f) => (14, rod_stress_field_pos(f.0) as int, 0, 0, 0, 0),
        NasIndex::PlateForceField(f) => (15, plate_force_field_pos(f) as int, 0, 0, 0, 0),
        NasIndex::PlateStressField(f) => (16, plate_stress_field_pos(f) as int, 0, 0, 0, 0),
        NasIndex::PlateStrainField(f) => (17, plate_stress_field_pos(f.0) as int, 0, 0, 0, 0),
        NasIndex::GridPointCsys(g) => (18, g.gid.gid as int, g.cid.cid as int, 0, 0, 0),
        NasIndex::RealEigenvalueField(f) => (19, real_eigenvalue_field_pos(f) as int, 0, 0, 0, 0),
        NasIndex::EigenSolutionMode(m) => (20, m.0 as int + 0x8000_0000, 0, 0, 0, 0),
    }
}

/// Index order: by sort key.
pub open spec fn nas_lt(a: NasIndex, b: NasIndex) -> bool {
    key_lt(nas_key(a), nas_key(b))
}

proof fn lemma_etype_key_injective(a: Option<ElementType>, b: Option<ElementType>)
    ensures
        etype_key(a) == etype_key(b) ==> a == b,
{
    if let (Some(x), Some(y)) = (a, b) {
        lemma_etype_rank_injective(x, y);
    }
}

proof fn lemma_point_key_injective(a: ElementPoint, b: ElementPoint)
    ensures
        point_key(a) == point_key(b) ==> a == b,
{
}

proof fn lemma_force_origin_key_injective(a: ForceOrigin, b: ForceOrigin)
    ensures
        force_origin_key(a) == force_origin_key(b) ==> a == b,
{
    if let (ForceOrigin::Element { elem: x }, ForceOrigin::Element { elem: y }) = (a, b) {
        lemma_etype_key_injective(x.etype, y.etype);
    }
}

proof fn lemma_bar_force_key_injective(a: BarForceField, b: BarForceField)
    ensures
        bar_force_key(a) == bar_force_key(b) ==> a == b,
{
}

proof fn lemma_bar_stress_key_injective(a: BarStressField, b: BarStressField)
    ensures
        bar_stress_key(a) == bar_stress_key(b) ==> a == b,
{
}

/// Distinct indexes have distinct sort keys.
pub proof fn lemma_nas_key_injective(a: NasIndex, b: NasIndex)
    ensures
        nas_key(a) == nas_key(b) ==> a == b,
{
    if nas_key(a) == nas_key(b) {
        match a {
            NasIndex::Dof(x) => {
                if let NasIndex::Dof(y) = b {
                    
                } else {
                    assert(nas_key(a).0 == 0);
                }
            },
            NasIndex::GridPointRef(x) => {
                if let NasIndex::GridPointRef(y) = b {
                    
                } else {
                    assert(nas_key(a).0 == 1);
                }
            },
            NasIndex::ElementRef(x) => {
                if let NasIndex::ElementRef(y) = b {
                    lemma_etype_key_injective(x.etype, y.etype);
                } else {
                    assert(nas_key(a).0 == 2);
                }
            },
            NasIndex::PointInElement(x) => {
                if let NasIndex::PointInElement(y) = b {
                    lemma_etype_key_injective(x.element.etype, y.element.etype); lemma_point_key_injective(x.point, y.point);
                } else {
                    assert(nas_key(a).0 == 3);
                }
            },
            NasIndex::GridPointForceOrigin(x) => {
                if let NasIndex::GridPointForceOrigin(y) = b {
                    lemma_force_origin_key_injective(x.force_origin, y.force_origin);
                } else {
                    assert(nas_key(a).0 == 4);
                }
            },
            NasIndex::ElementSidedPoint(x) => {
                if let NasIndex::ElementSidedPoint(y) = b {
                    lemma_etype_key_injective(x.element.etype, y.element.etype); lemma_point_key_injective(x.point, y.point);
                } else {
                    assert(nas_key(a).0 == 5);
                }
            },
            NasIndex::SingleForce(x) => {
                if let NasIndex::SingleForce(y) = b {
                    
                } else {
                    assert(nas_key(a).0 == 6);
                }
            },
            NasIndex::SingleStress(x) => {
                if let NasIndex::SingleStress(y) = b {
                    
                } else {
                    assert(nas_key(a).0 == 7);
                }
            },
            NasIndex::SingleStrain(x) => {
                if let NasIndex::SingleStrain(y) = b {
                    
                } else {
                    assert(nas_key(a).0 == 8);
                }
            },
            NasIndex::BarForceField(x) => {
                if let NasIndex::BarForceField(y) = b {
                    lemma_bar_force_key_injective(x, y);
                } else {
                    assert(nas_key(a).0 == 9);
                }
            },
            NasIndex::BarStressField(x) => {
                if let NasIndex::BarStressField(y) = b {
                    lemma_bar_stress_key_injective(x, y);
                } else {
                    assert(nas_key(a).0 == 10);
                }
            },
            NasIndex::BarStrainField(x) => {
                if let NasIndex::BarStrainField(y) = b {
                    lemma_bar_stress_key_injective(x.0, y.0);
                } else {
                    assert(nas_key(a).0 == 11);
                }
            },
            NasIndex::RodForceField(x) => {
                if let NasIndex::RodForceField(y) = b {
                    lemma_rod_force_field_positions(x); lemma_rod_force_field_positions(y);
                } else {
                    assert(nas_key(a).0 == 12);
                }
            },
            NasIndex::RodStressField(x) => {
                if let NasIndex::RodStressField(y) = b {
                    lemma_rod_stress_field_positions(x); lemma_rod_stress_field_positions(y);
                } else {
                    assert(nas_key(a).0 == 13);
                }
            },
            NasIndex::RodStrainField(x) => {
                if let NasIndex::RodStrainField(y) = b {
                    lemma_rod_stress_field_positions(x.0); lemma_rod_stress_field_positions(y.0);
                } else {
                    assert(nas_key(a).0 == 14);
                }
            },
            NasIndex::PlateForceField(x) => {
                if let NasIndex::PlateForceField(y) = b {
                    lemma_plate_force_field_positions(x); lemma_plate_force_field_positions(y);
                } else {
                    assert(nas_key(a).0 == 15);
                }
            },
            NasIndex::PlateStressField(x) => {
                if let NasIndex::PlateStressField(y) = b {
                    lemma_plate_stress_field_positions(x); lemma_plate_stress_field_positions(y);
                } else {
                    assert(nas_key(a).0 == 16);
                }
            },
            NasIndex::PlateStrainField(x) => {
                if let NasIndex::PlateStrainField(y) = b {
                    lemma_plate_stress_field_positions(x.0); lemma_plate_stress_field_positions(y.0);
                } else {
                    assert(nas_key(a).0 == 17);
                }
            },
            NasIndex::GridPointCsys(x) => {
                if let NasIndex::GridPointCsys(y) = b {
                    
                } else {
                    assert(nas_key(a).0 == 18);
                }
            },
            NasIndex::RealEigenvalueField(x) => {
                if let NasIndex::RealEigenvalueField(y) = b {
                    lemma_real_eigenvalue_field_positions(x); lemma_real_eigenvalue_field_positions(y);
                } else {
                    assert(nas_key(a).0 == 19);
                }
            },
            NasIndex::EigenSolutionMode(x) => {
                if let NasIndex::EigenSolutionMode(y) = b {
                    
                } else {
                    assert(nas_key(a).0 == 20);
                }
            },
        }
    }
}

/// Index order is a strict total order.
pub proof fn lemma_nas_order(a: NasIndex, b: NasIndex, c: NasIndex)
    ensures
        !nas_lt(a, a),
        nas_lt(a, b) && nas_lt(b, c) ==> nas_lt(a, c),
        nas_lt(a, b) ==> !nas_lt(b, a),
        a != b ==> nas_lt(a, b) || nas_lt(b, a),
{
    lemma_key_order(nas_key(a), nas_key(b), nas_key(c));
    lemma_nas_key_injective(a, b);
}

fn etype_key_exec(e: Option<ElementType>) -> (r: u64)
    ensures
        r as int == etype_key(e),
{
    match e {
        None => 0,
        Some(t) => {
            proof {
                lemma_etype_rank_injective(t, t);
            }
            1 + t.name_rank() as u64
        },
    }
}

fn point_key_exec(p: ElementPoint) -> (r: (u64, u64))
    ensures
        (r.0 as int, r.1 as int) == point_key(p),
{
    match p {
        ElementPoint::Centroid => (0, 0),
        ElementPoint::Corner(g) => (1, g.gid as u64),
        ElementPoint::Midpoint(g) => (2, g.gid as u64),
        ElementPoint::Anywhere => (3, 0),
    }
}

fn end_key_exec(e: BarEnd) -> (r: u64)
    ensures
        r as int == end_key(e),
{
    match e {
        BarEnd::EndA => 0,
        BarEnd::EndB => 1,
    }
}

fn bar_stress_key_exec(f: BarStressField) -> (r: (u64, u64, u64))
    ensures
        (r.0 as int, r.1 as int, r.2 as int) == bar_stress_key(f),
{
    match f {
        BarStressField::AtRecoveryPoint { end, point } => (0, end_key_exec(end), point as u64),
        BarStressField::Axial => (1, 0, 0),
        BarStressField::MaxAt(e) => (2, end_key_exec(e), 0),
        BarStressField::MinAt(e) => (3, end_key_exec(e), 0),
        BarStressField::SafetyMargin(d) => (4, match d {
            NormalStressDirection::Tension => 0,
            NormalStressDirection::Compression => 1,
        }, 0),
    }
}

impl NasIndex {
    /// Returns the sort key of this index.
    pub fn sort_key(&self) -> (r: ExecKey)
        ensures
            key_of(r) == nas_key(*self),
    {
        match *self {
            NasIndex::Dof(d) => {
                let t: u64 = match d.dof_type {
                    DofType::Translational => 0,
                    DofType::Rotational => 1,
                };
                let a: u64 = match d.axis {
                    Axis::X => 0,
                    Axis::Y => 1,
                    Axis::Z => 2,
                };
                (0, t, a, 0, 0, 0)
            },
            NasIndex::GridPointRef(g) => (1, g.gid as u64, 0, 0, 0, 0),
            NasIndex::ElementRef(e) => (2, e.eid as u64, etype_key_exec(e.etype), 0, 0, 0),
            NasIndex::PointInElement(p) => {
                let pk = point_key_exec(p.point);
                (3, p.element.eid as u64, etype_key_exec(p.element.etype), pk.0, pk.1, 0)
            },
            NasIndex::GridPointForceOrigin(g) => {
                let fk: (u64, u64, u64) = match g.force_origin {
                    ForceOrigin::Load => (0, 0, 0),
                    ForceOrigin::Element { elem } => (1, elem.eid as u64, etype_key_exec(elem.etype)),
                    ForceOrigin::SinglePointConstraint => (2, 0, 0),
                    ForceOrigin::MultiPointConstraint => (3, 0, 0),
                };
                (4, g.grid_point.gid as u64, fk.0, fk.1, fk.2, 0)
            },
            NasIndex::ElementSidedPoint(p) => {
                let pk = point_key_exec(p.point);
                let s: u64 = match p.side {
                    ElementSide::Bottom => 0,
                    ElementSide::Top => 1,
                };
                (5, p.element.eid as u64, etype_key_exec(p.element.etype), pk.0, pk.1, s)
            },
            NasIndex::SingleForce(_) => (6, 0, 0, 0, 0, 0),
            NasIndex::SingleStress(_) => (7, 0, 0, 0, 0, 0),
            NasIndex::SingleStrain(_) => (8, 0, 0, 0, 0, 0),
            NasIndex::BarForceField(f) => {
                let fk: (u64, u64, u64) = match f {
                    BarForceField::BendMoment { end, plane } => (0, end_key_exec(end), match plane {
                        BarPlane::Plane1 => 0,
                        BarPlane::Plane2 => 1,
                    }),
                    BarForceField::Shear { plane } => (1, match plane {
                        BarPlane::Plane1 => 0,
                        BarPlane::Plane2 => 1,
                    }, 0),
                    BarForceField::AxialForce => (2, 0, 0),
                    BarForceField::Torque => (3, 0, 0),
                };
                (9, fk.0, fk.1, fk.2, 0, 0)
            },
            NasIndex::BarStressField(f) => {
                let fk = bar_stress_key_exec(f);
                (10, fk.0, fk.1, fk.2, 0, 0)
            },
            NasIndex::BarStrainField(f) => {
                let fk = bar_stress_key_exec(f.0);
                (11, fk.0, fk.1, fk.2, 0, 0)
            },
            NasIndex::RodForceField(f) => (12, f.position() as u64, 0, 0, 0, 0),
            NasIndex::RodStressField(f) => (13, f.position() as u64, 0, 0, 0, 0),
            NasIndex::RodStrainField(f) => (14, f.0.position() as u64, 0, 0, 0, 0),
            NasIndex::PlateForceField(f) => (15, f.position() as u64, 0, 0, 0, 0),
            NasIndex::PlateStressField(f) => (16, f.position() as u64, 0, 0, 0, 0),
            NasIndex::PlateStrainField(f) => (17, f.0.position() as u64, 0, 0, 0, 0),
            NasIndex::GridPointCsys(g) => (18, g.gid.gid as u64, g.cid.cid as u64, 0, 0, 0),
            NasIndex::RealEigenvalueField(f) => (19, f.position() as u64, 0, 0, 0, 0),
            NasIndex::EigenSolutionMode(m) => {
                let shifted: i64 = m.0 as i64 + 0x8000_0000;
                (20, shifted as u64, 0, 0, 0, 0)
            },
        }
    }

    /// Orders indexes by their sort keys.
    pub fn less(&self, other: &NasIndex) -> (r: bool)
        ensures
            r == nas_lt(*self, *other),
    {
        let a = self.sort_key();
        let b = other.sort_key();
        exec_key_lt(&a, &b)
    }
}

} // verus!
