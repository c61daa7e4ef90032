//! The column indexes of the decoders: each set of columns in its
//! canonical order, with the position of each column.

use vstd::prelude::*;

use crate::blocks::positions_ok;
use crate::geometry::Dof;
use crate::indexing::{
    all_bar_force_field, all_bar_stress_field, all_plate_force_field, all_plate_stress_field,
    all_rod_force_field, all_rod_stress_field, all_single_force, all_single_strain, all_single_stress,
    plate_force_field_pos, plate_stress_field_pos, rod_force_field_pos, rod_stress_field_pos,
    single_force_pos, single_strain_pos, single_stress_pos, BarEnd, BarForceField, BarPlane,
    BarStrainField, BarStressField, NasIndex, NormalStressDirection, PlateForceField, PlateStrainField,
    PlateStressField, RodForceField, RodStrainField, RodStressField, SingleForce, SingleStrain,
    SingleStress,
};
use crate::indexmap::IndexMap;

verus! {

/// No element occurs twice.
pub open spec fn distinct(s: Seq<NasIndex>) -> bool {
    forall|i: int, j: int| 0 <= i < j < s.len() ==> s[i] != s[j]
}

/// The position of each column of a bar force table.
pub open spec fn bar_force_rank(x: BarForceField) -> int {
    match x {
        BarForceField::BendMoment { end, plane } => (if end == BarEnd::EndA { 0int } else { 2int }) + (if plane
            == BarPlane::Plane1 { 0int } else { 1int }),
        BarForceField::Shear { plane } => if plane == BarPlane::Plane1 { 4 } else { 5 },
        BarForceField::AxialForce => 6,
        BarForceField::Torque => 7,
    }
}

/// The position of each column of a bar stress table.
pub open spec fn bar_stress_rank(x: BarStressField) -> int {
    match x {
        BarStressField::AtRecoveryPoint { end, point } => (if end == BarEnd::EndA { 0int } else { 6int }) + point - 1,
        BarStressField::MaxAt(end) => if end == BarEnd::EndA { 4 } else { 10 },
        BarStressField::MinAt(end) => if end == BarEnd::EndA { 5 } else { 11 },
        BarStressField::Axial => 12,
        BarStressField::SafetyMargin(d) => if d == NormalStressDirection::Tension { 13 } else { 14 },
    }
}

/// A map giving each index of a list without repeats its place in the list.
pub fn col_map(cols: &Vec<NasIndex>) -> (r: IndexMap)
    requires
        distinct(cols@),
    ensures
        positions_ok(r, cols@.len() as int),
        forall|i: int| 0 <= i < cols@.len() ==> r@.contains_key(#[trigger] cols@[i]) && r@[cols@[i]] == i,
        forall|k: NasIndex| #[trigger] r@.contains_key(k) ==> cols@.contains(k),
{
    let mut r = IndexMap::new();
    let mut i: usize = 0;
    while i < cols.len()
        invariant
            distinct(cols@),
            i <= cols@.len(),
            positions_ok(r, i as int),
            forall|j: int| 0 <= j < i ==> r@.contains_key(#[trigger] cols@[j]) && r@[cols@[j]] == j,
            forall|k: NasIndex| #[trigger] r@.contains_key(k) ==> cols@.take(i as int).contains(k),
        decreases cols.len() - i,
    {
        let k = cols[i];
        let ghost m0 = r;
        proof {
            if m0@.contains_key(k) {
                let j = choose|j: int| 0 <= j < i && cols@.take(i as int)[j] == k;
                assert(cols@[j] == cols@[i as int]);
            }
        }
        r.insert(k, i);
        proof {
            let p = choose|p: int| 0 <= p <= m0.entries@.len() && r.entries@ == m0.entries@.insert(p, (k, i));
            crate::blocks::lemma_positions_push(m0, r, i as int, k, p);
            assert forall|x: NasIndex| #[trigger] r@.contains_key(x) implies cols@.take(i + 1).contains(x) by {
                if x == k {
                    assert(cols@.take(i + 1)[i as int] == k);
                } else {
                    assert(m0@.contains_key(x));
                    let j = choose|j: int| 0 <= j < i && cols@.take(i as int)[j] == x;
                    assert(cols@.take(i + 1)[j] == x);
                }
            }
            assert forall|j: int| 0 <= j < i + 1 implies r@.contains_key(#[trigger] cols@[j]) && r@[cols@[j]] == j by {
                if j < i {
                    assert(cols@[j] != k);
                }
            }
        }
        i = i + 1;
    }
    proof {
        assert(cols@.take(i as int) =~= cols@);
    }
    r
}

/// The columns dof data is laid out in: each has its place in the
/// canonical list.
proof fn lemma_dof_ranks()
    ensures
        crate::geometry::all_dofs().len() == 6,
        forall|i: int| 0 <= i < 6 ==> #[trigger] crate::geometry::dof_number(crate::geometry::all_dofs()[i]) - 1 == i,
{
    assert forall|i: int| 0 <= i < 6 implies #[trigger] crate::geometry::dof_number(crate::geometry::all_dofs()[i]) - 1 == i by {
        if i == 0 {
        } else if i == 1 {
        } else if i == 2 {
        } else if i == 3 {
        } else if i == 4 {
        } else if i == 5 {
        }
    }
}

/// The column indexes for dof data, in canonical order.
pub open spec fn dof_col_seq() -> Seq<NasIndex> {
    crate::geometry::all_dofs().map_values(|x: Dof| NasIndex::Dof(x))
}

/// The column indexes for dof data, each at its place in
/// canonical order.
pub fn dof_cols() -> (r: IndexMap)
    ensures
        positions_ok(r, 6),
        forall|i: int| 0 <= i < 6 ==> r@.contains_key(#[trigger] dof_col_seq()[i]) && r@[dof_col_seq()[i]] == i,
        forall|k: NasIndex| #[trigger] r@.contains_key(k) ==> dof_col_seq().contains(k),
{
    let all = Dof::all();
    let mut v: Vec<NasIndex> = Vec::new();
    let mut i: usize = 0;
    while i < all.len()
        invariant
            all@ == crate::geometry::all_dofs(),
            i <= all@.len(),
            v@ == dof_col_seq().take(i as int),
        decreases all.len() - i,
    {
        let x = all[i];
        v.push(NasIndex::Dof(x));
        i = i + 1;
        assert(v@ =~= dof_col_seq().take(i as int));
    }
    proof {
        lemma_dof_ranks();
        assert(v@ =~= dof_col_seq());
        assert forall|a: int, b: int| 0 <= a < b < v@.len() implies v@[a] != v@[b] by {
            assert(crate::geometry::dof_number(crate::geometry::all_dofs()[a]) - 1 == a);
            assert(crate::geometry::dof_number(crate::geometry::all_dofs()[b]) - 1 == b);
        }
    }
    col_map(&v)
}

/// The columns plate stress data is laid out in: each has its place in the
/// canonical list.
proof fn lemma_plate_stress_ranks()
    ensures
        all_plate_stress_field().len() == 8,
        forall|i: int| 0 <= i < 8 ==> #[trigger] plate_stress_field_pos(all_plate_stress_field()[i]) as int == i,
{
    assert forall|i: int| 0 <= i < 8 implies #[trigger] plate_stress_field_pos(all_plate_stress_field()[i]) as int == i by {
        if i == 0 {
        } else if i == 1 {
        } else if i == 2 {
        } else if i == 3 {
        } else if i == 4 {
        } else if i == 5 {
        } else if i == 6 {
        } else if i == 7 {
        }
    }
}

/// The column indexes for plate stress data, in canonical order.
pub open spec fn plate_stress_col_seq() -> Seq<NasIndex> {
    all_plate_stress_field().map_values(|x: PlateStressField| NasIndex::PlateStressField(x))
}

/// The column indexes for plate stress data, each at its place in
/// canonical order.
pub fn plate_stress_cols() -> (r: IndexMap)
    ensures
        positions_ok(r, 8),
        forall|i: int| 0 <= i < 8 ==> r@.contains_key(#[trigger] plate_stress_col_seq()[i]) && r@[plate_stress_col_seq()[i]] == i,
        forall|k: NasIndex| #[trigger] r@.contains_key(k) ==> plate_stress_col_seq().contains(k),
{
    let all = PlateStressField::all();
    let mut v: Vec<NasIndex> = Vec::new();
    let mut i: usize = 0;
    while i < all.len()
        invariant
            all@ == all_plate_stress_field(),
            i <= all@.len(),
            v@ == plate_stress_col_seq().take(i as int),
        decreases all.len() - i,
    {
        let x = all[i];
        v.push(NasIndex::PlateStressField(x));
        i = i + 1;
        assert(v@ =~= plate_stress_col_seq().take(i as int));
    }
    proof {
        lemma_plate_stress_ranks();
        assert(v@ =~= plate_stress_col_seq());
        assert forall|a: int, b: int| 0 <= a < b < v@.len() implies v@[a] != v@[b] by {
            assert(plate_stress_field_pos(all_plate_stress_field()[a]) as int == a);
            assert(plate_stress_field_pos(all_plate_stress_field()[b]) as int == b);
        }
    }
    col_map(&v)
}

/// The columns plate strain data is laid out in: each has its place in the
/// canonical list.
proof fn lemma_plate_strain_ranks()
    ensures
        all_plate_stress_field().len() == 8,
        forall|i: int| 0 <= i < 8 ==> #[trigger] plate_stress_field_pos(all_plate_stress_field()[i]) as int == i,
{
    assert forall|i: int| 0 <= i < 8 implies #[trigger] plate_stress_field_pos(all_plate_stress_field()[i]) as int == i by {
        if i == 0 {
        } else if i == 1 {
        } else if i == 2 {
        } else if i == 3 {
        } else if i == 4 {
        } else if i == 5 {
        } else if i == 6 {
        } else if i == 7 {
        }
    }
}

/// The column indexes for plate strain data, in canonical order.
pub open spec fn plate_strain_col_seq() -> Seq<NasIndex> {
    all_plate_stress_field().map_values(|x: PlateStressField| NasIndex::PlateStrainField(PlateStrainField(x)))
}

/// The column indexes for plate strain data, each at its place in
/// canonical order.
pub fn plate_strain_cols() -> (r: IndexMap)
    ensures
        positions_ok(r, 8),
        forall|i: int| 0 <= i < 8 ==> r@.contains_key(#[trigger] plate_strain_col_seq()[i]) && r@[plate_strain_col_seq()[i]] == i,
        forall|k: NasIndex| #[trigger] r@.contains_key(k) ==> plate_strain_col_seq().contains(k),
{
    let all = PlateStressField::all();
    let mut v: Vec<NasIndex> = Vec::new();
    let mut i: usize = 0;
    while i < all.len()
        invariant
            all@ == all_plate_stress_field(),
            i <= all@.len(),
            v@ == plate_strain_col_seq().take(i as int),
        decreases all.len() - i,
    {
        let x = all[i];
        v.push(NasIndex::PlateStrainField(PlateStrainField(x)));
        i = i + 1;
        assert(v@ =~= plate_strain_col_seq().take(i as int));
    }
    proof {
        lemma_plate_strain_ranks();
        assert(v@ =~= plate_strain_col_seq());
        assert forall|a: int, b: int| 0 <= a < b < v@.len() implies v@[a] != v@[b] by {
            assert(plate_stress_field_pos(all_plate_stress_field()[a]) as int == a);
            assert(plate_stress_field_pos(all_plate_stress_field()[b]) as int == b);
        }
    }
    col_map(&v)
}

/// The columns plate force data is laid out in: each has its place in the
/// canonical list.
proof fn lemma_plate_force_ranks()
    ensures
        all_plate_force_field().len() == 8,
        forall|i: int| 0 <= i < 8 ==> #[trigger] plate_force_field_pos(all_plate_force_field()[i]) as int == i,
{
    assert forall|i: int| 0 <= i < 8 implies #[trigger] plate_force_field_pos(all_plate_force_field()[i]) as int == i by {
        if i == 0 {
        } else if i == 1 {
        } else if i == 2 {
        } else if i == 3 {
        } else if i == 4 {
        } else if i == 5 {
        } else if i == 6 {
        } else if i == 7 {
        }
    }
}

/// The column indexes for plate force data, in canonical order.
pub open spec fn plate_force_col_seq() -> Seq<NasIndex> {
    all_plate_force_field().map_values(|x: PlateForceField| NasIndex::PlateForceField(x))
}

/// The column indexes for plate force data, each at its place in
/// canonical order.
pub fn plate_force_cols() -> (r: IndexMap)
    ensures
        positions_ok(r, 8),
        forall|i: int| 0 <= i < 8 ==> r@.contains_key(#[trigger] plate_force_col_seq()[i]) && r@[plate_force_col_seq()[i]] == i,
        forall|k: NasIndex| #[trigger] r@.contains_key(k) ==> plate_force_col_seq().contains(k),
{
    let all = PlateForceField::all();
    let mut v: Vec<NasIndex> = Vec::new();
    let mut i: usize = 0;
    while i < all.len()
        invariant
            all@ == all_plate_force_field(),
            i <= all@.len(),
            v@ == plate_force_col_seq().take(i as int),
        decreases all.len() - i,
    {
        let x = all[i];
        v.push(NasIndex::PlateForceField(x));
        i = i + 1;
        assert(v@ =~= plate_force_col_seq().take(i as int));
    }
    proof {
        lemma_plate_force_ranks();
        assert(v@ =~= plate_force_col_seq());
        assert forall|a: int, b: int| 0 <= a < b < v@.len() implies v@[a] != v@[b] by {
            assert(plate_force_field_pos(all_plate_force_field()[a]) as int == a);
            assert(plate_force_field_pos(all_plate_force_field()[b]) as int == b);
        }
    }
    col_map(&v)
}

/// The columns rod force data is laid out in: each has its place in the
/// canonical list.
proof fn lemma_rod_force_ranks()
    ensures
        all_rod_force_field().len() == 2,
        forall|i: int| 0 <= i < 2 ==> #[trigger] rod_force_field_pos(all_rod_force_field()[i]) as int == i,
{
    assert forall|i: int| 0 <= i < 2 implies #[trigger] rod_force_field_pos(all_rod_force_field()[i]) as int == i by {
        if i == 0 {
        } else if i == 1 {
        }
    }
}

/// The column indexes for rod force data, in canonical order.
pub open spec fn rod_force_col_seq() -> Seq<NasIndex> {
    all_rod_force_field().map_values(|x: RodForceField| NasIndex::RodForceField(x))
}

/// The column indexes for rod force data, each at its place in
/// canonical order.
pub fn rod_force_cols() -> (r: IndexMap)
    ensures
        positions_ok(r, 2),
        forall|i: int| 0 <= i < 2 ==> r@.contains_key(#[trigger] rod_force_col_seq()[i]) && r@[rod_force_col_seq()[i]] == i,
        forall|k: NasIndex| #[trigger] r@.contains_key(k) ==> rod_force_col_seq().contains(k),
{
    let all = RodForceField::all();
    let mut v: Vec<NasIndex> = Vec::new();
    let mut i: usize = 0;
    while i < all.len()
        invariant
            all@ == all_rod_force_field(),
            i <= all@.len(),
            v@ == rod_force_col_seq().take(i as int),
        decreases all.len() - i,
    {
        let x = all[i];
        v.push(NasIndex::RodForceField(x));
        i = i + 1;
        assert(v@ =~= rod_force_col_seq().take(i as int));
    }
    proof {
        lemma_rod_force_ranks();
        assert(v@ =~= rod_force_col_seq());
        assert forall|a: int, b: int| 0 <= a < b < v@.len() implies v@[a] != v@[b] by {
            assert(rod_force_field_pos(all_rod_force_field()[a]) as int == a);
            assert(rod_force_field_pos(all_rod_force_field()[b]) as int == b);
        }
    }
    col_map(&v)
}

/// The columns rod stress data is laid out in: each has its place in the
/// canonical list.
proof fn lemma_rod_stress_ranks()
    ensures
        all_rod_stress_field().len() == 4,
        forall|i: int| 0 <= i < 4 ==> #[trigger] rod_stress_field_pos(all_rod_stress_field()[i]) as int == i,
{
    assert forall|i: int| 0 <= i < 4 implies #[trigger] rod_stress_field_pos(all_rod_stress_field()[i]) as int == i by {
        if i == 0 {
        } else if i == 1 {
        } else if i == 2 {
        } else if i == 3 {
        }
    }
}

/// The column indexes for rod stress data, in canonical order.
pub open spec fn rod_stress_col_seq() -> Seq<NasIndex> {
    all_rod_stress_field().map_values(|x: RodStressField| NasIndex::RodStressField(x))
}

/// The column indexes for rod stress data, each at its place in
/// canonical order.
pub fn rod_stress_cols() -> (r: IndexMap)
    ensures
        positions_ok(r, 4),
        forall|i: int| 0 <= i < 4 ==> r@.contains_key(#[trigger] rod_stress_col_seq()[i]) && r@[rod_stress_col_seq()[i]] == i,
        forall|k: NasIndex| #[trigger] r@.contains_key(k) ==> rod_stress_col_seq().contains(k),
{
    let all = RodStressField::all();
    let mut v: Vec<NasIndex> = Vec::new();
    let mut i: usize = 0;
    while i < all.len()
        invariant
            all@ == all_rod_stress_field(),
            i <= all@.len(),
            v@ == rod_stress_col_seq().take(i as int),
        decreases all.len() - i,
    {
        let x = all[i];
        v.push(NasIndex::RodStressField(x));
        i = i + 1;
        assert(v@ =~= rod_stress_col_seq().take(i as int));
    }
    proof {
        lemma_rod_stress_ranks();
        assert(v@ =~= rod_stress_col_seq());
        assert forall|a: int, b: int| 0 <= a < b < v@.len() implies v@[a] != v@[b] by {
            assert(rod_stress_field_pos(all_rod_stress_field()[a]) as int == a);
            assert(rod_stress_field_pos(all_rod_stress_field()[b]) as int == b);
        }
    }
    col_map(&v)
}

/// The columns rod strain data is laid out in: each has its place in the
/// canonical list.
proof fn lemma_rod_strain_ranks()
    ensures
        all_rod_stress_field().len() == 4,
        forall|i: int| 0 <= i < 4 ==> #[trigger] rod_stress_field_pos(all_rod_stress_field()[i]) as int == i,
{
    assert forall|i: int| 0 <= i < 4 implies #[trigger] rod_stress_field_pos(all_rod_stress_field()[i]) as int == i by {
        if i == 0 {
        } else if i == 1 {
        } else if i == 2 {
        } else if i == 3 {
        }
    }
}

/// The column indexes for rod strain data, in canonical order.
pub open spec fn rod_strain_col_seq() -> Seq<NasIndex> {
    all_rod_stress_field().map_values(|x: RodStressField| NasIndex::RodStrainField(RodStrainField(x)))
}

/// The column indexes for rod strain data, each at its place in
/// canonical order.
pub fn rod_strain_cols() -> (r: IndexMap)
    ensures
        positions_ok(r, 4),
        forall|i: int| 0 <= i < 4 ==> r@.contains_key(#[trigger] rod_strain_col_seq()[i]) && r@[rod_strain_col_seq()[i]] == i,
        forall|k: NasIndex| #[trigger] r@.contains_key(k) ==> rod_strain_col_seq().contains(k),
{
    let all = RodStressField::all();
    let mut v: Vec<NasIndex> = Vec::new();
    let mut i: usize = 0;
    while i < all.len()
        invariant
            all@ == all_rod_stress_field(),
            i <= all@.len(),
            v@ == rod_strain_col_seq().take(i as int),
        decreases all.len() - i,
    {
        let x = all[i];
        v.push(NasIndex::RodStrainField(RodStrainField(x)));
        i = i + 1;
        assert(v@ =~= rod_strain_col_seq().take(i as int));
    }
    proof {
        lemma_rod_strain_ranks();
        assert(v@ =~= rod_strain_col_seq());
        assert forall|a: int, b: int| 0 <= a < b < v@.len() implies v@[a] != v@[b] by {
            assert(rod_stress_field_pos(all_rod_stress_field()[a]) as int == a);
            assert(rod_stress_field_pos(all_rod_stress_field()[b]) as int == b);
        }
    }
    col_map(&v)
}

/// The columns bar force data is laid out in: each has its place in the
/// canonical list.
proof fn lemma_bar_force_ranks()
    ensures
        all_bar_force_field().len() == 8,
        forall|i: int| 0 <= i < 8 ==> #[trigger] bar_force_rank(all_bar_force_field()[i]) == i,
{
    assert forall|i: int| 0 <= i < 8 implies #[trigger] bar_force_rank(all_bar_force_field()[i]) == i by {
        if i == 0 {
        } else if i == 1 {
        } else if i == 2 {
        } else if i == 3 {
        } else if i == 4 {
        } else if i == 5 {
        } else if i == 6 {
        } else if i == 7 {
        }
    }
}

/// The column indexes for bar force data, in canonical order.
pub open spec fn bar_force_col_seq() -> Seq<NasIndex> {
    all_bar_force_field().map_values(|x: BarForceField| NasIndex::BarForceField(x))
}

/// The column indexes for bar force data, each at its place in
/// canonical order.
pub fn bar_force_cols() -> (r: IndexMap)
    ensures
        positions_ok(r, 8),
        forall|i: int| 0 <= i < 8 ==> r@.contains_key(#[trigger] bar_force_col_seq()[i]) && r@[bar_force_col_seq()[i]] == i,
        forall|k: NasIndex| #[trigger] r@.contains_key(k) ==> bar_force_col_seq().contains(k),
{
    let all = BarForceField::all();
    let mut v: Vec<NasIndex> = Vec::new();
    let mut i: usize = 0;
    while i < all.len()
        invariant
            all@ == all_bar_force_field(),
            i <= all@.len(),
            v@ == bar_force_col_seq().take(i as int),
        decreases all.len() - i,
    {
        let x = all[i];
        v.push(NasIndex::BarForceField(x));
        i = i + 1;
        assert(v@ =~= bar_force_col_seq().take(i as int));
    }
    proof {
        lemma_bar_force_ranks();
        assert(v@ =~= bar_force_col_seq());
        assert forall|a: int, b: int| 0 <= a < b < v@.len() implies v@[a] != v@[b] by {
            assert(bar_force_rank(all_bar_force_field()[a]) == a);
            assert(bar_force_rank(all_bar_force_field()[b]) == b);
        }
    }
    col_map(&v)
}

/// The columns bar stress data is laid out in: each has its place in the
/// canonical list.
proof fn lemma_bar_stress_ranks()
    ensures
        all_bar_stress_field().len() == 15,
        forall|i: int| 0 <= i < 15 ==> #[trigger] bar_stress_rank(all_bar_stress_field()[i]) == i,
{
    assert forall|i: int| 0 <= i < 15 implies #[trigger] bar_stress_rank(all_bar_stress_field()[i]) == i by {
        if i == 0 {
        } else if i == 1 {
        } else if i == 2 {
        } else if i == 3 {
        } else if i == 4 {
        } else if i == 5 {
        } else if i == 6 {
        } else if i == 7 {
        } else if i == 8 {
        } else if i == 9 {
        } else if i == 10 {
        } else if i == 11 {
        } else if i == 12 {
        } else if i == 13 {
        } else if i == 14 {
        }
    }
}

/// The column indexes for bar stress data, in canonical order.
pub open spec fn bar_stress_col_seq() -> Seq<NasIndex> {
    all_bar_stress_field().map_values(|x: BarStressField| NasIndex::BarStressField(x))
}

/// The column indexes for bar stress data, each at its place in
/// canonical order.
pub fn bar_stress_cols() -> (r: IndexMap)
    ensures
        positions_ok(r, 15),
        forall|i: int| 0 <= i < 15 ==> r@.contains_key(#[trigger] bar_stress_col_seq()[i]) && r@[bar_stress_col_seq()[i]] == i,
        forall|k: NasIndex| #[trigger] r@.contains_key(k) ==> bar_stress_col_seq().contains(k),
{
    let all = BarStressField::all();
    let mut v: Vec<NasIndex> = Vec::new();
    let mut i: usize = 0;
    while i < all.len()
        invariant
            all@ == all_bar_stress_field(),
            i <= all@.len(),
            v@ == bar_stress_col_seq().take(i as int),
        decreases all.len() - i,
    {
        let x = all[i];
        v.push(NasIndex::BarStressField(x));
        i = i + 1;
        assert(v@ =~= bar_stress_col_seq().take(i as int));
    }
    proof {
        lemma_bar_stress_ranks();
        assert(v@ =~= bar_stress_col_seq());
        assert forall|a: int, b: int| 0 <= a < b < v@.len() implies v@[a] != v@[b] by {
            assert(bar_stress_rank(all_bar_stress_field()[a]) == a);
            assert(bar_stress_rank(all_bar_stress_field()[b]) == b);
        }
    }
    col_map(&v)
}

/// The columns bar strain data is laid out in: each has its place in the
/// canonical list.
proof fn lemma_bar_strain_ranks()
    ensures
        all_bar_stress_field().len() == 15,
        forall|i: int| 0 <= i < 15 ==> #[trigger] bar_stress_rank(all_bar_stress_field()[i]) == i,
{
    assert forall|i: int| 0 <= i < 15 implies #[trigger] bar_stress_rank(all_bar_stress_field()[i]) == i by {
        if i == 0 {
        } else if i == 1 {
        } else if i == 2 {
        } else if i == 3 {
        } else if i == 4 {
        } else if i == 5 {
        } else if i == 6 {
        } else if i == 7 {
        } else if i == 8 {
        } else if i == 9 {
        } else if i == 10 {
        } else if i == 11 {
        } else if i == 12 {
        } else if i == 13 {
        } else if i == 14 {
        }
    }
}

/// The column indexes for bar strain data, in canonical order.
pub open spec fn bar_strain_col_seq() -> Seq<NasIndex> {
    all_bar_stress_field().map_values(|x: BarStressField| NasIndex::BarStrainField(BarStrainField(x)))
}

/// The column indexes for bar strain data, each at its place in
/// canonical order.
pub fn bar_strain_cols() -> (r: IndexMap)
    ensures
        positions_ok(r, 15),
        forall|i: int| 0 <= i < 15 ==> r@.contains_key(#[trigger] bar_strain_col_seq()[i]) && r@[bar_strain_col_seq()[i]] == i,
        forall|k: NasIndex| #[trigger] r@.contains_key(k) ==> bar_strain_col_seq().contains(k),
{
    let all = BarStressField::all();
    let mut v: Vec<NasIndex> = Vec::new();
    let mut i: usize = 0;
    while i < all.len()
        invariant
            all@ == all_bar_stress_field(),
            i <= all@.len(),
            v@ == bar_strain_col_seq().take(i as int),
        decreases all.len() - i,
    {
        let x = all[i];
        v.push(NasIndex::BarStrainField(BarStrainField(x)));
        i = i + 1;
        assert(v@ =~= bar_strain_col_seq().take(i as int));
    }
    proof {
        lemma_bar_strain_ranks();
        assert(v@ =~= bar_strain_col_seq());
        assert forall|a: int, b: int| 0 <= a < b < v@.len() implies v@[a] != v@[b] by {
            assert(bar_stress_rank(all_bar_stress_field()[a]) == a);
            assert(bar_stress_rank(all_bar_stress_field()[b]) == b);
        }
    }
    col_map(&v)
}

/// The columns single force data is laid out in: each has its place in the
/// canonical list.
proof fn lemma_single_force_ranks()
    ensures
        all_single_force().len() == 1,
        forall|i: int| 0 <= i < 1 ==> #[trigger] single_force_pos(all_single_force()[i]) as int == i,
{
    assert forall|i: int| 0 <= i < 1 implies #[trigger] single_force_pos(all_single_force()[i]) as int == i by {
        if i == 0 {
        }
    }
}

/// The column indexes for single force data, in canonical order.
pub open spec fn single_force_col_seq() -> Seq<NasIndex> {
    all_single_force().map_values(|x: SingleForce| NasIndex::SingleForce(x))
}

/// The column indexes for single force data, each at its place in
/// canonical order.
pub fn single_force_cols() -> (r: IndexMap)
    ensures
        positions_ok(r, 1),
        forall|i: int| 0 <= i < 1 ==> r@.contains_key(#[trigger] single_force_col_seq()[i]) && r@[single_force_col_seq()[i]] == i,
        forall|k: NasIndex| #[trigger] r@.contains_key(k) ==> single_force_col_seq().contains(k),
{
    let all = SingleForce::all();
    let mut v: Vec<NasIndex> = Vec::new();
    let mut i: usize = 0;
    while i < all.len()
        invariant
            all@ == all_single_force(),
            i <= all@.len(),
            v@ == single_force_col_seq().take(i as int),
        decreases all.len() - i,
    {
        let x = all[i];
        v.push(NasIndex::SingleForce(x));
        i = i + 1;
        assert(v@ =~= single_force_col_seq().take(i as int));
    }
    proof {
        lemma_single_force_ranks();
        assert(v@ =~= single_force_col_seq());
        assert forall|a: int, b: int| 0 <= a < b < v@.len() implies v@[a] != v@[b] by {
            assert(single_force_pos(all_single_force()[a]) as int == a);
            assert(single_force_pos(all_single_force()[b]) as int == b);
        }
    }
    col_map(&v)
}

/// The columns single stress data is laid out in: each has its place in the
/// canonical list.
proof fn lemma_single_stress_ranks()
    ensures
        all_single_stress().len() == 1,
        forall|i: int| 0 <= i < 1 ==> #[trigger] single_stress_pos(all_single_stress()[i]) as int == i,
{
    assert forall|i: int| 0 <= i < 1 implies #[trigger] single_stress_pos(all_single_stress()[i]) as int == i by {
        if i == 0 {
        }
    }
}

/// The column indexes for single stress data, in canonical order.
pub open spec fn single_stress_col_seq() -> Seq<NasIndex> {
    all_single_stress().map_values(|x: SingleStress| NasIndex::SingleStress(x))
}

/// The column indexes for single stress data, each at its place in
/// canonical order.
pub fn single_stress_cols() -> (r: IndexMap)
    ensures
        positions_ok(r, 1),
        forall|i: int| 0 <= i < 1 ==> r@.contains_key(#[trigger] single_stress_col_seq()[i]) && r@[single_stress_col_seq()[i]] == i,
        forall|k: NasIndex| #[trigger] r@.contains_key(k) ==> single_stress_col_seq().contains(k),
{
    let all = SingleStress::all();
    let mut v: Vec<NasIndex> = Vec::new();
    let mut i: usize = 0;
    while i < all.len()
        invariant
            all@ == all_single_stress(),
            i <= all@.len(),
            v@ == single_stress_col_seq().take(i as int),
        decreases all.len() - i,
    {
        let x = all[i];
        v.push(NasIndex::SingleStress(x));
        i = i + 1;
        assert(v@ =~= single_stress_col_seq().take(i as int));
    }
    proof {
        lemma_single_stress_ranks();
        assert(v@ =~= single_stress_col_seq());
        assert forall|a: int, b: int| 0 <= a < b < v@.len() implies v@[a] != v@[b] by {
            assert(single_stress_pos(all_single_stress()[a]) as int == a);
            assert(single_stress_pos(all_single_stress()[b]) as int == b);
        }
    }
    col_map(&v)
}

/// The columns single strain data is laid out in: each has its place in the
/// canonical list.
proof fn lemma_single_strain_ranks()
    ensures
        all_single_strain().len() == 1,
        forall|i: int| 0 <= i < 1 ==> #[trigger] single_strain_pos(all_single_strain()[i]) as int == i,
{
    assert forall|i: int| 0 <= i < 1 implies #[trigger] single_strain_pos(all_single_strain()[i]) as int == i by {
        if i == 0 {
        }
    }
}

/// The column indexes for single strain data, in canonical order.
pub open spec fn single_strain_col_seq() -> Seq<NasIndex> {
    all_single_strain().map_values(|x: SingleStrain| NasIndex::SingleStrain(x))
}

/// The column indexes for single strain data, each at its place in
/// canonical order.
pub fn single_strain_cols() -> (r: IndexMap)
    ensures
        positions_ok(r, 1),
        forall|i: int| 0 <= i < 1 ==> r@.contains_key(#[trigger] single_strain_col_seq()[i]) && r@[single_strain_col_seq()[i]] == i,
        forall|k: NasIndex| #[trigger] r@.contains_key(k) ==> single_strain_col_seq().contains(k),
{
    let all = SingleStrain::all();
    let mut v: Vec<NasIndex> = Vec::new();
    let mut i: usize = 0;
    while i < all.len()
        invariant
            all@ == all_single_strain(),
            i <= all@.len(),
            v@ == single_strain_col_seq().take(i as int),
        decreases all.len() - i,
    {
        let x = all[i];
        v.push(NasIndex::SingleStrain(x));
        i = i + 1;
        assert(v@ =~= single_strain_col_seq().take(i as int));
    }
    proof {
        lemma_single_strain_ranks();
        assert(v@ =~= single_strain_col_seq());
        assert forall|a: int, b: int| 0 <= a < b < v@.len() implies v@[a] != v@[b] by {
            assert(single_strain_pos(all_single_strain()[a]) as int == a);
            assert(single_strain_pos(all_single_strain()[b]) as int == b);
        }
    }
    col_map(&v)
}

} // verus!
