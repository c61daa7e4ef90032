//! The index types used to address values in an output block: grid
//! points, elements, points within elements, and the column fields of the
//! various tables.

use vstd::prelude::*;

use crate::elements::ElementType;
use crate::geometry::Dof;

verus! {

/// A grid point, referenced by its ID.
#[derive(Copy, Clone, Debug, PartialEq, Eq, Structural)]
pub struct GridPointRef {
    /// The ID of the grid point.
    pub gid: usize,
}

/// An element, referenced by its ID.
#[derive(Copy, Clone, Debug, PartialEq, Eq, Structural)]
pub struct ElementRef {
    /// The ID of the element.
    pub eid: usize,
    /// The type of element, if known.
    pub etype: Option<ElementType>,
}

impl ElementRef {
    /// An element reference with an unknown type.
    pub fn from_id(eid: usize) -> (r: ElementRef)
        ensures
            r == (ElementRef { eid, etype: None }),
    {
        ElementRef { eid, etype: None }
    }
}

/// A coordinate system, referenced by its ID.
#[derive(Copy, Clone, Debug, PartialEq, Eq, Structural)]
pub struct CsysRef {
    /// The ID of the coordinate system.
    pub cid: usize,
}

/// A grid point within a coordinate system, by their IDs.
#[derive(Copy, Clone, Debug, PartialEq, Eq, Structural)]
pub struct GridInCsys {
    /// The ID of the grid point.
    pub gid: usize,
    /// The ID of the coordinate system.
    pub cid: usize,
}

/// The possible origins for a force.
#[derive(Copy, Clone, Debug, PartialEq, Eq, Structural)]
pub enum ForceOrigin {
    /// The force was applied by a load.
    Load,
    /// The force was applied by another element.
    Element {
        /// A reference to the element.
        elem: ElementRef,
    },
    /// The force was applied by a single-point constraint.
    SinglePointConstraint,
    /// The force was applied by a multi-point constraint.
    MultiPointConstraint,
}

/// A combination of a grid point reference and a force origin.
#[derive(Copy, Clone, Debug, PartialEq, Eq, Structural)]
pub struct GridPointForceOrigin {
    /// A reference to the grid point.
    pub grid_point: GridPointRef,
    /// The origin of the force.
    pub force_origin: ForceOrigin,
}

/// A point within an element.
#[derive(Copy, Clone, Debug, PartialEq, Eq, Structural)]
pub enum ElementPoint {
    /// The element's center.
    Centroid,
    /// A corner point.
    Corner(GridPointRef),
    /// A midpoint.
    Midpoint(GridPointRef),
    /// Anywhere in the element.
    Anywhere,
}

/// An element side.
#[derive(Copy, Clone, Debug, PartialEq, Eq, Structural)]
pub enum ElementSide {
    /// The bottom (Z1) side of the element.
    Bottom,
    /// The top (Z2) side of the element.
    Top,
}

/// The opposite of an element side.
pub open spec fn opposite_side(s: ElementSide) -> ElementSide {
    match s {
        ElementSide::Bottom => ElementSide::Top,
        ElementSide::Top => ElementSide::Bottom,
    }
}

impl ElementSide {
    /// Returns the opposite side.
    pub fn opposite(&self) -> (r: ElementSide)
        ensures
            r == opposite_side(*self),
    {
        match self {
            ElementSide::Bottom => ElementSide::Top,
            ElementSide::Top => ElementSide::Bottom,
        }
    }
}

/// An element and a point within it.
#[derive(Copy, Clone, Debug, PartialEq, Eq, Structural)]
pub struct PointInElement {
    /// A reference to the element.
    pub element: ElementRef,
    /// The point within the element.
    pub point: ElementPoint,
}

/// An element and a point within it, plus a side.
#[derive(Copy, Clone, Debug, PartialEq, Eq, Structural)]
pub struct ElementSidedPoint {
    /// A reference to the element.
    pub element: ElementRef,
    /// The point within the element.
    pub point: ElementPoint,
    /// The side.
    pub side: ElementSide,
}

impl ElementSidedPoint {
    /// Flips the side of this element point.
    pub fn flip_side(&mut self)
        ensures
            final(self).side == opposite_side(old(self).side),
            final(self).element == old(self).element,
            final(self).point == old(self).point,
    {
        self.side = self.side.opposite();
    }
}

/// Taking the opposite side twice gives the side back, and the opposite
/// side always differs.
pub proof fn law_opposite_side_involution(s: ElementSide)
    ensures
        opposite_side(opposite_side(s)) == s,
        opposite_side(s) != s,
{
}

/// The columns for the stresses table for plate elements.
#[derive(Copy, Clone, Debug, PartialEq, Eq, Structural)]
pub enum PlateStressField {
    /// The "FIBRE DISTANCE" field.
    FibreDistance,
    /// The "NORMAL-X" field.
    NormalX,
    /// The "NORMAL-Y" field.
    NormalY,
    /// The "SHEAR-XY" field.
    ShearXY,
    /// The "ANGLE" field.
    Angle,
    /// The "MAJOR" field.
    Major,
    /// The "MINOR" field.
    Minor,
    /// The "VON MISES" field.
    VonMises,
}

/// The short upper-case name of a `PlateStressField`.
pub open spec fn plate_stress_field_name(x: PlateStressField) -> Seq<char> {
    match x {
        PlateStressField::FibreDistance => "FIBRE DISTANCE"@,
        PlateStressField::NormalX => "NORMAL-X"@,
        PlateStressField::NormalY => "NORMAL-Y"@,
        PlateStressField::ShearXY => "SHEAR-XY"@,
        PlateStressField::Angle => "ANGLE"@,
        PlateStressField::Major => "MAJOR"@,
        PlateStressField::Minor => "MINOR"@,
        PlateStressField::VonMises => "VON MISES"@,
    }
}

/// The position of a `PlateStressField` in canonical order.
pub open spec fn plate_stress_field_pos(x: PlateStressField) -> nat {
    match x {
        PlateStressField::FibreDistance => 0,
        PlateStressField::NormalX => 1,
        PlateStressField::NormalY => 2,
        PlateStressField::ShearXY => 3,
        PlateStressField::Angle => 4,
        PlateStressField::Major => 5,
        PlateStressField::Minor => 6,
        PlateStressField::VonMises => 7,
    }
}

/// All the variants of `PlateStressField`, in canonical order.
pub open spec fn all_plate_stress_field() -> Seq<PlateStressField> {
    seq![PlateStressField::FibreDistance, PlateStressField::NormalX, PlateStressField::NormalY, PlateStressField::ShearXY, PlateStressField::Angle, PlateStressField::Major, PlateStressField::Minor, PlateStressField::VonMises]
}

impl PlateStressField {
    /// Returns a short, uppercase name for this index variant.
    pub fn name(&self) -> (r: &'static str)
        ensures
            r@ == plate_stress_field_name(*self),
    {
        match self {
            PlateStressField::FibreDistance => "FIBRE DISTANCE",
            PlateStressField::NormalX => "NORMAL-X",
            PlateStressField::NormalY => "NORMAL-Y",
            PlateStressField::ShearXY => "SHEAR-XY",
            PlateStressField::Angle => "ANGLE",
            PlateStressField::Major => "MAJOR",
            PlateStressField::Minor => "MINOR",
            PlateStressField::VonMises => "VON MISES",
        }
    }

    /// Returns the position of this variant in canonical order.
    pub fn position(&self) -> (r: usize)
        ensures
            r == plate_stress_field_pos(*self),
    {
        match self {
            PlateStressField::FibreDistance => 0,
            PlateStressField::NormalX => 1,
            PlateStressField::NormalY => 2,
            PlateStressField::ShearXY => 3,
            PlateStressField::Angle => 4,
            PlateStressField::Major => 5,
            PlateStressField::Minor => 6,
            PlateStressField::VonMises => 7,
        }
    }

    /// Returns all the variants of this index, in canonical order.
    pub fn all() -> (r: &'static [PlateStressField])
        ensures
            r@ == all_plate_stress_field(),
    {
        let r: &'static [PlateStressField] = &[PlateStressField::FibreDistance, PlateStressField::NormalX, PlateStressField::NormalY, PlateStressField::ShearXY, PlateStressField::Angle, PlateStressField::Major, PlateStressField::Minor, PlateStressField::VonMises];
        assert(r@ =~= all_plate_stress_field());
        r
    }

    /// Returns each variant with its position in canonical order, for use as
    /// the column indexes of a decoder.
    pub fn canonical_cols() -> (r: Vec<(PlateStressField, usize)>)
        ensures
            r@.len() == all_plate_stress_field().len(),
            forall|i: int| 0 <= i < r@.len() ==> (#[trigger] r@[i]) == (all_plate_stress_field()[i], i as usize),
    {
        let all = PlateStressField::all();
        let mut r: Vec<(PlateStressField, usize)> = Vec::new();
        let mut i: usize = 0;
        while i < all.len()
            invariant
                all@ == all_plate_stress_field(),
                i <= all.len(),
                r@.len() == i,
                forall|k: int| 0 <= k < i ==> (#[trigger] r@[k]) == (all_plate_stress_field()[k], k as usize),
            decreases all.len() - i,
        {
            r.push((all[i], i));
            i = i + 1;
        }
        r
    }
}

/// The variants of `PlateStressField` are listed in canonical order, each at its
/// position.
pub proof fn lemma_plate_stress_field_positions(x: PlateStressField)
    ensures
        plate_stress_field_pos(x) < all_plate_stress_field().len(),
        all_plate_stress_field()[plate_stress_field_pos(x) as int] == x,
{
}

/// The columns for the engineering forces table for a plate element.
#[derive(Copy, Clone, Debug, PartialEq, Eq, Structural)]
pub enum PlateForceField {
    /// The "Nx" field.
    NormalX,
    /// The "Ny" field.
    NormalY,
    /// The "Nxy" field.
    NormalXY,
    /// The "Mx" field.
    MomentX,
    /// The "My" field.
    MomentY,
    /// The "Mxy" field.
    MomentXY,
    /// The "Qx" field.
    TransverseShearX,
    /// The "Qy" field.
    TransverseShearY,
}

/// The short upper-case name of a `PlateForceField`.
pub open spec fn plate_force_field_name(x: PlateForceField) -> Seq<char> {
    match x {
        PlateForceField::NormalX => "Nx"@,
        PlateForceField::NormalY => "Ny"@,
        PlateForceField::NormalXY => "Nxy"@,
        PlateForceField::MomentX => "Mx"@,
        PlateForceField::MomentY => "My"@,
        PlateForceField::MomentXY => "Mxy"@,
        PlateForceField::TransverseShearX => "Qx"@,
        PlateForceField::TransverseShearY => "Qy"@,
    }
}

/// The position of a `PlateForceField` in canonical order.
pub open spec fn plate_force_field_pos(x: PlateForceField) -> nat {
    match x {
        PlateForceField::NormalX => 0,
        PlateForceField::NormalY => 1,
        PlateForceField::NormalXY => 2,
        PlateForceField::MomentX => 3,
        PlateForceField::MomentY => 4,
        PlateForceField::MomentXY => 5,
        PlateForceField::TransverseShearX => 6,
        PlateForceField::TransverseShearY => 7,
    }
}

/// All the variants of `PlateForceField`, in canonical order.
pub open spec fn all_plate_force_field() -> Seq<PlateForceField> {
    seq![PlateForceField::NormalX, PlateForceField::NormalY, PlateForceField::NormalXY, PlateForceField::MomentX, PlateForceField::MomentY, PlateForceField::MomentXY, PlateForceField::TransverseShearX, PlateForceField::TransverseShearY]
}

impl PlateForceField {
    /// Returns a short, uppercase name for this index variant.
    pub fn name(&self) -> (r: &'static str)
        ensures
            r@ == plate_force_field_name(*self),
    {
        match self {
            PlateForceField::NormalX => "Nx",
            PlateForceField::NormalY => "Ny",
            PlateForceField::NormalXY => "Nxy",
            PlateForceField::MomentX => "Mx",
            PlateForceField::MomentY => "My",
            PlateForceField::MomentXY => "Mxy",
            PlateForceField::TransverseShearX => "Qx",
            PlateForceField::TransverseShearY => "Qy",
        }
    }

    /// Returns the position of this variant in canonical order.
    pub fn position(&self) -> (r: usize)
        ensures
            r == plate_force_field_pos(*self),
    {
        match self {
            PlateForceField::NormalX => 0,
            PlateForceField::NormalY => 1,
            PlateForceField::NormalXY => 2,
            PlateForceField::MomentX => 3,
            PlateForceField::MomentY => 4,
            PlateForceField::MomentXY => 5,
            PlateForceField::TransverseShearX => 6,
            PlateForceField::TransverseShearY => 7,
        }
    }

    /// Returns all the variants of this index, in canonical order.
    pub fn all() -> (r: &'static [PlateForceField])
        ensures
            r@ == all_plate_force_field(),
    {
        let r: &'static [PlateForceField] = &[PlateForceField::NormalX, PlateForceField::NormalY, PlateForceField::NormalXY, PlateForceField::MomentX, PlateForceField::MomentY, PlateForceField::MomentXY, PlateForceField::TransverseShearX, PlateForceField::TransverseShearY];
        assert(r@ =~= all_plate_force_field());
        r
    }

    /// Returns each variant with its position in canonical order, for use as
    /// the column indexes of a decoder.
    pub fn canonical_cols() -> (r: Vec<(PlateForceField, usize)>)
        ensures
            r@.len() == all_plate_force_field().len(),
            forall|i: int| 0 <= i < r@.len() ==> (#[trigger] r@[i]) == (all_plate_force_field()[i], i as usize),
    {
        let all = PlateForceField::all();
        let mut r: Vec<(PlateForceField, usize)> = Vec::new();
        let mut i: usize = 0;
        while i < all.len()
            invariant
                all@ == all_plate_force_field(),
                i <= all.len(),
                r@.len() == i,
                forall|k: int| 0 <= k < i ==> (#[trigger] r@[k]) == (all_plate_force_field()[k], k as usize),
            decreases all.len() - i,
        {
            r.push((all[i], i));
            i = i + 1;
        }
        r
    }
}

/// The variants of `PlateForceField` are listed in canonical order, each at its
/// position.
pub proof fn lemma_plate_force_field_positions(x: PlateForceField)
    ensures
        plate_force_field_pos(x) < all_plate_force_field().len(),
        all_plate_force_field()[plate_force_field_pos(x) as int] == x,
{
}

/// Engineering forces for ROD elements.
#[derive(Copy, Clone, Debug, PartialEq, Eq, Structural)]
pub enum RodForceField {
    /// The "AXIAL FORCE" field.
    AxialForce,
    /// The "TORQUE" field.
    Torque,
}

/// The short upper-case name of a `RodForceField`.
pub open spec fn rod_force_field_name(x: RodForceField) -> Seq<char> {
    match x {
        RodForceField::AxialForce => "AXIAL FORCE"@,
        RodForceField::Torque => "TORQUE"@,
    }
}

/// The position of a `RodForceField` in canonical order.
pub open spec fn rod_force_field_pos(x: RodForceField) -> nat {
    match x {
        RodForceField::AxialForce => 0,
        RodForceField::Torque => 1,
    }
}

/// All the variants of `RodForceField`, in canonical order.
pub open spec fn all_rod_force_field() -> Seq<RodForceField> {
    seq![RodForceField::AxialForce, RodForceField::Torque]
}

impl RodForceField {
    /// Returns a short, uppercase name for this index variant.
    pub fn name(&self) -> (r: &'static str)
        ensures
            r@ == rod_force_field_name(*self),
    {
        match self {
            RodForceField::AxialForce => "AXIAL FORCE",
            RodForceField::Torque => "TORQUE",
        }
    }

    /// Returns the position of this variant in canonical order.
    pub fn position(&self) -> (r: usize)
        ensures
            r == rod_force_field_pos(*self),
    {
        match self {
            RodForceField::AxialForce => 0,
            RodForceField::Torque => 1,
        }
    }

    /// Returns all the variants of this index, in canonical order.
    pub fn all() -> (r: &'static [RodForceField])
        ensures
            r@ == all_rod_force_field(),
    {
        let r: &'static [RodForceField] = &[RodForceField::AxialForce, RodForceField::Torque];
        assert(r@ =~= all_rod_force_field());
        r
    }

    /// Returns each variant with its position in canonical order, for use as
    /// the column indexes of a decoder.
    pub fn canonical_cols() -> (r: Vec<(RodForceField, usize)>)
        ensures
            r@.len() == all_rod_force_field().len(),
            forall|i: int| 0 <= i < r@.len() ==> (#[trigger] r@[i]) == (all_rod_force_field()[i], i as usize),
    {
        let all = RodForceField::all();
        let mut r: Vec<(RodForceField, usize)> = Vec::new();
        let mut i: usize = 0;
        while i < all.len()
            invariant
                all@ == all_rod_force_field(),
                i <= all.len(),
                r@.len() == i,
                forall|k: int| 0 <= k < i ==> (#[trigger] r@[k]) == (all_rod_force_field()[k], k as usize),
            decreases all.len() - i,
        {
            r.push((all[i], i));
            i = i + 1;
        }
        r
    }
}

/// The variants of `RodForceField` are listed in canonical order, each at its
/// position.
pub proof fn lemma_rod_force_field_positions(x: RodForceField)
    ensures
        rod_force_field_pos(x) < all_rod_force_field().len(),
        all_rod_force_field()[rod_force_field_pos(x) as int] == x,
{
}

/// An end of a BAR element.
#[derive(Copy, Clone, Debug, PartialEq, Eq, Structural)]
pub enum BarEnd {
    /// The "END-A" field.
    EndA,
    /// The "END-B" field.
    EndB,
}

/// The short upper-case name of a `BarEnd`.
pub open spec fn bar_end_name(x: BarEnd) -> Seq<char> {
    match x {
        BarEnd::EndA => "END-A"@,
        BarEnd::EndB => "END-B"@,
    }
}

/// The position of a `BarEnd` in canonical order.
pub open spec fn bar_end_pos(x: BarEnd) -> nat {
    match x {
        BarEnd::EndA => 0,
        BarEnd::EndB => 1,
    }
}

/// All the variants of `BarEnd`, in canonical order.
pub open spec fn all_bar_end() -> Seq<BarEnd> {
    seq![BarEnd::EndA, BarEnd::EndB]
}

impl BarEnd {
    /// Returns a short, uppercase name for this index variant.
    pub fn name(&self) -> (r: &'static str)
        ensures
            r@ == bar_end_name(*self),
    {
        match self {
            BarEnd::EndA => "END-A",
            BarEnd::EndB => "END-B",
        }
    }

    /// Returns the position of this variant in canonical order.
    pub fn position(&self) -> (r: usize)
        ensures
            r == bar_end_pos(*self),
    {
        match self {
            BarEnd::EndA => 0,
            BarEnd::EndB => 1,
        }
    }

    /// Returns all the variants of this index, in canonical order.
    pub fn all() -> (r: &'static [BarEnd])
        ensures
            r@ == all_bar_end(),
    {
        let r: &'static [BarEnd] = &[BarEnd::EndA, BarEnd::EndB];
        assert(r@ =~= all_bar_end());
        r
    }

    /// Returns each variant with its position in canonical order, for use as
    /// the column indexes of a decoder.
    pub fn canonical_cols() -> (r: Vec<(BarEnd, usize)>)
        ensures
            r@.len() == all_bar_end().len(),
            forall|i: int| 0 <= i < r@.len() ==> (#[trigger] r@[i]) == (all_bar_end()[i], i as usize),
    {
        let all = BarEnd::all();
        let mut r: Vec<(BarEnd, usize)> = Vec::new();
        let mut i: usize = 0;
        while i < all.len()
            invariant
                all@ == all_bar_end(),
                i <= all.len(),
                r@.len() == i,
                forall|k: int| 0 <= k < i ==> (#[trigger] r@[k]) == (all_bar_end()[k], k as usize),
            decreases all.len() - i,
        {
            r.push((all[i], i));
            i = i + 1;
        }
        r
    }
}

/// The variants of `BarEnd` are listed in canonical order, each at its
/// position.
pub proof fn lemma_bar_end_positions(x: BarEnd)
    ensures
        bar_end_pos(x) < all_bar_end().len(),
        all_bar_end()[bar_end_pos(x) as int] == x,
{
}

/// A plane of a BAR element.
#[derive(Copy, Clone, Debug, PartialEq, Eq, Structural)]
pub enum BarPlane {
    /// The "PLANE 1" field.
    Plane1,
    /// The "PLANE 2" field.
    Plane2,
}

/// The short upper-case name of a `BarPlane`.
pub open spec fn bar_plane_name(x: BarPlane) -> Seq<char> {
    match x {
        BarPlane::Plane1 => "PLANE 1"@,
        BarPlane::Plane2 => "PLANE 2"@,
    }
}

/// The position of a `BarPlane` in canonical order.
pub open spec fn bar_plane_pos(x: BarPlane) -> nat {
    match x {
        BarPlane::Plane1 => 0,
        BarPlane::Plane2 => 1,
    }
}

/// All the variants of `BarPlane`, in canonical order.
pub open spec fn all_bar_plane() -> Seq<BarPlane> {
    seq![BarPlane::Plane1, BarPlane::Plane2]
}

impl BarPlane {
    /// Returns a short, uppercase name for this index variant.
    pub fn name(&self) -> (r: &'static str)
        ensures
            r@ == bar_plane_name(*self),
    {
        match self {
            BarPlane::Plane1 => "PLANE 1",
            BarPlane::Plane2 => "PLANE 2",
        }
    }

    /// Returns the position of this variant in canonical order.
    pub fn position(&self) -> (r: usize)
        ensures
            r == bar_plane_pos(*self),
    {
        match self {
            BarPlane::Plane1 => 0,
            BarPlane::Plane2 => 1,
        }
    }

    /// Returns all the variants of this index, in canonical order.
    pub fn all() -> (r: &'static [BarPlane])
        ensures
            r@ == all_bar_plane(),
    {
        let r: &'static [BarPlane] = &[BarPlane::Plane1, BarPlane::Plane2];
        assert(r@ =~= all_bar_plane());
        r
    }

    /// Returns each variant with its position in canonical order, for use as
    /// the column indexes of a decoder.
    pub fn canonical_cols() -> (r: Vec<(BarPlane, usize)>)
        ensures
            r@.len() == all_bar_plane().len(),
            forall|i: int| 0 <= i < r@.len() ==> (#[trigger] r@[i]) == (all_bar_plane()[i], i as usize),
    {
        let all = BarPlane::all();
        let mut r: Vec<(BarPlane, usize)> = Vec::new();
        let mut i: usize = 0;
        while i < all.len()
            invariant
                all@ == all_bar_plane(),
                i <= all.len(),
                r@.len() == i,
                forall|k: int| 0 <= k < i ==> (#[trigger] r@[k]) == (all_bar_plane()[k], k as usize),
            decreases all.len() - i,
        {
            r.push((all[i], i));
            i = i + 1;
        }
        r
    }
}

/// The variants of `BarPlane` are listed in canonical order, each at its
/// position.
pub proof fn lemma_bar_plane_positions(x: BarPlane)
    ensures
        bar_plane_pos(x) < all_bar_plane().len(),
        all_bar_plane()[bar_plane_pos(x) as int] == x,
{
}

/// Generic single-force field.
#[derive(Copy, Clone, Debug, PartialEq, Eq, Structural)]
pub enum SingleForce {
    /// The "FORCE" field.
    Force,
}

/// The short upper-case name of a `SingleForce`.
pub open spec fn single_force_name(x: SingleForce) -> Seq<char> {
    match x {
        SingleForce::Force => "FORCE"@,
    }
}

/// The position of a `SingleForce` in canonical order.
pub open spec fn single_force_pos(x: SingleForce) -> nat {
    match x {
        SingleForce::Force => 0,
    }
}

/// All the variants of `SingleForce`, in canonical order.
pub open spec fn all_single_force() -> Seq<SingleForce> {
    seq![SingleForce::Force]
}

impl SingleForce {
    /// Returns a short, uppercase name for this index variant.
    pub fn name(&self) -> (r: &'static str)
        ensures
            r@ == single_force_name(*self),
    {
        match self {
            SingleForce::Force => "FORCE",
        }
    }

    /// Returns the position of this variant in canonical order.
    pub fn position(&self) -> (r: usize)
        ensures
            r == single_force_pos(*self),
    {
        match self {
            SingleForce::Force => 0,
        }
    }

    /// Returns all the variants of this index, in canonical order.
    pub fn all() -> (r: &'static [SingleForce])
        ensures
            r@ == all_single_force(),
    {
        let r: &'static [SingleForce] = &[SingleForce::Force];
        assert(r@ =~= all_single_force());
        r
    }

    /// Returns each variant with its position in canonical order, for use as
    /// the column indexes of a decoder.
    pub fn canonical_cols() -> (r: Vec<(SingleForce, usize)>)
        ensures
            r@.len() == all_single_force().len(),
            forall|i: int| 0 <= i < r@.len() ==> (#[trigger] r@[i]) == (all_single_force()[i], i as usize),
    {
        let all = SingleForce::all();
        let mut r: Vec<(SingleForce, usize)> = Vec::new();
        let mut i: usize = 0;
        while i < all.len()
            invariant
                all@ == all_single_force(),
                i <= all.len(),
                r@.len() == i,
                forall|k: int| 0 <= k < i ==> (#[trigger] r@[k]) == (all_single_force()[k], k as usize),
            decreases all.len() - i,
        {
            r.push((all[i], i));
            i = i + 1;
        }
        r
    }
}

/// The variants of `SingleForce` are listed in canonical order, each at its
/// position.
pub proof fn lemma_single_force_positions(x: SingleForce)
    ensures
        single_force_pos(x) < all_single_force().len(),
        all_single_force()[single_force_pos(x) as int] == x,
{
}

/// Generic single-stress field.
#[derive(Copy, Clone, Debug, PartialEq, Eq, Structural)]
pub enum SingleStress {
    /// The "STRESS" field.
    Stress,
}

/// The short upper-case name of a `SingleStress`.
pub open spec fn single_stress_name(x: SingleStress) -> Seq<char> {
    match x {
        SingleStress::Stress => "STRESS"@,
    }
}

/// The position of a `SingleStress` in canonical order.
pub open spec fn single_stress_pos(x: SingleStress) -> nat {
    match x {
        SingleStress::Stress => 0,
    }
}

/// All the variants of `SingleStress`, in canonical order.
pub open spec fn all_single_stress() -> Seq<SingleStress> {
    seq![SingleStress::Stress]
}

impl SingleStress {
    /// Returns a short, uppercase name for this index variant.
    pub fn name(&self) -> (r: &'static str)
        ensures
            r@ == single_stress_name(*self),
    {
        match self {
            SingleStress::Stress => "STRESS",
        }
    }

    /// Returns the position of this variant in canonical order.
    pub fn position(&self) -> (r: usize)
        ensures
            r == single_stress_pos(*self),
    {
        match self {
            SingleStress::Stress => 0,
        }
    }

    /// Returns all the variants of this index, in canonical order.
    pub fn all() -> (r: &'static [SingleStress])
        ensures
            r@ == all_single_stress(),
    {
        let r: &'static [SingleStress] = &[SingleStress::Stress];
        assert(r@ =~= all_single_stress());
        r
    }

    /// Returns each variant with its position in canonical order, for use as
    /// the column indexes of a decoder.
    pub fn canonical_cols() -> (r: Vec<(SingleStress, usize)>)
        ensures
            r@.len() == all_single_stress().len(),
            forall|i: int| 0 <= i < r@.len() ==> (#[trigger] r@[i]) == (all_single_stress()[i], i as usize),
    {
        let all = SingleStress::all();
        let mut r: Vec<(SingleStress, usize)> = Vec::new();
        let mut i: usize = 0;
        while i < all.len()
            invariant
                all@ == all_single_stress(),
                i <= all.len(),
                r@.len() == i,
                forall|k: int| 0 <= k < i ==> (#[trigger] r@[k]) == (all_single_stress()[k], k as usize),
            decreases all.len() - i,
        {
            r.push((all[i], i));
            i = i + 1;
        }
        r
    }
}

/// The variants of `SingleStress` are listed in canonical order, each at its
/// position.
pub proof fn lemma_single_stress_positions(x: SingleStress)
    ensures
        single_stress_pos(x) < all_single_stress().len(),
        all_single_stress()[single_stress_pos(x) as int] == x,
{
}

/// Generic single-strain field.
#[derive(Copy, Clone, Debug, PartialEq, Eq, Structural)]
pub enum SingleStrain {
    /// The "STRAIN" field.
    Strain,
}

/// The short upper-case name of a `SingleStrain`.
pub open spec fn single_strain_name(x: SingleStrain) -> Seq<char> {
    match x {
        SingleStrain::Strain => "STRAIN"@,
    }
}

/// The position of a `SingleStrain` in canonical order.
pub open spec fn single_strain_pos(x: SingleStrain) -> nat {
    match x {
        SingleStrain::Strain => 0,
    }
}

/// All the variants of `SingleStrain`, in canonical order.
pub open spec fn all_single_strain() -> Seq<SingleStrain> {
    seq![SingleStrain::Strain]
}

impl SingleStrain {
    /// Returns a short, uppercase name for this index variant.
    pub fn name(&self) -> (r: &'static str)
        ensures
            r@ == single_strain_name(*self),
    {
        match self {
            SingleStrain::Strain => "STRAIN",
        }
    }

    /// Returns the position of this variant in canonical order.
    pub fn position(&self) -> (r: usize)
        ensures
            r == single_strain_pos(*self),
    {
        match self {
            SingleStrain::Strain => 0,
        }
    }

    /// Returns all the variants of this index, in canonical order.
    pub fn all() -> (r: &'static [SingleStrain])
        ensures
            r@ == all_single_strain(),
    {
        let r: &'static [SingleStrain] = &[SingleStrain::Strain];
        assert(r@ =~= all_single_strain());
        r
    }

    /// Returns each variant with its position in canonical order, for use as
    /// the column indexes of a decoder.
    pub fn canonical_cols() -> (r: Vec<(SingleStrain, usize)>)
        ensures
            r@.len() == all_single_strain().len(),
            forall|i: int| 0 <= i < r@.len() ==> (#[trigger] r@[i]) == (all_single_strain()[i], i as usize),
    {
        let all = SingleStrain::all();
        let mut r: Vec<(SingleStrain, usize)> = Vec::new();
        let mut i: usize = 0;
        while i < all.len()
            invariant
                all@ == all_single_strain(),
                i <= all.len(),
                r@.len() == i,
                forall|k: int| 0 <= k < i ==> (#[trigger] r@[k]) == (all_single_strain()[k], k as usize),
            decreases all.len() - i,
        {
            r.push((all[i], i));
            i = i + 1;
        }
        r
    }
}

/// The variants of `SingleStrain` are listed in canonical order, each at its
/// position.
pub proof fn lemma_single_strain_positions(x: SingleStrain)
    ensures
        single_strain_pos(x) < all_single_strain().len(),
        all_single_strain()[single_strain_pos(x) as int] == x,
{
}

/// Rod element stress field.
#[derive(Copy, Clone, Debug, PartialEq, Eq, Structural)]
pub enum RodStressField {
    /// The "AXIAL" field.
    Axial,
    /// The "AXIAL SAFETY MARGIN" field.
    AxialSafetyMargin,
    /// The "TORSIONAL" field.
    Torsional,
    /// The "TORSIONAL SAFETY MARGIN" field.
    TorsionalSafetyMargin,
}

/// The short upper-case name of a `RodStressField`.
pub open spec fn rod_stress_field_name(x: RodStressField) -> Seq<char> {
    match x {
        RodStressField::Axial => "AXIAL"@,
        RodStressField::AxialSafetyMargin => "AXIAL SAFETY MARGIN"@,
        RodStressField::Torsional => "TORSIONAL"@,
        RodStressField::TorsionalSafetyMargin => "TORSIONAL SAFETY MARGIN"@,
    }
}

/// The position of a `RodStressField` in canonical order.
pub open spec fn rod_stress_field_pos(x: RodStressField) -> nat {
    match x {
        RodStressField::Axial => 0,
        RodStressField::AxialSafetyMargin => 1,
        RodStressField::Torsional => 2,
        RodStressField::TorsionalSafetyMargin => 3,
    }
}

/// All the variants of `RodStressField`, in canonical order.
pub open spec fn all_rod_stress_field() -> Seq<RodStressField> {
    seq![RodStressField::Axial, RodStressField::AxialSafetyMargin, RodStressField::Torsional, RodStressField::TorsionalSafetyMargin]
}

impl RodStressField {
    /// Returns a short, uppercase name for this index variant.
    pub fn name(&self) -> (r: &'static str)
        ensures
            r@ == rod_stress_field_name(*self),
    {
        match self {
            RodStressField::Axial => "AXIAL",
            RodStressField::AxialSafetyMargin => "AXIAL SAFETY MARGIN",
            RodStressField::Torsional => "TORSIONAL",
            RodStressField::TorsionalSafetyMargin => "TORSIONAL SAFETY MARGIN",
        }
    }

    /// Returns the position of this variant in canonical order.
    pub fn position(&self) -> (r: usize)
        ensures
            r == rod_stress_field_pos(*self),
    {
        match self {
            RodStressField::Axial => 0,
            RodStressField::AxialSafetyMargin => 1,
            RodStressField::Torsional => 2,
            RodStressField::TorsionalSafetyMargin => 3,
        }
    }

    /// Returns all the variants of this index, in canonical order.
    pub fn all() -> (r: &'static [RodStressField])
        ensures
            r@ == all_rod_stress_field(),
    {
        let r: &'static [RodStressField] = &[RodStressField::Axial, RodStressField::AxialSafetyMargin, RodStressField::Torsional, RodStressField::TorsionalSafetyMargin];
        assert(r@ =~= all_rod_stress_field());
        r
    }

    /// Returns each variant with its position in canonical order, for use as
    /// the column indexes of a decoder.
    pub fn canonical_cols() -> (r: Vec<(RodStressField, usize)>)
        ensures
            r@.len() == all_rod_stress_field().len(),
            forall|i: int| 0 <= i < r@.len() ==> (#[trigger] r@[i]) == (all_rod_stress_field()[i], i as usize),
    {
        let all = RodStressField::all();
        let mut r: Vec<(RodStressField, usize)> = Vec::new();
        let mut i: usize = 0;
        while i < all.len()
            invariant
                all@ == all_rod_stress_field(),
                i <= all.len(),
                r@.len() == i,
                forall|k: int| 0 <= k < i ==> (#[trigger] r@[k]) == (all_rod_stress_field()[k], k as usize),
            decreases all.len() - i,
        {
            r.push((all[i], i));
            i = i + 1;
        }
        r
    }
}

/// The variants of `RodStressField` are listed in canonical order, each at its
/// position.
pub proof fn lemma_rod_stress_field_positions(x: RodStressField)
    ensures
        rod_stress_field_pos(x) < all_rod_stress_field().len(),
        all_rod_stress_field()[rod_stress_field_pos(x) as int] == x,
{
}

/// Field values for real eigenvalues.
#[derive(Copy, Clone, Debug, PartialEq, Eq, Structural)]
pub enum RealEigenvalueField {
    /// The "EIGENVALUE" field.
    Eigenvalue,
    /// The "RADIANS" field.
    Radians,
    /// The "CYCLES" field.
    Cycles,
    /// The "GENERALIZED MASS" field.
    GeneralizedMass,
    /// The "GENERALIZED STIFFNESS" field.
    GeneralizedStiffness,
}

/// The short upper-case name of a `RealEigenvalueField`.
pub open spec fn real_eigenvalue_field_name(x: RealEigenvalueField) -> Seq<char> {
    match x {
        RealEigenvalueField::Eigenvalue => "EIGENVALUE"@,
        RealEigenvalueField::Radians => "RADIANS"@,
        RealEigenvalueField::Cycles => "CYCLES"@,
        RealEigenvalueField::GeneralizedMass => "GENERALIZED MASS"@,
        RealEigenvalueField::GeneralizedStiffness => "GENERALIZED STIFFNESS"@,
    }
}

/// The position of a `RealEigenvalueField` in canonical order.
pub open spec fn real_eigenvalue_field_pos(x: RealEigenvalueField) -> nat {
    match x {
        RealEigenvalueField::Eigenvalue => 0,
        RealEigenvalueField::Radians => 1,
        RealEigenvalueField::Cycles => 2,
        RealEigenvalueField::GeneralizedMass => 3,
        RealEigenvalueField::GeneralizedStiffness => 4,
    }
}

/// All the variants of `RealEigenvalueField`, in canonical order.
pub open spec fn all_real_eigenvalue_field() -> Seq<RealEigenvalueField> {
    seq![RealEigenvalueField::Eigenvalue, RealEigenvalueField::Radians, RealEigenvalueField::Cycles, RealEigenvalueField::GeneralizedMass, RealEigenvalueField::GeneralizedStiffness]
}

impl RealEigenvalueField {
    /// Returns a short, uppercase name for this index variant.
    pub fn name(&self) -> (r: &'static str)
        ensures
            r@ == real_eigenvalue_field_name(*self),
    {
        match self {
            RealEigenvalueField::Eigenvalue => "EIGENVALUE",
            RealEigenvalueField::Radians => "RADIANS",
            RealEigenvalueField::Cycles => "CYCLES",
            RealEigenvalueField::GeneralizedMass => "GENERALIZED MASS",
            RealEigenvalueField::GeneralizedStiffness => "GENERALIZED STIFFNESS",
        }
    }

    /// Returns the position of this variant in canonical order.
    pub fn position(&self) -> (r: usize)
        ensures
            r == real_eigenvalue_field_pos(*self),
    {
        match self {
            RealEigenvalueField::Eigenvalue => 0,
            RealEigenvalueField::Radians => 1,
            RealEigenvalueField::Cycles => 2,
            RealEigenvalueField::GeneralizedMass => 3,
            RealEigenvalueField::GeneralizedStiffness => 4,
        }
    }

    /// Returns all the variants of this index, in canonical order.
    pub fn all() -> (r: &'static [RealEigenvalueField])
        ensures
            r@ == all_real_eigenvalue_field(),
    {
        let r: &'static [RealEigenvalueField] = &[RealEigenvalueField::Eigenvalue, RealEigenvalueField::Radians, RealEigenvalueField::Cycles, RealEigenvalueField::GeneralizedMass, RealEigenvalueField::GeneralizedStiffness];
        assert(r@ =~= all_real_eigenvalue_field());
        r
    }

    /// Returns each variant with its position in canonical order, for use as
    /// the column indexes of a decoder.
    pub fn canonical_cols() -> (r: Vec<(RealEigenvalueField, usize)>)
        ensures
            r@.len() == all_real_eigenvalue_field().len(),
            forall|i: int| 0 <= i < r@.len() ==> (#[trigger] r@[i]) == (all_real_eigenvalue_field()[i], i as usize),
    {
        let all = RealEigenvalueField::all();
        let mut r: Vec<(RealEigenvalueField, usize)> = Vec::new();
        let mut i: usize = 0;
        while i < all.len()
            invariant
                all@ == all_real_eigenvalue_field(),
                i <= all.len(),
                r@.len() == i,
                forall|k: int| 0 <= k < i ==> (#[trigger] r@[k]) == (all_real_eigenvalue_field()[k], k as usize),
            decreases all.len() - i,
        {
            r.push((all[i], i));
            i = i + 1;
        }
        r
    }
}

/// The variants of `RealEigenvalueField` are listed in canonical order, each at its
/// position.
pub proof fn lemma_real_eigenvalue_field_positions(x: RealEigenvalueField)
    ensures
        real_eigenvalue_field_pos(x) < all_real_eigenvalue_field().len(),
        all_real_eigenvalue_field()[real_eigenvalue_field_pos(x) as int] == x,
{
}

/// The opposite end of a bar.
pub open spec fn opposite_end(e: BarEnd) -> BarEnd {
    match e {
        BarEnd::EndA => BarEnd::EndB,
        BarEnd::EndB => BarEnd::EndA,
    }
}

impl BarEnd {
    /// Returns the opposite end.
    pub fn opposite(&self) -> (r: BarEnd)
        ensures
            r == opposite_end(*self),
    {
        match self {
            BarEnd::EndA => BarEnd::EndB,
            BarEnd::EndB => BarEnd::EndA,
        }
    }
}

/// Taking the opposite end twice gives the end back, and the opposite end
/// always differs.
pub proof fn law_opposite_end_involution(e: BarEnd)
    ensures
        opposite_end(opposite_end(e)) == e,
        opposite_end(e) != e,
{
}

/// The columns for the strains table for plate elements.
#[derive(Copy, Clone, Debug, PartialEq, Eq, Structural)]
pub struct PlateStrainField(pub PlateStressField);

/// The columns for the strains table for rod elements.
#[derive(Copy, Clone, Debug, PartialEq, Eq, Structural)]
pub struct RodStrainField(pub RodStressField);

/// The strain field matching a stress field.
pub open spec fn strain_of_stress(_s: SingleStress) -> SingleStrain {
    SingleStrain::Strain
}

impl SingleStrain {
    /// The strain field matching a stress field.
    pub fn from_stress(s: SingleStress) -> (r: SingleStrain)
        ensures
            r == strain_of_stress(s),
    {
        SingleStrain::Strain
    }
}

/// A column of a BAR engineering force table.
#[derive(Copy, Clone, Debug, PartialEq, Eq, Structural)]
pub enum BarForceField {
    /// Bend moments.
    BendMoment {
        /// The end of the bar.
        end: BarEnd,
        /// The plane.
        plane: BarPlane,
    },
    /// Shear forces.
    Shear {
        /// The plane.
        plane: BarPlane,
    },
    /// Axial force.
    AxialForce,
    /// Torque.
    Torque,
}

/// The bar force fields in the most commonly seen order.
pub open spec fn all_bar_force_field() -> Seq<BarForceField> {
    seq![
        BarForceField::BendMoment { end: BarEnd::EndA, plane: BarPlane::Plane1 },
        BarForceField::BendMoment { end: BarEnd::EndA, plane: BarPlane::Plane2 },
        BarForceField::BendMoment { end: BarEnd::EndB, plane: BarPlane::Plane1 },
        BarForceField::BendMoment { end: BarEnd::EndB, plane: BarPlane::Plane2 },
        BarForceField::Shear { plane: BarPlane::Plane1 },
        BarForceField::Shear { plane: BarPlane::Plane2 },
        BarForceField::AxialForce,
        BarForceField::Torque,
    ]
}

impl BarForceField {
    /// Returns the fields in the most commonly seen order.
    pub fn all() -> (r: &'static [BarForceField])
        ensures
            r@ == all_bar_force_field(),
    {
        let r: &'static [BarForceField] = &[
            BarForceField::BendMoment { end: BarEnd::EndA, plane: BarPlane::Plane1 },
            BarForceField::BendMoment { end: BarEnd::EndA, plane: BarPlane::Plane2 },
            BarForceField::BendMoment { end: BarEnd::EndB, plane: BarPlane::Plane1 },
            BarForceField::BendMoment { end: BarEnd::EndB, plane: BarPlane::Plane2 },
            BarForceField::Shear { plane: BarPlane::Plane1 },
            BarForceField::Shear { plane: BarPlane::Plane2 },
            BarForceField::AxialForce,
            BarForceField::Torque,
        ];
        assert(r@ =~= all_bar_force_field());
        r
    }

    /// Returns each field with its position in the common order, for use as
    /// the column indexes of a decoder.
    pub fn canonical_cols() -> (r: Vec<(BarForceField, usize)>)
        ensures
            r@.len() == all_bar_force_field().len(),
            forall|i: int| 0 <= i < r@.len() ==> (#[trigger] r@[i]) == (all_bar_force_field()[i], i as usize),
    {
        let all = BarForceField::all();
        let mut r: Vec<(BarForceField, usize)> = Vec::new();
        let mut i: usize = 0;
        while i < all.len()
            invariant
                all@ == all_bar_force_field(),
                i <= all.len(),
                r@.len() == i,
                forall|k: int| 0 <= k < i ==> (#[trigger] r@[k]) == (all_bar_force_field()[k], k as usize),
            decreases all.len() - i,
        {
            r.push((all[i], i));
            i = i + 1;
        }
        r
    }
}

/// Type of normal stress.
#[derive(Copy, Clone, Debug, PartialEq, Eq, Structural)]
pub enum NormalStressDirection {
    /// Tension stress.
    Tension,
    /// Compression stress.
    Compression,
}

/// The columns of a bar stress/strain table.
#[derive(Copy, Clone, Debug, PartialEq, Eq, Structural)]
pub enum BarStressField {
    /// Stress calculated at a specific recovery point.
    AtRecoveryPoint {
        /// The bar end where the stress was calculated.
        end: BarEnd,
        /// The recovery point where the stress was recovered. It's 1-4 for BARs.
        point: u8,
    },
    /// Axial stress.
    Axial,
    /// Maximum stress at one end.
    MaxAt(BarEnd),
    /// Minimum stress at one end.
    MinAt(BarEnd),
    /// Margin of safety.
    SafetyMargin(NormalStressDirection),
}

/// All bar stress fields, in canonical order.
pub open spec fn all_bar_stress_field() -> Seq<BarStressField> {
    seq![
        BarStressField::AtRecoveryPoint { end: BarEnd::EndA, point: 1 },
        BarStressField::AtRecoveryPoint { end: BarEnd::EndA, point: 2 },
        BarStressField::AtRecoveryPoint { end: BarEnd::EndA, point: 3 },
        BarStressField::AtRecoveryPoint { end: BarEnd::EndA, point: 4 },
        BarStressField::MaxAt(BarEnd::EndA),
        BarStressField::MinAt(BarEnd::EndA),
        BarStressField::AtRecoveryPoint { end: BarEnd::EndB, point: 1 },
        BarStressField::AtRecoveryPoint { end: BarEnd::EndB, point: 2 },
        BarStressField::AtRecoveryPoint { end: BarEnd::EndB, point: 3 },
        BarStressField::AtRecoveryPoint { end: BarEnd::EndB, point: 4 },
        BarStressField::MaxAt(BarEnd::EndB),
        BarStressField::MinAt(BarEnd::EndB),
        BarStressField::Axial,
        BarStressField::SafetyMargin(NormalStressDirection::Tension),
        BarStressField::SafetyMargin(NormalStressDirection::Compression),
    ]
}

impl BarStressField {
    /// Returns all variants, in canonical order.
    pub fn all() -> (r: &'static [BarStressField])
        ensures
            r@ == all_bar_stress_field(),
    {
        let r: &'static [BarStressField] = &[
            BarStressField::AtRecoveryPoint { end: BarEnd::EndA, point: 1 },
            BarStressField::AtRecoveryPoint { end: BarEnd::EndA, point: 2 },
            BarStressField::AtRecoveryPoint { end: BarEnd::EndA, point: 3 },
            BarStressField::AtRecoveryPoint { end: BarEnd::EndA, point: 4 },
            BarStressField::MaxAt(BarEnd::EndA),
            BarStressField::MinAt(BarEnd::EndA),
            BarStressField::AtRecoveryPoint { end: BarEnd::EndB, point: 1 },
            BarStressField::AtRecoveryPoint { end: BarEnd::EndB, point: 2 },
            BarStressField::AtRecoveryPoint { end: BarEnd::EndB, point: 3 },
            BarStressField::AtRecoveryPoint { end: BarEnd::EndB, point: 4 },
            BarStressField::MaxAt(BarEnd::EndB),
            BarStressField::MinAt(BarEnd::EndB),
            BarStressField::Axial,
            BarStressField::SafetyMargin(NormalStressDirection::Tension),
            BarStressField::SafetyMargin(NormalStressDirection::Compression),
        ];
        assert(r@ =~= all_bar_stress_field());
        r
    }

    /// Returns each field with its position in canonical order, for use as
    /// the column indexes of a decoder.
    pub fn canonical_cols() -> (r: Vec<(BarStressField, usize)>)
        ensures
            r@.len() == all_bar_stress_field().len(),
            forall|i: int| 0 <= i < r@.len() ==> (#[trigger] r@[i]) == (all_bar_stress_field()[i], i as usize),
    {
        let all = BarStressField::all();
        let mut r: Vec<(BarStressField, usize)> = Vec::new();
        let mut i: usize = 0;
        while i < all.len()
            invariant
                all@ == all_bar_stress_field(),
                i <= all.len(),
                r@.len() == i,
                forall|k: int| 0 <= k < i ==> (#[trigger] r@[k]) == (all_bar_stress_field()[k], k as usize),
            decreases all.len() - i,
        {
            r.push((all[i], i));
            i = i + 1;
        }
        r
    }
}

/// The columns for the strains table for bar elements.
#[derive(Copy, Clone, Debug, PartialEq, Eq, Structural)]
pub struct BarStrainField(pub BarStressField);

/// A combination of a grid point reference and a coordinate system.
#[derive(Copy, Clone, Debug, PartialEq, Eq, Structural)]
pub struct GridPointCsys {
    /// A reference to the grid point.
    pub gid: GridPointRef,
    /// The coordinate system.
    pub cid: CsysRef,
}

impl GridPointCsys {
    /// A grid point in a coordinate system, by their IDs.
    pub fn from_ids(gid: usize, cid: usize) -> (r: GridPointCsys)
        ensures
            r.gid.gid == gid,
            r.cid.cid == cid,
    {
        GridPointCsys { gid: GridPointRef { gid }, cid: CsysRef { cid } }
    }
}

/// Vibration mode of an eigen solution.
#[derive(Copy, Clone, Debug, PartialEq, Eq, Structural)]
pub struct EigenSolutionMode(pub i32);

/// All index types, taken generally.
#[derive(Copy, Clone, Debug, PartialEq, Eq, Structural)]
pub enum NasIndex {
    /// A degree of freedom.
    Dof(Dof),
    /// A grid point.
    GridPointRef(GridPointRef),
    /// An element.
    ElementRef(ElementRef),
    /// A point in an element.
    PointInElement(PointInElement),
    /// A grid point and a force origin.
    GridPointForceOrigin(GridPointForceOrigin),
    /// A point and side of an element.
    ElementSidedPoint(ElementSidedPoint),
    /// The single force column.
    SingleForce(SingleForce),
    /// The single stress column.
    SingleStress(SingleStress),
    /// The single strain column.
    SingleStrain(SingleStrain),
    /// A bar force column.
    BarForceField(BarForceField),
    /// A bar stress column.
    BarStressField(BarStressField),
    /// A bar strain column.
    BarStrainField(BarStrainField),
    /// A rod force column.
    RodForceField(RodForceField),
    /// A rod stress column.
    RodStressField(RodStressField),
    /// A rod strain column.
    RodStrainField(RodStrainField),
    /// A plate force column.
    PlateForceField(PlateForceField),
    /// A plate stress column.
    PlateStressField(PlateStressField),
    /// A plate strain column.
    PlateStrainField(PlateStrainField),
    /// A grid point in a coordinate system.
    GridPointCsys(GridPointCsys),
    /// A real eigenvalue column.
    RealEigenvalueField(RealEigenvalueField),
    /// An eigen solution mode.
    EigenSolutionMode(EigenSolutionMode),
}

/// The grid point associated with an index, if it has one.
pub open spec fn index_grid_point(ix: NasIndex) -> Option<GridPointRef> {
    match ix {
        NasIndex::GridPointRef(g) => Some(g),
        NasIndex::PointInElement(pie) => match pie.point {
            ElementPoint::Corner(g) => Some(g),
            ElementPoint::Midpoint(g) => Some(g),
            _ => None,
        },
        NasIndex::GridPointForceOrigin(gpfo) => Some(gpfo.grid_point),
        NasIndex::ElementSidedPoint(esp) => match esp.point {
            ElementPoint::Corner(g) => Some(g),
            ElementPoint::Midpoint(g) => Some(g),
            _ => None,
        },
        NasIndex::GridPointCsys(g) => Some(g.gid),
        _ => None,
    }
}

/// The element associated with an index, if it has one.
pub open spec fn index_element(ix: NasIndex) -> Option<ElementRef> {
    match ix {
        NasIndex::ElementRef(e) => Some(e),
        NasIndex::PointInElement(pie) => Some(pie.element),
        NasIndex::GridPointForceOrigin(gpfo) => match gpfo.force_origin {
            ForceOrigin::Element { elem } => Some(elem),
            _ => None,
        },
        NasIndex::ElementSidedPoint(esp) => Some(esp.element),
        _ => None,
    }
}

/// The degree of freedom associated with an index, if it has one.
pub open spec fn index_dof(ix: NasIndex) -> Option<Dof> {
    match ix {
        NasIndex::Dof(d) => Some(d),
        _ => None,
    }
}

/// The position of an index's kind among all the kinds of index.
pub open spec fn index_kind(ix: NasIndex) -> nat {
    match ix {
        NasIndex::Dof(_) => 0,
        NasIndex::GridPointRef(_) => 1,
        NasIndex::ElementRef(_) => 2,
        NasIndex::PointInElement(_) => 3,
        NasIndex::GridPointForceOrigin(_) => 4,
        NasIndex::ElementSidedPoint(_) => 5,
        NasIndex::SingleForce(_) => 6,
        NasIndex::SingleStress(_) => 7,
        NasIndex::SingleStrain(_) => 8,
        NasIndex::BarForceField(_) => 9,
        NasIndex::BarStressField(_) => 10,
        NasIndex::BarStrainField(_) => 11,
        NasIndex::RodForceField(_) => 12,
        NasIndex::RodStressField(_) => 13,
        NasIndex::RodStrainField(_) => 14,
        NasIndex::PlateForceField(_) => 15,
        NasIndex::PlateStressField(_) => 16,
        NasIndex::PlateStrainField(_) => 17,
        NasIndex::GridPointCsys(_) => 18,
        NasIndex::RealEigenvalueField(_) => 19,
        NasIndex::EigenSolutionMode(_) => 20,
    }
}

/// The all-caps name of an index's kind.
pub open spec fn index_kind_name(ix: NasIndex) -> Seq<char> {
    match ix {
        NasIndex::Dof(_) => "DOF"@,
        NasIndex::GridPointRef(_) => "GRID POINT ID"@,
        NasIndex::ElementRef(_) => "ELEMENT ID"@,
        NasIndex::PointInElement(_) => "POINT IN ELEMENT"@,
        NasIndex::GridPointForceOrigin(_) => "GRID POINT FORCE ORIGIN"@,
        NasIndex::ElementSidedPoint(_) => "ELEMENT, POINT AND SIDE"@,
        NasIndex::SingleForce(_) => "FORCE"@,
        NasIndex::SingleStress(_) => "STRESS"@,
        NasIndex::SingleStrain(_) => "STRAIN"@,
        NasIndex::BarForceField(_) => "BAR FORCE FIELD"@,
        NasIndex::BarStressField(_) => "BAR STRESS FIELD"@,
        NasIndex::BarStrainField(_) => "BAR STRAIN FIELD"@,
        NasIndex::RodForceField(_) => "ROD FORCE FIELD"@,
        NasIndex::RodStressField(_) => "ROD STRESS FIELD"@,
        NasIndex::RodStrainField(_) => "ROD STRAIN FIELD"@,
        NasIndex::PlateForceField(_) => "2D ELEM FORCE FIELD"@,
        NasIndex::PlateStressField(_) => "PLATE STRESS FIELD"@,
        NasIndex::PlateStrainField(_) => "PLATE STRAIN FIELD"@,
        NasIndex::GridPointCsys(_) => "GRID POINT COORD SYS"@,
        NasIndex::RealEigenvalueField(_) => "EIGENVALUE FIELDS"@,
        NasIndex::EigenSolutionMode(_) => "EIGEN SOLUTION MODE"@,
    }
}

impl NasIndex {
    /// Returns the grid point associated with this index, if it has one.
    pub fn grid_point_id(&self) -> (r: Option<GridPointRef>)
        ensures
            r == index_grid_point(*self),
    {
        match self {
            NasIndex::GridPointRef(g) => Some(*g),
            NasIndex::PointInElement(pie) => match pie.point {
                ElementPoint::Corner(g) => Some(g),
                ElementPoint::Midpoint(g) => Some(g),
                _ => None,
            },
            NasIndex::GridPointForceOrigin(gpfo) => Some(gpfo.grid_point),
            NasIndex::ElementSidedPoint(esp) => match esp.point {
                ElementPoint::Corner(g) => Some(g),
                ElementPoint::Midpoint(g) => Some(g),
                _ => None,
            },
            NasIndex::GridPointCsys(g) => Some(g.gid),
            _ => None,
        }
    }

    /// Returns the element associated with this index, if it has one.
    pub fn element_id(&self) -> (r: Option<ElementRef>)
        ensures
            r == index_element(*self),
    {
        match self {
            NasIndex::ElementRef(e) => Some(*e),
            NasIndex::PointInElement(pie) => Some(pie.element),
            NasIndex::GridPointForceOrigin(gpfo) => match gpfo.force_origin {
                ForceOrigin::Element { elem } => Some(elem),
                _ => None,
            },
            NasIndex::ElementSidedPoint(esp) => Some(esp.element),
            _ => None,
        }
    }

    /// Returns the degree of freedom associated with this index, if it has
    /// one.
    pub fn dof(&self) -> (r: Option<Dof>)
        ensures
            r == index_dof(*self),
    {
        if let NasIndex::Dof(d) = self {
            return Some(*d);
        }
        None
    }

    /// Returns the position of this index's kind among all kinds of index.
    pub fn kind(&self) -> (r: usize)
        ensures
            r == index_kind(*self),
    {
        match self {
            NasIndex::Dof(_) => 0,
            NasIndex::GridPointRef(_) => 1,
            NasIndex::ElementRef(_) => 2,
            NasIndex::PointInElement(_) => 3,
            NasIndex::GridPointForceOrigin(_) => 4,
            NasIndex::ElementSidedPoint(_) => 5,
            NasIndex::SingleForce(_) => 6,
            NasIndex::SingleStress(_) => 7,
            NasIndex::SingleStrain(_) => 8,
            NasIndex::BarForceField(_) => 9,
            NasIndex::BarStressField(_) => 10,
            NasIndex::BarStrainField(_) => 11,
            NasIndex::RodForceField(_) => 12,
            NasIndex::RodStressField(_) => 13,
            NasIndex::RodStrainField(_) => 14,
            NasIndex::PlateForceField(_) => 15,
            NasIndex::PlateStressField(_) => 16,
            NasIndex::PlateStrainField(_) => 17,
            NasIndex::GridPointCsys(_) => 18,
            NasIndex::RealEigenvalueField(_) => 19,
            NasIndex::EigenSolutionMode(_) => 20,
        }
    }

    /// Returns the name of the type of this index.
    pub fn kind_name(&self) -> (r: &'static str)
        ensures
            r@ == index_kind_name(*self),
    {
        match self {
            NasIndex::Dof(_) => "DOF",
            NasIndex::GridPointRef(_) => "GRID POINT ID",
            NasIndex::ElementRef(_) => "ELEMENT ID",
            NasIndex::PointInElement(_) => "POINT IN ELEMENT",
            NasIndex::GridPointForceOrigin(_) => "GRID POINT FORCE ORIGIN",
            NasIndex::ElementSidedPoint(_) => "ELEMENT, POINT AND SIDE",
            NasIndex::SingleForce(_) => "FORCE",
            NasIndex::SingleStress(_) => "STRESS",
            NasIndex::SingleStrain(_) => "STRAIN",
            NasIndex::BarForceField(_) => "BAR FORCE FIELD",
            NasIndex::BarStressField(_) => "BAR STRESS FIELD",
            NasIndex::BarStrainField(_) => "BAR STRAIN FIELD",
            NasIndex::RodForceField(_) => "ROD FORCE FIELD",
            NasIndex::RodStressField(_) => "ROD STRESS FIELD",
            NasIndex::RodStrainField(_) => "ROD STRAIN FIELD",
            NasIndex::PlateForceField(_) => "2D ELEM FORCE FIELD",
            NasIndex::PlateStressField(_) => "PLATE STRESS FIELD",
            NasIndex::PlateStrainField(_) => "PLATE STRAIN FIELD",
            NasIndex::GridPointCsys(_) => "GRID POINT COORD SYS",
            NasIndex::RealEigenvalueField(_) => "EIGENVALUE FIELDS",
            NasIndex::EigenSolutionMode(_) => "EIGEN SOLUTION MODE",
        }
    }
}

} // verus!
