//! Basic geometric concepts used to understand solver output: axes and
//! degrees of freedom.

use vstd::prelude::*;

verus! {

/// The number of degrees of freedom of a grid point.
pub const SIXDOF: usize = 6;

/// The two types of degree of freedom.
#[derive(Copy, Clone, Debug, PartialEq, Eq, Structural)]
pub enum DofType {
    /// Translational DOF.
    Translational,
    /// Rotational DOF.
    Rotational,
}

/// The upper-case letter of a DOF type.
pub open spec fn dof_type_letter(d: DofType) -> char {
    match d {
        DofType::Translational => 'T',
        DofType::Rotational => 'R',
    }
}

/// The DOF type a letter stands for, in either case.
pub open spec fn dof_type_of_letter(c: char) -> Option<DofType> {
    if c == 'T' || c == 't' {
        Some(DofType::Translational)
    } else if c == 'R' || c == 'r' {
        Some(DofType::Rotational)
    } else {
        None
    }
}

impl DofType {
    /// Returns this DOF type's uppercase letter.
    pub fn letter(&self) -> (r: char)
        ensures
            r == dof_type_letter(*self),
    {
        match self {
            DofType::Translational => 'T',
            DofType::Rotational => 'R',
        }
    }

    /// Returns the DOF type for a letter (either case), or an error.
    pub fn from_letter(c: char) -> (r: Result<DofType, ()>)
        ensures
            r == (match dof_type_of_letter(c) {
                Some(d) => Ok(d),
                None => Err(()),
            }),
    {
        if c == 'T' || c == 't' {
            Ok(DofType::Translational)
        } else if c == 'R' || c == 'r' {
            Ok(DofType::Rotational)
        } else {
            Err(())
        }
    }
}

/// The three axes.
#[derive(Copy, Clone, Debug, PartialEq, Eq, Structural)]
pub enum Axis {
    /// The X axis.
    X,
    /// The Y axis.
    Y,
    /// The Z axis.
    Z,
}

/// The lower-case letter of an axis.
pub open spec fn axis_letter(a: Axis) -> char {
    match a {
        Axis::X => 'x',
        Axis::Y => 'y',
        Axis::Z => 'z',
    }
}

/// The number (1 to 3) of an axis.
pub open spec fn axis_number(a: Axis) -> nat {
    match a {
        Axis::X => 1,
        Axis::Y => 2,
        Axis::Z => 3,
    }
}

/// The axis a number stands for.
pub open spec fn axis_of_number(n: nat) -> Option<Axis> {
    if n == 1 {
        Some(Axis::X)
    } else if n == 2 {
        Some(Axis::Y)
    } else if n == 3 {
        Some(Axis::Z)
    } else {
        None
    }
}

impl Axis {
    /// Returns this axis' lowercase letter.
    pub fn letter(&self) -> (r: char)
        ensures
            r == axis_letter(*self),
    {
        match self {
            Axis::X => 'x',
            Axis::Y => 'y',
            Axis::Z => 'z',
        }
    }

    /// Returns this axis' number 1-3.
    pub fn number(&self) -> (r: usize)
        ensures
            r == axis_number(*self),
    {
        match self {
            Axis::X => 1,
            Axis::Y => 2,
            Axis::Z => 3,
        }
    }

    /// Returns the axis for a number 1-3, or an error.
    pub fn from_number(n: usize) -> (r: Result<Axis, ()>)
        ensures
            r == (match axis_of_number(n as nat) {
                Some(a) => Ok(a),
                None => Err(()),
            }),
    {
        if n == 1 {
            Ok(Axis::X)
        } else if n == 2 {
            Ok(Axis::Y)
        } else if n == 3 {
            Ok(Axis::Z)
        } else {
            Err(())
        }
    }
}

/// A degree of freedom.
#[derive(Copy, Clone, Debug, PartialEq, Eq, Structural)]
pub struct Dof {
    /// The type of DOF (translational or rotational).
    pub dof_type: DofType,
    /// The axis of the DOF (X/Y/Z).
    pub axis: Axis,
}

/// The number (1 to 6) of a DOF: the axis number, plus 3 for rotations.
pub open spec fn dof_number(d: Dof) -> nat {
    axis_number(d.axis) + if d.dof_type == DofType::Rotational { 3nat } else { 0nat }
}

/// The DOF a number 1-6 stands for.
pub open spec fn dof_of_number(n: nat) -> Option<Dof> {
    if 1 <= n <= 3 {
        Some(Dof { dof_type: DofType::Translational, axis: axis_of_number(n).unwrap() })
    } else if 4 <= n <= 6 {
        Some(Dof { dof_type: DofType::Rotational, axis: axis_of_number((n - 3) as nat).unwrap() })
    } else {
        None
    }
}

/// All six DOFs, in order.
pub open spec fn all_dofs() -> Seq<Dof> {
    seq![
        Dof { dof_type: DofType::Translational, axis: Axis::X },
        Dof { dof_type: DofType::Translational, axis: Axis::Y },
        Dof { dof_type: DofType::Translational, axis: Axis::Z },
        Dof { dof_type: DofType::Rotational, axis: Axis::X },
        Dof { dof_type: DofType::Rotational, axis: Axis::Y },
        Dof { dof_type: DofType::Rotational, axis: Axis::Z },
    ]
}

impl Dof {
    /// Returns all DOF in order.
    pub fn all() -> (r: &'static [Dof; SIXDOF])
        ensures
            r@ == all_dofs(),
    {
        let r: &'static [Dof; SIXDOF] = &[
            Dof { dof_type: DofType::Translational, axis: Axis::X },
            Dof { dof_type: DofType::Translational, axis: Axis::Y },
            Dof { dof_type: DofType::Translational, axis: Axis::Z },
            Dof { dof_type: DofType::Rotational, axis: Axis::X },
            Dof { dof_type: DofType::Rotational, axis: Axis::Y },
            Dof { dof_type: DofType::Rotational, axis: Axis::Z },
        ];
        assert(r@ =~= all_dofs());
        r
    }

    /// Returns a two-character name for the DOF, like Tx or Rz.
    pub fn name(&self) -> (r: [char; 2])
        ensures
            r@ == seq![dof_type_letter(self.dof_type), axis_letter(self.axis)],
    {
        let r = [self.dof_type.letter(), self.axis.letter()];
        assert(r@ =~= seq![dof_type_letter(self.dof_type), axis_letter(self.axis)]);
        r
    }

    /// Returns the number 1-6 of the DOF.
    pub fn number(&self) -> (r: usize)
        ensures
            r == dof_number(*self),
    {
        let added: usize = if self.dof_type == DofType::Rotational { 3 } else { 0 };
        self.axis.number() + added
    }

    /// Returns the DOF for a number 1-6, or an error.
    pub fn from_number(n: usize) -> (r: Result<Dof, ()>)
        ensures
            r == (match dof_of_number(n as nat) {
                Some(d) => Ok(d),
                None => Err(()),
            }),
    {
        let (dof_type, axis) = if n == 1 {
            (DofType::Translational, Axis::X)
        } else if n == 2 {
            (DofType::Translational, Axis::Y)
        } else if n == 3 {
            (DofType::Translational, Axis::Z)
        } else if n == 4 {
            (DofType::Rotational, Axis::X)
        } else if n == 5 {
            (DofType::Rotational, Axis::Y)
        } else if n == 6 {
            (DofType::Rotational, Axis::Z)
        } else {
            return Err(());
        };
        Ok(Dof { dof_type, axis })
    }
}

/// Reading back the letter of a DOF type gives that DOF type.
pub proof fn law_dof_type_letter_roundtrip(d: DofType)
    ensures
        dof_type_of_letter(dof_type_letter(d)) == Some(d),
{
}

/// Reading back the number of an axis gives that axis.
pub proof fn law_axis_number_roundtrip(a: Axis)
    ensures
        axis_of_number(axis_number(a)) == Some(a),
{
}

/// Reading back the number of a DOF gives that DOF, and the DOFs of
/// `Dof::all` are numbered 1 to 6 in order.
pub proof fn law_dof_number_roundtrip(d: Dof)
    ensures
        dof_of_number(dof_number(d)) == Some(d),
        1 <= dof_number(d) <= 6,
        all_dofs()[dof_number(d) - 1] == d,
{
}

/// Holds some kind of data for every degree of freedom.
#[derive(Clone, Debug)]
pub struct PerDof<T> {
    /// The data for the three translational degrees of freedom.
    pub t: [T; 3],
    /// The data for the three rotational degrees of freedom.
    pub r: [T; 3],
}

impl<T> PerDof<T> {
    /// Accesses a value given a dof.
    pub fn get(&self, dof: Dof) -> (r: &T)
        ensures
            *r == (if dof.dof_type == DofType::Translational { self.t@ } else { self.r@ })[
                axis_number(dof.axis) - 1],
    {
        let vec = match dof.dof_type {
            DofType::Translational => &self.t,
            DofType::Rotational => &self.r,
        };
        match dof.axis {
            Axis::X => &vec[0],
            Axis::Y => &vec[1],
            Axis::Z => &vec[2],
        }
    }
}

} // verus!
