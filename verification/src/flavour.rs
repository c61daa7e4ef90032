//! The flavours of text output: which solver wrote it and which kind of
//! solution it holds.

use vstd::prelude::*;

use crate::blocktypes::BlockType;

verus! {

/// The different supported solvers.
#[derive(Copy, Clone, Debug, PartialEq, Eq, Structural)]
#[non_exhaustive]
pub enum Solver {
    /// The MYSTRAN solver originally developed by Dr. Bill Case.
    Mystran,
    /// The Simcenter Nastran solver, formerly known as NX Nastran.
    Simcenter,
}

/// All known solvers, in order.
pub open spec fn all_solvers() -> Seq<Solver> {
    seq![Solver::Mystran, Solver::Simcenter]
}

/// The display name of a solver.
pub open spec fn solver_name(s: Solver) -> Seq<char> {
    match s {
        Solver::Mystran => "MYSTRAN"@,
        Solver::Simcenter => "Simcenter Nastran"@,
    }
}

/// The texts whose presence in a line ends a block, for a solver.
pub open spec fn solver_block_enders(s: Solver) -> Seq<Seq<char>> {
    match s {
        Solver::Mystran => seq!["-------------"@, "------------"@],
        Solver::Simcenter => seq!["SIMCENTER NASTRAN"@],
    }
}

/// The block types that are exempt from the block enders, for a solver.
pub open spec fn solver_ender_exceptions(s: Solver) -> Seq<BlockType> {
    match s {
        Solver::Mystran => seq![BlockType::GridPointForceBalance],
        Solver::Simcenter => seq![],
    }
}

impl Solver {
    /// Returns all known solvers.
    pub fn all() -> (r: &'static [Solver])
        ensures
            r@ == all_solvers(),
    {
        let r: &'static [Solver] = &[Solver::Mystran, Solver::Simcenter];
        assert(r@ =~= all_solvers());
        r
    }

    /// Returns a constant display name for the solver.
    pub fn name(&self) -> (r: &'static str)
        ensures
            r@ == solver_name(*self),
    {
        match self {
            Solver::Mystran => "MYSTRAN",
            Solver::Simcenter => "Simcenter Nastran",
        }
    }

    /// Returns the "block ending" strings that we should test for.
    pub fn block_enders(&self) -> (r: &'static [&'static str])
        ensures
            r@.len() == solver_block_enders(*self).len(),
            forall|i: int| 0 <= i < r@.len() ==> (#[trigger] r@[i])@ == solver_block_enders(*self)[i],
    {
        match self {
            Solver::Mystran => {
                let r: &'static [&'static str] = &["-------------", "------------"];
                r
            },
            Solver::Simcenter => {
                let r: &'static [&'static str] = &["SIMCENTER NASTRAN"];
                r
            },
        }
    }

    /// Returns the exceptions to block enders.
    pub fn ender_exceptions(&self) -> (r: &'static [BlockType])
        ensures
            r@ == solver_ender_exceptions(*self),
    {
        match self {
            Solver::Mystran => {
                let r: &'static [BlockType] = &[BlockType::GridPointForceBalance];
                assert(r@ =~= solver_ender_exceptions(*self));
                r
            },
            Solver::Simcenter => {
                let r: &'static [BlockType] = &[];
                assert(r@ =~= solver_ender_exceptions(*self));
                r
            },
        }
    }
}

/// The known solution types.
#[derive(Copy, Clone, Debug, PartialEq, Eq, Structural)]
#[non_exhaustive]
pub enum SolType {
    /// Linear static analysis, also known as SOL STATIC or SOL 101.
    LinearStatic,
    /// Eigenvalue/modes analysis, also known as SOL MODES or SOL 103.
    Eigenvalue,
    /// Linear static solutions with differential stiffness.
    LinearStaticDiffStiff,
    /// Linear buckling analysis, also known as SOL BUCKLING or SOL 105.
    LinearBuckling,
    /// Nonlinear static analysis, also known as SOL NLSTATIC or SOL 106.
    NonLinearStatic,
}

/// The SOL number of a solution type.
pub open spec fn soltype_number(s: SolType) -> nat {
    match s {
        SolType::LinearStatic => 101,
        SolType::Eigenvalue => 103,
        SolType::LinearStaticDiffStiff => 104,
        SolType::LinearBuckling => 105,
        SolType::NonLinearStatic => 106,
    }
}

/// The solution type a SOL number stands for, if any (short numbers like 1
/// stand for 101).
pub open spec fn soltype_of_number(n: nat) -> Option<SolType> {
    if n == 1 || n == 101 {
        Some(SolType::LinearStatic)
    } else if n == 3 || n == 103 {
        Some(SolType::Eigenvalue)
    } else if n == 4 || n == 104 {
        Some(SolType::LinearStaticDiffStiff)
    } else if n == 5 || n == 105 {
        Some(SolType::LinearBuckling)
    } else if n == 106 {
        Some(SolType::NonLinearStatic)
    } else {
        None
    }
}

/// The user-friendly name of a solution type.
pub open spec fn soltype_name(s: SolType) -> Seq<char> {
    match s {
        SolType::LinearStatic => "Linear static"@,
        SolType::Eigenvalue => "Eigenvalue"@,
        SolType::LinearStaticDiffStiff => "Linear static with differential stiffness"@,
        SolType::LinearBuckling => "Linear buckling"@,
        SolType::NonLinearStatic => "Non-linear static"@,
    }
}

impl SolType {
    /// Returns a user-friendly display name for the solution.
    pub fn name(&self) -> (r: &'static str)
        ensures
            r@ == soltype_name(*self),
    {
        match self {
            SolType::LinearStatic => "Linear static",
            SolType::Eigenvalue => "Eigenvalue",
            SolType::LinearStaticDiffStiff => "Linear static with differential stiffness",
            SolType::LinearBuckling => "Linear buckling",
            SolType::NonLinearStatic => "Non-linear static",
        }
    }

    /// Returns the SOL number of the solution type.
    pub fn number(&self) -> (r: usize)
        ensures
            r == soltype_number(*self),
    {
        match self {
            SolType::LinearStatic => 101,
            SolType::Eigenvalue => 103,
            SolType::LinearStaticDiffStiff => 104,
            SolType::LinearBuckling => 105,
            SolType::NonLinearStatic => 106,
        }
    }

    /// Returns the solution type for a SOL number, or an error for unknown
    /// numbers.
    pub fn from_number(sol: usize) -> (r: Result<SolType, ()>)
        ensures
            r == (match soltype_of_number(sol as nat) {
                Some(s) => Ok(s),
                None => Err(()),
            }),
    {
        if sol == 1 || sol == 101 {
            Ok(SolType::LinearStatic)
        } else if sol == 3 || sol == 103 {
            Ok(SolType::Eigenvalue)
        } else if sol == 4 || sol == 104 {
            Ok(SolType::LinearStaticDiffStiff)
        } else if sol == 5 || sol == 105 {
            Ok(SolType::LinearBuckling)
        } else if sol == 106 {
            Ok(SolType::NonLinearStatic)
        } else {
            Err(())
        }
    }
}

/// Reading back the SOL number of a solution type gives that solution type.
pub proof fn law_soltype_number_roundtrip(s: SolType)
    ensures
        soltype_of_number(soltype_number(s)) == Some(s),
{
}

/// What we currently take to be the "flavour" of a file.
#[derive(Copy, Clone, Debug, PartialEq, Eq, Structural)]
pub struct Flavour {
    /// The solver that produced the file, if known.
    pub solver: Option<Solver>,
    /// The solution type that resulted in the file, if known.
    pub soltype: Option<SolType>,
}

impl Flavour {
    /// A flavour with nothing known.
    pub fn unknown() -> (r: Flavour)
        ensures
            r.solver.is_none(),
            r.soltype.is_none(),
    {
        Flavour { solver: None, soltype: None }
    }
}

} // verus!
