//! The metrics by which the results of two solvers are set side by side, and
//! the two solvers of a test run.

use vstd::prelude::*;

verus! {

/// Single-column metrics (such as min, max, mean).
#[derive(Copy, Clone, Debug, PartialEq, Eq, Structural, PartialOrd, Ord)]
pub enum SingleColumnMetric {
    /// Minimum of a column.
    Mininum,
    /// Maximum of a column.
    Maximum,
    /// Average value of a column.
    Average,
    /// Standard deviation of a column.
    StandardDeviation,
}

/// All single-column metrics, in order.
pub open spec fn all_single_column_metrics() -> Seq<SingleColumnMetric> {
    seq![
        SingleColumnMetric::Mininum,
        SingleColumnMetric::Maximum,
        SingleColumnMetric::Average,
        SingleColumnMetric::StandardDeviation,
    ]
}

/// The short name of a single-column metric.
pub open spec fn single_metric_short_name(m: SingleColumnMetric) -> Seq<char> {
    match m {
        SingleColumnMetric::Mininum => "min"@,
        SingleColumnMetric::Maximum => "max"@,
        SingleColumnMetric::Average => "avg"@,
        SingleColumnMetric::StandardDeviation => "sd"@,
    }
}

/// The long name of a single-column metric.
pub open spec fn single_metric_long_name(m: SingleColumnMetric) -> Seq<char> {
    match m {
        SingleColumnMetric::Mininum => "minimum"@,
        SingleColumnMetric::Maximum => "maximum"@,
        SingleColumnMetric::Average => "average"@,
        SingleColumnMetric::StandardDeviation => "standard deviation"@,
    }
}

impl SingleColumnMetric {
    /// Returns all the currently-implemented single-column metrics.
    pub fn all() -> (r: &'static [SingleColumnMetric])
        ensures
            r@ == all_single_column_metrics(),
    {
        let r: &'static [SingleColumnMetric] = &[
            SingleColumnMetric::Mininum,
            SingleColumnMetric::Maximum,
            SingleColumnMetric::Average,
            SingleColumnMetric::StandardDeviation,
        ];
        assert(r@ =~= all_single_column_metrics());
        r
    }

    /// Returns a short name for this metric.
    pub fn short_name(&self) -> (r: &'static str)
        ensures
            r@ == single_metric_short_name(*self),
    {
        match self {
            SingleColumnMetric::Mininum => "min",
            SingleColumnMetric::Maximum => "max",
            SingleColumnMetric::Average => "avg",
            SingleColumnMetric::StandardDeviation => "sd",
        }
    }

    /// Returns a long name for this metric.
    pub fn long_name(&self) -> (r: &'static str)
        ensures
            r@ == single_metric_long_name(*self),
    {
        match self {
            SingleColumnMetric::Mininum => "minimum",
            SingleColumnMetric::Maximum => "maximum",
            SingleColumnMetric::Average => "average",
            SingleColumnMetric::StandardDeviation => "standard deviation",
        }
    }
}

/// Column-compare metrics (like the RMSD).
#[derive(Copy, Clone, Debug, PartialEq, Eq, Structural, PartialOrd, Ord)]
pub enum ColumnCompareMetric {
    /// Max absolute deviation.
    MaximumAbsoluteDifference,
    /// Average absolute deviation.
    AverageAbsoluteDifference,
    /// Root mean square deviation.
    RootMeanSquareDeviation,
}

/// All column-compare metrics, in order.
pub open spec fn all_column_compare_metrics() -> Seq<ColumnCompareMetric> {
    seq![
        ColumnCompareMetric::MaximumAbsoluteDifference,
        ColumnCompareMetric::AverageAbsoluteDifference,
        ColumnCompareMetric::RootMeanSquareDeviation,
    ]
}

/// The short name of a column-compare metric.
pub open spec fn compare_metric_short_name(m: ColumnCompareMetric) -> Seq<char> {
    match m {
        ColumnCompareMetric::MaximumAbsoluteDifference => "max-abs-diff"@,
        ColumnCompareMetric::AverageAbsoluteDifference => "avg-abs-diff"@,
        ColumnCompareMetric::RootMeanSquareDeviation => "rmsd"@,
    }
}

/// The long name of a column-compare metric.
pub open spec fn compare_metric_long_name(m: ColumnCompareMetric) -> Seq<char> {
    match m {
        ColumnCompareMetric::MaximumAbsoluteDifference => "maximum absolute deviation"@,
        ColumnCompareMetric::AverageAbsoluteDifference => "average absolute deviation"@,
        ColumnCompareMetric::RootMeanSquareDeviation => "root mean square deviation"@,
    }
}

impl ColumnCompareMetric {
    /// Returns all the currently-implemented column-compare metrics.
    pub fn all() -> (r: &'static [ColumnCompareMetric])
        ensures
            r@ == all_column_compare_metrics(),
    {
        let r: &'static [ColumnCompareMetric] = &[
            ColumnCompareMetric::MaximumAbsoluteDifference,
            ColumnCompareMetric::AverageAbsoluteDifference,
            ColumnCompareMetric::RootMeanSquareDeviation,
        ];
        assert(r@ =~= all_column_compare_metrics());
        r
    }

    /// Returns a short name for this metric.
    pub fn short_name(&self) -> (r: &'static str)
        ensures
            r@ == compare_metric_short_name(*self),
    {
        match self {
            ColumnCompareMetric::MaximumAbsoluteDifference => "max-abs-diff",
            ColumnCompareMetric::AverageAbsoluteDifference => "avg-abs-diff",
            ColumnCompareMetric::RootMeanSquareDeviation => "rmsd",
        }
    }

    /// Returns a long name for this metric.
    pub fn long_name(&self) -> (r: &'static str)
        ensures
            r@ == compare_metric_long_name(*self),
    {
        match self {
            ColumnCompareMetric::MaximumAbsoluteDifference => "maximum absolute deviation",
            ColumnCompareMetric::AverageAbsoluteDifference => "average absolute deviation",
            ColumnCompareMetric::RootMeanSquareDeviation => "root mean square deviation",
        }
    }
}

/// The two solvers of a test run.
#[derive(Copy, Clone, Debug, PartialEq, Eq, Structural, PartialOrd, Ord)]
pub enum SolverPick {
    /// The reference solver.
    Reference,
    /// The solver under test.
    Testing,
}

impl SolverPick {
    /// Returns all variants.
    pub fn all() -> (r: &'static [SolverPick])
        ensures
            r@ == seq![SolverPick::Reference, SolverPick::Testing],
    {
        let r: &'static [SolverPick] = &[SolverPick::Reference, SolverPick::Testing];
        assert(r@ =~= seq![SolverPick::Reference, SolverPick::Testing]);
        r
    }
}

} // verus!
