//! The ways a bisection run can fail.

use vstd::prelude::*;

verus! {

/// Every failure the core can report, one variant per cause.
#[derive(Clone, Copy, Debug, PartialEq, Eq, Structural)]
pub enum BisectError {
    /// The start and end bounds are not of the same kind.
    BoundMismatch,
    /// The start date lies after the end date.
    BoundOrder,
    /// The start bound reproduces the regression.
    EndpointBaseline,
    /// The end bound does not reproduce the regression.
    EndpointRegression,
    /// A nightly is missing from the mirror.
    NoSuchArtifact,
    /// The backward walk reached the hard floor without a clean nightly.
    NoBaselineFound,
    /// No commit of the range is young enough to still have artifacts.
    EmptyCommitRange,
    /// The repository accessor failed.
    AccessorError,
    /// A subprocess could not be started.
    SubcommandError,
    /// An HTTP request failed.
    Network,
}

impl BisectError {
    /// The characters of the fixed message each kind carries.
    pub open spec fn description_chars(self) -> Seq<char> {
        match self {
            BisectError::BoundMismatch => "cannot take different types of bounds for start/end"@,
            BisectError::BoundOrder => "end should be after start"@,
            BisectError::EndpointBaseline => "the start of the range must not reproduce the regression"@,
            BisectError::EndpointRegression => "the end of the range does not reproduce the regression"@,
            BisectError::NoSuchArtifact => "no artifact is published for this toolchain"@,
            BisectError::NoBaselineFound => "could not find a nightly that built"@,
            BisectError::EmptyCommitRange => "no commits between the bounds within last 167 days"@,
            BisectError::AccessorError => "the repository accessor failed"@,
            BisectError::SubcommandError => "a subprocess could not be started"@,
            BisectError::Network => "an HTTP request failed"@,
        }
    }

    /// A short fixed description, for the front end to print.
    pub fn description(&self) -> (r: &'static str)
        ensures
            r@ == self.description_chars(),
    {
        match self {
            BisectError::BoundMismatch => "cannot take different types of bounds for start/end",
            BisectError::BoundOrder => "end should be after start",
            BisectError::EndpointBaseline => "the start of the range must not reproduce the regression",
            BisectError::EndpointRegression => "the end of the range does not reproduce the regression",
            BisectError::NoSuchArtifact => "no artifact is published for this toolchain",
            BisectError::NoBaselineFound => "could not find a nightly that built",
            BisectError::EmptyCommitRange => "no commits between the bounds within last 167 days",
            BisectError::AccessorError => "the repository accessor failed",
            BisectError::SubcommandError => "a subprocess could not be started",
            BisectError::Network => "an HTTP request failed",
        }
    }
}

} // verus!
