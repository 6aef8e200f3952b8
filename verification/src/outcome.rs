//! Three-valued probe outcomes, the two-valued test verdict, and the
//! classifier that maps a finished process onto a verdict.
//!
//! The classifier sees two things: whether the process exited successfully,
//! and its captured standard-error text read as lossy UTF-8. Which of the
//! two it consults, and how, is chosen by an [`OutputProcessingMode`]. The
//! only fact ever read from standard error is whether it contains the
//! internal-compiler-error marker.

use vstd::prelude::*;
use crate::strutil::contains_seq;
use crate::strutil::contains_substr;
use crate::strutil::str_eq_chars;

verus! {

/// The answer a single probe gives to the search: the candidate reproduces
/// the regression (`Yes`), does not reproduce it (`No`), or could not be
/// judged (`Unknown`), for instance because its artifacts failed to install.
#[derive(Clone, Copy, Debug, PartialEq, Eq, Structural)]
pub enum Satisfies {
    Yes,
    No,
    Unknown,
}

/// The classifier's verdict on one run of the user program: the behaviour of
/// the known-good bound (`Baseline`) or the behaviour being hunted
/// (`Regressed`).
#[derive(Clone, Copy, Debug, PartialEq, Eq, Structural)]
pub enum TestOutcome {
    Baseline,
    Regressed,
}

/// The search looks for the first candidate that reproduces the regression,
/// so a regressed run satisfies it and a baseline run does not.
pub fn outcome_to_satisfies(outcome: TestOutcome) -> (r: Satisfies)
    ensures
        r == (match outcome {
            TestOutcome::Baseline => Satisfies::No,
            TestOutcome::Regressed => Satisfies::Yes,
        }),
{
    match outcome {
        TestOutcome::Baseline => Satisfies::No,
        TestOutcome::Regressed => Satisfies::Yes,
    }
}

/// What counts as a regression: the five ways a process result can be read.
#[derive(Clone, Copy, Debug, PartialEq, Eq, Structural)]
pub enum OutputProcessingMode {
    /// Regressed exactly when the process fails: the default reading.
    RegressOnErrorStatus,
    /// Regressed exactly when the process succeeds: hunting for a fix.
    RegressOnSuccessStatus,
    /// Regressed exactly when standard error shows an internal compiler
    /// error, whatever the exit status.
    RegressOnIceAlone,
    /// Regressed exactly when standard error shows no internal compiler
    /// error, whatever the exit status.
    RegressOnNotIce,
    /// Baseline only for a clean rejection: a failing status without an
    /// internal compiler error.
    RegressOnNonCleanError,
}

/// The diagnostic line fragment the compiler prints when it crashes.
pub open spec fn ice_marker_chars() -> Seq<char> {
    "error: internal compiler error"@
}

/// Standard error shows an internal compiler error.
pub open spec fn saw_ice(stderr: Seq<char>) -> bool {
    contains_seq(stderr, ice_marker_chars())
}

/// The verdict the classifier owes for a process result under a mode.
pub open spec fn classify_spec(
    mode: OutputProcessingMode,
    success: bool,
    stderr: Seq<char>,
) -> TestOutcome {
    match mode {
        OutputProcessingMode::RegressOnErrorStatus => if success {
            TestOutcome::Baseline
        } else {
            TestOutcome::Regressed
        },
        OutputProcessingMode::RegressOnSuccessStatus => if success {
            TestOutcome::Regressed
        } else {
            TestOutcome::Baseline
        },
        OutputProcessingMode::RegressOnIceAlone => if saw_ice(stderr) {
            TestOutcome::Regressed
        } else {
            TestOutcome::Baseline
        },
        OutputProcessingMode::RegressOnNotIce => if saw_ice(stderr) {
            TestOutcome::Baseline
        } else {
            TestOutcome::Regressed
        },
        OutputProcessingMode::RegressOnNonCleanError => if success {
            TestOutcome::Regressed
        } else if saw_ice(stderr) {
            TestOutcome::Regressed
        } else {
            TestOutcome::Baseline
        },
    }
}

/// Classifies one finished run of the user program: `success` is its exit
/// status, `stderr` its captured standard-error text as lossy UTF-8. The
/// marker is pure ASCII, so replacement characters from invalid bytes can
/// never produce a false match.
pub fn default_outcome_of_output(
    mode: OutputProcessingMode,
    success: bool,
    stderr: &str,
) -> (r: TestOutcome)
    ensures
        r == classify_spec(mode, success, stderr@),
{
    match mode {
        OutputProcessingMode::RegressOnErrorStatus => if success {
            TestOutcome::Baseline
        } else {
            TestOutcome::Regressed
        },
        OutputProcessingMode::RegressOnSuccessStatus => if success {
            TestOutcome::Regressed
        } else {
            TestOutcome::Baseline
        },
        OutputProcessingMode::RegressOnIceAlone => if contains_substr(
            stderr,
            "error: internal compiler error",
        ) {
            TestOutcome::Regressed
        } else {
            TestOutcome::Baseline
        },
        OutputProcessingMode::RegressOnNotIce => if contains_substr(
            stderr,
            "error: internal compiler error",
        ) {
            TestOutcome::Baseline
        } else {
            TestOutcome::Regressed
        },
        OutputProcessingMode::RegressOnNonCleanError => if success {
            TestOutcome::Regressed
        } else if contains_substr(stderr, "error: internal compiler error") {
            TestOutcome::Regressed
        } else {
            TestOutcome::Baseline
        },
    }
}

/// The name each regression mode goes by on the command line.
pub open spec fn regress_mode_of(s: Seq<char>) -> Option<OutputProcessingMode> {
    if s == "error"@ {
        Some(OutputProcessingMode::RegressOnErrorStatus)
    } else if s == "non-error"@ {
        Some(OutputProcessingMode::RegressOnNonCleanError)
    } else if s == "ice"@ {
        Some(OutputProcessingMode::RegressOnIceAlone)
    } else if s == "non-ice"@ {
        Some(OutputProcessingMode::RegressOnNotIce)
    } else if s == "success"@ {
        Some(OutputProcessingMode::RegressOnSuccessStatus)
    } else {
        None
    }
}

/// Reads a regression-mode name; any other word is rejected.
pub fn output_processing_mode(s: &str) -> (r: Option<OutputProcessingMode>)
    ensures
        r == regress_mode_of(s@),
{
    if str_eq_chars(s, "error") {
        Some(OutputProcessingMode::RegressOnErrorStatus)
    } else if str_eq_chars(s, "non-error") {
        Some(OutputProcessingMode::RegressOnNonCleanError)
    } else if str_eq_chars(s, "ice") {
        Some(OutputProcessingMode::RegressOnIceAlone)
    } else if str_eq_chars(s, "non-ice") {
        Some(OutputProcessingMode::RegressOnNotIce)
    } else if str_eq_chars(s, "success") {
        Some(OutputProcessingMode::RegressOnSuccessStatus)
    } else {
        None
    }
}

impl OutputProcessingMode {
    /// Whether this mode ever looks at standard error; the two that do not
    /// let the runner skip capturing it.
    pub fn must_process_stderr(&self) -> (r: bool)
        ensures
            r == (match *self {
                OutputProcessingMode::RegressOnErrorStatus
                | OutputProcessingMode::RegressOnSuccessStatus => false,
                _ => true,
            }),
    {
        match self {
            OutputProcessingMode::RegressOnErrorStatus
            | OutputProcessingMode::RegressOnSuccessStatus => false,
            OutputProcessingMode::RegressOnNonCleanError
            | OutputProcessingMode::RegressOnIceAlone
            | OutputProcessingMode::RegressOnNotIce => true,
        }
    }
}

} // verus!
