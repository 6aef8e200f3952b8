//! The decisions the bisection orchestrator makes between probes: which
//! dates seed the nightly phase, which range a report names, which commit
//! window the CI phase descends into, and when the found candidate must be
//! re-confirmed.

use vstd::prelude::*;
use chrono::Datelike;
use crate::bounds::Bound;
use crate::dates::GitDate;
use crate::errors::BisectError;
use crate::dates::day_num;
use crate::dates::prev_day;
use crate::dates::valid_date;
use crate::toolchain::Toolchain;
use crate::toolchain::ToolchainSpec;

verus! {

/// Relies on `chrono::Utc::now`: the current date in UTC, a real calendar
/// day with a four-digit year.
#[verifier::external_body]
pub fn today() -> (d: GitDate)
    ensures
        valid_date(d),
{
    let now = chrono::Utc::now().date_naive();
    GitDate { year: now.year() as u32, month: now.month(), day: now.day() }
}

/// The date the nightly walk seeds its probe with: the start bound when one
/// was given, the end date otherwise.
pub fn get_start_date(start: &Option<Bound>, end_date: GitDate) -> (d: GitDate)
    ensures
        d == (match *start {
            Some(Bound::Date(s)) => s,
            _ => end_date,
        }),
{
    match start {
        Some(Bound::Date(s)) => *s,
        _ => end_date,
    }
}

/// The date presumed to be the most recent failure: the end bound when one
/// was given, the default nightly when the runner knows one, today
/// otherwise.
pub fn get_end_date(end: &Option<Bound>, default_nightly: Option<GitDate>) -> (d: GitDate)
    requires
        (match *end {
            Some(Bound::Date(e)) => valid_date(e),
            _ => true,
        }),
        (match default_nightly {
            Some(n) => valid_date(n),
            None => true,
        }),
    ensures
        valid_date(d),
        (match *end {
            Some(Bound::Date(e)) => d == e,
            _ => (match default_nightly {
                Some(n) => d == n,
                None => true,
            }),
        }),
{
    match end {
        Some(Bound::Date(e)) => *e,
        _ => match default_nightly {
            Some(n) => n,
            None => today(),
        },
    }
}

/// A copy of a toolchain specifier that is the same value.
pub fn duplicate_spec(s: &ToolchainSpec) -> (r: ToolchainSpec)
    ensures
        r == *s,
{
    match s {
        ToolchainSpec::Nightly { date } => ToolchainSpec::Nightly { date: *date },
        ToolchainSpec::Ci { commit, alt } => ToolchainSpec::Ci { commit: commit.clone(), alt: *alt },
    }
}

/// The range a report names for a searched toolchain sequence: CI searches
/// report their own first and last candidate; nightly searches report the
/// user's start date when one was pinned, and the resolved end date.
pub fn searched_range(start: &Option<Bound>, end_date: GitDate, toolchains: &Vec<Toolchain>) -> (r:
    (ToolchainSpec, ToolchainSpec))
    requires
        toolchains@.len() > 0,
    ensures
        (match (toolchains@.first().spec, toolchains@.last().spec) {
            (ToolchainSpec::Ci { .. }, ToolchainSpec::Ci { .. }) => r.0 == toolchains@.first().spec
                && r.1 == toolchains@.last().spec,
            _ => {
                &&& r.0 == (match *start {
                    Some(Bound::Date(d)) => ToolchainSpec::Nightly { date: d },
                    _ => toolchains@.first().spec,
                })
                &&& r.1 == (ToolchainSpec::Nightly { date: end_date })
            },
        }),
{
    let first = duplicate_spec(&toolchains[0].spec);
    let last = duplicate_spec(&toolchains[toolchains.len() - 1].spec);
    let first_is_ci = match first {
        ToolchainSpec::Ci { .. } => true,
        _ => false,
    };
    let last_is_ci = match last {
        ToolchainSpec::Ci { .. } => true,
        _ => false,
    };
    if first_is_ci && last_is_ci {
        (first, last)
    } else {
        let start_spec = match start {
            Some(Bound::Date(d)) => ToolchainSpec::Nightly { date: *d },
            _ => first,
        };
        (start_spec, ToolchainSpec::Nightly { date: end_date })
    }
}

/// The one-day commit window the CI phase descends into once the nightly
/// phase has blamed a date: from the day before it to the day itself.
pub fn ci_window_for_nightly(date: &GitDate) -> (r: (GitDate, GitDate))
    requires
        valid_date(*date),
        day_num(*date) >= 1,
    ensures
        valid_date(r.0),
        r.1 == *date,
        day_num(r.0) == day_num(*date) - 1,
{
    (prev_day(date), *date)
}

/// Whether the search's answer needs one confirming probe: only when it is
/// the last candidate, whose regression was presumed rather than observed.
pub fn needs_final_confirmation(found: usize, len: usize) -> (r: bool)
    requires
        len > 0,
    ensures
        r == (found == len - 1),
{
    found == len - 1
}

/// Whether the run installs a single toolchain and exits instead of
/// bisecting.
pub fn chooses_install(install: &Option<Bound>) -> (r: bool)
    ensures
        r == (install is Some),
{
    match install {
        Some(_) => true,
        None => false,
    }
}

/// What a finished search hands back: the candidate sequence it looked at
/// and the index of the first regressed element.
pub struct BisectionResult {
    pub searched: Vec<Toolchain>,
    pub found: usize,
}

impl BisectionResult {
    /// The found index names an element of the searched sequence.
    pub open spec fn wf(self) -> bool {
        self.found < self.searched@.len()
    }

    /// Pairs a searched sequence with the index the search returned.
    pub fn new(searched: Vec<Toolchain>, found: usize) -> (r: BisectionResult)
        requires
            found < searched@.len(),
        ensures
            r.wf(),
            r.searched == searched,
            r.found == found,
    {
        BisectionResult { searched, found }
    }
}

/// Validates the probe of the first candidate of a commit range: it must
/// not reproduce the regression.
pub fn check_start_outcome(o: crate::outcome::TestOutcome) -> (r: Result<(), BisectError>)
    ensures
        r == (match o {
            crate::outcome::TestOutcome::Baseline => Ok::<(), BisectError>(()),
            crate::outcome::TestOutcome::Regressed => Err::<(), BisectError>(
                BisectError::EndpointBaseline,
            ),
        }),
{
    match o {
        crate::outcome::TestOutcome::Baseline => Ok(()),
        crate::outcome::TestOutcome::Regressed => Err(BisectError::EndpointBaseline),
    }
}

/// Validates the probe of the last candidate of a commit range: it must
/// reproduce the regression.
pub fn check_end_outcome(o: crate::outcome::TestOutcome) -> (r: Result<(), BisectError>)
    ensures
        r == (match o {
            crate::outcome::TestOutcome::Regressed => Ok::<(), BisectError>(()),
            crate::outcome::TestOutcome::Baseline => Err::<(), BisectError>(
                BisectError::EndpointRegression,
            ),
        }),
{
    match o {
        crate::outcome::TestOutcome::Regressed => Ok(()),
        crate::outcome::TestOutcome::Baseline => Err(BisectError::EndpointRegression),
    }
}

/// The first commit for which CI artifacts were ever published; the start
/// of a commit-typed search when the user gave none.
pub open spec fn epoch_commit_chars() -> Seq<char> {
    "927c55d86b0be44337f37cf5b0a76fb8ba86e06c"@
}

/// The reference a commit-typed search ends at when the user gave none.
pub open spec fn master_ref_chars() -> Seq<char> {
    "origin/master"@
}

/// The references a commit-typed search runs between: the given hashes, or
/// the epoch commit and the branch head where a bound is missing.
pub fn ci_range_refs(start: &Option<Bound>, end: &Option<Bound>) -> (r: (String, String))
    ensures
        r.0@ == (match *start {
            Some(Bound::Commit(c)) => c@,
            _ => epoch_commit_chars(),
        }),
        r.1@ == (match *end {
            Some(Bound::Commit(c)) => c@,
            _ => master_ref_chars(),
        }),
{
    let s = match start {
        Some(Bound::Commit(c)) => c.clone(),
        _ => {
            let e: &str = "927c55d86b0be44337f37cf5b0a76fb8ba86e06c";
            e.to_owned()
        },
    };
    let e = match end {
        Some(Bound::Commit(c)) => c.clone(),
        _ => {
            let m: &str = "origin/master";
            m.to_owned()
        },
    };
    (s, e)
}

} // verus!
