//! The two kinds of search bound a user can give: a calendar date or a
//! commit reference.

use vstd::prelude::*;
use vstd::string::StrSliceExecFns;
use crate::dates::GitDate;
use crate::dates::day_num;
use crate::dates::valid_date;
use crate::datestr::parse_date;
use crate::datestr::parse_date_chars;
use crate::errors::BisectError;

verus! {

/// A bound for the search: anything that parses as `YYYY-MM-DD` is a date,
/// everything else is taken verbatim as a commit reference.
#[derive(Clone, Debug)]
pub enum Bound {
    Commit(String),
    Date(GitDate),
}

impl Bound {
    /// A bound carries a representable date or an arbitrary reference.
    pub open spec fn well_formed(self) -> bool {
        match self {
            Bound::Date(d) => valid_date(d),
            Bound::Commit(_) => true,
        }
    }

    /// Reads a bound: the named date when the text has the date shape, the
    /// text itself as a commit reference otherwise.
    pub fn from_text(s: &str) -> (r: Bound)
        ensures
            (match r {
                Bound::Date(d) => parse_date_chars(s@) == Some(d),
                Bound::Commit(c) => parse_date_chars(s@) is None && c@ == s@,
            }),
            r.well_formed(),
    {
        match parse_date(s) {
            Some(d) => Bound::Date(d),
            None => Bound::Commit(s.to_owned()),
        }
    }
}

/// An optional bound holds a representable date if it holds a date at all.
pub open spec fn opt_bound_well_formed(b: Option<Bound>) -> bool {
    match b {
        Some(bb) => bb.well_formed(),
        None => true,
    }
}

/// Two date bounds in the wrong order: the only rejected combination.
pub open spec fn bounds_out_of_order(start: Option<Bound>, end: Option<Bound>) -> bool {
    match (start, end) {
        (Some(Bound::Date(a)), Some(Bound::Date(b))) => day_num(b) < day_num(a),
        _ => false,
    }
}

/// Rejects a pair of date bounds whose end lies before its start; every
/// other combination passes.
pub fn check_bounds(start: &Option<Bound>, end: &Option<Bound>) -> (r: Result<(), BisectError>)
    requires
        opt_bound_well_formed(*start),
        opt_bound_well_formed(*end),
    ensures
        r == (if bounds_out_of_order(*start, *end) {
            Err::<(), BisectError>(BisectError::BoundOrder)
        } else {
            Ok::<(), BisectError>(())
        }),
{
    match (start, end) {
        (Some(Bound::Date(a)), Some(Bound::Date(b))) => {
            if crate::dates::date_lt(b, a) {
                Err(BisectError::BoundOrder)
            } else {
                Ok(())
            }
        },
        _ => Ok(()),
    }
}

/// Whether a run must first convert its date bounds to commits: only when
/// both bounds are dates and the user asked to descend by commit.
pub fn wants_date_to_commit_conversion(kind: Option<bool>, by_commit: bool) -> (r: bool)
    ensures
        r == (kind == Some(false) && by_commit),
{
    by_commit && (match kind {
        Some(k) => !k,
        None => false,
    })
}

/// What kind of bisection a pair of bounds asks for: by commit, by date, or
/// unconstrained; a mixed pair is an error.
pub open spec fn bounds_kind(start: Option<Bound>, end: Option<Bound>) -> Result<
    Option<bool>,
    BisectError,
> {
    match (start, end) {
        (Some(Bound::Commit(_)), Some(Bound::Commit(_))) => Ok(Some(true)),
        (None, Some(Bound::Commit(_))) => Ok(Some(true)),
        (Some(Bound::Commit(_)), None) => Ok(Some(true)),
        (Some(Bound::Date(_)), Some(Bound::Date(_))) => Ok(Some(false)),
        (None, Some(Bound::Date(_))) => Ok(Some(false)),
        (Some(Bound::Date(_)), None) => Ok(Some(false)),
        (None, None) => Ok(None),
        _ => Err(BisectError::BoundMismatch),
    }
}

/// Tells commit-typed from date-typed bounds, and rejects a mixed pair.
pub fn classify_bounds(start: &Option<Bound>, end: &Option<Bound>) -> (r: Result<
    Option<bool>,
    BisectError,
>)
    ensures
        r == bounds_kind(*start, *end),
{
    match (start, end) {
        (Some(Bound::Commit(_)), Some(Bound::Commit(_))) => Ok(Some(true)),
        (None, Some(Bound::Commit(_))) => Ok(Some(true)),
        (Some(Bound::Commit(_)), None) => Ok(Some(true)),
        (Some(Bound::Date(_)), Some(Bound::Date(_))) => Ok(Some(false)),
        (None, Some(Bound::Date(_))) => Ok(Some(false)),
        (Some(Bound::Date(_)), None) => Ok(Some(false)),
        (None, None) => Ok(None),
        _ => Err(BisectError::BoundMismatch),
    }
}

} // verus!
