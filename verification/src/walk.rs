//! The nightly phase of the bisection: walking backwards from the newest
//! failing nightly until one builds cleanly.
//!
//! The walk is a state machine; whoever drives it installs and tests the
//! nightly the machine asks for and hands the observed event back. The
//! machine seeds its probe date with the start bound (or, when none was
//! given, with the end bound), keeps the most recent regressed date as
//! `last_failure`, and steps backwards along the nightly finder until a
//! nightly does not reproduce the regression. A nightly missing from the
//! mirror moves the probe one single day back instead, unless the user
//! pinned the start, which makes the miss fatal. The walk never asks for a
//! date at or before the hard floor of 2015-10-20, the first day the
//! standard-library packages were published; reaching the floor fails the
//! walk. Once a clean nightly is found, the machine asks for one confirming
//! probe of `last_failure` before declaring the one-sided range ready.

use vstd::prelude::*;
use crate::dates::GitDate;
use crate::dates::date_le;
use crate::dates::day_num;
use crate::dates::day_number;
use crate::dates::prev_day;
use crate::dates::valid_date;
use crate::errors::BisectError;
use crate::finder::NightlyFinderIter;
use crate::finder::stride_spec;

verus! {

/// The oldest nightly that can be probed at all: standard-library packages
/// exist only after this day.
pub open spec fn floor_date() -> GitDate {
    GitDate { year: 2015, month: 10, day: 20 }
}

/// The day measure of the floor.
pub open spec fn floor_day() -> int {
    736256
}

/// The literal floor measure is the day measure of the floor date.
pub proof fn lemma_floor_day()
    ensures
        day_num(floor_date()) == floor_day(),
{
}

/// Whether a date lies strictly after the floor.
fn above_floor(d: &GitDate) -> (r: bool)
    requires
        valid_date(*d),
    ensures
        r == (day_num(*d) > floor_day()),
{
    day_number(d) > 736256
}

/// Where the walk stands.
#[derive(Clone, Copy, Debug, PartialEq, Eq, Structural)]
pub enum WalkPhase {
    /// Still searching backwards; the machine asks to probe its current
    /// date.
    Probing,
    /// A clean nightly was found; the machine asks to re-confirm the most
    /// recent failing date.
    Confirming { first_success: GitDate },
    /// The range from the clean nightly to the confirmed failing nightly is
    /// ready to be searched day by day.
    Ready { first_success: GitDate },
    /// The walk failed.
    Failed { error: BisectError },
}

/// What one probe of a nightly observed.
#[derive(Clone, Copy, Debug, PartialEq, Eq, Structural)]
pub enum WalkEvent {
    /// The nightly reproduces the regression.
    Regressed,
    /// The nightly behaves like the baseline.
    Baseline,
    /// The nightly's artifacts are missing from the mirror.
    NotFound,
    /// Installing or testing failed for another, fatal, reason.
    Fatal { error: BisectError },
}

/// The nightly-phase state machine.
pub struct NightlyWalk {
    /// Whether the user pinned the start of the range.
    pub has_start: bool,
    /// The date the machine wants probed while it is still searching.
    pub current: GitDate,
    /// The most recent date known or presumed to reproduce the regression.
    pub last_failure: GitDate,
    /// The stride generator for stepping backwards.
    pub finder: NightlyFinderIter,
    pub phase: WalkPhase,
}

impl NightlyWalk {
    /// Everything the machine guarantees between steps. In particular, any
    /// date it asks to have probed lies strictly after the floor.
    pub open spec fn inv(self) -> bool {
        &&& valid_date(self.current)
        &&& valid_date(self.last_failure)
        &&& valid_date(self.finder.start_date)
        &&& valid_date(self.finder.current_date)
        &&& day_num(self.current) <= day_num(self.finder.current_date) <= day_num(
            self.finder.start_date,
        )
        &&& (self.phase is Probing ==> day_num(self.current) > floor_day())
        &&& (!(self.phase is Failed) ==> day_num(self.last_failure) > floor_day())
        &&& (match self.phase {
            WalkPhase::Confirming { first_success } => valid_date(first_success) && floor_day()
                < day_num(first_success) <= day_num(self.last_failure),
            WalkPhase::Ready { first_success } => valid_date(first_success) && floor_day()
                < day_num(first_success) <= day_num(self.last_failure),
            _ => true,
        })
    }

    /// Seeds the walk: the probe date starts at the start bound or, when
    /// none was given, at the end bound; the end bound is presumed to be
    /// the most recent failure. A seed already at or below the floor fails
    /// at once, before anything is probed.
    pub fn new(seed: GitDate, end: GitDate, has_start: bool) -> (w: NightlyWalk)
        requires
            valid_date(seed),
            valid_date(end),
            day_num(seed) <= day_num(end),
        ensures
            w.inv(),
            w.has_start == has_start,
            w.current == seed,
            w.last_failure == end,
            w.finder.start_date == seed,
            w.finder.current_date == seed,
            w.phase == (if day_num(seed) > floor_day() {
                WalkPhase::Probing
            } else {
                WalkPhase::Failed { error: BisectError::NoBaselineFound }
            }),
    {
        let phase = if above_floor(&seed) {
            WalkPhase::Probing
        } else {
            WalkPhase::Failed { error: BisectError::NoBaselineFound }
        };
        NightlyWalk {
            has_start,
            current: seed,
            last_failure: end,
            finder: NightlyFinderIter::new(seed),
            phase,
        }
    }

    /// The date the machine wants probed next, if it is not finished. Every
    /// date handed out lies strictly after the floor: a nightly from
    /// 2015-10-20 or earlier is never probed.
    pub fn query(&self) -> (r: Option<GitDate>)
        requires
            self.inv(),
        ensures
            (match r {
                Some(d) => valid_date(d) && day_num(d) > floor_day() && ((self.phase is Probing
                    && d == self.current) || ((self.phase matches WalkPhase::Confirming { .. })
                    && d == self.last_failure)),
                None => (self.phase is Ready) || (self.phase is Failed),
            }),
            (r is None) <==> ((self.phase is Ready) || (self.phase is Failed)),
    {
        match self.phase {
            WalkPhase::Probing => Some(self.current),
            WalkPhase::Confirming { .. } => Some(self.last_failure),
            WalkPhase::Ready { .. } => None,
            WalkPhase::Failed { .. } => None,
        }
    }

    /// Feeds the machine what the probe of its queried date observed. One
    /// corner is closed off rather than searched: when misses from the
    /// mirror have pushed the probe date around so far that a clean nightly
    /// turns up newer than the newest known failure, no usable range exists
    /// and the walk fails instead of declaring one.
    #[verifier::rlimit(100)]
    pub fn step(&mut self, ev: WalkEvent)
        requires
            old(self).inv(),
            (old(self).phase is Probing) || (old(self).phase matches WalkPhase::Confirming { .. }),
        ensures
            final(self).inv(),
            final(self).has_start == old(self).has_start,
            (match (old(self).phase, ev) {
                (WalkPhase::Probing, WalkEvent::Regressed) => {
                    if old(self).has_start {
                        final(self).phase == (WalkPhase::Failed {
                            error: BisectError::EndpointBaseline,
                        }) && final(self).current == old(self).current && final(self).last_failure
                            == old(self).last_failure
                    } else {
                        &&& final(self).last_failure == old(self).current
                        &&& day_num(final(self).current) == day_num(old(self).finder.current_date)
                            - stride_spec(
                            day_num(old(self).finder.start_date) - day_num(
                                old(self).finder.current_date,
                            ),
                        )
                        &&& final(self).finder.current_date == final(self).current
                        &&& final(self).finder.start_date == old(self).finder.start_date
                        &&& final(self).phase == (if day_num(final(self).current) > floor_day() {
                            WalkPhase::Probing
                        } else {
                            WalkPhase::Failed { error: BisectError::NoBaselineFound }
                        })
                    }
                },
                (WalkPhase::Probing, WalkEvent::Baseline) => {
                    &&& final(self).phase == (if day_num(old(self).current) <= day_num(
                        old(self).last_failure,
                    ) {
                        WalkPhase::Confirming { first_success: old(self).current }
                    } else {
                        WalkPhase::Failed { error: BisectError::NoBaselineFound }
                    })
                    &&& final(self).current == old(self).current
                    &&& final(self).last_failure == old(self).last_failure
                },
                (WalkPhase::Probing, WalkEvent::NotFound) => {
                    &&& day_num(final(self).current) == day_num(old(self).current) - 1
                    &&& final(self).last_failure == old(self).last_failure
                    &&& final(self).phase == (if old(self).has_start {
                        WalkPhase::Failed { error: BisectError::AccessorError }
                    } else if day_num(old(self).current) - 1 > floor_day() {
                        WalkPhase::Probing
                    } else {
                        WalkPhase::Failed { error: BisectError::NoBaselineFound }
                    })
                },
                (WalkPhase::Probing, WalkEvent::Fatal { error }) => final(self).phase == (
                WalkPhase::Failed { error }),
                (WalkPhase::Confirming { first_success }, WalkEvent::Regressed) => {
                    &&& final(self).phase == (WalkPhase::Ready { first_success })
                    &&& final(self).last_failure == old(self).last_failure
                },
                (WalkPhase::Confirming { .. }, WalkEvent::Baseline) => final(self).phase == (
                WalkPhase::Failed { error: BisectError::EndpointRegression }),
                (WalkPhase::Confirming { .. }, WalkEvent::NotFound) => final(self).phase == (
                WalkPhase::Failed { error: BisectError::NoSuchArtifact }),
                (WalkPhase::Confirming { .. }, WalkEvent::Fatal { error }) => final(self).phase
                    == (WalkPhase::Failed { error }),
                _ => true,
            }),
    {
        match self.phase {
            WalkPhase::Probing => {
                match ev {
                    WalkEvent::Regressed => {
                        if self.has_start {
                            self.phase = WalkPhase::Failed {
                                error: BisectError::EndpointBaseline,
                            };
                        } else {
                            self.last_failure = self.current;
                            proof {
                                assert(floor_day() >= 14);
                            }
                            let next = self.finder.next();
                            self.current = next;
                            if above_floor(&self.current) {
                                self.phase = WalkPhase::Probing;
                            } else {
                                self.phase = WalkPhase::Failed {
                                    error: BisectError::NoBaselineFound,
                                };
                            }
                        }
                    },
                    WalkEvent::Baseline => {
                        if date_le(&self.current, &self.last_failure) {
                            self.phase = WalkPhase::Confirming { first_success: self.current };
                        } else {
                            self.phase = WalkPhase::Failed {
                                error: BisectError::NoBaselineFound,
                            };
                        }
                    },
                    WalkEvent::NotFound => {
                        proof {
                            assert(floor_day() >= 1);
                        }
                        self.current = prev_day(&self.current);
                        if self.has_start {
                            self.phase = WalkPhase::Failed { error: BisectError::AccessorError };
                        } else {
                            if above_floor(&self.current) {
                                self.phase = WalkPhase::Probing;
                            } else {
                                self.phase = WalkPhase::Failed {
                                    error: BisectError::NoBaselineFound,
                                };
                            }
                        }
                    },
                    WalkEvent::Fatal { error } => {
                        self.phase = WalkPhase::Failed { error };
                    },
                }
            },
            WalkPhase::Confirming { first_success } => {
                match ev {
                    WalkEvent::Regressed => {
                        self.phase = WalkPhase::Ready { first_success };
                    },
                    WalkEvent::Baseline => {
                        self.phase = WalkPhase::Failed { error: BisectError::EndpointRegression };
                    },
                    WalkEvent::NotFound => {
                        self.phase = WalkPhase::Failed { error: BisectError::NoSuchArtifact };
                    },
                    WalkEvent::Fatal { error } => {
                        self.phase = WalkPhase::Failed { error };
                    },
                }
            },
            _ => {
                proof {
                    assert(false);
                }
            },
        }
    }
}

} // verus!
