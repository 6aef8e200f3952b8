//! The least-satisfying search: a binary search that tolerates probes whose
//! answer is `Unknown`.
//!
//! The search looks for the smallest index of a sequence whose probe answers
//! `Yes`, assuming the last element does. It is a classical binary search
//! over a half-open window; when the midpoint probe is inconclusive it walks
//! outward from the midpoint, alternating one below, one above, two below,
//! and so on, until a conclusive answer narrows the window. If everything
//! left in the window is inconclusive, the upper end of the window is the
//! leftmost index that can still be the answer, and it is returned.
//!
//! Probing is expensive, so the search is a state machine: [`SearchState`]
//! names the next index to probe and [`SearchState::answer`] consumes the
//! answer. [`least_satisfying`] runs the machine over a fully known answer
//! sequence and carries the headline contract.

use vstd::prelude::*;
use crate::outcome::Satisfies;

verus! {

/// Where the machine stands: about to bisect its window, walking outward
/// from an inconclusive midpoint, or finished.
#[derive(Clone, Copy, Debug, PartialEq, Eq, Structural)]
pub enum SearchPhase {
    Bisect,
    Scan { mid: usize, dist: usize, low_side: bool },
    Done { found: usize },
}

/// The machine of the least-satisfying search over a sequence of length `n`
/// whose last element is presumed to answer `Yes`. The window `[lo, hi)`
/// always lies inside `[0, n - 1)`; indices at or above `hi` are known or
/// presumed to answer `Yes`, and the index just below `lo`, if any, answered
/// `No`.
pub struct SearchState {
    pub n: usize,
    pub lo: usize,
    pub hi: usize,
    pub phase: SearchPhase,
    /// Every answer the machine has been given, by index.
    pub answers: Ghost<Map<int, Satisfies>>,
}

impl SearchState {
    /// The machine recorded this answer for this index.
    pub open spec fn answered_is(self, i: int, a: Satisfies) -> bool {
        self.answers@.contains_key(i) && self.answers@[i] == a
    }

    /// The index the machine wants probed next.
    pub open spec fn current_query_spec(self) -> int {
        match self.phase {
            SearchPhase::Bisect => self.lo + (self.hi - self.lo) / 2,
            SearchPhase::Scan { mid, dist, low_side } => if low_side {
                mid - dist
            } else {
                mid + dist
            },
            SearchPhase::Done { found } => 0,
        }
    }

    /// Everything the machine guarantees between steps.
    pub open spec fn inv(self) -> bool {
        &&& self.n >= 1
        &&& self.lo <= self.hi <= self.n - 1
        &&& self.lo > 0 ==> self.answered_is(self.lo - 1, Satisfies::No)
        &&& self.hi < self.n - 1 ==> self.answered_is(self.hi as int, Satisfies::Yes)
        &&& match self.phase {
            SearchPhase::Bisect => self.lo < self.hi,
            SearchPhase::Scan { mid, dist, low_side } => {
                &&& self.lo <= mid < self.hi
                &&& 1 <= dist
                &&& self.answered_is(mid as int, Satisfies::Unknown)
                &&& (low_side ==> dist <= mid - self.lo)
                &&& (!low_side ==> dist < self.hi - mid)
                &&& (forall|i: int|
                    self.lo <= i < self.hi && mid - dist < i < mid + dist
                        ==> #[trigger] self.answered_is(i, Satisfies::Unknown))
                &&& (!low_side ==> self.lo <= mid - dist ==> self.answered_is(
                    mid - dist,
                    Satisfies::Unknown,
                ))
            },
            SearchPhase::Done { found } => {
                &&& self.lo <= found <= self.hi
                &&& found < self.n - 1 ==> self.answered_is(found as int, Satisfies::Yes)
                &&& found > 0 ==> (self.answered_is(found - 1, Satisfies::No) || self.answered_is(
                    found - 1,
                    Satisfies::Unknown,
                ))
                &&& (forall|i: int|
                    self.lo <= i < found ==> #[trigger] self.answered_is(i, Satisfies::Unknown))
            },
        }
    }

    /// A rank that falls with every inconclusive step inside one window.
    pub open spec fn rank(self) -> int {
        match self.phase {
            SearchPhase::Bisect => 2 * (self.hi - self.lo) + 2,
            SearchPhase::Scan { mid, dist, low_side } => 2 * ((self.hi - self.lo) - dist) + (
            if low_side {
                1int
            } else {
                0int
            }),
            SearchPhase::Done { found } => 0,
        }
    }

    /// Starts a search over a sequence of length `n` whose last element is
    /// presumed to answer `Yes`.
    pub fn new(n: usize) -> (s: SearchState)
        requires
            n >= 1,
        ensures
            s.inv(),
            s.n == n,
            s.lo == 0,
            s.answers@ == Map::<int, Satisfies>::empty(),
    {
        if n == 1 {
            SearchState {
                n,
                lo: 0,
                hi: 0,
                phase: SearchPhase::Done { found: 0 },
                answers: Ghost(Map::empty()),
            }
        } else {
            SearchState {
                n,
                lo: 0,
                hi: n - 1,
                phase: SearchPhase::Bisect,
                answers: Ghost(Map::empty()),
            }
        }
    }

    /// The next index to probe, or nothing once the search is finished.
    pub fn next_probe(&self) -> (r: Option<usize>)
        requires
            self.inv(),
        ensures
            match r {
                Some(q) => !(self.phase is Done) && q == self.current_query_spec() && self.lo <= q
                    < self.hi,
                None => self.phase is Done,
            },
    {
        match self.phase {
            SearchPhase::Bisect => Some(self.lo + (self.hi - self.lo) / 2),
            SearchPhase::Scan { mid, dist, low_side } => if low_side {
                Some(mid - dist)
            } else {
                Some(mid + dist)
            },
            SearchPhase::Done { .. } => None,
        }
    }

    /// The answer of the search, once it is finished.
    pub fn found(&self) -> (r: usize)
        requires
            (self.phase is Done),
        ensures
            self.phase == (SearchPhase::Done { found: r }),
    {
        match self.phase {
            SearchPhase::Done { found } => found,
            _ => {
                proof {
                    assert(false);
                }
                0
            },
        }
    }

    /// Feeds the machine the answer of the probe it asked for. The window
    /// never grows, and either the search finishes or it makes strict
    /// progress: the window shrinks, or the rank falls within it.
    pub fn answer(&mut self, a: Satisfies)
        requires
            old(self).inv(),
            !(old(self).phase is Done),
        ensures
            final(self).inv(),
            final(self).n == old(self).n,
            final(self).answers@ == old(self).answers@.insert(old(self).current_query_spec(), a),
            old(self).lo <= final(self).lo,
            final(self).hi <= old(self).hi,
            !(final(self).phase is Done) ==> {
                ||| final(self).hi - final(self).lo < old(self).hi - old(self).lo
                ||| (final(self).hi - final(self).lo == old(self).hi - old(self).lo
                    && final(self).rank() < old(self).rank())
            },
    {
        let ghost orig = *self;
        let q: usize = match self.phase {
            SearchPhase::Bisect => self.lo + (self.hi - self.lo) / 2,
            SearchPhase::Scan { mid, dist, low_side } => if low_side {
                mid - dist
            } else {
                mid + dist
            },
            SearchPhase::Done { .. } => {
                proof {
                    assert(false);
                }
                0
            },
        };
        proof {
            assert(orig.current_query_spec() == q as int);
        }
        self.answers = Ghost(self.answers@.insert(q as int, a));
        proof {
            assert(self.answered_is(q as int, a));
            assert forall|i: int|
                orig.answers@.contains_key(i) && i != q as int implies (
            #[trigger] self.answers@.contains_key(i) && self.answers@[i]
                == orig.answers@[i]) by {}
        }
        match a {
            Satisfies::Yes => {
                self.hi = q;
                if self.lo == self.hi {
                    self.phase = SearchPhase::Done { found: q };
                } else {
                    self.phase = SearchPhase::Bisect;
                }
            },
            Satisfies::No => {
                self.lo = q + 1;
                if self.lo == self.hi {
                    self.phase = SearchPhase::Done { found: self.hi };
                } else {
                    self.phase = SearchPhase::Bisect;
                }
            },
            Satisfies::Unknown => {
                let ghost pre = *self;
                let lo = self.lo;
                let hi = self.hi;
                let (mid, mut dist, mut try_low) = match self.phase {
                    SearchPhase::Bisect => (q, 1usize, true),
                    SearchPhase::Scan { mid, dist, low_side } => if low_side {
                        (mid, dist, false)
                    } else {
                        (mid, dist + 1, true)
                    },
                    SearchPhase::Done { .. } => {
                        proof {
                            assert(false);
                        }
                        (0usize, 1usize, true)
                    },
                };
                proof {
                    assert forall|i: int|
                        lo <= i < hi && mid - dist < i < mid + dist implies (
                    #[trigger] pre.answered_is(i, Satisfies::Unknown)) by {
                        if i != q as int {
                            assert(orig.answered_is(i, Satisfies::Unknown));
                        }
                    }
                }
                let mut exhausted = false;
                loop
                    invariant_except_break
                        !exhausted,
                    invariant
                        hi < pre.n,
                        lo <= mid < hi,
                        1 <= dist,
                        pre.answered_is(mid as int, Satisfies::Unknown),
                        try_low ==> dist <= hi - lo + 1,
                        !try_low ==> dist <= hi - lo,
                        forall|i: int|
                            lo <= i < hi && mid - dist < i < mid + dist
                                ==> #[trigger] pre.answered_is(i, Satisfies::Unknown),
                        !try_low ==> lo <= mid - dist ==> pre.answered_is(
                            mid - dist,
                            Satisfies::Unknown,
                        ),
                        2 * ((hi - lo) - dist) + (if try_low {
                            1int
                        } else {
                            0int
                        }) < orig.rank(),
                    ensures
                        lo <= mid < hi,
                        1 <= dist,
                        forall|i: int|
                            lo <= i < hi && mid - dist < i < mid + dist
                                ==> #[trigger] pre.answered_is(i, Satisfies::Unknown),
                        !exhausted ==> (try_low ==> dist <= mid - lo) && (!try_low ==> dist < hi
                            - mid),
                        !exhausted ==> 2 * ((hi - lo) - dist) + (if try_low {
                            1int
                        } else {
                            0int
                        }) < orig.rank(),
                        exhausted ==> mid - lo < dist && hi - mid <= dist,
                    decreases
                            2 * (hi - lo) + 2 - 2 * dist - (if try_low {
                                0int
                            } else {
                                1int
                            }),
                {
                    if try_low {
                        if dist <= mid - lo {
                            break ;
                        }
                        if dist >= hi - mid {
                            exhausted = true;
                            break ;
                        }
                        try_low = false;
                    } else {
                        if dist < hi - mid {
                            break ;
                        }
                        proof {
                            assert forall|i: int|
                                lo <= i < hi && mid - (dist + 1) < i < mid + (dist + 1) implies (
                            #[trigger] pre.answered_is(i, Satisfies::Unknown)) by {
                                if i == mid - dist {
                                    assert(lo <= mid - dist);
                                } else if i == mid + dist {
                                    assert(false);
                                }
                            }
                        }
                        dist = dist + 1;
                        try_low = true;
                    }
                }
                if exhausted {
                    self.phase = SearchPhase::Done { found: self.hi };
                    proof {
                        assert forall|i: int|
                            self.lo <= i < self.hi implies #[trigger] self.answered_is(
                            i,
                            Satisfies::Unknown,
                        ) by {
                            assert(pre.answered_is(i, Satisfies::Unknown));
                        }
                    }
                } else {
                    self.phase = SearchPhase::Scan { mid, dist, low_side: try_low };
                    proof {
                        assert forall|i: int|
                            self.lo <= i < self.hi && mid - dist < i < mid + dist implies (
                        #[trigger] self.answered_is(i, Satisfies::Unknown)) by {
                            assert(pre.answered_is(i, Satisfies::Unknown));
                        }
                        assert(self.answered_is(mid as int, Satisfies::Unknown)) by {
                            assert(pre.answered_is(mid as int, Satisfies::Unknown));
                        }
                    }
                }
            },
        }
    }
}

/// A probe sequence is consistent with a monotone truth whose boundary is
/// `m`: nothing before `m` answered `Yes` and nothing from `m` on answered
/// `No`.
pub open spec fn consistent_with(s: Seq<Satisfies>, m: int) -> bool {
    &&& 0 <= m <= s.len()
    &&& (forall|i: int| 0 <= i < m ==> s[i] != Satisfies::Yes)
    &&& (forall|i: int| m <= i < s.len() ==> s[i] != Satisfies::No)
}

/// No index below `b` answered `Yes`.
pub open spec fn no_yes_below(s: Seq<Satisfies>, b: int) -> bool {
    forall|i: int| 0 <= i < b ==> s[i] != Satisfies::Yes
}

/// Runs the least-satisfying search over a sequence of probe answers whose
/// last element is `Yes`, and returns the smallest index that can be the
/// first `Yes`: the returned index answered `Yes`, the index before it, if
/// any, did not, and whenever the answers are consistent with a monotone
/// truth the returned index is itself a plausible boundary.
pub fn least_satisfying(outcomes: &Vec<Satisfies>) -> (k: usize)
    requires
        outcomes@.len() >= 1,
        outcomes@.last() == Satisfies::Yes,
    ensures
        k < outcomes@.len(),
        outcomes@[k as int] == Satisfies::Yes,
        k > 0 ==> outcomes@[k as int - 1] != Satisfies::Yes,
        forall|m: int| consistent_with(outcomes@, m) ==> m <= k && no_yes_below(outcomes@, k as int),
{
    let ghost s = outcomes@;
    let mut st = SearchState::new(outcomes.len());
    loop
        invariant
            st.inv(),
            st.n == s.len(),
            s == outcomes@,
            s.len() >= 1,
            s.last() == Satisfies::Yes,
            forall|i: int|
                #[trigger] st.answers@.contains_key(i) ==> 0 <= i < s.len() && st.answers@[i]
                    == s[i],
            forall|m: int|
                #[trigger] consistent_with(s, m) ==> no_yes_below(s, st.lo as int),
        decreases st.hi - st.lo, st.rank(),
    {
        match st.next_probe() {
            Some(q) => {
                let ghost old_lo = st.lo;
                let a = outcomes[q];
                st.answer(a);
                proof {
                    if st.lo > old_lo {
                        assert(st.answered_is(st.lo - 1, Satisfies::No));
                        assert(s[st.lo - 1] == Satisfies::No);
                        assert forall|m: int| #[trigger]
                            consistent_with(s, m) implies no_yes_below(s, st.lo as int) by {
                            assert(m > st.lo - 1);
                        }
                    }
                }
            },
            None => {
                let k = st.found();
                proof {
                    if k < st.n - 1 {
                        assert(st.answered_is(k as int, Satisfies::Yes));
                    }
                    assert(s[k as int] == Satisfies::Yes);
                    if k > 0 {
                        assert(s[k as int - 1] != Satisfies::Yes);
                    }
                    assert forall|m: int| #[trigger]
                        consistent_with(s, m) implies m <= k && no_yes_below(s, k as int) by {
                        assert(s[k as int] == Satisfies::Yes);
                        assert(m <= k);
                        assert forall|i: int| 0 <= i < k implies s[i] != Satisfies::Yes by {
                            if i < st.lo {
                                assert(no_yes_below(s, st.lo as int));
                            } else {
                                assert(st.answered_is(i, Satisfies::Unknown));
                            }
                        }
                    }
                }
                return k;
            },
        }
    }
}

/// When the probe answers are fully conclusive and monotone, with first
/// `Yes` at `m`, any index the search can return equals `m` exactly.
pub proof fn lemma_monotone_probe_exact(s: Seq<Satisfies>, m: int, k: int)
    requires
        0 <= m < s.len(),
        forall|i: int| 0 <= i < m ==> s[i] == Satisfies::No,
        forall|i: int| m <= i < s.len() ==> s[i] == Satisfies::Yes,
        0 <= k < s.len(),
        s[k] == Satisfies::Yes,
        k > 0 ==> s[k - 1] != Satisfies::Yes,
    ensures
        k == m,
{
    if k < m {
        assert(s[k] == Satisfies::No);
    }
    if k > m {
        assert(s[k - 1] == Satisfies::Yes);
    }
}

/// When the probe answers are consistent with some monotone truth, an index
/// that answered `Yes` with nothing answering `Yes` below it is itself a
/// plausible boundary: the search stays within the interval of plausible
/// first-`Yes` indices.
pub proof fn lemma_unknown_tolerant_bounds(s: Seq<Satisfies>, m: int, k: int)
    requires
        consistent_with(s, m),
        0 <= k < s.len(),
        s[k] == Satisfies::Yes,
        no_yes_below(s, k),
    ensures
        m <= k,
        consistent_with(s, k),
{
    assert(s[k] != Satisfies::Yes || k >= m);
    assert forall|i: int| k <= i < s.len() implies s[i] != Satisfies::No by {
        assert(i >= m);
    }
}

} // verus!
