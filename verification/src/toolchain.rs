//! The toolchain model: what one candidate of the search is.
//!
//! A candidate is a toolchain specifier — a nightly named by a date, or a CI
//! build named by a commit with an optional alternate flavor — together with
//! the host triple and the list of standard-library targets to install. The
//! target list is always sorted and deduplicated.

use vstd::prelude::*;
use vstd::string::StringSliceAdditionalSpecFns;
use vstd::utf8::encode_utf8;
use crate::dates::GitDate;
use crate::dates::day_num;
use crate::dates::next_day;
use crate::dates::valid_date;
use crate::strutil::str_eq_chars;

verus! {

/// Which build a candidate is: a dated nightly or a per-commit CI build,
/// possibly of the alternate flavor.
#[derive(Clone, Debug)]
pub enum ToolchainSpec {
    Nightly { date: GitDate },
    Ci { commit: String, alt: bool },
}

/// One candidate of the search.
#[derive(Clone, Debug)]
pub struct Toolchain {
    pub spec: ToolchainSpec,
    pub host: String,
    pub std_targets: Vec<String>,
}

/// The bytes a string encodes to; strings sort by them.
pub open spec fn string_bytes(s: String) -> Seq<u8> {
    encode_utf8(s@)
}

/// Strict lexicographic order on byte sequences.
pub open spec fn lex_lt_bytes(a: Seq<u8>, b: Seq<u8>) -> bool
    decreases a.len(),
{
    if b.len() == 0 {
        false
    } else if a.len() == 0 {
        true
    } else if a[0] < b[0] {
        true
    } else if a[0] > b[0] {
        false
    } else {
        lex_lt_bytes(a.skip(1), b.skip(1))
    }
}

/// When neither sequence is lexicographically below the other, they are the
/// same sequence.
pub proof fn lemma_lex_lt_total(a: Seq<u8>, b: Seq<u8>)
    requires
        !lex_lt_bytes(a, b),
        !lex_lt_bytes(b, a),
    ensures
        a == b,
    decreases a.len(),
{
    if b.len() == 0 {
        assert(a.len() == 0);
        assert(a =~= b);
    } else {
        assert(a.len() > 0);
        assert(a[0] == b[0]);
        lemma_lex_lt_total(a.skip(1), b.skip(1));
        assert(a =~= b) by {
            assert(forall|i: int|
                1 <= i < a.len() ==> a[i] == a.skip(1)[i - 1] && b[i] == b.skip(1)[i - 1]);
        }
    }
}

/// Relies on `str`'s `PartialOrd`: string slices compare lexicographically
/// by their byte values.
#[verifier::external_body]
fn str_lt(a: &str, b: &str) -> (r: bool)
    ensures
        r == lex_lt_bytes(a.spec_bytes(), b.spec_bytes()),
{
    a < b
}

/// A strictly increasing target list: sorted with no duplicates.
pub open spec fn targets_sorted_dedup(ts: Seq<String>) -> bool {
    forall|i: int, j: int|
        0 <= i < j < ts.len() ==> lex_lt_bytes(
            #[trigger] string_bytes(ts[i]),
            #[trigger] string_bytes(ts[j]),
        )
}

impl Toolchain {
    /// The standard-library targets are exactly the host and the
    /// cross-compilation target, sorted and deduplicated.
    pub open spec fn targets_are(self, host: Seq<char>, target: Seq<char>) -> bool {
        &&& targets_sorted_dedup(self.std_targets@)
        &&& 1 <= self.std_targets@.len() <= 2
        &&& forall|i: int|
            0 <= i < self.std_targets@.len() ==> (#[trigger] self.std_targets@[i]@) == host
                || self.std_targets@[i]@ == target
        &&& exists|i: int|
            0 <= i < self.std_targets@.len() && (#[trigger] self.std_targets@[i]@) == host
        &&& exists|i: int|
            0 <= i < self.std_targets@.len() && (#[trigger] self.std_targets@[i]@) == target
    }

    /// Builds a candidate for a specifier: the standard-library target list
    /// holds the host and the target, sorted and deduplicated.
    pub fn new(spec: ToolchainSpec, host: String, target: String) -> (t: Toolchain)
        ensures
            t.spec == spec,
            t.host == host,
            t.targets_are(host@, target@),
    {
        let host_copy = host.clone();
        if str_eq_chars(host.as_str(), target.as_str()) {
            let t = Toolchain { spec, host, std_targets: vec![host_copy] };
            proof {
                assert(t.std_targets@[0]@ == target@);
            }
            t
        } else if str_lt(host.as_str(), target.as_str()) {
            let t = Toolchain { spec, host, std_targets: vec![host_copy, target] };
            proof {
                assert(t.std_targets@[0]@ == host_copy@);
            }
            t
        } else if str_lt(target.as_str(), host.as_str()) {
            let t = Toolchain { spec, host, std_targets: vec![target, host_copy] };
            proof {
                assert(t.std_targets@[1]@ == host_copy@);
            }
            t
        } else {
            proof {
                lemma_lex_lt_total(encode_utf8(host@), encode_utf8(target@));
                vstd::utf8::encode_utf8_decode_utf8(host@);
                vstd::utf8::encode_utf8_decode_utf8(target@);
                assert(false);
            }
            let t = Toolchain { spec, host, std_targets: vec![host_copy] };
            t
        }
    }
}

impl ToolchainSpec {
    /// The characters of the canonical name of this specifier.
    pub open spec fn name_chars(self) -> Seq<char> {
        match self {
            ToolchainSpec::Nightly { date } => "nightly-"@ + crate::datestr::date_chars(date),
            ToolchainSpec::Ci { commit, alt } => if alt {
                "ci-"@ + commit@ + "-alt"@
            } else {
                "ci-"@ + commit@
            },
        }
    }

    /// The canonical name a specifier goes by in user-facing output:
    /// `nightly-` and the date, or `ci-` and the commit, with `-alt` marking
    /// the alternate flavor.
    pub fn name(&self) -> (r: String)
        requires
            (match *self {
                ToolchainSpec::Nightly { date } => valid_date(date),
                _ => true,
            }),
        ensures
            r@ == self.name_chars(),
    {
        proof {
            reveal_strlit("nightly-");
            reveal_strlit("ci-");
            reveal_strlit("-alt");
        }
        match self {
            ToolchainSpec::Nightly { date } => {
                let mut s = String::from_str("nightly-");
                let day = crate::datestr::format_date(date);
                s.append(day.as_str());
                proof {
                    assert(s@ =~= self.name_chars());
                }
                s
            },
            ToolchainSpec::Ci { commit, alt } => {
                let mut s = String::from_str("ci-");
                s.append(commit.as_str());
                if *alt {
                    s.append("-alt");
                }
                proof {
                    assert(s@ =~= self.name_chars());
                }
                s
            },
        }
    }
}

/// Every nightly from `a` through `b`, one candidate per calendar day, in
/// chronological order.
pub fn toolchains_between(a: &GitDate, b: &GitDate, host: &String, target: &String) -> (ts: Vec<
    Toolchain,
>)
    requires
        valid_date(*a),
        valid_date(*b),
        day_num(*a) <= day_num(*b),
    ensures
        ts@.len() == day_num(*b) - day_num(*a) + 1,
        forall|i: int|
            0 <= i < ts@.len() ==> (match (#[trigger] ts@[i]).spec {
                ToolchainSpec::Nightly { date } => valid_date(date) && day_num(date) == day_num(*a)
                    + i,
                _ => false,
            }),
        forall|i: int| 0 <= i < ts@.len() ==> (#[trigger] ts@[i]).targets_are(host@, target@),
        forall|i: int| 0 <= i < ts@.len() ==> (#[trigger] ts@[i]).host == *host,
{
    let mut ts: Vec<Toolchain> = Vec::new();
    let mut date = *a;
    let end_num = crate::dates::day_number(b);
    let mut date_num = crate::dates::day_number(&date);
    while date_num < end_num
        invariant
            valid_date(date),
            valid_date(*b),
            date_num == day_num(date),
            end_num == day_num(*b),
            day_num(*a) <= day_num(date) <= day_num(*b),
            ts@.len() == day_num(date) - day_num(*a),
            forall|i: int|
                0 <= i < ts@.len() ==> (match (#[trigger] ts@[i]).spec {
                    ToolchainSpec::Nightly { date: d } => valid_date(d) && day_num(d) == day_num(*a)
                        + i,
                    _ => false,
                }),
            forall|i: int| 0 <= i < ts@.len() ==> (#[trigger] ts@[i]).targets_are(host@, target@),
            forall|i: int| 0 <= i < ts@.len() ==> (#[trigger] ts@[i]).host == *host,
        decreases end_num - date_num,
    {
        let t = Toolchain::new(ToolchainSpec::Nightly { date }, host.clone(), target.clone());
        ts.push(t);
        proof {
            crate::dates::lemma_day_num_max(*b);
            assert(!(date.year == 9999 && date.month == 12 && date.day == 31));
        }
        date = next_day(&date);
        date_num = date_num + 1;
    }
    let t = Toolchain::new(ToolchainSpec::Nightly { date }, host.clone(), target.clone());
    ts.push(t);
    ts
}

} // verus!
