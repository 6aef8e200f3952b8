//! Commits, the checks on what a repository accessor hands back, and the
//! planning of a CI bisection over a commit range.
//!
//! CI artifacts are kept for 167 days; a commit older than that cannot be
//! probed and is dropped from the range before the search.

use vstd::prelude::*;
use crate::errors::BisectError;
use crate::strutil::matches_at;
use crate::strutil::str_eq_chars;
use crate::strutil::str_starts_with;
use crate::toolchain::Toolchain;
use crate::toolchain::ToolchainSpec;

verus! {

/// One commit of the history: its hash, its committer timestamp in seconds
/// UTC, and its summary line.
#[derive(Clone, Debug, PartialEq)]
pub struct Commit {
    pub sha: String,
    pub date: i64,
    pub summary: String,
}

/// How many days of wall-clock time CI artifacts stay available.
pub open spec fn retention_secs() -> int {
    167int * 86400
}

/// A commit list in chronological order: timestamps never decrease.
pub open spec fn chronological(cs: Seq<Commit>) -> bool {
    forall|i: int| 0 <= i < cs.len() - 1 ==> (#[trigger] cs[i].date) <= cs[i + 1].date
}

/// Validates what the accessor returned for a range: the list must be
/// non-empty, chronologically ordered, and end with the resolved end hash.
pub fn validate_commit_sequence(commits: &Vec<Commit>, end_sha: &str) -> (r: Result<
    (),
    BisectError,
>)
    ensures
        (r is Ok) <==> (commits@.len() > 0 && chronological(commits@) && commits@.last().sha@
            == end_sha@),
        (r is Err) ==> r == Err::<(), BisectError>(BisectError::AccessorError),
{
    let n = commits.len();
    if n == 0 {
        return Err(BisectError::AccessorError);
    }
    if !str_eq_chars(commits[n - 1].sha.as_str(), end_sha) {
        return Err(BisectError::AccessorError);
    }
    let mut i: usize = 0;
    while i + 1 < n
        invariant
            n == commits@.len(),
            i < n,
            forall|t: int| 0 <= t < i ==> (#[trigger] commits@[t].date) <= commits@[t + 1].date,
        decreases n - i,
    {
        if commits[i].date > commits[i + 1].date {
            return Err(BisectError::AccessorError);
        }
        i = i + 1;
    }
    Ok(())
}

/// A commit young enough that its artifacts may still exist.
pub open spec fn commit_retained(now: int, c: Commit) -> bool {
    now - c.date < retention_secs()
}

/// The commits of a list that are still within the retention window, in
/// their original order.
pub open spec fn retained_commits(cs: Seq<Commit>, now: int) -> Seq<Commit>
    decreases cs.len(),
{
    if cs.len() == 0 {
        Seq::empty()
    } else {
        let rest = retained_commits(cs.drop_last(), now);
        if commit_retained(now, cs.last()) {
            rest.push(cs.last())
        } else {
            rest
        }
    }
}

/// Keeps the commits whose artifacts may still exist, given the time now in
/// seconds UTC.
pub fn filter_recent_commits(commits: Vec<Commit>, now: i64) -> (r: Vec<Commit>)
    ensures
        r@ == retained_commits(commits@, now as int),
{
    let n = commits.len();
    let mut r: Vec<Commit> = Vec::new();
    let mut i: usize = 0;
    while i < n
        invariant
            n == commits@.len(),
            i <= n,
            r@ == retained_commits(commits@.take(i as int), now as int),
        decreases n - i,
    {
        let nd: i128 = now as i128;
        let cd: i128 = commits[i].date as i128;
        let keep = nd - cd < 14428800i128;
        proof {
            assert(14428800int == retention_secs());
        }
        if keep {
            let c0 = &commits[i];
            let c = Commit { sha: c0.sha.clone(), date: c0.date, summary: c0.summary.clone() };
            proof {
                assert(c == commits@[i as int]);
            }
            r.push(c);
        }
        proof {
            let pre = commits@.take(i as int);
            let post = commits@.take(i as int + 1);
            assert(post.drop_last() =~= pre);
            assert(post.last() == commits@[i as int]);
        }
        i = i + 1;
    }
    proof {
        assert(commits@.take(n as int) =~= commits@);
    }
    r
}

/// What `plan_ci_bisection` decides from a commit list and the clock.
pub open spec fn ci_plan_outcome(
    cs: Seq<Commit>,
    now: int,
    end_is_master: bool,
    end: Seq<char>,
) -> Result<Seq<Commit>, BisectError> {
    let kept: Seq<Commit> = retained_commits(cs, now);
    if kept.len() == 0 {
        Err(BisectError::EmptyCommitRange)
    } else if !end_is_master && !matches_at(kept.last().sha@, end, 0) {
        Err(BisectError::AccessorError)
    } else {
        Ok(kept)
    }
}

/// Plans the CI phase: drops commits past the retention window, rejects an
/// empty remainder, checks that the surviving range still ends at the
/// requested end reference (unless the end is the branch head), and turns
/// each surviving commit into a CI toolchain candidate, in order.
pub fn plan_ci_bisection(
    commits: Vec<Commit>,
    now: i64,
    end_is_master: bool,
    end: &str,
    alt: bool,
    host: &String,
    target: &String,
) -> (r: Result<Vec<Toolchain>, BisectError>)
    ensures
        (match r {
            Err(e) => Err::<Seq<Commit>, BisectError>(e) == ci_plan_outcome(
                commits@,
                now as int,
                end_is_master,
                end@,
            ),
            Ok(ts) => {
                let kept: Seq<Commit> = retained_commits(commits@, now as int);
                &&& ci_plan_outcome(commits@, now as int, end_is_master, end@) == Ok::<
                    Seq<Commit>,
                    BisectError,
                >(kept)
                &&& ts@.len() == kept.len()
                &&& forall|i: int|
                    0 <= i < ts@.len() ==> (#[trigger] ts@[i]).spec == (ToolchainSpec::Ci {
                        commit: kept[i].sha,
                        alt,
                    })
                &&& forall|i: int|
                    0 <= i < ts@.len() ==> (#[trigger] ts@[i]).targets_are(host@, target@)
                &&& forall|i: int| 0 <= i < ts@.len() ==> (#[trigger] ts@[i]).host == *host
            },
        }),
{
    let kept = filter_recent_commits(commits, now);
    let n = kept.len();
    if n == 0 {
        return Err(BisectError::EmptyCommitRange);
    }
    if !end_is_master && !str_starts_with(kept[n - 1].sha.as_str(), end) {
        return Err(BisectError::AccessorError);
    }
    let mut ts: Vec<Toolchain> = Vec::new();
    let mut i: usize = 0;
    while i < n
        invariant
            n == kept@.len(),
            i <= n,
            ts@.len() == i,
            forall|t: int|
                0 <= t < i ==> (#[trigger] ts@[t]).spec == (ToolchainSpec::Ci {
                    commit: kept@[t].sha,
                    alt,
                }),
            forall|t: int| 0 <= t < i ==> (#[trigger] ts@[t]).targets_are(host@, target@),
            forall|t: int| 0 <= t < i ==> (#[trigger] ts@[t]).host == *host,
        decreases n - i,
    {
        let sha = kept[i].sha.clone();
        let t = Toolchain::new(
            ToolchainSpec::Ci { commit: sha, alt },
            host.clone(),
            target.clone(),
        );
        ts.push(t);
        i = i + 1;
    }
    Ok(ts)
}

} // verus!
