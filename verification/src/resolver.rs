//! The date-to-commit resolver's verifiable half: the manifest address a
//! nightly's commit hash is published under, and the trimming of the fetched
//! body. The fetch itself is plain HTTP and lives in the front end.

use vstd::prelude::*;
use vstd::string::StrSliceExecFns;
use vstd::string::StringExecFns;
use crate::dates::GitDate;
use crate::dates::valid_date;
use crate::datestr::date_chars;
use crate::datestr::format_date;

verus! {

/// The characters of the manifest address for a nightly date.
pub open spec fn manifest_url_chars(d: GitDate) -> Seq<char> {
    "https://static.rust-lang.org/dist/"@ + date_chars(d)
        + "/channel-rust-nightly-git-commit-hash.txt"@
}

/// The address the commit hash of a nightly is fetched from.
pub fn nightly_manifest_url(d: &GitDate) -> (s: String)
    requires
        valid_date(*d),
    ensures
        s@ == manifest_url_chars(*d),
{
    proof {
        reveal_strlit("https://static.rust-lang.org/dist/");
        reveal_strlit("/channel-rust-nightly-git-commit-hash.txt");
    }
    let mut s = String::from_str("https://static.rust-lang.org/dist/");
    let day = format_date(d);
    s.append(day.as_str());
    s.append("/channel-rust-nightly-git-commit-hash.txt");
    proof {
        assert(s@ =~= manifest_url_chars(*d));
    }
    s
}

/// The whitespace that trimming removes at either end.
pub open spec fn is_trim_ws(c: char) -> bool {
    c == ' ' || c == '\n' || c == '\r' || c == '\t'
}

/// How many whitespace characters the text begins with.
pub open spec fn leading_ws(s: Seq<char>) -> int
    decreases s.len(),
{
    if s.len() == 0 {
        0
    } else if is_trim_ws(s[0]) {
        1 + leading_ws(s.skip(1))
    } else {
        0
    }
}

/// How many whitespace characters the text ends with.
pub open spec fn trailing_ws(s: Seq<char>) -> int
    decreases s.len(),
{
    if s.len() == 0 {
        0
    } else if is_trim_ws(s.last()) {
        1 + trailing_ws(s.drop_last())
    } else {
        0
    }
}

/// The text with leading and trailing whitespace removed.
pub open spec fn trimmed_chars(s: Seq<char>) -> Seq<char> {
    if leading_ws(s) == s.len() {
        Seq::empty()
    } else {
        s.subrange(leading_ws(s), s.len() - trailing_ws(s))
    }
}

/// Whether one character is trimmable whitespace.
fn is_ws_char(c: char) -> (r: bool)
    ensures
        r == is_trim_ws(c),
{
    c == ' ' || c == '\n' || c == '\r' || c == '\t'
}

/// Removes leading and trailing whitespace, as the resolver does to the
/// fetched manifest body.
pub fn trimmed(s: &str) -> (r: String)
    ensures
        r@ == trimmed_chars(s@),
{
    let n = s.unicode_len();
    proof {
        assert(s@.skip(0) =~= s@);
    }
    let mut lead: usize = 0;
    while lead < n && is_ws_char(s.get_char(lead))
        invariant
            lead <= n,
            n == s@.len(),
            leading_ws(s@) == lead + leading_ws(s@.skip(lead as int)),
        decreases n - lead,
    {
        proof {
            assert(s@.skip(lead as int)[0] == s@[lead as int]);
            assert(s@.skip(lead as int).skip(1) =~= s@.skip(lead as int + 1));
        }
        lead = lead + 1;
    }
    proof {
        if lead == n {
            assert(s@.skip(lead as int).len() == 0);
            assert(leading_ws(s@) == n);
        } else {
            assert(s@.skip(lead as int)[0] == s@[lead as int]);
            assert(leading_ws(s@) == lead);
        }
    }
    if lead == n {
        return String::new();
    }
    let mut j: usize = n;
    while j > 0 && is_ws_char(s.get_char(j - 1))
        invariant
            lead < j <= n,
            n == s@.len(),
            !is_trim_ws(s@[lead as int]),
            trailing_ws(s@) == (n - j) + trailing_ws(s@.take(j as int)),
        decreases j,
    {
        proof {
            assert(s@.take(j as int).last() == s@[j as int - 1]);
            assert(s@.take(j as int).drop_last() =~= s@.take(j as int - 1));
            assert(j as int - 1 > lead as int) by {
                if j as int - 1 == lead as int {
                    assert(is_trim_ws(s@[lead as int]));
                }
            }
        }
        j = j - 1;
    }
    proof {
        assert(s@.take(j as int).last() == s@[j as int - 1]);
        assert(trailing_ws(s@) == n - j);
    }
    let piece = s.substring_char(lead, j);
    let r = piece.to_owned();
    proof {
        assert(r@ =~= trimmed_chars(s@));
    }
    r
}

} // verus!
