//! The argv template of a subprocess: a non-empty list of words, and its
//! one-line rendering.

use vstd::prelude::*;
use vstd::string::StringExecFns;

verus! {

/// The words of a command line: the program first, then its arguments.
#[derive(Debug)]
pub struct CommandTemplate(pub Vec<String>);

/// The words joined with single spaces.
pub open spec fn join_spaces(parts: Seq<String>) -> Seq<char>
    decreases parts.len(),
{
    if parts.len() == 0 {
        Seq::empty()
    } else if parts.len() == 1 {
        parts[0]@
    } else {
        join_spaces(parts.drop_last()) + seq![' '] + parts.last()@
    }
}

impl CommandTemplate {
    /// Wraps the words of a command line.
    pub fn new(parts: Vec<String>) -> (r: CommandTemplate)
        ensures
            r.0 == parts,
    {
        CommandTemplate(parts)
    }

    /// Renders the command line as one line, words separated by single
    /// spaces, for display and error messages.
    pub fn string(&self) -> (r: String)
        requires
            self.0@.len() > 0,
        ensures
            r@ == join_spaces(self.0@),
    {
        proof {
            reveal_strlit(" ");
        }
        let mut r = String::new();
        r.append(self.0[0].as_str());
        proof {
            assert(r@ =~= join_spaces(self.0@.take(1)));
        }
        let mut i: usize = 1;
        while i < self.0.len()
            invariant
                1 <= i <= self.0@.len(),
                r@ == join_spaces(self.0@.take(i as int)),
                " "@ == seq![' '],
            decreases self.0@.len() - i,
        {
            r.append(" ");
            r.append(self.0[i].as_str());
            proof {
                let pre = self.0@.take(i as int);
                let post = self.0@.take(i as int + 1);
                assert(post.drop_last() =~= pre);
                assert(post.last() == self.0@[i as int]);
                assert(r@ =~= join_spaces(post));
            }
            i = i + 1;
        }
        proof {
            assert(self.0@.take(self.0@.len() as int) =~= self.0@);
        }
        r
    }
}

} // verus!
