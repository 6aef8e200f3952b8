//! The backward walk over nightly dates used to auto-discover a baseline.
//!
//! Starting from an anchor date, each step goes further into the past with a
//! piecewise-constant stride: two days while within the first week behind
//! the anchor, seven days through the second to seventh week, fourteen days
//! beyond that.

use vstd::prelude::*;
use crate::dates::GitDate;
use crate::dates::day_num;
use crate::dates::day_number;
use crate::dates::sub_days;
use crate::dates::valid_date;

verus! {

/// How far one step goes when the current date lies `distance` days behind
/// the anchor.
pub open spec fn stride_spec(distance: int) -> int {
    if distance < 7 {
        2
    } else if distance < 49 {
        7
    } else {
        14
    }
}

/// How many days behind the anchor the walk stands after `n + 1` steps.
pub open spec fn finder_offset(n: nat) -> int
    decreases n,
{
    if n == 0 {
        2
    } else {
        finder_offset((n - 1) as nat) + stride_spec(finder_offset((n - 1) as nat))
    }
}

/// The closed form of the emitted offsets: 2, 4, 6, 8, then weekly to 50,
/// then fortnightly.
pub proof fn lemma_finder_offset_closed(n: nat)
    ensures
        finder_offset(n) == if n <= 3 {
            2 * (n as int + 1)
        } else if n <= 9 {
            7 * n as int - 13
        } else {
            14 * n as int - 76
        },
    decreases n,
{
    if n > 0 {
        lemma_finder_offset_closed((n - 1) as nat);
    }
}

/// The backward iterator over candidate nightly dates.
#[derive(Clone, Copy)]
pub struct NightlyFinderIter {
    pub start_date: GitDate,
    pub current_date: GitDate,
    /// How many dates have been emitted.
    pub steps: Ghost<nat>,
}

impl NightlyFinderIter {
    /// The iterator stands exactly where its step count says: after `k`
    /// emitted dates it is `finder_offset(k - 1)` days behind the anchor.
    pub open spec fn on_schedule(self) -> bool {
        day_num(self.start_date) - day_num(self.current_date) == if self.steps@ == 0 {
            0int
        } else {
            finder_offset((self.steps@ - 1) as nat)
        }
    }

    /// Starts the walk at the anchor date.
    pub fn new(start_date: GitDate) -> (it: NightlyFinderIter)
        ensures
            it.start_date == start_date,
            it.current_date == start_date,
            it.steps@ == 0,
            it.on_schedule(),
    {
        NightlyFinderIter { start_date, current_date: start_date, steps: Ghost(0) }
    }

    /// Steps to the next older date and returns it. An iterator that is on
    /// its schedule stays on it: the `k`-th emitted date, counting from
    /// zero, is exactly `finder_offset(k)` days behind the anchor.
    pub fn next(&mut self) -> (d: GitDate)
        requires
            valid_date(old(self).start_date),
            valid_date(old(self).current_date),
            day_num(old(self).current_date) <= day_num(old(self).start_date),
            day_num(old(self).current_date) >= 14,
        ensures
            final(self).start_date == old(self).start_date,
            final(self).steps@ == old(self).steps@ + 1,
            d == final(self).current_date,
            valid_date(d),
            day_num(d) == day_num(old(self).current_date) - stride_spec(
                day_num(old(self).start_date) - day_num(old(self).current_date),
            ),
            old(self).on_schedule() ==> final(self).on_schedule() && day_num(d) == day_num(
                old(self).start_date,
            ) - finder_offset(old(self).steps@),
    {
        self.steps = Ghost(self.steps@ + 1);
        let start_num = day_number(&self.start_date);
        let current_num = day_number(&self.current_date);
        let distance = start_num - current_num;
        let jump_length: u64 = if distance < 7 {
            2
        } else if distance < 49 {
            7
        } else {
            14
        };
        self.current_date = sub_days(&self.current_date, jump_length);
        self.current_date
    }
}

} // verus!
