//! The `YYYY-MM-DD` form of a date: parsing and printing.
//!
//! The grammar is fixed width: four digits, a dash, two digits, a dash, two
//! digits, and the named date must be a real calendar day. Printing is
//! zero-padded, and [`lemma_parse_then_format`] shows that printing a parsed
//! string gives the string back.

use vstd::prelude::*;
use vstd::arithmetic::div_mod::lemma_fundamental_div_mod_converse;
use vstd::string::StrSliceExecFns;
use vstd::string::StringExecFns;
use crate::dates::GitDate;
use crate::dates::days_in_month;
use crate::dates::days_in_month_spec;
use crate::dates::valid_date;

verus! {

/// The ten decimal digit characters.
pub open spec fn is_digit_char(c: char) -> bool {
    c == '0' || c == '1' || c == '2' || c == '3' || c == '4' || c == '5' || c == '6' || c == '7'
        || c == '8' || c == '9'
}

/// The value a digit character denotes.
pub open spec fn digit_val(c: char) -> int {
    if c == '0' {
        0
    } else if c == '1' {
        1
    } else if c == '2' {
        2
    } else if c == '3' {
        3
    } else if c == '4' {
        4
    } else if c == '5' {
        5
    } else if c == '6' {
        6
    } else if c == '7' {
        7
    } else if c == '8' {
        8
    } else {
        9
    }
}

/// The character that denotes a digit value.
pub open spec fn digit_char(v: int) -> char {
    if v == 0 {
        '0'
    } else if v == 1 {
        '1'
    } else if v == 2 {
        '2'
    } else if v == 3 {
        '3'
    } else if v == 4 {
        '4'
    } else if v == 5 {
        '5'
    } else if v == 6 {
        '6'
    } else if v == 7 {
        '7'
    } else if v == 8 {
        '8'
    } else {
        '9'
    }
}

/// Ten characters in the `YYYY-MM-DD` shape.
pub open spec fn well_formed_date_chars(s: Seq<char>) -> bool {
    &&& s.len() == 10
    &&& is_digit_char(s[0])
    &&& is_digit_char(s[1])
    &&& is_digit_char(s[2])
    &&& is_digit_char(s[3])
    &&& s[4] == '-'
    &&& is_digit_char(s[5])
    &&& is_digit_char(s[6])
    &&& s[7] == '-'
    &&& is_digit_char(s[8])
    &&& is_digit_char(s[9])
}

/// The date a well-formed string names, valid or not.
pub open spec fn date_of_chars(s: Seq<char>) -> GitDate {
    GitDate {
        year: (1000 * digit_val(s[0]) + 100 * digit_val(s[1]) + 10 * digit_val(s[2]) + digit_val(
            s[3],
        )) as u32,
        month: (10 * digit_val(s[5]) + digit_val(s[6])) as u32,
        day: (10 * digit_val(s[8]) + digit_val(s[9])) as u32,
    }
}

/// What parsing a candidate date string returns: the named date if the shape
/// fits and the day exists in the calendar, nothing otherwise.
pub open spec fn parse_date_chars(s: Seq<char>) -> Option<GitDate> {
    if well_formed_date_chars(s) && valid_date(date_of_chars(s)) {
        Some(date_of_chars(s))
    } else {
        None
    }
}

/// The ten characters that print a date.
pub open spec fn date_chars(d: GitDate) -> Seq<char> {
    seq![
        digit_char(d.year as int / 1000),
        digit_char((d.year as int / 100) % 10),
        digit_char((d.year as int / 10) % 10),
        digit_char(d.year as int % 10),
        '-',
        digit_char(d.month as int / 10),
        digit_char(d.month as int % 10),
        '-',
        digit_char(d.day as int / 10),
        digit_char(d.day as int % 10),
    ]
}

/// Reads one digit character, if it is one.
fn read_digit(c: char) -> (r: Option<u32>)
    ensures
        r is Some <==> is_digit_char(c),
        r is Some ==> r->0 == digit_val(c) && r->0 <= 9,
{
    if c == '0' {
        Some(0)
    } else if c == '1' {
        Some(1)
    } else if c == '2' {
        Some(2)
    } else if c == '3' {
        Some(3)
    } else if c == '4' {
        Some(4)
    } else if c == '5' {
        Some(5)
    } else if c == '6' {
        Some(6)
    } else if c == '7' {
        Some(7)
    } else if c == '8' {
        Some(8)
    } else if c == '9' {
        Some(9)
    } else {
        None
    }
}

/// Parses a `YYYY-MM-DD` string; rejects anything of another shape and any
/// day the calendar does not have.
pub fn parse_date(s: &str) -> (r: Option<GitDate>)
    ensures
        r == parse_date_chars(s@),
{
    if s.unicode_len() != 10 {
        return None;
    }
    if s.get_char(4) != '-' || s.get_char(7) != '-' {
        return None;
    }
    let d0 = read_digit(s.get_char(0));
    let d1 = read_digit(s.get_char(1));
    let d2 = read_digit(s.get_char(2));
    let d3 = read_digit(s.get_char(3));
    let d5 = read_digit(s.get_char(5));
    let d6 = read_digit(s.get_char(6));
    let d8 = read_digit(s.get_char(8));
    let d9 = read_digit(s.get_char(9));
    match (d0, d1, d2, d3, d5, d6, d8, d9) {
        (Some(a), Some(b), Some(c), Some(e), Some(m1), Some(m2), Some(g1), Some(g2)) => {
            let year = 1000 * a + 100 * b + 10 * c + e;
            let month = 10 * m1 + m2;
            let day = 10 * g1 + g2;
            if 1 <= month && month <= 12 && 1 <= day && day <= days_in_month(year, month) {
                Some(GitDate { year, month, day })
            } else {
                None
            }
        },
        _ => None,
    }
}

/// The one-character string that prints a digit value.
fn digit_str(v: u32) -> (r: &'static str)
    requires
        v <= 9,
    ensures
        r@ =~= seq![digit_char(v as int)],
{
    proof {
        reveal_strlit("0");
        reveal_strlit("1");
        reveal_strlit("2");
        reveal_strlit("3");
        reveal_strlit("4");
        reveal_strlit("5");
        reveal_strlit("6");
        reveal_strlit("7");
        reveal_strlit("8");
        reveal_strlit("9");
    }
    if v == 0 {
        "0"
    } else if v == 1 {
        "1"
    } else if v == 2 {
        "2"
    } else if v == 3 {
        "3"
    } else if v == 4 {
        "4"
    } else if v == 5 {
        "5"
    } else if v == 6 {
        "6"
    } else if v == 7 {
        "7"
    } else if v == 8 {
        "8"
    } else {
        "9"
    }
}

/// Prints a date in the `YYYY-MM-DD` form, zero-padded.
pub fn format_date(d: &GitDate) -> (s: String)
    requires
        valid_date(*d),
    ensures
        s@ == date_chars(*d),
{
    proof {
        reveal_strlit("-");
    }
    let mut s = String::new();
    s.append(digit_str(d.year / 1000));
    s.append(digit_str((d.year / 100) % 10));
    s.append(digit_str((d.year / 10) % 10));
    s.append(digit_str(d.year % 10));
    s.append("-");
    s.append(digit_str(d.month / 10));
    s.append(digit_str(d.month % 10));
    s.append("-");
    s.append(digit_str(d.day / 10));
    s.append(digit_str(d.day % 10));
    proof {
        assert(s@ =~= date_chars(*d));
    }
    s
}

/// A digit character comes back from its value.
proof fn lemma_digit_round_trip(c: char)
    requires
        is_digit_char(c),
    ensures
        digit_char(digit_val(c)) == c,
{
}

/// A two-digit number decomposes into the digits it was made of.
proof fn lemma_two_digits(t: int, o: int)
    requires
        0 <= t <= 9,
        0 <= o <= 9,
    ensures
        (10 * t + o) / 10 == t,
        (10 * t + o) % 10 == o,
{
    lemma_fundamental_div_mod_converse(10 * t + o, 10, t, o);
}

/// A four-digit number decomposes into the digits it was made of.
proof fn lemma_four_digits(a: int, b: int, c: int, e: int)
    requires
        0 <= a <= 9,
        0 <= b <= 9,
        0 <= c <= 9,
        0 <= e <= 9,
    ensures
        (1000 * a + 100 * b + 10 * c + e) / 1000 == a,
        ((1000 * a + 100 * b + 10 * c + e) / 100) % 10 == b,
        ((1000 * a + 100 * b + 10 * c + e) / 10) % 10 == c,
        (1000 * a + 100 * b + 10 * c + e) % 10 == e,
{
    let y = 1000 * a + 100 * b + 10 * c + e;
    lemma_fundamental_div_mod_converse(y, 1000, a, 100 * b + 10 * c + e);
    lemma_fundamental_div_mod_converse(y, 100, 10 * a + b, 10 * c + e);
    lemma_fundamental_div_mod_converse(y, 10, 100 * a + 10 * b + c, e);
    lemma_fundamental_div_mod_converse(10 * a + b, 10, a, b);
    lemma_fundamental_div_mod_converse(100 * a + 10 * b + c, 10, 10 * a + b, c);
}

/// Printing the date a string parses to gives the original string back.
pub proof fn lemma_parse_then_format(s: Seq<char>)
    requires
        parse_date_chars(s) is Some,
    ensures
        date_chars(parse_date_chars(s)->0) == s,
{
    let d = date_of_chars(s);
    lemma_four_digits(digit_val(s[0]), digit_val(s[1]), digit_val(s[2]), digit_val(s[3]));
    lemma_two_digits(digit_val(s[5]), digit_val(s[6]));
    lemma_two_digits(digit_val(s[8]), digit_val(s[9]));
    lemma_digit_round_trip(s[0]);
    lemma_digit_round_trip(s[1]);
    lemma_digit_round_trip(s[2]);
    lemma_digit_round_trip(s[3]);
    lemma_digit_round_trip(s[5]);
    lemma_digit_round_trip(s[6]);
    lemma_digit_round_trip(s[8]);
    lemma_digit_round_trip(s[9]);
    assert(date_chars(d) =~= s);
}

/// A digit value comes back from its character.
proof fn lemma_digit_val_of_char(v: int)
    requires
        0 <= v <= 9,
    ensures
        is_digit_char(digit_char(v)),
        digit_val(digit_char(v)) == v,
{
}

/// The digits of a number below ten thousand recompose to the number, and
/// each is a single digit.
proof fn lemma_digits_of(y: int)
    requires
        0 <= y <= 9999,
    ensures
        0 <= y / 1000 <= 9,
        0 <= (y / 100) % 10 <= 9,
        0 <= (y / 10) % 10 <= 9,
        0 <= y % 10 <= 9,
        1000 * (y / 1000) + 100 * ((y / 100) % 10) + 10 * ((y / 10) % 10) + y % 10 == y,
{
    assert(0 <= y / 1000 <= 9 && 0 <= (y / 100) % 10 <= 9 && 0 <= (y / 10) % 10 <= 9 && 0 <= y % 10
        <= 9 && 1000 * (y / 1000) + 100 * ((y / 100) % 10) + 10 * ((y / 10) % 10) + y % 10
        == y) by (nonlinear_arith)
        requires
            0 <= y <= 9999,
    ;
}

/// Parsing what a valid date prints gives the date back.
#[verifier::rlimit(50)]
pub proof fn lemma_format_then_parse(d: GitDate)
    requires
        valid_date(d),
    ensures
        parse_date_chars(date_chars(d)) == Some(d),
{
    let s = date_chars(d);
    let y = d.year as int;
    let m = d.month as int;
    let g = d.day as int;
    lemma_digits_of(y);
    lemma_digits_of(10 * (m / 10) + m % 10);
    assert(10 * (m / 10) + m % 10 == m) by (nonlinear_arith)
        requires
            0 <= m <= 12,
    ;
    assert(10 * (g / 10) + g % 10 == g) by (nonlinear_arith)
        requires
            0 <= g <= 31,
    ;
    assert(0 <= m / 10 <= 9 && 0 <= m % 10 <= 9 && 0 <= g / 10 <= 9 && 0 <= g % 10
        <= 9) by (nonlinear_arith)
        requires
            0 <= m <= 12,
            0 <= g <= 31,
    ;
    lemma_digit_val_of_char(y / 1000);
    lemma_digit_val_of_char((y / 100) % 10);
    lemma_digit_val_of_char((y / 10) % 10);
    lemma_digit_val_of_char(y % 10);
    lemma_digit_val_of_char(m / 10);
    lemma_digit_val_of_char(m % 10);
    lemma_digit_val_of_char(g / 10);
    lemma_digit_val_of_char(g % 10);
    assert(well_formed_date_chars(s));
    assert(date_of_chars(s) == d);
}

} // verus!
