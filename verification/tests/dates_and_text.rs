use bisect_rustc::Bound;
use bisect_rustc::CommandTemplate;
use bisect_rustc::GitDate;
use bisect_rustc::contains_substr;
use bisect_rustc::date_le;
use bisect_rustc::day_number;
use bisect_rustc::format_date;
use bisect_rustc::next_day;
use bisect_rustc::nightly_manifest_url;
use bisect_rustc::parse_date;
use bisect_rustc::prev_day;
use bisect_rustc::str_eq_chars;
use bisect_rustc::str_starts_with;
use bisect_rustc::sub_days;
use bisect_rustc::trimmed;

fn ymd(year: u32, month: u32, day: u32) -> GitDate {
    GitDate { year, month, day }
}

#[test]
fn parse_accepts_a_plain_date() {
    assert_eq!(parse_date("2019-05-01"), Some(ymd(2019, 5, 1)));
    assert_eq!(parse_date("2018-07-30"), Some(ymd(2018, 7, 30)));
    assert_eq!(parse_date("0001-01-01"), Some(ymd(1, 1, 1)));
    assert_eq!(parse_date("9999-12-31"), Some(ymd(9999, 12, 31)));
}

#[test]
fn parse_rejects_malformed_text() {
    assert_eq!(parse_date(""), None);
    assert_eq!(parse_date("2019-5-1"), None);
    assert_eq!(parse_date("2019-05-01x"), None);
    assert_eq!(parse_date("2019/05/01"), None);
    assert_eq!(parse_date("abcdefgh"), None);
    assert_eq!(parse_date("20190501"), None);
}

#[test]
fn parse_rejects_days_the_calendar_lacks() {
    assert_eq!(parse_date("2019-13-01"), None);
    assert_eq!(parse_date("2019-00-01"), None);
    assert_eq!(parse_date("2019-12-32"), None);
    assert_eq!(parse_date("2019-04-31"), None);
    assert_eq!(parse_date("2019-02-29"), None);
    assert_eq!(parse_date("2100-02-29"), None);
}

#[test]
fn parse_knows_leap_years() {
    assert_eq!(parse_date("2020-02-29"), Some(ymd(2020, 2, 29)));
    assert_eq!(parse_date("2000-02-29"), Some(ymd(2000, 2, 29)));
}

#[test]
fn format_is_zero_padded() {
    assert_eq!(format_date(&ymd(2019, 5, 1)), "2019-05-01");
    assert_eq!(format_date(&ymd(1, 1, 1)), "0001-01-01");
}

#[test]
fn parsing_then_formatting_returns_the_original() {
    for s in ["2019-05-01", "2020-02-29", "2015-10-20", "0001-01-01", "9999-12-31"] {
        let d = parse_date(s).unwrap();
        assert_eq!(format_date(&d), s);
    }
}

#[test]
fn formatting_then_parsing_returns_the_date() {
    let d = ymd(2018, 7, 20);
    assert_eq!(parse_date(&format_date(&d)), Some(d));
}

#[test]
fn day_arithmetic_crosses_month_and_year_ends() {
    assert_eq!(next_day(&ymd(2019, 12, 31)), ymd(2020, 1, 1));
    assert_eq!(next_day(&ymd(2019, 6, 30)), ymd(2019, 7, 1));
    assert_eq!(prev_day(&ymd(2020, 3, 1)), ymd(2020, 2, 29));
    assert_eq!(prev_day(&ymd(2019, 1, 1)), ymd(2018, 12, 31));
    assert_eq!(sub_days(&ymd(2019, 1, 3), 5), ymd(2018, 12, 29));
}

#[test]
fn day_numbers_order_dates() {
    let a = ymd(2015, 10, 20);
    let b = ymd(2015, 10, 21);
    assert_eq!(day_number(&b), day_number(&a) + 1);
    assert!(date_le(&a, &b));
    assert!(!date_le(&b, &a));
}

#[test]
fn bounds_parse_as_date_or_commit() {
    match Bound::from_text("2019-05-01") {
        Bound::Date(d) => assert_eq!(d, ymd(2019, 5, 1)),
        Bound::Commit(_) => panic!("a date bound was expected"),
    }
    match Bound::from_text("6a1c0637ce44aeea6c60527f4c0e7fb33f2bcd0d") {
        Bound::Commit(c) => assert_eq!(c, "6a1c0637ce44aeea6c60527f4c0e7fb33f2bcd0d"),
        Bound::Date(_) => panic!("a commit bound was expected"),
    }
}

#[test]
fn manifest_url_names_the_day() {
    assert_eq!(
        nightly_manifest_url(&ymd(2019, 5, 1)),
        "https://static.rust-lang.org/dist/2019-05-01/channel-rust-nightly-git-commit-hash.txt"
    );
}

#[test]
fn trimming_strips_both_ends() {
    assert_eq!(trimmed("  abc\n"), "abc");
    assert_eq!(trimmed("abc"), "abc");
    assert_eq!(trimmed("\r\n\t "), "");
    assert_eq!(trimmed(""), "");
    assert_eq!(trimmed(" a b "), "a b");
}

#[test]
fn command_template_renders_one_line() {
    let t = CommandTemplate::new(vec![
        "cargo".to_string(),
        "build".to_string(),
        "--verbose".to_string(),
    ]);
    assert_eq!(t.string(), "cargo build --verbose");
    let single = CommandTemplate::new(vec!["rustc".to_string()]);
    assert_eq!(single.string(), "rustc");
}

#[test]
fn substring_and_prefix_helpers() {
    assert!(contains_substr("hello world", "lo wo"));
    assert!(!contains_substr("hello world", "worlds"));
    assert!(contains_substr("abc", ""));
    assert!(str_starts_with("abcdef", "abc"));
    assert!(!str_starts_with("abc", "abcd"));
    assert!(str_eq_chars("same", "same"));
    assert!(!str_eq_chars("same", "sane"));
}
