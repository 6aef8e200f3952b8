use bisect_rustc::BisectError;
use bisect_rustc::Bound;
use bisect_rustc::Commit;
use bisect_rustc::GitDate;
use bisect_rustc::OutputProcessingMode;
use bisect_rustc::Satisfies;
use bisect_rustc::TestOutcome;
use bisect_rustc::Toolchain;
use bisect_rustc::ToolchainSpec;
use bisect_rustc::check_bounds;
use bisect_rustc::check_end_outcome;
use bisect_rustc::check_start_outcome;
use bisect_rustc::chooses_install;
use bisect_rustc::ci_range_refs;
use bisect_rustc::classify_bounds;
use bisect_rustc::default_outcome_of_output;
use bisect_rustc::filter_recent_commits;
use bisect_rustc::get_end_date;
use bisect_rustc::get_start_date;
use bisect_rustc::least_satisfying;
use bisect_rustc::outcome_to_satisfies;
use bisect_rustc::output_processing_mode;
use bisect_rustc::plan_ci_bisection;
use bisect_rustc::searched_range;
use bisect_rustc::validate_commit_sequence;
use bisect_rustc::wants_date_to_commit_conversion;
use OutputProcessingMode::RegressOnErrorStatus;
use OutputProcessingMode::RegressOnIceAlone;
use OutputProcessingMode::RegressOnNonCleanError;
use OutputProcessingMode::RegressOnNotIce;
use OutputProcessingMode::RegressOnSuccessStatus;
use TestOutcome::Baseline;
use TestOutcome::Regressed;

fn ymd(year: u32, month: u32, day: u32) -> GitDate {
    GitDate { year, month, day }
}

fn commit(sha: &str, date: i64) -> Commit {
    Commit { sha: sha.to_string(), date, summary: format!("change {sha}") }
}

const HOST: &str = "x86_64-unknown-linux-gnu";

#[test]
fn std_targets_are_sorted_and_deduplicated() {
    let t = Toolchain::new(
        ToolchainSpec::Nightly { date: ymd(2019, 5, 1) },
        HOST.to_string(),
        "aarch64-unknown-linux-gnu".to_string(),
    );
    assert_eq!(
        t.std_targets,
        vec!["aarch64-unknown-linux-gnu".to_string(), HOST.to_string()]
    );
    assert_eq!(t.host, HOST);

    let same = Toolchain::new(
        ToolchainSpec::Nightly { date: ymd(2019, 5, 1) },
        HOST.to_string(),
        HOST.to_string(),
    );
    assert_eq!(same.std_targets, vec![HOST.to_string()]);
}

#[test]
fn toolchain_names_are_canonical() {
    let nightly = ToolchainSpec::Nightly { date: ymd(2019, 5, 1) };
    assert_eq!(nightly.name(), "nightly-2019-05-01");
    let ci = ToolchainSpec::Ci { commit: "abc123".to_string(), alt: false };
    assert_eq!(ci.name(), "ci-abc123");
    let alt = ToolchainSpec::Ci { commit: "abc123".to_string(), alt: true };
    assert_eq!(alt.name(), "ci-abc123-alt");
}

#[test]
fn accessor_output_must_be_chronological_and_end_right() {
    let good = vec![commit("aaa", 100), commit("bbb", 100), commit("ccc", 300)];
    assert_eq!(validate_commit_sequence(&good, "ccc"), Ok(()));

    let unsorted = vec![commit("aaa", 400), commit("bbb", 100), commit("ccc", 500)];
    assert_eq!(
        validate_commit_sequence(&unsorted, "ccc"),
        Err(BisectError::AccessorError)
    );

    assert_eq!(
        validate_commit_sequence(&good, "bbb"),
        Err(BisectError::AccessorError)
    );
    assert_eq!(
        validate_commit_sequence(&Vec::new(), "ccc"),
        Err(BisectError::AccessorError)
    );
}

#[test]
fn commits_past_the_retention_window_are_dropped() {
    let now: i64 = 1_700_000_000;
    let day = 86_400;
    let fresh = commit("fresh", now - 10 * day);
    let stale = commit("stale", now - 200 * day);
    let edge = commit("edge", now - 167 * day);
    let kept = filter_recent_commits(vec![stale, fresh.clone(), edge], now);
    assert_eq!(kept, vec![fresh]);
}

#[test]
fn an_emptied_range_is_an_error() {
    let now: i64 = 1_700_000_000;
    let stale = commit("stale", now - 200 * 86_400);
    let host = HOST.to_string();
    let r = plan_ci_bisection(vec![stale], now, false, "stale", false, &host, &host);
    assert!(matches!(r, Err(BisectError::EmptyCommitRange)));
}

#[test]
fn a_range_that_lost_its_end_is_an_error() {
    let now: i64 = 1_700_000_000;
    let cs = vec![commit("aaa1", now - 300), commit("bbb2", now - 200)];
    let host = HOST.to_string();
    let r = plan_ci_bisection(cs, now, false, "ccc3", false, &host, &host);
    assert!(matches!(r, Err(BisectError::AccessorError)));
}

#[test]
fn a_planned_range_keeps_commit_order() {
    let now: i64 = 1_700_000_000;
    let cs = vec![
        commit("aaa1", now - 300),
        commit("bbb2", now - 200),
        commit("ccc3", now - 100),
    ];
    let host = HOST.to_string();
    let ts = plan_ci_bisection(cs, now, false, "ccc3", true, &host, &host).unwrap();
    assert_eq!(ts.len(), 3);
    let shas: Vec<String> = ts
        .iter()
        .map(|t| match &t.spec {
            ToolchainSpec::Ci { commit, alt } => {
                assert!(*alt);
                commit.clone()
            }
            _ => panic!("commit candidates were expected"),
        })
        .collect();
    assert_eq!(shas, vec!["aaa1", "bbb2", "ccc3"]);
    for t in &ts {
        assert_eq!(t.host, HOST);
    }
}

#[test]
fn a_commit_span_finds_the_regressing_commit() {
    // Three commits, endpoints validated, regression introduced by the
    // third: the search answers index 2.
    let now: i64 = 1_700_000_000;
    let cs = vec![
        commit("aaa1", now - 300),
        commit("bbb2", now - 200),
        commit("ccc3", now - 100),
    ];
    let host = HOST.to_string();
    let ts = plan_ci_bisection(cs, now, false, "ccc3", false, &host, &host).unwrap();
    assert_eq!(check_start_outcome(TestOutcome::Baseline), Ok(()));
    assert_eq!(check_end_outcome(TestOutcome::Regressed), Ok(()));
    let outcomes = vec![Satisfies::No, Satisfies::No, Satisfies::Yes];
    let found = least_satisfying(&outcomes);
    assert_eq!(found, 2);
    match &ts[found].spec {
        ToolchainSpec::Ci { commit, .. } => assert_eq!(commit, "ccc3"),
        _ => panic!("a commit candidate was expected"),
    }
}

#[test]
fn endpoint_validation_rejects_wrong_endpoints() {
    // A start that already reproduces, as with two bad hashes.
    assert_eq!(
        check_start_outcome(TestOutcome::Regressed),
        Err(BisectError::EndpointBaseline)
    );
    // An end that does not reproduce, as with two good hashes.
    assert_eq!(
        check_end_outcome(TestOutcome::Baseline),
        Err(BisectError::EndpointRegression)
    );
}

#[test]
fn install_mode_skips_the_search() {
    let install = Some(Bound::from_text("2019-05-01"));
    assert!(chooses_install(&install));
    assert!(!chooses_install(&None));
    // The installed candidate is built directly from the bound, with no
    // search and no probe.
    let date = match install.unwrap() {
        Bound::Date(d) => d,
        Bound::Commit(_) => panic!("a date was expected"),
    };
    let t = Toolchain::new(
        ToolchainSpec::Nightly { date },
        HOST.to_string(),
        HOST.to_string(),
    );
    assert_eq!(t.spec.name(), "nightly-2019-05-01");
}

#[test]
fn date_bounds_must_be_ordered() {
    let early = Some(Bound::from_text("2018-07-07"));
    let late = Some(Bound::from_text("2018-07-30"));
    assert_eq!(check_bounds(&early, &late), Ok(()));
    assert_eq!(check_bounds(&late, &early), Err(BisectError::BoundOrder));
    assert_eq!(check_bounds(&None, &early), Ok(()));
}

#[test]
fn mixed_bound_kinds_are_rejected() {
    let date = Some(Bound::from_text("2018-07-07"));
    let sha = Some(Bound::from_text("abc123"));
    assert_eq!(classify_bounds(&date, &sha), Err(BisectError::BoundMismatch));
    assert_eq!(classify_bounds(&sha, &sha), Ok(Some(true)));
    assert_eq!(classify_bounds(&date, &date), Ok(Some(false)));
    assert_eq!(classify_bounds(&None, &date), Ok(Some(false)));
    assert_eq!(classify_bounds(&sha, &None), Ok(Some(true)));
    assert_eq!(classify_bounds(&None, &None), Ok(None));
}

#[test]
fn missing_commit_bounds_default_to_epoch_and_head() {
    let (s, e) = ci_range_refs(&None, &None);
    assert_eq!(s, "927c55d86b0be44337f37cf5b0a76fb8ba86e06c");
    assert_eq!(e, "origin/master");
    let (s2, e2) = ci_range_refs(
        &Some(Bound::from_text("abc123")),
        &Some(Bound::from_text("def456")),
    );
    assert_eq!(s2, "abc123");
    assert_eq!(e2, "def456");
}

#[test]
fn seed_dates_follow_the_bounds() {
    let start = Some(Bound::from_text("2018-07-07"));
    let end_date = ymd(2018, 7, 30);
    assert_eq!(get_start_date(&start, end_date), ymd(2018, 7, 7));
    assert_eq!(get_start_date(&None, end_date), end_date);
    let end = Some(Bound::from_text("2018-07-30"));
    assert_eq!(get_end_date(&end, None), end_date);
    assert_eq!(get_end_date(&None, Some(ymd(2019, 1, 1))), ymd(2019, 1, 1));
}

#[test]
fn searched_ranges_follow_the_candidates() {
    let host = HOST.to_string();
    let ts = bisect_rustc::toolchains_between(&ymd(2018, 7, 7), &ymd(2018, 7, 9), &host, &host);
    let start = Some(Bound::from_text("2018-07-07"));
    let (lo, hi) = searched_range(&start, ymd(2018, 7, 30), &ts);
    assert_eq!(lo.name(), "nightly-2018-07-07");
    assert_eq!(hi.name(), "nightly-2018-07-30");
}

#[test]
fn regression_modes_parse_by_name() {
    assert_eq!(output_processing_mode("error"), Some(RegressOnErrorStatus));
    assert_eq!(output_processing_mode("non-error"), Some(RegressOnNonCleanError));
    assert_eq!(output_processing_mode("ice"), Some(RegressOnIceAlone));
    assert_eq!(output_processing_mode("non-ice"), Some(RegressOnNotIce));
    assert_eq!(output_processing_mode("success"), Some(RegressOnSuccessStatus));
    assert_eq!(output_processing_mode("warnings"), None);
}

#[test]
fn only_the_status_modes_skip_stderr() {
    assert!(!RegressOnErrorStatus.must_process_stderr());
    assert!(!RegressOnSuccessStatus.must_process_stderr());
    assert!(RegressOnIceAlone.must_process_stderr());
    assert!(RegressOnNotIce.must_process_stderr());
    assert!(RegressOnNonCleanError.must_process_stderr());
}

#[test]
fn the_classifier_follows_the_mode_table() {
    let ice = "error: internal compiler error: it broke";
    let clean = "error[E0308]: mismatched types";

    assert_eq!(default_outcome_of_output(RegressOnErrorStatus, true, clean), Baseline);
    assert_eq!(default_outcome_of_output(RegressOnErrorStatus, false, clean), Regressed);

    assert_eq!(default_outcome_of_output(RegressOnSuccessStatus, true, clean), Regressed);
    assert_eq!(default_outcome_of_output(RegressOnSuccessStatus, false, clean), Baseline);

    assert_eq!(default_outcome_of_output(RegressOnIceAlone, false, ice), Regressed);
    assert_eq!(default_outcome_of_output(RegressOnIceAlone, false, clean), Baseline);

    assert_eq!(default_outcome_of_output(RegressOnNotIce, false, ice), Baseline);
    assert_eq!(default_outcome_of_output(RegressOnNotIce, true, clean), Regressed);

    assert_eq!(default_outcome_of_output(RegressOnNonCleanError, true, clean), Regressed);
    assert_eq!(default_outcome_of_output(RegressOnNonCleanError, false, ice), Regressed);
    assert_eq!(default_outcome_of_output(RegressOnNonCleanError, false, clean), Baseline);
}

#[test]
fn an_ice_on_a_successful_exit_is_still_a_regression() {
    // The exit status says success, but the diagnostic stream shows an
    // internal compiler error; under the ice mode that is the regression.
    let stderr = "warning: unused variable\nerror: internal compiler error: unexpected panic";
    assert_eq!(
        default_outcome_of_output(OutputProcessingMode::RegressOnIceAlone, true, stderr),
        TestOutcome::Regressed
    );
}

#[test]
fn a_truncated_marker_is_not_an_ice() {
    let stderr = "error: internal compiler erro";
    assert_eq!(
        default_outcome_of_output(OutputProcessingMode::RegressOnIceAlone, false, stderr),
        TestOutcome::Baseline
    );
}

#[test]
fn regressed_runs_satisfy_the_search() {
    assert_eq!(outcome_to_satisfies(TestOutcome::Regressed), Satisfies::Yes);
    assert_eq!(outcome_to_satisfies(TestOutcome::Baseline), Satisfies::No);
}

#[test]
fn endpoint_errors_carry_their_fixed_messages() {
    assert_eq!(
        BisectError::EndpointBaseline.description(),
        "the start of the range must not reproduce the regression"
    );
    assert_eq!(
        BisectError::EndpointRegression.description(),
        "the end of the range does not reproduce the regression"
    );
    assert_eq!(BisectError::BoundOrder.description(), "end should be after start");
}

#[test]
fn conversion_to_commits_needs_date_bounds_and_the_flag() {
    assert!(wants_date_to_commit_conversion(Some(false), true));
    assert!(!wants_date_to_commit_conversion(Some(false), false));
    assert!(!wants_date_to_commit_conversion(Some(true), true));
    assert!(!wants_date_to_commit_conversion(None, true));
}

#[test]
fn every_error_has_a_description() {
    let errors = [
        BisectError::BoundMismatch,
        BisectError::BoundOrder,
        BisectError::EndpointBaseline,
        BisectError::EndpointRegression,
        BisectError::NoSuchArtifact,
        BisectError::NoBaselineFound,
        BisectError::EmptyCommitRange,
        BisectError::AccessorError,
        BisectError::SubcommandError,
        BisectError::Network,
    ];
    for e in errors {
        assert!(!e.description().is_empty());
    }
}
