use bisect_rustc::BisectError;
use bisect_rustc::GitDate;
use bisect_rustc::NightlyFinderIter;
use bisect_rustc::NightlyWalk;
use bisect_rustc::Satisfies;
use bisect_rustc::SearchState;
use bisect_rustc::WalkEvent;
use bisect_rustc::WalkPhase;
use bisect_rustc::ci_window_for_nightly;
use bisect_rustc::day_number;
use bisect_rustc::least_satisfying;
use bisect_rustc::needs_final_confirmation;
use bisect_rustc::sub_days;
use bisect_rustc::toolchains_between;
use bisect_rustc::ToolchainSpec;
use Satisfies::No;
use Satisfies::Unknown;
use Satisfies::Yes;

fn ymd(year: u32, month: u32, day: u32) -> GitDate {
    GitDate { year, month, day }
}

#[test]
fn test_nightly_finder_iterator() {
    let start_date = ymd(2019, 1, 1);
    let mut iter = NightlyFinderIter::new(start_date);

    assert_eq!(sub_days(&start_date, 2), iter.next());
    assert_eq!(sub_days(&start_date, 4), iter.next());
    assert_eq!(sub_days(&start_date, 6), iter.next());
    assert_eq!(sub_days(&start_date, 8), iter.next());
    assert_eq!(sub_days(&start_date, 15), iter.next());
    assert_eq!(sub_days(&start_date, 22), iter.next());
    assert_eq!(sub_days(&start_date, 29), iter.next());
    assert_eq!(sub_days(&start_date, 36), iter.next());
    assert_eq!(sub_days(&start_date, 43), iter.next());
    assert_eq!(sub_days(&start_date, 50), iter.next());
    assert_eq!(sub_days(&start_date, 64), iter.next());
    assert_eq!(sub_days(&start_date, 78), iter.next());
}

fn run_search(outcomes: &[Satisfies]) -> (usize, Vec<usize>) {
    let mut st = SearchState::new(outcomes.len());
    let mut probes = Vec::new();
    loop {
        match st.next_probe() {
            Some(q) => {
                probes.push(q);
                st.answer(outcomes[q]);
            }
            None => return (st.found(), probes),
        }
    }
}

#[test]
fn monotone_answers_return_the_boundary() {
    for m in 1..8 {
        let mut outcomes = vec![No; 9];
        for item in outcomes.iter_mut().skip(m) {
            *item = Yes;
        }
        assert_eq!(least_satisfying(&outcomes), m);
    }
}

#[test]
fn search_probe_count_is_logarithmic() {
    let n = 1024;
    let m = 700;
    let mut outcomes = vec![No; n];
    for item in outcomes.iter_mut().skip(m) {
        *item = Yes;
    }
    let (found, probes) = run_search(&outcomes);
    assert_eq!(found, m);
    assert!(probes.len() <= 11);
}

#[test]
fn unknown_probes_are_skipped() {
    assert_eq!(least_satisfying(&vec![No, Unknown, Yes]), 2);
    assert_eq!(least_satisfying(&vec![No, Unknown, Yes, Yes, Yes]), 2);
    assert_eq!(least_satisfying(&vec![No, No, Unknown, Unknown, Yes, Yes]), 4);
}

#[test]
fn an_all_unknown_window_falls_back_to_the_upper_end() {
    assert_eq!(least_satisfying(&vec![No, Unknown, Unknown, Unknown, Yes]), 4);
}

#[test]
fn single_candidate_searches_finish_without_probing() {
    let (found, probes) = run_search(&[Yes]);
    assert_eq!(found, 0);
    assert!(probes.is_empty());
}

#[test]
fn a_three_commit_span_takes_two_probes_beyond_validation() {
    // The endpoints were validated beforehand: index 0 clean, index 2
    // regressed. The regression sits at index 2.
    let outcomes = [No, No, Yes];
    let mut st = SearchState::new(3);
    let mut probes = Vec::new();
    while let Some(q) = st.next_probe() {
        probes.push(q);
        st.answer(outcomes[q]);
    }
    let found = st.found();
    assert_eq!(found, 2);
    // The found candidate is the last one, so its presumed answer is
    // re-confirmed by one more probe.
    assert!(needs_final_confirmation(found, 3));
    probes.push(found);
    assert_eq!(outcomes[found], Yes);
    assert_eq!(probes, vec![1, 2]);
}

#[test]
fn nightly_phase_narrows_to_the_regressed_date() {
    // Bounds 2018-07-07 and 2018-07-30; the compiler first fails on
    // 2018-07-20.
    let start = ymd(2018, 7, 7);
    let end = ymd(2018, 7, 30);
    let regressed = ymd(2018, 7, 20);

    let mut walk = NightlyWalk::new(start, end, true);
    // The pinned start must not reproduce: it probes clean.
    assert_eq!(walk.query(), Some(start));
    walk.step(WalkEvent::Baseline);
    // The end of the range is re-confirmed to reproduce.
    assert_eq!(walk.query(), Some(end));
    walk.step(WalkEvent::Regressed);
    let first_success = match walk.phase {
        WalkPhase::Ready { first_success } => first_success,
        _ => panic!("the walk should be ready"),
    };
    assert_eq!(first_success, start);
    assert_eq!(walk.last_failure, end);

    let host = "x86_64-unknown-linux-gnu".to_string();
    let ts = toolchains_between(&first_success, &walk.last_failure, &host, &host);
    assert_eq!(ts.len(), 24);

    let mut outcomes = Vec::new();
    for t in &ts {
        match &t.spec {
            ToolchainSpec::Nightly { date } => {
                if day_number(date) >= day_number(&regressed) {
                    outcomes.push(Satisfies::Yes);
                } else {
                    outcomes.push(Satisfies::No);
                }
            }
            _ => panic!("nightly candidates were expected"),
        }
    }
    let found = least_satisfying(&outcomes);
    assert_eq!(found, 13);
    match &ts[found].spec {
        ToolchainSpec::Nightly { date } => assert_eq!(*date, regressed),
        _ => panic!("a nightly was expected"),
    }

    // The commit phase then runs between the commits of the day before and
    // the blamed day.
    let (lo, hi) = ci_window_for_nightly(&regressed);
    assert_eq!(lo, ymd(2018, 7, 19));
    assert_eq!(hi, regressed);
}

#[test]
fn walk_respects_the_floor() {
    // Walking back from just above the floor stops without ever asking for
    // a nightly at or below 2015-10-20.
    let seed = ymd(2015, 10, 21);
    let mut walk = NightlyWalk::new(seed, seed, false);
    assert_eq!(walk.query(), Some(seed));
    walk.step(WalkEvent::Regressed);
    // The next stride would land on 2015-10-19, below the floor, so the
    // walk fails instead of probing it.
    assert_eq!(walk.query(), None);
    assert_eq!(walk.phase, WalkPhase::Failed { error: BisectError::NoBaselineFound });
}

#[test]
fn a_seed_at_the_floor_is_never_probed() {
    let seed = ymd(2015, 10, 19);
    let walk = NightlyWalk::new(seed, ymd(2015, 10, 20), false);
    assert_eq!(walk.query(), None);
    assert_eq!(walk.phase, WalkPhase::Failed { error: BisectError::NoBaselineFound });
}

#[test]
fn a_pinned_start_that_regresses_is_an_endpoint_error() {
    let mut walk = NightlyWalk::new(ymd(2018, 7, 7), ymd(2018, 7, 30), true);
    walk.step(WalkEvent::Regressed);
    assert_eq!(walk.phase, WalkPhase::Failed { error: BisectError::EndpointBaseline });
}

#[test]
fn a_missing_nightly_moves_one_day_back() {
    let mut walk = NightlyWalk::new(ymd(2018, 7, 7), ymd(2018, 7, 30), false);
    walk.step(WalkEvent::NotFound);
    assert_eq!(walk.query(), Some(ymd(2018, 7, 6)));
    assert_eq!(walk.phase, WalkPhase::Probing);
}

#[test]
fn a_missing_nightly_is_fatal_when_the_start_is_pinned() {
    let mut walk = NightlyWalk::new(ymd(2018, 7, 7), ymd(2018, 7, 30), true);
    walk.step(WalkEvent::NotFound);
    assert_eq!(walk.phase, WalkPhase::Failed { error: BisectError::AccessorError });
}

#[test]
fn an_unconfirmed_end_is_an_endpoint_error() {
    let mut walk = NightlyWalk::new(ymd(2018, 7, 7), ymd(2018, 7, 30), true);
    walk.step(WalkEvent::Baseline);
    walk.step(WalkEvent::Baseline);
    assert_eq!(walk.phase, WalkPhase::Failed { error: BisectError::EndpointRegression });
}

#[test]
fn a_missing_confirmation_nightly_is_reported() {
    let mut walk = NightlyWalk::new(ymd(2018, 7, 7), ymd(2018, 7, 30), true);
    walk.step(WalkEvent::Baseline);
    walk.step(WalkEvent::NotFound);
    assert_eq!(walk.phase, WalkPhase::Failed { error: BisectError::NoSuchArtifact });
}

#[test]
fn a_fatal_probe_error_fails_the_walk() {
    let mut walk = NightlyWalk::new(ymd(2018, 7, 7), ymd(2018, 7, 30), false);
    walk.step(WalkEvent::Fatal { error: BisectError::Network });
    assert_eq!(walk.phase, WalkPhase::Failed { error: BisectError::Network });
}

#[test]
fn an_unpinned_walk_keeps_the_newest_failure() {
    // Without a pinned start the walk seeds at the end date and records
    // every regressed probe as the newest failure.
    let end = ymd(2019, 1, 1);
    let mut walk = NightlyWalk::new(end, end, false);
    assert_eq!(walk.query(), Some(end));
    walk.step(WalkEvent::Regressed);
    assert_eq!(walk.last_failure, end);
    assert_eq!(walk.query(), Some(ymd(2018, 12, 30)));
    walk.step(WalkEvent::Regressed);
    assert_eq!(walk.last_failure, ymd(2018, 12, 30));
    assert_eq!(walk.query(), Some(ymd(2018, 12, 28)));
    walk.step(WalkEvent::Baseline);
    assert_eq!(
        walk.phase,
        WalkPhase::Confirming { first_success: ymd(2018, 12, 28) }
    );
}
