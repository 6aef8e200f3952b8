//! Core logic of a compiler-regression bisector.
//!
//! Given a known-good bound and a known-bad bound, the tool narrows an
//! observable change in behaviour of a user program down to a single nightly
//! build and then, inside the one-day window, to a single commit whose CI
//! artifacts are probed. This crate holds the verified parts: the date
//! model, the outcome classifier, the least-satisfying search, the nightly
//! finder, the toolchain model, and the planning and validation steps of the
//! bisection itself. Everything that touches the network, the file system or
//! a subprocess lives in the unverified front end that drives this library.

mod bounds;
mod command;
mod commits;
mod dates;
mod datestr;
mod errors;
mod finder;
mod orchestrate;
mod outcome;
mod resolver;
mod search;
mod strutil;
mod toolchain;
mod walk;

pub use bounds::Bound;
pub use bounds::bounds_kind;
pub use bounds::bounds_out_of_order;
pub use bounds::check_bounds;
pub use bounds::classify_bounds;
pub use bounds::opt_bound_well_formed;
pub use bounds::wants_date_to_commit_conversion;
pub use commits::Commit;
pub use commits::chronological;
pub use commits::commit_retained;
pub use commits::filter_recent_commits;
pub use commits::plan_ci_bisection;
pub use commits::retained_commits;
pub use commits::validate_commit_sequence;
pub use commits::ci_plan_outcome;
pub use command::CommandTemplate;
pub use command::join_spaces;
pub use resolver::manifest_url_chars;
pub use resolver::nightly_manifest_url;
pub use resolver::trimmed;
pub use resolver::trimmed_chars;
pub use resolver::leading_ws;
pub use resolver::trailing_ws;
pub use resolver::is_trim_ws;
pub use dates::GitDate;
pub use dates::lemma_day_num_max;
pub use errors::BisectError;
pub use finder::NightlyFinderIter;
pub use finder::finder_offset;
pub use finder::lemma_finder_offset_closed;
pub use finder::stride_spec;
pub use dates::date_le;
pub use dates::date_lt;
pub use dates::day_num;
pub use dates::day_number;
pub use dates::days_in_month;
pub use dates::is_leap_year;
pub use dates::next_day;
pub use dates::prev_day;
pub use dates::sub_days;
pub use dates::valid_date;
pub use datestr::parse_date;
pub use datestr::format_date;
pub use datestr::parse_date_chars;
pub use datestr::date_chars;
pub use datestr::lemma_parse_then_format;
pub use datestr::lemma_format_then_parse;
pub use orchestrate::BisectionResult;
pub use orchestrate::check_end_outcome;
pub use orchestrate::check_start_outcome;
pub use orchestrate::chooses_install;
pub use orchestrate::ci_range_refs;
pub use orchestrate::ci_window_for_nightly;
pub use orchestrate::duplicate_spec;
pub use orchestrate::epoch_commit_chars;
pub use orchestrate::get_end_date;
pub use orchestrate::get_start_date;
pub use orchestrate::master_ref_chars;
pub use orchestrate::needs_final_confirmation;
pub use orchestrate::searched_range;
pub use orchestrate::today;
pub use outcome::Satisfies;
pub use outcome::TestOutcome;
pub use outcome::outcome_to_satisfies;
pub use outcome::OutputProcessingMode;
pub use outcome::classify_spec;
pub use outcome::saw_ice;
pub use outcome::ice_marker_chars;
pub use outcome::default_outcome_of_output;
pub use outcome::output_processing_mode;
pub use outcome::regress_mode_of;
pub use strutil::contains_seq;
pub use strutil::contains_substr;
pub use strutil::matches_at;
pub use strutil::str_eq_chars;
pub use strutil::str_starts_with;
pub use toolchain::Toolchain;
pub use toolchain::ToolchainSpec;
pub use toolchain::lex_lt_bytes;
pub use toolchain::string_bytes;
pub use toolchain::targets_sorted_dedup;
pub use toolchain::toolchains_between;
pub use walk::NightlyWalk;
pub use walk::WalkEvent;
pub use walk::WalkPhase;
pub use walk::floor_date;
pub use walk::floor_day;
pub use walk::lemma_floor_day;
pub use search::SearchPhase;
pub use search::SearchState;
pub use search::consistent_with;
pub use search::no_yes_below;
pub use search::least_satisfying;
pub use search::lemma_monotone_probe_exact;
pub use search::lemma_unknown_tolerant_bounds;
