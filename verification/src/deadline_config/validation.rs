//! Checking a deadline configuration before it is saved.
use crate::time::{in_utc_range, Timestamp, SECONDS_PER_DAY};
use vstd::prelude::*;

verus! {

/// One problem with a configuration: the field at fault and what is wrong with it.
#[derive(Clone, Debug, PartialEq, Eq)]
pub struct ValidationError {
    pub field: String,
    pub message: String,
}

/// The verdict on a configuration: valid, or the problems found.
#[derive(Clone, Debug, PartialEq, Eq)]
pub struct ValidationResult {
    pub is_valid: bool,
    pub errors: Vec<ValidationError>,
}

/// A problem a configuration can have.
#[derive(Clone, Copy, Debug, PartialEq, Eq, Structural)]
pub enum ConfigProblem {
    KeeperDeadlineNotInFuture,
    VeteranAuctionDaysNotPositive,
    FaAuctionDaysNotPositive,
    FinalRosterLockDaysNotPositive,
    PlayoffsWeekOutOfRange,
    VeteranAuctionTooSoon,
    FaAuctionTooShort,
    FinalRosterLockTooSoon,
    FaAuctionTooLong,
    PreseasonTooCompressed,
}

/// The field a problem is reported against.
pub open spec fn problem_field(problem: ConfigProblem) -> Seq<char> {
    match problem {
        ConfigProblem::KeeperDeadlineNotInFuture => "preseason_keeper_deadline"@,
        ConfigProblem::VeteranAuctionDaysNotPositive => "veteran_auction_days_after_keeper_deadline_duration"@,
        ConfigProblem::FaAuctionDaysNotPositive => "fa_auction_days_duration"@,
        ConfigProblem::FinalRosterLockDaysNotPositive => "final_roster_lock_deadline_days_after_rookie_draft"@,
        ConfigProblem::PlayoffsWeekOutOfRange => "playoffs_start_week"@,
        ConfigProblem::VeteranAuctionTooSoon => "veteran_auction_days_after_keeper_deadline_duration"@,
        ConfigProblem::FaAuctionTooShort => "fa_auction_days_duration"@,
        ConfigProblem::FinalRosterLockTooSoon => "final_roster_lock_deadline_days_after_rookie_draft"@,
        ConfigProblem::FaAuctionTooLong => "fa_auction_days_duration"@,
        ConfigProblem::PreseasonTooCompressed => "general"@,
    }
}

/// What a problem is reported as saying.
pub open spec fn problem_message(problem: ConfigProblem) -> Seq<char> {
    match problem {
        ConfigProblem::KeeperDeadlineNotInFuture => "Preseason keeper deadline must be in the future"@,
        ConfigProblem::VeteranAuctionDaysNotPositive => "Veteran auction days after keeper must be a positive number"@,
        ConfigProblem::FaAuctionDaysNotPositive => "Free agent auction duration must be a positive number"@,
        ConfigProblem::FinalRosterLockDaysNotPositive => "Final roster lock days after rookie draft must be a positive number"@,
        ConfigProblem::PlayoffsWeekOutOfRange => "Playoffs start week must be between 1 and 26"@,
        ConfigProblem::VeteranAuctionTooSoon => "Veteran auction should start at least 3 days after keeper deadline to allow processing time"@,
        ConfigProblem::FaAuctionTooShort => "Free agent auction should last at least 1 day"@,
        ConfigProblem::FinalRosterLockTooSoon => "Final roster lock should be at least 1 day after rookie draft to allow for roster decisions"@,
        ConfigProblem::FaAuctionTooLong => "Free agent auction duration is too long - it would extend well past final roster lock"@,
        ConfigProblem::PreseasonTooCompressed => "Overall preseason timeline is too compressed - need at least 2 weeks from keeper deadline to final roster lock"@,
    }
}

/// The error a problem is reported as.
fn problem_error(problem: ConfigProblem) -> (error: ValidationError)
    ensures
        error.field@ == problem_field(problem),
        error.message@ == problem_message(problem),
{
    let (field, message) = match problem {
        ConfigProblem::KeeperDeadlineNotInFuture => (
            "preseason_keeper_deadline",
            "Preseason keeper deadline must be in the future",
        ),
        ConfigProblem::VeteranAuctionDaysNotPositive => (
            "veteran_auction_days_after_keeper_deadline_duration",
            "Veteran auction days after keeper must be a positive number",
        ),
        ConfigProblem::FaAuctionDaysNotPositive => (
            "fa_auction_days_duration",
            "Free agent auction duration must be a positive number",
        ),
        ConfigProblem::FinalRosterLockDaysNotPositive => (
            "final_roster_lock_deadline_days_after_rookie_draft",
            "Final roster lock days after rookie draft must be a positive number",
        ),
        ConfigProblem::PlayoffsWeekOutOfRange => (
            "playoffs_start_week",
            "Playoffs start week must be between 1 and 26",
        ),
        ConfigProblem::VeteranAuctionTooSoon => (
            "veteran_auction_days_after_keeper_deadline_duration",
            "Veteran auction should start at least 3 days after keeper deadline to allow processing time",
        ),
        ConfigProblem::FaAuctionTooShort => (
            "fa_auction_days_duration",
            "Free agent auction should last at least 1 day",
        ),
        ConfigProblem::FinalRosterLockTooSoon => (
            "final_roster_lock_deadline_days_after_rookie_draft",
            "Final roster lock should be at least 1 day after rookie draft to allow for roster decisions",
        ),
        ConfigProblem::FaAuctionTooLong => (
            "fa_auction_days_duration",
            "Free agent auction duration is too long - it would extend well past final roster lock",
        ),
        ConfigProblem::PreseasonTooCompressed => (
            "general",
            "Overall preseason timeline is too compressed - need at least 2 weeks from keeper deadline to final roster lock",
        ),
    };
    proof {
        reveal_strlit("preseason_keeper_deadline");
        reveal_strlit("veteran_auction_days_after_keeper_deadline_duration");
        reveal_strlit("fa_auction_days_duration");
        reveal_strlit("final_roster_lock_deadline_days_after_rookie_draft");
        reveal_strlit("playoffs_start_week");
        reveal_strlit("general");
    }
    ValidationError { field: field.to_owned(), message: message.to_owned() }
}

/// The field and message of each reported error, in order.
pub open spec fn reported_errors(errors: Seq<ValidationError>) -> Seq<(Seq<char>, Seq<char>)> {
    errors.map_values(|error: ValidationError| (error.field@, error.message@))
}

impl ValidationResult {
    /// A verdict with no problems.
    pub fn valid() -> (result: Self)
        ensures
            result.is_valid,
            result.errors@.len() == 0,
    {
        ValidationResult { is_valid: true, errors: Vec::new() }
    }

    /// A verdict that refuses the configuration with the given problems.
    pub fn invalid(errors: Vec<ValidationError>) -> (result: Self)
        ensures
            !result.is_valid,
            result.errors@ == errors@,
    {
        ValidationResult { is_valid: false, errors }
    }

    /// Records one more problem, which makes the verdict invalid.
    pub fn add_error(&mut self, field: &str, message: &str)
        ensures
            !final(self).is_valid,
            final(self).errors@.len() == old(self).errors@.len() + 1,
            final(self).errors@.drop_last() == old(self).errors@,
            final(self).errors@.last().field@ == field@,
            final(self).errors@.last().message@ == message@,
    {
        self.errors.push(ValidationError { field: field.to_owned(), message: message.to_owned() });
        self.is_valid = false;
    }
}

/// The field and message each of a list of problems is reported with, in order.
pub open spec fn errors_of(problems: Seq<ConfigProblem>) -> Seq<(Seq<char>, Seq<char>)> {
    problems.map_values(|problem: ConfigProblem| (problem_field(problem), problem_message(problem)))
}

/// Records `problem` when `condition` holds; `found` are the problems recorded so far.
fn record_if(
    result: &mut ValidationResult,
    condition: bool,
    problem: ConfigProblem,
    Ghost(found): Ghost<Seq<ConfigProblem>>,
)
    requires
        reported_errors(old(result).errors@) == errors_of(found),
        old(result).is_valid <==> found.len() == 0,
    ensures
        reported_errors(final(result).errors@) == errors_of(found + when(condition, problem)),
        final(result).is_valid <==> (found + when(condition, problem)).len() == 0,
{
    if condition {
        let error = problem_error(problem);
        result.errors.push(error);
        result.is_valid = false;
        proof {
            assert(reported_errors(result.errors@) =~= reported_errors(old(result).errors@).push(
                (problem_field(problem), problem_message(problem)),
            ));
            assert(errors_of(found + when(condition, problem)) =~= errors_of(found).push(
                (problem_field(problem), problem_message(problem)),
            ));
        }
    } else {
        proof {
            assert(found + when(condition, problem) =~= found);
        }
    }
}

/// Configuration parameters for a season's deadlines.
#[derive(Clone, Copy, Debug, PartialEq, Eq, Structural)]
pub struct DeadlineConfigInput {
    pub preseason_keeper_deadline: Timestamp,
    pub veteran_auction_days_after_keeper_deadline_duration: i16,
    pub fa_auction_days_duration: i16,
    pub final_roster_lock_deadline_days_after_rookie_draft: i16,
    pub playoffs_start_week: i16,
}

/// A problem, when its condition holds.
pub open spec fn when(condition: bool, problem: ConfigProblem) -> Seq<ConfigProblem> {
    if condition {
        seq![problem]
    } else {
        Seq::empty()
    }
}

/// The problems of a configuration checked at `now`, in the order they are checked: the keeper
/// deadline is in the future, every duration is positive, the playoffs start between weeks 1 and
/// 26, and the phases leave enough time between them.
pub open spec fn config_problems(config: DeadlineConfigInput, now: Timestamp) -> Seq<ConfigProblem> {
    let v = config.veteran_auction_days_after_keeper_deadline_duration;
    let f = config.fa_auction_days_duration;
    let r = config.final_roster_lock_deadline_days_after_rookie_draft;
    let w = config.playoffs_start_week;
    when(config.preseason_keeper_deadline.not_after(now), ConfigProblem::KeeperDeadlineNotInFuture)
        + when(v <= 0, ConfigProblem::VeteranAuctionDaysNotPositive)
        + when(f <= 0, ConfigProblem::FaAuctionDaysNotPositive)
        + when(r <= 0, ConfigProblem::FinalRosterLockDaysNotPositive)
        + when(w < 1 || w > 26, ConfigProblem::PlayoffsWeekOutOfRange)
        + when(v < 3, ConfigProblem::VeteranAuctionTooSoon)
        + when(f < 1, ConfigProblem::FaAuctionTooShort)
        + when(r < 1, ConfigProblem::FinalRosterLockTooSoon)
}

/// Checks a configuration's values against the rules, with `now` as the current time.
pub fn validate_deadline_config_at(config: &DeadlineConfigInput, now: Timestamp) -> (result: ValidationResult)
    ensures
        result.is_valid <==> config_problems(*config, now).len() == 0,
        reported_errors(result.errors@) == errors_of(config_problems(*config, now)),
{
    let v = config.veteran_auction_days_after_keeper_deadline_duration;
    let f = config.fa_auction_days_duration;
    let r = config.final_roster_lock_deadline_days_after_rookie_draft;
    let w = config.playoffs_start_week;
    let mut result = ValidationResult::valid();
    proof {
        assert(reported_errors(result.errors@) =~= errors_of(Seq::empty()));
    }
    let ghost p0: Seq<ConfigProblem> = Seq::empty();
    let keeper_passed = config.preseason_keeper_deadline.is_not_after(&now);
    record_if(&mut result, keeper_passed, ConfigProblem::KeeperDeadlineNotInFuture, Ghost(p0));
    let ghost p1 = p0 + when(keeper_passed, ConfigProblem::KeeperDeadlineNotInFuture);
    record_if(&mut result, v <= 0, ConfigProblem::VeteranAuctionDaysNotPositive, Ghost(p1));
    let ghost p2 = p1 + when(v <= 0, ConfigProblem::VeteranAuctionDaysNotPositive);
    record_if(&mut result, f <= 0, ConfigProblem::FaAuctionDaysNotPositive, Ghost(p2));
    let ghost p3 = p2 + when(f <= 0, ConfigProblem::FaAuctionDaysNotPositive);
    record_if(&mut result, r <= 0, ConfigProblem::FinalRosterLockDaysNotPositive, Ghost(p3));
    let ghost p4 = p3 + when(r <= 0, ConfigProblem::FinalRosterLockDaysNotPositive);
    record_if(&mut result, w < 1 || w > 26, ConfigProblem::PlayoffsWeekOutOfRange, Ghost(p4));
    let ghost p5 = p4 + when(w < 1 || w > 26, ConfigProblem::PlayoffsWeekOutOfRange);
    record_if(&mut result, v < 3, ConfigProblem::VeteranAuctionTooSoon, Ghost(p5));
    let ghost p6 = p5 + when(v < 3, ConfigProblem::VeteranAuctionTooSoon);
    record_if(&mut result, f < 1, ConfigProblem::FaAuctionTooShort, Ghost(p6));
    let ghost p7 = p6 + when(f < 1, ConfigProblem::FaAuctionTooShort);
    record_if(&mut result, r < 1, ConfigProblem::FinalRosterLockTooSoon, Ghost(p7));
    proof {
        assert(p0 + when(keeper_passed, ConfigProblem::KeeperDeadlineNotInFuture) =~= when(
            keeper_passed,
            ConfigProblem::KeeperDeadlineNotInFuture,
        ));
    }
    result
}

/// Calls `chrono::Utc::now`. Claims only that the reading is a representable UTC instant: the
/// current time is not stated.
#[verifier::external_body]
fn utc_now() -> (now: Timestamp)
    ensures
        now.wf(),
        now.offset_seconds == 0,
{
    let now = chrono::Utc::now();
    Timestamp { seconds: now.timestamp(), nanos: now.timestamp_subsec_nanos(), offset_seconds: 0 }
}

/// Checks a configuration's values against the rules as of the current time.
pub fn validate_deadline_config(config: &DeadlineConfigInput) -> (result: ValidationResult)
    ensures
        exists|now: Timestamp|
            now.wf() && (result.is_valid <==> config_problems(*config, now).len() == 0)
                && reported_errors(result.errors@) == errors_of(config_problems(*config, now)),
{
    let now = utc_now();
    validate_deadline_config_at(config, now)
}

/// Whether every instant the timing check computes is on the calendar.
pub open spec fn timing_in_range(config: DeadlineConfigInput) -> bool {
    let k = config.preseason_keeper_deadline.seconds as int;
    let v = config.veteran_auction_days_after_keeper_deadline_duration as int;
    let f = config.fa_auction_days_duration as int;
    let r = config.final_roster_lock_deadline_days_after_rookie_draft as int;
    &&& in_utc_range(k + v * SECONDS_PER_DAY)
    &&& in_utc_range(k + (v + f) * SECONDS_PER_DAY)
    &&& in_utc_range(k + (v + 3) * SECONDS_PER_DAY)
    &&& in_utc_range(k + (v + 3 + r) * SECONDS_PER_DAY)
    &&& in_utc_range(k + (v + 3 + r + 1) * SECONDS_PER_DAY)
}

/// The timeline problems of a configuration: the free agent auction must not run more than a day
/// past the final roster lock, and the keeper deadline must come at least two weeks before it.
pub open spec fn timing_problems(config: DeadlineConfigInput) -> Seq<ConfigProblem> {
    let v = config.veteran_auction_days_after_keeper_deadline_duration as int;
    let f = config.fa_auction_days_duration as int;
    let r = config.final_roster_lock_deadline_days_after_rookie_draft as int;
    when(v + f > v + 3 + r + 1, ConfigProblem::FaAuctionTooLong) + when(
        v + 3 + r < 14,
        ConfigProblem::PreseasonTooCompressed,
    )
}

/// Checks that a configuration's phases fit together: the veteran auction starts the set number of
/// days after the keeper deadline, the free agent auction runs its days from there, the rookie
/// draft starts three days after the veteran auction and the final roster lock its days after that.
pub fn validate_config_timing(config: &DeadlineConfigInput) -> (result: ValidationResult)
    requires
        config.preseason_keeper_deadline.wf(),
        timing_in_range(*config),
    ensures
        result.is_valid <==> timing_problems(*config).len() == 0,
        reported_errors(result.errors@) == errors_of(timing_problems(*config)),
{
    let keeper = config.preseason_keeper_deadline;
    let v = config.veteran_auction_days_after_keeper_deadline_duration as i64;
    let f = config.fa_auction_days_duration as i64;
    let r = config.final_roster_lock_deadline_days_after_rookie_draft as i64;
    let veteran_auction_start = keeper.seconds + v * SECONDS_PER_DAY;
    let fa_auction_end = veteran_auction_start + f * SECONDS_PER_DAY;
    let rookie_draft_start = veteran_auction_start + 3 * SECONDS_PER_DAY;
    let final_roster_lock = rookie_draft_start + r * SECONDS_PER_DAY;
    let mut result = ValidationResult::valid();
    proof {
        assert(reported_errors(result.errors@) =~= errors_of(Seq::empty()));
    }
    let ghost p0: Seq<ConfigProblem> = Seq::empty();
    // Same nanoseconds on both sides, so comparing whole seconds compares the instants.
    let too_long = fa_auction_end > final_roster_lock + SECONDS_PER_DAY;
    record_if(&mut result, too_long, ConfigProblem::FaAuctionTooLong, Ghost(p0));
    let ghost p1 = p0 + when(too_long, ConfigProblem::FaAuctionTooLong);
    let compressed = final_roster_lock - keeper.seconds < 14 * SECONDS_PER_DAY;
    record_if(&mut result, compressed, ConfigProblem::PreseasonTooCompressed, Ghost(p1));
    proof {
        assert(p0 + when(too_long, ConfigProblem::FaAuctionTooLong) =~= when(
            too_long,
            ConfigProblem::FaAuctionTooLong,
        ));
    }
    result
}

} // verus!
