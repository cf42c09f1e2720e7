use fbkl_logic::deadline_config::generation::{
    generate_deadlines_from_config, get_deadline_dependency_order, DeadlineConfigRule,
};
use fbkl_logic::deadline_config::validation::{
    validate_config_timing, validate_deadline_config, validate_deadline_config_at,
    DeadlineConfigInput, ValidationResult,
};
use fbkl_logic::deadline_processing::processor::{
    activated_deadlines_for, check_deadline_prerequisites, config_updated_after_deadlines,
    count_deadline_statuses, deadline_action, dependency_position, finish_processing,
    order_for_processing, plan_deadline_processing, prerequisites_not_met, recorded_result,
    DeadlineAction,
};
use fbkl_logic::model::{Deadline, DeadlineKind, DeadlineStatus};
use fbkl_logic::text::labelled_year;
use fbkl_logic::time::Timestamp;

const DAY: i64 = 86_400;

fn utc(seconds: i64) -> Timestamp {
    Timestamp { seconds, nanos: 0, offset_seconds: 0 }
}

fn now() -> Timestamp {
    let now = chrono::Utc::now();
    Timestamp { seconds: now.timestamp(), nanos: now.timestamp_subsec_nanos(), offset_seconds: 0 }
}

fn in_days(days: i64) -> Timestamp {
    let base = now();
    Timestamp { seconds: base.seconds + days * DAY, ..base }
}

fn config_input(keeper: Timestamp, veteran: i16, fa: i16, final_lock: i16, playoffs: i16) -> DeadlineConfigInput {
    DeadlineConfigInput {
        preseason_keeper_deadline: keeper,
        veteran_auction_days_after_keeper_deadline_duration: veteran,
        fa_auction_days_duration: fa,
        final_roster_lock_deadline_days_after_rookie_draft: final_lock,
        playoffs_start_week: playoffs,
    }
}

fn config_rule(keeper: Timestamp) -> DeadlineConfigRule {
    DeadlineConfigRule {
        id: 1,
        league_id: 1,
        end_of_season_year: 2025,
        preseason_keeper_deadline: keeper,
        veteran_auction_days_after_keeper_deadline_duration: 7,
        fa_auction_days_duration: 5,
        final_roster_lock_deadline_days_after_rookie_draft: 5,
        playoffs_start_week: 21,
        created_at: now(),
        updated_at: now(),
    }
}

fn fields(result: &ValidationResult) -> Vec<String> {
    result.errors.iter().map(|error| error.field.clone()).collect()
}

#[test]
fn test_validation_integration() {
    let valid_config = config_input(in_days(30), 7, 5, 5, 21);
    let validation_result = validate_deadline_config(&valid_config);
    assert!(validation_result.is_valid);
    let timing_result = validate_config_timing(&valid_config);
    assert!(timing_result.is_valid);
}

#[test]
fn test_invalid_config_handling() {
    let invalid_config = config_input(in_days(-1), -1, 0, -5, 50);
    let validation_result = validate_deadline_config(&invalid_config);
    assert!(!validation_result.is_valid);
    assert!(!validation_result.errors.is_empty());
}

#[test]
fn test_valid_configuration() {
    let result = validate_deadline_config(&config_input(in_days(30), 7, 5, 5, 21));
    assert!(result.is_valid);
    assert!(result.errors.is_empty());
}

#[test]
fn test_keeper_deadline_in_past() {
    let result = validate_deadline_config(&config_input(in_days(-1), 7, 5, 3, 21));
    assert!(!result.is_valid);
    assert!(result.errors.iter().any(|e| e.field == "preseason_keeper_deadline"));
}

#[test]
fn test_negative_durations() {
    let result = validate_deadline_config(&config_input(in_days(30), -1, 0, -2, 21));
    assert!(!result.is_valid);
    assert!(result.errors.len() >= 3);
}

#[test]
fn test_invalid_playoffs_week() {
    let result = validate_deadline_config(&config_input(in_days(30), 7, 5, 3, 30));
    assert!(!result.is_valid);
    assert!(result.errors.iter().any(|e| e.field == "playoffs_start_week"));
}

#[test]
fn every_problem_is_reported_in_check_order() {
    let checked_at = utc(1_000 * DAY);
    let result = validate_deadline_config_at(&config_input(utc(999 * DAY), 0, 0, 0, 0), checked_at);
    assert_eq!(
        fields(&result),
        vec![
            "preseason_keeper_deadline",
            "veteran_auction_days_after_keeper_deadline_duration",
            "fa_auction_days_duration",
            "final_roster_lock_deadline_days_after_rookie_draft",
            "playoffs_start_week",
            "veteran_auction_days_after_keeper_deadline_duration",
            "fa_auction_days_duration",
            "final_roster_lock_deadline_days_after_rookie_draft",
        ]
    );
    // A keeper deadline exactly at the check time is not in the future.
    let at_now = validate_deadline_config_at(&config_input(checked_at, 7, 5, 5, 21), checked_at);
    assert_eq!(fields(&at_now), vec!["preseason_keeper_deadline"]);
}

#[test]
fn a_long_free_agent_auction_and_a_short_preseason_are_timing_problems() {
    // 3 + 1 + 1 days from the veteran auction: the FA auction (10 days) runs past the lock + 1 day.
    let result = validate_config_timing(&config_input(utc(1_000 * DAY), 3, 10, 1, 21));
    assert_eq!(fields(&result), vec!["fa_auction_days_duration", "general"]);
    // 7 + 3 + 4 = 14 days from keeper deadline to final lock is exactly enough.
    assert!(validate_config_timing(&config_input(utc(1_000 * DAY), 7, 5, 4, 21)).is_valid);
    assert_eq!(
        fields(&validate_config_timing(&config_input(utc(1_000 * DAY), 7, 5, 3, 21))),
        vec!["general"]
    );
}

#[test]
fn validation_results_track_their_errors() {
    let mut result = ValidationResult::valid();
    assert!(result.is_valid);
    result.add_error("general", "too compressed");
    assert!(!result.is_valid);
    assert_eq!(result.errors.len(), 1);
    assert_eq!(result.errors[0].message, "too compressed");
    assert!(!ValidationResult::invalid(Vec::new()).is_valid);
}

#[test]
fn test_generate_deadlines_from_config() {
    let deadlines = generate_deadlines_from_config(&config_rule(in_days(30)));
    assert_eq!(deadlines.len(), 7);
    let kinds: Vec<DeadlineKind> = deadlines.iter().map(|d| d.kind).collect();
    assert!(kinds.contains(&DeadlineKind::PreseasonKeeper));
    assert!(kinds.contains(&DeadlineKind::PreseasonVeteranAuctionStart));
    assert!(kinds.contains(&DeadlineKind::PreseasonRookieDraftStart));
    assert!(kinds.contains(&DeadlineKind::PreseasonFaAuctionStart));
    assert!(kinds.contains(&DeadlineKind::PreseasonFaAuctionEnd));
    assert!(kinds.contains(&DeadlineKind::PreseasonFinalRosterLock));
    assert!(kinds.contains(&DeadlineKind::Week1FreeAgentAuctionStart));
    assert!(deadlines.iter().all(|d| d.status == DeadlineStatus::Draft));
}

#[test]
fn generated_deadlines_are_named_for_their_season() {
    let deadlines = generate_deadlines_from_config(&config_rule(in_days(30)));
    let names: Vec<&str> = deadlines.iter().map(|d| d.name.as_str()).collect();
    assert_eq!(
        names,
        vec![
            "Preseason Keeper Deadline - 2025",
            "Preseason Veteran Auction Start - 2025",
            "Preseason Rookie Draft Start - 2025",
            "Preseason FA Auction Start - 2025",
            "Preseason FA Auction End - 2025",
            "Preseason Final Roster Lock - 2025",
            "Week 1 Free Agent Auction Start - 2025",
        ]
    );
}

#[test]
fn labelled_years_write_negative_and_zero_years_in_decimal() {
    assert_eq!(labelled_year("Season", 0), "Season - 0");
    assert_eq!(labelled_year("Season", -32768), "Season - -32768");
    assert_eq!(labelled_year("Season", 32767), "Season - 32767");
}

fn local_date(moment: Timestamp) -> i64 {
    (moment.seconds + i64::from(moment.offset_seconds)).div_euclid(DAY)
}

#[test]
fn test_deadline_timing_calculations() {
    let keeper_date = in_days(30);
    let deadlines = generate_deadlines_from_config(&config_rule(keeper_date));
    let veteran_auction = deadlines
        .iter()
        .find(|d| d.kind == DeadlineKind::PreseasonVeteranAuctionStart)
        .unwrap();
    let rookie_draft =
        deadlines.iter().find(|d| d.kind == DeadlineKind::PreseasonRookieDraftStart).unwrap();
    assert_eq!(local_date(veteran_auction.date_time), local_date(keeper_date) + 7);
    assert_eq!(local_date(rookie_draft.date_time), local_date(keeper_date) + 10);
}

#[test]
fn generated_deadlines_fall_at_nine_utc_and_their_offsets() {
    // 2025-08-01T22:00:00-05:00 reads as August 1st on its own clock, already August 2nd in UTC.
    let keeper = Timestamp { seconds: 1_754_103_600, nanos: 0, offset_seconds: -5 * 3_600 };
    let deadlines = generate_deadlines_from_config(&config_rule(keeper));
    let first_day = (1_754_103_600 - 5 * 3_600) / DAY;
    let veteran = (first_day + 7) * DAY + 9 * 3_600;
    assert_eq!(deadlines[0].date_time, keeper);
    assert_eq!(deadlines[1].date_time, utc(veteran));
    assert_eq!(deadlines[2].date_time, utc(veteran + 3 * DAY));
    assert_eq!(deadlines[3].date_time, utc(veteran + 3 * 3_600));
    assert_eq!(deadlines[4].date_time, utc(veteran + 3 * 3_600 + 5 * DAY));
    assert_eq!(deadlines[5].date_time, utc(veteran + 8 * DAY));
    assert_eq!(deadlines[6].date_time, deadlines[5].date_time);
}

#[test]
fn test_dependency_order() {
    let order = get_deadline_dependency_order();
    assert_eq!(order[0], DeadlineKind::PreseasonKeeper);
    assert_eq!(order[1], DeadlineKind::PreseasonVeteranAuctionStart);
    assert_eq!(order[2], DeadlineKind::PreseasonFaAuctionStart);
    assert_eq!(order[3], DeadlineKind::PreseasonRookieDraftStart);
    assert!(!order.is_empty());
    assert_eq!(order.iter().filter(|&&x| x == DeadlineKind::PreseasonKeeper).count(), 1);
}

fn deadline(id: i64, league_id: i64, kind: DeadlineKind, status: DeadlineStatus, at: i64) -> Deadline {
    Deadline {
        id,
        league_id,
        end_of_season_year: 2025,
        kind,
        status,
        date_time: utc(at),
        created_at: utc(0),
    }
}

#[test]
fn prerequisites_need_every_earlier_kind_processed_or_absent() {
    let season = vec![
        deadline(1, 1, DeadlineKind::PreseasonKeeper, DeadlineStatus::Processed, 10),
        deadline(2, 1, DeadlineKind::PreseasonVeteranAuctionStart, DeadlineStatus::Activated, 20),
    ];
    assert!(check_deadline_prerequisites(DeadlineKind::PreseasonKeeper, &season));
    assert!(check_deadline_prerequisites(DeadlineKind::PreseasonVeteranAuctionStart, &season));
    assert!(!check_deadline_prerequisites(DeadlineKind::PreseasonFaAuctionStart, &season));
    // Kinds outside the dependency order may always run.
    assert!(check_deadline_prerequisites(DeadlineKind::SeasonEnd, &season));
    assert_eq!(dependency_position(DeadlineKind::SeasonEnd), None);
    assert_eq!(dependency_position(DeadlineKind::PreseasonRookieDraftStart), Some(3));
}

#[test]
fn each_kind_triggers_its_action() {
    assert_eq!(deadline_action(DeadlineKind::PreseasonKeeper), DeadlineAction::KeeperTransaction);
    assert_eq!(deadline_action(DeadlineKind::Week1RosterLock), DeadlineAction::LockRosters);
    assert_eq!(deadline_action(DeadlineKind::PreseasonFaAuctionEnd), DeadlineAction::Trigger);
    assert_eq!(deadline_action(DeadlineKind::SeasonEnd), DeadlineAction::Unsupported);
}

#[test]
fn processing_results_record_success_and_failure() {
    let keeper = deadline(7, 1, DeadlineKind::PreseasonKeeper, DeadlineStatus::Processing, 10);
    let skipped = prerequisites_not_met(&keeper);
    assert!(!skipped.success);
    assert_eq!(skipped.error_message.as_deref(), Some("Prerequisites not met"));
    let (status, result) = finish_processing(&keeper, Ok(()));
    assert_eq!(status, DeadlineStatus::Processed);
    assert!(result.success && result.error_message.is_none());
    let (status, result) = finish_processing(&keeper, Err("boom".to_string()));
    assert_eq!(status, DeadlineStatus::Error);
    assert_eq!(result.error_message.as_deref(), Some("boom"));
}

#[test]
fn ready_deadlines_are_batched_per_season_in_dependency_order() {
    let deadlines = vec![
        deadline(1, 1, DeadlineKind::PreseasonRookieDraftStart, DeadlineStatus::Activated, 10),
        deadline(2, 2, DeadlineKind::SeasonEnd, DeadlineStatus::Activated, 10),
        deadline(3, 1, DeadlineKind::PreseasonKeeper, DeadlineStatus::Activated, 10),
        deadline(4, 1, DeadlineKind::PreseasonVeteranAuctionStart, DeadlineStatus::Draft, 10),
        deadline(5, 2, DeadlineKind::PreseasonKeeper, DeadlineStatus::Activated, 50),
        deadline(6, 2, DeadlineKind::PreseasonKeeper, DeadlineStatus::Activated, 20),
    ];
    let plan = plan_deadline_processing(&deadlines, utc(20));
    let ids: Vec<Vec<i64>> =
        plan.iter().map(|batch| batch.iter().map(|d| d.id).collect()).collect();
    assert_eq!(ids, vec![vec![3, 1], vec![6, 2]]);
    let ordered = order_for_processing(&deadlines);
    assert_eq!(ordered.iter().map(|d| d.id).collect::<Vec<_>>(), vec![3, 5, 6, 4, 1, 2]);
}

#[test]
fn a_scrambled_season_is_processed_in_dependency_order_each_once() {
    let kinds = [
        DeadlineKind::Week1FreeAgentAuctionStart,
        DeadlineKind::InSeasonRosterLock,
        DeadlineKind::PreseasonFaAuctionEnd,
        DeadlineKind::PreseasonKeeper,
        DeadlineKind::PreseasonFinalRosterLock,
        DeadlineKind::PreseasonVeteranAuctionStart,
        DeadlineKind::PreseasonFaAuctionStart,
        DeadlineKind::PreseasonRookieDraftStart,
        DeadlineKind::PreseasonKeeper,
    ];
    let season: Vec<Deadline> = kinds
        .iter()
        .enumerate()
        .map(|(index, kind)| deadline(index as i64 + 1, 1, *kind, DeadlineStatus::Activated, 10))
        .collect();
    let ordered = order_for_processing(&season);
    let slots: Vec<usize> =
        ordered.iter().map(|d| dependency_position(d.kind).unwrap_or(7)).collect();
    assert!(slots.windows(2).all(|pair| pair[0] <= pair[1]));
    let mut ids: Vec<i64> = ordered.iter().map(|d| d.id).collect();
    assert_eq!(ids[..2], [4, 9]);
    ids.sort_unstable();
    assert_eq!(ids, (1..=9).collect::<Vec<i64>>());
}

#[test]
fn a_season_with_deadlines_is_not_generated_again() {
    let config = config_rule(in_days(30));
    assert!(activated_deadlines_for(&config, 3).is_none());
    let generated = activated_deadlines_for(&config, 0).unwrap();
    assert_eq!(generated.len(), 7);
    assert!(generated.iter().all(|d| d.status == DeadlineStatus::Activated));
}

#[test]
fn a_config_updated_after_generation_is_noticed() {
    assert!(config_updated_after_deadlines(utc(30), &vec![utc(40), utc(20)]));
    assert!(!config_updated_after_deadlines(utc(30), &vec![utc(30), utc(40)]));
    assert!(!config_updated_after_deadlines(utc(30), &Vec::new()));
}

#[test]
fn deadline_statuses_are_counted() {
    let deadlines = vec![
        deadline(1, 1, DeadlineKind::PreseasonKeeper, DeadlineStatus::Processed, 0),
        deadline(2, 1, DeadlineKind::PreseasonKeeper, DeadlineStatus::Processed, 0),
        deadline(3, 1, DeadlineKind::PreseasonKeeper, DeadlineStatus::Error, 0),
    ];
    let counts = count_deadline_statuses(&deadlines);
    assert_eq!((counts.draft, counts.processed, counts.error), (0, 2, 1));
}

#[test]
fn a_deadline_that_fails_outright_is_recorded_and_the_run_goes_on() {
    let keeper = deadline(7, 1, DeadlineKind::PreseasonKeeper, DeadlineStatus::Processing, 10);
    let failed = recorded_result(&keeper, Err("database gone".to_string()));
    assert_eq!((failed.deadline_id, failed.success), (7, false));
    assert_eq!(failed.error_message.as_deref(), Some("database gone"));
    let (_, processed) = finish_processing(&keeper, Ok(()));
    assert_eq!(recorded_result(&keeper, Ok(processed.clone())), processed);
}

#[test]
fn each_problem_is_reported_with_its_message() {
    let result = validate_deadline_config(&config_input(in_days(-1), 7, 5, 3, 30));
    let reported: Vec<(&str, &str)> =
        result.errors.iter().map(|e| (e.field.as_str(), e.message.as_str())).collect();
    assert_eq!(
        reported,
        vec![
            ("preseason_keeper_deadline", "Preseason keeper deadline must be in the future"),
            ("playoffs_start_week", "Playoffs start week must be between 1 and 26"),
        ]
    );
}
