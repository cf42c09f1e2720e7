//! Generating a season's preseason deadlines from its configuration, and the order deadlines are
//! processed in.
use crate::model::{DeadlineKind, DeadlineStatus};
use crate::time::{in_utc_range, valid_day, Timestamp, SECONDS_PER_DAY, SECONDS_PER_HOUR};
use crate::text::{decimal_text, labelled_year};
use vstd::prelude::*;

verus! {

/// A season's saved deadline configuration.
#[derive(Clone, Copy, Debug, PartialEq, Eq, Structural)]
pub struct DeadlineConfigRule {
    pub id: i64,
    pub league_id: i64,
    pub end_of_season_year: i16,
    pub preseason_keeper_deadline: Timestamp,
    pub veteran_auction_days_after_keeper_deadline_duration: i16,
    pub fa_auction_days_duration: i16,
    pub final_roster_lock_deadline_days_after_rookie_draft: i16,
    pub playoffs_start_week: i16,
    pub created_at: Timestamp,
    pub updated_at: Timestamp,
}

/// A deadline generated from a configuration, before it is saved.
#[derive(Clone, Debug, PartialEq, Eq)]
pub struct GeneratedDeadline {
    pub kind: DeadlineKind,
    pub date_time: Timestamp,
    pub name: String,
    pub status: DeadlineStatus,
}

/// 9:00 UTC on calendar day `day`.
pub open spec fn nine_am_utc(day: int) -> Timestamp {
    Timestamp { seconds: (day * SECONDS_PER_DAY + 9 * SECONDS_PER_HOUR) as i64, nanos: 0, offset_seconds: 0 }
}

/// The day the veteran auction starts: the configured days after the keeper deadline, read on the
/// keeper deadline's own wall clock.
pub open spec fn veteran_auction_day(config: DeadlineConfigRule) -> int {
    config.preseason_keeper_deadline.local_day()
        + config.veteran_auction_days_after_keeper_deadline_duration
}

/// Whether every instant generation computes is on the calendar.
pub open spec fn generation_in_range(config: DeadlineConfigRule) -> bool {
    let keeper = config.preseason_keeper_deadline;
    let v = config.veteran_auction_days_after_keeper_deadline_duration as int;
    let f = config.fa_auction_days_duration as int;
    let r = config.final_roster_lock_deadline_days_after_rookie_draft as int;
    let vet = veteran_auction_day(config) * SECONDS_PER_DAY + 9 * SECONDS_PER_HOUR;
    &&& keeper.wf()
    &&& in_utc_range(keeper.seconds + v * SECONDS_PER_DAY)
    &&& valid_day(veteran_auction_day(config))
    &&& in_utc_range(vet + 3 * SECONDS_PER_DAY)
    &&& in_utc_range(vet + 3 * SECONDS_PER_HOUR)
    &&& in_utc_range(vet + 3 * SECONDS_PER_HOUR + f * SECONDS_PER_DAY)
    &&& in_utc_range(vet + (3 + r) * SECONDS_PER_DAY)
}

/// The kinds generated from a configuration, in the order they are generated.
pub open spec fn generated_kinds() -> Seq<DeadlineKind> {
    seq![
        DeadlineKind::PreseasonKeeper,
        DeadlineKind::PreseasonVeteranAuctionStart,
        DeadlineKind::PreseasonRookieDraftStart,
        DeadlineKind::PreseasonFaAuctionStart,
        DeadlineKind::PreseasonFaAuctionEnd,
        DeadlineKind::PreseasonFinalRosterLock,
        DeadlineKind::Week1FreeAgentAuctionStart,
    ]
}

/// The display label of each generated deadline, in the order of `generated_kinds`.
pub open spec fn generated_labels() -> Seq<Seq<char>> {
    seq![
        "Preseason Keeper Deadline"@,
        "Preseason Veteran Auction Start"@,
        "Preseason Rookie Draft Start"@,
        "Preseason FA Auction Start"@,
        "Preseason FA Auction End"@,
        "Preseason Final Roster Lock"@,
        "Week 1 Free Agent Auction Start"@,
    ]
}

/// When each generated deadline falls, in the order of `generated_kinds`: the keeper deadline as
/// configured; the veteran auction at 9:00 UTC its days later; the rookie draft three days after
/// that; the free agent auction three hours after the veteran auction starts and its days later
/// for its end; the final roster lock its days after the rookie draft; and the week 1 free agent
/// auction at the final roster lock.
pub open spec fn generated_times(config: DeadlineConfigRule) -> Seq<Timestamp> {
    let f = config.fa_auction_days_duration as int;
    let r = config.final_roster_lock_deadline_days_after_rookie_draft as int;
    let vet = nine_am_utc(veteran_auction_day(config));
    let rookie = nine_am_utc(veteran_auction_day(config) + 3);
    let fa_start = Timestamp { seconds: (vet.seconds + 3 * SECONDS_PER_HOUR) as i64, ..vet };
    let fa_end = Timestamp { seconds: (fa_start.seconds + f * SECONDS_PER_DAY) as i64, ..vet };
    let final_lock = Timestamp { seconds: (rookie.seconds + r * SECONDS_PER_DAY) as i64, ..vet };
    seq![config.preseason_keeper_deadline, vet, rookie, fa_start, fa_end, final_lock, final_lock]
}

/// Generates a season's seven preseason deadlines from its configuration, each in `Draft`.
pub fn generate_deadlines_from_config(config: &DeadlineConfigRule) -> (deadlines: Vec<GeneratedDeadline>)
    requires
        generation_in_range(*config),
    ensures
        deadlines.len() == 7,
        forall|i: int|
            0 <= i < 7 ==> {
                &&& (#[trigger] deadlines@[i]).kind == generated_kinds()[i]
                &&& deadlines@[i].date_time == generated_times(*config)[i]
                &&& deadlines@[i].status is Draft
                &&& deadlines@[i].name@ == generated_labels()[i] + " - "@ + decimal_text(
                    config.end_of_season_year as int,
                )
            },
{
    let keeper = config.preseason_keeper_deadline;
    let year = config.end_of_season_year;
    let v = config.veteran_auction_days_after_keeper_deadline_duration as i64;
    let f = config.fa_auction_days_duration as i64;
    let r = config.final_roster_lock_deadline_days_after_rookie_draft as i64;
    let shifted_keeper = Timestamp { seconds: keeper.seconds + v * SECONDS_PER_DAY, ..keeper };
    let veteran_day = shifted_keeper.date();
    proof {
        assert(veteran_day == veteran_auction_day(*config)) by (nonlinear_arith)
            requires
                veteran_day == (keeper.seconds + v * 86_400 + keeper.offset_seconds) / 86_400,
                veteran_auction_day(*config) == (keeper.seconds + keeper.offset_seconds) / 86_400 + v,
        ;
    }
    let vet_seconds = veteran_day * SECONDS_PER_DAY + 9 * SECONDS_PER_HOUR;
    let veteran_auction_start = Timestamp { seconds: vet_seconds, nanos: 0, offset_seconds: 0 };
    let rookie_draft_start = Timestamp {
        seconds: vet_seconds + 3 * SECONDS_PER_DAY,
        nanos: 0,
        offset_seconds: 0,
    };
    let fa_auction_start = Timestamp {
        seconds: vet_seconds + 3 * SECONDS_PER_HOUR,
        nanos: 0,
        offset_seconds: 0,
    };
    let fa_auction_end = Timestamp {
        seconds: fa_auction_start.seconds + f * SECONDS_PER_DAY,
        nanos: 0,
        offset_seconds: 0,
    };
    let final_roster_lock = Timestamp {
        seconds: rookie_draft_start.seconds + r * SECONDS_PER_DAY,
        nanos: 0,
        offset_seconds: 0,
    };
    let mut deadlines: Vec<GeneratedDeadline> = Vec::new();
    deadlines.push(GeneratedDeadline {
        kind: DeadlineKind::PreseasonKeeper,
        date_time: keeper,
        name: labelled_year("Preseason Keeper Deadline", year),
        status: DeadlineStatus::Draft,
    });
    deadlines.push(GeneratedDeadline {
        kind: DeadlineKind::PreseasonVeteranAuctionStart,
        date_time: veteran_auction_start,
        name: labelled_year("Preseason Veteran Auction Start", year),
        status: DeadlineStatus::Draft,
    });
    deadlines.push(GeneratedDeadline {
        kind: DeadlineKind::PreseasonRookieDraftStart,
        date_time: rookie_draft_start,
        name: labelled_year("Preseason Rookie Draft Start", year),
        status: DeadlineStatus::Draft,
    });
    deadlines.push(GeneratedDeadline {
        kind: DeadlineKind::PreseasonFaAuctionStart,
        date_time: fa_auction_start,
        name: labelled_year("Preseason FA Auction Start", year),
        status: DeadlineStatus::Draft,
    });
    deadlines.push(GeneratedDeadline {
        kind: DeadlineKind::PreseasonFaAuctionEnd,
        date_time: fa_auction_end,
        name: labelled_year("Preseason FA Auction End", year),
        status: DeadlineStatus::Draft,
    });
    deadlines.push(GeneratedDeadline {
        kind: DeadlineKind::PreseasonFinalRosterLock,
        date_time: final_roster_lock,
        name: labelled_year("Preseason Final Roster Lock", year),
        status: DeadlineStatus::Draft,
    });
    deadlines.push(GeneratedDeadline {
        kind: DeadlineKind::Week1FreeAgentAuctionStart,
        date_time: final_roster_lock,
        name: labelled_year("Week 1 Free Agent Auction Start", year),
        status: DeadlineStatus::Draft,
    });
    deadlines
}

/// The order deadlines are processed in: each depends on the one before it being processed.
pub open spec fn dependency_order() -> Seq<DeadlineKind> {
    seq![
        DeadlineKind::PreseasonKeeper,
        DeadlineKind::PreseasonVeteranAuctionStart,
        DeadlineKind::PreseasonFaAuctionStart,
        DeadlineKind::PreseasonRookieDraftStart,
        DeadlineKind::PreseasonFaAuctionEnd,
        DeadlineKind::PreseasonFinalRosterLock,
        DeadlineKind::Week1FreeAgentAuctionStart,
    ]
}

/// The order deadlines are processed in.
pub fn get_deadline_dependency_order() -> (order: Vec<DeadlineKind>)
    ensures
        order@ == dependency_order(),
{
    let order = vec![
        DeadlineKind::PreseasonKeeper,
        DeadlineKind::PreseasonVeteranAuctionStart,
        DeadlineKind::PreseasonFaAuctionStart,
        DeadlineKind::PreseasonRookieDraftStart,
        DeadlineKind::PreseasonFaAuctionEnd,
        DeadlineKind::PreseasonFinalRosterLock,
        DeadlineKind::Week1FreeAgentAuctionStart,
    ];
    proof {
        assert(order@ =~= dependency_order());
    }
    order
}

} // verus!
