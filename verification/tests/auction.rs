use fbkl_logic::auction::assemble_veteran_pool::{next_lower_min_bid_amount, release_date, tier_slot};
use fbkl_logic::auction::close_timing::{
    auction_close_at, auction_quiet_window, crunch_window_shortenings, crunch_window_start,
    new_auction_close_at, rolled_all_bid_deadline, AuctionModeDeadlines, OpenAuctionClock,
};
use fbkl_logic::auction::fa_auction::{fa_auction_week_deadlines, previous_in_season_salary};
use fbkl_logic::auction::place_bid::{
    bid_close_at, committed_salary, requires_cap_and_roster_check, roster_spots_used, validate_bid_amount,
    BidRejection,
};
use fbkl_logic::auction::preseason_veteran_auction::{auction_close_outcome, AuctionCloseOutcome};
use fbkl_logic::auction::sign_auction_contract_to_team::{
    auction_won_team_update, free_agent_exception, signing_price,
};
use fbkl_logic::model::{
    AuctionKind, Contract, ContractKind, ContractStatus, ContractUpdateType, FreeAgentException,
};
use fbkl_logic::roster::salary::SalarySnapshot;
use fbkl_logic::time::Timestamp;

fn ts(rfc3339: &str) -> Timestamp {
    let parsed = chrono::DateTime::parse_from_rfc3339(rfc3339).unwrap();
    Timestamp {
        seconds: parsed.timestamp(),
        nanos: parsed.timestamp_subsec_nanos(),
        offset_seconds: parsed.offset().local_minus_utc(),
    }
}

fn rfc(moment: Timestamp) -> String {
    let offset = chrono::FixedOffset::east_opt(moment.offset_seconds).unwrap();
    chrono::DateTime::from_timestamp(moment.seconds, moment.nanos)
        .unwrap()
        .with_timezone(&offset)
        .to_rfc3339()
}

fn at(time: &str) -> Timestamp {
    ts(&format!("2024-11-17T{time}:00-06:00"))
}

fn same(first: Timestamp, second: Timestamp) -> bool {
    first.is_same_instant(&second)
}

const DAY: i64 = 86_400;
const HOUR: i64 = 3_600;

fn day_number(year: i32, month: u32, day: u32) -> i64 {
    let date = chrono::NaiveDate::from_ymd_opt(year, month, day).unwrap();
    let epoch = chrono::NaiveDate::from_ymd_opt(1970, 1, 1).unwrap();
    (date - epoch).num_days()
}

fn vec_of(values: &[i16]) -> Vec<i16> {
    values.to_vec()
}

#[test]
fn tier_slide_is_one_step_per_auction_and_never_cascades() {
    let tiers = vec_of(&[20, 15, 10, 5]);
    // Two auctions in the same tier both land on that tier's next-lower value, no push-down.
    assert_eq!(next_lower_min_bid_amount(&tiers, 20), Some(15));
    assert_eq!(next_lower_min_bid_amount(&tiers, 15), Some(10));
    assert_eq!(next_lower_min_bid_amount(&tiers, 15), Some(10));
    // Bottom tier stays put.
    assert_eq!(next_lower_min_bid_amount(&tiers, 5), None);
}

#[test]
fn an_unbid_auction_walks_down_every_tier_before_it_expires() {
    let tiers = vec_of(&[20, 15, 10, 5]);
    let opened_at = ts("2025-09-01T12:00:00-06:00");
    let mut minimum_bid_amount = tiers[0];
    let mut close_at = new_auction_close_at(opened_at).unwrap();
    let mut minimums_walked = Vec::new();

    for day in 1..=4_i64 {
        let tick = Timestamp { seconds: opened_at.seconds + day * DAY, ..opened_at };
        match next_lower_min_bid_amount(&tiers, minimum_bid_amount) {
            Some(next_minimum) => {
                minimum_bid_amount = next_minimum;
                close_at = new_auction_close_at(tick).unwrap();
                minimums_walked.push(next_minimum);
                // The slide moved the clock, so the close tick that follows finds nothing due.
                assert!(tick.is_before(&close_at));
            }
            // Bottom tier: nothing renews the clock, so the close tick expires it.
            None => assert!(close_at.is_not_after(&tick)),
        }
    }

    assert_eq!(minimums_walked, vec![15, 10, 5]);
    assert_eq!(minimum_bid_amount, 5);
}

#[test]
fn ranked_players_spread_across_tiers_best_rank_first() {
    assert_eq!(tier_slot(0, 10, 5), 0);
    assert_eq!(tier_slot(3, 10, 5), 1);
    assert_eq!(tier_slot(9, 10, 5), 4);
    // Never past the bottom tier, even if the caller overshoots the ranked count.
    assert_eq!(tier_slot(20, 10, 5), 4);
}

#[test]
fn tier_slot_with_no_ranked_players_or_tiers_is_the_top_slot() {
    assert_eq!(tier_slot(3, 0, 5), 0);
    assert_eq!(tier_slot(3, 10, 0), 0);
}

#[test]
fn releases_stagger_by_players_per_day() {
    let first_date = day_number(2025, 9, 1);
    assert_eq!(release_date(first_date, 0, 15), Some(first_date));
    assert_eq!(release_date(first_date, 14, 15), Some(first_date));
    assert_eq!(release_date(first_date, 15, 15), Some(day_number(2025, 9, 2)));
}

#[test]
fn a_bid_buys_its_full_quiet_window_when_nothing_else_binds() {
    let close_at = auction_close_at(at("12:00"), 24 * HOUR, None, None).unwrap();
    assert!(same(close_at, ts("2024-11-18T12:00:00-06:00")));
}

#[test]
fn the_all_bid_deadline_cuts_the_quiet_window_short() {
    let close_at = auction_close_at(at("12:00"), 24 * HOUR, Some(at("20:00")), None).unwrap();
    assert!(same(close_at, at("20:00")));
}

#[test]
fn the_hard_deadline_cuts_the_quiet_window_short() {
    let close_at = auction_close_at(at("12:00"), 24 * HOUR, None, Some(at("18:00"))).unwrap();
    assert!(same(close_at, at("18:00")));
}

#[test]
fn the_hard_deadline_also_beats_a_later_all_bid_deadline() {
    let close_at =
        auction_close_at(at("12:00"), 24 * HOUR, Some(at("20:00")), Some(at("18:00"))).unwrap();
    assert!(same(close_at, at("18:00")));
}

#[test]
fn the_extension_chain_reproduces_the_worked_example() {
    let original = at("20:00");

    let after_first_bid = rolled_all_bid_deadline(at("19:15"), original, original, None);
    assert_eq!(after_first_bid, Some(at("20:30")));

    let extended = after_first_bid.unwrap();
    assert_eq!(rolled_all_bid_deadline(at("19:42"), extended, original, None), None);

    let after_last_bid = rolled_all_bid_deadline(at("20:13"), extended, original, None);
    assert_eq!(after_last_bid, Some(at("21:00")));

    assert_eq!(rolled_all_bid_deadline(at("20:25"), after_last_bid.unwrap(), original, None), None);
}

#[test]
fn a_bid_before_the_first_trigger_width_leaves_the_deadline_alone() {
    let original = at("20:00");
    assert_eq!(rolled_all_bid_deadline(at("18:59"), original, original, None), None);
}

#[test]
fn an_extension_chain_cannot_roll_past_the_hard_deadline() {
    let original = at("20:00");
    let roster_lock = at("20:15");
    assert_eq!(
        rolled_all_bid_deadline(at("19:30"), original, original, Some(roster_lock)),
        Some(roster_lock)
    );
    assert_eq!(rolled_all_bid_deadline(at("20:10"), roster_lock, original, Some(roster_lock)), None);
}

#[test]
fn the_crunch_window_opens_a_day_before_the_hard_deadline() {
    let start = crunch_window_start(ts("2024-10-18T19:00:00-05:00")).unwrap();
    assert!(same(start, ts("2024-10-17T19:00:00-05:00")));
}

#[test]
fn a_crunch_window_that_would_open_overnight_waits_for_8am() {
    let start = crunch_window_start(ts("2024-10-18T03:00:00-05:00")).unwrap();
    assert!(same(start, ts("2024-10-17T08:00:00-05:00")));
    let start = crunch_window_start(ts("2024-10-18T08:00:00-05:00")).unwrap();
    assert!(same(start, ts("2024-10-17T08:00:00-05:00")));
}

#[test]
fn the_crunch_window_reads_8am_off_the_central_clock_across_dst() {
    let start = crunch_window_start(ts("2026-03-08T06:00:00-05:00")).unwrap();
    assert!(same(start, ts("2026-03-07T08:00:00-06:00")));
    let start = crunch_window_start(ts("2026-11-01T09:00:00-06:00")).unwrap();
    assert!(same(start, ts("2026-10-31T10:00:00-05:00")));
}

#[test]
fn the_crunch_window_shortens_the_reprieve_to_an_hour() {
    let crunch_window_start = at("08:00");
    assert_eq!(auction_quiet_window(at("07:59"), Some(crunch_window_start)), 24 * HOUR);
    assert_eq!(auction_quiet_window(at("08:00"), Some(crunch_window_start)), HOUR);
    assert_eq!(auction_quiet_window(at("08:00"), None), 24 * HOUR);
}

#[test]
fn a_bid_inside_the_crunch_window_cannot_push_past_the_hard_deadline() {
    let hard_deadline = at("20:00");
    let close_at = auction_close_at(
        at("19:30"),
        auction_quiet_window(at("19:30"), Some(at("08:00"))),
        None,
        Some(hard_deadline),
    )
    .unwrap();
    assert!(same(close_at, hard_deadline));
}

#[test]
fn a_short_quiet_window_still_wins_when_it_ends_first() {
    let close_at = auction_close_at(at("12:00"), HOUR, Some(at("20:00")), Some(at("18:00"))).unwrap();
    assert!(same(close_at, at("13:00")));
}

#[test]
fn weekly_free_agent_deadlines_freeze_new_auctions_on_friday_but_take_bids_until_sunday() {
    let wednesday = ts("2026-11-04T16:00:00Z");
    let (opening_bid_deadline, all_bid_deadline) = fa_auction_week_deadlines(wednesday).unwrap();
    assert_eq!(rfc(opening_bid_deadline), "2026-11-06T23:59:00-06:00");
    assert_eq!(rfc(all_bid_deadline), "2026-11-08T20:00:00-06:00");

    let saturday = ts("2026-11-07T16:00:00Z");
    let (saturday_opening, saturday_all_bid) = fa_auction_week_deadlines(saturday).unwrap();
    assert!(same(saturday_opening, opening_bid_deadline));
    assert!(same(saturday_all_bid, all_bid_deadline));
    assert!(saturday_opening.is_before(&saturday));
    assert!(saturday.is_before(&saturday_all_bid));
}

#[test]
fn weekly_deadlines_hold_their_central_wall_clock_across_both_dst_transitions() {
    let (spring_opening, spring_all_bid) =
        fa_auction_week_deadlines(ts("2026-03-04T16:00:00Z")).unwrap();
    assert_eq!(rfc(spring_opening), "2026-03-06T23:59:00-06:00");
    assert_eq!(rfc(spring_all_bid), "2026-03-08T20:00:00-05:00");

    let (fall_opening, fall_all_bid) = fa_auction_week_deadlines(ts("2026-10-28T16:00:00Z")).unwrap();
    assert_eq!(rfc(fall_opening), "2026-10-30T23:59:00-05:00");
    assert_eq!(rfc(fall_all_bid), "2026-11-01T20:00:00-06:00");
}

fn chain_row(id: i64, end_of_season_year: i16, team_id: Option<i64>, salary: i16) -> Contract {
    Contract {
        id,
        year_number: 1,
        kind: ContractKind::Veteran,
        is_ir: false,
        salary,
        end_of_season_year,
        status: ContractStatus::Replaced,
        league_id: 1,
        league_player_id: None,
        player_id: Some(1),
        previous_contract_id: None,
        original_contract_id: Some(1),
        team_id,
    }
}

#[test]
fn previously_owned_player_opens_at_their_last_in_season_salary() {
    let chain = vec![
        chain_row(1, 2024, Some(7), 12),
        chain_row(2, 2025, Some(7), 9),
        chain_row(3, 2025, None, 9),
    ];
    assert_eq!(previous_in_season_salary(&chain, 2025), Some(9));
}

#[test]
fn never_owned_this_season_has_no_previous_salary() {
    let chain = vec![chain_row(1, 2024, Some(7), 12), chain_row(2, 2025, None, 12)];
    assert_eq!(previous_in_season_salary(&chain, 2025), None);
}

#[test]
fn rebidding_on_your_own_winning_auction_swaps_the_amount() {
    let winning_bids = vec![(1, 10), (2, 20)];
    // re-bid on auction 2: 20 is replaced by 25, not added to it
    assert_eq!(committed_salary(100, &winning_bids, 2, 25), 135);
    // first bid on a different auction: everything counts
    assert_eq!(committed_salary(100, &winning_bids, 3, 25), 155);
    assert_eq!(roster_spots_used(20, &winning_bids, 2), 22);
    assert_eq!(roster_spots_used(20, &winning_bids, 3), 23);
}

#[test]
fn in_season_free_agency_is_not_cap_gated() {
    assert!(!requires_cap_and_roster_check(AuctionKind::InSeasonFreeAgent));
    assert!(requires_cap_and_roster_check(AuctionKind::PreseasonVeteranAuction));
}

#[test]
fn opening_bid_must_reach_the_minimum() {
    assert_eq!(
        validate_bid_amount(4, 5, None),
        Err(BidRejection::BelowMinimum { bid_amount: 4, minimum_bid_amount: 5 })
    );
    assert_eq!(validate_bid_amount(5, 5, None), Ok(()));
    assert_eq!(validate_bid_amount(50, 5, None), Ok(()));
}

#[test]
fn subsequent_bids_must_raise_by_at_least_a_dollar() {
    assert_eq!(
        validate_bid_amount(5, 5, Some(5)),
        Err(BidRejection::BelowIncrement { bid_amount: 5, required: 6 })
    );
    assert_eq!(validate_bid_amount(6, 5, Some(5)), Ok(()));
    assert_eq!(validate_bid_amount(3, 5, Some(2)), Ok(()));
}

#[test]
fn a_no_bid_auction_expires_its_contract() {
    assert_eq!(auction_close_outcome(ContractKind::FreeAgent, false), AuctionCloseOutcome::Expire);
    assert_eq!(auction_close_outcome(ContractKind::FreeAgent, true), AuctionCloseOutcome::Sign);
}

#[test]
fn an_rfa_auction_closes_without_signing() {
    assert_eq!(
        auction_close_outcome(ContractKind::RestrictedFreeAgent, true),
        AuctionCloseOutcome::AwaitRfaResolution
    );
}

#[test]
fn the_discount_follows_the_keeper_deadline_owner() {
    // An RFA's discount is its resolution row's owner, not the contract's current team.
    assert_eq!(
        free_agent_exception(ContractKind::RestrictedFreeAgent, Some(4), Some(9), 4),
        FreeAgentException::Held
    );
    assert_eq!(
        free_agent_exception(ContractKind::RestrictedFreeAgent, Some(4), Some(9), 9),
        FreeAgentException::NotHeld
    );
    // A UFA's discount is its designated contract's team.
    assert_eq!(
        free_agent_exception(ContractKind::UnrestrictedFreeAgentVeteran, None, Some(9), 9),
        FreeAgentException::Held
    );
    assert_eq!(
        free_agent_exception(ContractKind::FreeAgent, None, Some(9), 9),
        FreeAgentException::NotHeld
    );
}

#[test]
fn a_raised_bid_sets_the_signing_price() {
    assert_eq!(signing_price(Some(30), 25), 30);
    assert_eq!(signing_price(None, 25), 25);
}

#[test]
fn a_won_auction_records_the_signed_contract_and_both_snapshots() {
    let active = vec![chain_row(11, 2025, Some(7), 5), chain_row(12, 2025, Some(7), 6)];
    let data = auction_won_team_update(
        &active,
        99,
        SalarySnapshot { salary: 11, cap: 200 },
        SalarySnapshot { salary: 21, cap: 200 },
    );
    assert_eq!(data.all_contract_ids, vec![11, 12, 99]);
    assert_eq!(data.changes.len(), 1);
    assert_eq!(data.changes[0].contract_id, 99);
    assert_eq!(data.changes[0].update_type, ContractUpdateType::AddViaAuction);
    assert_eq!((data.previous_salary, data.new_salary), (11, 21));
}

#[test]
fn a_bid_buys_a_day_or_an_hour_in_the_crunch_cut_by_the_deadlines() {
    let now = at("12:00");
    let crunch = at("08:00");
    let later_crunch = at("13:00");
    let day_later = bid_close_at(now, Some(later_crunch), None, None).unwrap();
    assert_eq!(day_later.seconds, now.seconds + 24 * HOUR);
    let hour_later = bid_close_at(now, Some(crunch), None, None).unwrap();
    assert_eq!(hour_later.seconds, now.seconds + HOUR);
    let all_bid = at("12:30");
    assert!(same(bid_close_at(now, Some(crunch), Some(all_bid), None).unwrap(), all_bid));
    let hard = at("12:10");
    assert!(same(bid_close_at(now, Some(crunch), Some(all_bid), Some(hard)).unwrap(), hard));
    assert!(same(bid_close_at(now, None, None, Some(hard)).unwrap(), hard));
}

#[test]
fn commitment_counts_saturate_instead_of_overflowing() {
    assert_eq!(roster_spots_used(usize::MAX, &vec![(1, 1), (2, 1)], 3), i32::MAX);
    let many: Vec<(i64, i16)> = (0..70_000).map(|id| (id, i16::MAX)).collect();
    assert_eq!(committed_salary(i16::MAX, &many, -1, i16::MAX), i32::MAX);
    assert_eq!(committed_salary(10, &vec![(1, 5)], 2, 3), 18);
}

#[test]
fn a_repeated_crunch_sweep_moves_nothing() {
    let deadlines = AuctionModeDeadlines { hard_deadline: Some(at("20:00")), crunch_window_start: Some(at("08:00")) };
    let now = at("12:00");
    let clocks = vec![
        OpenAuctionClock { auction_id: 1, maybe_last_bid_at: Some(at("11:00")), maybe_all_bid_deadline: None, close_at: ts("2024-11-18T11:00:00-06:00") },
        OpenAuctionClock { auction_id: 2, maybe_last_bid_at: None, maybe_all_bid_deadline: None, close_at: ts("2024-11-19T11:00:00-06:00") },
        OpenAuctionClock { auction_id: 3, maybe_last_bid_at: Some(at("11:50")), maybe_all_bid_deadline: None, close_at: at("12:20") },
    ];
    let moves = crunch_window_shortenings(now, deadlines, &clocks).unwrap();
    assert_eq!(moves.len(), 1);
    assert_eq!(moves[0].0, 1);
    assert!(same(moves[0].1, at("12:00")));
    let swept: Vec<OpenAuctionClock> = clocks
        .iter()
        .map(|clock| match moves.iter().find(|(id, _)| *id == clock.auction_id) {
            Some((_, close_at)) => OpenAuctionClock { close_at: *close_at, ..*clock },
            None => *clock,
        })
        .collect();
    assert!(crunch_window_shortenings(now, deadlines, &swept).unwrap().is_empty());
}
