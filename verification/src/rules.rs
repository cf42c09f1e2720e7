//! The league's fixed rule numbers.
use vstd::prelude::*;

verus! {

/// Hours of quiet a bid buys before its auction closes (rules §6.4.4, §8.3.1).
pub const AUCTION_QUIET_WINDOW_HOURS: i64 = 24;

/// Hours of quiet a bid buys once the preseason crunch window has opened (rules §6.4.4).
pub const AUCTION_CRUNCH_QUIET_WINDOW_HOURS: i64 = 1;

/// Hours before the preseason hard deadline that the crunch window opens.
pub const AUCTION_CRUNCH_WINDOW_HOURS: i64 = 24;

/// Earliest league wall-clock hour at which the crunch window may open.
pub const AUCTION_CRUNCH_EARLIEST_START_HOUR: i64 = 8;

/// Minutes a late in-season bid adds to the all-bid deadline (rules §8.3.2).
pub const IN_SEASON_FA_EXTENSION_MINUTES: i64 = 30;

/// Minutes before the week's original all-bid deadline inside which a bid rolls it.
pub const IN_SEASON_FA_FIRST_EXTENSION_TRIGGER_MINUTES: i64 = 60;

/// Minutes before an already extended all-bid deadline inside which a bid rolls it again.
pub const IN_SEASON_FA_LATER_EXTENSION_TRIGGER_MINUTES: i64 = 30;

/// League wall-clock hour of the Friday opening-bid deadline (rules §8.2).
pub const IN_SEASON_FA_OPENING_BID_DEADLINE_HOUR: i64 = 23;

/// League wall-clock minute of the Friday opening-bid deadline (rules §8.2).
pub const IN_SEASON_FA_OPENING_BID_DEADLINE_MINUTE: i64 = 59;

/// League wall-clock hour of the Sunday all-bid deadline (rules §8.2).
pub const IN_SEASON_FA_ALL_BID_DEADLINE_HOUR: i64 = 20;

/// League wall-clock minute of the Sunday all-bid deadline (rules §8.2).
pub const IN_SEASON_FA_ALL_BID_DEADLINE_MINUTE: i64 = 0;

/// The opening bid of an in-season free agent auction for a player nobody owned this season.
pub const IN_SEASON_FA_MINIMUM_BID: i16 = 1;

/// Contracts a roster may hold through the preseason (rules §5.1.2).
pub const PRE_SEASON_CONTRACTS_PER_ROSTER_LIMIT: i16 = 32;

/// Veteran or rookie-scale contracts a regular-season roster may hold.
pub const REGULAR_SEASON_VET_OR_ROOKIE_CONTRACTS_PER_ROSTER_LIMIT: i16 = 22;

/// Rookie development contracts a regular-season roster may hold.
pub const REGULAR_SEASON_ROOKIE_DEVELOPMENT_CONTRACTS_PER_ROSTER_LIMIT: i16 = 6;

/// International rookie development contracts a regular-season roster may hold.
pub const REGULAR_SEASON_INTL_ROOKIE_DEVELOPMENT_CONTRACTS_PER_ROSTER_LIMIT: i16 = 1;

/// Contracts a regular-season roster may hold on IR.
pub const REGULAR_SEASON_IR_CONTRACTS_PER_ROSTER_LIMIT: i16 = 1;

/// Veteran auction players released per day (rules §6.3.3).
pub const VETERAN_AUCTION_PLAYERS_RELEASED_PER_DAY: usize = 15;

/// Days of RFA week before the rest of the veteran pool releases (rules §6.3.1).
pub const VETERAN_AUCTION_RFA_WEEK_DAYS: u64 = 7;

/// Counted keeper contracts a team may keep.
pub const KEEPER_CONTRACT_COUNT_LIMIT: usize = 14;

/// Total salary of the counted keeper contracts a team may keep.
pub const KEEPER_CONTRACT_TOTAL_SALARY_LIMIT: i16 = 100;

/// Hours the winner of an RFA auction has to raise its own bid (rules §15.3.2.1).
pub const RFA_RAISE_WINDOW_HOURS: i64 = 48;

/// Hours the winner of an RFA auction has to name its compensation pick (rules §15.2.2).
pub const RFA_PICK_SELECTION_WINDOW_HOURS: i64 = 24;

/// Hours the original owner has to match or decline (rules §15.3.2).
pub const RFA_MATCH_WINDOW_HOURS: i64 = 48;

/// Rounds in each season's rookie draft.
pub const DRAFT_PICK_ROUNDS: i16 = 5;

/// Seasons ahead for which draft picks are generated.
pub const FUTURE_DRAFT_PICK_SEASONS_LIMIT: i16 = 3;

/// Lottery balls per non-playoff standings slot, worst team first (rules §7.2.4).
pub open spec fn lottery_balls() -> Seq<u32> {
    seq![6u32, 5u32, 4u32, 3u32, 2u32, 1u32]
}

/// The lottery ball table, worst non-playoff team first (rules §7.2.4).
pub fn rookie_draft_lottery_balls() -> (balls: Vec<u32>)
    ensures
        balls@ == lottery_balls(),
{
    let balls: Vec<u32> = vec![6, 5, 4, 3, 2, 1];
    assert(balls@ =~= lottery_balls());
    balls
}

/// Salary of a rookie development contract drafted in `round`.
pub open spec fn spec_rookie_draft_salary_for_round(round: i16) -> i16 {
    if round <= 1 {
        4
    } else if round == 2 {
        3
    } else if round == 3 {
        2
    } else {
        1
    }
}

/// Salary of a rookie development contract drafted in `round`: 4, 3, 2, then 1.
pub fn rookie_draft_salary_for_round(round: i16) -> (salary: i16)
    ensures
        salary == spec_rookie_draft_salary_for_round(round),
{
    if round <= 1 {
        4
    } else if round == 2 {
        3
    } else if round == 3 {
        2
    } else {
        1
    }
}

} // verus!
