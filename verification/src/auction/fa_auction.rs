//! In-season free agent auctions (rules §8.2-§8.3): the weekly deadlines, the opening bid, and the
//! checks an opening must pass.
use crate::model::{Contract, ContractKind};
use crate::rules::{
    IN_SEASON_FA_ALL_BID_DEADLINE_HOUR, IN_SEASON_FA_ALL_BID_DEADLINE_MINUTE,
    IN_SEASON_FA_MINIMUM_BID, IN_SEASON_FA_OPENING_BID_DEADLINE_HOUR,
    IN_SEASON_FA_OPENING_BID_DEADLINE_MINUTE,
};
use crate::time::{
    day_of, days_from_monday, floor_div_day, league_utc_offset, league_wall_clock,
    spec_league_wall_clock, weekday_from_monday, TimeError, Timestamp, MAX_UTC_SECONDS,
    MIN_UTC_SECONDS, SECONDS_PER_DAY, SECONDS_PER_HOUR, SECONDS_PER_MINUTE,
};
use vstd::prelude::*;

verus! {

/// The Monday (as a day number) of the league week `now` falls in.
pub open spec fn league_week_monday(now: Timestamp) -> int {
    let day = day_of(now.seconds + league_utc_offset(now.seconds));
    day - days_from_monday(day)
}

/// Friday 11:59pm of `now`'s league week, as a league wall-clock reading.
pub open spec fn opening_bid_deadline_local(now: Timestamp) -> int {
    (league_week_monday(now) + 4) * SECONDS_PER_DAY + IN_SEASON_FA_OPENING_BID_DEADLINE_HOUR
        * SECONDS_PER_HOUR + IN_SEASON_FA_OPENING_BID_DEADLINE_MINUTE * SECONDS_PER_MINUTE
}

/// Sunday 8:00pm of `now`'s league week, as a league wall-clock reading.
pub open spec fn all_bid_deadline_local(now: Timestamp) -> int {
    (league_week_monday(now) + 6) * SECONDS_PER_DAY + IN_SEASON_FA_ALL_BID_DEADLINE_HOUR
        * SECONDS_PER_HOUR + IN_SEASON_FA_ALL_BID_DEADLINE_MINUTE * SECONDS_PER_MINUTE
}

/// The week's deadlines as `(opening-bid, all-bid)`.
pub open spec fn spec_fa_auction_week_deadlines(now: Timestamp) -> Result<
    (Timestamp, Timestamp),
    TimeError,
> {
    match spec_league_wall_clock(opening_bid_deadline_local(now) as i64) {
        None => Err(TimeError::NoSuchWallClock),
        Some(opening) => match spec_league_wall_clock(all_bid_deadline_local(now) as i64) {
            None => Err(TimeError::NoSuchWallClock),
            Some(all_bid) => Ok((opening, all_bid)),
        },
    }
}

/// Instants a league week can be computed for: a week either side stays on the calendar.
pub open spec fn week_computable(now: Timestamp) -> bool {
    &&& now.wf()
    &&& MIN_UTC_SECONDS + 8 * SECONDS_PER_DAY <= now.seconds <= MAX_UTC_SECONDS - 8
        * SECONDS_PER_DAY
}

/// The week's §8.2 free agent auction deadlines as `(opening-bid, all-bid)`.
///
/// Weeks run Monday-Sunday on the league's wall clock: new auctions may be nominated until Friday
/// 11:59pm, and every auction in that week ends at Sunday 8pm.
pub fn fa_auction_week_deadlines(now: Timestamp) -> (deadlines: Result<
    (Timestamp, Timestamp),
    TimeError,
>)
    requires
        week_computable(now),
    ensures
        deadlines == spec_fa_auction_week_deadlines(now),
        deadlines matches Ok((opening, all_bid)) ==> {
            &&& opening.local_seconds() == opening_bid_deadline_local(now)
            &&& all_bid.local_seconds() == all_bid_deadline_local(now)
            &&& opening.offset_seconds == league_utc_offset(opening.seconds)
            &&& all_bid.offset_seconds == league_utc_offset(all_bid.seconds)
        },
{
    let league_now = now.in_league_time();
    let day = floor_div_day(league_now.seconds + league_now.offset_seconds as i64);
    let monday: i64 = day - weekday_from_monday(day);
    let opening_local: i64 = (monday + 4) * SECONDS_PER_DAY + IN_SEASON_FA_OPENING_BID_DEADLINE_HOUR
        * SECONDS_PER_HOUR + IN_SEASON_FA_OPENING_BID_DEADLINE_MINUTE * SECONDS_PER_MINUTE;
    let all_bid_local: i64 = (monday + 6) * SECONDS_PER_DAY + IN_SEASON_FA_ALL_BID_DEADLINE_HOUR
        * SECONDS_PER_HOUR + IN_SEASON_FA_ALL_BID_DEADLINE_MINUTE * SECONDS_PER_MINUTE;
    let opening = match league_wall_clock(opening_local) {
        Some(found) => found,
        None => return Err(TimeError::NoSuchWallClock),
    };
    match league_wall_clock(all_bid_local) {
        Some(all_bid) => Ok((opening, all_bid)),
        None => Err(TimeError::NoSuchWallClock),
    }
}

/// The contract of the chain that a team last owned during `end_of_season_year`: the highest id,
/// the later one on a tie.
pub open spec fn latest_owned_in_season(chain: Seq<Contract>, end_of_season_year: i16) -> Option<
    Contract,
>
    decreases chain.len(),
{
    if chain.len() == 0 {
        None
    } else {
        let earlier = latest_owned_in_season(chain.drop_last(), end_of_season_year);
        let last = chain.last();
        if last.end_of_season_year == end_of_season_year && last.team_id is Some && (earlier is None
            || earlier->0.id <= last.id) {
            Some(last)
        } else {
            earlier
        }
    }
}

/// The contract a reopened player's minimum bid is read from is the one of the chain a team owned
/// during the season with the greatest id: it is in the chain, of that season, owned, and no owned
/// contract of the season has a greater id; there is none exactly when no contract of the season
/// was owned.
pub proof fn lemma_latest_owned_has_the_greatest_id(chain: Seq<Contract>, end_of_season_year: i16)
    ensures
        latest_owned_in_season(chain, end_of_season_year) is None <==> !exists|i: int|
            0 <= i < chain.len() && #[trigger] chain[i].end_of_season_year == end_of_season_year
                && chain[i].team_id is Some,
        latest_owned_in_season(chain, end_of_season_year) matches Some(owned) ==> {
            &&& exists|i: int| 0 <= i < chain.len() && #[trigger] chain[i] == owned
            &&& owned.end_of_season_year == end_of_season_year
            &&& owned.team_id is Some
            &&& forall|i: int|
                0 <= i < chain.len() && #[trigger] chain[i].end_of_season_year == end_of_season_year
                    && chain[i].team_id is Some ==> chain[i].id <= owned.id
        },
    decreases chain.len(),
{
    if chain.len() > 0 {
        let prefix = chain.drop_last();
        lemma_latest_owned_has_the_greatest_id(prefix, end_of_season_year);
        let last_index = chain.len() - 1;
        assert(chain[last_index] == chain.last());
        assert forall|i: int| 0 <= i < prefix.len() implies #[trigger] prefix[i] == chain[i] by {}
        if let Some(owned) = latest_owned_in_season(prefix, end_of_season_year) {
            let k = choose|k: int| 0 <= k < prefix.len() && #[trigger] prefix[k] == owned;
            assert(chain[k] == owned);
        }
        if exists|i: int|
            0 <= i < chain.len() && #[trigger] chain[i].end_of_season_year == end_of_season_year
                && chain[i].team_id is Some {
            let i = choose|i: int|
                0 <= i < chain.len() && #[trigger] chain[i].end_of_season_year == end_of_season_year
                    && chain[i].team_id is Some;
            if i < prefix.len() {
                assert(prefix[i].end_of_season_year == end_of_season_year);
            }
        }
        if let Some(owned) = latest_owned_in_season(chain, end_of_season_year) {
            assert forall|i: int|
                0 <= i < chain.len() && #[trigger] chain[i].end_of_season_year == end_of_season_year
                    && chain[i].team_id is Some implies chain[i].id <= owned.id by {
                if i < prefix.len() {
                    assert(prefix[i].end_of_season_year == end_of_season_year
                        && prefix[i].team_id is Some);
                    assert(latest_owned_in_season(prefix, end_of_season_year) is Some);
                }
            }
        }
    }
}

/// Salary of the latest contract in the chain that a team actually owned during the season.
pub fn previous_in_season_salary(chain: &Vec<Contract>, end_of_season_year: i16) -> (salary: Option<i16>)
    ensures
        salary == (match latest_owned_in_season(chain@, end_of_season_year) {
            Some(owned) => Some(owned.salary),
            None => None,
        }),
{
    let mut best: Option<Contract> = None;
    let mut index: usize = 0;
    while index < chain.len()
        invariant
            index <= chain.len(),
            best == latest_owned_in_season(chain@.take(index as int), end_of_season_year),
        decreases chain.len() - index,
    {
        let candidate = chain[index];
        proof {
            assert(chain@.take(index + 1).drop_last() =~= chain@.take(index as int));
        }
        if candidate.end_of_season_year == end_of_season_year && candidate.team_id.is_some() {
            match best {
                None => {
                    best = Some(candidate);
                },
                Some(current) => {
                    if current.id <= candidate.id {
                        best = Some(candidate);
                    }
                },
            }
        }
        index += 1;
    }
    proof {
        assert(chain@.take(chain.len() as int) =~= chain@);
    }
    match best {
        Some(owned) => Some(owned.salary),
        None => None,
    }
}

/// The opening bid an in-season free agent auction starts at (rules §8.3.3): $1 unless the player
/// was already owned this season, when his previous in-season salary is the floor.
pub fn in_season_fa_minimum_bid(chain: &Vec<Contract>, end_of_season_year: i16) -> (minimum: i16)
    ensures
        minimum == (match latest_owned_in_season(chain@, end_of_season_year) {
            Some(owned) => owned.salary,
            None => IN_SEASON_FA_MINIMUM_BID,
        }),
{
    match previous_in_season_salary(chain, end_of_season_year) {
        Some(salary) => salary,
        None => IN_SEASON_FA_MINIMUM_BID,
    }
}

/// Why a new in-season free agent auction may not open.
#[derive(Clone, Copy, Debug, PartialEq, Eq, Structural)]
pub enum FaAuctionOpenRejection {
    /// The week's opening-bid deadline has passed (rules §8.2).
    PastOpeningBidDeadline,
    /// The season's free agent auction period has ended.
    FreeAgencyEnded,
}

/// The gates an opening must pass: on or before the week's opening-bid deadline, then on or before
/// the season's free agent auction end.
pub fn check_in_season_fa_opening(
    now: Timestamp,
    opening_bid_deadline: Timestamp,
    fa_auction_end: Timestamp,
) -> (verdict: Result<(), FaAuctionOpenRejection>)
    ensures
        verdict == (if !now.not_after(opening_bid_deadline) {
            Err(FaAuctionOpenRejection::PastOpeningBidDeadline)
        } else if !now.not_after(fa_auction_end) {
            Err(FaAuctionOpenRejection::FreeAgencyEnded)
        } else {
            Ok(())
        }),
{
    if !now.is_not_after(&opening_bid_deadline) {
        Err(FaAuctionOpenRejection::PastOpeningBidDeadline)
    } else if !now.is_not_after(&fa_auction_end) {
        Err(FaAuctionOpenRejection::FreeAgencyEnded)
    } else {
        Ok(())
    }
}

/// Whether an active contract is the free agent contract of `player_id`.
pub open spec fn is_fa_pool_contract(contract: Contract, player_id: i64) -> bool {
    contract.player_id == Some(player_id) && contract.kind == ContractKind::FreeAgent
}

/// The first active league contract a new free agent auction can reuse for the player, if any;
/// `None` means a new contract has to be created.
pub fn find_fa_auction_contract(active_league_contracts: &Vec<Contract>, player_id: i64) -> (found:
    Option<Contract>)
    ensures
        match found {
            Some(contract) => exists|i: int|
                0 <= i < active_league_contracts.len() && active_league_contracts@[i] == contract
                    && is_fa_pool_contract(contract, player_id) && forall|j: int|
                    0 <= j < i ==> !is_fa_pool_contract(
                        #[trigger] active_league_contracts@[j],
                        player_id,
                    ),
            None => forall|j: int|
                0 <= j < active_league_contracts.len() ==> !is_fa_pool_contract(
                    #[trigger] active_league_contracts@[j],
                    player_id,
                ),
        },
{
    let mut index: usize = 0;
    while index < active_league_contracts.len()
        invariant
            index <= active_league_contracts.len(),
            forall|j: int|
                0 <= j < index ==> !is_fa_pool_contract(
                    #[trigger] active_league_contracts@[j],
                    player_id,
                ),
        decreases active_league_contracts.len() - index,
    {
        let candidate = active_league_contracts[index];
        if candidate.player_id == Some(player_id) && candidate.kind == ContractKind::FreeAgent {
            return Some(candidate);
        }
        index += 1;
    }
    None
}

} // verus!
