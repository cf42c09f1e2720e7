//! Generating a league's future rookie draft picks.
use crate::model::DraftPick;
use crate::rules::{DRAFT_PICK_ROUNDS, FUTURE_DRAFT_PICK_SEASONS_LIMIT};
use vstd::prelude::*;

verus! {

/// The picks generated for a league: for each team in order, one pick per round 1-5 in the season
/// `FUTURE_DRAFT_PICK_SEASONS_LIMIT` after `end_of_season_year`, owned by the team that was born
/// with it. Ids are 0 until the picks are saved.
pub open spec fn future_pick(league_id: i64, end_of_season_year: i16, team_id: i64, round: int) -> DraftPick {
    DraftPick {
        id: 0,
        round: round as i16,
        end_of_season_year: (end_of_season_year + FUTURE_DRAFT_PICK_SEASONS_LIMIT) as i16,
        league_id,
        current_owner_team_id: team_id,
        original_owner_team_id: team_id,
    }
}

/// Generates the rookie draft picks of the season `FUTURE_DRAFT_PICK_SEASONS_LIMIT` ahead: each
/// team, in the order given, gets its picks of rounds 1 through 5.
pub fn generate_future_draft_picks(league_id: i64, end_of_season_year: i16, team_ids: &Vec<i64>) -> (picks: Vec<DraftPick>)
    requires
        end_of_season_year + FUTURE_DRAFT_PICK_SEASONS_LIMIT <= i16::MAX,
    ensures
        picks.len() == team_ids.len() * DRAFT_PICK_ROUNDS,
        forall|t: int, r: int|
            0 <= t < team_ids.len() && 0 <= r < DRAFT_PICK_ROUNDS ==> #[trigger] picks@[t * 5 + r]
                == future_pick(league_id, end_of_season_year, team_ids@[t], r + 1),
{
    let season = end_of_season_year + FUTURE_DRAFT_PICK_SEASONS_LIMIT;
    let mut picks: Vec<DraftPick> = Vec::new();
    let mut team_index: usize = 0;
    while team_index < team_ids.len()
        invariant
            team_index <= team_ids.len(),
            season == end_of_season_year + FUTURE_DRAFT_PICK_SEASONS_LIMIT,
            picks.len() == team_index * 5,
            forall|t: int, r: int|
                0 <= t < team_index && 0 <= r < 5 ==> #[trigger] picks@[t * 5 + r] == future_pick(
                    league_id,
                    end_of_season_year,
                    team_ids@[t],
                    r + 1,
                ),
        decreases team_ids.len() - team_index,
    {
        let team_id = team_ids[team_index];
        let mut round: i16 = 1;
        while round <= DRAFT_PICK_ROUNDS
            invariant
                1 <= round <= 6,
                team_index < team_ids.len(),
                team_id == team_ids@[team_index as int],
                season == end_of_season_year + FUTURE_DRAFT_PICK_SEASONS_LIMIT,
                picks.len() == team_index * 5 + round - 1,
                forall|t: int, r: int|
                    0 <= t < team_index && 0 <= r < 5 ==> #[trigger] picks@[t * 5 + r] == future_pick(
                        league_id,
                        end_of_season_year,
                        team_ids@[t],
                        r + 1,
                    ),
                forall|r: int|
                    0 <= r < round - 1 ==> #[trigger] picks@[team_index * 5 + r] == future_pick(
                        league_id,
                        end_of_season_year,
                        team_id,
                        r + 1,
                    ),
            decreases 6 - round,
        {
            proof {
                assert(picks.len() + 1 <= team_ids.len() * 5) by (nonlinear_arith)
                    requires
                        picks.len() == team_index * 5 + round - 1,
                        round <= 5,
                        team_index < team_ids.len(),
                ;
            }
            picks.push(DraftPick {
                id: 0,
                round,
                end_of_season_year: season,
                league_id,
                current_owner_team_id: team_id,
                original_owner_team_id: team_id,
            });
            proof {
                assert forall|t: int, r: int|
                    0 <= t < team_index && 0 <= r < 5 implies #[trigger] picks@[t * 5 + r]
                        == future_pick(league_id, end_of_season_year, team_ids@[t], r + 1) by {
                    assert(t * 5 + r < team_index * 5) by (nonlinear_arith)
                        requires
                            0 <= t < team_index,
                            0 <= r < 5,
                    ;
                }
            }
            round += 1;
        }
        team_index += 1;
    }
    picks
}

} // verus!
