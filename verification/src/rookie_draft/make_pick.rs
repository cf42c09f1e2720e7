//! Making and passing a rookie-draft pick (rules §7.3).
//!
//! A pick is validated before anything is written: the selection is still unused, it is on the
//! clock, the player is in the eligible pool, the player was not dropped during this draft, and the
//! drafting team has roster room (the preseason contract limit; rookie development contracts are
//! off the cap). Passing asks only the first two.
use crate::model::{
    Contract, ContractKind, ContractStatus, ContractUpdate, ContractUpdateType, DraftPick,
    LeagueTeamSeasonStanding, RelatedPlayer, TeamUpdateData,
};
use crate::rookie_draft::draft_order::{
    lemma_draft_has_a_slot_per_team_per_round, spec_compute_draft_order,
};
use crate::roster::salary::SalarySnapshot;
use crate::rules::{
    rookie_draft_salary_for_round, spec_rookie_draft_salary_for_round,
    PRE_SEASON_CONTRACTS_PER_ROSTER_LIMIT,
};
use std::collections::HashSet;
use vstd::prelude::*;

verus! {

/// Where a row of the draft slate stands.
#[derive(Clone, Copy, Debug, PartialEq, Eq, Structural, Hash)]
pub enum RookieDraftSelectionStatus {
    Unused,
    PlayerSelected,
    Skipped,
}

/// One row of the draft slate: a pick's turn, in `order`.
#[derive(Clone, Copy, Debug, PartialEq, Eq, Structural)]
pub struct RookieDraftSelection {
    pub id: i64,
    pub league_id: i64,
    pub draft_pick_id: i64,
    pub order: i16,
    pub current_owner_team_id: i64,
    pub status: RookieDraftSelectionStatus,
    pub contract_id: Option<i64>,
    pub transaction_id: Option<i64>,
}

/// Why a pick was refused. Each variant is a distinct user-facing error.
#[derive(Clone, Copy, Debug, PartialEq, Eq, Structural)]
pub enum PickRejection {
    /// The draft has not started for this league season.
    DraftNotStarted,
    /// Another selection is on the clock.
    NotOnTheClock { selection_id: i64, on_the_clock_order: i16 },
    /// The selection has already been used or passed.
    SelectionAlreadyResolved { selection_id: i64 },
    /// The player is not in the rookie draft eligible pool (§7.5).
    PlayerNotEligible,
    /// The player was dropped during this draft and cannot be re-drafted (§7.3.4).
    ReDraftBanned,
    /// The team's roster is full.
    NoRosterSpace { roster_used: usize, roster_limit: i16 },
}

/// The §7.3.4 re-draft ban: players dropped during this draft, keyed the way a contract keys a
/// player (real NBA player or league-created one).
#[derive(Debug, PartialEq, Eq)]
pub struct ReDraftBan {
    players: HashSet<i64>,
    league_players: HashSet<i64>,
}

/// The real players among some contracts.
pub open spec fn dropped_players(contracts: Seq<Contract>) -> Set<i64> {
    Set::new(
        |id: i64|
            exists|i: int|
                0 <= i < contracts.len() && #[trigger] contracts[i].player_id == Some(id),
    )
}

/// The league-created players among some contracts.
pub open spec fn dropped_league_players(contracts: Seq<Contract>) -> Set<i64> {
    Set::new(
        |id: i64|
            exists|i: int|
                0 <= i < contracts.len() && #[trigger] contracts[i].league_player_id == Some(id),
    )
}

impl ReDraftBan {
    /// The banned real players.
    pub closed spec fn banned_players(&self) -> Set<i64> {
        self.players@
    }

    /// The banned league-created players.
    pub closed spec fn banned_league_players(&self) -> Set<i64> {
        self.league_players@
    }

    /// Whether the player is banned, in the id space `is_league_player` picks.
    pub open spec fn spec_is_banned(&self, player_id: i64, is_league_player: bool) -> bool {
        if is_league_player {
            self.banned_league_players().contains(player_id)
        } else {
            self.banned_players().contains(player_id)
        }
    }

    /// Whether the player was dropped during this draft; the two id spaces never collide.
    pub fn is_banned(&self, player_id: i64, is_league_player: bool) -> (banned: bool)
        ensures
            banned == self.spec_is_banned(player_id, is_league_player),
    {
        broadcast use vstd::std_specs::hash::group_hash_axioms;

        if is_league_player {
            self.league_players.contains(&player_id)
        } else {
            self.players.contains(&player_id)
        }
    }

    /// The ban the contracts dropped during this draft give.
    pub fn from_dropped_contracts(dropped_contracts: &Vec<Contract>) -> (ban: Self)
        ensures
            ban.banned_players() == dropped_players(dropped_contracts@),
            ban.banned_league_players() == dropped_league_players(dropped_contracts@),
    {
        broadcast use vstd::std_specs::hash::group_hash_axioms;

        let mut players: HashSet<i64> = HashSet::new();
        let mut league_players: HashSet<i64> = HashSet::new();
        let mut index: usize = 0;
        while index < dropped_contracts.len()
            invariant
                index <= dropped_contracts.len(),
                players@ == dropped_players(dropped_contracts@.take(index as int)),
                league_players@ == dropped_league_players(dropped_contracts@.take(index as int)),
            decreases dropped_contracts.len() - index,
        {
            let contract = dropped_contracts[index];
            let ghost before = dropped_contracts@.take(index as int);
            let ghost after = dropped_contracts@.take(index + 1);
            if let Some(player_id) = contract.player_id {
                players.insert(player_id);
            }
            if let Some(league_player_id) = contract.league_player_id {
                league_players.insert(league_player_id);
            }
            proof {
                assert(after[index as int] == contract);
                assert(forall|i: int| 0 <= i < index ==> after[i] == before[i]);
                assert forall|id: i64| players@.contains(id) == dropped_players(after).contains(id) by {
                    if players@.contains(id) && contract.player_id != Some(id) {
                        let i = choose|i: int| 0 <= i < before.len() && #[trigger] before[i].player_id == Some(id);
                        assert(after[i].player_id == Some(id));
                    }
                    if players@.contains(id) && contract.player_id == Some(id) {
                        assert(after[index as int].player_id == Some(id));
                    }
                    if dropped_players(after).contains(id) {
                        let i = choose|i: int| 0 <= i < after.len() && #[trigger] after[i].player_id == Some(id);
                        if i < index {
                            assert(before[i].player_id == Some(id));
                            assert(dropped_players(before).contains(id));
                        }
                    }
                }
                assert forall|id: i64| league_players@.contains(id) == dropped_league_players(after).contains(id) by {
                    if league_players@.contains(id) && contract.league_player_id != Some(id) {
                        let i = choose|i: int| 0 <= i < before.len() && #[trigger] before[i].league_player_id == Some(id);
                        assert(after[i].league_player_id == Some(id));
                    }
                    if league_players@.contains(id) && contract.league_player_id == Some(id) {
                        assert(after[index as int].league_player_id == Some(id));
                    }
                    if dropped_league_players(after).contains(id) {
                        let i = choose|i: int| 0 <= i < after.len() && #[trigger] after[i].league_player_id == Some(id);
                        if i < index {
                            assert(before[i].league_player_id == Some(id));
                            assert(dropped_league_players(before).contains(id));
                        }
                    }
                }
                assert(players@ =~= dropped_players(after));
                assert(league_players@ =~= dropped_league_players(after));
            }
            index += 1;
        }
        proof {
            assert(dropped_contracts@.take(dropped_contracts.len() as int) =~= dropped_contracts@);
        }
        ReDraftBan { players, league_players }
    }
}

/// Whether an entry of the pool is the player, in the id space `is_league_player` picks.
pub open spec fn names_player(related_player: RelatedPlayer, player_id: i64, is_league_player: bool) -> bool {
    match related_player {
        RelatedPlayer::LeaguePlayer(id) => is_league_player && id == player_id,
        RelatedPlayer::Player(id) => !is_league_player && id == player_id,
    }
}

/// Whether the eligible pool holds the player.
pub open spec fn spec_pool_contains(pool: Seq<RelatedPlayer>, player_id: i64, is_league_player: bool) -> bool {
    exists|i: int| 0 <= i < pool.len() && names_player(#[trigger] pool[i], player_id, is_league_player)
}

/// Whether the eligible pool holds the player, in the id space `is_league_player` picks.
pub fn pool_contains(pool: &Vec<RelatedPlayer>, player_id: i64, is_league_player: bool) -> (contains: bool)
    ensures
        contains == spec_pool_contains(pool@, player_id, is_league_player),
{
    let mut index: usize = 0;
    while index < pool.len()
        invariant
            index <= pool.len(),
            forall|i: int| 0 <= i < index ==> !names_player(#[trigger] pool@[i], player_id, is_league_player),
        decreases pool.len() - index,
    {
        let hit = match pool[index] {
            RelatedPlayer::LeaguePlayer(id) => is_league_player && id == player_id,
            RelatedPlayer::Player(id) => !is_league_player && id == player_id,
        };
        if hit {
            return true;
        }
        index += 1;
    }
    false
}

/// The verdict of the on-the-clock check: the draft must have a selection on the clock, and it
/// must be this one.
pub open spec fn spec_on_the_clock_check(selection_id: i64, on_the_clock: Option<RookieDraftSelection>) -> Result<(), PickRejection> {
    match on_the_clock {
        None => Err(PickRejection::DraftNotStarted),
        Some(current) => if current.id != selection_id {
            Err(PickRejection::NotOnTheClock { selection_id, on_the_clock_order: current.order })
        } else {
            Ok(())
        },
    }
}

/// Checks that `selection_id` is the slate's lowest-order unused row, `on_the_clock`, so a pick
/// cannot jump the queue.
pub fn check_on_the_clock(selection_id: i64, on_the_clock: Option<RookieDraftSelection>) -> (verdict: Result<(), PickRejection>)
    ensures
        verdict == spec_on_the_clock_check(selection_id, on_the_clock),
{
    match on_the_clock {
        None => Err(PickRejection::DraftNotStarted),
        Some(current) => if current.id != selection_id {
            Err(PickRejection::NotOnTheClock { selection_id, on_the_clock_order: current.order })
        } else {
            Ok(())
        },
    }
}

/// What a pass is answered: the selection must be unused and on the clock.
pub open spec fn spec_judge_pass(selection: RookieDraftSelection, on_the_clock: Option<RookieDraftSelection>) -> Result<(), PickRejection> {
    if !(selection.status is Unused) {
        Err(PickRejection::SelectionAlreadyResolved { selection_id: selection.id })
    } else {
        spec_on_the_clock_check(selection.id, on_the_clock)
    }
}

/// Judges a pass of `selection` (§7.3.1).
pub fn judge_pass(selection: &RookieDraftSelection, on_the_clock: Option<RookieDraftSelection>) -> (verdict: Result<(), PickRejection>)
    ensures
        verdict == spec_judge_pass(*selection, on_the_clock),
{
    if !matches!(selection.status, RookieDraftSelectionStatus::Unused) {
        return Err(PickRejection::SelectionAlreadyResolved { selection_id: selection.id });
    }
    check_on_the_clock(selection.id, on_the_clock)
}

/// What a pick is answered, in the order the rules are checked.
pub open spec fn spec_judge_pick(
    selection: RookieDraftSelection,
    on_the_clock: Option<RookieDraftSelection>,
    eligible_pool: Seq<RelatedPlayer>,
    ban: ReDraftBan,
    player_id: i64,
    is_league_player: bool,
    active_contract_count: usize,
) -> Result<(), PickRejection> {
    if spec_judge_pass(selection, on_the_clock) is Err {
        spec_judge_pass(selection, on_the_clock)
    } else if !spec_pool_contains(eligible_pool, player_id, is_league_player) {
        Err(PickRejection::PlayerNotEligible)
    } else if ban.spec_is_banned(player_id, is_league_player) {
        Err(PickRejection::ReDraftBanned)
    } else if active_contract_count >= PRE_SEASON_CONTRACTS_PER_ROSTER_LIMIT {
        Err(
            PickRejection::NoRosterSpace {
                roster_used: active_contract_count,
                roster_limit: PRE_SEASON_CONTRACTS_PER_ROSTER_LIMIT,
            },
        )
    } else {
        Ok(())
    }
}

/// Judges drafting `player_id` with `selection` (§7.3): unused, on the clock, in the eligible
/// pool, not re-draft banned, and room on the drafting team's roster of `active_contract_count`
/// contracts.
pub fn judge_pick(
    selection: &RookieDraftSelection,
    on_the_clock: Option<RookieDraftSelection>,
    eligible_pool: &Vec<RelatedPlayer>,
    ban: &ReDraftBan,
    player_id: i64,
    is_league_player: bool,
    active_contract_count: usize,
) -> (verdict: Result<(), PickRejection>)
    ensures
        verdict == spec_judge_pick(
            *selection,
            on_the_clock,
            eligible_pool@,
            *ban,
            player_id,
            is_league_player,
            active_contract_count,
        ),
{
    let pass = judge_pass(selection, on_the_clock);
    if pass.is_err() {
        return pass;
    }
    if !pool_contains(eligible_pool, player_id, is_league_player) {
        return Err(PickRejection::PlayerNotEligible);
    }
    if ban.is_banned(player_id, is_league_player) {
        return Err(PickRejection::ReDraftBanned);
    }
    if active_contract_count >= PRE_SEASON_CONTRACTS_PER_ROSTER_LIMIT as usize {
        return Err(
            PickRejection::NoRosterSpace {
                roster_used: active_contract_count,
                roster_limit: PRE_SEASON_CONTRACTS_PER_ROSTER_LIMIT,
            },
        );
    }
    Ok(())
}

/// The rookie development contract a pick in `round` signs: year one, active, off the IR, at the
/// round's salary, naming the player in the id space `is_league_player` picks. Its id is 0 until
/// the row is saved.
pub open spec fn spec_rookie_draft_contract(
    league_id: i64,
    end_of_season_year: i16,
    team_id: i64,
    round: i16,
    player_id: i64,
    is_league_player: bool,
) -> Contract {
    Contract {
        id: 0,
        year_number: 1,
        kind: ContractKind::RookieDevelopment,
        is_ir: false,
        salary: spec_rookie_draft_salary_for_round(round),
        end_of_season_year,
        status: ContractStatus::Active,
        league_id,
        league_player_id: if is_league_player {
            Some(player_id)
        } else {
            None
        },
        player_id: if is_league_player {
            None
        } else {
            Some(player_id)
        },
        previous_contract_id: None,
        original_contract_id: None,
        team_id: Some(team_id),
    }
}

/// The rookie development contract a pick in `round` signs for `team_id`.
pub fn rookie_draft_contract(
    league_id: i64,
    end_of_season_year: i16,
    team_id: i64,
    round: i16,
    player_id: i64,
    is_league_player: bool,
) -> (contract: Contract)
    ensures
        contract == spec_rookie_draft_contract(
            league_id,
            end_of_season_year,
            team_id,
            round,
            player_id,
            is_league_player,
        ),
{
    Contract {
        id: 0,
        year_number: 1,
        kind: ContractKind::RookieDevelopment,
        is_ir: false,
        salary: rookie_draft_salary_for_round(round),
        end_of_season_year,
        status: ContractStatus::Active,
        league_id,
        league_player_id: if is_league_player {
            Some(player_id)
        } else {
            None
        },
        player_id: if is_league_player {
            None
        } else {
            Some(player_id)
        },
        previous_contract_id: None,
        original_contract_id: None,
        team_id: Some(team_id),
    }
}

/// The ids of some contracts, in order.
pub open spec fn contract_ids(contracts: Seq<Contract>) -> Seq<i64> {
    contracts.map_values(|contract: Contract| contract.id)
}

/// The ids of some contracts, in order.
pub fn ids_of(contracts: &Vec<Contract>) -> (ids: Vec<i64>)
    ensures
        ids@ == contract_ids(contracts@),
{
    let mut ids: Vec<i64> = Vec::new();
    let mut index: usize = 0;
    while index < contracts.len()
        invariant
            index <= contracts.len(),
            ids@ == contract_ids(contracts@.take(index as int)),
        decreases contracts.len() - index,
    {
        proof {
            assert(contract_ids(contracts@.take(index + 1)) =~= contract_ids(
                contracts@.take(index as int),
            ).push(contracts@[index as int].id));
        }
        ids.push(contracts[index].id);
        index += 1;
    }
    proof {
        assert(contracts@.take(contracts.len() as int) =~= contracts@);
    }
    ids
}

/// The `team_update` a pick records: the team's contracts with the drafted one added, one
/// `AddViaRookieDraft` change, and the salary and cap unchanged either side (rookie development
/// contracts are off the cap).
pub fn pick_team_update(active_contracts: &Vec<Contract>, rookie_contract_id: i64, snapshot: SalarySnapshot) -> (data: TeamUpdateData)
    ensures
        data.all_contract_ids@ == contract_ids(active_contracts@).push(rookie_contract_id),
        data.changes@ == seq![
            ContractUpdate { contract_id: rookie_contract_id, update_type: ContractUpdateType::AddViaRookieDraft },
        ],
        data.previous_salary == snapshot.salary,
        data.new_salary == snapshot.salary,
        data.previous_salary_cap == snapshot.cap,
        data.new_salary_cap == snapshot.cap,
{
    let mut all_contract_ids = ids_of(active_contracts);
    all_contract_ids.push(rookie_contract_id);
    let changes = vec![
        ContractUpdate {
            contract_id: rookie_contract_id,
            update_type: ContractUpdateType::AddViaRookieDraft,
        },
    ];
    TeamUpdateData {
        all_contract_ids,
        changes,
        previous_salary: snapshot.salary,
        previous_salary_cap: snapshot.cap,
        new_salary: snapshot.salary,
        new_salary_cap: snapshot.cap,
    }
}

/// Whether a start that finds `existing_selection_count` selections sees the draft as begun.
pub open spec fn spec_draft_already_started(existing_selection_count: int) -> bool {
    existing_selection_count > 0
}

/// Whether a start finds the draft already begun: an existing slate means nothing is written.
pub fn draft_already_started(existing_selection_count: usize) -> (started: bool)
    ensures
        started == spec_draft_already_started(existing_selection_count as int),
{
    existing_selection_count > 0
}

/// Starting the draft twice writes nothing the second time: a start that computed the slate of a
/// season with standings wrote one selection per slot, at least one, and a start that finds them
/// sees the draft as begun.
pub proof fn lemma_a_written_slate_blocks_a_second_start(
    standings: Seq<LeagueTeamSeasonStanding>,
    lottery_team_order: Seq<i64>,
    picks: Seq<DraftPick>,
)
    requires
        standings.len() > 0,
        spec_compute_draft_order(standings, lottery_team_order, picks) is Ok,
    ensures
        spec_draft_already_started(
            spec_compute_draft_order(standings, lottery_team_order, picks)->Ok_0.len() as int,
        ),
{
    lemma_draft_has_a_slot_per_team_per_round(standings, lottery_team_order, picks);
}

} // verus!
