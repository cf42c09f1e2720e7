//! Rookie draft order computation (rules §7.2.1).
//!
//! Round 1 is the drawn lottery slots followed by the playoff teams worst finish first (champion
//! last); rounds 2-5 repeat one identical order: non-playoff teams in reverse mid-season rank, then
//! playoff teams best finish first. This is not a snake draft.
//!
//! Each ordered slot belongs to a team's natural pick (`original_owner_team_id`) but is made by
//! whoever holds it now, so traded picks land with the acquirer.
use crate::model::{DraftPick, LeagueTeamSeasonStanding};
use crate::rules::DRAFT_PICK_ROUNDS;
use vstd::prelude::*;

verus! {

/// One slot of the ordered draft slate, in overall pick order.
#[derive(Clone, Copy, Debug, PartialEq, Eq, Structural)]
pub struct DraftSlot {
    pub round: i16,
    pub draft_pick_id: i64,
    pub current_owner_team_id: i64,
}

/// Why the draft order could not be computed.
#[derive(Clone, Copy, Debug, PartialEq, Eq, Structural)]
pub enum DraftOrderError {
    /// The lottery drew a different number of teams than missed the playoffs.
    LotterySizeMismatch { drawn: usize, missed_playoffs: usize },
    /// A lottery team made the playoffs.
    LotteryTeamMadePlayoffs { team_id: i64 },
    /// The lottery drew a team more than once.
    LotteryTeamDrawnTwice { team_id: i64 },
    /// A playoff team has no playoff finish recorded.
    MissingPlayoffFinish { team_id: i64 },
    /// No pick exists for a team's natural slot in a round.
    MissingPick { round: i16, team_id: i64 },
}

/// A sort key: two ranks and the team id that breaks a full tie.
pub type Seed = (i16, i16, i64);

/// Which way each of a seed's two rank keys sorts; the team id always sorts ascending.
#[derive(Clone, Copy, Debug, PartialEq, Eq, Structural)]
pub struct SeedOrder {
    pub first_descending: bool,
    pub second_descending: bool,
}

/// Whether `a` sorts no later than `b`.
pub open spec fn seed_le(order: SeedOrder, a: Seed, b: Seed) -> bool {
    let first_before = if order.first_descending {
        a.0 > b.0
    } else {
        a.0 < b.0
    };
    let second_before = if order.second_descending {
        a.1 > b.1
    } else {
        a.1 < b.1
    };
    ||| first_before
    ||| (a.0 == b.0 && second_before)
    ||| (a.0 == b.0 && a.1 == b.1 && a.2 <= b.2)
}

/// `seed_le`, computed.
pub fn seed_sorts_no_later(order: SeedOrder, a: Seed, b: Seed) -> (le: bool)
    ensures
        le == seed_le(order, a, b),
{
    let first_before = if order.first_descending {
        a.0 > b.0
    } else {
        a.0 < b.0
    };
    let second_before = if order.second_descending {
        a.1 > b.1
    } else {
        a.1 < b.1
    };
    first_before || (a.0 == b.0 && second_before) || (a.0 == b.0 && a.1 == b.1 && a.2 <= b.2)
}

/// `seed` inserted into `sorted` after every element that sorts no later than it.
pub open spec fn insert_seed(order: SeedOrder, sorted: Seq<Seed>, seed: Seed) -> Seq<Seed>
    decreases sorted.len(),
{
    if sorted.len() == 0 {
        seq![seed]
    } else if seed_le(order, sorted.last(), seed) {
        sorted.push(seed)
    } else {
        insert_seed(order, sorted.drop_last(), seed).push(sorted.last())
    }
}

/// `seeds` sorted by `order`.
pub open spec fn sort_seeds(order: SeedOrder, seeds: Seq<Seed>) -> Seq<Seed>
    decreases seeds.len(),
{
    if seeds.len() == 0 {
        Seq::empty()
    } else {
        insert_seed(order, sort_seeds(order, seeds.drop_last()), seeds.last())
    }
}

fn insert_seed_in_place(order: SeedOrder, sorted: &mut Vec<Seed>, seed: Seed)
    ensures
        final(sorted)@ == insert_seed(order, old(sorted)@, seed),
    decreases old(sorted).len(),
{
    if sorted.len() == 0 {
        sorted.push(seed);
        proof {
            assert(sorted@ =~= seq![seed]);
        }
        return;
    }
    let last = sorted[sorted.len() - 1];
    if seed_sorts_no_later(order, last, seed) {
        sorted.push(seed);
    } else {
        let ghost before = sorted@;
        sorted.pop();
        proof {
            assert(sorted@ =~= before.drop_last());
        }
        insert_seed_in_place(order, sorted, seed);
        sorted.push(last);
    }
}

/// Sorts seeds by `order`.
pub fn sorted_seeds(order: SeedOrder, seeds: &Vec<Seed>) -> (sorted: Vec<Seed>)
    ensures
        sorted@ == sort_seeds(order, seeds@),
{
    let mut sorted: Vec<Seed> = Vec::new();
    let mut index: usize = 0;
    while index < seeds.len()
        invariant
            index <= seeds.len(),
            sorted@ == sort_seeds(order, seeds@.take(index as int)),
        decreases seeds.len() - index,
    {
        proof {
            assert(seeds@.take(index + 1).drop_last() =~= seeds@.take(index as int));
        }
        insert_seed_in_place(order, &mut sorted, seeds[index]);
        index += 1;
    }
    proof {
        assert(seeds@.take(seeds.len() as int) =~= seeds@);
    }
    sorted
}

/// The team ids of a list of seeds, in order.
pub open spec fn seed_teams(seeds: Seq<Seed>) -> Seq<i64> {
    seeds.map_values(|seed: Seed| seed.2)
}

/// The standings of playoff teams, in standings order.
pub open spec fn playoff_standings(standings: Seq<LeagueTeamSeasonStanding>) -> Seq<
    LeagueTeamSeasonStanding,
>
    decreases standings.len(),
{
    if standings.len() == 0 {
        Seq::empty()
    } else {
        let earlier = playoff_standings(standings.drop_last());
        if standings.last().made_playoffs {
            earlier.push(standings.last())
        } else {
            earlier
        }
    }
}

/// The standings of teams that missed the playoffs, in standings order.
pub open spec fn non_playoff_standings(standings: Seq<LeagueTeamSeasonStanding>) -> Seq<
    LeagueTeamSeasonStanding,
>
    decreases standings.len(),
{
    if standings.len() == 0 {
        Seq::empty()
    } else {
        let earlier = non_playoff_standings(standings.drop_last());
        if !standings.last().made_playoffs {
            earlier.push(standings.last())
        } else {
            earlier
        }
    }
}

/// Round one's playoff keys: worst finish first, ties to the worse record, then team id.
pub open spec fn round_one_playoff_order() -> SeedOrder {
    SeedOrder { first_descending: true, second_descending: true }
}

/// Later rounds' playoff keys: best finish first, then better record, then team id.
pub open spec fn later_playoff_order() -> SeedOrder {
    SeedOrder { first_descending: false, second_descending: false }
}

/// Later rounds' non-playoff keys: worst mid-season rank first, ties to the worse record, then
/// team id.
pub open spec fn non_playoff_order() -> SeedOrder {
    SeedOrder { first_descending: true, second_descending: true }
}

/// The playoff seeds `(playoff_finish, regular_season_rank, team_id)`, or the first playoff team
/// without a recorded finish.
pub open spec fn playoff_seeds(playoffs: Seq<LeagueTeamSeasonStanding>) -> Result<
    Seq<Seed>,
    DraftOrderError,
>
    decreases playoffs.len(),
{
    if playoffs.len() == 0 {
        Ok(Seq::empty())
    } else {
        match playoff_seeds(playoffs.drop_last()) {
            Err(error) => Err(error),
            Ok(earlier) => match playoffs.last().playoff_finish {
                None => Err(DraftOrderError::MissingPlayoffFinish { team_id: playoffs.last().team_id }),
                Some(finish) => Ok(
                    earlier.push((finish, playoffs.last().regular_season_rank, playoffs.last().team_id)),
                ),
            },
        }
    }
}

/// The non-playoff seeds `(mid_season_rank, regular_season_rank, team_id)`.
pub open spec fn non_playoff_seeds(non_playoffs: Seq<LeagueTeamSeasonStanding>) -> Seq<Seed> {
    non_playoffs.map_values(
        |standing: LeagueTeamSeasonStanding|
            (standing.mid_season_rank, standing.regular_season_rank, standing.team_id),
    )
}

/// The pick born as `(round, team_id)`: the lowest-id one, the earlier listed on a tie.
pub open spec fn natural_pick(picks: Seq<DraftPick>, round: i16, team_id: i64) -> Option<DraftPick>
    decreases picks.len(),
{
    if picks.len() == 0 {
        None
    } else {
        let earlier = natural_pick(picks.drop_last(), round, team_id);
        let last = picks.last();
        if last.round == round && last.original_owner_team_id == team_id && (earlier is None
            || last.id < earlier->0.id) {
            Some(last)
        } else {
            earlier
        }
    }
}

/// The `(round, team)` natural slots of the whole draft, in overall pick order.
pub open spec fn slate_keys(round_one_teams: Seq<i64>, later_round_teams: Seq<i64>) -> Seq<
    (i16, i64),
> {
    round_one_teams.map_values(|team_id: i64| (1i16, team_id)) + Seq::new(
        ((DRAFT_PICK_ROUNDS - 1) * later_round_teams.len()) as nat,
        |k: int|
            (
                (2 + k / (later_round_teams.len() as int)) as i16,
                later_round_teams[k % (later_round_teams.len() as int)],
            ),
    )
}

/// The slots for a list of natural slot keys, or the first key with no pick.
pub open spec fn slots_for_keys(picks: Seq<DraftPick>, keys: Seq<(i16, i64)>) -> Result<
    Seq<DraftSlot>,
    DraftOrderError,
>
    decreases keys.len(),
{
    if keys.len() == 0 {
        Ok(Seq::empty())
    } else {
        match slots_for_keys(picks, keys.drop_last()) {
            Err(error) => Err(error),
            Ok(earlier) => {
                let (round, team_id) = keys.last();
                match natural_pick(picks, round, team_id) {
                    None => Err(DraftOrderError::MissingPick { round, team_id }),
                    Some(pick) => Ok(
                        earlier.push(
                            DraftSlot {
                                round,
                                draft_pick_id: pick.id,
                                current_owner_team_id: pick.current_owner_team_id,
                            },
                        ),
                    ),
                }
            },
        }
    }
}

/// The first lottery team that did not miss the playoffs, if any.
pub open spec fn first_lottery_playoff_team(lottery_team_order: Seq<i64>, non_playoffs: Seq<
    LeagueTeamSeasonStanding,
>) -> Option<i64>
    decreases lottery_team_order.len(),
{
    if lottery_team_order.len() == 0 {
        None
    } else {
        match first_lottery_playoff_team(lottery_team_order.drop_last(), non_playoffs) {
            Some(team_id) => Some(team_id),
            None => if exists|i: int|
                0 <= i < non_playoffs.len() && #[trigger] non_playoffs[i].team_id
                    == lottery_team_order.last() {
                None
            } else {
                Some(lottery_team_order.last())
            },
        }
    }
}

/// The first lottery entry that repeats an earlier one, if any.
pub open spec fn first_repeated_lottery_team(lottery_team_order: Seq<i64>) -> Option<i64>
    decreases lottery_team_order.len(),
{
    if lottery_team_order.len() == 0 {
        None
    } else {
        match first_repeated_lottery_team(lottery_team_order.drop_last()) {
            Some(team_id) => Some(team_id),
            None => if lottery_team_order.drop_last().contains(lottery_team_order.last()) {
                Some(lottery_team_order.last())
            } else {
                None
            },
        }
    }
}

/// The whole draft order (rules §7.2.1).
pub open spec fn spec_compute_draft_order(
    standings: Seq<LeagueTeamSeasonStanding>,
    lottery_team_order: Seq<i64>,
    picks: Seq<DraftPick>,
) -> Result<Seq<DraftSlot>, DraftOrderError> {
    let playoffs = playoff_standings(standings);
    let non_playoffs = non_playoff_standings(standings);
    if lottery_team_order.len() != non_playoffs.len() {
        Err(
            DraftOrderError::LotterySizeMismatch {
                drawn: lottery_team_order.len() as usize,
                missed_playoffs: non_playoffs.len() as usize,
            },
        )
    } else if first_lottery_playoff_team(lottery_team_order, non_playoffs) is Some {
        Err(
            DraftOrderError::LotteryTeamMadePlayoffs {
                team_id: first_lottery_playoff_team(lottery_team_order, non_playoffs)->Some_0,
            },
        )
    } else if first_repeated_lottery_team(lottery_team_order) is Some {
        Err(
            DraftOrderError::LotteryTeamDrawnTwice {
                team_id: first_repeated_lottery_team(lottery_team_order)->Some_0,
            },
        )
    } else {
        match playoff_seeds(playoffs) {
            Err(error) => Err(error),
            Ok(seeds) => {
                let round_one_teams = lottery_team_order + seed_teams(
                    sort_seeds(round_one_playoff_order(), seeds),
                );
                let later_round_teams = seed_teams(
                    sort_seeds(non_playoff_order(), non_playoff_seeds(non_playoffs)),
                ) + seed_teams(sort_seeds(later_playoff_order(), seeds));
                slots_for_keys(picks, slate_keys(round_one_teams, later_round_teams))
            },
        }
    }
}

fn partition_standings(standings: &Vec<LeagueTeamSeasonStanding>) -> (parts: (
    Vec<LeagueTeamSeasonStanding>,
    Vec<LeagueTeamSeasonStanding>,
))
    ensures
        parts.0@ == playoff_standings(standings@),
        parts.1@ == non_playoff_standings(standings@),
{
    let mut playoffs: Vec<LeagueTeamSeasonStanding> = Vec::new();
    let mut non_playoffs: Vec<LeagueTeamSeasonStanding> = Vec::new();
    let mut index: usize = 0;
    while index < standings.len()
        invariant
            index <= standings.len(),
            playoffs@ == playoff_standings(standings@.take(index as int)),
            non_playoffs@ == non_playoff_standings(standings@.take(index as int)),
        decreases standings.len() - index,
    {
        proof {
            assert(standings@.take(index + 1).drop_last() =~= standings@.take(index as int));
        }
        let standing = standings[index];
        if standing.made_playoffs {
            playoffs.push(standing);
        } else {
            non_playoffs.push(standing);
        }
        index += 1;
    }
    proof {
        assert(standings@.take(standings.len() as int) =~= standings@);
    }
    (playoffs, non_playoffs)
}

fn misses_playoffs(non_playoffs: &Vec<LeagueTeamSeasonStanding>, team_id: i64) -> (found: bool)
    ensures
        found == exists|i: int| 0 <= i < non_playoffs.len() && #[trigger] non_playoffs@[i].team_id == team_id,
{
    let mut index: usize = 0;
    while index < non_playoffs.len()
        invariant
            index <= non_playoffs.len(),
            forall|i: int| 0 <= i < index ==> #[trigger] non_playoffs@[i].team_id != team_id,
        decreases non_playoffs.len() - index,
    {
        if non_playoffs[index].team_id == team_id {
            return true;
        }
        index += 1;
    }
    false
}

fn find_repeated_lottery_team(lottery_team_order: &Vec<i64>) -> (found: Option<i64>)
    ensures
        found == first_repeated_lottery_team(lottery_team_order@),
{
    let mut index: usize = 0;
    while index < lottery_team_order.len()
        invariant
            index <= lottery_team_order.len(),
            first_repeated_lottery_team(lottery_team_order@.take(index as int)) is None,
        decreases lottery_team_order.len() - index,
    {
        let ghost prefix = lottery_team_order@.take(index as int);
        proof {
            assert(lottery_team_order@.take(index + 1).drop_last() =~= prefix);
        }
        let team_id = lottery_team_order[index];
        let mut earlier: usize = 0;
        while earlier < index
            invariant
                earlier <= index < lottery_team_order.len(),
                prefix == lottery_team_order@.take(index as int),
                first_repeated_lottery_team(prefix) is None,
                team_id == lottery_team_order@[index as int],
                forall|k: int| 0 <= k < earlier ==> lottery_team_order@[k] != team_id,
            decreases index - earlier,
        {
            if lottery_team_order[earlier] == team_id {
                proof {
                    let grown = lottery_team_order@.take(index + 1);
                    assert(grown.drop_last() =~= prefix);
                    assert(grown.last() == team_id);
                    assert(prefix[earlier as int] == team_id);
                    assert(prefix.contains(team_id));
                    lemma_repeated_lottery_team_persists(lottery_team_order@, index as int + 1);
                }
                return Some(team_id);
            }
            earlier += 1;
        }
        proof {
            assert(!prefix.contains(team_id)) by {
                if prefix.contains(team_id) {
                    let k = choose|k: int| 0 <= k < prefix.len() && prefix[k] == team_id;
                    assert(lottery_team_order@[k] == team_id);
                }
            }
        }
        index += 1;
    }
    proof {
        assert(lottery_team_order@.take(lottery_team_order.len() as int) =~= lottery_team_order@);
    }
    None
}

proof fn lemma_repeated_lottery_team_persists(lottery_team_order: Seq<i64>, prefix: int)
    requires
        0 < prefix <= lottery_team_order.len(),
        first_repeated_lottery_team(lottery_team_order.take(prefix)) is Some,
    ensures
        first_repeated_lottery_team(lottery_team_order) == first_repeated_lottery_team(
            lottery_team_order.take(prefix),
        ),
    decreases lottery_team_order.len() - prefix,
{
    if prefix < lottery_team_order.len() {
        assert(lottery_team_order.take(prefix + 1).drop_last() =~= lottery_team_order.take(prefix));
        lemma_repeated_lottery_team_persists(lottery_team_order, prefix + 1);
    } else {
        assert(lottery_team_order.take(prefix) =~= lottery_team_order);
    }
}

fn find_first_lottery_playoff_team(
    lottery_team_order: &Vec<i64>,
    non_playoffs: &Vec<LeagueTeamSeasonStanding>,
) -> (found: Option<i64>)
    ensures
        found == first_lottery_playoff_team(lottery_team_order@, non_playoffs@),
{
    let mut index: usize = 0;
    while index < lottery_team_order.len()
        invariant
            index <= lottery_team_order.len(),
            first_lottery_playoff_team(lottery_team_order@.take(index as int), non_playoffs@) is None,
        decreases lottery_team_order.len() - index,
    {
        proof {
            assert(lottery_team_order@.take(index + 1).drop_last() =~= lottery_team_order@.take(
                index as int,
            ));
        }
        let team_id = lottery_team_order[index];
        if !misses_playoffs(non_playoffs, team_id) {
            proof {
                lemma_first_lottery_team_persists(
                    lottery_team_order@,
                    non_playoffs@,
                    index as int + 1,
                );
            }
            return Some(team_id);
        }
        index += 1;
    }
    proof {
        assert(lottery_team_order@.take(lottery_team_order.len() as int) =~= lottery_team_order@);
    }
    None
}

proof fn lemma_first_lottery_team_persists(
    lottery_team_order: Seq<i64>,
    non_playoffs: Seq<LeagueTeamSeasonStanding>,
    prefix: int,
)
    requires
        0 < prefix <= lottery_team_order.len(),
        first_lottery_playoff_team(lottery_team_order.take(prefix), non_playoffs) is Some,
    ensures
        first_lottery_playoff_team(lottery_team_order, non_playoffs) == first_lottery_playoff_team(
            lottery_team_order.take(prefix),
            non_playoffs,
        ),
    decreases lottery_team_order.len() - prefix,
{
    if prefix < lottery_team_order.len() {
        assert(lottery_team_order.take(prefix + 1).drop_last() =~= lottery_team_order.take(prefix));
        lemma_first_lottery_team_persists(lottery_team_order, non_playoffs, prefix + 1);
    } else {
        assert(lottery_team_order.take(prefix) =~= lottery_team_order);
    }
}

fn collect_playoff_seeds(playoffs: &Vec<LeagueTeamSeasonStanding>) -> (seeds: Result<
    Vec<Seed>,
    DraftOrderError,
>)
    ensures
        match playoff_seeds(playoffs@) {
            Ok(expected) => seeds matches Ok(found) && found@ == expected,
            Err(error) => seeds == Err::<Vec<Seed>, DraftOrderError>(error),
        },
{
    let mut seeds: Vec<Seed> = Vec::new();
    let mut index: usize = 0;
    while index < playoffs.len()
        invariant
            index <= playoffs.len(),
            playoff_seeds(playoffs@.take(index as int)) == Ok::<Seq<Seed>, DraftOrderError>(seeds@),
        decreases playoffs.len() - index,
    {
        proof {
            assert(playoffs@.take(index + 1).drop_last() =~= playoffs@.take(index as int));
        }
        let standing = playoffs[index];
        match standing.playoff_finish {
            None => {
                proof {
                    lemma_playoff_seed_error_persists(playoffs@, index as int + 1);
                }
                return Err(DraftOrderError::MissingPlayoffFinish { team_id: standing.team_id });
            },
            Some(finish) => {
                seeds.push((finish, standing.regular_season_rank, standing.team_id));
            },
        }
        index += 1;
    }
    proof {
        assert(playoffs@.take(playoffs.len() as int) =~= playoffs@);
    }
    Ok(seeds)
}

proof fn lemma_playoff_seed_error_persists(playoffs: Seq<LeagueTeamSeasonStanding>, prefix: int)
    requires
        0 < prefix <= playoffs.len(),
        playoff_seeds(playoffs.take(prefix)) is Err,
    ensures
        playoff_seeds(playoffs) == playoff_seeds(playoffs.take(prefix)),
    decreases playoffs.len() - prefix,
{
    if prefix < playoffs.len() {
        assert(playoffs.take(prefix + 1).drop_last() =~= playoffs.take(prefix));
        lemma_playoff_seed_error_persists(playoffs, prefix + 1);
    } else {
        assert(playoffs.take(prefix) =~= playoffs);
    }
}

fn find_natural_pick(picks: &Vec<DraftPick>, round: i16, team_id: i64) -> (found: Option<DraftPick>)
    ensures
        found == natural_pick(picks@, round, team_id),
{
    let mut best: Option<DraftPick> = None;
    let mut index: usize = 0;
    while index < picks.len()
        invariant
            index <= picks.len(),
            best == natural_pick(picks@.take(index as int), round, team_id),
        decreases picks.len() - index,
    {
        proof {
            assert(picks@.take(index + 1).drop_last() =~= picks@.take(index as int));
        }
        let pick = picks[index];
        if pick.round == round && pick.original_owner_team_id == team_id {
            match best {
                None => {
                    best = Some(pick);
                },
                Some(current) => {
                    if pick.id < current.id {
                        best = Some(pick);
                    }
                },
            }
        }
        index += 1;
    }
    proof {
        assert(picks@.take(picks.len() as int) =~= picks@);
    }
    best
}

fn seed_team_ids(seeds: &Vec<Seed>, teams: &mut Vec<i64>)
    ensures
        final(teams)@ == old(teams)@ + seed_teams(seeds@),
{
    let mut index: usize = 0;
    while index < seeds.len()
        invariant
            index <= seeds.len(),
            teams@ == old(teams)@ + seed_teams(seeds@.take(index as int)),
        decreases seeds.len() - index,
    {
        teams.push(seeds[index].2);
        index += 1;
        proof {
            assert(seed_teams(seeds@.take(index as int)) =~= seed_teams(seeds@.take(index - 1)).push(
                seeds@[index - 1].2,
            ));
        }
    }
    proof {
        assert(seeds@.take(seeds.len() as int) =~= seeds@);
    }
}

proof fn lemma_slot_error_persists(picks: Seq<DraftPick>, keys: Seq<(i16, i64)>, prefix: int)
    requires
        0 < prefix <= keys.len(),
        slots_for_keys(picks, keys.take(prefix)) is Err,
    ensures
        slots_for_keys(picks, keys) == slots_for_keys(picks, keys.take(prefix)),
    decreases keys.len() - prefix,
{
    if prefix < keys.len() {
        assert(keys.take(prefix + 1).drop_last() =~= keys.take(prefix));
        lemma_slot_error_persists(picks, keys, prefix + 1);
    } else {
        assert(keys.take(prefix) =~= keys);
    }
}

/// Returns every draft slot for the season in overall pick order (rules §7.2.1).
///
/// `lottery_team_order` is the drawn order of the non-playoff teams, which fills round one's first
/// slots.
#[verifier::rlimit(40)]
pub fn compute_draft_order(
    standings: &Vec<LeagueTeamSeasonStanding>,
    lottery_team_order: &Vec<i64>,
    draft_picks: &Vec<DraftPick>,
) -> (slots: Result<Vec<DraftSlot>, DraftOrderError>)
    ensures
        match spec_compute_draft_order(standings@, lottery_team_order@, draft_picks@) {
            Ok(expected) => slots matches Ok(found) && found@ == expected,
            Err(error) => slots == Err::<Vec<DraftSlot>, DraftOrderError>(error),
        },
{
    let (playoffs, non_playoffs) = partition_standings(standings);
    if lottery_team_order.len() != non_playoffs.len() {
        return Err(
            DraftOrderError::LotterySizeMismatch {
                drawn: lottery_team_order.len(),
                missed_playoffs: non_playoffs.len(),
            },
        );
    }
    match find_first_lottery_playoff_team(lottery_team_order, &non_playoffs) {
        Some(team_id) => {
            return Err(DraftOrderError::LotteryTeamMadePlayoffs { team_id });
        },
        None => {},
    }
    match find_repeated_lottery_team(lottery_team_order) {
        Some(team_id) => {
            return Err(DraftOrderError::LotteryTeamDrawnTwice { team_id });
        },
        None => {},
    }
    let seeds = match collect_playoff_seeds(&playoffs) {
        Ok(found) => found,
        Err(error) => return Err(error),
    };
    let round_one_playoffs = sorted_seeds(
        SeedOrder { first_descending: true, second_descending: true },
        &seeds,
    );
    let later_playoffs = sorted_seeds(
        SeedOrder { first_descending: false, second_descending: false },
        &seeds,
    );
    let mut missed_seeds: Vec<Seed> = Vec::new();
    let mut index: usize = 0;
    while index < non_playoffs.len()
        invariant
            index <= non_playoffs.len(),
            missed_seeds@ == non_playoff_seeds(non_playoffs@.take(index as int)),
        decreases non_playoffs.len() - index,
    {
        let standing = non_playoffs[index];
        missed_seeds.push((standing.mid_season_rank, standing.regular_season_rank, standing.team_id));
        index += 1;
        proof {
            assert(missed_seeds@ =~= non_playoff_seeds(non_playoffs@.take(index as int)));
        }
    }
    proof {
        assert(non_playoffs@.take(non_playoffs.len() as int) =~= non_playoffs@);
    }
    let sorted_missed = sorted_seeds(
        SeedOrder { first_descending: true, second_descending: true },
        &missed_seeds,
    );
    let mut round_one_teams: Vec<i64> = Vec::new();
    let mut lottery_index: usize = 0;
    while lottery_index < lottery_team_order.len()
        invariant
            lottery_index <= lottery_team_order.len(),
            round_one_teams@ == lottery_team_order@.take(lottery_index as int),
        decreases lottery_team_order.len() - lottery_index,
    {
        round_one_teams.push(lottery_team_order[lottery_index]);
        lottery_index += 1;
        proof {
            assert(round_one_teams@ =~= lottery_team_order@.take(lottery_index as int));
        }
    }
    proof {
        assert(lottery_team_order@.take(lottery_team_order.len() as int) =~= lottery_team_order@);
    }
    seed_team_ids(&round_one_playoffs, &mut round_one_teams);
    let mut later_round_teams: Vec<i64> = Vec::new();
    seed_team_ids(&sorted_missed, &mut later_round_teams);
    seed_team_ids(&later_playoffs, &mut later_round_teams);
    let ghost keys = slate_keys(round_one_teams@, later_round_teams@);
    proof {
        assert(later_round_teams@ =~= seed_teams(
            sort_seeds(non_playoff_order(), non_playoff_seeds(non_playoff_standings(standings@))),
        ) + seed_teams(sort_seeds(later_playoff_order(), seeds@)));
        lemma_standings_split(standings@);
        lemma_sorted_length(non_playoff_order(), non_playoff_seeds(non_playoffs@));
        lemma_sorted_length(later_playoff_order(), seeds@);
        lemma_sorted_length(round_one_playoff_order(), seeds@);
        lemma_playoff_seeds_length(playoffs@);
    }
    proof {
        let spec_seeds = playoff_seeds(playoff_standings(standings@))->Ok_0;
        assert(spec_seeds == seeds@);
        assert(round_one_teams@ =~= lottery_team_order@ + seed_teams(
            sort_seeds(round_one_playoff_order(), spec_seeds),
        ));
        assert(spec_compute_draft_order(standings@, lottery_team_order@, draft_picks@)
            == slots_for_keys(draft_picks@, keys));
        assert(keys.len() == round_one_teams.len() + (DRAFT_PICK_ROUNDS - 1)
            * later_round_teams.len());
    }
    let mut slots: Vec<DraftSlot> = Vec::new();
    let mut team_index: usize = 0;
    while team_index < round_one_teams.len()
        invariant
            team_index <= round_one_teams.len(),
            keys == slate_keys(round_one_teams@, later_round_teams@),
            keys.len() == round_one_teams.len() + (DRAFT_PICK_ROUNDS - 1) * later_round_teams.len(),
                        spec_compute_draft_order(standings@, lottery_team_order@, draft_picks@)
                == slots_for_keys(draft_picks@, keys),
            slots_for_keys(draft_picks@, keys.take(team_index as int)) == Ok::<
                Seq<DraftSlot>,
                DraftOrderError,
            >(slots@),
        decreases round_one_teams.len() - team_index,
    {
        let team_id = round_one_teams[team_index];
        proof {
            assert(keys.take(team_index + 1).drop_last() =~= keys.take(team_index as int));
            assert(keys[team_index as int] == (1i16, team_id));
        }
        match find_natural_pick(draft_picks, 1, team_id) {
            None => {
                proof {
                    lemma_slot_error_persists(draft_picks@, keys, team_index + 1);
                }
                return Err(DraftOrderError::MissingPick { round: 1, team_id });
            },
            Some(pick) => {
                slots.push(
                    DraftSlot {
                        round: 1,
                        draft_pick_id: pick.id,
                        current_owner_team_id: pick.current_owner_team_id,
                    },
                );
            },
        }
        team_index += 1;
    }
    let later_count = later_round_teams.len();
    let first_len = round_one_teams.len();
    proof {
        assert(first_len + (2 - 2) * later_count == first_len);
    }
    let mut round: i16 = 2;
    while round <= DRAFT_PICK_ROUNDS
        invariant
            2 <= round <= DRAFT_PICK_ROUNDS + 1,
            later_count == later_round_teams.len(),
            first_len == round_one_teams.len(),
            keys == slate_keys(round_one_teams@, later_round_teams@),
            keys.len() == first_len + (DRAFT_PICK_ROUNDS - 1) * later_count,
            spec_compute_draft_order(standings@, lottery_team_order@, draft_picks@)
                == slots_for_keys(draft_picks@, keys),
            slots_for_keys(
                draft_picks@,
                keys.take(first_len + (round - 2) * later_count),
            ) == Ok::<Seq<DraftSlot>, DraftOrderError>(slots@),
        decreases DRAFT_PICK_ROUNDS + 1 - round,
    {
        let mut team_index: usize = 0;
        while team_index < later_count
            invariant
                2 <= round <= DRAFT_PICK_ROUNDS,
                team_index <= later_count,
                later_count == later_round_teams.len(),
                first_len == round_one_teams.len(),
                keys == slate_keys(round_one_teams@, later_round_teams@),
                keys.len() == first_len + (DRAFT_PICK_ROUNDS - 1) * later_count,
                spec_compute_draft_order(standings@, lottery_team_order@, draft_picks@)
                    == slots_for_keys(draft_picks@, keys),
                slots_for_keys(
                    draft_picks@,
                    keys.take(first_len + (round - 2) * later_count + team_index),
                ) == Ok::<Seq<DraftSlot>, DraftOrderError>(slots@),
            decreases later_count - team_index,
        {
            let team_id = later_round_teams[team_index];
            let ghost position = first_len + (round - 2) * later_count + team_index;
            proof {
                assert(position < keys.len()) by (nonlinear_arith)
                    requires
                        position == first_len + (round - 2) * later_count + team_index,
                        team_index < later_count,
                        round <= DRAFT_PICK_ROUNDS,
                        keys.len() == first_len + (DRAFT_PICK_ROUNDS - 1) * later_count,
                        DRAFT_PICK_ROUNDS == 5,
                ;
                assert(keys.take(position + 1).drop_last() =~= keys.take(position));
                lemma_later_key(round_one_teams@, later_round_teams@, round as int, team_index as int);
            }
            match find_natural_pick(draft_picks, round, team_id) {
                None => {
                    proof {
                        lemma_slot_error_persists(draft_picks@, keys, position + 1);
                    }
                    return Err(DraftOrderError::MissingPick { round, team_id });
                },
                Some(pick) => {
                    slots.push(
                        DraftSlot {
                            round,
                            draft_pick_id: pick.id,
                            current_owner_team_id: pick.current_owner_team_id,
                        },
                    );
                },
            }
            team_index += 1;
        }
        proof {
            assert(first_len + (round - 2) * later_count + later_count == first_len + (round + 1 - 2)
                * later_count) by (nonlinear_arith);
        }
        round += 1;
    }
    proof {
        assert(first_len + (DRAFT_PICK_ROUNDS + 1 - 2) * later_count == keys.len());
        assert(keys.take(keys.len() as int) =~= keys);
    }
    Ok(slots)
}

proof fn lemma_later_key(round_one_teams: Seq<i64>, later_round_teams: Seq<i64>, round: int, index: int)
    requires
        2 <= round <= DRAFT_PICK_ROUNDS,
        0 <= index < later_round_teams.len(),
    ensures
        slate_keys(round_one_teams, later_round_teams)[round_one_teams.len() + (round - 2)
            * later_round_teams.len() + index] == (round as i16, later_round_teams[index]),
{
    let count = later_round_teams.len() as int;
    let offset = (round - 2) * count + index;
    vstd::arithmetic::div_mod::lemma_fundamental_div_mod_converse_div(offset, count, round - 2, index);
    vstd::arithmetic::div_mod::lemma_fundamental_div_mod_converse_mod(offset, count, round - 2, index);
    assert((round - 2) * count <= 3 * count) by (nonlinear_arith)
        requires
            round - 2 <= 3,
            count >= 0,
    ;
    assert(0 <= offset) by (nonlinear_arith)
        requires
            offset == (round - 2) * count + index,
            index >= 0,
            round >= 2,
            count >= 0,
    ;
}

/// Sorting keeps every seed: the result is a rearrangement of its input.
pub proof fn lemma_sorted_length(order: SeedOrder, seeds: Seq<Seed>)
    ensures
        sort_seeds(order, seeds).len() == seeds.len(),
        sort_seeds(order, seeds).to_multiset() =~= seeds.to_multiset(),
    decreases seeds.len(),
{
    broadcast use vstd::seq_lib::group_to_multiset_ensures;

    if seeds.len() > 0 {
        lemma_sorted_length(order, seeds.drop_last());
        lemma_insert_keeps(order, sort_seeds(order, seeds.drop_last()), seeds.last());
        assert(seeds =~= seeds.drop_last().push(seeds.last()));
        assert(seeds.to_multiset() =~= seeds.drop_last().to_multiset().insert(seeds.last()));
    } else {
        assert(seeds.to_multiset().len() == 0);
        assert(sort_seeds(order, seeds).to_multiset().len() == 0);
        vstd::multiset::lemma_multiset_empty_len(seeds.to_multiset());
        vstd::multiset::lemma_multiset_empty_len(sort_seeds(order, seeds).to_multiset());
    }
}

proof fn lemma_insert_keeps(order: SeedOrder, sorted: Seq<Seed>, seed: Seed)
    ensures
        insert_seed(order, sorted, seed).len() == sorted.len() + 1,
        insert_seed(order, sorted, seed).to_multiset() =~= sorted.to_multiset().insert(seed),
    decreases sorted.len(),
{
    broadcast use vstd::seq_lib::group_to_multiset_ensures;

    if sorted.len() > 0 {
        if !seed_le(order, sorted.last(), seed) {
            lemma_insert_keeps(order, sorted.drop_last(), seed);
            assert(sorted =~= sorted.drop_last().push(sorted.last()));
        }
    } else {
        assert(seq![seed] =~= Seq::<Seed>::empty().push(seed));
    }
}

proof fn lemma_playoff_seeds_length(playoffs: Seq<LeagueTeamSeasonStanding>)
    ensures
        playoff_seeds(playoffs) matches Ok(seeds) ==> seeds.len() == playoffs.len(),
    decreases playoffs.len(),
{
    if playoffs.len() > 0 {
        lemma_playoff_seeds_length(playoffs.drop_last());
    }
}

/// Every standing either made the playoffs or missed them.
pub proof fn lemma_standings_split(standings: Seq<LeagueTeamSeasonStanding>)
    ensures
        playoff_standings(standings).len() + non_playoff_standings(standings).len()
            == standings.len(),
    decreases standings.len(),
{
    if standings.len() > 0 {
        lemma_standings_split(standings.drop_last());
    }
}

/// Whether `seeds` is in `order`.
pub open spec fn seeds_sorted(order: SeedOrder, seeds: Seq<Seed>) -> bool {
    forall|i: int, j: int| 0 <= i < j < seeds.len() ==> seed_le(order, seeds[i], seeds[j])
}

proof fn lemma_seed_le_total_transitive(order: SeedOrder)
    ensures
        forall|a: Seed, b: Seed| seed_le(order, a, b) || seed_le(order, b, a),
        forall|a: Seed, b: Seed, c: Seed|
            seed_le(order, a, b) && seed_le(order, b, c) ==> seed_le(order, a, c),
{
}

proof fn lemma_insert_draws_from(order: SeedOrder, sorted: Seq<Seed>, seed: Seed)
    ensures
        forall|k: int|
            0 <= k < insert_seed(order, sorted, seed).len() ==> insert_seed(order, sorted, seed)[k]
                == seed || sorted.contains(insert_seed(order, sorted, seed)[k]),
    decreases sorted.len(),
{
    lemma_insert_keeps(order, sorted, seed);
    if sorted.len() > 0 && !seed_le(order, sorted.last(), seed) {
        let rest = sorted.drop_last();
        lemma_insert_draws_from(order, rest, seed);
        let inserted = insert_seed(order, sorted, seed);
        assert forall|k: int| 0 <= k < inserted.len() implies inserted[k] == seed || sorted.contains(
            inserted[k],
        ) by {
            if k < inserted.len() - 1 {
                let smaller = insert_seed(order, rest, seed);
                assert(inserted[k] == smaller[k]);
                if smaller[k] != seed {
                    let m = choose|m: int| 0 <= m < rest.len() && rest[m] == smaller[k];
                    assert(sorted[m] == rest[m]);
                }
            } else {
                assert(inserted[k] == sorted[sorted.len() - 1]);
            }
        }
    }
}

proof fn lemma_insert_keeps_sorted(order: SeedOrder, sorted: Seq<Seed>, seed: Seed)
    requires
        seeds_sorted(order, sorted),
    ensures
        seeds_sorted(order, insert_seed(order, sorted, seed)),
    decreases sorted.len(),
{
    lemma_seed_le_total_transitive(order);
    lemma_insert_keeps(order, sorted, seed);
    if sorted.len() == 0 {
    } else if seed_le(order, sorted.last(), seed) {
        let inserted = sorted.push(seed);
        assert forall|i: int, j: int| 0 <= i < j < inserted.len() implies seed_le(
            order,
            inserted[i],
            inserted[j],
        ) by {
            if j == inserted.len() - 1 && i < sorted.len() - 1 {
                assert(seed_le(order, sorted[i], sorted[sorted.len() - 1]));
            }
        }
    } else {
        let rest = sorted.drop_last();
        assert(seeds_sorted(order, rest));
        lemma_insert_keeps_sorted(order, rest, seed);
        lemma_insert_draws_from(order, rest, seed);
        let smaller = insert_seed(order, rest, seed);
        let inserted = smaller.push(sorted.last());
        assert forall|i: int, j: int| 0 <= i < j < inserted.len() implies seed_le(
            order,
            inserted[i],
            inserted[j],
        ) by {
            if j == inserted.len() - 1 {
                if smaller[i] != seed {
                    let m = choose|m: int| 0 <= m < rest.len() && rest[m] == smaller[i];
                    assert(sorted[m] == rest[m]);
                    assert(seed_le(order, sorted[m], sorted[sorted.len() - 1]));
                }
            } else {
                assert(inserted[i] == smaller[i] && inserted[j] == smaller[j]);
            }
        }
    }
}

/// Sorting puts the seeds in order and keeps every one of them.
pub proof fn lemma_sort_seeds_is_a_sorted_permutation(order: SeedOrder, seeds: Seq<Seed>)
    ensures
        seeds_sorted(order, sort_seeds(order, seeds)),
        sort_seeds(order, seeds).to_multiset() =~= seeds.to_multiset(),
    decreases seeds.len(),
{
    lemma_sorted_length(order, seeds);
    if seeds.len() > 0 {
        lemma_sort_seeds_is_a_sorted_permutation(order, seeds.drop_last());
        lemma_insert_keeps_sorted(order, sort_seeds(order, seeds.drop_last()), seeds.last());
    }
}

/// A computed draft has one slot per team in each of the five rounds.
pub proof fn lemma_draft_has_a_slot_per_team_per_round(
    standings: Seq<LeagueTeamSeasonStanding>,
    lottery_team_order: Seq<i64>,
    picks: Seq<DraftPick>,
)
    ensures
        spec_compute_draft_order(standings, lottery_team_order, picks) matches Ok(slots)
            ==> slots.len() == DRAFT_PICK_ROUNDS * standings.len(),
{
    let playoffs = playoff_standings(standings);
    let non_playoffs = non_playoff_standings(standings);
    lemma_standings_split(standings);
    lemma_playoff_seeds_length(playoffs);
    if let Ok(seeds) = playoff_seeds(playoffs) {
        lemma_sorted_length(round_one_playoff_order(), seeds);
        lemma_sorted_length(later_playoff_order(), seeds);
        lemma_sorted_length(non_playoff_order(), non_playoff_seeds(non_playoffs));
        let round_one_teams = lottery_team_order + seed_teams(
            sort_seeds(round_one_playoff_order(), seeds),
        );
        let later_round_teams = seed_teams(
            sort_seeds(non_playoff_order(), non_playoff_seeds(non_playoffs)),
        ) + seed_teams(sort_seeds(later_playoff_order(), seeds));
        lemma_slots_match_keys(picks, slate_keys(round_one_teams, later_round_teams));
    }
}

proof fn lemma_slots_match_keys(picks: Seq<DraftPick>, keys: Seq<(i16, i64)>)
    ensures
        slots_for_keys(picks, keys) matches Ok(slots) ==> slots.len() == keys.len() && forall|k: int|
            0 <= k < keys.len() ==> #[trigger] slots[k].round == keys[k].0 && (natural_pick(
                picks,
                keys[k].0,
                keys[k].1,
            ) matches Some(pick) && slots[k].draft_pick_id == pick.id
                && slots[k].current_owner_team_id == pick.current_owner_team_id),
    decreases keys.len(),
{
    if keys.len() > 0 {
        lemma_slots_match_keys(picks, keys.drop_last());
    }
}

/// Rounds 2-5 repeat one identical order: the natural slot at the same position of any two later
/// rounds belongs to the same team.
pub proof fn lemma_later_rounds_share_one_order(
    round_one_teams: Seq<i64>,
    later_round_teams: Seq<i64>,
    round: int,
    other_round: int,
    index: int,
)
    requires
        2 <= round <= DRAFT_PICK_ROUNDS,
        2 <= other_round <= DRAFT_PICK_ROUNDS,
        0 <= index < later_round_teams.len(),
    ensures
        slate_keys(round_one_teams, later_round_teams)[round_one_teams.len() + (round - 2)
            * later_round_teams.len() + index].1 == slate_keys(
            round_one_teams,
            later_round_teams,
        )[round_one_teams.len() + (other_round - 2) * later_round_teams.len() + index].1,
{
    lemma_later_key(round_one_teams, later_round_teams, round, index);
    lemma_later_key(round_one_teams, later_round_teams, other_round, index);
}

} // verus!
