use fbkl_logic::model::{
    Contract, ContractKind, ContractStatus, ContractUpdateType, DraftPick, LeagueTeamSeasonStanding,
    RelatedPlayer,
};
use fbkl_logic::rookie_draft::draft_order::{compute_draft_order, DraftOrderError, DraftSlot};
use fbkl_logic::rookie_draft::lottery::{draw_lottery, winning_index, LotteryError};
use fbkl_logic::rookie_draft::make_pick::{
    draft_already_started, judge_pass, judge_pick, pick_team_update, pool_contains,
    rookie_draft_contract, PickRejection, ReDraftBan, RookieDraftSelection,
    RookieDraftSelectionStatus,
};
use fbkl_logic::roster::salary::SalarySnapshot;
use fbkl_logic::rules::{rookie_draft_salary_for_round, DRAFT_PICK_ROUNDS};

const END_OF_SEASON_YEAR: i16 = 2025;

fn standing(team_id: i64, regular_season_rank: i16, mid_season_rank: i16, playoff_finish: Option<i16>) -> LeagueTeamSeasonStanding {
    LeagueTeamSeasonStanding {
        team_id,
        regular_season_rank,
        mid_season_rank,
        made_playoffs: playoff_finish.is_some(),
        playoff_finish,
    }
}

/// 12 teams: 1-6 made the playoffs (finish 1..=6), 7-12 did not.
fn standings() -> Vec<LeagueTeamSeasonStanding> {
    (1..=12)
        .map(|team_id| {
            let rank = i16::try_from(team_id).unwrap();
            let playoff_finish = if team_id <= 6 { Some(rank) } else { None };
            standing(team_id, rank, rank, playoff_finish)
        })
        .collect()
}

fn draft_picks() -> Vec<DraftPick> {
    (1..=DRAFT_PICK_ROUNDS)
        .flat_map(|round| {
            (1..=12).map(move |team_id| DraftPick {
                id: i64::from(round) * 100 + team_id,
                round,
                end_of_season_year: END_OF_SEASON_YEAR,
                league_id: 1,
                current_owner_team_id: team_id,
                original_owner_team_id: team_id,
            })
        })
        .collect()
}

fn lottery_order() -> Vec<i64> {
    vec![9, 12, 7, 11, 8, 10]
}

fn owners_for_round(slots: &[DraftSlot], round: i16) -> Vec<i64> {
    slots.iter().filter(|slot| slot.round == round).map(|slot| slot.current_owner_team_id).collect()
}

#[test]
fn round_one_follows_lottery_then_playoff_finish() {
    let slots = compute_draft_order(&standings(), &lottery_order(), &draft_picks()).unwrap();
    assert_eq!(slots.len(), 12 * usize::try_from(DRAFT_PICK_ROUNDS).unwrap());
    assert_eq!(owners_for_round(&slots, 1), vec![9, 12, 7, 11, 8, 10, 6, 5, 4, 3, 2, 1]);
}

#[test]
fn later_rounds_share_one_order_worst_mid_season_rank_first() {
    let slots = compute_draft_order(&standings(), &lottery_order(), &draft_picks()).unwrap();
    let expected = vec![12, 11, 10, 9, 8, 7, 1, 2, 3, 4, 5, 6];
    for round in 2..=DRAFT_PICK_ROUNDS {
        assert_eq!(owners_for_round(&slots, round), expected);
    }
}

#[test]
fn traded_pick_lands_with_its_current_owner() {
    let mut picks = draft_picks();
    let traded_pick =
        picks.iter_mut().find(|pick| pick.round == 1 && pick.original_owner_team_id == 9).unwrap();
    traded_pick.current_owner_team_id = 3;
    let slots = compute_draft_order(&standings(), &lottery_order(), &picks).unwrap();
    assert_eq!(slots[0].current_owner_team_id, 3);
}

#[test]
fn tied_mid_season_ranks_break_by_record_then_team_id() {
    let mut standings = standings();
    for standing in &mut standings {
        match standing.team_id {
            7..=9 => standing.mid_season_rank = 7,
            11..=12 => {
                standing.mid_season_rank = 11;
                standing.regular_season_rank = 11;
            }
            _ => {}
        }
    }
    let slots = compute_draft_order(&standings, &lottery_order(), &draft_picks()).unwrap();
    assert_eq!(owners_for_round(&slots, 2)[..6].to_vec(), vec![11, 12, 10, 9, 8, 7]);
}

#[test]
fn rejects_a_lottery_order_that_does_not_match_the_non_playoff_teams() {
    let short_lottery = vec![9, 12, 7];
    assert_eq!(
        compute_draft_order(&standings(), &short_lottery, &draft_picks()),
        Err(DraftOrderError::LotterySizeMismatch { drawn: 3, missed_playoffs: 6 })
    );
    let playoff_team_in_lottery = vec![1, 12, 7, 11, 8, 10];
    assert!(compute_draft_order(&standings(), &playoff_team_in_lottery, &draft_picks()).is_err());
}

#[test]
fn a_missing_pick_is_reported() {
    let picks: Vec<DraftPick> = draft_picks().into_iter().filter(|pick| pick.id != 307).collect();
    assert_eq!(
        compute_draft_order(&standings(), &lottery_order(), &picks),
        Err(DraftOrderError::MissingPick { round: 3, team_id: 7 })
    );
}

#[test]
fn draw_is_reproducible_for_a_seed() {
    let (first_draw, first_log) = draw_lottery(&standings(), 42).unwrap();
    let (second_draw, second_log) = draw_lottery(&standings(), 42).unwrap();
    let team_order: Vec<i64> = first_draw.iter().map(|pick| pick.team_id).collect();
    assert_eq!(team_order.len(), 6);
    assert_eq!(team_order, second_draw.iter().map(|pick| pick.team_id).collect::<Vec<_>>());
    assert_eq!(first_log, second_log);
    let mut sorted_teams = team_order;
    sorted_teams.sort_unstable();
    assert_eq!(sorted_teams, vec![7, 8, 9, 10, 11, 12]);
    assert_eq!(first_draw.iter().find(|pick| pick.team_id == 12).unwrap().balls_held, 6);
    assert_eq!(
        first_draw.iter().map(|pick| pick.pick_number).collect::<Vec<_>>(),
        vec![1, 2, 3, 4, 5, 6]
    );
}

#[test]
fn the_draw_log_records_the_seed_and_each_draw() {
    let (draw, log) = draw_lottery(&standings(), -7).unwrap();
    let lines: Vec<&str> = log.lines().collect();
    assert_eq!(lines.len(), 7);
    assert_eq!(lines[0], "seed=-7");
    let mut left = 21;
    for (line, pick) in lines[1..].iter().zip(&draw) {
        assert_eq!(
            *line,
            format!(
                "pick {}: team {} ({}/{} balls)",
                pick.pick_number, pick.team_id, pick.balls_held, left
            )
        );
        left -= pick.balls_held;
    }
    assert_eq!(left, 0);
    assert!(log.ends_with("balls)\n"));
}

#[test]
fn ball_weighting_favours_the_worst_team() {
    let standings = standings();
    let mut first_pick_wins = [0_u32; 13];
    for seed in 0..600 {
        let (draw, _) = draw_lottery(&standings, seed).unwrap();
        first_pick_wins[usize::try_from(draw[0].team_id).unwrap()] += 1;
    }
    assert!(first_pick_wins[12] > first_pick_wins[7] * 2);
}

#[test]
fn rejects_standings_without_six_non_playoff_teams() {
    let mut standings = standings();
    standings.retain(|standing| standing.team_id != 12);
    assert_eq!(
        draw_lottery(&standings, 1),
        Err(LotteryError::WrongNonPlayoffCount { needed: 6, found: 5 })
    );
}

fn dropped_contract(player_id: Option<i64>, league_player_id: Option<i64>) -> Contract {
    Contract {
        id: 1,
        year_number: 1,
        kind: ContractKind::Veteran,
        is_ir: false,
        salary: 1,
        end_of_season_year: 2026,
        status: ContractStatus::Replaced,
        league_id: 1,
        league_player_id,
        player_id,
        previous_contract_id: None,
        original_contract_id: None,
        team_id: None,
    }
}

#[test]
fn re_draft_ban_covers_both_player_id_spaces() {
    let ban = ReDraftBan::from_dropped_contracts(&vec![
        dropped_contract(Some(10), None),
        dropped_contract(None, Some(20)),
    ]);
    assert!(ban.is_banned(10, false));
    assert!(ban.is_banned(20, true));
    assert!(!ban.is_banned(10, true));
    assert!(!ban.is_banned(20, false));
    assert!(!ban.is_banned(99, false));
}

#[test]
fn no_drops_bans_nobody() {
    let ban = ReDraftBan::from_dropped_contracts(&Vec::new());
    assert!(!ban.is_banned(1, false));
    assert!(!ban.is_banned(1, true));
}

#[test]
fn rd_salary_follows_the_pick_round() {
    let salaries: Vec<i16> = (1..=5).map(rookie_draft_salary_for_round).collect();
    assert_eq!(salaries, vec![4, 3, 2, 1, 1]);
}

fn selection(id: i64, order: i16, status: RookieDraftSelectionStatus) -> RookieDraftSelection {
    RookieDraftSelection {
        id,
        league_id: 1,
        draft_pick_id: 100 + id,
        order,
        current_owner_team_id: 5,
        status,
        contract_id: None,
        transaction_id: None,
    }
}

#[test]
fn a_pick_must_be_on_the_clock_eligible_unbanned_and_have_roster_room() {
    let on_clock = selection(1, 1, RookieDraftSelectionStatus::Unused);
    let pool = vec![RelatedPlayer::Player(10), RelatedPlayer::LeaguePlayer(20)];
    let ban = ReDraftBan::from_dropped_contracts(&vec![dropped_contract(Some(30), None)]);
    let pick = |chosen: &RookieDraftSelection, current: Option<RookieDraftSelection>, player: i64, league: bool, roster: usize| {
        judge_pick(chosen, current, &pool, &ban, player, league, roster)
    };
    assert_eq!(pick(&on_clock, Some(on_clock), 10, false, 31), Ok(()));
    assert_eq!(pick(&on_clock, None, 10, false, 0), Err(PickRejection::DraftNotStarted));
    let later = selection(2, 2, RookieDraftSelectionStatus::Unused);
    assert_eq!(
        pick(&later, Some(on_clock), 10, false, 0),
        Err(PickRejection::NotOnTheClock { selection_id: 2, on_the_clock_order: 1 })
    );
    let used = selection(1, 1, RookieDraftSelectionStatus::Skipped);
    assert_eq!(
        pick(&used, Some(on_clock), 10, false, 0),
        Err(PickRejection::SelectionAlreadyResolved { selection_id: 1 })
    );
    assert_eq!(pick(&on_clock, Some(on_clock), 20, false, 0), Err(PickRejection::PlayerNotEligible));
    assert_eq!(pick(&on_clock, Some(on_clock), 20, true, 0), Ok(()));
    let banned_pool = vec![RelatedPlayer::Player(30)];
    assert_eq!(
        judge_pick(&on_clock, Some(on_clock), &banned_pool, &ban, 30, false, 0),
        Err(PickRejection::ReDraftBanned)
    );
    assert_eq!(
        pick(&on_clock, Some(on_clock), 10, false, 32),
        Err(PickRejection::NoRosterSpace { roster_used: 32, roster_limit: 32 })
    );
    assert!(pool_contains(&pool, 20, true));
    assert!(!pool_contains(&pool, 20, false));
}

#[test]
fn a_pass_needs_only_the_clock() {
    let on_clock = selection(1, 1, RookieDraftSelectionStatus::Unused);
    assert_eq!(judge_pass(&on_clock, Some(on_clock)), Ok(()));
    let taken = selection(1, 1, RookieDraftSelectionStatus::PlayerSelected);
    assert_eq!(
        judge_pass(&taken, Some(on_clock)),
        Err(PickRejection::SelectionAlreadyResolved { selection_id: 1 })
    );
    assert!(draft_already_started(3));
    assert!(!draft_already_started(0));
}

#[test]
fn a_pick_signs_a_rookie_development_contract_off_the_cap() {
    let contract = rookie_draft_contract(1, 2026, 5, 2, 44, true);
    assert_eq!(contract.kind, ContractKind::RookieDevelopment);
    assert_eq!(contract.salary, 3);
    assert_eq!((contract.league_player_id, contract.player_id), (Some(44), None));
    assert_eq!(contract.team_id, Some(5));
    let data = pick_team_update(&vec![dropped_contract(Some(1), None)], 77, SalarySnapshot { salary: 150, cap: 200 });
    assert_eq!(data.all_contract_ids, vec![1, 77]);
    assert_eq!(data.changes[0].update_type, ContractUpdateType::AddViaRookieDraft);
    assert_eq!((data.previous_salary, data.new_salary, data.new_salary_cap), (150, 150, 200));
}

#[test]
fn a_lottery_naming_a_team_twice_is_refused() {
    assert_eq!(
        compute_draft_order(&standings(), &vec![9, 9, 7, 11, 8, 10], &draft_picks()),
        Err(DraftOrderError::LotteryTeamDrawnTwice { team_id: 9 })
    );
}

#[test]
fn a_drawn_ball_selects_the_team_whose_range_holds_it() {
    let pool = vec![(12, 6), (11, 5), (10, 4)];
    assert_eq!(winning_index(&pool, 0), 0);
    assert_eq!(winning_index(&pool, 5), 0);
    assert_eq!(winning_index(&pool, 6), 1);
    assert_eq!(winning_index(&pool, 10), 1);
    assert_eq!(winning_index(&pool, 11), 2);
    assert_eq!(winning_index(&pool, 14), 2);
}

#[test]
fn a_second_start_finds_the_slate_the_first_wrote() {
    assert!(!draft_already_started(0));
    let slate = compute_draft_order(&standings(), &lottery_order(), &draft_picks()).unwrap();
    assert_eq!(slate.len(), 5 * standings().len());
    assert!(draft_already_started(slate.len()));
}
