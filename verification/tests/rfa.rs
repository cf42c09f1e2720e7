use std::collections::HashSet;

use fbkl_logic::annual_advancement::{advanced_team_updates, plan_advancement};
use fbkl_logic::deadline_processing::keeper::seed_rfa_resolutions;
use fbkl_logic::deadline_processing::rfa_resolution::{
    eligible_compensation_picks, find_eligible_compensation_pick, judge_change_compensation_pick,
    judge_forfeit, judge_match_or_decline, judge_pick_selection, judge_raise, judge_raisable,
    judge_unbid, lowest_ranked_eligible_pick, match_deadline_from, match_outcome,
    opens_raise_window, pick_selection_deadline_from, raise_deadline, settles_parked_auction,
    unbid_outcome, RfaMatchDecision, RfaRejection, RfaResolution, RfaResolutionStatus,
    UnbidRfaDecision,
};
use fbkl_logic::draft_picks::generate_future_draft_picks;
use fbkl_logic::keeper_deadline::validate_team_keepers;
use fbkl_logic::model::{AuctionStatus, Contract, ContractKind, ContractStatus, ContractUpdateType, DraftPick};
use fbkl_logic::team_ownership::{owned_team, TeamUserRole};
use fbkl_logic::time::Timestamp;

fn resolution(status: RfaResolutionStatus) -> RfaResolution {
    RfaResolution {
        id: 9,
        league_id: 1,
        end_of_season_year: 2026,
        rfa_contract_id: 40,
        original_owner_team_id: 3,
        status,
        auction_id: Some(70),
        winning_team_id: Some(8),
        final_bid: Some(20),
        raised_bid: None,
    }
}

fn pick(id: i64, round: i16, owner: i64) -> DraftPick {
    DraftPick {
        id,
        round,
        end_of_season_year: 2026,
        league_id: 1,
        current_owner_team_id: owner,
        original_owner_team_id: owner,
    }
}

#[test]
fn only_the_original_owner_matches_an_open_window() {
    let open = resolution(RfaResolutionStatus::AwaitingMatch);
    assert_eq!(judge_match_or_decline(&open, 3), Ok(20));
    assert_eq!(judge_match_or_decline(&open, 8), Err(RfaRejection::NotOriginalOwner));
    let raised = RfaResolution { raised_bid: Some(25), ..open };
    assert_eq!(judge_match_or_decline(&raised, 3), Ok(25));
    let unbid = RfaResolution { final_bid: None, ..open };
    assert_eq!(judge_match_or_decline(&unbid, 3), Err(RfaRejection::NoBid));
    let early = resolution(RfaResolutionStatus::AwaitingRaise);
    assert_eq!(
        judge_match_or_decline(&early, 3),
        Err(RfaRejection::WrongWindow { status: RfaResolutionStatus::AwaitingRaise })
    );
    assert_eq!(
        match_outcome(RfaMatchDecision::Match, &open),
        (RfaResolutionStatus::Resolved, Some(AuctionStatus::Completed))
    );
    assert_eq!(match_outcome(RfaMatchDecision::Decline, &open), (RfaResolutionStatus::Declined, None));
}

#[test]
fn an_unbid_rfa_is_settled_by_its_original_owner() {
    let unbid = RfaResolution { auction_id: None, ..resolution(RfaResolutionStatus::AwaitingAuction) };
    assert_eq!(judge_unbid(&unbid, 3), Ok(()));
    assert_eq!(judge_unbid(&unbid, 8), Err(RfaRejection::NotOriginalOwner));
    let bid_on = resolution(RfaResolutionStatus::AwaitingAuction);
    assert_eq!(
        judge_unbid(&bid_on, 3),
        Err(RfaRejection::WrongWindow { status: RfaResolutionStatus::AwaitingAuction })
    );
    assert_eq!(
        unbid_outcome(UnbidRfaDecision::Resign),
        (RfaResolutionStatus::NoBidResigned, AuctionStatus::Completed)
    );
    assert_eq!(
        unbid_outcome(UnbidRfaDecision::ReleaseToAuction),
        (RfaResolutionStatus::NoBidToAuction, AuctionStatus::Expired)
    );
    assert!(settles_parked_auction(Some(AuctionStatus::Closed)));
    assert!(!settles_parked_auction(Some(AuctionStatus::Open)));
    assert!(!settles_parked_auction(None));
}

#[test]
fn a_decline_forfeits_the_pick_the_winner_still_holds() {
    let open = resolution(RfaResolutionStatus::AwaitingMatch);
    assert_eq!(judge_forfeit(&open, &pick(5, 2, 8)), Ok((70, 8)));
    assert_eq!(
        judge_forfeit(&open, &pick(5, 2, 4)),
        Err(RfaRejection::ForfeitedPickMoved { draft_pick_id: 5 })
    );
    let no_winner = RfaResolution { winning_team_id: None, ..open };
    assert_eq!(judge_forfeit(&no_winner, &pick(5, 2, 8)), Err(RfaRejection::NoWinner));
}

#[test]
fn a_raise_must_beat_the_winning_bid_and_be_payable() {
    let window = resolution(RfaResolutionStatus::AwaitingRaise);
    assert_eq!(judge_raisable(&window, 8), Ok(()));
    assert_eq!(judge_raisable(&window, 3), Err(RfaRejection::NotWinningBidder));
    assert_eq!(judge_raise(&window, 8, 21, false), Ok(()));
    assert_eq!(
        judge_raise(&window, 8, 20, false),
        Err(RfaRejection::RaiseTooLow { final_bid: 20, new_bid: 20 })
    );
    assert_eq!(judge_raise(&window, 8, 30, true), Err(RfaRejection::UnpayableRaise));
    assert!(opens_raise_window(true, Some(resolution(RfaResolutionStatus::AwaitingAuction))));
    assert!(!opens_raise_window(false, Some(resolution(RfaResolutionStatus::AwaitingAuction))));
    assert!(!opens_raise_window(true, Some(window)));
    assert!(!opens_raise_window(true, None));
}

#[test]
fn handshake_windows_have_their_lengths() {
    let closed = Timestamp { seconds: 1_000_000, nanos: 0, offset_seconds: -21_600 };
    assert_eq!(raise_deadline(closed).unwrap().seconds, 1_000_000 + 48 * 3_600);
    assert_eq!(pick_selection_deadline_from(closed).unwrap().seconds, 1_000_000 + 24 * 3_600);
    assert_eq!(match_deadline_from(closed).unwrap().seconds, 1_000_000 + 48 * 3_600);
    assert_eq!(match_deadline_from(closed).unwrap().offset_seconds, -21_600);
    let last = Timestamp { seconds: 8_210_266_876_799, nanos: 0, offset_seconds: 0 };
    assert_eq!(match_deadline_from(last), Err(RfaRejection::DeadlineOverflow));
}

#[test]
fn eligible_picks_are_the_bidders_unreserved_picks_no_later_than_the_debt() {
    let season = vec![pick(1, 1, 8), pick(2, 3, 8), pick(3, 2, 8), pick(4, 1, 5), pick(5, 2, 8)];
    let eligible = eligible_compensation_picks(&season, 8, 2, &vec![5]);
    assert_eq!(eligible.iter().map(|p| p.id).collect::<Vec<_>>(), vec![1, 3]);
    assert_eq!(find_eligible_compensation_pick(&eligible, 3), Some(pick(3, 2, 8)));
    assert_eq!(find_eligible_compensation_pick(&eligible, 2), None);
}

#[test]
fn the_cheapest_pick_is_the_latest_in_draft_order() {
    let eligible = vec![pick(1, 1, 8), pick(2, 2, 8), pick(3, 3, 8)];
    assert_eq!(lowest_ranked_eligible_pick(&eligible, &Some(vec![2, 9, 1, 3])), Some(pick(3, 3, 8)));
    assert_eq!(lowest_ranked_eligible_pick(&eligible, &Some(vec![3, 9, 1])), Some(pick(1, 1, 8)));
    // Without an order the last listed (highest round) pick goes.
    assert_eq!(lowest_ranked_eligible_pick(&eligible, &None), Some(pick(3, 3, 8)));
    assert_eq!(lowest_ranked_eligible_pick(&Vec::new(), &None), None);
}

#[test]
fn naming_and_changing_the_pick_follow_the_windows() {
    let eligible = vec![pick(1, 1, 8), pick(3, 2, 8)];
    let selecting = resolution(RfaResolutionStatus::AwaitingPickSelection);
    assert_eq!(judge_pick_selection(&selecting, 8, &eligible, 3), Ok(pick(3, 2, 8)));
    assert_eq!(
        judge_pick_selection(&selecting, 8, &eligible, 4),
        Err(RfaRejection::PickNotEligible { draft_pick_id: 4 })
    );
    assert_eq!(judge_pick_selection(&selecting, 3, &eligible, 3), Err(RfaRejection::NotWinningBidder));
    let auction = resolution(RfaResolutionStatus::AwaitingAuction);
    assert_eq!(judge_change_compensation_pick(&auction, Some((8, 2)), 8, &eligible, 1), Ok(pick(1, 1, 8)));
    assert_eq!(
        judge_change_compensation_pick(&auction, None, 8, &eligible, 1),
        Err(RfaRejection::NoCompensationOwed)
    );
    assert_eq!(
        judge_change_compensation_pick(&selecting, Some((8, 2)), 8, &eligible, 1),
        Err(RfaRejection::WrongWindow { status: RfaResolutionStatus::AwaitingPickSelection })
    );
}

#[test]
fn a_settled_resolution_refuses_every_step() {
    for status in [
        RfaResolutionStatus::Resolved,
        RfaResolutionStatus::Declined,
        RfaResolutionStatus::NoBidResigned,
        RfaResolutionStatus::NoBidToAuction,
    ] {
        let settled = resolution(status);
        assert!(judge_match_or_decline(&settled, 3).is_err());
        assert!(judge_unbid(&settled, 3).is_err());
        assert!(judge_raise(&settled, 8, 50, false).is_err());
        assert!(judge_pick_selection(&settled, 8, &vec![pick(1, 1, 8)], 1).is_err());
        assert!(judge_change_compensation_pick(&settled, Some((8, 1)), 8, &vec![pick(1, 1, 8)], 1).is_err());
    }
}

fn contract(id: i64, kind: ContractKind, team_id: Option<i64>) -> Contract {
    Contract {
        id,
        year_number: 3,
        kind,
        is_ir: false,
        salary: 9,
        end_of_season_year: 2026,
        status: ContractStatus::Active,
        league_id: 1,
        league_player_id: None,
        player_id: Some(id),
        previous_contract_id: None,
        original_contract_id: Some(id),
        team_id,
    }
}

#[test]
fn the_keeper_deadline_seeds_one_row_per_owned_rfa_once() {
    let contracts = vec![
        contract(1, ContractKind::RestrictedFreeAgent, Some(3)),
        contract(2, ContractKind::RestrictedFreeAgent, None),
        contract(3, ContractKind::Veteran, Some(3)),
        contract(4, ContractKind::RestrictedFreeAgent, Some(6)),
    ];
    let rows = seed_rfa_resolutions(1, 2026, &contracts, &HashSet::from([4]));
    assert_eq!(rows.len(), 1);
    assert_eq!((rows[0].rfa_contract_id, rows[0].original_owner_team_id), (1, 3));
    assert_eq!(rows[0].status, RfaResolutionStatus::AwaitingAuction);
    let again = seed_rfa_resolutions(1, 2026, &contracts, &HashSet::from([4, 1]));
    assert!(again.is_empty());
}

#[test]
fn advancement_expires_free_agents_and_reports_each_team_once() {
    let contracts = vec![
        contract(1, ContractKind::Veteran, Some(3)),
        contract(2, ContractKind::FreeAgent, None),
        contract(3, ContractKind::Rookie, Some(3)),
        contract(4, ContractKind::Veteran, Some(5)),
    ];
    let plan = plan_advancement(&contracts);
    assert_eq!(plan.expire.iter().map(|c| c.id).collect::<Vec<_>>(), vec![2]);
    assert_eq!(plan.advance.iter().map(|c| c.id).collect::<Vec<_>>(), vec![1, 3, 4]);
    let mut updates = advanced_team_updates(&plan.advance);
    updates.sort_by_key(|(team_id, _)| *team_id);
    assert_eq!(updates.len(), 2);
    assert_eq!(updates[0].0, 3);
    assert_eq!(updates[0].1.all_contract_ids, vec![1, 3]);
    assert!(updates[0].1.changes.iter().all(|c| c.update_type == ContractUpdateType::ContractAdvanced));
    assert_eq!(updates[1].1.all_contract_ids, vec![4]);
}

#[test]
fn future_picks_give_each_team_five_rounds_three_seasons_out() {
    let picks = generate_future_draft_picks(1, 2026, &vec![10, 20]);
    assert_eq!(picks.len(), 10);
    assert!(picks.iter().all(|p| p.end_of_season_year == 2029));
    assert_eq!(picks.iter().filter(|p| p.current_owner_team_id == 20).map(|p| p.round).collect::<Vec<_>>(), vec![1, 2, 3, 4, 5]);
    assert!(picks.iter().all(|p| p.current_owner_team_id == p.original_owner_team_id));
}

#[test]
fn a_users_team_is_the_first_owned_one() {
    let roles = vec![
        TeamUserRole { is_team_owner: false, team_id: Some(1) },
        TeamUserRole { is_team_owner: true, team_id: None },
        TeamUserRole { is_team_owner: true, team_id: Some(4) },
    ];
    assert_eq!(owned_team(&roles), Some(4));
    assert_eq!(owned_team(&Vec::new()), None);
}

#[test]
fn the_season_keeper_list_keeps_only_scale_and_veteran_contracts() {
    let list = vec![contract(1, ContractKind::Veteran, Some(1)), contract(2, ContractKind::Rookie, Some(1))];
    assert!(validate_team_keepers(&list).is_ok());
    let with_rd = vec![contract(3, ContractKind::RookieDevelopment, Some(1))];
    assert!(validate_team_keepers(&with_rd).is_err());
}
