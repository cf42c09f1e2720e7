use fbkl_logic::eligibility::classify::{classify_player, PlayerEligibilityFacts};
use fbkl_logic::eligibility::pools::{
    free_agency_bucket, pool_members, split_veteran_pool, FreeAgencyBucket, RosterSnapshot,
};
use fbkl_logic::eligibility::rdi::{has_legalized_rd_ancestor, validate_rdi_eligible, RdiRejection};
use fbkl_logic::model::{
    Contract, ContractKind, ContractStatus,
    EligibilityClassification::{Ineligible, RookieDraftEligible, VeteranAuctionEligible},
    RelatedPlayer,
};

#[test]
fn override_beats_derived_classification() {
    let facts = PlayerEligibilityFacts {
        has_played_nba_game: true,
        nba_first_season_end_of_season_year: Some(2020),
        eligibility_override: Some(Ineligible),
        ..PlayerEligibilityFacts::default()
    };
    assert_eq!(classify_player(facts, 2025), Ineligible);
}

#[test]
fn nba_game_history_means_veteran_auction() {
    let facts = PlayerEligibilityFacts {
        has_played_nba_game: true,
        nba_first_season_end_of_season_year: Some(2020),
        is_league_player: true,
        is_flagged_draft_eligible: true,
        ..PlayerEligibilityFacts::default()
    };
    assert_eq!(classify_player(facts, 2025), VeteranAuctionEligible);
}

#[test]
fn nba_roster_without_a_game_is_still_rookie_draft_eligible() {
    let facts = PlayerEligibilityFacts {
        nba_first_season_end_of_season_year: Some(2020),
        is_flagged_draft_eligible: true,
        ..PlayerEligibilityFacts::default()
    };
    assert_eq!(classify_player(facts, 2025), RookieDraftEligible);
}

#[test]
fn classification_is_relative_to_the_season_asked_about() {
    let facts = PlayerEligibilityFacts {
        has_played_nba_game: true,
        nba_first_season_end_of_season_year: Some(2022),
        is_flagged_draft_eligible: true,
        ..PlayerEligibilityFacts::default()
    };
    assert_eq!(classify_player(facts, 2021), RookieDraftEligible);
    assert!(!facts.was_on_nba_roster_before(2021));
    assert_eq!(classify_player(facts, 2022), RookieDraftEligible);
    assert!(!facts.was_on_nba_roster_before(2022));
    assert_eq!(classify_player(facts, 2023), VeteranAuctionEligible);
    assert!(facts.was_on_nba_roster_before(2023));
    assert!(facts.had_played_nba_game_before(2023));
}

#[test]
fn drafted_league_player_is_rookie_draft_eligible() {
    let facts = PlayerEligibilityFacts { is_league_player: true, ..PlayerEligibilityFacts::default() };
    assert_eq!(classify_player(facts, 2025), RookieDraftEligible);
}

#[test]
fn flagged_draft_eligible_real_player_is_rookie_draft_eligible() {
    let facts =
        PlayerEligibilityFacts { is_flagged_draft_eligible: true, ..PlayerEligibilityFacts::default() };
    assert_eq!(classify_player(facts, 2025), RookieDraftEligible);
}

#[test]
fn never_played_and_unflagged_is_ineligible() {
    assert_eq!(classify_player(PlayerEligibilityFacts::default(), 2025), Ineligible);
}

fn contract(player_id: i64, team_id: Option<i64>, kind: ContractKind) -> Contract {
    Contract {
        id: player_id,
        year_number: 1,
        kind,
        is_ir: false,
        salary: 10,
        end_of_season_year: 2025,
        status: ContractStatus::Active,
        league_id: 1,
        league_player_id: None,
        player_id: Some(player_id),
        previous_contract_id: None,
        original_contract_id: Some(player_id),
        team_id,
    }
}

#[test]
fn snapshot_separates_rostered_from_free_agents() {
    let snapshot = RosterSnapshot::from_contracts(&vec![
        contract(1, Some(7), ContractKind::Veteran),
        contract(2, None, ContractKind::RestrictedFreeAgent),
    ]);
    assert!(snapshot.is_rostered(&RelatedPlayer::Player(1)));
    assert!(!snapshot.is_rostered(&RelatedPlayer::Player(2)));
    assert_eq!(
        snapshot.free_agent_kind(&RelatedPlayer::Player(2)),
        Some(ContractKind::RestrictedFreeAgent)
    );
    assert_eq!(snapshot.free_agent_kind(&RelatedPlayer::Player(1)), None);
}

#[test]
fn free_agency_buckets_follow_contract_kind() {
    assert_eq!(free_agency_bucket(Some(ContractKind::RestrictedFreeAgent)), FreeAgencyBucket::Restricted);
    assert_eq!(
        free_agency_bucket(Some(ContractKind::UnrestrictedFreeAgentOriginalTeam)),
        FreeAgencyBucket::Unrestricted
    );
    assert_eq!(
        free_agency_bucket(Some(ContractKind::UnrestrictedFreeAgentVeteran)),
        FreeAgencyBucket::Unrestricted
    );
    assert_eq!(free_agency_bucket(Some(ContractKind::FreeAgent)), FreeAgencyBucket::FreeAgent);
    assert_eq!(free_agency_bucket(None), FreeAgencyBucket::FreeAgent);
}

#[test]
fn pools_hold_unrostered_players_of_the_allowed_classes() {
    let mut linked = contract(5, Some(3), ContractKind::Rookie);
    linked.league_player_id = Some(50);
    let snapshot = RosterSnapshot::from_contracts(&vec![
        contract(1, Some(7), ContractKind::Veteran),
        contract(2, None, ContractKind::RestrictedFreeAgent),
        contract(3, None, ContractKind::UnrestrictedFreeAgentVeteran),
        linked,
    ]);
    let veteran = PlayerEligibilityFacts {
        has_played_nba_game: true,
        nba_first_season_end_of_season_year: Some(2015),
        ..PlayerEligibilityFacts::default()
    };
    let prospect = PlayerEligibilityFacts { is_league_player: true, ..PlayerEligibilityFacts::default() };
    let candidates = vec![
        (RelatedPlayer::Player(1), veteran),
        (RelatedPlayer::Player(2), veteran),
        (RelatedPlayer::Player(3), veteran),
        (RelatedPlayer::Player(4), veteran),
        (RelatedPlayer::LeaguePlayer(50), prospect),
        (RelatedPlayer::LeaguePlayer(60), prospect),
    ];
    let veterans = pool_members(&candidates, 2025, &vec![VeteranAuctionEligible], &snapshot);
    assert_eq!(
        veterans,
        vec![RelatedPlayer::Player(2), RelatedPlayer::Player(3), RelatedPlayer::Player(4)]
    );
    let rookies = pool_members(&candidates, 2025, &vec![RookieDraftEligible], &snapshot);
    assert_eq!(rookies, vec![RelatedPlayer::LeaguePlayer(60)]);
    let split = split_veteran_pool(&veterans, &snapshot);
    assert_eq!(split.restricted_free_agents, vec![RelatedPlayer::Player(2)]);
    assert_eq!(split.unrestricted_free_agents, vec![RelatedPlayer::Player(3)]);
    assert_eq!(split.free_agents, vec![RelatedPlayer::Player(4)]);
}

fn chain_row(id: i64, kind: ContractKind, year_number: i16, end_of_season_year: i16) -> Contract {
    Contract {
        id,
        year_number,
        kind,
        is_ir: false,
        salary: 10,
        end_of_season_year,
        status: ContractStatus::Active,
        league_id: 1,
        league_player_id: None,
        player_id: Some(1),
        previous_contract_id: None,
        original_contract_id: Some(1),
        team_id: Some(7),
    }
}

#[test]
fn fresh_rd_year_one_chain_is_allowed() {
    let chain = vec![chain_row(1, ContractKind::RookieDevelopment, 1, 2025)];
    assert!(!has_legalized_rd_ancestor(&chain, 2025));
}

#[test]
fn rd_ancestor_from_earlier_season_is_rejected() {
    let chain = vec![
        chain_row(1, ContractKind::RookieDevelopment, 1, 2024),
        chain_row(2, ContractKind::RookieDevelopment, 1, 2025),
    ];
    assert!(has_legalized_rd_ancestor(&chain, 2025));
}

#[test]
fn rd_past_year_one_is_rejected() {
    let chain = vec![chain_row(1, ContractKind::RookieDevelopment, 2, 2025)];
    assert!(has_legalized_rd_ancestor(&chain, 2025));
}

#[test]
fn non_rd_ancestors_are_ignored() {
    let chain = vec![
        chain_row(1, ContractKind::Rookie, 2, 2024),
        chain_row(2, ContractKind::RookieDevelopment, 1, 2025),
    ];
    assert!(!has_legalized_rd_ancestor(&chain, 2025));
}

#[test]
fn rdi_moves_are_checked_in_rule_order() {
    let contract = chain_row(2, ContractKind::RookieDevelopment, 1, 2025);
    let prospect = PlayerEligibilityFacts { is_flagged_draft_eligible: true, ..PlayerEligibilityFacts::default() };
    assert_eq!(validate_rdi_eligible(&contract, prospect, &vec![contract]), Ok(()));
    assert_eq!(
        validate_rdi_eligible(&contract, PlayerEligibilityFacts::default(), &vec![contract]),
        Err(RdiRejection::NotRookieDraftEligible { contract_id: 2 })
    );
    let rostered = PlayerEligibilityFacts { nba_first_season_end_of_season_year: Some(2024), ..prospect };
    assert_eq!(
        validate_rdi_eligible(&contract, rostered, &vec![contract]),
        Err(RdiRejection::OnNbaRosterBefore { contract_id: 2 })
    );
    let chain = vec![chain_row(1, ContractKind::RookieDevelopment, 1, 2024), contract];
    assert_eq!(
        validate_rdi_eligible(&contract, prospect, &chain),
        Err(RdiRejection::AlreadyLegalized { contract_id: 2 })
    );
}
