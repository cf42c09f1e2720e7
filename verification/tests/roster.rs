use std::collections::{HashMap, HashSet};

use fbkl_logic::deadline_processing::keeper::{
    apply_keeper_update, existing_keeper_update_index, validate_team_keepers,
    KeeperProcessingError, KeeperRejection,
};
use fbkl_logic::deadline_processing::roster_lock::{
    lockable_team_update_ids, validate_league_rosters, validate_roster_contracts, RosterLockError,
    RosterRule, TeamRosterViolation,
};
use fbkl_logic::model::{
    Contract, ContractKind, ContractStatus, ContractUpdate, ContractUpdateType, DeadlineKind,
    TeamUpdate, TeamUpdateStatus,
};
use fbkl_logic::roster::moves::{
    is_added_this_week, judge_same_week_drop, validate_activatable_from_ir,
    validate_contract_is_activatable, validate_contract_kind, validate_droppable,
    validate_latest_in_chain, validate_movable_to_ir,
};
use fbkl_logic::roster::rejection::RosterMoveRejection;
use fbkl_logic::roster::salary::{
    calculate_team_contract_salary, drop_penalty, team_cap, total_counted_salary,
};
use fbkl_logic::roster::transaction::{
    chain_roots_of_rows, find_same_transaction_add_then_remove, governing_deadline_kind,
    needs_chain_roots, validate_transaction,
};
use fbkl_logic::roster::transaction_order::{
    opening_roster, roster_change, set_roster_slot, validate_transaction_order,
    TransactionOrderError,
};

fn update(contract_id: i64, update_type: ContractUpdateType) -> ContractUpdate {
    ContractUpdate { contract_id, update_type }
}

fn contract_row(id: i64, kind: ContractKind, salary: i16, team_id: Option<i64>) -> Contract {
    Contract {
        id,
        year_number: 1,
        kind,
        is_ir: false,
        salary,
        end_of_season_year: 2026,
        status: ContractStatus::Active,
        league_id: 1,
        league_player_id: None,
        player_id: Some(id),
        previous_contract_id: None,
        original_contract_id: Some(id),
        team_id,
    }
}

fn no_roots() -> HashMap<i64, i64> {
    HashMap::new()
}

#[test]
fn an_add_dropped_in_the_same_transaction_is_refused() {
    let updates = vec![update(1, ContractUpdateType::AddViaAuction), update(1, ContractUpdateType::Drop)];
    let offending_update =
        find_same_transaction_add_then_remove(&updates, &no_roots(), DeadlineKind::InSeasonRosterLock)
            .unwrap();
    assert_eq!(offending_update.contract_id, 1);
    assert_eq!(offending_update.update_type, ContractUpdateType::Drop);
}

#[test]
fn an_add_sent_to_ir_in_the_same_transaction_is_refused() {
    let updates = vec![update(2, ContractUpdateType::AddViaTrade), update(2, ContractUpdateType::ToIR)];
    let offending_update =
        find_same_transaction_add_then_remove(&updates, &no_roots(), DeadlineKind::InSeasonRosterLock)
            .unwrap();
    assert_eq!(offending_update.update_type, ContractUpdateType::ToIR);
}

#[test]
fn an_add_sent_to_ir_in_the_same_transaction_is_allowed_at_the_preseason_lock() {
    let updates = vec![update(2, ContractUpdateType::AddViaTrade), update(2, ContractUpdateType::ToIR)];
    assert!(find_same_transaction_add_then_remove(
        &updates,
        &no_roots(),
        DeadlineKind::PreseasonFinalRosterLock
    )
    .is_none());
}

#[test]
fn an_add_dropped_in_the_same_transaction_is_refused_at_the_preseason_lock() {
    let updates = vec![update(1, ContractUpdateType::AddViaAuction), update(1, ContractUpdateType::Drop)];
    assert!(find_same_transaction_add_then_remove(
        &updates,
        &no_roots(),
        DeadlineKind::PreseasonFinalRosterLock
    )
    .is_some());
}

#[test]
fn a_rookie_draft_add_dropped_in_the_same_transaction_is_refused() {
    let updates =
        vec![update(3, ContractUpdateType::AddViaRookieDraft), update(3, ContractUpdateType::Drop)];
    assert!(find_same_transaction_add_then_remove(&updates, &no_roots(), DeadlineKind::InSeasonRosterLock)
        .is_some());
}

#[test]
fn an_add_with_no_removal_is_allowed() {
    let updates =
        vec![update(4, ContractUpdateType::AddViaAuction), update(5, ContractUpdateType::AddViaAuction)];
    assert!(find_same_transaction_add_then_remove(&updates, &no_roots(), DeadlineKind::InSeasonRosterLock)
        .is_none());
}

#[test]
fn an_add_moved_between_rd_and_rdi_in_the_same_transaction_is_allowed() {
    for update_type in [ContractUpdateType::ToRdi, ContractUpdateType::FromRdi] {
        let updates = vec![update(3, ContractUpdateType::AddViaTrade), update(3, update_type)];
        assert!(
            find_same_transaction_add_then_remove(&updates, &no_roots(), DeadlineKind::InSeasonRosterLock)
                .is_none(),
            "{update_type:?} should not count as a removal"
        );
    }
}

#[test]
fn a_drop_with_no_matching_add_is_allowed() {
    let updates = vec![update(6, ContractUpdateType::Drop)];
    assert!(find_same_transaction_add_then_remove(&updates, &no_roots(), DeadlineKind::InSeasonRosterLock)
        .is_none());
}

#[test]
fn dropping_a_different_contract_than_the_one_added_is_allowed() {
    let updates = vec![update(7, ContractUpdateType::AddViaTrade), update(8, ContractUpdateType::Drop)];
    assert!(find_same_transaction_add_then_remove(&updates, &no_roots(), DeadlineKind::InSeasonRosterLock)
        .is_none());
}

#[test]
fn a_removal_naming_a_replacement_row_of_the_added_contract_is_refused() {
    let updates = vec![update(90, ContractUpdateType::AddViaTrade), update(91, ContractUpdateType::Drop)];
    let chain_roots = HashMap::from([(90, 41), (91, 41)]);
    let offending_update =
        find_same_transaction_add_then_remove(&updates, &chain_roots, DeadlineKind::InSeasonRosterLock)
            .unwrap();
    assert_eq!(offending_update.contract_id, 91);
}

#[test]
fn a_removal_from_another_chain_is_allowed_when_roots_are_resolved() {
    let updates = vec![update(90, ContractUpdateType::AddViaTrade), update(91, ContractUpdateType::Drop)];
    let chain_roots = HashMap::from([(90, 41), (91, 42)]);
    assert!(find_same_transaction_add_then_remove(&updates, &chain_roots, DeadlineKind::InSeasonRosterLock)
        .is_none());
}

#[test]
fn chain_roots_come_from_the_rows_and_are_needed_only_for_an_add_and_a_removal() {
    let mut replacement = contract_row(91, ContractKind::Veteran, 5, None);
    replacement.original_contract_id = Some(41);
    let mut fresh = contract_row(90, ContractKind::Veteran, 5, Some(3));
    fresh.original_contract_id = None;
    let roots = chain_roots_of_rows(&vec![fresh, replacement]);
    assert_eq!(roots.get(&90), Some(&90));
    assert_eq!(roots.get(&91), Some(&41));
    let pair = vec![update(90, ContractUpdateType::AddViaTrade), update(91, ContractUpdateType::Drop)];
    assert!(needs_chain_roots(&pair, DeadlineKind::InSeasonRosterLock));
    assert!(!needs_chain_roots(&pair[..1].to_vec(), DeadlineKind::InSeasonRosterLock));
}

#[test]
fn a_transaction_is_judged_by_t2_then_by_its_violations() {
    let pair = vec![update(1, ContractUpdateType::AddViaAuction), update(1, ContractUpdateType::Drop)];
    assert_eq!(
        validate_transaction(5, &pair, &no_roots(), DeadlineKind::InSeasonRosterLock, Vec::new()),
        Err(RosterMoveRejection::SameTransactionAddThenRemove {
            contract_id: 1,
            update_type: ContractUpdateType::Drop
        })
    );
    let violation = TeamRosterViolation { team_id: 5, rule: RosterRule::SalaryCap };
    assert_eq!(
        validate_transaction(5, &pair[..1].to_vec(), &no_roots(), DeadlineKind::InSeasonRosterLock, vec![violation]),
        Err(RosterMoveRejection::TransactionLeavesRosterIllegal { team_id: 5, violations: vec![violation] })
    );
    assert_eq!(
        validate_transaction(5, &pair[..1].to_vec(), &no_roots(), DeadlineKind::InSeasonRosterLock, Vec::new()),
        Ok(())
    );
}

#[test]
fn preseason_moves_are_judged_by_the_window_they_are_made_in() {
    assert_eq!(
        governing_deadline_kind(DeadlineKind::PreseasonFinalRosterLock, true),
        DeadlineKind::PreseasonStart
    );
    assert_eq!(
        governing_deadline_kind(DeadlineKind::PreseasonFinalRosterLock, false),
        DeadlineKind::PreseasonRookieDraftStart
    );
    assert_eq!(
        governing_deadline_kind(DeadlineKind::InSeasonRosterLock, true),
        DeadlineKind::InSeasonRosterLock
    );
}

const TEAM_ID: i64 = 5;

fn row(id: i64, previous_contract_id: Option<i64>, team_id: Option<i64>) -> Contract {
    Contract {
        id,
        year_number: 1,
        kind: ContractKind::Veteran,
        is_ir: false,
        salary: 1,
        end_of_season_year: 2026,
        status: ContractStatus::Active,
        league_id: 1,
        league_player_id: None,
        player_id: Some(1),
        previous_contract_id,
        original_contract_id: Some(previous_contract_id.unwrap_or(id)),
        team_id,
    }
}

fn by_id(rows: Vec<Contract>) -> HashMap<i64, Contract> {
    rows.into_iter().map(|contract| (contract.id, contract)).collect()
}

#[test]
fn a_drop_takes_the_row_the_team_held_off_the_roster() {
    let contracts = by_id(vec![row(100, None, Some(TEAM_ID)), row(101, Some(100), None)]);
    let change = roster_change(&update(101, ContractUpdateType::Drop), TEAM_ID, &contracts).unwrap();
    assert_eq!(change.root, 100);
    assert_eq!(change.before.map(|c| c.id), Some(100));
    assert!(change.after.is_none());
}

#[test]
fn a_pickup_puts_a_row_on_a_chain_the_team_did_not_hold() {
    let contracts = by_id(vec![row(100, None, Some(TEAM_ID))]);
    let change =
        roster_change(&update(100, ContractUpdateType::AddViaAuction), TEAM_ID, &contracts).unwrap();
    assert_eq!(change.root, 100);
    assert!(change.before.is_none());
    assert_eq!(change.after.map(|c| c.id), Some(100));
}

#[test]
fn a_move_to_ir_swaps_one_row_of_the_chain_for_the_next() {
    let contracts = by_id(vec![row(100, None, Some(TEAM_ID)), row(101, Some(100), Some(TEAM_ID))]);
    let change = roster_change(&update(101, ContractUpdateType::ToIR), TEAM_ID, &contracts).unwrap();
    assert_eq!(change.before.map(|c| c.id), Some(100));
    assert_eq!(change.after.map(|c| c.id), Some(101));
}

#[test]
fn a_trade_away_names_the_row_the_team_held_not_the_one_it_wrote() {
    let contracts = by_id(vec![row(100, None, Some(TEAM_ID))]);
    let change =
        roster_change(&update(100, ContractUpdateType::TradedAway), TEAM_ID, &contracts).unwrap();
    assert_eq!(change.before.map(|c| c.id), Some(100));
    assert!(change.after.is_none());
}

#[test]
fn an_add_via_trade_ignores_the_row_the_other_team_held() {
    let contracts = by_id(vec![row(100, None, Some(9)), row(101, Some(100), Some(TEAM_ID))]);
    let change =
        roster_change(&update(101, ContractUpdateType::AddViaTrade), TEAM_ID, &contracts).unwrap();
    assert!(change.before.is_none());
    assert_eq!(change.after.map(|c| c.id), Some(101));
}

fn veteran(id: i64, team_id: i64) -> Contract {
    let mut contract = row(id, None, Some(team_id));
    contract.player_id = Some(id);
    contract
}

#[test]
fn a_reordered_week_is_judged_after_every_transaction() {
    // The team ends the week at the 22-contract limit; it dropped 200 and then picked up 300.
    let mut live: Vec<Contract> = (1..=21).map(|id| veteran(id, TEAM_ID)).collect();
    live.push(veteran(300, TEAM_ID));
    let dropped = row(201, Some(200), None);
    let contracts = by_id(vec![veteran(200, TEAM_ID), dropped, veteran(300, TEAM_ID)]);
    let week = vec![update(201, ContractUpdateType::Drop), update(300, ContractUpdateType::AddViaAuction)];

    let opening = opening_roster(TEAM_ID, &live, &week, &contracts);
    assert_eq!(opening.len(), 22);
    assert!(opening.iter().any(|(root, _)| *root == 200));
    assert!(!opening.iter().any(|(root, _)| *root == 300));

    let drop_first = vec![vec![week[0]], vec![week[1]]];
    assert_eq!(
        validate_transaction_order(TEAM_ID, &live, &week, &drop_first, &contracts, DeadlineKind::InSeasonRosterLock, None, &Vec::new()),
        Ok(())
    );
    // Picking up first holds 23 contracts once the first transaction applies.
    let pickup_first = vec![vec![week[1]], vec![week[0]]];
    match validate_transaction_order(TEAM_ID, &live, &week, &pickup_first, &contracts, DeadlineKind::InSeasonRosterLock, None, &Vec::new()) {
        Err(TransactionOrderError::Rejected(RosterMoveRejection::TransactionLeavesRosterIllegal { team_id, violations })) => {
            assert_eq!(team_id, TEAM_ID);
            assert_eq!(violations, vec![TeamRosterViolation { team_id: TEAM_ID, rule: RosterRule::VeteranOrRookie }]);
        }
        other => panic!("expected a rejection, got {other:?}"),
    }
    assert_eq!(
        validate_transaction_order(TEAM_ID, &live, &week, &drop_first, &contracts, DeadlineKind::PreseasonKeeper, None, &Vec::new()),
        Err(TransactionOrderError::NotJudged(RosterLockError::KeeperDeadline))
    );
}

fn replay(
    opening: &Vec<(i64, Contract)>,
    order: &Vec<Vec<ContractUpdate>>,
    contracts: &HashMap<i64, Contract>,
) -> HashMap<i64, i64> {
    let mut roster = opening.clone();
    for transaction in order {
        for week_update in transaction {
            if let Some(change) = roster_change(week_update, TEAM_ID, contracts) {
                set_roster_slot(&mut roster, change.root, change.after);
            }
        }
    }
    roster.iter().map(|(root, contract)| (*root, contract.id)).collect()
}

#[test]
fn reordering_a_week_ends_with_the_same_roster() {
    let mut live: Vec<Contract> = (1..=20).map(|id| veteran(id, TEAM_ID)).collect();
    live.push(veteran(300, TEAM_ID));
    let dropped = row(201, Some(200), None);
    let contracts = by_id(vec![veteran(200, TEAM_ID), dropped, veteran(300, TEAM_ID)]);
    let week = vec![update(201, ContractUpdateType::Drop), update(300, ContractUpdateType::AddViaAuction)];
    let opening = opening_roster(TEAM_ID, &live, &week, &contracts);

    let drop_first = replay(&opening, &vec![vec![week[0]], vec![week[1]]], &contracts);
    let pickup_first = replay(&opening, &vec![vec![week[1]], vec![week[0]]], &contracts);
    assert_eq!(drop_first, pickup_first);
    assert_eq!(drop_first.len(), 21);
    assert_eq!(drop_first.get(&300), Some(&300));
    assert!(!drop_first.contains_key(&200));
}

#[test]
fn one_illegal_team_does_not_block_its_siblings() {
    let team_updates = vec![
        TeamUpdate { id: 1, team_id: 10, status: TeamUpdateStatus::Pending },
        TeamUpdate { id: 2, team_id: 11, status: TeamUpdateStatus::Pending },
        TeamUpdate { id: 3, team_id: 10, status: TeamUpdateStatus::Pending },
    ];
    let illegal_team_ids = HashSet::from([10]);
    assert_eq!(lockable_team_update_ids(&team_updates, &illegal_team_ids), vec![2]);
}

#[test]
fn a_legal_league_locks_everything() {
    let team_updates = vec![
        TeamUpdate { id: 1, team_id: 10, status: TeamUpdateStatus::Pending },
        TeamUpdate { id: 2, team_id: 11, status: TeamUpdateStatus::Pending },
    ];
    assert_eq!(lockable_team_update_ids(&team_updates, &HashSet::new()), vec![1, 2]);
}

#[test]
fn roster_limits_and_the_cap_are_checked_in_order() {
    let mut contracts: Vec<Contract> =
        (1..=7).map(|id| contract_row(id, ContractKind::RookieDevelopment, 1, Some(4))).collect();
    let mut on_ir = contract_row(20, ContractKind::Veteran, 10, Some(4));
    on_ir.is_ir = true;
    let mut also_on_ir = contract_row(21, ContractKind::Veteran, 10, Some(4));
    also_on_ir.is_ir = true;
    contracts.push(on_ir);
    contracts.push(also_on_ir);
    let found = validate_roster_contracts(4, &contracts, DeadlineKind::InSeasonRosterLock, 300, 210).unwrap();
    let rules: Vec<RosterRule> = found.iter().map(|v| v.rule).collect();
    assert_eq!(rules, vec![RosterRule::IrSlots, RosterRule::RookieDevelopment, RosterRule::SalaryCap]);
    // The preseason limit is 32 contracts of any counted kind.
    assert!(validate_roster_contracts(4, &contracts, DeadlineKind::PreseasonRookieDraftStart, 0, 210)
        .unwrap()
        .iter()
        .all(|v| v.rule == RosterRule::IrSlots));
    assert_eq!(
        validate_roster_contracts(4, &contracts, DeadlineKind::PreseasonKeeper, 0, 0),
        Err(RosterLockError::KeeperDeadline)
    );
    assert_eq!(
        validate_roster_contracts(4, &contracts, DeadlineKind::PreseasonStart, 0, 0),
        Err(RosterLockError::PreseasonStart)
    );
}

#[test]
fn a_league_sweep_reports_each_teams_broken_rules() {
    let mut contracts: Vec<Contract> =
        (1..=7).map(|id| contract_row(id, ContractKind::RookieDevelopment, 1, Some(4))).collect();
    contracts.push(contract_row(50, ContractKind::Veteran, 30, Some(8)));
    contracts.push(contract_row(60, ContractKind::FreeAgent, 1, None));
    let caps = HashMap::from([(4, 200), (8, 20)]);
    let mut found = validate_league_rosters(&contracts, DeadlineKind::InSeasonRosterLock, &caps).unwrap();
    found.sort_by_key(|violation| violation.team_id);
    assert_eq!(
        found,
        vec![
            TeamRosterViolation { team_id: 4, rule: RosterRule::RookieDevelopment },
            TeamRosterViolation { team_id: 8, rule: RosterRule::SalaryCap },
        ]
    );
    assert_eq!(
        validate_league_rosters(&contracts, DeadlineKind::PreseasonKeeper, &caps),
        Err(RosterLockError::KeeperDeadline)
    );
}

#[test]
fn drop_penalties_round_a_fifth_up_like_the_float_formula() {
    for salary in i16::MIN..=i16::MAX {
        let expected = (f32::from(salary) * 0.2).ceil() as i16;
        assert_eq!(drop_penalty(salary), expected, "salary {salary}");
    }
    assert_eq!(drop_penalty(10), 2);
    assert_eq!(drop_penalty(11), 3);
}

#[test]
fn only_counted_kinds_off_the_ir_count_toward_the_cap() {
    let mut on_ir = contract_row(3, ContractKind::Veteran, 40, Some(1));
    on_ir.is_ir = true;
    let contracts = vec![
        contract_row(1, ContractKind::Veteran, 10, Some(1)),
        contract_row(2, ContractKind::RookieDevelopment, 4, Some(1)),
        on_ir,
        contract_row(4, ContractKind::Rookie, 6, Some(1)),
    ];
    assert_eq!(total_counted_salary(&contracts), 16);
    let dropped = vec![
        contract_row(5, ContractKind::Veteran, 11, None),
        contract_row(6, ContractKind::FreeAgent, 50, None),
    ];
    let snapshot =
        calculate_team_contract_salary(&contracts, DeadlineKind::InSeasonRosterLock, Some(210), &dropped);
    assert_eq!((snapshot.salary, snapshot.cap), (16, 207));
    // At the keeper deadline drops cost nothing, and with no cap the cap is i16::MAX.
    let keeper = calculate_team_contract_salary(&contracts, DeadlineKind::PreseasonKeeper, None, &dropped);
    assert_eq!((keeper.salary, keeper.cap), (16, i16::MAX));
    assert_eq!(team_cap(DeadlineKind::InSeasonRosterLock, Some(210), &dropped), 207);
}

#[test]
fn a_contract_added_this_week_is_recognised() {
    let week = vec![update(100, ContractUpdateType::AddViaAuction), update(200, ContractUpdateType::AddViaTrade)];
    assert!(is_added_this_week(&week, &HashSet::from([100])));
}

#[test]
fn a_contract_added_in_a_prior_week_is_not_added_this_week() {
    let week = vec![update(200, ContractUpdateType::AddViaAuction)];
    assert!(!is_added_this_week(&week, &HashSet::from([100])));
}

#[test]
fn the_weeks_only_add_still_counts_as_added_this_week() {
    let week = vec![update(100, ContractUpdateType::AddViaAuction), update(200, ContractUpdateType::ToIR)];
    assert!(is_added_this_week(&week, &HashSet::from([100])));
}

#[test]
fn a_contract_moved_but_not_added_this_week_is_not_added_this_week() {
    let week = vec![update(100, ContractUpdateType::ToIR)];
    assert!(!is_added_this_week(&week, &HashSet::from([100])));
}

#[test]
fn a_same_week_add_can_be_dropped_once_the_roster_is_legal() {
    let contract = contract_row(100, ContractKind::Veteran, 5, Some(3));
    let violation = TeamRosterViolation { team_id: 3, rule: RosterRule::VeteranOrRookie };
    assert_eq!(
        judge_same_week_drop(&contract, false, true, vec![violation]),
        Err(RosterMoveRejection::DropSameWeekAdd { contract_id: 100, violations: vec![violation] })
    );
    assert_eq!(judge_same_week_drop(&contract, false, true, Vec::new()), Ok(()));
    assert_eq!(judge_same_week_drop(&contract, true, true, vec![violation]), Ok(()));
    assert_eq!(judge_same_week_drop(&contract, false, false, vec![violation]), Ok(()));
}

#[test]
fn roster_move_guards_name_the_rule_they_apply() {
    let mut contract = contract_row(7, ContractKind::Veteran, 5, Some(3));
    assert_eq!(validate_droppable(&contract), Ok(()));
    assert_eq!(validate_movable_to_ir(&contract), Ok(()));
    assert_eq!(validate_activatable_from_ir(&contract), Err(RosterMoveRejection::NotInIr { contract_id: 7 }));
    contract.is_ir = true;
    assert_eq!(validate_movable_to_ir(&contract), Err(RosterMoveRejection::AlreadyInIr { contract_id: 7 }));
    assert_eq!(validate_activatable_from_ir(&contract), Ok(()));
    contract.status = ContractStatus::Expired;
    assert_eq!(
        validate_droppable(&contract),
        Err(RosterMoveRejection::ContractNotActive { contract_id: 7, status: ContractStatus::Expired })
    );
    assert_eq!(
        validate_latest_in_chain(&contract, false),
        Err(RosterMoveRejection::NotLatestInChain { contract_id: 7 })
    );
}

fn activatable(kind: ContractKind, status: ContractStatus) -> Contract {
    let mut contract = contract_row(1, kind, 10, Some(7));
    contract.status = status;
    contract
}

#[test]
fn non_rookie_development_kind_is_rejected() {
    assert!(validate_contract_is_activatable(&activatable(ContractKind::Veteran, ContractStatus::Active)).is_err());
}

#[test]
fn replaced_contract_is_rejected() {
    assert!(validate_contract_is_activatable(&activatable(
        ContractKind::RookieDevelopment,
        ContractStatus::Replaced
    ))
    .is_err());
}

#[test]
fn active_rd_and_rdi_are_accepted() {
    for kind in [ContractKind::RookieDevelopment, ContractKind::RookieDevelopmentInternational] {
        assert!(validate_contract_is_activatable(&activatable(kind, ContractStatus::Active)).is_ok());
    }
}

#[test]
fn already_rdi_cannot_move_to_rdi() {
    let contract = activatable(ContractKind::RookieDevelopmentInternational, ContractStatus::Active);
    assert!(validate_contract_kind(&contract, ContractKind::RookieDevelopment).is_err());
}

#[test]
fn veteran_cannot_move_out_of_rdi() {
    let contract = activatable(ContractKind::Veteran, ContractStatus::Active);
    assert!(validate_contract_kind(&contract, ContractKind::RookieDevelopmentInternational).is_err());
}

#[test]
fn matching_kind_passes() {
    let contract = activatable(ContractKind::RookieDevelopment, ContractStatus::Active);
    assert!(validate_contract_kind(&contract, ContractKind::RookieDevelopment).is_ok());
}

#[test]
fn keeper_lists_keep_counted_contracts_within_the_limits() {
    let veterans: Vec<Contract> = (10..23).map(|id| contract_row(id, ContractKind::Veteran, 7, Some(1))).collect();
    let mut list = veterans.clone();
    list.push(contract_row(1, ContractKind::RookieDevelopment, 9, Some(1)));
    // 14 keepers at $100, the rookie development contract counted like any other.
    assert_eq!(validate_team_keepers(&list), Ok(()));
    list.push(contract_row(2, ContractKind::RookieDevelopmentInternational, 0, Some(1)));
    assert_eq!(validate_team_keepers(&list), Err(KeeperRejection::TooManyKeepers { count: 15, limit: 14 }));
    let mut over = veterans.clone();
    over.push(contract_row(1, ContractKind::RookieDevelopment, 10, Some(1)));
    assert_eq!(validate_team_keepers(&over), Err(KeeperRejection::OverSalaryLimit { total: 101, limit: 100 }));
    let pricey = vec![contract_row(1, ContractKind::Veteran, 60, Some(1)), contract_row(2, ContractKind::Veteran, 41, Some(1))];
    assert_eq!(validate_team_keepers(&pricey), Err(KeeperRejection::OverSalaryLimit { total: 101, limit: 100 }));
    let rfa = vec![contract_row(3, ContractKind::RestrictedFreeAgent, 1, Some(1))];
    assert_eq!(validate_team_keepers(&rfa), Err(KeeperRejection::UnkeepableContract));
    let keeper_updates = vec![
        TeamUpdate { id: 1, team_id: 3, status: TeamUpdateStatus::Pending },
        TeamUpdate { id: 2, team_id: 4, status: TeamUpdateStatus::Pending },
    ];
    assert_eq!(existing_keeper_update_index(&keeper_updates, 4), Some(1));
    assert_eq!(existing_keeper_update_index(&keeper_updates, 5), None);
}

#[test]
fn keeper_processing_drops_each_contract_once() {
    let mut active: HashSet<i64> = HashSet::from([1, 2, 3]);
    let updates = vec![update(1, ContractUpdateType::Keeper), update(2, ContractUpdateType::Drop)];
    assert_eq!(apply_keeper_update(&updates, &mut active), Ok(vec![2]));
    assert_eq!(active, HashSet::from([1, 3]));
    let again = vec![update(2, ContractUpdateType::Drop)];
    assert_eq!(
        apply_keeper_update(&again, &mut active),
        Err(KeeperProcessingError::NotActive { contract_id: 2 })
    );
    let odd = vec![update(3, ContractUpdateType::ToIR)];
    assert_eq!(
        apply_keeper_update(&odd, &mut active),
        Err(KeeperProcessingError::UnexpectedUpdate { contract_id: 3, update_type: ContractUpdateType::ToIR })
    );
}
