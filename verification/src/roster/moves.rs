//! The guards of single-contract roster moves: drops, IR moves, rookie activation and RD↔RDI
//! moves. Each refuses the move with the rule it breaks before anything is written.
use crate::deadline_processing::roster_lock::TeamRosterViolation;
use crate::model::{Contract, ContractKind, ContractStatus, ContractUpdate, ContractUpdateType};
use crate::roster::rejection::RosterMoveRejection;
use std::collections::HashSet;
use vstd::prelude::*;

verus! {

/// A drop needs a live contract.
pub open spec fn spec_validate_droppable(contract: Contract) -> Result<(), RosterMoveRejection> {
    if contract.status is Active {
        Ok(())
    } else {
        Err(RosterMoveRejection::ContractNotActive { contract_id: contract.id, status: contract.status })
    }
}

/// Checks that a contract can be dropped: only a live contract can.
pub fn validate_droppable(contract: &Contract) -> (verdict: Result<(), RosterMoveRejection>)
    ensures
        verdict == spec_validate_droppable(*contract),
{
    if matches!(contract.status, ContractStatus::Active) {
        Ok(())
    } else {
        Err(RosterMoveRejection::ContractNotActive { contract_id: contract.id, status: contract.status })
    }
}

/// Whether an update is a weekly pickup: an auction or trade add. A rookie draft add is not, since
/// the draft lets an owner drop a just-drafted player.
pub open spec fn spec_is_weekly_add(update_type: ContractUpdateType) -> bool {
    update_type is AddViaAuction || update_type is AddViaTrade
}

/// Whether this week's moves added the target contract: the week's updates touching its chain
/// are not empty and are all pickups.
pub open spec fn spec_is_added_this_week(week_updates: Seq<ContractUpdate>, chain_ids: Set<i64>) -> bool {
    (exists|i: int| 0 <= i < week_updates.len() && chain_ids.contains(#[trigger] week_updates[i].contract_id))
        && forall|i: int|
        0 <= i < week_updates.len() && chain_ids.contains(#[trigger] week_updates[i].contract_id)
            ==> spec_is_weekly_add(week_updates[i].update_type)
}

/// Whether this week's moves added the contract whose chain holds the ids `target_chain_contract_ids`,
/// which is when rule 8.3.7's "legally added before being dropped" applies to dropping it.
pub fn is_added_this_week(week_updates: &Vec<ContractUpdate>, target_chain_contract_ids: &HashSet<i64>) -> (added: bool)
    ensures
        added == spec_is_added_this_week(week_updates@, target_chain_contract_ids@),
{
    broadcast use vstd::std_specs::hash::group_hash_axioms;

    let mut touched = false;
    let mut all_adds = true;
    let mut index: usize = 0;
    while index < week_updates.len()
        invariant
            index <= week_updates.len(),
            touched == exists|i: int|
                0 <= i < index && target_chain_contract_ids@.contains(
                    #[trigger] week_updates@[i].contract_id,
                ),
            all_adds == forall|i: int|
                0 <= i < index && target_chain_contract_ids@.contains(
                    #[trigger] week_updates@[i].contract_id,
                ) ==> spec_is_weekly_add(week_updates@[i].update_type),
        decreases week_updates.len() - index,
    {
        let update = week_updates[index];
        if target_chain_contract_ids.contains(&update.contract_id) {
            touched = true;
            if !matches!(
                update.update_type,
                ContractUpdateType::AddViaAuction | ContractUpdateType::AddViaTrade
            ) {
                all_adds = false;
            }
        }
        index += 1;
    }
    touched && all_adds
}

/// What dropping a contract the team may have added this week is answered: at the keeper deadline
/// or before, or when the contract was not added this week, the drop goes through; otherwise it
/// goes through only once the roster carrying every add is legal.
pub open spec fn spec_judge_same_week_drop(
    contract: Contract,
    keeper_deadline_or_before: bool,
    added_this_week: bool,
    violations: Seq<TeamRosterViolation>,
) -> bool {
    contract.team_id is None || keeper_deadline_or_before || !added_this_week || violations.len() == 0
}

/// Judges dropping `contract` against rules §8.3.5 and §8.3.7, given whether the lock it is filed
/// under is the keeper deadline or earlier, whether the week added it, and the violations the
/// team's current roster (every add applied, the drop not) shows.
pub fn judge_same_week_drop(
    contract: &Contract,
    keeper_deadline_or_before: bool,
    added_this_week: bool,
    violations: Vec<TeamRosterViolation>,
) -> (verdict: Result<(), RosterMoveRejection>)
    ensures
        spec_judge_same_week_drop(*contract, keeper_deadline_or_before, added_this_week, violations@)
            <==> verdict is Ok,
        verdict matches Err(rejection) ==> (rejection matches RosterMoveRejection::DropSameWeekAdd {
            contract_id,
            violations: listed,
        } && contract_id == contract.id && listed@ == violations@),
{
    if contract.team_id.is_none() || keeper_deadline_or_before || !added_this_week
        || violations.len() == 0 {
        return Ok(());
    }
    Err(RosterMoveRejection::DropSameWeekAdd { contract_id: contract.id, violations })
}

/// Checks that a contract can move to the IR: it is not there already (rules §10.3.2).
pub fn validate_movable_to_ir(contract: &Contract) -> (verdict: Result<(), RosterMoveRejection>)
    ensures
        contract.is_ir <==> verdict is Err,
        verdict is Err ==> verdict == Err::<(), RosterMoveRejection>(
            RosterMoveRejection::AlreadyInIr { contract_id: contract.id },
        ),
{
    if contract.is_ir {
        Err(RosterMoveRejection::AlreadyInIr { contract_id: contract.id })
    } else {
        Ok(())
    }
}

/// Checks that a contract can come back from the IR: it is on it (rules §10.3.2).
pub fn validate_activatable_from_ir(contract: &Contract) -> (verdict: Result<(), RosterMoveRejection>)
    ensures
        !contract.is_ir <==> verdict is Err,
        verdict is Err ==> verdict == Err::<(), RosterMoveRejection>(
            RosterMoveRejection::NotInIr { contract_id: contract.id },
        ),
{
    if !contract.is_ir {
        Err(RosterMoveRejection::NotInIr { contract_id: contract.id })
    } else {
        Ok(())
    }
}

/// What activating a rookie development contract is answered: it must be RD or RDI, then live.
pub open spec fn spec_validate_contract_is_activatable(contract: Contract) -> Result<(), RosterMoveRejection> {
    if !(contract.kind is RookieDevelopment || contract.kind is RookieDevelopmentInternational) {
        Err(RosterMoveRejection::NotRookieDevelopment { contract_id: contract.id, kind: contract.kind })
    } else if !(contract.status is Active) {
        Err(RosterMoveRejection::ContractNotActive { contract_id: contract.id, status: contract.status })
    } else {
        Ok(())
    }
}

/// Guards rookie activation (rules §11.6) against a contract that is not RD or RDI, or not live.
pub fn validate_contract_is_activatable(contract: &Contract) -> (verdict: Result<(), RosterMoveRejection>)
    ensures
        verdict == spec_validate_contract_is_activatable(*contract),
{
    if !matches!(
        contract.kind,
        ContractKind::RookieDevelopment | ContractKind::RookieDevelopmentInternational
    ) {
        return Err(
            RosterMoveRejection::NotRookieDevelopment { contract_id: contract.id, kind: contract.kind },
        );
    }
    if !matches!(contract.status, ContractStatus::Active) {
        return Err(
            RosterMoveRejection::ContractNotActive { contract_id: contract.id, status: contract.status },
        );
    }
    Ok(())
}

/// Refuses a move on a contract a newer row of its chain supersedes.
pub fn validate_latest_in_chain(contract: &Contract, is_latest_in_chain: bool) -> (verdict: Result<(), RosterMoveRejection>)
    ensures
        is_latest_in_chain <==> verdict is Ok,
        verdict is Err ==> verdict == Err::<(), RosterMoveRejection>(
            RosterMoveRejection::NotLatestInChain { contract_id: contract.id },
        ),
{
    if is_latest_in_chain {
        Ok(())
    } else {
        Err(RosterMoveRejection::NotLatestInChain { contract_id: contract.id })
    }
}

/// Guards an RD↔RDI move (rules §11.3.1) against the wrong contract kind: the contract must be of
/// the kind the move starts from.
pub fn validate_contract_kind(contract: &Contract, expected: ContractKind) -> (verdict: Result<(), RosterMoveRejection>)
    ensures
        contract.kind == expected <==> verdict is Ok,
        verdict is Err ==> verdict == Err::<(), RosterMoveRejection>(
            RosterMoveRejection::WrongContractKind { contract_id: contract.id, kind: contract.kind, expected },
        ),
{
    if contract.kind == expected {
        Ok(())
    } else {
        Err(RosterMoveRejection::WrongContractKind { contract_id: contract.id, kind: contract.kind, expected })
    }
}

} // verus!
