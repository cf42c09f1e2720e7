//! Signing an auction win to the winning team: its price and whether the re-sign discount applies.
use crate::model::{Contract, ContractKind, ContractUpdate, ContractUpdateType, FreeAgentException, TeamUpdateData};
use crate::roster::salary::SalarySnapshot;
use crate::rookie_draft::make_pick::{contract_ids, ids_of};
use vstd::prelude::*;

verus! {

/// The team that holds the player's re-sign discount (rules §15.4.2, §16.4.1): for an RFA the
/// owner recorded in its resolution row, for a UFA the team on its designated contract.
pub open spec fn spec_exception_holder(
    pooled_kind: ContractKind,
    maybe_rfa_original_owner_team_id: Option<i64>,
    pooled_contract_team_id: Option<i64>,
) -> Option<i64> {
    match pooled_kind {
        ContractKind::RestrictedFreeAgent => maybe_rfa_original_owner_team_id,
        ContractKind::UnrestrictedFreeAgentOriginalTeam
        | ContractKind::UnrestrictedFreeAgentVeteran => pooled_contract_team_id,
        _ => None,
    }
}

/// Whether the auction winner also holds the player's re-sign discount.
///
/// The discount belongs to whoever owned the player at the keeper deadline, so a trade during the
/// auction hands over the player without handing over the discount.
pub fn free_agent_exception(
    pooled_kind: ContractKind,
    maybe_rfa_original_owner_team_id: Option<i64>,
    pooled_contract_team_id: Option<i64>,
    winning_team_id: i64,
) -> (exception: FreeAgentException)
    ensures
        exception == (if spec_exception_holder(
            pooled_kind,
            maybe_rfa_original_owner_team_id,
            pooled_contract_team_id,
        ) == Some(winning_team_id) {
            FreeAgentException::Held
        } else {
            FreeAgentException::NotHeld
        }),
{
    let holder = match pooled_kind {
        ContractKind::RestrictedFreeAgent => maybe_rfa_original_owner_team_id,
        ContractKind::UnrestrictedFreeAgentOriginalTeam
        | ContractKind::UnrestrictedFreeAgentVeteran => pooled_contract_team_id,
        _ => None,
    };
    if holder == Some(winning_team_id) {
        FreeAgentException::Held
    } else {
        FreeAgentException::NotHeld
    }
}

/// What the winner pays: the raised amount for an RFA whose winner raised its own bid
/// (rules §15.3.2.1), otherwise the winning bid.
pub fn signing_price(maybe_raised_bid_amount: Option<i16>, winning_bid_amount: i16) -> (price: i16)
    ensures
        price == (match maybe_raised_bid_amount {
            Some(raised) => raised,
            None => winning_bid_amount,
        }),
{
    match maybe_raised_bid_amount {
        Some(raised) => raised,
        None => winning_bid_amount,
    }
}

/// The `team_update` a won auction records: the team's active contracts with the signed one
/// appended, one `AddViaAuction` change, and the salary and cap before and after the signing.
pub fn auction_won_team_update(
    active_contracts: &Vec<Contract>,
    signed_contract_id: i64,
    previous: SalarySnapshot,
    new: SalarySnapshot,
) -> (data: TeamUpdateData)
    ensures
        data.all_contract_ids@ == contract_ids(active_contracts@).push(signed_contract_id),
        data.changes@ == seq![
            ContractUpdate { contract_id: signed_contract_id, update_type: ContractUpdateType::AddViaAuction },
        ],
        data.previous_salary == previous.salary,
        data.previous_salary_cap == previous.cap,
        data.new_salary == new.salary,
        data.new_salary_cap == new.cap,
{
    let mut all_contract_ids = ids_of(active_contracts);
    all_contract_ids.push(signed_contract_id);
    let changes = vec![
        ContractUpdate { contract_id: signed_contract_id, update_type: ContractUpdateType::AddViaAuction },
    ];
    TeamUpdateData {
        all_contract_ids,
        changes,
        previous_salary: previous.salary,
        previous_salary_cap: previous.cap,
        new_salary: new.salary,
        new_salary_cap: new.cap,
    }
}

/// The `team_update` an RFA re-signing records for the original owner: the team's active
/// contracts (the re-signed one among them), one `RfaResign` change, and the salary and cap before
/// and after.
pub fn rfa_resign_team_update(
    active_contracts: &Vec<Contract>,
    signed_contract_id: i64,
    previous: SalarySnapshot,
    new: SalarySnapshot,
) -> (data: TeamUpdateData)
    ensures
        data.all_contract_ids@ == contract_ids(active_contracts@),
        data.changes@ == seq![
            ContractUpdate { contract_id: signed_contract_id, update_type: ContractUpdateType::RfaResign },
        ],
        data.previous_salary == previous.salary,
        data.previous_salary_cap == previous.cap,
        data.new_salary == new.salary,
        data.new_salary_cap == new.cap,
{
    let all_contract_ids = ids_of(active_contracts);
    let changes = vec![
        ContractUpdate { contract_id: signed_contract_id, update_type: ContractUpdateType::RfaResign },
    ];
    TeamUpdateData {
        all_contract_ids,
        changes,
        previous_salary: previous.salary,
        previous_salary_cap: previous.cap,
        new_salary: new.salary,
        new_salary_cap: new.cap,
    }
}

} // verus!
