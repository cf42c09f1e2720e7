//! Annual contract advancement at the preseason start: contracts that ended the season as free
//! agents expire, every other active contract advances a year, and each team gets one
//! `team_update` listing its advanced contracts.
use crate::model::{Contract, ContractKind, ContractUpdate, ContractUpdateType, TeamUpdateData};
use crate::roster::team_groups::{contracts_by_team, grouped_by_team, team_contract_lists};
use crate::rookie_draft::make_pick::{contract_ids, ids_of};
use vstd::prelude::*;

verus! {

/// What advancement does with a league's active contracts.
#[derive(Clone, Debug, PartialEq, Eq)]
pub struct AdvancementPlan {
    /// Free agent contracts, which expire.
    pub expire: Vec<Contract>,
    /// Every other contract, which advances a year.
    pub advance: Vec<Contract>,
}

/// Splits a league's active contracts: free agents expire, the rest advance, each in order.
pub fn plan_advancement(active_league_contracts: &Vec<Contract>) -> (plan: AdvancementPlan)
    ensures
        plan.expire@ == active_league_contracts@.filter(|contract: Contract| contract.kind is FreeAgent),
        plan.advance@ == active_league_contracts@.filter(|contract: Contract| !(contract.kind is FreeAgent)),
{
    let mut expire: Vec<Contract> = Vec::new();
    let mut advance: Vec<Contract> = Vec::new();
    let mut index: usize = 0;
    while index < active_league_contracts.len()
        invariant
            index <= active_league_contracts.len(),
            expire@ == active_league_contracts@.take(index as int).filter(|contract: Contract| contract.kind is FreeAgent),
            advance@ == active_league_contracts@.take(index as int).filter(|contract: Contract| !(contract.kind is FreeAgent)),
        decreases active_league_contracts.len() - index,
    {
        let contract = active_league_contracts[index];
        proof {
            assert(active_league_contracts@.take(index + 1) =~= active_league_contracts@.take(index as int).push(contract));
            active_league_contracts@.take(index as int).lemma_filter_push(contract, |contract: Contract| contract.kind is FreeAgent);
            active_league_contracts@.take(index as int).lemma_filter_push(contract, |contract: Contract| !(contract.kind is FreeAgent));
        }
        if matches!(contract.kind, ContractKind::FreeAgent) {
            expire.push(contract);
        } else {
            advance.push(contract);
        }
        index += 1;
    }
    proof {
        assert(active_league_contracts@.take(active_league_contracts.len() as int) =~= active_league_contracts@);
    }
    AdvancementPlan { expire, advance }
}

/// The `ContractAdvanced` change of each contract, in order.
pub open spec fn advanced_changes(contracts: Seq<Contract>) -> Seq<ContractUpdate> {
    contracts.map_values(
        |contract: Contract|
            ContractUpdate { contract_id: contract.id, update_type: ContractUpdateType::ContractAdvanced },
    )
}

/// The `team_update` one team's advanced contracts record: the contracts, one `ContractAdvanced`
/// change each, and no salary figures.
pub open spec fn advancement_update_of(contracts: Seq<Contract>, data: TeamUpdateData) -> bool {
    &&& data.all_contract_ids@ == contract_ids(contracts)
    &&& data.changes@ == advanced_changes(contracts)
    &&& data.previous_salary == 0 && data.previous_salary_cap == 0
    &&& data.new_salary == 0 && data.new_salary_cap == 0
}

/// One `team_update` per team for the contracts advanced: grouped by team in an order the grouping
/// does not fix, each team once, with its advanced contracts in order. Every advanced contract
/// belongs to a team.
pub fn advanced_team_updates(advanced: &Vec<Contract>) -> (updates: Vec<(i64, TeamUpdateData)>)
    requires
        forall|i: int| 0 <= i < advanced.len() ==> (#[trigger] advanced@[i]).team_id is Some,
    ensures
        forall|i: int|
            0 <= i < updates.len() ==> grouped_by_team(advanced@).contains_key(#[trigger] updates@[i].0)
                && advancement_update_of(grouped_by_team(advanced@)[updates@[i].0], updates@[i].1),
        forall|i: int, j: int|
            0 <= i < j < updates.len() ==> #[trigger] updates@[i].0 != #[trigger] updates@[j].0,
        forall|team_id: i64|
            grouped_by_team(advanced@).contains_key(team_id) ==> exists|i: int|
                0 <= i < updates.len() && #[trigger] updates@[i].0 == team_id,
{
    let groups = contracts_by_team(advanced);
    let entries = team_contract_lists(&groups);
    let mut updates: Vec<(i64, TeamUpdateData)> = Vec::new();
    let mut index: usize = 0;
    while index < entries.len()
        invariant
            index <= entries.len(),
            updates.len() == index,
            forall|i: int|
                0 <= i < entries.len() ==> grouped_by_team(advanced@).contains_key(#[trigger] entries@[i].0)
                    && entries@[i].1@ == grouped_by_team(advanced@)[entries@[i].0],
            forall|i: int, j: int|
                0 <= i < j < entries.len() ==> #[trigger] entries@[i].0 != #[trigger] entries@[j].0,
            forall|team_id: i64|
                grouped_by_team(advanced@).contains_key(team_id) ==> exists|i: int|
                    0 <= i < entries.len() && #[trigger] entries@[i].0 == team_id,
            forall|i: int|
                0 <= i < index ==> (#[trigger] updates@[i]).0 == entries@[i].0 && advancement_update_of(
                    entries@[i].1@,
                    updates@[i].1,
                ),
        decreases entries.len() - index,
    {
        let team_id = entries[index].0;
        let team_contracts = &entries[index].1;
        let all_contract_ids = ids_of(team_contracts);
        let mut changes: Vec<ContractUpdate> = Vec::new();
        let mut position: usize = 0;
        while position < team_contracts.len()
            invariant
                position <= team_contracts.len(),
                changes@ == advanced_changes(team_contracts@.take(position as int)),
            decreases team_contracts.len() - position,
        {
            proof {
                assert(advanced_changes(team_contracts@.take(position + 1)) =~= advanced_changes(
                    team_contracts@.take(position as int),
                ).push(
                    ContractUpdate {
                        contract_id: team_contracts@[position as int].id,
                        update_type: ContractUpdateType::ContractAdvanced,
                    },
                ));
            }
            changes.push(ContractUpdate {
                contract_id: team_contracts[position].id,
                update_type: ContractUpdateType::ContractAdvanced,
            });
            position += 1;
        }
        proof {
            assert(team_contracts@.take(team_contracts.len() as int) =~= team_contracts@);
        }
        updates.push((team_id, TeamUpdateData {
            all_contract_ids,
            changes,
            previous_salary: 0,
            previous_salary_cap: 0,
            new_salary: 0,
            new_salary_cap: 0,
        }));
        index += 1;
    }
    proof {
        assert forall|team_id: i64|
            grouped_by_team(advanced@).contains_key(team_id) implies exists|i: int|
                0 <= i < updates.len() && #[trigger] updates@[i].0 == team_id by {
            let i = choose|i: int| 0 <= i < entries.len() && #[trigger] entries@[i].0 == team_id;
            assert(updates@[i].0 == team_id);
        }
        assert forall|i: int, j: int|
            0 <= i < j < updates.len() implies #[trigger] updates@[i].0 != #[trigger] updates@[j].0 by {
            assert(entries@[i].0 != entries@[j].0);
        }
    }
    updates
}

} // verus!
