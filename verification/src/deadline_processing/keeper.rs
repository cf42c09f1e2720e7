//! The keeper deadline (rules §14): which contracts an owner may keep, what processing a saved
//! keeper list drops, and which restricted free agents get a handshake row.
use crate::deadline_processing::rfa_resolution::{RfaResolution, RfaResolutionStatus};
use crate::model::{Contract, ContractKind, ContractUpdate, ContractUpdateType, TeamUpdate};
use crate::rules::{KEEPER_CONTRACT_COUNT_LIMIT, KEEPER_CONTRACT_TOTAL_SALARY_LIMIT};
use std::collections::HashSet;
use vstd::prelude::*;

verus! {

/// Why a keeper list was refused.
#[derive(Clone, Copy, Debug, PartialEq, Eq, Structural)]
pub enum KeeperRejection {
    /// The list holds a contract whose kind cannot be kept.
    UnkeepableContract,
    /// More counted keepers than the league allows.
    TooManyKeepers { count: usize, limit: usize },
    /// The counted keepers' salaries exceed the keeper salary limit.
    OverSalaryLimit { total: i32, limit: i16 },
}

/// Kinds a team may keep: every kind but the free agent ones.
pub open spec fn spec_is_keepable(kind: ContractKind) -> bool {
    !(kind is RestrictedFreeAgent || kind is UnrestrictedFreeAgentOriginalTeam
        || kind is UnrestrictedFreeAgentVeteran || kind is FreeAgent)
}

/// The summed salary of a keeper list.
pub open spec fn keeper_salary(contracts: Seq<Contract>) -> int
    decreases contracts.len(),
{
    if contracts.len() == 0 {
        0
    } else {
        keeper_salary(contracts.drop_last()) + contracts.last().salary
    }
}

/// What a keeper list is answered: every contract keepable, at most the keeper count limit of
/// contracts, and their whole salary within the keeper salary limit.
pub open spec fn spec_validate_team_keepers(contracts: Seq<Contract>) -> Result<(), KeeperRejection> {
    if exists|i: int| 0 <= i < contracts.len() && !spec_is_keepable(#[trigger] contracts[i].kind) {
        Err(KeeperRejection::UnkeepableContract)
    } else if contracts.len() > KEEPER_CONTRACT_COUNT_LIMIT {
        Err(
            KeeperRejection::TooManyKeepers {
                count: contracts.len() as usize,
                limit: KEEPER_CONTRACT_COUNT_LIMIT,
            },
        )
    } else if keeper_salary(contracts) > KEEPER_CONTRACT_TOTAL_SALARY_LIMIT {
        Err(
            KeeperRejection::OverSalaryLimit {
                total: keeper_salary(contracts) as i32,
                limit: KEEPER_CONTRACT_TOTAL_SALARY_LIMIT,
            },
        )
    } else {
        Ok(())
    }
}

proof fn lemma_keeper_salary_bounds(contracts: Seq<Contract>)
    ensures
        contracts.len() * i16::MIN <= keeper_salary(contracts) <= contracts.len() * i16::MAX,
    decreases contracts.len(),
{
    if contracts.len() > 0 {
        lemma_keeper_salary_bounds(contracts.drop_last());
    }
}

/// Checks a team's keeper list (rules §14): no free agent contract, at most 14 keepers of any kept
/// kind, rookie development ones included, and at most $100 of their whole salary.
pub fn validate_team_keepers(contracts: &Vec<Contract>) -> (verdict: Result<(), KeeperRejection>)
    ensures
        verdict == spec_validate_team_keepers(contracts@),
{
    let mut index: usize = 0;
    while index < contracts.len()
        invariant
            index <= contracts.len(),
            forall|i: int| 0 <= i < index ==> spec_is_keepable(#[trigger] contracts@[i].kind),
        decreases contracts.len() - index,
    {
        if matches!(
            contracts[index].kind,
            ContractKind::RestrictedFreeAgent | ContractKind::UnrestrictedFreeAgentOriginalTeam
                | ContractKind::UnrestrictedFreeAgentVeteran | ContractKind::FreeAgent
        ) {
            return Err(KeeperRejection::UnkeepableContract);
        }
        index += 1;
    }
    if contracts.len() > KEEPER_CONTRACT_COUNT_LIMIT {
        return Err(
            KeeperRejection::TooManyKeepers {
                count: contracts.len(),
                limit: KEEPER_CONTRACT_COUNT_LIMIT,
            },
        );
    }
    let mut total: i32 = 0;
    let mut summed: usize = 0;
    while summed < contracts.len()
        invariant
            summed <= contracts.len() <= KEEPER_CONTRACT_COUNT_LIMIT,
            total == keeper_salary(contracts@.take(summed as int)),
        decreases contracts.len() - summed,
    {
        proof {
            assert(contracts@.take(summed + 1).drop_last() =~= contracts@.take(summed as int));
            lemma_keeper_salary_bounds(contracts@.take(summed as int));
        }
        total = total + contracts[summed].salary as i32;
        summed += 1;
    }
    proof {
        assert(contracts@.take(contracts.len() as int) =~= contracts@);
    }
    if total > KEEPER_CONTRACT_TOTAL_SALARY_LIMIT as i32 {
        return Err(
            KeeperRejection::OverSalaryLimit { total, limit: KEEPER_CONTRACT_TOTAL_SALARY_LIMIT },
        );
    }
    Ok(())
}

proof fn lemma_keeper_salary_is_the_sum(contracts: Seq<Contract>)
    ensures
        keeper_salary(contracts) == contracts.fold_left(0int, |sum: int, contract: Contract| sum + contract.salary),
    decreases contracts.len(),
{
    if contracts.len() > 0 {
        lemma_keeper_salary_is_the_sum(contracts.drop_last());
    }
}

/// What a keeper list is answered, kind by kind: a list holding a restricted free agent, an
/// unrestricted free agent (original team or veteran) or a free agent contract is refused as
/// unkeepable; otherwise more than 14 contracts are too many, and a list whose salaries add up to
/// more than $100 is over the salary limit; any other list is accepted.
pub proof fn lemma_keeper_list_verdict(contracts: Seq<Contract>)
    ensures
        ({
            let holds_free_agent = exists|i: int|
                0 <= i < contracts.len() && (#[trigger] contracts[i].kind is RestrictedFreeAgent
                    || contracts[i].kind is UnrestrictedFreeAgentOriginalTeam
                    || contracts[i].kind is UnrestrictedFreeAgentVeteran
                    || contracts[i].kind is FreeAgent);
            let total = contracts.fold_left(0int, |sum: int, contract: Contract| sum + contract.salary);
            &&& holds_free_agent ==> spec_validate_team_keepers(contracts) == Err::<(), KeeperRejection>(
                KeeperRejection::UnkeepableContract,
            )
            &&& !holds_free_agent && contracts.len() > KEEPER_CONTRACT_COUNT_LIMIT
                ==> spec_validate_team_keepers(contracts) == Err::<(), KeeperRejection>(
                KeeperRejection::TooManyKeepers {
                    count: contracts.len() as usize,
                    limit: KEEPER_CONTRACT_COUNT_LIMIT,
                },
            )
            &&& !holds_free_agent && contracts.len() <= KEEPER_CONTRACT_COUNT_LIMIT && total
                > KEEPER_CONTRACT_TOTAL_SALARY_LIMIT ==> spec_validate_team_keepers(contracts)
                == Err::<(), KeeperRejection>(
                KeeperRejection::OverSalaryLimit {
                    total: total as i32,
                    limit: KEEPER_CONTRACT_TOTAL_SALARY_LIMIT,
                },
            )
            &&& !holds_free_agent && contracts.len() <= KEEPER_CONTRACT_COUNT_LIMIT && total
                <= KEEPER_CONTRACT_TOTAL_SALARY_LIMIT ==> spec_validate_team_keepers(contracts)
                == Ok::<(), KeeperRejection>(())
        }),
{
    lemma_keeper_salary_is_the_sum(contracts);
    if exists|i: int|
        0 <= i < contracts.len() && (#[trigger] contracts[i].kind is RestrictedFreeAgent
            || contracts[i].kind is UnrestrictedFreeAgentOriginalTeam
            || contracts[i].kind is UnrestrictedFreeAgentVeteran || contracts[i].kind is FreeAgent) {
        let i = choose|i: int|
            0 <= i < contracts.len() && (#[trigger] contracts[i].kind is RestrictedFreeAgent
                || contracts[i].kind is UnrestrictedFreeAgentOriginalTeam
                || contracts[i].kind is UnrestrictedFreeAgentVeteran
                || contracts[i].kind is FreeAgent);
        assert(!spec_is_keepable(contracts[i].kind));
    }
}

/// Where a team's keeper `team_update` sits among the keeper transaction's, if the owner has saved
/// keepers before.
pub fn existing_keeper_update_index(keeper_updates: &Vec<TeamUpdate>, team_id: i64) -> (index: Option<usize>)
    ensures
        match index {
            Some(i) => i < keeper_updates.len() && keeper_updates@[i as int].team_id == team_id
                && forall|k: int| 0 <= k < i ==> keeper_updates@[k].team_id != team_id,
            None => forall|k: int| 0 <= k < keeper_updates.len() ==> keeper_updates@[k].team_id != team_id,
        },
{
    let mut index: usize = 0;
    while index < keeper_updates.len()
        invariant
            index <= keeper_updates.len(),
            forall|k: int| 0 <= k < index ==> keeper_updates@[k].team_id != team_id,
        decreases keeper_updates.len() - index,
    {
        if keeper_updates[index].team_id == team_id {
            return Some(index);
        }
        index += 1;
    }
    None
}

/// Why a saved keeper list could not be processed.
#[derive(Clone, Copy, Debug, PartialEq, Eq, Structural)]
pub enum KeeperProcessingError {
    /// A drop names a contract that is not (or no longer) an active league contract.
    NotActive { contract_id: i64 },
    /// The keeper update holds a change other than a keep or a drop.
    UnexpectedUpdate { contract_id: i64, update_type: ContractUpdateType },
}

/// The contracts a team's keeper update drops, in order, from the league's active contracts
/// `active`: keeps change nothing, each drop must name a still-active contract (which it then
/// removes), and any other change is an error.
pub open spec fn keeper_drops(updates: Seq<ContractUpdate>, active: Set<i64>) -> Result<Seq<i64>, KeeperProcessingError>
    decreases updates.len(),
{
    if updates.len() == 0 {
        Ok(Seq::empty())
    } else {
        match keeper_drops(updates.drop_last(), active) {
            Err(error) => Err(error),
            Ok(drops) => {
                let update = updates.last();
                match update.update_type {
                    ContractUpdateType::Keeper => Ok(drops),
                    ContractUpdateType::Drop => if active.contains(update.contract_id)
                        && !drops.contains(update.contract_id) {
                        Ok(drops.push(update.contract_id))
                    } else {
                        Err(KeeperProcessingError::NotActive { contract_id: update.contract_id })
                    },
                    other => Err(
                        KeeperProcessingError::UnexpectedUpdate {
                            contract_id: update.contract_id,
                            update_type: other,
                        },
                    ),
                }
            },
        }
    }
}

/// Applies one team's keeper update to the league's active contracts: returns the contracts to
/// drop, and removes them from `active` so a later update cannot drop them again.
pub fn apply_keeper_update(updates: &Vec<ContractUpdate>, active: &mut HashSet<i64>) -> (drops: Result<Vec<i64>, KeeperProcessingError>)
    ensures
        match keeper_drops(updates@, old(active)@) {
            Ok(expected) => drops matches Ok(found) && found@ == expected && final(active)@
                == old(active)@.difference(expected.to_set()),
            Err(error) => drops == Err::<Vec<i64>, KeeperProcessingError>(error),
        },
{
    broadcast use vstd::std_specs::hash::group_hash_axioms;

    let ghost initial = active@;
    let mut drops: Vec<i64> = Vec::new();
    let mut index: usize = 0;
    while index < updates.len()
        invariant
            index <= updates.len(),
            initial == old(active)@,
            keeper_drops(updates@.take(index as int), initial) == Ok::<Seq<i64>, KeeperProcessingError>(drops@),
            active@ == initial.difference(drops@.to_set()),
        decreases updates.len() - index,
    {
        proof {
            assert(updates@.take(index + 1).drop_last() =~= updates@.take(index as int));
        }
        let update = updates[index];
        match update.update_type {
            ContractUpdateType::Keeper => {},
            ContractUpdateType::Drop => {
                let was_active = active.remove(&update.contract_id);
                if !was_active {
                    proof {
                        assert(!(initial.contains(update.contract_id) && !drops@.contains(update.contract_id)));
                        lemma_drops_error_persists(updates@, initial, index as int + 1);
                    }
                    return Err(KeeperProcessingError::NotActive { contract_id: update.contract_id });
                }
                let ghost before = drops@;
                drops.push(update.contract_id);
                proof {
                    assert forall|x: i64| drops@.contains(x) <==> (before.contains(x) || x
                        == update.contract_id) by {
                        if drops@.contains(x) {
                            let k = choose|k: int| 0 <= k < drops@.len() && drops@[k] == x;
                            if k < before.len() {
                                assert(before[k] == x);
                            }
                        }
                        if before.contains(x) {
                            let k = choose|k: int| 0 <= k < before.len() && before[k] == x;
                            assert(drops@[k] == x);
                        }
                        if x == update.contract_id {
                            assert(drops@[before.len() as int] == x);
                        }
                    }
                    assert(drops@.to_set() =~= before.to_set().insert(update.contract_id));
                    assert(active@ =~= initial.difference(drops@.to_set()));
                }
            },
            other => {
                proof {
                    lemma_drops_error_persists(updates@, initial, index as int + 1);
                }
                return Err(
                    KeeperProcessingError::UnexpectedUpdate {
                        contract_id: update.contract_id,
                        update_type: other,
                    },
                );
            },
        }
        index += 1;
    }
    proof {
        assert(updates@.take(updates.len() as int) =~= updates@);
    }
    Ok(drops)
}

proof fn lemma_drops_error_persists(updates: Seq<ContractUpdate>, active: Set<i64>, count: int)
    requires
        0 <= count <= updates.len(),
        keeper_drops(updates.take(count), active) is Err,
    ensures
        keeper_drops(updates, active) == keeper_drops(updates.take(count), active),
    decreases updates.len() - count,
{
    if count < updates.len() {
        assert(updates.take(count + 1).drop_last() =~= updates.take(count));
        lemma_drops_error_persists(updates, active, count + 1);
    } else {
        assert(updates.take(count) =~= updates);
    }
}

/// The handshake rows the keeper deadline seeds: one per RFA contract owned at the deadline that
/// has no row yet, naming that owner.
pub open spec fn spec_rfa_resolutions_to_seed(contracts: Seq<Contract>, seeded_contract_ids: Set<i64>) -> Seq<Contract> {
    contracts.filter(seedable(seeded_contract_ids))
}

/// Whether a contract gets a handshake row: an RFA contract with an owner and no row yet.
pub open spec fn seedable(seeded_contract_ids: Set<i64>) -> spec_fn(Contract) -> bool {
    |contract: Contract|
        contract.kind is RestrictedFreeAgent && contract.team_id is Some
            && !seeded_contract_ids.contains(contract.id)
}

/// The row seeded for an RFA contract owned by `owner`: awaiting its auction, with no bid yet. Its
/// id is 0 until it is saved.
pub open spec fn seeded_row(league_id: i64, end_of_season_year: i16, contract: Contract) -> RfaResolution {
    RfaResolution {
        id: 0,
        league_id,
        end_of_season_year,
        rfa_contract_id: contract.id,
        original_owner_team_id: contract.team_id.unwrap(),
        status: RfaResolutionStatus::AwaitingAuction,
        auction_id: None,
        winning_team_id: None,
        final_bid: None,
        raised_bid: None,
    }
}

/// Seeds the season's RFA handshake rows (rules §14.4, §15.4.2): one per restricted free agent
/// contract owned at the keeper deadline, skipping contracts that already have a row so that
/// processing the deadline twice cannot fork a player's handshake.
pub fn seed_rfa_resolutions(
    league_id: i64,
    end_of_season_year: i16,
    season_contracts: &Vec<Contract>,
    seeded_contract_ids: &HashSet<i64>,
) -> (rows: Vec<RfaResolution>)
    ensures
        rows.len() == spec_rfa_resolutions_to_seed(season_contracts@, seeded_contract_ids@).len(),
        forall|i: int|
            0 <= i < rows.len() ==> #[trigger] rows@[i] == seeded_row(
                league_id,
                end_of_season_year,
                spec_rfa_resolutions_to_seed(season_contracts@, seeded_contract_ids@)[i],
            ),
{
    broadcast use vstd::std_specs::hash::group_hash_axioms;

    let ghost keep = seedable(seeded_contract_ids@);
    let mut rows: Vec<RfaResolution> = Vec::new();
    let mut index: usize = 0;
    while index < season_contracts.len()
        invariant
            index <= season_contracts.len(),
            keep == seedable(seeded_contract_ids@),
            rows.len() == season_contracts@.take(index as int).filter(keep).len(),
            forall|i: int|
                0 <= i < rows.len() ==> #[trigger] rows@[i] == seeded_row(
                    league_id,
                    end_of_season_year,
                    season_contracts@.take(index as int).filter(keep)[i],
                ),
        decreases season_contracts.len() - index,
    {
        let contract = season_contracts[index];
        proof {
            assert(season_contracts@.take(index + 1) =~= season_contracts@.take(index as int).push(
                contract,
            ));
            season_contracts@.take(index as int).lemma_filter_push(contract, keep);
        }
        if matches!(contract.kind, ContractKind::RestrictedFreeAgent) {
            if let Some(owner) = contract.team_id {
                if !seeded_contract_ids.contains(&contract.id) {
                    rows.push(RfaResolution {
                        id: 0,
                        league_id,
                        end_of_season_year,
                        rfa_contract_id: contract.id,
                        original_owner_team_id: owner,
                        status: RfaResolutionStatus::AwaitingAuction,
                        auction_id: None,
                        winning_team_id: None,
                        final_bid: None,
                        raised_bid: None,
                    });
                }
            }
        }
        index += 1;
    }
    proof {
        assert(season_contracts@.take(season_contracts.len() as int) =~= season_contracts@);
    }
    rows
}

/// Seeding is idempotent: once the rows a seeding produced are recorded, seeding the same contracts
/// again produces no row, so processing the keeper deadline twice cannot fork a handshake.
pub proof fn lemma_seeding_twice_adds_nothing(contracts: Seq<Contract>, seeded_contract_ids: Set<i64>)
    ensures
        spec_rfa_resolutions_to_seed(
            contracts,
            seeded_contract_ids.union(
                spec_rfa_resolutions_to_seed(contracts, seeded_contract_ids).map_values(
                    |contract: Contract| contract.id,
                ).to_set(),
            ),
        ).len() == 0,
{
    let first = spec_rfa_resolutions_to_seed(contracts, seeded_contract_ids);
    let recorded = seeded_contract_ids.union(first.map_values(|contract: Contract| contract.id).to_set());
    let keep = seedable(recorded);
    let first_keep = seedable(seeded_contract_ids);
    assert forall|i: int| 0 <= i < contracts.len() implies !keep(contracts[i]) by {
        if first_keep(contracts[i]) {
            contracts.lemma_filter_contains(first_keep, i);
            let k = choose|k: int| 0 <= k < first.len() && first[k] == contracts[i];
            assert(first.map_values(|contract: Contract| contract.id)[k] == contracts[i].id);
            assert(first.map_values(|contract: Contract| contract.id).to_set().contains(contracts[i].id));
        }
    }
    contracts.lemma_all_neg_filter_empty(keep);
}

/// Processing the keeper deadline a second time seeds nothing: once the rows the first seeding
/// made are recorded among the seeded contracts, no contract of the season is left to seed.
pub proof fn lemma_second_seeding_seeds_nothing(
    league_id: i64,
    end_of_season_year: i16,
    contracts: Seq<Contract>,
    seeded_contract_ids: Set<i64>,
    first_rows: Seq<RfaResolution>,
    seeded_again: Set<i64>,
)
    requires
        first_rows.len() == spec_rfa_resolutions_to_seed(contracts, seeded_contract_ids).len(),
        forall|i: int|
            0 <= i < first_rows.len() ==> #[trigger] first_rows[i] == seeded_row(
                league_id,
                end_of_season_year,
                spec_rfa_resolutions_to_seed(contracts, seeded_contract_ids)[i],
            ),
        seeded_contract_ids.subset_of(seeded_again),
        forall|i: int| 0 <= i < first_rows.len() ==> seeded_again.contains(#[trigger] first_rows[i].rfa_contract_id),
    ensures
        spec_rfa_resolutions_to_seed(contracts, seeded_again).len() == 0,
{
    let first = spec_rfa_resolutions_to_seed(contracts, seeded_contract_ids);
    let keep = seedable(seeded_again);
    let first_keep = seedable(seeded_contract_ids);
    assert forall|i: int| 0 <= i < contracts.len() implies !keep(contracts[i]) by {
        if first_keep(contracts[i]) {
            contracts.lemma_filter_contains(first_keep, i);
            let k = choose|k: int| 0 <= k < first.len() && first[k] == contracts[i];
            assert(first_rows[k].rfa_contract_id == contracts[i].id);
        }
    }
    contracts.lemma_all_neg_filter_empty(keep);
}

} // verus!
