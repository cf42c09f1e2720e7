//! Saving a team's keepers through the season's keeper list, where only rookie, rookie extension
//! and veteran contracts may be kept (rules §14.1).
use crate::deadline_processing::keeper::KeeperRejection;
use crate::model::{Contract, ContractKind};
use crate::rules::{KEEPER_CONTRACT_COUNT_LIMIT, KEEPER_CONTRACT_TOTAL_SALARY_LIMIT};
use vstd::prelude::*;

verus! {

/// Kinds this list may keep: rookie, rookie extension and veteran contracts.
pub open spec fn spec_is_listed_keeper(kind: ContractKind) -> bool {
    kind is Rookie || kind is RookieExtension || kind is Veteran
}

/// The summed salary of a list of contracts.
pub open spec fn total_salary(contracts: Seq<Contract>) -> int
    decreases contracts.len(),
{
    if contracts.len() == 0 {
        0
    } else {
        total_salary(contracts.drop_last()) + contracts.last().salary
    }
}

/// What a keeper list is answered: only keepable kinds, at most the keeper count limit of them,
/// and their salaries within the keeper salary limit.
pub open spec fn spec_validate_team_keepers(contracts: Seq<Contract>) -> Result<(), KeeperRejection> {
    if exists|i: int| 0 <= i < contracts.len() && !spec_is_listed_keeper(#[trigger] contracts[i].kind) {
        Err(KeeperRejection::UnkeepableContract)
    } else if contracts.len() > KEEPER_CONTRACT_COUNT_LIMIT {
        Err(
            KeeperRejection::TooManyKeepers {
                count: contracts.len() as usize,
                limit: KEEPER_CONTRACT_COUNT_LIMIT,
            },
        )
    } else if total_salary(contracts) > KEEPER_CONTRACT_TOTAL_SALARY_LIMIT {
        Err(
            KeeperRejection::OverSalaryLimit {
                total: total_salary(contracts) as i32,
                limit: KEEPER_CONTRACT_TOTAL_SALARY_LIMIT,
            },
        )
    } else {
        Ok(())
    }
}

proof fn lemma_total_salary_bounds(contracts: Seq<Contract>)
    ensures
        contracts.len() * i16::MIN <= total_salary(contracts) <= contracts.len() * i16::MAX,
    decreases contracts.len(),
{
    if contracts.len() > 0 {
        lemma_total_salary_bounds(contracts.drop_last());
    }
}

/// Checks a team's keeper list: only rookie, rookie extension and veteran contracts, at most 14 of
/// them, and at most $100 of salary.
pub fn validate_team_keepers(contracts: &Vec<Contract>) -> (verdict: Result<(), KeeperRejection>)
    ensures
        verdict == spec_validate_team_keepers(contracts@),
{
    let mut index: usize = 0;
    while index < contracts.len()
        invariant
            index <= contracts.len(),
            forall|i: int| 0 <= i < index ==> spec_is_listed_keeper(#[trigger] contracts@[i].kind),
        decreases contracts.len() - index,
    {
        if !matches!(
            contracts[index].kind,
            ContractKind::Rookie | ContractKind::RookieExtension | ContractKind::Veteran
        ) {
            return Err(KeeperRejection::UnkeepableContract);
        }
        index += 1;
    }
    if contracts.len() > KEEPER_CONTRACT_COUNT_LIMIT {
        return Err(
            KeeperRejection::TooManyKeepers {
                count: contracts.len(),
                limit: KEEPER_CONTRACT_COUNT_LIMIT,
            },
        );
    }
    let mut total: i32 = 0;
    let mut summed: usize = 0;
    while summed < contracts.len()
        invariant
            summed <= contracts.len() <= KEEPER_CONTRACT_COUNT_LIMIT,
            total == total_salary(contracts@.take(summed as int)),
        decreases contracts.len() - summed,
    {
        proof {
            assert(contracts@.take(summed + 1).drop_last() =~= contracts@.take(summed as int));
            lemma_total_salary_bounds(contracts@.take(summed as int));
        }
        total = total + contracts[summed].salary as i32;
        summed += 1;
    }
    proof {
        assert(contracts@.take(contracts.len() as int) =~= contracts@);
    }
    if total > KEEPER_CONTRACT_TOTAL_SALARY_LIMIT as i32 {
        return Err(
            KeeperRejection::OverSalaryLimit { total, limit: KEEPER_CONTRACT_TOTAL_SALARY_LIMIT },
        );
    }
    Ok(())
}

proof fn lemma_total_salary_is_the_sum(contracts: Seq<Contract>)
    ensures
        total_salary(contracts) == contracts.fold_left(0int, |sum: int, contract: Contract| sum + contract.salary),
    decreases contracts.len(),
{
    if contracts.len() > 0 {
        lemma_total_salary_is_the_sum(contracts.drop_last());
    }
}

/// What a season keeper list is answered, kind by kind: a list holding any contract but a rookie,
/// rookie extension or veteran one is refused as unkeepable; otherwise more than 14 contracts are
/// too many, and a list whose salaries add up to more than $100 is over the salary limit; any
/// other list is accepted.
pub proof fn lemma_season_keeper_list_verdict(contracts: Seq<Contract>)
    ensures
        ({
            let holds_other = exists|i: int|
                0 <= i < contracts.len() && !(#[trigger] contracts[i].kind is Rookie
                    || contracts[i].kind is RookieExtension || contracts[i].kind is Veteran);
            let total = contracts.fold_left(0int, |sum: int, contract: Contract| sum + contract.salary);
            &&& holds_other ==> spec_validate_team_keepers(contracts) == Err::<(), KeeperRejection>(
                KeeperRejection::UnkeepableContract,
            )
            &&& !holds_other && contracts.len() > KEEPER_CONTRACT_COUNT_LIMIT
                ==> spec_validate_team_keepers(contracts) == Err::<(), KeeperRejection>(
                KeeperRejection::TooManyKeepers {
                    count: contracts.len() as usize,
                    limit: KEEPER_CONTRACT_COUNT_LIMIT,
                },
            )
            &&& !holds_other && contracts.len() <= KEEPER_CONTRACT_COUNT_LIMIT && total
                > KEEPER_CONTRACT_TOTAL_SALARY_LIMIT ==> spec_validate_team_keepers(contracts)
                == Err::<(), KeeperRejection>(
                KeeperRejection::OverSalaryLimit {
                    total: total as i32,
                    limit: KEEPER_CONTRACT_TOTAL_SALARY_LIMIT,
                },
            )
            &&& !holds_other && contracts.len() <= KEEPER_CONTRACT_COUNT_LIMIT && total
                <= KEEPER_CONTRACT_TOTAL_SALARY_LIMIT ==> spec_validate_team_keepers(contracts)
                == Ok::<(), KeeperRejection>(())
        }),
{
    lemma_total_salary_is_the_sum(contracts);
    if exists|i: int|
        0 <= i < contracts.len() && !(#[trigger] contracts[i].kind is Rookie
            || contracts[i].kind is RookieExtension || contracts[i].kind is Veteran) {
        let i = choose|i: int|
            0 <= i < contracts.len() && !(#[trigger] contracts[i].kind is Rookie
                || contracts[i].kind is RookieExtension || contracts[i].kind is Veteran);
        assert(!spec_is_listed_keeper(contracts[i].kind));
    }
}

} // verus!
