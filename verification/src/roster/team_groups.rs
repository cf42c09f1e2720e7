//! A league's contracts grouped by the team that holds them, in a `multimap::MultiMap` keyed by
//! team id. Each team's contracts keep the order they were grouped in.
use crate::model::Contract;
use multimap::MultiMap;
use vstd::prelude::*;

verus! {

/// multimap's map from a key to the values inserted under it.
#[verifier::external_type_specification]
#[verifier::external_body]
#[verifier::reject_recursive_types(K)]
#[verifier::reject_recursive_types(V)]
#[verifier::reject_recursive_types(S)]
pub struct ExMultiMap<K, V, S>(MultiMap<K, V, S>);

/// What a team grouping holds: each team id with its contracts in insertion order.
pub uninterp spec fn team_contracts_of(groups: MultiMap<i64, Contract>) -> Map<i64, Seq<Contract>>;

/// Calls `MultiMap::new`, which starts with no keys.
#[verifier::external_body]
fn new_team_groups() -> (groups: MultiMap<i64, Contract>)
    ensures
        team_contracts_of(groups).dom() == Set::<i64>::empty(),
{
    MultiMap::new()
}

/// Calls `MultiMap::insert`, which pushes the value onto the key's vector, or starts the key's
/// vector with it when the key is new.
#[verifier::external_body]
fn insert_team_contract(groups: &mut MultiMap<i64, Contract>, team_id: i64, contract: Contract)
    ensures
        team_contracts_of(*final(groups)) == (if team_contracts_of(*old(groups)).contains_key(
            team_id,
        ) {
            team_contracts_of(*old(groups)).insert(
                team_id,
                team_contracts_of(*old(groups))[team_id].push(contract),
            )
        } else {
            team_contracts_of(*old(groups)).insert(team_id, seq![contract])
        }),
{
    groups.insert(team_id, contract);
}

/// Calls `MultiMap::iter_all`, copying each key and its vector out. The order the entries come in
/// is the hash map's and is not stated; each key comes once, with its vector, and every key comes.
#[verifier::external_body]
fn team_entries(groups: &MultiMap<i64, Contract>) -> (entries: Vec<(i64, Vec<Contract>)>)
    ensures
        forall|i: int|
            0 <= i < entries.len() ==> team_contracts_of(*groups).contains_key(#[trigger] entries@[i].0)
                && entries@[i].1@ == team_contracts_of(*groups)[entries@[i].0],
        forall|i: int, j: int|
            0 <= i < j < entries.len() ==> #[trigger] entries@[i].0 != #[trigger] entries@[j].0,
        forall|team_id: i64|
            team_contracts_of(*groups).contains_key(team_id) ==> exists|i: int|
                0 <= i < entries.len() && #[trigger] entries@[i].0 == team_id,
{
    groups.iter_all().map(|(team_id, contracts)| (*team_id, contracts.clone())).collect()
}

/// The grouping some contracts give: each contract held by a team, under that team, in order.
pub open spec fn grouped_by_team(contracts: Seq<Contract>) -> Map<i64, Seq<Contract>>
    decreases contracts.len(),
{
    if contracts.len() == 0 {
        Map::empty()
    } else {
        let earlier = grouped_by_team(contracts.drop_last());
        match contracts.last().team_id {
            None => earlier,
            Some(team_id) => if earlier.contains_key(team_id) {
                earlier.insert(team_id, earlier[team_id].push(contracts.last()))
            } else {
                earlier.insert(team_id, seq![contracts.last()])
            },
        }
    }
}

/// Groups a league's contracts by the team that holds them; contracts no team holds are left out.
pub fn contracts_by_team(contracts: &Vec<Contract>) -> (groups: MultiMap<i64, Contract>)
    ensures
        team_contracts_of(groups) == grouped_by_team(contracts@),
{
    let mut groups = new_team_groups();
    proof {
        assert(team_contracts_of(groups) =~= grouped_by_team(contracts@.take(0)));
    }
    let mut index: usize = 0;
    while index < contracts.len()
        invariant
            index <= contracts.len(),
            team_contracts_of(groups) == grouped_by_team(contracts@.take(index as int)),
        decreases contracts.len() - index,
    {
        proof {
            assert(contracts@.take(index + 1).drop_last() =~= contracts@.take(index as int));
        }
        let contract = contracts[index];
        if let Some(team_id) = contract.team_id {
            insert_team_contract(&mut groups, team_id, contract);
        }
        index += 1;
    }
    proof {
        assert(contracts@.take(contracts.len() as int) =~= contracts@);
    }
    groups
}

/// Each team of a grouping with its contracts, in an order the grouping does not fix: every team
/// once, with exactly the contracts grouped under it.
pub fn team_contract_lists(groups: &MultiMap<i64, Contract>) -> (entries: Vec<(i64, Vec<Contract>)>)
    ensures
        forall|i: int|
            0 <= i < entries.len() ==> team_contracts_of(*groups).contains_key(#[trigger] entries@[i].0)
                && entries@[i].1@ == team_contracts_of(*groups)[entries@[i].0],
        forall|i: int, j: int|
            0 <= i < j < entries.len() ==> #[trigger] entries@[i].0 != #[trigger] entries@[j].0,
        forall|team_id: i64|
            team_contracts_of(*groups).contains_key(team_id) ==> exists|i: int|
                0 <= i < entries.len() && #[trigger] entries@[i].0 == team_id,
{
    team_entries(groups)
}

} // verus!
