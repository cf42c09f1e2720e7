//! One transaction, the league unit of rules §13.1.4: a set of one team's moves in a week that
//! are applied and judged together.
//!
//! Rule T2 refuses a transaction that removes (drops, or moves to the IR) a player it also
//! acquired. A drop or an IR move writes a replacement contract row, so the add and the removal of
//! one player never name the same row: they share the root of the player's contract chain, which is
//! what T2 matches on. Rule T1 asks that the roster be legal once the transaction applies.
use crate::deadline_processing::roster_lock::TeamRosterViolation;
use crate::model::{Contract, ContractUpdate, ContractUpdateType, DeadlineKind};
use crate::roster::rejection::RosterMoveRejection;
use std::collections::HashMap;
use vstd::prelude::*;

verus! {

/// Whether an update acquires a contract the team did not hold: T2's "acquired in a transaction".
pub open spec fn spec_is_add(update_type: ContractUpdateType) -> bool {
    update_type is AddViaAuction || update_type is AddViaTrade || update_type is AddViaRookieDraft
}

/// Whether an update acquires a contract the team did not hold.
pub fn is_add(update_type: ContractUpdateType) -> (add: bool)
    ensures
        add == spec_is_add(update_type),
{
    matches!(
        update_type,
        ContractUpdateType::AddViaAuction | ContractUpdateType::AddViaTrade
            | ContractUpdateType::AddViaRookieDraft
    )
}

/// Whether an update takes a contract off the counted roster: T2's "dropped or moved to the IR".
/// The move to the IR at the preseason lock is exempt (rules §10.3.1, §10.1.2); a drop never is.
pub open spec fn spec_is_removal(update_type: ContractUpdateType, deadline_kind: DeadlineKind) -> bool {
    update_type is Drop || (update_type is ToIR && !(deadline_kind is PreseasonFinalRosterLock))
}

/// Whether an update takes a contract off the counted roster at a lock of `deadline_kind`.
pub fn is_removal(update_type: ContractUpdateType, deadline_kind: DeadlineKind) -> (removal: bool)
    ensures
        removal == spec_is_removal(update_type, deadline_kind),
{
    match update_type {
        ContractUpdateType::Drop => true,
        ContractUpdateType::ToIR => !matches!(deadline_kind, DeadlineKind::PreseasonFinalRosterLock),
        _ => false,
    }
}

/// The chain root an update's row belongs to: the mapped root, or the row itself when unmapped.
pub open spec fn root_in(chain_roots: Map<i64, i64>, contract_id: i64) -> i64 {
    if chain_roots.contains_key(contract_id) {
        chain_roots[contract_id]
    } else {
        contract_id
    }
}

/// Whether some add of the transaction acquired the chain `root`.
pub open spec fn acquires_root(updates: Seq<ContractUpdate>, chain_roots: Map<i64, i64>, root: i64) -> bool {
    exists|j: int|
        0 <= j < updates.len() && spec_is_add(#[trigger] updates[j].update_type) && root_in(
            chain_roots,
            updates[j].contract_id,
        ) == root
}

/// Whether update `i` removes a player the same transaction acquired.
pub open spec fn breaks_t2(
    updates: Seq<ContractUpdate>,
    chain_roots: Map<i64, i64>,
    deadline_kind: DeadlineKind,
    i: int,
) -> bool {
    spec_is_removal(updates[i].update_type, deadline_kind) && acquires_root(
        updates,
        chain_roots,
        root_in(chain_roots, updates[i].contract_id),
    )
}

fn root_of_update(chain_roots: &HashMap<i64, i64>, contract_id: i64) -> (root: i64)
    ensures
        root == root_in(chain_roots@, contract_id),
{
    broadcast use vstd::std_specs::hash::group_hash_axioms;

    match chain_roots.get(&contract_id) {
        Some(root) => *root,
        None => contract_id,
    }
}

/// The first update that breaks T2: the removal of a player the transaction also acquired, or
/// `None` when the transaction keeps every player it acquired. `chain_roots` maps an update's row
/// to its chain root; a row it does not cover stands for itself.
pub fn find_same_transaction_add_then_remove(
    transaction_updates: &Vec<ContractUpdate>,
    chain_roots: &HashMap<i64, i64>,
    deadline_kind: DeadlineKind,
) -> (offending: Option<ContractUpdate>)
    ensures
        offending is None <==> forall|i: int|
            0 <= i < transaction_updates.len() ==> !breaks_t2(
                transaction_updates@,
                chain_roots@,
                deadline_kind,
                i,
            ),
        offending matches Some(update) ==> exists|i: int|
            0 <= i < transaction_updates.len() && transaction_updates@[i] == update && breaks_t2(
                transaction_updates@,
                chain_roots@,
                deadline_kind,
                i,
            ) && forall|k: int|
                0 <= k < i ==> !breaks_t2(transaction_updates@, chain_roots@, deadline_kind, k),
{
    let ghost updates = transaction_updates@;
    let ghost roots = chain_roots@;
    let mut scan: usize = 0;
    while scan < transaction_updates.len()
        invariant
            scan <= transaction_updates.len(),
            updates == transaction_updates@,
            roots == chain_roots@,
            forall|k: int| 0 <= k < scan ==> !breaks_t2(updates, roots, deadline_kind, k),
        decreases transaction_updates.len() - scan,
    {
        let update = transaction_updates[scan];
        if is_removal(update.update_type, deadline_kind) {
            let root = root_of_update(chain_roots, update.contract_id);
            let mut found = false;
            let mut position: usize = 0;
            while position < transaction_updates.len()
                invariant
                    position <= transaction_updates.len(),
                    updates == transaction_updates@,
                    roots == chain_roots@,
                    found == exists|j: int|
                        0 <= j < position && spec_is_add(#[trigger] updates[j].update_type)
                            && root_in(roots, updates[j].contract_id) == root,
                decreases transaction_updates.len() - position,
            {
                let candidate = transaction_updates[position];
                if is_add(candidate.update_type) && root_of_update(chain_roots, candidate.contract_id)
                    == root {
                    found = true;
                }
                position += 1;
            }
            if found {
                proof {
                    assert(acquires_root(updates, roots, root));
                    assert(breaks_t2(updates, roots, deadline_kind, scan as int));
                }
                return Some(update);
            }
        }
        scan += 1;
    }
    None
}

/// Rule T2 in one step: a transaction that acquires a player and removes a row of the same chain
/// is refused, whatever else it holds.
pub proof fn lemma_add_then_remove_is_refused(
    updates: Seq<ContractUpdate>,
    chain_roots: Map<i64, i64>,
    deadline_kind: DeadlineKind,
    add: int,
    removal: int,
)
    requires
        0 <= add < updates.len(),
        0 <= removal < updates.len(),
        spec_is_add(updates[add].update_type),
        spec_is_removal(updates[removal].update_type, deadline_kind),
        root_in(chain_roots, updates[add].contract_id) == root_in(
            chain_roots,
            updates[removal].contract_id,
        ),
    ensures
        breaks_t2(updates, chain_roots, deadline_kind, removal),
{
    assert(spec_is_add(updates[add].update_type));
}

/// Whether a transaction holds both an add and a removal, the only case in which chain roots have
/// to be looked up for T2.
pub fn needs_chain_roots(transaction_updates: &Vec<ContractUpdate>, deadline_kind: DeadlineKind) -> (needed: bool)
    ensures
        needed == ((exists|i: int|
            0 <= i < transaction_updates.len() && spec_is_add(
                #[trigger] transaction_updates@[i].update_type,
            )) && (exists|i: int|
            0 <= i < transaction_updates.len() && spec_is_removal(
                #[trigger] transaction_updates@[i].update_type,
                deadline_kind,
            ))),
{
    let mut has_add = false;
    let mut has_removal = false;
    let mut index: usize = 0;
    while index < transaction_updates.len()
        invariant
            index <= transaction_updates.len(),
            has_add == exists|i: int|
                0 <= i < index && spec_is_add(#[trigger] transaction_updates@[i].update_type),
            has_removal == exists|i: int|
                0 <= i < index && spec_is_removal(
                    #[trigger] transaction_updates@[i].update_type,
                    deadline_kind,
                ),
        decreases transaction_updates.len() - index,
    {
        let update = transaction_updates[index];
        if is_add(update.update_type) {
            has_add = true;
        }
        if is_removal(update.update_type, deadline_kind) {
            has_removal = true;
        }
        index += 1;
    }
    has_add && has_removal
}

/// A contract row's chain root: its original contract, or itself when it starts the chain.
pub open spec fn spec_root_of(contract: Contract) -> i64 {
    match contract.original_contract_id {
        Some(original) => original,
        None => contract.id,
    }
}

/// A contract row's chain root.
pub fn root_of(contract: &Contract) -> (root: i64)
    ensures
        root == spec_root_of(*contract),
{
    match contract.original_contract_id {
        Some(original) => original,
        None => contract.id,
    }
}

/// The map the rows of a transaction give: each row's id to its chain root, a later row with the
/// same id winning.
pub open spec fn roots_of_rows(rows: Seq<Contract>) -> Map<i64, i64>
    decreases rows.len(),
{
    if rows.len() == 0 {
        Map::empty()
    } else {
        roots_of_rows(rows.drop_last()).insert(rows.last().id, spec_root_of(rows.last()))
    }
}

/// Keys each row of a transaction by its id, with its chain root as the value.
pub fn chain_roots_of_rows(rows: &Vec<Contract>) -> (roots: HashMap<i64, i64>)
    ensures
        roots@ == roots_of_rows(rows@),
{
    broadcast use vstd::std_specs::hash::group_hash_axioms;

    let mut roots: HashMap<i64, i64> = HashMap::new();
    let mut index: usize = 0;
    while index < rows.len()
        invariant
            index <= rows.len(),
            roots@ == roots_of_rows(rows@.take(index as int)),
        decreases rows.len() - index,
    {
        proof {
            assert(rows@.take(index + 1).drop_last() =~= rows@.take(index as int));
        }
        let row = rows[index];
        roots.insert(row.id, root_of(&row));
        index += 1;
    }
    proof {
        assert(rows@.take(rows.len() as int) =~= rows@);
    }
    roots
}

/// Judges a transaction by T2 alone: refuses it, naming the first offending update, when it
/// removes a player it also acquired.
pub fn validate_no_add_then_remove(
    transaction_updates: &Vec<ContractUpdate>,
    chain_roots: &HashMap<i64, i64>,
    deadline_kind: DeadlineKind,
) -> (verdict: Result<(), RosterMoveRejection>)
    ensures
        verdict is Ok <==> forall|i: int|
            0 <= i < transaction_updates.len() ==> !breaks_t2(
                transaction_updates@,
                chain_roots@,
                deadline_kind,
                i,
            ),
        verdict matches Err(rejection) ==> exists|i: int|
            0 <= i < transaction_updates.len() && breaks_t2(
                transaction_updates@,
                chain_roots@,
                deadline_kind,
                i,
            ) && (forall|k: int|
                0 <= k < i ==> !breaks_t2(transaction_updates@, chain_roots@, deadline_kind, k))
                && rejection == (RosterMoveRejection::SameTransactionAddThenRemove {
                contract_id: transaction_updates@[i].contract_id,
                update_type: transaction_updates@[i].update_type,
            }),
{
    match find_same_transaction_add_then_remove(transaction_updates, chain_roots, deadline_kind) {
        Some(update) => Err(
            RosterMoveRejection::SameTransactionAddThenRemove {
                contract_id: update.contract_id,
                update_type: update.update_type,
            },
        ),
        None => Ok(()),
    }
}

/// Judges a transaction whose moves are applied: T2 first, then T1 on the violations the end
/// state's roster shows under the governing deadline's limits.
pub fn validate_transaction(
    team_id: i64,
    transaction_updates: &Vec<ContractUpdate>,
    chain_roots: &HashMap<i64, i64>,
    deadline_kind: DeadlineKind,
    violations: Vec<TeamRosterViolation>,
) -> (verdict: Result<(), RosterMoveRejection>)
    ensures
        (exists|i: int|
            0 <= i < transaction_updates.len() && breaks_t2(
                transaction_updates@,
                chain_roots@,
                deadline_kind,
                i,
            )) ==> verdict matches Err(RosterMoveRejection::SameTransactionAddThenRemove { .. }),
        (forall|i: int|
            0 <= i < transaction_updates.len() ==> !breaks_t2(
                transaction_updates@,
                chain_roots@,
                deadline_kind,
                i,
            )) ==> (if violations.len() == 0 {
            verdict is Ok
        } else {
            verdict matches Err(RosterMoveRejection::TransactionLeavesRosterIllegal {
                team_id: t,
                violations: v,
            }) && t == team_id && v@ == violations@
        }),
{
    let t2 = validate_no_add_then_remove(transaction_updates, chain_roots, deadline_kind);
    if t2.is_err() {
        return t2;
    }
    if violations.len() == 0 {
        Ok(())
    } else {
        Err(RosterMoveRejection::TransactionLeavesRosterIllegal { team_id, violations })
    }
}

/// The deadline kind whose roster limits govern a move made under `upcoming_lock`: the lock itself,
/// except that moves filed under the preseason final lock are judged by the period they are made in
/// (the uncapped window before the keeper deadline, or the preseason after it).
pub open spec fn spec_governing_deadline_kind(upcoming_lock: DeadlineKind, before_keeper_deadline: bool) -> DeadlineKind {
    if !(upcoming_lock is PreseasonFinalRosterLock) {
        upcoming_lock
    } else if before_keeper_deadline {
        DeadlineKind::PreseasonStart
    } else {
        DeadlineKind::PreseasonRookieDraftStart
    }
}

/// The deadline kind whose roster limits govern a move made under `upcoming_lock`;
/// `before_keeper_deadline` says whether the move was made before the season's keeper deadline.
pub fn governing_deadline_kind(upcoming_lock: DeadlineKind, before_keeper_deadline: bool) -> (kind: DeadlineKind)
    ensures
        kind == spec_governing_deadline_kind(upcoming_lock, before_keeper_deadline),
{
    if !matches!(upcoming_lock, DeadlineKind::PreseasonFinalRosterLock) {
        upcoming_lock
    } else if before_keeper_deadline {
        DeadlineKind::PreseasonStart
    } else {
        DeadlineKind::PreseasonRookieDraftStart
    }
}

} // verus!
