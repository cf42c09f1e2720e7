//! Judging a proposed transaction order for one week against rule T1 (rules §13.1.6).
//!
//! Reordering a week never changes the roster it ends with, but it does change the roster part way
//! through, and T1 has to hold after every transaction of whatever order is saved. The stored rows
//! are the week's end state, so the week is replayed over the roster it opened with, which comes
//! from undoing the week's changes newest first.
use crate::deadline_processing::roster_lock::{
    roster_violations, team_violations, validate_roster_contracts, RosterLockError,
};
use crate::model::{Contract, ContractUpdate, ContractUpdateType, DeadlineKind};
use crate::roster::rejection::RosterMoveRejection;
use crate::roster::salary::{counted_salary, spec_salary_snapshot, team_cap, total_counted_salary};
use crate::roster::transaction::{root_of, spec_root_of};
use std::collections::HashMap;
use vstd::prelude::*;

verus! {

/// What one contract change does to the team's roster.
#[derive(Clone, Copy, Debug, PartialEq, Eq, Structural)]
pub struct RosterChange {
    /// The contract chain the change touches; a roster holds one row per chain.
    pub root: i64,
    /// The row the chain held before the change; `None` when the change acquired the player.
    pub before: Option<Contract>,
    /// The row the chain holds after it; `None` when the change took the player off the roster.
    pub after: Option<Contract>,
}

/// The row `id` names, when the team holds it.
pub open spec fn held_row(by_id: Map<i64, Contract>, id: i64, team_id: i64) -> Option<Contract> {
    if by_id.contains_key(id) && by_id[id].team_id == Some(team_id) {
        Some(by_id[id])
    } else {
        None
    }
}

/// A recorded change read as the pair of rows it swaps on `team_id`'s roster. A trade's
/// `TradedAway` names the row the team held; every other change names the row it wrote, whose
/// predecessor is the row it replaced. Either row counts only while the team holds it.
pub open spec fn spec_roster_change(update: ContractUpdate, team_id: i64, by_id: Map<i64, Contract>) -> Option<RosterChange> {
    if !by_id.contains_key(update.contract_id) {
        None
    } else {
        let changed = by_id[update.contract_id];
        let root = spec_root_of(changed);
        if update.update_type is TradedAway {
            Some(RosterChange { root, before: Some(changed), after: None })
        } else {
            Some(
                RosterChange {
                    root,
                    before: match changed.previous_contract_id {
                        Some(previous) => held_row(by_id, previous, team_id),
                        None => None,
                    },
                    after: held_row(by_id, update.contract_id, team_id),
                },
            )
        }
    }
}

/// Reads a recorded change as the pair of rows it swaps on `team_id`'s roster; `None` when the
/// change names a row that was not loaded.
pub fn roster_change(update: &ContractUpdate, team_id: i64, contracts_by_id: &HashMap<i64, Contract>) -> (change: Option<RosterChange>)
    ensures
        change == spec_roster_change(*update, team_id, contracts_by_id@),
{
    broadcast use vstd::std_specs::hash::group_hash_axioms;

    let changed = match contracts_by_id.get(&update.contract_id) {
        Some(changed) => *changed,
        None => return None,
    };
    let root = root_of(&changed);
    if matches!(update.update_type, ContractUpdateType::TradedAway) {
        return Some(RosterChange { root, before: Some(changed), after: None });
    }
    let before = match changed.previous_contract_id {
        Some(previous) => match contracts_by_id.get(&previous) {
            Some(row) => if row.team_id == Some(team_id) {
                Some(*row)
            } else {
                None
            },
            None => None,
        },
        None => None,
    };
    let after = if changed.team_id == Some(team_id) {
        Some(changed)
    } else {
        None
    };
    Some(RosterChange { root, before, after })
}

/// Where chain `root` sits in a roster, scanning from `from`.
pub open spec fn slot_from(roster: Seq<(i64, Contract)>, root: i64, from: int) -> Option<int>
    decreases roster.len() - from,
{
    if from < 0 || from >= roster.len() {
        None
    } else if roster[from].0 == root {
        Some(from)
    } else {
        slot_from(roster, root, from + 1)
    }
}

/// A roster with chain `root` holding `row`, or without the chain when `row` is `None`: an existing
/// slot is overwritten or removed in place, a new chain is appended.
pub open spec fn with_slot(roster: Seq<(i64, Contract)>, root: i64, row: Option<Contract>) -> Seq<(i64, Contract)> {
    match slot_from(roster, root, 0) {
        Some(position) => match row {
            Some(contract) => roster.update(position, (root, contract)),
            None => roster.remove(position),
        },
        None => match row {
            Some(contract) => roster.push((root, contract)),
            None => roster,
        },
    }
}

/// The rows of a roster.
pub open spec fn rows(roster: Seq<(i64, Contract)>) -> Seq<Contract> {
    roster.map_values(|slot: (i64, Contract)| slot.1)
}

/// Puts `row` in chain `root`'s slot, or clears the slot when `row` is `None`.
pub fn set_roster_slot(roster: &mut Vec<(i64, Contract)>, root: i64, row: Option<Contract>)
    ensures
        final(roster)@ == with_slot(old(roster)@, root, row),
{
    let mut position: usize = 0;
    while position < roster.len()
        invariant
            position <= roster.len(),
            roster@ == old(roster)@,
            slot_from(roster@, root, 0) == slot_from(roster@, root, position as int),
        decreases roster.len() - position,
    {
        if roster[position].0 == root {
            match row {
                Some(contract) => {
                    roster.set(position, (root, contract));
                },
                None => {
                    roster.remove(position);
                },
            }
            return;
        }
        position += 1;
    }
    if let Some(contract) = row {
        roster.push((root, contract));
    }
}

/// The roster the live rows give, one slot per chain, a later row of a chain winning.
pub open spec fn roster_of_rows(live: Seq<Contract>) -> Seq<(i64, Contract)>
    decreases live.len(),
{
    if live.len() == 0 {
        Seq::empty()
    } else {
        with_slot(roster_of_rows(live.drop_last()), spec_root_of(live.last()), Some(live.last()))
    }
}

/// A roster with the week's changes from `updates` undone, newest first.
pub open spec fn undo_changes(
    roster: Seq<(i64, Contract)>,
    updates: Seq<ContractUpdate>,
    team_id: i64,
    by_id: Map<i64, Contract>,
) -> Seq<(i64, Contract)>
    decreases updates.len(),
{
    if updates.len() == 0 {
        roster
    } else {
        let undone_last = match spec_roster_change(updates.last(), team_id, by_id) {
            Some(change) => with_slot(roster, change.root, change.before),
            None => roster,
        };
        undo_changes(undone_last, updates.drop_last(), team_id, by_id)
    }
}

/// A roster with the changes of `updates` applied, oldest first.
pub open spec fn apply_changes(
    roster: Seq<(i64, Contract)>,
    updates: Seq<ContractUpdate>,
    team_id: i64,
    by_id: Map<i64, Contract>,
) -> Seq<(i64, Contract)>
    decreases updates.len(),
{
    if updates.len() == 0 {
        roster
    } else {
        let applied = apply_changes(roster, updates.drop_last(), team_id, by_id);
        match spec_roster_change(updates.last(), team_id, by_id) {
            Some(change) => with_slot(applied, change.root, change.after),
            None => applied,
        }
    }
}

/// The roster the week opened with: the live rows with every change of the week undone.
pub fn opening_roster(
    team_id: i64,
    live_contracts: &Vec<Contract>,
    week_updates: &Vec<ContractUpdate>,
    contracts_by_id: &HashMap<i64, Contract>,
) -> (roster: Vec<(i64, Contract)>)
    ensures
        roster@ == undo_changes(
            roster_of_rows(live_contracts@),
            week_updates@,
            team_id,
            contracts_by_id@,
        ),
        one_slot_per_chain(roster@),
{
    proof {
        lemma_opening_has_one_slot_per_chain(live_contracts@, week_updates@, team_id, contracts_by_id@);
    }
    let mut roster: Vec<(i64, Contract)> = Vec::new();
    let mut index: usize = 0;
    while index < live_contracts.len()
        invariant
            index <= live_contracts.len(),
            roster@ == roster_of_rows(live_contracts@.take(index as int)),
        decreases live_contracts.len() - index,
    {
        proof {
            assert(live_contracts@.take(index + 1).drop_last() =~= live_contracts@.take(
                index as int,
            ));
        }
        let row = live_contracts[index];
        set_roster_slot(&mut roster, root_of(&row), Some(row));
        index += 1;
    }
    proof {
        assert(live_contracts@.take(live_contracts.len() as int) =~= live_contracts@);
    }
    let ghost opened = roster@;
    proof {
        assert(week_updates@.take(week_updates.len() as int) =~= week_updates@);
    }
    let mut remaining: usize = week_updates.len();
    while remaining > 0
        invariant
            remaining <= week_updates.len(),
            undo_changes(opened, week_updates@, team_id, contracts_by_id@) == undo_changes(
                roster@,
                week_updates@.take(remaining as int),
                team_id,
                contracts_by_id@,
            ),
        decreases remaining,
    {
        proof {
            assert(week_updates@.take(remaining as int).drop_last() =~= week_updates@.take(
                remaining - 1,
            ));
        }
        if let Some(change) = roster_change(&week_updates[remaining - 1], team_id, contracts_by_id) {
            set_roster_slot(&mut roster, change.root, change.before);
        }
        remaining -= 1;
    }
    proof {
        assert(week_updates@.take(0) =~= Seq::<ContractUpdate>::empty());
    }
    roster
}

/// Why a transaction order could not be saved.
#[derive(Clone, Debug, PartialEq, Eq)]
pub enum TransactionOrderError {
    /// Some transaction of the order leaves the roster illegal.
    Rejected(RosterMoveRejection),
    /// The governing deadline is one whose rosters this check does not judge.
    NotJudged(RosterLockError),
}

/// The roster after the first `count` transactions of an order, from the week's opening roster.
pub open spec fn roster_after(
    opening: Seq<(i64, Contract)>,
    transactions: Seq<Vec<ContractUpdate>>,
    count: int,
    team_id: i64,
    by_id: Map<i64, Contract>,
) -> Seq<(i64, Contract)>
    decreases count,
{
    if count <= 0 {
        opening
    } else {
        apply_changes(
            roster_after(opening, transactions, count - 1, team_id, by_id),
            transactions[count - 1]@,
            team_id,
            by_id,
        )
    }
}

/// The broken rules of a roster state at the governing deadline.
pub open spec fn state_violations(
    roster: Seq<(i64, Contract)>,
    kind: DeadlineKind,
    maybe_cap: Option<i16>,
    dropped: Seq<Contract>,
) -> Seq<crate::deadline_processing::roster_lock::RosterRule> {
    roster_violations(
        rows(roster),
        kind,
        counted_salary(rows(roster)),
        spec_salary_snapshot(Seq::empty(), kind, maybe_cap, dropped).1,
    )
}

/// The broken rules once transaction `t` of an order has applied.
pub open spec fn violations_after(
    opening: Seq<(i64, Contract)>,
    transactions: Seq<Vec<ContractUpdate>>,
    t: int,
    team_id: i64,
    by_id: Map<i64, Contract>,
    kind: DeadlineKind,
    maybe_cap: Option<i16>,
    dropped: Seq<Contract>,
) -> Seq<crate::deadline_processing::roster_lock::RosterRule> {
    state_violations(roster_after(opening, transactions, t + 1, team_id, by_id), kind, maybe_cap, dropped)
}

/// Refuses a proposed transaction order that leaves the roster illegal after any of its
/// transactions (rule T1). `week_updates` is every change the week recorded, oldest first;
/// `live_contracts` the team's rows now; `ordered_transactions` the order being saved;
/// `governing_kind`, `maybe_cap` and `dropped` give the limits and cap the moves are judged by.
/// The error names the violations of the first transaction that breaks a rule.
pub fn validate_transaction_order(
    team_id: i64,
    live_contracts: &Vec<Contract>,
    week_updates: &Vec<ContractUpdate>,
    ordered_transactions: &Vec<Vec<ContractUpdate>>,
    contracts_by_id: &HashMap<i64, Contract>,
    governing_kind: DeadlineKind,
    maybe_cap: Option<i16>,
    dropped: &Vec<Contract>,
) -> (verdict: Result<(), TransactionOrderError>)
    ensures
        governing_kind is PreseasonKeeper ==> verdict == Err::<(), TransactionOrderError>(
            TransactionOrderError::NotJudged(RosterLockError::KeeperDeadline),
        ),
        governing_kind is PreseasonStart ==> verdict == Err::<(), TransactionOrderError>(
            TransactionOrderError::NotJudged(RosterLockError::PreseasonStart),
        ),
        !(governing_kind is PreseasonKeeper) && !(governing_kind is PreseasonStart) ==> {
            let opening = undo_changes(
                roster_of_rows(live_contracts@),
                week_updates@,
                team_id,
                contracts_by_id@,
            );
            &&& verdict is Ok <==> forall|t: int|
                0 <= t < ordered_transactions.len() ==> (#[trigger] violations_after(
                    opening,
                    ordered_transactions@,
                    t,
                    team_id,
                    contracts_by_id@,
                    governing_kind,
                    maybe_cap,
                    dropped@,
                )).len() == 0
            &&& verdict matches Err(error) ==> exists|t: int|
                0 <= t < ordered_transactions.len() && (#[trigger] violations_after(
                    opening,
                    ordered_transactions@,
                    t,
                    team_id,
                    contracts_by_id@,
                    governing_kind,
                    maybe_cap,
                    dropped@,
                )).len() > 0 && (forall|k: int|
                    0 <= k < t ==> (#[trigger] violations_after(
                        opening,
                        ordered_transactions@,
                        k,
                        team_id,
                        contracts_by_id@,
                        governing_kind,
                        maybe_cap,
                        dropped@,
                    )).len() == 0) && (error matches TransactionOrderError::Rejected(
                    RosterMoveRejection::TransactionLeavesRosterIllegal {
                        team_id: rejected_team,
                        violations,
                    },
                ) && rejected_team == team_id && violations@ == team_violations(
                    team_id,
                    violations_after(
                        opening,
                        ordered_transactions@,
                        t,
                        team_id,
                        contracts_by_id@,
                        governing_kind,
                        maybe_cap,
                        dropped@,
                    ),
                ))
        },
{
    if matches!(governing_kind, DeadlineKind::PreseasonKeeper) {
        return Err(TransactionOrderError::NotJudged(RosterLockError::KeeperDeadline));
    }
    if matches!(governing_kind, DeadlineKind::PreseasonStart) {
        return Err(TransactionOrderError::NotJudged(RosterLockError::PreseasonStart));
    }
    let cap = team_cap(governing_kind, maybe_cap, dropped);
    let mut roster = opening_roster(team_id, live_contracts, week_updates, contracts_by_id);
    let ghost opening = roster@;
    let mut t: usize = 0;
    while t < ordered_transactions.len()
        invariant
            t <= ordered_transactions.len(),
            !(governing_kind is PreseasonKeeper) && !(governing_kind is PreseasonStart),
            cap == spec_salary_snapshot(Seq::empty(), governing_kind, maybe_cap, dropped@).1,
            opening == undo_changes(
                roster_of_rows(live_contracts@),
                week_updates@,
                team_id,
                contracts_by_id@,
            ),
            roster@ == roster_after(opening, ordered_transactions@, t as int, team_id, contracts_by_id@),
            forall|k: int|
                0 <= k < t ==> (#[trigger] violations_after(
                    opening,
                    ordered_transactions@,
                    k,
                    team_id,
                    contracts_by_id@,
                    governing_kind,
                    maybe_cap,
                    dropped@,
                )).len() == 0,
        decreases ordered_transactions.len() - t,
    {
        let transaction = &ordered_transactions[t];
        let ghost before = roster@;
        let mut u: usize = 0;
        while u < transaction.len()
            invariant
                u <= transaction.len(),
                roster@ == apply_changes(before, transaction@.take(u as int), team_id, contracts_by_id@),
            decreases transaction.len() - u,
        {
            proof {
                assert(transaction@.take(u + 1).drop_last() =~= transaction@.take(u as int));
            }
            if let Some(change) = roster_change(&transaction[u], team_id, contracts_by_id) {
                set_roster_slot(&mut roster, change.root, change.after);
            }
            u += 1;
        }
        proof {
            assert(transaction@.take(transaction.len() as int) =~= transaction@);
            assert(ordered_transactions@[t as int] == *transaction);
        }
        let team_contracts = roster_rows(&roster);
        let salary = total_counted_salary(&team_contracts);
        proof {
            assert(roster@ == roster_after(
                opening,
                ordered_transactions@,
                t + 1,
                team_id,
                contracts_by_id@,
            ));
            assert(violations_after(
                opening,
                ordered_transactions@,
                t as int,
                team_id,
                contracts_by_id@,
                governing_kind,
                maybe_cap,
                dropped@,
            ) == roster_violations(team_contracts@, governing_kind, salary as int, cap as int));
        }
        match validate_roster_contracts(team_id, &team_contracts, governing_kind, salary, cap) {
            Ok(violations) => {
                if violations.len() > 0 {
                    return Err(
                        TransactionOrderError::Rejected(
                            RosterMoveRejection::TransactionLeavesRosterIllegal {
                                team_id,
                                violations,
                            },
                        ),
                    );
                }
            },
            Err(error) => {
                return Err(TransactionOrderError::NotJudged(error));
            },
        }
        t += 1;
    }
    Ok(())
}

/// The rows of a roster, in slot order.
fn roster_rows(roster: &Vec<(i64, Contract)>) -> (contracts: Vec<Contract>)
    ensures
        contracts@ == rows(roster@),
{
    let mut contracts: Vec<Contract> = Vec::new();
    let mut index: usize = 0;
    while index < roster.len()
        invariant
            index <= roster.len(),
            contracts@ == rows(roster@.take(index as int)),
        decreases roster.len() - index,
    {
        proof {
            assert(rows(roster@.take(index + 1)) =~= rows(roster@.take(index as int)).push(
                roster@[index as int].1,
            ));
        }
        contracts.push(roster[index].1);
        index += 1;
    }
    proof {
        assert(roster@.take(roster.len() as int) =~= roster@);
    }
    contracts
}

/// The row chain `root` holds in a roster, `None` when the roster has no slot for it.
pub open spec fn chain_row(roster: Seq<(i64, Contract)>, root: i64) -> Option<Contract> {
    match slot_from(roster, root, 0) {
        Some(position) => Some(roster[position].1),
        None => None,
    }
}

/// A roster holds at most one slot per chain.
pub open spec fn one_slot_per_chain(roster: Seq<(i64, Contract)>) -> bool {
    forall|i: int, j: int|
        0 <= i < j < roster.len() ==> #[trigger] roster[i].0 != #[trigger] roster[j].0
}

/// Some change of `updates` moves chain `root` on `team_id`'s roster.
pub open spec fn touches_chain(
    updates: Seq<ContractUpdate>,
    team_id: i64,
    by_id: Map<i64, Contract>,
    root: i64,
) -> bool {
    exists|i: int|
        0 <= i < updates.len() && (#[trigger] spec_roster_change(updates[i], team_id, by_id) matches Some(
            change,
        ) && change.root == root)
}

proof fn lemma_slot_from_first(roster: Seq<(i64, Contract)>, root: i64, from: int)
    requires
        0 <= from,
    ensures
        slot_from(roster, root, from) matches Some(position) ==> from <= position < roster.len()
            && roster[position].0 == root && forall|j: int|
            from <= j < position ==> #[trigger] roster[j].0 != root,
        slot_from(roster, root, from) is None ==> forall|j: int|
            from <= j < roster.len() ==> #[trigger] roster[j].0 != root,
    decreases roster.len() - from,
{
    if from < roster.len() && roster[from].0 != root {
        lemma_slot_from_first(roster, root, from + 1);
    }
}

proof fn lemma_slot_at(roster: Seq<(i64, Contract)>, root: i64, position: int)
    requires
        one_slot_per_chain(roster),
        0 <= position < roster.len(),
        roster[position].0 == root,
    ensures
        slot_from(roster, root, 0) == Some(position),
{
    lemma_slot_from_first(roster, root, 0);
    if let Some(found) = slot_from(roster, root, 0) {
        if found != position {
            if found < position {
                assert(roster[found].0 != roster[position].0);
            } else {
                assert(roster[position].0 != root);
            }
        }
    }
}

proof fn lemma_no_slot(roster: Seq<(i64, Contract)>, root: i64)
    requires
        forall|j: int| 0 <= j < roster.len() ==> #[trigger] roster[j].0 != root,
    ensures
        slot_from(roster, root, 0) is None,
{
    lemma_slot_from_first(roster, root, 0);
}

/// Writing one chain's slot keeps one slot per chain and moves that chain alone.
proof fn lemma_with_slot_moves_one_chain(roster: Seq<(i64, Contract)>, root: i64, row: Option<Contract>)
    requires
        one_slot_per_chain(roster),
    ensures
        one_slot_per_chain(with_slot(roster, root, row)),
        forall|other: i64|
            #[trigger] chain_row(with_slot(roster, root, row), other) == if other == root {
                row
            } else {
                chain_row(roster, other)
            },
{
    lemma_slot_from_first(roster, root, 0);
    let written = with_slot(roster, root, row);
    match slot_from(roster, root, 0) {
        Some(position) => {
            match row {
                Some(contract) => {
                    assert forall|i: int, j: int|
                        0 <= i < j < written.len() implies #[trigger] written[i].0
                        != #[trigger] written[j].0 by {
                        assert(roster[i].0 != roster[j].0);
                    }
                    assert forall|other: i64|
                        #[trigger] chain_row(written, other) == if other == root {
                            row
                        } else {
                            chain_row(roster, other)
                        } by {
                        lemma_slot_from_first(roster, other, 0);
                        match slot_from(roster, other, 0) {
                            Some(at) => {
                                lemma_slot_at(written, other, at);
                            },
                            None => {
                                if other == root {
                                } else {
                                    lemma_no_slot(written, other);
                                }
                            },
                        }
                    }
                },
                None => {
                    assert forall|i: int, j: int|
                        0 <= i < j < written.len() implies #[trigger] written[i].0
                        != #[trigger] written[j].0 by {
                        let oi = if i < position { i } else { i + 1 };
                        let oj = if j < position { j } else { j + 1 };
                        assert(roster[oi].0 != roster[oj].0);
                    }
                    assert forall|other: i64|
                        #[trigger] chain_row(written, other) == if other == root {
                            row
                        } else {
                            chain_row(roster, other)
                        } by {
                        if other == root {
                            assert forall|j: int| 0 <= j < written.len() implies #[trigger] written[j].0
                                != other by {
                                let oj = if j < position { j } else { j + 1 };
                                assert(roster[position].0 != roster[oj].0);
                            }
                            lemma_no_slot(written, other);
                        } else {
                            lemma_slot_from_first(roster, other, 0);
                            match slot_from(roster, other, 0) {
                                Some(at) => {
                                    let moved = if at < position { at } else { at - 1 };
                                    assert(written[moved] == roster[at]);
                                    lemma_slot_at(written, other, moved);
                                },
                                None => {
                                    assert forall|j: int|
                                        0 <= j < written.len() implies #[trigger] written[j].0
                                        != other by {
                                        let oj = if j < position { j } else { j + 1 };
                                        assert(roster[oj].0 != other);
                                    }
                                    lemma_no_slot(written, other);
                                },
                            }
                        }
                    }
                },
            }
        },
        None => {
            match row {
                Some(contract) => {
                    assert forall|i: int, j: int|
                        0 <= i < j < written.len() implies #[trigger] written[i].0
                        != #[trigger] written[j].0 by {
                        if j < roster.len() {
                            assert(roster[i].0 != roster[j].0);
                        } else {
                            assert(roster[i].0 != root);
                        }
                    }
                    assert forall|other: i64|
                        #[trigger] chain_row(written, other) == if other == root {
                            row
                        } else {
                            chain_row(roster, other)
                        } by {
                        if other == root {
                            lemma_slot_at(written, other, roster.len() as int);
                        } else {
                            lemma_slot_from_first(roster, other, 0);
                            match slot_from(roster, other, 0) {
                                Some(at) => {
                                    lemma_slot_at(written, other, at);
                                },
                                None => {
                                    lemma_no_slot(written, other);
                                },
                            }
                        }
                    }
                },
                None => {
                    assert forall|other: i64|
                        #[trigger] chain_row(written, other) == if other == root {
                            row
                        } else {
                            chain_row(roster, other)
                        } by {
                        if other == root {
                            lemma_no_slot(written, other);
                        }
                    }
                },
            }
        },
    }
}

/// Applying changes keeps one slot per chain, and leaves every chain they do not move as it was.
proof fn lemma_changes_move_only_their_chains(
    roster: Seq<(i64, Contract)>,
    updates: Seq<ContractUpdate>,
    team_id: i64,
    by_id: Map<i64, Contract>,
)
    requires
        one_slot_per_chain(roster),
    ensures
        one_slot_per_chain(apply_changes(roster, updates, team_id, by_id)),
        forall|other: i64|
            !touches_chain(updates, team_id, by_id, other) ==> #[trigger] chain_row(
                apply_changes(roster, updates, team_id, by_id),
                other,
            ) == chain_row(roster, other),
    decreases updates.len(),
{
    if updates.len() > 0 {
        let prefix = updates.drop_last();
        lemma_changes_move_only_their_chains(roster, prefix, team_id, by_id);
        let applied = apply_changes(roster, prefix, team_id, by_id);
        if let Some(change) = spec_roster_change(updates.last(), team_id, by_id) {
            lemma_with_slot_moves_one_chain(applied, change.root, change.after);
        }
        assert forall|other: i64|
            !touches_chain(updates, team_id, by_id, other) implies #[trigger] chain_row(
                apply_changes(roster, updates, team_id, by_id),
                other,
            ) == chain_row(roster, other) by {
            if touches_chain(prefix, team_id, by_id, other) {
                let i = choose|i: int|
                    0 <= i < prefix.len() && (#[trigger] spec_roster_change(
                        prefix[i],
                        team_id,
                        by_id,
                    ) matches Some(change) && change.root == other);
                assert(updates[i] == prefix[i]);
            }
            if let Some(change) = spec_roster_change(updates.last(), team_id, by_id) {
                if change.root == other {
                    assert(spec_roster_change(updates[updates.len() - 1], team_id, by_id) matches Some(
                        c,
                    ) && c.root == other);
                }
            }
        }
    }
}

/// What changes do to a chain depends only on the row the chain held before them.
proof fn lemma_changes_read_only_their_chain(
    roster: Seq<(i64, Contract)>,
    other_roster: Seq<(i64, Contract)>,
    updates: Seq<ContractUpdate>,
    team_id: i64,
    by_id: Map<i64, Contract>,
    root: i64,
)
    requires
        one_slot_per_chain(roster),
        one_slot_per_chain(other_roster),
        chain_row(roster, root) == chain_row(other_roster, root),
    ensures
        chain_row(apply_changes(roster, updates, team_id, by_id), root) == chain_row(
            apply_changes(other_roster, updates, team_id, by_id),
            root,
        ),
    decreases updates.len(),
{
    if updates.len() > 0 {
        let prefix = updates.drop_last();
        lemma_changes_read_only_their_chain(roster, other_roster, prefix, team_id, by_id, root);
        lemma_changes_move_only_their_chains(roster, prefix, team_id, by_id);
        lemma_changes_move_only_their_chains(other_roster, prefix, team_id, by_id);
        if let Some(change) = spec_roster_change(updates.last(), team_id, by_id) {
            lemma_with_slot_moves_one_chain(
                apply_changes(roster, prefix, team_id, by_id),
                change.root,
                change.after,
            );
            lemma_with_slot_moves_one_chain(
                apply_changes(other_roster, prefix, team_id, by_id),
                change.root,
                change.after,
            );
        }
    }
}

/// Every roster state of an order keeps one slot per chain, and a chain no transaction of the
/// first `count` moves still holds its opening row.
proof fn lemma_untouched_chain_keeps_its_row(
    opening: Seq<(i64, Contract)>,
    transactions: Seq<Vec<ContractUpdate>>,
    count: int,
    team_id: i64,
    by_id: Map<i64, Contract>,
    root: i64,
)
    requires
        one_slot_per_chain(opening),
        0 <= count <= transactions.len(),
    ensures
        one_slot_per_chain(roster_after(opening, transactions, count, team_id, by_id)),
        (forall|t: int|
            0 <= t < count ==> !touches_chain(#[trigger] transactions[t]@, team_id, by_id, root))
            ==> chain_row(roster_after(opening, transactions, count, team_id, by_id), root)
            == chain_row(opening, root),
    decreases count,
{
    if count > 0 {
        lemma_untouched_chain_keeps_its_row(opening, transactions, count - 1, team_id, by_id, root);
        lemma_changes_move_only_their_chains(
            roster_after(opening, transactions, count - 1, team_id, by_id),
            transactions[count - 1]@,
            team_id,
            by_id,
        );
    }
}

/// When transaction `mover` is the only one of the first `count` that moves chain `root`, the
/// chain holds what `mover` alone makes of its opening row.
proof fn lemma_only_mover_decides(
    opening: Seq<(i64, Contract)>,
    transactions: Seq<Vec<ContractUpdate>>,
    count: int,
    mover: int,
    team_id: i64,
    by_id: Map<i64, Contract>,
    root: i64,
)
    requires
        one_slot_per_chain(opening),
        0 <= mover < count <= transactions.len(),
        forall|t: int|
            0 <= t < count && t != mover ==> !touches_chain(
                #[trigger] transactions[t]@,
                team_id,
                by_id,
                root,
            ),
    ensures
        chain_row(roster_after(opening, transactions, count, team_id, by_id), root) == chain_row(
            apply_changes(opening, transactions[mover]@, team_id, by_id),
            root,
        ),
    decreases count,
{
    let previous = roster_after(opening, transactions, count - 1, team_id, by_id);
    lemma_untouched_chain_keeps_its_row(opening, transactions, count - 1, team_id, by_id, root);
    if count - 1 == mover {
        lemma_changes_read_only_their_chain(
            previous,
            opening,
            transactions[mover]@,
            team_id,
            by_id,
            root,
        );
    } else {
        lemma_only_mover_decides(opening, transactions, count - 1, mover, team_id, by_id, root);
        lemma_changes_move_only_their_chains(previous, transactions[count - 1]@, team_id, by_id);
    }
}

/// Reordering a week's transactions never changes the roster the week ends with, when no chain is
/// moved by two of its transactions: `reordered` lists the transactions of `order`, the one at
/// position `j` being `order[positions[j]]`, and every chain ends with the same row either way.
pub proof fn lemma_reordering_keeps_the_end_roster(
    opening: Seq<(i64, Contract)>,
    order: Seq<Vec<ContractUpdate>>,
    reordered: Seq<Vec<ContractUpdate>>,
    positions: Seq<int>,
    team_id: i64,
    by_id: Map<i64, Contract>,
)
    requires
        one_slot_per_chain(opening),
        reordered.len() == order.len(),
        positions.len() == order.len(),
        forall|j: int|
            0 <= j < reordered.len() ==> 0 <= #[trigger] positions[j] < order.len()
                && reordered[j] == order[positions[j]],
        forall|j: int, k: int|
            0 <= j < k < positions.len() ==> #[trigger] positions[j] != #[trigger] positions[k],
        forall|i: int|
            #![trigger order[i]]
            0 <= i < order.len() ==> exists|j: int| 0 <= j < positions.len() && #[trigger] positions[j] == i,
        forall|i: int, k: int, root: i64|
            0 <= i < order.len() && 0 <= k < order.len() && i != k && #[trigger] touches_chain(
                order[i]@,
                team_id,
                by_id,
                root,
            ) ==> !#[trigger] touches_chain(order[k]@, team_id, by_id, root),
    ensures
        forall|root: i64|
            #[trigger] chain_row(roster_after(opening, order, order.len() as int, team_id, by_id), root)
                == chain_row(
                roster_after(opening, reordered, reordered.len() as int, team_id, by_id),
                root,
            ),
{
    let n = order.len() as int;
    assert forall|root: i64|
        #[trigger] chain_row(roster_after(opening, order, n, team_id, by_id), root) == chain_row(
            roster_after(opening, reordered, n, team_id, by_id),
            root,
        ) by {
        if exists|i: int| 0 <= i < n && touches_chain(#[trigger] order[i]@, team_id, by_id, root) {
            let mover = choose|i: int|
                0 <= i < n && touches_chain(#[trigger] order[i]@, team_id, by_id, root);
            let moved_to = choose|j: int| 0 <= j < positions.len() && #[trigger] positions[j] == mover;
            assert forall|t: int| 0 <= t < n && t != mover implies !touches_chain(
                #[trigger] order[t]@,
                team_id,
                by_id,
                root,
            ) by {}
            assert forall|t: int| 0 <= t < n && t != moved_to implies !touches_chain(
                #[trigger] reordered[t]@,
                team_id,
                by_id,
                root,
            ) by {
                assert(reordered[t] == order[positions[t]]);
                if t < moved_to {
                    assert(positions[t] != positions[moved_to]);
                } else {
                    assert(positions[moved_to] != positions[t]);
                }
                assert(!touches_chain(order[positions[t]]@, team_id, by_id, root));
            }
            assert(reordered[moved_to] == order[mover]);
            lemma_only_mover_decides(opening, order, n, mover, team_id, by_id, root);
            lemma_only_mover_decides(opening, reordered, n, moved_to, team_id, by_id, root);
        } else {
            assert forall|t: int| 0 <= t < n implies !touches_chain(
                #[trigger] reordered[t]@,
                team_id,
                by_id,
                root,
            ) by {
                assert(reordered[t] == order[positions[t]]);
                assert(!touches_chain(order[positions[t]]@, team_id, by_id, root));
            }
            lemma_untouched_chain_keeps_its_row(opening, order, n, team_id, by_id, root);
            lemma_untouched_chain_keeps_its_row(opening, reordered, n, team_id, by_id, root);
        }
    }
}

proof fn lemma_opening_has_one_slot_per_chain(
    live: Seq<Contract>,
    updates: Seq<ContractUpdate>,
    team_id: i64,
    by_id: Map<i64, Contract>,
)
    ensures
        one_slot_per_chain(roster_of_rows(live)),
        one_slot_per_chain(undo_changes(roster_of_rows(live), updates, team_id, by_id)),
    decreases live.len(),
{
    if live.len() > 0 {
        lemma_opening_has_one_slot_per_chain(live.drop_last(), updates, team_id, by_id);
        lemma_with_slot_moves_one_chain(
            roster_of_rows(live.drop_last()),
            spec_root_of(live.last()),
            Some(live.last()),
        );
    }
    lemma_undo_keeps_one_slot_per_chain(roster_of_rows(live), updates, team_id, by_id);
}

proof fn lemma_undo_keeps_one_slot_per_chain(
    roster: Seq<(i64, Contract)>,
    updates: Seq<ContractUpdate>,
    team_id: i64,
    by_id: Map<i64, Contract>,
)
    requires
        one_slot_per_chain(roster),
    ensures
        one_slot_per_chain(undo_changes(roster, updates, team_id, by_id)),
    decreases updates.len(),
{
    if updates.len() > 0 {
        let undone_last = match spec_roster_change(updates.last(), team_id, by_id) {
            Some(change) => with_slot(roster, change.root, change.before),
            None => roster,
        };
        if let Some(change) = spec_roster_change(updates.last(), team_id, by_id) {
            lemma_with_slot_moves_one_chain(roster, change.root, change.before);
        }
        lemma_undo_keeps_one_slot_per_chain(undone_last, updates.drop_last(), team_id, by_id);
    }
}

} // verus!
