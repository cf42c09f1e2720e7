//! Deciding what happens to the deadlines whose time has come (case by case, the database work is
//! the caller's): which are ready, in what order each league season's are taken, whether a
//! deadline's prerequisites are processed, what it triggers, and how it is recorded afterwards.
use crate::deadline_config::generation::{
    dependency_order, generate_deadlines_from_config, generated_kinds, generated_labels,
    generated_times,
    generation_in_range, get_deadline_dependency_order, DeadlineConfigRule, GeneratedDeadline,
};
use crate::model::{Deadline, DeadlineKind, DeadlineStatus};
use crate::text::decimal_text;
use crate::time::Timestamp;
use vstd::prelude::*;

verus! {

/// What processing one deadline came to.
#[derive(Clone, Debug, PartialEq, Eq)]
pub struct ProcessingResult {
    pub deadline_id: i64,
    pub deadline_kind: DeadlineKind,
    pub success: bool,
    pub error_message: Option<String>,
}

/// Where a deadline kind sits in the dependency order; `None` for kinds outside it.
pub fn dependency_position(kind: DeadlineKind) -> (position: Option<usize>)
    ensures
        match position {
            Some(p) => p < dependency_order().len() && dependency_order()[p as int] == kind
                && forall|k: int| 0 <= k < p ==> dependency_order()[k] != kind,
            None => forall|k: int| 0 <= k < dependency_order().len() ==> dependency_order()[k] != kind,
        },
{
    let order = get_deadline_dependency_order();
    let mut index: usize = 0;
    while index < order.len()
        invariant
            index <= order.len(),
            order@ == dependency_order(),
            forall|k: int| 0 <= k < index ==> order@[k] != kind,
        decreases order.len() - index,
    {
        if order[index] == kind {
            return Some(index);
        }
        index += 1;
    }
    None
}

/// The status of the season's first deadline of `kind`, when the season has one.
pub open spec fn season_status(season: Seq<Deadline>, kind: DeadlineKind) -> Option<DeadlineStatus>
    decreases season.len(),
{
    if season.len() == 0 {
        None
    } else if season[0].kind == kind {
        Some(season[0].status)
    } else {
        season_status(season.drop_first(), kind)
    }
}

fn find_season_status(season: &Vec<Deadline>, kind: DeadlineKind) -> (status: Option<DeadlineStatus>)
    ensures
        status == season_status(season@, kind),
{
    let mut index: usize = 0;
    proof {
        assert(season@.skip(0) =~= season@);
    }
    while index < season.len()
        invariant
            index <= season.len(),
            season_status(season@, kind) == season_status(season@.skip(index as int), kind),
        decreases season.len() - index,
    {
        proof {
            assert(season@.skip(index as int).drop_first() =~= season@.skip(index + 1));
        }
        if season[index].kind == kind {
            return Some(season[index].status);
        }
        index += 1;
    }
    None
}

/// Checks the prerequisites of a deadline of `kind`: every kind before it in the dependency
/// order is processed, or absent from the season. A kind outside the order may always be
/// processed.
pub fn check_deadline_prerequisites(kind: DeadlineKind, season: &Vec<Deadline>) -> (met: bool)
    ensures
        met == (match position_first(kind) {
            None => true,
            Some(p) => forall|k: int|
                0 <= k < p ==> match #[trigger] season_status(season@, dependency_order()[k]) {
                    Some(status) => status is Processed,
                    None => true,
                },
        }),
{
    let position = match dependency_position(kind) {
        Some(position) => position,
        None => {
            proof {
                assert(position_first(kind) is None);
            }
            return true;
        },
    };
    proof {
        lemma_position_first(kind, position as int);
    }
    let order = get_deadline_dependency_order();
    let mut index: usize = 0;
    while index < position
        invariant
            index <= position < order.len(),
            order@ == dependency_order(),
            position_first(kind) == Some(position as int),
            forall|k: int|
                0 <= k < index ==> match #[trigger] season_status(season@, dependency_order()[k]) {
                    Some(status) => status is Processed,
                    None => true,
                },
        decreases position - index,
    {
        let found = find_season_status(season, order[index]);
        match found {
            Some(status) => {
                if !matches!(status, DeadlineStatus::Processed) {
                    proof {
                        assert(season_status(season@, dependency_order()[index as int]) == found);
                    }
                    return false;
                }
            },
            None => {},
        }
        index += 1;
    }
    true
}

/// The first position of `kind` in the dependency order.
pub open spec fn position_first(kind: DeadlineKind) -> Option<int> {
    if exists|p: int| 0 <= p < dependency_order().len() && dependency_order()[p] == kind {
        Some(
            choose|p: int|
                0 <= p < dependency_order().len() && dependency_order()[p] == kind && forall|q: int|
                    0 <= q < p ==> dependency_order()[q] != kind,
        )
    } else {
        None
    }
}

proof fn lemma_position_first(kind: DeadlineKind, position: int)
    requires
        0 <= position < dependency_order().len(),
        dependency_order()[position] == kind,
        forall|q: int| 0 <= q < position ==> dependency_order()[q] != kind,
    ensures
        position_first(kind) == Some(position),
{
    let p = choose|p: int|
        0 <= p < dependency_order().len() && dependency_order()[p] == kind && forall|q: int|
            0 <= q < p ==> dependency_order()[q] != kind;
    if p < position {
        assert(dependency_order()[p] != kind);
    }
    if p > position {
        assert(dependency_order()[position] != kind);
    }
}

/// What firing a deadline does.
#[derive(Clone, Copy, Debug, PartialEq, Eq, Structural)]
pub enum DeadlineAction {
    /// Run the keeper deadline transaction.
    KeeperTransaction,
    /// Lock the league's rosters.
    LockRosters,
    /// Nothing to run: the deadline is a trigger for other parts of the league.
    Trigger,
    /// Nothing is run for this kind yet; it is marked processed all the same.
    Unsupported,
}

/// What firing a deadline of `kind` does.
pub open spec fn spec_deadline_action(kind: DeadlineKind) -> DeadlineAction {
    match kind {
        DeadlineKind::PreseasonKeeper => DeadlineAction::KeeperTransaction,
        DeadlineKind::PreseasonFinalRosterLock | DeadlineKind::Week1RosterLock
        | DeadlineKind::InSeasonRosterLock => DeadlineAction::LockRosters,
        DeadlineKind::PreseasonVeteranAuctionStart | DeadlineKind::PreseasonFaAuctionStart
        | DeadlineKind::PreseasonFaAuctionEnd
        | DeadlineKind::PreseasonRookieDraftStart => DeadlineAction::Trigger,
        _ => DeadlineAction::Unsupported,
    }
}

/// What firing a deadline of `kind` does.
pub fn deadline_action(kind: DeadlineKind) -> (action: DeadlineAction)
    ensures
        action == spec_deadline_action(kind),
{
    match kind {
        DeadlineKind::PreseasonKeeper => DeadlineAction::KeeperTransaction,
        DeadlineKind::PreseasonFinalRosterLock | DeadlineKind::Week1RosterLock
        | DeadlineKind::InSeasonRosterLock => DeadlineAction::LockRosters,
        DeadlineKind::PreseasonVeteranAuctionStart | DeadlineKind::PreseasonFaAuctionStart
        | DeadlineKind::PreseasonFaAuctionEnd
        | DeadlineKind::PreseasonRookieDraftStart => DeadlineAction::Trigger,
        _ => DeadlineAction::Unsupported,
    }
}

/// The result of a deadline skipped because its prerequisites are not processed.
pub fn prerequisites_not_met(deadline: &Deadline) -> (result: ProcessingResult)
    ensures
        result.deadline_id == deadline.id,
        result.deadline_kind == deadline.kind,
        !result.success,
        result.error_message matches Some(message) && message@ == "Prerequisites not met"@,
{
    ProcessingResult {
        deadline_id: deadline.id,
        deadline_kind: deadline.kind,
        success: false,
        error_message: Some("Prerequisites not met".to_owned()),
    }
}

/// The status a processed deadline ends in and the result reported for it, given what its action
/// came to: `Processed` and success, or `Error` with the action's message.
pub fn finish_processing(deadline: &Deadline, outcome: Result<(), String>) -> (finished: (DeadlineStatus, ProcessingResult))
    ensures
        finished.1.deadline_id == deadline.id,
        finished.1.deadline_kind == deadline.kind,
        match outcome {
            Ok(()) => finished.0 is Processed && finished.1.success && finished.1.error_message is None,
            Err(message) => finished.0 is Error && !finished.1.success && finished.1.error_message
                == Some(message),
        },
{
    match outcome {
        Ok(()) => (
            DeadlineStatus::Processed,
            ProcessingResult {
                deadline_id: deadline.id,
                deadline_kind: deadline.kind,
                success: true,
                error_message: None,
            },
        ),
        Err(message) => (
            DeadlineStatus::Error,
            ProcessingResult {
                deadline_id: deadline.id,
                deadline_kind: deadline.kind,
                success: false,
                error_message: Some(message),
            },
        ),
    }
}

/// What a deadline of the plan is reported as once processing it was attempted: the result
/// processing returned, or, when processing failed outright, a failed result carrying the failure,
/// so the run goes on with the next deadline.
pub fn recorded_result(deadline: &Deadline, attempt: Result<ProcessingResult, String>) -> (result: ProcessingResult)
    ensures
        match attempt {
            Ok(processed) => result == processed,
            Err(message) => result.deadline_id == deadline.id && result.deadline_kind
                == deadline.kind && !result.success && result.error_message == Some(message),
        },
{
    match attempt {
        Ok(processed) => processed,
        Err(message) => ProcessingResult {
            deadline_id: deadline.id,
            deadline_kind: deadline.kind,
            success: false,
            error_message: Some(message),
        },
    }
}

/// The league season a deadline belongs to.
pub open spec fn season_key(deadline: Deadline) -> (i64, i16) {
    (deadline.league_id, deadline.end_of_season_year)
}

/// The activated deadlines whose time has come.
pub open spec fn ready_deadlines(deadlines: Seq<Deadline>, now: Timestamp) -> Seq<Deadline> {
    deadlines.filter(|deadline: Deadline| deadline.status is Activated && deadline.date_time.not_after(now))
}

/// The league seasons of some deadlines, each once, in order of first appearance.
pub open spec fn season_keys(deadlines: Seq<Deadline>) -> Seq<(i64, i16)>
    decreases deadlines.len(),
{
    if deadlines.len() == 0 {
        Seq::empty()
    } else {
        let earlier = season_keys(deadlines.drop_last());
        if earlier.contains(season_key(deadlines.last())) {
            earlier
        } else {
            earlier.push(season_key(deadlines.last()))
        }
    }
}

/// Where a deadline sorts: its dependency position, after every ordered kind when outside it.
pub open spec fn sort_slot(kind: DeadlineKind) -> int {
    match position_first(kind) {
        Some(p) => p,
        None => dependency_order().len() as int,
    }
}

/// A season's deadlines in processing order: by dependency position, kinds outside the order last,
/// ties kept in the order they came.
pub open spec fn in_processing_order(deadlines: Seq<Deadline>) -> Seq<Deadline> {
    Seq::new(dependency_order().len() + 1, |slot: int| deadlines.filter(|deadline: Deadline| sort_slot(deadline.kind) == slot)).flatten()
}

/// The first `count` slots of a season's processing order, each holding the deadlines that sort
/// there, in the order they came.
pub open spec fn slot_batches(deadlines: Seq<Deadline>, count: int) -> Seq<Seq<Deadline>> {
    Seq::new(count as nat, |slot: int| deadlines.filter(|deadline: Deadline| sort_slot(deadline.kind) == slot))
}

/// The deadlines of a list that sort before slot `bound`.
pub open spec fn sorting_before(deadlines: Seq<Deadline>, bound: int) -> Seq<Deadline> {
    deadlines.filter(|deadline: Deadline| sort_slot(deadline.kind) < bound)
}

proof fn lemma_sort_slot_range(kind: DeadlineKind)
    ensures
        0 <= sort_slot(kind) <= 7,
{
    assert(dependency_order().len() == 7);
    if exists|q: int| 0 <= q < dependency_order().len() && dependency_order()[q] == kind {
        let w = choose|q: int| 0 <= q < dependency_order().len() && dependency_order()[q] == kind;
        lemma_first_occurrence(kind, w);
    }
}

proof fn lemma_first_occurrence(kind: DeadlineKind, at: int)
    requires
        0 <= at < dependency_order().len(),
        dependency_order()[at] == kind,
    ensures
        exists|q: int|
            0 <= q < dependency_order().len() && dependency_order()[q] == kind && forall|r: int|
                0 <= r < q ==> dependency_order()[r] != kind,
    decreases at,
{
    if exists|r: int| 0 <= r < at && dependency_order()[r] == kind {
        let r = choose|r: int| 0 <= r < at && dependency_order()[r] == kind;
        lemma_first_occurrence(kind, r);
    } else {
        assert(forall|r: int| 0 <= r < at ==> dependency_order()[r] != kind);
    }
}

proof fn lemma_split_at_slot(deadlines: Seq<Deadline>, bound: int)
    ensures
        sorting_before(deadlines, bound + 1).to_multiset() =~= sorting_before(deadlines, bound).to_multiset().add(
            deadlines.filter(|deadline: Deadline| sort_slot(deadline.kind) == bound).to_multiset(),
        ),
    decreases deadlines.len(),
{
    broadcast use vstd::seq_lib::group_to_multiset_ensures;

    let below_next = |deadline: Deadline| sort_slot(deadline.kind) < bound + 1;
    let below = |deadline: Deadline| sort_slot(deadline.kind) < bound;
    let at = |deadline: Deadline| sort_slot(deadline.kind) == bound;
    if deadlines.len() == 0 {
        deadlines.lemma_filter_len(below_next);
        deadlines.lemma_filter_len(below);
        deadlines.lemma_filter_len(at);
        assert(deadlines.filter(below_next) =~= Seq::<Deadline>::empty());
        assert(deadlines.filter(below) =~= Seq::<Deadline>::empty());
        assert(deadlines.filter(at) =~= Seq::<Deadline>::empty());
    } else {
        let prefix = deadlines.drop_last();
        let last = deadlines.last();
        lemma_split_at_slot(prefix, bound);
        assert(deadlines =~= prefix.push(last));
        prefix.lemma_filter_push(last, below_next);
        prefix.lemma_filter_push(last, below);
        prefix.lemma_filter_push(last, at);
    }
}

proof fn lemma_slot_batches(deadlines: Seq<Deadline>, count: int)
    requires
        0 <= count,
    ensures
        forall|i: int, j: int|
            0 <= i <= j < slot_batches(deadlines, count).flatten().len() ==> sort_slot(
                #[trigger] slot_batches(deadlines, count).flatten()[i].kind,
            ) <= sort_slot(#[trigger] slot_batches(deadlines, count).flatten()[j].kind),
        forall|i: int|
            0 <= i < slot_batches(deadlines, count).flatten().len() ==> sort_slot(
                #[trigger] slot_batches(deadlines, count).flatten()[i].kind,
            ) < count,
        slot_batches(deadlines, count).flatten().to_multiset() =~= sorting_before(
            deadlines,
            count,
        ).to_multiset(),
    decreases count,
{
    broadcast use vstd::seq_lib::group_to_multiset_ensures;

    let below = |deadline: Deadline| sort_slot(deadline.kind) < count;
    if count == 0 {
        assert(slot_batches(deadlines, count) =~= Seq::<Seq<Deadline>>::empty());
        assert(slot_batches(deadlines, count).flatten() =~= Seq::<Deadline>::empty());
        if deadlines.filter(below).len() > 0 {
            deadlines.lemma_filter_pred(below, 0);
            lemma_sort_slot_range(deadlines.filter(below)[0].kind);
        }
        assert(deadlines.filter(below) =~= Seq::<Deadline>::empty());
    } else {
        let at = |deadline: Deadline| sort_slot(deadline.kind) == count - 1;
        lemma_slot_batches(deadlines, count - 1);
        let earlier = slot_batches(deadlines, count - 1);
        let latest = deadlines.filter(at);
        assert(slot_batches(deadlines, count) =~= earlier.push(latest));
        earlier.lemma_flatten_push(latest);
        let front = earlier.flatten();
        let flat = slot_batches(deadlines, count).flatten();
        assert(flat =~= front + latest);
        assert forall|i: int| 0 <= i < flat.len() implies sort_slot(#[trigger] flat[i].kind) < count
            && (i >= front.len() ==> sort_slot(flat[i].kind) == count - 1) by {
            if i >= front.len() {
                deadlines.lemma_filter_pred(at, i - front.len());
            }
        }
        assert forall|i: int, j: int|
            0 <= i <= j < flat.len() implies sort_slot(#[trigger] flat[i].kind) <= sort_slot(
            #[trigger] flat[j].kind,
        ) by {
            if j < front.len() {
                assert(front[i] == flat[i] && front[j] == flat[j]);
            } else if i < front.len() {
                assert(front[i] == flat[i]);
            }
        }
        vstd::seq_lib::lemma_multiset_commutative(front, latest);
        lemma_split_at_slot(deadlines, count - 1);
    }
}

proof fn lemma_all_sort_before_the_end(deadlines: Seq<Deadline>)
    ensures
        sorting_before(deadlines, 8) == deadlines,
    decreases deadlines.len(),
{
    let below = |deadline: Deadline| sort_slot(deadline.kind) < 8;
    if deadlines.len() == 0 {
        deadlines.lemma_filter_len(below);
        assert(deadlines.filter(below) =~= deadlines);
    } else {
        let prefix = deadlines.drop_last();
        lemma_all_sort_before_the_end(prefix);
        lemma_sort_slot_range(deadlines.last().kind);
        assert(deadlines =~= prefix.push(deadlines.last()));
        prefix.lemma_filter_push(deadlines.last(), below);
    }
}

/// Each league season's deadlines are processed in dependency order, kinds outside the order
/// last, and each of them exactly once.
pub proof fn lemma_processing_order_follows_dependencies(deadlines: Seq<Deadline>)
    ensures
        forall|i: int, j: int|
            0 <= i <= j < in_processing_order(deadlines).len() ==> sort_slot(
                #[trigger] in_processing_order(deadlines)[i].kind,
            ) <= sort_slot(#[trigger] in_processing_order(deadlines)[j].kind),
        in_processing_order(deadlines).to_multiset() =~= deadlines.to_multiset(),
{
    lemma_slot_batches(deadlines, 8);
    lemma_all_sort_before_the_end(deadlines);
    assert(dependency_order().len() == 7);
    assert(in_processing_order(deadlines) == slot_batches(deadlines, 8).flatten());
}

/// The batches the ready deadlines are processed in: one per league season, in order of first
/// appearance, each in processing order.
pub open spec fn processing_plan(deadlines: Seq<Deadline>, now: Timestamp) -> Seq<Seq<Deadline>> {
    let ready = ready_deadlines(deadlines, now);
    season_keys(ready).map_values(
        |key: (i64, i16)| in_processing_order(ready.filter(|deadline: Deadline| season_key(deadline) == key)),
    )
}

fn sort_slot_of(kind: DeadlineKind) -> (slot: usize)
    ensures
        slot == sort_slot(kind),
{
    match dependency_position(kind) {
        Some(position) => {
            proof {
                lemma_position_first(kind, position as int);
            }
            position
        },
        None => {
            proof {
                assert(position_first(kind) is None);
            }
            7
        },
    }
}

/// Orders one season's ready deadlines for processing.
pub fn order_for_processing(deadlines: &Vec<Deadline>) -> (ordered: Vec<Deadline>)
    ensures
        ordered@ == in_processing_order(deadlines@),
{
    let ghost slots = Seq::new(
        dependency_order().len() + 1,
        |slot: int| deadlines@.filter(|deadline: Deadline| sort_slot(deadline.kind) == slot),
    );
    let mut ordered: Vec<Deadline> = Vec::new();
    let mut slot: usize = 0;
    while slot <= 7
        invariant
            slot <= 8,
            dependency_order().len() == 7,
            slots.len() == 8,
            slots == Seq::new(
                dependency_order().len() + 1,
                |slot: int| deadlines@.filter(|deadline: Deadline| sort_slot(deadline.kind) == slot),
            ),
            ordered@ == slots.take(slot as int).flatten(),
        decreases 8 - slot,
    {
        let mut index: usize = 0;
        let ghost before = ordered@;
        while index < deadlines.len()
            invariant
                index <= deadlines.len(),
                slot <= 7,
                ordered@ == before + deadlines@.take(index as int).filter(
                    |deadline: Deadline| sort_slot(deadline.kind) == slot,
                ),
            decreases deadlines.len() - index,
        {
            proof {
                assert(deadlines@.take(index + 1) =~= deadlines@.take(index as int).push(
                    deadlines@[index as int],
                ));
                deadlines@.take(index as int).lemma_filter_push(
                    deadlines@[index as int],
                    |deadline: Deadline| sort_slot(deadline.kind) == slot,
                );
            }
            if sort_slot_of(deadlines[index].kind) == slot {
                ordered.push(deadlines[index]);
            }
            index += 1;
            proof {
                assert(ordered@ =~= before + deadlines@.take(index as int).filter(
                    |deadline: Deadline| sort_slot(deadline.kind) == slot,
                ));
            }
        }
        proof {
            assert(deadlines@.take(deadlines.len() as int) =~= deadlines@);
            assert(slots.take(slot + 1).drop_last() =~= slots.take(slot as int));
            assert(slots.take(slot + 1) =~= slots.take(slot as int).push(slots[slot as int]));
            slots.take(slot as int).lemma_flatten_push(slots[slot as int]);
        }
        slot += 1;
    }
    proof {
        assert(slots.take(8) =~= slots);
    }
    ordered
}

fn contains_key(keys: &Vec<(i64, i16)>, key: (i64, i16)) -> (found: bool)
    ensures
        found == keys@.contains(key),
{
    let mut index: usize = 0;
    while index < keys.len()
        invariant
            index <= keys.len(),
            forall|k: int| 0 <= k < index ==> keys@[k] != key,
        decreases keys.len() - index,
    {
        if keys[index].0 == key.0 && keys[index].1 == key.1 {
            return true;
        }
        index += 1;
    }
    false
}

/// The batches the deadlines whose time has come at `now` are processed in: the activated
/// deadlines due by `now`, one batch per league season in order of first appearance, each batch
/// in dependency order (kinds outside the order last, ties in the order given).
pub fn plan_deadline_processing(deadlines: &Vec<Deadline>, now: Timestamp) -> (plan: Vec<Vec<Deadline>>)
    ensures
        plan@.len() == processing_plan(deadlines@, now).len(),
        forall|i: int| 0 <= i < plan@.len() ==> (#[trigger] plan@[i])@ == processing_plan(deadlines@, now)[i],
{
    let ghost is_ready = |deadline: Deadline| deadline.status is Activated && deadline.date_time.not_after(now);
    let mut ready: Vec<Deadline> = Vec::new();
    let mut index: usize = 0;
    while index < deadlines.len()
        invariant
            index <= deadlines.len(),
            is_ready == |deadline: Deadline| deadline.status is Activated && deadline.date_time.not_after(now),
            ready@ == deadlines@.take(index as int).filter(is_ready),
        decreases deadlines.len() - index,
    {
        proof {
            assert(deadlines@.take(index + 1) =~= deadlines@.take(index as int).push(
                deadlines@[index as int],
            ));
            deadlines@.take(index as int).lemma_filter_push(deadlines@[index as int], is_ready);
        }
        let deadline = deadlines[index];
        if matches!(deadline.status, DeadlineStatus::Activated) && deadline.date_time.is_not_after(&now) {
            ready.push(deadline);
        }
        index += 1;
    }
    proof {
        assert(deadlines@.take(deadlines.len() as int) =~= deadlines@);
        assert(ready@ == ready_deadlines(deadlines@, now));
    }
    let mut keys: Vec<(i64, i16)> = Vec::new();
    let mut scan: usize = 0;
    while scan < ready.len()
        invariant
            scan <= ready.len(),
            keys@ == season_keys(ready@.take(scan as int)),
        decreases ready.len() - scan,
    {
        proof {
            assert(ready@.take(scan + 1).drop_last() =~= ready@.take(scan as int));
        }
        let key = (ready[scan].league_id, ready[scan].end_of_season_year);
        if !contains_key(&keys, key) {
            keys.push(key);
        }
        scan += 1;
    }
    proof {
        assert(ready@.take(ready.len() as int) =~= ready@);
    }
    let ghost expected = processing_plan(deadlines@, now);
    let mut plan: Vec<Vec<Deadline>> = Vec::new();
    let mut key_index: usize = 0;
    while key_index < keys.len()
        invariant
            key_index <= keys.len(),
            keys@ == season_keys(ready@),
            ready@ == ready_deadlines(deadlines@, now),
            expected == processing_plan(deadlines@, now),
            expected.len() == keys.len(),
            plan@.len() == key_index,
            forall|i: int| 0 <= i < key_index ==> (#[trigger] plan@[i])@ == expected[i],
        decreases keys.len() - key_index,
    {
        let key = keys[key_index];
        let ghost in_season = |deadline: Deadline| season_key(deadline) == key;
        let mut batch: Vec<Deadline> = Vec::new();
        let mut position: usize = 0;
        while position < ready.len()
            invariant
                position <= ready.len(),
                in_season == |deadline: Deadline| season_key(deadline) == key,
                batch@ == ready@.take(position as int).filter(in_season),
            decreases ready.len() - position,
        {
            proof {
                assert(ready@.take(position + 1) =~= ready@.take(position as int).push(
                    ready@[position as int],
                ));
                ready@.take(position as int).lemma_filter_push(ready@[position as int], in_season);
            }
            if ready[position].league_id == key.0 && ready[position].end_of_season_year == key.1 {
                batch.push(ready[position]);
            }
            position += 1;
        }
        proof {
            assert(ready@.take(ready.len() as int) =~= ready@);
        }
        let ordered = order_for_processing(&batch);
        plan.push(ordered);
        key_index += 1;
    }
    plan
}

/// The deadlines a configuration is activated with: generated and set to `Activated`, when the
/// season has no deadlines yet; `None` when it has some, which are left as they are.
pub fn activated_deadlines_for(config: &DeadlineConfigRule, existing_deadline_count: usize) -> (deadlines: Option<Vec<GeneratedDeadline>>)
    requires
        generation_in_range(*config),
    ensures
        existing_deadline_count > 0 <==> deadlines is None,
        deadlines matches Some(generated) ==> generated.len() == 7 && forall|i: int|
            0 <= i < 7 ==> {
                &&& (#[trigger] generated@[i]).kind == generated_kinds()[i]
                &&& generated@[i].date_time == generated_times(*config)[i]
                &&& generated@[i].status is Activated
                &&& generated@[i].name@ == generated_labels()[i] + " - "@ + decimal_text(
                    config.end_of_season_year as int,
                )
            },
{
    if existing_deadline_count > 0 {
        return None;
    }
    let generated = generate_deadlines_from_config(config);
    let mut activated: Vec<GeneratedDeadline> = Vec::new();
    let mut index: usize = 0;
    while index < generated.len()
        invariant
            index <= generated.len() == 7,
            activated.len() == index,
            forall|i: int|
                0 <= i < 7 ==> {
                    &&& (#[trigger] generated@[i]).kind == generated_kinds()[i]
                    &&& generated@[i].date_time == generated_times(*config)[i]
                    &&& generated@[i].name@ == generated_labels()[i] + " - "@ + decimal_text(
                        config.end_of_season_year as int,
                    )
                },
            forall|i: int|
                0 <= i < index ==> {
                    &&& (#[trigger] activated@[i]).kind == generated_kinds()[i]
                    &&& activated@[i].date_time == generated_times(*config)[i]
                    &&& activated@[i].status is Activated
                    &&& activated@[i].name@ == generated_labels()[i] + " - "@ + decimal_text(
                        config.end_of_season_year as int,
                    )
                },
        decreases generated.len() - index,
    {
        let deadline = &generated[index];
        activated.push(GeneratedDeadline {
            kind: deadline.kind,
            date_time: deadline.date_time,
            name: deadline.name.clone(),
            status: DeadlineStatus::Activated,
        });
        index += 1;
    }
    Some(activated)
}

/// Whether a configuration was changed after its season's deadlines were generated: it was updated
/// after the oldest deadline was created. With no deadlines it was not.
pub open spec fn spec_config_updated_after(updated_at: Timestamp, created: Seq<Timestamp>) -> bool {
    exists|i: int| 0 <= i < created.len() && created[i].before(updated_at)
}

/// Whether a configuration updated at `updated_at` changed after deadlines created at
/// `deadline_created_at` were generated from it.
pub fn config_updated_after_deadlines(updated_at: Timestamp, deadline_created_at: &Vec<Timestamp>) -> (changed: bool)
    ensures
        changed == spec_config_updated_after(updated_at, deadline_created_at@),
{
    let mut index: usize = 0;
    while index < deadline_created_at.len()
        invariant
            index <= deadline_created_at.len(),
            forall|i: int| 0 <= i < index ==> !(#[trigger] deadline_created_at@[i]).before(updated_at),
        decreases deadline_created_at.len() - index,
    {
        if deadline_created_at[index].is_before(&updated_at) {
            return true;
        }
        index += 1;
    }
    false
}

/// How many of a season's deadlines are in each status.
#[derive(Clone, Copy, Debug, PartialEq, Eq, Structural)]
pub struct DeadlineStatusCounts {
    pub draft: usize,
    pub activated: usize,
    pub processing: usize,
    pub processed: usize,
    pub error: usize,
}

/// How many deadlines of a list are in `status`.
pub open spec fn status_count(deadlines: Seq<Deadline>, status: DeadlineStatus) -> int {
    deadlines.filter(|deadline: Deadline| deadline.status == status).len() as int
}

/// Counts a season's deadlines by status.
pub fn count_deadline_statuses(deadlines: &Vec<Deadline>) -> (counts: DeadlineStatusCounts)
    ensures
        counts.draft == status_count(deadlines@, DeadlineStatus::Draft),
        counts.activated == status_count(deadlines@, DeadlineStatus::Activated),
        counts.processing == status_count(deadlines@, DeadlineStatus::Processing),
        counts.processed == status_count(deadlines@, DeadlineStatus::Processed),
        counts.error == status_count(deadlines@, DeadlineStatus::Error),
{
    let mut counts = DeadlineStatusCounts { draft: 0, activated: 0, processing: 0, processed: 0, error: 0 };
    let mut index: usize = 0;
    while index < deadlines.len()
        invariant
            index <= deadlines.len(),
            counts.draft == status_count(deadlines@.take(index as int), DeadlineStatus::Draft),
            counts.activated == status_count(deadlines@.take(index as int), DeadlineStatus::Activated),
            counts.processing == status_count(deadlines@.take(index as int), DeadlineStatus::Processing),
            counts.processed == status_count(deadlines@.take(index as int), DeadlineStatus::Processed),
            counts.error == status_count(deadlines@.take(index as int), DeadlineStatus::Error),
        decreases deadlines.len() - index,
    {
        let ghost before = deadlines@.take(index as int);
        proof {
            assert(deadlines@.take(index + 1) =~= before.push(deadlines@[index as int]));
            before.lemma_filter_push(deadlines@[index as int], |deadline: Deadline| deadline.status == DeadlineStatus::Draft);
            before.lemma_filter_push(deadlines@[index as int], |deadline: Deadline| deadline.status == DeadlineStatus::Activated);
            before.lemma_filter_push(deadlines@[index as int], |deadline: Deadline| deadline.status == DeadlineStatus::Processing);
            before.lemma_filter_push(deadlines@[index as int], |deadline: Deadline| deadline.status == DeadlineStatus::Processed);
            before.lemma_filter_push(deadlines@[index as int], |deadline: Deadline| deadline.status == DeadlineStatus::Error);
            before.lemma_filter_len(|deadline: Deadline| deadline.status == DeadlineStatus::Draft);
            before.lemma_filter_len(|deadline: Deadline| deadline.status == DeadlineStatus::Activated);
            before.lemma_filter_len(|deadline: Deadline| deadline.status == DeadlineStatus::Processing);
            before.lemma_filter_len(|deadline: Deadline| deadline.status == DeadlineStatus::Processed);
            before.lemma_filter_len(|deadline: Deadline| deadline.status == DeadlineStatus::Error);
        }
        match deadlines[index].status {
            DeadlineStatus::Draft => counts.draft = counts.draft + 1,
            DeadlineStatus::Activated => counts.activated = counts.activated + 1,
            DeadlineStatus::Processing => counts.processing = counts.processing + 1,
            DeadlineStatus::Processed => counts.processed = counts.processed + 1,
            DeadlineStatus::Error => counts.error = counts.error + 1,
        }
        index += 1;
    }
    proof {
        assert(deadlines@.take(deadlines.len() as int) =~= deadlines@);
    }
    counts
}

} // verus!
