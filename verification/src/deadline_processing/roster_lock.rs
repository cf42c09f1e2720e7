//! The roster lock (rules §13.1.2, §13.2): every team's roster is judged against the limits of the
//! deadline, and only the legal teams' pending moves are locked in.
use crate::model::{Contract, ContractKind, DeadlineKind, TeamUpdate};
use crate::rules::{
    PRE_SEASON_CONTRACTS_PER_ROSTER_LIMIT,
    REGULAR_SEASON_INTL_ROOKIE_DEVELOPMENT_CONTRACTS_PER_ROSTER_LIMIT,
    REGULAR_SEASON_IR_CONTRACTS_PER_ROSTER_LIMIT,
    REGULAR_SEASON_ROOKIE_DEVELOPMENT_CONTRACTS_PER_ROSTER_LIMIT,
    REGULAR_SEASON_VET_OR_ROOKIE_CONTRACTS_PER_ROSTER_LIMIT,
};
use crate::roster::salary::{counted_salary, total_counted_salary};
use crate::roster::team_groups::{
    contracts_by_team, grouped_by_team, team_contract_lists, team_contracts_of,
};
use std::collections::{HashMap, HashSet};
use vstd::prelude::*;

verus! {

/// A roster rule a team can break at a lock.
#[derive(Clone, Copy, Debug, PartialEq, Eq, Structural, Hash)]
pub enum RosterRule {
    /// More contracts on the IR than the IR slots allow.
    IrSlots,
    /// More contracts than the preseason roster allows.
    PreseasonContracts,
    /// More rookie development contracts than the regular season allows.
    RookieDevelopment,
    /// More international rookie development contracts than the regular season allows.
    IntlRookieDevelopment,
    /// More veteran or rookie-scale contracts than the regular season allows.
    VeteranOrRookie,
    /// Counted salary above the team's cap.
    SalaryCap,
}

/// One broken rule of one team's roster.
#[derive(Clone, Copy, Debug, PartialEq, Eq, Structural)]
pub struct TeamRosterViolation {
    pub team_id: i64,
    pub rule: RosterRule,
}

/// Deadlines whose rosters are judged elsewhere, so a lock sweep refuses to run for them.
#[derive(Clone, Copy, Debug, PartialEq, Eq, Structural)]
pub enum RosterLockError {
    /// The keeper deadline has rules of its own.
    KeeperDeadline,
    /// Nothing is locked at the preseason start.
    PreseasonStart,
}

/// How many contracts of a roster are on the IR.
pub open spec fn ir_count(contracts: Seq<Contract>) -> int
    decreases contracts.len(),
{
    if contracts.len() == 0 {
        0
    } else {
        ir_count(contracts.drop_last()) + if contracts.last().is_ir {
            1int
        } else {
            0
        }
    }
}

/// How many contracts off the IR have a kind `counted` accepts.
pub open spec fn active_kind_count(contracts: Seq<Contract>, counted: spec_fn(ContractKind) -> bool) -> int
    decreases contracts.len(),
{
    if contracts.len() == 0 {
        0
    } else {
        active_kind_count(contracts.drop_last(), counted) + if !contracts.last().is_ir && counted(
            contracts.last().kind,
        ) {
            1int
        } else {
            0
        }
    }
}

/// Rookie development contracts.
pub open spec fn is_rd(kind: ContractKind) -> bool {
    kind is RookieDevelopment
}

/// International rookie development contracts.
pub open spec fn is_rdi(kind: ContractKind) -> bool {
    kind is RookieDevelopmentInternational
}

/// Veteran and rookie-scale contracts.
pub open spec fn is_vet_or_rookie(kind: ContractKind) -> bool {
    kind is Rookie || kind is RookieExtension || kind is Veteran
}

/// Deadlines before the season, judged by the single preseason contract limit.
pub open spec fn is_preseason_lock(kind: DeadlineKind) -> bool {
    kind is PreseasonVeteranAuctionStart || kind is PreseasonFaAuctionStart
        || kind is PreseasonFaAuctionEnd || kind is PreseasonRookieDraftStart
}

/// The rules a roster breaks at a deadline of `kind` (neither the keeper deadline nor the
/// preseason start), in the order they are checked: IR slots, contract limits, then the cap.
pub open spec fn roster_violations(contracts: Seq<Contract>, kind: DeadlineKind, salary: int, cap: int) -> Seq<RosterRule> {
    let rd = active_kind_count(contracts, |k: ContractKind| is_rd(k));
    let rdi = active_kind_count(contracts, |k: ContractKind| is_rdi(k));
    let vr = active_kind_count(contracts, |k: ContractKind| is_vet_or_rookie(k));
    let ir_rule = if ir_count(contracts) > REGULAR_SEASON_IR_CONTRACTS_PER_ROSTER_LIMIT {
        seq![RosterRule::IrSlots]
    } else {
        Seq::empty()
    };
    let limit_rules = if is_preseason_lock(kind) {
        if rd + rdi + vr > PRE_SEASON_CONTRACTS_PER_ROSTER_LIMIT {
            seq![RosterRule::PreseasonContracts]
        } else {
            Seq::empty()
        }
    } else {
        (if rd > REGULAR_SEASON_ROOKIE_DEVELOPMENT_CONTRACTS_PER_ROSTER_LIMIT {
            seq![RosterRule::RookieDevelopment]
        } else {
            Seq::empty()
        }) + (if rdi > REGULAR_SEASON_INTL_ROOKIE_DEVELOPMENT_CONTRACTS_PER_ROSTER_LIMIT {
            seq![RosterRule::IntlRookieDevelopment]
        } else {
            Seq::empty()
        }) + (if vr > REGULAR_SEASON_VET_OR_ROOKIE_CONTRACTS_PER_ROSTER_LIMIT {
            seq![RosterRule::VeteranOrRookie]
        } else {
            Seq::empty()
        })
    };
    let cap_rule = if salary > cap {
        seq![RosterRule::SalaryCap]
    } else {
        Seq::empty()
    };
    ir_rule + limit_rules + cap_rule
}

/// The broken rules of one team, as violations.
pub open spec fn team_violations(team_id: i64, rules: Seq<RosterRule>) -> Seq<TeamRosterViolation> {
    rules.map_values(|rule: RosterRule| TeamRosterViolation { team_id, rule })
}

proof fn lemma_counts_bounded(contracts: Seq<Contract>)
    ensures
        0 <= ir_count(contracts) <= contracts.len(),
        0 <= active_kind_count(contracts, |k: ContractKind| is_rd(k)) <= contracts.len(),
        0 <= active_kind_count(contracts, |k: ContractKind| is_rdi(k)) <= contracts.len(),
        0 <= active_kind_count(contracts, |k: ContractKind| is_vet_or_rookie(k)) <= contracts.len(),
    decreases contracts.len(),
{
    if contracts.len() > 0 {
        lemma_counts_bounded(contracts.drop_last());
    }
}

fn with_rule(rules: &mut Vec<TeamRosterViolation>, team_id: i64, rule: RosterRule)
    ensures
        final(rules)@ == old(rules)@.push(TeamRosterViolation { team_id, rule }),
{
    rules.push(TeamRosterViolation { team_id, rule });
}

/// The rules `team_id`'s roster breaks at a deadline of `kind`, given the team's counted salary and
/// its cap there. The keeper deadline and the preseason start are refused: nothing is locked by
/// this sweep at either.
#[verifier::rlimit(40)]
#[verifier::spinoff_prover]
pub fn validate_roster_contracts(
    team_id: i64,
    contracts: &Vec<Contract>,
    kind: DeadlineKind,
    salary: i128,
    cap: i128,
) -> (result: Result<Vec<TeamRosterViolation>, RosterLockError>)
    ensures
        kind is PreseasonKeeper ==> result == Err::<Vec<TeamRosterViolation>, RosterLockError>(
            RosterLockError::KeeperDeadline,
        ),
        kind is PreseasonStart ==> result == Err::<Vec<TeamRosterViolation>, RosterLockError>(
            RosterLockError::PreseasonStart,
        ),
        !(kind is PreseasonKeeper) && !(kind is PreseasonStart) ==> (result matches Ok(violations)
            && violations@ == team_violations(team_id, roster_violations(contracts@, kind, salary as int, cap as int))),
{
    if matches!(kind, DeadlineKind::PreseasonKeeper) {
        return Err(RosterLockError::KeeperDeadline);
    }
    if matches!(kind, DeadlineKind::PreseasonStart) {
        return Err(RosterLockError::PreseasonStart);
    }
    let mut ir: u128 = 0;
    let mut rd: u128 = 0;
    let mut rdi: u128 = 0;
    let mut vr: u128 = 0;
    let mut index: usize = 0;
    while index < contracts.len()
        invariant
            index <= contracts.len(),
            ir == ir_count(contracts@.take(index as int)),
            rd == active_kind_count(contracts@.take(index as int), |k: ContractKind| is_rd(k)),
            rdi == active_kind_count(contracts@.take(index as int), |k: ContractKind| is_rdi(k)),
            vr == active_kind_count(
                contracts@.take(index as int),
                |k: ContractKind| is_vet_or_rookie(k),
            ),
        decreases contracts.len() - index,
    {
        proof {
            assert(contracts@.take(index + 1).drop_last() =~= contracts@.take(index as int));
            lemma_counts_bounded(contracts@.take(index as int));
        }
        let contract = contracts[index];
        if contract.is_ir {
            ir = ir + 1;
        } else {
            match contract.kind {
                ContractKind::RookieDevelopment => rd = rd + 1,
                ContractKind::RookieDevelopmentInternational => rdi = rdi + 1,
                ContractKind::Rookie | ContractKind::RookieExtension | ContractKind::Veteran => {
                    vr = vr + 1
                },
                _ => {},
            }
        }
        index += 1;
    }
    proof {
        assert(contracts@.take(contracts.len() as int) =~= contracts@);
        lemma_counts_bounded(contracts@);
    }
    let ghost expected = roster_violations(contracts@, kind, salary as int, cap as int);
    let mut violations: Vec<TeamRosterViolation> = Vec::new();
    if ir > REGULAR_SEASON_IR_CONTRACTS_PER_ROSTER_LIMIT as u128 {
        with_rule(&mut violations, team_id, RosterRule::IrSlots);
    }
    let preseason = matches!(
        kind,
        DeadlineKind::PreseasonVeteranAuctionStart | DeadlineKind::PreseasonFaAuctionStart
            | DeadlineKind::PreseasonFaAuctionEnd | DeadlineKind::PreseasonRookieDraftStart
    );
    if preseason {
        if rd + rdi + vr > PRE_SEASON_CONTRACTS_PER_ROSTER_LIMIT as u128 {
            with_rule(&mut violations, team_id, RosterRule::PreseasonContracts);
        }
    } else {
        if rd > REGULAR_SEASON_ROOKIE_DEVELOPMENT_CONTRACTS_PER_ROSTER_LIMIT as u128 {
            with_rule(&mut violations, team_id, RosterRule::RookieDevelopment);
        }
        if rdi > REGULAR_SEASON_INTL_ROOKIE_DEVELOPMENT_CONTRACTS_PER_ROSTER_LIMIT as u128 {
            with_rule(&mut violations, team_id, RosterRule::IntlRookieDevelopment);
        }
        if vr > REGULAR_SEASON_VET_OR_ROOKIE_CONTRACTS_PER_ROSTER_LIMIT as u128 {
            with_rule(&mut violations, team_id, RosterRule::VeteranOrRookie);
        }
    }
    if salary > cap {
        with_rule(&mut violations, team_id, RosterRule::SalaryCap);
    }
    proof {
        assert(violations@ =~= team_violations(team_id, expected));
    }
    Ok(violations)
}

/// Ids of the updates whose team is not among the illegal ones, in order.
pub open spec fn lockable_ids(updates: Seq<TeamUpdate>, illegal: Set<i64>) -> Seq<i64>
    decreases updates.len(),
{
    if updates.len() == 0 {
        Seq::empty()
    } else if illegal.contains(updates.last().team_id) {
        lockable_ids(updates.drop_last(), illegal)
    } else {
        lockable_ids(updates.drop_last(), illegal).push(updates.last().id)
    }
}

/// Ids of the `team_updates` that may flip to Done at the lock: every one except those of the teams
/// that broke a rule, so one illegal team does not hold up the rest of the league.
pub fn lockable_team_update_ids(team_updates: &Vec<TeamUpdate>, illegal_team_ids: &HashSet<i64>) -> (ids: Vec<i64>)
    ensures
        ids@ == lockable_ids(team_updates@, illegal_team_ids@),
{
    broadcast use vstd::std_specs::hash::group_hash_axioms;

    let mut ids: Vec<i64> = Vec::new();
    let mut index: usize = 0;
    while index < team_updates.len()
        invariant
            index <= team_updates.len(),
            ids@ == lockable_ids(team_updates@.take(index as int), illegal_team_ids@),
        decreases team_updates.len() - index,
    {
        proof {
            assert(team_updates@.take(index + 1).drop_last() =~= team_updates@.take(index as int));
        }
        let update = team_updates[index];
        if !illegal_team_ids.contains(&update.team_id) {
            ids.push(update.id);
        }
        index += 1;
    }
    proof {
        assert(team_updates@.take(team_updates.len() as int) =~= team_updates@);
    }
    ids
}

/// The violations of one team's roster in a league sweep, with the team's cap from `team_caps`.
pub open spec fn team_sweep_violations(
    groups: Map<i64, Seq<Contract>>,
    team_id: i64,
    kind: DeadlineKind,
    team_caps: Map<i64, i64>,
) -> Seq<TeamRosterViolation> {
    team_violations(
        team_id,
        roster_violations(groups[team_id], kind, counted_salary(groups[team_id]), team_caps[team_id] as int),
    )
}

/// The violations of a league sweep taking the teams in `order`.
pub open spec fn sweep_violations(
    groups: Map<i64, Seq<Contract>>,
    order: Seq<i64>,
    kind: DeadlineKind,
    team_caps: Map<i64, i64>,
) -> Seq<TeamRosterViolation> {
    order.map_values(|team_id: i64| team_sweep_violations(groups, team_id, kind, team_caps)).flatten()
}

proof fn lemma_groups_finite(contracts: Seq<Contract>)
    ensures
        grouped_by_team(contracts).dom().finite(),
    decreases contracts.len(),
{
    if contracts.len() > 0 {
        lemma_groups_finite(contracts.drop_last());
    }
}

/// Judges every team's roster at a lock of `kind` (rules §13.1.2, §13.2): the league's contracts
/// are grouped by team, and each team's roster is checked against the lock's limits and against its
/// cap in `team_caps`. The teams are taken in an order the grouping does not fix; the result lists
/// each team's broken rules together. The keeper deadline is refused outright, and the preseason
/// start as soon as there is a roster to judge.
pub fn validate_league_rosters(
    league_contracts: &Vec<Contract>,
    kind: DeadlineKind,
    team_caps: &HashMap<i64, i64>,
) -> (result: Result<Vec<TeamRosterViolation>, RosterLockError>)
    requires
        forall|team_id: i64|
            grouped_by_team(league_contracts@).contains_key(team_id) ==> team_caps@.contains_key(
                team_id,
            ),
    ensures
        kind is PreseasonKeeper ==> result == Err::<Vec<TeamRosterViolation>, RosterLockError>(
            RosterLockError::KeeperDeadline,
        ),
        kind is PreseasonStart && grouped_by_team(league_contracts@).dom().len() > 0 ==> result
            == Err::<Vec<TeamRosterViolation>, RosterLockError>(RosterLockError::PreseasonStart),
        !(kind is PreseasonKeeper) && (!(kind is PreseasonStart) || grouped_by_team(
            league_contracts@,
        ).dom().len() == 0) ==> (result matches Ok(violations) && exists|order: Seq<i64>|
            order.no_duplicates() && order.to_set() == grouped_by_team(league_contracts@).dom()
                && violations@ == sweep_violations(
                grouped_by_team(league_contracts@),
                order,
                kind,
                team_caps@,
            )),
{
    broadcast use vstd::std_specs::hash::group_hash_axioms;

    if matches!(kind, DeadlineKind::PreseasonKeeper) {
        return Err(RosterLockError::KeeperDeadline);
    }
    let groups = contracts_by_team(league_contracts);
    let ghost grouped = grouped_by_team(league_contracts@);
    let entries = team_contract_lists(&groups);
    let ghost order = entries@.map_values(|entry: (i64, Vec<Contract>)| entry.0);
    let mut violations: Vec<TeamRosterViolation> = Vec::new();
    let mut index: usize = 0;
    proof {
        assert(violations@ =~= sweep_violations(grouped, order.take(0), kind, team_caps@));
    }
    while index < entries.len()
        invariant
            index <= entries.len(),
            !(kind is PreseasonKeeper),
            grouped == grouped_by_team(league_contracts@),
            team_contracts_of(groups) == grouped,
            order == entries@.map_values(|entry: (i64, Vec<Contract>)| entry.0),
            forall|team_id: i64| grouped.contains_key(team_id) ==> team_caps@.contains_key(team_id),
            forall|i: int|
                0 <= i < entries.len() ==> grouped.contains_key(#[trigger] entries@[i].0)
                    && entries@[i].1@ == grouped[entries@[i].0],
            violations@ == sweep_violations(grouped, order.take(index as int), kind, team_caps@),
            index > 0 ==> !(kind is PreseasonStart),
        decreases entries.len() - index,
    {
        let team_id = entries[index].0;
        let team_contracts = &entries[index].1;
        let salary = total_counted_salary(team_contracts);
        let cap = match team_caps.get(&team_id) {
            Some(cap) => *cap as i128,
            None => 0,
        };
        match validate_roster_contracts(team_id, team_contracts, kind, salary, cap) {
            Ok(team_found) => {
                let ghost before = violations@;
                let mut added: usize = 0;
                while added < team_found.len()
                    invariant
                        added <= team_found.len(),
                        violations@ == before + team_found@.take(added as int),
                    decreases team_found.len() - added,
                {
                    violations.push(team_found[added]);
                    added += 1;
                    proof {
                        assert(violations@ =~= before + team_found@.take(added as int));
                    }
                }
                proof {
                    assert(team_found@.take(team_found.len() as int) =~= team_found@);
                    assert(order.take(index + 1) =~= order.take(index as int).push(team_id));
                    let parts = order.take(index as int).map_values(
                        |t: i64| team_sweep_violations(grouped, t, kind, team_caps@),
                    );
                    assert(order.take(index + 1).map_values(
                        |t: i64| team_sweep_violations(grouped, t, kind, team_caps@),
                    ) =~= parts.push(team_sweep_violations(grouped, team_id, kind, team_caps@)));
                    parts.lemma_flatten_push(team_sweep_violations(grouped, team_id, kind, team_caps@));
                }
            },
            Err(error) => {
                proof {
                    lemma_groups_finite(league_contracts@);
                    assert(grouped.dom().contains(team_id));
                    assert(grouped.dom().len() > 0) by {
                        vstd::set_lib::lemma_set_empty_equivalency_len(grouped.dom());
                    }
                }
                return Err(error);
            },
        }
        index += 1;
    }
    proof {
        assert(order.take(entries.len() as int) =~= order);
        assert forall|i: int, j: int| 0 <= i < j < order.len() implies order[i] != order[j] by {
            assert(entries@[i].0 != entries@[j].0);
        }
        assert(order.to_set() =~= grouped.dom()) by {
            assert forall|team_id: i64| order.to_set().contains(team_id) <==> grouped.dom().contains(team_id) by {
                if grouped.dom().contains(team_id) {
                    let i = choose|i: int| 0 <= i < entries.len() && #[trigger] entries@[i].0 == team_id;
                    assert(order[i] == team_id);
                }
                if order.to_set().contains(team_id) {
                    let i = choose|i: int| 0 <= i < order.len() && order[i] == team_id;
                    assert(entries@[i].0 == team_id);
                }
            }
        }
        if kind is PreseasonStart && grouped.dom().len() > 0 {
            // A non-empty grouping has an entry, and judging it at the preseason start fails.
            assert(false) by {
                lemma_groups_finite(league_contracts@);
                let team_id = grouped.dom().choose();
                vstd::set_lib::lemma_set_empty_equivalency_len(grouped.dom());
                assert(grouped.dom().contains(team_id));
                let i = choose|i: int| 0 <= i < entries.len() && #[trigger] entries@[i].0 == team_id;
                assert(i < entries.len());
            }
        }
    }
    Ok(violations)
}

/// How many contracts of a roster `keep` accepts.
pub open spec fn roster_count(contracts: Seq<Contract>, keep: spec_fn(Contract) -> bool) -> int {
    contracts.filter(keep).len() as int
}

proof fn lemma_active_count_is_a_filter(
    contracts: Seq<Contract>,
    counted: spec_fn(ContractKind) -> bool,
    keep: spec_fn(Contract) -> bool,
)
    requires
        forall|contract: Contract| #[trigger] keep(contract) == (!contract.is_ir && counted(contract.kind)),
    ensures
        active_kind_count(contracts, counted) == roster_count(contracts, keep),
    decreases contracts.len(),
{
    if contracts.len() > 0 {
        let prefix = contracts.drop_last();
        lemma_active_count_is_a_filter(prefix, counted, keep);
        assert(contracts =~= prefix.push(contracts.last()));
        prefix.lemma_filter_push(contracts.last(), keep);
    } else {
        contracts.lemma_filter_len(keep);
    }
}

proof fn lemma_ir_count_is_a_filter(contracts: Seq<Contract>, keep: spec_fn(Contract) -> bool)
    requires
        forall|contract: Contract| #[trigger] keep(contract) == contract.is_ir,
    ensures
        ir_count(contracts) == roster_count(contracts, keep),
    decreases contracts.len(),
{
    if contracts.len() > 0 {
        let prefix = contracts.drop_last();
        lemma_ir_count_is_a_filter(prefix, keep);
        assert(contracts =~= prefix.push(contracts.last()));
        prefix.lemma_filter_push(contracts.last(), keep);
    } else {
        contracts.lemma_filter_len(keep);
    }
}

/// What a roster lock reports, rule by rule, counted straight from the roster: IR slots when more
/// contracts are on the IR than the IR limit; at a preseason lock (veteran auction start, free agent
/// auction start or end, rookie draft start) the preseason limit when the off-IR rookie
/// development, international rookie development, rookie, rookie extension and veteran contracts
/// together exceed it, and no per-kind limit; at any later lock each per-kind limit its off-IR
/// contracts exceed, and not the preseason limit; and the cap when the salary is above it.
pub proof fn lemma_roster_lock_reports_each_broken_limit(
    contracts: Seq<Contract>,
    kind: DeadlineKind,
    salary: int,
    cap: int,
)
    requires
        !(kind is PreseasonKeeper),
        !(kind is PreseasonStart),
    ensures
        ({
            let found = roster_violations(contracts, kind, salary, cap);
            let on_ir = roster_count(contracts, |c: Contract| c.is_ir);
            let rd = roster_count(contracts, |c: Contract| !c.is_ir && c.kind is RookieDevelopment);
            let rdi = roster_count(
                contracts,
                |c: Contract| !c.is_ir && c.kind is RookieDevelopmentInternational,
            );
            let vr = roster_count(
                contracts,
                |c: Contract|
                    !c.is_ir && (c.kind is Rookie || c.kind is RookieExtension || c.kind is Veteran),
            );
            let all_kinds = roster_count(
                contracts,
                |c: Contract|
                    !c.is_ir && (c.kind is RookieDevelopment || c.kind is RookieDevelopmentInternational
                        || c.kind is Rookie || c.kind is RookieExtension || c.kind is Veteran),
            );
            let preseason = kind is PreseasonVeteranAuctionStart || kind is PreseasonFaAuctionStart
                || kind is PreseasonFaAuctionEnd || kind is PreseasonRookieDraftStart;
            &&& found.contains(RosterRule::IrSlots) <==> on_ir > REGULAR_SEASON_IR_CONTRACTS_PER_ROSTER_LIMIT
            &&& found.contains(RosterRule::SalaryCap) <==> salary > cap
            &&& preseason ==> {
                &&& found.contains(RosterRule::PreseasonContracts) <==> all_kinds
                    > PRE_SEASON_CONTRACTS_PER_ROSTER_LIMIT
                &&& !found.contains(RosterRule::RookieDevelopment)
                &&& !found.contains(RosterRule::IntlRookieDevelopment)
                &&& !found.contains(RosterRule::VeteranOrRookie)
            }
            &&& !preseason ==> {
                &&& !found.contains(RosterRule::PreseasonContracts)
                &&& found.contains(RosterRule::RookieDevelopment) <==> rd
                    > REGULAR_SEASON_ROOKIE_DEVELOPMENT_CONTRACTS_PER_ROSTER_LIMIT
                &&& found.contains(RosterRule::IntlRookieDevelopment) <==> rdi
                    > REGULAR_SEASON_INTL_ROOKIE_DEVELOPMENT_CONTRACTS_PER_ROSTER_LIMIT
                &&& found.contains(RosterRule::VeteranOrRookie) <==> vr
                    > REGULAR_SEASON_VET_OR_ROOKIE_CONTRACTS_PER_ROSTER_LIMIT
            }
        }),
{
    let found = roster_violations(contracts, kind, salary, cap);
    lemma_ir_count_is_a_filter(contracts, |c: Contract| c.is_ir);
    lemma_active_count_is_a_filter(
        contracts,
        |k: ContractKind| is_rd(k),
        |c: Contract| !c.is_ir && c.kind is RookieDevelopment,
    );
    lemma_active_count_is_a_filter(
        contracts,
        |k: ContractKind| is_rdi(k),
        |c: Contract| !c.is_ir && c.kind is RookieDevelopmentInternational,
    );
    lemma_active_count_is_a_filter(
        contracts,
        |k: ContractKind| is_vet_or_rookie(k),
        |c: Contract|
            !c.is_ir && (c.kind is Rookie || c.kind is RookieExtension || c.kind is Veteran),
    );
    lemma_active_count_is_a_filter(
        contracts,
        |k: ContractKind| is_rd(k) || is_rdi(k) || is_vet_or_rookie(k),
        |c: Contract|
            !c.is_ir && (c.kind is RookieDevelopment || c.kind is RookieDevelopmentInternational
                || c.kind is Rookie || c.kind is RookieExtension || c.kind is Veteran),
    );
    lemma_kind_counts_add_up(contracts);
    let rd = active_kind_count(contracts, |k: ContractKind| is_rd(k));
    let rdi = active_kind_count(contracts, |k: ContractKind| is_rdi(k));
    let vr = active_kind_count(contracts, |k: ContractKind| is_vet_or_rookie(k));
    let ir_rule = if ir_count(contracts) > REGULAR_SEASON_IR_CONTRACTS_PER_ROSTER_LIMIT {
        seq![RosterRule::IrSlots]
    } else {
        Seq::empty()
    };
    let rd_rule = if rd > REGULAR_SEASON_ROOKIE_DEVELOPMENT_CONTRACTS_PER_ROSTER_LIMIT {
        seq![RosterRule::RookieDevelopment]
    } else {
        Seq::empty()
    };
    let rdi_rule = if rdi > REGULAR_SEASON_INTL_ROOKIE_DEVELOPMENT_CONTRACTS_PER_ROSTER_LIMIT {
        seq![RosterRule::IntlRookieDevelopment]
    } else {
        Seq::empty()
    };
    let vr_rule = if vr > REGULAR_SEASON_VET_OR_ROOKIE_CONTRACTS_PER_ROSTER_LIMIT {
        seq![RosterRule::VeteranOrRookie]
    } else {
        Seq::empty()
    };
    let pre_rule = if PRE_SEASON_CONTRACTS_PER_ROSTER_LIMIT < rd + rdi + vr {
        seq![RosterRule::PreseasonContracts]
    } else {
        Seq::empty()
    };
    let limit_rules = if is_preseason_lock(kind) {
        pre_rule
    } else {
        rd_rule + rdi_rule + vr_rule
    };
    let cap_rule = if salary > cap {
        seq![RosterRule::SalaryCap]
    } else {
        Seq::empty()
    };
    assert(found == ir_rule + limit_rules + cap_rule);
    lemma_contains_concat(ir_rule + limit_rules, cap_rule);
    lemma_contains_concat(ir_rule, limit_rules);
    lemma_contains_concat(rd_rule + rdi_rule, vr_rule);
    lemma_contains_concat(rd_rule, rdi_rule);
    lemma_rule_part(ir_rule, ir_count(contracts) > REGULAR_SEASON_IR_CONTRACTS_PER_ROSTER_LIMIT, RosterRule::IrSlots);
    lemma_rule_part(rd_rule, rd > REGULAR_SEASON_ROOKIE_DEVELOPMENT_CONTRACTS_PER_ROSTER_LIMIT, RosterRule::RookieDevelopment);
    lemma_rule_part(rdi_rule, rdi > REGULAR_SEASON_INTL_ROOKIE_DEVELOPMENT_CONTRACTS_PER_ROSTER_LIMIT, RosterRule::IntlRookieDevelopment);
    lemma_rule_part(vr_rule, vr > REGULAR_SEASON_VET_OR_ROOKIE_CONTRACTS_PER_ROSTER_LIMIT, RosterRule::VeteranOrRookie);
    lemma_rule_part(pre_rule, rd + rdi + vr > PRE_SEASON_CONTRACTS_PER_ROSTER_LIMIT, RosterRule::PreseasonContracts);
    lemma_rule_part(cap_rule, salary > cap, RosterRule::SalaryCap);
}

/// A rule list that holds `rule` exactly when `broken`: it holds no other rule.
proof fn lemma_rule_part(part: Seq<RosterRule>, broken: bool, rule: RosterRule)
    requires
        part == (if broken {
            seq![rule]
        } else {
            Seq::<RosterRule>::empty()
        }),
    ensures
        forall|other: RosterRule| #[trigger] part.contains(other) <==> (broken && other == rule),
{
    assert forall|other: RosterRule| #[trigger] part.contains(other) <==> (broken && other == rule) by {
        if broken && other == rule {
            assert(part[0] == other);
        }
    }
}

proof fn lemma_contains_concat(first: Seq<RosterRule>, second: Seq<RosterRule>)
    ensures
        forall|rule: RosterRule|
            #[trigger] (first + second).contains(rule) <==> first.contains(rule) || second.contains(
                rule,
            ),
{
    assert forall|rule: RosterRule|
        #[trigger] (first + second).contains(rule) <==> first.contains(rule) || second.contains(
            rule,
        ) by {
        if first.contains(rule) {
            let i = choose|i: int| 0 <= i < first.len() && first[i] == rule;
            assert((first + second)[i] == rule);
        }
        if second.contains(rule) {
            let j = choose|j: int| 0 <= j < second.len() && second[j] == rule;
            assert((first + second)[first.len() + j] == rule);
        }
        if (first + second).contains(rule) {
            let k = choose|k: int| 0 <= k < (first + second).len() && (first + second)[k] == rule;
            if k < first.len() {
                assert(first[k] == rule);
            } else {
                assert(second[k - first.len()] == rule);
            }
        }
    }
}

proof fn lemma_kind_counts_add_up(contracts: Seq<Contract>)
    ensures
        active_kind_count(contracts, |k: ContractKind| is_rd(k) || is_rdi(k) || is_vet_or_rookie(k))
            == active_kind_count(contracts, |k: ContractKind| is_rd(k)) + active_kind_count(
            contracts,
            |k: ContractKind| is_rdi(k),
        ) + active_kind_count(contracts, |k: ContractKind| is_vet_or_rookie(k)),
    decreases contracts.len(),
{
    if contracts.len() > 0 {
        lemma_kind_counts_add_up(contracts.drop_last());
    }
}

} // verus!
