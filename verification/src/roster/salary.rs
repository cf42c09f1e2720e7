//! A team's counted salary and its cap at a deadline (rules §4.2).
//!
//! Only rookie, rookie extension and veteran contracts off the IR count toward the cap. Outside the
//! keeper window the cap is lowered by a fifth of every counted contract the team dropped this
//! regular season, each fifth rounded up.
use crate::model::{Contract, ContractKind, DeadlineKind};
use vstd::prelude::*;

verus! {

/// A team's total counted salary and its salary cap at a given deadline.
#[derive(Clone, Copy, Debug, PartialEq, Eq, Structural)]
pub struct SalarySnapshot {
    pub salary: i16,
    pub cap: i16,
}

/// Whether a contract kind counts toward the salary cap.
pub open spec fn spec_counts_toward_cap(kind: ContractKind) -> bool {
    kind is Rookie || kind is RookieExtension || kind is Veteran
}

/// Whether a contract kind counts toward the salary cap.
pub fn counts_toward_cap(kind: ContractKind) -> (counts: bool)
    ensures
        counts == spec_counts_toward_cap(kind),
{
    matches!(kind, ContractKind::Rookie | ContractKind::RookieExtension | ContractKind::Veteran)
}

/// Salary of the contracts that count toward the cap: counted kinds, off the IR.
pub open spec fn counted_salary(contracts: Seq<Contract>) -> int
    decreases contracts.len(),
{
    if contracts.len() == 0 {
        0
    } else {
        counted_salary(contracts.drop_last()) + if spec_counts_toward_cap(contracts.last().kind)
            && !contracts.last().is_ir {
            contracts.last().salary as int
        } else {
            0
        }
    }
}

/// A fifth of `salary`, rounded up.
pub open spec fn spec_drop_penalty(salary: i16) -> int {
    (salary + 4) / 5
}

/// The cap penalty one dropped contract leaves: a fifth of its salary, rounded up.
pub fn drop_penalty(salary: i16) -> (penalty: i16)
    ensures
        penalty == spec_drop_penalty(salary),
{
    let wide = salary as i32;
    if wide >= 0 {
        ((wide + 4) / 5) as i16
    } else {
        let magnitude = -wide;
        let down = magnitude / 5;
        proof {
            assert((salary + 4) / 5 == -(magnitude / 5)) by (nonlinear_arith)
                requires
                    magnitude == -salary,
                    salary < 0,
            ;
        }
        (-down) as i16
    }
}

/// Cap penalty of the dropped contracts whose kind counts toward the cap.
pub open spec fn dropped_cap_penalty(dropped: Seq<Contract>) -> int
    decreases dropped.len(),
{
    if dropped.len() == 0 {
        0
    } else {
        dropped_cap_penalty(dropped.drop_last()) + if spec_counts_toward_cap(dropped.last().kind) {
            spec_drop_penalty(dropped.last().salary)
        } else {
            0
        }
    }
}

proof fn lemma_counted_salary_bounds(contracts: Seq<Contract>)
    ensures
        contracts.len() * i16::MIN <= counted_salary(contracts) <= contracts.len() * i16::MAX,
    decreases contracts.len(),
{
    if contracts.len() > 0 {
        lemma_counted_salary_bounds(contracts.drop_last());
    }
}

proof fn lemma_dropped_cap_penalty_bounds(dropped: Seq<Contract>)
    ensures
        dropped.len() * -6554 <= dropped_cap_penalty(dropped) <= dropped.len() * 6554,
    decreases dropped.len(),
{
    if dropped.len() > 0 {
        lemma_dropped_cap_penalty_bounds(dropped.drop_last());
    }
}

/// Sums the counted salary of a roster.
pub fn total_counted_salary(contracts: &Vec<Contract>) -> (total: i128)
    ensures
        total == counted_salary(contracts@),
{
    let mut total: i128 = 0;
    let mut index: usize = 0;
    while index < contracts.len()
        invariant
            index <= contracts.len(),
            total == counted_salary(contracts@.take(index as int)),
        decreases contracts.len() - index,
    {
        proof {
            assert(contracts@.take(index + 1).drop_last() =~= contracts@.take(index as int));
            lemma_counted_salary_bounds(contracts@.take(index as int));
        let n = index as int;
            assert(n * i16::MIN >= -0x1_0000_0000_0000_0000 * 0x8000) by (nonlinear_arith)
                requires
                    0 <= n <= 0x1_0000_0000_0000_0000,
            ;
            assert(n * i16::MAX <= 0x1_0000_0000_0000_0000 * 0x8000) by (nonlinear_arith)
                requires
                    0 <= n <= 0x1_0000_0000_0000_0000,
            ;
        }
        let contract = contracts[index];
        if counts_toward_cap(contract.kind) && !contract.is_ir {
            total = total + contract.salary as i128;
        }
        index += 1;
    }
    proof {
        assert(contracts@.take(contracts.len() as int) =~= contracts@);
    }
    total
}

/// Sums the cap penalty of a team's dropped contracts.
pub fn total_dropped_cap_penalty(dropped: &Vec<Contract>) -> (total: i128)
    ensures
        total == dropped_cap_penalty(dropped@),
{
    let mut total: i128 = 0;
    let mut index: usize = 0;
    while index < dropped.len()
        invariant
            index <= dropped.len(),
            total == dropped_cap_penalty(dropped@.take(index as int)),
        decreases dropped.len() - index,
    {
        proof {
            assert(dropped@.take(index + 1).drop_last() =~= dropped@.take(index as int));
            lemma_dropped_cap_penalty_bounds(dropped@.take(index as int));
        let n = index as int;
            assert(n * -6554 >= -0x1_0000_0000_0000_0000 * 0x8000) by (nonlinear_arith)
                requires
                    0 <= n <= 0x1_0000_0000_0000_0000,
            ;
            assert(n * 6554 <= 0x1_0000_0000_0000_0000 * 0x8000) by (nonlinear_arith)
                requires
                    0 <= n <= 0x1_0000_0000_0000_0000,
            ;
        }
        let contract = dropped[index];
        if counts_toward_cap(contract.kind) {
            total = total + drop_penalty(contract.salary) as i128;
        }
        index += 1;
    }
    proof {
        assert(dropped@.take(dropped.len() as int) =~= dropped@);
    }
    total
}

/// The cap before penalties: the deadline's cap, or no cap at all (`i16::MAX`) in the uncapped
/// window between contract advancement and the keeper deadline.
pub open spec fn base_cap(maybe_cap: Option<i16>) -> int {
    match maybe_cap {
        Some(cap) => cap as int,
        None => i16::MAX as int,
    }
}

/// The snapshot a team's contracts give at a deadline of `deadline_kind`.
pub open spec fn spec_salary_snapshot(
    active: Seq<Contract>,
    deadline_kind: DeadlineKind,
    maybe_cap: Option<i16>,
    dropped: Seq<Contract>,
) -> (int, int) {
    if deadline_kind is PreseasonKeeper {
        (counted_salary(active), base_cap(maybe_cap))
    } else {
        (counted_salary(active), base_cap(maybe_cap) - dropped_cap_penalty(dropped))
    }
}

/// A team's cap at a deadline of `deadline_kind`, in full width: the deadline's cap less the
/// penalties of the team's drops, which the keeper deadline does not charge.
pub fn team_cap(deadline_kind: DeadlineKind, maybe_cap: Option<i16>, dropped: &Vec<Contract>) -> (cap: i128)
    ensures
        cap == spec_salary_snapshot(Seq::empty(), deadline_kind, maybe_cap, dropped@).1,
{
    let base: i16 = match maybe_cap {
        Some(cap) => cap,
        None => i16::MAX,
    };
    if matches!(deadline_kind, DeadlineKind::PreseasonKeeper) {
        return base as i128;
    }
    proof {
        lemma_dropped_cap_penalty_bounds(dropped@);
        let n = dropped.len() as int;
        assert(n * -6554 >= -0x1_0000_0000_0000_0000 * 0x8000) by (nonlinear_arith)
            requires
                0 <= n <= 0x1_0000_0000_0000_0000,
        ;
        assert(n * 6554 <= 0x1_0000_0000_0000_0000 * 0x8000) by (nonlinear_arith)
            requires
                0 <= n <= 0x1_0000_0000_0000_0000,
        ;
    }
    base as i128 - total_dropped_cap_penalty(dropped)
}

/// A team's salary and cap at a deadline: `active` are the team's live contracts, `maybe_cap` the
/// deadline's cap (`None` in the uncapped window) and `dropped` the counted contracts the team
/// dropped this regular season. At the keeper deadline drops cost nothing.
pub fn calculate_team_contract_salary(
    active: &Vec<Contract>,
    deadline_kind: DeadlineKind,
    maybe_cap: Option<i16>,
    dropped: &Vec<Contract>,
) -> (snapshot: SalarySnapshot)
    requires
        i16::MIN <= spec_salary_snapshot(active@, deadline_kind, maybe_cap, dropped@).0 <= i16::MAX,
        i16::MIN <= spec_salary_snapshot(active@, deadline_kind, maybe_cap, dropped@).1 <= i16::MAX,
    ensures
        snapshot.salary == spec_salary_snapshot(active@, deadline_kind, maybe_cap, dropped@).0,
        snapshot.cap == spec_salary_snapshot(active@, deadline_kind, maybe_cap, dropped@).1,
{
    let cap: i16 = match maybe_cap {
        Some(cap) => cap,
        None => i16::MAX,
    };
    let salary = total_counted_salary(active);
    if matches!(deadline_kind, DeadlineKind::PreseasonKeeper) {
        return SalarySnapshot { salary: salary as i16, cap };
    }
    let penalty = total_dropped_cap_penalty(dropped);
    SalarySnapshot { salary: salary as i16, cap: (cap as i128 - penalty) as i16 }
}

} // verus!
