//! Whether a rookie development contract may move to Rookie Development International (rules
//! §11.3.1), judged entering the contract's own season.
use crate::eligibility::classify::{classify_player, spec_classify_player, PlayerEligibilityFacts};
use crate::model::{Contract, ContractKind, EligibilityClassification};
use vstd::prelude::*;

verus! {

/// Whether a chain row was rookie development past a legalization: past year one, or from an
/// earlier season than `end_of_season_year`.
pub open spec fn is_legalized_rd(contract: Contract, end_of_season_year: i16) -> bool {
    contract.kind is RookieDevelopment && (contract.year_number > 1 || contract.end_of_season_year
        < end_of_season_year)
}

/// Whether the contract's chain already held a rookie development contract past a legalization.
pub fn has_legalized_rd_ancestor(chain: &Vec<Contract>, end_of_season_year: i16) -> (found: bool)
    ensures
        found == exists|i: int|
            0 <= i < chain.len() && is_legalized_rd(#[trigger] chain@[i], end_of_season_year),
{
    let mut index: usize = 0;
    while index < chain.len()
        invariant
            index <= chain.len(),
            forall|i: int| 0 <= i < index ==> !is_legalized_rd(#[trigger] chain@[i], end_of_season_year),
        decreases chain.len() - index,
    {
        let row = chain[index];
        if matches!(row.kind, ContractKind::RookieDevelopment) && (row.year_number > 1
            || row.end_of_season_year < end_of_season_year) {
            return true;
        }
        index += 1;
    }
    false
}

/// Why a move to RDI was refused.
#[derive(Clone, Copy, Debug, PartialEq, Eq, Structural)]
pub enum RdiRejection {
    /// The player was not rookie-draft-eligible in the contract's season.
    NotRookieDraftEligible { contract_id: i64 },
    /// The player was on an NBA roster before the contract's season.
    OnNbaRosterBefore { contract_id: i64 },
    /// The chain was already a post-legalization rookie development contract.
    AlreadyLegalized { contract_id: i64 },
}

/// What a move to RDI is answered, in the order the rules are checked.
pub open spec fn spec_validate_rdi_eligible(contract: Contract, facts: PlayerEligibilityFacts, chain: Seq<Contract>) -> Result<(), RdiRejection> {
    let season = contract.end_of_season_year;
    if !(spec_classify_player(facts, season) is RookieDraftEligible) {
        Err(RdiRejection::NotRookieDraftEligible { contract_id: contract.id })
    } else if facts.spec_was_on_nba_roster_before(season) {
        Err(RdiRejection::OnNbaRosterBefore { contract_id: contract.id })
    } else if exists|i: int| 0 <= i < chain.len() && is_legalized_rd(#[trigger] chain[i], season) {
        Err(RdiRejection::AlreadyLegalized { contract_id: contract.id })
    } else {
        Ok(())
    }
}

/// Checks that a contract's player may move to RDI: rookie-draft-eligible entering the contract's
/// season, not on an NBA roster in an earlier season, and never a post-legalization rookie
/// development contract in its `chain`.
pub fn validate_rdi_eligible(contract: &Contract, player_facts: PlayerEligibilityFacts, chain: &Vec<Contract>) -> (verdict: Result<(), RdiRejection>)
    ensures
        verdict == spec_validate_rdi_eligible(*contract, player_facts, chain@),
{
    let season = contract.end_of_season_year;
    if !matches!(classify_player(player_facts, season), EligibilityClassification::RookieDraftEligible) {
        return Err(RdiRejection::NotRookieDraftEligible { contract_id: contract.id });
    }
    if player_facts.was_on_nba_roster_before(season) {
        return Err(RdiRejection::OnNbaRosterBefore { contract_id: contract.id });
    }
    if has_legalized_rd_ancestor(chain, season) {
        return Err(RdiRejection::AlreadyLegalized { contract_id: contract.id });
    }
    Ok(())
}

} // verus!
