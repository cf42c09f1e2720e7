//! Which acquisition pool a player belongs to entering a season (rules §3.1.2, §6.2.1, §7.5).
//!
//! Classification is never stored, only the commissioner override is, and it is always relative
//! to a season: the same player is rookie-draft-eligible the season before his NBA debut and a
//! veteran the season after.
use crate::model::EligibilityClassification;
use vstd::prelude::*;

verus! {

/// The facts a classification is read from.
#[derive(Clone, Copy, Debug, PartialEq, Eq, Structural)]
pub struct PlayerEligibilityFacts {
    /// Whether the player ever appeared in an in-season NBA game, over his whole career.
    pub has_played_nba_game: bool,
    /// The season the player first appeared in NBA data, if he ever did.
    pub nba_first_season_end_of_season_year: Option<i16>,
    /// Commissioner override of the derived classification; wins when set.
    pub eligibility_override: Option<EligibilityClassification>,
    /// A league-created (drafted, not-yet-NBA) player.
    pub is_league_player: bool,
    /// The draft-eligible flag the player row caches.
    pub is_flagged_draft_eligible: bool,
}

impl Default for PlayerEligibilityFacts {
    fn default() -> (facts: Self)
        ensures
            !facts.has_played_nba_game,
            facts.nba_first_season_end_of_season_year is None,
            facts.eligibility_override is None,
            !facts.is_league_player,
            !facts.is_flagged_draft_eligible,
    {
        PlayerEligibilityFacts {
            has_played_nba_game: false,
            nba_first_season_end_of_season_year: None,
            eligibility_override: None,
            is_league_player: false,
            is_flagged_draft_eligible: false,
        }
    }
}

impl PlayerEligibilityFacts {
    /// Rules §3.1.3 entering a season: the player had an NBA entry in a strictly earlier season.
    pub open spec fn spec_was_on_nba_roster_before(self, end_of_season_year: i16) -> bool {
        match self.nba_first_season_end_of_season_year {
            Some(first_season) => first_season < end_of_season_year,
            None => false,
        }
    }

    /// Rules §3.1.3 entering a season: had the player any NBA entry in an earlier season? Strictly
    /// earlier, because a player arriving mid-season keeps that season's RD→RDI move (§11.3.5).
    pub fn was_on_nba_roster_before(&self, end_of_season_year: i16) -> (was: bool)
        ensures
            was == self.spec_was_on_nba_roster_before(end_of_season_year),
    {
        match self.nba_first_season_end_of_season_year {
            Some(first_season) => first_season < end_of_season_year,
            None => false,
        }
    }

    /// Rules §3.1.2 entering a season: the player has played and first appeared in an earlier
    /// season.
    pub open spec fn spec_had_played_nba_game_before(self, end_of_season_year: i16) -> bool {
        self.has_played_nba_game && self.spec_was_on_nba_roster_before(end_of_season_year)
    }

    /// Rules §3.1.2 entering a season: had the player appeared in a game in an earlier season? His
    /// first NBA season stands in for his debut.
    pub fn had_played_nba_game_before(&self, end_of_season_year: i16) -> (played: bool)
        ensures
            played == self.spec_had_played_nba_game_before(end_of_season_year),
    {
        self.has_played_nba_game && self.was_on_nba_roster_before(end_of_season_year)
    }
}

/// The pool a player belongs to entering `end_of_season_year`: the override when set; else a
/// veteran once he has played in an earlier season; else draft-eligible when he is a league
/// player or flagged draft-eligible; else ineligible.
pub open spec fn spec_classify_player(facts: PlayerEligibilityFacts, end_of_season_year: i16) -> EligibilityClassification {
    match facts.eligibility_override {
        Some(classification) => classification,
        None => if facts.spec_had_played_nba_game_before(end_of_season_year) {
            EligibilityClassification::VeteranAuctionEligible
        } else if facts.is_league_player || facts.is_flagged_draft_eligible {
            EligibilityClassification::RookieDraftEligible
        } else {
            EligibilityClassification::Ineligible
        },
    }
}

/// Derives which acquisition pool a player belongs to entering `end_of_season_year`.
pub fn classify_player(facts: PlayerEligibilityFacts, end_of_season_year: i16) -> (classification: EligibilityClassification)
    ensures
        classification == spec_classify_player(facts, end_of_season_year),
{
    if let Some(classification) = facts.eligibility_override {
        return classification;
    }
    if facts.had_played_nba_game_before(end_of_season_year) {
        return EligibilityClassification::VeteranAuctionEligible;
    }
    if facts.is_league_player || facts.is_flagged_draft_eligible {
        return EligibilityClassification::RookieDraftEligible;
    }
    EligibilityClassification::Ineligible
}

/// Once a veteran, always a veteran: a player classified into the veteran auction entering one
/// season stays there entering every later season, since his stored facts do not change.
pub proof fn lemma_veteran_status_is_permanent(facts: PlayerEligibilityFacts, season: i16, later: i16)
    requires
        season <= later,
        spec_classify_player(facts, season) is VeteranAuctionEligible,
    ensures
        spec_classify_player(facts, later) is VeteranAuctionEligible,
{
}

/// The commissioner's override decides the classification in every season.
pub proof fn lemma_override_decides(facts: PlayerEligibilityFacts, season: i16)
    requires
        facts.eligibility_override is Some,
    ensures
        spec_classify_player(facts, season) == facts.eligibility_override.unwrap(),
{
}

} // verus!
