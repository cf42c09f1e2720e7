//! The league's records as plain values: contracts, deadlines, auctions and the kinds and statuses
//! the rules branch on.
use crate::time::Timestamp;
use vstd::prelude::*;

verus! {

/// The kind of a player contract.
#[derive(Clone, Copy, Debug, PartialEq, Eq, Structural, Hash)]
pub enum ContractKind {
    RookieDevelopment,
    RookieDevelopmentInternational,
    Rookie,
    RestrictedFreeAgent,
    RookieExtension,
    UnrestrictedFreeAgentOriginalTeam,
    Veteran,
    UnrestrictedFreeAgentVeteran,
    FreeAgent,
}

/// Where a contract row stands in its chain.
#[derive(Clone, Copy, Debug, PartialEq, Eq, Structural, Hash)]
pub enum ContractStatus {
    Active,
    Replaced,
    Expired,
}

/// One row of a player's contract chain.
#[derive(Clone, Copy, Debug, PartialEq, Eq, Structural)]
pub struct Contract {
    pub id: i64,
    pub year_number: i16,
    pub kind: ContractKind,
    pub is_ir: bool,
    pub salary: i16,
    pub end_of_season_year: i16,
    pub status: ContractStatus,
    pub league_id: i64,
    pub league_player_id: Option<i64>,
    pub player_id: Option<i64>,
    pub previous_contract_id: Option<i64>,
    pub original_contract_id: Option<i64>,
    pub team_id: Option<i64>,
}

/// The league calendar's deadlines.
#[derive(Clone, Copy, Debug, PartialEq, Eq, Structural, Hash)]
pub enum DeadlineKind {
    PreseasonStart,
    PreseasonKeeper,
    PreseasonVeteranAuctionStart,
    PreseasonFaAuctionStart,
    PreseasonFaAuctionEnd,
    PreseasonRookieDraftStart,
    PreseasonFinalRosterLock,
    Week1FreeAgentAuctionStart,
    Week1FreeAgentAuctionEnd,
    Week1RosterLock,
    InSeasonRosterLock,
    FreeAgentAuctionEnd,
    TradeDeadlineAndPlayoffStart,
    SeasonEnd,
}

/// Where a deadline is in its processing life.
#[derive(Clone, Copy, Debug, PartialEq, Eq, Structural, Hash)]
pub enum DeadlineStatus {
    Draft,
    Activated,
    Processing,
    Processed,
    Error,
}

/// A deadline of a league season's calendar.
#[derive(Clone, Copy, Debug, PartialEq, Eq, Structural)]
pub struct Deadline {
    pub id: i64,
    pub league_id: i64,
    pub end_of_season_year: i16,
    pub kind: DeadlineKind,
    pub status: DeadlineStatus,
    pub date_time: Timestamp,
    pub created_at: Timestamp,
}

/// The auction formats the league runs.
#[derive(Clone, Copy, Debug, PartialEq, Eq, Structural, Hash)]
pub enum AuctionKind {
    PreseasonVeteranAuction,
    PreseasonFreeAgent,
    InSeasonFreeAgent,
}

impl AuctionKind {
    /// Whether the auction runs before the season, against the final roster lock.
    pub open spec fn spec_is_preseason(self) -> bool {
        !(self is InSeasonFreeAgent)
    }

    /// Whether the auction runs before the season.
    pub fn is_preseason(&self) -> (b: bool)
        ensures
            b == self.spec_is_preseason(),
    {
        !matches!(self, AuctionKind::InSeasonFreeAgent)
    }
}

/// Where an auction is in its life.
#[derive(Clone, Copy, Debug, PartialEq, Eq, Structural, Hash)]
pub enum AuctionStatus {
    Open,
    Closed,
    Won,
    Completed,
    Expired,
}

/// What a `team_update` records happening to one contract.
#[derive(Clone, Copy, Debug, PartialEq, Eq, Structural, Hash)]
pub enum ContractUpdateType {
    AddViaAuction,
    AddViaTrade,
    AddViaRookieDraft,
    Drop,
    ToIR,
    FromIR,
    ToRdi,
    FromRdi,
    TradedAway,
    Keeper,
    ContractAdvanced,
    RfaResign,
    ActivateRookie,
}

/// Where a `team_update` is in its life.
#[derive(Clone, Copy, Debug, PartialEq, Eq, Structural, Hash)]
pub enum TeamUpdateStatus {
    Pending,
    InProgress,
    Done,
    Error,
}

/// A recorded change to one team's roster, as the lock sweep reads it.
#[derive(Clone, Copy, Debug, PartialEq, Eq, Structural)]
pub struct TeamUpdate {
    pub id: i64,
    pub team_id: i64,
    pub status: TeamUpdateStatus,
}

/// One contract change inside a `team_update`.
#[derive(Clone, Copy, Debug, PartialEq, Eq, Structural)]
pub struct ContractUpdate {
    pub contract_id: i64,
    pub update_type: ContractUpdateType,
}

/// What a `team_update` records: the team's contracts once it applies, the changes, and the salary
/// and cap either side of it.
#[derive(Clone, Debug, PartialEq, Eq)]
pub struct TeamUpdateData {
    pub all_contract_ids: Vec<i64>,
    pub changes: Vec<ContractUpdate>,
    pub previous_salary: i16,
    pub previous_salary_cap: i16,
    pub new_salary: i16,
    pub new_salary_cap: i16,
}

/// Which acquisition pool a player belongs to in a season.
#[derive(Clone, Copy, Debug, PartialEq, Eq, Structural, Hash)]
pub enum EligibilityClassification {
    VeteranAuctionEligible,
    RookieDraftEligible,
    Ineligible,
}

/// Whether the winning team holds the player's re-sign discount.
#[derive(Clone, Copy, Debug, PartialEq, Eq, Structural, Hash)]
pub enum FreeAgentException {
    Held,
    HeldNoBid,
    NotHeld,
}

/// A team-less reference to the player a contract names.
#[derive(Clone, Copy, Debug, PartialEq, Eq, Structural, Hash)]
pub enum RelatedPlayer {
    /// A real NBA player, by player id.
    Player(i64),
    /// A league-created player, by league player id.
    LeaguePlayer(i64),
}

/// One team's frozen finish in a season, which the rookie draft order is built from.
#[derive(Clone, Copy, Debug, PartialEq, Eq, Structural)]
pub struct LeagueTeamSeasonStanding {
    pub team_id: i64,
    pub regular_season_rank: i16,
    pub mid_season_rank: i16,
    pub made_playoffs: bool,
    pub playoff_finish: Option<i16>,
}

/// A rookie draft pick: the slot it was born as (`original_owner_team_id`, `round`) and who holds
/// it now.
#[derive(Clone, Copy, Debug, PartialEq, Eq, Structural)]
pub struct DraftPick {
    pub id: i64,
    pub round: i16,
    pub end_of_season_year: i16,
    pub league_id: i64,
    pub current_owner_team_id: i64,
    pub original_owner_team_id: i64,
}

} // verus!
