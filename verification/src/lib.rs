//! League rules for FBKL fantasy basketball: auctions, deadlines, rosters, the rookie draft and
//! restricted free agency, written as verified functions over plain data.
pub mod annual_advancement;
pub mod auction;
pub mod deadline_config;
pub mod deadline_processing;
pub mod draft_picks;
pub mod eligibility;
pub mod keeper_deadline;
pub mod model;
pub mod rookie_draft;
pub mod roster;
pub mod rules;
pub mod team_ownership;
pub mod text;
pub mod time;
