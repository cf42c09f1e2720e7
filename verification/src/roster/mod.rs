//! A team's roster: its salary against the cap, and the rules a transaction of roster moves must
//! keep (rules §13.1).
pub mod moves;
pub mod rejection;
pub mod salary;
pub mod team_groups;
pub mod transaction;
pub mod transaction_order;
