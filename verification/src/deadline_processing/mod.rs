//! Processing the league calendar: what each deadline does when it fires, in dependency order.
pub mod keeper;
pub mod processor;
pub mod rfa_resolution;
pub mod roster_lock;
