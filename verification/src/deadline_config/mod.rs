//! A league season's deadline calendar, configured as a handful of durations around the keeper
//! deadline: checking a configuration, and generating the preseason deadlines from it.
pub mod generation;
pub mod validation;
