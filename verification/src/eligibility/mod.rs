//! Player eligibility: which acquisition pool (veteran auction / rookie draft / neither) a player
//! belongs to, who is in each pool, and who may move to RDI.
pub mod classify;
pub mod pools;
pub mod rdi;
