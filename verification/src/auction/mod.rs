//! Auctions: when they close, what a bid must clear, how the veteran pool is scheduled, and what a
//! close does with the pooled contract.
pub mod assemble_veteran_pool;
pub mod close_timing;
pub mod fa_auction;
pub mod place_bid;
pub mod preseason_veteran_auction;
pub mod sign_auction_contract_to_team;
