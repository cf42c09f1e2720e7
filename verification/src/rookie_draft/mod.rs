//! The live rookie draft (rules §7): draft order, lottery, and the make/pass pick flow.
pub mod draft_order;
pub mod lottery;
pub mod make_pick;
