//! The three cache tiers and their facade.

pub mod l1_hot_slots;
pub mod l2_transactions;
pub mod l3_accounts;
pub mod multi_cache;
