//! The persistent store and the cache tiers in front of it.

pub mod cache;
pub mod database;
pub mod factory;
pub mod memory;
pub mod ordered;
pub mod rows;
pub mod table;
