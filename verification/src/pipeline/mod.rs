//! The records, the ingestion pipeline and the account watch.

pub mod account_watcher;
pub mod slot_tracker;
pub mod types;
