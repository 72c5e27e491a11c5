//! Ingestion core of a Solana indexer: typed slot and transaction records,
//! the tiered cache in front of the persistent store, the source failover
//! state machine and the account-watch reconciliation.

pub mod data_sources;
pub mod pipeline;
pub mod storage;
pub mod utils;
