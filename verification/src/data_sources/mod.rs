//! What the two sources deliver, turned into records.

pub mod solana_rpc;
pub mod yellowstone_grpc;
