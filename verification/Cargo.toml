[package]
name = "solana_indexer"
version = "0.1.0"
edition = "2021"
publish = false

[dependencies]
anyhow = "=1.0.104"
bs58 = "=0.5.1"
chrono = "=0.4.45"
clap = { version = "=4.6.7", features = ["derive"] }
colored = "=2.2.0"
dotenvy = "=0.15.7"
futures = "=0.3.34"
moka = { version = "=0.12.16", features = ["sync"] }
reqwest = { version = "=0.12.28", default-features = false }
serde = { version = "=1.0.229", features = ["derive"] }
serde_json = "=1.0.154"
solana-pubkey = "=4.4.0"
sqlx = { version = "=0.8.6", default-features = false, features = ["runtime-tokio", "sqlite", "postgres", "migrate", "macros"] }
thiserror = "=1.0.69"
tokio = { version = "=1.54.1", features = ["full"] }
tonic = { version = "=0.14.6", default-features = false }
tracing = "=0.1.44"
tracing-subscriber = "=0.3.23"
yellowstone-grpc-client = { version = "=16.0.0", default-features = false }
yellowstone-grpc-proto = { version = "=14.0.1", default-features = false }
