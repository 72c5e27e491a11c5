//! The configuration of a run and its defaults.

use vstd::prelude::*;

verus! {

/// Where the chain is read from.
#[derive(Debug, Clone, PartialEq, Eq)]
pub struct RpcConfig {
    pub solana_rpc_url: String,
    pub yellowstone_grpc_url: Option<String>,
}

/// Where records are kept.
#[derive(Debug, Clone, PartialEq, Eq)]
pub struct StorageConfig {
    pub sqlite_path: String,
    pub postgres_url: Option<String>,
}

/// How much the cache tiers hold.
#[derive(Debug, Clone, Copy, PartialEq, Eq, Structural)]
pub struct CacheConfig {
    pub l1_size: usize,
    pub l2_size: usize,
}

/// The configuration of a run.
#[derive(Debug, Clone, PartialEq, Eq)]
pub struct Config {
    pub rpc: RpcConfig,
    pub storage: StorageConfig,
    pub cache: CacheConfig,
}

/// What a [`Config`] holds, as plain values.
pub struct ConfigView {
    pub solana_rpc_url: Seq<char>,
    pub yellowstone_grpc_url: Option<Seq<char>>,
    pub sqlite_path: Seq<char>,
    pub postgres_url: Option<Seq<char>>,
    pub l1_size: usize,
    pub l2_size: usize,
}

/// What an optional text holds.
pub open spec fn optional_text(text: Option<String>) -> Option<Seq<char>> {
    match text {
        Some(t) => Some(t@),
        None => None,
    }
}

impl View for Config {
    type V = ConfigView;

    open spec fn view(&self) -> ConfigView {
        ConfigView {
            solana_rpc_url: self.rpc.solana_rpc_url@,
            yellowstone_grpc_url: optional_text(self.rpc.yellowstone_grpc_url),
            sqlite_path: self.storage.sqlite_path@,
            postgres_url: optional_text(self.storage.postgres_url),
            l1_size: self.cache.l1_size,
            l2_size: self.cache.l2_size,
        }
    }
}

/// The hot slot capacity of a run that names none.
pub const DEFAULT_L1_SIZE: usize = 1000;

/// The transaction cache capacity of a run that names none.
pub const DEFAULT_L2_SIZE: usize = 10000;

/// The configuration that given settings amount to: the public mainnet
/// endpoint, the database file `indexer.db` and the default capacities
/// stand in for what is not given; no streaming endpoint and no Postgres
/// address are made up.
pub open spec fn config_of(
    solana_rpc_url: Option<Seq<char>>,
    yellowstone_grpc_url: Option<Seq<char>>,
    sqlite_path: Option<Seq<char>>,
    postgres_url: Option<Seq<char>>,
    l1_size: Option<usize>,
    l2_size: Option<usize>,
) -> ConfigView {
    ConfigView {
        solana_rpc_url: match solana_rpc_url {
            Some(url) => url,
            None => "https://api.mainnet-beta.solana.com"@,
        },
        yellowstone_grpc_url,
        sqlite_path: match sqlite_path {
            Some(path) => path,
            None => "indexer.db"@,
        },
        postgres_url,
        l1_size: match l1_size {
            Some(n) => n,
            None => DEFAULT_L1_SIZE,
        },
        l2_size: match l2_size {
            Some(n) => n,
            None => DEFAULT_L2_SIZE,
        },
    }
}

impl Default for Config {
    fn default() -> (config: Config)
        ensures
            config@ == config_of(None, None, None, None, None, None),
    {
        Config::from_values(None, None, None, None, None, None)
    }
}

impl Config {
    /// The configuration that the given settings amount to.
    pub fn from_values(
        solana_rpc_url: Option<String>,
        yellowstone_grpc_url: Option<String>,
        sqlite_path: Option<String>,
        postgres_url: Option<String>,
        l1_size: Option<usize>,
        l2_size: Option<usize>,
    ) -> (config: Config)
        ensures
            config@ == config_of(
                optional_text(solana_rpc_url),
                optional_text(yellowstone_grpc_url),
                optional_text(sqlite_path),
                optional_text(postgres_url),
                l1_size,
                l2_size,
            ),
    {
        Config {
            rpc: RpcConfig {
                solana_rpc_url: match solana_rpc_url {
                    Some(url) => url,
                    None => "https://api.mainnet-beta.solana.com".to_owned(),
                },
                yellowstone_grpc_url,
            },
            storage: StorageConfig {
                sqlite_path: match sqlite_path {
                    Some(path) => path,
                    None => "indexer.db".to_owned(),
                },
                postgres_url,
            },
            cache: CacheConfig {
                l1_size: match l1_size {
                    Some(n) => n,
                    None => DEFAULT_L1_SIZE,
                },
                l2_size: match l2_size {
                    Some(n) => n,
                    None => DEFAULT_L2_SIZE,
                },
            },
        }
    }
}

} // verus!
