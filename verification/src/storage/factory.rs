//! The choice of the store that a run writes to.

use crate::utils::config::StorageConfig;
use vstd::prelude::*;

verus! {

/// The store that a run writes to.
#[derive(Debug, PartialEq, Eq)]
pub enum StorageBackend {
    /// The Postgres server at this address.
    Postgres(String),
    /// The SQLite file at this path.
    Sqlite(String),
}

/// What a [`StorageBackend`] holds, as plain values.
pub enum StorageBackendView {
    Postgres(Seq<char>),
    Sqlite(Seq<char>),
}

impl View for StorageBackend {
    type V = StorageBackendView;

    open spec fn view(&self) -> StorageBackendView {
        match self {
            StorageBackend::Postgres(url) => StorageBackendView::Postgres(url@),
            StorageBackend::Sqlite(path) => StorageBackendView::Sqlite(path@),
        }
    }
}

/// The store that a configuration selects: Postgres where an address is
/// given, the SQLite file otherwise.
pub fn select_backend(config: &StorageConfig) -> (backend: StorageBackend)
    ensures
        backend@ == match config.postgres_url {
            Some(url) => StorageBackendView::Postgres(url@),
            None => StorageBackendView::Sqlite(config.sqlite_path@),
        },
{
    match &config.postgres_url {
        Some(url) => StorageBackend::Postgres(url.clone()),
        None => StorageBackend::Sqlite(config.sqlite_path.clone()),
    }
}

} // verus!
