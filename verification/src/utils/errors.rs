//! The errors of the indexer.

use vstd::prelude::*;
use vstd::string::StringExecFns;

verus! {

/// What can go wrong in the indexer. Each variant carries the message of
/// its cause.
#[derive(Debug, PartialEq, Eq)]
pub enum IndexerError {
    RpcError(String),
    DatabaseError(String),
    NetworkError(String),
    SerializationError(String),
    GrpcError(String),
    ChannelError(String),
    ConfigError(String),
    CacheError(String),
    StorageError(String),
    IoError(String),
}

/// What an [`IndexerError`] holds, as plain values.
pub enum IndexerErrorView {
    RpcError(Seq<char>),
    DatabaseError(Seq<char>),
    NetworkError(Seq<char>),
    SerializationError(Seq<char>),
    GrpcError(Seq<char>),
    ChannelError(Seq<char>),
    ConfigError(Seq<char>),
    CacheError(Seq<char>),
    StorageError(Seq<char>),
    IoError(Seq<char>),
}

impl IndexerErrorView {
    /// The words that introduce the cause in a rendered error.
    pub open spec fn label(self) -> Seq<char> {
        match self {
            IndexerErrorView::RpcError(_) => "RPC error: "@,
            IndexerErrorView::DatabaseError(_) => "Database error: "@,
            IndexerErrorView::NetworkError(_) => "Network error: "@,
            IndexerErrorView::SerializationError(_) => "Serialization error: "@,
            IndexerErrorView::GrpcError(_) => "gRPC error: "@,
            IndexerErrorView::ChannelError(_) => "Channel error: "@,
            IndexerErrorView::ConfigError(_) => "Configuration error: "@,
            IndexerErrorView::CacheError(_) => "Cache error: "@,
            IndexerErrorView::StorageError(_) => "Storage error: "@,
            IndexerErrorView::IoError(_) => "IO error: "@,
        }
    }

    /// The message of the cause.
    pub open spec fn cause(self) -> Seq<char> {
        match self {
            IndexerErrorView::RpcError(m) => m,
            IndexerErrorView::DatabaseError(m) => m,
            IndexerErrorView::NetworkError(m) => m,
            IndexerErrorView::SerializationError(m) => m,
            IndexerErrorView::GrpcError(m) => m,
            IndexerErrorView::ChannelError(m) => m,
            IndexerErrorView::ConfigError(m) => m,
            IndexerErrorView::CacheError(m) => m,
            IndexerErrorView::StorageError(m) => m,
            IndexerErrorView::IoError(m) => m,
        }
    }

    /// The rendered error: the label, then the cause.
    pub open spec fn rendered(self) -> Seq<char> {
        self.label() + self.cause()
    }
}

impl View for IndexerError {
    type V = IndexerErrorView;

    open spec fn view(&self) -> IndexerErrorView {
        match self {
            IndexerError::RpcError(m) => IndexerErrorView::RpcError(m@),
            IndexerError::DatabaseError(m) => IndexerErrorView::DatabaseError(m@),
            IndexerError::NetworkError(m) => IndexerErrorView::NetworkError(m@),
            IndexerError::SerializationError(m) => IndexerErrorView::SerializationError(m@),
            IndexerError::GrpcError(m) => IndexerErrorView::GrpcError(m@),
            IndexerError::ChannelError(m) => IndexerErrorView::ChannelError(m@),
            IndexerError::ConfigError(m) => IndexerErrorView::ConfigError(m@),
            IndexerError::CacheError(m) => IndexerErrorView::CacheError(m@),
            IndexerError::StorageError(m) => IndexerErrorView::StorageError(m@),
            IndexerError::IoError(m) => IndexerErrorView::IoError(m@),
        }
    }
}

impl IndexerError {
    /// The error as one line of text.
    pub fn message(&self) -> (text: String)
        ensures
            text@ == self@.rendered(),
    {
        match self {
            IndexerError::RpcError(m) => String::from_str("RPC error: ").concat(m.as_str()),
            IndexerError::DatabaseError(m) => String::from_str("Database error: ").concat(
                m.as_str(),
            ),
            IndexerError::NetworkError(m) => String::from_str("Network error: ").concat(
                m.as_str(),
            ),
            IndexerError::SerializationError(m) => String::from_str(
                "Serialization error: ",
            ).concat(m.as_str()),
            IndexerError::GrpcError(m) => String::from_str("gRPC error: ").concat(m.as_str()),
            IndexerError::ChannelError(m) => String::from_str("Channel error: ").concat(
                m.as_str(),
            ),
            IndexerError::ConfigError(m) => String::from_str("Configuration error: ").concat(
                m.as_str(),
            ),
            IndexerError::CacheError(m) => String::from_str("Cache error: ").concat(m.as_str()),
            IndexerError::StorageError(m) => String::from_str("Storage error: ").concat(
                m.as_str(),
            ),
            IndexerError::IoError(m) => String::from_str("IO error: ").concat(m.as_str()),
        }
    }
}

impl Clone for IndexerError {
    fn clone(&self) -> (copy: IndexerError)
        ensures
            copy@ == self@,
    {
        match self {
            IndexerError::RpcError(m) => IndexerError::RpcError(m.clone()),
            IndexerError::DatabaseError(m) => IndexerError::DatabaseError(m.clone()),
            IndexerError::NetworkError(m) => IndexerError::NetworkError(m.clone()),
            IndexerError::SerializationError(m) => IndexerError::SerializationError(m.clone()),
            IndexerError::GrpcError(m) => IndexerError::GrpcError(m.clone()),
            IndexerError::ChannelError(m) => IndexerError::ChannelError(m.clone()),
            IndexerError::ConfigError(m) => IndexerError::ConfigError(m.clone()),
            IndexerError::CacheError(m) => IndexerError::CacheError(m.clone()),
            IndexerError::StorageError(m) => IndexerError::StorageError(m.clone()),
            IndexerError::IoError(m) => IndexerError::IoError(m.clone()),
        }
    }
}

} // verus!
