//! The settings a run is started with.
use vstd::prelude::*;

verus! {

/// Where data and indexes are kept, and what a run does.
#[derive(Debug, Clone, PartialEq)]
pub struct AppConfig {
    /// The folder that downloaded archives are kept in.
    pub storage_folder: String,
    /// The folder that holds one index directory per source.
    pub indexes_folder: String,
    /// Download every archive again, even one that is already kept.
    pub force_download: bool,
    /// Drop every index and rebuild them from the sources.
    pub reindex: bool,
    /// A query to answer once the indexes are ready.
    pub query: Option<String>,
}

/// Where the query service listens.
#[derive(Debug, Clone, PartialEq)]
pub struct ServerConfig {
    pub port: usize,
    pub host: String,
}

} // verus!
