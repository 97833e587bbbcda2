//! Registry search: ingest tabular registry sources, index each one, and
//! answer full-text queries fanned out across them.
pub mod text;
pub mod tpconfig;
pub mod extract;
pub mod engine;
pub mod config;
pub mod indexer;
pub mod search;
pub mod sources;
pub mod pipeline;
