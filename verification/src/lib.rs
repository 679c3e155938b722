//! The ingestion-and-snapshot engine of the code context graph: content
//! digests, the Merkle tree over file paths, the snapshot catalog, language
//! detection, the lowering of parse trees to a simplified syntax tree, and
//! the graph statements generated from it.

pub mod api;
pub mod ast;
pub mod cas;
pub mod clock;
pub mod config;
pub mod detector;
pub mod driver;
pub mod enrich;
pub mod entity;
pub mod error;
pub mod extract;
pub mod fallback;
pub mod grammar;
pub mod graph;
pub mod hash;
pub mod incremental;
pub mod ingest;
pub mod keyed;
pub mod lowering;
pub mod mermaid;
pub mod merkle;
pub mod metrics;
pub mod model;
pub mod node_type;
pub mod paths;
pub mod registry;
pub mod relation;
pub mod simplified;
pub mod snapshot;
pub mod statements;
pub mod syntax;
pub mod test_utils;
pub mod text;
pub mod types;
pub mod visitor;
