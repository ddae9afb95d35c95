//! Content-addressed ingestion and retrieval of user-owned documents.
//!
//! An uploaded binary is deduplicated by content hash, classified by file
//! extension, opportunistically mined for structured metadata when it is a
//! recognized e-book container, and recorded in a per-owner catalog.  Every
//! operation is specified against a mathematical model of the service state,
//! and the stated invariants (idempotent storage, metadata deduplication,
//! extension normalization, ownership isolation) are proved.

pub mod api_types;
pub mod config;
pub mod container;
pub mod errors;
pub mod extract;
pub mod filename;
pub mod hashing;
pub mod registry;
pub mod service;
pub mod store;
