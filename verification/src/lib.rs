//! A streaming bulk-transfer library for a document search cluster.
//!
//! The crate holds the verified core of a backup/restore pipeline: the
//! export side pages documents out of a cluster through sliced scroll
//! sessions, and the import side parses, validates and batches documents
//! for bulk writes. Network transport, command-line handling and stream
//! plumbing live outside the library; everything here is plain logic with
//! contracts.

pub mod error;
pub mod export;
pub mod import;
pub mod json;
pub mod remote;
pub mod stats;
