//! Metadata management: entries and their storage, the index, queries,
//! and version history.

pub mod error;
pub mod index;
pub mod model;
pub mod query;
pub mod storage;
pub mod versioning;
pub mod laws;
