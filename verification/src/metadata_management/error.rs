//! Errors of metadata management.

use vstd::prelude::*;

verus! {

/// Metadata management error; each carries its description.
#[derive(Debug)]
pub enum MetadataError {
    /// Metadata not found.
    NotFound(String),
    /// Invalid metadata schema.
    InvalidSchema(String),
    /// Validation error.
    Validation(String),
    /// Index error.
    Index(String),
    /// Query error.
    Query(String),
    /// Versioning error.
    Versioning(String),
    /// Serialization/deserialization error.
    Serialization(String),
    /// I/O error.
    Io(String),
    /// Other error.
    Other(String),
}

} // verus!
