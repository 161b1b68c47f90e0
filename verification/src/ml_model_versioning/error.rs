//! Errors of model versioning.

use vstd::prelude::*;

verus! {

/// Errors of the model versioning system.
#[derive(Debug)]
pub enum ModelVersioningError {
    /// Invalid model version format.
    InvalidVersion(String),
    /// Model not found (the model id).
    ModelNotFound(String),
    /// Version not found (the version id, then the model id).
    VersionNotFound(String, String),
    /// Storage error.
    StorageError(String),
    /// Serialization or deserialization error.
    SerializationError(String),
    /// Checksum mismatch (the recorded checksum, then the computed one).
    ChecksumMismatch(String, String),
    /// Dependency error.
    DependencyError(String),
    /// Invalid metadata.
    InvalidMetadata(String),
    /// Conflict, such as a version that already exists.
    Conflict(String),
    /// I/O error, by its message.
    Io(String),
    /// JSON error, by its message.
    Json(String),
    /// Semantic-version error, by its message.
    Semver(String),
    /// Invalid input.
    InvalidInput(String),
    /// Not found.
    NotFound(String),
    /// Invalid state.
    InvalidState(String),
}

} // verus!
