//! Machine-learning model versioning: a registry of models, their versions
//! and binaries with checksums, the manager that validates around it, and
//! A/B experiments between versions.

pub mod ab_testing;
pub mod error;
pub mod laws;
pub mod manager;
pub mod ranking;
pub mod storage;
pub mod types;
