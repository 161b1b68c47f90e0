//! Multi-tenancy: tenant isolation, resource quotas, and tenant management.

pub mod isolation;
pub mod error;
pub mod quotas;
pub mod tenant;
pub mod manager;
pub mod laws;
