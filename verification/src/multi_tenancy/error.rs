//! Errors of tenant management.

use vstd::prelude::*;

verus! {

/// Errors of tenant management.
#[derive(Debug)]
pub enum TenancyError {
    /// The configured maximum number of tenants is reached.
    MaxTenantsReached,
    /// No tenant has this id.
    TenantNotFound(String),
    /// The resource name is not one of the quota resources.
    UnknownResource(String),
}

} // verus!
