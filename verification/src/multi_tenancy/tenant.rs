//! Tenant entities.

use vstd::prelude::*;
use crate::clock::{UtcTimestamp, utc_now};
use crate::multi_tenancy::error::TenancyError;
use crate::multi_tenancy::isolation::{TenantIsolation, schema_of, IsolationLevel};
use crate::multi_tenancy::quotas::{
    ResourceQuota, TenantUsage, allocation_allowed, is_resource, same_counts, usage_after,
};

verus! {

/// Tenant status.
#[derive(Debug, Clone, Copy, PartialEq, Eq, Structural)]
pub enum TenantStatus {
    /// The tenant is in service.
    Active,
    /// The tenant is suspended.
    Suspended,
    /// The tenant is deleted.
    Deleted,
    /// The tenant is being set up.
    Provisioning,
}

/// Tenant entity.
#[derive(Debug, Clone)]
pub struct Tenant {
    /// Tenant id.
    pub id: String,
    /// Display name.
    pub name: String,
    /// Status.
    pub status: TenantStatus,
    /// Resource quota.
    pub quota: ResourceQuota,
    /// Resource usage.
    pub usage: TenantUsage,
    /// Creation time.
    pub created_at: UtcTimestamp,
    /// Last modification time.
    pub updated_at: UtcTimestamp,
}

impl Tenant {
    /// A copy of the tenant, equal to it.
    pub fn duplicate(&self) -> (r: Self)
        ensures
            r == *self,
    {
        Tenant {
            id: self.id.clone(),
            name: self.name.clone(),
            status: self.status,
            quota: self.quota,
            usage: self.usage,
            created_at: self.created_at,
            updated_at: self.updated_at,
        }
    }

    /// Checks whether the tenant is active.
    pub fn is_active(&self) -> (r: bool)
        ensures
            r == (self.status == TenantStatus::Active),
    {
        self.status == TenantStatus::Active
    }

    /// Checks whether the tenant is suspended.
    pub fn is_suspended(&self) -> (r: bool)
        ensures
            r == (self.status == TenantStatus::Suspended),
    {
        self.status == TenantStatus::Suspended
    }

    /// Suspends the tenant.
    pub fn suspend(&mut self)
        ensures
            *final(self) == (Tenant { status: TenantStatus::Suspended, updated_at: final(self).updated_at, ..*old(self) }),
    {
        self.status = TenantStatus::Suspended;
        self.updated_at = utc_now();
    }

    /// Activates the tenant.
    pub fn activate(&mut self)
        ensures
            *final(self) == (Tenant { status: TenantStatus::Active, updated_at: final(self).updated_at, ..*old(self) }),
    {
        self.status = TenantStatus::Active;
        self.updated_at = utc_now();
    }

    /// Marks the tenant deleted.
    pub fn delete(&mut self)
        ensures
            *final(self) == (Tenant { status: TenantStatus::Deleted, updated_at: final(self).updated_at, ..*old(self) }),
    {
        self.status = TenantStatus::Deleted;
        self.updated_at = utc_now();
    }

    /// Returns the isolation configuration of the tenant.
    pub fn get_isolation(&self) -> (r: TenantIsolation)
        ensures
            r.tenant_id_view() == self.id@,
            r.level_view() == IsolationLevel::Schema,
            r.schema_view() == schema_of(self.id@),
            r.database_view() is None,
    {
        TenantIsolation::new(self.id.as_str())
    }

    /// Checks whether a resource allocation is allowed by the tenant's quota.
    pub fn can_allocate(&self, resource: &str, amount: i64) -> (r: bool)
        ensures
            r == allocation_allowed(self.usage, resource@, amount, self.quota),
    {
        self.usage.can_allocate(resource, amount, &self.quota)
    }

    /// Updates the usage of a resource; an unknown resource name is refused
    /// and nothing changes.
    pub fn update_usage(&mut self, resource: &str, delta: i64) -> (r: Result<(), TenancyError>)
        ensures
            !is_resource(resource@) ==> (r matches Err(TenancyError::UnknownResource(name))
                && name@ == resource@ && *final(self) == *old(self)),
            is_resource(resource@) ==> {
                &&& r is Ok
                &&& same_counts(final(self).usage, usage_after(old(self).usage, resource@, delta))
                &&& final(self).usage.last_updated is Some
                &&& *final(self) == (Tenant { usage: final(self).usage, updated_at: final(self).updated_at, ..*old(self) })
            },
    {
        match self.usage.update(resource, delta) {
            Ok(()) => {
                self.updated_at = utc_now();
                Ok(())
            },
            Err(e) => Err(e),
        }
    }
}

} // verus!
