//! Tenant management: creation, lookup, update, deletion, user
//! assignment, usage accounting and quota checks.

use vstd::prelude::*;
use crate::ids::{lemma_uuid_text_len, new_uuid, uuid_string, uuid_text};
use vstd::hash_map::StringHashMap;
use crate::clock::{UtcTimestamp, utc_now};
use crate::multi_tenancy::error::TenancyError;
use crate::multi_tenancy::quotas::{
    ResourceQuota, TenantUsage, allocation_allowed, is_resource, same_counts, usage_after,
};
use crate::multi_tenancy::tenant::{Tenant, TenantStatus};
use crate::text::str_eq;

verus! {

/// Tenant isolation level of the multi-tenancy configuration.
#[derive(Debug, Clone, Copy, PartialEq, Eq, Structural)]
pub enum IsolationLevel {
    /// Shared resources with logical separation
    Shared,
    /// Separate schema per tenant
    Schema,
    /// Separate database per tenant
    Database,
    /// Separate instance per tenant
    Instance,
}

/// Multi-tenancy configuration.
#[derive(Debug, Clone, Copy)]
pub struct MultiTenancyConfig {
    /// How tenants are isolated.
    pub isolation_level: IsolationLevel,
    /// Quota given to new tenants.
    pub default_quota: ResourceQuota,
    /// Whether billing is enabled.
    pub billing_enabled: bool,
    /// Maximum number of tenants.
    pub max_tenants: usize,
}

impl Default for MultiTenancyConfig {
    fn default() -> (r: Self)
        ensures
            r.isolation_level == IsolationLevel::Schema,
            r.default_quota == (ResourceQuota {
                max_tasks: 0,
                max_agents: 0,
                max_workflows: 0,
                max_storage_gb: 0,
                max_bandwidth_gb: 0,
                max_api_calls_per_day: 0,
                max_concurrent_connections: 0,
            }),
            !r.billing_enabled,
            r.max_tenants == 1000,
    {
        MultiTenancyConfig {
            isolation_level: IsolationLevel::Schema,
            default_quota: ResourceQuota::default(),
            billing_enabled: false,
            max_tenants: 1000,
        }
    }
}

/// Tenant create request.
#[derive(Debug, Clone)]
pub struct TenantCreateRequest {
    /// Display name of the new tenant.
    pub name: String,
    /// Contact address.
    pub email: Option<String>,
    /// Free-form metadata.
    pub metadata: Option<serde_json::Value>,
}

/// Tenant update request.
#[derive(Debug, Clone, Default)]
pub struct TenantUpdateRequest {
    /// New display name, if any.
    pub name: Option<String>,
    /// New quota, if any.
    pub quota: Option<ResourceQuota>,
    /// Free-form metadata.
    pub metadata: Option<serde_json::Value>,
}

/// The tenants of a list, by id; a later tenant overrides an earlier one.
pub open spec fn tenants_map(v: Seq<Tenant>) -> Map<Seq<char>, Tenant>
    decreases v.len(),
{
    if v.len() == 0 {
        Map::empty()
    } else {
        tenants_map(v.drop_last()).insert(v.last().id@, v.last())
    }
}

/// No two tenants of the list share an id.
pub open spec fn unique_ids(v: Seq<Tenant>) -> bool {
    forall|i: int, j: int| 0 <= i < v.len() && 0 <= j < v.len() && i != j ==> v[i].id@ != v[j].id@
}

proof fn lemma_tenants_map(v: Seq<Tenant>)
    requires
        unique_ids(v),
    ensures
        forall|k: Seq<char>| tenants_map(v).contains_key(k) <==> exists|i: int| 0 <= i < v.len() && (#[trigger] v[i]).id@ == k,
        forall|i: int| 0 <= i < v.len() ==> tenants_map(v).contains_key((#[trigger] v[i]).id@)
            && tenants_map(v)[v[i].id@] == v[i],
    decreases v.len(),
{
    if v.len() > 0 {
        let w = v.drop_last();
        assert(unique_ids(w));
        lemma_tenants_map(w);
        assert forall|k: Seq<char>| tenants_map(v).contains_key(k) implies exists|i: int| 0 <= i < v.len() && (#[trigger] v[i]).id@ == k by {
            if k == v.last().id@ {
                assert(v[v.len() - 1].id@ == k);
            } else {
                assert(tenants_map(w).contains_key(k));
                let i = choose|i: int| 0 <= i < w.len() && (#[trigger] w[i]).id@ == k;
                assert(v[i] == w[i]);
                assert(v[i].id@ == k);
            }
        }
        assert forall|i: int| 0 <= i < v.len() implies tenants_map(v).contains_key((#[trigger] v[i]).id@)
            && tenants_map(v)[v[i].id@] == v[i] by {
            if i < v.len() - 1 {
                assert(v[i] == w[i]);
                assert(v[i].id@ != v.last().id@);
            }
        }
    }
}

proof fn lemma_tenants_map_remove(v: Seq<Tenant>, i: int)
    requires
        unique_ids(v),
        0 <= i < v.len(),
    ensures
        unique_ids(v.remove(i)),
        tenants_map(v.remove(i)) == tenants_map(v).remove(v[i].id@),
{
    let w = v.remove(i);
    assert forall|a: int, b: int| 0 <= a < w.len() && 0 <= b < w.len() && a != b implies w[a].id@ != w[b].id@ by {
        let a2 = if a < i { a } else { a + 1 };
        let b2 = if b < i { b } else { b + 1 };
        assert(w[a] == v[a2]);
        assert(w[b] == v[b2]);
    }
    lemma_tenants_map(v);
    lemma_tenants_map(w);
    let lhs = tenants_map(w);
    let rhs = tenants_map(v).remove(v[i].id@);
    assert forall|k: Seq<char>| lhs.contains_key(k) <==> rhs.contains_key(k) by {
        if lhs.contains_key(k) {
            let a = choose|a: int| 0 <= a < w.len() && (#[trigger] w[a]).id@ == k;
            let a2 = if a < i { a } else { a + 1 };
            assert(w[a] == v[a2]);
            assert(a2 != i);
        }
        if rhs.contains_key(k) {
            let a = choose|a: int| 0 <= a < v.len() && (#[trigger] v[a]).id@ == k;
            assert(a != i);
            let a2 = if a < i { a } else { a - 1 };
            assert(w[a2] == v[a]);
        }
    }
    assert forall|k: Seq<char>| lhs.contains_key(k) implies lhs[k] == rhs[k] by {
        let a = choose|a: int| 0 <= a < w.len() && (#[trigger] w[a]).id@ == k;
        let a2 = if a < i { a } else { a + 1 };
        assert(w[a] == v[a2]);
    }
    assert(lhs =~= rhs);
}

proof fn lemma_tenants_map_update(v: Seq<Tenant>, i: int, t: Tenant)
    requires
        unique_ids(v),
        0 <= i < v.len(),
        t.id@ == v[i].id@,
    ensures
        unique_ids(v.update(i, t)),
        tenants_map(v.update(i, t)) == tenants_map(v).insert(t.id@, t),
{
    let w = v.update(i, t);
    assert forall|a: int, b: int| 0 <= a < w.len() && 0 <= b < w.len() && a != b implies w[a].id@ != w[b].id@ by {
        assert(w[a].id@ == v[a].id@);
        assert(w[b].id@ == v[b].id@);
    }
    lemma_tenants_map(v);
    lemma_tenants_map(w);
    let lhs = tenants_map(w);
    let rhs = tenants_map(v).insert(t.id@, t);
    assert forall|k: Seq<char>| lhs.contains_key(k) <==> rhs.contains_key(k) by {
        if lhs.contains_key(k) {
            let a = choose|a: int| 0 <= a < w.len() && (#[trigger] w[a]).id@ == k;
            assert(w[a].id@ == v[a].id@);
        }
        if rhs.contains_key(k) && k != t.id@ {
            let a = choose|a: int| 0 <= a < v.len() && (#[trigger] v[a]).id@ == k;
            assert(w[a].id@ == v[a].id@);
        }
        if k == t.id@ {
            assert(w[i] == t);
        }
    }
    assert forall|k: Seq<char>| lhs.contains_key(k) implies lhs[k] == rhs[k] by {
        let a = choose|a: int| 0 <= a < w.len() && (#[trigger] w[a]).id@ == k;
        if a == i {
            assert(w[a] == t);
        } else {
            assert(w[a] == v[a]);
        }
    }
    assert(lhs =~= rhs);
}

/// Whether `t` is the tenant created from `req` with id `id` at time `now`.
pub open spec fn is_created_tenant(t: Tenant, req: TenantCreateRequest, config: MultiTenancyConfig, id: Seq<char>, now: UtcTimestamp) -> bool {
    &&& t.id@ == id
    &&& t.name@ == req.name@
    &&& t.status == TenantStatus::Active
    &&& t.quota == config.default_quota
    &&& t.usage.tasks == 0 && t.usage.agents == 0 && t.usage.workflows == 0
    &&& t.usage.storage_gb == 0 && t.usage.bandwidth_gb == 0
    &&& t.usage.api_calls_today == 0 && t.usage.active_connections == 0
    &&& t.usage.last_updated is None
    &&& t.created_at == now
    &&& t.updated_at == now
}

/// Whether `t2` is `t` after applying an update request at some time.
pub open spec fn is_updated_tenant(t2: Tenant, t: Tenant, updates: TenantUpdateRequest) -> bool {
    &&& t2.id == t.id
    &&& t2.name@ == (match updates.name {
        Some(n) => n@,
        None => t.name@,
    })
    &&& t2.quota == (match updates.quota {
        Some(q) => q,
        None => t.quota,
    })
    &&& t2.status == t.status
    &&& t2.usage == t.usage
    &&& t2.created_at == t.created_at
}

/// Multi-tenancy manager.
pub struct MultiTenancyManager {
    config: MultiTenancyConfig,
    tenants: Vec<Tenant>,
    user_tenants: StringHashMap<String>,
}

impl MultiTenancyManager {
    /// The manager's invariant: tenant ids are unique.
    pub closed spec fn wf(&self) -> bool {
        unique_ids(self.tenants@)
    }

    /// The configuration.
    pub closed spec fn config_view(&self) -> MultiTenancyConfig {
        self.config
    }

    /// The tenants, by id.
    pub closed spec fn tenants_view(&self) -> Map<Seq<char>, Tenant> {
        tenants_map(self.tenants@)
    }

    /// The tenant of each user, by user id.
    pub closed spec fn users_view(&self) -> Map<Seq<char>, Seq<char>> {
        self.user_tenants@.map_values(|t: String| t@)
    }

    /// The number of tenants.
    pub closed spec fn tenant_count(&self) -> nat {
        self.tenants@.len()
    }

    /// Creates a manager with no tenants and no user assignments.
    pub fn new(config: MultiTenancyConfig) -> (r: Self)
        ensures
            r.wf(),
            r.config_view() == config,
            r.tenants_view() == Map::<Seq<char>, Tenant>::empty(),
            r.users_view() == Map::<Seq<char>, Seq<char>>::empty(),
    {
        let r = MultiTenancyManager { config, tenants: Vec::new(), user_tenants: StringHashMap::new() };
        assert(r.users_view() =~= Map::<Seq<char>, Seq<char>>::empty());
        r
    }

    fn find(&self, tenant_id: &str) -> (r: Option<usize>)
        requires
            self.wf(),
        ensures
            match r {
                Some(i) => i < self.tenants@.len() && self.tenants@[i as int].id@ == tenant_id@,
                None => !self.tenants_view().contains_key(tenant_id@),
            },
    {
        proof { lemma_tenants_map(self.tenants@); }
        let n = self.tenants.len();
        let mut i: usize = 0;
        while i < n
            invariant
                n == self.tenants@.len(),
                i <= n,
                forall|j: int| 0 <= j < i ==> (#[trigger] self.tenants@[j]).id@ != tenant_id@,
            decreases n - i,
        {
            if str_eq(self.tenants[i].id.as_str(), tenant_id) {
                return Some(i);
            }
            i = i + 1;
        }
        None
    }

    /// Creates a tenant with the given id and creation time, unless the
    /// maximum number of tenants is reached. A tenant with the same id is
    /// replaced.
    pub fn create_tenant_with_id(&mut self, req: &TenantCreateRequest, id: String, now: UtcTimestamp) -> (r: Result<Tenant, TenancyError>)
        requires
            old(self).wf(),
        ensures
            final(self).wf(),
            final(self).config_view() == old(self).config_view(),
            final(self).users_view() == old(self).users_view(),
            old(self).tenant_count() >= old(self).config_view().max_tenants ==> {
                &&& r matches Err(TenancyError::MaxTenantsReached)
                &&& final(self).tenants_view() == old(self).tenants_view()
            },
            old(self).tenant_count() < old(self).config_view().max_tenants ==> {
                &&& r matches Ok(t)
                &&& is_created_tenant(t, *req, old(self).config_view(), id@, now)
                &&& final(self).tenants_view() == old(self).tenants_view().insert(id@, t)
            },
    {
        if self.tenants.len() >= self.config.max_tenants {
            return Err(TenancyError::MaxTenantsReached);
        }
        let tenant = Tenant {
            id,
            name: req.name.clone(),
            status: TenantStatus::Active,
            quota: self.config.default_quota,
            usage: TenantUsage::default(),
            created_at: now,
            updated_at: now,
        };
        let result = tenant.duplicate();
        match self.find(tenant.id.as_str()) {
            Some(i) => {
                proof { lemma_tenants_map_update(self.tenants@, i as int, tenant); }
                self.tenants.set(i, tenant);
            },
            None => {
                let ghost old_v = self.tenants@;
                proof { lemma_tenants_map(old_v); }
                self.tenants.push(tenant);
                proof {
                    assert(self.tenants@.drop_last() =~= old_v);
                    assert forall|a: int, b: int| 0 <= a < self.tenants@.len() && 0 <= b < self.tenants@.len() && a != b
                        implies self.tenants@[a].id@ != self.tenants@[b].id@ by {
                        if a == old_v.len() as int {
                            assert(!tenants_map(old_v).contains_key(self.tenants@[a].id@));
                            assert(old_v[b] == self.tenants@[b]);
                        } else if b == old_v.len() as int {
                            assert(!tenants_map(old_v).contains_key(self.tenants@[b].id@));
                            assert(old_v[a] == self.tenants@[a]);
                        }
                    }
                }
            },
        }
        Ok(result)
    }

    /// Creates a tenant under a fresh random id, unless the maximum number
    /// of tenants is reached.
    pub fn create_tenant(&mut self, req: &TenantCreateRequest) -> (r: Result<Tenant, TenancyError>)
        requires
            old(self).wf(),
        ensures
            final(self).wf(),
            final(self).config_view() == old(self).config_view(),
            final(self).users_view() == old(self).users_view(),
            old(self).tenant_count() >= old(self).config_view().max_tenants ==> {
                &&& r matches Err(TenancyError::MaxTenantsReached)
                &&& final(self).tenants_view() == old(self).tenants_view()
            },
            old(self).tenant_count() < old(self).config_view().max_tenants ==> {
                &&& r matches Ok(t)
                &&& t.id@.len() == 36
                &&& exists|u: u128| #[trigger] uuid_text(u) == t.id@
                &&& is_created_tenant(t, *req, old(self).config_view(), t.id@, t.created_at)
                &&& final(self).tenants_view() == old(self).tenants_view().insert(t.id@, t)
            },
    {
        if self.tenants.len() >= self.config.max_tenants {
            return Err(TenancyError::MaxTenantsReached);
        }
        let raw = new_uuid();
        let id = uuid_string(raw);
        proof { lemma_uuid_text_len(raw); }
        let now = utc_now();
        self.create_tenant_with_id(req, id, now)
    }

    /// Returns the tenant with the given id.
    pub fn get_tenant(&self, tenant_id: &str) -> (r: Result<Tenant, TenancyError>)
        requires
            self.wf(),
        ensures
            self.tenants_view().contains_key(tenant_id@) ==> r == Ok::<Tenant, TenancyError>(self.tenants_view()[tenant_id@]),
            !self.tenants_view().contains_key(tenant_id@) ==> (r matches Err(TenancyError::TenantNotFound(m)) && m@ == tenant_id@),
    {
        proof { lemma_tenants_map(self.tenants@); }
        match self.find(tenant_id) {
            Some(i) => Ok(self.tenants[i].duplicate()),
            None => Err(TenancyError::TenantNotFound(String::from_str(tenant_id))),
        }
    }

    /// Applies an update request to a tenant and stamps the update time.
    pub fn update_tenant(&mut self, tenant_id: &str, updates: TenantUpdateRequest) -> (r: Result<Tenant, TenancyError>)
        requires
            old(self).wf(),
        ensures
            final(self).wf(),
            final(self).config_view() == old(self).config_view(),
            final(self).users_view() == old(self).users_view(),
            !old(self).tenants_view().contains_key(tenant_id@) ==> {
                &&& r matches Err(TenancyError::TenantNotFound(m)) && m@ == tenant_id@
                &&& final(self).tenants_view() == old(self).tenants_view()
            },
            old(self).tenants_view().contains_key(tenant_id@) ==> {
                &&& r matches Ok(t)
                &&& is_updated_tenant(t, old(self).tenants_view()[tenant_id@], updates)
                &&& final(self).tenants_view() == old(self).tenants_view().insert(tenant_id@, t)
            },
    {
        proof { lemma_tenants_map(self.tenants@); }
        match self.find(tenant_id) {
            None => Err(TenancyError::TenantNotFound(String::from_str(tenant_id))),
            Some(i) => {
                let mut tenant = self.tenants[i].duplicate();
                match updates.name {
                    Some(name) => {
                        tenant.name = name;
                    },
                    None => {},
                }
                match updates.quota {
                    Some(quota) => {
                        tenant.quota = quota;
                    },
                    None => {},
                }
                tenant.updated_at = utc_now();
                let result = tenant.duplicate();
                proof { lemma_tenants_map_update(self.tenants@, i as int, tenant); }
                self.tenants.set(i, tenant);
                Ok(result)
            },
        }
    }

    /// Deletes a tenant.
    pub fn delete_tenant(&mut self, tenant_id: &str) -> (r: Result<(), TenancyError>)
        requires
            old(self).wf(),
        ensures
            final(self).wf(),
            final(self).config_view() == old(self).config_view(),
            final(self).users_view() == old(self).users_view(),
            old(self).tenants_view().contains_key(tenant_id@) ==> r is Ok,
            !old(self).tenants_view().contains_key(tenant_id@) ==> (r matches Err(TenancyError::TenantNotFound(m)) && m@ == tenant_id@),
            final(self).tenants_view() == old(self).tenants_view().remove(tenant_id@),
    {
        proof { lemma_tenants_map(self.tenants@); }
        match self.find(tenant_id) {
            None => {
                assert(self.tenants_view().remove(tenant_id@) =~= self.tenants_view());
                Err(TenancyError::TenantNotFound(String::from_str(tenant_id)))
            },
            Some(i) => {
                proof { lemma_tenants_map_remove(self.tenants@, i as int); }
                self.tenants.remove(i);
                Ok(())
            },
        }
    }

    /// Lists all tenants.
    pub fn list_tenants(&self) -> (r: Vec<Tenant>)
        requires
            self.wf(),
        ensures
            unique_ids(r@),
            tenants_map(r@) == self.tenants_view(),
    {
        let n = self.tenants.len();
        let mut out: Vec<Tenant> = Vec::new();
        let mut i: usize = 0;
        while i < n
            invariant
                n == self.tenants@.len(),
                i <= n,
                out@ == self.tenants@.subrange(0, i as int),
            decreases n - i,
        {
            out.push(self.tenants[i].duplicate());
            assert(out@ =~= self.tenants@.subrange(0, i + 1));
            i = i + 1;
        }
        assert(out@ =~= self.tenants@);
        out
    }

    /// Assigns a user to an existing tenant.
    pub fn assign_user_to_tenant(&mut self, user_id: &str, tenant_id: &str) -> (r: Result<(), TenancyError>)
        requires
            old(self).wf(),
        ensures
            final(self).wf(),
            final(self).config_view() == old(self).config_view(),
            final(self).tenants_view() == old(self).tenants_view(),
            old(self).tenants_view().contains_key(tenant_id@) ==> {
                &&& r is Ok
                &&& final(self).users_view() == old(self).users_view().insert(user_id@, tenant_id@)
            },
            !old(self).tenants_view().contains_key(tenant_id@) ==> {
                &&& r matches Err(TenancyError::TenantNotFound(m)) && m@ == tenant_id@
                &&& final(self).users_view() == old(self).users_view()
            },
    {
        match self.find(tenant_id) {
            None => Err(TenancyError::TenantNotFound(String::from_str(tenant_id))),
            Some(_) => {
                proof { lemma_tenants_map(self.tenants@); }
                self.user_tenants.insert(String::from_str(user_id), String::from_str(tenant_id));
                assert(self.users_view() =~= old(self).users_view().insert(user_id@, tenant_id@));
                Ok(())
            },
        }
    }

    /// Returns the tenant a user is assigned to.
    pub fn get_user_tenant(&self, user_id: &str) -> (r: Option<String>)
        ensures
            self.users_view().contains_key(user_id@) ==> (r matches Some(t) && t@ == self.users_view()[user_id@]),
            !self.users_view().contains_key(user_id@) ==> r is None,
    {
        match self.user_tenants.get(user_id) {
            Some(t) => Some(t.clone()),
            None => None,
        }
    }

    /// Checks whether a user is assigned to the given tenant.
    pub fn has_tenant_access(&self, user_id: &str, tenant_id: &str) -> (r: bool)
        ensures
            r == (self.users_view().contains_key(user_id@) && self.users_view()[user_id@] == tenant_id@),
    {
        match self.user_tenants.get(user_id) {
            Some(t) => str_eq(t.as_str(), tenant_id),
            None => false,
        }
    }

    /// Updates the usage of a resource of a tenant.
    pub fn update_usage(&mut self, tenant_id: &str, resource: &str, delta: i64) -> (r: Result<(), TenancyError>)
        requires
            old(self).wf(),
        ensures
            final(self).wf(),
            final(self).config_view() == old(self).config_view(),
            final(self).users_view() == old(self).users_view(),
            !old(self).tenants_view().contains_key(tenant_id@) ==> {
                &&& r matches Err(TenancyError::TenantNotFound(m)) && m@ == tenant_id@
                &&& final(self).tenants_view() == old(self).tenants_view()
            },
            old(self).tenants_view().contains_key(tenant_id@) && !is_resource(resource@) ==> {
                &&& r matches Err(TenancyError::UnknownResource(m)) && m@ == resource@
                &&& final(self).tenants_view() == old(self).tenants_view()
            },
            old(self).tenants_view().contains_key(tenant_id@) && is_resource(resource@) ==> {
                let t = old(self).tenants_view()[tenant_id@];
                let t2 = final(self).tenants_view()[tenant_id@];
                &&& r is Ok
                &&& final(self).tenants_view() == old(self).tenants_view().insert(tenant_id@, t2)
                &&& same_counts(t2.usage, usage_after(t.usage, resource@, delta))
                &&& t2.usage.last_updated is Some
                &&& t2 == (Tenant { usage: t2.usage, updated_at: t2.updated_at, ..t })
            },
    {
        proof { lemma_tenants_map(self.tenants@); }
        match self.find(tenant_id) {
            None => Err(TenancyError::TenantNotFound(String::from_str(tenant_id))),
            Some(i) => {
                let mut tenant = self.tenants[i].duplicate();
                match tenant.update_usage(resource, delta) {
                    Err(e) => Err(e),
                    Ok(()) => {
                        proof { lemma_tenants_map_update(self.tenants@, i as int, tenant); }
                        self.tenants.set(i, tenant);
                        Ok(())
                    },
                }
            },
        }
    }

    /// Checks whether a tenant may allocate an amount of a resource.
    pub fn check_quota(&self, tenant_id: &str, resource: &str, amount: i64) -> (r: Result<bool, TenancyError>)
        requires
            self.wf(),
        ensures
            self.tenants_view().contains_key(tenant_id@) ==> r == Ok::<bool, TenancyError>(allocation_allowed(
                self.tenants_view()[tenant_id@].usage,
                resource@,
                amount,
                self.tenants_view()[tenant_id@].quota,
            )),
            !self.tenants_view().contains_key(tenant_id@) ==> (r matches Err(TenancyError::TenantNotFound(m)) && m@ == tenant_id@),
    {
        proof { lemma_tenants_map(self.tenants@); }
        match self.find(tenant_id) {
            None => Err(TenancyError::TenantNotFound(String::from_str(tenant_id))),
            Some(i) => Ok(self.tenants[i].can_allocate(resource, amount)),
        }
    }
}

} // verus!
