//! Resource quotas and usage tracking.

use vstd::prelude::*;
use vstd::hash_map::StringHashMap;
use crate::clock::{UtcTimestamp, utc_now};
use crate::multi_tenancy::error::TenancyError;
use crate::text::str_eq;

verus! {

/// Resource quota. A negative limit means unlimited.
#[derive(Debug, Clone, Copy, PartialEq, Eq, Structural)]
pub struct ResourceQuota {
    /// Maximum number of tasks.
    pub max_tasks: i64,
    /// Maximum number of agents.
    pub max_agents: i64,
    /// Maximum number of workflows.
    pub max_workflows: i64,
    /// Maximum storage, in GB.
    pub max_storage_gb: i64,
    /// Maximum bandwidth, in GB.
    pub max_bandwidth_gb: i64,
    /// Maximum API calls per day.
    pub max_api_calls_per_day: i64,
    /// Maximum concurrent connections.
    pub max_concurrent_connections: i64,
}

impl Default for ResourceQuota {
    fn default() -> (r: Self)
        ensures
            r == (ResourceQuota {
                max_tasks: 0,
                max_agents: 0,
                max_workflows: 0,
                max_storage_gb: 0,
                max_bandwidth_gb: 0,
                max_api_calls_per_day: 0,
                max_concurrent_connections: 0,
            }),
    {
        ResourceQuota {
            max_tasks: 0,
            max_agents: 0,
            max_workflows: 0,
            max_storage_gb: 0,
            max_bandwidth_gb: 0,
            max_api_calls_per_day: 0,
            max_concurrent_connections: 0,
        }
    }
}

/// The names of the quota resources.
pub open spec fn is_resource(r: Seq<char>) -> bool {
    r == "tasks"@ || r == "agents"@ || r == "workflows"@ || r == "storage"@ || r == "bandwidth"@
        || r == "api_calls"@ || r == "connections"@
}

/// The limit that a quota sets on a resource; `i64::MAX` for any other name.
pub open spec fn quota_limit(q: ResourceQuota, r: Seq<char>) -> i64 {
    if r == "tasks"@ {
        q.max_tasks
    } else if r == "agents"@ {
        q.max_agents
    } else if r == "workflows"@ {
        q.max_workflows
    } else if r == "storage"@ {
        q.max_storage_gb
    } else if r == "bandwidth"@ {
        q.max_bandwidth_gb
    } else if r == "api_calls"@ {
        q.max_api_calls_per_day
    } else if r == "connections"@ {
        q.max_concurrent_connections
    } else {
        i64::MAX
    }
}

/// Whether `amount` fits a limit: always for a negative (unlimited) limit,
/// otherwise when it does not exceed the limit.
pub open spec fn fits_limit(limit: i64, amount: int) -> bool {
    limit < 0 || amount <= limit
}

impl ResourceQuota {
    /// Checks whether an amount of a resource fits the quota.
    pub fn has_capacity(&self, resource: &str, amount: i64) -> (r: bool)
        ensures
            r == fits_limit(quota_limit(*self, resource@), amount as int),
    {
        let current_limit = self.get_limit(resource);
        if current_limit < 0 {
            return true;
        }
        amount <= current_limit
    }

    /// Returns the limit for a resource.
    pub fn get_limit(&self, resource: &str) -> (r: i64)
        ensures
            r == quota_limit(*self, resource@),
    {
        if str_eq(resource, "tasks") {
            self.max_tasks
        } else if str_eq(resource, "agents") {
            self.max_agents
        } else if str_eq(resource, "workflows") {
            self.max_workflows
        } else if str_eq(resource, "storage") {
            self.max_storage_gb
        } else if str_eq(resource, "bandwidth") {
            self.max_bandwidth_gb
        } else if str_eq(resource, "api_calls") {
            self.max_api_calls_per_day
        } else if str_eq(resource, "connections") {
            self.max_concurrent_connections
        } else {
            i64::MAX
        }
    }
}

/// `a + b`, clamped to the range of `i64`.
pub open spec fn sat_add(a: i64, b: i64) -> i64 {
    if a + b > i64::MAX {
        i64::MAX
    } else if a + b < i64::MIN {
        i64::MIN
    } else {
        (a + b) as i64
    }
}

/// Saturating addition of two `i64`.
pub fn saturating_add_i64(a: i64, b: i64) -> (r: i64)
    ensures
        r == sat_add(a, b),
{
    match a.checked_add(b) {
        Some(v) => v,
        None => if b > 0 {
            i64::MAX
        } else {
            i64::MIN
        },
    }
}

/// Tenant usage.
#[derive(Debug, Clone, Copy)]
pub struct TenantUsage {
    /// Tasks in use.
    pub tasks: i64,
    /// Agents in use.
    pub agents: i64,
    /// Workflows in use.
    pub workflows: i64,
    /// Storage in use, in GB.
    pub storage_gb: i64,
    /// Bandwidth used, in GB.
    pub bandwidth_gb: i64,
    /// API calls made today.
    pub api_calls_today: i64,
    /// Open connections.
    pub active_connections: i64,
    /// When the usage last changed.
    pub last_updated: Option<UtcTimestamp>,
}

impl Default for TenantUsage {
    fn default() -> (r: Self)
        ensures
            r.tasks == 0 && r.agents == 0 && r.workflows == 0 && r.storage_gb == 0,
            r.bandwidth_gb == 0 && r.api_calls_today == 0 && r.active_connections == 0,
            r.last_updated is None,
    {
        TenantUsage {
            tasks: 0,
            agents: 0,
            workflows: 0,
            storage_gb: 0,
            bandwidth_gb: 0,
            api_calls_today: 0,
            active_connections: 0,
            last_updated: None,
        }
    }
}

/// The usage recorded for a resource; 0 for any other name.
pub open spec fn usage_of(u: TenantUsage, r: Seq<char>) -> i64 {
    if r == "tasks"@ {
        u.tasks
    } else if r == "agents"@ {
        u.agents
    } else if r == "workflows"@ {
        u.workflows
    } else if r == "storage"@ {
        u.storage_gb
    } else if r == "bandwidth"@ {
        u.bandwidth_gb
    } else if r == "api_calls"@ {
        u.api_calls_today
    } else if r == "connections"@ {
        u.active_connections
    } else {
        0
    }
}

/// Whether `a` and `b` record the same usage, whatever their update times.
pub open spec fn same_counts(a: TenantUsage, b: TenantUsage) -> bool {
    &&& a.tasks == b.tasks
    &&& a.agents == b.agents
    &&& a.workflows == b.workflows
    &&& a.storage_gb == b.storage_gb
    &&& a.bandwidth_gb == b.bandwidth_gb
    &&& a.api_calls_today == b.api_calls_today
    &&& a.active_connections == b.active_connections
}

/// The usage after adding `delta` (saturating) to a known resource.
pub open spec fn usage_after(u: TenantUsage, r: Seq<char>, delta: i64) -> TenantUsage {
    let v = sat_add(usage_of(u, r), delta);
    if r == "tasks"@ {
        TenantUsage { tasks: v, ..u }
    } else if r == "agents"@ {
        TenantUsage { agents: v, ..u }
    } else if r == "workflows"@ {
        TenantUsage { workflows: v, ..u }
    } else if r == "storage"@ {
        TenantUsage { storage_gb: v, ..u }
    } else if r == "bandwidth"@ {
        TenantUsage { bandwidth_gb: v, ..u }
    } else if r == "api_calls"@ {
        TenantUsage { api_calls_today: v, ..u }
    } else {
        TenantUsage { active_connections: v, ..u }
    }
}

/// Whether a tenant with usage `u` may allocate `amount` of `r` under `q`.
pub open spec fn allocation_allowed(u: TenantUsage, r: Seq<char>, amount: i64, q: ResourceQuota) -> bool {
    let limit = quota_limit(q, r);
    limit < 0 || sat_add(usage_of(u, r), amount) <= limit
}

impl TenantUsage {
    /// Adds `delta` (saturating) to the usage of a resource and stamps the
    /// update time; an unknown resource name is refused and nothing changes.
    pub fn update(&mut self, resource: &str, delta: i64) -> (r: Result<(), TenancyError>)
        ensures
            !is_resource(resource@) ==> (r matches Err(TenancyError::UnknownResource(name))
                && name@ == resource@ && *final(self) == *old(self)),
            is_resource(resource@) ==> {
                &&& r is Ok
                &&& same_counts(*final(self), usage_after(*old(self), resource@, delta))
                &&& final(self).last_updated is Some
            },
    {
        if str_eq(resource, "tasks") {
            self.tasks = saturating_add_i64(self.tasks, delta);
        } else if str_eq(resource, "agents") {
            self.agents = saturating_add_i64(self.agents, delta);
        } else if str_eq(resource, "workflows") {
            self.workflows = saturating_add_i64(self.workflows, delta);
        } else if str_eq(resource, "storage") {
            self.storage_gb = saturating_add_i64(self.storage_gb, delta);
        } else if str_eq(resource, "bandwidth") {
            self.bandwidth_gb = saturating_add_i64(self.bandwidth_gb, delta);
        } else if str_eq(resource, "api_calls") {
            self.api_calls_today = saturating_add_i64(self.api_calls_today, delta);
        } else if str_eq(resource, "connections") {
            self.active_connections = saturating_add_i64(self.active_connections, delta);
        } else {
            return Err(TenancyError::UnknownResource(String::from_str(resource)));
        }
        self.last_updated = Some(utc_now());
        Ok(())
    }

    /// Checks whether an allocation is allowed: the current usage plus the
    /// amount (saturating) must not exceed the limit, unless it is unlimited.
    pub fn can_allocate(&self, resource: &str, amount: i64, quota: &ResourceQuota) -> (r: bool)
        ensures
            r == allocation_allowed(*self, resource@, amount, *quota),
    {
        let current = self.get_usage(resource);
        let limit = quota.get_limit(resource);
        if limit < 0 {
            return true;
        }
        let total = saturating_add_i64(current, amount);
        total <= limit
    }

    /// Returns the current usage of a resource.
    pub fn get_usage(&self, resource: &str) -> (r: i64)
        ensures
            r == usage_of(*self, resource@),
    {
        if str_eq(resource, "tasks") {
            self.tasks
        } else if str_eq(resource, "agents") {
            self.agents
        } else if str_eq(resource, "workflows") {
            self.workflows
        } else if str_eq(resource, "storage") {
            self.storage_gb
        } else if str_eq(resource, "bandwidth") {
            self.bandwidth_gb
        } else if str_eq(resource, "api_calls") {
            self.api_calls_today
        } else if str_eq(resource, "connections") {
            self.active_connections
        } else {
            0
        }
    }

    /// Returns the usage as a map from counter names to values.
    pub fn to_map(&self) -> (r: StringHashMap<i64>)
        ensures
            r@ == Map::<Seq<char>, i64>::empty()
                .insert("tasks"@, self.tasks)
                .insert("agents"@, self.agents)
                .insert("workflows"@, self.workflows)
                .insert("storage_gb"@, self.storage_gb)
                .insert("bandwidth_gb"@, self.bandwidth_gb)
                .insert("api_calls_today"@, self.api_calls_today)
                .insert("active_connections"@, self.active_connections),
    {
        let mut map = StringHashMap::new();
        map.insert(String::from_str("tasks"), self.tasks);
        map.insert(String::from_str("agents"), self.agents);
        map.insert(String::from_str("workflows"), self.workflows);
        map.insert(String::from_str("storage_gb"), self.storage_gb);
        map.insert(String::from_str("bandwidth_gb"), self.bandwidth_gb);
        map.insert(String::from_str("api_calls_today"), self.api_calls_today);
        map.insert(String::from_str("active_connections"), self.active_connections);
        map
    }
}

} // verus!
