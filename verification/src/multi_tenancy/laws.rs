//! Laws of tenant management and of quota accounting.

use vstd::prelude::*;
use crate::multi_tenancy::manager::MultiTenancyManager;
use crate::multi_tenancy::quotas::{
    ResourceQuota, TenantUsage, allocation_allowed, fits_limit, is_resource, quota_limit, sat_add, usage_after,
    usage_of,
};
use crate::multi_tenancy::tenant::Tenant;

verus! {

/// A created tenant is read back as created, and every other tenant is
/// read back as before.
pub proof fn law_created_tenant_is_found(before: MultiTenancyManager, after: MultiTenancyManager, t: Tenant)
    requires
        after.tenants_view() == before.tenants_view().insert(t.id@, t),
    ensures
        after.tenants_view().contains_key(t.id@),
        after.tenants_view()[t.id@] == t,
        forall|id: Seq<char>| id != t.id@ ==> (#[trigger] after.tenants_view().contains_key(id)
            == before.tenants_view().contains_key(id)),
        forall|id: Seq<char>| id != t.id@ && before.tenants_view().contains_key(id)
            ==> #[trigger] after.tenants_view()[id] == before.tenants_view()[id],
{
}

/// A deleted tenant is no longer found, and the other tenants stay.
pub proof fn law_deleted_tenant_is_gone(before: MultiTenancyManager, after: MultiTenancyManager, id: Seq<char>)
    requires
        after.tenants_view() == before.tenants_view().remove(id),
    ensures
        !after.tenants_view().contains_key(id),
        forall|o: Seq<char>| o != id ==> (#[trigger] after.tenants_view().contains_key(o)
            == before.tenants_view().contains_key(o)),
{
}

/// A user assigned to a tenant is reported as belonging to it (and so has
/// access to it), and every other user keeps their assignment.
pub proof fn law_assigned_user_has_access(
    before: MultiTenancyManager,
    after: MultiTenancyManager,
    user: Seq<char>,
    tenant: Seq<char>,
)
    requires
        after.users_view() == before.users_view().insert(user, tenant),
    ensures
        after.users_view().contains_key(user),
        after.users_view()[user] == tenant,
        forall|other: Seq<char>| other != user ==> (#[trigger] after.users_view().contains_key(other)
            == before.users_view().contains_key(other)),
        forall|other: Seq<char>| other != user && before.users_view().contains_key(other)
            ==> #[trigger] after.users_view()[other] == before.users_view()[other],
{
}

/// Updating the usage of a resource changes that resource by the
/// (saturating) delta and no other, and a later quota check of that
/// resource admits an amount exactly when the new usage plus the amount
/// stays within a non-negative limit (a negative limit admits anything).
pub proof fn law_usage_update_then_quota_check(
    u: TenantUsage,
    resource: Seq<char>,
    delta: i64,
    amount: i64,
    q: ResourceQuota,
)
    requires
        is_resource(resource),
    ensures
        usage_of(usage_after(u, resource, delta), resource) == sat_add(usage_of(u, resource), delta),
        forall|other: Seq<char>| is_resource(other) && other != resource
            ==> #[trigger] usage_of(usage_after(u, resource, delta), other) == usage_of(u, other),
        allocation_allowed(usage_after(u, resource, delta), resource, amount, q) == (quota_limit(q, resource) < 0
            || sat_add(sat_add(usage_of(u, resource), delta), amount) <= quota_limit(q, resource)),
{
    reveal_strlit("tasks");
    reveal_strlit("agents");
    reveal_strlit("workflows");
    reveal_strlit("storage");
    reveal_strlit("bandwidth");
    reveal_strlit("api_calls");
    reveal_strlit("connections");
    assert("agents"@ != "tasks"@) by { assert("agents"@.len() != "tasks"@.len() || "agents"@[0] != "tasks"@[0]); }
    assert("workflows"@ != "tasks"@) by { assert("workflows"@.len() != "tasks"@.len() || "workflows"@[0] != "tasks"@[0]); }
    assert("workflows"@ != "agents"@) by { assert("workflows"@.len() != "agents"@.len() || "workflows"@[0] != "agents"@[0]); }
    assert("storage"@ != "tasks"@) by { assert("storage"@.len() != "tasks"@.len() || "storage"@[0] != "tasks"@[0]); }
    assert("storage"@ != "agents"@) by { assert("storage"@.len() != "agents"@.len() || "storage"@[0] != "agents"@[0]); }
    assert("storage"@ != "workflows"@) by { assert("storage"@.len() != "workflows"@.len() || "storage"@[0] != "workflows"@[0]); }
    assert("bandwidth"@ != "tasks"@) by { assert("bandwidth"@.len() != "tasks"@.len() || "bandwidth"@[0] != "tasks"@[0]); }
    assert("bandwidth"@ != "agents"@) by { assert("bandwidth"@.len() != "agents"@.len() || "bandwidth"@[0] != "agents"@[0]); }
    assert("bandwidth"@ != "workflows"@) by { assert("bandwidth"@.len() != "workflows"@.len() || "bandwidth"@[0] != "workflows"@[0]); }
    assert("bandwidth"@ != "storage"@) by { assert("bandwidth"@.len() != "storage"@.len() || "bandwidth"@[0] != "storage"@[0]); }
    assert("api_calls"@ != "tasks"@) by { assert("api_calls"@.len() != "tasks"@.len() || "api_calls"@[0] != "tasks"@[0]); }
    assert("api_calls"@ != "agents"@) by { assert("api_calls"@.len() != "agents"@.len() || "api_calls"@[0] != "agents"@[0]); }
    assert("api_calls"@ != "workflows"@) by { assert("api_calls"@.len() != "workflows"@.len() || "api_calls"@[0] != "workflows"@[0]); }
    assert("api_calls"@ != "storage"@) by { assert("api_calls"@.len() != "storage"@.len() || "api_calls"@[0] != "storage"@[0]); }
    assert("api_calls"@ != "bandwidth"@) by { assert("api_calls"@.len() != "bandwidth"@.len() || "api_calls"@[0] != "bandwidth"@[0]); }
    assert("connections"@ != "tasks"@) by { assert("connections"@.len() != "tasks"@.len() || "connections"@[0] != "tasks"@[0]); }
    assert("connections"@ != "agents"@) by { assert("connections"@.len() != "agents"@.len() || "connections"@[0] != "agents"@[0]); }
    assert("connections"@ != "workflows"@) by { assert("connections"@.len() != "workflows"@.len() || "connections"@[0] != "workflows"@[0]); }
    assert("connections"@ != "storage"@) by { assert("connections"@.len() != "storage"@.len() || "connections"@[0] != "storage"@[0]); }
    assert("connections"@ != "bandwidth"@) by { assert("connections"@.len() != "bandwidth"@.len() || "connections"@[0] != "bandwidth"@[0]); }
    assert("connections"@ != "api_calls"@) by { assert("connections"@.len() != "api_calls"@.len() || "connections"@[0] != "api_calls"@[0]); }
}

/// Each resource name reads its own limit of the quota: tasks, agents,
/// workflows, storage, bandwidth, API calls and connections; any other
/// name is not limited.
pub proof fn law_each_resource_has_its_own_limit(q: ResourceQuota, r: Seq<char>)
    ensures
        quota_limit(q, "tasks"@) == q.max_tasks,
        quota_limit(q, "agents"@) == q.max_agents,
        quota_limit(q, "workflows"@) == q.max_workflows,
        quota_limit(q, "storage"@) == q.max_storage_gb,
        quota_limit(q, "bandwidth"@) == q.max_bandwidth_gb,
        quota_limit(q, "api_calls"@) == q.max_api_calls_per_day,
        quota_limit(q, "connections"@) == q.max_concurrent_connections,
        !is_resource(r) ==> quota_limit(q, r) == i64::MAX,
{
    reveal_strlit("tasks");
    reveal_strlit("agents");
    reveal_strlit("workflows");
    reveal_strlit("storage");
    reveal_strlit("bandwidth");
    reveal_strlit("api_calls");
    reveal_strlit("connections");
    assert("agents"@ != "tasks"@) by { assert("agents"@.len() != "tasks"@.len() || "agents"@[0] != "tasks"@[0]); }
    assert("workflows"@ != "tasks"@) by { assert("workflows"@.len() != "tasks"@.len() || "workflows"@[0] != "tasks"@[0]); }
    assert("workflows"@ != "agents"@) by { assert("workflows"@.len() != "agents"@.len() || "workflows"@[0] != "agents"@[0]); }
    assert("storage"@ != "tasks"@) by { assert("storage"@.len() != "tasks"@.len() || "storage"@[0] != "tasks"@[0]); }
    assert("storage"@ != "agents"@) by { assert("storage"@.len() != "agents"@.len() || "storage"@[0] != "agents"@[0]); }
    assert("storage"@ != "workflows"@) by { assert("storage"@.len() != "workflows"@.len() || "storage"@[0] != "workflows"@[0]); }
    assert("bandwidth"@ != "tasks"@) by { assert("bandwidth"@.len() != "tasks"@.len() || "bandwidth"@[0] != "tasks"@[0]); }
    assert("bandwidth"@ != "agents"@) by { assert("bandwidth"@.len() != "agents"@.len() || "bandwidth"@[0] != "agents"@[0]); }
    assert("bandwidth"@ != "workflows"@) by { assert("bandwidth"@.len() != "workflows"@.len() || "bandwidth"@[0] != "workflows"@[0]); }
    assert("bandwidth"@ != "storage"@) by { assert("bandwidth"@.len() != "storage"@.len() || "bandwidth"@[0] != "storage"@[0]); }
    assert("api_calls"@ != "tasks"@) by { assert("api_calls"@.len() != "tasks"@.len() || "api_calls"@[0] != "tasks"@[0]); }
    assert("api_calls"@ != "agents"@) by { assert("api_calls"@.len() != "agents"@.len() || "api_calls"@[0] != "agents"@[0]); }
    assert("api_calls"@ != "workflows"@) by { assert("api_calls"@.len() != "workflows"@.len() || "api_calls"@[0] != "workflows"@[0]); }
    assert("api_calls"@ != "storage"@) by { assert("api_calls"@.len() != "storage"@.len() || "api_calls"@[0] != "storage"@[0]); }
    assert("api_calls"@ != "bandwidth"@) by { assert("api_calls"@.len() != "bandwidth"@.len() || "api_calls"@[0] != "bandwidth"@[0]); }
    assert("connections"@ != "tasks"@) by { assert("connections"@.len() != "tasks"@.len() || "connections"@[0] != "tasks"@[0]); }
    assert("connections"@ != "agents"@) by { assert("connections"@.len() != "agents"@.len() || "connections"@[0] != "agents"@[0]); }
    assert("connections"@ != "workflows"@) by { assert("connections"@.len() != "workflows"@.len() || "connections"@[0] != "workflows"@[0]); }
    assert("connections"@ != "storage"@) by { assert("connections"@.len() != "storage"@.len() || "connections"@[0] != "storage"@[0]); }
    assert("connections"@ != "bandwidth"@) by { assert("connections"@.len() != "bandwidth"@.len() || "connections"@[0] != "bandwidth"@[0]); }
    assert("connections"@ != "api_calls"@) by { assert("connections"@.len() != "api_calls"@.len() || "connections"@[0] != "api_calls"@[0]); }
}

/// A quota has room for an amount of a resource exactly when its limit
/// is negative (unlimited) or the amount does not exceed it; so with
/// storage and bandwidth limits apart, an amount between them fits the
/// larger one and not the smaller.
pub proof fn law_capacity_meaning(q: ResourceQuota, amount: int)
    ensures
        fits_limit(quota_limit(q, "storage"@), amount) <==> (q.max_storage_gb < 0 || amount <= q.max_storage_gb),
        fits_limit(quota_limit(q, "bandwidth"@), amount) <==> (q.max_bandwidth_gb < 0 || amount <= q.max_bandwidth_gb),
        fits_limit(quota_limit(q, "tasks"@), amount) <==> (q.max_tasks < 0 || amount <= q.max_tasks),
        fits_limit(quota_limit(q, "agents"@), amount) <==> (q.max_agents < 0 || amount <= q.max_agents),
        fits_limit(quota_limit(q, "workflows"@), amount) <==> (q.max_workflows < 0 || amount <= q.max_workflows),
        fits_limit(quota_limit(q, "api_calls"@), amount) <==> (q.max_api_calls_per_day < 0 || amount
            <= q.max_api_calls_per_day),
        fits_limit(quota_limit(q, "connections"@), amount) <==> (q.max_concurrent_connections < 0 || amount
            <= q.max_concurrent_connections),
{
    law_each_resource_has_its_own_limit(q, "tasks"@);
}

/// Each resource name reads and updates its own usage counter, and an
/// allocation of it is admitted exactly when its own limit is negative
/// (unlimited) or its own usage plus the amount (saturating) stays within
/// it.
pub proof fn law_each_resource_has_its_own_usage(u: TenantUsage, q: ResourceQuota, delta: i64, amount: i64)
    ensures
        usage_of(u, "tasks"@) == u.tasks,
        usage_after(u, "tasks"@, delta).tasks == sat_add(u.tasks, delta),
        allocation_allowed(u, "tasks"@, amount, q) <==> (q.max_tasks < 0 || sat_add(u.tasks, amount) <= q.max_tasks),
        usage_of(u, "agents"@) == u.agents,
        usage_after(u, "agents"@, delta).agents == sat_add(u.agents, delta),
        allocation_allowed(u, "agents"@, amount, q) <==> (q.max_agents < 0 || sat_add(u.agents, amount) <= q.max_agents),
        usage_of(u, "workflows"@) == u.workflows,
        usage_after(u, "workflows"@, delta).workflows == sat_add(u.workflows, delta),
        allocation_allowed(u, "workflows"@, amount, q) <==> (q.max_workflows < 0 || sat_add(u.workflows, amount) <= q.max_workflows),
        usage_of(u, "storage"@) == u.storage_gb,
        usage_after(u, "storage"@, delta).storage_gb == sat_add(u.storage_gb, delta),
        allocation_allowed(u, "storage"@, amount, q) <==> (q.max_storage_gb < 0 || sat_add(u.storage_gb, amount) <= q.max_storage_gb),
        usage_of(u, "bandwidth"@) == u.bandwidth_gb,
        usage_after(u, "bandwidth"@, delta).bandwidth_gb == sat_add(u.bandwidth_gb, delta),
        allocation_allowed(u, "bandwidth"@, amount, q) <==> (q.max_bandwidth_gb < 0 || sat_add(u.bandwidth_gb, amount) <= q.max_bandwidth_gb),
        usage_of(u, "api_calls"@) == u.api_calls_today,
        usage_after(u, "api_calls"@, delta).api_calls_today == sat_add(u.api_calls_today, delta),
        allocation_allowed(u, "api_calls"@, amount, q) <==> (q.max_api_calls_per_day < 0 || sat_add(u.api_calls_today, amount) <= q.max_api_calls_per_day),
        usage_of(u, "connections"@) == u.active_connections,
        usage_after(u, "connections"@, delta).active_connections == sat_add(u.active_connections, delta),
        allocation_allowed(u, "connections"@, amount, q) <==> (q.max_concurrent_connections < 0 || sat_add(u.active_connections, amount) <= q.max_concurrent_connections),
{
    reveal_strlit("tasks");
    reveal_strlit("agents");
    reveal_strlit("workflows");
    reveal_strlit("storage");
    reveal_strlit("bandwidth");
    reveal_strlit("api_calls");
    reveal_strlit("connections");
    assert("agents"@ != "tasks"@) by { assert("agents"@.len() != "tasks"@.len() || "agents"@[0] != "tasks"@[0]); }
    assert("workflows"@ != "tasks"@) by { assert("workflows"@.len() != "tasks"@.len() || "workflows"@[0] != "tasks"@[0]); }
    assert("workflows"@ != "agents"@) by { assert("workflows"@.len() != "agents"@.len() || "workflows"@[0] != "agents"@[0]); }
    assert("storage"@ != "tasks"@) by { assert("storage"@.len() != "tasks"@.len() || "storage"@[0] != "tasks"@[0]); }
    assert("storage"@ != "agents"@) by { assert("storage"@.len() != "agents"@.len() || "storage"@[0] != "agents"@[0]); }
    assert("storage"@ != "workflows"@) by { assert("storage"@.len() != "workflows"@.len() || "storage"@[0] != "workflows"@[0]); }
    assert("bandwidth"@ != "tasks"@) by { assert("bandwidth"@.len() != "tasks"@.len() || "bandwidth"@[0] != "tasks"@[0]); }
    assert("bandwidth"@ != "agents"@) by { assert("bandwidth"@.len() != "agents"@.len() || "bandwidth"@[0] != "agents"@[0]); }
    assert("bandwidth"@ != "workflows"@) by { assert("bandwidth"@.len() != "workflows"@.len() || "bandwidth"@[0] != "workflows"@[0]); }
    assert("bandwidth"@ != "storage"@) by { assert("bandwidth"@.len() != "storage"@.len() || "bandwidth"@[0] != "storage"@[0]); }
    assert("api_calls"@ != "tasks"@) by { assert("api_calls"@.len() != "tasks"@.len() || "api_calls"@[0] != "tasks"@[0]); }
    assert("api_calls"@ != "agents"@) by { assert("api_calls"@.len() != "agents"@.len() || "api_calls"@[0] != "agents"@[0]); }
    assert("api_calls"@ != "workflows"@) by { assert("api_calls"@.len() != "workflows"@.len() || "api_calls"@[0] != "workflows"@[0]); }
    assert("api_calls"@ != "storage"@) by { assert("api_calls"@.len() != "storage"@.len() || "api_calls"@[0] != "storage"@[0]); }
    assert("api_calls"@ != "bandwidth"@) by { assert("api_calls"@.len() != "bandwidth"@.len() || "api_calls"@[0] != "bandwidth"@[0]); }
    assert("connections"@ != "tasks"@) by { assert("connections"@.len() != "tasks"@.len() || "connections"@[0] != "tasks"@[0]); }
    assert("connections"@ != "agents"@) by { assert("connections"@.len() != "agents"@.len() || "connections"@[0] != "agents"@[0]); }
    assert("connections"@ != "workflows"@) by { assert("connections"@.len() != "workflows"@.len() || "connections"@[0] != "workflows"@[0]); }
    assert("connections"@ != "storage"@) by { assert("connections"@.len() != "storage"@.len() || "connections"@[0] != "storage"@[0]); }
    assert("connections"@ != "bandwidth"@) by { assert("connections"@.len() != "bandwidth"@.len() || "connections"@[0] != "bandwidth"@[0]); }
    assert("connections"@ != "api_calls"@) by { assert("connections"@.len() != "api_calls"@.len() || "connections"@[0] != "api_calls"@[0]); }
}

} // verus!
