use offline_first_sdk::clock::UtcTimestamp;
use offline_first_sdk::multi_tenancy::error::TenancyError;
use offline_first_sdk::multi_tenancy::isolation::{IsolationError, IsolationLevel, IsolationMiddleware, TenantIsolation};
use offline_first_sdk::multi_tenancy::manager::{
    MultiTenancyConfig, MultiTenancyManager, TenantCreateRequest, TenantUpdateRequest,
};
use offline_first_sdk::multi_tenancy::quotas::{ResourceQuota, TenantUsage};
use offline_first_sdk::multi_tenancy::tenant::{Tenant, TenantStatus};

#[test]
fn test_tenant_isolation() {
    let isolation = TenantIsolation::new("tenant-123");
    assert_eq!(isolation.get_schema_name(), "tenant_tenant_123");
    assert!(isolation.add_tenant_filter("SELECT * FROM tasks").contains("tenant_id = 'tenant-123'"));
}

#[test]
fn test_table_name() {
    let isolation = TenantIsolation::new("tenant-123");
    assert_eq!(isolation.get_table_name("tasks"), "tenant_tenant_123_tasks");
}

#[test]
fn test_isolation_middleware() {
    let middleware = IsolationMiddleware::new("tenant-123");
    let query = "SELECT * FROM tasks WHERE id = 1";
    let wrapped = middleware.wrap_query(query);
    assert!(wrapped.contains("tenant_id = 'tenant-123'"));
}

#[test]
fn isolation_connection_strings() {
    let iso = TenantIsolation::new("t-1");
    assert_eq!(iso.build_connection_string("pg://h").unwrap(), "pg://h&options=-c%20search_path%3Dtenant_t_1");
    let iso = TenantIsolation::new("t-1").with_level(IsolationLevel::Shared);
    assert_eq!(iso.build_connection_string("pg://h").unwrap(), "pg://h?tenant=t-1");
    let iso = TenantIsolation::new("t-1").with_level(IsolationLevel::Instance);
    assert_eq!(iso.build_connection_string("pg://h").unwrap(), "pg://h?instance=t-1");
    let iso = TenantIsolation::new("t-1").with_level(IsolationLevel::Database);
    assert!(matches!(iso.build_connection_string("pg://h"), Err(IsolationError::DatabaseNameNotSet)));
    let iso = iso.with_database("db1");
    assert_eq!(iso.build_connection_string("pg://h").unwrap(), "pg://h/db1");
    assert_eq!(iso.get_database_name(), Some("db1".to_string()));
    let stats = iso.get_stats();
    assert_eq!(stats.isolation_level, "Database");
    assert_eq!(stats.schema_name, "tenant_t_1");
    assert_eq!(stats.tenant_id, "t-1");
}

#[test]
fn middleware_exposes_tenant_and_schema() {
    let m = IsolationMiddleware::new("a-b-c");
    assert_eq!(m.get_tenant_id(), "a-b-c");
    assert_eq!(m.get_schema(), "tenant_a_b_c");
    assert_eq!(m.wrap_query("Q"), "Q WHERE tenant_id = 'a-b-c'");
}

#[test]
fn test_resource_quota() {
    let quota = ResourceQuota {
        max_tasks: 100,
        max_agents: 10,
        max_workflows: 50,
        max_storage_gb: 1000,
        max_bandwidth_gb: 500,
        max_api_calls_per_day: 100000,
        max_concurrent_connections: 100,
    };
    assert!(quota.has_capacity("tasks", 50));
    assert!(!quota.has_capacity("tasks", 150));
    assert!(quota.has_capacity("tasks", 100));
}

#[test]
fn quota_unlimited_and_unknown_resources() {
    let mut quota = ResourceQuota::default();
    quota.max_agents = -1;
    assert!(quota.has_capacity("agents", i64::MAX));
    assert_eq!(quota.get_limit("nonsense"), i64::MAX);
    assert_eq!(quota.get_limit("connections"), 0);
    assert!(!quota.has_capacity("connections", 1));
}

#[test]
fn test_tenant_usage() {
    let mut usage = TenantUsage::default();
    usage.update("tasks", 10).unwrap();
    assert_eq!(usage.tasks, 10);
    usage.update("tasks", 5).unwrap();
    assert_eq!(usage.tasks, 15);
    usage.update("tasks", -5).unwrap();
    assert_eq!(usage.tasks, 10);
}

#[test]
fn usage_update_saturates_and_refuses_unknown() {
    let mut usage = TenantUsage::default();
    usage.update("storage", i64::MAX).unwrap();
    usage.update("storage", 1).unwrap();
    assert_eq!(usage.storage_gb, i64::MAX);
    assert!(usage.last_updated.is_some());
    let before = usage.tasks;
    assert!(matches!(usage.update("cpu", 1), Err(TenancyError::UnknownResource(ref n)) if n == "cpu"));
    assert_eq!(usage.tasks, before);
    let map = usage.to_map();
    assert_eq!(map.get("storage_gb"), Some(&i64::MAX));
    assert_eq!(map.get("tasks"), Some(&0));
}

#[test]
fn test_allocation_check() {
    let quota = ResourceQuota { max_tasks: 100, ..Default::default() };
    let mut usage = TenantUsage::default();
    usage.update("tasks", 50).unwrap();
    assert!(usage.can_allocate("tasks", 40, &quota));
    assert!(!usage.can_allocate("tasks", 60, &quota));
}

fn sample_tenant() -> Tenant {
    let now = UtcTimestamp { secs: 1_700_000_000, nanos: 0 };
    Tenant {
        id: "tenant-1".to_string(),
        name: "Test".to_string(),
        status: TenantStatus::Active,
        quota: ResourceQuota::default(),
        usage: TenantUsage::default(),
        created_at: now,
        updated_at: now,
    }
}

#[test]
fn test_tenant_status() {
    let mut tenant = sample_tenant();
    assert!(tenant.is_active());
    tenant.suspend();
    assert!(tenant.is_suspended());
    tenant.activate();
    assert!(tenant.is_active());
    tenant.delete();
    assert_eq!(tenant.status, TenantStatus::Deleted);
    assert_eq!(tenant.get_isolation().get_schema_name(), "tenant_tenant_1");
}

fn request(name: &str) -> TenantCreateRequest {
    TenantCreateRequest { name: name.to_string(), email: None, metadata: None }
}

#[test]
fn test_tenant_lifecycle() {
    let mut manager = MultiTenancyManager::new(MultiTenancyConfig::default());
    let tenant = manager.create_tenant(&request("Test Tenant")).unwrap();
    assert!(!tenant.id.is_empty());
    let fetched = manager.get_tenant(&tenant.id).unwrap();
    assert_eq!(fetched.name, "Test Tenant");
    let update = TenantUpdateRequest { name: Some("Updated Tenant".to_string()), ..Default::default() };
    let updated = manager.update_tenant(&tenant.id, update).unwrap();
    assert_eq!(updated.name, "Updated Tenant");
    manager.delete_tenant(&tenant.id).unwrap();
    assert!(manager.get_tenant(&tenant.id).is_err());
}

#[test]
fn test_user_tenant_assignment() {
    let mut manager = MultiTenancyManager::new(MultiTenancyConfig::default());
    let tenant = manager.create_tenant(&request("Test Tenant")).unwrap();
    manager.assign_user_to_tenant("user-1", &tenant.id).unwrap();
    let user_tenant = manager.get_user_tenant("user-1").unwrap();
    assert_eq!(user_tenant, tenant.id);
    assert!(manager.has_tenant_access("user-1", &tenant.id));
    assert!(!manager.has_tenant_access("user-2", &tenant.id));
    assert!(matches!(manager.assign_user_to_tenant("user-3", "missing"), Err(TenancyError::TenantNotFound(_))));
}

#[test]
fn test_quota_enforcement() {
    let mut manager = MultiTenancyManager::new(MultiTenancyConfig::default());
    let mut quota = ResourceQuota::default();
    quota.max_tasks = 10;
    let tenant = manager.create_tenant(&request("Test Tenant")).unwrap();
    manager
        .update_tenant(&tenant.id, TenantUpdateRequest { quota: Some(quota), ..Default::default() })
        .unwrap();
    assert!(manager.check_quota(&tenant.id, "tasks", 5).unwrap());
    assert!(!manager.check_quota(&tenant.id, "tasks", 15).unwrap());
    manager.update_usage(&tenant.id, "tasks", 8).unwrap();
    assert!(!manager.check_quota(&tenant.id, "tasks", 5).unwrap());
    assert!(matches!(manager.update_usage(&tenant.id, "gpu", 1), Err(TenancyError::UnknownResource(_))));
}

#[test]
fn tenant_limit_is_enforced() {
    let config = MultiTenancyConfig { max_tenants: 1, ..MultiTenancyConfig::default() };
    let mut manager = MultiTenancyManager::new(config);
    manager.create_tenant(&request("a")).unwrap();
    assert!(matches!(manager.create_tenant(&request("b")), Err(TenancyError::MaxTenantsReached)));
    assert_eq!(manager.list_tenants().len(), 1);
}

#[test]
fn create_with_id_is_exact() {
    let mut manager = MultiTenancyManager::new(MultiTenancyConfig::default());
    let now = UtcTimestamp { secs: 5, nanos: 6 };
    let t = manager.create_tenant_with_id(&request("n"), "fixed".to_string(), now).unwrap();
    assert_eq!(t.id, "fixed");
    assert_eq!(t.created_at, now);
    assert_eq!(manager.get_tenant("fixed").unwrap().name, "n");
    assert!(matches!(manager.delete_tenant("nope"), Err(TenancyError::TenantNotFound(ref m)) if m == "nope"));
}
