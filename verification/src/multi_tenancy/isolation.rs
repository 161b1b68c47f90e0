//! Tenant isolation strategies: schema, table and connection naming.

use vstd::prelude::*;
use crate::text::{replace_char, replace_char_with};

verus! {

/// Tenant isolation level.
#[derive(Debug, Clone, Copy, PartialEq, Eq, Structural)]
pub enum IsolationLevel {
    /// Shared resources with logical separation
    Shared,
    /// Separate schema per tenant
    Schema,
    /// Separate database per tenant
    Database,
    /// Separate instance per tenant
    Instance,
}

/// The debug name of an isolation level.
pub open spec fn level_name(l: IsolationLevel) -> Seq<char> {
    match l {
        IsolationLevel::Shared => "Shared"@,
        IsolationLevel::Schema => "Schema"@,
        IsolationLevel::Database => "Database"@,
        IsolationLevel::Instance => "Instance"@,
    }
}

/// Errors of tenant isolation.
#[derive(Debug)]
pub enum IsolationError {
    /// Database isolation was asked for, but no database name is set.
    DatabaseNameNotSet,
}

/// The schema of a tenant: `tenant_` followed by the id with `-` turned into `_`.
pub open spec fn schema_of(tenant_id: Seq<char>) -> Seq<char> {
    "tenant_"@ + replace_char(tenant_id, '-', "_"@)
}

/// Tenant isolation configuration.
pub struct TenantIsolation {
    tenant_id: String,
    isolation_level: IsolationLevel,
    schema_prefix: String,
    database_name: Option<String>,
}

/// The characters of an optional string.
pub open spec fn opt_view(o: Option<String>) -> Option<Seq<char>> {
    match o {
        Some(s) => Some(s@),
        None => None,
    }
}

fn clone_opt(o: &Option<String>) -> (r: Option<String>)
    ensures
        opt_view(r) == opt_view(*o),
{
    match o {
        Some(s) => Some(s.clone()),
        None => None,
    }
}

impl TenantIsolation {
    /// The tenant's id.
    pub closed spec fn tenant_id_view(&self) -> Seq<char> {
        self.tenant_id@
    }

    /// The isolation level.
    pub closed spec fn level_view(&self) -> IsolationLevel {
        self.isolation_level
    }

    /// The schema name.
    pub closed spec fn schema_view(&self) -> Seq<char> {
        self.schema_prefix@
    }

    /// The database name, if set.
    pub closed spec fn database_view(&self) -> Option<Seq<char>> {
        opt_view(self.database_name)
    }

    /// Creates the isolation of a tenant: schema level, schema named after
    /// the tenant, no database name.
    pub fn new(tenant_id: &str) -> (r: Self)
        ensures
            r.tenant_id_view() == tenant_id@,
            r.level_view() == IsolationLevel::Schema,
            r.schema_view() == schema_of(tenant_id@),
            r.database_view() is None,
    {
        let mut schema = String::from_str("tenant_");
        let replaced = replace_char_with(tenant_id, '-', "_");
        schema.append(replaced.as_str());
        TenantIsolation {
            tenant_id: String::from_str(tenant_id),
            isolation_level: IsolationLevel::Schema,
            schema_prefix: schema,
            database_name: None,
        }
    }

    /// Sets the isolation level.
    pub fn with_level(self, level: IsolationLevel) -> (r: Self)
        ensures
            r.tenant_id_view() == self.tenant_id_view(),
            r.level_view() == level,
            r.schema_view() == self.schema_view(),
            r.database_view() == self.database_view(),
    {
        TenantIsolation { isolation_level: level, ..self }
    }

    /// Returns the isolation level.
    pub fn get_level(&self) -> (r: &IsolationLevel)
        ensures
            *r == self.level_view(),
    {
        &self.isolation_level
    }

    /// Returns the schema name.
    pub fn get_schema_name(&self) -> (r: String)
        ensures
            r@ == self.schema_view(),
    {
        self.schema_prefix.clone()
    }

    /// Returns the database name.
    pub fn get_database_name(&self) -> (r: Option<String>)
        ensures
            opt_view(r) == self.database_view(),
    {
        clone_opt(&self.database_name)
    }

    /// Sets the database name.
    pub fn with_database(self, db_name: &str) -> (r: Self)
        ensures
            r.tenant_id_view() == self.tenant_id_view(),
            r.level_view() == self.level_view(),
            r.schema_view() == self.schema_view(),
            r.database_view() == Some(db_name@),
    {
        TenantIsolation { database_name: Some(String::from_str(db_name)), ..self }
    }

    /// Builds the connection string for the tenant from a base URL.
    pub fn build_connection_string(&self, base_url: &str) -> (r: Result<String, IsolationError>)
        ensures
            match self.level_view() {
                IsolationLevel::Shared => r matches Ok(s) && s@ == base_url@ + "?tenant="@ + self.tenant_id_view(),
                IsolationLevel::Schema => r matches Ok(s)
                    && s@ == base_url@ + "&options=-c%20search_path%3D"@ + self.schema_view(),
                IsolationLevel::Database => match self.database_view() {
                    Some(db) => r matches Ok(s) && s@ == base_url@ + "/"@ + db,
                    None => r matches Err(IsolationError::DatabaseNameNotSet),
                },
                IsolationLevel::Instance => r matches Ok(s) && s@ == base_url@ + "?instance="@ + self.tenant_id_view(),
            },
    {
        let mut s = String::from_str(base_url);
        match self.isolation_level {
            IsolationLevel::Shared => {
                s.append("?tenant=");
                s.append(self.tenant_id.as_str());
                Ok(s)
            },
            IsolationLevel::Schema => {
                s.append("&options=-c%20search_path%3D");
                s.append(self.schema_prefix.as_str());
                Ok(s)
            },
            IsolationLevel::Database => match &self.database_name {
                Some(db) => {
                    s.append("/");
                    s.append(db.as_str());
                    Ok(s)
                },
                None => Err(IsolationError::DatabaseNameNotSet),
            },
            IsolationLevel::Instance => {
                s.append("?instance=");
                s.append(self.tenant_id.as_str());
                Ok(s)
            },
        }
    }

    /// Returns the table name with the tenant prefix: `<schema>_<table>`.
    pub fn get_table_name(&self, table: &str) -> (r: String)
        ensures
            r@ == self.schema_view() + "_"@ + table@,
    {
        let mut s = self.schema_prefix.clone();
        s.append("_");
        s.append(table);
        s
    }

    /// Adds the tenant filter to a query: `<query> WHERE tenant_id = '<id>'`.
    pub fn add_tenant_filter(&self, query: &str) -> (r: String)
        ensures
            r@ == query@ + " WHERE tenant_id = '"@ + self.tenant_id_view() + "'"@,
    {
        let mut s = String::from_str(query);
        s.append(" WHERE tenant_id = '");
        s.append(self.tenant_id.as_str());
        s.append("'");
        s
    }

    /// Returns the isolation statistics.
    pub fn get_stats(&self) -> (r: IsolationStats)
        ensures
            r.tenant_id@ == self.tenant_id_view(),
            r.isolation_level@ == level_name(self.level_view()),
            r.schema_name@ == self.schema_view(),
            opt_view(r.database_name) == self.database_view(),
    {
        let level = match self.isolation_level {
            IsolationLevel::Shared => String::from_str("Shared"),
            IsolationLevel::Schema => String::from_str("Schema"),
            IsolationLevel::Database => String::from_str("Database"),
            IsolationLevel::Instance => String::from_str("Instance"),
        };
        IsolationStats {
            tenant_id: self.tenant_id.clone(),
            isolation_level: level,
            schema_name: self.get_schema_name(),
            database_name: clone_opt(&self.database_name),
        }
    }
}

/// Isolation statistics.
#[derive(Debug, Clone)]
pub struct IsolationStats {
    /// The tenant's id.
    pub tenant_id: String,
    /// The isolation level's name.
    pub isolation_level: String,
    /// The schema name.
    pub schema_name: String,
    /// The database name, if set.
    pub database_name: Option<String>,
}

/// Data isolation middleware.
pub struct IsolationMiddleware {
    isolation: TenantIsolation,
}

impl IsolationMiddleware {
    /// The isolation the middleware applies.
    pub closed spec fn isolation_view(&self) -> TenantIsolation {
        self.isolation
    }

    /// Creates the middleware of a tenant.
    pub fn new(tenant_id: &str) -> (r: Self)
        ensures
            r.isolation_view().tenant_id_view() == tenant_id@,
            r.isolation_view().level_view() == IsolationLevel::Schema,
            r.isolation_view().schema_view() == schema_of(tenant_id@),
            r.isolation_view().database_view() is None,
    {
        IsolationMiddleware { isolation: TenantIsolation::new(tenant_id) }
    }

    /// Wraps a query with the tenant filter.
    pub fn wrap_query(&self, query: &str) -> (r: String)
        ensures
            r@ == query@ + " WHERE tenant_id = '"@ + self.isolation_view().tenant_id_view() + "'"@,
    {
        self.isolation.add_tenant_filter(query)
    }

    /// Returns the tenant id.
    pub fn get_tenant_id(&self) -> (r: &str)
        ensures
            r@ == self.isolation_view().tenant_id_view(),
    {
        self.isolation.tenant_id.as_str()
    }

    /// Returns the schema name.
    pub fn get_schema(&self) -> (r: &str)
        ensures
            r@ == self.isolation_view().schema_view(),
    {
        self.isolation.schema_prefix.as_str()
    }
}

} // verus!
