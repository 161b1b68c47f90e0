//! Grafana configuration, and the choice of trace export protocol.

use vstd::prelude::*;

verus! {

/// Grafana configuration.
#[derive(Debug, Clone)]
pub struct GrafanaConfig {
    /// Enable Grafana dashboard auto-creation.
    pub enabled: bool,
    /// Grafana base URL (e.g., "http://localhost:3000").
    pub base_url: String,
    /// API key (bearer token).
    pub api_key: String,
    /// Automatically create default dashboards on startup.
    pub create_default_dashboards: bool,
    /// Dashboard folder UID (optional).
    pub folder_uid: Option<String>,
}

impl Default for GrafanaConfig {
    fn default() -> (r: Self)
        ensures
            !r.enabled,
            r.base_url@ == "http://localhost:3000"@,
            r.api_key@ == Seq::<char>::empty(),
            !r.create_default_dashboards,
            r.folder_uid is None,
    {
        GrafanaConfig {
            enabled: false,
            base_url: String::from_str("http://localhost:3000"),
            api_key: String::new(),
            create_default_dashboards: false,
            folder_uid: None,
        }
    }
}

/// Wire protocol of the trace exporter.
#[derive(Debug, Clone, Copy, PartialEq, Eq, Structural)]
pub enum ExportProtocol {
    /// gRPC.
    Grpc,
    /// HTTP with binary bodies.
    HttpBinary,
}

/// The export protocol that a configured protocol name selects: "http"
/// selects HTTP with binary bodies; "grpc" and every other name select
/// gRPC.
pub fn export_protocol(protocol: &str) -> (r: ExportProtocol)
    ensures
        r == (if protocol@ == "http"@ { ExportProtocol::HttpBinary } else { ExportProtocol::Grpc }),
{
    proof { reveal_strlit("http"); }
    if crate::text::str_eq(protocol, "http") {
        ExportProtocol::HttpBinary
    } else {
        ExportProtocol::Grpc
    }
}

} // verus!
