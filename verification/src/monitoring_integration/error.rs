//! Errors of the monitoring integration.

use vstd::prelude::*;

verus! {

/// Errors that can occur in monitoring integration; each carries the
/// description of its cause.
#[derive(Debug)]
pub enum MonitoringError {
    /// Prometheus-related error.
    Prometheus(String),
    /// OpenTelemetry-related error.
    OpenTelemetry(String),
    /// OTLP export error.
    OtlpExport(String),
    /// HTTP server error.
    HttpServer(String),
    /// HTTP client error (for the Grafana API).
    HttpClient(String),
    /// Invalid configuration.
    Config(String),
    /// Serialization/deserialization error.
    Serialization(String),
    /// Other errors.
    Other(String),
}

} // verus!
