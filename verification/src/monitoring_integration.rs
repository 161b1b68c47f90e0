//! Monitoring integration: Grafana dashboards and configuration, and
//! trace-context carriers for mesh messages.

pub mod config;
pub mod distributed_tracing;
pub mod error;
pub mod grafana;
