//! Monitoring: alert records, statistics and alerting rules.

pub mod alerting;
pub mod manager;
pub mod laws;
