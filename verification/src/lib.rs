//! Verified core of the offline-first multi-agent SDK: load balancing,
//! mesh-transport quality of service and security, multi-tenancy, metadata
//! storage and queries, a model registry with A/B experiments, intent and
//! entity recognition, monitoring, and the supporting configuration types.

pub mod common;
pub mod clock;
pub mod ids;
pub mod json;
pub mod text;
pub mod sorting;
pub mod keyed;
pub mod hash_keys;
pub mod digest;
pub mod load_balancer;
pub mod mesh_transport;
pub mod multi_tenancy;
pub mod local_planner;
pub mod metadata_management;
pub mod ml_model_versioning;
pub mod mlops;
pub mod monitoring_integration;
pub mod monitoring;
pub mod nlp;
pub mod notification;
