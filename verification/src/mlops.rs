//! MLOps configuration.

use vstd::prelude::*;

verus! {

/// MLOps configuration.
#[derive(Debug, Clone)]
pub struct MLOpsConfig {
    /// Where models are registered.
    pub model_registry_path: String,
    /// Where features are stored.
    pub feature_store_path: String,
    /// Model serving endpoint.
    pub serving_endpoint: String,
    /// Whether A/B testing is enabled.
    pub ab_testing_enabled: bool,
    /// Time-to-live of cached models, in seconds.
    pub model_cache_ttl_secs: u64,
}

impl Default for MLOpsConfig {
    fn default() -> (r: Self)
        ensures
            r.model_registry_path@ == "./models"@,
            r.feature_store_path@ == "./features"@,
            r.serving_endpoint@ == "http://localhost:8080"@,
            r.ab_testing_enabled,
            r.model_cache_ttl_secs == 3600,
    {
        MLOpsConfig {
            model_registry_path: String::from_str("./models"),
            feature_store_path: String::from_str("./features"),
            serving_endpoint: String::from_str("http://localhost:8080"),
            ab_testing_enabled: true,
            model_cache_ttl_secs: 3600,
        }
    }
}

} // verus!
