use std::collections::HashMap;
use std::sync::Arc;

use offline_first_sdk::clock::utc_now;
use offline_first_sdk::ml_model_versioning::ab_testing::{
    is_unit_fraction, version_for_variant, ABExperimentConfig, ABTestingManager, Observation, Variant,
};
use offline_first_sdk::ml_model_versioning::error::ModelVersioningError;
use offline_first_sdk::ml_model_versioning::manager::{ModelVersioningConfig, ModelVersioningManager};
use offline_first_sdk::ml_model_versioning::storage::InMemoryStorage;
use offline_first_sdk::ml_model_versioning::types::{
    compute_checksum, CreateVersionRequest, ModelMetadata, SortField, UpdateVersionRequest, VersionQuery,
};

fn metadata(id: &str, name: &str, model_type: &str, framework: &str) -> ModelMetadata {
    ModelMetadata {
        id: id.to_string(),
        name: name.to_string(),
        description: "Test".to_string(),
        model_type: model_type.to_string(),
        framework: framework.to_string(),
        input_schema: None,
        output_schema: None,
        tags: vec![],
        custom_metadata: HashMap::new(),
        created_at: utc_now(),
        updated_at: utc_now(),
    }
}

fn request(model_id: &str, version: &str, changelog: &str, data: Vec<u8>, set_as_default: bool) -> CreateVersionRequest {
    CreateVersionRequest {
        model_id: model_id.to_string(),
        version: version.to_string(),
        semver: None,
        changelog: changelog.to_string(),
        data,
        dependencies: Vec::new(),
        metrics: Vec::new(),
        hyperparameters: HashMap::new(),
        training_data: None,
        set_as_default,
        author: "test".to_string(),
    }
}

fn query(model_id: Option<&str>, sort_by: Option<SortField>, sort_desc: bool, offset: Option<usize>, limit: Option<usize>) -> VersionQuery {
    VersionQuery {
        model_id: model_id.map(|m| m.to_string()),
        tag: None,
        framework: None,
        model_type: None,
        min_metric: None,
        limit,
        offset,
        sort_by,
        sort_desc,
    }
}

#[test]
fn test_basic_workflow() {
    let storage = InMemoryStorage::new();
    let config = ModelVersioningConfig::default();
    let mut manager = ModelVersioningManager::new(storage, config);

    manager.create_model(metadata("test-model", "Test Model", "test", "test")).unwrap();

    let version = manager.register_version(request("test-model", "v1", "Test version", vec![1, 2, 3, 4, 5], true)).unwrap();
    assert_eq!(version.model_id, "test-model");
    assert_eq!(version.version, "v1");
    assert!(version.is_default);

    let retrieved = manager.get_version("test-model", "v1").unwrap();
    assert_eq!(retrieved.version, "v1");

    let default = manager.get_default_version("test-model").unwrap();
    assert_eq!(default.version, "v1");

    let versions = manager.storage().list_versions("test-model").unwrap();
    assert_eq!(versions.len(), 1);

    let stats = manager.get_stats().unwrap();
    assert_eq!(stats.total_models, 1);
    assert_eq!(stats.total_versions, 1);
}

#[test]
fn test_checksum_validation() {
    let storage = InMemoryStorage::new();
    let config = ModelVersioningConfig { validate_checksums: true, ..Default::default() };
    let mut manager = ModelVersioningManager::new(storage, config);

    manager.create_model(metadata("checksum-model", "Test", "test", "test")).unwrap();

    let version = manager.register_version(request("checksum-model", "v1", "Test", vec![1, 2, 3, 4, 5], true)).unwrap();
    let checksum = version.checksum.clone();

    let retrieved = manager.get_version("checksum-model", "v1").unwrap();
    assert_eq!(retrieved.checksum, checksum);
}

#[test]
fn created_version_records_checksum_size_and_location() {
    let mut storage = InMemoryStorage::new();
    storage.create_model(metadata("m", "M", "test", "test")).unwrap();
    let v = storage.create_version(request("m", "v1", "first", b"abc".to_vec(), false)).unwrap();
    assert_eq!(v.checksum, "ba7816bf8f01cfea414140de5dae2223b00361a396177a9cb410ff61f20015ad");
    assert_eq!(v.size_bytes, 3);
    assert_eq!(v.storage_location, "memory://m/v1");
    assert!(!v.is_default);
    assert!(!v.is_deprecated);
    assert_eq!(compute_checksum(b""), "e3b0c44298fc1c149afbf4c8996fb92427ae41e4649b934ca495991b7852b855");
}

#[test]
fn duplicate_model_and_version_conflict() {
    let mut storage = InMemoryStorage::new();
    storage.create_model(metadata("m", "M", "test", "test")).unwrap();
    match storage.create_model(metadata("m", "Other", "test", "test")) {
        Err(ModelVersioningError::Conflict(msg)) => assert_eq!(msg, "Model 'm' already exists"),
        other => panic!("unexpected {:?}", other),
    }
    storage.create_version(request("m", "v1", "first", vec![1], false)).unwrap();
    match storage.create_version(request("m", "v1", "again", vec![2], false)) {
        Err(ModelVersioningError::Conflict(msg)) => assert_eq!(msg, "Version 'v1' of model 'm' already exists"),
        other => panic!("unexpected {:?}", other),
    }
    match storage.create_version(request("missing", "v1", "x", vec![], false)) {
        Err(ModelVersioningError::ModelNotFound(m)) => assert_eq!(m, "missing"),
        other => panic!("unexpected {:?}", other),
    }
}

#[test]
fn lookups_distinguish_missing_model_and_version() {
    let mut storage = InMemoryStorage::new();
    storage.create_model(metadata("m", "M", "test", "test")).unwrap();
    // A model without versions has no version table yet.
    assert!(matches!(storage.get_version("m", "v1"), Err(ModelVersioningError::ModelNotFound(_))));
    storage.create_version(request("m", "v1", "first", vec![1], false)).unwrap();
    match storage.get_version("m", "v2") {
        Err(ModelVersioningError::VersionNotFound(v, m)) => {
            assert_eq!(v, "v2");
            assert_eq!(m, "m");
        }
        other => panic!("unexpected {:?}", other),
    }
    match storage.get_default_version("m") {
        Err(ModelVersioningError::VersionNotFound(v, m)) => {
            assert_eq!(v, "default");
            assert_eq!(m, "m");
        }
        other => panic!("unexpected {:?}", other),
    }
    assert!(matches!(storage.get_model("zzz"), Err(ModelVersioningError::ModelNotFound(_))));
    assert_eq!(storage.get_model("m").unwrap().name, "M");
}

#[test]
fn new_default_replaces_old_default() {
    let mut storage = InMemoryStorage::new();
    storage.create_model(metadata("m", "M", "test", "test")).unwrap();
    storage.create_version(request("m", "v1", "first", vec![1], true)).unwrap();
    storage.create_version(request("m", "v2", "second", vec![2], true)).unwrap();
    assert_eq!(storage.get_default_version("m").unwrap().version, "v2");
    assert!(!storage.get_version("m", "v1").unwrap().is_default);
}

#[test]
fn promote_and_deprecate_move_the_default() {
    let mut manager = ModelVersioningManager::new(InMemoryStorage::new(), ModelVersioningConfig::default());
    manager.create_model(metadata("m", "M", "test", "test")).unwrap();
    manager.register_version(request("m", "v1", "first", vec![1], true)).unwrap();
    manager.register_version(request("m", "v2", "second", vec![2], false)).unwrap();
    let promoted = manager.promote_to_default("m", "v2").unwrap();
    assert!(promoted.is_default);
    assert_eq!(manager.get_default_version("m").unwrap().version, "v2");
    assert!(!manager.get_version("m", "v1").unwrap().is_default);
    let deprecated = manager.deprecate_version("m", "v2").unwrap();
    assert!(deprecated.is_deprecated);
    assert!(!deprecated.is_default);
    assert!(manager.get_default_version("m").is_err());
}

#[test]
fn update_version_replaces_given_fields() {
    let mut storage = InMemoryStorage::new();
    storage.create_model(metadata("m", "M", "test", "test")).unwrap();
    storage.create_version(request("m", "v1", "first", vec![1], false)).unwrap();
    let update = UpdateVersionRequest {
        changelog: Some("changed".to_string()),
        dependencies: None,
        metrics: Some(vec![("accuracy".to_string(), 0.5f64.to_bits())]),
        deprecate: None,
        set_as_default: None,
    };
    let v = storage.update_version("m", "v1", update).unwrap();
    assert_eq!(v.changelog, "changed");
    assert_eq!(v.metrics, vec![("accuracy".to_string(), 0.5f64.to_bits())]);
    assert!(!v.is_deprecated);
}

#[test]
fn oversized_model_is_refused() {
    let config = ModelVersioningConfig { max_model_size_bytes: Some(3), ..Default::default() };
    let mut manager = ModelVersioningManager::new(InMemoryStorage::new(), config);
    manager.create_model(metadata("m", "M", "test", "test")).unwrap();
    match manager.register_version(request("m", "v1", "big", vec![0; 4], false)) {
        Err(ModelVersioningError::InvalidMetadata(msg)) => {
            assert_eq!(msg, "Model size 4 bytes exceeds maximum 3 bytes")
        }
        other => panic!("unexpected {:?}", other),
    }
    assert!(manager.register_version(request("m", "v1", "ok", vec![0; 3], false)).is_ok());
    match manager.create_model(metadata("", "Empty", "test", "test")) {
        Err(ModelVersioningError::InvalidMetadata(msg)) => assert_eq!(msg, "Model ID cannot be empty"),
        other => panic!("unexpected {:?}", other),
    }
}

#[test]
fn tampered_binary_fails_checksum() {
    let mut storage = InMemoryStorage::new();
    storage.create_model(metadata("m", "M", "test", "test")).unwrap();
    storage.create_version(request("m", "v1", "first", vec![1, 2, 3], false)).unwrap();
    storage.store_binary("m", "v1", vec![9, 9, 9]).unwrap();
    let manager = ModelVersioningManager::new(storage, ModelVersioningConfig::default());
    match manager.get_version("m", "v1") {
        Err(ModelVersioningError::ChecksumMismatch(expected, got)) => {
            assert_eq!(expected, compute_checksum(&[1, 2, 3]));
            assert_eq!(got, compute_checksum(&[9, 9, 9]));
        }
        other => panic!("unexpected {:?}", other),
    }
    assert!(matches!(manager.retrieve_model("m", "v1"), Err(ModelVersioningError::ChecksumMismatch(_, _))));
    let lax = ModelVersioningConfig { validate_checksums: false, ..Default::default() };
    let mut storage2 = InMemoryStorage::new();
    storage2.create_model(metadata("m", "M", "test", "test")).unwrap();
    storage2.create_version(request("m", "v1", "first", vec![1, 2, 3], false)).unwrap();
    storage2.store_binary("m", "v1", vec![9]).unwrap();
    let manager2 = ModelVersioningManager::new(storage2, lax);
    assert_eq!(manager2.retrieve_model("m", "v1").unwrap().data, &[9u8][..]);
}

#[test]
fn delete_version_and_model_remove_everything() {
    let mut storage = InMemoryStorage::new();
    storage.create_model(metadata("m", "M", "test", "test")).unwrap();
    storage.create_model(metadata("n", "N", "test", "test")).unwrap();
    storage.create_version(request("m", "v1", "first", vec![1], false)).unwrap();
    storage.create_version(request("m", "v2", "second", vec![2], false)).unwrap();
    storage.create_version(request("n", "v1", "other", vec![3], false)).unwrap();
    storage.delete_version("m", "v1").unwrap();
    assert!(matches!(storage.get_version("m", "v1"), Err(ModelVersioningError::VersionNotFound(_, _))));
    assert!(matches!(storage.retrieve_binary("m", "v1"), Err(ModelVersioningError::VersionNotFound(_, _))));
    storage.delete_model("m").unwrap();
    assert!(matches!(storage.get_version("m", "v2"), Err(ModelVersioningError::ModelNotFound(_))));
    assert!(storage.get_model("m").is_err());
    assert_eq!(storage.get_version("n", "v1").unwrap().changelog, "other");
    assert_eq!(storage.list_models().len(), 1);
}

#[test]
fn query_sorts_and_pages() {
    let mut storage = InMemoryStorage::new();
    storage.create_model(metadata("m", "M", "test", "test")).unwrap();
    storage.create_model(metadata("n", "N", "test", "test")).unwrap();
    storage.create_version(request("m", "b", "x", vec![0; 5], false)).unwrap();
    storage.create_version(request("m", "a", "x", vec![0; 9], false)).unwrap();
    storage.create_version(request("m", "c", "x", vec![0; 1], false)).unwrap();
    storage.create_version(request("n", "z", "x", vec![0; 2], false)).unwrap();

    let r = storage.query_versions(query(Some("m"), Some(SortField::Version), false, None, None)).unwrap();
    let names: Vec<&str> = r.versions.iter().map(|v| v.version.as_str()).collect();
    assert_eq!(names, vec!["a", "b", "c"]);
    assert_eq!(r.total_count, 3);
    assert!(!r.has_more);

    let r = storage.query_versions(query(None, Some(SortField::Size), true, Some(1), Some(2))).unwrap();
    let sizes: Vec<u64> = r.versions.iter().map(|v| v.size_bytes).collect();
    assert_eq!(sizes, vec![5, 2]);
    assert_eq!(r.total_count, 4);
    assert!(r.has_more);

    let r = storage.query_versions(query(None, None, false, Some(10), Some(5))).unwrap();
    assert!(r.versions.is_empty());
    assert_eq!(r.total_count, 4);
}

#[test]
fn query_sorts_by_metric() {
    let mut storage = InMemoryStorage::new();
    storage.create_model(metadata("m", "M", "test", "test")).unwrap();
    for (name, acc) in [("v1", 0.9f64), ("v2", -1.5), ("v3", 0.1)] {
        let mut req = request("m", name, "x", vec![1], false);
        req.metrics = vec![("accuracy".to_string(), acc.to_bits())];
        storage.create_version(req).unwrap();
    }
    storage.create_version(request("m", "v4", "no metric", vec![1], false)).unwrap();
    let r = storage
        .query_versions(query(Some("m"), Some(SortField::Metric("accuracy".to_string())), false, None, None))
        .unwrap();
    let names: Vec<&str> = r.versions.iter().map(|v| v.version.as_str()).collect();
    assert_eq!(names, vec!["v2", "v4", "v3", "v1"]);
}

#[test]
fn stats_count_by_framework_and_type() {
    let mut storage = InMemoryStorage::new();
    storage.create_model(metadata("a", "A", "cnn", "torch")).unwrap();
    storage.create_model(metadata("b", "B", "cnn", "onnx")).unwrap();
    storage.create_model(metadata("c", "C", "tree", "torch")).unwrap();
    storage.create_version(request("a", "v1", "x", vec![1, 2], false)).unwrap();
    storage.create_version(request("a", "v2", "x", vec![3], false)).unwrap();
    storage.create_version(request("b", "v1", "x", vec![4, 5, 6], false)).unwrap();
    let stats = storage.get_stats().unwrap();
    assert_eq!(stats.total_models, 3);
    assert_eq!(stats.total_versions, 3);
    assert_eq!(stats.total_storage_bytes, 6);
    let fw: HashMap<String, usize> = stats.models_by_framework.into_iter().collect();
    assert_eq!(fw.get("torch"), Some(&2));
    assert_eq!(fw.get("onnx"), Some(&1));
    let ty: HashMap<String, usize> = stats.versions_by_type.into_iter().collect();
    assert_eq!(ty.get("cnn"), Some(&3));
    assert_eq!(ty.get("tree"), Some(&0));
}


fn experiment(id: &str, control: &str, treatment: &str, traffic: f64) -> ABExperimentConfig {
    ABExperimentConfig {
        experiment_id: id.to_string(),
        name: "Test Experiment".to_string(),
        description: "Test".to_string(),
        model_id: "test-model".to_string(),
        control_version: control.to_string(),
        treatment_version: treatment.to_string(),
        treatment_traffic: traffic.to_bits(),
        primary_metric: "accuracy".to_string(),
        secondary_metrics: vec![],
        min_sample_size: 100,
        significance_level: 0.05f64.to_bits(),
        is_active: true,
        started_at: utc_now(),
        ended_at: None,
        custom_metadata: HashMap::new(),
    }
}

fn observation(id: u128, experiment_id: &str, variant: Variant, version: &str, value: f64) -> Observation {
    Observation {
        observation_id: id,
        experiment_id: experiment_id.to_string(),
        variant,
        model_version: version.to_string(),
        timestamp: utc_now(),
        primary_metric_value: value.to_bits(),
        secondary_metrics: vec![],
        context_features: None,
        custom_metadata: HashMap::new(),
    }
}

fn ab_manager() -> ABTestingManager {
    let mut manager = ModelVersioningManager::new(InMemoryStorage::new(), ModelVersioningConfig::default());
    manager.create_model(metadata("test-model", "Test Model", "test", "test")).unwrap();
    manager.register_version(request("test-model", "v1.0.0", "a", vec![1], true)).unwrap();
    manager.register_version(request("test-model", "v1.1.0", "b", vec![2], false)).unwrap();
    ABTestingManager::new(Arc::new(manager))
}

#[test]
fn test_create_experiment() {
    let storage = InMemoryStorage::new();
    let config = ModelVersioningConfig::default();
    let manager = Arc::new(ModelVersioningManager::new(storage, config));
    let _ab_manager = ABTestingManager::new(manager.clone());
    assert!(true);
}

#[test]
fn test_assign_variant_random() {
    let config = experiment("test-exp", "v1.0.0", "v1.1.0", 0.5);
    assert_eq!(config.control_version, "v1.0.0");
    assert_eq!(config.treatment_version, "v1.1.0");
    assert_eq!(version_for_variant(&config, Variant::Treatment), "v1.1.0");
}

#[test]
fn experiment_creation_validates_versions_and_traffic() {
    let mut ab = ab_manager();
    assert!(matches!(
        ab.create_experiment(experiment("e", "v1.0.0", "v9", 0.5)),
        Err(ModelVersioningError::VersionNotFound(_, _))
    ));
    match ab.create_experiment(experiment("e", "v1.0.0", "v1.1.0", 1.5)) {
        Err(ModelVersioningError::InvalidInput(m)) => assert_eq!(m, "treatment_traffic must be between 0.0 and 1.0"),
        other => panic!("unexpected {:?}", other),
    }
    match ab.create_experiment(experiment("e", "v1.0.0", "v1.0.0", 0.5)) {
        Err(ModelVersioningError::InvalidInput(m)) => assert_eq!(m, "control and treatment versions must be different"),
        other => panic!("unexpected {:?}", other),
    }
    assert!(ab.get_experiment("e").is_none());
    ab.create_experiment(experiment("e", "v1.0.0", "v1.1.0", 1.0)).unwrap();
    assert_eq!(ab.get_experiment("e").unwrap().treatment_version, "v1.1.0");
    assert_eq!(ab.list_experiments().len(), 1);
    assert!(is_unit_fraction(0.0f64.to_bits()));
    assert!(is_unit_fraction((-0.0f64).to_bits()));
    assert!(is_unit_fraction(1.0f64.to_bits()));
    assert!(!is_unit_fraction(1.0000001f64.to_bits()));
    assert!(!is_unit_fraction((-0.1f64).to_bits()));
    assert!(!is_unit_fraction(f64::NAN.to_bits()));
}

#[test]
fn observations_are_checked_and_recorded() {
    let mut ab = ab_manager();
    ab.create_experiment(experiment("e", "v1.0.0", "v1.1.0", 0.5)).unwrap();
    match ab.record_observation(observation(1, "nope", Variant::Control, "v1.0.0", 0.9)) {
        Err(ModelVersioningError::NotFound(m)) => assert_eq!(m, "Experiment nope not found"),
        other => panic!("unexpected {:?}", other),
    }
    match ab.record_observation(observation(2, "e", Variant::Treatment, "v1.0.0", 0.9)) {
        Err(ModelVersioningError::InvalidInput(m)) => {
            assert_eq!(m, "Model version v1.0.0 does not match expected variant")
        }
        other => panic!("unexpected {:?}", other),
    }
    ab.record_observation(observation(3, "e", Variant::Treatment, "v1.1.0", 0.9)).unwrap();
    ab.record_observation(observation(4, "e", Variant::Control, "v1.0.0", 0.8)).unwrap();
    let recorded = ab.get_observations("e");
    assert_eq!(recorded.len(), 2);
    assert_eq!(recorded[0].observation_id, 3);
    ab.stop_experiment("e").unwrap();
    let stopped = ab.get_experiment("e").unwrap();
    assert!(!stopped.is_active);
    assert!(stopped.ended_at.is_some());
    match ab.record_observation(observation(5, "e", Variant::Control, "v1.0.0", 0.8)) {
        Err(ModelVersioningError::InvalidState(m)) => assert_eq!(m, "Experiment e is not active"),
        other => panic!("unexpected {:?}", other),
    }
    assert!(matches!(ab.active_experiment("e"), Err(ModelVersioningError::InvalidState(_))));
    assert!(matches!(ab.stop_experiment("x"), Err(ModelVersioningError::NotFound(_))));
}
