//! The model versioning manager: validation of models and versions
//! around the registry, and checksum checks on what it hands out.

use vstd::prelude::*;
use crate::ml_model_versioning::error::ModelVersioningError;
use crate::ml_model_versioning::storage::{
    InMemoryStorage, arranged, counts_by_key, framework_count, has_default, type_version_count, in_query_scope, is_new_version, query_limit, query_offset, query_page,
    updated_version, version_exists_message, versions_before_add,
};
use crate::ml_model_versioning::ranking::deref_version;
use crate::ml_model_versioning::types::{
    ModelBinary, ModelMetadata, ModelVersion, RegistryStats, UpdateVersionRequest, CreateVersionRequest,
    VersionQuery, VersionQueryResult, checksum_of,
};
use crate::text::{append_decimal, decimal};

verus! {

/// Configuration of the model versioning manager.
#[derive(Debug, Clone)]
pub struct ModelVersioningConfig {
    /// Whether to validate checksums on retrieval.
    pub validate_checksums: bool,
    /// Whether to allow overwriting existing versions.
    pub allow_overwrite: bool,
    /// Default storage location prefix.
    pub default_storage_prefix: String,
    /// Maximum model size in bytes.
    pub max_model_size_bytes: Option<u64>,
}

impl Default for ModelVersioningConfig {
    fn default() -> (r: Self)
        ensures
            r.validate_checksums,
            !r.allow_overwrite,
            r.default_storage_prefix@ == "models/"@,
            r.max_model_size_bytes == Some(1073741824u64),
    {
        ModelVersioningConfig {
            validate_checksums: true,
            allow_overwrite: false,
            default_storage_prefix: String::from_str("models/"),
            max_model_size_bytes: Some(1024 * 1024 * 1024),
        }
    }
}

/// A model of `size` bytes may be registered: it does not exceed the
/// maximum size, when one is set.
pub open spec fn size_accepted(config: ModelVersioningConfig, size: nat) -> bool {
    match config.max_model_size_bytes {
        Some(max) => size <= max,
        None => true,
    }
}

impl ModelVersioningConfig {
    /// Whether a model of `size` bytes may be registered: it must not
    /// exceed the maximum size, when one is set.
    pub fn accepts_model_size(&self, size: u64) -> (r: bool)
        ensures
            r == size_accepted(*self, size as nat),
    {
        match self.max_model_size_bytes {
            Some(max) => size <= max,
            None => true,
        }
    }
}

/// Result of comparing two model versions.
#[derive(Debug)]
pub struct VersionComparison<'a> {
    /// Model ID.
    pub model_id: String,
    /// First version metadata.
    pub version_a: &'a ModelVersion,
    /// Second version metadata.
    pub version_b: &'a ModelVersion,
    /// List of differences between versions.
    pub differences: Vec<VersionDifference>,
}

/// A difference between two model versions.
#[derive(Debug, Clone)]
pub enum VersionDifference {
    /// Different checksums.
    ChecksumChanged { old: String, new: String },
    /// Different size.
    SizeChanged { old: u64, new: u64 },
    /// Different metric values, each the bit pattern of an `f64`.
    MetricChanged { name: String, old: u64, new: u64 },
    /// Different dependencies.
    DependenciesChanged,
    /// Different hyperparameters.
    HyperparametersChanged,
}

/// The message of a model that exceeds the size limit.
pub open spec fn size_exceeded_message(size: nat, max: nat) -> Seq<char> {
    "Model size "@ + decimal(size) + " bytes exceeds maximum "@ + decimal(max) + " bytes"@
}

/// The stored binary of a version matches the version's checksum.
pub open spec fn binary_matches(store: InMemoryStorage, model_id: Seq<char>, version_id: Seq<char>) -> bool {
    &&& store.binaries_view().contains_key((model_id, version_id))
    &&& checksum_of(store.binaries_view()[(model_id, version_id)]) == store.versions_view()[(model_id, version_id)].checksum@
}

/// Registry export format.
#[derive(Debug, Clone, Copy, PartialEq, Eq, Structural)]
pub enum ExportFormat {
    /// JSON format.
    Json,
    /// CBOR format (binary).
    Cbor,
}

/// High-level manager for ML model versioning.
pub struct ModelVersioningManager {
    storage: InMemoryStorage,
    config: ModelVersioningConfig,
}

impl ModelVersioningManager {
    /// The registry the manager works on.
    pub closed spec fn store(&self) -> InMemoryStorage {
        self.storage
    }

    /// The manager's configuration.
    pub closed spec fn config_view(&self) -> ModelVersioningConfig {
        self.config
    }

    /// The manager's invariant: its registry's.
    pub open spec fn wf(&self) -> bool {
        self.store().wf()
    }

    /// Create a new manager with the given storage backend and configuration.
    pub fn new(storage: InMemoryStorage, config: ModelVersioningConfig) -> (r: Self)
        requires
            storage.wf(),
        ensures
            r.wf(),
            r.store() == storage,
            r.config_view() == config,
    {
        ModelVersioningManager { storage, config }
    }

    /// The underlying storage.
    pub fn storage(&self) -> (r: &InMemoryStorage)
        ensures
            *r == self.store(),
    {
        &self.storage
    }

    /// Create a new model; its id must not be empty.
    pub fn create_model(&mut self, metadata: ModelMetadata) -> (r: Result<(), ModelVersioningError>)
        requires
            old(self).wf(),
        ensures
            final(self).wf(),
            final(self).config_view() == old(self).config_view(),
            metadata.id@.len() == 0 ==> {
                &&& r matches Err(ModelVersioningError::InvalidMetadata(m)) && m@ == "Model ID cannot be empty"@
                &&& final(self).store() == old(self).store()
            },
            metadata.id@.len() > 0 ==> {
                &&& final(self).store().tables_view() == old(self).store().tables_view()
                &&& final(self).store().versions_view() == old(self).store().versions_view()
                &&& final(self).store().binaries_view() == old(self).store().binaries_view()
                &&& old(self).store().models_view().contains_key(metadata.id@) ==> (r is Err
                    && final(self).store().models_view() == old(self).store().models_view())
                &&& !old(self).store().models_view().contains_key(metadata.id@) ==> (r is Ok
                    && final(self).store().models_view() == old(self).store().models_view().insert(metadata.id@, metadata))
            },
    {
        if metadata.id.as_str().unicode_len() == 0 {
            proof { reveal_strlit("Model ID cannot be empty"); }
            return Err(ModelVersioningError::InvalidMetadata(String::from_str("Model ID cannot be empty")));
        }
        self.storage.create_model(metadata)
    }
}

impl ModelVersioningManager {
    /// Register a new version of a model: a model over the size limit is
    /// refused; otherwise the registry creates the version, and, when
    /// checksums are validated, the stored binary is checked against it
    /// (and the version deleted on a mismatch).
    pub fn register_version(&mut self, request: CreateVersionRequest) -> (r: Result<&ModelVersion, ModelVersioningError>)
        requires
            old(self).wf(),
        ensures
            final(self).wf(),
            final(self).config_view() == old(self).config_view(),
            final(self).store().models_view() == old(self).store().models_view(),
            !size_accepted(old(self).config_view(), request.data@.len()) ==> {
                &&& r matches Err(ModelVersioningError::InvalidMetadata(m)) && m@ == size_exceeded_message(
                    request.data@.len(),
                    old(self).config_view().max_model_size_bytes.unwrap() as nat,
                )
                &&& final(self).store() == old(self).store()
            },
            size_accepted(old(self).config_view(), request.data@.len()) ==> {
                let store = old(self).store();
                let key = (request.model_id@, request.version@);
                &&& !store.models_view().contains_key(request.model_id@) ==> {
                    &&& r matches Err(ModelVersioningError::ModelNotFound(m)) && m@ == request.model_id@
                    &&& final(self).store().versions_view() == store.versions_view()
                    &&& final(self).store().binaries_view() == store.binaries_view()
                }
                &&& store.models_view().contains_key(request.model_id@) && store.versions_view().contains_key(key) ==> {
                    &&& r matches Err(ModelVersioningError::Conflict(m)) && m@ == version_exists_message(
                        request.version@,
                        request.model_id@,
                    )
                    &&& final(self).store().versions_view() == store.versions_view()
                    &&& final(self).store().binaries_view() == store.binaries_view()
                }
                &&& store.models_view().contains_key(request.model_id@) && !store.versions_view().contains_key(key) ==> {
                    &&& r matches Ok(v) && is_new_version(*v, request) && final(self).store().versions_view()
                        == versions_before_add(store.versions_view(), request.model_id@, request.set_as_default).insert(key, *v)
                    &&& final(self).store().tables_view() == store.tables_view().insert(request.model_id@)
                    &&& final(self).store().binaries_view() == store.binaries_view().insert(key, request.data@)
                }
            },
    {
        let size = request.data.len() as u64;
        if !self.config.accepts_model_size(size) {
            let max = match self.config.max_model_size_bytes {
                Some(m) => m,
                None => 0,
            };
            let mut m = String::from_str("Model size ");
            append_decimal(&mut m, size);
            m.append(" bytes exceeds maximum ");
            append_decimal(&mut m, max);
            m.append(" bytes");
            proof {
                reveal_strlit("Model size ");
                reveal_strlit(" bytes exceeds maximum ");
                reveal_strlit(" bytes");
            }
            return Err(ModelVersioningError::InvalidMetadata(m));
        }
        let model_id = request.model_id.clone();
        let version_id = request.version.clone();
        match self.storage.create_version(request) {
            Err(e) => {
                return Err(e);
            },
            Ok(_) => {},
        }
        if self.config.validate_checksums {
            let mismatch = match self.storage.retrieve_binary(model_id.as_str(), version_id.as_str()) {
                Err(e) => Some(e),
                Ok(binary) => {
                    if binary.verify_checksum() {
                        None
                    } else {
                        Some(ModelVersioningError::ChecksumMismatch(binary.metadata.checksum.clone(), binary.compute_checksum()))
                    }
                },
            };
            if let Some(e) = mismatch {
                let _ = self.storage.delete_version(model_id.as_str(), version_id.as_str());
                return Err(e);
            }
        }
        self.storage.get_version(model_id.as_str(), version_id.as_str())
    }
}

impl ModelVersioningManager {
    /// Get a model version; when checksums are validated and the version is
    /// not deprecated, its stored binary must match its checksum.
    pub fn get_version(&self, model_id: &str, version_id: &str) -> (r: Result<&ModelVersion, ModelVersioningError>)
        requires
            self.wf(),
        ensures
            self.get_version_succeeds(model_id@, version_id@) ==> (r matches Ok(u) && *u == self.store().versions_view()[(
                model_id@,
                version_id@,
            )]),
            !self.get_version_succeeds(model_id@, version_id@) ==> (r matches Err(e) && self.get_version_error(
                model_id@,
                version_id@,
                e,
            )),
    {
        let version = match self.storage.get_version(model_id, version_id) {
            Ok(v) => v,
            Err(e) => {
                return Err(e);
            },
        };
        if self.config.validate_checksums && !version.is_deprecated {
            match self.storage.retrieve_binary(model_id, version_id) {
                Err(e) => {
                    return Err(e);
                },
                Ok(binary) => {
                    if !binary.verify_checksum() {
                        return Err(ModelVersioningError::ChecksumMismatch(version.checksum.clone(), binary.compute_checksum()));
                    }
                },
            }
        }
        Ok(version)
    }

    /// The error that [`Self::get_version`] gives when it fails: the model
    /// has no versions, the version is missing, its binary is missing, or
    /// the binary does not match the version's checksum.
    pub open spec fn get_version_error(&self, model_id: Seq<char>, version_id: Seq<char>, e: ModelVersioningError) -> bool {
        let store = self.store();
        let key = (model_id, version_id);
        if !store.tables_view().contains(model_id) {
            e matches ModelVersioningError::ModelNotFound(m) && m@ == model_id
        } else if !store.versions_view().contains_key(key) {
            e matches ModelVersioningError::VersionNotFound(v, m) && v@ == version_id && m@ == model_id
        } else if !store.binaries_view().contains_key(key) {
            e matches ModelVersioningError::StorageError(m) && m@ == "Binary data not found"@
        } else {
            e matches ModelVersioningError::ChecksumMismatch(expected, got) && expected@
                == store.versions_view()[key].checksum@ && got@ == checksum_of(store.binaries_view()[key])
        }
    }

    /// Get the default version of a model.
    pub fn get_default_version(&self, model_id: &str) -> (r: Result<&ModelVersion, ModelVersioningError>)
        requires
            self.wf(),
        ensures
            ({
                let store = self.store();
                &&& !store.tables_view().contains(model_id@) ==> (r matches Err(
                    ModelVersioningError::ModelNotFound(m),
                ) && m@ == model_id@)
                &&& store.tables_view().contains(model_id@) && has_default(store.versions_view(), model_id@) ==> (r matches Ok(
                    v,
                ) && v.is_default && v.model_id@ == model_id@ && store.versions_view().contains_key((model_id@, v.version@))
                    && store.versions_view()[(model_id@, v.version@)] == *v)
                &&& store.tables_view().contains(model_id@) && !has_default(store.versions_view(), model_id@) ==> (r matches Err(
                    ModelVersioningError::VersionNotFound(v, m),
                ) && v@ == "default"@ && m@ == model_id@)
            }),
    {
        self.storage.get_default_version(model_id)
    }

    /// Retrieve a model binary; when checksums are validated, it must match
    /// its version's checksum.
    pub fn retrieve_model(&self, model_id: &str, version_id: &str) -> (r: Result<ModelBinary, ModelVersioningError>)
        requires
            self.wf(),
        ensures
            ({
                let store = self.store();
                let key = (model_id@, version_id@);
                &&& !store.versions_view().contains_key(key) ==> (r matches Err(
                    ModelVersioningError::VersionNotFound(v, m),
                ) && v@ == version_id@ && m@ == model_id@)
                &&& store.versions_view().contains_key(key) && !store.binaries_view().contains_key(key) ==> (r matches Err(
                    ModelVersioningError::StorageError(m),
                ) && m@ == "Binary data not found"@)
                &&& store.versions_view().contains_key(key) && store.binaries_view().contains_key(key) ==> {
                    if self.config_view().validate_checksums && !binary_matches(store, model_id@, version_id@) {
                        r matches Err(ModelVersioningError::ChecksumMismatch(expected, got))
                            && expected@ == store.versions_view()[key].checksum@
                            && got@ == checksum_of(store.binaries_view()[key])
                    } else {
                        r matches Ok(b) && *b.metadata == store.versions_view()[key] && b.data@ == store.binaries_view()[key]
                    }
                }
            }),
    {
        let binary = match self.storage.retrieve_binary(model_id, version_id) {
            Ok(b) => b,
            Err(e) => {
                return Err(e);
            },
        };
        if self.config.validate_checksums && !binary.verify_checksum() {
            return Err(ModelVersioningError::ChecksumMismatch(binary.metadata.checksum.clone(), binary.compute_checksum()));
        }
        Ok(binary)
    }
}

impl ModelVersioningManager {
    /// Query versions (see [`InMemoryStorage::query_versions`]).
    pub fn query_versions(&self, query: VersionQuery) -> (r: Result<VersionQueryResult, ModelVersioningError>)
        requires
            query_offset(query) + query_limit(query) <= usize::MAX,
        ensures
            r matches Ok(res) && exists|s: Seq<ModelVersion>| {
                &&& s.to_multiset() == self.store().version_seq().filter(in_query_scope(query.model_id)).to_multiset()
                &&& arranged(query, s)
                &&& res.total_count == s.len()
                &&& res.versions@.map_values(deref_version()) == query_page(s, query_offset(query), query_limit(query))
                &&& res.has_more == (query_offset(query) + query_limit(query) < s.len())
            },
    {
        self.storage.query_versions(query)
    }

    /// Update version metadata (see [`InMemoryStorage::update_version`]).
    pub fn update_version(&mut self, model_id: &str, version_id: &str, update: UpdateVersionRequest) -> (r: Result<
        &ModelVersion,
        ModelVersioningError,
    >)
        requires
            old(self).wf(),
        ensures
            final(self).wf(),
            final(self).config_view() == old(self).config_view(),
            ({
                let store = old(self).store();
                let after = final(self).store();
                let key = (model_id@, version_id@);
                &&& after.models_view() == store.models_view()
                &&& after.tables_view() == store.tables_view()
                &&& after.binaries_view() == store.binaries_view()
                &&& !store.tables_view().contains(model_id@) ==> {
                    &&& r matches Err(ModelVersioningError::ModelNotFound(m)) && m@ == model_id@
                    &&& after.versions_view() == store.versions_view()
                }
                &&& store.tables_view().contains(model_id@) && !store.versions_view().contains_key(key) ==> {
                    &&& r matches Err(ModelVersioningError::VersionNotFound(v, m)) && v@ == version_id@ && m@ == model_id@
                    &&& after.versions_view() == store.versions_view()
                }
                &&& store.tables_view().contains(model_id@) && store.versions_view().contains_key(key) ==> {
                    let v = updated_version(store.versions_view()[key], update);
                    &&& r matches Ok(u) && *u == v
                    &&& after.versions_view() == versions_before_add(
                        store.versions_view(),
                        model_id@,
                        update.set_as_default == Some(true),
                    ).insert(key, v)
                }
            }),
    {
        self.storage.update_version(model_id, version_id, update)
    }

    /// Deprecate a version: it becomes deprecated and stops being the
    /// default.
    pub fn deprecate_version(&mut self, model_id: &str, version_id: &str) -> (r: Result<&ModelVersion, ModelVersioningError>)
        requires
            old(self).wf(),
        ensures
            final(self).wf(),
            final(self).config_view() == old(self).config_view(),
            ({
                let store = old(self).store();
                let after = final(self).store();
                let key = (model_id@, version_id@);
                &&& after.models_view() == store.models_view()
                &&& after.tables_view() == store.tables_view()
                &&& after.binaries_view() == store.binaries_view()
                &&& !store.tables_view().contains(model_id@) ==> {
                    &&& r matches Err(ModelVersioningError::ModelNotFound(m)) && m@ == model_id@
                    &&& after.versions_view() == store.versions_view()
                }
                &&& store.tables_view().contains(model_id@) && !store.versions_view().contains_key(key) ==> {
                    &&& r matches Err(ModelVersioningError::VersionNotFound(v, m)) && v@ == version_id@ && m@ == model_id@
                    &&& after.versions_view() == store.versions_view()
                }
                &&& store.tables_view().contains(model_id@) && store.versions_view().contains_key(key) ==> {
                    let v = ModelVersion { is_deprecated: true, is_default: false, ..store.versions_view()[key] };
                    &&& r matches Ok(u) && *u == v
                    &&& after.versions_view() == store.versions_view().insert(key, v)
                }
            }),
    {
        let update = UpdateVersionRequest {
            changelog: None,
            dependencies: None,
            metrics: None,
            deprecate: Some(true),
            set_as_default: Some(false),
        };
        self.update_version(model_id, version_id, update)
    }

    /// Promote a version to be the model's default: every other version of
    /// the model stops being the default.
    pub fn promote_to_default(&mut self, model_id: &str, version_id: &str) -> (r: Result<&ModelVersion, ModelVersioningError>)
        requires
            old(self).wf(),
        ensures
            final(self).wf(),
            final(self).config_view() == old(self).config_view(),
            ({
                let store = old(self).store();
                let after = final(self).store();
                let key = (model_id@, version_id@);
                &&& after.models_view() == store.models_view()
                &&& after.tables_view() == store.tables_view()
                &&& after.binaries_view() == store.binaries_view()
                &&& !store.tables_view().contains(model_id@) ==> {
                    &&& r matches Err(ModelVersioningError::ModelNotFound(m)) && m@ == model_id@
                    &&& after.versions_view() == store.versions_view()
                }
                &&& store.tables_view().contains(model_id@) && !store.versions_view().contains_key(key) ==> {
                    &&& r matches Err(ModelVersioningError::VersionNotFound(v, m)) && v@ == version_id@ && m@ == model_id@
                    &&& after.versions_view() == store.versions_view()
                }
                &&& store.tables_view().contains(model_id@) && store.versions_view().contains_key(key) ==> {
                    let v = ModelVersion { is_default: true, ..store.versions_view()[key] };
                    &&& r matches Ok(u) && *u == v
                    &&& after.versions_view() == versions_before_add(store.versions_view(), model_id@, true).insert(key, v)
                }
            }),
    {
        let update = UpdateVersionRequest {
            changelog: None,
            dependencies: None,
            metrics: None,
            deprecate: None,
            set_as_default: Some(true),
        };
        self.update_version(model_id, version_id, update)
    }

    /// Compare two versions of a model, each fetched as by
    /// [`Self::get_version`]; no differences are computed.
    pub fn compare_versions(&self, model_id: &str, version_a: &str, version_b: &str) -> (r: Result<
        VersionComparison,
        ModelVersioningError,
    >)
        requires
            self.wf(),
        ensures
            !self.get_version_succeeds(model_id@, version_a@) ==> (r matches Err(e) && self.get_version_error(
                model_id@,
                version_a@,
                e,
            )),
            self.get_version_succeeds(model_id@, version_a@) && !self.get_version_succeeds(model_id@, version_b@) ==> (r matches Err(
                e,
            ) && self.get_version_error(model_id@, version_b@, e)),
            self.get_version_succeeds(model_id@, version_a@) && self.get_version_succeeds(model_id@, version_b@) ==> (r matches Ok(
                c,
            ) && c.model_id@ == model_id@ && c.differences@.len() == 0 && *c.version_a == self.store().versions_view()[(
                model_id@,
                version_a@,
            )] && *c.version_b == self.store().versions_view()[(model_id@, version_b@)]),
    {
        let a = match self.get_version(model_id, version_a) {
            Ok(v) => v,
            Err(e) => {
                return Err(e);
            },
        };
        let b = match self.get_version(model_id, version_b) {
            Ok(v) => v,
            Err(e) => {
                return Err(e);
            },
        };
        Ok(VersionComparison { model_id: String::from_str(model_id), version_a: a, version_b: b, differences: Vec::new() })
    }

    /// [`Self::get_version`] succeeds on this model and version.
    pub open spec fn get_version_succeeds(&self, model_id: Seq<char>, version_id: Seq<char>) -> bool {
        let store = self.store();
        let key = (model_id, version_id);
        &&& store.tables_view().contains(model_id)
        &&& store.versions_view().contains_key(key)
        &&& (self.config_view().validate_checksums && !store.versions_view()[key].is_deprecated)
            ==> binary_matches(store, model_id, version_id)
    }

    /// Get registry statistics (see [`InMemoryStorage::get_stats`]).
    pub fn get_stats(&self) -> (r: Result<RegistryStats, ModelVersioningError>)
        requires
            self.wf(),
            self.store().stored_bytes() <= u64::MAX,
            self.store().models_view().len() * self.store().versions_view().len() <= usize::MAX,
        ensures
            r matches Ok(st) && {
                &&& st.total_models == self.store().models_view().len()
                &&& st.total_versions == self.store().versions_view().len()
                &&& st.total_storage_bytes == self.store().stored_bytes()
                &&& counts_by_key(
                    st.models_by_framework@,
                    self.store().stored_models().map_values(|m: ModelMetadata| m.framework@),
                    |f: Seq<char>| framework_count(self.store().stored_models(), f),
                )
                &&& counts_by_key(
                    st.versions_by_type@,
                    self.store().stored_models().map_values(|m: ModelMetadata| m.model_type@),
                    |t: Seq<char>| type_version_count(self.store().stored_models(), self.store().version_seq(), t),
                )
            },
    {
        self.storage.get_stats()
    }
}

} // verus!
