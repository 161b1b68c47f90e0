//! Core types for model versioning, and model checksums.

use crate::clock::UtcTimestamp;
use crate::digest::{sha256, sha256_digest};
use std::collections::HashMap;
use vstd::prelude::*;
use crate::text::{hex_char, push_hex_digit, str_eq};

verus! {

/// A semantic version (semver's `Version`), carried as an opaque value.
#[verifier::external_type_specification]
#[verifier::external_body]
pub struct ExSemverVersion(semver::Version);

/// Model metadata.
#[derive(Debug, Clone)]
pub struct ModelMetadata {
    /// Unique model identifier.
    pub id: String,
    /// Human-readable model name.
    pub name: String,
    /// Model description.
    pub description: String,
    /// Model type (e.g., "neural_network", "decision_tree", "rl_policy").
    pub model_type: String,
    /// Framework used (e.g., "tensorflow", "pytorch", "onnx").
    pub framework: String,
    /// Input schema (JSON schema or description).
    pub input_schema: Option<serde_json::Value>,
    /// Output schema (JSON schema or description).
    pub output_schema: Option<serde_json::Value>,
    /// Tags for categorization.
    pub tags: Vec<String>,
    /// Custom metadata key-value pairs.
    pub custom_metadata: HashMap<String, serde_json::Value>,
    /// Creation timestamp.
    pub created_at: UtcTimestamp,
    /// Last update timestamp.
    pub updated_at: UtcTimestamp,
}

/// Data split percentages, each the bit pattern of an `f32` percentage
/// (0-100) as `f32::to_bits` gives it.
#[derive(Debug, Clone, Copy, PartialEq, Eq, Structural)]
pub struct DataSplit {
    /// Training set percentage.
    pub train_percent: u32,
    /// Validation set percentage.
    pub validation_percent: u32,
    /// Test set percentage.
    pub test_percent: u32,
}

/// Information about training data.
#[derive(Debug, Clone)]
pub struct TrainingDataInfo {
    /// Dataset identifier or name.
    pub dataset_id: String,
    /// Dataset version.
    pub dataset_version: String,
    /// Number of samples.
    pub sample_count: u64,
    /// Data split (train/validation/test percentages).
    pub split: Option<DataSplit>,
}

/// Model version metadata.
#[derive(Debug, Clone)]
pub struct ModelVersion {
    /// Model identifier.
    pub model_id: String,
    /// Version identifier (e.g., "v1.0.0", "latest", "experimental").
    pub version: String,
    /// Semantic version (if applicable).
    pub semver: Option<semver::Version>,
    /// Description of changes in this version.
    pub changelog: String,
    /// SHA-256 checksum of the model binary, in lowercase hex.
    pub checksum: String,
    /// Size of the model binary in bytes.
    pub size_bytes: u64,
    /// Storage location (URI, file path, or distributed key).
    pub storage_location: String,
    /// Dependencies (other model versions or libraries).
    pub dependencies: Vec<Dependency>,
    /// Training metrics (accuracy, loss, etc.): each name with the bit
    /// pattern of its `f64` value, as `f64::to_bits` gives it.
    pub metrics: Vec<(String, u64)>,
    /// Hyperparameters used for training.
    pub hyperparameters: HashMap<String, serde_json::Value>,
    /// Training dataset information.
    pub training_data: Option<TrainingDataInfo>,
    /// Whether this version is the default/latest.
    pub is_default: bool,
    /// Whether this version is deprecated.
    pub is_deprecated: bool,
    /// Creation timestamp.
    pub created_at: UtcTimestamp,
    /// Author/creator of this version.
    pub author: String,
}

/// Metric filter for querying: the metric's name and bounds, each the bit
/// pattern of an `f64`.
#[derive(Debug, Clone)]
pub struct MetricFilter {
    /// Metric name (e.g., "accuracy", "f1_score").
    pub metric_name: String,
    /// Minimum value.
    pub min_value: u64,
    /// Maximum value.
    pub max_value: Option<u64>,
}

/// Model version query filters.
#[derive(Debug, Clone)]
pub struct VersionQuery {
    /// Filter by model ID.
    pub model_id: Option<String>,
    /// Filter by version tag (e.g., "latest", "stable").
    pub tag: Option<String>,
    /// Filter by framework.
    pub framework: Option<String>,
    /// Filter by model type.
    pub model_type: Option<String>,
    /// Filter by minimum accuracy (or other metric).
    pub min_metric: Option<MetricFilter>,
    /// Limit number of results.
    pub limit: Option<usize>,
    /// Offset for pagination.
    pub offset: Option<usize>,
    /// Sort order.
    pub sort_by: Option<SortField>,
    /// Sort direction.
    pub sort_desc: bool,
}

/// Result of a version query.
#[derive(Debug)]
pub struct VersionQueryResult<'a> {
    /// Matching versions.
    pub versions: Vec<&'a ModelVersion>,
    /// Total count (for pagination).
    pub total_count: usize,
    /// Whether there are more results.
    pub has_more: bool,
}

/// Version creation request.
#[derive(Debug, Clone)]
pub struct CreateVersionRequest {
    /// Model ID (must exist).
    pub model_id: String,
    /// Version identifier.
    pub version: String,
    /// Optional semantic version.
    pub semver: Option<semver::Version>,
    /// Changelog description.
    pub changelog: String,
    /// Model binary data.
    pub data: Vec<u8>,
    /// Dependencies.
    pub dependencies: Vec<Dependency>,
    /// Training metrics, as in [`ModelVersion::metrics`].
    pub metrics: Vec<(String, u64)>,
    /// Hyperparameters.
    pub hyperparameters: HashMap<String, serde_json::Value>,
    /// Training data info.
    pub training_data: Option<TrainingDataInfo>,
    /// Whether to set as default version.
    pub set_as_default: bool,
    /// Author/creator.
    pub author: String,
}

/// Version update request.
#[derive(Debug, Clone)]
pub struct UpdateVersionRequest {
    /// New changelog (if any).
    pub changelog: Option<String>,
    /// New dependencies (if any).
    pub dependencies: Option<Vec<Dependency>>,
    /// New metrics (if any).
    pub metrics: Option<Vec<(String, u64)>>,
    /// Whether to deprecate this version.
    pub deprecate: Option<bool>,
    /// Whether to set as default.
    pub set_as_default: Option<bool>,
}

/// Statistics about the model registry. The per-framework and per-type
/// counts list each key once, in order of first appearance.
#[derive(Debug, Clone)]
pub struct RegistryStats {
    /// Total number of models.
    pub total_models: usize,
    /// Total number of versions.
    pub total_versions: usize,
    /// Total storage used in bytes.
    pub total_storage_bytes: u64,
    /// Number of models by framework.
    pub models_by_framework: Vec<(String, usize)>,
    /// Number of versions by model type.
    pub versions_by_type: Vec<(String, usize)>,
    /// Latest activity timestamp.
    pub latest_activity: UtcTimestamp,
}

/// A model binary with its version metadata.
#[derive(Debug)]
pub struct ModelBinary<'a> {
    /// Model version metadata.
    pub metadata: &'a ModelVersion,
    /// Raw model bytes.
    pub data: &'a [u8],
}

impl<'a> ModelBinary<'a> {
    /// Computes the SHA-256 checksum of the data, in lowercase hex.
    pub fn compute_checksum(&self) -> (r: String)
        ensures
            r@ == checksum_of(self.data@),
    {
        compute_checksum(self.data)
    }

    /// Whether the recorded checksum matches the data.
    pub fn verify_checksum(&self) -> (r: bool)
        ensures
            r == (checksum_of(self.data@) == self.metadata.checksum@),
    {
        verify_checksum(self.data, self.metadata.checksum.as_str())
    }
}

/// Dependency on another model or library.
#[derive(Debug, Clone)]
pub struct Dependency {
    /// Dependency type: "model", "library", "framework".
    pub dep_type: String,
    /// Identifier (model ID or library name).
    pub identifier: String,
    /// Version constraint (semver range).
    pub version_constraint: String,
}

/// Fields to sort by.
#[derive(Debug, Clone, PartialEq, Eq)]
pub enum SortField {
    /// Sort by version (semantic or lexicographic).
    Version,
    /// Sort by creation date.
    CreatedAt,
    /// Sort by a specific metric.
    Metric(String),
    /// Sort by model size.
    Size,
}

/// The lowercase hexadecimal digit of a nibble.
pub open spec fn hex_digit(n: u8) -> char {
    hex_char(n as nat)
}

/// Lowercase hexadecimal text of a byte string, high nibble first.
pub open spec fn hex_lower(bytes: Seq<u8>) -> Seq<char>
    decreases bytes.len(),
{
    if bytes.len() == 0 {
        Seq::empty()
    } else {
        hex_lower(bytes.drop_last()) + seq![hex_digit(bytes.last() / 16), hex_digit(bytes.last() % 16)]
    }
}

/// Lowercase hexadecimal text of a byte string, as `hex::encode` writes it.
fn hex_encode(bytes: &[u8]) -> (r: String)
    ensures
        r@ == hex_lower(bytes@),
{
    let mut r = String::new();
    let n = bytes.len();
    let mut i: usize = 0;
    while i < n
        invariant
            n == bytes@.len(),
            i <= n,
            r@ == hex_lower(bytes@.subrange(0, i as int)),
        decreases n - i,
    {
        let b = bytes[i];
        push_hex_digit(&mut r, b / 16);
        push_hex_digit(&mut r, b % 16);
        proof {
            let sub = bytes@.subrange(0, i + 1);
            assert(sub.drop_last() =~= bytes@.subrange(0, i as int));
            assert(sub.last() == b);
        }
        i = i + 1;
    }
    assert(bytes@.subrange(0, n as int) =~= bytes@);
    r
}

/// The checksum of model data: the lowercase hex of its SHA-256 digest.
pub open spec fn checksum_of(data: Seq<u8>) -> Seq<char> {
    hex_lower(sha256_digest(data))
}

/// Computes the checksum of model data.
pub fn compute_checksum(data: &[u8]) -> (r: String)
    ensures
        r@ == checksum_of(data@),
{
    let digest = sha256(data);
    hex_encode(digest.as_slice())
}

/// Checks model data against a recorded checksum.
pub fn verify_checksum(data: &[u8], checksum: &str) -> (r: bool)
    ensures
        r == (checksum_of(data@) == checksum@),
{
    let computed = compute_checksum(data);
    str_eq(computed.as_str(), checksum)
}

} // verus!
