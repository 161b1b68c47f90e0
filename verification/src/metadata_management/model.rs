//! Metadata kinds, schemas and entries.

use vstd::prelude::*;
use crate::clock::{UtcTimestamp, utc_now};
use crate::common::AgentId;
use crate::ids::new_uuid;

verus! {

/// Kind of metadata.
#[derive(Debug, Clone, PartialEq, Eq, Hash)]
pub enum MetadataType {
    /// Agent metadata.
    Agent,
    /// Task metadata.
    Task,
    /// Workflow metadata.
    Workflow,
    /// Resource metadata.
    Resource,
    /// Sensor metadata.
    Sensor,
    /// Actuator metadata.
    Actuator,
    /// Custom type.
    Custom(String),
}

/// A metadata kind as a value: the variant's position, and the name of a
/// custom kind.
pub open spec fn type_view(t: MetadataType) -> (nat, Seq<char>) {
    match t {
        MetadataType::Agent => (0, Seq::empty()),
        MetadataType::Task => (1, Seq::empty()),
        MetadataType::Workflow => (2, Seq::empty()),
        MetadataType::Resource => (3, Seq::empty()),
        MetadataType::Sensor => (4, Seq::empty()),
        MetadataType::Actuator => (5, Seq::empty()),
        MetadataType::Custom(s) => (6, s@),
    }
}

/// A copy of a metadata kind.
pub fn copy_type(t: &MetadataType) -> (r: MetadataType)
    ensures
        type_view(r) == type_view(*t),
{
    match t {
        MetadataType::Agent => MetadataType::Agent,
        MetadataType::Task => MetadataType::Task,
        MetadataType::Workflow => MetadataType::Workflow,
        MetadataType::Resource => MetadataType::Resource,
        MetadataType::Sensor => MetadataType::Sensor,
        MetadataType::Actuator => MetadataType::Actuator,
        MetadataType::Custom(s) => MetadataType::Custom(s.clone()),
    }
}

/// Whether two metadata kinds are the same.
pub fn same_type(a: &MetadataType, b: &MetadataType) -> (r: bool)
    ensures
        r == (type_view(*a) == type_view(*b)),
{
    match (a, b) {
        (MetadataType::Agent, MetadataType::Agent) => true,
        (MetadataType::Task, MetadataType::Task) => true,
        (MetadataType::Workflow, MetadataType::Workflow) => true,
        (MetadataType::Resource, MetadataType::Resource) => true,
        (MetadataType::Sensor, MetadataType::Sensor) => true,
        (MetadataType::Actuator, MetadataType::Actuator) => true,
        (MetadataType::Custom(x), MetadataType::Custom(y)) => crate::text::str_eq(x.as_str(), y.as_str()),
        _ => false,
    }
}

/// Metadata schema definition.
#[derive(Debug, Clone)]
pub struct MetadataSchema {
    /// Schema ID.
    pub id: u128,
    /// Schema name.
    pub name: String,
    /// Schema version.
    pub version: String,
    /// JSON Schema definition.
    pub definition: serde_json::Value,
    /// Created timestamp.
    pub created_at: UtcTimestamp,
}

/// A metadata entry.
#[derive(Debug, Clone)]
pub struct Metadata {
    /// Unique ID (a UUID's 128-bit value).
    pub id: u128,
    /// Type of metadata.
    pub metadata_type: MetadataType,
    /// ID of the entity this metadata belongs to.
    pub entity_id: String,
    /// Schema ID (optional).
    pub schema_id: Option<u128>,
    /// Metadata content (JSON).
    pub content: serde_json::Value,
    /// Tags for categorization.
    pub tags: Vec<String>,
    /// Created timestamp.
    pub created_at: UtcTimestamp,
    /// Updated timestamp.
    pub updated_at: UtcTimestamp,
    /// Version number (monotonically increasing).
    pub version: u64,
    /// Agent ID that created this metadata.
    pub author_agent_id: Option<AgentId>,
}

impl Metadata {
    /// Create a new metadata entry: a fresh random id, no schema, no tags,
    /// version 1, created and updated now.
    pub fn new(metadata_type: MetadataType, entity_id: String, content: serde_json::Value) -> (r: Self)
        ensures
            r.metadata_type == metadata_type,
            r.entity_id == entity_id,
            r.schema_id is None,
            r.content == content,
            r.tags@.len() == 0,
            r.created_at == r.updated_at,
            r.version == 1,
            r.author_agent_id is None,
    {
        let now = utc_now();
        Metadata {
            id: new_uuid(),
            metadata_type,
            entity_id,
            schema_id: None,
            content,
            tags: Vec::new(),
            created_at: now,
            updated_at: now,
            version: 1,
            author_agent_id: None,
        }
    }

    /// Add a tag, and mark the entry updated now.
    pub fn add_tag(&mut self, tag: String)
        ensures
            final(self).tags@ == old(self).tags@.push(tag),
            *final(self) == (Metadata { tags: final(self).tags, updated_at: final(self).updated_at, ..*old(self) }),
    {
        self.tags.push(tag);
        self.updated_at = utc_now();
    }

    /// Replace the content, increment the version, and mark the entry
    /// updated now.
    pub fn update_content(&mut self, content: serde_json::Value)
        requires
            old(self).version < u64::MAX,
        ensures
            *final(self) == (Metadata {
                content,
                version: (old(self).version + 1) as u64,
                updated_at: final(self).updated_at,
                ..*old(self)
            }),
    {
        self.content = content;
        self.version = self.version + 1;
        self.updated_at = utc_now();
    }

    /// Validate against a schema: every entry is accepted.
    pub fn validate(&self, schema: &MetadataSchema) -> (r: bool)
        ensures
            r,
    {
        true
    }
}

} // verus!
