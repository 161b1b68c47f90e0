use offline_first_sdk::metadata_management::error::MetadataError;
use offline_first_sdk::metadata_management::index::{IndexField, MetadataIndex};
use offline_first_sdk::metadata_management::model::{Metadata, MetadataType};
use offline_first_sdk::metadata_management::query::{MetadataQuery, MetadataQueryExecutor, QueryCondition, QueryOperator};
use offline_first_sdk::metadata_management::storage::{InMemoryMetadataStorage, MetadataStorage};
use offline_first_sdk::metadata_management::versioning::{RollbackError, VersionStore};
use serde_json::Value;

fn object(pairs: &[(&str, Value)]) -> Value {
    let mut map = serde_json::Map::new();
    for (k, v) in pairs {
        map.insert(k.to_string(), v.clone());
    }
    Value::Object(map)
}

#[test]
fn it_works() {
    assert_eq!(2 + 2, 4);
}

#[test]
fn test_versioning_put_and_get() {
    let mut versioning: VersionStore<String> = VersionStore::new(5);
    versioning.put(7, 1, "agent1".to_string());
    let retrieved = versioning.get(7);
    assert!(retrieved.is_some());
    assert_eq!(retrieved.unwrap().0, 1);
}

#[test]
fn test_versioning_multiple_versions() {
    let mut versioning: VersionStore<String> = VersionStore::new(5);
    versioning.put(7, 1, "agent1".to_string());
    versioning.put(7, 2, "updated".to_string());
    let all = versioning.get_all_versions(7);
    assert_eq!(all.len(), 2);
}

#[test]
fn versioning_history_is_bounded_and_rollback_truncates() {
    let mut store: VersionStore<&str> = VersionStore::new(2);
    store.put(1, 1, "a");
    store.put(1, 1, "ignored");
    assert_eq!(store.get(1), Some(&(1, "a")));
    store.put(1, 2, "b");
    store.put(1, 3, "c");
    store.put(1, 4, "d");
    let versions: Vec<u64> = store.get_all_versions(1).iter().map(|v| v.0).collect();
    assert_eq!(versions, vec![2, 3, 4]);
    assert_eq!(store.get_version(1, 3), Some(&(3, "c")));
    assert_eq!(store.get_version(1, 1), None);
    assert_eq!(store.rollback(1, 2), Ok(()));
    assert_eq!(store.get(1), Some(&(2, "b")));
    assert!(store.get_all_versions(1).len() == 1);
    assert_eq!(store.rollback(1, 2), Ok(()));
    assert_eq!(store.rollback(1, 9), Err(RollbackError::UnknownVersion));
    assert_eq!(store.rollback(5, 1), Err(RollbackError::UnknownId));
    store.delete(1);
    assert_eq!(store.get(1), None);
    assert!(store.get_all_versions(1).is_empty());
}

#[test]
fn test_index_tag() {
    let mut index = MetadataIndex::new();
    let mut metadata = Metadata::new(MetadataType::Agent, "agent1".to_string(), object(&[]));
    metadata.add_tag("test".to_string());
    index.index(&metadata);
    let ids = index.query_by_tag("test");
    assert!(ids.contains(&metadata.id));
}

#[test]
fn index_takes_top_level_string_fields_of_content() {
    let mut index = MetadataIndex::new();
    let content = object(&[
        ("name", Value::String("alpha".to_string())),
        ("count", Value::from(3u64)),
        ("nested", object(&[("name", Value::String("beta".to_string()))])),
    ]);
    let metadata = Metadata::new(MetadataType::Task, "t".to_string(), content);
    index.index(&metadata);
    assert_eq!(index.query_by_field("name", "alpha"), vec![metadata.id]);
    assert!(index.query_by_field("name", "beta").is_empty());
    assert!(index.query_by_field("count", "3").is_empty());
}

#[test]
fn index_queries_fields_searches_and_forgets() {
    let mut index = MetadataIndex::new();
    index.index_entries(1, &vec!["drone".to_string(), "fast".to_string()], &vec![("name".to_string(), "alpha".to_string())]);
    index.index_entries(2, &vec!["drone".to_string(), "drone".to_string()], &vec![("name".to_string(), "beta".to_string())]);
    let mut drones = index.query_by_tag("drone");
    drones.sort();
    assert_eq!(drones, vec![1, 2]);
    assert_eq!(index.query_by_field("name", "beta"), vec![2]);
    assert_eq!(index.query(&IndexField::Field("name".to_string()), "alpha"), vec![1]);
    assert!(index.query_by_field("tag", "drone").is_empty());
    let mut found = index.search("^(al|fa)").unwrap();
    found.sort();
    assert_eq!(found, vec![1]);
    assert!(matches!(index.search("("), Err(MetadataError::Index(_))));
    index.remove(1);
    assert_eq!(index.query_by_tag("drone"), vec![2]);
    assert!(index.query_by_tag("fast").is_empty());
}

#[test]
fn test_metadata_creation() {
    let metadata = Metadata::new(
        MetadataType::Agent,
        "agent-123".to_string(),
        object(&[("name", Value::String("test".to_string()))]),
    );
    assert_eq!(metadata.metadata_type, MetadataType::Agent);
    assert_eq!(metadata.entity_id, "agent-123");
    assert_eq!(metadata.version, 1);
}

#[test]
fn test_in_memory_storage() {
    let mut storage = InMemoryMetadataStorage::new();
    let metadata = Metadata::new(MetadataType::Agent, "agent1".to_string(), object(&[]));
    let id = storage.store(metadata).unwrap();
    let retrieved = storage.retrieve(id).unwrap();
    assert!(retrieved.is_some());
}

#[test]
fn test_query_executor() {
    let storage = MetadataStorage::new(InMemoryMetadataStorage::new());
    let index = MetadataIndex::new();
    let executor = MetadataQueryExecutor::new(storage, index);
    let results = executor.execute(&MetadataQuery::new()).unwrap();
    assert!(results.is_empty());
}

#[test]
fn metadata_updates_bump_version_and_tags() {
    let mut m = Metadata::new(MetadataType::Task, "t1".to_string(), Value::Null);
    m.add_tag("urgent".to_string());
    m.update_content(object(&[("state", Value::String("done".to_string()))]));
    assert_eq!(m.tags, vec!["urgent".to_string()]);
    assert_eq!(m.version, 2);
    assert!(m.created_at.secs <= m.updated_at.secs);
}

#[test]
fn storage_lists_by_type_and_entity_and_forgets_deleted() {
    let mut storage = InMemoryMetadataStorage::new();
    let a = Metadata::new(MetadataType::Agent, "e1".to_string(), Value::Null);
    let b = Metadata::new(MetadataType::Custom("robot".to_string()), "e1".to_string(), Value::Null);
    let c = Metadata::new(MetadataType::Agent, "e2".to_string(), Value::Null);
    let (ida, idb, idc) = (a.id, b.id, c.id);
    storage.store(a).unwrap();
    storage.store(b).unwrap();
    storage.store(c).unwrap();
    let agents: Vec<u128> = storage.list_by_type(MetadataType::Agent).unwrap().iter().map(|m| m.id).collect();
    assert_eq!(agents, vec![ida, idc]);
    let robots = storage.list_by_type(MetadataType::Custom("robot".to_string())).unwrap();
    assert_eq!(robots.len(), 1);
    assert_eq!(robots[0].id, idb);
    assert!(storage.list_by_type(MetadataType::Sensor).unwrap().is_empty());
    let e1: Vec<u128> = storage.list_by_entity("e1").unwrap().iter().map(|m| m.id).collect();
    assert_eq!(e1, vec![ida, idb]);
    storage.delete(ida).unwrap();
    assert!(storage.retrieve(ida).unwrap().is_none());
    let agents: Vec<u128> = storage.list_by_type(MetadataType::Agent).unwrap().iter().map(|m| m.id).collect();
    assert_eq!(agents, vec![idc]);
}

#[test]
fn storage_update_moves_entry_between_kinds() {
    let mut storage = InMemoryMetadataStorage::new();
    let mut m = Metadata::new(MetadataType::Agent, "e1".to_string(), Value::Null);
    storage.store(m.clone()).unwrap();
    m.metadata_type = MetadataType::Task;
    m.entity_id = "e2".to_string();
    storage.update(m.clone()).unwrap();
    assert!(storage.list_by_type(MetadataType::Agent).unwrap().is_empty());
    assert_eq!(storage.list_by_type(MetadataType::Task).unwrap().len(), 1);
    assert!(storage.list_by_entity("e1").unwrap().is_empty());
    assert_eq!(storage.list_by_entity("e2").unwrap()[0].id, m.id);
}

fn condition(field: &str, operator: QueryOperator, value: Value) -> QueryCondition {
    QueryCondition { field: field.to_string(), operator, value }
}

#[test]
fn query_executor_filters_and_pages() {
    let mut storage = MetadataStorage::new(InMemoryMetadataStorage::new());
    let mut ids = Vec::new();
    for (i, (entity, name, tag)) in [("e1", "alpha", "red"), ("e1", "beta", "blue"), ("e2", "alphabet", "red"), ("e1", "gamma", "red")]
        .iter()
        .enumerate()
    {
        let mut m = Metadata::new(
            MetadataType::Sensor,
            entity.to_string(),
            object(&[("name", Value::String(name.to_string())), ("n", Value::from(i as u64))]),
        );
        m.add_tag(tag.to_string());
        ids.push(m.id);
        storage.store(m).unwrap();
    }
    storage.store(Metadata::new(MetadataType::Agent, "e1".to_string(), Value::Null)).unwrap();
    let executor = MetadataQueryExecutor::new(storage, MetadataIndex::new());

    let q = MetadataQuery::new().with_type(MetadataType::Sensor);
    assert_eq!(executor.execute(&q).unwrap().len(), 4);

    let q = MetadataQuery::new()
        .with_type(MetadataType::Sensor)
        .with_condition(condition("name", QueryOperator::Contains, Value::String("alpha".to_string())));
    let got: Vec<u128> = executor.execute(&q).unwrap().iter().map(|m| m.id).collect();
    assert_eq!(got, vec![ids[0], ids[2]]);

    let q = MetadataQuery::new()
        .with_type(MetadataType::Sensor)
        .with_entity_id("e1".to_string())
        .with_condition(condition("tags", QueryOperator::Eq, Value::String("red".to_string())));
    let got: Vec<u128> = executor.execute(&q).unwrap().iter().map(|m| m.id).collect();
    assert_eq!(got, vec![ids[0], ids[3]]);

    let q = MetadataQuery::new()
        .with_type(MetadataType::Sensor)
        .with_condition(condition("tags", QueryOperator::Ne, Value::String("red".to_string())));
    let got: Vec<u128> = executor.execute(&q).unwrap().iter().map(|m| m.id).collect();
    assert_eq!(got, ids);

    let q = MetadataQuery::new()
        .with_type(MetadataType::Sensor)
        .with_condition(condition("tags", QueryOperator::Ne, Value::from(vec!["red".to_string()])));
    let got: Vec<u128> = executor.execute(&q).unwrap().iter().map(|m| m.id).collect();
    assert_eq!(got, vec![ids[1]]);

    let q = MetadataQuery::new()
        .with_type(MetadataType::Sensor)
        .with_condition(condition("tags", QueryOperator::Eq, Value::from(vec!["red".to_string()])));
    assert!(executor.execute(&q).unwrap().is_empty());

    let q = MetadataQuery::new()
        .with_type(MetadataType::Sensor)
        .with_condition(condition("name", QueryOperator::Ne, Value::String("beta".to_string())));
    let mut q2 = q.clone();
    q2.offset = Some(1);
    q2.limit = Some(1);
    let got: Vec<u128> = executor.execute(&q2).unwrap().iter().map(|m| m.id).collect();
    assert_eq!(got, vec![ids[2]]);

    let q = MetadataQuery::new()
        .with_type(MetadataType::Sensor)
        .with_condition(condition("n", QueryOperator::Gt, Value::from(0u64)));
    assert!(executor.execute(&q).unwrap().is_empty());

    let q = MetadataQuery::new()
        .with_type(MetadataType::Sensor)
        .with_condition(condition("missing", QueryOperator::Eq, Value::Null));
    assert_eq!(executor.execute(&q).unwrap().len(), 4);
}

#[test]
fn tag_equality_finds_tagged_entry() {
    let mut storage = MetadataStorage::new(InMemoryMetadataStorage::new());
    let mut m = Metadata::new(MetadataType::Agent, "agent1".to_string(), object(&[]));
    m.add_tag("test".to_string());
    let mut index = MetadataIndex::new();
    index.index(&m);
    storage.store(m.clone()).unwrap();
    let executor = MetadataQueryExecutor::new(storage, index);
    let q = MetadataQuery::new()
        .with_type(MetadataType::Agent)
        .with_condition(condition("tags", QueryOperator::Eq, Value::String("test".to_string())));
    let got = executor.execute(&q).unwrap();
    assert_eq!(got.len(), 1);
    assert_eq!(got[0].id, m.id);
    assert!(executor.execute(&MetadataQuery::new()).unwrap().is_empty());
}
