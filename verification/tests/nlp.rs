use offline_first_sdk::nlp::entities::{EntityExtractor, EntityType};
use offline_first_sdk::nlp::intent::{IntentClassifier, IntentType};
use offline_first_sdk::nlp::{checked_parse_duration, parse_duration, parse_u64, NLPConfig};

#[test]
fn test_duration_parsing() {
    assert_eq!(parse_duration("5s"), 5);
    assert_eq!(parse_duration("5m"), 300);
    assert_eq!(parse_duration("1h"), 3600);
    assert_eq!(parse_duration("1d"), 86400);
}

#[test]
fn duration_parsing_edge_cases() {
    assert_eq!(parse_duration("no number"), 0);
    assert_eq!(parse_duration("42"), 42);
    assert_eq!(parse_duration("wait 7 h now"), 25200);
    assert_eq!(parse_duration("99999999999999999999s"), 0);
    assert_eq!(checked_parse_duration("5m"), Some(300));
    assert_eq!(checked_parse_duration("18446744073709551615d"), None);
}

#[test]
fn u64_parsing_follows_std() {
    assert_eq!(parse_u64("123"), Some(123));
    assert_eq!(parse_u64("+7"), Some(7));
    assert_eq!(parse_u64("+"), None);
    assert_eq!(parse_u64(""), None);
    assert_eq!(parse_u64("-1"), None);
    assert_eq!(parse_u64("12a"), None);
    assert_eq!(parse_u64("18446744073709551615"), Some(u64::MAX));
    assert_eq!(parse_u64("18446744073709551616"), None);
}

#[test]
fn intents_are_tried_longest_pattern_first() {
    let classifier = IntentClassifier::new();
    let all = classifier.get_all_intents();
    assert_eq!(all.len(), 30);
    // the longest pattern, "execute.*workflow", comes first
    assert_eq!(all[0], IntentType::StartWorkflow);
    // the shortest, "stats", comes last
    assert_eq!(all[29], IntentType::GetMetrics);
}

#[test]
fn test_intent_classification() {
    let classifier = IntentClassifier::new();
    assert_eq!(classifier.classify_type("create a new task"), IntentType::CreateTask);
    assert_eq!(classifier.classify_type("list all agents"), IntentType::ListAgents);
    assert_eq!(classifier.classify_type("start workflow"), IntentType::StartWorkflow);
    assert_eq!(classifier.classify_type("system health check"), IntentType::SystemHealth);
    assert_eq!(classifier.classify_type("LIST ALL AGENTS"), IntentType::ListAgents);
    assert_eq!(classifier.classify_type("hello there"), IntentType::Unknown);
}

#[test]
fn test_intent_alternatives() {
    let classifier = IntentClassifier::new();
    let matches = classifier.matching_intents("create task");
    assert!(!matches.is_empty());
    assert_eq!(matches[0], IntentType::CreateTask);
    assert!(classifier.matching_intents("nothing relevant").is_empty());
}

#[test]
fn test_entity_extraction() {
    let extractor = EntityExtractor::new();
    let text = "Create a high priority task for zone A with 5m duration";
    let entities = extractor.extract(text);
    assert!(!entities.is_empty());
    assert!(entities.iter().any(|e| e.entity_type == EntityType::Priority));
    assert!(entities.iter().any(|e| e.entity_type == EntityType::Duration));
    for w in entities.windows(2) {
        assert!(w[0].start <= w[1].start);
        assert!(!(w[0].start == w[1].start && w[0].end == w[1].end));
    }
}

#[test]
fn test_specific_entity_extraction() {
    let extractor = EntityExtractor::new();
    let text = "Task 123e4567-e89b-12d3-a456-426614174000 is running";
    let task_ids = extractor.extract_type(text, &EntityType::TaskId);
    assert_eq!(task_ids.len(), 1);
    assert_eq!(task_ids[0].value, "123e4567-e89b-12d3-a456-426614174000");
    let first = extractor.extract_first(text, &EntityType::Status).unwrap();
    assert_eq!(first.value, "running");
    assert!(extractor.extract_first(text, &EntityType::Custom("x".to_string())).is_none());
}

#[test]
fn nlp_config_defaults() {
    let c = NLPConfig::default();
    assert_eq!(c.model_path, "./models/nlp");
    assert_eq!(c.embedding_dimension, 768);
    assert_eq!(c.max_tokens, 512);
    assert_eq!(c.language, "en");
}

#[test]
fn task_definition_defaults() {
    let t = offline_first_sdk::nlp::TaskDefinition::new("task-1");
    assert_eq!(t.id, "task-1");
    assert!(t.description.is_empty() && t.task_type.is_empty());
    assert_eq!(t.priority, 100);
    assert!(t.required_capabilities.is_empty());
    assert_eq!(t.expected_duration_secs, None);
    assert_eq!(t.metadata, serde_json::Value::Object(serde_json::Map::new()));
}

#[test]
fn task_from_indexed_document() {
    let mut meta = serde_json::Map::new();
    meta.insert("task_type".to_string(), serde_json::Value::String("exploration".to_string()));
    meta.insert("priority".to_string(), serde_json::Value::from(4294967297i64));
    meta.insert(
        "capabilities".to_string(),
        serde_json::Value::Array(vec![
            serde_json::Value::String("navigation".to_string()),
            serde_json::Value::from(3u64),
            serde_json::Value::String("sensors".to_string()),
        ]),
    );
    let meta = serde_json::Value::Object(meta);
    let t = offline_first_sdk::nlp::task_from_document("task-1", "Explore zone A exploration", &meta);
    assert_eq!(t.id, "task-1");
    assert_eq!(t.task_type, "exploration");
    assert_eq!(t.priority, 4294967297i64 as i32);
    assert_eq!(t.required_capabilities, vec!["navigation".to_string(), "sensors".to_string()]);
    let bare = offline_first_sdk::nlp::task_from_document("t", "x", &serde_json::Value::Null);
    assert_eq!(bare.task_type, "unknown");
    assert_eq!(bare.priority, 100);
    assert!(bare.required_capabilities.is_empty());
}
