use offline_first_sdk::monitoring_integration::config::{export_protocol, ExportProtocol};
use offline_first_sdk::monitoring_integration::distributed_tracing::MeshMessageCarrier;
use offline_first_sdk::monitoring::alerting::{threshold_parts, AlertManager, AlertRule, AlertSeverity};
use offline_first_sdk::monitoring::manager::{
    AlertSeverity as Severity, MonitoringConfig, MonitoringManager, NotificationChannel,
};
use std::collections::HashMap;
use std::time::Duration;

#[test]
fn test_default_rules() {
    let rules = AlertManager::get_default_rules();
    assert_eq!(rules.len(), 5);

    assert!(rules.iter().any(|r| r.name == "HighCPUUsage"));
    assert!(rules.iter().any(|r| r.name == "HighMemoryUsage"));
    assert!(rules.iter().any(|r| r.name == "HighTaskFailureRate"));
    assert!(rules.iter().any(|r| r.name == "AgentOffline"));
    assert!(rules.iter().any(|r| r.name == "HighLatency"));
}

#[test]
fn default_rule_contents() {
    let rules = AlertManager::get_default_rules();
    assert_eq!(rules[0].expr, "sdk_cpu_usage_percent > 80");
    assert_eq!(rules[0].for_duration, Duration::from_secs(300));
    assert_eq!(rules[3].severity, AlertSeverity::Critical);
    assert_eq!(rules[2].labels, vec![("severity".to_string(), "error".to_string())]);
    assert_eq!(
        rules[4].annotations,
        vec![
            ("summary".to_string(), "High network latency".to_string()),
            ("description".to_string(), "Network latency is above 500ms for more than 2 minutes".to_string()),
        ]
    );
}

#[test]
fn active_alerts_follow_records_and_resolutions() {
    let mut manager = AlertManager::new();
    manager.add_rule(AlertRule {
        name: "CustomAlert".to_string(),
        expr: "custom_metric > 100".to_string(),
        for_duration: Duration::from_secs(60),
        severity: AlertSeverity::Info,
        labels: Vec::new(),
        annotations: Vec::new(),
    });
    assert_eq!(manager.rules().len(), 6);
    assert!(manager.get_active_alerts().is_empty());
    manager.record_triggered("CustomAlert");
    manager.record_triggered("HighCPUUsage");
    manager.record_triggered("CustomAlert");
    let active: Vec<&str> = manager.get_active_alerts().iter().map(|r| r.name.as_str()).collect();
    assert_eq!(active, vec!["HighCPUUsage", "CustomAlert"]);
    manager.resolve_alert("CustomAlert");
    let active: Vec<&str> = manager.get_active_alerts().iter().map(|r| r.name.as_str()).collect();
    assert_eq!(active, vec!["HighCPUUsage"]);
    assert!(!manager.is_active("CustomAlert"));
}

#[test]
fn threshold_conditions_are_split_at_the_only_greater_sign() {
    assert_eq!(
        threshold_parts("custom_metric > 100"),
        Some(("custom_metric".to_string(), "100".to_string()))
    );
    assert_eq!(threshold_parts(" a\t>\n0.5 "), Some(("a".to_string(), "0.5".to_string())));
    assert_eq!(threshold_parts("sdk_agents_active < 1"), None);
    assert_eq!(threshold_parts("a > b > c"), None);
    assert_eq!(threshold_parts(">"), Some((String::new(), String::new())));
}

fn config() -> MonitoringConfig {
    MonitoringConfig {
        metrics_port: 9090,
        scrape_interval_secs: 15,
        alerting_enabled: false,
        notification_channels: vec![],
        retention_days: 30,
    }
}

#[test]
fn test_alert_creation() {
    let mut manager = MonitoringManager::new(config());

    let mut labels = HashMap::new();
    labels.insert("service".to_string(), "task-planner".to_string());

    let alert_id = manager.create_alert("High CPU Usage", Severity::Warning, "CPU usage > 80%", labels);

    let alerts = manager.get_alerts();
    assert_eq!(alerts.len(), 1);
    assert_eq!(alerts[0].id, alert_id);
}

#[test]
fn alert_ids_are_hyphenated_uuids() {
    let mut manager = MonitoringManager::new(config());
    let id = manager.create_alert("a", Severity::Info, "m", HashMap::new());
    assert_eq!(id.len(), 36);
    let dashes: Vec<usize> = id.char_indices().filter(|(_, c)| *c == '-').map(|(i, _)| i).collect();
    assert_eq!(dashes, vec![8, 13, 18, 23]);
    assert!(id.chars().all(|c| c == '-' || c.is_ascii_digit() || ('a'..='f').contains(&c)));
    assert_eq!(&id[14..15], "4");
}

#[test]
fn alert_statistics_follow_creation_and_resolution() {
    let mut cfg = config();
    cfg.notification_channels.push(NotificationChannel::PagerDuty { integration_key: "k".to_string() });
    let mut manager = MonitoringManager::new(cfg);
    assert_eq!(manager.get_stats().total_alerts, 0);
    let a = manager.create_alert_with("a".to_string(), "cpu", Severity::Critical, "m", HashMap::new(), 10);
    manager.create_alert_with("b".to_string(), "mem", Severity::Warning, "m", HashMap::new(), 11);
    manager.create_alert_with("c".to_string(), "disk", Severity::Error, "m", HashMap::new(), 12);
    manager.set_last_scrape(99);
    let stats = manager.get_stats();
    assert_eq!((stats.total_alerts, stats.active_alerts), (3, 3));
    assert_eq!((stats.critical_alerts, stats.error_alerts, stats.warning_alerts), (1, 1, 1));
    assert_eq!(stats.last_scrape_timestamp, 99);
    assert_eq!(stats.notification_channels, 1);
    assert!(manager.resolve_alert(&a).is_ok());
    assert!(manager.resolve_alert("unknown").is_ok());
    let stats = manager.get_stats();
    assert_eq!((stats.total_alerts, stats.active_alerts, stats.critical_alerts), (3, 2, 0));
    let open: Vec<String> = manager.get_alerts().into_iter().map(|x| x.id).collect();
    assert_eq!(open, vec!["b".to_string(), "c".to_string()]);
}

#[test]
fn severity_names_for_notifications() {
    let manager = MonitoringManager::new(config());
    assert_eq!(manager.get_alert_color(&Severity::Critical), "#ff0000");
    assert_eq!(manager.get_alert_color(&Severity::Error), "danger");
    assert_eq!(manager.get_pagerduty_severity(&Severity::Info), "info");
    assert_eq!(manager.get_pagerduty_severity(&Severity::Critical), "critical");
}

#[test]
fn carrier_payload_round_trip() {
    let mut c = MeshMessageCarrier::new();
    c.set("traceparent", "00-abc-def-01");
    c.set("baggage", "agent=ä7");
    c.set("traceparent", "00-xyz-def-01");
    let bytes = c.to_payload().unwrap();
    assert_eq!(&bytes[0..8], &[0, 0, 0, 0, 0, 0, 0, 11]);
    assert_eq!(&bytes[8..19], b"traceparent");
    let c2 = MeshMessageCarrier::from_payload(&bytes).unwrap();
    assert_eq!(c2.get("traceparent"), Some("00-xyz-def-01"));
    assert_eq!(c2.get("baggage"), Some("agent=ä7"));
    assert_eq!(c2.get("missing"), None);
    assert_eq!(c2.to_payload().unwrap(), bytes);
    let empty = MeshMessageCarrier::from_payload(&[]).unwrap();
    assert_eq!(empty.get("traceparent"), None);
    assert!(MeshMessageCarrier::from_payload(&[0, 0, 0, 5, b'a']).is_err());
    assert!(MeshMessageCarrier::from_payload(&[0, 0, 0, 1, b'a']).is_err());
    assert!(MeshMessageCarrier::from_payload(&[0, 0, 0, 1, 0xff, 0, 0, 0, 0]).is_err());
    assert!(MeshMessageCarrier::from_payload(&[0, 0, 0, 0, 0, 0, 0, 1, 0xff, 0, 0, 0, 0, 0, 0, 0, 0]).is_err());
    let ok = MeshMessageCarrier::from_payload(&[0, 0, 0, 0, 0, 0, 0, 1, b'k', 0, 0, 0, 0, 0, 0, 0, 1, b'v']).unwrap();
    assert_eq!(ok.get("k"), Some("v"));
}

#[test]
fn export_protocol_choice() {
    assert_eq!(export_protocol("http"), ExportProtocol::HttpBinary);
    assert_eq!(export_protocol("grpc"), ExportProtocol::Grpc);
    assert_eq!(export_protocol("HTTP"), ExportProtocol::Grpc);
}
