use offline_first_sdk::notification::delivery::{DeliveryLog, DeliveryStatus};
use offline_first_sdk::notification::SendResult;
use offline_first_sdk::clock::UtcTimestamp;
use offline_first_sdk::notification::{
    summarize_batch, ChannelConfig, ContentType, Notification, NotificationChannel, NotificationConfig, Priority,
};

#[test]
fn batch_summary_counts_and_records_each_send() {
    let outcomes = vec![
        Ok("n-1".to_string()),
        Err("Channel disabled: Sms".to_string()),
        Ok("n-2".to_string()),
    ];
    let r = summarize_batch(outcomes);
    assert_eq!(r.total, 3);
    assert_eq!(r.successful, 2);
    assert_eq!(r.failed, 1);
    assert_eq!(r.results[0].id, "n-1");
    assert!(r.results[0].success);
    assert_eq!(r.results[1].id, "");
    assert!(!r.results[1].success);
    assert_eq!(r.results[1].error.as_deref(), Some("Channel disabled: Sms"));
    assert!(r.results[2].error.is_none());
}

#[test]
fn empty_batch() {
    let r = summarize_batch(Vec::new());
    assert_eq!((r.total, r.successful, r.failed), (0, 0, 0));
    assert!(r.results.is_empty());
}

#[test]
fn new_notification_defaults_and_builders() {
    let n = Notification::new(
        NotificationChannel::Email,
        vec!["test@example.com".to_string()],
        "Test Subject".to_string(),
        "Test Content".to_string(),
    );
    assert_eq!(n.id.len(), 36);
    assert_eq!(n.content_type, ContentType::Text);
    assert_eq!(n.priority, Priority::Normal);
    assert!(n.scheduled_at.is_none());
    assert_eq!(n.metadata, serde_json::Value::Object(serde_json::Map::new()));
    let other = Notification::new(NotificationChannel::Sms, vec![], String::new(), String::new());
    assert_ne!(n.id, other.id);
    let at = UtcTimestamp { secs: 100, nanos: 0 };
    let n = n.with_priority(Priority::Urgent).with_content_type(ContentType::Html).scheduled(at);
    assert_eq!(n.priority, Priority::Urgent);
    assert_eq!(n.content_type, ContentType::Html);
    assert_eq!(n.scheduled_at, Some(at));
    assert_eq!(n.subject, "Test Subject");
}

#[test]
fn default_config_enables_only_email() {
    let mut config = NotificationConfig::default();
    assert_eq!(config.default_channel, NotificationChannel::Email);
    assert!(config.channel_enabled(&NotificationChannel::Email));
    assert!(!config.channel_enabled(&NotificationChannel::Sms));
    assert!(!config.channel_enabled(&NotificationChannel::Teams));
    assert_eq!((config.rate_limit_per_minute, config.retry_attempts, config.retry_delay_secs), (100, 3, 5));
    config.channels.push((
        NotificationChannel::Custom("pager".to_string()),
        ChannelConfig { enabled: true, credentials: serde_json::Value::Null },
    ));
    config.channels.push((NotificationChannel::Email, ChannelConfig { enabled: false, credentials: serde_json::Value::Null }));
    assert!(config.channel_enabled(&NotificationChannel::Custom("pager".to_string())));
    assert!(!config.channel_enabled(&NotificationChannel::Custom("other".to_string())));
    assert!(!config.channel_enabled(&NotificationChannel::Email));
}

#[test]
fn delivery_log_records_finds_lists_and_counts() {
    let mut log = DeliveryLog::new();
    let a = Notification::new(NotificationChannel::Email, vec!["x@e".to_string(), "y@e".to_string()], "A".to_string(), "a".to_string());
    let b = Notification::new(NotificationChannel::Sms, vec!["x@e".to_string()], "B".to_string(), "b".to_string());
    let c = Notification::new(NotificationChannel::Email, vec!["z@e".to_string()], "C".to_string(), "c".to_string());
    log.log_delivery(&a, &SendResult { id: a.id.clone(), success: true, error: None });
    log.log_delivery(&b, &SendResult { id: String::new(), success: false, error: Some("down".to_string()) });
    log.log_delivery(&c, &SendResult { id: c.id.clone(), success: true, error: None });
    let rec = log.get_delivery_status(&b.id).unwrap();
    assert_eq!(rec.status, DeliveryStatus::Failed);
    assert_eq!(rec.error_message.as_deref(), Some("down"));
    assert!(rec.delivered_at.is_none());
    assert_eq!(rec.id.len(), 36);
    assert!(log.get_delivery_status("nope").is_none());
    let hist: Vec<&str> = log.get_delivery_history("x@e", 10).iter().map(|r| r.subject.as_str()).collect();
    assert_eq!(hist, vec!["B", "A"]);
    let hist: Vec<&str> = log.get_delivery_history("x@e", 1).iter().map(|r| r.subject.as_str()).collect();
    assert_eq!(hist, vec!["B"]);
    assert!(log.get_delivery_history("x@e", 0).is_empty());
    let counts = log.counts();
    assert_eq!((counts.total, counts.successful, counts.failed), (3, 2, 1));
    assert_eq!(counts.by_channel, vec![(NotificationChannel::Email, 2), (NotificationChannel::Sms, 1)]);
}

#[test]
fn delivery_log_drops_oldest_half_when_full() {
    let mut log = DeliveryLog::new();
    let n = Notification::new(NotificationChannel::Push, vec!["r".to_string()], "s".to_string(), "c".to_string());
    let ok = SendResult { id: n.id.clone(), success: true, error: None };
    for _ in 0..100000 {
        log.log_delivery(&n, &ok);
    }
    assert_eq!(log.counts().total, 100000);
    log.log_delivery(&n, &ok);
    assert_eq!(log.counts().total, 50001);
}
