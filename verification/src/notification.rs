//! Multi-channel notifications: channels and their configuration,
//! notifications, and the summary of a batch of sends.

pub mod delivery;

use vstd::prelude::*;
use crate::clock::UtcTimestamp;
use crate::ids::{lemma_uuid_text_len, new_uuid, uuid_string, uuid_text};
use crate::json::{empty_json_object, json_object_members, json_text};
use crate::text::str_eq;

verus! {

/// Notification channel.
#[derive(Debug, Clone, PartialEq, Eq, Hash)]
pub enum NotificationChannel {
    /// E-mail.
    Email,
    /// SMS.
    Sms,
    /// Push notification.
    Push,
    /// Slack.
    Slack,
    /// Microsoft Teams.
    Teams,
    /// Webhook.
    Webhook,
    /// Any other channel, by name.
    Custom(String),
}

/// A channel as a value: the variant's position, and the name of a
/// custom channel.
pub open spec fn channel_view(c: NotificationChannel) -> (nat, Seq<char>) {
    match c {
        NotificationChannel::Email => (0, Seq::empty()),
        NotificationChannel::Sms => (1, Seq::empty()),
        NotificationChannel::Push => (2, Seq::empty()),
        NotificationChannel::Slack => (3, Seq::empty()),
        NotificationChannel::Teams => (4, Seq::empty()),
        NotificationChannel::Webhook => (5, Seq::empty()),
        NotificationChannel::Custom(s) => (6, s@),
    }
}

/// Whether two channels are the same.
pub fn same_channel(a: &NotificationChannel, b: &NotificationChannel) -> (r: bool)
    ensures
        r == (channel_view(*a) == channel_view(*b)),
{
    match (a, b) {
        (NotificationChannel::Email, NotificationChannel::Email) => true,
        (NotificationChannel::Sms, NotificationChannel::Sms) => true,
        (NotificationChannel::Push, NotificationChannel::Push) => true,
        (NotificationChannel::Slack, NotificationChannel::Slack) => true,
        (NotificationChannel::Teams, NotificationChannel::Teams) => true,
        (NotificationChannel::Webhook, NotificationChannel::Webhook) => true,
        (NotificationChannel::Custom(x), NotificationChannel::Custom(y)) => str_eq(x.as_str(), y.as_str()),
        _ => false,
    }
}

/// Configuration of one channel.
#[derive(Debug, Clone)]
pub struct ChannelConfig {
    /// Whether the channel may be used.
    pub enabled: bool,
    /// The channel's credentials.
    pub credentials: serde_json::Value,
}

/// Notification configuration. Each channel is configured at most once;
/// a later entry for a channel replaces an earlier one.
#[derive(Debug, Clone)]
pub struct NotificationConfig {
    /// The channel used when none is given.
    pub default_channel: NotificationChannel,
    /// The configured channels.
    pub channels: Vec<(NotificationChannel, ChannelConfig)>,
    /// Sends allowed per minute.
    pub rate_limit_per_minute: u32,
    /// Whether deliveries are logged.
    pub enable_tracking: bool,
    /// Retries of a failed send.
    pub retry_attempts: u32,
    /// Delay between retries, in seconds.
    pub retry_delay_secs: u64,
}

/// The configuration of a channel in a list of channel configurations:
/// the last one given for it.
pub open spec fn channel_config(channels: Seq<(NotificationChannel, ChannelConfig)>, c: NotificationChannel) -> Option<
    ChannelConfig,
>
    decreases channels.len(),
{
    if channels.len() == 0 {
        None
    } else if channel_view(channels.last().0) == channel_view(c) {
        Some(channels.last().1)
    } else {
        channel_config(channels.drop_last(), c)
    }
}

/// A channel is configured and enabled.
pub open spec fn channel_is_enabled(channels: Seq<(NotificationChannel, ChannelConfig)>, c: NotificationChannel) -> bool {
    match channel_config(channels, c) {
        Some(cfg) => cfg.enabled,
        None => false,
    }
}

impl NotificationConfig {
    /// Whether a channel is configured and enabled.
    pub fn channel_enabled(&self, channel: &NotificationChannel) -> (r: bool)
        ensures
            r == channel_is_enabled(self.channels@, *channel),
    {
        let mut i = self.channels.len();
        assert(self.channels@.subrange(0, i as int) =~= self.channels@);
        while i > 0
            invariant
                i <= self.channels@.len(),
                channel_config(self.channels@, *channel) == channel_config(self.channels@.subrange(0, i as int), *channel),
            decreases i,
        {
            let ghost sub = self.channels@.subrange(0, i as int);
            assert(sub.drop_last() =~= self.channels@.subrange(0, i - 1));
            if same_channel(&self.channels[i - 1].0, channel) {
                return self.channels[i - 1].1.enabled;
            }
            i = i - 1;
        }
        false
    }
}

impl Default for NotificationConfig {
    fn default() -> (r: Self)
        ensures
            r.default_channel == NotificationChannel::Email,
            r.channels@.len() == 5,
            r.channels@[0].0 == NotificationChannel::Email && r.channels@[0].1.enabled,
            r.channels@[1].0 == NotificationChannel::Sms && !r.channels@[1].1.enabled,
            r.channels@[2].0 == NotificationChannel::Push && !r.channels@[2].1.enabled,
            r.channels@[3].0 == NotificationChannel::Slack && !r.channels@[3].1.enabled,
            r.channels@[4].0 == NotificationChannel::Webhook && !r.channels@[4].1.enabled,
            forall|i: int| 0 <= i < 5 ==> json_object_members((#[trigger] r.channels@[i]).1.credentials).len() == 0
                && json_text(r.channels@[i].1.credentials) is None,
            r.rate_limit_per_minute == 100,
            r.enable_tracking,
            r.retry_attempts == 3,
            r.retry_delay_secs == 5,
    {
        let mut channels: Vec<(NotificationChannel, ChannelConfig)> = Vec::new();
        channels.push((NotificationChannel::Email, ChannelConfig { enabled: true, credentials: empty_json_object() }));
        channels.push((NotificationChannel::Sms, ChannelConfig { enabled: false, credentials: empty_json_object() }));
        channels.push((NotificationChannel::Push, ChannelConfig { enabled: false, credentials: empty_json_object() }));
        channels.push((NotificationChannel::Slack, ChannelConfig { enabled: false, credentials: empty_json_object() }));
        channels.push((NotificationChannel::Webhook, ChannelConfig { enabled: false, credentials: empty_json_object() }));
        NotificationConfig {
            default_channel: NotificationChannel::Email,
            channels,
            rate_limit_per_minute: 100,
            enable_tracking: true,
            retry_attempts: 3,
            retry_delay_secs: 5,
        }
    }
}

/// Content type.
#[derive(Debug, Clone, Copy, PartialEq, Eq, Structural)]
pub enum ContentType {
    /// Plain text.
    Text,
    /// HTML.
    Html,
    /// Markdown.
    Markdown,
}

/// Priority.
#[derive(Debug, Clone, Copy, PartialEq, Eq, Structural)]
pub enum Priority {
    /// Low.
    Low,
    /// Normal.
    Normal,
    /// High.
    High,
    /// Urgent.
    Urgent,
}

/// A notification.
#[derive(Debug, Clone)]
pub struct Notification {
    /// Unique id: a UUID in hyphenated form.
    pub id: String,
    /// Channel to send on.
    pub channel: NotificationChannel,
    /// Recipients.
    pub recipients: Vec<String>,
    /// Subject.
    pub subject: String,
    /// Content.
    pub content: String,
    /// Content type.
    pub content_type: ContentType,
    /// Priority.
    pub priority: Priority,
    /// Free-form metadata.
    pub metadata: serde_json::Value,
    /// When to send; now when none is given.
    pub scheduled_at: Option<UtcTimestamp>,
}

impl Notification {
    /// A new plain-text notification of normal priority, with a fresh
    /// random id, to be sent now.
    pub fn new(channel: NotificationChannel, recipients: Vec<String>, subject: String, content: String) -> (r: Self)
        ensures
            r.id@.len() == 36,
            exists|u: u128| #[trigger] uuid_text(u) == r.id@,
            r.channel == channel,
            r.recipients == recipients,
            r.subject == subject,
            r.content == content,
            r.content_type == ContentType::Text,
            r.priority == Priority::Normal,
            json_object_members(r.metadata).len() == 0,
            json_text(r.metadata) is None,
            r.scheduled_at is None,
    {
        let raw = new_uuid();
        let id = uuid_string(raw);
        proof { lemma_uuid_text_len(raw); }
        Notification {
            id,
            channel,
            recipients,
            subject,
            content,
            content_type: ContentType::Text,
            priority: Priority::Normal,
            metadata: empty_json_object(),
            scheduled_at: None,
        }
    }

    /// With another content type.
    pub fn with_content_type(self, content_type: ContentType) -> (r: Self)
        ensures
            r == (Notification { content_type, ..self }),
    {
        Notification { content_type, ..self }
    }

    /// With another priority.
    pub fn with_priority(self, priority: Priority) -> (r: Self)
        ensures
            r == (Notification { priority, ..self }),
    {
        Notification { priority, ..self }
    }

    /// With other metadata.
    pub fn with_metadata(self, metadata: serde_json::Value) -> (r: Self)
        ensures
            r == (Notification { metadata, ..self }),
    {
        Notification { metadata, ..self }
    }

    /// Scheduled at a time.
    pub fn scheduled(self, at: UtcTimestamp) -> (r: Self)
        ensures
            r == (Notification { scheduled_at: Some(at), ..self }),
    {
        Notification { scheduled_at: Some(at), ..self }
    }
}

/// Result of one send.
#[derive(Debug, Clone)]
pub struct SendResult {
    /// Id of the notification sent; empty when the send failed.
    pub id: String,
    /// Whether the send succeeded.
    pub success: bool,
    /// Why the send failed.
    pub error: Option<String>,
}

/// Result of a batch of sends.
#[derive(Debug, Clone)]
pub struct BatchResult {
    /// Number of sends.
    pub total: usize,
    /// Sends that succeeded.
    pub successful: usize,
    /// Sends that failed.
    pub failed: usize,
    /// One result per send, in order.
    pub results: Vec<SendResult>,
}

/// Number of successful outcomes.
pub open spec fn count_sent(outcomes: Seq<Result<String, String>>) -> nat
    decreases outcomes.len(),
{
    if outcomes.len() == 0 {
        0
    } else {
        count_sent(outcomes.drop_last()) + (if outcomes.last() is Ok { 1nat } else { 0nat })
    }
}

/// `r` records `outcome`: the id on success, the error message on failure.
pub open spec fn records(r: SendResult, outcome: Result<String, String>) -> bool {
    match outcome {
        Ok(id) => r.id@ == id@ && r.success && r.error is None,
        Err(e) => r.id@.len() == 0 && !r.success && (r.error matches Some(m) && m@ == e@),
    }
}

/// Summarizes the outcomes of a batch of sends, in order: each outcome is
/// the id of the notification sent or the message of the error.
pub fn summarize_batch(outcomes: Vec<Result<String, String>>) -> (r: BatchResult)
    ensures
        r.total == outcomes@.len(),
        r.successful == count_sent(outcomes@),
        r.failed == outcomes@.len() - count_sent(outcomes@),
        r.results@.len() == outcomes@.len(),
        forall|i: int| 0 <= i < outcomes@.len() ==> records(#[trigger] r.results@[i], outcomes@[i]),
{
    let n = outcomes.len();
    let mut results: Vec<SendResult> = Vec::new();
    let mut successful: usize = 0;
    let mut failed: usize = 0;
    let mut i: usize = 0;
    while i < n
        invariant
            n == outcomes@.len(),
            i <= n,
            successful == count_sent(outcomes@.subrange(0, i as int)),
            successful + failed == i,
            results@.len() == i,
            forall|k: int| 0 <= k < i ==> records(#[trigger] results@[k], outcomes@[k]),
        decreases n - i,
    {
        proof {
            assert(outcomes@.subrange(0, i + 1).drop_last() =~= outcomes@.subrange(0, i as int));
        }
        match &outcomes[i] {
            Ok(id) => {
                results.push(SendResult { id: id.clone(), success: true, error: None });
                successful = successful + 1;
            },
            Err(e) => {
                results.push(SendResult { id: String::new(), success: false, error: Some(e.clone()) });
                failed = failed + 1;
            },
        }
        i = i + 1;
    }
    assert(outcomes@.subrange(0, n as int) =~= outcomes@);
    BatchResult { total: successful + failed, successful, failed, results }
}

} // verus!
