//! Alert records kept by the monitoring manager, and their statistics.

use std::collections::HashMap;
use vstd::prelude::*;
use crate::ids::{lemma_uuid_text_len, new_uuid, uuid_string, uuid_text};
use crate::clock::utc_now;

verus! {

/// Where alert notifications are sent.
#[derive(Debug, Clone)]
pub enum NotificationChannel {
    /// E-mail through an SMTP server.
    Email { smtp_url: String, recipients: Vec<String> },
    /// A Slack channel through a webhook.
    Slack { webhook_url: String, channel: String },
    /// A generic webhook with extra headers.
    Webhook { url: String, headers: HashMap<String, String> },
    /// PagerDuty.
    PagerDuty { integration_key: String },
}

/// Monitoring configuration.
#[derive(Debug, Clone)]
pub struct MonitoringConfig {
    /// Port of the metrics endpoint.
    pub metrics_port: u16,
    /// Scrape interval, in seconds.
    pub scrape_interval_secs: u64,
    /// Whether alerts are sent to the notification channels.
    pub alerting_enabled: bool,
    /// The notification channels.
    pub notification_channels: Vec<NotificationChannel>,
    /// Retention, in days.
    pub retention_days: u32,
}

/// Alert severity.
#[derive(Debug, Clone, Copy, PartialEq, Eq, Structural)]
pub enum AlertSeverity {
    /// Informational.
    Info,
    /// Warning.
    Warning,
    /// Error.
    Error,
    /// Critical.
    Critical,
}

/// An alert.
#[derive(Debug, Clone)]
pub struct Alert {
    /// Alert id.
    pub id: String,
    /// Alert name.
    pub name: String,
    /// Severity.
    pub severity: AlertSeverity,
    /// Message.
    pub message: String,
    /// Labels.
    pub labels: HashMap<String, String>,
    /// When the alert was raised, in seconds since the Unix epoch.
    pub triggered_at: u64,
    /// Whether the alert is resolved.
    pub resolved: bool,
}

/// Monitoring statistics.
#[derive(Debug, Clone, Copy, PartialEq, Eq, Structural)]
pub struct MonitoringStats {
    /// All alerts.
    pub total_alerts: i64,
    /// Unresolved alerts.
    pub active_alerts: i64,
    /// Unresolved critical alerts.
    pub critical_alerts: i32,
    /// Unresolved error alerts.
    pub error_alerts: i32,
    /// Unresolved warning alerts.
    pub warning_alerts: i32,
    /// Time of the last scrape, in seconds since the Unix epoch.
    pub last_scrape_timestamp: u64,
    /// Number of notification channels.
    pub notification_channels: i32,
}

/// `b` is a copy of `a`: same fields, labels with the same contents.
pub open spec fn same_alert(a: Alert, b: Alert) -> bool {
    &&& a.id@ == b.id@
    &&& a.name@ == b.name@
    &&& a.severity == b.severity
    &&& a.message@ == b.message@
    &&& a.labels@ == b.labels@
    &&& a.triggered_at == b.triggered_at
    &&& a.resolved == b.resolved
}

fn copy_alert(a: &Alert) -> (r: Alert)
    ensures
        same_alert(*a, r),
{
    Alert {
        id: a.id.clone(),
        name: a.name.clone(),
        severity: a.severity,
        message: a.message.clone(),
        labels: a.labels.clone(),
        triggered_at: a.triggered_at,
        resolved: a.resolved,
    }
}

/// The Slack attachment color of a severity.
pub open spec fn alert_color(s: AlertSeverity) -> Seq<char> {
    match s {
        AlertSeverity::Info => "blue"@,
        AlertSeverity::Warning => "warning"@,
        AlertSeverity::Error => "danger"@,
        AlertSeverity::Critical => "#ff0000"@,
    }
}

/// The PagerDuty severity name of a severity.
pub open spec fn pagerduty_severity(s: AlertSeverity) -> Seq<char> {
    match s {
        AlertSeverity::Info => "info"@,
        AlertSeverity::Warning => "warning"@,
        AlertSeverity::Error => "error"@,
        AlertSeverity::Critical => "critical"@,
    }
}

/// Number of alerts of `s` that are unresolved and, when `sev` is given,
/// of that severity.
pub open spec fn count_open(s: Seq<Alert>, sev: Option<AlertSeverity>) -> nat
    decreases s.len(),
{
    if s.len() == 0 {
        0
    } else {
        count_open(s.drop_last(), sev) + (if !s.last().resolved && (sev matches Some(v) ==> s.last().severity == v) {
            1nat
        } else {
            0nat
        })
    }
}

/// The unresolved alerts of `s`, in order.
pub open spec fn open_alerts(s: Seq<Alert>) -> Seq<Alert> {
    s.filter(|a: Alert| !a.resolved)
}

/// Index of the first alert of `s` with this id, or `s.len()`.
pub open spec fn first_with_id(s: Seq<Alert>, id: Seq<char>, j: int) -> int
    decreases s.len() - j,
{
    if j >= s.len() {
        s.len() as int
    } else if s[j].id@ == id {
        j
    } else {
        first_with_id(s, id, j + 1)
    }
}

/// The Prometheus metrics registry, carried as an opaque value.
#[verifier::external_type_specification]
#[verifier::external_body]
pub struct ExRegistry(prometheus::Registry);

/// Trusted: `prometheus::Registry::new` builds an empty registry.
#[verifier::external_body]
fn new_registry() -> prometheus::Registry {
    prometheus::Registry::new()
}

/// Monitoring manager: the alerts raised so far, and the time of the last
/// metrics scrape.
pub struct MonitoringManager {
    config: MonitoringConfig,
    metrics_registry: prometheus::Registry,
    alerts: Vec<Alert>,
    last_scrape: u64,
}

impl MonitoringManager {
    /// The alerts, oldest first.
    pub closed spec fn alerts_view(&self) -> Seq<Alert> {
        self.alerts@
    }

    /// Time of the last scrape.
    pub closed spec fn last_scrape_view(&self) -> u64 {
        self.last_scrape
    }

    /// The configuration.
    pub closed spec fn config_view(&self) -> MonitoringConfig {
        self.config
    }

    /// The metrics registry the manager holds.
    pub closed spec fn registry_view(&self) -> prometheus::Registry {
        self.metrics_registry
    }

    /// Creates a manager with no alerts and no scrape yet.
    pub fn new(config: MonitoringConfig) -> (r: Self)
        ensures
            r.alerts_view() == Seq::<Alert>::empty(),
            r.last_scrape_view() == 0,
            r.config_view() == config,
    {
        MonitoringManager { config, metrics_registry: new_registry(), alerts: Vec::new(), last_scrape: 0 }
    }

    /// The metrics registry.
    pub fn registry(&self) -> (r: &prometheus::Registry)
        ensures
            *r == self.registry_view(),
    {
        &self.metrics_registry
    }

    /// The configuration.
    pub fn config(&self) -> (r: &MonitoringConfig)
        ensures
            *r == self.config_view(),
    {
        &self.config
    }

    /// Records an alert with the given id and time; it starts unresolved.
    pub fn create_alert_with(
        &mut self,
        id: String,
        name: &str,
        severity: AlertSeverity,
        message: &str,
        labels: HashMap<String, String>,
        triggered_at: u64,
    ) -> (r: String)
        ensures
            r@ == id@,
            final(self).alerts_view().len() == old(self).alerts_view().len() + 1,
            final(self).alerts_view().drop_last() == old(self).alerts_view(),
            ({
                let a = final(self).alerts_view().last();
                &&& a.id@ == id@ && a.name@ == name@ && a.severity == severity && a.message@ == message@
                &&& a.labels == labels && a.triggered_at == triggered_at && !a.resolved
            }),
            final(self).last_scrape_view() == old(self).last_scrape_view(),
            final(self).config_view() == old(self).config_view(),
    {
        let result = id.clone();
        self.alerts.push(Alert {
            id,
            name: String::from_str(name),
            severity,
            message: String::from_str(message),
            labels,
            triggered_at,
            resolved: false,
        });
        assert(self.alerts@.drop_last() =~= old(self).alerts@);
        result
    }

    /// Records an alert under a fresh random id, stamped with the current
    /// time; returns the id.
    pub fn create_alert(
        &mut self,
        name: &str,
        severity: AlertSeverity,
        message: &str,
        labels: HashMap<String, String>,
    ) -> (r: String)
        ensures
            r@.len() == 36,
            exists|u: u128| #[trigger] uuid_text(u) == r@,
            final(self).alerts_view().len() == old(self).alerts_view().len() + 1,
            final(self).alerts_view().drop_last() == old(self).alerts_view(),
            ({
                let a = final(self).alerts_view().last();
                &&& a.id@ == r@ && a.name@ == name@ && a.severity == severity && a.message@ == message@
                &&& a.labels == labels && !a.resolved
            }),
            final(self).last_scrape_view() == old(self).last_scrape_view(),
            final(self).config_view() == old(self).config_view(),
    {
        let raw = new_uuid();
        let id = uuid_string(raw);
        proof { lemma_uuid_text_len(raw); }
        let now = utc_now();
        self.create_alert_with(id, name, severity, message, labels, now.secs as u64)
    }

    /// Returns the unresolved alerts, oldest first.
    pub fn get_alerts(&self) -> (r: Vec<Alert>)
        ensures
            r@.len() == open_alerts(self.alerts_view()).len(),
            forall|i: int| 0 <= i < r@.len() ==> same_alert(open_alerts(self.alerts_view())[i], #[trigger] r@[i]),
    {
        let n = self.alerts.len();
        let mut out: Vec<Alert> = Vec::new();
        let mut i: usize = 0;
        while i < n
            invariant
                n == self.alerts@.len(),
                i <= n,
                out@.len() == open_alerts(self.alerts@.subrange(0, i as int)).len(),
                forall|k: int| 0 <= k < out@.len()
                    ==> same_alert(open_alerts(self.alerts@.subrange(0, i as int))[k], #[trigger] out@[k]),
            decreases n - i,
        {
            let ghost before = self.alerts@.subrange(0, i as int);
            let ghost after = self.alerts@.subrange(0, i + 1);
            proof {
                assert(after.drop_last() =~= before);
                assert(after.last() == self.alerts@[i as int]);
                assert(open_alerts(after) == if !after.last().resolved {
                    open_alerts(before).push(after.last())
                } else {
                    open_alerts(before)
                }) by {
                    reveal_with_fuel(Seq::filter, 1);
                }
            }
            if !self.alerts[i].resolved {
                out.push(copy_alert(&self.alerts[i]));
            }
            i = i + 1;
        }
        assert(self.alerts@.subrange(0, n as int) =~= self.alerts@);
        out
    }

    /// Marks the first alert with this id resolved; nothing changes when
    /// there is none.
    pub fn resolve_alert(&mut self, alert_id: &str) -> (r: Result<(), ()>)
        ensures
            r is Ok,
            ({
                let j = first_with_id(old(self).alerts_view(), alert_id@, 0);
                if j < old(self).alerts_view().len() {
                    final(self).alerts_view() == old(self).alerts_view().update(
                        j,
                        Alert { resolved: true, ..old(self).alerts_view()[j] },
                    )
                } else {
                    final(self).alerts_view() == old(self).alerts_view()
                }
            }),
            final(self).last_scrape_view() == old(self).last_scrape_view(),
            final(self).config_view() == old(self).config_view(),
    {
        let n = self.alerts.len();
        let mut j: usize = 0;
        while j < n
            invariant
                n == self.alerts@.len(),
                j <= n,
                first_with_id(self.alerts@, alert_id@, 0) == first_with_id(self.alerts@, alert_id@, j as int),
            ensures
                j <= n,
                first_with_id(self.alerts@, alert_id@, 0) == first_with_id(self.alerts@, alert_id@, j as int),
                j < n ==> self.alerts@[j as int].id@ == alert_id@,
            decreases n - j,
        {
            if crate::text::str_eq(self.alerts[j].id.as_str(), alert_id) {
                break;
            }
            j = j + 1;
        }
        if j < n {
            let mut a = Alert {
                id: String::new(),
                name: String::new(),
                severity: AlertSeverity::Info,
                message: String::new(),
                labels: HashMap::new(),
                triggered_at: 0,
                resolved: false,
            };
            self.alerts.set_and_swap(j, &mut a);
            a.resolved = true;
            self.alerts.set_and_swap(j, &mut a);
        }
        Ok(())
    }

    /// The Slack attachment color of a severity.
    pub fn get_alert_color(&self, severity: &AlertSeverity) -> (r: &'static str)
        ensures
            r@ == alert_color(*severity),
    {
        match severity {
            AlertSeverity::Info => "blue",
            AlertSeverity::Warning => "warning",
            AlertSeverity::Error => "danger",
            AlertSeverity::Critical => "#ff0000",
        }
    }

    /// The PagerDuty severity name of a severity.
    pub fn get_pagerduty_severity(&self, severity: &AlertSeverity) -> (r: &'static str)
        ensures
            r@ == pagerduty_severity(*severity),
    {
        match severity {
            AlertSeverity::Info => "info",
            AlertSeverity::Warning => "warning",
            AlertSeverity::Error => "error",
            AlertSeverity::Critical => "critical",
        }
    }

    /// Records the time of a metrics scrape.
    pub fn set_last_scrape(&mut self, timestamp: u64)
        ensures
            final(self).last_scrape_view() == timestamp,
            final(self).alerts_view() == old(self).alerts_view(),
            final(self).config_view() == old(self).config_view(),
    {
        self.last_scrape = timestamp;
    }

    /// Returns the monitoring statistics.
    pub fn get_stats(&self) -> (r: MonitoringStats)
        ensures
            r.total_alerts == self.alerts_view().len() as i64,
            r.active_alerts == count_open(self.alerts_view(), None) as i64,
            r.critical_alerts == count_open(self.alerts_view(), Some(AlertSeverity::Critical)) as i32,
            r.error_alerts == count_open(self.alerts_view(), Some(AlertSeverity::Error)) as i32,
            r.warning_alerts == count_open(self.alerts_view(), Some(AlertSeverity::Warning)) as i32,
            r.last_scrape_timestamp == self.last_scrape_view(),
            r.notification_channels == self.config_view().notification_channels@.len() as i32,
    {
        let n = self.alerts.len();
        let mut active: usize = 0;
        let mut critical: usize = 0;
        let mut error: usize = 0;
        let mut warning: usize = 0;
        let mut i: usize = 0;
        while i < n
            invariant
                n == self.alerts@.len(),
                i <= n,
                active == count_open(self.alerts@.subrange(0, i as int), None),
                critical == count_open(self.alerts@.subrange(0, i as int), Some(AlertSeverity::Critical)),
                error == count_open(self.alerts@.subrange(0, i as int), Some(AlertSeverity::Error)),
                warning == count_open(self.alerts@.subrange(0, i as int), Some(AlertSeverity::Warning)),
                active <= i,
                critical <= i,
                error <= i,
                warning <= i,
            decreases n - i,
        {
            proof {
                let after = self.alerts@.subrange(0, i + 1);
                assert(after.drop_last() =~= self.alerts@.subrange(0, i as int));
            }
            let a = &self.alerts[i];
            if !a.resolved {
                active = active + 1;
                match a.severity {
                    AlertSeverity::Critical => {
                        critical = critical + 1;
                    },
                    AlertSeverity::Error => {
                        error = error + 1;
                    },
                    AlertSeverity::Warning => {
                        warning = warning + 1;
                    },
                    AlertSeverity::Info => {},
                }
            }
            i = i + 1;
        }
        assert(self.alerts@.subrange(0, n as int) =~= self.alerts@);
        MonitoringStats {
            total_alerts: n as i64,
            active_alerts: active as i64,
            critical_alerts: critical as i32,
            error_alerts: error as i32,
            warning_alerts: warning as i32,
            last_scrape_timestamp: self.last_scrape,
            notification_channels: self.config.notification_channels.len() as i32,
        }
    }
}

} // verus!
