//! Alerting rules: the rule set, which rules are firing, and the reading of
//! a rule's `<metric> > <threshold>` condition.

use std::time::Duration;
use vstd::prelude::*;
use crate::clock::{duration_of_secs, duration_from_secs};
use crate::text::{count_char, find_char, trimmed, count_and_find, trim_copy};

verus! {

/// Alert severity of a rule.
#[derive(Debug, Clone, Copy, PartialEq, Eq, Structural)]
pub enum AlertSeverity {
    /// Informational.
    Info,
    /// Warning.
    Warning,
    /// Error.
    Error,
    /// Critical.
    Critical,
}

/// Alert rule definition.
#[derive(Debug)]
pub struct AlertRule {
    /// Rule name.
    pub name: String,
    /// Condition, of the form `<metric> > <threshold>`.
    pub expr: String,
    /// How long the condition must hold.
    pub for_duration: Duration,
    /// Severity.
    pub severity: AlertSeverity,
    /// Labels, as (name, value), each name once.
    pub labels: Vec<(String, String)>,
    /// Annotations, as (name, value), each name once.
    pub annotations: Vec<(String, String)>,
}

/// The texts of a list of (name, value) pairs.
pub open spec fn pairs_view(v: Seq<(String, String)>) -> Seq<(Seq<char>, Seq<char>)> {
    v.map_values(|p: (String, String)| (p.0@, p.1@))
}

/// The labels and annotations of a default rule: its severity label, and
/// its summary and description.
pub open spec fn rule_texts(r: AlertRule, severity: Seq<char>, summary: Seq<char>, description: Seq<char>) -> bool {
    &&& pairs_view(r.labels@) == seq![("severity"@, severity)]
    &&& pairs_view(r.annotations@) == seq![("summary"@, summary), ("description"@, description)]
}

/// The metric name and the threshold text of a condition: present when the
/// condition holds exactly one `>`, each side without surrounding
/// whitespace.
pub open spec fn threshold_parts_of(expr: Seq<char>) -> Option<(Seq<char>, Seq<char>)> {
    if count_char(expr, '>') == 1 {
        let p = find_char(expr, '>', 0);
        Some((trimmed(expr.subrange(0, p)), trimmed(expr.subrange(p + 1, expr.len() as int))))
    } else {
        None
    }
}

/// Splits a condition `<metric> > <threshold>` into the metric name and the
/// threshold text; `None` unless the condition holds exactly one `>`.
pub fn threshold_parts(expr: &str) -> (r: Option<(String, String)>)
    ensures
        match threshold_parts_of(expr@) {
            Some((m, t)) => r matches Some((rm, rt)) && rm@ == m && rt@ == t,
            None => r is None,
        },
{
    let (count, p) = count_and_find(expr, '>');
    if count != 1 {
        return None;
    }
    proof {
        lemma_find_char_found(expr@, '>');
    }
    let n = expr.unicode_len();
    let metric = trim_copy(expr.substring_char(0, p));
    let threshold = trim_copy(expr.substring_char(p + 1, n));
    Some((metric, threshold))
}

proof fn lemma_find_char_found(s: Seq<char>, c: char)
    requires
        count_char(s, c) > 0,
    ensures
        0 <= find_char(s, c, 0) < s.len(),
{
    lemma_find_char_from(s, c, 0);
}

proof fn lemma_count_zero_suffix(s: Seq<char>, c: char, i: int)
    requires
        0 <= i <= s.len(),
        forall|k: int| 0 <= k < i ==> s[k] != c,
    ensures
        count_char(s.subrange(0, i), c) == 0,
    decreases i,
{
    if i > 0 {
        assert(s.subrange(0, i).drop_last() =~= s.subrange(0, i - 1));
        lemma_count_zero_suffix(s, c, i - 1);
    }
}

proof fn lemma_find_char_from(s: Seq<char>, c: char, i: int)
    requires
        0 <= i <= s.len(),
        forall|k: int| 0 <= k < i ==> s[k] != c,
        count_char(s, c) > 0,
    ensures
        0 <= find_char(s, c, i) < s.len(),
    decreases s.len() - i,
{
    if i == s.len() {
        lemma_count_zero_suffix(s, c, i);
        assert(s.subrange(0, i) =~= s);
    } else if s[i] != c {
        lemma_find_char_from(s, c, i + 1);
    }
}

/// Names of the rules in `rules`, in order.
pub open spec fn rule_names(rules: Seq<AlertRule>) -> Seq<Seq<char>> {
    rules.map_values(|r: AlertRule| r.name@)
}

/// The rules of `rules` whose alert is active, in order.
pub open spec fn firing_rules(rules: Seq<AlertRule>, active: Set<Seq<char>>) -> Seq<AlertRule> {
    rules.filter(|r: AlertRule| active.contains(r.name@))
}

/// Rule set with the names of the rules whose alert is active.
pub struct AlertManager {
    rules: Vec<AlertRule>,
    active_alerts: Vec<String>,
}

impl AlertManager {
    /// The rules, in the order they were added.
    pub closed spec fn rules_view(&self) -> Seq<AlertRule> {
        self.rules@
    }

    /// Names of the rules whose alert is active.
    pub closed spec fn active_view(&self) -> Set<Seq<char>> {
        self.active_alerts@.map_values(|s: String| s@).to_set()
    }

    /// A manager holding the default rules and no active alert.
    pub fn new() -> (r: Self)
        ensures
            r.rules_view().len() == 5,
            rule_names(r.rules_view()) == default_rule_names(),
            r.active_view() == Set::<Seq<char>>::empty(),
    {
        let rules = Self::get_default_rules();
        let r = AlertManager { rules, active_alerts: Vec::new() };
        assert(r.active_alerts@.map_values(|s: String| s@).to_set() =~= Set::<Seq<char>>::empty());
        r
    }

    /// Adds a rule at the end of the rule set.
    pub fn add_rule(&mut self, rule: AlertRule)
        ensures
            final(self).rules_view() == old(self).rules_view().push(rule),
            final(self).active_view() == old(self).active_view(),
    {
        self.rules.push(rule);
    }

    /// The rules, in the order they were added.
    pub fn rules(&self) -> (r: &Vec<AlertRule>)
        ensures
            r@ == self.rules_view(),
    {
        &self.rules
    }

    /// Marks the alert of the rule with this name active; nothing changes
    /// when it is active already.
    pub fn record_triggered(&mut self, rule_name: &str)
        ensures
            final(self).rules_view() == old(self).rules_view(),
            final(self).active_view() == old(self).active_view().insert(rule_name@),
    {
        let ghost old_active = self.active_alerts@;
        let n = self.active_alerts.len();
        let mut i: usize = 0;
        while i < n
            invariant
                n == self.active_alerts@.len(),
                i <= n,
                *self == *old(self),
                old_active == self.active_alerts@,
            decreases n - i,
        {
            if crate::text::str_eq(self.active_alerts[i].as_str(), rule_name) {
                assert(self.active_alerts@.map_values(|s: String| s@)[i as int] == rule_name@);
                assert(self.active_view() =~= self.active_view().insert(rule_name@));
                return;
            }
            i = i + 1;
        }
        self.active_alerts.push(String::from_str(rule_name));
        proof {
            let names = old_active.map_values(|s: String| s@);
            assert(self.active_alerts@.map_values(|s: String| s@) =~= names.push(rule_name@));
            names.lemma_push_to_set_commute(rule_name@);
        }
    }

    /// The rules whose alert is active, in rule order.
    pub fn get_active_alerts(&self) -> (r: Vec<&AlertRule>)
        ensures
            r@.len() == firing_rules(self.rules_view(), self.active_view()).len(),
            forall|i: int| 0 <= i < r@.len() ==> *r@[i] == firing_rules(self.rules_view(), self.active_view())[i],
    {
        let n = self.rules.len();
        let mut out: Vec<&AlertRule> = Vec::new();
        let mut i: usize = 0;
        while i < n
            invariant
                n == self.rules@.len(),
                i <= n,
                out@.len() == firing_rules(self.rules@.subrange(0, i as int), self.active_view()).len(),
                forall|k: int| 0 <= k < out@.len()
                    ==> *out@[k] == firing_rules(self.rules@.subrange(0, i as int), self.active_view())[k],
            decreases n - i,
        {
            let ghost before = self.rules@.subrange(0, i as int);
            let ghost after = self.rules@.subrange(0, i + 1);
            let active = self.is_active(self.rules[i].name.as_str());
            proof {
                assert(after.drop_last() =~= before);
                assert(firing_rules(after, self.active_view()) == if self.active_view().contains(after.last().name@) {
                    firing_rules(before, self.active_view()).push(after.last())
                } else {
                    firing_rules(before, self.active_view())
                }) by {
                    reveal_with_fuel(Seq::filter, 1);
                }
            }
            if active {
                out.push(&self.rules[i]);
            }
            i = i + 1;
        }
        assert(self.rules@.subrange(0, n as int) =~= self.rules@);
        out
    }

    /// Whether the alert of the rule with this name is active.
    pub fn is_active(&self, rule_name: &str) -> (r: bool)
        ensures
            r == self.active_view().contains(rule_name@),
    {
        let n = self.active_alerts.len();
        let mut i: usize = 0;
        while i < n
            invariant
                n == self.active_alerts@.len(),
                i <= n,
                forall|k: int| 0 <= k < i ==> self.active_alerts@[k]@ != rule_name@,
            decreases n - i,
        {
            if crate::text::str_eq(self.active_alerts[i].as_str(), rule_name) {
                assert(self.active_alerts@.map_values(|s: String| s@)[i as int] == rule_name@);
                return true;
            }
            i = i + 1;
        }
        proof {
            if self.active_view().contains(rule_name@) {
                let names = self.active_alerts@.map_values(|s: String| s@);
                assert(names.contains(rule_name@));
                let k = choose|k: int| 0 <= k < names.len() && #[trigger] names[k] == rule_name@;
                assert(self.active_alerts@[k]@ == rule_name@);
            }
        }
        false
    }

    /// Marks the alert of the rule with this name resolved.
    pub fn resolve_alert(&mut self, rule_name: &str)
        ensures
            final(self).rules_view() == old(self).rules_view(),
            final(self).active_view() == old(self).active_view().remove(rule_name@),
    {
        let ghost old_names = self.active_alerts@.map_values(|s: String| s@);
        let n = self.active_alerts.len();
        let mut kept: Vec<String> = Vec::new();
        let mut i: usize = 0;
        while i < n
            invariant
                n == self.active_alerts@.len(),
                i <= n,
                old_names == self.active_alerts@.map_values(|s: String| s@),
                kept@.map_values(|s: String| s@) == old_names.subrange(0, i as int).filter(other_than(rule_name@)),
            decreases n - i,
        {
            let ghost before = old_names.subrange(0, i as int);
            let ghost after = old_names.subrange(0, i + 1);
            proof {
                assert(after.drop_last() =~= before);
                assert(after.filter(other_than(rule_name@)) == if after.last() != rule_name@ {
                    before.filter(other_than(rule_name@)).push(after.last())
                } else {
                    before.filter(other_than(rule_name@))
                }) by {
                    reveal_with_fuel(Seq::filter, 1);
                }
            }
            if !crate::text::str_eq(self.active_alerts[i].as_str(), rule_name) {
                let copy = self.active_alerts[i].clone();
                kept.push(copy);
                assert(kept@.map_values(|s: String| s@) =~= before.filter(other_than(rule_name@)).push(after.last()));
            }
            i = i + 1;
        }
        assert(old_names.subrange(0, n as int) =~= old_names);
        proof {
            lemma_filter_keeps(old_names, rule_name@);
        }
        self.active_alerts = kept;
    }

    /// The five default rules: high CPU usage, high memory usage, high task
    /// failure rate, agents offline and high latency.
    pub fn get_default_rules() -> (r: Vec<AlertRule>)
        ensures
            r@.len() == 5,
            rule_names(r@) == default_rule_names(),
            r@[0].expr@ == "sdk_cpu_usage_percent > 80"@,
            r@[0].for_duration == duration_of_secs(300),
            r@[0].severity == AlertSeverity::Warning,
            r@[1].expr@ == "sdk_memory_usage_bytes > 1073741824"@,
            r@[1].for_duration == duration_of_secs(300),
            r@[1].severity == AlertSeverity::Warning,
            r@[2].expr@ == "sdk_tasks_failed_total > 10"@,
            r@[2].for_duration == duration_of_secs(600),
            r@[2].severity == AlertSeverity::Error,
            r@[3].expr@ == "sdk_agents_active < 1"@,
            r@[3].for_duration == duration_of_secs(60),
            r@[3].severity == AlertSeverity::Critical,
            r@[4].expr@ == "sdk_network_latency_seconds > 0.5"@,
            r@[4].for_duration == duration_of_secs(120),
            r@[4].severity == AlertSeverity::Warning,
            rule_texts(r@[0], "warning"@, "High CPU usage detected"@, "CPU usage is above 80% for more than 5 minutes"@),
            rule_texts(r@[1], "warning"@, "High memory usage detected"@, "Memory usage is above 1GB for more than 5 minutes"@),
            rule_texts(r@[2], "error"@, "High task failure rate"@, "More than 10 tasks have failed in the last 10 minutes"@),
            rule_texts(r@[3], "critical"@, "All agents offline"@, "No active agents for more than 1 minute"@),
            rule_texts(r@[4], "warning"@, "High network latency"@, "Network latency is above 500ms for more than 2 minutes"@),
    {
        let mut rules: Vec<AlertRule> = Vec::new();
        rules.push(make_rule(
            "HighCPUUsage", "sdk_cpu_usage_percent > 80", 300, AlertSeverity::Warning, "warning",
            "High CPU usage detected", "CPU usage is above 80% for more than 5 minutes",
        ));
        rules.push(make_rule(
            "HighMemoryUsage", "sdk_memory_usage_bytes > 1073741824", 300, AlertSeverity::Warning, "warning",
            "High memory usage detected", "Memory usage is above 1GB for more than 5 minutes",
        ));
        rules.push(make_rule(
            "HighTaskFailureRate", "sdk_tasks_failed_total > 10", 600, AlertSeverity::Error, "error",
            "High task failure rate", "More than 10 tasks have failed in the last 10 minutes",
        ));
        rules.push(make_rule(
            "AgentOffline", "sdk_agents_active < 1", 60, AlertSeverity::Critical, "critical",
            "All agents offline", "No active agents for more than 1 minute",
        ));
        rules.push(make_rule(
            "HighLatency", "sdk_network_latency_seconds > 0.5", 120, AlertSeverity::Warning, "warning",
            "High network latency", "Network latency is above 500ms for more than 2 minutes",
        ));
        assert(rule_names(rules@) =~= default_rule_names());
        rules
    }
}

/// Names of the default rules, in order.
pub open spec fn default_rule_names() -> Seq<Seq<char>> {
    seq!["HighCPUUsage"@, "HighMemoryUsage"@, "HighTaskFailureRate"@, "AgentOffline"@, "HighLatency"@]
}

/// Names other than `x`.
pub open spec fn other_than(x: Seq<char>) -> spec_fn(Seq<char>) -> bool {
    |y: Seq<char>| y != x
}

proof fn lemma_filter_keeps(s: Seq<Seq<char>>, x: Seq<char>)
    ensures
        s.filter(other_than(x)).to_set() =~= s.to_set().remove(x),
{
    let p = other_than(x);
    let f = s.filter(p);
    assert forall|m: Seq<char>| f.to_set().contains(m) <==> s.to_set().remove(x).contains(m) by {
        if f.to_set().contains(m) {
            assert(f.contains(m));
            s.lemma_filter_contains_rev(p, m);
            let i = choose|i: int| 0 <= i < f.len() && f[i] == m;
            s.lemma_filter_pred(p, i);
        }
        if s.to_set().remove(x).contains(m) {
            assert(s.contains(m));
            let k = choose|k: int| 0 <= k < s.len() && s[k] == m;
            s.lemma_filter_contains(p, k);
        }
    }
}

fn make_rule(
    name: &str,
    expr: &str,
    secs: u64,
    severity: AlertSeverity,
    label: &str,
    summary: &str,
    description: &str,
) -> (r: AlertRule)
    ensures
        r.name@ == name@,
        r.expr@ == expr@,
        r.for_duration == duration_of_secs(secs),
        r.severity == severity,
        rule_texts(r, label@, summary@, description@),
{
    proof {
        reveal_strlit("severity");
        reveal_strlit("summary");
        reveal_strlit("description");
    }
    let mut labels: Vec<(String, String)> = Vec::new();
    labels.push((String::from_str("severity"), String::from_str(label)));
    let mut annotations: Vec<(String, String)> = Vec::new();
    annotations.push((String::from_str("summary"), String::from_str(summary)));
    annotations.push((String::from_str("description"), String::from_str(description)));
    assert(pairs_view(labels@) =~= seq![("severity"@, label@)]);
    assert(pairs_view(annotations@) =~= seq![("summary"@, summary@), ("description"@, description@)]);
    AlertRule {
        name: String::from_str(name),
        expr: String::from_str(expr),
        for_duration: duration_from_secs(secs),
        severity,
        labels,
        annotations,
    }
}

impl Default for AlertManager {
    fn default() -> (r: Self)
        ensures
            r.rules_view().len() == 5,
            rule_names(r.rules_view()) == default_rule_names(),
            r.active_view() == Set::<Seq<char>>::empty(),
    {
        Self::new()
    }
}

} // verus!
