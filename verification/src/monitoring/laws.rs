//! Laws of alert bookkeeping.

use vstd::prelude::*;
use crate::monitoring::alerting::{AlertRule, firing_rules};
use crate::monitoring::manager::{Alert, AlertSeverity, count_open};

verus! {

/// Raising an unresolved alert adds one to the count of open alerts and to
/// the count of open alerts of its severity, and leaves the counts of the
/// other severities as they were.
pub proof fn law_new_alert_counts_once(s: Seq<Alert>, a: Alert, sev: AlertSeverity)
    requires
        !a.resolved,
    ensures
        count_open(s.push(a), None) == count_open(s, None) + 1,
        count_open(s.push(a), Some(sev)) == count_open(s, Some(sev)) + (if a.severity == sev { 1int } else { 0int }),
{
    assert(s.push(a).drop_last() =~= s);
}

proof fn lemma_count_open_update(s: Seq<Alert>, j: int, b: Alert, sev: Option<AlertSeverity>)
    requires
        0 <= j < s.len(),
    ensures
        count_open(s.update(j, b), sev) + (if !s[j].resolved && (sev matches Some(v) ==> s[j].severity == v) {
            1int
        } else {
            0int
        }) == count_open(s, sev) + (if !b.resolved && (sev matches Some(v) ==> b.severity == v) {
            1int
        } else {
            0int
        }),
    decreases s.len(),
{
    let u = s.update(j, b);
    if j == s.len() - 1 {
        assert(u.drop_last() =~= s.drop_last());
    } else {
        assert(u.drop_last() =~= s.drop_last().update(j, b));
        lemma_count_open_update(s.drop_last(), j, b, sev);
    }
}

/// Resolving an open alert removes one from the count of open alerts and
/// from the count of open alerts of its severity; resolving an alert that
/// is already resolved changes no count.
pub proof fn law_resolve_counts_once(s: Seq<Alert>, j: int, sev: Option<AlertSeverity>)
    requires
        0 <= j < s.len(),
    ensures
        count_open(s.update(j, Alert { resolved: true, ..s[j] }), sev) + (if !s[j].resolved && (sev matches Some(
            v,
        ) ==> s[j].severity == v) {
            1int
        } else {
            0int
        }) == count_open(s, sev),
{
    lemma_count_open_update(s, j, Alert { resolved: true, ..s[j] }, sev);
}

/// An alert marked active and then resolved is no longer active, whatever
/// its state before; the other active alerts are untouched.
pub proof fn law_record_then_resolve(active: Set<Seq<char>>, name: Seq<char>)
    ensures
        active.insert(name).remove(name) == active.remove(name),
        !active.insert(name).remove(name).contains(name),
{
    assert(active.insert(name).remove(name) =~= active.remove(name));
}

/// The alerts listed as active are exactly the rules whose name is active,
/// in rule order.
pub proof fn law_active_alerts_are_firing_rules(rules: Seq<AlertRule>, active: Set<Seq<char>>, i: int)
    requires
        0 <= i < rules.len(),
    ensures
        firing_rules(rules, active).contains(rules[i]) <== active.contains(rules[i].name@),
        forall|k: int| 0 <= k < firing_rules(rules, active).len()
            ==> active.contains(#[trigger] firing_rules(rules, active)[k].name@),
{
    let p = |r: AlertRule| active.contains(r.name@);
    if active.contains(rules[i].name@) {
        rules.lemma_filter_contains(p, i);
    }
    assert forall|k: int| 0 <= k < firing_rules(rules, active).len()
        implies active.contains(#[trigger] firing_rules(rules, active)[k].name@) by {
        rules.lemma_filter_pred(p, k);
    }
}

} // verus!
