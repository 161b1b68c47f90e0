//! Predefined dashboard templates.

use vstd::prelude::*;
use crate::monitoring_integration::grafana::{Dashboard, GridPos, Panel, TimeRange, make_panel, panel_is};

verus! {

/// The default dashboard of the SDK: task, resource, latency and health panels.
pub fn default_agent_dashboard() -> (r: Dashboard)
    ensures
        r.title@ == "Offline-First Multi-Agent Autonomy SDK"@,
        r.tags@.len() == 2,
        r.tags@[0]@ == "offline-first"@,
        r.tags@[1]@ == "multi-agent"@,
        r.panels@.len() == 6,
        panel_is(r.panels@[0], "Tasks Created"@, "graph"@, "rate(offline_first_tasks_created_total[5m])"@, "{{instance}}"@, GridPos { x: 0, y: 0, w: 12, h: 8 }),
        panel_is(r.panels@[1], "Pending Tasks"@, "graph"@, "offline_first_pending_tasks"@, "{{instance}}"@, GridPos { x: 12, y: 0, w: 12, h: 8 }),
        panel_is(r.panels@[2], "CPU Usage"@, "graph"@, "offline_first_cpu_usage_percent"@, "{{instance}}"@, GridPos { x: 0, y: 8, w: 8, h: 8 }),
        panel_is(r.panels@[3], "Memory Usage"@, "graph"@, "offline_first_memory_usage_bytes"@, "{{instance}}"@, GridPos { x: 8, y: 8, w: 8, h: 8 }),
        panel_is(r.panels@[4], "Network Latency"@, "graph"@, "histogram_quantile(0.95, sum(rate(offline_first_network_latency_seconds_bucket[5m])) by (le, instance))"@, "{{instance}}"@, GridPos { x: 16, y: 8, w: 8, h: 8 }),
        panel_is(r.panels@[5], "Health Status"@, "singlestat"@, "offline_first_health_status"@, ""@, GridPos { x: 0, y: 16, w: 6, h: 4 }),
        r.time.from@ == "now-1h"@,
        r.time.to@ == "now"@,
        r.refresh@ == "10s"@,
{
    let mut tags: Vec<String> = Vec::new();
    tags.push(String::from_str("offline-first"));
    tags.push(String::from_str("multi-agent"));
    let mut panels: Vec<Panel> = Vec::new();
    panels.push(make_panel("Tasks Created", "graph", "rate(offline_first_tasks_created_total[5m])", "{{instance}}", GridPos { x: 0, y: 0, w: 12, h: 8 }));
    panels.push(make_panel("Pending Tasks", "graph", "offline_first_pending_tasks", "{{instance}}", GridPos { x: 12, y: 0, w: 12, h: 8 }));
    panels.push(make_panel("CPU Usage", "graph", "offline_first_cpu_usage_percent", "{{instance}}", GridPos { x: 0, y: 8, w: 8, h: 8 }));
    panels.push(make_panel("Memory Usage", "graph", "offline_first_memory_usage_bytes", "{{instance}}", GridPos { x: 8, y: 8, w: 8, h: 8 }));
    panels.push(make_panel("Network Latency", "graph", "histogram_quantile(0.95, sum(rate(offline_first_network_latency_seconds_bucket[5m])) by (le, instance))", "{{instance}}", GridPos { x: 16, y: 8, w: 8, h: 8 }));
    panels.push(make_panel("Health Status", "singlestat", "offline_first_health_status", "", GridPos { x: 0, y: 16, w: 6, h: 4 }));
    Dashboard {
        title: String::from_str("Offline-First Multi-Agent Autonomy SDK"),
        tags,
        panels,
        time: TimeRange { from: String::from_str("now-1h"), to: String::from_str("now") },
        refresh: String::from_str("10s"),
    }
}

/// The dashboard of distributed planning: assignment, completion and missed deadlines.
pub fn planning_dashboard() -> (r: Dashboard)
    ensures
        r.title@ == "Distributed Planning Metrics"@,
        r.tags@.len() == 2,
        r.tags@[0]@ == "planning"@,
        r.tags@[1]@ == "distributed"@,
        r.panels@.len() == 3,
        panel_is(r.panels@[0], "Task Assignment Rate"@, "graph"@, "rate(offline_first_tasks_assigned_total[5m])"@, "{{instance}}"@, GridPos { x: 0, y: 0, w: 12, h: 8 }),
        panel_is(r.panels@[1], "Task Completion Rate"@, "graph"@, "rate(offline_first_tasks_completed_total[5m])"@, "{{instance}}"@, GridPos { x: 12, y: 0, w: 12, h: 8 }),
        panel_is(r.panels@[2], "Missed Deadlines"@, "graph"@, "rate(offline_first_tasks_missed_deadline_total[5m])"@, "{{instance}}"@, GridPos { x: 0, y: 8, w: 12, h: 8 }),
        r.time.from@ == "now-1h"@,
        r.time.to@ == "now"@,
        r.refresh@ == "10s"@,
{
    let mut tags: Vec<String> = Vec::new();
    tags.push(String::from_str("planning"));
    tags.push(String::from_str("distributed"));
    let mut panels: Vec<Panel> = Vec::new();
    panels.push(make_panel("Task Assignment Rate", "graph", "rate(offline_first_tasks_assigned_total[5m])", "{{instance}}", GridPos { x: 0, y: 0, w: 12, h: 8 }));
    panels.push(make_panel("Task Completion Rate", "graph", "rate(offline_first_tasks_completed_total[5m])", "{{instance}}", GridPos { x: 12, y: 0, w: 12, h: 8 }));
    panels.push(make_panel("Missed Deadlines", "graph", "rate(offline_first_tasks_missed_deadline_total[5m])", "{{instance}}", GridPos { x: 0, y: 8, w: 12, h: 8 }));
    Dashboard {
        title: String::from_str("Distributed Planning Metrics"),
        tags,
        panels,
        time: TimeRange { from: String::from_str("now-1h"), to: String::from_str("now") },
        refresh: String::from_str("10s"),
    }
}

} // verus!
