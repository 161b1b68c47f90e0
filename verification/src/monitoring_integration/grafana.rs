//! Grafana dashboard models and the predefined dashboards.

pub mod templates;

use vstd::prelude::*;

verus! {

/// Dashboard model (simplified).
#[derive(Debug)]
pub struct Dashboard {
    /// Dashboard title.
    pub title: String,
    /// Dashboard tags.
    pub tags: Vec<String>,
    /// Panels (simplified).
    pub panels: Vec<Panel>,
    /// Time range.
    pub time: TimeRange,
    /// Refresh interval.
    pub refresh: String,
}

/// Panel model.
#[derive(Debug)]
#[allow(non_snake_case)]
pub struct Panel {
    /// Panel title.
    pub title: String,
    /// Panel type (graph, singlestat, table, etc.)
    pub panel_type: String,
    /// Datasource.
    pub datasource: String,
    /// Targets (queries).
    pub targets: Vec<Target>,
    /// Grid position.
    pub gridPos: GridPos,
}

/// Target (query) model.
#[derive(Debug)]
#[allow(non_snake_case)]
pub struct Target {
    /// Prometheus query expression.
    pub expr: String,
    /// Legend format.
    pub legendFormat: String,
    /// Ref ID.
    pub refId: String,
}

/// Grid position.
#[derive(Debug, Clone, Copy, PartialEq, Eq, Structural)]
pub struct GridPos {
    /// X coordinate.
    pub x: u32,
    /// Y coordinate.
    pub y: u32,
    /// Width.
    pub w: u32,
    /// Height.
    pub h: u32,
}

/// Time range.
#[derive(Debug)]
pub struct TimeRange {
    /// From time.
    pub from: String,
    /// To time.
    pub to: String,
}

/// Response from the Grafana API when creating or updating a dashboard.
#[derive(Debug)]
pub struct DashboardResponse {
    /// Dashboard ID.
    pub id: Option<u64>,
    /// Dashboard slug.
    pub slug: String,
    /// Dashboard status.
    pub status: String,
    /// Dashboard version.
    pub version: u64,
    /// Dashboard URL.
    pub url: String,
}

/// `p` is a Prometheus panel with the given title, type, single query
/// (with ref id "A") and position.
pub open spec fn panel_is(p: Panel, title: Seq<char>, panel_type: Seq<char>, expr: Seq<char>, legend: Seq<char>, pos: GridPos) -> bool {
    &&& p.title@ == title
    &&& p.panel_type@ == panel_type
    &&& p.datasource@ == "Prometheus"@
    &&& p.targets@.len() == 1
    &&& p.targets@[0].expr@ == expr
    &&& p.targets@[0].legendFormat@ == legend
    &&& p.targets@[0].refId@ == "A"@
    &&& p.gridPos == pos
}

pub(crate) fn make_panel(title: &str, panel_type: &str, expr: &str, legend: &str, pos: GridPos) -> (r: Panel)
    ensures
        panel_is(r, title@, panel_type@, expr@, legend@, pos),
{
    let mut targets: Vec<Target> = Vec::new();
    targets.push(Target {
        expr: String::from_str(expr),
        legendFormat: String::from_str(legend),
        refId: String::from_str("A"),
    });
    Panel {
        title: String::from_str(title),
        panel_type: String::from_str(panel_type),
        datasource: String::from_str("Prometheus"),
        targets,
        gridPos: pos,
    }
}

} // verus!
