//! Intent recognition: which command a sentence asks for, by the first
//! matching pattern, longer patterns first.

use vstd::prelude::*;
use crate::sorting::{lemma_insert_keeps_runs, same_runs, sorted_by};

verus! {

/// Intent types.
#[derive(Debug, Clone, Copy, PartialEq, Eq, Structural)]
pub enum IntentType {
    /// Create a task.
    CreateTask,
    /// Update a task.
    UpdateTask,
    /// Delete a task.
    DeleteTask,
    /// List the tasks.
    ListTasks,
    /// Get a task.
    GetTask,
    /// Create an agent.
    CreateAgent,
    /// Remove an agent.
    RemoveAgent,
    /// List the agents.
    ListAgents,
    /// Get an agent.
    GetAgent,
    /// Start a workflow.
    StartWorkflow,
    /// Stop a workflow.
    StopWorkflow,
    /// List the workflows.
    ListWorkflows,
    /// Get a workflow.
    GetWorkflow,
    /// System health.
    SystemHealth,
    /// Get metrics.
    GetMetrics,
    /// Configure the system.
    ConfigureSystem,
    /// No known intent.
    Unknown,
}

/// Whether the regular expression `pattern` (in the syntax of the `regex`
/// crate) compiles and matches somewhere in `text`.
pub uninterp spec fn regex_matches(pattern: Seq<char>, text: Seq<char>) -> bool;

/// Trusted: `regex::Regex::new(pattern)` followed by `is_match(text)`, with
/// a pattern that does not compile matching nothing. The result depends on
/// pattern and text alone; the contract names it.
#[verifier::external_body]
pub(crate) fn pattern_matches(pattern: &str, text: &str) -> (r: bool)
    ensures
        r == regex_matches(pattern@, text@),
{
    regex::Regex::new(pattern).map_or(false, |re| re.is_match(text))
}

/// The Unicode lowercase mapping of a text, as `str::to_lowercase` does it.
pub uninterp spec fn lowercase_of(text: Seq<char>) -> Seq<char>;

/// Trusted: `str::to_lowercase` maps each character by the Unicode
/// lowercase rules; the result depends on the text alone and is named.
#[verifier::external_body]
fn to_lowercase(text: &str) -> (r: String)
    ensures
        r@ == lowercase_of(text@),
{
    text.to_lowercase()
}

/// A pattern and the intent it signals.
pub type IntentPattern = (Seq<char>, IntentType);

/// Orders patterns longer first.
pub open spec fn longer_first() -> spec_fn(IntentPattern) -> int {
    |e: IntentPattern| -(e.0.len() as int)
}

/// The built-in patterns, in the order they are listed.
pub open spec fn default_patterns() -> Seq<IntentPattern> {
    seq![
        ("create.*task"@, IntentType::CreateTask),
        ("new.*task"@, IntentType::CreateTask),
        ("add.*task"@, IntentType::CreateTask),
        ("update.*task"@, IntentType::UpdateTask),
        ("modify.*task"@, IntentType::UpdateTask),
        ("delete.*task"@, IntentType::DeleteTask),
        ("remove.*task"@, IntentType::DeleteTask),
        ("list.*tasks"@, IntentType::ListTasks),
        ("get.*task"@, IntentType::GetTask),
        ("show.*task"@, IntentType::GetTask),
        ("create.*agent"@, IntentType::CreateAgent),
        ("register.*agent"@, IntentType::CreateAgent),
        ("add.*agent"@, IntentType::CreateAgent),
        ("remove.*agent"@, IntentType::RemoveAgent),
        ("delete.*agent"@, IntentType::RemoveAgent),
        ("list.*agents"@, IntentType::ListAgents),
        ("get.*agent"@, IntentType::GetAgent),
        ("start.*workflow"@, IntentType::StartWorkflow),
        ("run.*workflow"@, IntentType::StartWorkflow),
        ("execute.*workflow"@, IntentType::StartWorkflow),
        ("stop.*workflow"@, IntentType::StopWorkflow),
        ("cancel.*workflow"@, IntentType::StopWorkflow),
        ("list.*workflows"@, IntentType::ListWorkflows),
        ("get.*workflow"@, IntentType::GetWorkflow),
        ("health"@, IntentType::SystemHealth),
        ("status"@, IntentType::SystemHealth),
        ("metrics"@, IntentType::GetMetrics),
        ("stats"@, IntentType::GetMetrics),
        ("config.*"@, IntentType::ConfigureSystem),
        ("settings.*"@, IntentType::ConfigureSystem),
    ]
}

/// The characters of each pattern, with its intent.
pub open spec fn patterns_view(v: Seq<(String, IntentType)>) -> Seq<IntentPattern> {
    v.map_values(|e: (String, IntentType)| (e.0@, e.1))
}

/// The patterns of `ps` that match `text`.
pub open spec fn matching(ps: Seq<IntentPattern>, text: Seq<char>) -> Seq<IntentPattern> {
    ps.filter(|e: IntentPattern| regex_matches(e.0, text))
}

/// The intents of a list of patterns.
pub open spec fn intents_of(ps: Seq<IntentPattern>) -> Seq<IntentType> {
    ps.map_values(|e: IntentPattern| e.1)
}

/// Intent classifier.
pub struct IntentClassifier {
    intents: Vec<(String, IntentType)>,
}

fn push_pattern(v: &mut Vec<(String, IntentType)>, pattern: &str, intent: IntentType)
    ensures
        patterns_view(final(v)@) == patterns_view(old(v)@).push((pattern@, intent)),
{
    v.push((String::from_str(pattern), intent));
    assert(patterns_view(v@) =~= patterns_view(old(v)@).push((pattern@, intent)));
}

/// Stable sort, longer patterns first.
fn sort_longer_first(v: Vec<(String, IntentType)>) -> (r: Vec<(String, IntentType)>)
    ensures
        sorted_by(patterns_view(r@), longer_first()),
        same_runs(patterns_view(r@), patterns_view(v@), longer_first()),
{
    let n = v.len();
    let mut out: Vec<(String, IntentType)> = Vec::new();
    let mut i: usize = 0;
    let ghost key = longer_first();
    assert(patterns_view(out@) =~= patterns_view(v@.subrange(0, 0)));
    while i < n
        invariant
            n == v@.len(),
            i <= n,
            key == longer_first(),
            sorted_by(patterns_view(out@), key),
            same_runs(patterns_view(out@), patterns_view(v@.subrange(0, i as int)), key),
            out@.len() == i,
        decreases n - i,
    {
        let len = v[i].0.unicode_len();
        let m = out.len();
        let mut p: usize = 0;
        while p < m && out[p].0.unicode_len() >= len
            invariant
                m == out@.len(),
                p <= m,
                len == v@[i as int].0@.len(),
                forall|j: int| 0 <= j < p ==> out@[j].0@.len() >= len,
            decreases m - p,
        {
            p = p + 1;
        }
        let ghost ov = patterns_view(out@);
        let ghost x = (v@[i as int].0@, v@[i as int].1);
        proof {
            assert forall|j: int| p <= j < ov.len() implies key(#[trigger] ov[j]) != key(x) by {
                assert(out@[p as int].0@.len() < len);
                assert(ov[p as int] == (out@[p as int].0@, out@[p as int].1));
                assert(sorted_by(ov, key));
                if j > p {
                    assert(key(ov[p as int]) <= key(ov[j]));
                }
            }
            lemma_insert_keeps_runs(ov, patterns_view(v@.subrange(0, i as int)), x, p as int, key);
            assert(patterns_view(v@.subrange(0, i + 1)) =~= patterns_view(v@.subrange(0, i as int)).push(x));
        }
        let pattern = v[i].0.clone();
        out.insert(p, (pattern, v[i].1));
        proof {
            assert(patterns_view(out@) =~= ov.insert(p as int, x));
            assert forall|a: int, b: int| 0 <= a < b < patterns_view(out@).len()
                implies key(#[trigger] patterns_view(out@)[a]) <= key(#[trigger] patterns_view(out@)[b]) by {
                let w = patterns_view(out@);
                if a < p && b < p {
                    assert(w[a] == ov[a] && w[b] == ov[b]);
                } else if a < p && b == p {
                    assert(w[a] == ov[a]);
                } else if a < p {
                    assert(w[a] == ov[a] && w[b] == ov[b - 1]);
                } else if a == p {
                    assert(w[b] == ov[b - 1]);
                    assert(ov[p as int] == (out@[p as int + 1].0@, out@[p as int + 1].1));
                    if b - 1 > p {
                        assert(key(ov[p as int]) <= key(ov[b - 1]));
                    }
                } else {
                    assert(w[a] == ov[a - 1] && w[b] == ov[b - 1]);
                }
            }
        }
        i = i + 1;
    }
    assert(v@.subrange(0, n as int) =~= v@);
    out
}

impl IntentClassifier {
    /// The patterns with their intents, in the order they are tried.
    pub closed spec fn patterns(&self) -> Seq<IntentPattern> {
        patterns_view(self.intents@)
    }

    /// A classifier over the built-in patterns, longer patterns first;
    /// patterns of equal length keep the order in which they are listed.
    pub fn new() -> (r: Self)
        ensures
            sorted_by(r.patterns(), longer_first()),
            same_runs(r.patterns(), default_patterns(), longer_first()),
    {
        let mut v: Vec<(String, IntentType)> = Vec::new();
        push_pattern(&mut v, "create.*task", IntentType::CreateTask);
        push_pattern(&mut v, "new.*task", IntentType::CreateTask);
        push_pattern(&mut v, "add.*task", IntentType::CreateTask);
        push_pattern(&mut v, "update.*task", IntentType::UpdateTask);
        push_pattern(&mut v, "modify.*task", IntentType::UpdateTask);
        push_pattern(&mut v, "delete.*task", IntentType::DeleteTask);
        push_pattern(&mut v, "remove.*task", IntentType::DeleteTask);
        push_pattern(&mut v, "list.*tasks", IntentType::ListTasks);
        push_pattern(&mut v, "get.*task", IntentType::GetTask);
        push_pattern(&mut v, "show.*task", IntentType::GetTask);
        push_pattern(&mut v, "create.*agent", IntentType::CreateAgent);
        push_pattern(&mut v, "register.*agent", IntentType::CreateAgent);
        push_pattern(&mut v, "add.*agent", IntentType::CreateAgent);
        push_pattern(&mut v, "remove.*agent", IntentType::RemoveAgent);
        push_pattern(&mut v, "delete.*agent", IntentType::RemoveAgent);
        push_pattern(&mut v, "list.*agents", IntentType::ListAgents);
        push_pattern(&mut v, "get.*agent", IntentType::GetAgent);
        push_pattern(&mut v, "start.*workflow", IntentType::StartWorkflow);
        push_pattern(&mut v, "run.*workflow", IntentType::StartWorkflow);
        push_pattern(&mut v, "execute.*workflow", IntentType::StartWorkflow);
        push_pattern(&mut v, "stop.*workflow", IntentType::StopWorkflow);
        push_pattern(&mut v, "cancel.*workflow", IntentType::StopWorkflow);
        push_pattern(&mut v, "list.*workflows", IntentType::ListWorkflows);
        push_pattern(&mut v, "get.*workflow", IntentType::GetWorkflow);
        push_pattern(&mut v, "health", IntentType::SystemHealth);
        push_pattern(&mut v, "status", IntentType::SystemHealth);
        push_pattern(&mut v, "metrics", IntentType::GetMetrics);
        push_pattern(&mut v, "stats", IntentType::GetMetrics);
        push_pattern(&mut v, "config.*", IntentType::ConfigureSystem);
        push_pattern(&mut v, "settings.*", IntentType::ConfigureSystem);
        assert(patterns_view(v@) =~= default_patterns());
        IntentClassifier { intents: sort_longer_first(v) }
    }

    /// The intents of all patterns, in the order they are tried.
    pub fn get_all_intents(&self) -> (r: Vec<IntentType>)
        ensures
            r@ == intents_of(self.patterns()),
    {
        let n = self.intents.len();
        let mut out: Vec<IntentType> = Vec::new();
        let mut i: usize = 0;
        while i < n
            invariant
                n == self.intents@.len(),
                i <= n,
                out@ == intents_of(self.patterns().subrange(0, i as int)),
            decreases n - i,
        {
            out.push(self.intents[i].1);
            assert(out@ =~= intents_of(self.patterns().subrange(0, i + 1)));
            i = i + 1;
        }
        assert(self.patterns().subrange(0, n as int) =~= self.patterns());
        out
    }

    /// The intents of the patterns that match the lowercased text, in the
    /// order the patterns are tried.
    pub fn matching_intents(&self, text: &str) -> (r: Vec<IntentType>)
        ensures
            r@ == intents_of(matching(self.patterns(), lowercase_of(text@))),
    {
        let lower = to_lowercase(text);
        let n = self.intents.len();
        let mut out: Vec<IntentType> = Vec::new();
        let mut i: usize = 0;
        while i < n
            invariant
                n == self.intents@.len(),
                i <= n,
                lower@ == lowercase_of(text@),
                out@ == intents_of(matching(self.patterns().subrange(0, i as int), lower@)),
            decreases n - i,
        {
            let ghost before = self.patterns().subrange(0, i as int);
            let ghost after = self.patterns().subrange(0, i + 1);
            proof {
                assert(after.drop_last() =~= before);
                reveal_with_fuel(Seq::filter, 1);
            }
            if pattern_matches(self.intents[i].0.as_str(), lower.as_str()) {
                out.push(self.intents[i].1);
                assert(out@ =~= intents_of(matching(after, lower@)));
            } else {
                assert(out@ =~= intents_of(matching(after, lower@)));
            }
            i = i + 1;
        }
        assert(self.patterns().subrange(0, n as int) =~= self.patterns());
        out
    }

    /// The intent of the first pattern that matches the lowercased text, or
    /// `Unknown` when none does.
    pub fn classify_type(&self, text: &str) -> (r: IntentType)
        ensures
            ({
                let m = intents_of(matching(self.patterns(), lowercase_of(text@)));
                r == (if m.len() > 0 { m[0] } else { IntentType::Unknown })
            }),
    {
        let m = self.matching_intents(text);
        if m.len() > 0 {
            m[0]
        } else {
            IntentType::Unknown
        }
    }
}

impl Default for IntentClassifier {
    fn default() -> (r: Self)
        ensures
            sorted_by(r.patterns(), longer_first()),
            same_runs(r.patterns(), default_patterns(), longer_first()),
    {
        Self::new()
    }
}

} // verus!
