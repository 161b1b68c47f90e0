//! Entity extraction: the spans of a sentence that name a priority, a
//! duration, a location, an agent type, a capability, a status or an id.

use vstd::prelude::*;
use crate::sorting::{lemma_insert_keeps_runs, same_runs, sorted_by};

verus! {

/// Entity types.
#[derive(Debug, Clone, PartialEq, Eq)]
pub enum EntityType {
    /// A task id.
    TaskId,
    /// An agent id.
    AgentId,
    /// A workflow id.
    WorkflowId,
    /// A priority.
    Priority,
    /// A duration.
    Duration,
    /// A location.
    Location,
    /// An agent type.
    AgentType,
    /// A capability.
    Capability,
    /// A timestamp.
    Timestamp,
    /// A status.
    Status,
    /// Any other kind, by name.
    Custom(String),
}

/// An entity found in a text: its type, the matched text and its byte
/// range `[start, end)`.
#[derive(Debug, Clone)]
pub struct EntityMatch {
    /// The type of the entity.
    pub entity_type: EntityType,
    /// The matched text.
    pub value: String,
    /// Byte offset where the match starts.
    pub start: usize,
    /// Byte offset where the match ends.
    pub end: usize,
}

/// An entity type with a custom name taken by its characters.
pub enum TypeView {
    /// A built-in type.
    Builtin(EntityType),
    /// A custom type, by name.
    Custom(Seq<char>),
}

/// The view of an entity type.
pub open spec fn type_view(t: EntityType) -> TypeView {
    match t {
        EntityType::Custom(s) => TypeView::Custom(s@),
        _ => TypeView::Builtin(t),
    }
}

/// An entity as type, text, start and end.
pub type SpanView = (TypeView, Seq<char>, usize, usize);

/// The view of an entity.
pub open spec fn span_view(m: EntityMatch) -> SpanView {
    (type_view(m.entity_type), m.value@, m.start, m.end)
}

/// The views of a list of entities.
pub open spec fn spans_view(v: Seq<EntityMatch>) -> Seq<SpanView> {
    v.map_values(|m: EntityMatch| span_view(m))
}

/// The matches of the regular expression `pattern` (syntax of the `regex`
/// crate) in `text`, leftmost first and non-overlapping, as byte range and
/// matched text; none when the pattern does not compile.
pub uninterp spec fn regex_find_all(pattern: Seq<char>, text: Seq<char>) -> Seq<(usize, usize, Seq<char>)>;

/// Trusted: `regex::Regex::new(pattern)` and then `find_iter(text)`, each
/// match taken as start, end and text; a pattern that does not compile
/// gives no match. The result depends on pattern and text alone; the
/// contract names it.
#[verifier::external_body]
fn find_all(pattern: &str, text: &str) -> (r: Vec<(usize, usize, String)>)
    ensures
        r@.map_values(|m: (usize, usize, String)| (m.0, m.1, m.2@)) == regex_find_all(pattern@, text@),
{
    match regex::Regex::new(pattern) {
        Ok(re) => re.find_iter(text).map(|m| (m.start(), m.end(), m.as_str().to_string())).collect(),
        Err(_) => Vec::new(),
    }
}

/// A pattern and the type of entity it finds.
pub type EntityPattern = (Seq<char>, EntityType);

/// The built-in patterns, in the order they are tried.
pub open spec fn default_entity_patterns() -> Seq<EntityPattern> {
    seq![
        ("(high|urgent|critical)\\s*priority"@, EntityType::Priority),
        ("priority\\s*(\\d+)"@, EntityType::Priority),
        ("(low|medium|normal)\\s*priority"@, EntityType::Priority),
        ("(\\d+)\\s*(second|minute|hour|day)s?"@, EntityType::Duration),
        ("(\\d+)\\s*(s|m|h|d)\\b"@, EntityType::Duration),
        ("for\\s+(\\d+)\\s*(second|minute|hour|day)s?"@, EntityType::Duration),
        ("(at|in|near)\\s+(\\w[\\w\\s]+)"@, EntityType::Location),
        ("location[:\\s]+(\\w[\\w\\s]+)"@, EntityType::Location),
        ("(zone|area|region)\\s*(\\w+)"@, EntityType::Location),
        ("(drone|robot|vehicle|agent)\\s*(\\w+)"@, EntityType::AgentType),
        ("type[:\\s]+(\\w+)"@, EntityType::AgentType),
        ("(with|having|capable)\\s*of\\s+(\\w+)"@, EntityType::Capability),
        ("(needs|requires)\\s+(\\w+)"@, EntityType::Capability),
        ("(pending|running|completed|failed|cancelled)"@, EntityType::Status),
        ("status[:\\s]+(\\w+)"@, EntityType::Status),
        ("[a-f0-9]{8}-[a-f0-9]{4}-[a-f0-9]{4}-[a-f0-9]{4}-[a-f0-9]{12}"@, EntityType::TaskId),
    ]
}

/// The characters of each pattern, with its entity type.
pub open spec fn entity_patterns_view(v: Seq<(String, EntityType)>) -> Seq<EntityPattern> {
    v.map_values(|e: (String, EntityType)| (e.0@, e.1))
}

/// All matches of all patterns, pattern by pattern, each in text order.
pub open spec fn raw_matches(ps: Seq<EntityPattern>, text: Seq<char>) -> Seq<SpanView>
    decreases ps.len(),
{
    if ps.len() == 0 {
        Seq::empty()
    } else {
        raw_matches(ps.drop_last(), text) + regex_find_all(ps.last().0, text).map_values(
            |m: (usize, usize, Seq<char>)| (type_view(ps.last().1), m.2, m.0, m.1),
        )
    }
}

/// Orders entities by start offset.
pub open spec fn by_start() -> spec_fn(SpanView) -> int {
    |e: SpanView| e.2 as int
}

/// Whether two entities cover the same byte range.
pub open spec fn same_range(a: SpanView, b: SpanView) -> bool {
    a.2 == b.2 && a.3 == b.3
}

/// `s` without each entity that covers the same range as the last entity
/// kept before it.
pub open spec fn dedup_ranges(s: Seq<SpanView>) -> Seq<SpanView>
    decreases s.len(),
{
    if s.len() == 0 {
        s
    } else {
        let d = dedup_ranges(s.drop_last());
        if d.len() > 0 && same_range(d.last(), s.last()) {
            d
        } else {
            d.push(s.last())
        }
    }
}

/// The entities found in `text` with the patterns `ps`: all matches,
/// stably ordered by start offset, without repeats of a range.
pub open spec fn extraction(ps: Seq<EntityPattern>, text: Seq<char>, result: Seq<SpanView>) -> bool {
    exists|sorted: Seq<SpanView>|
        sorted_by(sorted, by_start()) && same_runs(sorted, raw_matches(ps, text), by_start())
            && result == dedup_ranges(sorted)
}

/// Whether an entity type is one of the built-in ones.
pub open spec fn is_builtin(t: EntityType) -> bool {
    !(t is Custom)
}

fn copy_builtin(t: &EntityType) -> (r: EntityType)
    requires
        is_builtin(*t),
    ensures
        r == *t,
{
    match t {
        EntityType::TaskId => EntityType::TaskId,
        EntityType::AgentId => EntityType::AgentId,
        EntityType::WorkflowId => EntityType::WorkflowId,
        EntityType::Priority => EntityType::Priority,
        EntityType::Duration => EntityType::Duration,
        EntityType::Location => EntityType::Location,
        EntityType::AgentType => EntityType::AgentType,
        EntityType::Capability => EntityType::Capability,
        EntityType::Timestamp => EntityType::Timestamp,
        EntityType::Status => EntityType::Status,
        EntityType::Custom(_) => EntityType::Status,
    }
}

fn copy_type(t: &EntityType) -> (r: EntityType)
    ensures
        type_view(r) == type_view(*t),
{
    match t {
        EntityType::Custom(s) => EntityType::Custom(s.clone()),
        _ => copy_builtin(t),
    }
}

/// Whether two entity types are the same (custom ones by name).
pub fn same_type(a: &EntityType, b: &EntityType) -> (r: bool)
    ensures
        r == (type_view(*a) == type_view(*b)),
{
    match (a, b) {
        (EntityType::Custom(x), EntityType::Custom(y)) => crate::text::str_eq(x.as_str(), y.as_str()),
        (EntityType::Custom(_), _) => false,
        (_, EntityType::Custom(_)) => false,
        _ => builtin_index(a) == builtin_index(b),
    }
}

/// Position of a built-in entity type in the list of types.
pub open spec fn builtin_rank(t: EntityType) -> nat {
    match t {
        EntityType::TaskId => 0,
        EntityType::AgentId => 1,
        EntityType::WorkflowId => 2,
        EntityType::Priority => 3,
        EntityType::Duration => 4,
        EntityType::Location => 5,
        EntityType::AgentType => 6,
        EntityType::Capability => 7,
        EntityType::Timestamp => 8,
        EntityType::Status => 9,
        EntityType::Custom(_) => 10,
    }
}

fn builtin_index(t: &EntityType) -> (r: u8)
    ensures
        r == builtin_rank(*t),
{
    match t {
        EntityType::TaskId => 0,
        EntityType::AgentId => 1,
        EntityType::WorkflowId => 2,
        EntityType::Priority => 3,
        EntityType::Duration => 4,
        EntityType::Location => 5,
        EntityType::AgentType => 6,
        EntityType::Capability => 7,
        EntityType::Timestamp => 8,
        EntityType::Status => 9,
        EntityType::Custom(_) => 10,
    }
}

fn copy_match(m: &EntityMatch) -> (r: EntityMatch)
    ensures
        span_view(r) == span_view(*m),
{
    EntityMatch { entity_type: copy_type(&m.entity_type), value: m.value.clone(), start: m.start, end: m.end }
}

fn push_entity_pattern(v: &mut Vec<(String, EntityType)>, pattern: &str, t: EntityType)
    ensures
        entity_patterns_view(final(v)@) == entity_patterns_view(old(v)@).push((pattern@, t)),
{
    v.push((String::from_str(pattern), t));
    assert(entity_patterns_view(v@) =~= entity_patterns_view(old(v)@).push((pattern@, t)));
}

/// Stable sort by start offset.
fn sort_by_start(v: Vec<EntityMatch>) -> (r: Vec<EntityMatch>)
    ensures
        sorted_by(spans_view(r@), by_start()),
        same_runs(spans_view(r@), spans_view(v@), by_start()),
{
    let n = v.len();
    let mut out: Vec<EntityMatch> = Vec::new();
    let mut i: usize = 0;
    let ghost key = by_start();
    assert(spans_view(out@) =~= spans_view(v@.subrange(0, 0)));
    while i < n
        invariant
            n == v@.len(),
            i <= n,
            key == by_start(),
            sorted_by(spans_view(out@), key),
            same_runs(spans_view(out@), spans_view(v@.subrange(0, i as int)), key),
            out@.len() == i,
        decreases n - i,
    {
        let start = v[i].start;
        let m = out.len();
        let mut p: usize = 0;
        while p < m && out[p].start <= start
            invariant
                m == out@.len(),
                p <= m,
                i < n,
                n == v@.len(),
                start == v@[i as int].start,
                forall|j: int| 0 <= j < p ==> out@[j].start <= start,
            decreases m - p,
        {
            p = p + 1;
        }
        let ghost ov = spans_view(out@);
        let ghost x = span_view(v@[i as int]);
        proof {
            assert forall|j: int| p <= j < ov.len() implies key(#[trigger] ov[j]) != key(x) by {
                assert(out@[p as int].start > start);
                assert(ov[p as int] == span_view(out@[p as int]));
                if j > p {
                    assert(key(ov[p as int]) <= key(ov[j]));
                }
            }
            lemma_insert_keeps_runs(ov, spans_view(v@.subrange(0, i as int)), x, p as int, key);
            assert(spans_view(v@.subrange(0, i + 1)) =~= spans_view(v@.subrange(0, i as int)).push(x));
        }
        let e = copy_match(&v[i]);
        out.insert(p, e);
        proof {
            assert(spans_view(out@) =~= ov.insert(p as int, x));
            assert forall|a: int, b: int| 0 <= a < b < spans_view(out@).len()
                implies key(#[trigger] spans_view(out@)[a]) <= key(#[trigger] spans_view(out@)[b]) by {
                let w = spans_view(out@);
                if a < p && b < p {
                    assert(w[a] == ov[a] && w[b] == ov[b]);
                } else if a < p && b == p {
                    assert(w[a] == ov[a]);
                    if a + 1 < p {
                        assert(key(ov[a]) <= key(ov[p - 1]));
                    }
                    assert(out@[p as int - 1].start <= start) by {
                        assert(ov[p - 1] == span_view(out@[p as int - 1]));
                    }
                } else if a < p {
                    assert(w[a] == ov[a] && w[b] == ov[b - 1]);
                } else if a == p {
                    assert(w[b] == ov[b - 1]);
                    assert(ov[p as int] == span_view(out@[p as int + 1]));
                    if b - 1 > p {
                        assert(key(ov[p as int]) <= key(ov[b - 1]));
                    }
                } else {
                    assert(w[a] == ov[a - 1] && w[b] == ov[b - 1]);
                }
            }
        }
        i = i + 1;
    }
    assert(v@.subrange(0, n as int) =~= v@);
    out
}

/// Entity extractor.
pub struct EntityExtractor {
    patterns: Vec<(String, EntityType)>,
}

impl EntityExtractor {
    /// The patterns with their entity types, in the order they are tried.
    pub closed spec fn patterns(&self) -> Seq<EntityPattern> {
        entity_patterns_view(self.patterns@)
    }

    /// An extractor over the built-in patterns.
    pub fn new() -> (r: Self)
        ensures
            r.patterns() == default_entity_patterns(),
    {
        let mut v: Vec<(String, EntityType)> = Vec::new();
        push_entity_pattern(&mut v, "(high|urgent|critical)\\s*priority", EntityType::Priority);
        push_entity_pattern(&mut v, "priority\\s*(\\d+)", EntityType::Priority);
        push_entity_pattern(&mut v, "(low|medium|normal)\\s*priority", EntityType::Priority);
        push_entity_pattern(&mut v, "(\\d+)\\s*(second|minute|hour|day)s?", EntityType::Duration);
        push_entity_pattern(&mut v, "(\\d+)\\s*(s|m|h|d)\\b", EntityType::Duration);
        push_entity_pattern(&mut v, "for\\s+(\\d+)\\s*(second|minute|hour|day)s?", EntityType::Duration);
        push_entity_pattern(&mut v, "(at|in|near)\\s+(\\w[\\w\\s]+)", EntityType::Location);
        push_entity_pattern(&mut v, "location[:\\s]+(\\w[\\w\\s]+)", EntityType::Location);
        push_entity_pattern(&mut v, "(zone|area|region)\\s*(\\w+)", EntityType::Location);
        push_entity_pattern(&mut v, "(drone|robot|vehicle|agent)\\s*(\\w+)", EntityType::AgentType);
        push_entity_pattern(&mut v, "type[:\\s]+(\\w+)", EntityType::AgentType);
        push_entity_pattern(&mut v, "(with|having|capable)\\s*of\\s+(\\w+)", EntityType::Capability);
        push_entity_pattern(&mut v, "(needs|requires)\\s+(\\w+)", EntityType::Capability);
        push_entity_pattern(&mut v, "(pending|running|completed|failed|cancelled)", EntityType::Status);
        push_entity_pattern(&mut v, "status[:\\s]+(\\w+)", EntityType::Status);
        push_entity_pattern(
            &mut v,
            "[a-f0-9]{8}-[a-f0-9]{4}-[a-f0-9]{4}-[a-f0-9]{4}-[a-f0-9]{12}",
            EntityType::TaskId,
        );
        assert(entity_patterns_view(v@) =~= default_entity_patterns());
        EntityExtractor { patterns: v }
    }

    /// All matches of all patterns, pattern by pattern.
    fn collect_matches(&self, text: &str) -> (r: Vec<EntityMatch>)
        ensures
            spans_view(r@) == raw_matches(self.patterns(), text@),
    {
        let n = self.patterns.len();
        let mut out: Vec<EntityMatch> = Vec::new();
        let mut i: usize = 0;
        assert(self.patterns().subrange(0, 0) =~= Seq::<EntityPattern>::empty());
        assert(spans_view(out@) =~= Seq::<SpanView>::empty());
        while i < n
            invariant
                n == self.patterns@.len(),
                i <= n,
                spans_view(out@) == raw_matches(self.patterns().subrange(0, i as int), text@),
            decreases n - i,
        {
            let ghost before = spans_view(out@);
            let ghost pat = self.patterns()[i as int];
            let found = find_all(self.patterns[i].0.as_str(), text);
            let ghost fv = found@.map_values(|m: (usize, usize, String)| (m.0, m.1, m.2@));
            let ghost mapped = fv.map_values(|m: (usize, usize, Seq<char>)| (type_view(pat.1), m.2, m.0, m.1));
            let k = found.len();
            let mut j: usize = 0;
            while j < k
                invariant
                    k == found@.len(),
                    j <= k,
                    i < n,
                    n == self.patterns@.len(),
                    pat == self.patterns()[i as int],
                    fv == found@.map_values(|m: (usize, usize, String)| (m.0, m.1, m.2@)),
                    mapped == fv.map_values(|m: (usize, usize, Seq<char>)| (type_view(pat.1), m.2, m.0, m.1)),
                    spans_view(out@) == before + mapped.subrange(0, j as int),
                decreases k - j,
            {
                let t = copy_type(&self.patterns[i].1);
                let e = EntityMatch {
                    entity_type: t,
                    value: found[j].2.clone(),
                    start: found[j].0,
                    end: found[j].1,
                };
                let ghost prev = out@;
                proof {
                    assert(fv[j as int] == (found@[j as int].0, found@[j as int].1, found@[j as int].2@));
                    assert(pat.1 == self.patterns@[i as int].1);
                    assert(span_view(e) == mapped[j as int]);
                }
                out.push(e);
                proof {
                    assert(spans_view(out@) =~= spans_view(prev).push(span_view(e)));
                    assert(mapped.subrange(0, j + 1) =~= mapped.subrange(0, j as int).push(mapped[j as int]));
                    assert(spans_view(out@) =~= before + mapped.subrange(0, j + 1));
                }
                j = j + 1;
            }
            proof {
                let sub = self.patterns().subrange(0, i + 1);
                assert(sub.drop_last() =~= self.patterns().subrange(0, i as int));
                assert(sub.last() == pat);
                assert(mapped.subrange(0, k as int) =~= mapped);
            }
            i = i + 1;
        }
        assert(self.patterns().subrange(0, n as int) =~= self.patterns());
        out
    }

    /// Extracts the entities of a text: every match of every pattern,
    /// ordered by start offset (matches that start together keep the order
    /// of their patterns), keeping only the first of consecutive matches
    /// that cover the same range.
    pub fn extract(&self, text: &str) -> (r: Vec<EntityMatch>)
        ensures
            extraction(self.patterns(), text@, spans_view(r@)),
    {
        let raw = self.collect_matches(text);
        let sorted = sort_by_start(raw);
        let n = sorted.len();
        let mut out: Vec<EntityMatch> = Vec::new();
        let mut i: usize = 0;
        let ghost sv = spans_view(sorted@);
        assert(spans_view(out@) =~= dedup_ranges(sv.subrange(0, 0)));
        while i < n
            invariant
                n == sorted@.len(),
                i <= n,
                sv == spans_view(sorted@),
                spans_view(out@) == dedup_ranges(sv.subrange(0, i as int)),
            decreases n - i,
        {
            proof {
                assert(sv.subrange(0, i + 1).drop_last() =~= sv.subrange(0, i as int));
            }
            let m = out.len();
            let keep = if m == 0 {
                true
            } else {
                !(out[m - 1].start == sorted[i].start && out[m - 1].end == sorted[i].end)
            };
            if keep {
                out.push(copy_match(&sorted[i]));
                assert(spans_view(out@) =~= dedup_ranges(sv.subrange(0, i + 1)));
            } else {
                assert(spans_view(out@) =~= dedup_ranges(sv.subrange(0, i + 1)));
            }
            i = i + 1;
        }
        assert(sv.subrange(0, n as int) =~= sv);
        out
    }

    /// The entities of a given type, in the order `extract` returns them.
    pub fn extract_type(&self, text: &str, entity_type: &EntityType) -> (r: Vec<EntityMatch>)
        ensures
            exists|all: Seq<SpanView>|
                extraction(self.patterns(), text@, all)
                    && spans_view(r@) == all.filter(|e: SpanView| e.0 == type_view(*entity_type)),
    {
        let all = self.extract(text);
        let n = all.len();
        let mut out: Vec<EntityMatch> = Vec::new();
        let mut i: usize = 0;
        let ghost av = spans_view(all@);
        let ghost p = |e: SpanView| e.0 == type_view(*entity_type);
        while i < n
            invariant
                n == all@.len(),
                i <= n,
                av == spans_view(all@),
                p == (|e: SpanView| e.0 == type_view(*entity_type)),
                spans_view(out@) == av.subrange(0, i as int).filter(p),
            decreases n - i,
        {
            proof {
                assert(av.subrange(0, i + 1).drop_last() =~= av.subrange(0, i as int));
                reveal_with_fuel(Seq::filter, 1);
            }
            if same_type(&all[i].entity_type, entity_type) {
                out.push(copy_match(&all[i]));
                assert(spans_view(out@) =~= av.subrange(0, i + 1).filter(p));
            } else {
                assert(spans_view(out@) =~= av.subrange(0, i + 1).filter(p));
            }
            i = i + 1;
        }
        assert(av.subrange(0, n as int) =~= av);
        out
    }

    /// The first entity of a given type, if any.
    pub fn extract_first(&self, text: &str, entity_type: &EntityType) -> (r: Option<EntityMatch>)
        ensures
            exists|all: Seq<SpanView>|
                extraction(self.patterns(), text@, all) && ({
                    let f = all.filter(|e: SpanView| e.0 == type_view(*entity_type));
                    match r {
                        Some(m) => f.len() > 0 && span_view(m) == f[0],
                        None => f.len() == 0,
                    }
                }),
    {
        let v = self.extract_type(text, entity_type);
        if v.len() > 0 {
            Some(copy_match(&v[0]))
        } else {
            None
        }
    }
}

impl Default for EntityExtractor {
    fn default() -> (r: Self)
        ensures
            r.patterns() == default_entity_patterns(),
    {
        Self::new()
    }
}

} // verus!
