//! Metadata queries: conditions on fields of entries, and their execution
//! over the storage.

use vstd::prelude::*;
use crate::json::{
    json_as_text, json_equal, json_from_strings, json_member, json_member_or_null, json_string_array, json_text,
    json_values_equal, string_views,
};
use crate::metadata_management::error::MetadataError;
use crate::metadata_management::index::MetadataIndex;
use crate::metadata_management::model::{Metadata, MetadataType, copy_type, type_view};
use crate::metadata_management::storage::{MetadataStorage, present_entries};
use crate::text::{has_substring, str_contains, str_eq};

verus! {

/// Comparison operator of a query condition.
#[derive(Debug, Clone, Copy, PartialEq, Eq, Structural)]
pub enum QueryOperator {
    /// Equality.
    Eq,
    /// Inequality.
    Ne,
    /// Greater than.
    Gt,
    /// Greater than or equal.
    Ge,
    /// Less than.
    Lt,
    /// Less than or equal.
    Le,
    /// Contains (for strings).
    Contains,
    /// In list.
    In,
    /// Matches regex.
    Regex,
}

/// Query condition.
#[derive(Debug, Clone)]
pub struct QueryCondition {
    /// Field path (e.g., "tags", "content.name").
    pub field: String,
    /// Operator.
    pub operator: QueryOperator,
    /// Value (JSON).
    pub value: serde_json::Value,
}

/// Metadata query.
#[derive(Debug, Clone)]
pub struct MetadataQuery {
    /// Optional metadata type filter.
    pub metadata_type: Option<MetadataType>,
    /// Optional entity ID filter.
    pub entity_id: Option<String>,
    /// List of conditions (AND).
    pub conditions: Vec<QueryCondition>,
    /// Limit number of results.
    pub limit: Option<usize>,
    /// Offset for pagination.
    pub offset: Option<usize>,
    /// Sort by field (not applied).
    pub sort_by: Option<String>,
}

impl MetadataQuery {
    /// Create a new empty query.
    pub fn new() -> (r: Self)
        ensures
            r.metadata_type is None,
            r.entity_id is None,
            r.conditions@.len() == 0,
            r.limit is None,
            r.offset is None,
            r.sort_by is None,
    {
        MetadataQuery { metadata_type: None, entity_id: None, conditions: Vec::new(), limit: None, offset: None, sort_by: None }
    }

    /// Add a condition.
    pub fn with_condition(self, condition: QueryCondition) -> (r: Self)
        ensures
            r.conditions@ == self.conditions@.push(condition),
            r.metadata_type == self.metadata_type,
            r.entity_id == self.entity_id,
            r.limit == self.limit,
            r.offset == self.offset,
            r.sort_by == self.sort_by,
    {
        let mut q = self;
        q.conditions.push(condition);
        q
    }

    /// Set metadata type filter.
    pub fn with_type(self, metadata_type: MetadataType) -> (r: Self)
        ensures
            r == (MetadataQuery { metadata_type: Some(metadata_type), ..self }),
    {
        MetadataQuery { metadata_type: Some(metadata_type), ..self }
    }

    /// Set entity ID filter.
    pub fn with_entity_id(self, entity_id: String) -> (r: Self)
        ensures
            r == (MetadataQuery { entity_id: Some(entity_id), ..self }),
    {
        MetadataQuery { entity_id: Some(entity_id), ..self }
    }
}

impl Default for MetadataQuery {
    fn default() -> (r: Self)
        ensures
            r.metadata_type is None,
            r.entity_id is None,
            r.conditions@.len() == 0,
            r.limit is None,
            r.offset is None,
            r.sort_by is None,
    {
        MetadataQuery::new()
    }
}

/// The value of a field of an entry: its tags as a JSON array for
/// "tags", else the member of its content under that name, or null.
pub open spec fn field_value(m: Metadata, field: Seq<char>) -> serde_json::Value {
    if field == "tags"@ {
        json_string_array(string_views(m.tags@))
    } else {
        json_member_or_null(m.content, field)
    }
}

/// The entry carries the tag given as a JSON string.
pub open spec fn has_tag(m: Metadata, value: serde_json::Value) -> bool {
    match json_text(value) {
        Some(t) => exists|k: int| 0 <= k < m.tags@.len() && (#[trigger] m.tags@[k])@ == t,
        None => false,
    }
}

/// An entry meets a condition. Equality on "tags" asks whether the
/// entry's tags include the given string. Otherwise equality, inequality
/// and string containment are evaluated on the field's value (for "tags",
/// the JSON array of the tags); every other operator fails.
pub open spec fn condition_holds(m: Metadata, c: QueryCondition) -> bool {
    let v = field_value(m, c.field@);
    match c.operator {
        QueryOperator::Eq => if c.field@ == "tags"@ { has_tag(m, c.value) } else { json_equal(v, c.value) },
        QueryOperator::Ne => !json_equal(v, c.value),
        QueryOperator::Contains => match json_text(c.value) {
            Some(s) => match json_text(v) {
                Some(f) => has_substring(f, s),
                None => false,
            },
            None => false,
        },
        _ => false,
    }
}

/// An entry meets a query's entity filter and all its conditions.
pub open spec fn query_matches(q: MetadataQuery) -> spec_fn(Metadata) -> bool {
    |m: Metadata|
        (match q.entity_id {
            Some(e) => m.entity_id@ == e@,
            None => true,
        }) && forall|i: int| 0 <= i < q.conditions@.len() ==> condition_holds(m, #[trigger] q.conditions@[i])
}

/// What is left of `s` after skipping `offset` entries and keeping at
/// most `limit`.
pub open spec fn skip_take<A>(s: Seq<A>, offset: nat, limit: nat) -> Seq<A> {
    let start = if offset < s.len() { offset } else { s.len() };
    let end = if start + limit < s.len() { start + limit } else { s.len() };
    s.subrange(start as int, end as int)
}

fn extract_field(m: &Metadata, field: &str) -> (r: serde_json::Value)
    ensures
        r == field_value(*m, field@),
{
    proof { reveal_strlit("tags"); }
    if str_eq(field, "tags") {
        json_from_strings(&m.tags)
    } else {
        json_member(&m.content, field)
    }
}

fn tag_listed(m: &Metadata, value: &serde_json::Value) -> (r: bool)
    ensures
        r == has_tag(*m, *value),
{
    let t = match json_as_text(value) {
        Some(t) => t,
        None => {
            return false;
        },
    };
    let n = m.tags.len();
    let mut k: usize = 0;
    while k < n
        invariant
            n == m.tags@.len(),
            k <= n,
            json_text(*value) == Some(t@),
            forall|q: int| 0 <= q < k ==> m.tags@[q]@ != t@,
        decreases n - k,
    {
        if str_eq(m.tags[k].as_str(), t.as_str()) {
            return true;
        }
        k = k + 1;
    }
    false
}

fn evaluate_condition(m: &Metadata, c: &QueryCondition) -> (r: bool)
    ensures
        r == condition_holds(*m, *c),
{
    proof { reveal_strlit("tags"); }
    let on_tags = str_eq(c.field.as_str(), "tags");
    let v = extract_field(m, c.field.as_str());
    match c.operator {
        QueryOperator::Eq => if on_tags { tag_listed(m, &c.value) } else { json_values_equal(&v, &c.value) },
        QueryOperator::Ne => !json_values_equal(&v, &c.value),
        QueryOperator::Contains => match json_as_text(&c.value) {
            Some(s) => match json_as_text(&v) {
                Some(f) => str_contains(f.as_str(), s.as_str()),
                None => false,
            },
            None => false,
        },
        _ => false,
    }
}

fn evaluate_conditions(m: &Metadata, conditions: &Vec<QueryCondition>) -> (r: bool)
    ensures
        r == forall|i: int| 0 <= i < conditions@.len() ==> condition_holds(*m, #[trigger] conditions@[i]),
{
    let n = conditions.len();
    let mut i: usize = 0;
    while i < n
        invariant
            n == conditions@.len(),
            i <= n,
            forall|j: int| 0 <= j < i ==> condition_holds(*m, #[trigger] conditions@[j]),
        decreases n - i,
    {
        if !evaluate_condition(m, &conditions[i]) {
            return false;
        }
        i = i + 1;
    }
    true
}

/// Query executor over a storage and an index.
pub struct MetadataQueryExecutor {
    storage: MetadataStorage,
    index: MetadataIndex,
}

impl MetadataQueryExecutor {
    /// The storage the executor reads.
    pub closed spec fn storage_view(&self) -> MetadataStorage {
        self.storage
    }

    /// Create a new query executor.
    pub fn new(storage: MetadataStorage, index: MetadataIndex) -> (r: Self)
        requires
            storage.backend_view().wf(),
        ensures
            r.storage_view() == storage,
    {
        MetadataQueryExecutor { storage, index }
    }

    /// Execute a query: without a metadata kind nothing is returned;
    /// otherwise the stored entries of that kind that meet the query's
    /// entity filter and conditions, in the order they were listed, of
    /// which `offset` are skipped and at most `limit` kept.
    pub fn execute(&self, query: &MetadataQuery) -> (r: Result<Vec<Metadata>, MetadataError>)
        requires
            self.storage_view().backend_view().wf(),
        ensures
            query.metadata_type is None ==> (r matches Ok(v) && v@.len() == 0),
            query.metadata_type matches Some(t) ==> {
                let b = self.storage_view().backend_view();
                let ids = if b.type_index().contains_key(type_view(t)) {
                    b.type_index()[type_view(t)]
                } else {
                    Seq::empty()
                };
                r matches Ok(v) && v@ == skip_take(
                    present_entries(b.entries(), ids).filter(query_matches(*query)),
                    match query.offset {
                        Some(o) => o as nat,
                        None => 0,
                    },
                    match query.limit {
                        Some(l) => l as nat,
                        None => usize::MAX as nat,
                    },
                )
            },
    {
        let candidates = match &query.metadata_type {
            None => {
                return Ok(Vec::new());
            },
            Some(t) => match self.storage.list_by_type(copy_type(t)) {
                Ok(v) => v,
                Err(e) => {
                    return Err(e);
                },
            },
        };
        let ghost p = query_matches(*query);
        let mut results: Vec<Metadata> = Vec::new();
        let n = candidates.len();
        let mut i: usize = 0;
        assert(candidates@.subrange(0, 0).filter(p) =~= Seq::<Metadata>::empty()) by {
            reveal_with_fuel(Seq::filter, 1);
        }
        let mut rest = candidates;
        let ghost all = rest@;
        while i < n
            invariant
                n == all.len(),
                i <= n,
                rest@ == all.subrange(i as int, n as int),
                p == query_matches(*query),
                results@ == all.subrange(0, i as int).filter(p),
            decreases n - i,
        {
            let m = rest.remove(0);
            let entity_ok = match &query.entity_id {
                Some(e) => str_eq(m.entity_id.as_str(), e.as_str()),
                None => true,
            };
            let keep = entity_ok && evaluate_conditions(&m, &query.conditions);
            proof {
                reveal_with_fuel(Seq::filter, 1);
                let sub = all.subrange(0, i + 1);
                assert(sub.drop_last() =~= all.subrange(0, i as int));
                assert(sub.last() == m);
                assert(keep == p(m));
            }
            if keep {
                results.push(m);
            }
            i = i + 1;
            proof { assert(rest@ =~= all.subrange(i as int, n as int)); }
        }
        assert(all.subrange(0, n as int) =~= all);
        let offset = match query.offset {
            Some(o) => o,
            None => 0,
        };
        let limit = match query.limit {
            Some(l) => l,
            None => usize::MAX,
        };
        let total = results.len();
        let start = if offset < total { offset } else { total };
        let end = if limit < total - start { start + limit } else { total };
        let mut page: Vec<Metadata> = Vec::new();
        let ghost filtered = results@;
        let mut j: usize = 0;
        while results.len() > 0 && j < end
            invariant
                filtered.len() == total,
                start <= end <= total,
                j <= end,
                results@ == filtered.subrange(j as int, total as int),
                j <= start ==> page@.len() == 0,
                j > start ==> page@ == filtered.subrange(start as int, j as int),
            decreases end - j,
        {
            let m = results.remove(0);
            if j >= start {
                page.push(m);
                proof {
                    assert(filtered.subrange(start as int, j + 1) =~= (if j == start { Seq::<Metadata>::empty() } else {
                        filtered.subrange(start as int, j as int)
                    }).push(m));
                }
            }
            j = j + 1;
            proof { assert(results@ =~= filtered.subrange(j as int, total as int)); }
        }
        assert(page@ =~= skip_take(filtered, offset as nat, limit as nat));
        Ok(page)
    }
}

} // verus!
