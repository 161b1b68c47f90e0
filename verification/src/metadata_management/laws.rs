//! Laws of the metadata index and the metadata storage.

use vstd::prelude::*;
use crate::metadata_management::index::{FieldView, Posting, ids_where};
use crate::metadata_management::model::{Metadata, type_view};
use crate::json::{json_equal, json_text};
use crate::metadata_management::query::{
    MetadataQuery, QueryCondition, QueryOperator, condition_holds, field_value, query_matches, skip_take,
};
use crate::text::has_substring;
use crate::metadata_management::storage::{index_add, present_entries};

verus! {

/// An entry indexed with a tag is found by that tag.
pub proof fn law_indexed_tag_is_found(postings: Set<Posting>, tags: Seq<Seq<char>>, k: int, id: u128, extra: Set<Posting>)
    requires
        0 <= k < tags.len(),
    ensures
        ids_where(
            postings + Set::new(|p: Posting| exists|j: int| 0 <= j < tags.len() && p == (FieldView::Tag, tags[j], id)) + extra,
            |p: Posting| p.0 == FieldView::Tag && p.1 == tags[k],
        ).contains(id),
{
    let s = postings + Set::new(|p: Posting| exists|j: int| 0 <= j < tags.len() && p == (FieldView::Tag, tags[j], id)) + extra;
    let p: Posting = (FieldView::Tag, tags[k], id);
    assert(s.contains(p));
}

/// A removed entry is found by no query.
pub proof fn law_removed_entry_is_not_found(postings: Set<Posting>, id: u128, keep: spec_fn(Posting) -> bool)
    ensures
        !ids_where(postings.filter(|p: Posting| p.2 != id), keep).contains(id),
{
}

/// An entry appears among the present entries of a list of ids that
/// holds its id.
proof fn lemma_present_entries_has(entries: Map<u128, Metadata>, ids: Seq<u128>, id: u128)
    requires
        ids.contains(id),
        entries.contains_key(id),
    ensures
        present_entries(entries, ids).contains(entries[id]),
    decreases ids.len(),
{
    let rest = present_entries(entries, ids.drop_last());
    if ids.last() == id {
        assert(present_entries(entries, ids) == rest.push(entries[id]));
        assert(present_entries(entries, ids)[rest.len() as int] == entries[id]);
    } else {
        let j = choose|j: int| 0 <= j < ids.len() && ids[j] == id;
        assert(ids.drop_last()[j] == id);
        lemma_present_entries_has(entries, ids.drop_last(), id);
        let k = choose|k: int| 0 <= k < rest.len() && rest[k] == entries[id];
        if entries.contains_key(ids.last()) {
            assert(present_entries(entries, ids)[k] == entries[id]);
        }
    }
}

/// A stored entry is what a retrieval by its id gives back.
pub proof fn law_stored_entry_is_retrieved(before: Map<u128, Metadata>, m: Metadata, after: Map<u128, Metadata>)
    requires
        after == before.insert(m.id, m),
    ensures
        after.contains_key(m.id),
        after[m.id] == m,
{
}

/// A stored entry is listed under its kind, and under its entity.
pub proof fn law_stored_entry_is_listed(
    entries: Map<u128, Metadata>,
    types: Map<(nat, Seq<char>), Seq<u128>>,
    entities: Map<Seq<char>, Seq<u128>>,
    m: Metadata,
)
    ensures
        present_entries(
            entries.insert(m.id, m),
            index_add(types, type_view(m.metadata_type), m.id)[type_view(m.metadata_type)],
        ).contains(m),
        present_entries(entries.insert(m.id, m), index_add(entities, m.entity_id@, m.id)[m.entity_id@]).contains(m),
{
    let e = entries.insert(m.id, m);
    let t = type_view(m.metadata_type);
    let ti = index_add(types, t, m.id);
    if types.contains_key(t) && !types[t].contains(m.id) {
        assert(ti[t][types[t].len() as int] == m.id);
    } else if !types.contains_key(t) {
        assert(ti[t][0] == m.id);
    }
    lemma_present_entries_has(e, ti[t], m.id);
    let k = m.entity_id@;
    let ei = index_add(entities, k, m.id);
    if entities.contains_key(k) && !entities[k].contains(m.id) {
        assert(ei[k][entities[k].len() as int] == m.id);
    } else if !entities.contains_key(k) {
        assert(ei[k][0] == m.id);
    }
    lemma_present_entries_has(e, ei[k], m.id);
}

/// A deleted entry is not retrieved any more.
pub proof fn law_deleted_entry_is_gone(before: Map<u128, Metadata>, id: u128, after: Map<u128, Metadata>)
    requires
        after == before.remove(id),
    ensures
        !after.contains_key(id),
        forall|k: u128| k != id ==> #[trigger] after.contains_key(k) == before.contains_key(k),
{
}

/// Every entry that a query returns meets the query's entity filter and
/// conditions, and no more than its limit are returned.
pub proof fn law_query_results_match(candidates: Seq<Metadata>, q: MetadataQuery, offset: nat, limit: nat)
    ensures
        skip_take(candidates.filter(query_matches(q)), offset, limit).len() <= limit,
        forall|i: int| 0 <= i < skip_take(candidates.filter(query_matches(q)), offset, limit).len()
            ==> query_matches(q)(#[trigger] skip_take(candidates.filter(query_matches(q)), offset, limit)[i]),
{
    let f = candidates.filter(query_matches(q));
    candidates.filter_lemma(query_matches(q));
    let start = if offset < f.len() { offset } else { f.len() };
    assert forall|i: int| 0 <= i < skip_take(f, offset, limit).len() implies query_matches(q)(
        #[trigger] skip_take(f, offset, limit)[i],
    ) by {
        assert(skip_take(f, offset, limit)[i] == f[start + i]);
    }
}

/// What each operator of a query condition asks of an entry. Equality
/// on any field but "tags" is JSON equality of the field's value with the
/// condition's value, and inequality is its negation, on every field;
/// equality on "tags" asks that the tags include the given string;
/// containment asks that the field's text contain the given text; every
/// other operator fails.
pub proof fn law_condition_meaning(m: Metadata, c: QueryCondition)
    ensures
        c.operator == QueryOperator::Eq && c.field@ != "tags"@ ==> (condition_holds(m, c) <==> json_equal(
            field_value(m, c.field@),
            c.value,
        )),
        c.operator == QueryOperator::Eq && c.field@ == "tags"@ ==> (condition_holds(m, c) <==> (json_text(c.value) matches Some(
            t,
        ) && exists|k: int| 0 <= k < m.tags@.len() && (#[trigger] m.tags@[k])@ == t)),
        c.operator == QueryOperator::Ne ==> (condition_holds(m, c) <==> !json_equal(field_value(m, c.field@), c.value)),
        c.operator == QueryOperator::Contains ==> (condition_holds(m, c) <==> exists|f: Seq<char>, s: Seq<char>|
            json_text(field_value(m, c.field@)) == Some(f) && json_text(c.value) == Some(s) && #[trigger] has_substring(
            f,
            s,
        )),
        c.operator != QueryOperator::Eq && c.operator != QueryOperator::Ne && c.operator != QueryOperator::Contains
            ==> !condition_holds(m, c),
{
}

/// An entry meets a query exactly when it has the query's entity, if one
/// is given, and meets every condition.
pub proof fn law_query_meaning(q: MetadataQuery, m: Metadata)
    ensures
        query_matches(q)(m) <==> ((q.entity_id matches Some(e) ==> m.entity_id@ == e@) && forall|i: int|
            0 <= i < q.conditions@.len() ==> condition_holds(m, #[trigger] q.conditions@[i])),
{
}

/// A page of query results is the window of the matching entries that
/// starts at the offset: its `i`-th entry is the matching entry at
/// position `offset + i`, and it holds `limit` entries, or fewer when
/// the matching entries run out.
pub proof fn law_page_is_window<A>(s: Seq<A>, offset: nat, limit: nat)
    ensures
        offset >= s.len() ==> skip_take(s, offset, limit).len() == 0,
        offset < s.len() ==> skip_take(s, offset, limit).len() == (if offset + limit < s.len() {
            limit as int
        } else {
            s.len() - offset
        }),
        forall|i: int| 0 <= i < skip_take(s, offset, limit).len() ==> #[trigger] skip_take(s, offset, limit)[i] == s[offset
            + i],
{
}

} // verus!
