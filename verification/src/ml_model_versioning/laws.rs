//! Laws of the model registry.

use vstd::prelude::*;
use crate::ml_model_versioning::ab_testing::{Observation, of_experiment};
use crate::ml_model_versioning::manager::binary_matches;
use crate::ml_model_versioning::storage::{
    InMemoryStorage, arranged, is_new_version, query_page, undefault, versions_before_add,
};
use crate::ml_model_versioning::types::{CreateVersionRequest, ModelVersion, SortField, VersionQuery};
use crate::ml_model_versioning::ranking::{metric_bits, sorted_on, sorts_before};
use crate::text::chars_le;
use crate::keyed::map_through;

verus! {

/// The version that a successful creation returns is found under its key
/// afterwards, and its stored binary matches its checksum, so reading it
/// back with checksum validation succeeds.
pub proof fn law_created_version_is_found(s: InMemoryStorage, request: CreateVersionRequest, v: ModelVersion, after: InMemoryStorage)
    requires
        is_new_version(v, request),
        after.tables_view() == s.tables_view().insert(request.model_id@),
        after.versions_view() == versions_before_add(s.versions_view(), request.model_id@, request.set_as_default).insert(
            (request.model_id@, request.version@),
            v,
        ),
        after.binaries_view() == s.binaries_view().insert((request.model_id@, request.version@), request.data@),
    ensures
        after.tables_view().contains(request.model_id@),
        after.versions_view().contains_key((request.model_id@, request.version@)),
        after.versions_view()[(request.model_id@, request.version@)] == v,
        binary_matches(after, request.model_id@, request.version@),
{
}

/// Creating a version that is not the default leaves every other version
/// as it was; creating one that is the default changes only the default
/// flags of the same model's other versions.
pub proof fn law_create_keeps_other_versions(s: InMemoryStorage, request: CreateVersionRequest, v: ModelVersion, after: InMemoryStorage)
    requires
        s.wf(),
        after.versions_view() == versions_before_add(s.versions_view(), request.model_id@, request.set_as_default).insert(
            (request.model_id@, request.version@),
            v,
        ),
    ensures
        forall|k: (Seq<char>, Seq<char>)| #[trigger] s.versions_view().contains_key(k) && k != (request.model_id@, request.version@)
            ==> after.versions_view().contains_key(k) && (after.versions_view()[k] == s.versions_view()[k] || (
            request.set_as_default && k.0 == request.model_id@ && after.versions_view()[k] == ModelVersion {
                is_default: false,
                ..s.versions_view()[k]
            })),
{
    s.lemma_versions_under_own_key();
}

/// After a version is promoted to default, it is its model's only default
/// version.
pub proof fn law_promoted_version_is_sole_default(s: InMemoryStorage, model_id: Seq<char>, version_id: Seq<char>, after: InMemoryStorage)
    requires
        s.wf(),
        s.versions_view().contains_key((model_id, version_id)),
        after.versions_view() == versions_before_add(s.versions_view(), model_id, true).insert(
            (model_id, version_id),
            ModelVersion { is_default: true, ..s.versions_view()[(model_id, version_id)] },
        ),
    ensures
        after.versions_view()[(model_id, version_id)].is_default,
        forall|k: (Seq<char>, Seq<char>)| #[trigger] after.versions_view().contains_key(k) && k.0 == model_id
            && after.versions_view()[k].is_default ==> k == (model_id, version_id),
{
    s.lemma_versions_under_own_key();
    assert forall|k: (Seq<char>, Seq<char>)| #[trigger] after.versions_view().contains_key(k) && k.0 == model_id
        && after.versions_view()[k].is_default implies k == (model_id, version_id) by {
        if k != (model_id, version_id) {
            assert(map_through(s.versions_view(), undefault(model_id))[k] == undefault(model_id)(s.versions_view()[k]));
        }
    }
}

/// A deleted version is gone, with its binary, and nothing else changes.
pub proof fn law_deleted_version_is_gone(s: InMemoryStorage, model_id: Seq<char>, version_id: Seq<char>, after: InMemoryStorage)
    requires
        after.versions_view() == s.versions_view().remove((model_id, version_id)),
        after.binaries_view() == s.binaries_view().remove((model_id, version_id)),
    ensures
        !after.versions_view().contains_key((model_id, version_id)),
        !after.binaries_view().contains_key((model_id, version_id)),
        forall|k: (Seq<char>, Seq<char>)| k != (model_id, version_id) ==> (#[trigger] after.versions_view().contains_key(k)
            == s.versions_view().contains_key(k)),
{
}

/// A query's page holds at most its limit of versions: the ordered
/// versions from position `offset` on.
pub proof fn law_query_page_bounds(s: Seq<ModelVersion>, offset: nat, limit: nat)
    ensures
        query_page(s, offset, limit).len() <= limit,
        forall|i: int| 0 <= i < query_page(s, offset, limit).len() ==> s[offset + i] == #[trigger] query_page(
            s,
            offset,
            limit,
        )[i],
{
}

/// A recorded observation is the latest of its experiment's observations,
/// and the observations of other experiments are unchanged.
pub proof fn law_recorded_observation_is_listed(observations: Seq<Observation>, o: Observation, other: Seq<char>)
    ensures
        observations.push(o).filter(of_experiment(o.experiment_id@)) == observations.filter(of_experiment(o.experiment_id@)).push(o),
        other != o.experiment_id@ ==> observations.push(o).filter(of_experiment(other)) == observations.filter(
            of_experiment(other),
        ),
{
    reveal_with_fuel(Seq::filter, 1);
    assert(observations.push(o).drop_last() =~= observations);
}

/// `a` was created strictly before `b`.
pub open spec fn created_earlier(a: ModelVersion, b: ModelVersion) -> bool {
    a.created_at.secs < b.created_at.secs || (a.created_at.secs == b.created_at.secs && a.created_at.nanos
        < b.created_at.nanos)
}

/// Sorting by creation time puts the earlier version first, and sorting
/// by size the smaller one: never the other way round.
pub proof fn law_time_and_size_orders(a: ModelVersion, b: ModelVersion)
    ensures
        created_earlier(a, b) ==> sorts_before(SortField::CreatedAt, a, b) && !sorts_before(SortField::CreatedAt, b, a),
        a.created_at == b.created_at ==> sorts_before(SortField::CreatedAt, a, b),
        a.size_bytes < b.size_bytes ==> sorts_before(SortField::Size, a, b) && !sorts_before(SortField::Size, b, a),
        a.size_bytes == b.size_bytes ==> sorts_before(SortField::Size, a, b),
{
}

/// A list sorted by creation time (ascending) never has a later version
/// before an earlier one; sorted by size, never a larger before a smaller.
pub proof fn law_sorted_lists_ascend(s: Seq<ModelVersion>)
    ensures
        sorted_on(SortField::CreatedAt, s) ==> forall|i: int, j: int| 0 <= i < j < s.len() ==> !created_earlier(
            #[trigger] s[j],
            #[trigger] s[i],
        ),
        sorted_on(SortField::Size, s) ==> forall|i: int, j: int| 0 <= i < j < s.len() ==> (#[trigger] s[i]).size_bytes
            <= (#[trigger] s[j]).size_bytes,
{
    if sorted_on(SortField::CreatedAt, s) {
        assert forall|i: int, j: int| 0 <= i < j < s.len() implies !created_earlier(#[trigger] s[j], #[trigger] s[i]) by {
            assert(sorts_before(SortField::CreatedAt, s[i], s[j]));
        }
    }
    if sorted_on(SortField::Size, s) {
        assert forall|i: int, j: int| 0 <= i < j < s.len() implies (#[trigger] s[i]).size_bytes
            <= (#[trigger] s[j]).size_bytes by {
            assert(sorts_before(SortField::Size, s[i], s[j]));
        }
    }
}

proof fn lemma_chars_first_difference(x: Seq<char>, y: Seq<char>, d: int)
    requires
        0 <= d < x.len(),
        d < y.len(),
        x.subrange(0, d) == y.subrange(0, d),
        x[d] < y[d],
    ensures
        chars_le(x, y),
        !chars_le(y, x),
    decreases d,
{
    if d > 0 {
        assert(x[0] == x.subrange(0, d)[0]);
        assert(y[0] == y.subrange(0, d)[0]);
        assert(x.drop_first().subrange(0, d - 1) =~= x.subrange(0, d).drop_first());
        assert(y.drop_first().subrange(0, d - 1) =~= y.subrange(0, d).drop_first());
        lemma_chars_first_difference(x.drop_first(), y.drop_first(), d - 1);
    }
}

proof fn lemma_chars_prefix(x: Seq<char>, y: Seq<char>)
    requires
        x.len() < y.len(),
        y.subrange(0, x.len() as int) == x,
    ensures
        chars_le(x, y),
        !chars_le(y, x),
    decreases x.len(),
{
    if x.len() > 0 {
        assert(y[0] == y.subrange(0, x.len() as int)[0]);
        assert(y.drop_first().subrange(0, x.len() - 1) =~= x.drop_first());
        lemma_chars_prefix(x.drop_first(), y.drop_first());
    }
}

/// Sorting by version id follows character order: at the first position
/// where two ids differ, the smaller character comes first, and an id
/// comes before every longer id that it begins.
pub proof fn law_version_id_order(a: ModelVersion, b: ModelVersion, d: int)
    ensures
        0 <= d < a.version@.len() && d < b.version@.len() && a.version@.subrange(0, d) == b.version@.subrange(0, d)
            && a.version@[d] < b.version@[d] ==> sorts_before(SortField::Version, a, b) && !sorts_before(
            SortField::Version,
            b,
            a,
        ),
        a.version@.len() < b.version@.len() && b.version@.subrange(0, a.version@.len() as int) == a.version@
            ==> sorts_before(SortField::Version, a, b) && !sorts_before(SortField::Version, b, a),
{
    if 0 <= d < a.version@.len() && d < b.version@.len() && a.version@.subrange(0, d) == b.version@.subrange(0, d)
        && a.version@[d] < b.version@[d] {
        lemma_chars_first_difference(a.version@, b.version@, d);
    }
    if a.version@.len() < b.version@.len() && b.version@.subrange(0, a.version@.len() as int) == a.version@ {
        lemma_chars_prefix(a.version@, b.version@);
    }
}

/// Sorting by a metric follows the numbers: among non-negative values
/// (sign bit clear) the smaller bit pattern is the smaller number and
/// comes first; among negative values the larger bit pattern is the more
/// negative number and comes first; a negative number other than -0.0
/// comes before every non-negative one; -0.0 and 0.0 tie.
pub proof fn law_metric_order(a: ModelVersion, b: ModelVersion, name: String)
    ensures
        ({
            let x = metric_bits(a.metrics@, name@);
            let y = metric_bits(b.metrics@, name@);
            let f = SortField::Metric(name);
            &&& (x < y && y < 0x8000_0000_0000_0000u64) ==> sorts_before(f, a, b) && !sorts_before(f, b, a)
            &&& (0x8000_0000_0000_0000u64 <= y && y < x) ==> sorts_before(f, a, b) && !sorts_before(f, b, a)
            &&& (0x8000_0000_0000_0000u64 < x && y < 0x8000_0000_0000_0000u64) ==> sorts_before(f, a, b)
                && !sorts_before(f, b, a)
            &&& (x == 0x8000_0000_0000_0000u64 && y == 0) ==> sorts_before(f, a, b) && sorts_before(f, b, a)
        }),
{
}

/// A query sorted by creation time lists earlier versions first, or,
/// when it asks for descending order, later versions first.
pub proof fn law_query_order_by_creation(q: VersionQuery, s: Seq<ModelVersion>)
    requires
        q.sort_by == Some(SortField::CreatedAt),
        arranged(q, s),
    ensures
        !q.sort_desc ==> forall|i: int, j: int| 0 <= i < j < s.len() ==> !created_earlier(#[trigger] s[j], #[trigger] s[i]),
        q.sort_desc ==> forall|i: int, j: int| 0 <= i < j < s.len() ==> !created_earlier(#[trigger] s[i], #[trigger] s[j]),
{
    if q.sort_desc {
        let r = s.reverse();
        assert forall|i: int, j: int| 0 <= i < j < s.len() implies !created_earlier(#[trigger] s[i], #[trigger] s[j]) by {
            let a = s.len() - 1 - j;
            let b = s.len() - 1 - i;
            assert(r[a] == s[j] && r[b] == s[i]);
            assert(sorts_before(SortField::CreatedAt, r[a], r[b]));
        }
    } else {
        assert forall|i: int, j: int| 0 <= i < j < s.len() implies !created_earlier(#[trigger] s[j], #[trigger] s[i]) by {
            assert(sorts_before(SortField::CreatedAt, s[i], s[j]));
        }
    }
}

} // verus!
