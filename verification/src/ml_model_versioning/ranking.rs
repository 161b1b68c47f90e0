//! The orders in which model versions are listed: by creation time, by
//! version id, by size, or by a training metric.

use vstd::prelude::*;
use crate::clock::UtcTimestamp;
use crate::ml_model_versioning::types::{ModelVersion, SortField};
use crate::text::{chars_le, lemma_chars_le_total, lemma_chars_le_transitive, str_eq, str_le};

verus! {

/// `a` is no later than `b`.
pub open spec fn time_le(a: UtcTimestamp, b: UtcTimestamp) -> bool {
    a.secs < b.secs || (a.secs == b.secs && a.nanos <= b.nanos)
}

/// The bit pattern of the metric `name` in a metric table: its first
/// entry under that name, or that of 0.0 when there is none.
pub open spec fn metric_bits(metrics: Seq<(String, u64)>, name: Seq<char>) -> u64
    decreases metrics.len(),
{
    if metrics.len() == 0 {
        0
    } else if metrics[0].0@ == name {
        metrics[0].1
    } else {
        metric_bits(metrics.drop_first(), name)
    }
}

/// The rank of an `f64` given by its bit pattern: ranks follow the
/// numeric order, with -0.0 and 0.0 equal; a NaN ranks beyond the
/// infinity of its sign.
pub open spec fn float_rank(bits: u64) -> int {
    if bits >= 0x8000_0000_0000_0000u64 {
        -((bits - 0x8000_0000_0000_0000u64) as int)
    } else {
        bits as int
    }
}

/// `a` may come before `b` when versions are sorted by `field`.
pub open spec fn sorts_before(field: SortField, a: ModelVersion, b: ModelVersion) -> bool {
    match field {
        SortField::CreatedAt => time_le(a.created_at, b.created_at),
        SortField::Version => chars_le(a.version@, b.version@),
        SortField::Size => a.size_bytes <= b.size_bytes,
        SortField::Metric(name) => float_rank(metric_bits(a.metrics@, name@)) <= float_rank(
            metric_bits(b.metrics@, name@),
        ),
    }
}

/// `s` is in order of `field`.
pub open spec fn sorted_on(field: SortField, s: Seq<ModelVersion>) -> bool {
    forall|i: int, j: int| 0 <= i < j < s.len() ==> sorts_before(field, #[trigger] s[i], #[trigger] s[j])
}

/// The version a reference points to.
pub open spec fn deref_version<'a>() -> spec_fn(&'a ModelVersion) -> ModelVersion {
    |v: &'a ModelVersion| *v
}

proof fn lemma_sorts_before_total(field: SortField, a: ModelVersion, b: ModelVersion)
    ensures
        sorts_before(field, a, b) || sorts_before(field, b, a),
{
    if field is Version {
        lemma_chars_le_total(a.version@, b.version@);
    }
}

proof fn lemma_sorts_before_transitive(field: SortField, a: ModelVersion, b: ModelVersion, c: ModelVersion)
    requires
        sorts_before(field, a, b),
        sorts_before(field, b, c),
    ensures
        sorts_before(field, a, c),
{
    if field is Version {
        lemma_chars_le_transitive(a.version@, b.version@, c.version@);
    }
}

/// The bit pattern of the metric `name` in a metric table.
fn find_metric_bits(metrics: &Vec<(String, u64)>, name: &str) -> (r: u64)
    ensures
        r == metric_bits(metrics@, name@),
{
    let n = metrics.len();
    let mut i: usize = 0;
    assert(metrics@.subrange(0, n as int) =~= metrics@);
    while i < n
        invariant
            n == metrics@.len(),
            i <= n,
            metric_bits(metrics@, name@) == metric_bits(metrics@.subrange(i as int, n as int), name@),
        decreases n - i,
    {
        let ghost rest = metrics@.subrange(i as int, n as int);
        assert(rest[0] == metrics@[i as int]);
        if str_eq(metrics[i].0.as_str(), name) {
            return metrics[i].1;
        }
        assert(rest.drop_first() =~= metrics@.subrange(i + 1, n as int));
        i = i + 1;
    }
    0
}

fn rank_of(bits: u64) -> (r: i128)
    ensures
        r == float_rank(bits),
{
    if bits >= 0x8000_0000_0000_0000u64 {
        -((bits - 0x8000_0000_0000_0000u64) as i128)
    } else {
        bits as i128
    }
}

/// Whether `a` may come before `b` when versions are sorted by `field`.
pub fn version_sorts_before(field: &SortField, a: &ModelVersion, b: &ModelVersion) -> (r: bool)
    ensures
        r == sorts_before(*field, *a, *b),
{
    match field {
        SortField::CreatedAt => a.created_at.secs < b.created_at.secs || (a.created_at.secs == b.created_at.secs
            && a.created_at.nanos <= b.created_at.nanos),
        SortField::Version => str_le(a.version.as_str(), b.version.as_str()),
        SortField::Size => a.size_bytes <= b.size_bytes,
        SortField::Metric(name) => rank_of(find_metric_bits(&a.metrics, name.as_str())) <= rank_of(
            find_metric_bits(&b.metrics, name.as_str()),
        ),
    }
}

/// Sorts versions by `field`: the result holds the same versions, in order.
pub fn sort_versions<'a>(items: Vec<&'a ModelVersion>, field: &SortField) -> (r: Vec<&'a ModelVersion>)
    ensures
        r@.map_values(deref_version()).to_multiset() == items@.map_values(deref_version()).to_multiset(),
        sorted_on(*field, r@.map_values(deref_version())),
{
    let ghost d = deref_version();
    let mut out: Vec<&'a ModelVersion> = Vec::new();
    let n = items.len();
    let mut i: usize = 0;
    assert(out@.map_values(d) =~= items@.subrange(0, 0).map_values(d));
    while i < n
        invariant
            n == items@.len(),
            i <= n,
            d == deref_version(),
            out@.map_values(d).to_multiset() == items@.subrange(0, i as int).map_values(d).to_multiset(),
            sorted_on(*field, out@.map_values(d)),
        decreases n - i,
    {
        let x = items[i];
        let m = out.len();
        let mut p: usize = 0;
        while p < m && version_sorts_before(field, out[p], x)
            invariant
                m == out@.len(),
                p <= m,
                forall|a: int| 0 <= a < p ==> sorts_before(*field, *out@[a], *x),
            decreases m - p,
        {
            p = p + 1;
        }
        let ghost before = out@.map_values(d);
        proof {
            if p < m {
                lemma_sorts_before_total(*field, *out@[p as int], *x);
            }
        }
        out.insert(p, x);
        proof {
            let after = out@.map_values(d);
            assert(after =~= before.insert(p as int, *x));
            vstd::seq_lib::to_multiset_insert(before, p as int, *x);
            assert(items@.subrange(0, i + 1).map_values(d) =~= items@.subrange(0, i as int).map_values(d).push(*x));
            vstd::seq_lib::to_multiset_build(items@.subrange(0, i as int).map_values(d), *x);
            assert forall|a: int, b: int| 0 <= a < b < after.len() implies sorts_before(*field, #[trigger] after[a], #[trigger] after[b]) by {
                if b < p {
                    assert(after[a] == before[a] && after[b] == before[b]);
                } else if b == p {
                    assert(after[a] == before[a]);
                } else if a == p {
                    assert(after[b] == before[b - 1]);
                    if b - 1 > p {
                        assert(sorts_before(*field, before[p as int], before[b - 1]));
                        lemma_sorts_before_transitive(*field, *x, before[p as int], before[b - 1]);
                    }
                } else if a < p {
                    assert(after[a] == before[a] && after[b] == before[b - 1]);
                    if a < b - 1 {
                        assert(sorts_before(*field, before[a], before[b - 1]));
                    }
                } else {
                    assert(after[a] == before[a - 1] && after[b] == before[b - 1]);
                }
            }
        }
        i = i + 1;
    }
    assert(items@.subrange(0, n as int) =~= items@);
    out
}

} // verus!
