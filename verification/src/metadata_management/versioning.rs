//! Version history of metadata entries: each entry keeps its current
//! version and a bounded history of earlier ones, and can be rolled back.

use vstd::prelude::*;

verus! {

/// A version number with the record of that version.
pub type Versioned<M> = (u64, M);

/// An entry's history (oldest first) and current version.
pub type History<M> = (Seq<Versioned<M>>, Versioned<M>);

/// The versions of one metadata entry.
pub struct VersionedEntry<M> {
    /// The current version.
    pub current: Versioned<M>,
    /// Earlier versions, oldest first.
    pub history: Vec<Versioned<M>>,
}

/// Why a rollback was refused.
#[derive(Debug, Clone, Copy, PartialEq, Eq, Structural)]
pub enum RollbackError {
    /// No entry has this id.
    UnknownId,
    /// The entry has no version with this number.
    UnknownVersion,
}

/// The entries of a list, by id; a later one overrides an earlier one.
pub open spec fn store_map<M>(v: Seq<(u128, VersionedEntry<M>)>) -> Map<u128, History<M>>
    decreases v.len(),
{
    if v.len() == 0 {
        Map::empty()
    } else {
        store_map(v.drop_last()).insert(v.last().0, (v.last().1.history@, v.last().1.current))
    }
}

/// No two entries of the list share an id.
pub open spec fn distinct_keys<M>(v: Seq<(u128, VersionedEntry<M>)>) -> bool {
    forall|i: int, j: int| 0 <= i < v.len() && 0 <= j < v.len() && i != j ==> v[i].0 != v[j].0
}

proof fn lemma_store_map<M>(v: Seq<(u128, VersionedEntry<M>)>)
    requires
        distinct_keys(v),
    ensures
        forall|k: u128| store_map(v).contains_key(k) <==> exists|i: int| 0 <= i < v.len() && (#[trigger] v[i]).0 == k,
        forall|i: int| 0 <= i < v.len() ==> store_map(v).contains_key((#[trigger] v[i]).0)
            && store_map(v)[v[i].0] == (v[i].1.history@, v[i].1.current),
    decreases v.len(),
{
    if v.len() > 0 {
        let w = v.drop_last();
        assert(distinct_keys(w));
        lemma_store_map(w);
        assert forall|k: u128| store_map(v).contains_key(k) implies exists|i: int| 0 <= i < v.len() && (#[trigger] v[i]).0 == k by {
            if k == v.last().0 {
                assert(v[v.len() - 1].0 == k);
            } else {
                assert(store_map(w).contains_key(k));
                let i = choose|i: int| 0 <= i < w.len() && (#[trigger] w[i]).0 == k;
                assert(v[i] == w[i]);
            }
        }
        assert forall|i: int| 0 <= i < v.len() implies store_map(v).contains_key((#[trigger] v[i]).0)
            && store_map(v)[v[i].0] == (v[i].1.history@, v[i].1.current) by {
            if i < v.len() - 1 {
                assert(v[i] == w[i]);
                assert(v[i].0 != v.last().0);
            }
        }
    }
}

proof fn lemma_store_map_remove<M>(v: Seq<(u128, VersionedEntry<M>)>, i: int)
    requires
        distinct_keys(v),
        0 <= i < v.len(),
    ensures
        distinct_keys(v.remove(i)),
        store_map(v.remove(i)) == store_map(v).remove(v[i].0),
{
    let w = v.remove(i);
    assert forall|a: int, b: int| 0 <= a < w.len() && 0 <= b < w.len() && a != b implies w[a].0 != w[b].0 by {
        let a2 = if a < i { a } else { a + 1 };
        let b2 = if b < i { b } else { b + 1 };
        assert(w[a] == v[a2]);
        assert(w[b] == v[b2]);
    }
    lemma_store_map(v);
    lemma_store_map(w);
    let lhs = store_map(w);
    let rhs = store_map(v).remove(v[i].0);
    assert forall|k: u128| lhs.contains_key(k) <==> rhs.contains_key(k) by {
        if lhs.contains_key(k) {
            let a = choose|a: int| 0 <= a < w.len() && (#[trigger] w[a]).0 == k;
            let a2 = if a < i { a } else { a + 1 };
            assert(w[a] == v[a2]);
        }
        if rhs.contains_key(k) {
            let a = choose|a: int| 0 <= a < v.len() && (#[trigger] v[a]).0 == k;
            let a2 = if a < i { a } else { a - 1 };
            assert(w[a2] == v[a]);
        }
    }
    assert forall|k: u128| lhs.contains_key(k) implies lhs[k] == rhs[k] by {
        let a = choose|a: int| 0 <= a < w.len() && (#[trigger] w[a]).0 == k;
        let a2 = if a < i { a } else { a + 1 };
        assert(w[a] == v[a2]);
    }
    assert(lhs =~= rhs);
}

proof fn lemma_store_map_update<M>(v: Seq<(u128, VersionedEntry<M>)>, i: int, e: VersionedEntry<M>)
    requires
        distinct_keys(v),
        0 <= i < v.len(),
    ensures
        distinct_keys(v.update(i, (v[i].0, e))),
        store_map(v.update(i, (v[i].0, e))) == store_map(v).insert(v[i].0, (e.history@, e.current)),
{
    let w = v.update(i, (v[i].0, e));
    assert forall|a: int, b: int| 0 <= a < w.len() && 0 <= b < w.len() && a != b implies w[a].0 != w[b].0 by {
        assert(w[a].0 == v[a].0);
        assert(w[b].0 == v[b].0);
    }
    lemma_store_map(v);
    lemma_store_map(w);
    let lhs = store_map(w);
    let rhs = store_map(v).insert(v[i].0, (e.history@, e.current));
    assert forall|k: u128| lhs.contains_key(k) <==> rhs.contains_key(k) by {
        if lhs.contains_key(k) {
            let a = choose|a: int| 0 <= a < w.len() && (#[trigger] w[a]).0 == k;
            assert(w[a].0 == v[a].0);
        }
        if rhs.contains_key(k) && k != v[i].0 {
            let a = choose|a: int| 0 <= a < v.len() && (#[trigger] v[a]).0 == k;
            assert(w[a].0 == v[a].0);
        }
        if k == v[i].0 {
            assert(w[i].0 == k);
        }
    }
    assert forall|k: u128| lhs.contains_key(k) implies lhs[k] == rhs[k] by {
        let a = choose|a: int| 0 <= a < w.len() && (#[trigger] w[a]).0 == k;
        if a != i {
            assert(w[a] == v[a]);
        }
    }
    assert(lhs =~= rhs);
}

proof fn lemma_store_map_push<M>(v: Seq<(u128, VersionedEntry<M>)>, k: u128, e: VersionedEntry<M>)
    requires
        distinct_keys(v),
        !store_map(v).contains_key(k),
    ensures
        distinct_keys(v.push((k, e))),
        store_map(v.push((k, e))) == store_map(v).insert(k, (e.history@, e.current)),
{
    lemma_store_map(v);
    let w = v.push((k, e));
    assert(w.drop_last() =~= v);
    assert forall|a: int, b: int| 0 <= a < w.len() && 0 <= b < w.len() && a != b implies w[a].0 != w[b].0 by {
        if a == v.len() {
            assert(w[b] == v[b]);
        } else if b == v.len() {
            assert(w[a] == v[a]);
        } else {
            assert(w[a] == v[a] && w[b] == v[b]);
        }
    }
}

/// The last `max` versions of a history (all of them when there are fewer).
pub open spec fn keep_last<M>(h: Seq<Versioned<M>>, max: nat) -> Seq<Versioned<M>> {
    if h.len() > max {
        h.subrange(h.len() - max, h.len() as int)
    } else {
        h
    }
}

/// Index of the first version numbered `version` in `h`, or `h.len()`.
pub open spec fn find_version<M>(h: Seq<Versioned<M>>, version: u64, j: int) -> int
    decreases h.len() - j,
{
    if j >= h.len() {
        h.len() as int
    } else if h[j].0 == version {
        j
    } else {
        find_version(h, version, j + 1)
    }
}

/// The entry after storing `record` as version `version`: a new entry
/// starts with it; an entry whose current version has another number
/// moves its current version to the history (trimmed to the last `max`)
/// and takes the new one; an entry already at that version is unchanged.
pub open spec fn after_put<M>(old: Option<History<M>>, version: u64, record: M, max: nat) -> History<M> {
    match old {
        None => (Seq::empty(), (version, record)),
        Some((h, cur)) => if cur.0 != version {
            (keep_last(h.push(cur), max), (version, record))
        } else {
            (h, cur)
        },
    }
}

/// Version store of metadata entries, keyed by id.
pub struct VersionStore<M> {
    entries: Vec<(u128, VersionedEntry<M>)>,
    max_history: usize,
}

fn find_in_history<M>(h: &Vec<Versioned<M>>, version: u64) -> (r: usize)
    ensures
        r == find_version(h@, version, 0),
        r <= h@.len(),
{
    let n = h.len();
    let mut j: usize = 0;
    while j < n
        invariant
            n == h@.len(),
            j <= n,
            find_version(h@, version, 0) == find_version(h@, version, j as int),
        decreases n - j,
    {
        if h[j].0 == version {
            return j;
        }
        j = j + 1;
    }
    j
}

impl<M> VersionStore<M> {
    /// The store's invariant: ids are unique.
    pub closed spec fn wf(&self) -> bool {
        distinct_keys(self.entries@)
    }

    /// The entries, by id.
    pub closed spec fn entries_view(&self) -> Map<u128, History<M>> {
        store_map(self.entries@)
    }

    /// How many earlier versions an entry keeps.
    pub closed spec fn max_history_view(&self) -> nat {
        self.max_history as nat
    }

    /// An empty store keeping at most `max_history` earlier versions per entry.
    pub fn new(max_history: usize) -> (r: Self)
        ensures
            r.wf(),
            r.entries_view() == Map::<u128, History<M>>::empty(),
            r.max_history_view() == max_history,
    {
        VersionStore { entries: Vec::new(), max_history }
    }

    fn find(&self, id: u128) -> (r: Option<usize>)
        requires
            self.wf(),
        ensures
            match r {
                Some(i) => i < self.entries@.len() && self.entries@[i as int].0 == id,
                None => !self.entries_view().contains_key(id),
            },
    {
        proof { lemma_store_map(self.entries@); }
        let n = self.entries.len();
        let mut i: usize = 0;
        while i < n
            invariant
                n == self.entries@.len(),
                i <= n,
                forall|j: int| 0 <= j < i ==> (#[trigger] self.entries@[j]).0 != id,
            decreases n - i,
        {
            if self.entries[i].0 == id {
                return Some(i);
            }
            i = i + 1;
        }
        None
    }

    /// Stores `record` as version `version` of entry `id`, keeping the
    /// version it replaces in the history.
    pub fn put(&mut self, id: u128, version: u64, record: M)
        requires
            old(self).wf(),
        ensures
            final(self).wf(),
            final(self).max_history_view() == old(self).max_history_view(),
            final(self).entries_view() == old(self).entries_view().insert(
                id,
                after_put(
                    if old(self).entries_view().contains_key(id) { Some(old(self).entries_view()[id]) } else { None },
                    version,
                    record,
                    old(self).max_history_view(),
                ),
            ),
    {
        match self.find(id) {
            None => {
                let e = VersionedEntry { current: (version, record), history: Vec::new() };
                assert(e.history@ =~= Seq::<Versioned<M>>::empty());
                proof { lemma_store_map_push(self.entries@, id, e); }
                self.entries.push((id, e));
            },
            Some(i) => {
                proof { lemma_store_map(self.entries@); }
                if self.entries[i].1.current.0 == version {
                    assert(self.entries_view().insert(id, self.entries_view()[id]) =~= self.entries_view());
                    return;
                }
                let ghost v0 = self.entries@;
                let (key, mut e) = self.entries.remove(i);
                let ghost h0 = e.history@;
                let ghost c0 = e.current;
                let mut previous: Versioned<M> = (version, record);
                std::mem::swap(&mut previous, &mut e.current);
                e.history.push(previous);
                let max = self.max_history;
                if e.history.len() > max {
                    let excess = e.history.len() - max;
                    let ghost full = e.history@;
                    let ghost cur_new = e.current;
                    let mut k: usize = 0;
                    while k < excess
                        invariant
                            e.current == cur_new,
                            k <= excess,
                            excess == full.len() - max,
                            e.history@ == full.subrange(k as int, full.len() as int),
                        decreases excess - k,
                    {
                        e.history.remove(0);
                        k = k + 1;
                    }
                }
                assert(e.history@ =~= keep_last(h0.push(c0), self.max_history as nat));
                self.entries.insert(i, (key, e));
                proof {
                    assert(self.entries@ =~= v0.update(i as int, (v0[i as int].0, e)));
                    lemma_store_map_update(v0, i as int, e);
                }
            },
        }
    }

    /// The current version of entry `id`.
    pub fn get(&self, id: u128) -> (r: Option<&Versioned<M>>)
        requires
            self.wf(),
        ensures
            self.entries_view().contains_key(id) ==> (r matches Some(v) && *v == self.entries_view()[id].1),
            !self.entries_view().contains_key(id) ==> r is None,
    {
        proof { lemma_store_map(self.entries@); }
        match self.find(id) {
            Some(i) => Some(&self.entries[i].1.current),
            None => None,
        }
    }

    /// Version `version` of entry `id`: the current one when it has that
    /// number, otherwise the oldest earlier version with that number.
    pub fn get_version(&self, id: u128, version: u64) -> (r: Option<&Versioned<M>>)
        requires
            self.wf(),
        ensures
            !self.entries_view().contains_key(id) ==> r is None,
            self.entries_view().contains_key(id) ==> ({
                let (h, cur) = self.entries_view()[id];
                let j = find_version(h, version, 0);
                if cur.0 == version {
                    r matches Some(v) && *v == cur
                } else if j < h.len() {
                    r matches Some(v) && *v == h[j]
                } else {
                    r is None
                }
            }),
    {
        proof { lemma_store_map(self.entries@); }
        match self.find(id) {
            None => None,
            Some(i) => {
                let e = &self.entries[i].1;
                if e.current.0 == version {
                    return Some(&e.current);
                }
                let j = find_in_history(&e.history, version);
                if j < e.history.len() {
                    Some(&e.history[j])
                } else {
                    None
                }
            },
        }
    }

    /// All versions of entry `id`, oldest first, the current one last;
    /// none for an unknown id.
    pub fn get_all_versions(&self, id: u128) -> (r: Vec<&Versioned<M>>)
        requires
            self.wf(),
        ensures
            !self.entries_view().contains_key(id) ==> r@.len() == 0,
            self.entries_view().contains_key(id) ==> ({
                let (h, cur) = self.entries_view()[id];
                &&& r@.len() == h.len() + 1
                &&& forall|k: int| 0 <= k < h.len() ==> *r@[k] == h[k]
                &&& *r@[h.len() as int] == cur
            }),
    {
        proof { lemma_store_map(self.entries@); }
        match self.find(id) {
            None => Vec::new(),
            Some(i) => {
                let e = &self.entries[i].1;
                let n = e.history.len();
                let mut out: Vec<&Versioned<M>> = Vec::new();
                let mut k: usize = 0;
                while k < n
                    invariant
                        n == e.history@.len(),
                        k <= n,
                        out@.len() == k,
                        forall|m: int| 0 <= m < k ==> *out@[m] == e.history@[m],
                    decreases n - k,
                {
                    out.push(&e.history[k]);
                    k = k + 1;
                }
                out.push(&e.current);
                out
            },
        }
    }

    /// Rolls entry `id` back to version `target`: when an earlier version
    /// has that number, the oldest such becomes current and every version
    /// after it is dropped; an entry already at that version is unchanged.
    pub fn rollback(&mut self, id: u128, target: u64) -> (r: Result<(), RollbackError>)
        requires
            old(self).wf(),
        ensures
            final(self).wf(),
            final(self).max_history_view() == old(self).max_history_view(),
            !old(self).entries_view().contains_key(id) ==> r == Err::<(), RollbackError>(RollbackError::UnknownId)
                && final(self).entries_view() == old(self).entries_view(),
            old(self).entries_view().contains_key(id) ==> ({
                let (h, cur) = old(self).entries_view()[id];
                let j = find_version(h, target, 0);
                if j < h.len() {
                    r is Ok && final(self).entries_view() == old(self).entries_view().insert(id, (h.subrange(0, j), h[j]))
                } else if cur.0 == target {
                    r is Ok && final(self).entries_view() == old(self).entries_view()
                } else {
                    r == Err::<(), RollbackError>(RollbackError::UnknownVersion)
                        && final(self).entries_view() == old(self).entries_view()
                }
            }),
    {
        proof { lemma_store_map(self.entries@); }
        match self.find(id) {
            None => Err(RollbackError::UnknownId),
            Some(i) => {
                let j = find_in_history(&self.entries[i].1.history, target);
                if j < self.entries[i].1.history.len() {
                    let ghost v0 = self.entries@;
                    let (key, mut e) = self.entries.remove(i);
                    let ghost h0 = e.history@;
                    let mut tail = e.history.split_off(j);
                    let target_version = tail.remove(0);
                    e.current = target_version;
                    assert(e.history@ =~= h0.subrange(0, j as int));
                    self.entries.insert(i, (key, e));
                    proof {
                        assert(self.entries@ =~= v0.update(i as int, (v0[i as int].0, e)));
                        lemma_store_map_update(v0, i as int, e);
                    }
                    Ok(())
                } else if self.entries[i].1.current.0 == target {
                    Ok(())
                } else {
                    Err(RollbackError::UnknownVersion)
                }
            },
        }
    }

    /// Deletes entry `id` and its history.
    pub fn delete(&mut self, id: u128)
        requires
            old(self).wf(),
        ensures
            final(self).wf(),
            final(self).max_history_view() == old(self).max_history_view(),
            final(self).entries_view() == old(self).entries_view().remove(id),
    {
        match self.find(id) {
            None => {
                assert(self.entries_view().remove(id) =~= self.entries_view());
            },
            Some(i) => {
                proof {
                    lemma_store_map(self.entries@);
                    lemma_store_map_remove(self.entries@, i as int);
                }
                self.entries.remove(i);
            },
        }
    }
}

/// Storing a new version makes it current, and the version it replaces
/// becomes the newest of the history.
pub proof fn law_put_then_get<M>(h: Seq<Versioned<M>>, cur: Versioned<M>, version: u64, record: M, max: nat)
    requires
        cur.0 != version,
        max > 0,
    ensures
        after_put(Some((h, cur)), version, record, max).1 == (version, record),
        after_put(Some((h, cur)), version, record, max).0.last() == cur,
{
}

/// Rolling back to the version that a put replaced undoes the put, when
/// the history held no version with that number and had room for one more.
pub proof fn law_rollback_undoes_put<M>(h: Seq<Versioned<M>>, cur: Versioned<M>, version: u64, record: M, max: nat)
    requires
        cur.0 != version,
        h.len() < max,
        forall|k: int| 0 <= k < h.len() ==> h[k].0 != cur.0,
    ensures
        ({
            let (h2, _) = after_put(Some((h, cur)), version, record, max);
            let j = find_version(h2, cur.0, 0);
            &&& j == h.len()
            &&& h2.subrange(0, j) == h
            &&& h2[j] == cur
        }),
{
    let h2 = h.push(cur);
    assert(after_put(Some((h, cur)), version, record, max).0 == h2);
    lemma_find_version_last(h2, cur.0, 0);
    assert(h2.subrange(0, h.len() as int) =~= h);
}

proof fn lemma_find_version_last<M>(h: Seq<Versioned<M>>, version: u64, j: int)
    requires
        h.len() > 0,
        0 <= j < h.len(),
        h.last().0 == version,
        forall|k: int| j <= k < h.len() - 1 ==> h[k].0 != version,
    ensures
        find_version(h, version, j) == h.len() - 1,
    decreases h.len() - j,
{
    if j < h.len() - 1 {
        lemma_find_version_last(h, version, j + 1);
    }
}

impl<M> Default for VersionStore<M> {
    fn default() -> (r: Self)
        ensures
            r.wf(),
            r.entries_view() == Map::<u128, History<M>>::empty(),
            r.max_history_view() == 10,
    {
        Self::new(10)
    }
}

} // verus!
