//! In-memory metadata storage: entries by id in a concurrent map, with
//! lists of ids by metadata kind and by entity.

use dashmap::DashMap;
use vstd::prelude::*;
use crate::keyed::{keyed, keys_distinct, lemma_keyed, lemma_keyed_push, lemma_keyed_update};
use crate::metadata_management::error::MetadataError;
use crate::metadata_management::model::{Metadata, MetadataType, copy_type, same_type, type_view};
use crate::text::str_eq;

verus! {

/// A concurrent hash map (dashmap's `DashMap`).
#[verifier::external_type_specification]
#[verifier::external_body]
#[verifier::reject_recursive_types(K)]
#[verifier::reject_recursive_types(V)]
#[verifier::reject_recursive_types(S)]
pub struct ExDashMap<K, V, S>(DashMap<K, V, S>);

/// The entries of a map of metadata by id.
pub uninterp spec fn dash_entries(m: DashMap<u128, Metadata>) -> Map<u128, Metadata>;

/// Trusted: `DashMap::new` makes an empty map.
#[verifier::external_body]
fn dash_new() -> (r: DashMap<u128, Metadata>)
    ensures
        dash_entries(r).dom() == Set::<u128>::empty(),
{
    DashMap::new()
}

/// Trusted: `DashMap::insert` stores `value` under `key`, replacing what
/// was there.
#[verifier::external_body]
fn dash_insert(m: &mut DashMap<u128, Metadata>, key: u128, value: Metadata)
    ensures
        dash_entries(*final(m)) == dash_entries(*old(m)).insert(key, value),
{
    m.insert(key, value);
}

/// Trusted: `DashMap::get` finds the entry under `key`, which is handed
/// out as a clone (a derived `Clone`: the same entry).
#[verifier::external_body]
fn dash_get(m: &DashMap<u128, Metadata>, key: u128) -> (r: Option<Metadata>)
    ensures
        dash_entries(*m).contains_key(key) ==> r == Some(dash_entries(*m)[key]),
        !dash_entries(*m).contains_key(key) ==> r is None,
{
    match m.get(&key) {
        Some(entry) => Some(entry.value().clone()),
        None => None,
    }
}

/// Trusted: `DashMap::remove` takes the entry under `key` out of the map
/// and returns its value.
#[verifier::external_body]
fn dash_remove(m: &mut DashMap<u128, Metadata>, key: u128) -> (r: Option<Metadata>)
    ensures
        dash_entries(*final(m)) == dash_entries(*old(m)).remove(key),
        dash_entries(*old(m)).contains_key(key) ==> r == Some(dash_entries(*old(m))[key]),
        !dash_entries(*old(m)).contains_key(key) ==> r is None,
{
    match m.remove(&key) {
        Some((_, value)) => Some(value),
        None => None,
    }
}

/// The key of a kind's id list.
pub open spec fn type_entry_key() -> spec_fn((MetadataType, Vec<u128>)) -> (nat, Seq<char>) {
    |e: (MetadataType, Vec<u128>)| type_view(e.0)
}

/// The key of an entity's id list.
pub open spec fn entity_entry_key() -> spec_fn((String, Vec<u128>)) -> Seq<char> {
    |e: (String, Vec<u128>)| e.0@
}

/// The ids of a kind's id list.
pub open spec fn type_entry_ids() -> spec_fn((MetadataType, Vec<u128>)) -> Seq<u128> {
    |e: (MetadataType, Vec<u128>)| e.1@
}

/// The ids of an entity's id list.
pub open spec fn entity_entry_ids() -> spec_fn((String, Vec<u128>)) -> Seq<u128> {
    |e: (String, Vec<u128>)| e.1@
}

/// The id lists after `id` is listed under `key`, once.
pub open spec fn index_add<K>(ix: Map<K, Seq<u128>>, key: K, id: u128) -> Map<K, Seq<u128>> {
    if ix.contains_key(key) {
        if ix[key].contains(id) { ix } else { ix.insert(key, ix[key].push(id)) }
    } else {
        ix.insert(key, seq![id])
    }
}

/// The ids other than `id`.
pub open spec fn other_than(id: u128) -> spec_fn(u128) -> bool {
    |x: u128| x != id
}

/// The id lists after `id` is taken out of the list under `key`; the list
/// stays, empty or not.
pub open spec fn index_drop<K>(ix: Map<K, Seq<u128>>, key: K, id: u128) -> Map<K, Seq<u128>> {
    if ix.contains_key(key) {
        ix.insert(key, ix[key].filter(other_than(id)))
    } else {
        ix
    }
}

/// The entries that the ids of `ids` name, in order, skipping ids with no
/// entry.
pub open spec fn present_entries(entries: Map<u128, Metadata>, ids: Seq<u128>) -> Seq<Metadata>
    decreases ids.len(),
{
    if ids.len() == 0 {
        Seq::empty()
    } else {
        let rest = present_entries(entries, ids.drop_last());
        if entries.contains_key(ids.last()) { rest.push(entries[ids.last()]) } else { rest }
    }
}

/// In-memory storage backend.
pub struct InMemoryMetadataStorage {
    storage: DashMap<u128, Metadata>,
    index_by_type: Vec<(MetadataType, Vec<u128>)>,
    index_by_entity: Vec<(String, Vec<u128>)>,
}

impl InMemoryMetadataStorage {
    /// The stored entries, by id.
    pub closed spec fn entries(&self) -> Map<u128, Metadata> {
        dash_entries(self.storage)
    }

    /// The ids listed under each kind, in the order they were listed.
    pub closed spec fn type_index(&self) -> Map<(nat, Seq<char>), Seq<u128>> {
        keyed(self.index_by_type@, type_entry_key(), type_entry_ids())
    }

    /// The ids listed under each entity, in the order they were listed.
    pub closed spec fn entity_index(&self) -> Map<Seq<char>, Seq<u128>> {
        keyed(self.index_by_entity@, entity_entry_key(), entity_entry_ids())
    }

    /// The invariant: each entry is stored under its own id, and each kind
    /// and each entity has one id list.
    pub closed spec fn wf(&self) -> bool {
        &&& forall|k: u128| #[trigger] self.entries().contains_key(k) ==> self.entries()[k].id == k
        &&& keys_distinct(self.index_by_type@, type_entry_key())
        &&& keys_distinct(self.index_by_entity@, entity_entry_key())
    }

    /// Create a new, empty in-memory storage.
    pub fn new() -> (r: Self)
        ensures
            r.wf(),
            r.entries().dom() == Set::<u128>::empty(),
            r.type_index() == Map::<(nat, Seq<char>), Seq<u128>>::empty(),
            r.entity_index() == Map::<Seq<char>, Seq<u128>>::empty(),
    {
        InMemoryMetadataStorage { storage: dash_new(), index_by_type: Vec::new(), index_by_entity: Vec::new() }
    }
}

fn ids_contain(ids: &Vec<u128>, id: u128) -> (r: bool)
    ensures
        r == ids@.contains(id),
{
    let n = ids.len();
    let mut i: usize = 0;
    while i < n
        invariant
            n == ids@.len(),
            i <= n,
            forall|j: int| 0 <= j < i ==> ids@[j] != id,
        decreases n - i,
    {
        if ids[i] == id {
            return true;
        }
        i = i + 1;
    }
    false
}

fn ids_without(ids: &Vec<u128>, id: u128) -> (r: Vec<u128>)
    ensures
        r@ == ids@.filter(other_than(id)),
{
    let ghost p = other_than(id);
    let mut r: Vec<u128> = Vec::new();
    let n = ids.len();
    let mut i: usize = 0;
    assert(ids@.subrange(0, 0).filter(p) =~= Seq::<u128>::empty()) by {
        reveal_with_fuel(Seq::filter, 1);
    }
    while i < n
        invariant
            n == ids@.len(),
            i <= n,
            p == other_than(id),
            r@ == ids@.subrange(0, i as int).filter(p),
        decreases n - i,
    {
        if ids[i] != id {
            r.push(ids[i]);
        }
        proof {
            reveal_with_fuel(Seq::filter, 1);
            let sub = ids@.subrange(0, i + 1);
            assert(sub.drop_last() =~= ids@.subrange(0, i as int));
            assert(sub.last() == ids@[i as int]);
        }
        i = i + 1;
    }
    assert(ids@.subrange(0, n as int) =~= ids@);
    r
}

impl InMemoryMetadataStorage {
    fn find_type_entry(&self, t: &MetadataType) -> (r: Option<usize>)
        requires
            self.wf(),
        ensures
            match r {
                Some(i) => i < self.index_by_type@.len() && type_view(self.index_by_type@[i as int].0) == type_view(*t)
                    && self.type_index().contains_key(type_view(*t)) && self.type_index()[type_view(*t)]
                    == self.index_by_type@[i as int].1@,
                None => !self.type_index().contains_key(type_view(*t)),
            },
    {
        proof { lemma_keyed(self.index_by_type@, type_entry_key(), type_entry_ids()); }
        let n = self.index_by_type.len();
        let mut i: usize = 0;
        while i < n
            invariant
                n == self.index_by_type@.len(),
                i <= n,
                self.wf(),
                forall|j: int| 0 <= j < i ==> type_view(self.index_by_type@[j].0) != type_view(*t),
            decreases n - i,
        {
            if same_type(&self.index_by_type[i].0, t) {
                proof {
                    lemma_keyed(self.index_by_type@, type_entry_key(), type_entry_ids());
                    assert(type_entry_key()(self.index_by_type@[i as int]) == type_view(*t));
                }
                return Some(i);
            }
            i = i + 1;
        }
        proof {
            assert forall|j: int| 0 <= j < n implies type_entry_key()(#[trigger] self.index_by_type@[j]) != type_view(*t) by {}
        }
        None
    }

    fn find_entity_entry(&self, entity: &str) -> (r: Option<usize>)
        requires
            self.wf(),
        ensures
            match r {
                Some(i) => i < self.index_by_entity@.len() && self.index_by_entity@[i as int].0@ == entity@
                    && self.entity_index().contains_key(entity@) && self.entity_index()[entity@]
                    == self.index_by_entity@[i as int].1@,
                None => !self.entity_index().contains_key(entity@),
            },
    {
        proof { lemma_keyed(self.index_by_entity@, entity_entry_key(), entity_entry_ids()); }
        let n = self.index_by_entity.len();
        let mut i: usize = 0;
        while i < n
            invariant
                n == self.index_by_entity@.len(),
                i <= n,
                self.wf(),
                forall|j: int| 0 <= j < i ==> self.index_by_entity@[j].0@ != entity@,
            decreases n - i,
        {
            if str_eq(self.index_by_entity[i].0.as_str(), entity) {
                proof { lemma_keyed(self.index_by_entity@, entity_entry_key(), entity_entry_ids()); }
                return Some(i);
            }
            i = i + 1;
        }
        None
    }

    /// Lists `id` under kind `t` and under `entity`, once each.
    fn update_indices(&mut self, t: &MetadataType, entity: &String, id: u128)
        requires
            old(self).wf(),
        ensures
            final(self).wf(),
            final(self).entries() == old(self).entries(),
            final(self).type_index() == index_add(old(self).type_index(), type_view(*t), id),
            final(self).entity_index() == index_add(old(self).entity_index(), entity@, id),
    {
        match self.find_type_entry(t) {
            Some(i) => {
                if !ids_contain(&self.index_by_type[i].1, id) {
                    let (k, mut ids) = self.index_by_type.remove(i);
                    ids.push(id);
                    let e = (k, ids);
                    proof { lemma_keyed_update(old(self).index_by_type@, type_entry_key(), type_entry_ids(), i as int, e); }
                    self.index_by_type.insert(i, e);
                    assert(self.index_by_type@ =~= old(self).index_by_type@.update(i as int, e));
                }
            },
            None => {
                let e = (copy_type(t), vec![id]);
                proof {
                    lemma_keyed_push(self.index_by_type@, type_entry_key(), type_entry_ids(), e);
                    assert(e.1@ =~= seq![id]);
                }
                self.index_by_type.push(e);
            },
        }
        let ghost mid = self.index_by_type@;
        match self.find_entity_entry(entity.as_str()) {
            Some(i) => {
                if !ids_contain(&self.index_by_entity[i].1, id) {
                    let ghost before = self.index_by_entity@;
                    let (k, mut ids) = self.index_by_entity.remove(i);
                    ids.push(id);
                    let e = (k, ids);
                    proof { lemma_keyed_update(before, entity_entry_key(), entity_entry_ids(), i as int, e); }
                    self.index_by_entity.insert(i, e);
                    assert(self.index_by_entity@ =~= before.update(i as int, e));
                }
            },
            None => {
                let e = (entity.clone(), vec![id]);
                proof {
                    lemma_keyed_push(self.index_by_entity@, entity_entry_key(), entity_entry_ids(), e);
                    assert(e.1@ =~= seq![id]);
                }
                self.index_by_entity.push(e);
            },
        }
        assert(self.index_by_type@ == mid);
    }

    /// Takes `id` out of the lists of kind `t` and of `entity`.
    fn remove_from_indices(&mut self, t: &MetadataType, entity: &String, id: u128)
        requires
            old(self).wf(),
        ensures
            final(self).wf(),
            final(self).entries() == old(self).entries(),
            final(self).type_index() == index_drop(old(self).type_index(), type_view(*t), id),
            final(self).entity_index() == index_drop(old(self).entity_index(), entity@, id),
    {
        match self.find_type_entry(t) {
            Some(i) => {
                let ids = ids_without(&self.index_by_type[i].1, id);
                let ghost before = self.index_by_type@;
                let (k, _) = self.index_by_type.remove(i);
                let e = (k, ids);
                proof { lemma_keyed_update(before, type_entry_key(), type_entry_ids(), i as int, e); }
                self.index_by_type.insert(i, e);
                assert(self.index_by_type@ =~= before.update(i as int, e));
            },
            None => {},
        }
        let ghost mid = self.index_by_type@;
        match self.find_entity_entry(entity.as_str()) {
            Some(i) => {
                let ids = ids_without(&self.index_by_entity[i].1, id);
                let ghost before = self.index_by_entity@;
                let (k, _) = self.index_by_entity.remove(i);
                let e = (k, ids);
                proof { lemma_keyed_update(before, entity_entry_key(), entity_entry_ids(), i as int, e); }
                self.index_by_entity.insert(i, e);
                assert(self.index_by_entity@ =~= before.update(i as int, e));
            },
            None => {},
        }
        assert(self.index_by_type@ == mid);
    }
}

fn entries_of(storage: &DashMap<u128, Metadata>, ids: &Vec<u128>) -> (r: Vec<Metadata>)
    ensures
        r@ == present_entries(dash_entries(*storage), ids@),
{
    let mut r: Vec<Metadata> = Vec::new();
    let n = ids.len();
    let mut i: usize = 0;
    while i < n
        invariant
            n == ids@.len(),
            i <= n,
            r@ == present_entries(dash_entries(*storage), ids@.subrange(0, i as int)),
        decreases n - i,
    {
        let ghost sub = ids@.subrange(0, i + 1);
        assert(sub.drop_last() =~= ids@.subrange(0, i as int));
        if let Some(m) = dash_get(storage, ids[i]) {
            r.push(m);
        }
        i = i + 1;
    }
    assert(ids@.subrange(0, n as int) =~= ids@);
    r
}

impl InMemoryMetadataStorage {
    /// Store a metadata entry under its id, and list the id under its kind
    /// and its entity.
    pub fn store(&mut self, metadata: Metadata) -> (r: Result<u128, MetadataError>)
        requires
            old(self).wf(),
        ensures
            final(self).wf(),
            r == Ok::<u128, MetadataError>(metadata.id),
            final(self).entries() == old(self).entries().insert(metadata.id, metadata),
            final(self).type_index() == index_add(old(self).type_index(), type_view(metadata.metadata_type), metadata.id),
            final(self).entity_index() == index_add(old(self).entity_index(), metadata.entity_id@, metadata.id),
    {
        let id = metadata.id;
        let t = copy_type(&metadata.metadata_type);
        let entity = metadata.entity_id.clone();
        dash_insert(&mut self.storage, id, metadata);
        self.update_indices(&t, &entity, id);
        Ok(id)
    }

    /// Retrieve a metadata entry by id.
    pub fn retrieve(&self, id: u128) -> (r: Result<Option<Metadata>, MetadataError>)
        ensures
            self.entries().contains_key(id) ==> r == Ok::<Option<Metadata>, MetadataError>(Some(self.entries()[id])),
            !self.entries().contains_key(id) ==> r == Ok::<Option<Metadata>, MetadataError>(None),
    {
        Ok(dash_get(&self.storage, id))
    }

    /// Update an existing entry: the old entry's id is taken out of its
    /// kind's and entity's lists, and the new entry is stored as by
    /// [`Self::store`].
    pub fn update(&mut self, metadata: Metadata) -> (r: Result<(), MetadataError>)
        requires
            old(self).wf(),
        ensures
            final(self).wf(),
            r is Ok,
            final(self).entries() == old(self).entries().insert(metadata.id, metadata),
            ({
                let id = metadata.id;
                let (types, entities) = if old(self).entries().contains_key(id) {
                    let prev = old(self).entries()[id];
                    (
                        index_drop(old(self).type_index(), type_view(prev.metadata_type), id),
                        index_drop(old(self).entity_index(), prev.entity_id@, id),
                    )
                } else {
                    (old(self).type_index(), old(self).entity_index())
                };
                &&& final(self).type_index() == index_add(types, type_view(metadata.metadata_type), id)
                &&& final(self).entity_index() == index_add(entities, metadata.entity_id@, id)
            }),
    {
        let id = metadata.id;
        if let Some(prev) = dash_get(&self.storage, id) {
            self.remove_from_indices(&prev.metadata_type, &prev.entity_id, prev.id);
        }
        let t = copy_type(&metadata.metadata_type);
        let entity = metadata.entity_id.clone();
        dash_insert(&mut self.storage, id, metadata);
        self.update_indices(&t, &entity, id);
        Ok(())
    }

    /// Delete an entry, taking its id out of its kind's and entity's lists.
    pub fn delete(&mut self, id: u128) -> (r: Result<(), MetadataError>)
        requires
            old(self).wf(),
        ensures
            final(self).wf(),
            r is Ok,
            final(self).entries() == old(self).entries().remove(id),
            old(self).entries().contains_key(id) ==> {
                let prev = old(self).entries()[id];
                &&& final(self).type_index() == index_drop(old(self).type_index(), type_view(prev.metadata_type), id)
                &&& final(self).entity_index() == index_drop(old(self).entity_index(), prev.entity_id@, id)
            },
            !old(self).entries().contains_key(id) ==> {
                &&& final(self).type_index() == old(self).type_index()
                &&& final(self).entity_index() == old(self).entity_index()
            },
    {
        if let Some(prev) = dash_remove(&mut self.storage, id) {
            self.remove_from_indices(&prev.metadata_type, &prev.entity_id, prev.id);
        }
        Ok(())
    }

    /// The entries listed under a kind that are still stored, in the order
    /// they were listed.
    pub fn list_by_type(&self, metadata_type: MetadataType) -> (r: Result<Vec<Metadata>, MetadataError>)
        requires
            self.wf(),
        ensures
            r matches Ok(v) && v@ == present_entries(
                self.entries(),
                if self.type_index().contains_key(type_view(metadata_type)) {
                    self.type_index()[type_view(metadata_type)]
                } else {
                    Seq::empty()
                },
            ),
    {
        match self.find_type_entry(&metadata_type) {
            Some(i) => Ok(entries_of(&self.storage, &self.index_by_type[i].1)),
            None => Ok(Vec::new()),
        }
    }

    /// The entries listed under an entity that are still stored, in the
    /// order they were listed.
    pub fn list_by_entity(&self, entity_id: &str) -> (r: Result<Vec<Metadata>, MetadataError>)
        requires
            self.wf(),
        ensures
            r matches Ok(v) && v@ == present_entries(
                self.entries(),
                if self.entity_index().contains_key(entity_id@) {
                    self.entity_index()[entity_id@]
                } else {
                    Seq::empty()
                },
            ),
    {
        match self.find_entity_entry(entity_id) {
            Some(i) => Ok(entries_of(&self.storage, &self.index_by_entity[i].1)),
            None => Ok(Vec::new()),
        }
    }
}

/// Metadata storage over a backend.
pub struct MetadataStorage {
    backend: InMemoryMetadataStorage,
}

impl MetadataStorage {
    /// The backend the storage works on.
    pub closed spec fn backend_view(&self) -> InMemoryMetadataStorage {
        self.backend
    }

    /// Create a new metadata storage with a given backend.
    pub fn new(backend: InMemoryMetadataStorage) -> (r: Self)
        requires
            backend.wf(),
        ensures
            r.backend_view() == backend,
    {
        MetadataStorage { backend }
    }

    /// Store metadata (see [`InMemoryMetadataStorage::store`]).
    pub fn store(&mut self, metadata: Metadata) -> (r: Result<u128, MetadataError>)
        requires
            old(self).backend_view().wf(),
        ensures
            final(self).backend_view().wf(),
            r == Ok::<u128, MetadataError>(metadata.id),
            final(self).backend_view().entries() == old(self).backend_view().entries().insert(metadata.id, metadata),
            final(self).backend_view().type_index() == index_add(
                old(self).backend_view().type_index(),
                type_view(metadata.metadata_type),
                metadata.id,
            ),
            final(self).backend_view().entity_index() == index_add(
                old(self).backend_view().entity_index(),
                metadata.entity_id@,
                metadata.id,
            ),
    {
        self.backend.store(metadata)
    }

    /// Retrieve metadata by id.
    pub fn retrieve(&self, id: u128) -> (r: Result<Option<Metadata>, MetadataError>)
        ensures
            self.backend_view().entries().contains_key(id) ==> r == Ok::<Option<Metadata>, MetadataError>(
                Some(self.backend_view().entries()[id]),
            ),
            !self.backend_view().entries().contains_key(id) ==> r == Ok::<Option<Metadata>, MetadataError>(None),
    {
        self.backend.retrieve(id)
    }

    /// Delete metadata (see [`InMemoryMetadataStorage::delete`]).
    pub fn delete(&mut self, id: u128) -> (r: Result<(), MetadataError>)
        requires
            old(self).backend_view().wf(),
        ensures
            final(self).backend_view().wf(),
            r is Ok,
            final(self).backend_view().entries() == old(self).backend_view().entries().remove(id),
    {
        self.backend.delete(id)
    }

    /// Update metadata (see [`InMemoryMetadataStorage::update`]).
    pub fn update(&mut self, metadata: Metadata) -> (r: Result<(), MetadataError>)
        requires
            old(self).backend_view().wf(),
        ensures
            final(self).backend_view().wf(),
            r is Ok,
            final(self).backend_view().entries() == old(self).backend_view().entries().insert(metadata.id, metadata),
    {
        self.backend.update(metadata)
    }

    /// List metadata by kind (see [`InMemoryMetadataStorage::list_by_type`]).
    pub fn list_by_type(&self, metadata_type: MetadataType) -> (r: Result<Vec<Metadata>, MetadataError>)
        requires
            self.backend_view().wf(),
        ensures
            r matches Ok(v) && v@ == present_entries(
                self.backend_view().entries(),
                if self.backend_view().type_index().contains_key(type_view(metadata_type)) {
                    self.backend_view().type_index()[type_view(metadata_type)]
                } else {
                    Seq::empty()
                },
            ),
    {
        self.backend.list_by_type(metadata_type)
    }

    /// List metadata by entity (see [`InMemoryMetadataStorage::list_by_entity`]).
    pub fn list_by_entity(&self, entity_id: &str) -> (r: Result<Vec<Metadata>, MetadataError>)
        requires
            self.backend_view().wf(),
        ensures
            r matches Ok(v) && v@ == present_entries(
                self.backend_view().entries(),
                if self.backend_view().entity_index().contains_key(entity_id@) {
                    self.backend_view().entity_index()[entity_id@]
                } else {
                    Seq::empty()
                },
            ),
    {
        self.backend.list_by_entity(entity_id)
    }
}

} // verus!
