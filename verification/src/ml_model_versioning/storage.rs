//! The in-memory model registry: models, their versions, and the
//! versions' binaries.

use vstd::prelude::*;
use crate::clock::utc_now;
use crate::keyed::{
    itself, key_satisfies, keyed, keys_distinct, lemma_keyed, lemma_keyed_filter, lemma_keyed_len, lemma_keyed_map,
    lemma_keyed_push, lemma_keyed_remove, lemma_keyed_update, map_through, restrict_keys,
};
use crate::ml_model_versioning::error::ModelVersioningError;
use crate::ml_model_versioning::types::{
    CreateVersionRequest, ModelBinary, ModelMetadata, ModelVersion, RegistryStats, UpdateVersionRequest,
    VersionQuery, VersionQueryResult, checksum_of, compute_checksum,
};
use crate::ml_model_versioning::ranking::{deref_version, sort_versions, sorted_on};
use crate::text::str_eq;

verus! {

/// The model id under which a model entry is stored.
pub open spec fn entry_id() -> spec_fn((String, ModelMetadata)) -> Seq<char> {
    |e: (String, ModelMetadata)| e.0@
}

/// The metadata of a model entry.
pub open spec fn entry_metadata() -> spec_fn((String, ModelMetadata)) -> ModelMetadata {
    |e: (String, ModelMetadata)| e.1
}

/// The key of a version: its model id and its version id.
pub open spec fn version_key() -> spec_fn(ModelVersion) -> (Seq<char>, Seq<char>) {
    |v: ModelVersion| (v.model_id@, v.version@)
}

/// The key of a stored binary: its model id and its version id.
pub open spec fn binary_key() -> spec_fn((String, String, Vec<u8>)) -> (Seq<char>, Seq<char>) {
    |b: (String, String, Vec<u8>)| (b.0@, b.1@)
}

/// The bytes of a stored binary.
pub open spec fn binary_bytes() -> spec_fn((String, String, Vec<u8>)) -> Seq<u8> {
    |b: (String, String, Vec<u8>)| b.2@
}

/// The characters of a string.
pub open spec fn chars_of() -> spec_fn(String) -> Seq<char> {
    |s: String| s@
}

/// At most one version of each model is the default.
pub open spec fn one_default_per_model(vs: Map<(Seq<char>, Seq<char>), ModelVersion>) -> bool {
    forall|a: (Seq<char>, Seq<char>), b: (Seq<char>, Seq<char>)|
        vs.contains_key(a) && vs.contains_key(b) && a.0 == b.0 && #[trigger] vs[a].is_default
            && #[trigger] vs[b].is_default ==> a == b
}

/// The keys whose model id is not `id`.
pub open spec fn other_model(id: Seq<char>) -> spec_fn((Seq<char>, Seq<char>)) -> bool {
    |k: (Seq<char>, Seq<char>)| k.0 != id
}

/// A version of model `id` loses its default flag; others stay.
pub open spec fn undefault(id: Seq<char>) -> spec_fn(ModelVersion) -> ModelVersion {
    |v: ModelVersion| if v.model_id@ == id { ModelVersion { is_default: false, ..v } } else { v }
}

/// The storage location of a version kept in memory.
pub open spec fn memory_location(model_id: Seq<char>, version: Seq<char>) -> Seq<char> {
    "memory://"@ + model_id + "/"@ + version
}

/// The message of a conflict on an existing version.
pub open spec fn version_exists_message(version: Seq<char>, model_id: Seq<char>) -> Seq<char> {
    "Version '"@ + version + "' of model '"@ + model_id + "' already exists"@
}

/// `v` is the version that `req` creates, but for its creation time.
pub open spec fn is_new_version(v: ModelVersion, req: CreateVersionRequest) -> bool {
    &&& v.model_id@ == req.model_id@
    &&& v.version@ == req.version@
    &&& v.semver == req.semver
    &&& v.changelog == req.changelog
    &&& v.checksum@ == checksum_of(req.data@)
    &&& v.size_bytes == req.data@.len()
    &&& v.storage_location@ == memory_location(req.model_id@, req.version@)
    &&& v.dependencies == req.dependencies
    &&& v.metrics == req.metrics
    &&& v.hyperparameters == req.hyperparameters
    &&& v.training_data == req.training_data
    &&& v.is_default == req.set_as_default
    &&& !v.is_deprecated
    &&& v.author == req.author
}

/// The versions after one is added for `model_id`: when it becomes the
/// default, every other version of that model stops being one.
pub open spec fn versions_before_add(
    vs: Map<(Seq<char>, Seq<char>), ModelVersion>,
    model_id: Seq<char>,
    becomes_default: bool,
) -> Map<(Seq<char>, Seq<char>), ModelVersion> {
    if becomes_default { map_through(vs, undefault(model_id)) } else { vs }
}

/// Model `id` has a default version.
pub open spec fn has_default(vs: Map<(Seq<char>, Seq<char>), ModelVersion>, id: Seq<char>) -> bool {
    exists|k: (Seq<char>, Seq<char>)| #[trigger] vs.contains_key(k) && k.0 == id && vs[k].is_default
}

/// A version after `update`.
pub open spec fn updated_version(v: ModelVersion, update: UpdateVersionRequest) -> ModelVersion {
    ModelVersion {
        changelog: match update.changelog { Some(c) => c, None => v.changelog },
        dependencies: match update.dependencies { Some(d) => d, None => v.dependencies },
        metrics: match update.metrics { Some(m) => m, None => v.metrics },
        is_deprecated: match update.deprecate { Some(d) => d, None => v.is_deprecated },
        is_default: match update.set_as_default { Some(d) => d, None => v.is_default },
        ..v
    }
}

/// The versions a query starts from: those of its model, or all.
pub open spec fn in_query_scope(model_id: Option<String>) -> spec_fn(ModelVersion) -> bool {
    |v: ModelVersion|
        match model_id {
            Some(m) => v.model_id@ == m@,
            None => true,
        }
}

/// The offset of a query: 0 when it gives none.
pub open spec fn query_offset(query: VersionQuery) -> nat {
    match query.offset {
        Some(o) => o as nat,
        None => 0,
    }
}

/// The limit of a query: `usize::MAX` when it gives none.
pub open spec fn query_limit(query: VersionQuery) -> nat {
    match query.limit {
        Some(l) => l as nat,
        None => usize::MAX as nat,
    }
}

/// `s` is in the order that a query asks for: ascending, or descending
/// when `sort_desc` is set; any order when it names no sort field.
pub open spec fn arranged(query: VersionQuery, s: Seq<ModelVersion>) -> bool {
    match query.sort_by {
        None => true,
        Some(f) => if query.sort_desc { sorted_on(f, s.reverse()) } else { sorted_on(f, s) },
    }
}

/// The page of `s` that starts at `offset` and holds at most `limit`
/// versions.
pub open spec fn query_page(s: Seq<ModelVersion>, offset: nat, limit: nat) -> Seq<ModelVersion> {
    if offset < s.len() {
        s.subrange(offset as int, if offset + limit < s.len() { (offset + limit) as int } else { s.len() as int })
    } else {
        Seq::empty()
    }
}

/// The number of models of `ms` whose framework is `f`.
pub open spec fn framework_count(ms: Seq<ModelMetadata>, f: Seq<char>) -> nat
    decreases ms.len(),
{
    if ms.len() == 0 {
        0
    } else {
        framework_count(ms.drop_last(), f) + if ms.last().framework@ == f { 1nat } else { 0nat }
    }
}

/// The number of versions of `vs` that belong to model `id`.
pub open spec fn version_count(vs: Seq<ModelVersion>, id: Seq<char>) -> nat
    decreases vs.len(),
{
    if vs.len() == 0 {
        0
    } else {
        version_count(vs.drop_last(), id) + if vs.last().model_id@ == id { 1nat } else { 0nat }
    }
}

/// The number of versions of the models of `ms` whose type is `t`, each
/// model counted by its id, once for each time it occurs in `ms`.
pub open spec fn type_version_count(ms: Seq<ModelMetadata>, vs: Seq<ModelVersion>, t: Seq<char>) -> nat
    decreases ms.len(),
{
    if ms.len() == 0 {
        0
    } else {
        type_version_count(ms.drop_last(), vs, t) + if ms.last().model_type@ == t {
            version_count(vs, ms.last().id@)
        } else {
            0nat
        }
    }
}

/// The total size of stored binaries.
pub open spec fn byte_count(bs: Seq<(String, String, Vec<u8>)>) -> nat
    decreases bs.len(),
{
    if bs.len() == 0 {
        0
    } else {
        byte_count(bs.drop_last()) + bs.last().2@.len()
    }
}

/// `table` counts by key: each key once, with its count, and every key
/// of `keys` in it, and no other.
pub open spec fn counts_by_key(table: Seq<(String, usize)>, keys: Seq<Seq<char>>, count: spec_fn(Seq<char>) -> nat) -> bool {
    &&& forall|a: int, b: int| 0 <= a < table.len() && 0 <= b < table.len() && a != b ==> (#[trigger] table[a]).0@
        != (#[trigger] table[b]).0@
    &&& forall|a: int| 0 <= a < table.len() ==> (#[trigger] table[a]).1 == count(table[a].0@) && keys.contains(
        table[a].0@,
    )
    &&& forall|j: int| 0 <= j < keys.len() ==> exists|a: int| 0 <= a < table.len() && (#[trigger] table[a]).0@
        == #[trigger] keys[j]
}

/// The message of a conflict on an existing model.
pub open spec fn model_exists_message(id: Seq<char>) -> Seq<char> {
    "Model '"@ + id + "' already exists"@
}

/// In-memory storage backend.
pub struct InMemoryStorage {
    models: Vec<(String, ModelMetadata)>,
    version_tables: Vec<String>,
    versions: Vec<ModelVersion>,
    binaries: Vec<(String, String, Vec<u8>)>,
}

impl InMemoryStorage {
    /// The models, by the id under which each was stored.
    pub closed spec fn models_view(&self) -> Map<Seq<char>, ModelMetadata> {
        keyed(self.models@, entry_id(), entry_metadata())
    }

    /// The models that have a version table: those a version was once
    /// created for, until the model is deleted.
    pub closed spec fn tables_view(&self) -> Set<Seq<char>> {
        keyed(self.version_tables@, chars_of(), chars_of()).dom()
    }

    /// The versions, by model id and version id.
    pub closed spec fn versions_view(&self) -> Map<(Seq<char>, Seq<char>), ModelVersion> {
        keyed(self.versions@, version_key(), itself())
    }

    /// The stored binaries, by model id and version id.
    pub closed spec fn binaries_view(&self) -> Map<(Seq<char>, Seq<char>), Seq<u8>> {
        keyed(self.binaries@, binary_key(), binary_bytes())
    }

    /// The versions in the order they were created.
    pub closed spec fn version_seq(&self) -> Seq<ModelVersion> {
        self.versions@
    }

    /// The ids under which the models are stored, in the order they were
    /// created.
    pub closed spec fn model_ids(&self) -> Seq<Seq<char>> {
        self.models@.map_values(|e: (String, ModelMetadata)| e.0@)
    }

    /// The registry's invariant: keys are distinct, every version's model
    /// has a version table, and each model has at most one default version.
    pub closed spec fn wf(&self) -> bool {
        &&& keys_distinct(self.models@, entry_id())
        &&& keys_distinct(self.version_tables@, chars_of())
        &&& keys_distinct(self.versions@, version_key())
        &&& keys_distinct(self.binaries@, binary_key())
        &&& forall|k: (Seq<char>, Seq<char>)| #[trigger] self.versions_view().contains_key(k)
            ==> self.tables_view().contains(k.0)
        &&& one_default_per_model(self.versions_view())
    }

    /// Create a new, empty in-memory storage.
    pub fn new() -> (r: Self)
        ensures
            r.wf(),
            r.models_view() == Map::<Seq<char>, ModelMetadata>::empty(),
            r.tables_view() == Set::<Seq<char>>::empty(),
            r.versions_view() == Map::<(Seq<char>, Seq<char>), ModelVersion>::empty(),
            r.binaries_view() == Map::<(Seq<char>, Seq<char>), Seq<u8>>::empty(),
    {
        let r = InMemoryStorage { models: Vec::new(), version_tables: Vec::new(), versions: Vec::new(), binaries: Vec::new() };
        assert(r.tables_view() =~= Set::<Seq<char>>::empty());
        r
    }

    /// The ids of the stored models are distinct and are exactly the keys
    /// of the models' view.
    pub proof fn lemma_model_ids(&self)
        requires
            self.wf(),
        ensures
            self.model_ids().no_duplicates(),
            self.model_ids().len() == self.models_view().len(),
            forall|k: Seq<char>| #[trigger] self.models_view().contains_key(k) <==> self.model_ids().contains(k),
    {
        lemma_keyed(self.models@, entry_id(), entry_metadata());
        let ids = self.model_ids();
        assert forall|a: int, b: int| 0 <= a < ids.len() && 0 <= b < ids.len() && a != b implies ids[a] != ids[b] by {
            assert(ids[a] == entry_id()(self.models@[a]));
            assert(ids[b] == entry_id()(self.models@[b]));
        }
        assert forall|k: Seq<char>| #[trigger] self.models_view().contains_key(k) <==> ids.contains(k) by {
            if self.models_view().contains_key(k) {
                let i = choose|i: int| 0 <= i < self.models@.len() && entry_id()(#[trigger] self.models@[i]) == k;
                assert(ids[i] == k);
            }
            if ids.contains(k) {
                let i = choose|i: int| 0 <= i < ids.len() && ids[i] == k;
                assert(entry_id()(self.models@[i]) == k);
            }
        }
        assert(self.models_view().dom() =~= ids.to_set());
        ids.unique_seq_to_set();
    }

    fn find_model(&self, id: &str) -> (r: Option<usize>)
        requires
            self.wf(),
        ensures
            match r {
                Some(i) => i < self.models@.len() && self.models@[i as int].0@ == id@,
                None => !self.models_view().contains_key(id@),
            },
    {
        proof { lemma_keyed(self.models@, entry_id(), entry_metadata()); }
        let n = self.models.len();
        let mut i: usize = 0;
        while i < n
            invariant
                n == self.models@.len(),
                i <= n,
                forall|j: int| 0 <= j < i ==> self.models@[j].0@ != id@,
            decreases n - i,
        {
            if str_eq(self.models[i].0.as_str(), id) {
                return Some(i);
            }
            i = i + 1;
        }
        None
    }

    /// Create a new model entry; a model with the same id must not exist.
    pub fn create_model(&mut self, metadata: ModelMetadata) -> (r: Result<(), ModelVersioningError>)
        requires
            old(self).wf(),
        ensures
            final(self).wf(),
            final(self).tables_view() == old(self).tables_view(),
            final(self).versions_view() == old(self).versions_view(),
            final(self).binaries_view() == old(self).binaries_view(),
            old(self).models_view().contains_key(metadata.id@) ==> {
                &&& r matches Err(ModelVersioningError::Conflict(m)) && m@ == model_exists_message(metadata.id@)
                &&& final(self).models_view() == old(self).models_view()
            },
            !old(self).models_view().contains_key(metadata.id@) ==> {
                &&& r is Ok
                &&& final(self).models_view() == old(self).models_view().insert(metadata.id@, metadata)
            },
    {
        if let Some(_) = self.find_model(metadata.id.as_str()) {
            proof { lemma_keyed(self.models@, entry_id(), entry_metadata()); }
            let mut m = String::from_str("Model '");
            m.append(metadata.id.as_str());
            m.append("' already exists");
            proof { reveal_strlit("Model '"); reveal_strlit("' already exists"); }
            return Err(ModelVersioningError::Conflict(m));
        }
        let id = metadata.id.clone();
        proof { lemma_keyed_push(self.models@, entry_id(), entry_metadata(), (id, metadata)); }
        self.models.push((id, metadata));
        Ok(())
    }

    /// Get model metadata by id.
    pub fn get_model(&self, model_id: &str) -> (r: Result<&ModelMetadata, ModelVersioningError>)
        requires
            self.wf(),
        ensures
            self.models_view().contains_key(model_id@) ==> (r matches Ok(m) && *m == self.models_view()[model_id@]),
            !self.models_view().contains_key(model_id@) ==> (r matches Err(ModelVersioningError::ModelNotFound(m))
                && m@ == model_id@),
    {
        match self.find_model(model_id) {
            Some(i) => {
                proof { lemma_keyed(self.models@, entry_id(), entry_metadata()); }
                Ok(&self.models[i].1)
            },
            None => Err(ModelVersioningError::ModelNotFound(String::from_str(model_id))),
        }
    }
}

impl InMemoryStorage {
    fn find_table(&self, id: &str) -> (r: Option<usize>)
        requires
            self.wf(),
        ensures
            match r {
                Some(i) => i < self.version_tables@.len() && self.version_tables@[i as int]@ == id@
                    && self.tables_view().contains(id@),
                None => !self.tables_view().contains(id@),
            },
    {
        proof { lemma_keyed(self.version_tables@, chars_of(), chars_of()); }
        let n = self.version_tables.len();
        let mut i: usize = 0;
        while i < n
            invariant
                n == self.version_tables@.len(),
                i <= n,
                self.wf(),
                forall|j: int| 0 <= j < i ==> self.version_tables@[j]@ != id@,
            decreases n - i,
        {
            if str_eq(self.version_tables[i].as_str(), id) {
                proof { lemma_keyed(self.version_tables@, chars_of(), chars_of()); }
                return Some(i);
            }
            i = i + 1;
        }
        None
    }

    /// List all models: each stored model once, in the order of
    /// [`Self::model_ids`].
    pub fn list_models(&self) -> (r: Vec<&ModelMetadata>)
        requires
            self.wf(),
        ensures
            r@.len() == self.model_ids().len(),
            forall|i: int| 0 <= i < r@.len() ==> *r@[i] == self.models_view()[#[trigger] self.model_ids()[i]],
    {
        proof { lemma_keyed(self.models@, entry_id(), entry_metadata()); }
        let mut r: Vec<&ModelMetadata> = Vec::new();
        let n = self.models.len();
        let mut i: usize = 0;
        while i < n
            invariant
                n == self.models@.len(),
                i <= n,
                r@.len() == i,
                forall|j: int| 0 <= j < i ==> *r@[j] == self.models@[j].1,
            decreases n - i,
        {
            r.push(&self.models[i].1);
            i = i + 1;
        }
        assert forall|i: int| 0 <= i < r@.len() implies *r@[i] == self.models_view()[#[trigger] self.model_ids()[i]] by {
            assert(self.model_ids()[i] == entry_id()(self.models@[i]));
        }
        r
    }

    /// Update model metadata, stored under `model_id`, which must exist.
    pub fn update_model(&mut self, model_id: &str, metadata: ModelMetadata) -> (r: Result<(), ModelVersioningError>)
        requires
            old(self).wf(),
        ensures
            final(self).wf(),
            final(self).tables_view() == old(self).tables_view(),
            final(self).versions_view() == old(self).versions_view(),
            final(self).binaries_view() == old(self).binaries_view(),
            old(self).models_view().contains_key(model_id@) ==> {
                &&& r is Ok
                &&& final(self).models_view() == old(self).models_view().insert(model_id@, metadata)
            },
            !old(self).models_view().contains_key(model_id@) ==> {
                &&& r matches Err(ModelVersioningError::ModelNotFound(m)) && m@ == model_id@
                &&& final(self).models_view() == old(self).models_view()
            },
    {
        proof { lemma_keyed(self.models@, entry_id(), entry_metadata()); }
        match self.find_model(model_id) {
            None => Err(ModelVersioningError::ModelNotFound(String::from_str(model_id))),
            Some(i) => {
                let key = self.models[i].0.clone();
                let entry = (key, metadata);
                proof { lemma_keyed_update(self.models@, entry_id(), entry_metadata(), i as int, entry); }
                self.models.set(i, entry);
                Ok(())
            },
        }
    }

    /// Delete a model with all its versions and binaries.
    pub fn delete_model(&mut self, model_id: &str) -> (r: Result<(), ModelVersioningError>)
        requires
            old(self).wf(),
        ensures
            final(self).wf(),
            r is Ok,
            final(self).models_view() == old(self).models_view().remove(model_id@),
            final(self).tables_view() == old(self).tables_view().remove(model_id@),
            final(self).versions_view() == restrict_keys(old(self).versions_view(), other_model(model_id@)),
            final(self).binaries_view() == restrict_keys(old(self).binaries_view(), other_model(model_id@)),
    {
        if let Some(i) = self.find_model(model_id) {
            proof { lemma_keyed_remove(self.models@, entry_id(), entry_metadata(), i as int); }
            self.models.remove(i);
        } else {
            assert(old(self).models_view().remove(model_id@) =~= old(self).models_view());
        }
        if let Some(i) = self.find_table(model_id) {
            proof { lemma_keyed_remove(self.version_tables@, chars_of(), chars_of(), i as int); }
            self.version_tables.remove(i);
            assert(self.tables_view() =~= old(self).tables_view().remove(model_id@));
        } else {
            assert(old(self).tables_view().remove(model_id@) =~= old(self).tables_view());
        }
        let ghost q = other_model(model_id@);
        let ghost pv = key_satisfies(version_key(), q);
        let mut rest: Vec<ModelVersion> = Vec::new();
        std::mem::swap(&mut rest, &mut self.versions);
        let ghost orig = rest@;
        let mut kept: Vec<ModelVersion> = Vec::new();
        let n = rest.len();
        let mut i: usize = 0;
        while i < n
            invariant
                n == orig.len(),
                i <= n,
                rest@ == orig.subrange(i as int, n as int),
                kept@ == orig.subrange(0, i as int).filter(pv),
                pv == key_satisfies(version_key(), other_model(model_id@)),
            decreases n - i,
        {
            let x = rest.remove(0);
            let ghost before = kept@;
            if !str_eq(x.model_id.as_str(), model_id) {
                kept.push(x);
            }
            proof {
                reveal_with_fuel(Seq::filter, 1);
                let sub = orig.subrange(0, i + 1);
                assert(sub.drop_last() =~= orig.subrange(0, i as int));
                assert(sub.last() == x);
                assert(kept@ == sub.filter(pv));
            }
            i = i + 1;
            proof { assert(rest@ =~= orig.subrange(i as int, n as int)); }
        }
        assert(orig.subrange(0, n as int) =~= orig);
        proof { lemma_keyed_filter(orig, version_key(), itself(), q); }
        self.versions = kept;
        let ghost pb = key_satisfies(binary_key(), q);
        let mut brest: Vec<(String, String, Vec<u8>)> = Vec::new();
        std::mem::swap(&mut brest, &mut self.binaries);
        let ghost borig = brest@;
        let mut bkept: Vec<(String, String, Vec<u8>)> = Vec::new();
        let bn = brest.len();
        let mut j: usize = 0;
        while j < bn
            invariant
                bn == borig.len(),
                j <= bn,
                brest@ == borig.subrange(j as int, bn as int),
                bkept@ == borig.subrange(0, j as int).filter(pb),
                pb == key_satisfies(binary_key(), other_model(model_id@)),
            decreases bn - j,
        {
            let x = brest.remove(0);
            if !str_eq(x.0.as_str(), model_id) {
                bkept.push(x);
            }
            proof {
                reveal_with_fuel(Seq::filter, 1);
                let sub = borig.subrange(0, j + 1);
                assert(sub.drop_last() =~= borig.subrange(0, j as int));
                assert(sub.last() == x);
                assert(bkept@ == sub.filter(pb));
            }
            j = j + 1;
            proof { assert(brest@ =~= borig.subrange(j as int, bn as int)); }
        }
        assert(borig.subrange(0, bn as int) =~= borig);
        proof { lemma_keyed_filter(borig, binary_key(), binary_bytes(), q); }
        self.binaries = bkept;
        Ok(())
    }
}

impl InMemoryStorage {
    fn find_version(&self, model_id: &str, version_id: &str) -> (r: Option<usize>)
        requires
            self.wf(),
        ensures
            match r {
                Some(i) => i < self.versions@.len() && self.versions@[i as int].model_id@ == model_id@
                    && self.versions@[i as int].version@ == version_id@
                    && self.versions_view().contains_key((model_id@, version_id@))
                    && self.versions_view()[(model_id@, version_id@)] == self.versions@[i as int],
                None => !self.versions_view().contains_key((model_id@, version_id@)),
            },
    {
        proof { lemma_keyed(self.versions@, version_key(), itself()); }
        let n = self.versions.len();
        let mut i: usize = 0;
        while i < n
            invariant
                n == self.versions@.len(),
                i <= n,
                self.wf(),
                forall|j: int| 0 <= j < i ==> version_key()(self.versions@[j]) != (model_id@, version_id@),
            decreases n - i,
        {
            if str_eq(self.versions[i].model_id.as_str(), model_id) && str_eq(self.versions[i].version.as_str(), version_id) {
                proof { lemma_keyed(self.versions@, version_key(), itself()); }
                return Some(i);
            }
            i = i + 1;
        }
        None
    }

    fn find_binary(&self, model_id: &str, version_id: &str) -> (r: Option<usize>)
        requires
            self.wf(),
        ensures
            match r {
                Some(i) => i < self.binaries@.len() && self.binaries@[i as int].0@ == model_id@
                    && self.binaries@[i as int].1@ == version_id@
                    && self.binaries_view().contains_key((model_id@, version_id@))
                    && self.binaries_view()[(model_id@, version_id@)] == self.binaries@[i as int].2@,
                None => !self.binaries_view().contains_key((model_id@, version_id@)),
            },
    {
        proof { lemma_keyed(self.binaries@, binary_key(), binary_bytes()); }
        let n = self.binaries.len();
        let mut i: usize = 0;
        while i < n
            invariant
                n == self.binaries@.len(),
                i <= n,
                self.wf(),
                forall|j: int| 0 <= j < i ==> binary_key()(self.binaries@[j]) != (model_id@, version_id@),
            decreases n - i,
        {
            if str_eq(self.binaries[i].0.as_str(), model_id) && str_eq(self.binaries[i].1.as_str(), version_id) {
                proof { lemma_keyed(self.binaries@, binary_key(), binary_bytes()); }
                return Some(i);
            }
            i = i + 1;
        }
        None
    }

    /// Every version of `model_id` stops being the default.
    fn clear_defaults(&mut self, model_id: &str)
        requires
            old(self).wf(),
        ensures
            keys_distinct(final(self).versions@, version_key()),
            final(self).versions@ == old(self).versions@.map_values(undefault(model_id@)),
            final(self).versions_view() == map_through(old(self).versions_view(), undefault(model_id@)),
            final(self).models == old(self).models,
            final(self).version_tables == old(self).version_tables,
            final(self).binaries == old(self).binaries,
    {
        let ghost orig = self.versions@;
        let ghost f = undefault(model_id@);
        let n = self.versions.len();
        let mut i: usize = 0;
        while i < n
            invariant
                n == orig.len(),
                i <= n,
                self.versions@.len() == n,
                f == undefault(model_id@),
                forall|j: int| 0 <= j < i ==> self.versions@[j] == f(orig[j]),
                forall|j: int| i <= j < n ==> self.versions@[j] == orig[j],
                self.models == old(self).models,
                self.version_tables == old(self).version_tables,
                self.binaries == old(self).binaries,
            decreases n - i,
        {
            if self.versions[i].is_default && str_eq(self.versions[i].model_id.as_str(), model_id) {
                let mut v = self.versions.remove(i);
                v.is_default = false;
                self.versions.insert(i, v);
            }
            i = i + 1;
        }
        assert(self.versions@ =~= orig.map_values(f));
        proof { lemma_keyed_map(orig, version_key(), f); }
    }

    /// Create a new version of a model; the model must exist and the
    /// version must not. The version records the checksum and size of the
    /// data, which is stored as its binary; when it is made the default,
    /// the model's other versions stop being the default.
    pub fn create_version(&mut self, request: CreateVersionRequest) -> (r: Result<&ModelVersion, ModelVersioningError>)
        requires
            old(self).wf(),
        ensures
            final(self).wf(),
            final(self).models_view() == old(self).models_view(),
            !old(self).models_view().contains_key(request.model_id@) ==> {
                &&& r matches Err(ModelVersioningError::ModelNotFound(m)) && m@ == request.model_id@
                &&& final(self).tables_view() == old(self).tables_view()
                &&& final(self).versions_view() == old(self).versions_view()
                &&& final(self).binaries_view() == old(self).binaries_view()
            },
            old(self).models_view().contains_key(request.model_id@)
                && old(self).versions_view().contains_key((request.model_id@, request.version@)) ==> {
                &&& r matches Err(ModelVersioningError::Conflict(m))
                    && m@ == version_exists_message(request.version@, request.model_id@)
                &&& final(self).tables_view() == old(self).tables_view()
                &&& final(self).versions_view() == old(self).versions_view()
                &&& final(self).binaries_view() == old(self).binaries_view()
            },
            old(self).models_view().contains_key(request.model_id@)
                && !old(self).versions_view().contains_key((request.model_id@, request.version@)) ==> {
                &&& r matches Ok(v) && is_new_version(*v, request)
                    && final(self).versions_view() == versions_before_add(
                        old(self).versions_view(), request.model_id@, request.set_as_default,
                    ).insert((request.model_id@, request.version@), *v)
                &&& final(self).tables_view() == old(self).tables_view().insert(request.model_id@)
                &&& final(self).binaries_view() == old(self).binaries_view().insert(
                    (request.model_id@, request.version@), request.data@,
                )
            },
    {
        proof {
            lemma_keyed(self.versions@, version_key(), itself());
            lemma_keyed(self.models@, entry_id(), entry_metadata());
        }
        if self.find_model(request.model_id.as_str()).is_none() {
            return Err(ModelVersioningError::ModelNotFound(request.model_id));
        }
        if self.find_version(request.model_id.as_str(), request.version.as_str()).is_some() {
            let mut m = String::from_str("Version '");
            m.append(request.version.as_str());
            m.append("' of model '");
            m.append(request.model_id.as_str());
            m.append("' already exists");
            proof {
                reveal_strlit("Version '");
                reveal_strlit("' of model '");
                reveal_strlit("' already exists");
            }
            return Err(ModelVersioningError::Conflict(m));
        }
        if self.find_table(request.model_id.as_str()).is_none() {
            let t = request.model_id.clone();
            proof { lemma_keyed_push(self.version_tables@, chars_of(), chars_of(), t); }
            self.version_tables.push(t);
        } else {
            proof { lemma_keyed(self.version_tables@, chars_of(), chars_of()); }
        }
        assert(self.tables_view() =~= old(self).tables_view().insert(request.model_id@)) by {
            lemma_keyed(self.version_tables@, chars_of(), chars_of());
        }
        let checksum = compute_checksum(request.data.as_slice());
        let mut location = String::from_str("memory://");
        location.append(request.model_id.as_str());
        location.append("/");
        location.append(request.version.as_str());
        proof { reveal_strlit("memory://"); reveal_strlit("/"); }
        if request.set_as_default {
            self.clear_defaults(request.model_id.as_str());
        }
        let ghost before = self.versions_view();
        let model_id = request.model_id.clone();
        let version_id = request.version.clone();
        let size_bytes = request.data.len() as u64;
        let version = ModelVersion {
            model_id: request.model_id,
            version: request.version,
            semver: request.semver,
            changelog: request.changelog,
            checksum,
            size_bytes,
            storage_location: location,
            dependencies: request.dependencies,
            metrics: request.metrics,
            hyperparameters: request.hyperparameters,
            training_data: request.training_data,
            is_default: request.set_as_default,
            is_deprecated: false,
            created_at: utc_now(),
            author: request.author,
        };
        proof {
            assert(before.contains_key(version_key()(version)) == old(self).versions_view().contains_key(version_key()(version)));
            lemma_keyed_push(self.versions@, version_key(), itself(), version);
        }
        self.versions.push(version);
        let ghost vs = self.versions_view();
        assert forall|k: (Seq<char>, Seq<char>)| #[trigger] vs.contains_key(k) implies self.tables_view().contains(k.0) by {
            if k != (model_id@, version_id@) {
                assert(old(self).versions_view().contains_key(k));
            }
        }
        assert(one_default_per_model(vs)) by {
            assert forall|a: (Seq<char>, Seq<char>), b: (Seq<char>, Seq<char>)|
                vs.contains_key(a) && vs.contains_key(b) && a.0 == b.0 && #[trigger] vs[a].is_default
                    && #[trigger] vs[b].is_default implies a == b by {
                if a != (model_id@, version_id@) && b != (model_id@, version_id@) {
                    assert(old(self).versions_view().contains_key(a));
                    assert(old(self).versions_view().contains_key(b));
                } else if a != (model_id@, version_id@) || b != (model_id@, version_id@) {
                    assert(request.set_as_default);
                }
            }
        }
        let data = request.data;
        match self.find_binary(model_id.as_str(), version_id.as_str()) {
            Some(i) => {
                let entry = (model_id, version_id, data);
                proof { lemma_keyed_update(self.binaries@, binary_key(), binary_bytes(), i as int, entry); }
                self.binaries.set(i, entry);
            },
            None => {
                let entry = (model_id, version_id, data);
                proof { lemma_keyed_push(self.binaries@, binary_key(), binary_bytes(), entry); }
                self.binaries.push(entry);
            },
        }
        let n = self.versions.len();
        Ok(&self.versions[n - 1])
    }
}

impl InMemoryStorage {
    /// Get a specific version of a model.
    pub fn get_version(&self, model_id: &str, version_id: &str) -> (r: Result<&ModelVersion, ModelVersioningError>)
        requires
            self.wf(),
        ensures
            !self.tables_view().contains(model_id@) ==> (r matches Err(ModelVersioningError::ModelNotFound(m))
                && m@ == model_id@),
            self.tables_view().contains(model_id@) && self.versions_view().contains_key((model_id@, version_id@))
                ==> (r matches Ok(v) && *v == self.versions_view()[(model_id@, version_id@)]),
            self.tables_view().contains(model_id@) && !self.versions_view().contains_key((model_id@, version_id@))
                ==> (r matches Err(ModelVersioningError::VersionNotFound(v, m)) && v@ == version_id@
                && m@ == model_id@),
    {
        if self.find_table(model_id).is_none() {
            return Err(ModelVersioningError::ModelNotFound(String::from_str(model_id)));
        }
        match self.find_version(model_id, version_id) {
            Some(i) => Ok(&self.versions[i]),
            None => Err(
                ModelVersioningError::VersionNotFound(String::from_str(version_id), String::from_str(model_id)),
            ),
        }
    }

    /// Get the default version of a model.
    pub fn get_default_version(&self, model_id: &str) -> (r: Result<&ModelVersion, ModelVersioningError>)
        requires
            self.wf(),
        ensures
            !self.tables_view().contains(model_id@) ==> (r matches Err(ModelVersioningError::ModelNotFound(m))
                && m@ == model_id@),
            self.tables_view().contains(model_id@) && has_default(self.versions_view(), model_id@) ==> (r matches Ok(
                v,
            ) && v.is_default && v.model_id@ == model_id@ && self.versions_view().contains_key((model_id@, v.version@))
                && self.versions_view()[(model_id@, v.version@)] == *v),
            self.tables_view().contains(model_id@) && !has_default(self.versions_view(), model_id@) ==> (r matches Err(
                ModelVersioningError::VersionNotFound(v, m),
            ) && v@ == "default"@ && m@ == model_id@),
    {
        if self.find_table(model_id).is_none() {
            return Err(ModelVersioningError::ModelNotFound(String::from_str(model_id)));
        }
        proof { lemma_keyed(self.versions@, version_key(), itself()); }
        let n = self.versions.len();
        let mut i: usize = 0;
        while i < n
            invariant
                n == self.versions@.len(),
                i <= n,
                self.wf(),
                forall|j: int| 0 <= j < i ==> !(self.versions@[j].is_default && self.versions@[j].model_id@ == model_id@),
            decreases n - i,
        {
            if self.versions[i].is_default && str_eq(self.versions[i].model_id.as_str(), model_id) {
                proof { lemma_keyed(self.versions@, version_key(), itself()); }
                return Ok(&self.versions[i]);
            }
            i = i + 1;
        }
        proof {
            lemma_keyed(self.versions@, version_key(), itself());
            reveal_strlit("default");
            if has_default(self.versions_view(), model_id@) {
                let k = choose|k: (Seq<char>, Seq<char>)| #[trigger] self.versions_view().contains_key(k) && k.0 == model_id@
                    && self.versions_view()[k].is_default;
                let j = choose|j: int| 0 <= j < self.versions@.len() && version_key()(#[trigger] self.versions@[j]) == k;
                assert(self.versions_view()[k] == self.versions@[j]);
            }
        }
        Err(ModelVersioningError::VersionNotFound(String::from_str("default"), String::from_str(model_id)))
    }

    /// List all versions of a model: each stored version of the model
    /// once.
    pub fn list_versions(&self, model_id: &str) -> (r: Result<Vec<&ModelVersion>, ModelVersioningError>)
        requires
            self.wf(),
        ensures
            !self.tables_view().contains(model_id@) ==> (r matches Err(ModelVersioningError::ModelNotFound(m))
                && m@ == model_id@),
            self.tables_view().contains(model_id@) ==> (r matches Ok(vs) && {
                &&& forall|i: int| 0 <= i < vs@.len() ==> (#[trigger] vs@[i]).model_id@ == model_id@
                    && self.versions_view().contains_key((model_id@, vs@[i].version@))
                    && self.versions_view()[(model_id@, vs@[i].version@)] == *vs@[i]
                &&& forall|i: int, j: int| 0 <= i < vs@.len() && 0 <= j < vs@.len() && i != j
                    ==> (#[trigger] vs@[i]).version@ != (#[trigger] vs@[j]).version@
                &&& forall|k: (Seq<char>, Seq<char>)| #[trigger] self.versions_view().contains_key(k) && k.0 == model_id@
                    ==> exists|i: int| 0 <= i < vs@.len() && (#[trigger] vs@[i]).version@ == k.1
            }),
    {
        if self.find_table(model_id).is_none() {
            return Err(ModelVersioningError::ModelNotFound(String::from_str(model_id)));
        }
        let mut r: Vec<&ModelVersion> = Vec::new();
        let ghost mut idx: Seq<int> = Seq::empty();
        let n = self.versions.len();
        let mut i: usize = 0;
        while i < n
            invariant
                n == self.versions@.len(),
                i <= n,
                self.wf(),
                r@.len() == idx.len(),
                forall|a: int| 0 <= a < idx.len() ==> 0 <= #[trigger] idx[a] < i && *r@[a] == self.versions@[idx[a]],
                forall|a: int, b: int| 0 <= a < b < idx.len() ==> idx[a] < idx[b],
                forall|a: int| 0 <= a < r@.len() ==> (#[trigger] r@[a]).model_id@ == model_id@,
                forall|j: int| 0 <= j < i && self.versions@[j].model_id@ == model_id@ ==> exists|a: int|
                    0 <= a < idx.len() && #[trigger] idx[a] == j,
            decreases n - i,
        {
            let ghost old_idx = idx;
            if str_eq(self.versions[i].model_id.as_str(), model_id) {
                r.push(&self.versions[i]);
                proof { idx = idx.push(i as int); }
            }
            proof {
                assert forall|j: int| 0 <= j < i + 1 && self.versions@[j].model_id@ == model_id@ implies exists|a: int|
                    0 <= a < idx.len() && #[trigger] idx[a] == j by {
                    if j < i {
                        let a = choose|a: int| 0 <= a < old_idx.len() && #[trigger] old_idx[a] == j;
                        assert(idx[a] == j);
                    } else {
                        assert(idx[idx.len() - 1] == j);
                    }
                }
            }
            i = i + 1;
        }
        proof {
            lemma_keyed(self.versions@, version_key(), itself());
            assert forall|a: int| 0 <= a < r@.len() implies (#[trigger] r@[a]).model_id@ == model_id@
                && self.versions_view().contains_key((model_id@, r@[a].version@))
                && self.versions_view()[(model_id@, r@[a].version@)] == *r@[a] by {
                assert(version_key()(self.versions@[idx[a]]) == (model_id@, r@[a].version@));
            }
            assert forall|a: int, b: int| 0 <= a < r@.len() && 0 <= b < r@.len() && a != b
                implies (#[trigger] r@[a]).version@ != (#[trigger] r@[b]).version@ by {
                if a < b {
                    assert(idx[a] < idx[b]);
                } else {
                    assert(idx[b] < idx[a]);
                }
                assert(version_key()(self.versions@[idx[a]]) != version_key()(self.versions@[idx[b]]));
            }
            assert forall|k: (Seq<char>, Seq<char>)| #[trigger] self.versions_view().contains_key(k) && k.0 == model_id@
                implies exists|a: int| 0 <= a < r@.len() && (#[trigger] r@[a]).version@ == k.1 by {
                let j = choose|j: int| 0 <= j < self.versions@.len() && version_key()(#[trigger] self.versions@[j]) == k;
                let a = choose|a: int| 0 <= a < idx.len() && #[trigger] idx[a] == j;
                assert(r@[a].version@ == k.1);
            }
        }
        Ok(r)
    }
}

impl InMemoryStorage {
    /// Update version metadata: each field that the update carries is
    /// replaced; making a version the default makes every other version of
    /// its model stop being one.
    pub fn update_version(&mut self, model_id: &str, version_id: &str, update: UpdateVersionRequest) -> (r: Result<
        &ModelVersion,
        ModelVersioningError,
    >)
        requires
            old(self).wf(),
        ensures
            final(self).wf(),
            final(self).models_view() == old(self).models_view(),
            final(self).tables_view() == old(self).tables_view(),
            final(self).binaries_view() == old(self).binaries_view(),
            !old(self).tables_view().contains(model_id@) ==> {
                &&& r matches Err(ModelVersioningError::ModelNotFound(m)) && m@ == model_id@
                &&& final(self).versions_view() == old(self).versions_view()
            },
            old(self).tables_view().contains(model_id@) && !old(self).versions_view().contains_key(
                (model_id@, version_id@),
            ) ==> {
                &&& r matches Err(ModelVersioningError::VersionNotFound(v, m)) && v@ == version_id@ && m@ == model_id@
                &&& final(self).versions_view() == old(self).versions_view()
            },
            old(self).tables_view().contains(model_id@) && old(self).versions_view().contains_key(
                (model_id@, version_id@),
            ) ==> {
                let v = updated_version(old(self).versions_view()[(model_id@, version_id@)], update);
                &&& r matches Ok(u) && *u == v
                &&& final(self).versions_view() == versions_before_add(
                    old(self).versions_view(), model_id@, update.set_as_default == Some(true),
                ).insert((model_id@, version_id@), v)
            },
    {
        if self.find_table(model_id).is_none() {
            return Err(ModelVersioningError::ModelNotFound(String::from_str(model_id)));
        }
        if self.find_version(model_id, version_id).is_none() {
            return Err(
                ModelVersioningError::VersionNotFound(String::from_str(version_id), String::from_str(model_id)),
            );
        }
        let i = match self.find_version(model_id, version_id) {
            Some(i) => i,
            None => {
                return Err(
                    ModelVersioningError::VersionNotFound(String::from_str(version_id), String::from_str(model_id)),
                );
            },
        };
        let ghost key = (model_id@, version_id@);
        let ghost target = updated_version(old(self).versions_view()[key], update);
        let make_default = match update.set_as_default {
            Some(d) => d,
            None => false,
        };
        if make_default {
            self.clear_defaults(model_id);
        }
        let ghost mid = self.versions@;
        let ghost mid_view = self.versions_view();
        assert(mid_view == versions_before_add(old(self).versions_view(), model_id@, make_default));
        let mut v = self.versions.remove(i);
        if let Some(c) = update.changelog {
            v.changelog = c;
        }
        if let Some(d) = update.dependencies {
            v.dependencies = d;
        }
        if let Some(m) = update.metrics {
            v.metrics = m;
        }
        if let Some(d) = update.deprecate {
            v.is_deprecated = d;
        }
        if let Some(d) = update.set_as_default {
            v.is_default = d;
        }
        assert(v == target);
        self.versions.insert(i, v);
        proof {
            assert(self.versions@ =~= mid.update(i as int, v));
            lemma_keyed_update(mid, version_key(), itself(), i as int, v);
            lemma_keyed(old(self).versions@, version_key(), itself());
            let vs = self.versions_view();
            assert forall|k: (Seq<char>, Seq<char>)| #[trigger] vs.contains_key(k) implies self.tables_view().contains(k.0) by {
                assert(old(self).versions_view().contains_key(k));
            }
            assert forall|a: (Seq<char>, Seq<char>), b: (Seq<char>, Seq<char>)|
                vs.contains_key(a) && vs.contains_key(b) && a.0 == b.0 && #[trigger] vs[a].is_default
                    && #[trigger] vs[b].is_default implies a == b by {
                if a != key && b != key {
                    assert(old(self).versions_view().contains_key(a));
                    assert(old(self).versions_view().contains_key(b));
                } else if a != key || b != key {
                    if !make_default {
                        assert(old(self).versions_view().contains_key(a));
                        assert(old(self).versions_view().contains_key(b));
                    }
                }
            }
        }
        Ok(&self.versions[i])
    }
}

impl InMemoryStorage {
    /// Delete a version and its binary.
    pub fn delete_version(&mut self, model_id: &str, version_id: &str) -> (r: Result<(), ModelVersioningError>)
        requires
            old(self).wf(),
        ensures
            final(self).wf(),
            r is Ok,
            final(self).models_view() == old(self).models_view(),
            final(self).tables_view() == old(self).tables_view(),
            final(self).versions_view() == old(self).versions_view().remove((model_id@, version_id@)),
            final(self).binaries_view() == old(self).binaries_view().remove((model_id@, version_id@)),
    {
        match self.find_version(model_id, version_id) {
            Some(i) => {
                proof { lemma_keyed_remove(self.versions@, version_key(), itself(), i as int); }
                self.versions.remove(i);
                let ghost vs = self.versions_view();
                assert forall|k: (Seq<char>, Seq<char>)| #[trigger] vs.contains_key(k) implies self.tables_view().contains(k.0) by {
                    assert(old(self).versions_view().contains_key(k));
                }
                assert forall|a: (Seq<char>, Seq<char>), b: (Seq<char>, Seq<char>)|
                    vs.contains_key(a) && vs.contains_key(b) && a.0 == b.0 && #[trigger] vs[a].is_default
                        && #[trigger] vs[b].is_default implies a == b by {
                    assert(old(self).versions_view().contains_key(a));
                    assert(old(self).versions_view().contains_key(b));
                }
            },
            None => {
                assert(old(self).versions_view().remove((model_id@, version_id@)) =~= old(self).versions_view());
            },
        }
        match self.find_binary(model_id, version_id) {
            Some(i) => {
                proof { lemma_keyed_remove(self.binaries@, binary_key(), binary_bytes(), i as int); }
                self.binaries.remove(i);
            },
            None => {
                assert(old(self).binaries_view().remove((model_id@, version_id@)) =~= old(self).binaries_view());
            },
        }
        Ok(())
    }

    /// Store model binary data for a version, replacing what was stored.
    pub fn store_binary(&mut self, model_id: &str, version_id: &str, data: Vec<u8>) -> (r: Result<
        (),
        ModelVersioningError,
    >)
        requires
            old(self).wf(),
        ensures
            final(self).wf(),
            r is Ok,
            final(self).models_view() == old(self).models_view(),
            final(self).tables_view() == old(self).tables_view(),
            final(self).versions_view() == old(self).versions_view(),
            final(self).binaries_view() == old(self).binaries_view().insert((model_id@, version_id@), data@),
    {
        let entry = (String::from_str(model_id), String::from_str(version_id), data);
        match self.find_binary(model_id, version_id) {
            Some(i) => {
                proof { lemma_keyed_update(self.binaries@, binary_key(), binary_bytes(), i as int, entry); }
                self.binaries.set(i, entry);
            },
            None => {
                proof { lemma_keyed_push(self.binaries@, binary_key(), binary_bytes(), entry); }
                self.binaries.push(entry);
            },
        }
        Ok(())
    }

    /// Retrieve a version's binary with the version's metadata.
    pub fn retrieve_binary(&self, model_id: &str, version_id: &str) -> (r: Result<ModelBinary, ModelVersioningError>)
        requires
            self.wf(),
        ensures
            !self.versions_view().contains_key((model_id@, version_id@)) ==> (r matches Err(
                ModelVersioningError::VersionNotFound(v, m),
            ) && v@ == version_id@ && m@ == model_id@),
            self.versions_view().contains_key((model_id@, version_id@)) && !self.binaries_view().contains_key(
                (model_id@, version_id@),
            ) ==> (r matches Err(ModelVersioningError::StorageError(m)) && m@ == "Binary data not found"@),
            self.versions_view().contains_key((model_id@, version_id@)) && self.binaries_view().contains_key(
                (model_id@, version_id@),
            ) ==> (r matches Ok(b) && *b.metadata == self.versions_view()[(model_id@, version_id@)]
                && b.data@ == self.binaries_view()[(model_id@, version_id@)]),
    {
        let i = match self.find_version(model_id, version_id) {
            Some(i) => i,
            None => {
                return Err(
                    ModelVersioningError::VersionNotFound(String::from_str(version_id), String::from_str(model_id)),
                );
            },
        };
        match self.find_binary(model_id, version_id) {
            Some(j) => Ok(ModelBinary { metadata: &self.versions[i], data: self.binaries[j].2.as_slice() }),
            None => {
                proof { reveal_strlit("Binary data not found"); }
                Err(ModelVersioningError::StorageError(String::from_str("Binary data not found")))
            },
        }
    }
}

impl InMemoryStorage {
    /// Every stored version occurs once in the version sequence, which
    /// holds nothing else.
    pub proof fn lemma_version_seq(&self)
        requires
            self.wf(),
        ensures
            forall|i: int, j: int| 0 <= i < self.version_seq().len() && 0 <= j < self.version_seq().len() && i != j
                ==> version_key()(#[trigger] self.version_seq()[i]) != version_key()(#[trigger] self.version_seq()[j]),
            forall|i: int| 0 <= i < self.version_seq().len() ==> self.versions_view().contains_key(
                version_key()(#[trigger] self.version_seq()[i]),
            ) && self.versions_view()[version_key()(self.version_seq()[i])] == self.version_seq()[i],
            forall|k: (Seq<char>, Seq<char>)| #[trigger] self.versions_view().contains_key(k) ==> exists|i: int|
                0 <= i < self.version_seq().len() && version_key()(#[trigger] self.version_seq()[i]) == k,
    {
        lemma_keyed(self.versions@, version_key(), itself());
    }

    /// Each stored version is found under its own model id and version id.
    pub proof fn lemma_versions_under_own_key(&self)
        requires
            self.wf(),
        ensures
            forall|k: (Seq<char>, Seq<char>)| #[trigger] self.versions_view().contains_key(k) ==> self.versions_view()[k].model_id@
                == k.0 && self.versions_view()[k].version@ == k.1,
    {
        lemma_keyed(self.versions@, version_key(), itself());
        assert forall|k: (Seq<char>, Seq<char>)| #[trigger] self.versions_view().contains_key(k) implies self.versions_view()[k].model_id@
            == k.0 && self.versions_view()[k].version@ == k.1 by {
            let i = choose|i: int| 0 <= i < self.versions@.len() && version_key()(#[trigger] self.versions@[i]) == k;
        }
    }

    /// No model ever has two default versions.
    pub proof fn law_one_default_version(&self)
        requires
            self.wf(),
        ensures
            one_default_per_model(self.versions_view()),
    {
    }

    fn versions_in_scope(&self, model_id: &Option<String>) -> (r: Vec<&ModelVersion>)
        ensures
            r@.map_values(deref_version()) == self.version_seq().filter(in_query_scope(*model_id)),
    {
        let ghost p = in_query_scope(*model_id);
        let ghost d = deref_version();
        let mut r: Vec<&ModelVersion> = Vec::new();
        let n = self.versions.len();
        let mut i: usize = 0;
        while i < n
            invariant
                n == self.versions@.len(),
                i <= n,
                p == in_query_scope(*model_id),
                d == deref_version(),
                r@.map_values(d) == self.versions@.subrange(0, i as int).filter(p),
            decreases n - i,
        {
            let keep = match model_id {
                Some(m) => str_eq(self.versions[i].model_id.as_str(), m.as_str()),
                None => true,
            };
            let ghost before = r@;
            if keep {
                r.push(&self.versions[i]);
            }
            proof {
                reveal_with_fuel(Seq::filter, 1);
                let sub = self.versions@.subrange(0, i + 1);
                assert(sub.drop_last() =~= self.versions@.subrange(0, i as int));
                assert(sub.last() == self.versions@[i as int]);
                if keep {
                    assert(r@.map_values(d) =~= before.map_values(d).push(self.versions@[i as int]));
                }
                assert(r@.map_values(d) == sub.filter(p));
            }
            i = i + 1;
        }
        assert(self.versions@.subrange(0, n as int) =~= self.versions@);
        r
    }

    /// Query versions: those of the query's model (or all), in the order it
    /// asks for, and of those the page that its offset and limit select.
    /// The framework, model-type, tag and metric filters are not applied.
    pub fn query_versions(&self, query: VersionQuery) -> (r: Result<VersionQueryResult, ModelVersioningError>)
        requires
            query_offset(query) + query_limit(query) <= usize::MAX,
        ensures
            r matches Ok(res) && exists|s: Seq<ModelVersion>| {
                &&& s.to_multiset() == self.version_seq().filter(in_query_scope(query.model_id)).to_multiset()
                &&& arranged(query, s)
                &&& res.total_count == s.len()
                &&& res.versions@.map_values(deref_version()) == query_page(s, query_offset(query), query_limit(query))
                &&& res.has_more == (query_offset(query) + query_limit(query) < s.len())
            },
    {
        let ghost d = deref_version();
        let scoped = self.versions_in_scope(&query.model_id);
        let ghost base = scoped@.map_values(d);
        let sorted = match &query.sort_by {
            Some(f) => sort_versions(scoped, f),
            None => scoped,
        };
        let ordered = if query.sort_desc {
            let mut src = sorted;
            let ghost full = src@;
            let mut rev: Vec<&ModelVersion> = Vec::new();
            while src.len() > 0
                invariant
                    rev@ =~= full.subrange(src@.len() as int, full.len() as int).reverse(),
                    src@ == full.subrange(0, src@.len() as int),
                    src@.len() <= full.len(),
                decreases src@.len(),
            {
                let x = src.pop().unwrap();
                rev.push(x);
            }
            proof {
                assert(full.subrange(0, full.len() as int) =~= full);
                assert(rev@.map_values(d) =~= full.map_values(d).reverse());
                full.map_values(d).lemma_reverse_to_multiset();
                assert(rev@.map_values(d).reverse() =~= full.map_values(d));
            }
            rev
        } else {
            sorted
        };
        let ghost s = ordered@.map_values(d);
        assert(s.to_multiset() == base.to_multiset());
        let total = ordered.len();
        let offset = match query.offset {
            Some(o) => o,
            None => 0,
        };
        let limit = match query.limit {
            Some(l) => l,
            None => usize::MAX,
        };
        let end = if offset + limit < total { offset + limit } else { total };
        let has_more = end < total;
        let mut page: Vec<&ModelVersion> = Vec::new();
        if offset < total {
            let mut i = offset;
            while i < end
                invariant
                    offset <= i <= end <= total,
                    total == ordered@.len(),
                    d == deref_version(),
                    page@.map_values(d) =~= ordered@.map_values(d).subrange(offset as int, i as int),
                decreases end - i,
            {
                let ghost prev = page@;
                page.push(ordered[i]);
                assert(page@.map_values(d) =~= prev.map_values(d).push(*ordered@[i as int]));
                assert(ordered@.map_values(d).subrange(offset as int, i + 1) =~= ordered@.map_values(d).subrange(
                    offset as int,
                    i as int,
                ).push(*ordered@[i as int]));
                i = i + 1;
            }
        }
        assert(page@.map_values(d) =~= query_page(s, query_offset(query), query_limit(query)));
        Ok(VersionQueryResult { versions: page, total_count: total, has_more })
    }
}

proof fn lemma_byte_count_prefix(bs: Seq<(String, String, Vec<u8>)>, k: int)
    requires
        0 <= k <= bs.len(),
    ensures
        byte_count(bs.subrange(0, k)) <= byte_count(bs),
    decreases bs.len(),
{
    if k < bs.len() {
        let w = bs.drop_last();
        assert(bs.subrange(0, k) =~= w.subrange(0, k));
        lemma_byte_count_prefix(w, k);
    } else {
        assert(bs.subrange(0, k) =~= bs);
    }
}

proof fn lemma_version_count_bound(vs: Seq<ModelVersion>, id: Seq<char>)
    ensures
        version_count(vs, id) <= vs.len(),
    decreases vs.len(),
{
    if vs.len() > 0 {
        lemma_version_count_bound(vs.drop_last(), id);
    }
}

fn count_versions_of(vs: &Vec<ModelVersion>, id: &str) -> (r: usize)
    ensures
        r == version_count(vs@, id@),
{
    let n = vs.len();
    let mut c: usize = 0;
    let mut i: usize = 0;
    while i < n
        invariant
            n == vs@.len(),
            i <= n,
            c == version_count(vs@.subrange(0, i as int), id@),
            c <= i,
        decreases n - i,
    {
        assert(vs@.subrange(0, i + 1).drop_last() =~= vs@.subrange(0, i as int));
        if str_eq(vs[i].model_id.as_str(), id) {
            c = c + 1;
        }
        i = i + 1;
    }
    assert(vs@.subrange(0, n as int) =~= vs@);
    c
}

impl InMemoryStorage {
    /// The stored models' metadata, in the order of [`Self::model_ids`].
    pub closed spec fn stored_models(&self) -> Seq<ModelMetadata> {
        self.models@.map_values(entry_metadata())
    }

    /// The total size of the stored binaries.
    pub closed spec fn stored_bytes(&self) -> nat {
        byte_count(self.binaries@)
    }

    /// Get registry statistics: the numbers of models and versions, the
    /// bytes stored, models by framework and versions by model type.
    pub fn get_stats(&self) -> (r: Result<RegistryStats, ModelVersioningError>)
        requires
            self.wf(),
            self.stored_bytes() <= u64::MAX,
            self.models_view().len() * self.versions_view().len() <= usize::MAX,
        ensures
            r matches Ok(st) && {
                &&& st.total_models == self.models_view().len()
                &&& st.total_versions == self.versions_view().len()
                &&& st.total_storage_bytes == self.stored_bytes()
                &&& counts_by_key(
                    st.models_by_framework@,
                    self.stored_models().map_values(|m: ModelMetadata| m.framework@),
                    |f: Seq<char>| framework_count(self.stored_models(), f),
                )
                &&& counts_by_key(
                    st.versions_by_type@,
                    self.stored_models().map_values(|m: ModelMetadata| m.model_type@),
                    |t: Seq<char>| type_version_count(self.stored_models(), self.version_seq(), t),
                )
            },
    {
        proof {
            lemma_keyed_len(self.models@, entry_id(), entry_metadata());
            lemma_keyed_len(self.versions@, version_key(), itself());
            lemma_byte_count_prefix(self.binaries@, 0);
        }
        let ghost ms = self.stored_models();
        let ghost vs = self.versions@;
        let ghost fkeys = ms.map_values(|m: ModelMetadata| m.framework@);
        let ghost tkeys = ms.map_values(|m: ModelMetadata| m.model_type@);
        let n = self.models.len();
        let nv = self.versions.len();
        let mut frameworks: Vec<(String, usize)> = Vec::new();
        let mut types: Vec<(String, usize)> = Vec::new();
        let mut k: usize = 0;
        assert(fkeys.subrange(0, 0) =~= Seq::<Seq<char>>::empty());
        assert(tkeys.subrange(0, 0) =~= Seq::<Seq<char>>::empty());
        while k < n
            invariant
                n == self.models@.len(),
                nv == self.versions@.len(),
                n * nv <= usize::MAX,
                k <= n,
                ms == self.stored_models(),
                vs == self.versions@,
                fkeys == ms.map_values(|m: ModelMetadata| m.framework@),
                tkeys == ms.map_values(|m: ModelMetadata| m.model_type@),
                counts_by_key(frameworks@, fkeys.subrange(0, k as int), |f: Seq<char>| framework_count(ms.subrange(0, k as int), f)),
                forall|a: int| 0 <= a < frameworks@.len() ==> (#[trigger] frameworks@[a]).1 <= k,
                counts_by_key(types@, tkeys.subrange(0, k as int), |t: Seq<char>| type_version_count(ms.subrange(0, k as int), vs, t)),
                forall|a: int| 0 <= a < types@.len() ==> (#[trigger] types@[a]).1 <= k * nv,
            decreases n - k,
        {
            let ghost m = ms[k as int];
            let ghost pre = ms.subrange(0, k as int);
            let ghost post = ms.subrange(0, k + 1);
            proof {
                assert(post.drop_last() =~= pre);
                assert(post.last() == m);
                assert(fkeys.subrange(0, k + 1) =~= fkeys.subrange(0, k as int).push(m.framework@));
                assert(tkeys.subrange(0, k + 1) =~= tkeys.subrange(0, k as int).push(m.model_type@));
            }
            let meta = &self.models[k].1;
            assert(*meta == m);
            let ghost f0 = frameworks@;
            tally(&mut frameworks, &meta.framework, 1);
            proof {
                if !fkeys.subrange(0, k as int).contains(m.framework@) {
                    assert forall|i: int| 0 <= i < pre.len() implies (#[trigger] pre[i]).framework@ != m.framework@ by {
                        assert(fkeys.subrange(0, k as int)[i] == pre[i].framework@);
                    }
                    lemma_framework_count_absent(pre, m.framework@);
                }
                lemma_counts_step(
                    f0,
                    frameworks@,
                    fkeys.subrange(0, k as int),
                    m.framework@,
                    1,
                    |f: Seq<char>| framework_count(pre, f),
                    |f: Seq<char>| framework_count(post, f),
                );
            }
            let cnt = count_versions_of(&self.versions, meta.id.as_str());
            proof {
                lemma_version_count_bound(vs, m.id@);
                assert(k * nv + nv == (k + 1) * nv) by (nonlinear_arith);
                assert((k + 1) * nv <= n * nv) by (nonlinear_arith)
                    requires
                        k + 1 <= n,
                ;
            }
            let ghost t0 = types@;
            tally(&mut types, &meta.model_type, cnt);
            proof {
                if !tkeys.subrange(0, k as int).contains(m.model_type@) {
                    assert forall|i: int| 0 <= i < pre.len() implies (#[trigger] pre[i]).model_type@ != m.model_type@ by {
                        assert(tkeys.subrange(0, k as int)[i] == pre[i].model_type@);
                    }
                    lemma_type_count_absent(pre, vs, m.model_type@);
                }
                lemma_counts_step(
                    t0,
                    types@,
                    tkeys.subrange(0, k as int),
                    m.model_type@,
                    cnt as nat,
                    |t: Seq<char>| type_version_count(pre, vs, t),
                    |t: Seq<char>| type_version_count(post, vs, t),
                );
            }
            k = k + 1;
        }
        assert(ms.subrange(0, n as int) =~= ms);
        assert(fkeys.subrange(0, n as int) =~= fkeys);
        assert(tkeys.subrange(0, n as int) =~= tkeys);
        let nb = self.binaries.len();
        let mut bytes: u64 = 0;
        let mut j: usize = 0;
        while j < nb
            invariant
                nb == self.binaries@.len(),
                j <= nb,
                bytes == byte_count(self.binaries@.subrange(0, j as int)),
                byte_count(self.binaries@) <= u64::MAX,
            decreases nb - j,
        {
            proof {
                assert(self.binaries@.subrange(0, j + 1).drop_last() =~= self.binaries@.subrange(0, j as int));
                lemma_byte_count_prefix(self.binaries@, j + 1);
            }
            bytes = bytes + self.binaries[j].2.len() as u64;
            j = j + 1;
        }
        assert(self.binaries@.subrange(0, nb as int) =~= self.binaries@);
        Ok(RegistryStats {
            total_models: n,
            total_versions: nv,
            total_storage_bytes: bytes,
            models_by_framework: frameworks,
            versions_by_type: types,
            latest_activity: utc_now(),
        })
    }
}

/// `new` is `old` with `amount` added to the count of `key`, or with
/// `key` appended with count `amount` when it had none.
pub open spec fn tallied(old: Seq<(String, usize)>, key: Seq<char>, amount: nat, new: Seq<(String, usize)>) -> bool {
    ||| exists|a: int| 0 <= a < old.len() && (#[trigger] old[a]).0@ == key && new == old.update(a, (old[a].0, (old[a].1 + amount) as usize))
        && old[a].1 + amount <= usize::MAX
    ||| (forall|a: int| 0 <= a < old.len() ==> (#[trigger] old[a]).0@ != key) && new == old.push((new.last().0, amount as usize))
        && new.last().0@ == key && amount <= usize::MAX
}

fn tally(table: &mut Vec<(String, usize)>, key: &String, amount: usize)
    requires
        forall|a: int| 0 <= a < old(table)@.len() && (#[trigger] old(table)@[a]).0@ == key@ ==> old(table)@[a].1 + amount
            <= usize::MAX,
    ensures
        tallied(old(table)@, key@, amount as nat, final(table)@),
{
    let n = table.len();
    let mut a: usize = 0;
    while a < n && !str_eq(table[a].0.as_str(), key.as_str())
        invariant
            n == table@.len(),
            a <= n,
            forall|b: int| 0 <= b < a ==> table@[b].0@ != key@,
        decreases n - a,
    {
        a = a + 1;
    }
    if a < n {
        let k = table[a].0.clone();
        let c = table[a].1;
        table.set(a, (k, c + amount));
    } else {
        table.push((key.clone(), amount));
    }
}

/// Tallying one more key keeps a table counting by key.
proof fn lemma_counts_step(
    old: Seq<(String, usize)>,
    new: Seq<(String, usize)>,
    keys: Seq<Seq<char>>,
    key: Seq<char>,
    amount: nat,
    count_old: spec_fn(Seq<char>) -> nat,
    count_new: spec_fn(Seq<char>) -> nat,
)
    requires
        counts_by_key(old, keys, count_old),
        tallied(old, key, amount, new),
        forall|f: Seq<char>| #[trigger] count_new(f) == count_old(f) + if f == key { amount } else { 0nat },
        !keys.contains(key) ==> count_old(key) == 0,
    ensures
        counts_by_key(new, keys.push(key), count_new),
{
    let ks = keys.push(key);
    assert forall|j: int| 0 <= j < keys.len() implies ks[j] == keys[j] by {}
    if exists|a: int| 0 <= a < old.len() && (#[trigger] old[a]).0@ == key && new == old.update(a, (old[a].0, (old[a].1 + amount) as usize))
        && old[a].1 + amount <= usize::MAX {
        let a = choose|a: int| 0 <= a < old.len() && (#[trigger] old[a]).0@ == key && new == old.update(a, (old[a].0, (old[a].1 + amount) as usize))
            && old[a].1 + amount <= usize::MAX;
        assert forall|b: int, c: int| 0 <= b < new.len() && 0 <= c < new.len() && b != c implies (#[trigger] new[b]).0@
            != (#[trigger] new[c]).0@ by {
            assert(new[b].0@ == old[b].0@);
            assert(new[c].0@ == old[c].0@);
        }
        assert forall|b: int| 0 <= b < new.len() implies (#[trigger] new[b]).1 == count_new(new[b].0@) && ks.contains(new[b].0@) by {
            assert(new[b].0@ == old[b].0@);
            assert(keys.contains(old[b].0@));
            let j = choose|j: int| 0 <= j < keys.len() && keys[j] == old[b].0@;
            assert(ks[j] == keys[j]);
            if b != a {
                assert(old[b].0@ != old[a].0@);
            }
        }
        assert forall|j: int| 0 <= j < ks.len() implies exists|b: int| 0 <= b < new.len() && (#[trigger] new[b]).0@
            == #[trigger] ks[j] by {
            if j < keys.len() {
                let b = choose|b: int| 0 <= b < old.len() && (#[trigger] old[b]).0@ == keys[j];
                assert(new[b].0@ == old[b].0@);
            } else {
                assert(new[a].0@ == ks[j]);
            }
        }
    } else {
        assert(forall|a: int| 0 <= a < old.len() ==> (#[trigger] old[a]).0@ != key);
        assert(!keys.contains(key)) by {
            if keys.contains(key) {
                let j = choose|j: int| 0 <= j < keys.len() && keys[j] == key;
                let b = choose|b: int| 0 <= b < old.len() && (#[trigger] old[b]).0@ == keys[j];
            }
        }
        assert forall|b: int, c: int| 0 <= b < new.len() && 0 <= c < new.len() && b != c implies (#[trigger] new[b]).0@
            != (#[trigger] new[c]).0@ by {
            if b < old.len() {
                assert(new[b] == old[b]);
            }
            if c < old.len() {
                assert(new[c] == old[c]);
            }
        }
        assert forall|b: int| 0 <= b < new.len() implies (#[trigger] new[b]).1 == count_new(new[b].0@) && ks.contains(new[b].0@) by {
            if b < old.len() {
                assert(new[b] == old[b]);
                assert(keys.contains(old[b].0@));
                let j = choose|j: int| 0 <= j < keys.len() && keys[j] == old[b].0@;
                assert(ks[j] == keys[j]);
            } else {
                assert(ks[keys.len() as int] == key);
            }
        }
        assert forall|j: int| 0 <= j < ks.len() implies exists|b: int| 0 <= b < new.len() && (#[trigger] new[b]).0@
            == #[trigger] ks[j] by {
            if j < keys.len() {
                let b = choose|b: int| 0 <= b < old.len() && (#[trigger] old[b]).0@ == keys[j];
                assert(new[b] == old[b]);
            } else {
                assert(new[new.len() - 1].0@ == ks[j]);
            }
        }
    }
}

proof fn lemma_framework_count_absent(ms: Seq<ModelMetadata>, f: Seq<char>)
    requires
        forall|i: int| 0 <= i < ms.len() ==> (#[trigger] ms[i]).framework@ != f,
    ensures
        framework_count(ms, f) == 0,
    decreases ms.len(),
{
    if ms.len() > 0 {
        let w = ms.drop_last();
        assert forall|i: int| 0 <= i < w.len() implies (#[trigger] w[i]).framework@ != f by {
            assert(w[i] == ms[i]);
        }
        lemma_framework_count_absent(w, f);
        assert(ms.last() == ms[ms.len() - 1]);
    }
}

proof fn lemma_type_count_absent(ms: Seq<ModelMetadata>, vs: Seq<ModelVersion>, t: Seq<char>)
    requires
        forall|i: int| 0 <= i < ms.len() ==> (#[trigger] ms[i]).model_type@ != t,
    ensures
        type_version_count(ms, vs, t) == 0,
    decreases ms.len(),
{
    if ms.len() > 0 {
        let w = ms.drop_last();
        assert forall|i: int| 0 <= i < w.len() implies (#[trigger] w[i]).model_type@ != t by {
            assert(w[i] == ms[i]);
        }
        lemma_type_count_absent(w, vs, t);
        assert(ms.last() == ms[ms.len() - 1]);
    }
}

} // verus!
