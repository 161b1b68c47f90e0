//! The metadata index: which entries carry a tag or a field value, kept as
//! postings of (field, value, entry id).

use vstd::prelude::*;
use crate::json::{json_as_text, json_members, json_object_members, json_text, member_view};
use crate::metadata_management::error::MetadataError;
use crate::metadata_management::model::Metadata;
use crate::nlp::intent::{pattern_matches, regex_matches};
use crate::text::str_eq;

verus! {

/// Indexed field.
#[derive(Debug, Clone, PartialEq, Eq, Hash)]
pub enum IndexField {
    /// Tag field.
    Tag,
    /// Custom field path (e.g., "content.name").
    Field(String),
}

/// An indexed field with its path taken by its characters.
pub enum FieldView {
    /// Tag field.
    Tag,
    /// Custom field, by path.
    Field(Seq<char>),
}

/// The view of an indexed field.
pub open spec fn field_view(f: IndexField) -> FieldView {
    match f {
        IndexField::Tag => FieldView::Tag,
        IndexField::Field(p) => FieldView::Field(p@),
    }
}

/// A posting: field, value and the id of the entry that has it.
pub type Posting = (FieldView, Seq<char>, u128);

/// The view of a stored posting.
pub open spec fn posting_view(p: (IndexField, String, u128)) -> Posting {
    (field_view(p.0), p.1@, p.2)
}

/// The views of a list of stored postings.
pub open spec fn postings_seq(v: Seq<(IndexField, String, u128)>) -> Seq<Posting> {
    v.map_values(|p: (IndexField, String, u128)| posting_view(p))
}

/// The ids of the postings of `s` that satisfy `keep`.
pub open spec fn ids_where(s: Set<Posting>, keep: spec_fn(Posting) -> bool) -> Set<u128> {
    Set::new(|id: u128| exists|p: Posting| s.contains(p) && keep(p) && p.2 == id)
}

/// The description of the error `regex::Regex::new(pattern)` reports, or
/// `None` when the pattern compiles.
pub uninterp spec fn regex_error(pattern: Seq<char>) -> Option<Seq<char>>;

/// Trusted: `regex::Regex::new(pattern)` and the description (`to_string`)
/// of its error; the outcome depends on the pattern alone and is named.
#[verifier::external_body]
fn regex_compile_error(pattern: &str) -> (r: Option<String>)
    ensures
        match r {
            Some(m) => regex_error(pattern@) == Some(m@),
            None => regex_error(pattern@) is None,
        },
{
    regex::Regex::new(pattern).err().map(|e| e.to_string())
}

fn copy_field(f: &IndexField) -> (r: IndexField)
    ensures
        field_view(r) == field_view(*f),
{
    match f {
        IndexField::Tag => IndexField::Tag,
        IndexField::Field(p) => IndexField::Field(p.clone()),
    }
}

fn same_field(a: &IndexField, b: &IndexField) -> (r: bool)
    ensures
        r == (field_view(*a) == field_view(*b)),
{
    match (a, b) {
        (IndexField::Tag, IndexField::Tag) => true,
        (IndexField::Field(x), IndexField::Field(y)) => str_eq(x.as_str(), y.as_str()),
        _ => false,
    }
}

/// Appends `id` unless it is already listed.
fn push_unique(out: &mut Vec<u128>, id: u128)
    requires
        old(out)@.no_duplicates(),
    ensures
        final(out)@.no_duplicates(),
        final(out)@.to_set() == old(out)@.to_set().insert(id),
{
    let n = out.len();
    let mut i: usize = 0;
    while i < n
        invariant
            n == out@.len(),
            i <= n,
            out@ == old(out)@,
            out@.no_duplicates(),
            forall|k: int| 0 <= k < i ==> out@[k] != id,
        decreases n - i,
    {
        if out[i] == id {
            assert(out@.to_set().insert(id) =~= out@.to_set());
            return;
        }
        i = i + 1;
    }
    let ghost before = out@;
    out.push(id);
    proof {
        before.lemma_push_to_set_commute(id);
    }
}

/// Metadata index for fast lookups.
pub struct MetadataIndex {
    postings: Vec<(IndexField, String, u128)>,
}

impl MetadataIndex {
    /// The postings.
    pub closed spec fn postings_view(&self) -> Set<Posting> {
        postings_seq(self.postings@).to_set()
    }

    /// Creates an empty index.
    pub fn new() -> (r: Self)
        ensures
            r.postings_view() == Set::<Posting>::empty(),
    {
        let r = MetadataIndex { postings: Vec::new() };
        assert(r.postings_view() =~= Set::<Posting>::empty());
        r
    }

    fn add(&mut self, field: IndexField, value: String, id: u128)
        ensures
            final(self).postings_view() == old(self).postings_view().insert((field_view(field), value@, id)),
    {
        let ghost before = self.postings@;
        self.postings.push((field, value, id));
        proof {
            let f = |p: (IndexField, String, u128)| posting_view(p);
            assert(postings_seq(self.postings@) =~= postings_seq(before).push(posting_view((field, value, id))));
            postings_seq(before).lemma_push_to_set_commute(posting_view((field, value, id)));
        }
    }

    /// Indexes an entry: each of its tags, and each of its top-level
    /// string fields as (field name, value).
    pub fn index(&mut self, metadata: &Metadata)
        ensures
            final(self).postings_view() == old(self).postings_view()
                + Set::new(|p: Posting| exists|k: int| 0 <= k < metadata.tags@.len()
                    && p == (FieldView::Tag, metadata.tags@[k]@, metadata.id))
                + Set::new(|p: Posting| exists|k: int| 0 <= k < string_members(json_object_members(metadata.content)).len()
                    && p == (FieldView::Field(string_members(json_object_members(metadata.content))[k].0),
                    string_members(json_object_members(metadata.content))[k].1, metadata.id)),
    {
        let members = json_members(&metadata.content);
        let fields = string_fields(&members);
        self.index_entries(metadata.id, &metadata.tags, &fields);
        let ghost sm = string_members(json_object_members(metadata.content));
        proof {
            let fv = |f: (String, String)| (f.0@, f.1@);
            assert(sm.len() == fields@.len());
            assert forall|k: int| 0 <= k < fields@.len() implies sm[k] == (fields@[k].0@, fields@[k].1@) by {
                assert(fields@.map_values(fv)[k] == fv(fields@[k]));
            }
            let a = Set::new(|p: Posting| exists|k: int| 0 <= k < fields@.len()
                && p == (FieldView::Field(fields@[k].0@), fields@[k].1@, metadata.id));
            let b = Set::new(|p: Posting| exists|k: int| 0 <= k < sm.len()
                && p == (FieldView::Field(sm[k].0), sm[k].1, metadata.id));
            assert forall|p: Posting| a.contains(p) <==> b.contains(p) by {
                if a.contains(p) {
                    let k = choose|k: int| 0 <= k < fields@.len()
                        && p == (FieldView::Field(fields@[k].0@), fields@[k].1@, metadata.id);
                    assert(sm[k] == (fields@[k].0@, fields@[k].1@));
                }
                if b.contains(p) {
                    let k = choose|k: int| 0 <= k < sm.len() && p == (FieldView::Field(sm[k].0), sm[k].1, metadata.id);
                    assert(sm[k] == (fields@[k].0@, fields@[k].1@));
                }
            }
            assert(a =~= b);
        }
    }

    /// Indexes an entry by id: each of the given tags, and each of the
    /// given fields as (field name, value).
    pub fn index_entries(&mut self, id: u128, tags: &Vec<String>, fields: &Vec<(String, String)>)
        ensures
            final(self).postings_view() == old(self).postings_view()
                + Set::new(|p: Posting| exists|k: int| 0 <= k < tags@.len() && p == (FieldView::Tag, tags@[k]@, id))
                + Set::new(|p: Posting| exists|k: int| 0 <= k < fields@.len()
                    && p == (FieldView::Field(fields@[k].0@), fields@[k].1@, id)),
    {
        let n = tags.len();
        let mut i: usize = 0;
        while i < n
            invariant
                n == tags@.len(),
                i <= n,
                self.postings_view() == old(self).postings_view()
                    + Set::new(|p: Posting| exists|k: int| 0 <= k < i && p == (FieldView::Tag, tags@[k]@, id)),
            decreases n - i,
        {
            let ghost s0 = self.postings_view();
            self.add(IndexField::Tag, tags[i].clone(), id);
            proof {
                assert(self.postings_view() =~= old(self).postings_view()
                    + Set::new(|p: Posting| exists|k: int| 0 <= k < i + 1 && p == (FieldView::Tag, tags@[k]@, id))) by {
                    assert forall|p: Posting| #[trigger] self.postings_view().contains(p) <==> (old(self).postings_view()
                        + Set::new(|p: Posting| exists|k: int| 0 <= k < i + 1 && p == (FieldView::Tag, tags@[k]@, id))).contains(p) by {
                        if p == (FieldView::Tag, tags@[i as int]@, id) {
                            assert(exists|k: int| 0 <= k < i + 1 && p == (FieldView::Tag, tags@[k]@, id));
                        }
                        if exists|k: int| 0 <= k < i + 1 && p == (FieldView::Tag, tags@[k]@, id) {
                            let k = choose|k: int| 0 <= k < i + 1 && p == (FieldView::Tag, tags@[k]@, id);
                            if k < i {
                                assert(exists|k2: int| 0 <= k2 < i && p == (FieldView::Tag, tags@[k2]@, id));
                            }
                        }
                    }
                }
            }
            i = i + 1;
        }
        let ghost after_tags = self.postings_view();
        let m = fields.len();
        let mut j: usize = 0;
        while j < m
            invariant
                m == fields@.len(),
                j <= m,
                self.postings_view() == after_tags
                    + Set::new(|p: Posting| exists|k: int| 0 <= k < j
                        && p == (FieldView::Field(fields@[k].0@), fields@[k].1@, id)),
            decreases m - j,
        {
            self.add(IndexField::Field(fields[j].0.clone()), fields[j].1.clone(), id);
            proof {
                assert(self.postings_view() =~= after_tags
                    + Set::new(|p: Posting| exists|k: int| 0 <= k < j + 1
                        && p == (FieldView::Field(fields@[k].0@), fields@[k].1@, id))) by {
                    assert forall|p: Posting| #[trigger] self.postings_view().contains(p) <==> (after_tags
                        + Set::new(|p: Posting| exists|k: int| 0 <= k < j + 1
                            && p == (FieldView::Field(fields@[k].0@), fields@[k].1@, id))).contains(p) by {
                        if p == (FieldView::Field(fields@[j as int].0@), fields@[j as int].1@, id) {
                            assert(exists|k: int| 0 <= k < j + 1 && p == (FieldView::Field(fields@[k].0@), fields@[k].1@, id));
                        }
                        if exists|k: int| 0 <= k < j + 1 && p == (FieldView::Field(fields@[k].0@), fields@[k].1@, id) {
                            let k = choose|k: int| 0 <= k < j + 1 && p == (FieldView::Field(fields@[k].0@), fields@[k].1@, id);
                            if k < j {
                                assert(exists|k2: int| 0 <= k2 < j && p == (FieldView::Field(fields@[k2].0@), fields@[k2].1@, id));
                            }
                        }
                    }
                }
            }
            j = j + 1;
        }
    }

    /// Removes every posting of an entry.
    pub fn remove(&mut self, id: u128)
        ensures
            final(self).postings_view() == old(self).postings_view().filter(|p: Posting| p.2 != id),
    {
        let ghost v0 = self.postings@;
        let n = self.postings.len();
        let mut kept: Vec<(IndexField, String, u128)> = Vec::new();
        let mut i: usize = 0;
        while i < n
            invariant
                n == self.postings@.len(),
                v0 == self.postings@,
                i <= n,
                forall|p: Posting| #[trigger] postings_seq(kept@).contains(p)
                    <==> (postings_seq(v0.subrange(0, i as int)).contains(p) && p.2 != id),
            decreases n - i,
        {
            let ghost before = postings_seq(v0.subrange(0, i as int));
            let ghost after = postings_seq(v0.subrange(0, i + 1));
            proof {
                assert(after =~= before.push(posting_view(v0[i as int])));
            }
            if self.postings[i].2 != id {
                let ghost k0 = postings_seq(kept@);
                let copy = (copy_field(&self.postings[i].0), self.postings[i].1.clone(), self.postings[i].2);
                kept.push(copy);
                proof {
                    assert(postings_seq(kept@) =~= k0.push(posting_view(copy)));
                    assert forall|p: Posting| #[trigger] postings_seq(kept@).contains(p) <==> (after.contains(p) && p.2 != id) by {
                        if postings_seq(kept@).contains(p) {
                            let k = choose|k: int| 0 <= k < postings_seq(kept@).len() && postings_seq(kept@)[k] == p;
                            if k < k0.len() {
                                assert(k0[k] == p);
                                assert(k0.contains(p));
                                let m = choose|m: int| 0 <= m < before.len() && before[m] == p;
                                assert(after[m] == p);
                            } else {
                                assert(after[i as int] == p);
                            }
                        }
                        if after.contains(p) && p.2 != id {
                            let m = choose|m: int| 0 <= m < after.len() && after[m] == p;
                            if m < i {
                                assert(before[m] == p);
                                assert(before.contains(p));
                                assert(k0.contains(p));
                                let k = choose|k: int| 0 <= k < k0.len() && k0[k] == p;
                                assert(postings_seq(kept@)[k] == p);
                            } else {
                                assert(postings_seq(kept@)[k0.len() as int] == p);
                            }
                        }
                    }
                }
            } else {
                proof {
                    let k0 = postings_seq(kept@);
                    assert forall|p: Posting| #[trigger] k0.contains(p) <==> (after.contains(p) && p.2 != id) by {
                        if after.contains(p) && p.2 != id {
                            let m = choose|m: int| 0 <= m < after.len() && after[m] == p;
                            if m < i {
                                assert(before[m] == p);
                                assert(before.contains(p));
                            } else {
                                assert(after[i as int] == posting_view(v0[i as int]));
                            }
                        }
                        if k0.contains(p) {
                            assert(before.contains(p));
                            let m = choose|m: int| 0 <= m < before.len() && before[m] == p;
                            assert(after[m] == p);
                        }
                    }
                }
            }
            i = i + 1;
        }
        assert(v0.subrange(0, n as int) =~= v0);
        self.postings = kept;
        proof {
            assert(self.postings_view() =~= old(self).postings_view().filter(|p: Posting| p.2 != id)) by {
                assert forall|p: Posting| self.postings_view().contains(p) <==> old(self).postings_view().filter(|p: Posting| p.2 != id).contains(p) by {
                    assert(postings_seq(self.postings@).contains(p) == (postings_seq(v0).contains(p) && p.2 != id));
                }
            }
        }
    }

    /// The ids of the entries with `value` in `field`, each once.
    pub fn query(&self, field: &IndexField, value: &str) -> (r: Vec<u128>)
        ensures
            r@.no_duplicates(),
            r@.to_set() == ids_where(self.postings_view(), |p: Posting| p.0 == field_view(*field) && p.1 == value@),
    {
        let n = self.postings.len();
        let mut out: Vec<u128> = Vec::new();
        let mut i: usize = 0;
        let ghost keep = |p: Posting| p.0 == field_view(*field) && p.1 == value@;
        while i < n
            invariant
                n == self.postings@.len(),
                i <= n,
                out@.no_duplicates(),
                keep == (|p: Posting| p.0 == field_view(*field) && p.1 == value@),
                out@.to_set() == ids_where(
                    postings_seq(self.postings@.subrange(0, i as int)).to_set(),
                    keep,
                ),
            decreases n - i,
        {
            let ghost before = postings_seq(self.postings@.subrange(0, i as int));
            let ghost after = postings_seq(self.postings@.subrange(0, i + 1));
            proof {
                assert(after =~= before.push(posting_view(self.postings@[i as int])));
                before.lemma_push_to_set_commute(posting_view(self.postings@[i as int]));
            }
            let hit = same_field(&self.postings[i].0, field) && str_eq(self.postings[i].1.as_str(), value);
            if hit {
                push_unique(&mut out, self.postings[i].2);
            }
            proof {
                let pv = posting_view(self.postings@[i as int]);
                assert(out@.to_set() =~= ids_where(after.to_set(), keep)) by {
                    assert forall|id: u128| out@.to_set().contains(id) <==> ids_where(after.to_set(), keep).contains(id) by {
                        if ids_where(after.to_set(), keep).contains(id) {
                            let p = choose|p: Posting| after.to_set().contains(p) && keep(p) && p.2 == id;
                            if p != pv {
                                assert(before.to_set().contains(p));
                            }
                        }
                        if out@.to_set().contains(id) && !(hit && id == pv.2) {
                            let p = choose|p: Posting| before.to_set().contains(p) && keep(p) && p.2 == id;
                            assert(after.to_set().contains(p));
                        }
                        if hit && id == pv.2 {
                            assert(after.to_set().contains(pv));
                        }
                    }
                }
            }
            i = i + 1;
        }
        assert(self.postings@.subrange(0, n as int) =~= self.postings@);
        out
    }

    /// The ids of the entries with a tag.
    pub fn query_by_tag(&self, tag: &str) -> (r: Vec<u128>)
        ensures
            r@.no_duplicates(),
            r@.to_set() == ids_where(self.postings_view(), |p: Posting| p.0 == FieldView::Tag && p.1 == tag@),
    {
        let r = self.query(&IndexField::Tag, tag);
        assert(ids_where(self.postings_view(), |p: Posting| p.0 == field_view(IndexField::Tag) && p.1 == tag@)
            =~= ids_where(self.postings_view(), |p: Posting| p.0 == FieldView::Tag && p.1 == tag@));
        r
    }

    /// The ids of the entries with `value` in the field at `field_path`.
    pub fn query_by_field(&self, field_path: &str, value: &str) -> (r: Vec<u128>)
        ensures
            r@.no_duplicates(),
            r@.to_set() == ids_where(self.postings_view(), |p: Posting| p.0 == FieldView::Field(field_path@) && p.1 == value@),
    {
        let field = IndexField::Field(String::from_str(field_path));
        let r = self.query(&field, value);
        assert(ids_where(self.postings_view(), |p: Posting| p.0 == field_view(field) && p.1 == value@)
            =~= ids_where(self.postings_view(), |p: Posting| p.0 == FieldView::Field(field_path@) && p.1 == value@));
        r
    }

    /// The ids of the entries with an indexed value that the regular
    /// expression matches; an error when the pattern does not compile.
    pub fn search(&self, pattern: &str) -> (r: Result<Vec<u128>, MetadataError>)
        ensures
            regex_error(pattern@) matches Some(m) ==> (r matches Err(MetadataError::Index(e)) && e@ == m),
            regex_error(pattern@) is None ==> (r matches Ok(ids) && ids@.no_duplicates()
                && ids@.to_set() == ids_where(self.postings_view(), |p: Posting| regex_matches(pattern@, p.1))),
    {
        match regex_compile_error(pattern) {
            Some(m) => {
                return Err(MetadataError::Index(m));
            },
            None => {},
        }
        let n = self.postings.len();
        let mut out: Vec<u128> = Vec::new();
        let mut i: usize = 0;
        let ghost keep = |p: Posting| regex_matches(pattern@, p.1);
        while i < n
            invariant
                n == self.postings@.len(),
                i <= n,
                out@.no_duplicates(),
                keep == (|p: Posting| regex_matches(pattern@, p.1)),
                out@.to_set() == ids_where(
                    postings_seq(self.postings@.subrange(0, i as int)).to_set(),
                    keep,
                ),
            decreases n - i,
        {
            let ghost before = postings_seq(self.postings@.subrange(0, i as int));
            let ghost after = postings_seq(self.postings@.subrange(0, i + 1));
            proof {
                assert(after =~= before.push(posting_view(self.postings@[i as int])));
                before.lemma_push_to_set_commute(posting_view(self.postings@[i as int]));
            }
            let hit = pattern_matches(pattern, self.postings[i].1.as_str());
            if hit {
                push_unique(&mut out, self.postings[i].2);
            }
            proof {
                let pv = posting_view(self.postings@[i as int]);
                assert(out@.to_set() =~= ids_where(after.to_set(), keep)) by {
                    assert forall|id: u128| out@.to_set().contains(id) <==> ids_where(after.to_set(), keep).contains(id) by {
                        if ids_where(after.to_set(), keep).contains(id) {
                            let p = choose|p: Posting| after.to_set().contains(p) && keep(p) && p.2 == id;
                            if p != pv {
                                assert(before.to_set().contains(p));
                            }
                        }
                        if out@.to_set().contains(id) && !(hit && id == pv.2) {
                            let p = choose|p: Posting| before.to_set().contains(p) && keep(p) && p.2 == id;
                            assert(after.to_set().contains(p));
                        }
                        if hit && id == pv.2 {
                            assert(after.to_set().contains(pv));
                        }
                    }
                }
            }
            i = i + 1;
        }
        assert(self.postings@.subrange(0, n as int) =~= self.postings@);
        Ok(out)
    }
}

impl Default for MetadataIndex {
    fn default() -> (r: Self)
        ensures
            r.postings_view() == Set::<Posting>::empty(),
    {
        Self::new()
    }
}

/// The members of `members` whose value is a JSON string, as (name, text),
/// in order.
pub open spec fn string_members(members: Seq<(Seq<char>, serde_json::Value)>) -> Seq<(Seq<char>, Seq<char>)>
    decreases members.len(),
{
    if members.len() == 0 {
        Seq::empty()
    } else {
        let rest = string_members(members.drop_last());
        match json_text(members.last().1) {
            Some(t) => rest.push((members.last().0, t)),
            None => rest,
        }
    }
}

fn string_fields(members: &Vec<(String, serde_json::Value)>) -> (r: Vec<(String, String)>)
    ensures
        r@.map_values(|f: (String, String)| (f.0@, f.1@)) == string_members(members@.map_values(member_view())),
{
    let ghost fv = |f: (String, String)| (f.0@, f.1@);
    let mut r: Vec<(String, String)> = Vec::new();
    let n = members.len();
    let mut i: usize = 0;
    assert(r@.map_values(fv) =~= string_members(members@.subrange(0, 0).map_values(member_view())));
    while i < n
        invariant
            n == members@.len(),
            i <= n,
            fv == (|f: (String, String)| (f.0@, f.1@)),
            r@.map_values(fv) == string_members(members@.subrange(0, i as int).map_values(member_view())),
        decreases n - i,
    {
        let ghost before = r@;
        let ghost sub = members@.subrange(0, i + 1).map_values(member_view());
        assert(sub.drop_last() =~= members@.subrange(0, i as int).map_values(member_view()));
        assert(sub.last() == member_view()(members@[i as int]));
        if let Some(t) = json_as_text(&members[i].1) {
            r.push((members[i].0.clone(), t));
            assert(r@.map_values(fv) =~= before.map_values(fv).push((members@[i as int].0@, t@)));
        }
        i = i + 1;
    }
    assert(members@.subrange(0, n as int) =~= members@);
    r
}

} // verus!
