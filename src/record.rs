//! A memory record and its mathematical view.
use vstd::prelude::*;
use crate::text::views_of;

verus! {

/// One stored memory. `embedding` holds the record's weight profile, one
/// bucket per dimension; scaled to unit length it is the embedding vector.
pub struct MemoryRecord {
    pub id: String,
    pub content: String,
    pub metadata: Vec<(String, String)>,
    pub tags: Vec<String>,
    pub embedding: Vec<u128>,
    pub created_at: i64,
    pub updated_at: i64,
}

/// The view of a record: its texts as character sequences.
pub struct RecordView {
    pub id: Seq<char>,
    pub content: Seq<char>,
    pub metadata: Seq<(Seq<char>, Seq<char>)>,
    pub tags: Seq<Seq<char>>,
    pub embedding: Seq<u128>,
    pub created_at: i64,
    pub updated_at: i64,
}

/// The views of a list of key/value pairs.
pub open spec fn pair_views(v: Seq<(String, String)>) -> Seq<(Seq<char>, Seq<char>)> {
    v.map_values(|p: (String, String)| (p.0@, p.1@))
}

impl View for MemoryRecord {
    type V = RecordView;

    open spec fn view(&self) -> RecordView {
        RecordView {
            id: self.id@,
            content: self.content@,
            metadata: pair_views(self.metadata@),
            tags: views_of(self.tags@),
            embedding: self.embedding@,
            created_at: self.created_at,
            updated_at: self.updated_at,
        }
    }
}

/// Copies a list of strings.
pub fn copy_strings(v: &Vec<String>) -> (r: Vec<String>)
    ensures
        views_of(r@) == views_of(v@),
{
    let mut r: Vec<String> = Vec::new();
    let mut i: usize = 0;
    while i < v.len()
        invariant
            i <= v@.len(),
            r@.len() == i,
            forall|k: int| 0 <= k < i ==> #[trigger] r@[k]@ == v@[k]@,
        decreases v.len() - i,
    {
        r.push(v[i].clone());
        i += 1;
    }
    assert(views_of(r@) =~= views_of(v@));
    r
}

/// Copies a list of key/value pairs.
pub fn copy_pairs(v: &Vec<(String, String)>) -> (r: Vec<(String, String)>)
    ensures
        pair_views(r@) == pair_views(v@),
{
    let mut r: Vec<(String, String)> = Vec::new();
    let mut i: usize = 0;
    while i < v.len()
        invariant
            i <= v@.len(),
            r@.len() == i,
            forall|k: int| 0 <= k < i ==> #[trigger] r@[k].0@ == v@[k].0@ && r@[k].1@ == v@[k].1@,
        decreases v.len() - i,
    {
        let p = &v[i];
        r.push((p.0.clone(), p.1.clone()));
        i += 1;
    }
    assert(pair_views(r@) =~= pair_views(v@));
    r
}

/// Copies a list of weights.
pub fn copy_weights(v: &Vec<u128>) -> (r: Vec<u128>)
    ensures
        r@ == v@,
{
    let mut r: Vec<u128> = Vec::new();
    let mut i: usize = 0;
    while i < v.len()
        invariant
            i <= v@.len(),
            r@ == v@.subrange(0, i as int),
        decreases v.len() - i,
    {
        r.push(v[i]);
        i += 1;
        assert(r@ =~= v@.subrange(0, i as int));
    }
    assert(r@ =~= v@);
    r
}

impl MemoryRecord {
    /// A copy of the record.
    pub fn duplicate(&self) -> (r: MemoryRecord)
        ensures
            r@ == self@,
    {
        MemoryRecord {
            id: self.id.clone(),
            content: self.content.clone(),
            metadata: copy_pairs(&self.metadata),
            tags: copy_strings(&self.tags),
            embedding: copy_weights(&self.embedding),
            created_at: self.created_at,
            updated_at: self.updated_at,
        }
    }
}

} // verus!
