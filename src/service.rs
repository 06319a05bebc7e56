//! The memory service: validation, id assignment and the store, query,
//! search, update and delete operations over one record table.
use vstd::prelude::*;
use crate::embedding::{byte_weights, profile_of, EMBEDDING_DIM};
use crate::ranking::{effective_limit, is_ranking, limit_or, rank, DEFAULT_QUERY_LIMIT, DEFAULT_SEARCH_LIMIT};
use crate::record::{pair_views, MemoryRecord, RecordView};
use crate::store::{has_id, lookup, matching, removed, table_ok, truncated, updated_record, position, MemoryStore};
use crate::text::{blank, is_blank, views_of};

verus! {

/// The errors of the service.
#[derive(PartialEq, Eq, Debug, Clone, Copy)]
pub enum MemoryError {
    /// Blank content on store, or an empty query vector on search.
    InvalidArgument,
    /// No record has the requested id.
    NotFound,
    /// The id chosen for a new record is taken.
    AlreadyExists,
}

/// A search hit: the record, its score, and its position in the table.
pub struct MemoryMatch {
    pub memory: MemoryRecord,
    pub similarity_score: i64,
    pub position: usize,
}

/// The answer to a text query.
pub struct QueryResult {
    pub memories: Vec<MemoryRecord>,
    pub total_count: i32,
}

/// The record that a store request creates.
pub open spec fn new_record(
    id: Seq<char>,
    content: Seq<char>,
    metadata: Seq<(Seq<char>, Seq<char>)>,
    tags: Seq<Seq<char>>,
    now: i64,
) -> RecordView {
    RecordView {
        id,
        content,
        metadata,
        tags,
        embedding: profile_of(content),
        created_at: now,
        updated_at: now,
    }
}

/// The length of every id this service assigns.
pub const ID_LEN: usize = 36;

/// Relies on `uuid::Uuid::new_v4` and the `Display` impl of `uuid::Uuid`: a
/// random version-4 id in its hyphenated form, 36 characters long.
#[verifier::external_body]
fn fresh_id() -> (r: String)
    ensures
        r@.len() == ID_LEN,
{
    uuid::Uuid::new_v4().to_string()
}

/// The in-memory memory service.
pub struct MemoryServiceImpl {
    store: MemoryStore,
}

impl View for MemoryServiceImpl {
    type V = Seq<RecordView>;

    closed spec fn view(&self) -> Seq<RecordView> {
        self.store@
    }
}

impl MemoryServiceImpl {
    /// The service's invariant: the table's.
    pub open spec fn wf(&self) -> bool {
        table_ok(self@)
    }

    /// A service with no records.
    pub fn new() -> (r: MemoryServiceImpl)
        ensures
            r.wf(),
            r@ == Seq::<RecordView>::empty(),
    {
        MemoryServiceImpl { store: MemoryStore::new() }
    }

    /// The number of records.
    pub fn len(&self) -> (r: usize)
        ensures
            r == self@.len(),
    {
        self.store.len()
    }

    /// The records, in the order they were stored.
    pub fn records(&self) -> (r: &Vec<MemoryRecord>)
        ensures
            r@.map_values(|m: MemoryRecord| m@) == self@,
    {
        self.store.records()
    }

    /// Stores a record under the given id at time `now`. Blank content is
    /// refused first; then a taken id. Either refusal leaves the table as it was.
    pub fn store_memory_with_id(
        &mut self,
        id: String,
        content: String,
        metadata: Vec<(String, String)>,
        tags: Vec<String>,
        now: i64,
    ) -> (r: Result<(), MemoryError>)
        requires
            old(self).wf(),
        ensures
            final(self).wf(),
            is_blank(content@) ==> r == Err::<(), MemoryError>(MemoryError::InvalidArgument),
            !is_blank(content@) && has_id(old(self)@, id@) ==> r == Err::<(), MemoryError>(
                MemoryError::AlreadyExists,
            ),
            !is_blank(content@) && !has_id(old(self)@, id@) ==> r == Ok::<(), MemoryError>(()),
            r is Ok ==> final(self)@ == old(self)@.push(
                new_record(id@, content@, pair_views(metadata@), views_of(tags@), now),
            ),
            r is Err ==> final(self)@ == old(self)@,
    {
        if blank(content.as_str()) {
            return Err(MemoryError::InvalidArgument);
        }
        let embedding = byte_weights(content.as_str());
        let record = MemoryRecord {
            id,
            content,
            metadata,
            tags,
            embedding,
            created_at: now,
            updated_at: now,
        };
        if self.store.insert(record) {
            Ok(())
        } else {
            Err(MemoryError::AlreadyExists)
        }
    }

    /// Stores a record under a fresh random id at time `now` and returns the
    /// id. Blank content is refused with no side effect; should the random id
    /// be taken, the request fails with `AlreadyExists` and nothing changes.
    pub fn store_memory(
        &mut self,
        content: String,
        metadata: Vec<(String, String)>,
        tags: Vec<String>,
        now: i64,
    ) -> (r: Result<String, MemoryError>)
        requires
            old(self).wf(),
        ensures
            final(self).wf(),
            is_blank(content@) ==> r == Err::<String, MemoryError>(MemoryError::InvalidArgument),
            !is_blank(content@) ==> (r is Ok || r == Err::<String, MemoryError>(
                MemoryError::AlreadyExists,
            )),
            r matches Ok(id) ==> {
                &&& id@.len() == ID_LEN
                &&& !has_id(old(self)@, id@)
                &&& final(self)@ == old(self)@.push(
                    new_record(id@, content@, pair_views(metadata@), views_of(tags@), now),
                )
            },
            r == Err::<String, MemoryError>(MemoryError::AlreadyExists) ==> exists|i: int|
                0 <= i < old(self)@.len() && (#[trigger] old(self)@[i]).id.len() == ID_LEN,
            r is Err ==> final(self)@ == old(self)@,
    {
        if blank(content.as_str()) {
            return Err(MemoryError::InvalidArgument);
        }
        let id = fresh_id();
        let kept = id.clone();
        match self.store_memory_with_id(id, content, metadata, tags, now) {
            Ok(()) => Ok(kept),
            Err(e) => Err(e),
        }
    }

    /// The record with id `id`, or `NotFound`.
    pub fn get_memory(&self, id: &String) -> (r: Result<MemoryRecord, MemoryError>)
        requires
            self.wf(),
        ensures
            r is Err <==> !has_id(self@, id@),
            r is Err ==> r == Err::<MemoryRecord, MemoryError>(MemoryError::NotFound),
            r matches Ok(m) ==> lookup(self@, id@) == Some(m@),
    {
        match self.store.get(id) {
            Some(m) => Ok(m),
            None => Err(MemoryError::NotFound),
        }
    }

    /// Deletes the record with id `id`; tells whether there was one. An
    /// unknown id is no error: the answer is `false`.
    pub fn delete_memory(&mut self, id: &String) -> (r: bool)
        requires
            old(self).wf(),
        ensures
            final(self).wf(),
            r == has_id(old(self)@, id@),
            final(self)@ == removed(old(self)@, id@),
    {
        self.store.remove(id)
    }

    /// The records whose content or tags hold the query, case-folded, in the
    /// order they were stored, at most `limit` of them (50 where `limit` is
    /// not positive), with their number.
    pub fn query_memories(&self, query: &str, limit: i32) -> (r: QueryResult)
        ensures
            r.memories@.map_values(|m: MemoryRecord| m@) == truncated(
                matching(self@, query@),
                limit_or(limit, DEFAULT_QUERY_LIMIT),
            ),
            query@.len() == 0 ==> r.memories@.map_values(|m: MemoryRecord| m@) == truncated(
                self@,
                limit_or(limit, DEFAULT_QUERY_LIMIT),
            ),
            r.total_count == r.memories@.len(),
    {
        let lim = effective_limit(limit, DEFAULT_QUERY_LIMIT);
        let memories = self.store.filter_by_text(query, lim);
        assert(memories@.len() <= lim) by {
            assert(memories@.map_values(|m: MemoryRecord| m@).len() == memories@.len());
        }
        let total_count = memories.len() as i32;
        QueryResult { memories, total_count }
    }

    /// Changes the record with id `id`: the content (and so its embedding)
    /// where given, the tags where given; metadata, id and creation time stay,
    /// and the update time moves forward to `now`. An unknown id is no error:
    /// the answer is `false` and nothing changes.
    pub fn update_memory(
        &mut self,
        id: &String,
        content: Option<String>,
        tags: Option<Vec<String>>,
        now: i64,
    ) -> (r: bool)
        requires
            old(self).wf(),
        ensures
            final(self).wf(),
            r == has_id(old(self)@, id@),
            r ==> final(self)@ == old(self)@.update(
                position(old(self)@, id@),
                updated_record(
                    old(self)@[position(old(self)@, id@)],
                    match content {
                        Some(c) => Some(c@),
                        None => None,
                    },
                    match tags {
                        Some(t) => Some(views_of(t@)),
                        None => None,
                    },
                    now,
                ),
            ),
            !r ==> final(self)@ == old(self)@,
    {
        self.store.update(id, content, tags, now)
    }

    /// A copy of every record, in the order they were stored: a snapshot that
    /// stays as it is while the table changes.
    pub fn snapshot(&self) -> (r: Vec<MemoryRecord>)
        ensures
            records_view(r@) == self@,
    {
        let records = self.store.records();
        let mut out: Vec<MemoryRecord> = Vec::new();
        let mut i: usize = 0;
        while i < records.len()
            invariant
                i <= records@.len(),
                records_view(records@) == self@,
                records_view(out@) == self@.subrange(0, i as int),
            decreases records.len() - i,
        {
            assert(records@[i as int]@ == self@[i as int]);
            let d = records[i].duplicate();
            let ghost prev = out@;
            out.push(d);
            assert(out@ == prev.push(d));
            assert(records_view(out@) =~= records_view(prev).push(d@));
            i += 1;
            assert(records_view(out@) =~= self@.subrange(0, i as int));
        }
        assert(self@.subrange(0, self@.len() as int) =~= self@);
        out
    }

    /// Similarity search over the table. `scores[i]` is the score of the
    /// record at position `i` against a query vector of `query_dim`
    /// components. An empty query vector is refused, and only it; otherwise
    /// the hits are the ranking of the records at `threshold`, cut to `limit`
    /// (10 where `limit` is not positive).
    pub fn search_memories(
        &self,
        query_dim: usize,
        scores: &Vec<i64>,
        threshold: i64,
        limit: i32,
    ) -> (r: Result<Vec<MemoryMatch>, MemoryError>)
        requires
            scores@.len() == self@.len(),
        ensures
            r is Err <==> query_dim == 0,
            r is Err ==> r == Err::<Vec<MemoryMatch>, MemoryError>(MemoryError::InvalidArgument),
            r matches Ok(v) ==> search_hits(self@, scores@, threshold, limit, v@),
    {
        search_records(self.store.records(), query_dim, scores, threshold, limit)
    }
}

/// The views of a list of records.
pub open spec fn records_view(v: Seq<MemoryRecord>) -> Seq<RecordView> {
    v.map_values(|m: MemoryRecord| m@)
}

/// `hits` are the ranking of `records` by `scores` at `threshold`, cut to
/// `limit` (10 where it is not positive), each with its record and score.
pub open spec fn search_hits(
    records: Seq<RecordView>,
    scores: Seq<i64>,
    threshold: i64,
    limit: i32,
    hits: Seq<MemoryMatch>,
) -> bool {
    &&& is_ranking(
        scores,
        threshold,
        limit_or(limit, DEFAULT_SEARCH_LIMIT),
        hits.map_values(|m: MemoryMatch| m.position),
    )
    &&& forall|k: int|
        0 <= k < hits.len() ==> {
            &&& (#[trigger] hits[k]).position < records.len()
            &&& hits[k].memory@ == records[hits[k].position as int]
            &&& hits[k].similarity_score == scores[hits[k].position as int]
        }
}

/// Similarity search over a list of records, such as a snapshot of the
/// table: `scores[i]` is the score of `records[i]` against a query vector of
/// `query_dim` components. An empty query vector is refused, and only it;
/// otherwise the hits are the ranking at `threshold`, cut to `limit` (10
/// where `limit` is not positive).
pub fn search_records(
    records: &Vec<MemoryRecord>,
    query_dim: usize,
    scores: &Vec<i64>,
    threshold: i64,
    limit: i32,
) -> (r: Result<Vec<MemoryMatch>, MemoryError>)
    requires
        scores@.len() == records@.len(),
    ensures
        r is Err <==> query_dim == 0,
        r is Err ==> r == Err::<Vec<MemoryMatch>, MemoryError>(MemoryError::InvalidArgument),
        r matches Ok(v) ==> search_hits(records_view(records@), scores@, threshold, limit, v@),
{
    if query_dim == 0 {
        return Err(MemoryError::InvalidArgument);
    }
    let ghost rv = records_view(records@);
    let lim = effective_limit(limit, DEFAULT_SEARCH_LIMIT);
    let order = rank(scores, threshold, lim);
    let mut hits: Vec<MemoryMatch> = Vec::new();
    let mut k: usize = 0;
    while k < order.len()
        invariant
            k <= order@.len(),
            hits@.len() == k,
            rv == records_view(records@),
            scores@.len() == records@.len(),
            forall|j: int| 0 <= j < order@.len() ==> (#[trigger] order@[j]) < scores@.len(),
            forall|j: int|
                0 <= j < k ==> {
                    &&& (#[trigger] hits@[j]).position == order@[j]
                    &&& hits@[j].memory@ == rv[order@[j] as int]
                    &&& hits@[j].similarity_score == scores@[order@[j] as int]
                },
        decreases order.len() - k,
    {
        let p = order[k];
        assert(records@[p as int]@ == rv[p as int]);
        hits.push(
            MemoryMatch { memory: records[p].duplicate(), similarity_score: scores[p], position: p },
        );
        k += 1;
    }
    assert(hits@.map_values(|m: MemoryMatch| m.position) =~= order@);
    Ok(hits)
}

impl Default for MemoryServiceImpl {
    fn default() -> (r: MemoryServiceImpl)
        ensures
            r.wf(),
            r@ == Seq::<RecordView>::empty(),
    {
        MemoryServiceImpl::new()
    }
}

/// Reading a record right after storing it gives back what was stored: the
/// same content, tags and metadata, and an embedding of `EMBEDDING_DIM`
/// components.
pub proof fn lemma_store_then_get(
    s: Seq<RecordView>,
    id: Seq<char>,
    content: Seq<char>,
    metadata: Seq<(Seq<char>, Seq<char>)>,
    tags: Seq<Seq<char>>,
    now: i64,
)
    requires
        table_ok(s),
        !has_id(s, id),
    ensures
        lookup(s.push(new_record(id, content, metadata, tags, now)), id) matches Some(m) && {
            &&& m.content == content
            &&& m.tags == tags
            &&& m.metadata == metadata
            &&& m.embedding.len() == EMBEDDING_DIM
        },
{
    let t = s.push(new_record(id, content, metadata, tags, now));
    assert forall|i: int, j: int| 0 <= i < j < t.len() implies #[trigger] t[i].id != #[trigger] t[j].id by {
        if j == s.len() {
            assert(s[i].id != id);
        } else {
            assert(s[i].id != s[j].id);
        }
    }
    crate::store::lemma_position_unique(t, id, s.len() as int);
}

/// After a delete, the id is not found.
pub proof fn lemma_delete_then_get(s: Seq<RecordView>, id: Seq<char>)
    requires
        table_ok(s),
    ensures
        lookup(removed(s, id), id) is None,
{
    if has_id(s, id) {
        let p = position(s, id);
        let t = s.remove(p);
        if has_id(t, id) {
            let i = choose|i: int| 0 <= i < t.len() && #[trigger] t[i].id == id;
            let i2 = if i < p { i } else { i + 1 };
            assert(s[i2].id == id);
            if i2 < p {
                assert(s[i2].id != s[p].id);
            } else {
                assert(s[p].id != s[i2].id);
            }
        }
    }
}

} // verus!
