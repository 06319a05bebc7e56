//! The record table: records in insertion order, each id held at most once.
use vstd::prelude::*;
use crate::embedding::{byte_weights, profile_of, EMBEDDING_DIM};
use crate::record::{MemoryRecord, RecordView};
use crate::text::{text_match, text_matches, views_of};

verus! {

/// Some record of `s` has the id `id`.
pub open spec fn has_id(s: Seq<RecordView>, id: Seq<char>) -> bool {
    exists|i: int| 0 <= i < s.len() && #[trigger] s[i].id == id
}

/// The position of the record with id `id`, where there is one.
pub open spec fn position(s: Seq<RecordView>, id: Seq<char>) -> int {
    choose|i: int| 0 <= i < s.len() && #[trigger] s[i].id == id
}

/// The record with id `id`, if any.
pub open spec fn lookup(s: Seq<RecordView>, id: Seq<char>) -> Option<RecordView> {
    if has_id(s, id) {
        Some(s[position(s, id)])
    } else {
        None
    }
}

/// The table without the record with id `id`.
pub open spec fn removed(s: Seq<RecordView>, id: Seq<char>) -> Seq<RecordView> {
    if has_id(s, id) {
        s.remove(position(s, id))
    } else {
        s
    }
}

/// No two records share an id.
pub open spec fn ids_unique(s: Seq<RecordView>) -> bool {
    forall|i: int, j: int| 0 <= i < j < s.len() ==> #[trigger] s[i].id != #[trigger] s[j].id
}

/// What every record of a table satisfies: an embedding of the fixed length,
/// and a creation time no later than the last update.
pub open spec fn record_ok(r: RecordView) -> bool {
    r.embedding.len() == EMBEDDING_DIM && r.created_at <= r.updated_at
}

/// The table's invariant.
pub open spec fn table_ok(s: Seq<RecordView>) -> bool {
    ids_unique(s) && forall|i: int| 0 <= i < s.len() ==> record_ok(#[trigger] s[i])
}

/// The records that answer a text query, in table order.
pub open spec fn matching(s: Seq<RecordView>, query: Seq<char>) -> Seq<RecordView>
    decreases s.len(),
{
    if s.len() == 0 {
        Seq::empty()
    } else {
        let prev = matching(s.drop_last(), query);
        if text_match(query, s.last().content, s.last().tags) {
            prev.push(s.last())
        } else {
            prev
        }
    }
}

/// The first `n` elements of `s`, or all of them if there are fewer.
pub open spec fn truncated<T>(s: Seq<T>, n: nat) -> Seq<T> {
    if s.len() <= n {
        s
    } else {
        s.subrange(0, n as int)
    }
}

/// The record that an update leaves: new content (and its profile) where
/// given, new tags where given, the update time moved forward to `now`.
pub open spec fn updated_record(
    r: RecordView,
    content: Option<Seq<char>>,
    tags: Option<Seq<Seq<char>>>,
    now: i64,
) -> RecordView {
    RecordView {
        id: r.id,
        content: match content {
            Some(c) => c,
            None => r.content,
        },
        metadata: r.metadata,
        tags: match tags {
            Some(t) => t,
            None => r.tags,
        },
        embedding: match content {
            Some(c) => profile_of(c),
            None => r.embedding,
        },
        created_at: r.created_at,
        updated_at: if now > r.updated_at {
            now
        } else {
            r.updated_at
        },
    }
}

/// Where ids are unique, the position of an id is the one index that holds it.
pub proof fn lemma_position_unique(s: Seq<RecordView>, id: Seq<char>, i: int)
    requires
        ids_unique(s),
        0 <= i < s.len(),
        s[i].id == id,
    ensures
        has_id(s, id),
        position(s, id) == i,
{
    let j = position(s, id);
    if j != i {
        if j < i {
            assert(s[j].id != s[i].id);
        } else {
            assert(s[i].id != s[j].id);
        }
    }
}

/// The record table.
pub struct MemoryStore {
    records: Vec<MemoryRecord>,
}

impl View for MemoryStore {
    type V = Seq<RecordView>;

    closed spec fn view(&self) -> Seq<RecordView> {
        self.records@.map_values(|r: MemoryRecord| r@)
    }
}

impl MemoryStore {
    /// The store's invariant.
    pub open spec fn wf(&self) -> bool {
        table_ok(self@)
    }

    /// An empty table.
    pub fn new() -> (r: MemoryStore)
        ensures
            r.wf(),
            r@ == Seq::<RecordView>::empty(),
    {
        let r = MemoryStore { records: Vec::new() };
        assert(r@ =~= Seq::<RecordView>::empty());
        r
    }

    /// The number of records.
    pub fn len(&self) -> (r: usize)
        ensures
            r == self@.len(),
    {
        self.records.len()
    }

    /// The records, in table order.
    pub fn records(&self) -> (r: &Vec<MemoryRecord>)
        ensures
            r@.map_values(|m: MemoryRecord| m@) == self@,
    {
        &self.records
    }

    /// The position of the record with id `id`, if any.
    pub fn find(&self, id: &String) -> (r: Option<usize>)
        requires
            self.wf(),
        ensures
            r.is_none() == !has_id(self@, id@),
            r matches Some(i) ==> i == position(self@, id@) && i < self@.len(),
    {
        let mut i: usize = 0;
        while i < self.records.len()
            invariant
                self.wf(),
                i <= self@.len(),
                self@.len() == self.records@.len(),
                forall|k: int| 0 <= k < i ==> #[trigger] self@[k].id != id@,
            decreases self.records.len() - i,
        {
            assert(self@[i as int] == self.records@[i as int]@);
            if self.records[i].id == *id {
                proof {
                    lemma_position_unique(self@, id@, i as int);
                }
                return Some(i);
            }
            i += 1;
        }
        None
    }

    /// Adds a record under an id the table does not hold yet; a taken id is
    /// refused and leaves the table as it was.
    pub fn insert(&mut self, record: MemoryRecord) -> (r: bool)
        requires
            old(self).wf(),
            record_ok(record@),
        ensures
            final(self).wf(),
            r == !has_id(old(self)@, record@.id),
            r ==> final(self)@ == old(self)@.push(record@),
            !r ==> final(self)@ == old(self)@,
    {
        match self.find(&record.id) {
            Some(_) => false,
            None => {
                let ghost old_view = self@;
                self.records.push(record);
                assert(self@ =~= old_view.push(record@));
                proof {
                    assert forall|i: int, j: int| 0 <= i < j < self@.len() implies #[trigger] self@[i].id
                        != #[trigger] self@[j].id by {
                        if j == old_view.len() {
                            assert(old_view[i].id != record@.id);
                        }
                    }
                }
                true
            },
        }
    }

    /// A copy of the record with id `id`, if any.
    pub fn get(&self, id: &String) -> (r: Option<MemoryRecord>)
        requires
            self.wf(),
        ensures
            r.is_none() == (lookup(self@, id@) is None),
            r matches Some(m) ==> lookup(self@, id@) == Some(m@),
    {
        match self.find(id) {
            Some(i) => {
                assert(self@[i as int] == self.records@[i as int]@);
                Some(self.records[i].duplicate())
            },
            None => None,
        }
    }

    /// Removes the record with id `id`; tells whether there was one.
    pub fn remove(&mut self, id: &String) -> (r: bool)
        requires
            old(self).wf(),
        ensures
            final(self).wf(),
            r == has_id(old(self)@, id@),
            final(self)@ == removed(old(self)@, id@),
    {
        match self.find(id) {
            Some(i) => {
                let ghost old_view = self@;
                self.records.remove(i);
                assert(self@ =~= old_view.remove(i as int));
                proof {
                    assert forall|a: int, b: int| 0 <= a < b < self@.len() implies #[trigger] self@[a].id
                        != #[trigger] self@[b].id by {
                        let a2 = if a < i { a } else { a + 1 };
                        let b2 = if b < i { b } else { b + 1 };
                        assert(old_view[a2].id != old_view[b2].id);
                    }
                    assert forall|a: int| 0 <= a < self@.len() implies record_ok(#[trigger] self@[a]) by {
                        let a2 = if a < i { a } else { a + 1 };
                        assert(record_ok(old_view[a2]));
                    }
                }
                true
            },
            None => false,
        }
    }

    /// The records whose content or tags hold the query, case-folded, in table
    /// order, at most `limit` of them.
    pub fn filter_by_text(&self, query: &str, limit: usize) -> (r: Vec<MemoryRecord>)
        ensures
            r@.map_values(|m: MemoryRecord| m@) == truncated(matching(self@, query@), limit as nat),
            query@.len() == 0 ==> r@.map_values(|m: MemoryRecord| m@) == truncated(self@, limit as nat),
    {
        let mut out: Vec<MemoryRecord> = Vec::new();
        let mut i: usize = 0;
        while i < self.records.len()
            invariant
                i <= self@.len(),
                self@.len() == self.records@.len(),
                out@.map_values(|m: MemoryRecord| m@) == truncated(
                    matching(self@.subrange(0, i as int), query@),
                    limit as nat,
                ),
                query@.len() == 0 ==> matching(self@.subrange(0, i as int), query@) == self@.subrange(
                    0,
                    i as int,
                ),
            decreases self.records.len() - i,
        {
            let ghost before = matching(self@.subrange(0, i as int), query@);
            let rec = &self.records[i];
            assert(self@.subrange(0, i + 1 as int).drop_last() =~= self@.subrange(0, i as int));
            assert(self@[i as int] == rec@);
            let hit = text_matches(query, rec.content.as_str(), &rec.tags);
            if hit {
                if out.len() < limit {
                    let ghost prev = out@.map_values(|m: MemoryRecord| m@);
                    out.push(rec.duplicate());
                    assert(out@.map_values(|m: MemoryRecord| m@) =~= prev.push(rec@));
                } else {
                    assert(before.push(rec@).subrange(0, limit as int) =~= before.subrange(
                        0,
                        limit as int,
                    ));
                }
            }
            proof {
                if query@.len() == 0 {
                    assert(self@.subrange(0, i as int).push(rec@) =~= self@.subrange(0, i + 1 as int));
                }
            }
            i += 1;
        }
        assert(self@.subrange(0, self@.len() as int) =~= self@);
        out
    }

    /// Changes the record with id `id`: its content (and so its profile) where
    /// `content` is given, its tags where `tags` is given; the update time moves
    /// forward to `now`. Tells whether there was such a record; if not, the
    /// table stays as it was.
    pub fn update(
        &mut self,
        id: &String,
        content: Option<String>,
        tags: Option<Vec<String>>,
        now: i64,
    ) -> (r: bool)
        requires
            old(self).wf(),
        ensures
            final(self).wf(),
            r == has_id(old(self)@, id@),
            r ==> final(self)@ == old(self)@.update(
                position(old(self)@, id@),
                updated_record(
                    old(self)@[position(old(self)@, id@)],
                    match content {
                        Some(c) => Some(c@),
                        None => None,
                    },
                    match tags {
                        Some(t) => Some(views_of(t@)),
                        None => None,
                    },
                    now,
                ),
            ),
            !r ==> final(self)@ == old(self)@,
    {
        match self.find(id) {
            None => false,
            Some(i) => {
                let ghost old_view = self@;
                let cur = self.records[i].duplicate();
                assert(cur@ == old_view[i as int]);
                let (new_content, new_embedding) = match content {
                    Some(c) => {
                        let w = byte_weights(c.as_str());
                        (c, w)
                    },
                    None => (cur.content, cur.embedding),
                };
                let new_tags = match tags {
                    Some(t) => t,
                    None => cur.tags,
                };
                let updated_at = if now > cur.updated_at {
                    now
                } else {
                    cur.updated_at
                };
                let rec = MemoryRecord {
                    id: cur.id,
                    content: new_content,
                    metadata: cur.metadata,
                    tags: new_tags,
                    embedding: new_embedding,
                    created_at: cur.created_at,
                    updated_at,
                };
                self.records.set(i, rec);
                assert(self@ =~= old_view.update(i as int, rec@));
                proof {
                    assert forall|a: int, b: int| 0 <= a < b < self@.len() implies #[trigger] self@[a].id
                        != #[trigger] self@[b].id by {
                        assert(old_view[a].id != old_view[b].id);
                    }
                    assert forall|a: int| 0 <= a < self@.len() implies record_ok(#[trigger] self@[a]) by {
                        assert(record_ok(old_view[a]));
                    }
                }
                true
            },
        }
    }
}

} // verus!
