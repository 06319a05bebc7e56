use identra_memory::embedding::{byte_weights, EMBEDDING_DIM};
use identra_memory::ranking::{effective_limit, rank, DEFAULT_QUERY_LIMIT, DEFAULT_SEARCH_LIMIT};
use identra_memory::service::{search_records, MemoryError, MemoryServiceImpl, ID_LEN};
use identra_memory::text::{blank, matches_folded, text_matches};

fn s(x: &str) -> String {
    x.to_string()
}

fn meta(pairs: &[(&str, &str)]) -> Vec<(String, String)> {
    pairs.iter().map(|(k, v)| (s(k), s(v))).collect()
}

fn store(svc: &mut MemoryServiceImpl, id: &str, content: &str, tags: &[&str], now: i64) {
    let tags: Vec<String> = tags.iter().map(|t| s(t)).collect();
    svc.store_memory_with_id(s(id), s(content), Vec::new(), tags, now).unwrap();
}

/// Unit vector of a weight profile, as the service's callers build it.
fn unit_vector(weights: &[u128]) -> Vec<f32> {
    let v: Vec<f32> = weights.iter().map(|w| *w as f32 / 255.0).collect();
    let norm: f32 = v.iter().map(|x| x * x).sum::<f32>().sqrt();
    if norm > 0.0 {
        v.iter().map(|x| x / norm).collect()
    } else {
        v
    }
}

fn cosine(a: &[f32], b: &[f32]) -> f32 {
    if a.len() != b.len() || a.is_empty() {
        return 0.0;
    }
    let dot: f32 = a.iter().zip(b.iter()).map(|(x, y)| x * y).sum();
    let ma: f32 = a.iter().map(|x| x * x).sum::<f32>().sqrt();
    let mb: f32 = b.iter().map(|x| x * x).sum::<f32>().sqrt();
    if ma <= f32::EPSILON || mb <= f32::EPSILON {
        return 0.0;
    }
    dot / (ma * mb)
}

/// An integer that orders as the score does.
fn score_key(x: f32) -> i64 {
    let x = if x.is_nan() { 0.0 } else { x + 0.0 };
    let b = x.to_bits() as i32;
    (if b < 0 { b ^ 0x7fff_ffff } else { b }) as i64
}

#[test]
fn query_substring_finds_only_beta() {
    let mut svc = MemoryServiceImpl::new();
    store(&mut svc, "a", "alpha", &[], 1);
    store(&mut svc, "b", "beta", &[], 2);
    store(&mut svc, "g", "gamma", &[], 3);
    let r = svc.query_memories("eta", 10);
    assert_eq!(r.total_count, 1);
    assert_eq!(r.memories.len(), 1);
    assert_eq!(r.memories[0].content, "beta");
    assert_eq!(r.memories[0].id, "b");
}

#[test]
fn search_with_own_embedding_ranks_first() {
    let mut svc = MemoryServiceImpl::new();
    store(&mut svc, "x", "the quick brown fox", &[], 1);
    store(&mut svc, "y", "lorem ipsum dolor sit amet", &[], 2);
    store(&mut svc, "z", "zzzz", &[], 3);
    let own = unit_vector(&svc.get_memory(&s("x")).unwrap().embedding);
    let scores: Vec<i64> = svc
        .records()
        .iter()
        .map(|m| score_key(cosine(&own, &unit_vector(&m.embedding))))
        .collect();
    let hits = svc.search_memories(own.len(), &scores, score_key(0.99), 5).unwrap();
    assert!(!hits.is_empty());
    assert!(hits.len() <= 5);
    assert_eq!(hits[0].memory.id, "x");
    assert_eq!(hits[0].position, 0);
    let top = cosine(&own, &unit_vector(&hits[0].memory.embedding));
    assert!((top - 1.0).abs() < 1e-5);
    assert_eq!(hits[0].similarity_score, score_key(top));
}

#[test]
fn get_after_store_returns_what_was_stored() {
    let mut svc = MemoryServiceImpl::new();
    let tags = vec![s("work"), s("notes")];
    let id = svc
        .store_memory(s("remember the milk"), meta(&[("source", "test")]), tags.clone(), 1700)
        .unwrap();
    assert_eq!(id.chars().count(), ID_LEN);
    let m = svc.get_memory(&id).unwrap();
    assert_eq!(m.id, id);
    assert_eq!(m.content, "remember the milk");
    assert_eq!(m.tags, tags);
    assert_eq!(m.metadata, meta(&[("source", "test")]));
    assert_eq!(m.embedding.len(), EMBEDDING_DIM);
    assert_eq!(m.embedding, byte_weights("remember the milk"));
    assert_eq!(m.created_at, 1700);
    assert_eq!(m.updated_at, 1700);
}

#[test]
fn store_assigns_distinct_ids() {
    let mut svc = MemoryServiceImpl::new();
    let a = svc.store_memory(s("one"), Vec::new(), Vec::new(), 1).unwrap();
    let b = svc.store_memory(s("two"), Vec::new(), Vec::new(), 1).unwrap();
    assert_ne!(a, b);
    assert_eq!(svc.len(), 2);
}

#[test]
fn delete_then_get_is_not_found() {
    let mut svc = MemoryServiceImpl::new();
    store(&mut svc, "k", "keep me", &[], 5);
    assert!(svc.delete_memory(&s("k")));
    assert_eq!(svc.get_memory(&s("k")).err(), Some(MemoryError::NotFound));
    assert_eq!(svc.len(), 0);
}

#[test]
fn delete_unknown_id_is_false() {
    let mut svc = MemoryServiceImpl::new();
    store(&mut svc, "k", "keep me", &[], 5);
    assert!(!svc.delete_memory(&s("missing")));
    assert_eq!(svc.len(), 1);
}

#[test]
fn get_unknown_id_is_not_found() {
    let svc = MemoryServiceImpl::new();
    assert_eq!(svc.get_memory(&s("nope")).err(), Some(MemoryError::NotFound));
}

#[test]
fn blank_content_is_refused() {
    let mut svc = MemoryServiceImpl::new();
    assert_eq!(
        svc.store_memory(s(""), Vec::new(), Vec::new(), 1).err(),
        Some(MemoryError::InvalidArgument)
    );
    assert_eq!(
        svc.store_memory(s("  \t\n "), Vec::new(), Vec::new(), 1).err(),
        Some(MemoryError::InvalidArgument)
    );
    assert_eq!(
        svc.store_memory_with_id(s("i"), s("   "), Vec::new(), Vec::new(), 1),
        Err(MemoryError::InvalidArgument)
    );
    assert_eq!(svc.len(), 0);
}

#[test]
fn taken_id_is_refused() {
    let mut svc = MemoryServiceImpl::new();
    store(&mut svc, "dup", "first", &[], 1);
    assert_eq!(
        svc.store_memory_with_id(s("dup"), s("second"), Vec::new(), Vec::new(), 2),
        Err(MemoryError::AlreadyExists)
    );
    assert_eq!(svc.len(), 1);
    assert_eq!(svc.get_memory(&s("dup")).unwrap().content, "first");
}

#[test]
fn query_matches_tags_case_folded() {
    let mut svc = MemoryServiceImpl::new();
    store(&mut svc, "1", "plain text", &["Project-X"], 1);
    store(&mut svc, "2", "About PROJECT planning", &[], 2);
    store(&mut svc, "3", "unrelated", &["misc"], 3);
    let r = svc.query_memories("project", 0);
    let ids: Vec<&str> = r.memories.iter().map(|m| m.id.as_str()).collect();
    assert_eq!(ids, vec!["1", "2"]);
    assert_eq!(r.total_count, 2);
}

#[test]
fn empty_query_matches_all_up_to_limit() {
    let mut svc = MemoryServiceImpl::new();
    for i in 0..5 {
        store(&mut svc, &format!("id{}", i), &format!("note {}", i), &[], i);
    }
    let r = svc.query_memories("", 3);
    let ids: Vec<&str> = r.memories.iter().map(|m| m.id.as_str()).collect();
    assert_eq!(ids, vec!["id0", "id1", "id2"]);
    assert_eq!(r.total_count, 3);
    assert_eq!(svc.query_memories("", -1).total_count, 5);
}

#[test]
fn query_default_limit_is_fifty() {
    let mut svc = MemoryServiceImpl::new();
    for i in 0..60 {
        store(&mut svc, &format!("id{}", i), "same", &[], i);
    }
    assert_eq!(svc.query_memories("same", 0).total_count, 50);
    assert_eq!(svc.query_memories("same", 55).total_count, 55);
}

#[test]
fn search_filters_orders_and_limits() {
    let mut svc = MemoryServiceImpl::new();
    for i in 0..6 {
        store(&mut svc, &format!("r{}", i), &format!("record {}", i), &[], i);
    }
    let scores: Vec<i64> = vec![5, 9, 1, 9, 7, 3];
    let hits = svc.search_memories(384, &scores, 3, 10).unwrap();
    let order: Vec<usize> = hits.iter().map(|h| h.position).collect();
    assert_eq!(order, vec![1, 3, 4, 0, 5]);
    let got: Vec<i64> = hits.iter().map(|h| h.similarity_score).collect();
    assert_eq!(got, vec![9, 9, 7, 5, 3]);
    assert_eq!(hits[0].memory.id, "r1");
    assert_eq!(hits[1].memory.id, "r3");
    let top2 = svc.search_memories(384, &scores, 3, 2).unwrap();
    assert_eq!(top2.len(), 2);
    assert_eq!(top2[1].memory.id, "r3");
}

#[test]
fn search_default_limit_is_ten() {
    let mut svc = MemoryServiceImpl::new();
    for i in 0..12 {
        store(&mut svc, &format!("r{}", i), "text", &[], i);
    }
    let scores: Vec<i64> = vec![0; 12];
    assert_eq!(svc.search_memories(4, &scores, 0, 0).unwrap().len(), 10);
    assert_eq!(svc.search_memories(4, &scores, 1, 0).unwrap().len(), 0);
}

#[test]
fn search_with_empty_query_is_refused() {
    let mut svc = MemoryServiceImpl::new();
    store(&mut svc, "a", "alpha", &[], 1);
    assert_eq!(
        svc.search_memories(0, &vec![1], 0, 5).err(),
        Some(MemoryError::InvalidArgument)
    );
}

#[test]
fn update_changes_content_and_keeps_creation() {
    let mut svc = MemoryServiceImpl::new();
    store(&mut svc, "u", "before", &["t1"], 10);
    assert!(svc.update_memory(&s("u"), Some(s("after")), None, 20));
    let m = svc.get_memory(&s("u")).unwrap();
    assert_eq!(m.content, "after");
    assert_eq!(m.tags, vec![s("t1")]);
    assert_eq!(m.embedding, byte_weights("after"));
    assert_eq!(m.created_at, 10);
    assert_eq!(m.updated_at, 20);
}

#[test]
fn update_tags_only_keeps_content_and_embedding() {
    let mut svc = MemoryServiceImpl::new();
    store(&mut svc, "u", "content", &["old"], 10);
    assert!(svc.update_memory(&s("u"), None, Some(vec![s("new"), s("tags")]), 5));
    let m = svc.get_memory(&s("u")).unwrap();
    assert_eq!(m.content, "content");
    assert_eq!(m.tags, vec![s("new"), s("tags")]);
    assert_eq!(m.embedding, byte_weights("content"));
    assert_eq!(m.updated_at, 10);
}

#[test]
fn update_unknown_id_is_false() {
    let mut svc = MemoryServiceImpl::new();
    assert!(!svc.update_memory(&s("none"), Some(s("x")), None, 1));
}

#[test]
fn weights_spread_bytes_by_position() {
    let w = byte_weights("ab");
    assert_eq!(w.len(), EMBEDDING_DIM);
    assert_eq!(w[97], 97);
    assert_eq!(w[99], 98);
    assert_eq!(w.iter().sum::<u128>(), 97 + 98);
    let z = byte_weights("");
    assert!(z.iter().all(|x| *x == 0));
}

#[test]
fn weights_wrap_around_and_accumulate() {
    let text = "a".repeat(400);
    let w = byte_weights(&text);
    // byte 97 at position i lands in bucket (97 + i) mod 384
    assert_eq!(w[97], 97 * 2);
    assert_eq!(w[96], 97);
    assert_eq!(w[0], 97);
    assert_eq!(w[112], 97 * 2);
    assert_eq!(w[113], 97);
    assert_eq!(w.iter().sum::<u128>(), 97 * 400);
}

#[test]
fn text_filter_folds_case() {
    assert!(text_matches("ETA", "Beta", &Vec::new()));
    assert!(text_matches("tag", "nothing", &vec![s("MyTAG")]));
    assert!(!text_matches("zeta", "Beta", &vec![s("gamma")]));
    assert!(text_matches("", "anything", &Vec::new()));
    assert!(matches_folded("eta", "beta", &Vec::new()));
    assert!(!matches_folded("ETA", "beta", &Vec::new()));
}

#[test]
fn blank_detects_whitespace_only() {
    assert!(blank(""));
    assert!(blank(" \t\n"));
    assert!(!blank(" x "));
}

#[test]
fn rank_breaks_ties_by_position() {
    assert_eq!(rank(&vec![2, 5, 5, 2, 8], 2, 10), vec![4, 1, 2, 0, 3]);
    assert_eq!(rank(&vec![2, 5, 5, 2, 8], 3, 2), vec![4, 1]);
    assert_eq!(rank(&vec![], 0, 3), Vec::<usize>::new());
    assert_eq!(rank(&vec![1, 2], 0, 0), Vec::<usize>::new());
}

#[test]
fn limits_fall_back_to_defaults() {
    assert_eq!(effective_limit(7, DEFAULT_SEARCH_LIMIT), 7);
    assert_eq!(effective_limit(0, DEFAULT_SEARCH_LIMIT), 10);
    assert_eq!(effective_limit(-3, DEFAULT_QUERY_LIMIT), 50);
}

#[test]
fn snapshot_keeps_records_in_order() {
    let mut svc = MemoryServiceImpl::new();
    store(&mut svc, "a", "alpha", &["x"], 1);
    store(&mut svc, "b", "beta", &[], 2);
    let snap = svc.snapshot();
    assert!(svc.delete_memory(&s("a")));
    let ids: Vec<&str> = snap.iter().map(|m| m.id.as_str()).collect();
    assert_eq!(ids, vec!["a", "b"]);
    assert_eq!(snap[0].tags, vec![s("x")]);
    assert_eq!(svc.len(), 1);
}

#[test]
fn search_over_snapshot_ranks_like_the_table() {
    let mut svc = MemoryServiceImpl::new();
    store(&mut svc, "a", "alpha", &[], 1);
    store(&mut svc, "b", "beta", &[], 2);
    store(&mut svc, "c", "gamma", &[], 3);
    let snap = svc.snapshot();
    let scores: Vec<i64> = vec![4, 8, 4];
    let hits = search_records(&snap, 3, &scores, 4, 0).unwrap();
    let ids: Vec<&str> = hits.iter().map(|h| h.memory.id.as_str()).collect();
    assert_eq!(ids, vec!["b", "a", "c"]);
    assert_eq!(search_records(&snap, 0, &scores, 4, 0).err(), Some(MemoryError::InvalidArgument));
}

#[test]
fn search_with_no_score_at_threshold_is_empty_success() {
    let mut svc = MemoryServiceImpl::new();
    store(&mut svc, "a", "alpha", &[], 1);
    store(&mut svc, "b", "beta", &[], 2);
    // a query of another dimension scores every record 0.0
    let scores: Vec<i64> = vec![score_key(0.0), score_key(0.0)];
    let hits = svc.search_memories(7, &scores, score_key(0.5), 5).unwrap();
    assert!(hits.is_empty());
}

#[test]
fn unicode_white_space_is_blank() {
    assert!(blank("\u{3000}\u{a0}\u{2009}\u{85}"));
    assert!(!blank("\u{200b}"));
    let mut svc = MemoryServiceImpl::new();
    assert_eq!(
        svc.store_memory(s("\u{2028} \u{202f}"), Vec::new(), Vec::new(), 1).err(),
        Some(MemoryError::InvalidArgument)
    );
}

#[test]
fn empty_query_with_tags_matches_every_record() {
    let mut svc = MemoryServiceImpl::new();
    store(&mut svc, "a", "alpha", &["t"], 1);
    store(&mut svc, "b", "beta", &[], 2);
    let r = svc.query_memories("", 10);
    assert_eq!(r.total_count, 2);
}
