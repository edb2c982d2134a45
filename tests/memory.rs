use axis::tokenize::{normalize_lowered, split_tokens};
use axis::memory::{
    build_interaction, save_interaction, validate_meta, IoBlock, MemoryEntry, MemoryIndex,
    MemoryKind, MemoryMeta,
};
use axis::recall::{
    build_memory_context, render_memory_context, search_best_for_query, search_top_k,
    search_top_k_at, tag_overlap,
};
use axis::tokenize::{normalize_text, tokenize};

const DAY: i64 = 86_400_000;
const NOW: i64 = 1_700_000_000_000;

fn meta(id: &str, text: &str, importance: i32, updated: i64) -> MemoryMeta {
    MemoryMeta {
        id: id.to_string(),
        kind: MemoryKind::ShortTerm,
        importance,
        tags: vec![],
        stickies: None,
        source: "llm".to_string(),
        provider: None,
        references: vec![],
        sealed_reason: None,
        created_at_ms: updated,
        updated_at_ms: updated,
        search_text: text.to_string(),
    }
}

fn entry(id: &str, input: &str, output: &str) -> MemoryEntry {
    MemoryEntry {
        id: id.to_string(),
        session_id: "s".to_string(),
        timestamp_ms: NOW,
        input: IoBlock { text: input.to_string(), attachments: vec![] },
        output: IoBlock { text: output.to_string(), attachments: vec![] },
    }
}

fn index_of(records: Vec<(MemoryEntry, MemoryMeta)>) -> MemoryIndex {
    let mut idx = MemoryIndex::new();
    for (e, m) in records {
        idx.save_entry_and_meta(e, m).unwrap();
    }
    idx
}

#[test]
fn tokenize_splits_words() {
    assert_eq!(tokenize("hello world"), vec!["hello", "world"]);
}

#[test]
fn tokenize_splits_at_script_boundaries() {
    assert_eq!(tokenize("abc日本語def"), vec!["abc", "日本語", "def"]);
    assert_eq!(tokenize("Rust言語2024"), vec!["rust", "言語", "2024"]);
}

#[test]
fn tokenize_drops_single_non_numeric() {
    assert_eq!(tokenize("a b 7 cd 日"), vec!["7", "cd"]);
    assert!(tokenize("").is_empty());
    assert!(tokenize("!? ...").is_empty());
}

#[test]
fn normalize_lowercases_and_plain_spaces() {
    assert_eq!(normalize_text("  Hello\u{3000}World  "), "hello world");
}

#[test]
fn validation_rules() {
    assert!(validate_meta(&meta("a", "x", 500, NOW)).is_ok());
    assert_eq!(validate_meta(&meta("a", "x", 1001, NOW)), Err("importance must be within 0.0..=1.0".to_string()));
    assert!(validate_meta(&meta("a", "x", -1, NOW)).is_err());
    let mut m = meta("a", "x", 500, NOW);
    m.kind = MemoryKind::Sealed;
    assert_eq!(validate_meta(&m), Err("sealed_reason is required when kind=SEALED".to_string()));
    m.sealed_reason = Some(String::new());
    assert!(validate_meta(&m).is_err());
    m.sealed_reason = Some("private".to_string());
    assert!(validate_meta(&m).is_ok());
}

#[test]
fn invalid_record_is_not_stored() {
    let mut idx = MemoryIndex::new();
    let r = idx.save_entry_and_meta(entry("a", "q", "a"), meta("a", "x", 2000, NOW));
    assert!(r.is_err());
    assert_eq!(idx.records.len(), 0);
    assert!(idx.load_entry("a").is_none());
}

#[test]
fn interaction_record_fields() {
    let r = build_interaction("sess", "Hello There", "General Kenobi", "llm", "gpt", vec![], 42);
    assert_eq!(r.entry.id, "sess-42");
    assert_eq!(r.meta.id, "sess-42");
    assert_eq!(r.meta.search_text, "hello there\ngeneral kenobi");
    assert_eq!(r.meta.importance, 500);
    assert_eq!(r.meta.provider, Some("gpt".to_string()));
    assert!(matches!(r.meta.kind, MemoryKind::ShortTerm));
    let neg = build_interaction("s", "i", "o", "llm", "gpt", vec![], -7);
    assert_eq!(neg.entry.id, "s--7");
}

#[test]
fn recording_twice_makes_two_records() {
    let a = build_interaction("s", "same", "same", "llm", "gpt", vec![], 1000);
    let b = build_interaction("s", "same", "same", "llm", "gpt", vec![], 1001);
    assert_ne!(a.entry.id, b.entry.id);
    let mut idx = MemoryIndex::new();
    save_interaction(&mut idx, "s", "same", "same", "llm", "gpt", vec![]).unwrap();
    save_interaction(&mut idx, "s", "same", "same", "llm", "gpt", vec![]).unwrap();
    assert_eq!(idx.records.len(), 2);
    assert_eq!(idx.records[0].entry.input.text, "same");
    assert_eq!(idx.records[1].entry.input.text, "same");
}

#[test]
fn empty_query_returns_nothing() {
    let idx = index_of(vec![(entry("a", "q", "a"), meta("a", "hello", 500, NOW))]);
    assert!(search_top_k_at(&idx, "", 5, NOW).is_empty());
    assert!(search_top_k_at(&idx, "   ", 5, NOW).is_empty());
}

#[test]
fn sealed_records_are_never_returned() {
    let mut sealed = meta("b", "weather in tokyo", 1000, NOW);
    sealed.kind = MemoryKind::Sealed;
    sealed.sealed_reason = Some("private".to_string());
    let idx = index_of(vec![
        (entry("a", "weather", "sunny"), meta("a", "weather in osaka", 500, NOW)),
        (entry("b", "weather", "rain"), sealed),
    ]);
    let hits = search_top_k_at(&idx, "weather in tokyo", 10, NOW);
    assert_eq!(hits.len(), 1);
    assert_eq!(hits[0].id, "a");
}

#[test]
fn scores_are_ordered_and_truncated() {
    let idx = index_of(vec![
        (entry("a", "x", "y"), meta("a", "rust borrow checker", 100, NOW - 20 * DAY)),
        (entry("b", "x", "y"), meta("b", "rust borrow checker", 900, NOW)),
        (entry("c", "x", "y"), meta("c", "rust", 500, NOW - 10 * DAY)),
        (entry("d", "x", "y"), meta("d", "python", 1000, NOW)),
    ]);
    let hits = search_top_k_at(&idx, "Rust borrow checker", 10, NOW);
    assert_eq!(hits.len(), 3);
    assert_eq!(hits[0].id, "b");
    for w in hits.windows(2) {
        assert!(w[0].score >= w[1].score);
    }
    let top = search_top_k_at(&idx, "Rust borrow checker", 2, NOW);
    assert_eq!(top.len(), 2);
    assert_eq!(top[0].id, "b");
    assert_eq!(top[1].id, hits[1].id);
}

#[test]
fn exact_score_of_a_fresh_verbatim_match() {
    let idx = index_of(vec![(entry("a", "x", "y"), meta("a", "hello world", 900, NOW))]);
    let hits = search_top_k_at(&idx, "hello world", 1, NOW);
    // jaccard 1 * 5 + importance 0.9 * 2 + recency 1 + verbatim 2 = 9.8
    assert_eq!(hits[0].score, 9_800_000);
}

#[test]
fn importance_and_recency_raise_the_score() {
    let idx = index_of(vec![
        (entry("stale", "x", "y"), meta("stale", "project roadmap notes", 100, NOW - 29 * DAY)),
        (entry("fresh", "x", "y"), meta("fresh", "project roadmap notes", 900, NOW)),
    ]);
    let hits = search_top_k_at(&idx, "project roadmap notes", 2, NOW);
    assert_eq!(hits[0].id, "fresh");
    assert!(hits[0].score > hits[1].score);
}

#[test]
fn tags_count_toward_the_score() {
    let tags = vec!["Travel".to_string(), "food".to_string(), "zz".to_string()];
    let q = vec!["travel".to_string(), "foods".to_string()];
    assert_eq!(tag_overlap(&tags, &q), 2);
    let mut m = meta("t", "unrelated words", 0, NOW - 60 * DAY);
    m.tags = vec!["travel".to_string()];
    let idx = index_of(vec![(entry("t", "x", "y"), m)]);
    let hits = search_top_k_at(&idx, "travel plans", 3, NOW);
    assert_eq!(hits.len(), 1);
    assert_eq!(hits[0].score, 1_500_000);
}

#[test]
fn memory_context_rendering() {
    let idx = index_of(vec![(entry("a", "What is Rust?", "A language."), meta("a", "what is rust?\na language.", 500, NOW))]);
    let hits = search_top_k_at(&idx, "rust language", 3, NOW);
    let text = render_memory_context(&hits);
    assert!(text.starts_with("\n[Relevant Memories]\n- (score="));
    assert!(text.ends_with(") Q: What is Rust? / A: A language."));
    assert_eq!(render_memory_context(&vec![]), "");
    let long = "x".repeat(200);
    let idx = index_of(vec![(entry("b", &long, &long), meta("b", "longtext", 500, NOW))]);
    let hits = search_top_k_at(&idx, "longtext", 1, NOW);
    let text = render_memory_context(&hits);
    assert!(text.contains(&format!("Q: {} / A: {}", "x".repeat(80), "x".repeat(120))));
    assert!(text.contains("(score=9.00)"));
}

#[test]
fn clock_based_search_functions() {
    let idx = index_of(vec![(entry("a", "q", "a"), meta("a", "hello world", 500, 0))]);
    assert_eq!(search_top_k(&idx, "hello", 5).len(), 1);
    assert_eq!(search_best_for_query(&idx, "hello").unwrap().id, "a");
    assert!(search_best_for_query(&idx, "absent").is_none());
    assert!(build_memory_context(&idx, "hello", 3).contains("[Relevant Memories]"));
    assert_eq!(build_memory_context(&idx, "", 3), "");
    assert_eq!(idx.load_entry("a").unwrap().output.text, "a");
}

#[test]
fn normalization_after_lowercasing() {
    let v: Vec<char> = "\u{3000} a\u{3000}b ".chars().collect();
    let n: String = normalize_lowered(&v).into_iter().collect();
    assert_eq!(n, "a b");
    let toks: Vec<String> = split_tokens(&"ab-cd e 12".chars().collect())
        .into_iter()
        .map(|t| t.into_iter().collect())
        .collect();
    assert_eq!(toks, vec!["ab", "cd", "12"]);
    assert!(matches!(MemoryKind::default(), MemoryKind::ShortTerm));
}

#[test]
fn metadata_lookup() {
    let idx = index_of(vec![(entry("a", "q", "x"), meta("a", "hello", 700, NOW))]);
    assert_eq!(idx.load_meta("a").unwrap().importance, 700);
    assert!(idx.load_meta("b").is_none());
}
