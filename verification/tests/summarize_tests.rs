use rustymcp::qdrant::SearchTimeRange;
use rustymcp::summarize::{
    build_abstractive_prompt, build_extractive_summary, compute_summary_key, first_sentence,
    idempotency_tag, sort_memories, truncate_sentence, EpisodicMemory,
};
use rustymcp::text::count_words;

#[test]
fn summary_key_is_deterministic() {
    let range = SearchTimeRange {
        start: Some("2025-01-01T00:00:00Z".into()),
        end: Some("2025-01-07T00:00:00Z".into()),
    };
    let ids = vec!["a".into(), "b".into()];
    let key1 = compute_summary_key("default", &range, &ids);
    let key2 = compute_summary_key("default", &range, &ids);
    assert_eq!(key1, key2);
    assert!(!key1.is_empty());
}

#[test]
fn sort_memories_orders_by_timestamp() {
    let mut memories = vec![
        EpisodicMemory::new("2".into(), "Later".into(), Some("2025-01-02T00:00:00Z".into())),
        EpisodicMemory::new("1".into(), "Earlier".into(), Some("2025-01-01T00:00:00Z".into())),
    ];
    sort_memories(&mut memories);
    assert_eq!(memories[0].memory_id, "1");
}

#[test]
fn extractive_summary_respects_word_budget() {
    let memories = vec![
        EpisodicMemory::new("1".into(), "Implemented login flow. Fixed bugs.".into(), Some("2025-01-01".into())),
        EpisodicMemory::new("2".into(), "Added search endpoint.".into(), Some("2025-01-02".into())),
    ];
    let summary = build_extractive_summary(&memories, 6);
    let word_count = count_words(&summary);
    assert!(word_count <= 6);
    assert!(summary.contains("2025-01-01"));
}

#[test]
fn idempotency_tag_applies_prefix() {
    assert_eq!(idempotency_tag("abc"), "summary:abc");
}

#[test]
fn summary_key_is_sha256_hex_of_the_scope() {
    let range = SearchTimeRange { start: None, end: None };
    let key = compute_summary_key("", &range, &vec![]);
    assert_eq!(key, "e3b0c44298fc1c149afbf4c8996fb92427ae41e4649b934ca495991b7852b855");
    let other = compute_summary_key("default", &range, &vec!["a".into()]);
    assert_eq!(other.len(), 64);
    assert_ne!(other, key);
}

#[test]
fn undated_memories_follow_dated_ones_by_identifier() {
    let mut memories = vec![
        EpisodicMemory::new("b".into(), "x".into(), None),
        EpisodicMemory::new("a".into(), "y".into(), Some("not a date".into())),
        EpisodicMemory::new("c".into(), "z".into(), Some("2024-05-01T10:00:00+02:00".into())),
        EpisodicMemory::new("d".into(), "w".into(), Some("2024-05-01T09:00:00Z".into())),
    ];
    sort_memories(&mut memories);
    let ids: Vec<&str> = memories.iter().map(|m| m.memory_id.as_str()).collect();
    assert_eq!(ids, vec!["c", "d", "a", "b"]);
}

#[test]
fn extractive_summary_lists_bullets_and_falls_back() {
    let memories = vec![
        EpisodicMemory::new("1".into(), "  First thing! More.".into(), None),
        EpisodicMemory::new("2".into(), "Second".into(), Some("2025-01-02".into())),
    ];
    assert_eq!(build_extractive_summary(&memories, 100), "- First thing\n- 2025-01-02: Second");
    let first_only = build_extractive_summary(&memories, 4);
    assert_eq!(first_only, "- First thing");
    assert_eq!(build_extractive_summary(&memories, 3), "- First thing");
    assert_eq!(build_extractive_summary(&memories, 2), "- First");
    assert_eq!(build_extractive_summary(&memories, 0), "");
    let blank = vec![EpisodicMemory::new("1".into(), "   ".into(), None)];
    assert_eq!(build_extractive_summary(&blank, 10), "No episodic memories available.");
}

#[test]
fn sentences_and_truncation() {
    assert_eq!(first_sentence("  . Hello there. Next"), "Hello there");
    assert_eq!(first_sentence("..."), "...");
    assert_eq!(truncate_sentence("short", 10), "short");
    assert_eq!(truncate_sentence("abcdef", 4), "abc…");
    assert_eq!(truncate_sentence("ééé", 4), "ééé…");
}

#[test]
fn abstractive_prompt_lists_memories() {
    let memories = vec![
        EpisodicMemory::new("1".into(), " Did work ".into(), Some("2025-01-01".into())),
        EpisodicMemory::new("2".into(), "  ".into(), None),
        EpisodicMemory::new("3".into(), "More".into(), None),
    ];
    let range = SearchTimeRange { start: Some("s".into()), end: None };
    let prompt = build_abstractive_prompt("proj", &range, 120, &memories);
    assert!(prompt.starts_with("System: You summarize developer activity"));
    assert!(prompt.contains("Return at most 120 words."));
    assert!(prompt.ends_with(
        "Summarize the following episodic notes for project 'proj' between s and (unspecified).\n- 2025-01-01: Did work\n- More\n"
    ));
}

#[test]
fn extractive_summary_never_exceeds_a_small_budget() {
    let memories = vec![
        EpisodicMemory::new("1".into(), "Implemented login flow. Fixed bugs.".into(), Some("2025-01-01".into())),
        EpisodicMemory::new("2".into(), "Added search endpoint.".into(), Some("2025-01-02".into())),
    ];
    for budget in 0..12 {
        let summary = build_extractive_summary(&memories, budget);
        assert!(count_words(&summary) <= budget, "budget {budget}: {summary:?}");
    }
    assert_eq!(build_extractive_summary(&memories, 1), "-");
    assert_eq!(build_extractive_summary(&memories, 3), "- 2025-01-01: Implemented");
    assert_eq!(
        build_extractive_summary(&memories, 10),
        "- 2025-01-01: Implemented login flow\n- 2025-01-02: Added search endpoint"
    );
}

#[test]
fn sort_keeps_equal_timestamps_in_input_order() {
    let mut memories = vec![
        EpisodicMemory::new("z".into(), "one".into(), Some("2025-01-01T00:00:00Z".into())),
        EpisodicMemory::new("a".into(), "two".into(), Some("2025-01-01T00:00:00Z".into())),
        EpisodicMemory::new("m".into(), "early".into(), Some("2024-12-31T00:00:00Z".into())),
        EpisodicMemory::new("b".into(), "three".into(), Some("2025-01-01T00:00:00+00:00".into())),
    ];
    sort_memories(&mut memories);
    let ids: Vec<&str> = memories.iter().map(|m| m.memory_id.as_str()).collect();
    assert_eq!(ids, vec!["m", "z", "a", "b"]);
}

#[test]
fn any_non_blank_memory_keeps_the_summary_in_budget() {
    let memories = vec![
        EpisodicMemory::new("1".into(), "   ".into(), None),
        EpisodicMemory::new("2".into(), "...".into(), None),
    ];
    for budget in 0..4 {
        assert!(count_words(&build_extractive_summary(&memories, budget)) <= budget);
    }
    assert_eq!(build_extractive_summary(&memories, 5), "- ...");
}
