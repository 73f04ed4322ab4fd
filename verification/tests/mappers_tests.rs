use rustymcp::hashing::compute_chunk_hash;
use rustymcp::json::Json;
use rustymcp::mappers::dedupe_chunks;
use rustymcp::processing::{map_scored_point, SearchHit};
use rustymcp::qdrant::ScoredPoint;

#[test]
fn dedupe_chunks_removes_duplicates_and_counts_skips() {
    let chunks = vec!["alpha".to_string(), "beta".to_string(), "alpha".to_string(), "beta".to_string()];
    let (deduped, skipped) = dedupe_chunks(chunks);
    let texts: Vec<_> = deduped.iter().map(|chunk| chunk.text.as_str()).collect();
    assert_eq!(texts.len(), 2);
    assert_eq!(skipped, 2);
    assert!(texts.contains(&"alpha"));
    assert!(texts.contains(&"beta"));
    assert_ne!(deduped[0].chunk_hash, deduped[1].chunk_hash);
}

#[test]
fn map_scored_point_extracts_payload_fields() {
    let payload: Vec<(String, Json)> = vec![
        ("text".into(), Json::Str("Example".into())),
        ("project_id".into(), Json::Str("repo-a".into())),
        ("memory_type".into(), Json::Str("semantic".into())),
        ("timestamp".into(), Json::Str("2025-01-01T00:00:00Z".into())),
        ("source_uri".into(), Json::Str("file://note".into())),
        (
            "tags".into(),
            Json::Array(vec![Json::Str("alpha".into()), Json::Str("beta".into())]),
        ),
    ];

    let point = ScoredPoint { id: "memory-1".into(), score: 0.42f32, payload: Some(payload) };

    let hit: SearchHit<f32> = map_scored_point(point);
    assert_eq!(hit.id, "memory-1");
    assert!((hit.score - 0.42).abs() < f32::EPSILON);
    assert_eq!(hit.text.as_deref(), Some("Example"));
    assert_eq!(hit.project_id.as_deref(), Some("repo-a"));
    assert_eq!(hit.memory_type.as_deref(), Some("semantic"));
    assert_eq!(hit.timestamp.as_deref(), Some("2025-01-01T00:00:00Z"));
    assert_eq!(hit.source_uri.as_deref(), Some("file://note"));
    let tags = hit.tags.expect("tags present");
    assert_eq!(tags, vec!["alpha".to_string(), "beta".to_string()]);
}

#[test]
fn dedupe_drops_blank_chunks_without_counting_them() {
    let (deduped, skipped) = dedupe_chunks(vec!["  ".into(), "x".into(), "".into(), "x".into()]);
    assert_eq!(deduped.len(), 1);
    assert_eq!(skipped, 1);
    assert_eq!(deduped[0].chunk_hash, compute_chunk_hash("x"));
}

#[test]
fn map_scored_point_normalises_and_defaults() {
    let payload: Vec<(String, Json)> = vec![
        ("text".into(), Json::Str("  padded  ".into())),
        ("project_id".into(), Json::Str("   ".into())),
        ("memory_type".into(), Json::Str("Unknown".into())),
        ("tags".into(), Json::Str(" solo ".into())),
    ];
    let hit = map_scored_point(ScoredPoint { id: "p".into(), score: 1u8, payload: Some(payload) });
    assert_eq!(hit.text.as_deref(), Some("padded"));
    assert_eq!(hit.project_id.as_deref(), Some("default"));
    assert_eq!(hit.memory_type, None);
    assert_eq!(hit.tags, Some(vec!["solo".to_string()]));
    assert_eq!(hit.timestamp, None);

    let bare = map_scored_point(ScoredPoint { id: "q".into(), score: 2u8, payload: None });
    assert_eq!(bare.project_id, None);
    assert_eq!(bare.text, None);
    assert_eq!(bare.score, 2);
}
