use rustymcp::client::prepare_points;
use rustymcp::hashing::compute_chunk_hash;
use rustymcp::json::{get_key, Json};
use rustymcp::mappers::PreparedChunk;
use rustymcp::qdrant::{
    accumulate_project_id, accumulate_tags, build_payload, build_search_filter, collect_projects,
    collect_tags, PayloadOverrides, SearchFilterArgs, SearchTimeRange,
};
use rustymcp::strset::SortedStrings;

fn s(v: &str) -> Json {
    Json::Str(v.to_string())
}

fn obj(entries: Vec<(&str, Json)>) -> Json {
    Json::Object(entries.into_iter().map(|(k, v)| (k.to_string(), v)).collect())
}

fn field<'a>(payload: &'a Json, key: &str) -> &'a Json {
    match payload {
        Json::Object(entries) => get_key(entries, key).expect("field present"),
        _ => panic!("payload must be an object"),
    }
}

fn fresh_id() -> String {
    let chunk = PreparedChunk { text: "x".into(), chunk_hash: compute_chunk_hash("x") };
    let (_, points) = prepare_points(&vec![chunk], &PayloadOverrides::default());
    points[0].0.clone()
}

fn check_chunk_hash_is_stable() {
    let text = "Hello world";
    let h1 = compute_chunk_hash(text);
    let h2 = compute_chunk_hash(text);
    assert_eq!(h1, h2);
    assert!(!h1.is_empty());
}

#[test]
fn qdrant_chunk_hash_is_stable() {
    check_chunk_hash_is_stable();
}

#[test]
fn payload_chunk_hash_is_stable() {
    check_chunk_hash_is_stable();
}

fn check_timestamp_is_rfc3339_like() {
    let (ts, _) = prepare_points(&vec![], &PayloadOverrides::default());
    assert!(ts.contains('T') && ts.ends_with('Z'));
}

#[test]
fn qdrant_timestamp_is_rfc3339_like() {
    check_timestamp_is_rfc3339_like();
}

#[test]
fn payload_timestamp_is_rfc3339_like() {
    check_timestamp_is_rfc3339_like();
}

fn check_payload_includes_defaults_and_text() {
    let id = fresh_id();
    let now = "2025-01-01T00:00:00Z";
    let chunk_hash = "abc123";
    let payload = build_payload(&id, "sample", now, chunk_hash, &PayloadOverrides::default());
    assert_eq!(field(&payload, "memory_id"), &s(&id));
    assert_eq!(field(&payload, "project_id"), &s("default"));
    assert_eq!(field(&payload, "memory_type"), &s("semantic"));
    assert_eq!(field(&payload, "timestamp"), &s(now));
    assert_eq!(field(&payload, "text"), &s("sample"));
    assert_eq!(field(&payload, "chunk_hash"), &s(chunk_hash));
}

#[test]
fn qdrant_payload_includes_defaults_and_text() {
    check_payload_includes_defaults_and_text();
}

#[test]
fn payload_payload_includes_defaults_and_text() {
    check_payload_includes_defaults_and_text();
}

fn check_payload_applies_overrides() {
    let id = fresh_id();
    let now = "2025-01-01T00:00:00Z";
    let overrides = PayloadOverrides {
        project_id: Some("proj".into()),
        memory_type: Some("episodic".into()),
        tags: Some(vec!["alpha".into(), "beta".into()]),
        source_uri: Some("file://doc".into()),
        ..Default::default()
    };
    let payload = build_payload(&id, "sample", now, "hash", &overrides);
    assert_eq!(field(&payload, "project_id"), &s("proj"));
    assert_eq!(field(&payload, "memory_type"), &s("episodic"));
    assert_eq!(field(&payload, "source_uri"), &s("file://doc"));
    let tags = match field(&payload, "tags") {
        Json::Array(items) => items,
        _ => panic!("tags present"),
    };
    assert_eq!(tags.len(), 2);
    assert!(tags.iter().any(|tag| tag == &s("alpha")));
    assert!(tags.iter().any(|tag| tag == &s("beta")));
}

#[test]
fn qdrant_payload_applies_overrides() {
    check_payload_applies_overrides();
}

#[test]
fn payload_payload_applies_overrides() {
    check_payload_applies_overrides();
}

fn check_accumulate_project_ignores_empty() {
    let mut map: Vec<(String, Json)> = vec![("project_id".into(), s("   "))];
    let mut projects = SortedStrings::new();
    accumulate_project_id(&map, &mut projects);
    assert_eq!(projects.len(), 0);

    map[0].1 = s("repo-a");
    accumulate_project_id(&map, &mut projects);
    assert_eq!(projects.items().iter().collect::<Vec<_>>(), vec![&"repo-a".to_string()]);
}

#[test]
fn qdrant_accumulate_project_ignores_empty() {
    check_accumulate_project_ignores_empty();
}

#[test]
fn filters_accumulate_project_ignores_empty() {
    check_accumulate_project_ignores_empty();
}

fn check_accumulate_tags_handles_arrays_and_strings() {
    let mut map: Vec<(String, Json)> = vec![("tags".into(), Json::Array(vec![s("alpha"), s("")]))];
    let mut tags = SortedStrings::new();
    accumulate_tags(&map, &mut tags);
    assert_eq!(tags.items().iter().collect::<Vec<_>>(), vec![&"alpha".to_string()]);

    map[0].1 = s(" beta  ");
    accumulate_tags(&map, &mut tags);
    assert_eq!(
        tags.items().iter().collect::<Vec<_>>(),
        vec![&"alpha".to_string(), &"beta".to_string()]
    );
}

#[test]
fn qdrant_accumulate_tags_handles_arrays_and_strings() {
    check_accumulate_tags_handles_arrays_and_strings();
}

#[test]
fn filters_accumulate_tags_handles_arrays_and_strings() {
    check_accumulate_tags_handles_arrays_and_strings();
}

fn check_filter_handles_project_id() {
    let filter = build_search_filter(&SearchFilterArgs {
        project_id: Some("repo-a".into()),
        ..Default::default()
    })
    .expect("filter");
    let expected = obj(vec![(
        "must",
        Json::Array(vec![obj(vec![
            ("key", s("project_id")),
            ("match", obj(vec![("value", s("repo-a"))])),
        ])]),
    )]);
    assert_eq!(filter, expected);
}

#[test]
fn qdrant_build_search_filter_handles_project_id() {
    check_filter_handles_project_id();
}

#[test]
fn filters_build_search_filter_handles_project_id() {
    check_filter_handles_project_id();
}

fn check_filter_handles_tags() {
    let filter = build_search_filter(&SearchFilterArgs {
        tags: Some(vec!["alpha".into(), "beta".into()]),
        ..Default::default()
    })
    .expect("filter");
    let expected = obj(vec![(
        "must",
        Json::Array(vec![obj(vec![
            ("key", s("tags")),
            ("match", obj(vec![("any", Json::Array(vec![s("alpha"), s("beta")]))])),
        ])]),
    )]);
    assert_eq!(filter, expected);
}

#[test]
fn qdrant_build_search_filter_handles_tags() {
    check_filter_handles_tags();
}

#[test]
fn filters_build_search_filter_handles_tags() {
    check_filter_handles_tags();
}

fn check_filter_handles_time_range() {
    let filter = build_search_filter(&SearchFilterArgs {
        time_range: Some(SearchTimeRange {
            start: Some("2025-01-01T00:00:00Z".into()),
            end: Some("2025-12-31T23:59:59Z".into()),
        }),
        ..Default::default()
    })
    .expect("filter");
    let expected = obj(vec![(
        "must",
        Json::Array(vec![obj(vec![
            ("key", s("timestamp")),
            (
                "range",
                obj(vec![("gte", s("2025-01-01T00:00:00Z")), ("lte", s("2025-12-31T23:59:59Z"))]),
            ),
        ])]),
    )]);
    assert_eq!(filter, expected);
}

#[test]
fn qdrant_build_search_filter_handles_time_range() {
    check_filter_handles_time_range();
}

#[test]
fn filters_build_search_filter_handles_time_range() {
    check_filter_handles_time_range();
}

#[test]
fn qdrant_build_search_filter_returns_none_when_empty() {
    assert!(build_search_filter(&SearchFilterArgs::default()).is_none());
}

#[test]
fn filters_build_search_filter_returns_none_when_empty() {
    assert!(build_search_filter(&SearchFilterArgs::default()).is_none());
}

#[test]
fn blank_filter_values_add_no_condition() {
    let args = SearchFilterArgs {
        project_id: Some("  ".into()),
        memory_type: Some("".into()),
        tags: Some(vec![" ".into()]),
        time_range: Some(SearchTimeRange { start: Some(" ".into()), end: None }),
    };
    assert!(build_search_filter(&args).is_none());
}

#[test]
fn collected_projects_and_tags_are_sorted_and_distinct() {
    let payloads: Vec<Vec<(String, Json)>> = vec![
        vec![("project_id".into(), s("zeta")), ("tags".into(), Json::Array(vec![s("b"), s("a")]))],
        vec![("project_id".into(), s(" alpha ")), ("tags".into(), s("b"))],
        vec![("project_id".into(), s("zeta"))],
    ];
    assert_eq!(collect_projects(&payloads).into_vec(), vec!["alpha".to_string(), "zeta".to_string()]);
    assert_eq!(collect_tags(&payloads).into_vec(), vec!["a".to_string(), "b".to_string()]);
}

#[test]
fn prepared_points_share_a_timestamp_and_get_fresh_ids() {
    let chunks = vec![
        PreparedChunk { text: "one".into(), chunk_hash: compute_chunk_hash("one") },
        PreparedChunk { text: "two".into(), chunk_hash: compute_chunk_hash("two") },
    ];
    let (ts, points) = prepare_points(&chunks, &PayloadOverrides::default());
    assert_eq!(points.len(), 2);
    assert_ne!(points[0].0, points[1].0);
    assert_eq!(points[0].0.len(), 36);
    assert_eq!(field(&points[1].1, "timestamp"), &s(&ts));
    assert_eq!(field(&points[1].1, "text"), &s("two"));
}
