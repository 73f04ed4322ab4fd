use rustymcp::json::Json;
use rustymcp::sanitize::{
    extract_tags, sanitize_memory_type, sanitize_project_id, sanitize_string, sanitize_tags,
    to_payload_overrides, IngestMetadata,
};

fn string_json(s: &str) -> Json {
    Json::Str(s.to_string())
}

#[test]
fn sanitize_project_id_trims_and_defaults() {
    assert_eq!(sanitize_project_id(Some("  proj  ".into())), Some("proj".into()));
    assert_eq!(sanitize_project_id(None), Some("default".into()));
}

#[test]
fn sanitize_memory_type_filters_invalid() {
    assert_eq!(sanitize_memory_type(Some("Episodic".into())), Some("episodic".into()));
    assert!(sanitize_memory_type(Some("unknown".into())).is_none());
}

#[test]
fn sanitize_tags_uniquifies_and_trims() {
    let tags = sanitize_tags(Some(vec!["alpha".into(), " beta".into(), "alpha".into(), "".into()]));
    assert_eq!(tags.as_ref().map(|t| t.len()), Some(2));
    let values = tags.unwrap();
    assert!(values.contains(&"alpha".into()));
    assert!(values.contains(&"beta".into()));
}

#[test]
fn extract_tags_handles_string_value() {
    let mut payload: Vec<(String, Json)> = Vec::new();
    payload.push(("tags".into(), string_json(" single ")));
    let tags = extract_tags(&payload).expect("tags");
    assert_eq!(tags, vec!["single".to_string()]);

    let mut payload: Vec<(String, Json)> = Vec::new();
    payload.push((
        "tags".into(),
        Json::Array(vec![string_json("alpha"), string_json(""), string_json("beta")]),
    ));
    let tags = extract_tags(&payload).expect("array tags");
    assert_eq!(tags, vec!["alpha".to_string(), "beta".to_string()]);
}

#[test]
fn sanitize_tags_lowercases_and_drops_all_blank_lists() {
    assert_eq!(sanitize_tags(Some(vec!["Alpha".into(), "ALPHA ".into()])), Some(vec!["alpha".into()]));
    assert_eq!(sanitize_tags(Some(vec!["  ".into()])), None);
    assert_eq!(sanitize_tags(None), None);
}

#[test]
fn sanitize_string_drops_blank_values() {
    assert_eq!(sanitize_string(Some("  x ".into())), Some("x".into()));
    assert_eq!(sanitize_string(Some("   ".into())), None);
    assert_eq!(sanitize_project_id(Some("   ".into())), Some("default".into()));
}

#[test]
fn extract_tags_ignores_other_values() {
    let payload: Vec<(String, Json)> = vec![("tags".into(), Json::Bool(true))];
    assert_eq!(extract_tags(&payload), None);
    let payload: Vec<(String, Json)> = vec![("tags".into(), Json::Array(vec![string_json("  ")]))];
    assert_eq!(extract_tags(&payload), None);
    let payload: Vec<(String, Json)> = vec![];
    assert_eq!(extract_tags(&payload), None);
}

#[test]
fn metadata_becomes_sanitised_overrides() {
    let overrides = to_payload_overrides(IngestMetadata {
        project_id: Some(" repo ".into()),
        memory_type: Some("PROCEDURAL".into()),
        tags: Some(vec!["A".into(), "a".into()]),
        source_uri: Some("  ".into()),
    });
    assert_eq!(overrides.project_id.as_deref(), Some("repo"));
    assert_eq!(overrides.memory_type.as_deref(), Some("procedural"));
    assert_eq!(overrides.tags, Some(vec!["a".to_string()]));
    assert_eq!(overrides.source_uri, None);
    assert_eq!(overrides.source_memory_ids, None);
    assert_eq!(overrides.summary_key, None);

    let defaults = IngestMetadata::default().into_overrides();
    assert_eq!(defaults.project_id.as_deref(), Some("default"));
    assert_eq!(defaults.memory_type, None);
}

#[test]
fn sanitizing_twice_changes_nothing() {
    for value in [None, Some("  proj  ".to_string()), Some("   ".to_string()), Some("default".to_string())] {
        let once = sanitize_project_id(value);
        assert!(once.is_some());
        assert_eq!(sanitize_project_id(once.clone()), once);
    }
    for value in [None, Some(" Semantic ".to_string()), Some("PROCEDURAL".to_string()), Some("other".to_string())] {
        let once = sanitize_memory_type(value);
        assert_eq!(sanitize_memory_type(once.clone()), once);
    }
    assert_eq!(sanitize_memory_type(Some(" Semantic ".into())), Some("semantic".into()));
}

#[test]
fn sanitized_tags_are_a_fixed_point() {
    let once = sanitize_tags(Some(vec![" Rust ".into(), "rust".into(), "".into(), "MCP".into()]));
    assert_eq!(once, Some(vec!["rust".to_string(), "mcp".to_string()]));
    assert_eq!(sanitize_tags(once.clone()), once);
    assert_eq!(sanitize_tags(Some(vec!["  ".into()])), None);
}
