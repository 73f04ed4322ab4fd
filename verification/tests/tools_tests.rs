use rustymcp::config::EmbeddingProvider;
use rustymcp::embedding::EmbeddingClientError;
use rustymcp::json::{get_key, to_json_string, Json, JsonNumber};
use rustymcp::processing::{QdrantHealthSnapshot, SearchError, SearchHit};
use rustymcp::qdrant::SearchTimeRange;
use rustymcp::server::{health_payload, map_search_error, memory_types_payload};
use rustymcp::summary_pipeline::SummarizeStrategy;
use rustymcp::tools::{
    build_search_response, build_used_filters, format_search_hits, has_argument,
    normalize_search_arguments, normalize_summarize_arguments, normalize_summarize_tags,
    normalize_tags, validate_search_request, validate_summarize_request, validate_time_range,
    SearchToolRequest, SummarizeToolRequest, ToolError,
};

const MAX_LIMIT: usize = 50;
const DEFAULT_LIMIT: usize = 5;
const DEFAULT_THRESHOLD: f32 = 0.25;
const SUMMARY_MAX_WORDS: usize = 200;

fn s(v: &str) -> Json {
    Json::Str(v.to_string())
}

fn threshold_json(value: f32) -> Json {
    Json::Number(JsonNumber::Float(format!("{}", value as f64)))
}

fn parsed(j: &Json) -> serde_json::Value {
    serde_json::from_str(&to_json_string(j)).expect("valid JSON")
}

fn base_search_request() -> SearchToolRequest<f32> {
    SearchToolRequest {
        query_text: "demo".into(),
        project_id: None,
        memory_type: None,
        tags: None,
        time_range: None,
        limit: None,
        score_threshold: None,
        collection: None,
    }
}

fn in_range(threshold: Option<f32>) -> bool {
    threshold.map_or(true, |t| (0.0..=1.0).contains(&t))
}

fn validate(
    request: SearchToolRequest<f32>,
    tags_present: bool,
    time_range_present: bool,
) -> Result<rustymcp::tools::ValidatedSearchInput<f32>, ToolError> {
    let ok = in_range(request.score_threshold);
    validate_search_request(request, tags_present, time_range_present, ok, MAX_LIMIT, DEFAULT_LIMIT, DEFAULT_THRESHOLD)
}

fn invalid_message(result: Result<impl std::fmt::Debug, ToolError>) -> String {
    match result {
        Err(ToolError::InvalidParams(m)) => m,
        other => panic!("expected invalid params, got {other:?}"),
    }
}

fn string_field(map: &Json, key: &str) -> Option<String> {
    match map {
        Json::Object(entries) => match get_key(entries, key) {
            Some(Json::Str(v)) => Some(v.clone()),
            _ => None,
        },
        _ => None,
    }
}

fn check_memory_types_payload_is_valid_json() {
    let value = parsed(&memory_types_payload());
    assert_eq!(value["default"], "semantic");
    let memory_types = value["memory_types"].as_array().expect("memory_types array");
    assert_eq!(memory_types.len(), 3);
}

#[test]
fn mcp_memory_types_payload_is_valid_json() {
    check_memory_types_payload_is_valid_json();
}

#[test]
fn format_memory_types_payload_is_valid_json() {
    check_memory_types_payload_is_valid_json();
}

fn check_health_payload_captures_qdrant_status() {
    let snapshot = QdrantHealthSnapshot {
        reachable: false,
        default_collection_present: false,
        error: Some("connection refused".into()),
    };
    let body = health_payload(
        EmbeddingProvider::Ollama,
        "nomic-embed-text",
        768,
        "http://127.0.0.1:6333",
        "rusty-mem",
        &snapshot,
    );
    let value = parsed(&body);
    assert_eq!(value["embedding"]["provider"], "ollama");
    assert_eq!(value["embedding"]["dimension"], 768);
    assert_eq!(value["qdrant"]["reachable"], false);
    assert_eq!(value["qdrant"]["error"], "connection refused");
}

#[test]
fn mcp_health_payload_captures_qdrant_status() {
    check_health_payload_captures_qdrant_status();
}

#[test]
fn format_health_payload_captures_qdrant_status() {
    check_health_payload_captures_qdrant_status();
}

fn check_normalize_search_arguments_supports_aliases_and_tags() {
    let raw: Vec<(String, Json)> = vec![
        ("query_text".into(), s("demo")),
        ("type".into(), s("semantic")),
        ("memory_type".into(), s("episodic")),
        ("project".into(), s("alpha")),
        ("k".into(), Json::Number(JsonNumber::U64(3))),
        ("tags".into(), s(" docs ")),
    ];
    let normalized = normalize_search_arguments(Some(raw));
    let entries = match &normalized {
        Json::Object(e) => e,
        _ => panic!("object"),
    };
    let tags = match get_key(entries, "tags") {
        Some(Json::Array(items)) => items
            .iter()
            .map(|i| match i {
                Json::Str(t) => t.clone(),
                _ => panic!("string tag"),
            })
            .collect::<Vec<_>>(),
        _ => panic!("tags array"),
    };
    let tags = normalize_tags(Some(tags), true).expect("tags normalization should succeed");
    assert_eq!(string_field(&normalized, "memory_type").as_deref(), Some("episodic"));
    assert_eq!(string_field(&normalized, "project_id").as_deref(), Some("alpha"));
    assert_eq!(get_key(entries, "limit"), Some(&Json::Number(JsonNumber::U64(3))));
    assert!(get_key(entries, "type").is_none());
    assert_eq!(tags, Some(vec!["docs".into()]));
}

#[test]
fn mcp_normalize_search_arguments_supports_aliases_and_tags() {
    check_normalize_search_arguments_supports_aliases_and_tags();
}

#[test]
fn search_normalize_search_arguments_supports_aliases_and_tags() {
    check_normalize_search_arguments_supports_aliases_and_tags();
}

fn check_build_used_filters_includes_defaults_and_filters() {
    let project = Some("alpha".to_string());
    let memory = Some("semantic".to_string());
    let tags = Some(vec!["docs".to_string(), "api".to_string()]);
    let time_range = Some(SearchTimeRange { start: Some("2024-01-01T00:00:00Z".into()), end: None });
    let filters = build_used_filters("rusty", 7, threshold_json(0.4), &project, &memory, &tags, &time_range);
    let value = parsed(&Json::Object(filters));
    assert_eq!(value["project_id"].as_str(), Some("alpha"));
    assert_eq!(value["memory_type"].as_str(), Some("semantic"));
    assert_eq!(value["collection"].as_str(), Some("rusty"));
    assert_eq!(value["limit"].as_u64(), Some(7));
    let score_value = value["score_threshold"].as_f64().expect("score");
    assert!((score_value - 0.4).abs() < 1e-6);
    let tag_values: Vec<&str> = value["tags"]
        .as_array()
        .expect("tags array")
        .iter()
        .map(|v| v.as_str().expect("tag string"))
        .collect();
    assert_eq!(tag_values, ["docs", "api"]);
    let time_value = value["time_range"].as_object().expect("time_range object");
    assert_eq!(time_value.get("start"), Some(&serde_json::Value::String("2024-01-01T00:00:00Z".into())));
    assert!(time_value.get("end").is_none());
}

#[test]
fn mcp_build_used_filters_includes_defaults_and_filters() {
    check_build_used_filters_includes_defaults_and_filters();
}

#[test]
fn search_build_used_filters_includes_defaults_and_filters() {
    check_build_used_filters_includes_defaults_and_filters();
}

fn hit(id: &str, score: f32, text: Option<&str>) -> SearchHit<Json> {
    SearchHit {
        id: id.into(),
        score: threshold_json(score),
        text: text.map(|t| t.to_string()),
        project_id: None,
        memory_type: None,
        tags: None,
        timestamp: None,
        source_uri: None,
    }
}

#[test]
fn mcp_format_search_hits_builds_context_with_citations() {
    let mut first = hit("a1", 0.9, Some("First snippet"));
    first.project_id = Some("alpha".into());
    let second = hit("b2", 0.7, Some(""));
    let mut third = hit("c3", 0.8, Some("Second snippet"));
    third.memory_type = Some("semantic".into());
    third.tags = Some(vec!["docs".into()]);
    third.timestamp = Some("2024-03-01T00:00:00Z".into());
    third.source_uri = Some("file://note".into());

    let (results, context) = format_search_hits(vec![first, second, third]);
    assert_eq!(results.len(), 3);
    assert_eq!(context, Some("First snippet [a1]\nSecond snippet [c3]".into()));
    let ids: Vec<String> = results.iter().map(|v| string_field(v, "id").expect("id string")).collect();
    assert_eq!(ids, vec!["a1", "b2", "c3"]);
}

#[test]
fn search_format_search_hits_builds_context_with_citations() {
    let (results, context) = format_search_hits(vec![hit("chunk-1", 0.42, Some("Example text"))]);
    assert_eq!(results.len(), 1);
    assert_eq!(context.as_deref(), Some("Example text [chunk-1]"));
}

#[test]
fn mcp_validate_search_request_rejects_empty_query() {
    let mut request = base_search_request();
    request.query_text = "   ".into();
    let message = invalid_message(validate(request, false, false));
    assert!(message.contains("query_text"));
}

#[test]
fn search_validate_search_request_rejects_empty_query() {
    let request = SearchToolRequest { query_text: "   ".into(), ..base_search_request() };
    invalid_message(validate(request, false, false));
}

#[test]
fn mcp_validate_search_request_rejects_invalid_memory_type() {
    let mut request = base_search_request();
    request.memory_type = Some("unknown".into());
    let message = invalid_message(validate(request, false, false));
    assert!(message.contains("memory_type"));
}

#[test]
fn search_validate_search_request_rejects_invalid_memory_type() {
    let request = SearchToolRequest {
        query_text: "demo".into(),
        memory_type: Some("invalid".into()),
        ..base_search_request()
    };
    invalid_message(validate(request, false, false));
}

#[test]
fn mcp_validate_search_request_rejects_limit_out_of_bounds() {
    let mut request = base_search_request();
    request.limit = Some(0);
    invalid_message(validate(request, false, false));

    let mut request = base_search_request();
    request.limit = Some(999);
    let message = invalid_message(validate(request, false, false));
    assert!(message.contains("limit"));
}

#[test]
fn search_validate_search_request_rejects_limit_out_of_bounds() {
    let mut request = base_search_request();
    request.query_text = "demo".into();
    request.limit = Some(0);
    invalid_message(validate(request, false, false));
}

#[test]
fn mcp_validate_search_request_rejects_score_threshold_out_of_range() {
    let mut request = base_search_request();
    request.score_threshold = Some(-0.1);
    invalid_message(validate(request, false, false));

    let mut request = base_search_request();
    request.score_threshold = Some(1.1);
    let message = invalid_message(validate(request, false, false));
    assert!(message.contains("score_threshold"));
}

#[test]
fn search_validate_search_request_rejects_score_threshold_out_of_range() {
    let mut request = base_search_request();
    request.query_text = "demo".into();
    request.score_threshold = Some(1.5);
    invalid_message(validate(request, false, false));
}

#[test]
fn mcp_validate_search_request_rejects_empty_tags() {
    let mut request = base_search_request();
    request.tags = Some(vec!["".into()]);
    let message = invalid_message(validate(request, true, false));
    assert!(message.contains("tags"));
}

#[test]
fn search_validate_search_request_rejects_empty_tags() {
    let mut request = base_search_request();
    request.query_text = "demo".into();
    request.tags = Some(vec![" ".into()]);
    invalid_message(validate(request, true, false));
}

#[test]
fn validate_time_range_rejects_invalid_rfc3339() {
    let range = Some(SearchTimeRange { start: Some("not-a-time".into()), end: None });
    let message = invalid_message(validate_time_range(range, true));
    assert!(message.contains("time_range.start"));
}

#[test]
fn validate_time_range_rejects_start_after_end() {
    let range = Some(SearchTimeRange {
        start: Some("2024-02-01T00:00:00Z".into()),
        end: Some("2024-01-01T00:00:00Z".into()),
    });
    let message = invalid_message(validate_time_range(range, true));
    assert!(message.contains("earlier"));
}

#[test]
fn validate_time_range_requires_at_least_one_boundary_when_present() {
    let range = Some(SearchTimeRange { start: None, end: None });
    invalid_message(validate_time_range(range, true));
}

#[test]
fn build_search_response_includes_threshold_fields() {
    let response = build_search_response("rusty".into(), 5, threshold_json(0.4), vec![], None, vec![]);
    let value = parsed(&response);
    let score_threshold = value["score_threshold"].as_f64().expect("threshold");
    let legacy_threshold = value["scoreThreshold"].as_f64().expect("legacy threshold");
    assert!((score_threshold - 0.4).abs() < 1e-6);
    assert!((legacy_threshold - 0.4).abs() < 1e-6);
}

fn check_map_search_error_dimension() {
    let mapped = map_search_error(SearchError::DimensionMismatch { expected: 3, actual: 5 });
    match mapped {
        ToolError::InternalError(m) => {
            assert!(m.contains("Embedding dimension mismatch"));
            assert!(m.contains("expected 3, got 5"));
        }
        other => panic!("expected internal error, got {other:?}"),
    }
}

#[test]
fn mcp_map_search_error_wraps_embedding_errors() {
    check_map_search_error_dimension();
}

#[test]
fn search_map_search_error_wraps_embedding_errors() {
    let mapped = map_search_error(SearchError::Embedding(EmbeddingClientError::GenerationFailed("fail".into())));
    match mapped {
        ToolError::InternalError(m) => assert!(m.contains("Embedding provider error")),
        other => panic!("expected internal error, got {other:?}"),
    }
}

fn summarize_request() -> SummarizeToolRequest {
    SummarizeToolRequest {
        project_id: None,
        memory_type: None,
        tags: None,
        time_range: SearchTimeRange {
            start: Some("2025-01-01T00:00:00Z".into()),
            end: Some("2025-01-02T00:00:00Z".into()),
        },
        limit: None,
        strategy: None,
        provider: None,
        model: None,
        max_words: None,
        collection: None,
    }
}

#[test]
fn normalize_arguments_converts_scalar_tags() {
    let args: Vec<(String, Json)> = vec![
        ("tags".into(), s("daily")),
        (
            "time_range".into(),
            Json::Object(vec![
                ("start".into(), s("2025-01-01T00:00:00Z")),
                ("end".into(), s("2025-01-02T00:00:00Z")),
            ]),
        ),
    ];
    let value = normalize_summarize_arguments(Some(args));
    let entries = match &value {
        Json::Object(e) => e,
        _ => panic!("object"),
    };
    assert_eq!(get_key(entries, "tags"), Some(&Json::Array(vec![s("daily")])));
    assert!(has_argument(&value, "time_range"));
}

#[test]
fn validate_summarize_request_honors_defaults() {
    let request = SummarizeToolRequest {
        project_id: Some(" default ".into()),
        memory_type: Some("Episodic".into()),
        tags: Some(vec!["daily".into()]),
        limit: Some(20),
        strategy: Some("AUTO".into()),
        provider: Some("ollama".into()),
        model: Some("llama".into()),
        max_words: Some(180),
        collection: Some("workspace".into()),
        ..summarize_request()
    };
    let validated =
        validate_summarize_request(request, true, MAX_LIMIT, SUMMARY_MAX_WORDS).expect("validated");
    assert_eq!(validated.project_id.as_deref(), Some("default"));
    assert_eq!(validated.memory_type.as_deref(), Some("episodic"));
    assert_eq!(validated.limit, 20);
    assert_eq!(validated.max_words, 180);
    assert!(matches!(validated.strategy, SummarizeStrategy::Auto));
}

#[test]
fn validate_summarize_request_rejects_invalid_strategy() {
    let request = SummarizeToolRequest { strategy: Some("invalid".into()), ..summarize_request() };
    let message = invalid_message(validate_summarize_request(request, false, MAX_LIMIT, SUMMARY_MAX_WORDS));
    assert!(message.contains("got 'invalid'"));
}

#[test]
fn validate_summarize_request_rejects_missing_end() {
    let mut request = summarize_request();
    request.time_range.end = None;
    invalid_message(validate_summarize_request(request, false, MAX_LIMIT, SUMMARY_MAX_WORDS));
}

#[test]
fn summarize_defaults_fill_limit_and_budget() {
    let validated =
        validate_summarize_request(summarize_request(), false, MAX_LIMIT, SUMMARY_MAX_WORDS).expect("ok");
    assert_eq!(validated.limit, 50);
    assert_eq!(validated.max_words, SUMMARY_MAX_WORDS);
    let small_max = validate_summarize_request(summarize_request(), false, 10, SUMMARY_MAX_WORDS);
    assert!(invalid_message(small_max).contains("between 1 and 10"));
}

#[test]
fn summarize_provider_must_be_known() {
    let request = SummarizeToolRequest { provider: Some("OpenAI".into()), ..summarize_request() };
    let message = invalid_message(validate_summarize_request(request, false, MAX_LIMIT, SUMMARY_MAX_WORDS));
    assert_eq!(message, "`provider` must be one of ollama|none");
}

#[test]
fn tag_normalisation_differs_between_tools() {
    assert!(normalize_tags(Some(vec![]), true).is_err());
    assert_eq!(normalize_summarize_tags(Some(vec![]), true), Ok(Some(vec![])));
    assert_eq!(normalize_tags(Some(vec![" a ".into(), "a".into(), "b".into()]), false), Ok(Some(vec!["a".into(), "b".into()])));
    assert!(normalize_tags(None, true).is_err());
    assert_eq!(normalize_tags(None, false), Ok(None));
}

#[test]
fn valid_search_request_uses_defaults_and_trims_range() {
    let mut request = base_search_request();
    request.memory_type = Some(" Semantic ".into());
    request.time_range = Some(SearchTimeRange { start: Some(" 2024-01-01T00:00:00Z ".into()), end: None });
    let validated = validate(request, false, true).expect("valid");
    assert_eq!(validated.limit, DEFAULT_LIMIT);
    assert_eq!(validated.score_threshold, DEFAULT_THRESHOLD);
    assert_eq!(validated.memory_type.as_deref(), Some("semantic"));
    assert_eq!(validated.time_range.unwrap().start.as_deref(), Some("2024-01-01T00:00:00Z"));
}
