use rustymcp::client::{
    check_status, collect_page_entries, collect_page_payloads, collection_body, collection_presence,
    format_endpoint, index_summary, normalize_base_url, ordered_scroll_body, payload_index_bodies,
    payload_index_ensured, project_filter, scroll_body, search_body, stringify_point_id, ScrollPoint,
};
use rustymcp::json::{to_json_string, Json, JsonNumber};
use rustymcp::qdrant::{IndexSummary, QdrantError};

fn s(v: &str) -> Json {
    Json::Str(v.to_string())
}

#[test]
fn endpoints_join_with_one_slash() {
    assert_eq!(format_endpoint("http://localhost:6333/", "/collections"), "http://localhost:6333/collections");
    assert_eq!(format_endpoint("http://h//", "a/b"), "http://h/a/b");
}

#[test]
fn base_url_loses_trailing_path_slashes() {
    assert_eq!(normalize_base_url("http://127.0.0.1:6333/"), Ok("http://127.0.0.1:6333/".to_string()));
    assert_eq!(normalize_base_url("http://host/api///"), Ok("http://host/api".to_string()));
    assert!(normalize_base_url("not a url").is_err());
}

#[test]
fn request_bodies_have_expected_json() {
    assert_eq!(to_json_string(&collection_body(768)), r#"{"vectors":{"size":768,"distance":"Cosine"}}"#);
    assert_eq!(
        to_json_string(&project_filter(Some("p")).unwrap()),
        r#"{"must":[{"key":"project_id","match":{"value":"p"}}]}"#
    );
    assert!(project_filter(None).is_none());
    let body = search_body(
        Json::Array(vec![Json::Number(JsonNumber::Float("0.5".into()))]),
        3,
        Some("  dense ".into()),
        None,
        None,
    );
    assert_eq!(to_json_string(&body), r#"{"query":[0.5],"limit":3,"with_payload":true,"using":"dense"}"#);
}

#[test]
fn scroll_bodies_differ_in_offset_and_order() {
    let fields = Json::Array(vec![s("text")]);
    assert_eq!(
        to_json_string(&scroll_body(&fields, &None, &None)),
        r#"{"with_payload":["text"],"with_vector":false,"limit":512,"filter":{"must":[]}}"#
    );
    assert_eq!(
        to_json_string(&ordered_scroll_body(&fields, &None, &None)),
        r#"{"with_payload":["text"],"with_vector":false,"limit":512,"offset":null,"filter":{"must":[]},"order_by":[{"key":"timestamp","direction":"asc"}]}"#
    );
    let with_offset = scroll_body(&fields, &Some(Json::Number(JsonNumber::U64(7))), &None);
    assert!(to_json_string(&with_offset).contains(r#""offset":7"#));
}

#[test]
fn payload_indexes_cover_filter_fields() {
    let bodies = payload_index_bodies();
    assert_eq!(bodies.len(), 5);
    assert_eq!(to_json_string(&bodies[3]), r#"{"field_name":"timestamp","field_schema":"datetime"}"#);
    assert!(payload_index_ensured(200));
    assert!(payload_index_ensured(409));
    assert!(!payload_index_ensured(500));
}

#[test]
fn statuses_are_read() {
    assert!(check_status(204, String::new()).is_ok());
    match check_status(500, "boom".into()) {
        Err(QdrantError::UnexpectedStatus { status, body }) => {
            assert_eq!(status, 500);
            assert_eq!(body, "boom");
        }
        other => panic!("unexpected {other:?}"),
    }
    assert!(matches!(collection_presence(200, String::new()), Ok(true)));
    assert!(matches!(collection_presence(404, String::new()), Ok(false)));
    assert!(collection_presence(503, String::new()).is_err());
    assert_eq!(index_summary(4), IndexSummary { inserted: 4, updated: 0 });
}

#[test]
fn point_ids_are_written_as_text() {
    assert_eq!(stringify_point_id(s("abc")), "abc");
    assert_eq!(stringify_point_id(Json::Number(JsonNumber::U64(42))), "42");
    assert_eq!(stringify_point_id(Json::Number(JsonNumber::I64(-3))), "-3");
    assert_eq!(stringify_point_id(Json::Object(vec![("uuid".into(), s("u-1"))])), "u-1");
    assert_eq!(stringify_point_id(Json::Object(vec![("num".into(), s("a\"b"))])), r#"{"num":"a\"b"}"#);
    assert_eq!(stringify_point_id(Json::Null), "");
    assert_eq!(stringify_point_id(Json::Bool(true)), "true");
}

#[test]
fn scroll_pages_keep_points_with_payloads() {
    let page = vec![
        ScrollPoint { id: Some(s("a")), payload: Some(vec![("text".into(), s("x"))]) },
        ScrollPoint { id: None, payload: Some(vec![("text".into(), s("y"))]) },
        ScrollPoint { id: Some(Json::Number(JsonNumber::U64(2))), payload: None },
    ];
    let mut acc = Vec::new();
    collect_page_payloads(page, &mut acc);
    assert_eq!(acc.len(), 2);

    let page = vec![
        ScrollPoint { id: Some(s("a")), payload: Some(vec![("text".into(), s("x"))]) },
        ScrollPoint { id: None, payload: Some(vec![("text".into(), s("y"))]) },
        ScrollPoint { id: Some(Json::Number(JsonNumber::U64(2))), payload: Some(vec![]) },
    ];
    let mut entries = Vec::new();
    collect_page_entries(page, &mut entries);
    let ids: Vec<&str> = entries.iter().map(|e| e.0.as_str()).collect();
    assert_eq!(ids, vec!["a", "2"]);
}

#[test]
fn json_text_escapes_control_characters() {
    let value = Json::Array(vec![s("tab\there\n\u{1}"), Json::Number(JsonNumber::I64(i64::MIN))]);
    let text = to_json_string(&value);
    assert_eq!(text, "[\"tab\\there\\n\\u0001\",-9223372036854775808]");
    let back: serde_json::Value = serde_json::from_str(&text).unwrap();
    assert_eq!(back[0], "tab\there\n\u{1}");
}

#[test]
fn prepared_points_share_a_parseable_timestamp() {
    let chunks = vec![
        rustymcp::mappers::PreparedChunk { text: "one".into(), chunk_hash: "h1".into() },
        rustymcp::mappers::PreparedChunk { text: "two".into(), chunk_hash: "h2".into() },
    ];
    let overrides = rustymcp::qdrant::PayloadOverrides::default();
    let (timestamp, points) = rustymcp::client::prepare_points(&chunks, &overrides);
    assert_eq!(points.len(), 2);
    assert!(points.iter().all(|(id, _)| id.len() == 36));
    let memory = rustymcp::summarize::EpisodicMemory::new("m".into(), "t".into(), Some(timestamp));
    assert!(memory.parsed_timestamp.is_some());
}
