use rustymcp::chunking::ChunkingError;
use rustymcp::embedding::{check_embedding_request, AiLibClient, EmbeddingClientError};
use rustymcp::json::to_json_string;
use rustymcp::metrics::MetricsSnapshot;
use rustymcp::processing::{ProcessingError, ProcessingOutcome};
use rustymcp::qdrant::{status_display, QdrantError};
use rustymcp::server::{
    collections_response, embedding_provider_label, map_summarize_error, metrics_response,
    new_collection_response, plan_new_collection, processing_error_message, project_tags_payload,
    projects_payload, push_response, route_resource, route_tool, summarize_response,
    validate_push_text, ResourceRoute, ToolRoute,
};
use rustymcp::config::EmbeddingProvider;
use rustymcp::summary_pipeline::{SummarizeError, SummarizeOutcome};
use rustymcp::tools::ToolError;

#[test]
fn resources_are_routed_by_uri() {
    assert_eq!(route_resource("mcp://rusty-mem/memory-types"), Ok(ResourceRoute::MemoryTypes));
    assert_eq!(route_resource("mcp://rusty-mem/health"), Ok(ResourceRoute::Health));
    assert_eq!(route_resource("mcp://rusty-mem/projects"), Ok(ResourceRoute::Projects));
    assert_eq!(route_resource("mcp://rusty-mem/settings"), Ok(ResourceRoute::Settings));
    assert_eq!(route_resource("mcp://rusty-mem/usage"), Ok(ResourceRoute::Usage));
    assert_eq!(
        route_resource("mcp://rusty-mem/projects/alpha/tags"),
        Ok(ResourceRoute::ProjectTags("alpha".into()))
    );
    assert_eq!(
        route_resource("mcp://rusty-mem/projects//tags"),
        Err(ToolError::InvalidParams("Project identifier missing in resource URI".into()))
    );
    assert_eq!(
        route_resource("mcp://rusty-mem/projects/tags"),
        Err(ToolError::InvalidParams("Project identifier missing in resource URI".into()))
    );
    assert_eq!(
        route_resource("mcp://elsewhere"),
        Err(ToolError::InvalidParams("Unknown resource URI: mcp://elsewhere".into()))
    );
}

#[test]
fn tools_are_routed_by_name() {
    assert_eq!(route_tool("push"), Ok(ToolRoute::Push));
    assert_eq!(route_tool("search"), Ok(ToolRoute::Search));
    assert_eq!(route_tool("get-collections"), Ok(ToolRoute::GetCollections));
    assert_eq!(route_tool("new-collection"), Ok(ToolRoute::NewCollection));
    assert_eq!(route_tool("metrics"), Ok(ToolRoute::Metrics));
    assert_eq!(route_tool("summarize"), Ok(ToolRoute::Summarize));
    assert_eq!(route_tool("nope"), Err(ToolError::InvalidParams("Unknown tool: nope".into())));
}

#[test]
fn tool_answers_have_expected_json() {
    let outcome = ProcessingOutcome { chunk_count: 3, chunk_size: 512, inserted: 3, updated: 0, skipped_duplicates: 1 };
    assert_eq!(
        to_json_string(&push_response("c", outcome)),
        r#"{"status":"ok","collection":"c","chunksIndexed":3,"chunkSize":512,"inserted":3,"updated":0,"skippedDuplicates":1}"#
    );
    assert_eq!(to_json_string(&collections_response(&vec!["a".into()])), r#"{"collections":["a"]}"#);
    assert_eq!(to_json_string(&new_collection_response(1536)), r#"{"status":"ok","vectorSize":1536}"#);
    let snapshot = MetricsSnapshot { documents_indexed: 1, chunks_indexed: 2, last_chunk_size: None };
    assert_eq!(
        to_json_string(&metrics_response(snapshot)),
        r#"{"documentsIndexed":1,"chunksIndexed":2,"lastChunkSize":null}"#
    );
    assert_eq!(to_json_string(&projects_payload(&vec!["p".into()])), r#"{"projects":["p"]}"#);
    assert_eq!(
        to_json_string(&project_tags_payload("p", &vec!["t".into()])),
        r#"{"project_id":"p","tags":["t"]}"#
    );
    assert_eq!(embedding_provider_label(EmbeddingProvider::OpenAI), "openai");
}

#[test]
fn tool_inputs_are_checked() {
    assert_eq!(validate_push_text("  "), Err(ToolError::InvalidParams("`text` must not be empty".into())));
    assert!(validate_push_text("x").is_ok());
    assert_eq!(plan_new_collection("n", None, 768), Ok(768));
    assert_eq!(plan_new_collection("n", Some(3), 768), Ok(3));
    assert!(plan_new_collection(" ", Some(3), 768).is_err());
}

#[test]
fn errors_are_described() {
    let e = ProcessingError::Qdrant(QdrantError::UnexpectedStatus { status: 404, body: "missing".into() });
    assert_eq!(processing_error_message(&e), "Qdrant request failed: Unexpected Qdrant response (404 Not Found): missing");
    let e = ProcessingError::Chunking(ChunkingError::InvalidChunkSize);
    assert_eq!(processing_error_message(&e), "Failed to chunk document: chunk size must be greater than zero");
    assert_eq!(status_display(999), "999 <unknown status code>");
    assert_eq!(
        map_summarize_error(SummarizeError::EmptyResult),
        ToolError::InvalidParams("No episodic memories found for the requested scope".into())
    );
    assert_eq!(
        map_summarize_error(SummarizeError::GenerationFailed("x".into())),
        ToolError::InternalError("x".into())
    );
}

#[test]
fn embedding_requests_are_checked() {
    let _client = AiLibClient::new();
    assert_eq!(
        check_embedding_request(0, 1),
        Err(EmbeddingClientError::GenerationFailed("embedding dimension must be greater than zero".into()))
    );
    assert_eq!(
        check_embedding_request(3, 0),
        Err(EmbeddingClientError::GenerationFailed("no texts provided".into()))
    );
    assert!(check_embedding_request(3, 2).is_ok());
}

#[test]
fn summarize_answer_has_expected_json() {
    let outcome = SummarizeOutcome {
        summary: "done".into(),
        source_memory_ids: vec!["a".into(), "b".into()],
        upserted_memory_id: "id-1".into(),
        strategy_used: "extractive".into(),
        provider: None,
        model: Some("llama".into()),
    };
    let filters = vec![("collection".to_string(), rustymcp::json::Json::Str("c".into()))];
    assert_eq!(
        to_json_string(&summarize_response(outcome, filters)),
        r#"{"summary":"done","source_memory_ids":["a","b"],"upserted_memory_id":"id-1","strategy":"extractive","model":"llama","used_filters":{"collection":"c"}}"#
    );
}
