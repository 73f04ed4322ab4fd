use rustymcp::chunking::ChunkingError;
use rustymcp::config::{
    check_search_defaults, load_env, load_env_optional, load_server_port, load_usize_with_default,
    parse_embedding_dimension, parse_embedding_provider, ConfigError, EmbeddingProvider,
};
use rustymcp::json::{to_json_string, Json};
use rustymcp::metrics::CodeMetrics;
use rustymcp::processing::{
    check_query_embedding, choose_collection, effective_limit, finish_indexing, health_from_listing,
    prepare_document, search_filter_args, SearchError,
};
use rustymcp::qdrant::{IndexSummary, SearchTimeRange};
use rustymcp::summarization::{
    get_summarization_client, ollama_endpoint, ollama_status_error, ollama_summary,
    SummarizationClientError, SummarizationProvider,
};
use rustymcp::summarize::EpisodicMemory;
use rustymcp::summary_pipeline::{
    episodic_memories, existing_summary_outcome, finish_generation, plan_generation, select_episodic,
    summarize_error_from_processing, summary_identity, summary_overrides, summary_outcome,
    summary_scope, strategy_to_label, SummarizeError, SummarizeRequest, SummarizeStrategy,
};

fn s(v: &str) -> Json {
    Json::Str(v.to_string())
}

fn request() -> SummarizeRequest {
    SummarizeRequest {
        project_id: Some("proj".into()),
        memory_type: None,
        tags: Some(vec!["daily".into()]),
        time_range: SearchTimeRange {
            start: Some("2025-01-01T00:00:00Z".into()),
            end: Some("2025-01-07T00:00:00Z".into()),
        },
        limit: None,
        strategy: None,
        provider: None,
        model: None,
        max_words: None,
        collection: None,
    }
}

#[test]
fn document_plan_chunks_and_dedupes() {
    let plan = prepare_document("alpha beta. alpha beta.", Some(2), None, EmbeddingProvider::Ollama, "nomic-embed-text", false)
        .expect("chunkable");
    assert_eq!(plan.chunk_size, 2);
    assert!(plan.chunks.len() >= 1);
    assert_eq!(plan.chunk_count, plan.chunks.len() + plan.skipped_duplicates);
    let empty = prepare_document("   ", None, Some(3), EmbeddingProvider::OpenAI, "text-embedding-3-small", false).unwrap();
    assert!(empty.chunks.is_empty());
    assert_eq!(empty.chunk_size, 1024);
}

#[test]
fn indexing_records_metrics() {
    let mut metrics = CodeMetrics::new();
    let outcome = finish_indexing(&mut metrics, IndexSummary { inserted: 2, updated: 1 }, 256, 7, 4);
    assert_eq!(outcome.chunk_count, 7);
    assert_eq!(outcome.inserted, 2);
    assert_eq!(outcome.updated, 1);
    assert_eq!(outcome.skipped_duplicates, 4);
    let snapshot = metrics.snapshot();
    assert_eq!(snapshot.documents_indexed, 1);
    assert_eq!(snapshot.chunks_indexed, 7);
    assert_eq!(snapshot.last_chunk_size, Some(256));
}

#[test]
fn search_decisions() {
    assert_eq!(effective_limit(None, 5, 50), 5);
    assert_eq!(effective_limit(Some(0), 5, 50), 1);
    assert_eq!(effective_limit(Some(80), 5, 50), 50);
    assert!(matches!(check_query_embedding(None, 3), Err(SearchError::EmptyEmbedding)));
    assert!(matches!(
        check_query_embedding(Some(2), 3),
        Err(SearchError::DimensionMismatch { expected: 3, actual: 2 })
    ));
    assert!(check_query_embedding(Some(3), 3).is_ok());
    assert_eq!(choose_collection(None, "default-col"), "default-col");
    let args = search_filter_args(None, Some("Episodic ".into()), Some(vec!["A".into()]), None);
    assert_eq!(args.project_id.as_deref(), Some("default"));
    assert_eq!(args.memory_type.as_deref(), Some("episodic"));
    assert_eq!(args.tags, Some(vec!["a".to_string()]));
}

#[test]
fn health_snapshot_from_listing() {
    let ok = health_from_listing(Ok(vec!["a".into(), "rusty-mem".into()]), "rusty-mem");
    assert!(ok.reachable && ok.default_collection_present && ok.error.is_none());
    let down = health_from_listing(Err("refused".into()), "rusty-mem");
    assert!(!down.reachable && !down.default_collection_present);
    assert_eq!(down.error.as_deref(), Some("refused"));
}

#[test]
fn summary_scope_requires_both_ends() {
    let mut r = request();
    r.time_range.end = None;
    assert!(matches!(summary_scope(&r, "c"), Err(SummarizeError::InvalidTimeRange)));
    let scope = summary_scope(&request(), "c").expect("scope");
    assert_eq!(scope.collection, "c");
    let filter = to_json_string(&scope.filter.unwrap());
    assert!(filter.contains(r#"{"key":"memory_type","match":{"value":"episodic"}}"#));
    assert!(filter.contains(r#""gte":"2025-01-01T00:00:00Z""#));
    assert!(filter.contains(r#"{"key":"project_id","match":{"value":"proj"}}"#));
}

#[test]
fn summary_scope_defaults_the_project() {
    let mut r = request();
    r.project_id = None;
    let scope = summary_scope(&r, "c").expect("both bounds give a scope");
    let filter = to_json_string(&scope.filter.unwrap());
    assert!(filter.contains(r#"{"key":"project_id","match":{"value":"default"}}"#));
    let mut named = request();
    named.project_id = Some("default".into());
    let named_filter = to_json_string(&summary_scope(&named, "c").unwrap().filter.unwrap());
    assert_eq!(named_filter, filter);
}

#[test]
fn episodic_items_are_read_sorted_and_capped() {
    let entries = vec![
        ("b".to_string(), vec![("text".to_string(), s("Later")), ("timestamp".to_string(), s("2025-01-03T00:00:00Z"))]),
        ("x".to_string(), vec![("text".to_string(), s("   "))]),
        ("a".to_string(), vec![("text".to_string(), s("Earlier")), ("timestamp".to_string(), s("2025-01-02T00:00:00Z"))]),
    ];
    let items = episodic_memories(entries);
    assert_eq!(items.len(), 2);
    let selected = select_episodic(items, Some(1)).expect("non-empty");
    assert_eq!(selected.len(), 1);
    assert_eq!(selected[0].memory_id, "a");
    assert!(matches!(select_episodic(vec![], None), Err(SummarizeError::EmptyResult)));
}

#[test]
fn identity_overrides_and_outcomes() {
    let items = vec![EpisodicMemory::new("m1".into(), "Did things.".into(), None)];
    let identity = summary_identity(&request(), &items);
    assert_eq!(identity.source_memory_ids, vec!["m1".to_string()]);
    assert_eq!(identity.tag, format!("summary:{}", identity.key));
    assert!(to_json_string(identity.existing_filter.as_ref().unwrap()).contains(&identity.tag));

    let overrides = summary_overrides(&request(), &identity);
    assert_eq!(overrides.memory_type.as_deref(), Some("semantic"));
    assert_eq!(overrides.tags, Some(vec!["daily".to_string(), "summary".to_string(), identity.tag.clone()]));
    assert_eq!(overrides.summary_key.as_deref(), Some(identity.key.as_str()));

    let payload = vec![("text".to_string(), s("old summary"))];
    let existing = existing_summary_outcome("id-9".into(), &payload, identity.source_memory_ids.clone(), &request());
    assert_eq!(existing.summary, "old summary");
    assert_eq!(existing.upserted_memory_id, "id-9");
    assert_eq!(existing.strategy_used, "auto");

    let fresh = summary_outcome("text".into(), vec![], None, SummarizeStrategy::Extractive, None, None);
    assert_eq!(fresh.upserted_memory_id, "");
    assert_eq!(fresh.strategy_used, "extractive");
}

#[test]
fn generation_plan_and_fallback() {
    let items = vec![EpisodicMemory::new("m1".into(), "Did things. More".into(), Some("2025-01-01".into()))];
    let plan = plan_generation(&request(), SummarizationProvider::Ollama, &Some("llama".into()), 200, &items);
    assert_eq!(plan.strategy, SummarizeStrategy::Auto);
    assert_eq!(plan.provider.as_deref(), Some("ollama"));
    assert_eq!(plan.model.as_deref(), Some("llama"));
    let llm = plan.request.expect("abstractive attempted");
    assert!(llm.prompt.contains("- 2025-01-01: Did things. More"));

    let disabled = plan_generation(&request(), SummarizationProvider::Disabled, &Some("llama".into()), 200, &items);
    assert!(disabled.request.is_none());
    assert_eq!(disabled.model, None);

    let (text, strategy) = finish_generation(SummarizeStrategy::Auto, None, &items, 200).unwrap();
    assert_eq!(text, "- 2025-01-01: Did things");
    assert_eq!(strategy, SummarizeStrategy::Extractive);
    let (text, strategy) =
        finish_generation(SummarizeStrategy::Auto, Some(Ok("LLM".into())), &items, 200).unwrap();
    assert_eq!((text.as_str(), strategy), ("LLM", SummarizeStrategy::Abstractive));
    let (text, strategy) =
        finish_generation(SummarizeStrategy::Auto, Some(Ok(String::new())), &items, 200).unwrap();
    assert_eq!((text.as_str(), strategy), ("- 2025-01-01: Did things", SummarizeStrategy::Abstractive));
    let failed = Some(Err(SummarizationClientError::GenerationFailed("boom".into())));
    let (_, strategy) = finish_generation(SummarizeStrategy::Extractive, failed, &items, 200).unwrap();
    assert_eq!(strategy, SummarizeStrategy::Extractive);
    assert_eq!(strategy_to_label(None), "auto");
}

#[test]
fn abstractive_request_without_provider_is_refused() {
    let items = vec![EpisodicMemory::new("m1".into(), "Did things.".into(), None)];
    match finish_generation(SummarizeStrategy::Abstractive, None, &items, 200) {
        Err(SummarizeError::ProviderUnavailable(m)) => {
            assert_eq!(m, "no summarization provider or model is configured")
        }
        other => panic!("provider_unavailable expected, got {:?}", other),
    }
    let failed = Some(Err(SummarizationClientError::ProviderUnavailable("ollama down".into())));
    match finish_generation(SummarizeStrategy::Abstractive, failed, &items, 200) {
        Err(SummarizeError::ProviderUnavailable(m)) => assert_eq!(m, "ollama down"),
        other => panic!("provider_unavailable expected, got {:?}", other),
    }
    match finish_generation(SummarizeStrategy::Abstractive, Some(Ok(String::new())), &items, 200) {
        Ok((text, strategy)) => assert_eq!((text.as_str(), strategy), ("- Did things", SummarizeStrategy::Abstractive)),
        other => panic!("extractive text expected, got {:?}", other),
    }
    match finish_generation(SummarizeStrategy::Abstractive, Some(Ok(" ".into())), &items, 200) {
        Ok((text, strategy)) => assert_eq!((text.as_str(), strategy), (" ", SummarizeStrategy::Abstractive)),
        other => panic!("abstractive text expected, got {:?}", other),
    }
}

#[test]
fn processing_errors_map_to_summary_errors() {
    let e = summarize_error_from_processing(rustymcp::processing::ProcessingError::Chunking(ChunkingError::InvalidChunkSize));
    match e {
        SummarizeError::GenerationFailed(m) => assert_eq!(m, "chunking failed: chunk size must be greater than zero"),
        other => panic!("unexpected {other:?}"),
    }
}

#[test]
fn ollama_client_decisions() {
    assert_eq!(get_summarization_client(SummarizationProvider::Disabled, None), None);
    assert_eq!(
        get_summarization_client(SummarizationProvider::Ollama, None).as_deref(),
        Some("http://127.0.0.1:11434")
    );
    assert_eq!(ollama_endpoint("http://h:1//"), "http://h:1/api/generate");
    assert_eq!(
        ollama_status_error(404, "", "http://h/api/generate"),
        Some(SummarizationClientError::ProviderUnavailable("Ollama endpoint http://h/api/generate returned 404".into()))
    );
    assert_eq!(
        ollama_status_error(500, "boom", "e"),
        Some(SummarizationClientError::GenerationFailed("Ollama returned 500 Internal Server Error: boom".into()))
    );
    assert_eq!(ollama_status_error(200, "", "e"), None);
    assert_eq!(ollama_summary("  Summary text \n", true), Ok("Summary text".into()));
    assert!(matches!(ollama_summary("x", false), Err(SummarizationClientError::InvalidResponse(_))));
}

#[test]
fn configuration_values_are_read() {
    assert_eq!(load_env_optional(Some("  ".into())), None);
    assert_eq!(load_env_optional(Some("x".into())), Some("x".into()));
    assert!(matches!(load_env("K", None), Err(ConfigError::MissingVariable(k)) if k == "K"));
    assert!(matches!(load_usize_with_default("L", None, 5), Ok(5)));
    assert!(matches!(load_usize_with_default("L", Some("12".into()), 5), Ok(12)));
    assert!(matches!(load_usize_with_default("L", Some("x".into()), 5), Err(ConfigError::InvalidValue(k)) if k == "L"));
    assert!(matches!(load_server_port(Some("70000".into())), Err(ConfigError::InvalidValue(_))));
    assert!(matches!(load_server_port(Some("8080".into())), Ok(Some(8080))));
    assert!(matches!(parse_embedding_dimension("768"), Ok(768)));
    assert!(matches!(parse_embedding_provider("OLLAMA"), Ok(EmbeddingProvider::Ollama)));
    assert!(parse_embedding_provider("other").is_err());
    assert!(matches!(parse_embedding_provider("foo"), Err(ConfigError::InvalidValue(k)) if k == "EMBEDDING_PROVIDER"));
    assert!(matches!(parse_embedding_dimension("x"), Err(ConfigError::InvalidValue(k)) if k == "EMBEDDING_DIMENSION"));
    assert!(check_search_defaults(5, 50, true).is_ok());
    assert!(matches!(check_search_defaults(60, 50, true), Err(ConfigError::InvalidValue(m)) if m == "SEARCH_DEFAULT_LIMIT cannot exceed SEARCH_MAX_LIMIT"));
    assert!(check_search_defaults(5, 50, false).is_err());
}

#[test]
fn enabled_flag_is_a_trimmed_one() {
    assert!(rustymcp::config::parse_enabled_flag(Some(" 1 ".into())));
    assert!(!rustymcp::config::parse_enabled_flag(Some("true".into())));
    assert!(!rustymcp::config::parse_enabled_flag(Some("10".into())));
    assert!(!rustymcp::config::parse_enabled_flag(None));
}

#[test]
fn ollama_window_ignores_case() {
    assert_eq!(rustymcp::chunking::embedding_context_window(EmbeddingProvider::Ollama, "Nomic-Embed-Text"), 8192);
    assert_eq!(rustymcp::chunking::embedding_context_window(EmbeddingProvider::Ollama, "NOMIC-EMBED-TEXT"), 8192);
    assert_eq!(rustymcp::chunking::embedding_context_window(EmbeddingProvider::Ollama, "ALL-MINILM-l6"), 512);
    assert_eq!(rustymcp::chunking::embedding_context_window(EmbeddingProvider::Ollama, "whatever"), 4096);
}
