//! The MCP server's routing and structured answers: which resource or tool a
//! request names, and the JSON each one returns.
use crate::config::EmbeddingProvider;
use crate::embedding::EmbeddingClientError;
use crate::json::{lemma_object_view, str_array_v, string_array, Json, JsonNumber, JsonView};
use crate::metrics::MetricsSnapshot;
use crate::processing::{ProcessingOutcome, QdrantHealthSnapshot, SearchError};
use crate::qdrant::{obj1, obj2, object1, object2, qdrant_error_text, QdrantError};
use crate::chunking::chunking_error_text;
use crate::processing::ProcessingError;
use crate::summary_pipeline::{SummarizeError, SummarizeOutcome};
use crate::text::{
    append_str, chars_of, decimal, ends_with, has_prefix, has_suffix, is_blank, is_blank_str,
    opt_view, owned, starts_with, str_eq, string_of_range, usize_decimal, views,
};
use crate::tools::{opt_entry, push_entry, push_opt_entry, uint_v, ToolError};
use vstd::prelude::*;

verus! {

/// URI of the memory types resource.
pub const MEMORY_TYPES_URI: &'static str = "mcp://rusty-mem/memory-types";

/// URI of the health resource.
pub const HEALTH_URI: &'static str = "mcp://rusty-mem/health";

/// URI of the projects resource.
pub const PROJECTS_URI: &'static str = "mcp://rusty-mem/projects";

/// URI of the settings resource.
pub const SETTINGS_URI: &'static str = "mcp://rusty-mem/settings";

/// URI of the usage resource.
pub const USAGE_URI: &'static str = "mcp://rusty-mem/usage";

/// Template of the project tags resource.
pub const PROJECT_TAGS_TEMPLATE_URI: &'static str = "mcp://rusty-mem/projects/{project_id}/tags";

/// Prefix of project tags resources.
pub const PROJECT_TAGS_PREFIX: &'static str = "mcp://rusty-mem/projects/";

/// Suffix of project tags resources.
pub const PROJECT_TAGS_SUFFIX: &'static str = "/tags";

/// A resource named by a read request.
#[derive(Debug, Clone, PartialEq, Eq)]
pub enum ResourceRoute {
    /// The memory types.
    MemoryTypes,
    /// Embedding configuration and Qdrant reachability.
    Health,
    /// Stored project identifiers.
    Projects,
    /// Search defaults.
    Settings,
    /// Usage policy.
    Usage,
    /// Tags of one project.
    ProjectTags(String),
}

/// Whether a URI has the shape of a project tags resource.
pub open spec fn is_tags_uri(uri: Seq<char>) -> bool {
    has_prefix(uri, PROJECT_TAGS_PREFIX@) && has_suffix(uri, PROJECT_TAGS_SUFFIX@)
}

/// The project segment of a project tags URI.
pub open spec fn tags_project(uri: Seq<char>) -> Seq<char> {
    uri.subrange(PROJECT_TAGS_PREFIX@.len() as int, uri.len() - PROJECT_TAGS_SUFFIX@.len())
}

/// Routes a resource URI: the fixed resources by exact URI, then project tags
/// URIs (refused when no project segment lies between prefix and suffix, which
/// may overlap); any other URI is unknown.
pub fn route_resource(uri: &str) -> (res: Result<ResourceRoute, ToolError>)
    ensures
        uri@ == MEMORY_TYPES_URI@ ==> res == Ok::<ResourceRoute, ToolError>(
            ResourceRoute::MemoryTypes,
        ),
        uri@ == HEALTH_URI@ ==> res == Ok::<ResourceRoute, ToolError>(ResourceRoute::Health),
        uri@ == PROJECTS_URI@ ==> res == Ok::<ResourceRoute, ToolError>(ResourceRoute::Projects),
        uri@ == SETTINGS_URI@ ==> res == Ok::<ResourceRoute, ToolError>(ResourceRoute::Settings),
        uri@ == USAGE_URI@ ==> res == Ok::<ResourceRoute, ToolError>(ResourceRoute::Usage),
        uri@ != MEMORY_TYPES_URI@ && uri@ != HEALTH_URI@ && uri@ != PROJECTS_URI@ && uri@
            != SETTINGS_URI@ && uri@ != USAGE_URI@ ==> {
            if is_tags_uri(uri@) {
                if uri@.len() <= PROJECT_TAGS_PREFIX@.len() + PROJECT_TAGS_SUFFIX@.len() {
                    res matches Err(ToolError::InvalidParams(m)) && m@
                        == "Project identifier missing in resource URI"@
                } else {
                    res matches Ok(ResourceRoute::ProjectTags(p)) && p@ == tags_project(uri@)
                }
            } else {
                res matches Err(ToolError::InvalidParams(m)) && m@ == "Unknown resource URI: "@
                    + uri@
            }
        },
{
    proof {
        reveal_strlit("mcp://rusty-mem/memory-types");
        reveal_strlit("mcp://rusty-mem/health");
        reveal_strlit("mcp://rusty-mem/projects");
        reveal_strlit("mcp://rusty-mem/settings");
        reveal_strlit("mcp://rusty-mem/usage");
        reveal_strlit("mcp://rusty-mem/projects/");
        reveal_strlit("/tags");
        assert(SETTINGS_URI@[16] != PROJECTS_URI@[16]);
        assert(SETTINGS_URI@ != PROJECTS_URI@);
        assert(MEMORY_TYPES_URI@[16] != HEALTH_URI@[16]);
        assert(MEMORY_TYPES_URI@[16] != PROJECTS_URI@[16]);
        assert(MEMORY_TYPES_URI@[16] != SETTINGS_URI@[16]);
        assert(MEMORY_TYPES_URI@[16] != USAGE_URI@[16]);
        assert(HEALTH_URI@[16] != PROJECTS_URI@[16]);
        assert(HEALTH_URI@[16] != SETTINGS_URI@[16]);
        assert(HEALTH_URI@[16] != USAGE_URI@[16]);
        assert(PROJECTS_URI@[16] != USAGE_URI@[16]);
        assert(SETTINGS_URI@[16] != USAGE_URI@[16]);
    }
    if str_eq(uri, MEMORY_TYPES_URI) {
        return Ok(ResourceRoute::MemoryTypes);
    }
    if str_eq(uri, HEALTH_URI) {
        return Ok(ResourceRoute::Health);
    }
    if str_eq(uri, PROJECTS_URI) {
        return Ok(ResourceRoute::Projects);
    }
    if str_eq(uri, SETTINGS_URI) {
        return Ok(ResourceRoute::Settings);
    }
    if str_eq(uri, USAGE_URI) {
        return Ok(ResourceRoute::Usage);
    }
    if starts_with(uri, PROJECT_TAGS_PREFIX) && ends_with(uri, PROJECT_TAGS_SUFFIX) {
        let v = chars_of(uri);
        let lo = PROJECT_TAGS_PREFIX.unicode_len();
        let suffix_len = PROJECT_TAGS_SUFFIX.unicode_len();
        if v.len() <= lo + suffix_len {
            return Err(
                ToolError::InvalidParams(owned("Project identifier missing in resource URI")),
            );
        }
        let hi = v.len() - suffix_len;
        let segment = string_of_range(&v, lo, hi);
        return Ok(ResourceRoute::ProjectTags(segment));
    }
    let mut m = owned("Unknown resource URI: ");
    append_str(&mut m, uri);
    Err(ToolError::InvalidParams(m))
}

/// A tool named by a call request.
#[derive(Debug, Clone, Copy, PartialEq, Eq, Structural)]
pub enum ToolRoute {
    /// `push`: index a document.
    Push,
    /// `search`: semantic search.
    Search,
    /// `get-collections`: list collections.
    GetCollections,
    /// `new-collection`: ensure a collection.
    NewCollection,
    /// `metrics`: ingestion counters.
    Metrics,
    /// `summarize`: consolidate episodic memories into a semantic summary.
    Summarize,
}

/// The tool a name selects.
pub open spec fn tool_named(name: Seq<char>) -> Option<ToolRoute> {
    if name == "push"@ {
        Some(ToolRoute::Push)
    } else if name == "search"@ {
        Some(ToolRoute::Search)
    } else if name == "get-collections"@ {
        Some(ToolRoute::GetCollections)
    } else if name == "new-collection"@ {
        Some(ToolRoute::NewCollection)
    } else if name == "metrics"@ {
        Some(ToolRoute::Metrics)
    } else if name == "summarize"@ {
        Some(ToolRoute::Summarize)
    } else {
        None
    }
}

/// Routes a tool call by name; an unknown name is refused.
pub fn route_tool(name: &str) -> (res: Result<ToolRoute, ToolError>)
    ensures
        match tool_named(name@) {
            Some(t) => res == Ok::<ToolRoute, ToolError>(t),
            None => res matches Err(ToolError::InvalidParams(m)) && m@ == "Unknown tool: "@ + name@,
        },
{
    if str_eq(name, "push") {
        Ok(ToolRoute::Push)
    } else if str_eq(name, "search") {
        Ok(ToolRoute::Search)
    } else if str_eq(name, "get-collections") {
        Ok(ToolRoute::GetCollections)
    } else if str_eq(name, "new-collection") {
        Ok(ToolRoute::NewCollection)
    } else if str_eq(name, "metrics") {
        Ok(ToolRoute::Metrics)
    } else if str_eq(name, "summarize") {
        Ok(ToolRoute::Summarize)
    } else {
        let mut m = owned("Unknown tool: ");
        append_str(&mut m, name);
        Err(ToolError::InvalidParams(m))
    }
}

fn finish_object(entries: Vec<(String, Json)>) -> (res: Json)
    ensures
        res.view() == JsonView::Object(crate::json::entries_view(entries@)),
{
    let res = Json::Object(entries);
    proof {
        lemma_object_view(res);
    }
    res
}

/// The memory types resource.
pub open spec fn memory_types_view() -> JsonView {
    obj2(
        "memory_types"@,
        str_array_v(seq!["episodic"@, "semantic"@, "procedural"@]),
        "default"@,
        JsonView::Str("semantic"@),
    )
}

/// Builds the memory types resource.
pub fn memory_types_payload() -> (res: Json)
    ensures
        res.view() == memory_types_view(),
{
    let types = vec![owned("episodic"), owned("semantic"), owned("procedural")];
    assert(views(types@) =~= seq!["episodic"@, "semantic"@, "procedural"@]);
    object2("memory_types", string_array(&types), "default", Json::Str(owned("semantic")))
}

/// The label of an embedding provider.
pub open spec fn provider_label(provider: EmbeddingProvider) -> Seq<char> {
    match provider {
        EmbeddingProvider::Ollama => "ollama"@,
        EmbeddingProvider::OpenAI => "openai"@,
    }
}

/// Names an embedding provider.
pub fn embedding_provider_label(provider: EmbeddingProvider) -> (res: &'static str)
    ensures
        res@ == provider_label(provider),
{
    match provider {
        EmbeddingProvider::Ollama => "ollama",
        EmbeddingProvider::OpenAI => "openai",
    }
}

/// The health resource: the embedding configuration and Qdrant's reachability.
pub open spec fn health_view(
    provider: EmbeddingProvider,
    model: Seq<char>,
    dimension: usize,
    qdrant_url: Seq<char>,
    default_collection: Seq<char>,
    snapshot: QdrantHealthSnapshot,
) -> JsonView {
    obj2(
        "embedding"@,
        JsonView::Object(
            seq![
                ("provider"@, JsonView::Str(provider_label(provider))),
                ("model"@, JsonView::Str(model)),
                ("dimension"@, uint_v(dimension as nat)),
            ],
        ),
        "qdrant"@,
        JsonView::Object(
            seq![
                ("url"@, JsonView::Str(qdrant_url)),
                ("reachable"@, JsonView::Bool(snapshot.reachable)),
                ("defaultCollection"@, JsonView::Str(default_collection)),
                ("defaultCollectionPresent"@, JsonView::Bool(snapshot.default_collection_present)),
            ] + opt_entry("error"@, opt_view(snapshot.error)),
        ),
    )
}

/// Builds the health resource.
pub fn health_payload(
    provider: EmbeddingProvider,
    model: &str,
    dimension: usize,
    qdrant_url: &str,
    default_collection: &str,
    snapshot: &QdrantHealthSnapshot,
) -> (res: Json)
    ensures
        res.view() == health_view(
            provider,
            model@,
            dimension,
            qdrant_url@,
            default_collection@,
            *snapshot,
        ),
{
    let mut qdrant: Vec<(String, Json)> = Vec::new();
    push_entry(&mut qdrant, "url", Json::Str(owned(qdrant_url)));
    push_entry(&mut qdrant, "reachable", Json::Bool(snapshot.reachable));
    push_entry(&mut qdrant, "defaultCollection", Json::Str(owned(default_collection)));
    push_entry(
        &mut qdrant,
        "defaultCollectionPresent",
        Json::Bool(snapshot.default_collection_present),
    );
    push_opt_entry(&mut qdrant, "error", &snapshot.error);
    let mut embedding: Vec<(String, Json)> = Vec::new();
    push_entry(&mut embedding, "provider", Json::Str(owned(embedding_provider_label(provider))));
    push_entry(&mut embedding, "model", Json::Str(owned(model)));
    push_entry(&mut embedding, "dimension", Json::Number(JsonNumber::U64(dimension as u64)));
    let e = finish_object(embedding);
    let q = finish_object(qdrant);
    proof {
        assert(crate::json::entries_view(qdrant@) =~= seq![
            ("url"@, JsonView::Str(qdrant_url@)),
            ("reachable"@, JsonView::Bool(snapshot.reachable)),
            ("defaultCollection"@, JsonView::Str(default_collection@)),
            ("defaultCollectionPresent"@, JsonView::Bool(snapshot.default_collection_present)),
        ] + opt_entry("error"@, opt_view(snapshot.error)));
        assert(crate::json::entries_view(embedding@) =~= seq![
            ("provider"@, JsonView::Str(provider_label(provider))),
            ("model"@, JsonView::Str(model@)),
            ("dimension"@, uint_v(dimension as nat)),
        ]);
    }
    object2("embedding", e, "qdrant", q)
}

/// The projects resource.
pub fn projects_payload(projects: &Vec<String>) -> (res: Json)
    ensures
        res.view() == obj1("projects"@, str_array_v(views(projects@))),
{
    object1("projects", string_array(projects))
}

/// The project tags resource.
pub fn project_tags_payload(project_id: &str, tags: &Vec<String>) -> (res: Json)
    ensures
        res.view() == obj2(
            "project_id"@,
            JsonView::Str(project_id@),
            "tags"@,
            str_array_v(views(tags@)),
        ),
{
    object2("project_id", Json::Str(owned(project_id)), "tags", string_array(tags))
}

/// The settings resource; the default score threshold is given as JSON.
pub fn settings_payload(default_limit: usize, max_limit: usize, default_score_threshold: Json) -> (res:
    Json)
    ensures
        res.view() == obj1(
            "search"@,
            JsonView::Object(
                seq![
                    ("default_limit"@, uint_v(default_limit as nat)),
                    ("max_limit"@, uint_v(max_limit as nat)),
                    ("default_score_threshold"@, default_score_threshold.view()),
                ],
            ),
        ),
{
    let ghost t = default_score_threshold.view();
    let mut search: Vec<(String, Json)> = Vec::new();
    push_entry(&mut search, "default_limit", Json::Number(JsonNumber::U64(default_limit as u64)));
    push_entry(&mut search, "max_limit", Json::Number(JsonNumber::U64(max_limit as u64)));
    push_entry(&mut search, "default_score_threshold", default_score_threshold);
    assert(crate::json::entries_view(search@) =~= seq![
        ("default_limit"@, uint_v(default_limit as nat)),
        ("max_limit"@, uint_v(max_limit as nat)),
        ("default_score_threshold"@, t),
    ]);
    object1("search", finish_object(search))
}

/// Checks the text of a `push` call.
pub fn validate_push_text(text: &str) -> (res: Result<(), ToolError>)
    ensures
        is_blank(text@) ==> (res matches Err(ToolError::InvalidParams(m)) && m@
            == "`text` must not be empty"@),
        !is_blank(text@) ==> res is Ok,
{
    if is_blank_str(text) {
        Err(ToolError::InvalidParams(owned("`text` must not be empty")))
    } else {
        Ok(())
    }
}

/// The structured answer of a `push` call.
pub open spec fn push_view(collection: Seq<char>, outcome: ProcessingOutcome) -> JsonView {
    JsonView::Object(
        seq![
            ("status"@, JsonView::Str("ok"@)),
            ("collection"@, JsonView::Str(collection)),
            ("chunksIndexed"@, uint_v(outcome.chunk_count as nat)),
            ("chunkSize"@, uint_v(outcome.chunk_size as nat)),
            ("inserted"@, uint_v(outcome.inserted as nat)),
            ("updated"@, uint_v(outcome.updated as nat)),
            ("skippedDuplicates"@, uint_v(outcome.skipped_duplicates as nat)),
        ],
    )
}

/// Builds the answer of a `push` call.
pub fn push_response(collection: &str, outcome: ProcessingOutcome) -> (res: Json)
    ensures
        res.view() == push_view(collection@, outcome),
{
    let mut e: Vec<(String, Json)> = Vec::new();
    push_entry(&mut e, "status", Json::Str(owned("ok")));
    push_entry(&mut e, "collection", Json::Str(owned(collection)));
    push_entry(&mut e, "chunksIndexed", Json::Number(JsonNumber::U64(outcome.chunk_count as u64)));
    push_entry(&mut e, "chunkSize", Json::Number(JsonNumber::U64(outcome.chunk_size as u64)));
    push_entry(&mut e, "inserted", Json::Number(JsonNumber::U64(outcome.inserted as u64)));
    push_entry(&mut e, "updated", Json::Number(JsonNumber::U64(outcome.updated as u64)));
    push_entry(
        &mut e,
        "skippedDuplicates",
        Json::Number(JsonNumber::U64(outcome.skipped_duplicates as u64)),
    );
    let ghost ev = crate::json::entries_view(e@);
    assert(ev =~= match push_view(collection@, outcome) {
        JsonView::Object(x) => x,
        _ => Seq::empty(),
    });
    finish_object(e)
}

/// The answer of a `summarize` call: the summary, its sources, the identifier
/// it is stored under, the strategy, the provider and model when known, and the
/// filters used.
pub open spec fn summarize_view(
    outcome: SummarizeOutcome,
    used_filters: Seq<(Seq<char>, JsonView)>,
) -> JsonView {
    JsonView::Object(
        seq![
            ("summary"@, JsonView::Str(outcome.summary@)),
            ("source_memory_ids"@, str_array_v(views(outcome.source_memory_ids@))),
            ("upserted_memory_id"@, JsonView::Str(outcome.upserted_memory_id@)),
            ("strategy"@, JsonView::Str(outcome.strategy_used@)),
        ] + opt_entry("provider"@, opt_view(outcome.provider)) + opt_entry(
            "model"@,
            opt_view(outcome.model),
        ) + seq![("used_filters"@, JsonView::Object(used_filters))],
    )
}

/// Builds the answer of a `summarize` call.
pub fn summarize_response(outcome: SummarizeOutcome, used_filters: Vec<(String, Json)>) -> (res:
    Json)
    ensures
        res.view() == summarize_view(outcome, crate::json::entries_view(used_filters@)),
{
    let ghost uf = crate::json::entries_view(used_filters@);
    let mut e: Vec<(String, Json)> = Vec::new();
    push_entry(&mut e, "summary", Json::Str(outcome.summary.clone()));
    push_entry(&mut e, "source_memory_ids", string_array(&outcome.source_memory_ids));
    push_entry(&mut e, "upserted_memory_id", Json::Str(outcome.upserted_memory_id.clone()));
    push_entry(&mut e, "strategy", Json::Str(outcome.strategy_used.clone()));
    push_opt_entry(&mut e, "provider", &outcome.provider);
    push_opt_entry(&mut e, "model", &outcome.model);
    push_entry(&mut e, "used_filters", finish_object(used_filters));
    let ghost ev = crate::json::entries_view(e@);
    assert(ev =~= match summarize_view(outcome, uf) {
        JsonView::Object(x) => x,
        _ => Seq::empty(),
    });
    finish_object(e)
}

/// The answer of a `get-collections` call.
pub fn collections_response(collections: &Vec<String>) -> (res: Json)
    ensures
        res.view() == obj1("collections"@, str_array_v(views(collections@))),
{
    object1("collections", string_array(collections))
}

/// Checks the name of a `new-collection` call and picks the vector size: the
/// requested one, else the configured dimension.
pub fn plan_new_collection(name: &str, vector_size: Option<u64>, dimension: usize) -> (res: Result<
    u64,
    ToolError,
>)
    ensures
        is_blank(name@) ==> (res matches Err(ToolError::InvalidParams(m)) && m@
            == "`name` must not be empty"@),
        !is_blank(name@) ==> res == Ok::<u64, ToolError>(
            match vector_size {
                Some(v) => v,
                None => dimension as u64,
            },
        ),
{
    if is_blank_str(name) {
        return Err(ToolError::InvalidParams(owned("`name` must not be empty")));
    }
    match vector_size {
        Some(v) => Ok(v),
        None => Ok(dimension as u64),
    }
}

/// The answer of a `new-collection` call.
pub fn new_collection_response(vector_size: u64) -> (res: Json)
    ensures
        res.view() == obj2(
            "status"@,
            JsonView::Str("ok"@),
            "vectorSize"@,
            JsonView::Number(crate::json::NumberView::U64(vector_size)),
        ),
{
    object2("status", Json::Str(owned("ok")), "vectorSize", Json::Number(JsonNumber::U64(vector_size)))
}

/// The answer of a `metrics` call; an absent last chunk size is `null`.
pub fn metrics_response(snapshot: MetricsSnapshot) -> (res: Json)
    ensures
        res.view() == JsonView::Object(
            seq![
                ("documentsIndexed"@, JsonView::Number(crate::json::NumberView::U64(snapshot.documents_indexed))),
                ("chunksIndexed"@, JsonView::Number(crate::json::NumberView::U64(snapshot.chunks_indexed))),
                ("lastChunkSize"@, match snapshot.last_chunk_size {
                    Some(n) => JsonView::Number(crate::json::NumberView::U64(n)),
                    None => JsonView::Null,
                }),
            ],
        ),
{
    let mut e: Vec<(String, Json)> = Vec::new();
    push_entry(&mut e, "documentsIndexed", Json::Number(JsonNumber::U64(snapshot.documents_indexed)));
    push_entry(&mut e, "chunksIndexed", Json::Number(JsonNumber::U64(snapshot.chunks_indexed)));
    let last = match snapshot.last_chunk_size {
        Some(n) => Json::Number(JsonNumber::U64(n)),
        None => Json::Null,
    };
    push_entry(&mut e, "lastChunkSize", last);
    let ghost ev = crate::json::entries_view(e@);
    assert(ev =~= seq![
        ("documentsIndexed"@, JsonView::Number(crate::json::NumberView::U64(snapshot.documents_indexed))),
        ("chunksIndexed"@, JsonView::Number(crate::json::NumberView::U64(snapshot.chunks_indexed))),
        ("lastChunkSize"@, match snapshot.last_chunk_size {
            Some(n) => JsonView::Number(crate::json::NumberView::U64(n)),
            None => JsonView::Null,
        }),
    ]);
    finish_object(e)
}

/// The text of an embedding client error.
pub open spec fn embedding_error_text(e: EmbeddingClientError) -> Seq<char> {
    match e {
        EmbeddingClientError::GenerationFailed(m) => "Failed to generate embeddings: "@ + m@,
    }
}

/// Describes an embedding client error.
pub fn embedding_error_message(e: &EmbeddingClientError) -> (res: String)
    ensures
        res@ == embedding_error_text(*e),
{
    match e {
        EmbeddingClientError::GenerationFailed(m) => {
            let mut r = owned("Failed to generate embeddings: ");
            append_str(&mut r, m.as_str());
            r
        },
    }
}

/// The text of an indexing error.
pub open spec fn processing_error_text(e: ProcessingError) -> Seq<char> {
    match e {
        ProcessingError::Chunking(c) => "Failed to chunk document: "@ + chunking_error_text(c),
        ProcessingError::Embedding(x) => "Failed to generate embeddings: "@ + embedding_error_text(x),
        ProcessingError::Qdrant(q) => "Qdrant request failed: "@ + qdrant_error_text(q),
    }
}

/// Describes an indexing error, as answered to a failing tool call.
pub fn processing_error_message(e: &ProcessingError) -> (res: String)
    ensures
        res@ == processing_error_text(*e),
{
    let (mut r, detail) = match e {
        ProcessingError::Chunking(c) => (owned("Failed to chunk document: "), c.message()),
        ProcessingError::Embedding(x) => (
            owned("Failed to generate embeddings: "),
            embedding_error_message(x),
        ),
        ProcessingError::Qdrant(q) => (owned("Qdrant request failed: "), q.message()),
    };
    append_str(&mut r, detail.as_str());
    r
}

/// The tool error a search failure is answered with.
pub open spec fn search_error_text(e: SearchError) -> Seq<char> {
    match e {
        SearchError::Embedding(x) => "Embedding provider error: "@ + embedding_error_text(x),
        SearchError::Qdrant(q) => "Qdrant request failed: "@ + qdrant_error_text(q),
        SearchError::DimensionMismatch { expected, actual } => "Embedding dimension mismatch: expected "@
            + decimal(expected as nat) + ", got "@ + decimal(actual as nat)
            + ". Align EMBEDDING_MODEL and EMBEDDING_DIMENSION."@,
        SearchError::EmptyEmbedding => "Embedding provider returned no vectors for the query."@,
    }
}

/// Maps a search failure to an internal tool error.
pub fn map_search_error(error: SearchError) -> (res: ToolError)
    ensures
        res matches ToolError::InternalError(m) && m@ == search_error_text(error),
{
    let m = match &error {
        SearchError::Embedding(x) => {
            let mut r = owned("Embedding provider error: ");
            let d = embedding_error_message(x);
            append_str(&mut r, d.as_str());
            r
        },
        SearchError::Qdrant(q) => {
            let mut r = owned("Qdrant request failed: ");
            let d = q.message();
            append_str(&mut r, d.as_str());
            r
        },
        SearchError::DimensionMismatch { expected, actual } => {
            let mut r = owned("Embedding dimension mismatch: expected ");
            let a = usize_decimal(*expected);
            append_str(&mut r, a.as_str());
            append_str(&mut r, ", got ");
            let b = usize_decimal(*actual);
            append_str(&mut r, b.as_str());
            append_str(&mut r, ". Align EMBEDDING_MODEL and EMBEDDING_DIMENSION.");
            r
        },
        SearchError::EmptyEmbedding => owned("Embedding provider returned no vectors for the query."),
    };
    ToolError::InternalError(m)
}

/// The tool error a summarisation failure is answered with.
pub open spec fn summarize_error_answer(e: SummarizeError) -> (bool, Seq<char>) {
    match e {
        SummarizeError::ProviderUnavailable(m) => (false, "Summarization provider unavailable: "@ + m@),
        SummarizeError::GenerationFailed(m) => (false, m@),
        SummarizeError::EmptyResult => (true, "No episodic memories found for the requested scope"@),
        SummarizeError::InvalidTimeRange => (true, "`time_range` must include both `start` and `end`"@),
        SummarizeError::Embedding(x) => (false, "Embedding provider error: "@ + embedding_error_text(x)),
        SummarizeError::Qdrant(q) => (false, "Qdrant request failed: "@ + qdrant_error_text(q)),
    }
}

/// Maps a summarisation failure to a tool error: an empty scope or a bad range
/// are invalid parameters, the rest internal errors.
pub fn map_summarize_error(error: SummarizeError) -> (res: ToolError)
    ensures
        summarize_error_answer(error).0 ==> (res matches ToolError::InvalidParams(m) && m@
            == summarize_error_answer(error).1),
        !summarize_error_answer(error).0 ==> (res matches ToolError::InternalError(m) && m@
            == summarize_error_answer(error).1),
{
    match error {
        SummarizeError::ProviderUnavailable(m) => {
            let mut r = owned("Summarization provider unavailable: ");
            append_str(&mut r, m.as_str());
            ToolError::InternalError(r)
        },
        SummarizeError::GenerationFailed(m) => ToolError::InternalError(m),
        SummarizeError::EmptyResult => ToolError::InvalidParams(
            owned("No episodic memories found for the requested scope"),
        ),
        SummarizeError::InvalidTimeRange => ToolError::InvalidParams(
            owned("`time_range` must include both `start` and `end`"),
        ),
        SummarizeError::Embedding(x) => {
            let mut r = owned("Embedding provider error: ");
            let d = embedding_error_message(&x);
            append_str(&mut r, d.as_str());
            ToolError::InternalError(r)
        },
        SummarizeError::Qdrant(q) => {
            let mut r = owned("Qdrant request failed: ");
            let d = q.message();
            append_str(&mut r, d.as_str());
            ToolError::InternalError(r)
        },
    }
}

} // verus!
