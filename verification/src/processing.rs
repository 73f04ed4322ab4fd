//! The ingestion and search pipeline: the decisions between chunking, embedding
//! and storage calls, and the mapping of stored payloads into search hits.
use crate::chunking::{
    all_fit, chunk_size_for, chunk_text, context_window, determine_chunk_size, final_chunks,
    fitted_chunks, lemma_chunk_size_bounds, resolved_encoding, splits_cleanly, tokenizer_target,
    ChunkingError, TokenCounter,
};
use crate::embedding::EmbeddingClientError;
use crate::qdrant::QdrantError;
use crate::text::{is_blank, views};
use crate::config::EmbeddingProvider;
use crate::json::{entries_view, get_key, lookup, Json, JsonView};
use crate::hashing::chunk_hash;
use crate::mappers::{deduped, dedupe_chunks, PreparedChunk};
use crate::metrics::{wrapping_add_u64, CodeMetrics};
use crate::qdrant::{IndexSummary, ScoredPoint, SearchFilterArgs, SearchTimeRange};
use crate::sanitize::{sanitize_tags, tags_of};
use crate::sanitize::{
    cleaned, extract_tags, extracted_tags, memory_type_of, project_id_of, sanitize_memory_type,
    sanitize_project_id, sanitize_string,
};
use crate::text::{opt_view, opt_views, owned, str_eq};
use vstd::prelude::*;

verus! {

/// A search result mapped from a stored payload.
#[derive(Debug, Clone)]
pub struct SearchHit<S> {
    /// Point identifier.
    pub id: String,
    /// Similarity score, as Qdrant returned it.
    pub score: S,
    /// Trimmed chunk text.
    pub text: Option<String>,
    /// Normalised project identifier.
    pub project_id: Option<String>,
    /// Normalised memory type.
    pub memory_type: Option<String>,
    /// Tags stored with the chunk.
    pub tags: Option<Vec<String>>,
    /// Trimmed ingestion timestamp.
    pub timestamp: Option<String>,
    /// Trimmed source URI.
    pub source_uri: Option<String>,
}

/// The string stored under `key`, if the payload holds a string there.
pub open spec fn str_field(payload: Seq<(Seq<char>, JsonView)>, key: Seq<char>) -> Option<Seq<char>> {
    match lookup(payload, key) {
        Some(JsonView::Str(v)) => Some(v),
        _ => None,
    }
}

/// Reads a string field of a payload.
pub fn string_field(payload: &Vec<(String, Json)>, key: &str) -> (res: Option<String>)
    ensures
        opt_view(res) == str_field(entries_view(payload@), key@),
{
    match get_key(payload, key) {
        Some(Json::Str(v)) => Some(v.clone()),
        _ => None,
    }
}

/// The project identifier a hit reports: normalised when the payload holds a
/// string, absent otherwise.
pub open spec fn hit_project(payload: Seq<(Seq<char>, JsonView)>) -> Option<Seq<char>> {
    match str_field(payload, "project_id"@) {
        Some(v) => project_id_of(Some(v)),
        None => None,
    }
}

/// Maps a scored point into a search hit: text, timestamp and source URI are
/// trimmed (and dropped when blank), the project identifier and memory type are
/// normalised, and tags are read from an array or a single string.
pub fn map_scored_point<S>(point: ScoredPoint<S>) -> (hit: SearchHit<S>)
    ensures
        hit.id@ == point.id@,
        hit.score == point.score,
        match point.payload {
            Some(p) => {
                let e = entries_view(p@);
                &&& opt_view(hit.text) == cleaned(str_field(e, "text"@))
                &&& opt_view(hit.project_id) == hit_project(e)
                &&& opt_view(hit.memory_type) == memory_type_of(str_field(e, "memory_type"@))
                &&& opt_view(hit.timestamp) == cleaned(str_field(e, "timestamp"@))
                &&& opt_view(hit.source_uri) == cleaned(str_field(e, "source_uri"@))
                &&& opt_views(hit.tags) == extracted_tags(e)
            },
            None => {
                &&& hit.text is None
                &&& hit.project_id is None
                &&& hit.memory_type is None
                &&& hit.timestamp is None
                &&& hit.source_uri is None
                &&& hit.tags is None
            },
        },
{
    let ScoredPoint { id, score, payload } = point;
    match payload {
        Some(map) => {
            let text = sanitize_string(string_field(&map, "text"));
            let project_id = match string_field(&map, "project_id") {
                Some(v) => sanitize_project_id(Some(v)),
                None => None,
            };
            let memory_type = sanitize_memory_type(string_field(&map, "memory_type"));
            let timestamp = sanitize_string(string_field(&map, "timestamp"));
            let source_uri = sanitize_string(string_field(&map, "source_uri"));
            let tags = extract_tags(&map);
            SearchHit { id, score, text, project_id, memory_type, tags, timestamp, source_uri }
        },
        None => SearchHit {
            id,
            score,
            text: None,
            project_id: None,
            memory_type: None,
            tags: None,
            timestamp: None,
            source_uri: None,
        },
    }
}

/// Errors raised while indexing a document.
#[derive(Debug)]
pub enum ProcessingError {
    /// The document could not be chunked.
    Chunking(ChunkingError),
    /// Embeddings could not be generated.
    Embedding(EmbeddingClientError),
    /// Qdrant rejected a request.
    Qdrant(QdrantError),
}

/// Summary of an indexing run.
#[derive(Debug, Clone, Copy, PartialEq, Eq, Structural)]
pub struct ProcessingOutcome {
    /// Chunks written (inserted plus updated).
    pub chunk_count: usize,
    /// Chunk size used.
    pub chunk_size: usize,
    /// Chunks inserted as new points.
    pub inserted: usize,
    /// Chunks that replaced existing points.
    pub updated: usize,
    /// Chunks skipped as duplicates within the document.
    pub skipped_duplicates: usize,
}

/// A document cut into distinct chunks, ready to be embedded.
#[derive(Debug)]
pub struct DocumentPlan {
    /// The chunk size used.
    pub chunk_size: usize,
    /// Number of chunks the text produced, before blank and duplicate chunks
    /// are dropped.
    pub chunk_count: usize,
    /// The distinct non-blank chunks with their hashes, in document order.
    pub chunks: Vec<PreparedChunk>,
    /// Number of duplicate chunks dropped.
    pub skipped_duplicates: usize,
}

/// The chunks a document yields before deduplication: none for a blank text,
/// else the overlapped, budget-fitted semantic chunks counted with the model's
/// tokenizer.
pub open spec fn document_chunks(
    text: Seq<char>,
    chunk_size: usize,
    overlap: usize,
    model: Seq<char>,
) -> Seq<Seq<char>> {
    if is_blank(text) {
        Seq::empty()
    } else {
        final_chunks(
            text,
            chunk_size,
            overlap,
            TokenCounter::Bpe(resolved_encoding(tokenizer_target(model))),
        )
    }
}

/// Whether a document can be chunked with a chunk size: it is blank, or its
/// plain runs split cleanly under the model's tokenizer and no single
/// character alone exceeds the chunk size.
pub open spec fn document_chunkable(text: Seq<char>, chunk_size: usize, model: Seq<char>) -> bool {
    let counter = TokenCounter::Bpe(resolved_encoding(tokenizer_target(model)));
    is_blank(text) || (splits_cleanly(text, chunk_size, counter) && all_fit(
        fitted_chunks(text, chunk_size, counter),
        chunk_size as nat,
        counter,
    ))
}

/// Chooses the chunk size, chunks the document (overlap defaults to zero) and
/// drops blank and duplicate chunks.
///
/// Fails exactly when the text cannot be chunked, with `UnsplittableSegment`.
pub fn prepare_document(
    text: &str,
    chunk_size_override: Option<usize>,
    overlap: Option<usize>,
    provider: EmbeddingProvider,
    model: &str,
    use_safe_defaults: bool,
) -> (res: Result<DocumentPlan, ChunkingError>)
    ensures
        ({
            let size = chunk_size_for(
                chunk_size_override,
                context_window(provider, model@),
                use_safe_defaults,
            );
            let chunks = document_chunks(
                text@,
                size,
                match overlap {
                    Some(o) => o,
                    None => 0,
                },
                model@,
            );
            &&& (res is Ok <==> document_chunkable(text@, size, model@))
            &&& (res matches Err(e) ==> e is UnsplittableSegment)
            &&& (res is Ok ==> all_fit(
                chunks,
                size as nat,
                TokenCounter::Bpe(resolved_encoding(tokenizer_target(model@))),
            ))
            &&& (res matches Ok(plan) ==> {
                &&& plan.chunk_size == size
                &&& plan.chunk_count == chunks.len()
                &&& size >= 1
                &&& plan.chunks@.map_values(|p: PreparedChunk| p.text@) == deduped(chunks).0
                &&& plan.skipped_duplicates == deduped(chunks).1
                &&& forall|i: int|
                    0 <= i < plan.chunks@.len() ==> #[trigger] plan.chunks@[i].chunk_hash@
                        == chunk_hash(plan.chunks@[i].text@)
            })
        }),
{
    let chunk_size = determine_chunk_size(chunk_size_override, provider, model, use_safe_defaults);
    proof {
        lemma_chunk_size_bounds(chunk_size_override, context_window(provider, model@));
    }
    let overlap_tokens = match overlap {
        Some(o) => o,
        None => 0,
    };
    let chunks = match chunk_text(text, chunk_size, overlap_tokens, provider, model) {
        Ok(c) => c,
        Err(e) => return Err(e),
    };
    let chunk_count = chunks.len();
    let (prepared, skipped) = dedupe_chunks(chunks);
    Ok(DocumentPlan { chunk_size, chunk_count, chunks: prepared, skipped_duplicates: skipped })
}

/// The texts of prepared chunks, in order, as handed to the embedding client.
pub fn chunk_texts(chunks: &Vec<PreparedChunk>) -> (res: Vec<String>)
    ensures
        views(res@) == chunks@.map_values(|p: PreparedChunk| p.text@),
{
    let mut out: Vec<String> = Vec::new();
    let mut i: usize = 0;
    while i < chunks.len()
        invariant
            i <= chunks.len(),
            views(out@) == chunks@.take(i as int).map_values(|p: PreparedChunk| p.text@),
        decreases chunks.len() - i,
    {
        out.push(chunks[i].text.clone());
        proof {
            assert(chunks@.take(i + 1).map_values(|p: PreparedChunk| p.text@) =~= chunks@.take(
                i as int,
            ).map_values(|p: PreparedChunk| p.text@).push(chunks@[i as int].text@));
            assert(views(out@) =~= views(out@.drop_last()).push(out@.last()@));
        }
        i = i + 1;
    }
    assert(chunks@.take(chunks.len() as int) =~= chunks@);
    out
}

/// Records an indexed document in the metrics and reports the outcome: the
/// chunk count is the number of chunks the document produced.
pub fn finish_indexing(
    metrics: &mut CodeMetrics,
    summary: IndexSummary,
    chunk_size: usize,
    chunk_count: usize,
    skipped_duplicates: usize,
) -> (outcome: ProcessingOutcome)
    ensures
        outcome == (ProcessingOutcome {
            chunk_count,
            chunk_size,
            inserted: summary.inserted,
            updated: summary.updated,
            skipped_duplicates,
        }),
        final(metrics).documents() == wrapping_add_u64(old(metrics).documents(), 1),
        final(metrics).chunks() == wrapping_add_u64(old(metrics).chunks(), chunk_count as u64),
        final(metrics).last_size() == chunk_size as u64,
{
    metrics.record_document(chunk_count as u64, chunk_size as u64);
    ProcessingOutcome {
        chunk_count,
        chunk_size,
        inserted: summary.inserted,
        updated: summary.updated,
        skipped_duplicates,
    }
}

/// Errors raised while searching.
#[derive(Debug)]
pub enum SearchError {
    /// Embeddings could not be generated.
    Embedding(EmbeddingClientError),
    /// Qdrant rejected the query.
    Qdrant(QdrantError),
    /// The query vector has the wrong number of components.
    DimensionMismatch {
        /// Configured dimension.
        expected: usize,
        /// Dimension of the vector produced.
        actual: usize,
    },
    /// The provider returned no vector for the query.
    EmptyEmbedding,
}

/// The collection a request targets: its own, else the default.
pub fn choose_collection(collection: Option<String>, default_collection: &str) -> (res: String)
    ensures
        res@ == match opt_view(collection) {
            Some(c) => c,
            None => default_collection@,
        },
{
    match collection {
        Some(c) => c,
        None => owned(default_collection),
    }
}

/// Checks the query embedding: the last vector returned is used, so there must
/// be one, with the configured number of components (`last_len` is its length).
pub fn check_query_embedding(last_len: Option<usize>, expected: usize) -> (res: Result<
    (),
    SearchError,
>)
    ensures
        match last_len {
            None => res matches Err(SearchError::EmptyEmbedding),
            Some(actual) => if actual == expected {
                res is Ok
            } else {
                res matches Err(SearchError::DimensionMismatch { expected: e, actual: a }) && e
                    == expected && a == actual
            },
        },
{
    match last_len {
        None => Err(SearchError::EmptyEmbedding),
        Some(actual) => if actual == expected {
            Ok(())
        } else {
            Err(SearchError::DimensionMismatch { expected, actual })
        },
    }
}

/// The number of results a search asks for: the requested limit (else the
/// default) clamped into `[1, max_limit]`.
pub open spec fn limit_for(limit: Option<usize>, default_limit: usize, max_limit: usize) -> usize {
    let wanted = match limit {
        Some(l) => l,
        None => default_limit,
    };
    if wanted < 1 {
        1
    } else if wanted > max_limit {
        max_limit
    } else {
        wanted
    }
}

/// Computes [`limit_for`].
pub fn effective_limit(limit: Option<usize>, default_limit: usize, max_limit: usize) -> (n: usize)
    requires
        max_limit >= 1,
    ensures
        n == limit_for(limit, default_limit, max_limit),
        1 <= n <= max_limit,
{
    let wanted = match limit {
        Some(l) => l,
        None => default_limit,
    };
    if wanted < 1 {
        1
    } else if wanted > max_limit {
        max_limit
    } else {
        wanted
    }
}

/// The filter arguments of a search: project identifier, memory type and tags
/// sanitised, the time range passed through.
pub fn search_filter_args(
    project_id: Option<String>,
    memory_type: Option<String>,
    tags: Option<Vec<String>>,
    time_range: Option<SearchTimeRange>,
) -> (res: SearchFilterArgs)
    ensures
        opt_view(res.project_id) == project_id_of(opt_view(project_id)),
        opt_view(res.memory_type) == memory_type_of(opt_view(memory_type)),
        opt_views(res.tags) == tags_of(opt_views(tags)),
        res.time_range == time_range,
{
    SearchFilterArgs {
        project_id: sanitize_project_id(project_id),
        memory_type: sanitize_memory_type(memory_type),
        tags: sanitize_tags(tags),
        time_range,
    }
}

/// Reachability of Qdrant as reported by the health resource.
#[derive(Debug, Clone, PartialEq, Eq)]
pub struct QdrantHealthSnapshot {
    /// Whether Qdrant answered.
    pub reachable: bool,
    /// Whether the default collection exists.
    pub default_collection_present: bool,
    /// The error text when Qdrant could not be reached.
    pub error: Option<String>,
}

/// Builds the health snapshot from the outcome of listing collections: the
/// collection names, or the text of the error.
pub fn health_from_listing(listing: Result<Vec<String>, String>, default_collection: &str) -> (res:
    QdrantHealthSnapshot)
    ensures
        match listing {
            Ok(names) => {
                &&& res.reachable
                &&& res.default_collection_present == views(names@).contains(default_collection@)
                &&& res.error is None
            },
            Err(message) => {
                &&& !res.reachable
                &&& !res.default_collection_present
                &&& opt_view(res.error) == Some(message@)
            },
        },
{
    match listing {
        Ok(names) => QdrantHealthSnapshot {
            reachable: true,
            default_collection_present: crate::text::contains_string(&names, default_collection),
            error: None,
        },
        Err(message) => QdrantHealthSnapshot {
            reachable: false,
            default_collection_present: false,
            error: Some(message),
        },
    }
}

} // verus!
