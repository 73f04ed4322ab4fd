//! The decisions of the summarisation pipeline.
//!
//! Summarising reads episodic memories from Qdrant, reuses an existing summary
//! with the same idempotency key, else asks the abstractive provider (falling
//! back to an extractive summary) and stores the result as a semantic memory.
//! The reads, the provider call and the writes happen outside; each step's
//! decision is a function here.
use crate::embedding::EmbeddingClientError;
use crate::json::{
    entries_view, key_index, lemma_key_index_absent, lemma_key_index_at, lemma_key_index_prefix,
    lemma_key_index_suffix, lookup, Json, JsonView,
};
use crate::qdrant::{payload_entries, OverridesView};
use crate::sanitize::cleaned;
use crate::processing::{str_field, string_field, ProcessingError};
use crate::qdrant::{
    build_search_filter, range_view, search_filter, PayloadOverrides, QdrantError, SearchFilterArgs,
    SearchTimeRange,
};
use crate::summarization::{SummarizationClientError, SummarizationProvider, SummarizationRequest};
use crate::summarize::{
    abstractive_prompt, build_abstractive_prompt, build_extractive_summary, chronological,
    compute_summary_key, extractive_summary, instant_of, sort_memories, summary_key, summary_tag,
    idempotency_tag, EpisodicMemory,
};
use crate::chunking::chunking_error_text;
use crate::text::{append_str, clone_strings, is_blank, is_blank_str, is_white, opt_view, opt_views, owned, trim, views};
use vstd::prelude::*;

verus! {

/// How a summary is produced.
#[derive(Debug, Clone, Copy, PartialEq, Eq, Structural)]
pub enum SummarizeStrategy {
    /// Abstractive when a provider is available, else extractive.
    Auto,
    /// Generated by the provider's model.
    Abstractive,
    /// Deterministic bullet extraction.
    Extractive,
}

/// The label reported for a requested strategy: `abstractive`, `extractive`, or
/// `auto` when none or `Auto` was requested.
pub open spec fn strategy_label(strategy: Option<SummarizeStrategy>) -> Seq<char> {
    match strategy {
        Some(SummarizeStrategy::Abstractive) => "abstractive"@,
        Some(SummarizeStrategy::Extractive) => "extractive"@,
        _ => "auto"@,
    }
}

/// Renders [`strategy_label`].
pub fn strategy_to_label(strategy: Option<SummarizeStrategy>) -> (res: String)
    ensures
        res@ == strategy_label(strategy),
{
    match strategy {
        Some(SummarizeStrategy::Abstractive) => owned("abstractive"),
        Some(SummarizeStrategy::Extractive) => owned("extractive"),
        _ => owned("auto"),
    }
}

/// The name of a strategy.
pub fn strategy_to_string(strategy: SummarizeStrategy) -> (res: &'static str)
    ensures
        res@ == strategy_label(Some(strategy)),
{
    match strategy {
        SummarizeStrategy::Auto => "auto",
        SummarizeStrategy::Abstractive => "abstractive",
        SummarizeStrategy::Extractive => "extractive",
    }
}

/// Input of a summarisation.
#[derive(Debug)]
pub struct SummarizeRequest {
    /// Project scope.
    pub project_id: Option<String>,
    /// Memory type summarised (episodic by default).
    pub memory_type: Option<String>,
    /// Tags the memories must carry (any of them).
    pub tags: Option<Vec<String>>,
    /// Time window; both ends are required.
    pub time_range: SearchTimeRange,
    /// Maximum number of memories summarised (50 by default).
    pub limit: Option<usize>,
    /// Requested strategy.
    pub strategy: Option<SummarizeStrategy>,
    /// Requested provider.
    pub provider: Option<String>,
    /// Requested model.
    pub model: Option<String>,
    /// Word budget.
    pub max_words: Option<usize>,
    /// Target collection.
    pub collection: Option<String>,
}

/// Errors of the summarisation pipeline.
#[derive(Debug)]
pub enum SummarizeError {
    /// The provider is unavailable.
    ProviderUnavailable(String),
    /// The summary could not be produced.
    GenerationFailed(String),
    /// No memory matched the scope.
    EmptyResult,
    /// The time range lacks a start or an end.
    InvalidTimeRange,
    /// Embedding the summary failed.
    Embedding(EmbeddingClientError),
    /// Qdrant rejected a request.
    Qdrant(QdrantError),
}

/// Result of a summarisation.
#[derive(Debug, Clone)]
pub struct SummarizeOutcome {
    /// The summary text.
    pub summary: String,
    /// Identifiers of the memories summarised.
    pub source_memory_ids: Vec<String>,
    /// Identifier of the stored summary.
    pub upserted_memory_id: String,
    /// The strategy reported.
    pub strategy_used: String,
    /// The provider reported.
    pub provider: Option<String>,
    /// The model reported.
    pub model: Option<String>,
}

/// Where the memories to summarise are read from.
#[derive(Debug)]
pub struct SummaryScope {
    /// Collection read and written.
    pub collection: String,
    /// Filter selecting the memories.
    pub filter: Option<Json>,
}

/// The model of an optional JSON value.
pub open spec fn opt_json(v: Option<Json>) -> Option<JsonView> {
    match v {
        Some(j) => Some(j.view()),
        None => None,
    }
}

/// The memory type summarised: the requested one, else `episodic`.
pub open spec fn scope_memory_type(memory_type: Option<Seq<char>>) -> Option<Seq<char>> {
    match memory_type {
        Some(m) => Some(m),
        None => Some("episodic"@),
    }
}

fn project_or_default(project_id: &Option<String>) -> (res: String)
    ensures
        res@ == key_project(opt_view(*project_id)),
{
    match project_id {
        Some(p) => p.clone(),
        None => owned("default"),
    }
}

/// Decides where to read memories from: the request's collection (else the
/// default one) and a filter on project (`default` when none is given), memory
/// type, tags and the time range.  A range without a start or an end is refused;
/// any other request has a scope.
pub fn summary_scope(request: &SummarizeRequest, default_collection: &str) -> (res: Result<
    SummaryScope,
    SummarizeError,
>)
    ensures
        request.time_range.start is None || request.time_range.end is None <==> res matches Err(
            SummarizeError::InvalidTimeRange,
        ),
        request.time_range.start is Some && request.time_range.end is Some ==> res is Ok,
        res matches Ok(scope) ==> {
            &&& scope.collection@ == match opt_view(request.collection) {
                Some(c) => c,
                None => default_collection@,
            }
            &&& opt_json(scope.filter) == search_filter(
                Some(key_project(opt_view(request.project_id))),
                scope_memory_type(opt_view(request.memory_type)),
                opt_views(request.tags),
                Some((opt_view(request.time_range.start), opt_view(request.time_range.end))),
            )
        },
{
    if request.time_range.start.is_none() || request.time_range.end.is_none() {
        return Err(SummarizeError::InvalidTimeRange);
    }
    let collection = match &request.collection {
        Some(c) => c.clone(),
        None => owned(default_collection),
    };
    let memory_type = match &request.memory_type {
        Some(m) => Some(m.clone()),
        None => Some(owned("episodic")),
    };
    let tags = match &request.tags {
        Some(t) => Some(clone_strings(t)),
        None => None,
    };
    let args = SearchFilterArgs {
        project_id: Some(project_or_default(&request.project_id)),
        memory_type,
        tags,
        time_range: Some(
            SearchTimeRange {
                start: request.time_range.start.clone(),
                end: request.time_range.end.clone(),
            },
        ),
    };
    let filter = build_search_filter(&args);
    Ok(SummaryScope { collection, filter })
}

/// The text a stored payload holds (empty when it holds none).
pub open spec fn payload_text(p: Seq<(Seq<char>, JsonView)>) -> Seq<char> {
    match str_field(p, "text"@) {
        Some(t) => t,
        None => Seq::empty(),
    }
}

/// Reads an episodic memory from a stored point: none when its text is blank.
pub fn payload_memory(memory_id: String, payload: &Vec<(String, Json)>) -> (res: Option<
    EpisodicMemory,
>)
    ensures
        is_blank(payload_text(entries_view(payload@))) <==> res is None,
        res matches Some(m) ==> {
            &&& m.memory_id@ == memory_id@
            &&& m.text@ == payload_text(entries_view(payload@))
            &&& opt_view(m.timestamp) == str_field(entries_view(payload@), "timestamp"@)
            &&& match m.parsed_timestamp {
                Some(n) => instant_of(opt_view(m.timestamp)) == Some(n as int),
                None => instant_of(opt_view(m.timestamp)) is None,
            }
        },
{
    let text = match string_field(payload, "text") {
        Some(t) => t,
        None => String::new(),
    };
    if is_blank_str(text.as_str()) {
        return None;
    }
    let timestamp = string_field(payload, "timestamp");
    Some(EpisodicMemory::new(memory_id, text, timestamp))
}

/// The identifier, text and timestamp of a memory.
pub open spec fn memory_view(m: EpisodicMemory) -> (Seq<char>, Seq<char>, Option<Seq<char>>) {
    (m.memory_id@, m.text@, opt_view(m.timestamp))
}

/// Whether a memory's parsed instant is the instant of its timestamp.
pub open spec fn parsed_consistent(m: EpisodicMemory) -> bool {
    match m.parsed_timestamp {
        Some(n) => instant_of(opt_view(m.timestamp)) == Some(n as int),
        None => instant_of(opt_view(m.timestamp)) is None,
    }
}

/// The identifier, text and timestamp of each scrolled point with a non-blank
/// text, in order.
pub open spec fn episodic_views(entries: Seq<(String, Vec<(String, Json)>)>) -> Seq<
    (Seq<char>, Seq<char>, Option<Seq<char>>),
>
    decreases entries.len(),
{
    if entries.len() == 0 {
        Seq::empty()
    } else {
        let before = episodic_views(entries.drop_last());
        let p = entries_view(entries.last().1@);
        if is_blank(payload_text(p)) {
            before
        } else {
            before.push((entries.last().0@, payload_text(p), str_field(p, "timestamp"@)))
        }
    }
}

/// Reads the episodic memories of scrolled points, in order, skipping blank ones.
pub fn episodic_memories(entries: Vec<(String, Vec<(String, Json)>)>) -> (res: Vec<EpisodicMemory>)
    ensures
        res@.map_values(|m: EpisodicMemory| memory_view(m)) == episodic_views(entries@),
        forall|i: int| 0 <= i < res@.len() ==> parsed_consistent(#[trigger] res@[i]),
{
    let mut out: Vec<EpisodicMemory> = Vec::new();
    let mut i: usize = 0;
    while i < entries.len()
        invariant
            i <= entries.len(),
            out@.map_values(|m: EpisodicMemory| memory_view(m)) == episodic_views(
                entries@.take(i as int),
            ),
            forall|k: int| 0 <= k < out@.len() ==> parsed_consistent(#[trigger] out@[k]),
        decreases entries.len() - i,
    {
        let ghost pre = entries@.take(i + 1);
        assert(pre.drop_last() =~= entries@.take(i as int));
        let ghost before = out@;
        let id = entries[i].0.clone();
        match payload_memory(id, &entries[i].1) {
            Some(m) => {
                out.push(m);
                assert(out@.map_values(|m: EpisodicMemory| memory_view(m)) =~= before.map_values(
                    |m: EpisodicMemory| memory_view(m),
                ).push(memory_view(out@.last())));
            },
            None => {},
        }
        i = i + 1;
    }
    assert(entries@.take(entries.len() as int) =~= entries@);
    out
}

/// The number of memories a summary covers: at most `limit` (50 by default).
pub open spec fn selected_count(count: nat, limit: Option<usize>) -> nat {
    let l: nat = match limit {
        Some(l) => l as nat,
        None => 50,
    };
    if count < l {
        count
    } else {
        l
    }
}

/// Orders memories chronologically and keeps the first `limit` (50 by
/// default); refuses an empty selection.
pub fn select_episodic(items: Vec<EpisodicMemory>, limit: Option<usize>) -> (res: Result<
    Vec<EpisodicMemory>,
    SummarizeError,
>)
    ensures
        selected_count(items@.len(), limit) == 0 <==> res matches Err(SummarizeError::EmptyResult),
        res is Ok || res matches Err(SummarizeError::EmptyResult),
        res matches Ok(v) ==> exists|all: Seq<EpisodicMemory>|
            chronological(all) && all.to_multiset() == items@.to_multiset() && v@ == all.take(
                selected_count(items@.len(), limit) as int,
            ),
{
    let mut items = items;
    let ghost initial = items@;
    sort_memories(&mut items);
    proof {
        vstd::seq_lib::to_multiset_len(initial);
        vstd::seq_lib::to_multiset_len(items@);
    }
    let ghost sorted = items@;
    let cap = match limit {
        Some(l) => l,
        None => 50,
    };
    if items.len() > cap {
        items.truncate(cap);
    }
    assert(items@ =~= sorted.take(selected_count(initial.len(), limit) as int));
    if items.len() == 0 {
        return Err(SummarizeError::EmptyResult);
    }
    Ok(items)
}

/// The identity of a summary: the memories it covers, its idempotency key and
/// tag, and the filter that finds a summary already stored under that tag.
#[derive(Debug)]
pub struct SummaryIdentity {
    /// Identifiers of the memories summarised, in order.
    pub source_memory_ids: Vec<String>,
    /// The idempotency key.
    pub key: String,
    /// The tag `summary:<key>`.
    pub tag: String,
    /// Filter on semantic memories of the project carrying the tag.
    pub existing_filter: Option<Json>,
}

/// The project a summary is keyed by: the request's, else `default`.
pub open spec fn key_project(project_id: Option<Seq<char>>) -> Seq<char> {
    match project_id {
        Some(p) => p,
        None => "default"@,
    }
}

/// The filter finding semantic memories of a project that carry a tag.
pub open spec fn tagged_summary_filter(project_id: Option<Seq<char>>, tag: Seq<char>) -> Option<
    JsonView,
> {
    search_filter(project_id, Some("semantic"@), Some(seq![tag]), None)
}

/// Builds the filter finding semantic memories of a project that carry `tag`.
pub fn summary_lookup_filter(project_id: &Option<String>, tag: &str) -> (res: Option<Json>)
    ensures
        opt_json(res) == tagged_summary_filter(opt_view(*project_id), tag@),
{
    let ghost t = tag@;
    let tags = vec![owned(tag)];
    assert(views(tags@) =~= seq![t]);
    let args = SearchFilterArgs {
        project_id: project_id.clone(),
        memory_type: Some(owned("semantic")),
        tags: Some(tags),
        time_range: None,
    };
    build_search_filter(&args)
}

/// Computes the identity of a summary of `items`.
pub fn summary_identity(request: &SummarizeRequest, items: &Vec<EpisodicMemory>) -> (res:
    SummaryIdentity)
    ensures
        views(res.source_memory_ids@) == items@.map_values(|m: EpisodicMemory| m.memory_id@),
        res.key@ == summary_key(
            key_project(opt_view(request.project_id)),
            opt_view(request.time_range.start),
            opt_view(request.time_range.end),
            views(res.source_memory_ids@),
        ),
        res.tag@ == summary_tag(res.key@),
        opt_json(res.existing_filter) == tagged_summary_filter(
            Some(key_project(opt_view(request.project_id))),
            res.tag@,
        ),
{
    let mut ids: Vec<String> = Vec::new();
    let mut i: usize = 0;
    while i < items.len()
        invariant
            i <= items.len(),
            views(ids@) == items@.take(i as int).map_values(|m: EpisodicMemory| m.memory_id@),
        decreases items.len() - i,
    {
        ids.push(items[i].memory_id.clone());
        assert(items@.take(i + 1).map_values(|m: EpisodicMemory| m.memory_id@) =~= items@.take(
            i as int,
        ).map_values(|m: EpisodicMemory| m.memory_id@).push(items@[i as int].memory_id@));
        assert(views(ids@) =~= views(ids@.drop_last()).push(ids@.last()@));
        i = i + 1;
    }
    assert(items@.take(items.len() as int) =~= items@);
    let project = project_or_default(&request.project_id);
    let key = compute_summary_key(project.as_str(), &request.time_range, &ids);
    let tag = idempotency_tag(key.as_str());
    let existing_filter = summary_lookup_filter(&Some(project), tag.as_str());
    SummaryIdentity { source_memory_ids: ids, key, tag, existing_filter }
}

/// The outcome when a summary with the same key is already stored: its text
/// (empty when none), its identifier, and the request's strategy label,
/// provider and model.
pub fn existing_summary_outcome(
    existing_id: String,
    payload: &Vec<(String, Json)>,
    source_memory_ids: Vec<String>,
    request: &SummarizeRequest,
) -> (res: SummarizeOutcome)
    ensures
        res.summary@ == payload_text(entries_view(payload@)),
        views(res.source_memory_ids@) == views(source_memory_ids@),
        res.upserted_memory_id@ == existing_id@,
        res.strategy_used@ == strategy_label(request.strategy),
        opt_view(res.provider) == opt_view(request.provider),
        opt_view(res.model) == opt_view(request.model),
{
    let summary = match string_field(payload, "text") {
        Some(t) => t,
        None => String::new(),
    };
    SummarizeOutcome {
        summary,
        source_memory_ids,
        upserted_memory_id: existing_id,
        strategy_used: strategy_to_label(request.strategy),
        provider: request.provider.clone(),
        model: request.model.clone(),
    }
}

/// What the pipeline does before generating: the strategy requested (`Auto`
/// by default), the provider and model reported, the word budget, and the
/// provider request when an abstractive summary is attempted.
#[derive(Debug)]
pub struct GenerationPlan {
    /// The strategy requested.
    pub strategy: SummarizeStrategy,
    /// The provider reported.
    pub provider: Option<String>,
    /// The model reported.
    pub model: Option<String>,
    /// The word budget.
    pub max_words: usize,
    /// The abstractive request to send, if any.
    pub request: Option<SummarizationRequest>,
}

/// The requested strategy, `Auto` by default.
pub open spec fn chosen_strategy(strategy: Option<SummarizeStrategy>) -> SummarizeStrategy {
    match strategy {
        Some(s) => s,
        None => SummarizeStrategy::Auto,
    }
}

/// Whether an abstractive summary is attempted: the strategy allows it and the
/// Ollama provider is configured.
pub open spec fn tries_abstractive(
    strategy: Option<SummarizeStrategy>,
    provider: SummarizationProvider,
) -> bool {
    chosen_strategy(strategy) != SummarizeStrategy::Extractive && provider
        == SummarizationProvider::Ollama
}

/// Plans the generation step.  When an abstractive summary is attempted the
/// model defaults to the configured one and the provider to `ollama`; the
/// provider request is made when a model is known, with the prompt built from
/// the memories.
pub fn plan_generation(
    request: &SummarizeRequest,
    provider: SummarizationProvider,
    configured_model: &Option<String>,
    default_max_words: usize,
    items: &Vec<EpisodicMemory>,
) -> (res: GenerationPlan)
    ensures
        res.strategy == chosen_strategy(request.strategy),
        res.max_words == match request.max_words {
            Some(m) => m,
            None => default_max_words,
        },
        opt_view(res.model) == if tries_abstractive(request.strategy, provider)
            && request.model is None {
            opt_view(*configured_model)
        } else {
            opt_view(request.model)
        },
        opt_view(res.provider) == if tries_abstractive(request.strategy, provider)
            && request.provider is None {
            Some("ollama"@)
        } else {
            opt_view(request.provider)
        },
        res.request is Some <==> tries_abstractive(request.strategy, provider) && res.model is Some,
        res.request matches Some(r) ==> {
            &&& Some(r.model@) == opt_view(res.model)
            &&& r.max_words == res.max_words
            &&& r.prompt@ == abstractive_prompt(
                key_project(opt_view(request.project_id)),
                opt_view(request.time_range.start),
                opt_view(request.time_range.end),
                res.max_words as nat,
                items@,
            )
        },
{
    let strategy = match request.strategy {
        Some(s) => s,
        None => SummarizeStrategy::Auto,
    };
    let max_words = match request.max_words {
        Some(m) => m,
        None => default_max_words,
    };
    let mut model = request.model.clone();
    let mut provider_name = request.provider.clone();
    let mut llm_request: Option<SummarizationRequest> = None;
    let tries = strategy != SummarizeStrategy::Extractive && provider
        == SummarizationProvider::Ollama;
    if tries {
        if model.is_none() {
            model = configured_model.clone();
        }
        if provider_name.is_none() {
            provider_name = Some(owned("ollama"));
        }
        match &model {
            Some(m) => {
                let project = match &request.project_id {
                    Some(p) => p.clone(),
                    None => owned("default"),
                };
                let prompt = build_abstractive_prompt(
                    project.as_str(),
                    &request.time_range,
                    max_words,
                    items,
                );
                llm_request = Some(SummarizationRequest { model: m.clone(), prompt, max_words });
            },
            None => {},
        }
    }
    GenerationPlan { strategy, provider: provider_name, model, max_words, request: llm_request }
}

/// What the provider gave back, as plain text: `None` when it was not asked,
/// else the generated text or the detail of its error.
pub open spec fn generated_view(generated: Option<Result<String, SummarizationClientError>>) -> Option<
    Result<Seq<char>, Seq<char>>,
> {
    match generated {
        Some(Ok(t)) => Some(Ok(t@)),
        Some(Err(e)) => Some(Err(client_error_detail(e))),
        None => None,
    }
}

/// The detail a summarisation client error carries.
pub open spec fn client_error_detail(e: SummarizationClientError) -> Seq<char> {
    match e {
        SummarizationClientError::ProviderUnavailable(m) => m@,
        SummarizationClientError::GenerationFailed(m) => m@,
        SummarizationClientError::InvalidResponse(m) => m@,
    }
}

/// Why no abstractive text is available.
pub open spec fn unavailable_reason(generated: Option<Result<Seq<char>, Seq<char>>>) -> Seq<char> {
    match generated {
        Some(Err(m)) => m,
        _ => "no summarization provider or model is configured"@,
    }
}

/// The summary text and the strategy reported after generation, or why an
/// abstractive summary could not be made.  A provider reply makes the strategy
/// abstractive; its text is the summary, or the extractive summary when the
/// reply is empty.  Without a reply an explicitly abstractive request fails
/// (the provider is unavailable); otherwise the extractive summary is used and
/// `Auto` becomes `Extractive`.
pub open spec fn generated_summary(
    strategy: SummarizeStrategy,
    generated: Option<Result<Seq<char>, Seq<char>>>,
    items: Seq<EpisodicMemory>,
    max_words: nat,
) -> Result<(Seq<char>, SummarizeStrategy), Seq<char>> {
    match generated {
        Some(Ok(t)) => Ok(
            (
                if t.len() > 0 {
                    t
                } else {
                    extractive_summary(items, max_words)
                },
                SummarizeStrategy::Abstractive,
            ),
        ),
        _ => if strategy == SummarizeStrategy::Abstractive {
            Err(unavailable_reason(generated))
        } else {
            Ok(
                (
                    extractive_summary(items, max_words),
                    if strategy == SummarizeStrategy::Auto {
                        SummarizeStrategy::Extractive
                    } else {
                        strategy
                    },
                ),
            )
        },
    }
}

fn client_error_message(e: SummarizationClientError) -> (res: String)
    ensures
        res@ == client_error_detail(e),
{
    match e {
        SummarizationClientError::ProviderUnavailable(m) => m,
        SummarizationClientError::GenerationFailed(m) => m,
        SummarizationClientError::InvalidResponse(m) => m,
    }
}

/// Completes generation with what the provider returned (`None` when it was not
/// asked).
pub fn finish_generation(
    strategy: SummarizeStrategy,
    generated: Option<Result<String, SummarizationClientError>>,
    items: &Vec<EpisodicMemory>,
    max_words: usize,
) -> (res: Result<(String, SummarizeStrategy), SummarizeError>)
    ensures
        match generated_summary(strategy, generated_view(generated), items@, max_words as nat) {
            Ok((t, s)) => res matches Ok((rt, rs)) && rt@ == t && rs == s,
            Err(m) => res matches Err(SummarizeError::ProviderUnavailable(rm)) && rm@ == m,
        },
{
    let ghost g = generated_view(generated);
    let reason = match generated {
        Some(Ok(t)) => {
            if t.as_str().unicode_len() > 0 {
                return Ok((t, SummarizeStrategy::Abstractive));
            }
            return Ok((build_extractive_summary(items, max_words), SummarizeStrategy::Abstractive));
        },
        Some(Err(e)) => client_error_message(e),
        None => owned("no summarization provider or model is configured"),
    };
    if strategy == SummarizeStrategy::Abstractive {
        return Err(SummarizeError::ProviderUnavailable(reason));
    }
    let summary = build_extractive_summary(items, max_words);
    let reported = if strategy == SummarizeStrategy::Auto {
        SummarizeStrategy::Extractive
    } else {
        strategy
    };
    Ok((summary, reported))
}

/// The overrides a stored summary gets: the request's project, memory type
/// `semantic`, the request's tags plus `summary` and the idempotency tag, the
/// source memories and the key.
pub fn summary_overrides(request: &SummarizeRequest, identity: &SummaryIdentity) -> (res:
    PayloadOverrides)
    ensures
        opt_view(res.project_id) == opt_view(request.project_id),
        opt_view(res.memory_type) == Some("semantic"@),
        opt_views(res.tags) == Some(
            match opt_views(request.tags) {
                Some(t) => t,
                None => Seq::empty(),
            } + seq!["summary"@, identity.tag@],
        ),
        res.source_uri is None,
        opt_views(res.source_memory_ids) == Some(views(identity.source_memory_ids@)),
        opt_view(res.summary_key) == Some(identity.key@),
{
    let mut tags = match &request.tags {
        Some(t) => clone_strings(t),
        None => Vec::new(),
    };
    let ghost before = views(tags@);
    tags.push(owned("summary"));
    tags.push(identity.tag.clone());
    assert(views(tags@) =~= before + seq!["summary"@, identity.tag@]);
    PayloadOverrides {
        project_id: request.project_id.clone(),
        memory_type: Some(owned("semantic")),
        tags: Some(tags),
        source_uri: None,
        source_memory_ids: Some(clone_strings(&identity.source_memory_ids)),
        summary_key: Some(identity.key.clone()),
    }
}

/// The outcome of a new summary: the identifier found under its tag (empty when
/// none was found) and the strategy, provider and model reported.
pub fn summary_outcome(
    summary: String,
    source_memory_ids: Vec<String>,
    resolved_id: Option<String>,
    strategy: SummarizeStrategy,
    plan_provider: Option<String>,
    plan_model: Option<String>,
) -> (res: SummarizeOutcome)
    ensures
        res.summary@ == summary@,
        views(res.source_memory_ids@) == views(source_memory_ids@),
        res.upserted_memory_id@ == match opt_view(resolved_id) {
            Some(id) => id,
            None => Seq::empty(),
        },
        res.strategy_used@ == strategy_label(Some(strategy)),
        opt_view(res.provider) == opt_view(plan_provider),
        opt_view(res.model) == opt_view(plan_model),
{
    SummarizeOutcome {
        summary,
        source_memory_ids,
        upserted_memory_id: match resolved_id {
            Some(id) => id,
            None => String::new(),
        },
        strategy_used: strategy_to_label(Some(strategy)),
        provider: plan_provider,
        model: plan_model,
    }
}

/// Maps an error of ensuring the collection into a summarisation error.
pub fn summarize_error_from_processing(error: ProcessingError) -> (res: SummarizeError)
    ensures
        match error {
            ProcessingError::Qdrant(e) => res == SummarizeError::Qdrant(e),
            ProcessingError::Embedding(e) => res == SummarizeError::Embedding(e),
            ProcessingError::Chunking(e) => res matches SummarizeError::GenerationFailed(m) && m@
                == "chunking failed: "@ + chunking_error_text(e),
        },
{
    match error {
        ProcessingError::Qdrant(e) => SummarizeError::Qdrant(e),
        ProcessingError::Embedding(e) => SummarizeError::Embedding(e),
        ProcessingError::Chunking(e) => {
            let mut m = owned("chunking failed: ");
            let detail = e.message();
            append_str(&mut m, detail.as_str());
            SummarizeError::GenerationFailed(m)
        },
    }
}

/// Whether a stored payload meets the conditions of the idempotency lookup for
/// a project and tag: the project (when given) is stored, the memory type is
/// `semantic`, and the tags hold the tag.
pub open spec fn found_by_summary_lookup(
    p: Seq<(Seq<char>, JsonView)>,
    project_id: Option<Seq<char>>,
    tag: Seq<char>,
) -> bool {
    &&& match cleaned(Some(key_project(project_id))) {
        Some(q) => str_field(p, "project_id"@) == Some(q),
        None => true,
    }
    &&& str_field(p, "memory_type"@) == Some("semantic"@)
    &&& match lookup(p, "tags"@) {
        Some(JsonView::Array(items)) => items.contains(JsonView::Str(tag)),
        _ => false,
    }
}

/// A summary stored with the overrides [`summary_overrides`] gives is found by
/// the idempotency lookup of the same project and tag, so a repeated request
/// reuses it; it is also found as a semantic memory of the project tagged
/// `summary`.  A request without a project stores and looks up under
/// `default`.  (A project identifier with surrounding whitespace is left out:
/// the lookup trims it while the payload keeps it.)
pub proof fn lemma_stored_summary_is_found(
    memory_id: Seq<char>,
    text: Seq<char>,
    timestamp: Seq<char>,
    chunk_hash: Seq<char>,
    overrides: OverridesView,
    project_id: Option<Seq<char>>,
    request_tags: Seq<Seq<char>>,
    tag: Seq<char>,
)
    requires
        cleaned(project_id) == project_id,
        overrides.project_id == project_id,
        overrides.memory_type == Some("semantic"@),
        overrides.tags == Some(request_tags + seq!["summary"@, tag]),
    ensures
        found_by_summary_lookup(
            payload_entries(memory_id, text, timestamp, chunk_hash, overrides),
            project_id,
            tag,
        ),
        found_by_summary_lookup(
            payload_entries(memory_id, text, timestamp, chunk_hash, overrides),
            project_id,
            "summary"@,
        ),
{
    reveal_strlit("memory_id");
    reveal_strlit("default");
    assert(!is_white("default"@[0]) && !is_white("default"@.last()));
    assert(trim("default"@) == "default"@);
    reveal_strlit("project_id");
    reveal_strlit("memory_type");
    reveal_strlit("timestamp");
    reveal_strlit("chunk_hash");
    reveal_strlit("text");
    reveal_strlit("source_uri");
    reveal_strlit("tags");
    let e = payload_entries(memory_id, text, timestamp, chunk_hash, overrides);
    let o = overrides;
    let base = seq![
        ("memory_id"@, JsonView::Str(memory_id)),
        ("project_id"@, JsonView::Str(match o.project_id { Some(p) => p, None => "default"@ })),
        ("memory_type"@, JsonView::Str(match o.memory_type { Some(m) => m, None => "semantic"@ })),
        ("timestamp"@, JsonView::Str(timestamp)),
        ("chunk_hash"@, JsonView::Str(chunk_hash)),
        ("text"@, JsonView::Str(text)),
    ];
    let uri: Seq<(Seq<char>, JsonView)> = match o.source_uri {
        Some(u) => if u.len() > 0 {
            seq![("source_uri"@, JsonView::Str(u))]
        } else {
            Seq::empty()
        },
        None => Seq::empty(),
    };
    let t = request_tags + seq!["summary"@, tag];
    let tags_entry: Seq<(Seq<char>, JsonView)> = seq![("tags"@, crate::json::str_array_v(t))];
    let rest = e.subrange((base.len() + uri.len() + 1) as int, e.len() as int);
    assert(e =~= base + uri + tags_entry + rest);
    assert("memory_id"@[0] != "project_id"@[0]);
    lemma_key_index_at(base, "project_id"@, 1);
    lemma_key_index_prefix(base, uri + tags_entry + rest, "project_id"@);
    assert(base + (uri + tags_entry + rest) =~= e);
    assert("memory_id"@[7] != "memory_type"@[7]);
    assert("project_id"@[0] != "memory_type"@[0]);
    lemma_key_index_at(base, "memory_type"@, 2);
    lemma_key_index_prefix(base, uri + tags_entry + rest, "memory_type"@);
    let head = base + uri;
    assert forall|j: int| 0 <= j < head.len() implies head[j].0 != "tags"@ by {
        if j < 6 {
            assert(head[j] == base[j]);
        } else {
            assert(head[j] == uri[j - 6]);
        }
        if head[j].0 == "memory_id"@ || head[j].0 == "memory_type"@ {
            assert(head[j].0[0] != "tags"@[0]);
        } else if head[j].0 == "timestamp"@ || head[j].0 == "text"@ {
            assert(head[j].0[1] != "tags"@[1]);
        } else {
            assert(head[j].0.len() != "tags"@.len());
        }
    }
    lemma_key_index_absent(head, "tags"@);
    lemma_key_index_at(tags_entry, "tags"@, 0);
    lemma_key_index_prefix(tags_entry, rest, "tags"@);
    lemma_key_index_suffix(head, tags_entry + rest, "tags"@);
    assert(head + (tags_entry + rest) =~= e);
    let items = t.map_values(|s: Seq<char>| JsonView::Str(s));
    assert(items[items.len() - 1] == JsonView::Str(tag));
    assert(items[items.len() - 2] == JsonView::Str("summary"@));
}

} // verus!
