//! Chunk-size heuristics, token counting and overlap handling for semantic chunking.
//!
//! - Automatic sizing derives a token budget from the embedding model's context
//!   window and clamps it into `[256, 1024]`; an explicit override wins.
//! - Token counting uses a tiktoken byte-pair encoding when one can be resolved for
//!   the model, and a whitespace word counter otherwise.
//! - The semantic splitter's chunks are kept when they fit the token budget; one
//!   that does not is cut into consecutive pieces that do, preferably after
//!   whitespace.
//! - An optional sliding overlap prepends the tail of the previous chunk to each
//!   chunk, trimmed so that the result stays within the token budget.
use crate::config::EmbeddingProvider;
use crate::text::{
    append_str, chars_of, owned, contains, has_infix, has_prefix, has_suffix, is_blank, is_blank_str, is_white, is_white_char,
    is_ascii_text, ascii_lower, lemma_word_count_one, lower, skip_white, starts_with, str_eq, string_of_range,
    to_lowercase, trim, trim_start, trim_str, views, word_count,
};
use vstd::prelude::*;

verus! {

/// Smallest chunk size chosen automatically.
pub const MIN_AUTOMATIC_CHUNK_SIZE: usize = 256;

/// Largest chunk size chosen automatically.
pub const MAX_AUTOMATIC_CHUNK_SIZE: usize = 1024;

/// Errors produced while turning raw text into chunks.
#[derive(Debug)]
pub enum ChunkingError {
    /// Ingestion configured an impossible token budget.
    InvalidChunkSize,
    /// Tokenizer resources were unavailable for the configured model.
    Tokenizer {
        /// Embedding model whose tokenizer was requested.
        model: String,
        /// Description of the failure.
        message: String,
    },
    /// The text holds a run without whitespace or punctuation that is larger than
    /// the budget and that the semantic splitter cannot break into characters.
    UnsplittableSegment,
}

/// The text of a chunking error.
pub open spec fn chunking_error_text(e: ChunkingError) -> Seq<char> {
    match e {
        ChunkingError::InvalidChunkSize => "chunk size must be greater than zero"@,
        ChunkingError::Tokenizer { model, message } => "failed to initialize tokenizer for model '"@
            + model@ + "': "@ + message@,
        ChunkingError::UnsplittableSegment => "text holds a segment that cannot be split within the chunk size"@,
    }
}

impl ChunkingError {
    /// Describes the error.
    pub fn message(&self) -> (res: String)
        ensures
            res@ == chunking_error_text(*self),
    {
        match self {
            ChunkingError::InvalidChunkSize => owned("chunk size must be greater than zero"),
            ChunkingError::Tokenizer { model, message } => {
                let mut m = owned("failed to initialize tokenizer for model '");
                append_str(&mut m, model.as_str());
                append_str(&mut m, "': ");
                append_str(&mut m, message.as_str());
                m
            },
            ChunkingError::UnsplittableSegment => owned(
                "text holds a segment that cannot be split within the chunk size",
            ),
        }
    }
}

/// The byte-pair encodings known to tiktoken.
#[derive(Clone, Copy, Debug, PartialEq, Eq, Structural)]
pub enum Encoding {
    /// `o200k_harmony`.
    O200kHarmony,
    /// `o200k_base`.
    O200kBase,
    /// `cl100k_base`.
    Cl100kBase,
    /// `p50k_base`.
    P50kBase,
    /// `r50k_base`.
    R50kBase,
    /// `p50k_edit`.
    P50kEdit,
    /// `gpt2`.
    Gpt2,
}

/// How tokens are counted for chunking.
#[derive(Clone, Copy, Debug, PartialEq, Eq, Structural)]
pub enum TokenCounter {
    /// Whitespace-separated words; a non-empty text without words counts as one.
    Whitespace,
    /// Ordinary (no special tokens) byte-pair encoding with the given encoding.
    Bpe(Encoding),
}

/// What tiktoken's `get_tokenizer` returns for a model name.
pub uninterp spec fn model_tokenizer(model: Seq<char>) -> Option<Encoding>;

/// Number of tokens `CoreBPE::encode_ordinary` produces for a text.
pub uninterp spec fn bpe_token_count(encoding: Encoding, text: Seq<char>) -> nat;

/// What tiktoken's `model::get_context_size` returns for a model name.
pub uninterp spec fn model_context_size(model: Seq<char>) -> Option<usize>;

/// `tiktoken_rs::tokenizer::get_tokenizer`: the tokenizer registered for a model
/// name (exact names, then prefixes), or `None`.  The lookup is a fixed table, so
/// the result depends on the name alone; the table itself is not restated.
#[verifier::external_body]
fn tokenizer_for_model(model: &str) -> (res: Option<Encoding>)
    ensures
        res == model_tokenizer(model@),
{
    match tiktoken_rs::tokenizer::get_tokenizer(model) {
        Some(tiktoken_rs::tokenizer::Tokenizer::O200kHarmony) => Some(Encoding::O200kHarmony),
        Some(tiktoken_rs::tokenizer::Tokenizer::O200kBase) => Some(Encoding::O200kBase),
        Some(tiktoken_rs::tokenizer::Tokenizer::Cl100kBase) => Some(Encoding::Cl100kBase),
        Some(tiktoken_rs::tokenizer::Tokenizer::P50kBase) => Some(Encoding::P50kBase),
        Some(tiktoken_rs::tokenizer::Tokenizer::R50kBase) => Some(Encoding::R50kBase),
        Some(tiktoken_rs::tokenizer::Tokenizer::P50kEdit) => Some(Encoding::P50kEdit),
        Some(tiktoken_rs::tokenizer::Tokenizer::Gpt2) => Some(Encoding::Gpt2),
        None => None,
    }
}

/// `CoreBPE::encode_ordinary(text).len()` on the process-wide tiktoken singleton of
/// the encoding.  The count depends on the encoding and the text alone; the only
/// fact stated is that the empty text encodes to no tokens (the encoder's split
/// patterns match no empty piece).
#[verifier::external_body]
fn bpe_count(encoding: Encoding, text: &str) -> (n: usize)
    ensures
        n == bpe_token_count(encoding, text@),
        text@.len() == 0 ==> n == 0,
{
    let bpe = match encoding {
        Encoding::O200kHarmony => tiktoken_rs::o200k_harmony_singleton(),
        Encoding::O200kBase => tiktoken_rs::o200k_base_singleton(),
        Encoding::Cl100kBase => tiktoken_rs::cl100k_base_singleton(),
        Encoding::P50kBase => tiktoken_rs::p50k_base_singleton(),
        Encoding::R50kBase => tiktoken_rs::r50k_base_singleton(),
        Encoding::P50kEdit => tiktoken_rs::p50k_edit_singleton(),
        Encoding::Gpt2 => tiktoken_rs::r50k_base_singleton(),
    };
    bpe.encode_ordinary(text).len()
}

/// `tiktoken_rs::model::get_context_size`: the context window recorded for an
/// OpenAI model name, or `None` when the name is not recognised.  A fixed table of
/// prefixes, so a function of the name alone.
#[verifier::external_body]
fn context_size_for_model(model: &str) -> (res: Option<usize>)
    ensures
        res == model_context_size(model@),
{
    tiktoken_rs::model::get_context_size(model)
}

/// Token count of the whitespace counter.
pub open spec fn whitespace_tokens(s: Seq<char>) -> nat {
    if word_count(s) == 0 && s.len() > 0 {
        1
    } else {
        word_count(s)
    }
}

impl TokenCounter {
    /// The number of tokens this counter assigns to `s`; an empty text has none.
    pub open spec fn tokens(self, s: Seq<char>) -> nat {
        if s.len() == 0 {
            0
        } else {
            match self {
                TokenCounter::Whitespace => whitespace_tokens(s),
                TokenCounter::Bpe(e) => bpe_token_count(e, s),
            }
        }
    }

    /// Counts the tokens of `s`.
    pub fn count(&self, s: &str) -> (n: usize)
        ensures
            n == self.tokens(s@),
    {
        match self {
            TokenCounter::Whitespace => {
                let v = chars_of(s);
                let words = crate::text::count_words_chars(&v);
                if words == 0 && v.len() > 0 {
                    1
                } else {
                    words
                }
            },
            TokenCounter::Bpe(e) => if s.unicode_len() == 0 {
                0
            } else {
                bpe_count(*e, s)
            },
        }
    }
}

/// The whitespace token counter used when no tokenizer applies.
pub fn default_token_counter() -> (c: TokenCounter)
    ensures
        c == TokenCounter::Whitespace,
{
    TokenCounter::Whitespace
}

/// The encoding an encoding name selects (`gpt2` is an alias of `r50k_base`).
pub open spec fn encoding_named(name: Seq<char>) -> Option<Encoding> {
    if name == "cl100k_base"@ {
        Some(Encoding::Cl100kBase)
    } else if name == "o200k_base"@ {
        Some(Encoding::O200kBase)
    } else if name == "p50k_base"@ {
        Some(Encoding::P50kBase)
    } else if name == "p50k_edit"@ {
        Some(Encoding::P50kEdit)
    } else if name == "r50k_base"@ || name == "gpt2"@ {
        Some(Encoding::R50kBase)
    } else {
        None
    }
}

/// Looks an encoding up by its name.
pub fn encoding_from_name(name: &str) -> (res: Option<Encoding>)
    ensures
        res == encoding_named(name@),
{
    if str_eq(name, "cl100k_base") {
        Some(Encoding::Cl100kBase)
    } else if str_eq(name, "o200k_base") {
        Some(Encoding::O200kBase)
    } else if str_eq(name, "p50k_base") {
        Some(Encoding::P50kBase)
    } else if str_eq(name, "p50k_edit") {
        Some(Encoding::P50kEdit)
    } else if str_eq(name, "r50k_base") || str_eq(name, "gpt2") {
        Some(Encoding::R50kBase)
    } else {
        None
    }
}

/// The encoding used for a model: the model's registered tokenizer, else an
/// encoding of that name, else `cl100k_base`.
pub open spec fn resolved_encoding(model: Seq<char>) -> Encoding {
    match model_tokenizer(model) {
        Some(e) => e,
        None => match encoding_named(model) {
            Some(e) => e,
            None => Encoding::Cl100kBase,
        },
    }
}

/// Resolves the encoding for a model name or encoding name.
pub fn resolve_encoding(model: &str) -> (e: Encoding)
    ensures
        e == resolved_encoding(model@),
{
    match tokenizer_for_model(model) {
        Some(e) => e,
        None => match encoding_from_name(model) {
            Some(e) => e,
            None => Encoding::Cl100kBase,
        },
    }
}

/// The name a tiktoken counter is resolved from: the trimmed model, or
/// `cl100k_base` when the model is blank.
pub open spec fn tokenizer_target(model: Seq<char>) -> Seq<char> {
    if trim(model).len() == 0 {
        "cl100k_base"@
    } else {
        trim(model)
    }
}

/// Builds a byte-pair token counter for a model.
pub fn build_tiktoken_counter(model: &str) -> (c: TokenCounter)
    ensures
        c == TokenCounter::Bpe(resolved_encoding(tokenizer_target(model@))),
{
    let normalized = trim_str(model);
    if normalized.as_str().unicode_len() == 0 {
        TokenCounter::Bpe(resolve_encoding("cl100k_base"))
    } else {
        TokenCounter::Bpe(resolve_encoding(normalized.as_str()))
    }
}

/// Builds the token counter for a provider/model pair.  Every model resolves to a
/// byte-pair encoding (falling back to `cl100k_base`), so this never fails.
pub fn build_token_counter(provider: EmbeddingProvider, model: &str) -> (res: Result<
    TokenCounter,
    ChunkingError,
>)
    ensures
        (res matches Ok(c) && c == TokenCounter::Bpe(resolved_encoding(tokenizer_target(model@)))),
{
    match provider {
        EmbeddingProvider::OpenAI => Ok(build_tiktoken_counter(model)),
        EmbeddingProvider::Ollama => Ok(build_tiktoken_counter(model)),
    }
}

/// Context window of an OpenAI embedding model: `text-embedding-3*` and
/// `text-embedding-ada-002*` have 8192 tokens; other names use tiktoken's model
/// table, with 4096 for names it does not know.
pub open spec fn openai_window(model: Seq<char>) -> usize {
    if has_prefix(model, "text-embedding-3"@) || has_prefix(model, "text-embedding-ada-002"@) {
        8192
    } else {
        match model_context_size(model) {
            Some(n) => n,
            None => 4096,
        }
    }
}

/// Context window estimate for an Ollama embedding model, matched case-insensitively.
pub open spec fn ollama_window(model: Seq<char>) -> usize {
    let m = lower(model);
    if m == "nomic-embed-text"@ || m == "mxbai-embed-large"@ || m == "mxbai-embed-large-v1"@ {
        8192
    } else if has_infix(m, "all-minilm"@) {
        512
    } else if has_infix(m, "e5-large"@) {
        4096
    } else {
        4096
    }
}

/// Context window for a provider/model combination.
pub open spec fn context_window(provider: EmbeddingProvider, model: Seq<char>) -> usize {
    match provider {
        EmbeddingProvider::OpenAI => openai_window(model),
        EmbeddingProvider::Ollama => ollama_window(model),
    }
}

/// The Ollama window ignores ASCII case: two ASCII model names that differ only
/// in the case of their letters have the same window, one of 512, 4096 and
/// 8192.
pub proof fn lemma_ollama_window_ignores_case(a: Seq<char>, b: Seq<char>)
    requires
        is_ascii_text(a),
        is_ascii_text(b),
        ascii_lower(a) == ascii_lower(b),
    ensures
        ollama_window(a) == ollama_window(b),
        ollama_window(a) == 512 || ollama_window(a) == 4096 || ollama_window(a) == 8192,
{
}

fn openai_embedding_context_window(model: &str) -> (n: usize)
    ensures
        n == openai_window(model@),
{
    if starts_with(model, "text-embedding-3") {
        return 8192;
    }
    if starts_with(model, "text-embedding-ada-002") {
        return 8192;
    }
    match context_size_for_model(model) {
        Some(n) => n,
        None => 4096,
    }
}

fn ollama_embedding_context_window(model: &str) -> (n: usize)
    ensures
        n == ollama_window(model@),
{
    let normalized = to_lowercase(model);
    let m = normalized.as_str();
    if str_eq(m, "nomic-embed-text") || str_eq(m, "mxbai-embed-large") || str_eq(
        m,
        "mxbai-embed-large-v1",
    ) {
        8192
    } else if contains(m, "all-minilm") {
        512
    } else if contains(m, "e5-large") {
        4096
    } else {
        4096
    }
}

/// Looks up the embedding context window for a provider/model combination.
pub fn embedding_context_window(provider: EmbeddingProvider, model: &str) -> (n: usize)
    ensures
        n == context_window(provider, model@),
{
    match provider {
        EmbeddingProvider::OpenAI => openai_embedding_context_window(model),
        EmbeddingProvider::Ollama => ollama_embedding_context_window(model),
    }
}

/// The chunk size a request uses: an explicit override (at least 1), else a
/// quarter (an eighth with safe defaults) of the context window clamped into
/// `[256, 1024]`.
pub open spec fn chunk_size_for(
    override_size: Option<usize>,
    window: usize,
    use_safe_defaults: bool,
) -> usize {
    match override_size {
        Some(explicit) => if explicit >= 1 {
            explicit
        } else {
            1
        },
        None => {
            let base: int = if use_safe_defaults {
                window as int / 8
            } else {
                window as int / 4
            };
            if base < MIN_AUTOMATIC_CHUNK_SIZE {
                MIN_AUTOMATIC_CHUNK_SIZE
            } else if base > MAX_AUTOMATIC_CHUNK_SIZE {
                MAX_AUTOMATIC_CHUNK_SIZE
            } else {
                base as usize
            }
        },
    }
}

/// Determines the chunk size for a request, respecting overrides and safe defaults.
/// An explicit chunk size wins whatever the model's window and the
/// safe-defaults setting: a positive size is used as it is, zero is raised to
/// one.
pub proof fn lemma_override_wins(n: usize, window: usize, use_safe_defaults: bool)
    ensures
        n >= 1 ==> chunk_size_for(Some(n), window, use_safe_defaults) == n,
        n == 0 ==> chunk_size_for(Some(n), window, use_safe_defaults) == 1,
        chunk_size_for(Some(n), window, use_safe_defaults) == chunk_size_for(Some(n), 0, false),
{
}

pub fn determine_chunk_size(
    override_size: Option<usize>,
    provider: EmbeddingProvider,
    model: &str,
    use_safe_defaults: bool,
) -> (n: usize)
    ensures
        n == chunk_size_for(override_size, context_window(provider, model@), use_safe_defaults),
{
    if let Some(explicit) = override_size {
        return if explicit > 1 {
            explicit
        } else {
            1
        };
    }
    let window = embedding_context_window(provider, model);
    let divisor: usize = if use_safe_defaults {
        8
    } else {
        4
    };
    let quotient = window / divisor;
    let base = if quotient > 1 {
        quotient
    } else {
        1
    };
    let candidate = if base > MIN_AUTOMATIC_CHUNK_SIZE {
        base
    } else {
        MIN_AUTOMATIC_CHUNK_SIZE
    };
    if candidate > MAX_AUTOMATIC_CHUNK_SIZE {
        MAX_AUTOMATIC_CHUNK_SIZE
    } else {
        candidate
    }
}

/// A chunk size is never zero; without an override it lies in `[256, 1024]`, and
/// safe defaults never choose a larger size than the regular heuristic.
pub proof fn lemma_chunk_size_bounds(override_size: Option<usize>, window: usize)
    ensures
        chunk_size_for(override_size, window, true) >= 1,
        chunk_size_for(override_size, window, false) >= 1,
        override_size is None ==> MIN_AUTOMATIC_CHUNK_SIZE <= chunk_size_for(
            override_size,
            window,
            true,
        ) <= MAX_AUTOMATIC_CHUNK_SIZE,
        override_size is None ==> MIN_AUTOMATIC_CHUNK_SIZE <= chunk_size_for(
            override_size,
            window,
            false,
        ) <= MAX_AUTOMATIC_CHUNK_SIZE,
        chunk_size_for(override_size, window, true) <= chunk_size_for(
            override_size,
            window,
            false,
        ),
{
    assert(window / 8 <= window / 4) by (nonlinear_arith);
}

/// A larger context window never yields a smaller automatic chunk size.
pub proof fn lemma_chunk_size_monotone(w1: usize, w2: usize, safe: bool)
    requires
        w1 <= w2,
    ensures
        chunk_size_for(None, w1, safe) <= chunk_size_for(None, w2, safe),
{
    assert(w1 / 8 <= w2 / 8) by (nonlinear_arith)
        requires
            w1 <= w2,
    ;
    assert(w1 / 4 <= w2 / 4) by (nonlinear_arith)
        requires
            w1 <= w2,
    ;
}

/// The trimmed tail of `text` found by scanning start positions `k, k+1, ..,
/// text.len()`: the first `trim_start(text[k'..])` whose token count is within
/// `limit`, or the empty text when none is.
pub open spec fn tail_from(text: Seq<char>, k: int, limit: nat, counter: TokenCounter) -> Seq<
    char,
>
    decreases text.len() + 1 - k,
{
    if k < 0 || k > text.len() {
        Seq::empty()
    } else if counter.tokens(trim_start(text.skip(k))) <= limit {
        trim_start(text.skip(k))
    } else {
        tail_from(text, k + 1, limit, counter)
    }
}

/// The longest trimmed suffix of `text` (cut at a character boundary) holding at
/// most `limit` tokens; empty when `limit` is zero.
pub open spec fn token_tail(text: Seq<char>, limit: nat, counter: TokenCounter) -> Seq<char> {
    if limit == 0 {
        Seq::empty()
    } else {
        tail_from(text, 0, limit, counter)
    }
}

/// `text` when it fits `budget`, otherwise its longest trimmed proper suffix that
/// fits; empty when the budget is zero.
pub open spec fn budget_trim(text: Seq<char>, budget: nat, counter: TokenCounter) -> Seq<char> {
    if budget == 0 {
        Seq::empty()
    } else if counter.tokens(text) <= budget {
        text
    } else {
        tail_from(text, 1, budget, counter)
    }
}

/// Whether `s` starts with a whitespace character.
pub open spec fn starts_white(s: Seq<char>) -> bool {
    s.len() > 0 && is_white(s[0])
}

/// Whether `s` ends with a whitespace character.
pub open spec fn ends_white(s: Seq<char>) -> bool {
    s.len() > 0 && is_white(s.last())
}

/// `tail` followed by `current`, with one space between them when neither side
/// already supplies whitespace at the seam.
pub open spec fn joined(tail: Seq<char>, current: Seq<char>) -> Seq<char> {
    if tail.len() == 0 {
        current
    } else if !ends_white(tail) && !starts_white(current) {
        tail + seq![' '] + current
    } else {
        tail + current
    }
}

/// `current` prefixed with an overlap of at most `overlap` tokens from
/// `previous`, trimmed from the start to fit `chunk_size`.
pub open spec fn overlapped(
    previous: Seq<char>,
    current: Seq<char>,
    overlap: nat,
    chunk_size: nat,
    counter: TokenCounter,
) -> Seq<char> {
    if overlap == 0 {
        current
    } else {
        budget_trim(joined(token_tail(previous, overlap, counter), current), chunk_size, counter)
    }
}

/// The overlap actually applied: at most one token less than the chunk size.
pub open spec fn effective_overlap(overlap: nat, chunk_size: nat) -> nat {
    let cap: nat = if chunk_size >= 1 {
        (chunk_size - 1) as nat
    } else {
        0
    };
    if overlap <= cap {
        overlap
    } else {
        cap
    }
}

/// The chunks after applying the sliding overlap: the first chunk is kept and
/// each later chunk is [`overlapped`] with its unmodified predecessor.
pub open spec fn overlap_chunks(
    chunks: Seq<Seq<char>>,
    chunk_size: nat,
    overlap: nat,
    counter: TokenCounter,
) -> Seq<Seq<char>> {
    let eff = effective_overlap(overlap, chunk_size);
    if chunks.len() == 0 || eff == 0 {
        chunks
    } else {
        Seq::new(
            chunks.len(),
            |i: int|
                if i == 0 {
                    chunks[0]
                } else {
                    overlapped(chunks[i - 1], chunks[i], eff, chunk_size, counter)
                },
        )
    }
}

/// Whatever a scan for a tail returns is empty or within the limit.
pub proof fn lemma_tail_from_fits(text: Seq<char>, k: int, limit: nat, counter: TokenCounter)
    ensures
        tail_from(text, k, limit, counter).len() == 0 || counter.tokens(
            tail_from(text, k, limit, counter),
        ) <= limit,
    decreases text.len() + 1 - k,
{
    if 0 <= k <= text.len() && counter.tokens(trim_start(text.skip(k))) > limit {
        lemma_tail_from_fits(text, k + 1, limit, counter);
    }
}

/// Every chunk after the first that received an overlap is empty or fits the
/// chunk size.
pub proof fn lemma_overlap_respects_budget(
    chunks: Seq<Seq<char>>,
    chunk_size: nat,
    overlap: nat,
    counter: TokenCounter,
    i: int,
)
    requires
        1 <= i < chunks.len(),
        effective_overlap(overlap, chunk_size) > 0,
    ensures
        overlap_chunks(chunks, chunk_size, overlap, counter).len() == chunks.len(),
        overlap_chunks(chunks, chunk_size, overlap, counter)[0] == chunks[0],
        overlap_chunks(chunks, chunk_size, overlap, counter)[i].len() == 0 || counter.tokens(
            overlap_chunks(chunks, chunk_size, overlap, counter)[i],
        ) <= chunk_size,
{
    let eff = effective_overlap(overlap, chunk_size);
    let c = joined(token_tail(chunks[i - 1], eff, counter), chunks[i]);
    if counter.tokens(c) > chunk_size {
        lemma_tail_from_fits(c, 1, chunk_size, counter);
    }
}

/// `trim_start` drops a leading run: it is `s` without its first `a`
/// characters, for some `a`.
proof fn lemma_trim_start_drops(s: Seq<char>) -> (a: int)
    ensures
        0 <= a <= s.len(),
        trim_start(s) == s.skip(a),
        trim_start(trim_start(s)) == trim_start(s),
    decreases s.len(),
{
    if s.len() > 0 && is_white(s[0]) {
        let b = lemma_trim_start_drops(s.drop_first());
        assert(s.drop_first().skip(b) =~= s.skip(b + 1));
        b + 1
    } else {
        assert(s.skip(0) =~= s);
        0
    }
}

/// Whatever precedes a start-trimmed text, trimming the start of the whole
/// keeps that text at its end.
proof fn lemma_trim_start_keeps_suffix(x: Seq<char>, t: Seq<char>)
    requires
        trim_start(t) == t,
    ensures
        has_suffix(trim_start(x + t), t),
    decreases x.len(),
{
    if x.len() == 0 {
        assert(x + t =~= t);
        assert(t.skip(0) =~= t);
    } else if is_white(x[0]) {
        assert((x + t).drop_first() =~= x.drop_first() + t);
        assert((x + t)[0] == x[0]);
        lemma_trim_start_keeps_suffix(x.drop_first(), t);
    } else {
        assert((x + t)[0] == x[0]);
        assert((x + t).skip(x.len() as int) =~= t);
    }
}

/// Scanning from any start up to the position of a fitting start-trimmed
/// suffix `t` finds a text ending with `t`.
proof fn lemma_tail_from_keeps_suffix(c: Seq<char>, k: int, q: int, limit: nat, counter: TokenCounter)
    requires
        0 <= k <= q <= c.len(),
        trim_start(c.skip(q)) == c.skip(q),
        counter.tokens(c.skip(q)) <= limit,
    ensures
        has_suffix(tail_from(c, k, limit, counter), c.skip(q)),
    decreases q - k,
{
    let t = c.skip(q);
    assert(c.skip(k) =~= c.subrange(k, q) + t);
    lemma_trim_start_keeps_suffix(c.subrange(k, q), t);
    if counter.tokens(trim_start(c.skip(k))) > limit {
        if k == q {
            assert(false);
        }
        lemma_tail_from_keeps_suffix(c, k + 1, q, limit, counter);
    }
}

/// An overlapped chunk ends with its chunk trimmed at the start, whenever that
/// trimmed chunk fits the budget on its own.
pub proof fn lemma_overlapped_keeps_chunk(
    previous: Seq<char>,
    current: Seq<char>,
    overlap: nat,
    chunk_size: nat,
    counter: TokenCounter,
)
    requires
        chunk_size >= 1,
        counter.tokens(trim_start(current)) <= chunk_size,
    ensures
        has_suffix(overlapped(previous, current, overlap, chunk_size, counter), trim_start(current)),
{
    let a = lemma_trim_start_drops(current);
    let t = trim_start(current);
    let o = overlapped(previous, current, overlap, chunk_size, counter);
    assert(current.skip(a) == t);
    assert(has_suffix(current, t)) by {
        assert(current.skip(current.len() - t.len()) =~= t);
    }
    if overlap > 0 {
        let tail = token_tail(previous, overlap, counter);
        let c = joined(tail, current);
        let p = c.len() - current.len();
        assert(c.skip(p) =~= current) by {
            if tail.len() > 0 {
                if !ends_white(tail) && !starts_white(current) {
                    assert(c =~= (tail + seq![' ']) + current);
                }
            }
        }
        if counter.tokens(c) <= chunk_size {
            assert(o == c);
            assert(c.skip(c.len() - t.len()) =~= t);
        } else {
            let q = p + a;
            assert(c.skip(q) =~= t);
            if q == 0 {
                assert(c =~= t);
                assert(false);
            }
            lemma_tail_from_keeps_suffix(c, 1, q, chunk_size, counter);
        }
    }
}

/// Every chunk after the first keeps its own text, trimmed at the start, at its
/// end through the overlap, when each chunk so trimmed fits the budget.
pub proof fn lemma_overlap_keeps_chunks(
    chunks: Seq<Seq<char>>,
    chunk_size: nat,
    overlap: nat,
    counter: TokenCounter,
)
    requires
        chunk_size >= 1,
        forall|i: int| 0 <= i < chunks.len() ==> counter.tokens(trim_start(#[trigger] chunks[i])) <= chunk_size,
    ensures
        forall|i: int|
            1 <= i < chunks.len() ==> has_suffix(
                #[trigger] overlap_chunks(chunks, chunk_size, overlap, counter)[i],
                trim_start(chunks[i]),
            ),
{
    let oc = overlap_chunks(chunks, chunk_size, overlap, counter);
    let eff = effective_overlap(overlap, chunk_size);
    assert forall|i: int| 1 <= i < chunks.len() implies has_suffix(
        #[trigger] oc[i],
        trim_start(chunks[i]),
    ) by {
        if eff == 0 {
            let a = lemma_trim_start_drops(chunks[i]);
            let t = trim_start(chunks[i]);
            assert(chunks[i].skip(chunks[i].len() - t.len()) =~= t);
        } else {
            lemma_overlapped_keeps_chunk(chunks[i - 1], chunks[i], eff, chunk_size, counter);
        }
    }
}

/// Scans start positions from `start` for a tail of `v` within `limit` tokens.
fn scan_tail(v: &[char], start: usize, limit: usize, counter: &TokenCounter) -> (res: String)
    requires
        start <= v.len(),
    ensures
        res@ == tail_from(v@, start as int, limit as nat, *counter),
{
    let mut k: usize = start;
    loop
        invariant
            start <= k <= v.len(),
            tail_from(v@, start as int, limit as nat, *counter) == tail_from(
                v@,
                k as int,
                limit as nat,
                *counter,
            ),
        decreases v.len() - k,
    {
        let a = skip_white(v, k);
        let candidate = string_of_range(v, a, v.len());
        assert(v@.subrange(a as int, v@.len() as int) =~= v@.skip(a as int));
        if counter.count(candidate.as_str()) <= limit {
            return candidate;
        }
        if k == v.len() {
            assert(tail_from(v@, k + 1, limit as nat, *counter) == Seq::<char>::empty());
            return String::new();
        }
        k = k + 1;
    }
}

/// The longest trimmed suffix of `text` holding at most `token_limit` tokens.
pub fn tail_with_token_limit(text: &str, token_limit: usize, counter: &TokenCounter) -> (res:
    String)
    ensures
        res@ == token_tail(text@, token_limit as nat, *counter),
{
    if token_limit == 0 {
        return String::new();
    }
    let v = chars_of(text);
    scan_tail(&v, 0, token_limit, counter)
}

/// `text` trimmed from the start, character by character, until it fits
/// `token_budget` tokens.
pub fn trim_to_token_budget(text: &str, token_budget: usize, counter: &TokenCounter) -> (res:
    String)
    ensures
        res@ == budget_trim(text@, token_budget as nat, *counter),
{
    if token_budget == 0 {
        return String::new();
    }
    if counter.count(text) <= token_budget {
        return text.to_owned();
    }
    let v = chars_of(text);
    if v.len() == 0 {
        // Scanning starts one character in, which lies past the end of an empty text.
        assert(tail_from(v@, 1, token_budget as nat, *counter) == Seq::<char>::empty());
        return String::new();
    }
    scan_tail(&v, 1, token_budget, counter)
}

/// Whether `text` starts with whitespace.
pub fn starts_with_whitespace(text: &str) -> (b: bool)
    ensures
        b == starts_white(text@),
{
    let v = chars_of(text);
    v.len() > 0 && is_white_char(v[0])
}

/// Whether `text` ends with whitespace.
pub fn ends_with_whitespace(text: &str) -> (b: bool)
    ensures
        b == ends_white(text@),
{
    let v = chars_of(text);
    v.len() > 0 && is_white_char(v[v.len() - 1])
}

/// Builds one overlapped chunk from its predecessor.
pub fn build_overlapped_chunk(
    previous: &str,
    current: &str,
    overlap: usize,
    chunk_size: usize,
    counter: &TokenCounter,
) -> (res: String)
    ensures
        res@ == overlapped(previous@, current@, overlap as nat, chunk_size as nat, *counter),
{
    if overlap == 0 {
        return current.to_owned();
    }
    let tail = tail_with_token_limit(previous, overlap, counter);
    let mut combined = String::new();
    if tail.as_str().unicode_len() > 0 {
        combined.append(tail.as_str());
        if !ends_with_whitespace(tail.as_str()) && !starts_with_whitespace(current) {
            combined.append(" ");
        }
    }
    combined.append(current);
    proof {
        reveal_strlit(" ");
        let t = token_tail(previous@, overlap as nat, *counter);
        if t.len() > 0 {
            if !ends_white(t) && !starts_white(current@) {
                assert(combined@ =~= t + seq![' '] + current@);
            } else {
                assert(combined@ =~= t + current@);
            }
        } else {
            assert(combined@ =~= current@);
        }
    }
    trim_to_token_budget(combined.as_str(), chunk_size, counter)
}

/// Applies a token-limited overlap between each chunk and its predecessor.
///
/// Each chunk after the first keeps its own text, trimmed at the start, at its
/// end whenever every chunk so trimmed fits the budget.
pub fn apply_overlap(chunks: Vec<String>, chunk_size: usize, overlap: usize, counter: &TokenCounter)
    -> (res: Vec<String>)
    ensures
        views(res@) == overlap_chunks(views(chunks@), chunk_size as nat, overlap as nat, *counter),
        chunk_size >= 1 && (forall|i: int|
            0 <= i < chunks@.len() ==> counter.tokens(trim_start(#[trigger] chunks@[i]@))
                <= chunk_size) ==> forall|i: int|
            1 <= i < res@.len() ==> has_suffix(#[trigger] res@[i]@, trim_start(chunks@[i]@)),
{
    let ghost cs = views(chunks@);
    let ghost input = chunks@;
    let res = overlap_each(chunks, chunk_size, overlap, counter);
    proof {
        if chunk_size >= 1 && (forall|i: int|
            0 <= i < input.len() ==> counter.tokens(trim_start(#[trigger] input[i]@))
                <= chunk_size) {
            assert forall|i: int| 0 <= i < cs.len() implies counter.tokens(
                trim_start(#[trigger] cs[i]),
            ) <= chunk_size by {
                assert(cs[i] == input[i]@);
            }
            lemma_overlap_keeps_chunks(cs, chunk_size as nat, overlap as nat, *counter);
            lemma_overlap_fits(cs, chunk_size as nat, overlap as nat, *counter);
            assert(views(res@).len() == res@.len());
            assert forall|i: int| 1 <= i < res@.len() implies has_suffix(
                #[trigger] res@[i]@,
                trim_start(input[i]@),
            ) by {
                assert(views(res@)[i] == res@[i]@);
                assert(cs[i] == input[i]@);
            }
        }
    }
    res
}

fn overlap_each(chunks: Vec<String>, chunk_size: usize, overlap: usize, counter: &TokenCounter)
    -> (res: Vec<String>)
    ensures
        views(res@) == overlap_chunks(views(chunks@), chunk_size as nat, overlap as nat, *counter),
{
    if chunks.len() == 0 {
        return chunks;
    }
    let cap: usize = if chunk_size >= 1 {
        chunk_size - 1
    } else {
        0
    };
    let effective = if overlap <= cap {
        overlap
    } else {
        cap
    };
    if effective == 0 {
        return chunks;
    }
    let ghost input = views(chunks@);
    let ghost target = overlap_chunks(input, chunk_size as nat, overlap as nat, *counter);
    let mut out: Vec<String> = Vec::new();
    out.push(chunks[0].clone());
    let mut i: usize = 1;
    while i < chunks.len()
        invariant
            1 <= i <= chunks.len(),
            input == views(chunks@),
            target == overlap_chunks(input, chunk_size as nat, overlap as nat, *counter),
            effective == effective_overlap(overlap as nat, chunk_size as nat),
            effective > 0,
            out@.len() == i,
            forall|j: int| 0 <= j < i ==> #[trigger] out@[j]@ == target[j],
        decreases chunks.len() - i,
    {
        let next = build_overlapped_chunk(
            chunks[i - 1].as_str(),
            chunks[i].as_str(),
            effective,
            chunk_size,
            counter,
        );
        out.push(next);
        i = i + 1;
    }
    assert(views(out@) =~= target);
    out
}

/// The punctuation the semantic splitter may split on when a text holds no
/// whitespace (sentence terminators, clause separators, interrupters, joiners).
pub open spec fn is_split_punctuation(c: char) -> bool {
    ||| c == '.' || c == '?' || c == '!' || c == '*'
    ||| c == ';' || c == ',' || c == '(' || c == ')' || c == '[' || c == ']'
    ||| c == '\u{201c}' || c == '\u{201d}' || c == '\u{2018}' || c == '\u{2019}'
    ||| c == '\'' || c == '"' || c == '`'
    ||| c == ':' || c == '\u{2014}' || c == '\u{2026}'
    ||| c == '/' || c == '\\' || c == '\u{2013}' || c == '&' || c == '-'
}

/// Executable [`is_split_punctuation`].
fn is_split_punctuation_char(c: char) -> (b: bool)
    ensures
        b == is_split_punctuation(c),
{
    c == '.' || c == '?' || c == '!' || c == '*' || c == ';' || c == ',' || c == '(' || c == ')'
        || c == '[' || c == ']' || c == '\u{201c}' || c == '\u{201d}' || c == '\u{2018}' || c
        == '\u{2019}' || c == '\'' || c == '"' || c == '`' || c == ':' || c == '\u{2014}' || c
        == '\u{2026}' || c == '/' || c == '\\' || c == '\u{2013}' || c == '&' || c == '-'
}

/// A character the semantic splitter cannot split at.
pub open spec fn is_plain(c: char) -> bool {
    !is_white(c) && !is_split_punctuation(c)
}

/// `[i, j)` is a maximal non-empty run of plain characters of `s`.
pub open spec fn is_plain_run(s: Seq<char>, i: int, j: int) -> bool {
    &&& 0 <= i < j <= s.len()
    &&& forall|k: int| i <= k < j ==> is_plain(#[trigger] s[k])
    &&& (i == 0 || !is_plain(s[i - 1]))
    &&& (j == s.len() || !is_plain(s[j]))
}

/// Number of bytes beyond one that the UTF-8 encoding of `c` takes.
pub open spec fn utf8_extra(c: char) -> nat {
    if (c as u32) < 0x80 {
        0
    } else if (c as u32) < 0x800 {
        1
    } else if (c as u32) < 0x10000 {
        2
    } else {
        3
    }
}

/// Number of bytes by which the UTF-8 encoding of `s` exceeds its character count.
pub open spec fn extra_utf8_bytes(s: Seq<char>) -> nat
    decreases s.len(),
{
    if s.len() == 0 {
        0
    } else {
        extra_utf8_bytes(s.drop_last()) + utf8_extra(s.last())
    }
}

/// Executable [`utf8_extra`].
fn utf8_extra_of(c: char) -> (n: usize)
    ensures
        n == utf8_extra(c),
{
    let u = c as u32;
    if u < 0x80 {
        0
    } else if u < 0x800 {
        1
    } else if u < 0x10000 {
        2
    } else {
        3
    }
}

/// Whether a plain run is safe for the semantic splitter: it fits the budget, or
/// it can be split into single characters that each fit (the splitter does so by
/// byte index, which needs at most one extra UTF-8 byte over the characters).
pub open spec fn run_splits_cleanly(run: Seq<char>, chunk_size: usize, counter: TokenCounter) -> bool {
    ||| counter.tokens(run) <= chunk_size
    ||| (extra_utf8_bytes(run) <= 1 && forall|k: int|
        0 <= k < run.len() ==> counter.tokens(seq![#[trigger] run[k]]) <= chunk_size)
}

/// Whether every maximal plain run of `text` splits cleanly.
pub open spec fn runs_split_cleanly(text: Seq<char>, chunk_size: usize, counter: TokenCounter) -> bool {
    forall|i: int, j: int|
        #[trigger] is_plain_run(text, i, j) ==> run_splits_cleanly(
            text.subrange(i, j),
            chunk_size,
            counter,
        )
}

/// Whether the splitter's first pass handles `text`: a text that is one plain
/// run is split into single characters by byte index even when it fits the
/// budget, which needs at most one extra UTF-8 byte over its characters.
pub open spec fn whole_text_splits(text: Seq<char>) -> bool {
    is_plain_run(text, 0, text.len() as int) ==> extra_utf8_bytes(text) <= 1
}

/// Whether the semantic splitter handles `text` without failing: the text as a
/// whole passes the first split, and every maximal plain run splits cleanly.
pub open spec fn splits_cleanly(text: Seq<char>, chunk_size: usize, counter: TokenCounter) -> bool {
    &&& whole_text_splits(text)
    &&& runs_split_cleanly(text, chunk_size, counter)
}

/// What `semchunk_rs::Chunker::chunk` returns for a text, chunk size and counter.
pub uninterp spec fn semantic_chunks(text: Seq<char>, chunk_size: usize, counter: TokenCounter) -> Seq<
    Seq<char>,
>;

/// `semchunk_rs::Chunker::new(chunk_size, counter).chunk(text)`: recursive
/// semantic splitting at the most desirable separator (newline runs, tabs,
/// whitespace, then punctuation) with greedy merging under the token budget.  The
/// result depends on the text, the chunk size and the counter alone.
///
/// The source splits a separator-free text into single characters by slicing
/// `text.split("")` up to the text's byte length, which panics when the text
/// needs more than one extra UTF-8 byte.  It does so for the whole text at the
/// first pass (even when it fits the budget) and for every separator-free run
/// that exceeds the budget, and it recurses without end on a single character
/// that exceeds the budget; `splits_cleanly` excludes all three.  No bound on the
/// size of the produced chunks is stated.
#[verifier::external_body]
fn semantic_split(text: &str, chunk_size: usize, counter: TokenCounter) -> (res: Vec<String>)
    requires
        chunk_size >= 1,
        splits_cleanly(text@, chunk_size, counter),
    ensures
        views(res@) == semantic_chunks(text@, chunk_size, counter),
{
    let chunker = semchunk_rs::Chunker::new(chunk_size, Box::new(move |s: &str| counter.count(s)));
    chunker.chunk(text)
}

/// The whitespace counter counts every plain run as one token, so every text
/// that passes the splitter's first pass splits cleanly with it.
pub proof fn lemma_whitespace_splits_cleanly(text: Seq<char>, chunk_size: usize)
    requires
        chunk_size >= 1,
        whole_text_splits(text),
    ensures
        splits_cleanly(text, chunk_size, TokenCounter::Whitespace),
{
    assert forall|i: int, j: int| #[trigger] is_plain_run(text, i, j) implies run_splits_cleanly(
        text.subrange(i, j),
        chunk_size,
        TokenCounter::Whitespace,
    ) by {
        let run = text.subrange(i, j);
        assert forall|k: int| 0 <= k < run.len() implies !is_white(#[trigger] run[k]) by {
            assert(run[k] == text[i + k]);
        }
        lemma_word_count_one(run);
    }
}

/// Checks that a plain run `v[i..j]` splits cleanly.
fn check_run(v: &[char], i: usize, j: usize, chunk_size: usize, counter: &TokenCounter) -> (ok:
    bool)
    requires
        i < j <= v.len(),
    ensures
        ok == run_splits_cleanly(v@.subrange(i as int, j as int), chunk_size, *counter),
{
    let run = string_of_range(v, i, j);
    if counter.count(run.as_str()) <= chunk_size {
        return true;
    }
    let ghost r = v@.subrange(i as int, j as int);
    let mut extra: usize = 0;
    let mut e: usize = i;
    while e < j
        invariant
            i <= e <= j <= v.len(),
            r == v@.subrange(i as int, j as int),
            extra == extra_utf8_bytes(r.take(e - i)),
            extra <= 1,
            counter.tokens(r) > chunk_size,
        decreases j - e,
    {
        assert(r.take(e + 1 - i).drop_last() =~= r.take(e - i));
        assert(r.take(e + 1 - i).last() == v@[e as int]);
        extra = extra + utf8_extra_of(v[e]);
        if extra > 1 {
            proof {
                lemma_extra_prefix_monotone(r, e + 1 - i);
            }
            return false;
        }
        e = e + 1;
    }
    assert(r.take(j - i) =~= r);
    let mut k: usize = i;
    while k < j
        invariant
            i <= k <= j <= v.len(),
            r == v@.subrange(i as int, j as int),
            counter.tokens(r) > chunk_size,
            extra_utf8_bytes(r) <= 1,
            forall|m: int| 0 <= m < k - i ==> counter.tokens(seq![#[trigger] r[m]]) <= chunk_size,
        decreases j - k,
    {
        let single = string_of_range(v, k, k + 1);
        assert(v@.subrange(k as int, k + 1) =~= seq![r[k - i]]);
        if counter.count(single.as_str()) > chunk_size {
            assert(counter.tokens(seq![r[k - i]]) > chunk_size);
            return false;
        }
        k = k + 1;
    }
    true
}

/// The extra UTF-8 bytes of a prefix never exceed those of the whole sequence.
proof fn lemma_extra_prefix_monotone(s: Seq<char>, k: int)
    requires
        0 <= k <= s.len(),
    ensures
        extra_utf8_bytes(s.take(k)) <= extra_utf8_bytes(s),
    decreases s.len() - k,
{
    if k < s.len() {
        lemma_extra_prefix_monotone(s, k + 1);
        assert(s.take(k + 1).drop_last() =~= s.take(k));
    } else {
        assert(s.take(k) =~= s);
    }
}

/// Decides [`whole_text_splits`].
fn check_whole_text(v: &Vec<char>) -> (ok: bool)
    ensures
        ok == whole_text_splits(v@),
{
    let n = v.len();
    if n == 0 {
        return true;
    }
    let mut k: usize = 0;
    while k < n
        invariant
            n == v.len(),
            k <= n,
            forall|m: int| 0 <= m < k ==> is_plain(#[trigger] v@[m]),
        decreases n - k,
    {
        if is_white_char(v[k]) || is_split_punctuation_char(v[k]) {
            assert(!is_plain(v@[k as int]));
            return true;
        }
        k = k + 1;
    }
    assert(is_plain_run(v@, 0, n as int));
    let mut extra: usize = 0;
    let mut e: usize = 0;
    while e < n
        invariant
            e <= n,
            n == v.len(),
            extra == extra_utf8_bytes(v@.take(e as int)),
            extra <= 1,
            is_plain_run(v@, 0, n as int),
        decreases n - e,
    {
        assert(v@.take(e + 1).drop_last() =~= v@.take(e as int));
        extra = extra + utf8_extra_of(v[e]);
        if extra > 1 {
            proof {
                lemma_extra_prefix_monotone(v@, e + 1);
            }
            return false;
        }
        e = e + 1;
    }
    assert(v@.take(n as int) =~= v@);
    true
}

/// Decides [`splits_cleanly`]: the whole text, then every maximal plain run once.
pub fn check_splits_cleanly(text: &str, chunk_size: usize, counter: &TokenCounter) -> (ok: bool)
    ensures
        ok == splits_cleanly(text@, chunk_size, *counter),
{
    let v = chars_of(text);
    if !check_whole_text(&v) {
        return false;
    }
    check_runs(&v, chunk_size, counter)
}

/// Decides [`runs_split_cleanly`] by checking every maximal plain run once.
fn check_runs(v: &Vec<char>, chunk_size: usize, counter: &TokenCounter) -> (ok: bool)
    ensures
        ok == runs_split_cleanly(v@, chunk_size, *counter),
{
    let n = v.len();
    let mut i: usize = 0;
    while i < n
        invariant
            n == v.len(),
            i <= n,
            i == 0 || i == n || !is_plain(v@[i - 1]),
            forall|a: int, b: int|
                a < i && #[trigger] is_plain_run(v@, a, b) ==> run_splits_cleanly(
                    v@.subrange(a, b),
                    chunk_size,
                    *counter,
                ),
        decreases n - i,
    {
        if !is_white_char(v[i]) && !is_split_punctuation_char(v[i]) {
            let mut j: usize = i + 1;
            while j < n && !is_white_char(v[j]) && !is_split_punctuation_char(v[j])
                invariant
                    i < j <= n,
                    n == v.len(),
                    forall|k: int| i <= k < j ==> is_plain(#[trigger] v@[k]),
                decreases n - j,
            {
                j = j + 1;
            }
            assert(is_plain_run(v@, i as int, j as int));
            let ok = check_run(v, i, j, chunk_size, counter);
            if !ok {
                return false;
            }
            assert forall|a: int, b: int|
                a < (if j < n { j as int + 1 } else { j as int }) && #[trigger] is_plain_run(v@, a, b)
                implies run_splits_cleanly(v@.subrange(a, b), chunk_size, *counter) by {
                if a >= i {
                    if a > i && a < j {
                        assert(is_plain(v@[a - 1]));
                    } else if a == i {
                        if b < j {
                            assert(is_plain(v@[b]));
                        } else if b > j {
                            assert(is_plain(v@[j as int]));
                        }
                    }
                }
            }
            if j < n {
                i = j + 1;
            } else {
                i = j;
            }
        } else {
            i = i + 1;
        }
    }
    true
}

/// Whether every text holds at most `chunk_size` tokens.
pub open spec fn all_fit(cs: Seq<Seq<char>>, chunk_size: nat, counter: TokenCounter) -> bool {
    forall|i: int| 0 <= i < cs.len() ==> counter.tokens(#[trigger] cs[i]) <= chunk_size
}

/// Whether every text holds at most `chunk_size` tokens or is a single
/// character, which cannot be cut further.
pub open spec fn all_fit_or_single(cs: Seq<Seq<char>>, chunk_size: nat, counter: TokenCounter) -> bool {
    forall|i: int|
        0 <= i < cs.len() ==> counter.tokens(#[trigger] cs[i]) <= chunk_size || cs[i].len() == 1
}

/// The length of the prefix of `s` reached by growing it from length `k` one
/// character at a time while the grown prefix still fits `chunk_size`.
pub open spec fn grow_fit(s: Seq<char>, chunk_size: nat, counter: TokenCounter, k: nat) -> nat
    decreases s.len() - k,
{
    if k < s.len() && counter.tokens(s.take((k + 1) as int)) <= chunk_size {
        grow_fit(s, chunk_size, counter, k + 1)
    } else {
        k
    }
}

/// The end of the last whitespace character among the first `k` of `s` (zero
/// when there is none).
pub open spec fn white_end(s: Seq<char>, k: int) -> int
    decreases k,
{
    if k <= 0 {
        0
    } else if is_white(s[k - 1]) {
        k
    } else {
        white_end(s, k - 1)
    }
}

/// How many characters the next piece of a non-empty over-budget text takes:
/// the longest prefix grown within the budget, cut back after its last
/// whitespace when the text goes on and the prefix holds whitespace; a single
/// character when not even one fits.
pub open spec fn piece_len(s: Seq<char>, chunk_size: nat, counter: TokenCounter) -> nat {
    let k = grow_fit(s, chunk_size, counter, 0);
    if k == 0 {
        1
    } else if k == s.len() || white_end(s, k as int) == 0 {
        k
    } else {
        white_end(s, k as int) as nat
    }
}

/// Bounds of [`grow_fit`], and every prefix it grows through fits.
pub proof fn lemma_grow_fit(s: Seq<char>, chunk_size: nat, counter: TokenCounter, k: nat)
    requires
        k <= s.len(),
    ensures
        k <= grow_fit(s, chunk_size, counter, k) <= s.len(),
        forall|j: int|
            k < j <= grow_fit(s, chunk_size, counter, k) ==> counter.tokens(#[trigger] s.take(j))
                <= chunk_size,
    decreases s.len() - k,
{
    if k < s.len() && counter.tokens(s.take((k + 1) as int)) <= chunk_size {
        lemma_grow_fit(s, chunk_size, counter, k + 1);
    }
}

/// [`white_end`] lies within the first `k` characters.
pub proof fn lemma_white_end(s: Seq<char>, k: int)
    ensures
        k >= 0 ==> 0 <= white_end(s, k) <= k,
    decreases k,
{
    if k > 0 && !is_white(s[k - 1]) {
        lemma_white_end(s, k - 1);
    }
}

/// A piece takes at least one and at most all characters of a non-empty text,
/// and fits the budget unless it is a single character.
pub proof fn lemma_piece_len(s: Seq<char>, chunk_size: nat, counter: TokenCounter)
    requires
        s.len() > 0,
    ensures
        1 <= piece_len(s, chunk_size, counter) <= s.len(),
        counter.tokens(s.take(piece_len(s, chunk_size, counter) as int)) <= chunk_size
            || piece_len(s, chunk_size, counter) == 1,
{
    let k = grow_fit(s, chunk_size, counter, 0);
    lemma_grow_fit(s, chunk_size, counter, 0);
    lemma_white_end(s, k as int);
    let n = piece_len(s, chunk_size, counter);
    if k > 0 {
        assert(counter.tokens(s.take(n as int)) <= chunk_size);
    }
}

/// An over-budget text cut into consecutive pieces, each the [`piece_len`]
/// prefix of what remains.
pub open spec fn pieces(s: Seq<char>, chunk_size: nat, counter: TokenCounter) -> Seq<Seq<char>>
    decreases s.len(),
{
    if s.len() == 0 {
        Seq::empty()
    } else {
        let n = piece_len(s, chunk_size, counter);
        proof {
            lemma_piece_len(s, chunk_size, counter);
        }
        seq![s.take(n as int)] + pieces(s.skip(n as int), chunk_size, counter)
    }
}

/// The pieces of a text join back into it, and each fits the budget or is a
/// single character.
pub proof fn lemma_pieces(s: Seq<char>, chunk_size: nat, counter: TokenCounter)
    ensures
        pieces(s, chunk_size, counter).flatten() == s,
        all_fit_or_single(pieces(s, chunk_size, counter), chunk_size, counter),
    decreases s.len(),
{
    if s.len() > 0 {
        let n = piece_len(s, chunk_size, counter);
        lemma_piece_len(s, chunk_size, counter);
        let rest = s.skip(n as int);
        lemma_pieces(rest, chunk_size, counter);
        let p = pieces(s, chunk_size, counter);
        let q = pieces(rest, chunk_size, counter);
        assert(p == seq![s.take(n as int)] + q);
        assert(p.drop_first() =~= q);
        assert(p.first() == s.take(n as int));
        assert(s.take(n as int) + rest =~= s);
        assert forall|i: int| 0 <= i < p.len() implies counter.tokens(#[trigger] p[i])
            <= chunk_size || p[i].len() == 1 by {
            if i > 0 {
                assert(p[i] == q[i - 1]);
            }
        }
    } else {
        assert(pieces(s, chunk_size, counter) =~= Seq::<Seq<char>>::empty());
    }
}

/// A chunk kept as it is when it fits the budget, otherwise cut into
/// [`pieces`].
pub open spec fn fit_chunk(c: Seq<char>, chunk_size: nat, counter: TokenCounter) -> Seq<Seq<char>> {
    if counter.tokens(c) <= chunk_size {
        seq![c]
    } else {
        pieces(c, chunk_size, counter)
    }
}

/// Every chunk brought within the budget, in order.
pub open spec fn fit_chunks(cs: Seq<Seq<char>>, chunk_size: nat, counter: TokenCounter) -> Seq<
    Seq<char>,
>
    decreases cs.len(),
{
    if cs.len() == 0 {
        Seq::empty()
    } else {
        fit_chunks(cs.drop_last(), chunk_size, counter) + fit_chunk(cs.last(), chunk_size, counter)
    }
}

/// Fitted chunks hold at most `chunk_size` tokens each, unless a single
/// character alone exceeds it.
pub proof fn lemma_fit_chunks(cs: Seq<Seq<char>>, chunk_size: nat, counter: TokenCounter)
    ensures
        all_fit_or_single(fit_chunks(cs, chunk_size, counter), chunk_size, counter),
    decreases cs.len(),
{
    if cs.len() > 0 {
        lemma_fit_chunks(cs.drop_last(), chunk_size, counter);
        let a = fit_chunks(cs.drop_last(), chunk_size, counter);
        let b = fit_chunk(cs.last(), chunk_size, counter);
        if counter.tokens(cs.last()) > chunk_size {
            lemma_pieces(cs.last(), chunk_size, counter);
        }
        let f = a + b;
        assert forall|i: int| 0 <= i < f.len() implies counter.tokens(#[trigger] f[i])
            <= chunk_size || f[i].len() == 1 by {
            if i < a.len() {
                assert(f[i] == a[i]);
            } else {
                assert(f[i] == b[i - a.len()]);
            }
        }
    }
}

/// With the whitespace counter a single character holds at most one token, so
/// fitted chunks always fit a positive budget.
pub proof fn lemma_single_char_fits_whitespace(s: Seq<char>, chunk_size: nat)
    requires
        s.len() == 1,
        chunk_size >= 1,
    ensures
        TokenCounter::Whitespace.tokens(s) <= chunk_size,
{
    crate::text::lemma_word_count_bound(s);
}

/// The overlap keeps every chunk it changes within the budget: each overlapped
/// chunk is its input chunk or fits.
pub proof fn lemma_overlap_fits(cs: Seq<Seq<char>>, chunk_size: nat, overlap: nat, counter: TokenCounter)
    ensures
        overlap_chunks(cs, chunk_size, overlap, counter).len() == cs.len(),
        forall|i: int|
            0 <= i < cs.len() ==> #[trigger] overlap_chunks(cs, chunk_size, overlap, counter)[i]
                == cs[i] || counter.tokens(overlap_chunks(cs, chunk_size, overlap, counter)[i])
                <= chunk_size,
{
    let oc = overlap_chunks(cs, chunk_size, overlap, counter);
    if cs.len() > 0 && effective_overlap(overlap, chunk_size) > 0 {
        assert forall|i: int| 0 <= i < cs.len() implies #[trigger] oc[i] == cs[i]
            || counter.tokens(oc[i]) <= chunk_size by {
            if i > 0 {
                lemma_overlap_respects_budget(cs, chunk_size, overlap, counter, i);
            }
        }
    }
}

/// Cuts one text into [`pieces`].
fn cut_into_pieces(text: &str, chunk_size: usize, counter: &TokenCounter) -> (res: Vec<String>)
    ensures
        views(res@) == pieces(text@, chunk_size as nat, *counter),
{
    let v = chars_of(text);
    let ghost s = v@;
    let mut out: Vec<String> = Vec::new();
    let mut i: usize = 0;
    assert(s.skip(0) =~= s);
    assert(views(out@) =~= Seq::<Seq<char>>::empty());
    while i < v.len()
        invariant
            s == v@,
            s == text@,
            i <= v.len(),
            pieces(s, chunk_size as nat, *counter) == views(out@) + pieces(
                s.skip(i as int),
                chunk_size as nat,
                *counter,
            ),
        decreases v.len() - i,
    {
        let ghost rest = s.skip(i as int);
        let mut k: usize = 0;
        while i + k < v.len()
            invariant
                s == v@,
                i < v.len(),
                rest == s.skip(i as int),
                i + k <= v.len(),
                grow_fit(rest, chunk_size as nat, *counter, 0) == grow_fit(
                    rest,
                    chunk_size as nat,
                    *counter,
                    k as nat,
                ),
            ensures
                i + k <= v.len(),
                grow_fit(rest, chunk_size as nat, *counter, 0) == k,
            decreases v.len() - i - k,
        {
            let prefix = string_of_range(v.as_slice(), i, i + k + 1);
            assert(prefix@ =~= rest.take(k + 1));
            if counter.count(prefix.as_str()) > chunk_size {
                break;
            }
            k = k + 1;
        }
        let n: usize = if k == 0 {
            1
        } else if i + k == v.len() {
            k
        } else {
            let mut w: usize = k;
            while w > 0 && !is_white_char(v[i + w - 1])
                invariant
                    s == v@,
                    rest == s.skip(i as int),
                    w <= k,
                    i + k <= v.len(),
                    white_end(rest, k as int) == white_end(rest, w as int),
                decreases w,
            {
                assert(rest[w - 1] == s[i + w - 1]);
                w = w - 1;
            }
            proof {
                if w > 0 {
                    assert(rest[w - 1] == s[i + w - 1]);
                }
            }
            if w == 0 {
                k
            } else {
                w
            }
        };
        proof {
            lemma_piece_len(rest, chunk_size as nat, *counter);
            assert(n == piece_len(rest, chunk_size as nat, *counter));
        }
        let piece = string_of_range(v.as_slice(), i, i + n);
        proof {
            assert(piece@ =~= rest.take(n as int));
            assert(rest.skip(n as int) =~= s.skip(i + n));
            assert(pieces(rest, chunk_size as nat, *counter) == seq![rest.take(n as int)] + pieces(
                rest.skip(n as int),
                chunk_size as nat,
                *counter,
            ));
        }
        let ghost before = views(out@);
        out.push(piece);
        proof {
            assert(views(out@) =~= before + seq![rest.take(n as int)]);
        }
        i = i + n;
    }
    proof {
        assert(pieces(s.skip(i as int), chunk_size as nat, *counter) =~= Seq::<Seq<char>>::empty());
    }
    out
}

/// Brings every chunk within the budget ([`fit_chunks`]).
fn fit_to_budget(chunks: &Vec<String>, chunk_size: usize, counter: &TokenCounter) -> (res: Vec<
    String,
>)
    ensures
        views(res@) == fit_chunks(views(chunks@), chunk_size as nat, *counter),
{
    let ghost cs = views(chunks@);
    let mut out: Vec<String> = Vec::new();
    let mut j: usize = 0;
    assert(cs.take(0) =~= Seq::<Seq<char>>::empty());
    while j < chunks.len()
        invariant
            cs == views(chunks@),
            j <= chunks.len(),
            views(out@) == fit_chunks(cs.take(j as int), chunk_size as nat, *counter),
        decreases chunks.len() - j,
    {
        let ghost pre = cs.take(j + 1);
        assert(pre.drop_last() =~= cs.take(j as int));
        assert(pre.last() == chunks@[j as int]@);
        let parts: Vec<String> = if counter.count(chunks[j].as_str()) <= chunk_size {
            let c = chunks[j].clone();
            let ghost cv = c@;
            let one = vec![c];
            assert(views(one@) =~= seq![cv]);
            one
        } else {
            cut_into_pieces(chunks[j].as_str(), chunk_size, counter)
        };
        let ghost before = views(out@);
        let mut m: usize = 0;
        while m < parts.len()
            invariant
                m <= parts.len(),
                views(out@) == before + views(parts@).take(m as int),
            decreases parts.len() - m,
        {
            let ghost prev = out@;
            let p = parts[m].clone();
            assert(p@ == parts@[m as int]@);
            out.push(p);
            assert(views(out@) =~= views(prev).push(parts@[m as int]@));
            assert(views(parts@).take(m + 1) =~= views(parts@).take(m as int).push(parts@[m as int]@));
            assert(views(out@) =~= before + views(parts@).take(m + 1));
            m = m + 1;
        }
        assert(views(parts@).take(parts.len() as int) =~= views(parts@));
        j = j + 1;
    }
    assert(cs.take(chunks.len() as int) =~= cs);
    out
}

/// Whether every chunk holds at most `chunk_size` tokens.
fn check_all_fit(chunks: &Vec<String>, chunk_size: usize, counter: &TokenCounter) -> (ok: bool)
    ensures
        ok == all_fit(views(chunks@), chunk_size as nat, *counter),
{
    let mut i: usize = 0;
    while i < chunks.len()
        invariant
            i <= chunks.len(),
            forall|j: int| 0 <= j < i ==> counter.tokens(#[trigger] views(chunks@)[j]) <= chunk_size,
        decreases chunks.len() - i,
    {
        if counter.count(chunks[i].as_str()) > chunk_size {
            assert(views(chunks@)[i as int] == chunks@[i as int]@);
            return false;
        }
        i = i + 1;
    }
    true
}

/// The chunks of `text` before the overlap: the semantic splitter's chunks,
/// each brought within the budget.
pub open spec fn fitted_chunks(text: Seq<char>, chunk_size: usize, counter: TokenCounter) -> Seq<
    Seq<char>,
> {
    fit_chunks(semantic_chunks(text, chunk_size, counter), chunk_size as nat, counter)
}

/// The chunks of `text` after the overlap.
pub open spec fn final_chunks(
    text: Seq<char>,
    chunk_size: usize,
    overlap: usize,
    counter: TokenCounter,
) -> Seq<Seq<char>> {
    overlap_chunks(
        fitted_chunks(text, chunk_size, counter),
        chunk_size as nat,
        overlap as nat,
        counter,
    )
}

/// Chunks `text` with an explicit token counter and applies the sliding overlap.
///
/// The semantic splitter's chunks are taken as they are when they fit
/// `chunk_size`; a chunk over the budget is cut into [`pieces`] that do.  Every
/// resulting chunk holds at most `chunk_size` tokens, unless it is a single
/// character that alone exceeds the budget (never with the whitespace counter).
pub fn chunk_text_with_counter(
    text: &str,
    chunk_size: usize,
    overlap: usize,
    counter: &TokenCounter,
) -> (chunks: Vec<String>)
    requires
        chunk_size >= 1,
        splits_cleanly(text@, chunk_size, *counter),
    ensures
        views(chunks@) == final_chunks(text@, chunk_size, overlap, *counter),
        all_fit_or_single(views(chunks@), chunk_size as nat, *counter),
        *counter == TokenCounter::Whitespace ==> all_fit(
            views(chunks@),
            chunk_size as nat,
            *counter,
        ),
{
    let base = semantic_split(text, chunk_size, *counter);
    let fitted = fit_to_budget(&base, chunk_size, counter);
    let res = apply_overlap(fitted, chunk_size, overlap, counter);
    proof {
        lemma_final_chunks_fit(text@, chunk_size, overlap, *counter);
    }
    res
}

/// The final chunks fit the budget or are single characters; with the
/// whitespace counter, or whenever the fitted chunks all fit, they all fit.
pub proof fn lemma_final_chunks_fit(
    text: Seq<char>,
    chunk_size: usize,
    overlap: usize,
    counter: TokenCounter,
)
    requires
        chunk_size >= 1,
    ensures
        all_fit_or_single(final_chunks(text, chunk_size, overlap, counter), chunk_size as nat, counter),
        counter == TokenCounter::Whitespace || all_fit(
            fitted_chunks(text, chunk_size, counter),
            chunk_size as nat,
            counter,
        ) ==> all_fit(final_chunks(text, chunk_size, overlap, counter), chunk_size as nat, counter),
{
    let f = fitted_chunks(text, chunk_size, counter);
    let r = final_chunks(text, chunk_size, overlap, counter);
    lemma_fit_chunks(semantic_chunks(text, chunk_size, counter), chunk_size as nat, counter);
    lemma_overlap_fits(f, chunk_size as nat, overlap as nat, counter);
    assert forall|i: int| 0 <= i < r.len() implies counter.tokens(#[trigger] r[i]) <= chunk_size
        || r[i].len() == 1 by {
        assert(r[i] == f[i] || counter.tokens(r[i]) <= chunk_size);
        assert(counter.tokens(f[i]) <= chunk_size || f[i].len() == 1);
    }
    if counter == TokenCounter::Whitespace || all_fit(f, chunk_size as nat, counter) {
        assert forall|i: int| 0 <= i < r.len() implies counter.tokens(#[trigger] r[i])
            <= chunk_size by {
            assert(r[i] == f[i] || counter.tokens(r[i]) <= chunk_size);
            assert(counter.tokens(f[i]) <= chunk_size || f[i].len() == 1);
            if counter == TokenCounter::Whitespace && f[i].len() == 1 {
                lemma_single_char_fits_whitespace(f[i], chunk_size as nat);
            }
        }
    }
}

/// Chunks `text` into semantic segments of at most `chunk_size` tokens, counting
/// with the model's tokenizer, then applies an `overlap`-token sliding overlap.
///
/// Fails with `InvalidChunkSize` for a zero chunk size, returns no chunks for a
/// blank text, and fails with `UnsplittableSegment` when the text holds a plain
/// run the semantic splitter cannot handle or a single character that alone
/// exceeds the chunk size.  Every chunk returned holds at most `chunk_size`
/// tokens.
pub fn chunk_text(
    text: &str,
    chunk_size: usize,
    overlap: usize,
    provider: EmbeddingProvider,
    model: &str,
) -> (res: Result<Vec<String>, ChunkingError>)
    ensures
        chunk_size == 0 <==> res matches Err(ChunkingError::InvalidChunkSize),
        chunk_size > 0 && is_blank(text@) ==> (res matches Ok(c) && c@.len() == 0),
        chunk_size > 0 && !is_blank(text@) ==> {
            let counter = TokenCounter::Bpe(resolved_encoding(tokenizer_target(model@)));
            &&& (res matches Err(ChunkingError::UnsplittableSegment) <==> (!splits_cleanly(
                text@,
                chunk_size,
                counter,
            ) || !all_fit(fitted_chunks(text@, chunk_size, counter), chunk_size as nat, counter)))
            &&& (res matches Ok(c) ==> views(c@) == final_chunks(text@, chunk_size, overlap, counter))
            &&& (res matches Ok(c) ==> all_fit(views(c@), chunk_size as nat, counter))
            &&& !(res matches Err(ChunkingError::Tokenizer { .. }))
        },
{
    if chunk_size == 0 {
        return Err(ChunkingError::InvalidChunkSize);
    }
    if is_blank_str(text) {
        return Ok(Vec::new());
    }
    let counter = match build_token_counter(provider, model) {
        Ok(c) => c,
        Err(e) => return Err(e),
    };
    if !check_splits_cleanly(text, chunk_size, &counter) {
        return Err(ChunkingError::UnsplittableSegment);
    }
    let base = semantic_split(text, chunk_size, counter);
    let fitted = fit_to_budget(&base, chunk_size, &counter);
    if !check_all_fit(&fitted, chunk_size, &counter) {
        return Err(ChunkingError::UnsplittableSegment);
    }
    let res = apply_overlap(fitted, chunk_size, overlap, &counter);
    proof {
        lemma_final_chunks_fit(text@, chunk_size, overlap, counter);
    }
    Ok(res)
}

} // verus!
