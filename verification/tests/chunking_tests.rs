use rustymcp::chunking::{
    apply_overlap, build_tiktoken_counter, check_splits_cleanly, chunk_text, chunk_text_with_counter,
    default_token_counter,
    determine_chunk_size, embedding_context_window, tail_with_token_limit, trim_to_token_budget,
    ChunkingError, TokenCounter,
};
use rustymcp::config::EmbeddingProvider;

#[test]
fn chunk_text_respects_chunk_size() {
    let text = "one two three four five";
    let chunks = chunk_text_with_counter(text, 2, 0, &TokenCounter::Whitespace);
    assert_eq!(chunks, vec!["one two", "three four", "five"]);
}

#[test]
fn processing_chunk_text_handles_empty_input() {
    let chunks = chunk_text_with_counter("", 4, 0, &TokenCounter::Whitespace);
    assert!(chunks.is_empty());
}

#[test]
fn chunk_text_respects_chunk_size_whitespace_counter() {
    let text = "one two three four five";
    let chunks = chunk_text_with_counter(text, 2, 0, &default_token_counter());
    assert_eq!(chunks, vec!["one two", "three four", "five"]);
}

#[test]
fn chunking_chunk_text_handles_empty_input() {
    let chunks = chunk_text_with_counter("", 4, 0, &default_token_counter());
    assert!(chunks.is_empty());
}

#[test]
fn chunk_text_with_counter_applies_overlap() {
    let text = "one two three four five";
    let counter = default_token_counter();
    let chunks = chunk_text_with_counter(text, 3, 1, &counter);
    assert_eq!(chunks, vec!["one two three", "three four five"]);
    for chunk in &chunks {
        assert!(counter.count(chunk) <= 3);
    }
}

#[test]
fn chunk_text_rejects_zero_chunk_size() {
    let error = chunk_text("hello", 0, 0, EmbeddingProvider::OpenAI, "text-embedding-3-small")
        .unwrap_err();
    assert!(matches!(error, ChunkingError::InvalidChunkSize));
}

#[test]
fn chunk_text_uses_tiktoken_budget() {
    let text = "The quick brown fox jumps over the lazy dog.";
    let chunks = chunk_text(text, 5, 0, EmbeddingProvider::OpenAI, "text-embedding-3-small")
        .expect("chunking succeeded");
    let token_counter = build_tiktoken_counter("text-embedding-3-small");
    for chunk in &chunks {
        assert!(token_counter.count(chunk) <= 5);
    }
    let chunk_words: Vec<String> = chunks
        .iter()
        .flat_map(|chunk| chunk.split_whitespace().map(|word| word.to_string()))
        .collect();
    let input_words: Vec<String> =
        text.split_whitespace().map(|word| word.to_string()).collect();
    assert_eq!(chunk_words, input_words);
}

#[test]
fn determine_chunk_size_prefers_override() {
    let chunk_size =
        determine_chunk_size(Some(42), EmbeddingProvider::OpenAI, "text-embedding-3-small", false);
    assert_eq!(chunk_size, 42);
}

#[test]
fn determine_chunk_size_infers_openai_embedding_window() {
    let chunk_size =
        determine_chunk_size(None, EmbeddingProvider::OpenAI, "text-embedding-3-small", false);
    assert_eq!(chunk_size, 1024);
}

#[test]
fn determine_chunk_size_handles_common_ollama_models() {
    let chunk_size = determine_chunk_size(None, EmbeddingProvider::Ollama, "nomic-embed-text", false);
    assert_eq!(chunk_size, 1024);

    let mini_chunk = determine_chunk_size(None, EmbeddingProvider::Ollama, "all-minilm-l6-v2", false);
    assert_eq!(mini_chunk, 256);
}

#[test]
fn determine_chunk_size_safe_defaults_reduce_window_proportion() {
    let conservative = determine_chunk_size(None, EmbeddingProvider::Ollama, "custom-model", true);
    let aggressive = determine_chunk_size(None, EmbeddingProvider::Ollama, "custom-model", false);

    assert_eq!(aggressive, 1024);
    assert_eq!(conservative, 512);
}

#[test]
fn zero_override_is_raised_to_one() {
    assert_eq!(determine_chunk_size(Some(0), EmbeddingProvider::Ollama, "x", false), 1);
}

#[test]
fn automatic_chunk_size_stays_within_bounds() {
    for model in ["all-minilm-l6-v2", "nomic-embed-text", "custom-model", "mxbai-embed-large"] {
        for safe in [false, true] {
            let size = determine_chunk_size(None, EmbeddingProvider::Ollama, model, safe);
            assert!((256..=1024).contains(&size));
        }
    }
}

#[test]
fn context_windows_follow_model_families() {
    assert_eq!(embedding_context_window(EmbeddingProvider::OpenAI, "text-embedding-3-small"), 8192);
    assert_eq!(embedding_context_window(EmbeddingProvider::Ollama, "all-minilm-l6-v2"), 512);
    assert_eq!(embedding_context_window(EmbeddingProvider::Ollama, "nomic-embed-text"), 8192);
}

#[test]
fn overlapped_chunks_stay_within_budget() {
    let counter = TokenCounter::Whitespace;
    let chunks = vec!["a b c".to_string(), "d e f".to_string(), "g".to_string()];
    let out = apply_overlap(chunks, 3, 2, &counter);
    assert_eq!(out.len(), 3);
    assert_eq!(out[0], "a b c");
    for chunk in &out {
        assert!(counter.count(chunk) <= 3);
    }
}

#[test]
fn tail_and_trim_respect_token_limits() {
    let counter = TokenCounter::Whitespace;
    assert_eq!(tail_with_token_limit("one two three", 2, &counter), "two three");
    assert_eq!(trim_to_token_budget("one two three", 2, &counter), "two three");
    assert_eq!(tail_with_token_limit("one two", 0, &counter), "");
}

#[test]
fn blank_text_yields_no_chunks() {
    let chunks = chunk_text("   ", 8, 0, EmbeddingProvider::Ollama, "nomic-embed-text").unwrap();
    assert!(chunks.is_empty());
}

#[test]
fn separator_free_multibyte_text_is_refused() {
    assert!(!check_splits_cleanly("\u{65e5}\u{672c}", 1024, &TokenCounter::Whitespace));
    assert!(!check_splits_cleanly("\u{65e5}", 1024, &TokenCounter::Whitespace));
    assert!(check_splits_cleanly("\u{e9}", 1024, &TokenCounter::Whitespace));
    assert!(check_splits_cleanly("ab", 1024, &TokenCounter::Whitespace));
    assert!(matches!(
        chunk_text("\u{65e5}\u{672c}", 1024, 0, EmbeddingProvider::Ollama, "nomic-embed-text"),
        Err(ChunkingError::UnsplittableSegment)
    ));
    assert!(chunk_text("\u{65e5} \u{672c}", 1024, 0, EmbeddingProvider::Ollama, "nomic-embed-text").is_ok());
}

#[test]
fn every_chunk_fits_the_budget() {
    let text = "a\nb\n\nc\nd";
    let chunks = chunk_text_with_counter(text, 3, 0, &TokenCounter::Whitespace);
    assert!(chunks.iter().all(|c| TokenCounter::Whitespace.count(c) <= 3), "{chunks:?}");
    let words: Vec<&str> = chunks.iter().flat_map(|c| c.split_whitespace()).collect();
    assert_eq!(words, vec!["a", "b", "c", "d"]);

    let sentence = "The quick brown fox jumps over the lazy dog.";
    let counter = build_tiktoken_counter("text-embedding-3-small");
    let chunks = chunk_text(sentence, 5, 0, EmbeddingProvider::OpenAI, "text-embedding-3-small")
        .expect("chunkable");
    assert!(chunks.iter().all(|c| counter.count(c) <= 5), "{chunks:?}");
    let words: Vec<&str> = chunks.iter().flat_map(|c| c.split_whitespace()).collect();
    assert_eq!(words, sentence.split_whitespace().collect::<Vec<_>>());
}

#[test]
fn overlapped_chunks_end_with_their_own_text() {
    let chunks = vec!["alpha beta".to_string(), "  gamma delta".to_string(), "epsilon".to_string()];
    let out = apply_overlap(chunks.clone(), 3, 1, &TokenCounter::Whitespace);
    assert_eq!(out[0], "alpha beta");
    for i in 1..out.len() {
        assert!(out[i].ends_with(chunks[i].trim_start()), "{:?}", out[i]);
        assert!(TokenCounter::Whitespace.count(&out[i]) <= 3);
    }
    assert_eq!(out[1], "beta  gamma delta");
    assert_eq!(out[2], "delta epsilon");
}

#[test]
fn empty_text_has_no_tokens() {
    let counter = build_tiktoken_counter("text-embedding-3-small");
    assert_eq!(counter.count(""), 0);
    assert_eq!(TokenCounter::Whitespace.count(""), 0);
    assert_eq!(TokenCounter::Whitespace.count("   "), 1);
}
