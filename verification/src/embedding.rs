//! The embedding client's request checks.
//!
//! The vectors themselves are computed outside the library (they are floating
//! point); what is decided here is whether a request can be served.
use vstd::prelude::*;

verus! {

/// Errors raised by embedding clients.
#[derive(Debug, Clone, PartialEq, Eq)]
pub enum EmbeddingClientError {
    /// The provider could not produce embeddings; the message says why.
    GenerationFailed(String),
}

/// The built-in deterministic embedding client.
#[derive(Debug, Clone, Copy, Default)]
pub struct AiLibClient;

impl AiLibClient {
    /// Creates the client.
    pub fn new() -> (c: Self) {
        AiLibClient
    }
}

/// Whether an embedding request for `text_count` texts of `dimension`
/// components can be served: both must be positive.
pub open spec fn embedding_request_ok(dimension: usize, text_count: usize) -> bool {
    dimension > 0 && text_count > 0
}

/// Checks an embedding request: a zero dimension is refused first, then an
/// empty batch.
pub fn check_embedding_request(dimension: usize, text_count: usize) -> (res: Result<
    (),
    EmbeddingClientError,
>)
    ensures
        res is Ok <==> embedding_request_ok(dimension, text_count),
        dimension == 0 ==> (res matches Err(EmbeddingClientError::GenerationFailed(m)) && m@
            == "embedding dimension must be greater than zero"@),
        dimension > 0 && text_count == 0 ==> (res matches Err(
            EmbeddingClientError::GenerationFailed(m),
        ) && m@ == "no texts provided"@),
{
    if dimension == 0 {
        return Err(
            EmbeddingClientError::GenerationFailed(
                "embedding dimension must be greater than zero".to_owned(),
            ),
        );
    }
    if text_count == 0 {
        return Err(EmbeddingClientError::GenerationFailed("no texts provided".to_owned()));
    }
    Ok(())
}

} // verus!
