//! The abstractive summarisation client's decisions: which provider is used,
//! where its endpoint is, and how its replies are interpreted.
use crate::qdrant::{status_display, status_text};
use crate::text::{append_str, chars_of, opt_view, owned, string_of_range, trim, trim_str};
use vstd::prelude::*;

verus! {

/// Errors surfaced while attempting abstractive summarisation.
#[derive(Debug, Clone, PartialEq, Eq)]
pub enum SummarizationClientError {
    /// The provider is disabled or unreachable.
    ProviderUnavailable(String),
    /// The provider answered with an error.
    GenerationFailed(String),
    /// The provider's answer could not be used.
    InvalidResponse(String),
}

/// A request to the summarisation provider.
#[derive(Debug, Clone)]
pub struct SummarizationRequest {
    /// Model identifier understood by the provider.
    pub model: String,
    /// Prompt assembled by the pipeline.
    pub prompt: String,
    /// Word budget requested by the caller.
    pub max_words: usize,
}

/// Which abstractive summarisation provider is configured.
#[derive(Debug, Clone, Copy, PartialEq, Eq, Structural)]
pub enum SummarizationProvider {
    /// No provider: summaries are extractive.
    Disabled,
    /// A local Ollama runtime.
    Ollama,
}

/// Ollama's address when none is configured.
pub const DEFAULT_OLLAMA_URL: &'static str = "http://127.0.0.1:11434";

/// The base URL of the summarisation client, if a provider is configured: the
/// configured Ollama URL, else the default one.
pub fn get_summarization_client(provider: SummarizationProvider, ollama_url: Option<String>) -> (res:
    Option<String>)
    ensures
        provider == SummarizationProvider::Disabled ==> res is None,
        provider == SummarizationProvider::Ollama ==> opt_view(res) == Some(
            match opt_view(ollama_url) {
                Some(u) => u,
                None => DEFAULT_OLLAMA_URL@,
            },
        ),
{
    match provider {
        SummarizationProvider::Disabled => None,
        SummarizationProvider::Ollama => match ollama_url {
            Some(u) => Some(u),
            None => Some(owned(DEFAULT_OLLAMA_URL)),
        },
    }
}

/// A text without its trailing `/` characters.
pub open spec fn without_trailing_slashes(s: Seq<char>) -> Seq<char>
    decreases s.len(),
{
    if s.len() > 0 && s.last() == '/' {
        without_trailing_slashes(s.drop_last())
    } else {
        s
    }
}

/// Removes the trailing `/` characters of a text.
pub fn strip_trailing_slashes(s: &str) -> (res: String)
    ensures
        res@ == without_trailing_slashes(s@),
{
    let v = chars_of(s);
    let mut n: usize = v.len();
    assert(v@.take(n as int) =~= v@);
    while n > 0 && v[n - 1] == '/'
        invariant
            n <= v.len(),
            v@ == s@,
            without_trailing_slashes(v@) == without_trailing_slashes(v@.take(n as int)),
        decreases n,
    {
        assert(v@.take(n as int).drop_last() =~= v@.take(n - 1));
        n = n - 1;
    }
    assert(v@.subrange(0, n as int) =~= v@.take(n as int));
    let res = string_of_range(&v, 0, n);
    proof {
        let t = v@.take(n as int);
        if n > 0 {
            assert(t.last() == v@[n - 1]);
        }
    }
    res
}

/// The generation endpoint under a base URL: `<base>/api/generate`, the base
/// stripped of trailing slashes.
pub fn ollama_endpoint(base_url: &str) -> (res: String)
    ensures
        res@ == without_trailing_slashes(base_url@) + "/api/generate"@,
{
    let mut res = strip_trailing_slashes(base_url);
    append_str(&mut res, "/api/generate");
    res
}

/// The error an Ollama HTTP status means: 404 says the provider is unavailable,
/// any other status outside `200..=299` that generation failed; `body` is the
/// response body.
pub fn ollama_status_error(status: u16, body: &str, endpoint: &str) -> (res:
    Option<SummarizationClientError>)
    ensures
        status == 404 ==> (res matches Some(SummarizationClientError::ProviderUnavailable(m)) && m@
            == "Ollama endpoint "@ + endpoint@ + " returned 404"@),
        status != 404 && !(200 <= status <= 299) ==> (res matches Some(
            SummarizationClientError::GenerationFailed(m),
        ) && m@ == "Ollama returned "@ + status_text(status) + ": "@ + body@),
        200 <= status <= 299 ==> res is None,
{
    if status == 404 {
        let mut m = owned("Ollama endpoint ");
        append_str(&mut m, endpoint);
        append_str(&mut m, " returned 404");
        return Some(SummarizationClientError::ProviderUnavailable(m));
    }
    if status < 200 || status > 299 {
        let mut m = owned("Ollama returned ");
        let st = status_display(status);
        append_str(&mut m, st.as_str());
        append_str(&mut m, ": ");
        append_str(&mut m, body);
        return Some(SummarizationClientError::GenerationFailed(m));
    }
    None
}

/// The summary in a decoded Ollama reply: its trimmed text, or an error when the
/// reply is marked incomplete.
pub fn ollama_summary(response: &str, done: bool) -> (res: Result<String, SummarizationClientError>)
    ensures
        done ==> (res matches Ok(t) && t@ == trim(response@)),
        !done ==> (res matches Err(SummarizationClientError::InvalidResponse(m)) && m@
            == "Ollama response incomplete (streaming not supported)"@),
{
    if !done {
        return Err(
            SummarizationClientError::InvalidResponse(
                owned("Ollama response incomplete (streaming not supported)"),
            ),
        );
    }
    Ok(trim_str(response))
}

} // verus!
