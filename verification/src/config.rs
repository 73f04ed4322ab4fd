//! Configuration values the library logic reads, and their validation.
use crate::decimal::{
    parse_decimal_u16, parse_decimal_usize, u16_decimal_parse, usize_decimal_parse,
};
use crate::text::{
    append_str, is_blank, is_blank_str, lower, opt_view, owned, str_eq, to_lowercase, trim, trim_str,
};
use vstd::prelude::*;

verus! {

/// Supported embedding backends for the processing pipeline.
#[derive(Clone, Copy, Debug, PartialEq, Eq, Structural)]
pub enum EmbeddingProvider {
    /// Local Ollama runtime.
    Ollama,
    /// Hosted OpenAI embeddings API.
    OpenAI,
}

/// Errors encountered while loading configuration values.
#[derive(Debug)]
pub enum ConfigError {
    /// A required variable was not provided.
    MissingVariable(String),
    /// A variable held a value that could not be accepted.
    InvalidValue(String),
}

/// The provider a (case-insensitive) name selects, if any.
pub open spec fn provider_named(name: Seq<char>) -> Option<EmbeddingProvider> {
    if lower(name) == "ollama"@ {
        Some(EmbeddingProvider::Ollama)
    } else if lower(name) == "openai"@ {
        Some(EmbeddingProvider::OpenAI)
    } else {
        None
    }
}

impl EmbeddingProvider {
    /// Parses a provider name, ignoring case (`ollama` or `openai`).
    pub fn from_name(name: &str) -> (res: Option<EmbeddingProvider>)
        ensures
            res == provider_named(name@),
    {
        let lowered = to_lowercase(name);
        if str_eq(lowered.as_str(), "ollama") {
            Some(EmbeddingProvider::Ollama)
        } else if str_eq(lowered.as_str(), "openai") {
            Some(EmbeddingProvider::OpenAI)
        } else {
            None
        }
    }
}

/// An environment value as the configuration reads it: a blank value counts as
/// absent.
pub fn load_env_optional(raw: Option<String>) -> (res: Option<String>)
    ensures
        opt_view(res) == match opt_view(raw) {
            Some(v) => if is_blank(v) {
                None
            } else {
                Some(v)
            },
            None => None,
        },
{
    match raw {
        Some(v) => if is_blank_str(v.as_str()) {
            None
        } else {
            Some(v)
        },
        None => None,
    }
}

/// A required environment value: missing means `MissingVariable(key)`.
pub fn load_env(key: &str, raw: Option<String>) -> (res: Result<String, ConfigError>)
    ensures
        match raw {
            Some(v) => res matches Ok(r) && r@ == v@,
            None => res matches Err(ConfigError::MissingVariable(k)) && k@ == key@,
        },
{
    match raw {
        Some(v) => Ok(v),
        None => Err(ConfigError::MissingVariable(owned(key))),
    }
}

/// Reads an optional unsigned setting: absent or blank gives the default, a
/// value that does not parse is `InvalidValue(key)`.
pub fn load_usize_with_default(key: &str, raw: Option<String>, default: usize) -> (res: Result<
    usize,
    ConfigError,
>)
    ensures
        match opt_view(raw) {
            Some(v) => if is_blank(v) {
                res == Ok::<usize, ConfigError>(default)
            } else {
                match usize_decimal_parse(v) {
                    Some(n) => res == Ok::<usize, ConfigError>(n),
                    None => res matches Err(ConfigError::InvalidValue(k)) && k@ == key@,
                }
            },
            None => res == Ok::<usize, ConfigError>(default),
        },
{
    match load_env_optional(raw) {
        Some(v) => match parse_decimal_usize(v.as_str()) {
            Some(n) => Ok(n),
            None => Err(ConfigError::InvalidValue(owned(key))),
        },
        None => Ok(default),
    }
}

/// Reads an optional unsigned setting without default: absent or blank gives
/// `None`, a value that does not parse is `InvalidValue(key)`.
pub fn load_optional_usize(key: &str, raw: Option<String>) -> (res: Result<
    Option<usize>,
    ConfigError,
>)
    ensures
        match opt_view(raw) {
            Some(v) => if is_blank(v) {
                res == Ok::<Option<usize>, ConfigError>(None)
            } else {
                match usize_decimal_parse(v) {
                    Some(n) => res == Ok::<Option<usize>, ConfigError>(Some(n)),
                    None => res matches Err(ConfigError::InvalidValue(k)) && k@ == key@,
                }
            },
            None => res == Ok::<Option<usize>, ConfigError>(None),
        },
{
    match load_env_optional(raw) {
        Some(v) => match parse_decimal_usize(v.as_str()) {
            Some(n) => Ok(Some(n)),
            None => Err(ConfigError::InvalidValue(owned(key))),
        },
        None => Ok(None),
    }
}

/// Reads the optional server port: absent or blank gives `None`, a value that
/// does not parse is `InvalidValue("SERVER_PORT")`.
pub fn load_server_port(raw: Option<String>) -> (res: Result<Option<u16>, ConfigError>)
    ensures
        match opt_view(raw) {
            Some(v) => if is_blank(v) {
                res == Ok::<Option<u16>, ConfigError>(None)
            } else {
                match u16_decimal_parse(v) {
                    Some(n) => res == Ok::<Option<u16>, ConfigError>(Some(n)),
                    None => res matches Err(ConfigError::InvalidValue(k)) && k@ == "SERVER_PORT"@,
                }
            },
            None => res == Ok::<Option<u16>, ConfigError>(None),
        },
{
    match load_env_optional(raw) {
        Some(v) => match parse_decimal_u16(v.as_str()) {
            Some(n) => Ok(Some(n)),
            None => Err(ConfigError::InvalidValue(owned("SERVER_PORT"))),
        },
        None => Ok(None),
    }
}

/// Reads the required embedding dimension: a value that does not parse is
/// reported as `InvalidValue("EMBEDDING_DIMENSION")`.
pub fn parse_embedding_dimension(value: &str) -> (res: Result<usize, ConfigError>)
    ensures
        match usize_decimal_parse(value@) {
            Some(n) => res == Ok::<usize, ConfigError>(n),
            None => res matches Err(ConfigError::InvalidValue(k)) && k@
                == "EMBEDDING_DIMENSION"@,
        },
{
    match parse_decimal_usize(value) {
        Some(n) => Ok(n),
        None => Err(ConfigError::InvalidValue(owned("EMBEDDING_DIMENSION"))),
    }
}

/// Reads the required embedding provider: an unknown name is reported as
/// `InvalidValue("EMBEDDING_PROVIDER")`.
pub fn parse_embedding_provider(value: &str) -> (res: Result<EmbeddingProvider, ConfigError>)
    ensures
        match provider_named(value@) {
            Some(p) => res matches Ok(q) && q == p,
            None => res matches Err(ConfigError::InvalidValue(k)) && k@
                == "EMBEDDING_PROVIDER"@,
        },
{
    match EmbeddingProvider::from_name(value) {
        Some(p) => Ok(p),
        None => Err(ConfigError::InvalidValue(owned("EMBEDDING_PROVIDER"))),
    }
}

/// Reads an on/off setting: on exactly when the value, trimmed, is `1`.
pub fn parse_enabled_flag(raw: Option<String>) -> (on: bool)
    ensures
        on == (opt_view(raw) matches Some(v) && trim(v) == "1"@),
{
    match raw {
        Some(v) => {
            let t = trim_str(v.as_str());
            str_eq(t.as_str(), "1")
        },
        None => false,
    }
}

/// Checks the search defaults: both limits at least 1, the default not above
/// the maximum, and the default score threshold in `[0, 1]`
/// (`threshold_in_range`), in that order.
pub fn check_search_defaults(default_limit: usize, max_limit: usize, threshold_in_range: bool) -> (res:
    Result<(), ConfigError>)
    ensures
        default_limit == 0 ==> (res matches Err(ConfigError::InvalidValue(m)) && m@
            == "SEARCH_DEFAULT_LIMIT must be at least 1"@),
        default_limit > 0 && max_limit == 0 ==> (res matches Err(ConfigError::InvalidValue(m))
            && m@ == "SEARCH_MAX_LIMIT must be at least 1"@),
        default_limit > 0 && max_limit > 0 && default_limit > max_limit ==> (res matches Err(
            ConfigError::InvalidValue(m),
        ) && m@ == "SEARCH_DEFAULT_LIMIT cannot exceed SEARCH_MAX_LIMIT"@),
        default_limit > 0 && max_limit > 0 && default_limit <= max_limit && !threshold_in_range
            ==> (res matches Err(ConfigError::InvalidValue(m)) && m@
            == "SEARCH_DEFAULT_SCORE_THRESHOLD must be between 0.0 and 1.0"@),
        res is Ok <==> (0 < default_limit <= max_limit && threshold_in_range),
{
    if default_limit == 0 {
        return Err(ConfigError::InvalidValue(owned("SEARCH_DEFAULT_LIMIT must be at least 1")));
    }
    if max_limit == 0 {
        return Err(ConfigError::InvalidValue(owned("SEARCH_MAX_LIMIT must be at least 1")));
    }
    if default_limit > max_limit {
        return Err(
            ConfigError::InvalidValue(owned("SEARCH_DEFAULT_LIMIT cannot exceed SEARCH_MAX_LIMIT")),
        );
    }
    if !threshold_in_range {
        return Err(
            ConfigError::InvalidValue(
                owned("SEARCH_DEFAULT_SCORE_THRESHOLD must be between 0.0 and 1.0"),
            ),
        );
    }
    Ok(())
}

} // verus!
