//! The MCP tool surface: argument normalisation and validation, and the
//! structured responses of the `search` and `summarize` tools.
use crate::json::{
    entries_view, find_key, insert_key, inserted, key_index, lookup, remove_key, removed, Json,
    JsonView,
};
use crate::json::{json_clone, lemma_array_view, lemma_object_view, str_array_v, string_array, JsonNumber};
use crate::processing::SearchHit;
use crate::qdrant::{range_view, SearchTimeRange};
use crate::summarize::lines;
use crate::summary_pipeline::{strategy_label, strategy_to_string};
use crate::sanitize::is_memory_type;
use crate::summarize::{parse_rfc3339, rfc3339_instant};
use crate::summary_pipeline::SummarizeStrategy;
use crate::text::{
    append_str, contains_string, decimal, is_blank, is_blank_str, lower, opt_view, opt_views,
    owned, to_lowercase, trim, trim_str, usize_decimal, views,
};
use vstd::prelude::*;

verus! {

/// An error answered to an MCP client.
#[derive(Debug, Clone, PartialEq, Eq)]
pub enum ToolError {
    /// The request's arguments are invalid; the message says how to fix them.
    InvalidParams(String),
    /// The server failed while serving a valid request.
    InternalError(String),
}

/// The memory types accepted by ingestion and search.
pub const MEMORY_TYPES: [&'static str; 3] = ["episodic", "semantic", "procedural"];

/// The arguments after moving `alias` to `canonical`: the alias is removed, and
/// its value is kept under `canonical` unless that key is already present.
pub open spec fn moved_alias(
    e: Seq<(Seq<char>, JsonView)>,
    alias: Seq<char>,
    canonical: Seq<char>,
) -> Seq<(Seq<char>, JsonView)> {
    match lookup(e, alias) {
        Some(v) => {
            let r = removed(e, alias);
            if key_index(r, canonical) is Some {
                r
            } else {
                inserted(r, canonical, v)
            }
        },
        None => e,
    }
}

/// Moves an aliased argument to its canonical name.
pub fn move_alias(map: &mut Vec<(String, Json)>, alias: &str, canonical: &str)
    ensures
        entries_view(final(map)@) == moved_alias(entries_view(old(map)@), alias@, canonical@),
{
    match remove_key(map, alias) {
        Some(value) => {
            if find_key(map, canonical).is_none() {
                insert_key(map, owned(canonical), value);
            }
        },
        None => {},
    }
}

/// The arguments with `tags` normalised: a non-blank string becomes a
/// one-element array, a blank string is dropped, any other value is kept.  The
/// entry moves to the end.
pub open spec fn tags_normalized(e: Seq<(Seq<char>, JsonView)>) -> Seq<(Seq<char>, JsonView)> {
    match lookup(e, "tags"@) {
        Some(v) => {
            let r = removed(e, "tags"@);
            match v {
                JsonView::Str(t) => if trim(t).len() > 0 {
                    inserted(r, "tags"@, JsonView::Array(seq![JsonView::Str(t)]))
                } else {
                    r
                },
                other => inserted(r, "tags"@, other),
            }
        },
        None => e,
    }
}

fn normalize_tag_argument(map: &mut Vec<(String, Json)>)
    ensures
        entries_view(final(map)@) == tags_normalized(entries_view(old(map)@)),
{
    match remove_key(map, "tags") {
        Some(value) => match value {
            Json::Str(tag) => {
                let t = trim_str(tag.as_str());
                if t.as_str().unicode_len() > 0 {
                    let ghost tv = tag@;
                    let arr = Json::Array(vec![Json::Str(tag)]);
                    proof {
                        crate::json::lemma_array_view(arr);
                        assert(Seq::new(1, |i: int| arr->Array_0@[i].view()) =~= seq![
                            JsonView::Str(tv),
                        ]);
                    }
                    insert_key(map, owned("tags"), arr);
                }
            },
            other => {
                insert_key(map, owned("tags"), other);
            },
        },
        None => {},
    }
}

/// The entries of optional arguments.
pub open spec fn argument_entries(arguments: Option<Vec<(String, Json)>>) -> Seq<
    (Seq<char>, JsonView),
> {
    match arguments {
        Some(a) => entries_view(a@),
        None => Seq::empty(),
    }
}

/// The normalised `search` arguments: `type`, `project` and `k` moved to
/// `memory_type`, `project_id` and `limit`, then `tags` normalised.
pub open spec fn search_arguments(e: Seq<(Seq<char>, JsonView)>) -> Seq<(Seq<char>, JsonView)> {
    tags_normalized(
        moved_alias(
            moved_alias(moved_alias(e, "type"@, "memory_type"@), "project"@, "project_id"@),
            "k"@,
            "limit"@,
        ),
    )
}

/// Normalises `search` arguments, honouring the aliases `type`, `project` and `k`.
pub fn normalize_search_arguments(arguments: Option<Vec<(String, Json)>>) -> (res: Json)
    ensures
        res.view() == JsonView::Object(search_arguments(argument_entries(arguments))),
{
    let ghost e = argument_entries(arguments);
    let mut map = match arguments {
        Some(a) => a,
        None => Vec::new(),
    };
    assert(entries_view(map@) =~= e);
    move_alias(&mut map, "type", "memory_type");
    move_alias(&mut map, "project", "project_id");
    move_alias(&mut map, "k", "limit");
    normalize_tag_argument(&mut map);
    let res = Json::Object(map);
    proof {
        crate::json::lemma_object_view(res);
    }
    res
}

/// Normalises `summarize` arguments: only `tags` is rewritten.
pub fn normalize_summarize_arguments(arguments: Option<Vec<(String, Json)>>) -> (res: Json)
    ensures
        res.view() == JsonView::Object(tags_normalized(argument_entries(arguments))),
{
    let ghost e = argument_entries(arguments);
    let mut map = match arguments {
        Some(a) => a,
        None => Vec::new(),
    };
    assert(entries_view(map@) =~= e);
    normalize_tag_argument(&mut map);
    let res = Json::Object(map);
    proof {
        crate::json::lemma_object_view(res);
    }
    res
}

/// Whether the arguments name a key.
pub fn has_argument(arguments: &Json, key: &str) -> (b: bool)
    ensures
        b == (arguments.view() matches JsonView::Object(e) && key_index(e, key@) is Some),
{
    match arguments {
        Json::Object(entries) => {
            proof {
                crate::json::lemma_object_view(*arguments);
            }
            find_key(entries, key).is_some()
        },
        _ => false,
    }
}

/// The trimmed tags with repeats dropped, or `None` when a tag is blank.
pub open spec fn trimmed_distinct(tags: Seq<Seq<char>>) -> Option<Seq<Seq<char>>>
    decreases tags.len(),
{
    if tags.len() == 0 {
        Some(Seq::empty())
    } else {
        match trimmed_distinct(tags.drop_last()) {
            None => None,
            Some(acc) => {
                let t = trim(tags.last());
                if t.len() == 0 {
                    None
                } else if acc.contains(t) {
                    Some(acc)
                } else {
                    Some(acc.push(t))
                }
            },
        }
    }
}

/// A blank tag anywhere refuses the whole list.
pub proof fn lemma_trimmed_distinct_none(tags: Seq<Seq<char>>, k: int)
    requires
        0 <= k <= tags.len(),
        trimmed_distinct(tags.take(k)) is None,
    ensures
        trimmed_distinct(tags) is None,
    decreases tags.len(),
{
    if k == tags.len() {
        assert(tags.take(k) =~= tags);
    } else {
        assert(tags.drop_last().take(k) =~= tags.take(k));
        lemma_trimmed_distinct_none(tags.drop_last(), k);
    }
}

/// The message refusing a tag list.
pub open spec fn tags_message() -> Seq<char> {
    "`tags` must be an array of non-empty strings"@
}

fn distinct_trimmed(tags: Vec<String>) -> (res: Option<Vec<String>>)
    ensures
        match res {
            Some(v) => trimmed_distinct(views(tags@)) == Some(views(v@)),
            None => trimmed_distinct(views(tags@)) is None,
        },
{
    let mut out: Vec<String> = Vec::new();
    let mut i: usize = 0;
    while i < tags.len()
        invariant
            i <= tags.len(),
            trimmed_distinct(views(tags@).take(i as int)) == Some(views(out@)),
        decreases tags.len() - i,
    {
        let ghost pre = views(tags@).take(i + 1);
        assert(pre.drop_last() =~= views(tags@).take(i as int));
        assert(pre.last() == tags@[i as int]@);
        let t = trim_str(tags[i].as_str());
        if t.as_str().unicode_len() == 0 {
            proof {
                lemma_trimmed_distinct_none(views(tags@), i + 1);
                assert(views(tags@).take(tags@.len() as int) =~= views(tags@));
            }
            return None;
        }
        if !contains_string(&out, t.as_str()) {
            let ghost before = views(out@);
            out.push(t);
            assert(views(out@) =~= before.push(out@.last()@));
        }
        i = i + 1;
    }
    assert(views(tags@).take(tags.len() as int) =~= views(tags@));
    Some(out)
}

/// The `search` tool's tag normalisation: absent tags are fine unless the key
/// was given; present ones are trimmed and deduplicated, and must all be
/// non-blank and not all dropped.
pub open spec fn search_tags(tags: Option<Seq<Seq<char>>>, provided: bool) -> Result<
    Option<Seq<Seq<char>>>,
    Seq<char>,
> {
    match tags {
        None => if provided {
            Err(tags_message())
        } else {
            Ok(None)
        },
        Some(t) => match trimmed_distinct(t) {
            None => Err(tags_message()),
            Some(acc) => if acc.len() == 0 {
                Err(tags_message())
            } else {
                Ok(Some(acc))
            },
        },
    }
}

/// The model of a tool result carrying an invalid-params message.
pub open spec fn tool_result<T, V>(res: Result<T, ToolError>, view: spec_fn(T) -> V) -> Result<
    V,
    Seq<char>,
> {
    match res {
        Ok(v) => Ok(view(v)),
        Err(ToolError::InvalidParams(m)) => Err(m@),
        Err(ToolError::InternalError(m)) => Err("internal: "@ + m@),
    }
}

/// Normalises the tags of a `search` request.
pub fn normalize_tags(tags: Option<Vec<String>>, provided: bool) -> (res: Result<
    Option<Vec<String>>,
    ToolError,
>)
    ensures
        res is Err ==> res matches Err(ToolError::InvalidParams(_)),
        tool_result(res, |v: Option<Vec<String>>| opt_views(v)) == search_tags(
            opt_views(tags),
            provided,
        ),
{
    match tags {
        None => if provided {
            Err(ToolError::InvalidParams(owned("`tags` must be an array of non-empty strings")))
        } else {
            Ok(None)
        },
        Some(values) => match distinct_trimmed(values) {
            None => Err(
                ToolError::InvalidParams(owned("`tags` must be an array of non-empty strings")),
            ),
            Some(v) => if v.len() == 0 {
                Err(ToolError::InvalidParams(owned("`tags` must be an array of non-empty strings")))
            } else {
                Ok(Some(v))
            },
        },
    }
}

/// The `summarize` tool's tag normalisation: like [`search_tags`], but an empty
/// list is accepted.
pub open spec fn summarize_tags(tags: Option<Seq<Seq<char>>>, provided: bool) -> Result<
    Option<Seq<Seq<char>>>,
    Seq<char>,
> {
    match tags {
        None => if provided {
            Err(tags_message())
        } else {
            Ok(None)
        },
        Some(t) => match trimmed_distinct(t) {
            None => Err(tags_message()),
            Some(acc) => Ok(Some(acc)),
        },
    }
}

/// Normalises the tags of a `summarize` request.
pub fn normalize_summarize_tags(tags: Option<Vec<String>>, provided: bool) -> (res: Result<
    Option<Vec<String>>,
    ToolError,
>)
    ensures
        res is Err ==> res matches Err(ToolError::InvalidParams(_)),
        tool_result(res, |v: Option<Vec<String>>| opt_views(v)) == summarize_tags(
            opt_views(tags),
            provided,
        ),
{
    match tags {
        None => if provided {
            Err(ToolError::InvalidParams(owned("`tags` must be an array of non-empty strings")))
        } else {
            Ok(None)
        },
        Some(values) => match distinct_trimmed(values) {
            None => Err(
                ToolError::InvalidParams(owned("`tags` must be an array of non-empty strings")),
            ),
            Some(v) => Ok(Some(v)),
        },
    }
}

/// The message refusing a memory type.
pub open spec fn memory_type_message() -> Seq<char> {
    "`memory_type` must be one of episodic|semantic|procedural"@
}

/// Validates a requested memory type: when present it is trimmed, lowercased,
/// and must name a memory type.
pub open spec fn checked_memory_type(memory_type: Option<Seq<char>>) -> Result<
    Option<Seq<char>>,
    Seq<char>,
> {
    match memory_type {
        None => Ok(None),
        Some(m) => if trim(m).len() == 0 || !is_memory_type(lower(trim(m))) {
            Err(memory_type_message())
        } else {
            Ok(Some(lower(trim(m))))
        },
    }
}

/// Validates a requested memory type.
pub fn check_memory_type(memory_type: Option<String>) -> (res: Result<Option<String>, ToolError>)
    ensures
        res is Err ==> res matches Err(ToolError::InvalidParams(_)),
        tool_result(res, |v: Option<String>| opt_view(v)) == checked_memory_type(
            opt_view(memory_type),
        ),
{
    match memory_type {
        None => Ok(None),
        Some(m) => {
            let t = trim_str(m.as_str());
            if t.as_str().unicode_len() == 0 {
                return Err(
                    ToolError::InvalidParams(
                        owned("`memory_type` must be one of episodic|semantic|procedural"),
                    ),
                );
            }
            let normalized = to_lowercase(t.as_str());
            if !crate::sanitize::is_memory_type_str(normalized.as_str()) {
                return Err(
                    ToolError::InvalidParams(
                        owned("`memory_type` must be one of episodic|semantic|procedural"),
                    ),
                );
            }
            Ok(Some(normalized))
        },
    }
}

/// The message refusing a blank timestamp.
pub open spec fn blank_bound_message(label: Seq<char>) -> Seq<char> {
    "`"@ + label + "` must be a valid RFC3339 timestamp"@
}

/// The message refusing a timestamp that does not parse.
pub open spec fn bad_bound_message(label: Seq<char>, value: Seq<char>) -> Seq<char> {
    "`"@ + label + "` must be a valid RFC3339 timestamp (got '"@ + value + "')"@
}

/// The message refusing a range that ends before it starts.
pub open spec fn order_message() -> Seq<char> {
    "`time_range.start` must be earlier than or equal to `time_range.end`"@
}

/// A checked range boundary: absent, or its trimmed text and instant.
pub open spec fn checked_bound(value: Option<Seq<char>>, label: Seq<char>) -> Result<
    Option<(Seq<char>, int)>,
    Seq<char>,
> {
    match value {
        None => Ok(None),
        Some(v) => if trim(v).len() == 0 {
            Err(blank_bound_message(label))
        } else {
            match rfc3339_instant(trim(v)) {
                None => Err(bad_bound_message(label, trim(v))),
                Some(n) => Ok(Some((trim(v), n))),
            }
        },
    }
}

/// The text of a checked boundary.
pub open spec fn bound_text(b: Option<(Seq<char>, int)>) -> Option<Seq<char>> {
    match b {
        Some((t, _)) => Some(t),
        None => None,
    }
}

/// The instant of a checked boundary (zero when absent).
pub open spec fn bound_instant(b: Option<(Seq<char>, int)>) -> int {
    match b {
        Some((_, n)) => n,
        None => 0,
    }
}

/// The `search` tool's time range check: each given boundary must be an RFC
/// 3339 timestamp (it is kept trimmed), a range given with no boundary is
/// refused, and the start may not follow the end.
pub open spec fn search_range(
    range: Option<(Option<Seq<char>>, Option<Seq<char>>)>,
    provided: bool,
) -> Result<Option<(Option<Seq<char>>, Option<Seq<char>>)>, Seq<char>> {
    match range {
        None => Ok(None),
        Some((start, end)) => match checked_bound(start, "time_range.start"@) {
            Err(m) => Err(m),
            Ok(s) => match checked_bound(end, "time_range.end"@) {
                Err(m) => Err(m),
                Ok(e) => if s is None && e is None {
                    if provided {
                        Err("`time_range` must include `start`, `end`, or both"@)
                    } else {
                        Ok(None)
                    }
                } else if s is Some && e is Some && bound_instant(s) > bound_instant(e) {
                    Err(order_message())
                } else {
                    Ok(Some((bound_text(s), bound_text(e))))
                },
            },
        },
    }
}

fn check_bound(value: &Option<String>, label: &str) -> (res: Result<Option<(String, i128)>, ToolError>)
    ensures
        res is Err ==> res matches Err(ToolError::InvalidParams(_)),
        match res {
            Ok(None) => checked_bound(opt_view(*value), label@) == Ok::<
                Option<(Seq<char>, int)>,
                Seq<char>,
            >(None),
            Ok(Some((t, n))) => checked_bound(opt_view(*value), label@) == Ok::<
                Option<(Seq<char>, int)>,
                Seq<char>,
            >(Some((t@, n as int))),
            Err(ToolError::InvalidParams(m)) => checked_bound(opt_view(*value), label@) == Err::<
                Option<(Seq<char>, int)>,
                Seq<char>,
            >(m@),
            Err(_) => false,
        },
{
    match value {
        None => Ok(None),
        Some(v) => {
            let t = trim_str(v.as_str());
            if t.as_str().unicode_len() == 0 {
                let mut m = owned("`");
                append_str(&mut m, label);
                append_str(&mut m, "` must be a valid RFC3339 timestamp");
                return Err(ToolError::InvalidParams(m));
            }
            match parse_rfc3339(t.as_str()) {
                None => {
                    let mut m = owned("`");
                    append_str(&mut m, label);
                    append_str(&mut m, "` must be a valid RFC3339 timestamp (got '");
                    append_str(&mut m, t.as_str());
                    append_str(&mut m, "')");
                    Err(ToolError::InvalidParams(m))
                },
                Some(n) => Ok(Some((t, n))),
            }
        },
    }
}

/// Validates the time range of a `search` request.
pub fn validate_time_range(time_range: Option<SearchTimeRange>, provided: bool) -> (res: Result<
    Option<SearchTimeRange>,
    ToolError,
>)
    ensures
        res is Err ==> res matches Err(ToolError::InvalidParams(_)),
        tool_result(res, |r: Option<SearchTimeRange>| range_view(r)) == search_range(
            range_view(time_range),
            provided,
        ),
{
    let range = match time_range {
        None => return Ok(None),
        Some(r) => r,
    };
    let start = match check_bound(&range.start, "time_range.start") {
        Err(e) => return Err(e),
        Ok(s) => s,
    };
    let end = match check_bound(&range.end, "time_range.end") {
        Err(e) => return Err(e),
        Ok(e) => e,
    };
    match (start, end) {
        (None, None) => if provided {
            Err(
                ToolError::InvalidParams(
                    owned("`time_range` must include `start`, `end`, or both"),
                ),
            )
        } else {
            Ok(None)
        },
        (Some((s, a)), Some((e, b))) => if a > b {
            Err(
                ToolError::InvalidParams(
                    owned("`time_range.start` must be earlier than or equal to `time_range.end`"),
                ),
            )
        } else {
            Ok(Some(SearchTimeRange { start: Some(s), end: Some(e) }))
        },
        (Some((s, _)), None) => Ok(Some(SearchTimeRange { start: Some(s), end: None })),
        (None, Some((e, _))) => Ok(Some(SearchTimeRange { start: None, end: Some(e) })),
    }
}

/// The `summarize` tool's time range check: both boundaries are required and
/// must be RFC 3339 timestamps once trimmed, the start not after the end.
pub open spec fn summarize_range(start: Option<Seq<char>>, end: Option<Seq<char>>) -> Result<
    (Seq<char>, Seq<char>),
    Seq<char>,
> {
    match (start, end) {
        (Some(s), Some(e)) => match rfc3339_instant(trim(s)) {
            None => Err(bad_bound_message("time_range.start"@, trim(s))),
            Some(a) => match rfc3339_instant(trim(e)) {
                None => Err(bad_bound_message("time_range.end"@, trim(e))),
                Some(b) => if a > b {
                    Err(order_message())
                } else {
                    Ok((trim(s), trim(e)))
                },
            },
        },
        _ => Err("`time_range` must include both `start` and `end`"@),
    }
}

fn parsed_bound(value: &String, label: &str) -> (res: Result<(String, i128), ToolError>)
    ensures
        res is Err ==> res matches Err(ToolError::InvalidParams(_)),
        match res {
            Ok((t, n)) => t@ == trim(value@) && rfc3339_instant(trim(value@)) == Some(n as int),
            Err(ToolError::InvalidParams(m)) => rfc3339_instant(trim(value@)) is None && m@
                == bad_bound_message(label@, trim(value@)),
            Err(_) => false,
        },
{
    let t = trim_str(value.as_str());
    match parse_rfc3339(t.as_str()) {
        None => {
            let mut m = owned("`");
            append_str(&mut m, label);
            append_str(&mut m, "` must be a valid RFC3339 timestamp (got '");
            append_str(&mut m, t.as_str());
            append_str(&mut m, "')");
            Err(ToolError::InvalidParams(m))
        },
        Some(n) => Ok((t, n)),
    }
}

/// Validates the time range of a `summarize` request.
pub fn validate_summarize_time_range(range: SearchTimeRange) -> (res: Result<
    SearchTimeRange,
    ToolError,
>)
    ensures
        res is Err ==> res matches Err(ToolError::InvalidParams(_)),
        tool_result(res, |r: SearchTimeRange| (opt_view(r.start), opt_view(r.end))) == match summarize_range(
            opt_view(range.start),
            opt_view(range.end),
        ) {
            Ok((s, e)) => Ok::<(Option<Seq<char>>, Option<Seq<char>>), Seq<char>>(
                (Some(s), Some(e)),
            ),
            Err(m) => Err(m),
        },
{
    match (&range.start, &range.end) {
        (Some(s), Some(e)) => {
            let (ts, a) = match parsed_bound(s, "time_range.start") {
                Err(err) => return Err(err),
                Ok(p) => p,
            };
            let (te, b) = match parsed_bound(e, "time_range.end") {
                Err(err) => return Err(err),
                Ok(p) => p,
            };
            if a > b {
                return Err(
                    ToolError::InvalidParams(
                        owned(
                            "`time_range.start` must be earlier than or equal to `time_range.end`",
                        ),
                    ),
                );
            }
            Ok(SearchTimeRange { start: Some(ts), end: Some(te) })
        },
        _ => Err(
            ToolError::InvalidParams(owned("`time_range` must include both `start` and `end`")),
        ),
    }
}

/// A `search` request as sent by a client; the score threshold is carried
/// through unchanged, whatever its type.
#[derive(Debug)]
pub struct SearchToolRequest<T> {
    /// Query text to embed.
    pub query_text: String,
    /// Project filter.
    pub project_id: Option<String>,
    /// Memory type filter.
    pub memory_type: Option<String>,
    /// Tags filter.
    pub tags: Option<Vec<String>>,
    /// Timestamp range filter.
    pub time_range: Option<SearchTimeRange>,
    /// Result limit.
    pub limit: Option<usize>,
    /// Score threshold.
    pub score_threshold: Option<T>,
    /// Collection override.
    pub collection: Option<String>,
}

/// A validated `search` request.
#[derive(Debug)]
pub struct ValidatedSearchInput<T> {
    /// Query text.
    pub query_text: String,
    /// Project filter.
    pub project_id: Option<String>,
    /// Normalised memory type filter.
    pub memory_type: Option<String>,
    /// Normalised tags filter.
    pub tags: Option<Vec<String>>,
    /// Checked time range with trimmed boundaries.
    pub time_range: Option<SearchTimeRange>,
    /// Effective limit.
    pub limit: usize,
    /// Effective score threshold.
    pub score_threshold: T,
    /// Collection override.
    pub collection: Option<String>,
}

/// The message refusing a limit.
pub open spec fn limit_message(max_limit: usize) -> Seq<char> {
    "`limit` must be between 1 and "@ + decimal(max_limit as nat)
}

/// The first problem of a `search` request, in the order the checks run:
/// query, memory type, tags, time range, limit, score threshold.
pub open spec fn search_problem<T>(
    args: SearchToolRequest<T>,
    tags_present: bool,
    time_range_present: bool,
    threshold_in_range: bool,
    max_limit: usize,
) -> Option<Seq<char>> {
    if is_blank(args.query_text@) {
        Some("`query_text` must not be empty"@)
    } else if checked_memory_type(opt_view(args.memory_type)) is Err {
        Some(memory_type_message())
    } else if search_tags(opt_views(args.tags), tags_present) is Err {
        Some(tags_message())
    } else if search_range(range_view(args.time_range), time_range_present) is Err {
        Some(search_range(range_view(args.time_range), time_range_present)->Err_0)
    } else if args.limit matches Some(l) && (l < 1 || l > max_limit) {
        Some(limit_message(max_limit))
    } else if !threshold_in_range {
        Some("`score_threshold` must be between 0.0 and 1.0"@)
    } else {
        None
    }
}

fn limit_error(max_limit: usize) -> (res: ToolError)
    ensures
        res == ToolError::InvalidParams(res->InvalidParams_0),
        res->InvalidParams_0@ == limit_message(max_limit),
{
    let mut m = owned("`limit` must be between 1 and ");
    let n = usize_decimal(max_limit);
    append_str(&mut m, n.as_str());
    ToolError::InvalidParams(m)
}

/// Validates a `search` request.  `threshold_in_range` tells whether the given
/// score threshold (if any) lies in `[0, 1]`; the defaults fill what is absent.
pub fn validate_search_request<T>(
    args: SearchToolRequest<T>,
    tags_present: bool,
    time_range_present: bool,
    threshold_in_range: bool,
    max_limit: usize,
    default_limit: usize,
    default_threshold: T,
) -> (res: Result<ValidatedSearchInput<T>, ToolError>)
    ensures
        res is Err ==> res matches Err(ToolError::InvalidParams(_)),
        match search_problem(args, tags_present, time_range_present, threshold_in_range, max_limit) {
            Some(m) => res matches Err(ToolError::InvalidParams(e)) && e@ == m,
            None => res matches Ok(v) && {
                &&& v.query_text@ == args.query_text@
                &&& opt_view(v.project_id) == opt_view(args.project_id)
                &&& checked_memory_type(opt_view(args.memory_type)) == Ok::<
                    Option<Seq<char>>,
                    Seq<char>,
                >(opt_view(v.memory_type))
                &&& search_tags(opt_views(args.tags), tags_present) == Ok::<
                    Option<Seq<Seq<char>>>,
                    Seq<char>,
                >(opt_views(v.tags))
                &&& Ok::<Option<(Option<Seq<char>>, Option<Seq<char>>)>, Seq<char>>(
                    range_view(v.time_range),
                ) == search_range(
                    range_view(args.time_range),
                    time_range_present,
                )
                &&& v.limit == match args.limit {
                    Some(l) => l,
                    None => default_limit,
                }
                &&& v.score_threshold == match args.score_threshold {
                    Some(t) => t,
                    None => default_threshold,
                }
                &&& opt_view(v.collection) == opt_view(args.collection)
            },
        },
{
    let SearchToolRequest {
        query_text,
        project_id,
        memory_type,
        tags,
        time_range,
        limit,
        score_threshold,
        collection,
    } = args;
    if is_blank_str(query_text.as_str()) {
        return Err(ToolError::InvalidParams(owned("`query_text` must not be empty")));
    }
    let memory_type = match check_memory_type(memory_type) {
        Err(e) => return Err(e),
        Ok(m) => m,
    };
    let tags = match normalize_tags(tags, tags_present) {
        Err(e) => return Err(e),
        Ok(t) => t,
    };
    let time_range = match validate_time_range(time_range, time_range_present) {
        Err(e) => return Err(e),
        Ok(r) => r,
    };
    let limit_value = match limit {
        Some(l) => {
            if l < 1 || l > max_limit {
                return Err(limit_error(max_limit));
            }
            l
        },
        None => default_limit,
    };
    if !threshold_in_range {
        return Err(
            ToolError::InvalidParams(owned("`score_threshold` must be between 0.0 and 1.0")),
        );
    }
    let threshold_value = match score_threshold {
        Some(t) => t,
        None => default_threshold,
    };
    Ok(
        ValidatedSearchInput {
            query_text,
            project_id,
            memory_type,
            tags,
            time_range,
            limit: limit_value,
            score_threshold: threshold_value,
            collection,
        },
    )
}

/// A `summarize` request as sent by a client.
#[derive(Debug)]
pub struct SummarizeToolRequest {
    /// Project scope.
    pub project_id: Option<String>,
    /// Memory type summarised.
    pub memory_type: Option<String>,
    /// Tags filter.
    pub tags: Option<Vec<String>>,
    /// Required time window.
    pub time_range: SearchTimeRange,
    /// Maximum number of memories.
    pub limit: Option<usize>,
    /// Strategy name.
    pub strategy: Option<String>,
    /// Provider name.
    pub provider: Option<String>,
    /// Model name.
    pub model: Option<String>,
    /// Word budget.
    pub max_words: Option<usize>,
    /// Collection override.
    pub collection: Option<String>,
}

/// A validated `summarize` request.
#[derive(Debug)]
pub struct ValidatedSummarizeInput {
    /// Trimmed project scope.
    pub project_id: Option<String>,
    /// Normalised memory type.
    pub memory_type: Option<String>,
    /// Normalised tags.
    pub tags: Option<Vec<String>>,
    /// Checked time window with trimmed boundaries.
    pub time_range: SearchTimeRange,
    /// Effective limit.
    pub limit: usize,
    /// Strategy.
    pub strategy: SummarizeStrategy,
    /// Provider, as given.
    pub provider: Option<String>,
    /// Model, as given.
    pub model: Option<String>,
    /// Effective word budget.
    pub max_words: usize,
    /// Collection override.
    pub collection: Option<String>,
}

/// The strategy a normalised name selects.
pub open spec fn strategy_named(name: Seq<char>) -> Option<SummarizeStrategy> {
    if name == "auto"@ {
        Some(SummarizeStrategy::Auto)
    } else if name == "abstractive"@ {
        Some(SummarizeStrategy::Abstractive)
    } else if name == "extractive"@ {
        Some(SummarizeStrategy::Extractive)
    } else {
        None
    }
}

/// The normalised strategy name: trimmed and lowercased, `auto` when absent.
pub open spec fn strategy_text(strategy: Option<Seq<char>>) -> Seq<char> {
    match strategy {
        Some(s) => lower(trim(s)),
        None => "auto"@,
    }
}

/// Whether a provider name is accepted (`ollama` or `none`, ignoring case and
/// surrounding whitespace).
pub open spec fn provider_accepted(provider: Option<Seq<char>>) -> bool {
    match provider {
        Some(p) => lower(trim(p)) == "ollama"@ || lower(trim(p)) == "none"@,
        None => true,
    }
}

/// The first problem of a `summarize` request, in the order the checks run:
/// project, memory type, tags, time range, limit (50 by default), word budget,
/// strategy, provider.
pub open spec fn summarize_problem(
    args: SummarizeToolRequest,
    tags_present: bool,
    max_limit: usize,
    default_max_words: usize,
) -> Option<Seq<char>> {
    let limit: usize = match args.limit {
        Some(l) => l,
        None => 50,
    };
    let max_words: usize = match args.max_words {
        Some(m) => m,
        None => default_max_words,
    };
    if args.project_id matches Some(p) && trim(p@).len() == 0 {
        Some("`project_id` must not be empty"@)
    } else if checked_memory_type(opt_view(args.memory_type)) is Err {
        Some(memory_type_message())
    } else if summarize_tags(opt_views(args.tags), tags_present) is Err {
        Some(tags_message())
    } else if summarize_range(opt_view(args.time_range.start), opt_view(args.time_range.end)) is Err {
        Some(
            summarize_range(opt_view(args.time_range.start), opt_view(args.time_range.end))->Err_0,
        )
    } else if limit == 0 || limit > max_limit {
        Some(limit_message(max_limit))
    } else if max_words == 0 {
        Some("`max_words` must be greater than zero"@)
    } else if strategy_named(strategy_text(opt_view(args.strategy))) is None {
        Some(
            "`strategy` must be auto|abstractive|extractive (got '"@ + strategy_text(
                opt_view(args.strategy),
            ) + "')"@,
        )
    } else if !provider_accepted(opt_view(args.provider)) {
        Some("`provider` must be one of ollama|none"@)
    } else {
        None
    }
}

fn parse_strategy(strategy: &Option<String>) -> (res: Result<SummarizeStrategy, ToolError>)
    ensures
        match strategy_named(strategy_text(opt_view(*strategy))) {
            Some(s) => res == Ok::<SummarizeStrategy, ToolError>(s),
            None => res matches Err(ToolError::InvalidParams(m)) && m@
                == "`strategy` must be auto|abstractive|extractive (got '"@ + strategy_text(
                opt_view(*strategy),
            ) + "')"@,
        },
{
    let name = match strategy {
        Some(s) => {
            let t = trim_str(s.as_str());
            to_lowercase(t.as_str())
        },
        None => owned("auto"),
    };
    if crate::text::str_eq(name.as_str(), "auto") {
        Ok(SummarizeStrategy::Auto)
    } else if crate::text::str_eq(name.as_str(), "abstractive") {
        Ok(SummarizeStrategy::Abstractive)
    } else if crate::text::str_eq(name.as_str(), "extractive") {
        Ok(SummarizeStrategy::Extractive)
    } else {
        let mut m = owned("`strategy` must be auto|abstractive|extractive (got '");
        append_str(&mut m, name.as_str());
        append_str(&mut m, "')");
        Err(ToolError::InvalidParams(m))
    }
}

fn check_provider(provider: &Option<String>) -> (ok: bool)
    ensures
        ok == provider_accepted(opt_view(*provider)),
{
    match provider {
        Some(p) => {
            let t = trim_str(p.as_str());
            let n = to_lowercase(t.as_str());
            crate::text::str_eq(n.as_str(), "ollama") || crate::text::str_eq(n.as_str(), "none")
        },
        None => true,
    }
}

/// Validates a `summarize` request.
pub fn validate_summarize_request(
    args: SummarizeToolRequest,
    tags_present: bool,
    max_limit: usize,
    default_max_words: usize,
) -> (res: Result<ValidatedSummarizeInput, ToolError>)
    ensures
        res is Err ==> res matches Err(ToolError::InvalidParams(_)),
        match summarize_problem(args, tags_present, max_limit, default_max_words) {
            Some(m) => res matches Err(ToolError::InvalidParams(e)) && e@ == m,
            None => res matches Ok(v) && {
                &&& opt_view(v.project_id) == match opt_view(args.project_id) {
                    Some(p) => Some(trim(p)),
                    None => None,
                }
                &&& checked_memory_type(opt_view(args.memory_type)) == Ok::<
                    Option<Seq<char>>,
                    Seq<char>,
                >(opt_view(v.memory_type))
                &&& summarize_tags(opt_views(args.tags), tags_present) == Ok::<
                    Option<Seq<Seq<char>>>,
                    Seq<char>,
                >(opt_views(v.tags))
                &&& summarize_range(opt_view(args.time_range.start), opt_view(args.time_range.end))
                    == Ok::<(Seq<char>, Seq<char>), Seq<char>>(
                    (opt_view(v.time_range.start)->0, opt_view(v.time_range.end)->0),
                )
                &&& v.time_range.start is Some && v.time_range.end is Some
                &&& v.limit == match args.limit {
                    Some(l) => l,
                    None => 50,
                }
                &&& v.max_words == match args.max_words {
                    Some(m) => m,
                    None => default_max_words,
                }
                &&& strategy_named(strategy_text(opt_view(args.strategy))) == Some(v.strategy)
                &&& opt_view(v.provider) == opt_view(args.provider)
                &&& opt_view(v.model) == opt_view(args.model)
                &&& opt_view(v.collection) == opt_view(args.collection)
            },
        },
{
    let SummarizeToolRequest {
        project_id,
        memory_type,
        tags,
        time_range,
        limit,
        strategy,
        provider,
        model,
        max_words,
        collection,
    } = args;
    let project_id = match project_id {
        Some(p) => {
            let t = trim_str(p.as_str());
            if t.as_str().unicode_len() == 0 {
                return Err(ToolError::InvalidParams(owned("`project_id` must not be empty")));
            }
            Some(t)
        },
        None => None,
    };
    let memory_type = match check_memory_type(memory_type) {
        Err(e) => return Err(e),
        Ok(m) => m,
    };
    let tags = match normalize_summarize_tags(tags, tags_present) {
        Err(e) => return Err(e),
        Ok(t) => t,
    };
    let time_range = match validate_summarize_time_range(time_range) {
        Err(e) => return Err(e),
        Ok(r) => r,
    };
    let limit_value = match limit {
        Some(l) => l,
        None => 50,
    };
    if limit_value == 0 || limit_value > max_limit {
        return Err(limit_error(max_limit));
    }
    let max_words = match max_words {
        Some(m) => m,
        None => default_max_words,
    };
    if max_words == 0 {
        return Err(ToolError::InvalidParams(owned("`max_words` must be greater than zero")));
    }
    let strategy = match parse_strategy(&strategy) {
        Err(e) => return Err(e),
        Ok(s) => s,
    };
    if !check_provider(&provider) {
        return Err(ToolError::InvalidParams(owned("`provider` must be one of ollama|none")));
    }
    Ok(
        ValidatedSummarizeInput {
            project_id,
            memory_type,
            tags,
            time_range,
            limit: limit_value,
            strategy,
            provider,
            model,
            max_words,
            collection,
        },
    )
}

/// An optional string entry.
pub open spec fn opt_entry(key: Seq<char>, value: Option<Seq<char>>) -> Seq<(Seq<char>, JsonView)> {
    match value {
        Some(v) => seq![(key, JsonView::Str(v))],
        None => Seq::empty(),
    }
}

/// A `tags` entry, present for a non-empty list.
pub open spec fn tags_entry(tags: Option<Seq<Seq<char>>>) -> Seq<(Seq<char>, JsonView)> {
    match tags {
        Some(t) => if t.len() > 0 {
            seq![("tags"@, str_array_v(t))]
        } else {
            Seq::empty()
        },
        None => Seq::empty(),
    }
}

/// A `time_range` entry with its `start` and `end`, present when one of them is.
pub open spec fn range_entry(range: Option<(Option<Seq<char>>, Option<Seq<char>>)>) -> Seq<
    (Seq<char>, JsonView),
> {
    match range {
        Some((s, e)) => {
            let inner = opt_entry("start"@, s) + opt_entry("end"@, e);
            if inner.len() > 0 {
                seq![("time_range"@, JsonView::Object(inner))]
            } else {
                Seq::empty()
            }
        },
        None => Seq::empty(),
    }
}

/// An unsigned JSON number.
pub open spec fn uint_v(n: nat) -> JsonView {
    JsonView::Number(crate::json::NumberView::U64(n as u64))
}

/// The filters a search reports it used.
pub open spec fn search_used_filters(
    collection: Seq<char>,
    limit: usize,
    score_threshold: JsonView,
    project_id: Option<Seq<char>>,
    memory_type: Option<Seq<char>>,
    tags: Option<Seq<Seq<char>>>,
    range: Option<(Option<Seq<char>>, Option<Seq<char>>)>,
) -> Seq<(Seq<char>, JsonView)> {
    opt_entry("project_id"@, project_id) + opt_entry("memory_type"@, memory_type) + tags_entry(tags)
        + range_entry(range) + seq![
        ("collection"@, JsonView::Str(collection)),
        ("limit"@, uint_v(limit as nat)),
        ("score_threshold"@, score_threshold),
    ]
}

/// Appends a string entry when the value is present.
pub fn push_opt_entry(entries: &mut Vec<(String, Json)>, key: &str, value: &Option<String>)
    ensures
        entries_view(final(entries)@) == entries_view(old(entries)@) + opt_entry(
            key@,
            opt_view(*value),
        ),
{
    match value {
        Some(v) => {
            entries.push((owned(key), Json::Str(v.clone())));
            assert(entries_view(entries@) =~= entries_view(old(entries)@) + opt_entry(
                key@,
                opt_view(*value),
            ));
        },
        None => {
            assert(entries_view(entries@) =~= entries_view(old(entries)@) + opt_entry(
                key@,
                opt_view(*value),
            ));
        },
    }
}

fn push_tags_entry(entries: &mut Vec<(String, Json)>, tags: &Option<Vec<String>>)
    ensures
        entries_view(final(entries)@) == entries_view(old(entries)@) + tags_entry(opt_views(*tags)),
{
    match tags {
        Some(t) => if t.len() > 0 {
            entries.push((owned("tags"), string_array(t)));
            assert(entries_view(entries@) =~= entries_view(old(entries)@) + tags_entry(
                opt_views(*tags),
            ));
        } else {
            assert(entries_view(entries@) =~= entries_view(old(entries)@) + tags_entry(
                opt_views(*tags),
            ));
        },
        None => {
            assert(entries_view(entries@) =~= entries_view(old(entries)@) + tags_entry(
                opt_views(*tags),
            ));
        },
    }
}

fn push_range_entry(entries: &mut Vec<(String, Json)>, range: &Option<SearchTimeRange>)
    ensures
        entries_view(final(entries)@) == entries_view(old(entries)@) + range_entry(
            range_view(*range),
        ),
{
    match range {
        Some(r) => {
            let mut inner: Vec<(String, Json)> = Vec::new();
            push_opt_entry(&mut inner, "start", &r.start);
            push_opt_entry(&mut inner, "end", &r.end);
            assert(entries_view(inner@) =~= opt_entry("start"@, opt_view(r.start)) + opt_entry(
                "end"@,
                opt_view(r.end),
            ));
            if inner.len() > 0 {
                let obj = Json::Object(inner);
                proof {
                    lemma_object_view(obj);
                }
                entries.push((owned("time_range"), obj));
                assert(entries_view(entries@) =~= entries_view(old(entries)@) + range_entry(
                    range_view(*range),
                ));
            } else {
                assert(entries_view(entries@) =~= entries_view(old(entries)@) + range_entry(
                    range_view(*range),
                ));
            }
        },
        None => {
            assert(entries_view(entries@) =~= entries_view(old(entries)@) + range_entry(
                range_view(*range),
            ));
        },
    }
}

/// Appends an entry to an object's entries.
pub fn push_entry(entries: &mut Vec<(String, Json)>, key: &str, value: Json)
    ensures
        entries_view(final(entries)@) == entries_view(old(entries)@).push((key@, value.view())),
{
    let ghost v = value.view();
    entries.push((owned(key), value));
    assert(entries_view(entries@) =~= entries_view(old(entries)@).push((key@, v)));
}

/// Builds the filters a search reports it used.
pub fn build_used_filters(
    collection: &str,
    limit: usize,
    score_threshold: Json,
    project_id: &Option<String>,
    memory_type: &Option<String>,
    tags: &Option<Vec<String>>,
    time_range: &Option<SearchTimeRange>,
) -> (res: Vec<(String, Json)>)
    ensures
        entries_view(res@) == search_used_filters(
            collection@,
            limit,
            score_threshold.view(),
            opt_view(*project_id),
            opt_view(*memory_type),
            opt_views(*tags),
            range_view(*time_range),
        ),
{
    let ghost t = score_threshold.view();
    let mut filters: Vec<(String, Json)> = Vec::new();
    push_opt_entry(&mut filters, "project_id", project_id);
    push_opt_entry(&mut filters, "memory_type", memory_type);
    push_tags_entry(&mut filters, tags);
    push_range_entry(&mut filters, time_range);
    push_entry(&mut filters, "collection", Json::Str(owned(collection)));
    push_entry(&mut filters, "limit", Json::Number(JsonNumber::U64(limit as u64)));
    push_entry(&mut filters, "score_threshold", score_threshold);
    assert(entries_view(filters@) =~= search_used_filters(
        collection@,
        limit,
        t,
        opt_view(*project_id),
        opt_view(*memory_type),
        opt_views(*tags),
        range_view(*time_range),
    ));
    filters
}

/// The filters a summarisation reports it used.
pub open spec fn summarize_used_filters(
    collection: Seq<char>,
    project_id: Option<Seq<char>>,
    memory_type: Option<Seq<char>>,
    tags: Option<Seq<Seq<char>>>,
    start: Option<Seq<char>>,
    end: Option<Seq<char>>,
    limit: usize,
    max_words: usize,
    strategy: SummarizeStrategy,
    provider: Option<Seq<char>>,
    model: Option<Seq<char>>,
) -> Seq<(Seq<char>, JsonView)> {
    seq![
        ("collection"@, JsonView::Str(collection)),
        ("limit"@, uint_v(limit as nat)),
        ("max_words"@, uint_v(max_words as nat)),
        ("strategy"@, JsonView::Str(strategy_label(Some(strategy)))),
    ] + opt_entry("project_id"@, project_id) + opt_entry("memory_type"@, memory_type) + tags_entry(
        tags,
    ) + range_entry(Some((start, end))) + opt_entry("provider"@, provider) + opt_entry(
        "model"@,
        model,
    )
}

/// Builds the filters a summarisation reports it used.
pub fn build_summarize_used_filters(collection: &str, input: &ValidatedSummarizeInput) -> (res: Vec<
    (String, Json),
>)
    ensures
        entries_view(res@) == summarize_used_filters(
            collection@,
            opt_view(input.project_id),
            opt_view(input.memory_type),
            opt_views(input.tags),
            opt_view(input.time_range.start),
            opt_view(input.time_range.end),
            input.limit,
            input.max_words,
            input.strategy,
            opt_view(input.provider),
            opt_view(input.model),
        ),
{
    let mut filters: Vec<(String, Json)> = Vec::new();
    push_entry(&mut filters, "collection", Json::Str(owned(collection)));
    push_entry(&mut filters, "limit", Json::Number(JsonNumber::U64(input.limit as u64)));
    push_entry(&mut filters, "max_words", Json::Number(JsonNumber::U64(input.max_words as u64)));
    push_entry(&mut filters, "strategy", Json::Str(owned(strategy_to_string(input.strategy))));
    push_opt_entry(&mut filters, "project_id", &input.project_id);
    push_opt_entry(&mut filters, "memory_type", &input.memory_type);
    push_tags_entry(&mut filters, &input.tags);
    let range = Some(
        SearchTimeRange { start: input.time_range.start.clone(), end: input.time_range.end.clone() },
    );
    push_range_entry(&mut filters, &range);
    push_opt_entry(&mut filters, "provider", &input.provider);
    push_opt_entry(&mut filters, "model", &input.model);
    assert(entries_view(filters@) =~= summarize_used_filters(
        collection@,
        opt_view(input.project_id),
        opt_view(input.memory_type),
        opt_views(input.tags),
        opt_view(input.time_range.start),
        opt_view(input.time_range.end),
        input.limit,
        input.max_words,
        input.strategy,
        opt_view(input.provider),
        opt_view(input.model),
    ));
    filters
}

/// The result entry of a hit: `id`, `score`, then `text`, `project_id`,
/// `memory_type`, `tags`, `timestamp` and `source_uri` when present.
pub open spec fn hit_entries(h: SearchHit<Json>) -> Seq<(Seq<char>, JsonView)> {
    seq![("id"@, JsonView::Str(h.id@)), ("score"@, h.score.view())] + opt_entry(
        "text"@,
        opt_view(h.text),
    ) + opt_entry("project_id"@, opt_view(h.project_id)) + opt_entry(
        "memory_type"@,
        opt_view(h.memory_type),
    ) + match opt_views(h.tags) {
        Some(t) => seq![("tags"@, str_array_v(t))],
        None => Seq::empty(),
    } + opt_entry("timestamp"@, opt_view(h.timestamp)) + opt_entry(
        "source_uri"@,
        opt_view(h.source_uri),
    )
}

/// The context segment of a hit: its trimmed text followed by ` [<id>]`, when
/// the text is not blank.
pub open spec fn hit_segment(h: SearchHit<Json>) -> Seq<Seq<char>> {
    match opt_view(h.text) {
        Some(t) => if trim(t).len() > 0 {
            seq![trim(t) + " ["@ + h.id@ + "]"@]
        } else {
            Seq::empty()
        },
        None => Seq::empty(),
    }
}

/// The context segments of hits, in order.
pub open spec fn context_segments(hits: Seq<SearchHit<Json>>) -> Seq<Seq<char>>
    decreases hits.len(),
{
    if hits.len() == 0 {
        Seq::empty()
    } else {
        context_segments(hits.drop_last()) + hit_segment(hits.last())
    }
}

fn hit_item(hit: SearchHit<Json>, segments: &mut Vec<String>) -> (res: Json)
    ensures
        res.view() == JsonView::Object(hit_entries(hit)),
        views(final(segments)@) == views(old(segments)@) + hit_segment(hit),
{
    let ghost h = hit;
    let SearchHit { id, score, text, project_id, memory_type, tags, timestamp, source_uri } = hit;
    let mut item: Vec<(String, Json)> = Vec::new();
    push_entry(&mut item, "id", Json::Str(id.clone()));
    push_entry(&mut item, "score", score);
    match &text {
        Some(t) => {
            let trimmed = trim_str(t.as_str());
            if trimmed.as_str().unicode_len() > 0 {
                let mut seg = trimmed;
                append_str(&mut seg, " [");
                append_str(&mut seg, id.as_str());
                append_str(&mut seg, "]");
                let ghost before = views(segments@);
                segments.push(seg);
                assert(views(segments@) =~= before + hit_segment(h));
            } else {
                assert(views(segments@) =~= views(old(segments)@) + hit_segment(h));
            }
        },
        None => {
            assert(views(segments@) =~= views(old(segments)@) + hit_segment(h));
        },
    }
    push_opt_entry(&mut item, "text", &text);
    push_opt_entry(&mut item, "project_id", &project_id);
    push_opt_entry(&mut item, "memory_type", &memory_type);
    let ghost before_tags = entries_view(item@);
    match &tags {
        Some(t) => {
            item.push((owned("tags"), string_array(t)));
        },
        None => {},
    }
    assert(entries_view(item@) =~= before_tags + match opt_views(tags) {
        Some(t) => seq![("tags"@, str_array_v(t))],
        None => Seq::<(Seq<char>, JsonView)>::empty(),
    });
    push_opt_entry(&mut item, "timestamp", &timestamp);
    push_opt_entry(&mut item, "source_uri", &source_uri);
    assert(entries_view(item@) =~= hit_entries(h));
    let res = Json::Object(item);
    proof {
        lemma_object_view(res);
    }
    res
}

/// Formats search hits into result objects and a prompt-ready context: the
/// non-blank texts with their ids, one per line (`None` when there is none).
pub fn format_search_hits(hits: Vec<SearchHit<Json>>) -> (res: (Vec<Json>, Option<String>))
    ensures
        res.0@.len() == hits@.len(),
        forall|i: int|
            0 <= i < hits@.len() ==> #[trigger] res.0@[i].view() == JsonView::Object(
                hit_entries(hits@[i]),
            ),
        opt_view(res.1) == if context_segments(hits@).len() == 0 {
            None
        } else {
            Some(lines(context_segments(hits@)))
        },
{
    let ghost all = hits@;
    let mut hits = hits;
    let mut results: Vec<Json> = Vec::new();
    let mut segments: Vec<String> = Vec::new();
    while hits.len() > 0
        invariant
            hits@.len() + results@.len() == all.len(),
            hits@ == all.skip(results@.len() as int),
            forall|k: int|
                0 <= k < results@.len() ==> #[trigger] results@[k].view() == JsonView::Object(
                    hit_entries(all[k]),
                ),
            views(segments@) == context_segments(all.take(results@.len() as int)),
        decreases hits.len(),
    {
        let ghost n = results@.len();
        let hit = hits.remove(0);
        assert(hit == all[n as int]);
        assert(hits@ =~= all.skip(n as int + 1));
        let item = hit_item(hit, &mut segments);
        results.push(item);
        proof {
            assert(all.take(n as int + 1).drop_last() =~= all.take(n as int));
            assert(all.take(n as int + 1).last() == all[n as int]);
        }
    }
    assert(all.take(results@.len() as int) =~= all);
    let mut context: Option<String> = None;
    let mut out = String::new();
    let mut i: usize = 0;
    while i < segments.len()
        invariant
            i <= segments.len(),
            out@ == lines(views(segments@).take(i as int)),
        decreases segments.len() - i,
    {
        let ghost pre = views(segments@).take(i + 1);
        assert(pre.drop_last() =~= views(segments@).take(i as int));
        if i > 0 {
            crate::text::push_char(&mut out, '\n');
        }
        append_str(&mut out, segments[i].as_str());
        proof {
            if i == 0 {
                assert(pre.len() == 1);
                assert(out@ =~= pre[0]);
            } else {
                assert(out@ =~= lines(pre.drop_last()) + seq!['\n'] + pre.last());
            }
        }
        i = i + 1;
    }
    assert(views(segments@).take(segments.len() as int) =~= views(segments@));
    if segments.len() > 0 {
        context = Some(out);
    }
    (results, context)
}

/// The structured response of the `search` tool.
pub open spec fn search_response(
    collection: Seq<char>,
    limit: usize,
    score_threshold: JsonView,
    results: Seq<JsonView>,
    context: Option<Seq<char>>,
    used_filters: Seq<(Seq<char>, JsonView)>,
) -> JsonView {
    JsonView::Object(
        seq![
            ("results"@, JsonView::Array(results)),
            ("collection"@, JsonView::Str(collection)),
            ("limit"@, uint_v(limit as nat)),
            ("score_threshold"@, score_threshold),
            ("scoreThreshold"@, score_threshold),
            ("used_filters"@, JsonView::Object(used_filters)),
        ] + opt_entry("context"@, context),
    )
}

/// Assembles the structured response of the `search` tool.
pub fn build_search_response(
    collection_name: String,
    limit: usize,
    score_threshold: Json,
    results: Vec<Json>,
    context: Option<String>,
    used_filters: Vec<(String, Json)>,
) -> (res: Json)
    ensures
        res.view() == search_response(
            collection_name@,
            limit,
            score_threshold.view(),
            results@.map_values(|j: Json| j.view()),
            opt_view(context),
            entries_view(used_filters@),
        ),
{
    let ghost rv = results@.map_values(|j: Json| j.view());
    let ghost fv = entries_view(used_filters@);
    let threshold_copy = json_clone(&score_threshold);
    let arr = Json::Array(results);
    proof {
        lemma_array_view(arr);
        assert(Seq::new(arr->Array_0@.len(), |i: int| arr->Array_0@[i].view()) =~= rv);
    }
    let filters = Json::Object(used_filters);
    proof {
        lemma_object_view(filters);
    }
    let mut payload: Vec<(String, Json)> = Vec::new();
    push_entry(&mut payload, "results", arr);
    push_entry(&mut payload, "collection", Json::Str(collection_name));
    push_entry(&mut payload, "limit", Json::Number(JsonNumber::U64(limit as u64)));
    push_entry(&mut payload, "score_threshold", score_threshold);
    push_entry(&mut payload, "scoreThreshold", threshold_copy);
    push_entry(&mut payload, "used_filters", filters);
    push_opt_entry(&mut payload, "context", &context);
    assert(entries_view(payload@) =~= seq![
        ("results"@, JsonView::Array(rv)),
        ("collection"@, JsonView::Str(collection_name@)),
        ("limit"@, uint_v(limit as nat)),
        ("score_threshold"@, score_threshold.view()),
        ("scoreThreshold"@, score_threshold.view()),
        ("used_filters"@, JsonView::Object(fv)),
    ] + opt_entry("context"@, opt_view(context)));
    let res = Json::Object(payload);
    proof {
        lemma_object_view(res);
    }
    res
}

} // verus!
