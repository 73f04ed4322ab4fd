//! Qdrant request and payload construction: search filters, chunk payloads,
//! payload accumulation and endpoint paths.
use crate::json::{
    entries_view, get_key, insert_key, lemma_object_view, lookup, str_array_v, string_array,
    Json, JsonView,
};
use crate::sanitize::cleaned;
use crate::strset::{sorted_insert, SortedStrings};
use crate::text::{
    append_str, decimal, owned, opt_view, opt_views, trim, trim_str, usize_decimal, views,
};
use vstd::prelude::*;

verus! {

/// Errors returned while interacting with Qdrant.
#[derive(Debug)]
pub enum QdrantError {
    /// The base URL failed to parse or normalise.
    InvalidUrl(String),
    /// The HTTP layer failed before a response was received.
    Http(String),
    /// Qdrant responded with an unexpected status code.
    UnexpectedStatus {
        /// HTTP status returned by Qdrant.
        status: u16,
        /// Body of the failing response.
        body: String,
    },
}

/// The canonical reason phrase HTTP gives a status code, if it has one.
pub uninterp spec fn canonical_reason(code: u16) -> Option<Seq<char>>;

/// `reqwest::StatusCode::from_u16(code)` then `canonical_reason`: the reason
/// phrase of a valid status code (for example `Not Found` for 404), a function
/// of the code alone.
#[verifier::external_body]
fn status_reason(code: u16) -> (res: Option<String>)
    requires
        100 <= code <= 999,
    ensures
        opt_view(res) == canonical_reason(code),
{
    reqwest::StatusCode::from_u16(code).ok().and_then(|c| c.canonical_reason()).map(
        |r| r.to_string(),
    )
}

/// How an HTTP status is written: the code, a space, and its reason phrase (or
/// `<unknown status code>`).
pub open spec fn status_text(code: u16) -> Seq<char> {
    decimal(code as nat) + " "@ + match (if 100 <= code <= 999 {
        canonical_reason(code)
    } else {
        None
    }) {
        Some(r) => r,
        None => "<unknown status code>"@,
    }
}

/// Writes an HTTP status as [`status_text`] describes.
pub fn status_display(code: u16) -> (res: String)
    ensures
        res@ == status_text(code),
{
    let mut res = usize_decimal(code as usize);
    append_str(&mut res, " ");
    let reason = if 100 <= code && code <= 999 {
        status_reason(code)
    } else {
        None
    };
    match reason {
        Some(r) => append_str(&mut res, r.as_str()),
        None => append_str(&mut res, "<unknown status code>"),
    }
    res
}

/// The text of a Qdrant error.
pub open spec fn qdrant_error_text(e: QdrantError) -> Seq<char> {
    match e {
        QdrantError::InvalidUrl(m) => "Invalid Qdrant URL: "@ + m@,
        QdrantError::Http(m) => "HTTP request failed: "@ + m@,
        QdrantError::UnexpectedStatus { status, body } => "Unexpected Qdrant response ("@
            + status_text(status) + "): "@ + body@,
    }
}

impl QdrantError {
    /// Describes the error.
    pub fn message(&self) -> (res: String)
        ensures
            res@ == qdrant_error_text(*self),
    {
        match self {
            QdrantError::InvalidUrl(m) => {
                let mut r = owned("Invalid Qdrant URL: ");
                append_str(&mut r, m.as_str());
                r
            },
            QdrantError::Http(m) => {
                let mut r = owned("HTTP request failed: ");
                append_str(&mut r, m.as_str());
                r
            },
            QdrantError::UnexpectedStatus { status, body } => {
                let mut r = owned("Unexpected Qdrant response (");
                let st = status_display(*status);
                append_str(&mut r, st.as_str());
                append_str(&mut r, "): ");
                append_str(&mut r, body.as_str());
                r
            },
        }
    }
}

/// Optional metadata fields propagated into each stored payload.
#[derive(Debug, Default)]
pub struct PayloadOverrides {
    /// Override for the `project_id` field.
    pub project_id: Option<String>,
    /// Override for the `memory_type` field.
    pub memory_type: Option<String>,
    /// Tags attached to each chunk.
    pub tags: Option<Vec<String>>,
    /// URI describing the chunk source.
    pub source_uri: Option<String>,
    /// Episodic memories consolidated into this item.
    pub source_memory_ids: Option<Vec<String>>,
    /// Idempotency key of a summary.
    pub summary_key: Option<String>,
}

/// Inclusive timestamp boundaries expressed in RFC 3339.
#[derive(Debug, Default)]
pub struct SearchTimeRange {
    /// Inclusive start timestamp (`gte`).
    pub start: Option<String>,
    /// Inclusive end timestamp (`lte`).
    pub end: Option<String>,
}

/// Filters that can be applied to Qdrant queries.
#[derive(Debug, Default)]
pub struct SearchFilterArgs {
    /// Exact match on the `project_id` payload field.
    pub project_id: Option<String>,
    /// Exact match on the `memory_type` payload field.
    pub memory_type: Option<String>,
    /// Contains-any match on the `tags` payload field.
    pub tags: Option<Vec<String>>,
    /// Boundaries on the `timestamp` payload field.
    pub time_range: Option<SearchTimeRange>,
}

/// How Qdrant applied an indexing request.
#[derive(Debug, Clone, Copy, Default, PartialEq, Eq, Structural)]
pub struct IndexSummary {
    /// Number of new vectors inserted.
    pub inserted: usize,
    /// Number of vectors updated in place.
    pub updated: usize,
}

/// A search hit as returned by Qdrant: point id, similarity score and payload.
///
/// The score is carried through unchanged, whatever its type.
#[derive(Debug)]
pub struct ScoredPoint<S> {
    /// Point identifier rendered as a string.
    pub id: String,
    /// Similarity score.
    pub score: S,
    /// Stored payload, when requested.
    pub payload: Option<Vec<(String, Json)>>,
}

/// A one-entry object.
pub open spec fn obj1(k: Seq<char>, v: JsonView) -> JsonView {
    JsonView::Object(seq![(k, v)])
}

/// A two-entry object.
pub open spec fn obj2(k1: Seq<char>, v1: JsonView, k2: Seq<char>, v2: JsonView) -> JsonView {
    JsonView::Object(seq![(k1, v1), (k2, v2)])
}

/// Builds a one-entry object.
pub fn object1(k: &str, v: Json) -> (res: Json)
    ensures
        res.view() == obj1(k@, v.view()),
{
    let ghost vv = v.view();
    let entries = vec![(owned(k), v)];
    let res = Json::Object(entries);
    proof {
        lemma_object_view(res);
        assert(entries_view(res->Object_0@) =~= seq![(k@, vv)]);
    }
    res
}

/// Builds a two-entry object.
pub fn object2(k1: &str, v1: Json, k2: &str, v2: Json) -> (res: Json)
    ensures
        res.view() == obj2(k1@, v1.view(), k2@, v2.view()),
{
    let ghost a = v1.view();
    let ghost b = v2.view();
    let entries = vec![(owned(k1), v1), (owned(k2), v2)];
    let res = Json::Object(entries);
    proof {
        lemma_object_view(res);
        assert(entries_view(res->Object_0@) =~= seq![(k1@, a), (k2@, b)]);
    }
    res
}

/// Builds a string value.
pub fn string_value(s: &str) -> (res: Json)
    ensures
        res.view() == JsonView::Str(s@),
{
    Json::Str(owned(s))
}

/// An exact-match clause on a payload field.
pub open spec fn match_value_clause(key: Seq<char>, value: Seq<char>) -> JsonView {
    obj2("key"@, JsonView::Str(key), "match"@, obj1("value"@, JsonView::Str(value)))
}

/// The trimmed, non-empty entries of a tag list, in order.
pub open spec fn cleaned_tags(tags: Seq<Seq<char>>) -> Seq<Seq<char>>
    decreases tags.len(),
{
    if tags.len() == 0 {
        Seq::empty()
    } else {
        let before = cleaned_tags(tags.drop_last());
        if trim(tags.last()).len() == 0 {
            before
        } else {
            before.push(trim(tags.last()))
        }
    }
}

/// The `gte`/`lte` bounds of a time range, each present when non-blank.
pub open spec fn range_bounds(start: Option<Seq<char>>, end: Option<Seq<char>>) -> Seq<
    (Seq<char>, JsonView),
> {
    let lower: Seq<(Seq<char>, JsonView)> = match cleaned(start) {
        Some(s) => seq![("gte"@, JsonView::Str(s))],
        None => Seq::empty(),
    };
    let upper: Seq<(Seq<char>, JsonView)> = match cleaned(end) {
        Some(e) => seq![("lte"@, JsonView::Str(e))],
        None => Seq::empty(),
    };
    lower + upper
}

/// The model of a time range: its optional start and end.
pub open spec fn range_view(r: Option<SearchTimeRange>) -> Option<(Option<Seq<char>>, Option<Seq<char>>)> {
    match r {
        Some(r) => Some((opt_view(r.start), opt_view(r.end))),
        None => None,
    }
}

/// The conditions of a search filter, in order: project, memory type, tags,
/// timestamp range.  Blank values and empty tag lists add no condition.
pub open spec fn filter_clauses(
    project_id: Option<Seq<char>>,
    memory_type: Option<Seq<char>>,
    tags: Option<Seq<Seq<char>>>,
    range: Option<(Option<Seq<char>>, Option<Seq<char>>)>,
) -> Seq<JsonView> {
    let p: Seq<JsonView> = match cleaned(project_id) {
        Some(v) => seq![match_value_clause("project_id"@, v)],
        None => Seq::empty(),
    };
    let m: Seq<JsonView> = match cleaned(memory_type) {
        Some(v) => seq![match_value_clause("memory_type"@, v)],
        None => Seq::empty(),
    };
    let t: Seq<JsonView> = match tags {
        Some(ts) => if cleaned_tags(ts).len() > 0 {
            seq![obj2("key"@, JsonView::Str("tags"@), "match"@, obj1("any"@, str_array_v(cleaned_tags(ts))))]
        } else {
            Seq::empty()
        },
        None => Seq::empty(),
    };
    let r: Seq<JsonView> = match range {
        Some((s, e)) => if range_bounds(s, e).len() > 0 {
            seq![obj2("key"@, JsonView::Str("timestamp"@), "range"@, JsonView::Object(range_bounds(s, e)))]
        } else {
            Seq::empty()
        },
        None => Seq::empty(),
    };
    p + m + t + r
}

/// The search filter: `{"must": [conditions]}`, or `None` without conditions.
pub open spec fn search_filter(
    project_id: Option<Seq<char>>,
    memory_type: Option<Seq<char>>,
    tags: Option<Seq<Seq<char>>>,
    range: Option<(Option<Seq<char>>, Option<Seq<char>>)>,
) -> Option<JsonView> {
    let c = filter_clauses(project_id, memory_type, tags, range);
    if c.len() == 0 {
        None
    } else {
        Some(obj1("must"@, JsonView::Array(c)))
    }
}

/// The search filter holds a condition for each non-blank field: an exact
/// match on the trimmed project identifier and on the trimmed memory type, a
/// match on any of the trimmed non-blank tags; and there is no filter at all
/// exactly when no field, tag or range bound is given.
pub proof fn lemma_search_filter_conditions(
    project_id: Option<Seq<char>>,
    memory_type: Option<Seq<char>>,
    tags: Option<Seq<Seq<char>>>,
    range: Option<(Option<Seq<char>>, Option<Seq<char>>)>,
)
    ensures
        search_filter(project_id, memory_type, tags, range) is None <==> {
            &&& cleaned(project_id) is None
            &&& cleaned(memory_type) is None
            &&& (tags matches Some(ts) ==> cleaned_tags(ts).len() == 0)
            &&& (range matches Some((s, e)) ==> cleaned(s) is None && cleaned(e) is None)
        },
        match search_filter(project_id, memory_type, tags, range) {
            Some(JsonView::Object(es)) => match lookup(es, "must"@) {
                Some(JsonView::Array(cs)) => {
                    &&& (cleaned(project_id) matches Some(v) ==> cs.contains(
                        JsonView::Object(
                            seq![
                                ("key"@, JsonView::Str("project_id"@)),
                                ("match"@, JsonView::Object(seq![("value"@, JsonView::Str(v))])),
                            ],
                        ),
                    ))
                    &&& (cleaned(memory_type) matches Some(v) ==> cs.contains(
                        JsonView::Object(
                            seq![
                                ("key"@, JsonView::Str("memory_type"@)),
                                ("match"@, JsonView::Object(seq![("value"@, JsonView::Str(v))])),
                            ],
                        ),
                    ))
                    &&& (tags matches Some(ts) ==> (cleaned_tags(ts).len() > 0 ==> cs.contains(
                        JsonView::Object(
                            seq![
                                ("key"@, JsonView::Str("tags"@)),
                                ("match"@, JsonView::Object(seq![("any"@, str_array_v(cleaned_tags(ts)))])),
                            ],
                        ),
                    )))
                },
                _ => false,
            },
            None => true,
            _ => false,
        },
{
    let p: Seq<JsonView> = match cleaned(project_id) {
        Some(v) => seq![match_value_clause("project_id"@, v)],
        None => Seq::empty(),
    };
    let m: Seq<JsonView> = match cleaned(memory_type) {
        Some(v) => seq![match_value_clause("memory_type"@, v)],
        None => Seq::empty(),
    };
    let t: Seq<JsonView> = match tags {
        Some(ts) => if cleaned_tags(ts).len() > 0 {
            seq![obj2("key"@, JsonView::Str("tags"@), "match"@, obj1("any"@, str_array_v(cleaned_tags(ts))))]
        } else {
            Seq::empty()
        },
        None => Seq::empty(),
    };
    let r: Seq<JsonView> = match range {
        Some((s, e)) => if range_bounds(s, e).len() > 0 {
            seq![obj2("key"@, JsonView::Str("timestamp"@), "range"@, JsonView::Object(range_bounds(s, e)))]
        } else {
            Seq::empty()
        },
        None => Seq::empty(),
    };
    let cs = filter_clauses(project_id, memory_type, tags, range);
    assert(cs == p + m + t + r);
    if cs.len() > 0 {
        let es = seq![("must"@, JsonView::Array(cs))];
        crate::json::lemma_key_index_at(es, "must"@, 0);
        if p.len() > 0 {
            assert(cs[0] == p[0]);
        }
        if m.len() > 0 {
            assert(cs[p.len() as int] == m[0]);
        }
        if t.len() > 0 {
            assert(cs[(p.len() + m.len()) as int] == t[0]);
        }
    }
}

/// A time range with a non-blank start or end always filters on the
/// timestamp: the filter's last condition is on `timestamp`, bounded below by
/// the trimmed start exactly when the start is not blank and above by the
/// trimmed end exactly when the end is not blank, whether or not the other
/// bound is given and whatever the other filters.
pub proof fn lemma_search_filter_range(
    project_id: Option<Seq<char>>,
    memory_type: Option<Seq<char>>,
    tags: Option<Seq<Seq<char>>>,
    start: Option<Seq<char>>,
    end: Option<Seq<char>>,
)
    requires
        cleaned(start) is Some || cleaned(end) is Some,
    ensures
        match search_filter(project_id, memory_type, tags, Some((start, end))) {
            Some(JsonView::Object(es)) => match lookup(es, "must"@) {
                Some(JsonView::Array(cs)) => cs.len() > 0 && (match cs.last() {
                    JsonView::Object(ce) => lookup(ce, "key"@) == Some(JsonView::Str("timestamp"@))
                        && (match lookup(ce, "range"@) {
                        Some(JsonView::Object(rb)) => lookup(rb, "gte"@) == (match cleaned(start) {
                            Some(t) => Some(JsonView::Str(t)),
                            None => None,
                        }) && lookup(rb, "lte"@) == (match cleaned(end) {
                            Some(t) => Some(JsonView::Str(t)),
                            None => None,
                        }),
                        _ => false,
                    }),
                    _ => false,
                }),
                _ => false,
            },
            _ => false,
        },
{
    reveal_strlit("gte");
    reveal_strlit("lte");
    reveal_strlit("key");
    reveal_strlit("range");
    let rb = range_bounds(start, end);
    assert(rb.len() > 0);
    let cs = filter_clauses(project_id, memory_type, tags, Some((start, end)));
    let ce = seq![("key"@, JsonView::Str("timestamp"@)), ("range"@, JsonView::Object(rb))];
    assert(cs.last() == JsonView::Object(ce));
    let es = seq![("must"@, JsonView::Array(cs))];
    crate::json::lemma_key_index_at(es, "must"@, 0);
    crate::json::lemma_key_index_at(ce, "key"@, 0);
    assert(ce[0].0 == "key"@);
    assert("key"@.len() != "range"@.len());
    assert(ce[0].0 != "range"@);
    crate::json::lemma_key_index_at(ce, "range"@, 1);
    match cleaned(start) {
        Some(t) => {
            crate::json::lemma_key_index_at(rb, "gte"@, 0);
            match cleaned(end) {
                Some(u) => {
                    assert(rb[0].0 == "gte"@);
                    assert("gte"@[0] != "lte"@[0]);
                    assert(rb[0].0 != "lte"@);
                    crate::json::lemma_key_index_at(rb, "lte"@, 1);
                },
                None => {
                    assert(rb[0].0 == "gte"@);
                    assert("gte"@[0] != "lte"@[0]);
                    assert(rb[0].0 != "lte"@);
                    crate::json::lemma_key_index_absent(rb, "lte"@);
                },
            }
        },
        None => {
            assert(rb[0].0 == "lte"@);
            assert("gte"@[0] != "lte"@[0]);
            assert(rb[0].0 != "gte"@);
            crate::json::lemma_key_index_absent(rb, "gte"@);
            crate::json::lemma_key_index_at(rb, "lte"@, 0);
        },
    }
}

/// The trimmed value, when it is not blank.
fn non_empty(value: &Option<String>) -> (res: Option<String>)
    ensures
        opt_view(res) == cleaned(opt_view(*value)),
{
    match value {
        Some(s) => {
            let t = trim_str(s.as_str());
            if t.as_str().unicode_len() == 0 {
                None
            } else {
                Some(t)
            }
        },
        None => None,
    }
}

fn clean_tags(tags: &Vec<String>) -> (res: Vec<String>)
    ensures
        views(res@) == cleaned_tags(views(tags@)),
{
    let mut out: Vec<String> = Vec::new();
    let mut i: usize = 0;
    while i < tags.len()
        invariant
            i <= tags.len(),
            views(out@) == cleaned_tags(views(tags@).take(i as int)),
        decreases tags.len() - i,
    {
        let ghost prefix = views(tags@).take(i + 1);
        proof {
            assert(prefix.drop_last() =~= views(tags@).take(i as int));
        }
        let t = trim_str(tags[i].as_str());
        if t.as_str().unicode_len() > 0 {
            let ghost before = out@;
            out.push(t);
            assert(views(out@) =~= views(before).push(trim(prefix.last())));
        }
        i = i + 1;
    }
    assert(views(tags@).take(tags.len() as int) =~= views(tags@));
    out
}

/// The models of a sequence of values.
pub open spec fn json_views(v: Seq<Json>) -> Seq<JsonView> {
    v.map_values(|j: Json| j.view())
}

/// Composes the Qdrant filter payload from optional search arguments.
pub fn build_search_filter(args: &SearchFilterArgs) -> (res: Option<Json>)
    ensures
        match res {
            Some(j) => search_filter(
                opt_view(args.project_id),
                opt_view(args.memory_type),
                opt_views(args.tags),
                range_view(args.time_range),
            ) == Some(j.view()),
            None => search_filter(
                opt_view(args.project_id),
                opt_view(args.memory_type),
                opt_views(args.tags),
                range_view(args.time_range),
            ) is None,
        },
{
    let ghost pid = opt_view(args.project_id);
    let ghost mt = opt_view(args.memory_type);
    let ghost tg = opt_views(args.tags);
    let ghost rg = range_view(args.time_range);
    let mut must: Vec<Json> = Vec::new();

    let project = non_empty(&args.project_id);
    if let Some(project_id) = project {
        let clause = object2(
            "key",
            string_value("project_id"),
            "match",
            object1("value", Json::Str(project_id)),
        );
        must.push(clause);
    }
    let ghost p: Seq<JsonView> = match cleaned(pid) {
        Some(v) => seq![match_value_clause("project_id"@, v)],
        None => Seq::empty(),
    };
    assert(json_views(must@) =~= p);

    let memory = non_empty(&args.memory_type);
    let ghost before_m = must@;
    if let Some(memory_type) = memory {
        let clause = object2(
            "key",
            string_value("memory_type"),
            "match",
            object1("value", Json::Str(memory_type)),
        );
        must.push(clause);
    }
    let ghost m: Seq<JsonView> = match cleaned(mt) {
        Some(v) => seq![match_value_clause("memory_type"@, v)],
        None => Seq::empty(),
    };
    assert(json_views(must@) =~= p + m);

    let ghost t: Seq<JsonView> = match tg {
        Some(ts) => if cleaned_tags(ts).len() > 0 {
            seq![obj2("key"@, JsonView::Str("tags"@), "match"@, obj1("any"@, str_array_v(cleaned_tags(ts))))]
        } else {
            Seq::empty()
        },
        None => Seq::empty(),
    };
    if let Some(tags) = &args.tags {
        let cleaned_list = clean_tags(tags);
        if cleaned_list.len() > 0 {
            let clause = object2(
                "key",
                string_value("tags"),
                "match",
                object1("any", string_array(&cleaned_list)),
            );
            must.push(clause);
        }
    }
    assert(json_views(must@) =~= p + m + t);

    let ghost r: Seq<JsonView> = match rg {
        Some((st, en)) => if range_bounds(st, en).len() > 0 {
            seq![obj2("key"@, JsonView::Str("timestamp"@), "range"@, JsonView::Object(range_bounds(st, en)))]
        } else {
            Seq::empty()
        },
        None => Seq::empty(),
    };
    if let Some(range) = &args.time_range {
        let mut bounds: Vec<(String, Json)> = Vec::new();
        let lower = non_empty(&range.start);
        if let Some(start) = lower {
            bounds.push((owned("gte"), Json::Str(start)));
        }
        let upper = non_empty(&range.end);
        if let Some(end) = upper {
            bounds.push((owned("lte"), Json::Str(end)));
        }
        assert(entries_view(bounds@) =~= range_bounds(opt_view(range.start), opt_view(range.end)));
        if bounds.len() > 0 {
            let bounds_value = Json::Object(bounds);
            proof {
                lemma_object_view(bounds_value);
            }
            let clause = object2("key", string_value("timestamp"), "range", bounds_value);
            must.push(clause);
        }
    }
    assert(json_views(must@) =~= p + m + t + r);
    assert(filter_clauses(pid, mt, tg, rg) == p + m + t + r);

    if must.len() == 0 {
        None
    } else {
        let ghost items = must@;
        let arr = Json::Array(must);
        proof {
            crate::json::lemma_array_view(arr);
            assert(Seq::new(items.len(), |i: int| items[i].view()) =~= json_views(items));
        }
        Some(object1("must", arr))
    }
}

/// The trimmed, non-blank string items of an array, in order.
pub open spec fn string_items(items: Seq<JsonView>) -> Seq<Seq<char>>
    decreases items.len(),
{
    if items.len() == 0 {
        Seq::empty()
    } else {
        let before = string_items(items.drop_last());
        match items.last() {
            JsonView::Str(t) => if trim(t).len() == 0 {
                before
            } else {
                before.push(trim(t))
            },
            _ => before,
        }
    }
}

/// The trimmed, non-blank strings of an array value.
pub fn array_strings(items: &Vec<Json>) -> (res: Vec<String>)
    ensures
        views(res@) == string_items(Seq::new(items@.len(), |i: int| items@[i].view())),
{
    let ghost all = Seq::new(items@.len(), |i: int| items@[i].view());
    let mut out: Vec<String> = Vec::new();
    let mut i: usize = 0;
    while i < items.len()
        invariant
            i <= items.len(),
            all == Seq::new(items@.len(), |i: int| items@[i].view()),
            views(out@) == string_items(all.take(i as int)),
        decreases items.len() - i,
    {
        let ghost prefix = all.take(i + 1);
        proof {
            assert(prefix.drop_last() =~= all.take(i as int));
            assert(prefix.last() == items@[i as int].view());
        }
        match &items[i] {
            Json::Str(tag) => {
                let t = trim_str(tag.as_str());
                if t.as_str().unicode_len() > 0 {
                    let ghost before = out@;
                    out.push(t);
                    assert(views(out@) =~= views(before).push(trim(tag@)));
                }
            },
            _ => {},
        }
        i = i + 1;
    }
    assert(all.take(items.len() as int) =~= all);
    out
}

/// Adds every string of `items` to a sorted set.
pub open spec fn insert_all(set: Seq<Seq<char>>, items: Seq<Seq<char>>) -> Seq<Seq<char>>
    decreases items.len(),
{
    if items.len() == 0 {
        set
    } else {
        sorted_insert(insert_all(set, items.drop_last()), items.last())
    }
}

/// The project identifiers after accumulating one payload's `project_id`.
pub open spec fn with_project(set: Seq<Seq<char>>, payload: Seq<(Seq<char>, JsonView)>) -> Seq<
    Seq<char>,
> {
    match lookup(payload, "project_id"@) {
        Some(JsonView::Str(p)) => if trim(p).len() == 0 {
            set
        } else {
            sorted_insert(set, trim(p))
        },
        _ => set,
    }
}

/// The tags after accumulating one payload's `tags` (an array or a single string).
pub open spec fn with_tags(set: Seq<Seq<char>>, payload: Seq<(Seq<char>, JsonView)>) -> Seq<
    Seq<char>,
> {
    match lookup(payload, "tags"@) {
        Some(JsonView::Array(items)) => insert_all(set, string_items(items)),
        Some(JsonView::Str(t)) => if trim(t).len() == 0 {
            set
        } else {
            sorted_insert(set, trim(t))
        },
        _ => set,
    }
}

/// Accumulates the project identifier of a payload.
pub fn accumulate_project_id(payload: &Vec<(String, Json)>, projects: &mut SortedStrings)
    requires
        old(projects).wf(),
    ensures
        final(projects).wf(),
        final(projects)@ == with_project(old(projects)@, entries_view(payload@)),
{
    match get_key(payload, "project_id") {
        Some(Json::Str(project)) => {
            let t = trim_str(project.as_str());
            if t.as_str().unicode_len() > 0 {
                projects.insert(t);
            }
        },
        _ => {},
    }
}

fn insert_strings(set: &mut SortedStrings, items: Vec<String>)
    requires
        old(set).wf(),
    ensures
        final(set).wf(),
        final(set)@ == insert_all(old(set)@, views(items@)),
{
    let mut i: usize = 0;
    while i < items.len()
        invariant
            i <= items.len(),
            set.wf(),
            set@ == insert_all(old(set)@, views(items@).take(i as int)),
        decreases items.len() - i,
    {
        proof {
            let pre = views(items@).take(i + 1);
            assert(pre.drop_last() =~= views(items@).take(i as int));
        }
        set.insert(items[i].clone());
        i = i + 1;
    }
    assert(views(items@).take(items.len() as int) =~= views(items@));
}

/// Accumulates the tag values of a payload.
pub fn accumulate_tags(payload: &Vec<(String, Json)>, tags: &mut SortedStrings)
    requires
        old(tags).wf(),
    ensures
        final(tags).wf(),
        final(tags)@ == with_tags(old(tags)@, entries_view(payload@)),
{
    match get_key(payload, "tags") {
        Some(value) => match value {
            Json::Array(values) => {
                proof {
                    crate::json::lemma_array_view(*value);
                }
                let strings = array_strings(values);
                insert_strings(tags, strings);
            },
            Json::Str(tag) => {
                let t = trim_str(tag.as_str());
                if t.as_str().unicode_len() > 0 {
                    tags.insert(t);
                }
            },
            _ => {},
        },
        None => {},
    }
}

/// The entry models of a sequence of payload objects.
pub open spec fn payload_views(payloads: Seq<Vec<(String, Json)>>) -> Seq<Seq<(Seq<char>, JsonView)>> {
    payloads.map_values(|p: Vec<(String, Json)>| entries_view(p@))
}

/// The project identifiers accumulated over payloads, in order.
pub open spec fn projects_of(payloads: Seq<Seq<(Seq<char>, JsonView)>>) -> Seq<Seq<char>>
    decreases payloads.len(),
{
    if payloads.len() == 0 {
        Seq::empty()
    } else {
        with_project(projects_of(payloads.drop_last()), payloads.last())
    }
}

/// The tags accumulated over payloads, in order.
pub open spec fn tags_of_payloads(payloads: Seq<Seq<(Seq<char>, JsonView)>>) -> Seq<Seq<char>>
    decreases payloads.len(),
{
    if payloads.len() == 0 {
        Seq::empty()
    } else {
        with_tags(tags_of_payloads(payloads.drop_last()), payloads.last())
    }
}

/// The distinct project identifiers of a set of payloads, sorted.
pub fn collect_projects(payloads: &Vec<Vec<(String, Json)>>) -> (res: SortedStrings)
    ensures
        res.wf(),
        res@ == projects_of(payload_views(payloads@)),
{
    let mut projects = SortedStrings::new();
    let mut i: usize = 0;
    while i < payloads.len()
        invariant
            i <= payloads.len(),
            projects.wf(),
            projects@ == projects_of(payload_views(payloads@).take(i as int)),
        decreases payloads.len() - i,
    {
        proof {
            let pre = payload_views(payloads@).take(i + 1);
            assert(pre.drop_last() =~= payload_views(payloads@).take(i as int));
        }
        accumulate_project_id(&payloads[i], &mut projects);
        i = i + 1;
    }
    assert(payload_views(payloads@).take(payloads.len() as int) =~= payload_views(payloads@));
    projects
}

/// The distinct tags of a set of payloads, sorted.
pub fn collect_tags(payloads: &Vec<Vec<(String, Json)>>) -> (res: SortedStrings)
    ensures
        res.wf(),
        res@ == tags_of_payloads(payload_views(payloads@)),
{
    let mut tags = SortedStrings::new();
    let mut i: usize = 0;
    while i < payloads.len()
        invariant
            i <= payloads.len(),
            tags.wf(),
            tags@ == tags_of_payloads(payload_views(payloads@).take(i as int)),
        decreases payloads.len() - i,
    {
        proof {
            let pre = payload_views(payloads@).take(i + 1);
            assert(pre.drop_last() =~= payload_views(payloads@).take(i as int));
        }
        accumulate_tags(&payloads[i], &mut tags);
        i = i + 1;
    }
    assert(payload_views(payloads@).take(payloads.len() as int) =~= payload_views(payloads@));
    tags
}

/// The model of payload overrides.
pub struct OverridesView {
    /// `project_id` override.
    pub project_id: Option<Seq<char>>,
    /// `memory_type` override.
    pub memory_type: Option<Seq<char>>,
    /// Tags.
    pub tags: Option<Seq<Seq<char>>>,
    /// Source URI.
    pub source_uri: Option<Seq<char>>,
    /// Source memory identifiers.
    pub source_memory_ids: Option<Seq<Seq<char>>>,
    /// Summary idempotency key.
    pub summary_key: Option<Seq<char>>,
}

impl PayloadOverrides {
    /// The model of these overrides.
    pub open spec fn view(&self) -> OverridesView {
        OverridesView {
            project_id: opt_view(self.project_id),
            memory_type: opt_view(self.memory_type),
            tags: opt_views(self.tags),
            source_uri: opt_view(self.source_uri),
            source_memory_ids: opt_views(self.source_memory_ids),
            summary_key: opt_view(self.summary_key),
        }
    }
}

/// The entries of a stored payload, in order: `memory_id`, `project_id`
/// (default `default`), `memory_type` (default `semantic`), `timestamp`,
/// `chunk_hash`, `text`, then `source_uri`, `tags` and `source_memory_ids` when
/// non-empty and `summary_key` when not blank.
pub open spec fn payload_entries(
    memory_id: Seq<char>,
    text: Seq<char>,
    timestamp: Seq<char>,
    chunk_hash: Seq<char>,
    o: OverridesView,
) -> Seq<(Seq<char>, JsonView)> {
    let base = seq![
        ("memory_id"@, JsonView::Str(memory_id)),
        ("project_id"@, JsonView::Str(match o.project_id { Some(p) => p, None => "default"@ })),
        ("memory_type"@, JsonView::Str(match o.memory_type { Some(m) => m, None => "semantic"@ })),
        ("timestamp"@, JsonView::Str(timestamp)),
        ("chunk_hash"@, JsonView::Str(chunk_hash)),
        ("text"@, JsonView::Str(text)),
    ];
    let uri: Seq<(Seq<char>, JsonView)> = match o.source_uri {
        Some(u) => if u.len() > 0 {
            seq![("source_uri"@, JsonView::Str(u))]
        } else {
            Seq::empty()
        },
        None => Seq::empty(),
    };
    let tags: Seq<(Seq<char>, JsonView)> = match o.tags {
        Some(t) => if t.len() > 0 {
            seq![("tags"@, str_array_v(t))]
        } else {
            Seq::empty()
        },
        None => Seq::empty(),
    };
    let ids: Seq<(Seq<char>, JsonView)> = match o.source_memory_ids {
        Some(t) => if t.len() > 0 {
            seq![("source_memory_ids"@, str_array_v(t))]
        } else {
            Seq::empty()
        },
        None => Seq::empty(),
    };
    let key: Seq<(Seq<char>, JsonView)> = match o.summary_key {
        Some(k) => if trim(k).len() > 0 {
            seq![("summary_key"@, JsonView::Str(k))]
        } else {
            Seq::empty()
        },
        None => Seq::empty(),
    };
    base + uri + tags + ids + key
}

fn pick_or(value: &Option<String>, fallback: &str) -> (res: String)
    ensures
        res@ == match opt_view(*value) {
            Some(v) => v,
            None => fallback@,
        },
{
    match value {
        Some(v) => v.clone(),
        None => owned(fallback),
    }
}

/// Builds the payload object stored alongside each indexed chunk.
pub fn build_payload(
    memory_id: &str,
    text: &str,
    timestamp_rfc3339: &str,
    chunk_hash: &str,
    overrides: &PayloadOverrides,
) -> (res: Json)
    ensures
        res.view() == JsonView::Object(
            payload_entries(memory_id@, text@, timestamp_rfc3339@, chunk_hash@, overrides.view()),
        ),
{
    let ghost o = overrides.view();
    let mut payload: Vec<(String, Json)> = Vec::new();
    payload.push((owned("memory_id"), Json::Str(owned(memory_id))));
    payload.push((owned("project_id"), Json::Str(pick_or(&overrides.project_id, "default"))));
    payload.push((owned("memory_type"), Json::Str(pick_or(&overrides.memory_type, "semantic"))));
    payload.push((owned("timestamp"), Json::Str(owned(timestamp_rfc3339))));
    payload.push((owned("chunk_hash"), Json::Str(owned(chunk_hash))));
    payload.push((owned("text"), Json::Str(owned(text))));
    let ghost base = entries_view(payload@);
    if let Some(uri) = &overrides.source_uri {
        if uri.as_str().unicode_len() > 0 {
            payload.push((owned("source_uri"), Json::Str(uri.clone())));
        }
    }
    let ghost with_uri = entries_view(payload@);
    if let Some(tags) = &overrides.tags {
        if tags.len() > 0 {
            payload.push((owned("tags"), string_array(tags)));
        }
    }
    let ghost with_tags = entries_view(payload@);
    if let Some(ids) = &overrides.source_memory_ids {
        if ids.len() > 0 {
            payload.push((owned("source_memory_ids"), string_array(ids)));
        }
    }
    let ghost with_ids = entries_view(payload@);
    if let Some(key) = &overrides.summary_key {
        let trimmed = trim_str(key.as_str());
        if trimmed.as_str().unicode_len() > 0 {
            payload.push((owned("summary_key"), Json::Str(key.clone())));
        }
    }
    proof {
        let target = payload_entries(memory_id@, text@, timestamp_rfc3339@, chunk_hash@, o);
        assert(entries_view(payload@) =~= target);
    }
    let res = Json::Object(payload);
    proof {
        lemma_object_view(res);
    }
    res
}

} // verus!
