//! The Qdrant client's requests and decisions: endpoints, request bodies, how
//! statuses are read, how scroll pages are collected, and the points an
//! indexing request writes.
use crate::json::{
    entries_view, get_key, lookup, json_clone, json_text, lemma_object_view, number_text, to_json_string,
    Json, JsonNumber, JsonView, NumberView,
};
use crate::mappers::PreparedChunk;
use crate::qdrant::{
    build_payload, obj1, obj2, object1, object2, payload_entries, IndexSummary, OverridesView,
    PayloadOverrides, QdrantError,
};
use crate::summarization::without_trailing_slashes;
use crate::summarize::rfc3339_instant;
use crate::text::{append_str, chars_of, opt_view, owned, string_of_range, trim, trim_str};
use crate::tools::{push_entry, uint_v};
use vstd::prelude::*;

verus! {

/// A text without its leading `/` characters.
pub open spec fn without_leading_slashes(s: Seq<char>) -> Seq<char>
    decreases s.len(),
{
    if s.len() > 0 && s[0] == '/' {
        without_leading_slashes(s.drop_first())
    } else {
        s
    }
}

/// Joins a base URL and a path with exactly one `/` between them.
pub fn format_endpoint(base: &str, path: &str) -> (res: String)
    ensures
        res@ == without_trailing_slashes(base@) + "/"@ + without_leading_slashes(path@),
{
    let b = chars_of(base);
    let mut n: usize = b.len();
    assert(b@.take(n as int) =~= b@);
    while n > 0 && b[n - 1] == '/'
        invariant
            n <= b.len(),
            b@ == base@,
            without_trailing_slashes(b@) == without_trailing_slashes(b@.take(n as int)),
        decreases n,
    {
        assert(b@.take(n as int).drop_last() =~= b@.take(n - 1));
        n = n - 1;
    }
    let p = chars_of(path);
    let mut k: usize = 0;
    assert(p@.skip(0) =~= p@);
    while k < p.len() && p[k] == '/'
        invariant
            k <= p.len(),
            p@ == path@,
            without_leading_slashes(p@) == without_leading_slashes(p@.skip(k as int)),
        decreases p.len() - k,
    {
        assert(p@.skip(k as int).drop_first() =~= p@.skip(k + 1));
        k = k + 1;
    }
    let mut res = string_of_range(&b, 0, n);
    assert(b@.subrange(0, n as int) =~= b@.take(n as int));
    append_str(&mut res, "/");
    let rest = string_of_range(&p, k, p.len());
    assert(p@.subrange(k as int, p@.len() as int) =~= p@.skip(k as int));
    append_str(&mut res, rest.as_str());
    res
}

/// The path of a URL as `url` parses it, or the parse error's text.
pub uninterp spec fn url_path_of(url: Seq<char>) -> Result<Seq<char>, Seq<char>>;

/// The URL after replacing its path, as `url` serialises it.
pub uninterp spec fn url_with_path(url: Seq<char>, path: Seq<char>) -> Seq<char>;

/// `reqwest::Url::parse` followed by `path()`: the parsed URL's path, or the
/// parse error's text; a function of the URL text alone.
#[verifier::external_body]
fn parse_url_path(url: &str) -> (res: Result<String, String>)
    ensures
        match res {
            Ok(p) => url_path_of(url@) == Ok::<Seq<char>, Seq<char>>(p@),
            Err(e) => url_path_of(url@) == Err::<Seq<char>, Seq<char>>(e@),
        },
{
    reqwest::Url::parse(url).map(|u| u.path().to_string()).map_err(|e| e.to_string())
}

/// `reqwest::Url::parse`, `set_path` and `to_string`: the URL with its path
/// replaced, serialised; a function of the URL and the path alone.
#[verifier::external_body]
fn set_url_path(url: &str, path: &str) -> (res: String)
    requires
        url_path_of(url@) is Ok,
    ensures
        res@ == url_with_path(url@, path@),
{
    let mut parsed = reqwest::Url::parse(url).unwrap();
    parsed.set_path(path);
    parsed.to_string()
}

/// The base URL Qdrant is reached at: the configured URL with trailing slashes
/// removed from its path; the parse error's text when it does not parse.
pub fn normalize_base_url(url: &str) -> (res: Result<String, String>)
    ensures
        match url_path_of(url@) {
            Ok(p) => res matches Ok(u) && u@ == url_with_path(url@, without_trailing_slashes(p)),
            Err(e) => res matches Err(m) && m@ == e,
        },
{
    match parse_url_path(url) {
        Err(e) => Err(e),
        Ok(path) => {
            let trimmed = crate::summarization::strip_trailing_slashes(path.as_str());
            Ok(set_url_path(url, trimmed.as_str()))
        },
    }
}

/// The body creating a collection of `vector_size`-dimensional cosine vectors.
pub fn collection_body(vector_size: u64) -> (res: Json)
    ensures
        res.view() == obj1(
            "vectors"@,
            obj2(
                "size"@,
                JsonView::Number(NumberView::U64(vector_size)),
                "distance"@,
                JsonView::Str("Cosine"@),
            ),
        ),
{
    object1(
        "vectors",
        object2(
            "size",
            Json::Number(JsonNumber::U64(vector_size)),
            "distance",
            Json::Str(owned("Cosine")),
        ),
    )
}

/// The filter restricting a scroll to one project, when one is given.
pub fn project_filter(project_id: Option<&str>) -> (res: Option<Json>)
    ensures
        match project_id {
            Some(p) => res matches Some(f) && f.view() == obj1(
                "must"@,
                JsonView::Array(
                    seq![
                        obj2(
                            "key"@,
                            JsonView::Str("project_id"@),
                            "match"@,
                            obj1("value"@, JsonView::Str(p@)),
                        ),
                    ],
                ),
            ),
            None => res is None,
        },
{
    match project_id {
        Some(p) => {
            let clause = object2(
                "key",
                Json::Str(owned("project_id")),
                "match",
                object1("value", Json::Str(owned(p))),
            );
            let ghost cv = clause.view();
            let arr = Json::Array(vec![clause]);
            proof {
                crate::json::lemma_array_view(arr);
                assert(Seq::new(1, |i: int| arr->Array_0@[i].view()) =~= seq![cv]);
            }
            Some(object1("must", arr))
        },
        None => None,
    }
}

/// The body of a similarity query: the query vector, the limit and payloads,
/// then the named vector (when given and not blank), the score threshold and
/// the filter when present.
pub open spec fn query_body(
    query: JsonView,
    limit: usize,
    using: Option<Seq<char>>,
    score_threshold: Option<JsonView>,
    filter: Option<JsonView>,
) -> JsonView {
    JsonView::Object(
        seq![
            ("query"@, query),
            ("limit"@, uint_v(limit as nat)),
            ("with_payload"@, JsonView::Bool(true)),
        ] + match using {
            Some(u) => if trim(u).len() > 0 {
                seq![("using"@, JsonView::Str(trim(u)))]
            } else {
                Seq::empty()
            },
            None => Seq::empty(),
        } + match score_threshold {
            Some(t) => seq![("score_threshold"@, t)],
            None => Seq::empty(),
        } + match filter {
            Some(f) => seq![("filter"@, f)],
            None => Seq::empty(),
        },
    )
}

/// The model of an optional value.
pub open spec fn opt_json(v: Option<Json>) -> Option<JsonView> {
    match v {
        Some(j) => Some(j.view()),
        None => None,
    }
}

/// Builds the body of a similarity query.
pub fn search_body(
    query: Json,
    limit: usize,
    using: Option<String>,
    score_threshold: Option<Json>,
    filter: Option<Json>,
) -> (res: Json)
    ensures
        res.view() == query_body(
            query.view(),
            limit,
            opt_view(using),
            opt_json(score_threshold),
            opt_json(filter),
        ),
{
    let ghost qv = query.view();
    let ghost tv = opt_json(score_threshold);
    let ghost fv = opt_json(filter);
    let mut e: Vec<(String, Json)> = Vec::new();
    push_entry(&mut e, "query", query);
    push_entry(&mut e, "limit", Json::Number(JsonNumber::U64(limit as u64)));
    push_entry(&mut e, "with_payload", Json::Bool(true));
    match &using {
        Some(u) => {
            let t = trim_str(u.as_str());
            if t.as_str().unicode_len() > 0 {
                push_entry(&mut e, "using", Json::Str(t));
            }
        },
        None => {},
    }
    match score_threshold {
        Some(t) => push_entry(&mut e, "score_threshold", t),
        None => {},
    }
    match filter {
        Some(f) => push_entry(&mut e, "filter", f),
        None => {},
    }
    assert(entries_view(e@) =~= match query_body(qv, limit, opt_view(using), tv, fv) {
        JsonView::Object(x) => x,
        _ => Seq::empty(),
    });
    let res = Json::Object(e);
    proof {
        lemma_object_view(res);
    }
    res
}

/// The payload indexes ensured on every collection: field and schema.
pub open spec fn payload_index_fields() -> Seq<(Seq<char>, Seq<char>)> {
    seq![
        ("project_id"@, "keyword"@),
        ("memory_type"@, "keyword"@),
        ("tags"@, "keyword"@),
        ("timestamp"@, "datetime"@),
        ("chunk_hash"@, "keyword"@),
    ]
}

/// The bodies creating the payload indexes, in order.
pub fn payload_index_bodies() -> (res: Vec<Json>)
    ensures
        res@.len() == payload_index_fields().len(),
        forall|i: int|
            0 <= i < res@.len() ==> #[trigger] res@[i].view() == obj2(
                "field_name"@,
                JsonView::Str(payload_index_fields()[i].0),
                "field_schema"@,
                JsonView::Str(payload_index_fields()[i].1),
            ),
{
    let fields: [(&str, &str); 5] = [
        ("project_id", "keyword"),
        ("memory_type", "keyword"),
        ("tags", "keyword"),
        ("timestamp", "datetime"),
        ("chunk_hash", "keyword"),
    ];
    let mut out: Vec<Json> = Vec::new();
    let mut i: usize = 0;
    while i < 5
        invariant
            i <= 5,
            out@.len() == i,
            fields@ == seq![
                ("project_id", "keyword"),
                ("memory_type", "keyword"),
                ("tags", "keyword"),
                ("timestamp", "datetime"),
                ("chunk_hash", "keyword"),
            ],
            forall|k: int|
                0 <= k < i ==> #[trigger] out@[k].view() == obj2(
                    "field_name"@,
                    JsonView::Str(payload_index_fields()[k].0),
                    "field_schema"@,
                    JsonView::Str(payload_index_fields()[k].1),
                ),
        decreases 5 - i,
    {
        let (field, schema) = fields[i];
        out.push(
            object2("field_name", Json::Str(owned(field)), "field_schema", Json::Str(owned(schema))),
        );
        i = i + 1;
    }
    out
}

/// Reads the status of a write: success (`200..=299`) or an unexpected status.
pub fn check_status(status: u16, body: String) -> (res: Result<(), QdrantError>)
    ensures
        200 <= status <= 299 ==> res is Ok,
        !(200 <= status <= 299) ==> (res matches Err(QdrantError::UnexpectedStatus { status: s, body: b })
            && s == status && b@ == body@),
{
    if 200 <= status && status <= 299 {
        Ok(())
    } else {
        Err(QdrantError::UnexpectedStatus { status, body })
    }
}

/// Reads the status of a collection lookup: 200 means it exists, 404 that it
/// does not, anything else is an error.
pub fn collection_presence(status: u16, body: String) -> (res: Result<bool, QdrantError>)
    ensures
        status == 200 ==> res == Ok::<bool, QdrantError>(true),
        status == 404 ==> res == Ok::<bool, QdrantError>(false),
        status != 200 && status != 404 ==> (res matches Err(
            QdrantError::UnexpectedStatus { status: s, body: b },
        ) && s == status && b@ == body@),
{
    if status == 200 {
        Ok(true)
    } else if status == 404 {
        Ok(false)
    } else {
        Err(QdrantError::UnexpectedStatus { status, body })
    }
}

/// Whether a payload index request left the index in place: it was created
/// (`200..=299`) or already existed (409).  Other statuses are reported and
/// skipped.
pub fn payload_index_ensured(status: u16) -> (ok: bool)
    ensures
        ok == ((200 <= status <= 299) || status == 409),
{
    (200 <= status && status <= 299) || status == 409
}

/// Points read per scroll page.
pub const DEFAULT_SCROLL_LIMIT: u64 = 512;

/// The filter a scroll uses: the given one, else one without conditions.
pub open spec fn scroll_filter(filter: Option<JsonView>) -> JsonView {
    match filter {
        Some(f) => f,
        None => obj1("must"@, JsonView::Array(Seq::empty())),
    }
}

/// The body of a plain scroll page: requested payload fields, no vectors, 512
/// points, the page offset when there is one, and the filter.
pub open spec fn scroll_body_view(
    with_payload: JsonView,
    offset: Option<JsonView>,
    filter: Option<JsonView>,
) -> JsonView {
    JsonView::Object(
        seq![
            ("with_payload"@, with_payload),
            ("with_vector"@, JsonView::Bool(false)),
            ("limit"@, JsonView::Number(NumberView::U64(512))),
        ] + match offset {
            Some(o) => seq![("offset"@, o)],
            None => Seq::empty(),
        } + seq![("filter"@, scroll_filter(filter))],
    )
}

/// A scroll page filters by exactly the filter it is given; only without a
/// filter does it send the match-all `{"must": []}`.  The other entries are the
/// requested payload fields, no vectors and a page of 512 points.
pub proof fn lemma_scroll_body_filter(
    with_payload: JsonView,
    offset: Option<JsonView>,
    filter: Option<JsonView>,
)
    ensures
        scroll_body_view(with_payload, offset, filter) matches JsonView::Object(es) && {
            &&& lookup(es, "filter"@) == Some(
                match filter {
                    Some(f) => f,
                    None => JsonView::Object(seq![("must"@, JsonView::Array(Seq::empty()))]),
                },
            )
            &&& lookup(es, "with_payload"@) == Some(with_payload)
            &&& lookup(es, "with_vector"@) == Some(JsonView::Bool(false))
            &&& lookup(es, "limit"@) == Some(JsonView::Number(NumberView::U64(512)))
            &&& lookup(es, "offset"@) == offset
        },
{
    reveal_strlit("filter");
    reveal_strlit("with_payload");
    reveal_strlit("with_vector");
    reveal_strlit("limit");
    reveal_strlit("offset");
    let es = match scroll_body_view(with_payload, offset, filter) {
        JsonView::Object(x) => x,
        _ => Seq::empty(),
    };
    let n = es.len() - 1;
    assert(es[n].0 == "filter"@);
    assert(es[0].0 == "with_payload"@);
    assert(es[1].0 == "with_vector"@);
    assert(es[2].0 == "limit"@);
    assert forall|j: int| 0 <= j < n implies es[j].0 != "filter"@ by {
        assert(es[j].0.len() != 6 || es[j].0[0] != 'f');
    }
    crate::json::lemma_key_index_at(es, "filter"@, n);
    crate::json::lemma_key_index_at(es, "with_payload"@, 0);
    assert("with_vector"@[5] != "with_payload"@[5]);
    crate::json::lemma_key_index_at(es, "with_vector"@, 1);
    crate::json::lemma_key_index_at(es, "limit"@, 2);
    match offset {
        Some(o) => {
            assert(es[3].0 == "offset"@);
            crate::json::lemma_key_index_at(es, "offset"@, 3);
        },
        None => {
            assert forall|j: int| 0 <= j < es.len() implies es[j].0 != "offset"@ by {
                assert(es[j].0.len() != 6 || es[j].0[0] != 'o');
            }
            crate::json::lemma_key_index_absent(es, "offset"@);
        },
    }
}

/// A chronological scroll page also filters by exactly the filter it is given
/// (the match-all `{"must": []}` only without one) and always sends its page
/// offset, `null` on the first page.
pub proof fn lemma_ordered_scroll_body_filter(
    with_payload: JsonView,
    offset: Option<JsonView>,
    filter: Option<JsonView>,
)
    ensures
        match ordered_scroll_body_view(with_payload, offset, filter) {
            JsonView::Object(es) => {
                &&& lookup(es, "filter"@) == Some(
                    match filter {
                        Some(f) => f,
                        None => JsonView::Object(seq![("must"@, JsonView::Array(Seq::empty()))]),
                    },
                )
                &&& lookup(es, "offset"@) == Some(
                    match offset {
                        Some(o) => o,
                        None => JsonView::Null,
                    },
                )
            },
            _ => false,
        },
{
    reveal_strlit("filter");
    reveal_strlit("with_payload");
    reveal_strlit("with_vector");
    reveal_strlit("limit");
    reveal_strlit("offset");
    let es = match ordered_scroll_body_view(with_payload, offset, filter) {
        JsonView::Object(x) => x,
        _ => Seq::empty(),
    };
    assert(es[4].0 == "filter"@);
    assert(es[3].0 == "offset"@);
    assert forall|j: int| 0 <= j < 4 implies es[j].0 != "filter"@ by {
        assert(es[j].0.len() != 6 || es[j].0[0] != 'f');
    }
    assert forall|j: int| 0 <= j < 3 implies es[j].0 != "offset"@ by {
        assert(es[j].0.len() != 6 || es[j].0[0] != 'o');
    }
    crate::json::lemma_key_index_at(es, "filter"@, 4);
    crate::json::lemma_key_index_at(es, "offset"@, 3);
}

/// The body of a chronological scroll page: as a plain one, but the offset is
/// always sent (`null` on the first page) and points are ordered by ascending
/// timestamp.
pub open spec fn ordered_scroll_body_view(
    with_payload: JsonView,
    offset: Option<JsonView>,
    filter: Option<JsonView>,
) -> JsonView {
    JsonView::Object(
        seq![
            ("with_payload"@, with_payload),
            ("with_vector"@, JsonView::Bool(false)),
            ("limit"@, JsonView::Number(NumberView::U64(512))),
            ("offset"@, match offset {
                Some(o) => o,
                None => JsonView::Null,
            }),
            ("filter"@, scroll_filter(filter)),
            ("order_by"@, JsonView::Array(
                seq![obj2("key"@, JsonView::Str("timestamp"@), "direction"@, JsonView::Str("asc"@))],
            )),
        ],
    )
}

fn copy_opt(v: &Option<Json>) -> (res: Option<Json>)
    ensures
        opt_json(res) == opt_json(*v),
{
    match v {
        Some(j) => Some(json_clone(j)),
        None => None,
    }
}

fn filter_or_empty(filter: &Option<Json>) -> (res: Json)
    ensures
        res.view() == scroll_filter(opt_json(*filter)),
{
    match filter {
        Some(f) => json_clone(f),
        None => {
            let empty = Json::Array(Vec::new());
            proof {
                crate::json::lemma_array_view(empty);
                assert(Seq::new(0, |i: int| empty->Array_0@[i].view()) =~= Seq::<JsonView>::empty());
            }
            object1("must", empty)
        },
    }
}

/// Builds the body of a plain scroll page.
pub fn scroll_body(with_payload: &Json, offset: &Option<Json>, filter: &Option<Json>) -> (res: Json)
    ensures
        res.view() == scroll_body_view(with_payload.view(), opt_json(*offset), opt_json(*filter)),
{
    let mut e: Vec<(String, Json)> = Vec::new();
    push_entry(&mut e, "with_payload", json_clone(with_payload));
    push_entry(&mut e, "with_vector", Json::Bool(false));
    push_entry(&mut e, "limit", Json::Number(JsonNumber::U64(DEFAULT_SCROLL_LIMIT)));
    match copy_opt(offset) {
        Some(o) => push_entry(&mut e, "offset", o),
        None => {},
    }
    push_entry(&mut e, "filter", filter_or_empty(filter));
    assert(entries_view(e@) =~= match scroll_body_view(
        with_payload.view(),
        opt_json(*offset),
        opt_json(*filter),
    ) {
        JsonView::Object(x) => x,
        _ => Seq::empty(),
    });
    let res = Json::Object(e);
    proof {
        lemma_object_view(res);
    }
    res
}

/// Builds the body of a chronological scroll page.
pub fn ordered_scroll_body(with_payload: &Json, offset: &Option<Json>, filter: &Option<Json>) -> (res:
    Json)
    ensures
        res.view() == ordered_scroll_body_view(
            with_payload.view(),
            opt_json(*offset),
            opt_json(*filter),
        ),
{
    let mut e: Vec<(String, Json)> = Vec::new();
    push_entry(&mut e, "with_payload", json_clone(with_payload));
    push_entry(&mut e, "with_vector", Json::Bool(false));
    push_entry(&mut e, "limit", Json::Number(JsonNumber::U64(DEFAULT_SCROLL_LIMIT)));
    let off = match copy_opt(offset) {
        Some(o) => o,
        None => Json::Null,
    };
    push_entry(&mut e, "offset", off);
    push_entry(&mut e, "filter", filter_or_empty(filter));
    let order = object2("key", Json::Str(owned("timestamp")), "direction", Json::Str(owned("asc")));
    let ghost ov = order.view();
    let arr = Json::Array(vec![order]);
    proof {
        crate::json::lemma_array_view(arr);
        assert(Seq::new(1, |i: int| arr->Array_0@[i].view()) =~= seq![ov]);
    }
    push_entry(&mut e, "order_by", arr);
    assert(entries_view(e@) =~= match ordered_scroll_body_view(
        with_payload.view(),
        opt_json(*offset),
        opt_json(*filter),
    ) {
        JsonView::Object(x) => x,
        _ => Seq::empty(),
    });
    let res = Json::Object(e);
    proof {
        lemma_object_view(res);
    }
    res
}

/// A point of a scroll page.
#[derive(Debug)]
pub struct ScrollPoint {
    /// The point identifier, when returned.
    pub id: Option<Json>,
    /// The payload, when returned.
    pub payload: Option<Vec<(String, Json)>>,
}

/// The payloads of a page, in order, skipping points without one.
pub open spec fn page_payloads(points: Seq<ScrollPoint>) -> Seq<Seq<(Seq<char>, JsonView)>>
    decreases points.len(),
{
    if points.len() == 0 {
        Seq::empty()
    } else {
        page_payloads(points.drop_last()) + match points.last().payload {
            Some(p) => seq![entries_view(p@)],
            None => Seq::empty(),
        }
    }
}

/// Appends the payloads of a page to those collected so far.
pub fn collect_page_payloads(points: Vec<ScrollPoint>, acc: &mut Vec<Vec<(String, Json)>>)
    ensures
        final(acc)@.map_values(|p: Vec<(String, Json)>| entries_view(p@)) == old(acc)@.map_values(
            |p: Vec<(String, Json)>| entries_view(p@),
        ) + page_payloads(points@),
{
    let ghost all = points@;
    let mut points = points;
    let ghost start = acc@.map_values(|p: Vec<(String, Json)>| entries_view(p@));
    let mut taken: usize = 0;
    let total = points.len();
    assert(total == all.len());
    assert(all.skip(0) =~= all);
    assert(all.take(0) =~= Seq::<ScrollPoint>::empty());
    assert(start + page_payloads(Seq::<ScrollPoint>::empty()) =~= start);
    while points.len() > 0
        invariant
            taken + points@.len() == all.len(),
            all.len() <= usize::MAX,
            points@ == all.skip(taken as int),
            acc@.map_values(|p: Vec<(String, Json)>| entries_view(p@)) == start + page_payloads(
                all.take(taken as int),
            ),
        decreases points.len(),
    {
        let point = points.remove(0);
        assert(point == all[taken as int]);
        assert(points@ =~= all.skip(taken as int + 1));
        let ghost before = acc@;
        match point.payload {
            Some(p) => {
                acc.push(p);
            },
            None => {},
        }
        proof {
            let pre = all.take(taken as int + 1);
            assert(pre.drop_last() =~= all.take(taken as int));
            assert(pre.last() == all[taken as int]);
            assert(acc@.map_values(|p: Vec<(String, Json)>| entries_view(p@)) =~= before.map_values(
                |p: Vec<(String, Json)>| entries_view(p@),
            ) + match all[taken as int].payload {
                Some(p) => seq![entries_view(p@)],
                None => Seq::<Seq<(Seq<char>, JsonView)>>::empty(),
            });
        }
        taken = taken + 1;
    }
    assert(all.take(all.len() as int) =~= all);
}

/// How a point identifier is written: strings as they are, numbers in
/// decimal, objects by their `uuid` member (else as JSON), `null` as nothing,
/// anything else as JSON.
pub open spec fn point_id_text(id: JsonView) -> Seq<char> {
    match id {
        JsonView::Str(t) => t,
        JsonView::Number(n) => number_text(n),
        JsonView::Object(entries) => match lookup(entries, "uuid"@) {
            Some(JsonView::Str(u)) => u,
            Some(other) => json_text(other),
            None => json_text(id),
        },
        JsonView::Null => Seq::empty(),
        other => json_text(other),
    }
}

/// Writes a point identifier as [`point_id_text`] describes.
pub fn stringify_point_id(id: Json) -> (res: String)
    ensures
        res@ == point_id_text(id.view()),
{
    match &id {
        Json::Str(t) => t.clone(),
        Json::Number(_) => to_json_string(&id),
        Json::Object(entries) => {
            proof {
                lemma_object_view(id);
            }
            match get_key(entries, "uuid") {
                Some(Json::Str(u)) => u.clone(),
                Some(other) => to_json_string(other),
                None => to_json_string(&id),
            }
        },
        Json::Null => String::new(),
        _ => to_json_string(&id),
    }
}

/// The identified payloads of a page, in order: points lacking an identifier or
/// a payload are skipped.
pub open spec fn page_entries(points: Seq<ScrollPoint>) -> Seq<(Seq<char>, Seq<(Seq<char>, JsonView)>)>
    decreases points.len(),
{
    if points.len() == 0 {
        Seq::empty()
    } else {
        page_entries(points.drop_last()) + match (points.last().id, points.last().payload) {
            (Some(i), Some(p)) => seq![(point_id_text(i.view()), entries_view(p@))],
            _ => Seq::empty(),
        }
    }
}

/// The model of identified payloads.
pub open spec fn entry_views(v: Seq<(String, Vec<(String, Json)>)>) -> Seq<
    (Seq<char>, Seq<(Seq<char>, JsonView)>),
> {
    v.map_values(|e: (String, Vec<(String, Json)>)| (e.0@, entries_view(e.1@)))
}

/// Appends the identified payloads of a page to those collected so far.
pub fn collect_page_entries(points: Vec<ScrollPoint>, acc: &mut Vec<(String, Vec<(String, Json)>)>)
    ensures
        entry_views(final(acc)@) == entry_views(old(acc)@) + page_entries(points@),
{
    let ghost all = points@;
    let mut points = points;
    let ghost start = entry_views(acc@);
    let mut taken: usize = 0;
    let total = points.len();
    assert(total == all.len());
    assert(all.skip(0) =~= all);
    assert(all.take(0) =~= Seq::<ScrollPoint>::empty());
    assert(start + page_entries(Seq::<ScrollPoint>::empty()) =~= start);
    while points.len() > 0
        invariant
            taken + points@.len() == all.len(),
            all.len() <= usize::MAX,
            points@ == all.skip(taken as int),
            entry_views(acc@) == start + page_entries(all.take(taken as int)),
        decreases points.len(),
    {
        let point = points.remove(0);
        assert(point == all[taken as int]);
        assert(points@ =~= all.skip(taken as int + 1));
        let ghost before = acc@;
        let ScrollPoint { id, payload } = point;
        match (id, payload) {
            (Some(i), Some(p)) => {
                let text = stringify_point_id(i);
                acc.push((text, p));
            },
            _ => {},
        }
        proof {
            let pre = all.take(taken as int + 1);
            assert(pre.drop_last() =~= all.take(taken as int));
            assert(pre.last() == all[taken as int]);
            assert(entry_views(acc@) =~= entry_views(before) + match (
                all[taken as int].id,
                all[taken as int].payload,
            ) {
                (Some(i), Some(p)) => seq![(point_id_text(i.view()), entries_view(p@))],
                _ => Seq::<(Seq<char>, Seq<(Seq<char>, JsonView)>)>::empty(),
            });
        }
        taken = taken + 1;
    }
    assert(all.take(all.len() as int) =~= all);
}

/// How an indexing request was applied: every point written is counted as
/// inserted.
pub fn index_summary(point_count: usize) -> (res: IndexSummary)
    ensures
        res == (IndexSummary { inserted: point_count, updated: 0 }),
{
    IndexSummary { inserted: point_count, updated: 0 }
}

/// `uuid::Uuid::new_v4().to_string()`: a fresh random identifier in
/// hyphenated form, 36 characters long.  Two calls may return anything else.
#[verifier::external_body]
fn generate_memory_id() -> (res: String)
    ensures
        res@.len() == 36,
{
    uuid::Uuid::new_v4().to_string()
}

/// `time::OffsetDateTime::now_utc()` formatted with the RFC 3339 format
/// description; `None` when the formatter refuses the instant (a year outside
/// 0..=9999).  Which instant it names depends on the clock and is left unsaid;
/// stated is only that a text it returns parses back as RFC 3339, as `time`'s
/// formatter writes exactly the date, time and `Z` offset its parser reads.
#[verifier::external_body]
fn format_now_rfc3339() -> (res: Option<String>)
    ensures
        res matches Some(t) ==> rfc3339_instant(t@) is Some,
{
    time::OffsetDateTime::now_utc().format(&time::format_description::well_known::Rfc3339).ok()
}

/// The epoch in RFC 3339, used when the current time cannot be formatted.
pub const EPOCH_RFC3339: &'static str = "1970-01-01T00:00:00Z";

/// The current time in RFC 3339, or the epoch when it cannot be formatted.
pub fn current_timestamp() -> (res: String)
    ensures
        rfc3339_instant(res@) is Some || res@ == EPOCH_RFC3339@,
{
    match format_now_rfc3339() {
        Some(t) => t,
        None => owned(EPOCH_RFC3339),
    }
}

/// The points an indexing request writes: for each chunk a fresh identifier and
/// the payload built with the chunk's text and hash, one shared timestamp and
/// the overrides.  The timestamp (RFC 3339, or the epoch when the clock cannot
/// be formatted) is returned first.
pub fn prepare_points(chunks: &Vec<PreparedChunk>, overrides: &PayloadOverrides) -> (res: (
    String,
    Vec<(String, Json)>,
))
    ensures
        rfc3339_instant(res.0@) is Some || res.0@ == EPOCH_RFC3339@,
        res.1@.len() == chunks@.len(),
        forall|i: int|
            0 <= i < chunks@.len() ==> {
                &&& (#[trigger] res.1@[i]).0@.len() == 36
                &&& res.1@[i].1.view() == JsonView::Object(
                    payload_entries(
                        res.1@[i].0@,
                        chunks@[i].text@,
                        res.0@,
                        chunks@[i].chunk_hash@,
                        overrides.view(),
                    ),
                )
            },
{
    let now = current_timestamp();
    let mut out: Vec<(String, Json)> = Vec::new();
    let mut i: usize = 0;
    while i < chunks.len()
        invariant
            i <= chunks.len(),
            out@.len() == i,
            forall|k: int|
                0 <= k < i ==> {
                    &&& (#[trigger] out@[k]).0@.len() == 36
                    &&& out@[k].1.view() == JsonView::Object(
                        payload_entries(
                            out@[k].0@,
                            chunks@[k].text@,
                            now@,
                            chunks@[k].chunk_hash@,
                            overrides.view(),
                        ),
                    )
                },
        decreases chunks.len() - i,
    {
        let id = generate_memory_id();
        let payload = build_payload(
            id.as_str(),
            chunks[i].text.as_str(),
            now.as_str(),
            chunks[i].chunk_hash.as_str(),
            overrides,
        );
        out.push((id, payload));
        i = i + 1;
    }
    (now, out)
}

} // verus!
