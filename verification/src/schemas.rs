//! JSON schemas describing the inputs of the MCP tools.
use crate::json::{lemma_object_view, str_array_v, string_array, Json, JsonNumber, JsonView, NumberView};
use crate::text::{owned, views};
use crate::tools::{push_entry, uint_v};
use vstd::prelude::*;

verus! {

/// A string value.
pub open spec fn sv(t: Seq<char>) -> JsonView {
    JsonView::Str(t)
}

/// A schema of a given type with a description.
pub open spec fn typed_v(ty: Seq<char>, description: Seq<char>) -> Seq<(Seq<char>, JsonView)> {
    seq![("type"@, sv(ty)), ("description"@, sv(description))]
}

/// The schema of a described string.
pub open spec fn string_schema_v(description: Seq<char>) -> JsonView {
    JsonView::Object(typed_v("string"@, description))
}

/// An object schema over properties, with the required keys (when any) and no
/// additional properties.
pub open spec fn object_schema_v(
    properties: Seq<(Seq<char>, JsonView)>,
    required: Seq<Seq<char>>,
) -> Seq<(Seq<char>, JsonView)> {
    seq![("type"@, sv("object"@)), ("properties"@, JsonView::Object(properties))] + (if required.len()
        > 0 {
        seq![("required"@, str_array_v(required))]
    } else {
        Seq::empty()
    }) + seq![("additionalProperties"@, JsonView::Bool(false))]
}

fn obj(entries: Vec<(String, Json)>) -> (res: Json)
    ensures
        res.view() == JsonView::Object(crate::json::entries_view(entries@)),
{
    let res = Json::Object(entries);
    proof {
        lemma_object_view(res);
    }
    res
}

fn typed(ty: &str, description: &str) -> (res: Vec<(String, Json)>)
    ensures
        crate::json::entries_view(res@) == typed_v(ty@, description@),
{
    let mut e: Vec<(String, Json)> = Vec::new();
    push_entry(&mut e, "type", Json::Str(owned(ty)));
    push_entry(&mut e, "description", Json::Str(owned(description)));
    assert(crate::json::entries_view(e@) =~= typed_v(ty@, description@));
    e
}

/// Builds the schema of a described string.
pub fn string_schema(description: &str) -> (res: Json)
    ensures
        res.view() == string_schema_v(description@),
{
    obj(typed("string", description))
}

/// Builds an object schema over properties.
pub fn finalize_object_schema(properties: Vec<(String, Json)>, required: &Vec<String>) -> (res: Vec<
    (String, Json),
>)
    ensures
        crate::json::entries_view(res@) == object_schema_v(
            crate::json::entries_view(properties@),
            views(required@),
        ),
{
    let ghost pv = crate::json::entries_view(properties@);
    let mut schema: Vec<(String, Json)> = Vec::new();
    push_entry(&mut schema, "type", Json::Str(owned("object")));
    push_entry(&mut schema, "properties", obj(properties));
    if required.len() > 0 {
        push_entry(&mut schema, "required", string_array(required));
    }
    push_entry(&mut schema, "additionalProperties", Json::Bool(false));
    assert(crate::json::entries_view(schema@) =~= object_schema_v(pv, views(required@)));
    schema
}

/// The schema of a parameterless tool.
pub fn empty_object_schema() -> (res: Vec<(String, Json)>)
    ensures
        crate::json::entries_view(res@) == object_schema_v(Seq::empty(), Seq::empty()),
{
    let required: Vec<String> = Vec::new();
    let properties: Vec<(String, Json)> = Vec::new();
    assert(crate::json::entries_view(properties@) =~= Seq::empty());
    assert(views(required@) =~= Seq::empty());
    finalize_object_schema(properties, &required)
}

/// The memory types as an enumeration.
pub open spec fn memory_types_v() -> JsonView {
    str_array_v(seq!["episodic"@, "semantic"@, "procedural"@])
}

fn memory_types_json() -> (res: Json)
    ensures
        res.view() == memory_types_v(),
{
    let v = vec![owned("episodic"), owned("semantic"), owned("procedural")];
    assert(views(v@) =~= seq!["episodic"@, "semantic"@, "procedural"@]);
    string_array(&v)
}

/// The schema of a tag list.
pub open spec fn tags_schema_v(description: Seq<char>) -> JsonView {
    JsonView::Object(
        typed_v("array"@, description) + seq![
            ("items"@, JsonView::Object(seq![("type"@, sv("string"@))])),
        ],
    )
}

fn tags_schema(description: &str) -> (res: Json)
    ensures
        res.view() == tags_schema_v(description@),
{
    let mut item: Vec<(String, Json)> = Vec::new();
    push_entry(&mut item, "type", Json::Str(owned("string")));
    assert(crate::json::entries_view(item@) =~= seq![("type"@, sv("string"@))]);
    let mut e = typed("array", description);
    push_entry(&mut e, "items", obj(item));
    assert(crate::json::entries_view(e@) =~= typed_v("array"@, description@) + seq![
        ("items"@, JsonView::Object(seq![("type"@, sv("string"@))])),
    ]);
    obj(e)
}

/// The schema of a time range with described boundaries.
pub open spec fn time_range_schema_v(start: Seq<char>, end: Seq<char>) -> JsonView {
    JsonView::Object(
        seq![
            ("type"@, sv("object"@)),
            ("properties"@, JsonView::Object(
                seq![("start"@, string_schema_v(start)), ("end"@, string_schema_v(end))],
            )),
            ("additionalProperties"@, JsonView::Bool(false)),
        ],
    )
}

fn time_range_schema(start: &str, end: &str) -> (res: Json)
    ensures
        res.view() == time_range_schema_v(start@, end@),
{
    let mut props: Vec<(String, Json)> = Vec::new();
    push_entry(&mut props, "start", string_schema(start));
    push_entry(&mut props, "end", string_schema(end));
    assert(crate::json::entries_view(props@) =~= seq![
        ("start"@, string_schema_v(start@)),
        ("end"@, string_schema_v(end@)),
    ]);
    let mut e: Vec<(String, Json)> = Vec::new();
    push_entry(&mut e, "type", Json::Str(owned("object")));
    push_entry(&mut e, "properties", obj(props));
    push_entry(&mut e, "additionalProperties", Json::Bool(false));
    assert(crate::json::entries_view(e@) =~= seq![
        ("type"@, sv("object"@)),
        ("properties"@, JsonView::Object(
            seq![("start"@, string_schema_v(start@)), ("end"@, string_schema_v(end@))],
        )),
        ("additionalProperties"@, JsonView::Bool(false)),
    ]);
    obj(e)
}

/// The properties of the `push` tool's input.
pub open spec fn index_properties_v() -> Seq<(Seq<char>, JsonView)> {
    seq![
        ("text"@, string_schema_v("Document contents to index"@)),
        ("collection"@, JsonView::Object(
            typed_v("string"@, "Optional override for the Qdrant collection"@),
        )),
        ("project_id"@, JsonView::Object(
            typed_v("string"@, "Optional project identifier; defaults to 'default'."@) + seq![
                ("default"@, sv("default"@)),
            ],
        )),
        ("memory_type"@, JsonView::Object(
            typed_v("string"@, "Optional memory type; defaults to 'semantic'."@) + seq![
                ("enum"@, memory_types_v()),
                ("default"@, sv("semantic"@)),
            ],
        )),
        ("tags"@, tags_schema_v("Optional tags applied to each chunk."@)),
        ("source_uri"@, JsonView::Object(
            typed_v("string"@, "Optional URI (file path, URL) describing the memory source."@),
        )),
    ]
}

/// Builds the schema of the `push` tool's input.
pub fn index_input_schema() -> (res: Vec<(String, Json)>)
    ensures
        crate::json::entries_view(res@) == object_schema_v(index_properties_v(), seq!["text"@]),
{
    let mut p: Vec<(String, Json)> = Vec::new();
    push_entry(&mut p, "text", string_schema("Document contents to index"));
    push_entry(
        &mut p,
        "collection",
        obj(typed("string", "Optional override for the Qdrant collection")),
    );
    let mut project = typed("string", "Optional project identifier; defaults to 'default'.");
    push_entry(&mut project, "default", Json::Str(owned("default")));
    assert(crate::json::entries_view(project@) =~= typed_v(
        "string"@,
        "Optional project identifier; defaults to 'default'."@,
    ) + seq![("default"@, sv("default"@))]);
    push_entry(&mut p, "project_id", obj(project));
    let mut memory = typed("string", "Optional memory type; defaults to 'semantic'.");
    push_entry(&mut memory, "enum", memory_types_json());
    push_entry(&mut memory, "default", Json::Str(owned("semantic")));
    assert(crate::json::entries_view(memory@) =~= typed_v(
        "string"@,
        "Optional memory type; defaults to 'semantic'."@,
    ) + seq![("enum"@, memory_types_v()), ("default"@, sv("semantic"@))]);
    push_entry(&mut p, "memory_type", obj(memory));
    push_entry(&mut p, "tags", tags_schema("Optional tags applied to each chunk."));
    push_entry(
        &mut p,
        "source_uri",
        obj(typed("string", "Optional URI (file path, URL) describing the memory source.")),
    );
    assert(crate::json::entries_view(p@) =~= index_properties_v());
    let required = vec![owned("text")];
    assert(views(required@) =~= seq!["text"@]);
    finalize_object_schema(p, &required)
}

/// The properties of the `new-collection` tool's input.
pub open spec fn create_collection_properties_v() -> Seq<(Seq<char>, JsonView)> {
    seq![
        ("name"@, string_schema_v("Collection name"@)),
        ("vector_size"@, JsonView::Object(
            typed_v("integer"@, "Vector dimension (defaults to EMBEDDING_DIMENSION)"@),
        )),
    ]
}

/// Builds the schema of the `new-collection` tool's input.
pub fn create_collection_input_schema() -> (res: Vec<(String, Json)>)
    ensures
        crate::json::entries_view(res@) == object_schema_v(
            create_collection_properties_v(),
            seq!["name"@],
        ),
{
    let mut p: Vec<(String, Json)> = Vec::new();
    push_entry(&mut p, "name", string_schema("Collection name"));
    push_entry(
        &mut p,
        "vector_size",
        obj(typed("integer", "Vector dimension (defaults to EMBEDDING_DIMENSION)")),
    );
    assert(crate::json::entries_view(p@) =~= create_collection_properties_v());
    let required = vec![owned("name")];
    assert(views(required@) =~= seq!["name"@]);
    finalize_object_schema(p, &required)
}

/// A described integer with a lower bound of one.
pub open spec fn bounded_integer_v(description: Seq<char>) -> Seq<(Seq<char>, JsonView)> {
    typed_v("integer"@, description) + seq![("minimum"@, uint_v(1))]
}

fn bounded_integer(description: &str) -> (res: Vec<(String, Json)>)
    ensures
        crate::json::entries_view(res@) == bounded_integer_v(description@),
{
    let mut e = typed("integer", description);
    push_entry(&mut e, "minimum", Json::Number(JsonNumber::U64(1)));
    assert(crate::json::entries_view(e@) =~= bounded_integer_v(description@));
    e
}

fn float_number(text: &str) -> (res: Json)
    ensures
        res.view() == JsonView::Number(NumberView::Float(text@)),
{
    Json::Number(JsonNumber::Float(owned(text)))
}

/// The properties of the `search` tool's input, for the configured default and
/// maximum limits and default score threshold.
pub open spec fn search_properties_v(
    default_limit: nat,
    max_limit: nat,
    default_threshold: JsonView,
) -> Seq<(Seq<char>, JsonView)> {
    seq![
        ("query_text"@, string_schema_v("Natural language query text to embed and search with"@)),
        ("project_id"@, JsonView::Object(
            typed_v("string"@, "Filter results to a specific project_id"@) + seq![
                ("default"@, sv("default"@)),
            ],
        )),
        ("memory_type"@, JsonView::Object(
            typed_v("string"@, "Filter results to a specific memory_type"@) + seq![
                ("enum"@, memory_types_v()),
            ],
        )),
        ("tags"@, tags_schema_v("Contains-any filter applied to payload tags"@)),
        ("time_range"@, time_range_schema_v(
            "Inclusive RFC3339 timestamp lower bound"@,
            "Inclusive RFC3339 timestamp upper bound"@,
        )),
        ("limit"@, JsonView::Object(
            bounded_integer_v("Maximum number of results to return"@) + seq![
                ("default"@, uint_v(default_limit)),
                ("maximum"@, uint_v(max_limit)),
            ],
        )),
        ("score_threshold"@, JsonView::Object(
            typed_v("number"@, "Minimum score threshold for matches"@) + seq![
                ("minimum"@, JsonView::Number(NumberView::Float("0.0"@))),
                ("maximum"@, JsonView::Number(NumberView::Float("1.0"@))),
                ("default"@, default_threshold),
            ],
        )),
        ("collection"@, JsonView::Object(typed_v("string"@, "Optional collection override"@))),
    ]
}

/// The two request examples attached to the `search` schema: one with the
/// canonical argument names and one with their aliases.
pub open spec fn search_examples_v() -> JsonView {
    JsonView::Array(
        seq![
            JsonView::Object(
                seq![
                    ("query_text"@, sv("current architecture plan"@)),
                    ("project_id"@, sv("default"@)),
                    ("memory_type"@, sv("semantic"@)),
                    ("tags"@, str_array_v(seq!["architecture"@])),
                    ("limit"@, uint_v(5)),
                ],
            ),
            JsonView::Object(
                seq![
                    ("query_text"@, sv("error budget policy"@)),
                    ("project"@, sv("site"@)),
                    ("type"@, sv("procedural"@)),
                    ("tags"@, sv("sre"@)),
                    ("k"@, uint_v(3)),
                ],
            ),
        ],
    )
}

fn search_examples() -> (res: Json)
    ensures
        res.view() == search_examples_v(),
{
    let mut canonical: Vec<(String, Json)> = Vec::new();
    push_entry(&mut canonical, "query_text", Json::Str(owned("current architecture plan")));
    push_entry(&mut canonical, "project_id", Json::Str(owned("default")));
    push_entry(&mut canonical, "memory_type", Json::Str(owned("semantic")));
    let tags = vec![owned("architecture")];
    assert(views(tags@) =~= seq!["architecture"@]);
    push_entry(&mut canonical, "tags", string_array(&tags));
    push_entry(&mut canonical, "limit", Json::Number(JsonNumber::U64(5)));
    let mut aliases: Vec<(String, Json)> = Vec::new();
    push_entry(&mut aliases, "query_text", Json::Str(owned("error budget policy")));
    push_entry(&mut aliases, "project", Json::Str(owned("site")));
    push_entry(&mut aliases, "type", Json::Str(owned("procedural")));
    push_entry(&mut aliases, "tags", Json::Str(owned("sre")));
    push_entry(&mut aliases, "k", Json::Number(JsonNumber::U64(3)));
    assert(crate::json::entries_view(canonical@) =~= seq![
        ("query_text"@, sv("current architecture plan"@)),
        ("project_id"@, sv("default"@)),
        ("memory_type"@, sv("semantic"@)),
        ("tags"@, str_array_v(seq!["architecture"@])),
        ("limit"@, uint_v(5)),
    ]);
    assert(crate::json::entries_view(aliases@) =~= seq![
        ("query_text"@, sv("error budget policy"@)),
        ("project"@, sv("site"@)),
        ("type"@, sv("procedural"@)),
        ("tags"@, sv("sre"@)),
        ("k"@, uint_v(3)),
    ]);
    let first = obj(canonical);
    let second = obj(aliases);
    let ghost fv = first.view();
    let ghost sv2 = second.view();
    let items = vec![first, second];
    let res = Json::Array(items);
    proof {
        crate::json::lemma_array_view(res);
        assert(Seq::new(2, |i: int| res->Array_0@[i].view()) =~= seq![fv, sv2]);
    }
    res
}

/// Builds the schema of the `search` tool's input from the configured default
/// and maximum limits and default score threshold.
pub fn search_input_schema(default_limit: usize, max_limit: usize, default_threshold: Json) -> (res:
    Vec<(String, Json)>)
    ensures
        crate::json::entries_view(res@) == object_schema_v(
            search_properties_v(default_limit as nat, max_limit as nat, default_threshold.view()),
            seq!["query_text"@],
        ).push(("examples"@, search_examples_v())),
{
    let ghost tv = default_threshold.view();
    let mut p: Vec<(String, Json)> = Vec::new();
    push_entry(
        &mut p,
        "query_text",
        string_schema("Natural language query text to embed and search with"),
    );
    let mut project = typed("string", "Filter results to a specific project_id");
    push_entry(&mut project, "default", Json::Str(owned("default")));
    assert(crate::json::entries_view(project@) =~= typed_v(
        "string"@,
        "Filter results to a specific project_id"@,
    ) + seq![("default"@, sv("default"@))]);
    push_entry(&mut p, "project_id", obj(project));
    let mut memory = typed("string", "Filter results to a specific memory_type");
    push_entry(&mut memory, "enum", memory_types_json());
    assert(crate::json::entries_view(memory@) =~= typed_v(
        "string"@,
        "Filter results to a specific memory_type"@,
    ) + seq![("enum"@, memory_types_v())]);
    push_entry(&mut p, "memory_type", obj(memory));
    push_entry(&mut p, "tags", tags_schema("Contains-any filter applied to payload tags"));
    push_entry(
        &mut p,
        "time_range",
        time_range_schema(
            "Inclusive RFC3339 timestamp lower bound",
            "Inclusive RFC3339 timestamp upper bound",
        ),
    );
    let mut limit = bounded_integer("Maximum number of results to return");
    push_entry(&mut limit, "default", Json::Number(JsonNumber::U64(default_limit as u64)));
    push_entry(&mut limit, "maximum", Json::Number(JsonNumber::U64(max_limit as u64)));
    assert(crate::json::entries_view(limit@) =~= bounded_integer_v(
        "Maximum number of results to return"@,
    ) + seq![
        ("default"@, uint_v(default_limit as nat)),
        ("maximum"@, uint_v(max_limit as nat)),
    ]);
    push_entry(&mut p, "limit", obj(limit));
    let mut threshold = typed("number", "Minimum score threshold for matches");
    push_entry(&mut threshold, "minimum", float_number("0.0"));
    push_entry(&mut threshold, "maximum", float_number("1.0"));
    push_entry(&mut threshold, "default", default_threshold);
    assert(crate::json::entries_view(threshold@) =~= typed_v(
        "number"@,
        "Minimum score threshold for matches"@,
    ) + seq![
        ("minimum"@, JsonView::Number(NumberView::Float("0.0"@))),
        ("maximum"@, JsonView::Number(NumberView::Float("1.0"@))),
        ("default"@, tv),
    ]);
    push_entry(&mut p, "score_threshold", obj(threshold));
    push_entry(&mut p, "collection", obj(typed("string", "Optional collection override")));
    assert(crate::json::entries_view(p@) =~= search_properties_v(
        default_limit as nat,
        max_limit as nat,
        tv,
    ));
    let required = vec![owned("query_text")];
    assert(views(required@) =~= seq!["query_text"@]);
    let mut schema = finalize_object_schema(p, &required);
    push_entry(&mut schema, "examples", search_examples());
    schema
}

/// The properties of the `summarize` tool's input, for the configured maximum
/// limit.
pub open spec fn summarize_properties_v(max_limit: nat) -> Seq<(Seq<char>, JsonView)> {
    seq![
        ("project_id"@, JsonView::Object(
            typed_v(
                "string"@,
                "Optional project filter; defaults to 'default' when omitted"@,
            ) + seq![("default"@, sv("default"@))],
        )),
        ("memory_type"@, JsonView::Object(
            typed_v("string"@, "Memory type to summarize (default: 'episodic')"@) + seq![
                ("enum"@, memory_types_v()),
                ("default"@, sv("episodic"@)),
            ],
        )),
        ("tags"@, tags_schema_v(
            "Optional contains-any tag filter applied to episodic memories"@,
        )),
        ("time_range"@, time_range_schema_v(
            "Inclusive RFC3339 start timestamp"@,
            "Inclusive RFC3339 end timestamp"@,
        )),
        ("limit"@, JsonView::Object(
            bounded_integer_v(
                "Maximum episodic memories to include in the summarization prompt"@,
            ) + seq![("maximum"@, uint_v(max_limit)), ("default"@, uint_v(50))],
        )),
        ("strategy"@, JsonView::Object(
            seq![
                ("type"@, sv("string"@)),
                ("enum"@, str_array_v(seq!["auto"@, "abstractive"@, "extractive"@])),
                ("default"@, sv("auto"@)),
            ],
        )),
        ("provider"@, JsonView::Object(
            seq![("type"@, sv("string"@)), ("enum"@, str_array_v(seq!["ollama"@, "none"@]))],
        )),
        ("model"@, string_schema_v("Optional override for the summarization model"@)),
        ("max_words"@, JsonView::Object(
            bounded_integer_v("Word budget for the final summary (must be > 0)"@),
        )),
        ("collection"@, string_schema_v("Optional collection override"@)),
    ]
}

/// Builds the schema of the `summarize` tool's input from the configured
/// maximum limit.
pub fn summarize_input_schema(max_limit: usize) -> (res: Vec<(String, Json)>)
    ensures
        crate::json::entries_view(res@) == object_schema_v(
            summarize_properties_v(max_limit as nat),
            seq!["time_range"@],
        ),
{
    let mut p: Vec<(String, Json)> = Vec::new();
    let mut project = typed(
        "string",
        "Optional project filter; defaults to 'default' when omitted",
    );
    push_entry(&mut project, "default", Json::Str(owned("default")));
    assert(crate::json::entries_view(project@) =~= typed_v(
        "string"@,
        "Optional project filter; defaults to 'default' when omitted"@,
    ) + seq![("default"@, sv("default"@))]);
    push_entry(&mut p, "project_id", obj(project));
    let mut memory = typed("string", "Memory type to summarize (default: 'episodic')");
    push_entry(&mut memory, "enum", memory_types_json());
    push_entry(&mut memory, "default", Json::Str(owned("episodic")));
    assert(crate::json::entries_view(memory@) =~= typed_v(
        "string"@,
        "Memory type to summarize (default: 'episodic')"@,
    ) + seq![("enum"@, memory_types_v()), ("default"@, sv("episodic"@))]);
    push_entry(&mut p, "memory_type", obj(memory));
    push_entry(
        &mut p,
        "tags",
        tags_schema("Optional contains-any tag filter applied to episodic memories"),
    );
    push_entry(
        &mut p,
        "time_range",
        time_range_schema("Inclusive RFC3339 start timestamp", "Inclusive RFC3339 end timestamp"),
    );
    let mut limit = bounded_integer(
        "Maximum episodic memories to include in the summarization prompt",
    );
    push_entry(&mut limit, "maximum", Json::Number(JsonNumber::U64(max_limit as u64)));
    push_entry(&mut limit, "default", Json::Number(JsonNumber::U64(50)));
    assert(crate::json::entries_view(limit@) =~= bounded_integer_v(
        "Maximum episodic memories to include in the summarization prompt"@,
    ) + seq![("maximum"@, uint_v(max_limit as nat)), ("default"@, uint_v(50))]);
    push_entry(&mut p, "limit", obj(limit));
    let mut strategy: Vec<(String, Json)> = Vec::new();
    push_entry(&mut strategy, "type", Json::Str(owned("string")));
    let strategies = vec![owned("auto"), owned("abstractive"), owned("extractive")];
    assert(views(strategies@) =~= seq!["auto"@, "abstractive"@, "extractive"@]);
    push_entry(&mut strategy, "enum", string_array(&strategies));
    push_entry(&mut strategy, "default", Json::Str(owned("auto")));
    assert(crate::json::entries_view(strategy@) =~= seq![
        ("type"@, sv("string"@)),
        ("enum"@, str_array_v(seq!["auto"@, "abstractive"@, "extractive"@])),
        ("default"@, sv("auto"@)),
    ]);
    push_entry(&mut p, "strategy", obj(strategy));
    let mut provider: Vec<(String, Json)> = Vec::new();
    push_entry(&mut provider, "type", Json::Str(owned("string")));
    let providers = vec![owned("ollama"), owned("none")];
    assert(views(providers@) =~= seq!["ollama"@, "none"@]);
    push_entry(&mut provider, "enum", string_array(&providers));
    assert(crate::json::entries_view(provider@) =~= seq![
        ("type"@, sv("string"@)),
        ("enum"@, str_array_v(seq!["ollama"@, "none"@])),
    ]);
    push_entry(&mut p, "provider", obj(provider));
    push_entry(&mut p, "model", string_schema("Optional override for the summarization model"));
    push_entry(
        &mut p,
        "max_words",
        obj(bounded_integer("Word budget for the final summary (must be > 0)")),
    );
    push_entry(&mut p, "collection", string_schema("Optional collection override"));
    assert(crate::json::entries_view(p@) =~= summarize_properties_v(max_limit as nat));
    let required = vec![owned("time_range")];
    assert(views(required@) =~= seq!["time_range"@]);
    finalize_object_schema(p, &required)
}

} // verus!
