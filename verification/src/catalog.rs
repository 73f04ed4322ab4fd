//! What the server offers, described for its clients: the MCP tools with their
//! input schemas and hints, the readable resources and resource template, the
//! initialisation instructions, the usage guide, and the REST command catalog.
use crate::json::{entries_view, lemma_object_view, str_array_v, string_array, Json, JsonNumber, JsonView};
use crate::schemas::{
    create_collection_input_schema, create_collection_properties_v, empty_object_schema,
    index_input_schema, index_properties_v, object_schema_v, search_examples_v,
    search_input_schema, search_properties_v, summarize_input_schema, summarize_properties_v,
};
use crate::server::{
    HEALTH_URI, MEMORY_TYPES_URI, PROJECTS_URI, PROJECT_TAGS_TEMPLATE_URI, SETTINGS_URI, USAGE_URI,
};
use crate::text::{append_str, decimal, owned, usize_decimal, views};
use crate::tools::push_entry;
use vstd::prelude::*;

verus! {

/// Opening of the `search` tool description, up to the default limit.
pub const SEARCH_DESCRIPTION_INTRO: &'static str = "Semantic search over indexed memories. Provide a short `query_text` plus optional filters (`project_id`/`project`, `memory_type`/`type`, `tags`, `time_range`, `collection`, `limit`/`k`).\n\nUsage policy: Do not paste large documents into prompts; index text with `push` first, then `search` to retrieve. Keep `query_text` concise (<=512 chars).\n\nDefaults: `limit=";
/// Text between the default limit and the default score threshold.
pub const SEARCH_DESCRIPTION_THRESHOLD: &'static str = "`, `score_threshold=";
/// Text between the default score threshold and the example's limit.
pub const SEARCH_DESCRIPTION_EXAMPLE: &'static str = "`. Response returns `results`, prompt-ready `context`, and `used_filters`. Example: {\\n  \\\"query_text\\\": \\\"current architecture plan\\\",\\n  \\\"project_id\\\": \\\"default\\\",\\n  \\\"tags\\\": [\\\"architecture\\\"],\\n  \\\"limit\\\": ";
/// Closing of the `search` tool description.
pub const SEARCH_DESCRIPTION_END: &'static str = "\\n}.";
/// Description of the `push` tool.
pub const PUSH_DESCRIPTION: &'static str = "Split the provided text, embed each chunk, and upsert into Qdrant. Required: `text`. Optional: `collection`, `project_id`, `memory_type`, `tags`, `source_uri`. Defaults: `project_id=default`, `memory_type=semantic`.\n\nBest practice: Use `push` to index source material, then call `search` (and `summarize` when available). Avoid concatenating full documents in chat—let the memory store handle retrieval. The response echoes `chunksIndexed`, `chunkSize`, `inserted`, `updated`, and `skippedDuplicates`.";
/// Description of the `get-collections` tool.
pub const GET_COLLECTIONS_DESCRIPTION: &'static str = "Return the Qdrant collection names known to this server. No parameters: pass {}.";
/// Description of the `new-collection` tool.
pub const NEW_COLLECTION_DESCRIPTION: &'static str = "Ensure a Qdrant collection exists with the desired vector size. Required: `name` (string). Optional: `vector_size` (integer) overrides the server default. Example: {\n  \"name\": \"support-notes\",\n  \"vector_size\": 1536\n}.";
/// Description of the `summarize` tool.
pub const SUMMARIZE_DESCRIPTION: &'static str = "Consolidate time-bounded episodic memories into a semantic summary with provenance. Required: `time_range` with `start` and `end` (RFC3339). Optional: `project_id` (defaults to `default`), `memory_type`, `tags`, `limit`, `strategy` (`auto`, `abstractive`, `extractive`), `provider`, `model`, `max_words`, `collection`. The response returns `summary`, `source_memory_ids`, `upserted_memory_id`, `strategy`, and `used_filters`.";
/// Description of the `metrics` tool.
pub const METRICS_DESCRIPTION: &'static str = "Fetch ingestion counters for documents and chunks processed so far. No parameters: send {}.";
/// Instructions the server hands to a client on initialisation.
pub const SERVER_INSTRUCTIONS: &'static str = "Rusty Memory MCP\n  1) listResources({}) → readResource URIs (memory-types, health, projects, usage)\n  2) readResource('mcp://rusty-mem/usage') → usage policy & recommended flows\n  3) listResourceTemplates({}) → fill mcp://rusty-mem/projects/{project_id}/tags\n  4) get-collections({}) → discover Qdrant collections\n  5) new-collection({ name, vector_size? }) → ensure collection/vector size\n  6) push({ text, project_id?, memory_type?, tags?, source_uri?, collection? })\n  7) search({ query_text, project_id?, memory_type?, tags?, time_range?, limit?, score_threshold?, collection? })\n  Policy: do not paste large documents; index with push → search. Invalid inputs return `invalid_params` with a short fix; all responses are structured JSON.";
/// Description of the memory-types resource.
pub const MEMORY_TYPES_RESOURCE_DESCRIPTION: &'static str = "Supported memory_type values and default selection";
/// Description of the health resource.
pub const HEALTH_RESOURCE_DESCRIPTION: &'static str = "Live embedding configuration and Qdrant reachability";
/// Description of the projects resource.
pub const PROJECTS_RESOURCE_DESCRIPTION: &'static str = "Distinct project_id values currently stored in Qdrant";
/// Description of the settings resource.
pub const SETTINGS_RESOURCE_DESCRIPTION: &'static str = "Effective defaults for search ergonomics";
/// Description of the usage resource.
pub const USAGE_RESOURCE_DESCRIPTION: &'static str = "Recommended tool flow and anti-patterns: use push→search→(summarize), avoid pasting long docs in prompts.";
/// Description of the project tags resource template.
pub const PROJECT_TAGS_TEMPLATE_DESCRIPTION: &'static str = "Enumerate distinct tags for a specific project: replace {project_id} and call readResource";
/// Description of the REST `index` command.
pub const INDEX_COMMAND_DESCRIPTION: &'static str = "Chunk a raw document, generate embeddings, and persist them in Qdrant. Response returns { \"chunks_indexed\": number, \"chunk_size\": number }.";
/// Description of the REST `list_collections` command.
pub const LIST_COLLECTIONS_COMMAND_DESCRIPTION: &'static str = "Return the names of Qdrant collections managed by this server.";
/// Description of the REST `create_collection` command.
pub const CREATE_COLLECTION_COMMAND_DESCRIPTION: &'static str = "Create a new Qdrant collection (non-destructive if it already exists).";
/// Description of the REST `metrics` command.
pub const METRICS_COMMAND_DESCRIPTION: &'static str = "Return ingestion counters useful for observability dashboards.";

/// Name under which the server introduces itself.
pub const SERVER_NAME: &'static str = "rusty-mem";

/// Human-readable title of the server.
pub const SERVER_TITLE: &'static str = "Rusty Memory MCP";

/// Media type of every resource the server serves.
pub const APPLICATION_JSON: &'static str = "application/json";

/// Behaviour hints attached to a tool; `None` leaves a hint unset.
#[derive(Debug, Clone, Copy, PartialEq, Eq)]
pub struct ToolHints {
    /// The tool does not modify its environment.
    pub read_only: Option<bool>,
    /// The tool may overwrite or delete data.
    pub destructive: Option<bool>,
    /// Calling the tool twice with the same arguments has no further effect.
    pub idempotent: Option<bool>,
    /// The tool reaches entities outside the server's own store.
    pub open_world: Option<bool>,
}

/// Hints of a tool that only reads.
pub open spec fn read_only_hints() -> ToolHints {
    ToolHints {
        read_only: Some(true),
        destructive: None,
        idempotent: Some(true),
        open_world: Some(false),
    }
}

/// Hints of a tool that writes with the given destructiveness and idempotence.
pub open spec fn writing_hints(destructive: bool, idempotent: bool) -> ToolHints {
    ToolHints {
        read_only: None,
        destructive: Some(destructive),
        idempotent: Some(idempotent),
        open_world: Some(false),
    }
}

/// A tool offered by the server.
#[derive(Debug)]
pub struct ToolDescriptor {
    /// Name clients call the tool by.
    pub name: String,
    /// Human-readable title.
    pub title: String,
    /// What the tool does and how to call it.
    pub description: String,
    /// JSON schema of the tool's arguments.
    pub input_schema: Vec<(String, Json)>,
    /// Behaviour hints.
    pub hints: ToolHints,
}

/// Mathematical model of a tool descriptor.
pub struct ToolDescriptorView {
    /// Name.
    pub name: Seq<char>,
    /// Title.
    pub title: Seq<char>,
    /// Description.
    pub description: Seq<char>,
    /// Input schema entries.
    pub input_schema: Seq<(Seq<char>, JsonView)>,
    /// Behaviour hints.
    pub hints: ToolHints,
}

impl ToolDescriptor {
    /// The model of this descriptor.
    pub open spec fn view(&self) -> ToolDescriptorView {
        ToolDescriptorView {
            name: self.name@,
            title: self.title@,
            description: self.description@,
            input_schema: entries_view(self.input_schema@),
            hints: self.hints,
        }
    }
}

/// The models of a list of tool descriptors.
pub open spec fn tool_views(tools: Seq<ToolDescriptor>) -> Seq<ToolDescriptorView> {
    Seq::new(tools.len(), |i: int| tools[i].view())
}

/// The description of the `search` tool for the configured default limit and
/// the text of the default score threshold.
pub open spec fn search_description_v(default_limit: nat, default_threshold: Seq<char>) -> Seq<
    char,
> {
    SEARCH_DESCRIPTION_INTRO@ + decimal(default_limit) + SEARCH_DESCRIPTION_THRESHOLD@
        + default_threshold + SEARCH_DESCRIPTION_EXAMPLE@ + decimal(default_limit)
        + SEARCH_DESCRIPTION_END@
}

/// Writes the description of the `search` tool.
pub fn search_tool_description(default_limit: usize, default_threshold: &str) -> (res: String)
    ensures
        res@ == search_description_v(default_limit as nat, default_threshold@),
{
    let limit = usize_decimal(default_limit);
    let mut d = owned(SEARCH_DESCRIPTION_INTRO);
    append_str(&mut d, limit.as_str());
    append_str(&mut d, SEARCH_DESCRIPTION_THRESHOLD);
    append_str(&mut d, default_threshold);
    append_str(&mut d, SEARCH_DESCRIPTION_EXAMPLE);
    append_str(&mut d, limit.as_str());
    append_str(&mut d, SEARCH_DESCRIPTION_END);
    d
}

/// The tools the server lists, in order, for the configured default and
/// maximum search limits and default score threshold (as JSON and as the
/// text the search description quotes).
pub open spec fn tool_catalog_v(
    default_limit: nat,
    max_limit: nat,
    threshold_text: Seq<char>,
    threshold: JsonView,
) -> Seq<ToolDescriptorView> {
    seq![
        ToolDescriptorView {
            name: "search"@,
            title: "Search Memories"@,
            description: search_description_v(default_limit, threshold_text),
            input_schema: object_schema_v(
                search_properties_v(default_limit, max_limit, threshold),
                seq!["query_text"@],
            ).push(("examples"@, search_examples_v())),
            hints: read_only_hints(),
        },
        ToolDescriptorView {
            name: "push"@,
            title: "Index Document"@,
            description: PUSH_DESCRIPTION@,
            input_schema: object_schema_v(index_properties_v(), seq!["text"@]),
            hints: writing_hints(true, false),
        },
        ToolDescriptorView {
            name: "get-collections"@,
            title: "List Collections"@,
            description: GET_COLLECTIONS_DESCRIPTION@,
            input_schema: object_schema_v(Seq::empty(), Seq::empty()),
            hints: read_only_hints(),
        },
        ToolDescriptorView {
            name: "new-collection"@,
            title: "Create Collection"@,
            description: NEW_COLLECTION_DESCRIPTION@,
            input_schema: object_schema_v(create_collection_properties_v(), seq!["name"@]),
            hints: writing_hints(false, true),
        },
        ToolDescriptorView {
            name: "metrics"@,
            title: "Metrics Snapshot"@,
            description: METRICS_DESCRIPTION@,
            input_schema: object_schema_v(Seq::empty(), Seq::empty()),
            hints: read_only_hints(),
        },
        ToolDescriptorView {
            name: "summarize"@,
            title: "Summarize Memories"@,
            description: SUMMARIZE_DESCRIPTION@,
            input_schema: object_schema_v(summarize_properties_v(max_limit), seq!["time_range"@]),
            hints: writing_hints(false, true),
        },
    ]
}

fn tool(
    name: &str,
    title: &str,
    description: String,
    input_schema: Vec<(String, Json)>,
    hints: ToolHints,
) -> (res: ToolDescriptor)
    ensures
        res.view() == (ToolDescriptorView {
            name: name@,
            title: title@,
            description: description@,
            input_schema: entries_view(input_schema@),
            hints,
        }),
{
    ToolDescriptor { name: owned(name), title: owned(title), description, input_schema, hints }
}

/// Describes the tools the server offers, given the configured default and
/// maximum search limits and the default score threshold, as JSON and as the
/// text quoted in the `search` description.
pub fn describe_tools(
    default_limit: usize,
    max_limit: usize,
    default_threshold_text: &str,
    default_threshold: Json,
) -> (res: Vec<ToolDescriptor>)
    ensures
        tool_views(res@) == tool_catalog_v(
            default_limit as nat,
            max_limit as nat,
            default_threshold_text@,
            default_threshold.view(),
        ),
{
    let ghost expected = tool_catalog_v(
        default_limit as nat,
        max_limit as nat,
        default_threshold_text@,
        default_threshold.view(),
    );
    let read_only = ToolHints {
        read_only: Some(true),
        destructive: None,
        idempotent: Some(true),
        open_world: Some(false),
    };
    let search = tool(
        "search",
        "Search Memories",
        search_tool_description(default_limit, default_threshold_text),
        search_input_schema(default_limit, max_limit, default_threshold),
        read_only,
    );
    let push = tool(
        "push",
        "Index Document",
        owned(PUSH_DESCRIPTION),
        index_input_schema(),
        ToolHints {
            read_only: None,
            destructive: Some(true),
            idempotent: Some(false),
            open_world: Some(false),
        },
    );
    let collections = tool(
        "get-collections",
        "List Collections",
        owned(GET_COLLECTIONS_DESCRIPTION),
        empty_object_schema(),
        read_only,
    );
    let new_collection = tool(
        "new-collection",
        "Create Collection",
        owned(NEW_COLLECTION_DESCRIPTION),
        create_collection_input_schema(),
        ToolHints {
            read_only: None,
            destructive: Some(false),
            idempotent: Some(true),
            open_world: Some(false),
        },
    );
    let metrics = tool(
        "metrics",
        "Metrics Snapshot",
        owned(METRICS_DESCRIPTION),
        empty_object_schema(),
        read_only,
    );
    let summarize = tool(
        "summarize",
        "Summarize Memories",
        owned(SUMMARIZE_DESCRIPTION),
        summarize_input_schema(max_limit),
        ToolHints {
            read_only: None,
            destructive: Some(false),
            idempotent: Some(true),
            open_world: Some(false),
        },
    );
    let ghost parts = seq![
        search.view(),
        push.view(),
        collections.view(),
        new_collection.view(),
        metrics.view(),
        summarize.view(),
    ];
    assert(parts =~= expected);
    let res = vec![search, push, collections, new_collection, metrics, summarize];
    assert(tool_views(res@) =~= parts);
    res
}

/// A resource the server serves, listed for clients.
#[derive(Debug, Clone, PartialEq, Eq)]
pub struct ResourceDescriptor {
    /// Address of the resource.
    pub uri: String,
    /// Short name.
    pub name: String,
    /// What the resource holds.
    pub description: String,
}

impl ResourceDescriptor {
    /// The model of this descriptor: address, name and description.
    pub open spec fn view(&self) -> (Seq<char>, Seq<char>, Seq<char>) {
        (self.uri@, self.name@, self.description@)
    }
}

/// The resources the server lists, in order.
pub open spec fn resource_catalog_v() -> Seq<(Seq<char>, Seq<char>, Seq<char>)> {
    seq![
        (MEMORY_TYPES_URI@, "memory-types"@, MEMORY_TYPES_RESOURCE_DESCRIPTION@),
        (HEALTH_URI@, "health"@, HEALTH_RESOURCE_DESCRIPTION@),
        (PROJECTS_URI@, "projects"@, PROJECTS_RESOURCE_DESCRIPTION@),
        (SETTINGS_URI@, "settings"@, SETTINGS_RESOURCE_DESCRIPTION@),
        (USAGE_URI@, "usage"@, USAGE_RESOURCE_DESCRIPTION@),
    ]
}

fn resource(uri: &str, name: &str, description: &str) -> (res: ResourceDescriptor)
    ensures
        res.view() == (uri@, name@, description@),
{
    ResourceDescriptor { uri: owned(uri), name: owned(name), description: owned(description) }
}

/// Describes the resources the server serves.
pub fn describe_resources() -> (res: Vec<ResourceDescriptor>)
    ensures
        res@.len() == 5,
        forall|i: int| 0 <= i < 5 ==> #[trigger] res@[i].view() == resource_catalog_v()[i],
{
    let res = vec![
        resource(MEMORY_TYPES_URI, "memory-types", MEMORY_TYPES_RESOURCE_DESCRIPTION),
        resource(HEALTH_URI, "health", HEALTH_RESOURCE_DESCRIPTION),
        resource(PROJECTS_URI, "projects", PROJECTS_RESOURCE_DESCRIPTION),
        resource(SETTINGS_URI, "settings", SETTINGS_RESOURCE_DESCRIPTION),
        resource(USAGE_URI, "usage", USAGE_RESOURCE_DESCRIPTION),
    ];
    res
}

/// A parameterised resource address a client fills in.
#[derive(Debug, Clone, PartialEq, Eq)]
pub struct ResourceTemplateDescriptor {
    /// Address with a `{placeholder}`.
    pub uri_template: String,
    /// Short name.
    pub name: String,
    /// Human-readable title.
    pub title: String,
    /// How to use the template.
    pub description: String,
    /// Media type of what the filled-in address serves.
    pub mime_type: String,
}

/// Describes the resource templates the server offers: the tags of one project.
pub fn describe_resource_templates() -> (res: Vec<ResourceTemplateDescriptor>)
    ensures
        res@.len() == 1,
        res@[0].uri_template@ == PROJECT_TAGS_TEMPLATE_URI@,
        res@[0].name@ == "project-tags"@,
        res@[0].title@ == "Project Tags"@,
        res@[0].description@ == PROJECT_TAGS_TEMPLATE_DESCRIPTION@,
        res@[0].mime_type@ == APPLICATION_JSON@,
{
    vec![
        ResourceTemplateDescriptor {
            uri_template: owned(PROJECT_TAGS_TEMPLATE_URI),
            name: owned("project-tags"),
            title: owned("Project Tags"),
            description: owned(PROJECT_TAGS_TEMPLATE_DESCRIPTION),
            mime_type: owned(APPLICATION_JSON),
        },
    ]
}

/// How the server introduces itself: name, title and instructions.
#[derive(Debug, Clone, PartialEq, Eq)]
pub struct ServerIdentity {
    /// Name.
    pub name: String,
    /// Title.
    pub title: String,
    /// Instructions for clients.
    pub instructions: String,
}

/// The server's name, title and instructions.
pub fn server_identity() -> (res: ServerIdentity)
    ensures
        res.name@ == SERVER_NAME@,
        res.title@ == SERVER_TITLE@,
        res.instructions@ == SERVER_INSTRUCTIONS@,
{
    ServerIdentity {
        name: owned(SERVER_NAME),
        title: owned(SERVER_TITLE),
        instructions: owned(SERVER_INSTRUCTIONS),
    }
}

/// The policy lines of the usage guide.
pub open spec fn usage_policy_v() -> Seq<Seq<char>> {
    seq![
        "Do not paste or concatenate large documents in prompts."@,
        "Index text with `push` first; use `search` to retrieve."@,
        "Prefer filters: project_id, memory_type, tags, time_range."@,
        "Keep query_text concise (<= 512 chars)."@,
        "Use summarize to consolidate episodic → semantic summaries."@,
    ]
}

/// A named flow of steps in the usage guide.
pub open spec fn flow_v(name: Seq<char>, steps: Seq<Seq<char>>) -> JsonView {
    JsonView::Object(seq![("name"@, JsonView::Str(name)), ("steps"@, str_array_v(steps))])
}

/// The usage guide resource: a title, policy lines and recommended flows.
pub open spec fn usage_v() -> JsonView {
    JsonView::Object(
        seq![
            ("title"@, JsonView::Str("Rusty Memory MCP Usage"@)),
            ("policy"@, str_array_v(usage_policy_v())),
            ("flows"@, JsonView::Array(
                seq![
                    flow_v(
                        "Ingest & Retrieve"@,
                        seq![
                            "push({ text, project_id?, memory_type?, tags? })"@,
                            "search({ query_text, project_id?, memory_type?, tags?, time_range? })"@,
                        ],
                    ),
                    flow_v(
                        "Summarize"@,
                        seq![
                            "search episodic within time_range"@,
                            "summarize({ project_id, time_range, tags?, limit?, max_words? })"@,
                        ],
                    ),
                ],
            )),
        ],
    )
}

fn flow(name: &str, first: &str, second: &str) -> (res: Json)
    ensures
        res.view() == flow_v(name@, seq![first@, second@]),
{
    let steps = vec![owned(first), owned(second)];
    assert(views(steps@) =~= seq![first@, second@]);
    let mut e: Vec<(String, Json)> = Vec::new();
    push_entry(&mut e, "name", Json::Str(owned(name)));
    push_entry(&mut e, "steps", string_array(&steps));
    assert(entries_view(e@) =~= seq![
        ("name"@, JsonView::Str(name@)),
        ("steps"@, str_array_v(seq![first@, second@])),
    ]);
    let res = Json::Object(e);
    proof {
        lemma_object_view(res);
    }
    res
}

/// Builds the usage guide resource.
pub fn usage_payload() -> (res: Json)
    ensures
        res.view() == usage_v(),
{
    let policy = vec![
        owned("Do not paste or concatenate large documents in prompts."),
        owned("Index text with `push` first; use `search` to retrieve."),
        owned("Prefer filters: project_id, memory_type, tags, time_range."),
        owned("Keep query_text concise (<= 512 chars)."),
        owned("Use summarize to consolidate episodic → semantic summaries."),
    ];
    assert(views(policy@) =~= usage_policy_v());
    let ingest = flow(
        "Ingest & Retrieve",
        "push({ text, project_id?, memory_type?, tags? })",
        "search({ query_text, project_id?, memory_type?, tags?, time_range? })",
    );
    let summarize = flow(
        "Summarize",
        "search episodic within time_range",
        "summarize({ project_id, time_range, tags?, limit?, max_words? })",
    );
    let ghost iv = ingest.view();
    let ghost sv = summarize.view();
    let flows = Json::Array(vec![ingest, summarize]);
    proof {
        crate::json::lemma_array_view(flows);
        assert(Seq::new(2, |i: int| flows->Array_0@[i].view()) =~= seq![iv, sv]);
    }
    let mut e: Vec<(String, Json)> = Vec::new();
    push_entry(&mut e, "title", Json::Str(owned("Rusty Memory MCP Usage")));
    push_entry(&mut e, "policy", string_array(&policy));
    push_entry(&mut e, "flows", flows);
    let ghost expected = usage_v();
    assert(entries_view(e@) =~= expected->Object_0);
    let res = Json::Object(e);
    proof {
        lemma_object_view(res);
    }
    res
}

/// A REST command listed by the command catalog.
#[derive(Debug)]
pub struct CommandDescriptor {
    /// Name of the command.
    pub name: String,
    /// HTTP method.
    pub method: String,
    /// Route.
    pub path: String,
    /// What the command does.
    pub description: String,
    /// An example request body, for commands that take one.
    pub request_example: Option<Json>,
}

/// Mathematical model of a command descriptor.
pub struct CommandView {
    /// Name.
    pub name: Seq<char>,
    /// Method.
    pub method: Seq<char>,
    /// Route.
    pub path: Seq<char>,
    /// Description.
    pub description: Seq<char>,
    /// Example request body.
    pub request_example: Option<JsonView>,
}

impl CommandDescriptor {
    /// The model of this descriptor.
    pub open spec fn view(&self) -> CommandView {
        CommandView {
            name: self.name@,
            method: self.method@,
            path: self.path@,
            description: self.description@,
            request_example: match self.request_example {
                Some(j) => Some(j.view()),
                None => None,
            },
        }
    }
}

/// The models of a list of command descriptors.
pub open spec fn command_views(commands: Seq<CommandDescriptor>) -> Seq<CommandView> {
    Seq::new(commands.len(), |i: int| commands[i].view())
}

/// The example body of the `index` command.
pub open spec fn index_example_v() -> JsonView {
    JsonView::Object(
        seq![
            ("text"@, JsonView::Str("Document contents"@)),
            ("collection"@, JsonView::Str("optional-collection"@)),
            ("project_id"@, JsonView::Str("project-123"@)),
            ("memory_type"@, JsonView::Str("episodic"@)),
            ("tags"@, str_array_v(seq!["alpha"@, "beta"@])),
            ("source_uri"@, JsonView::Str("https://example.org/origin"@)),
        ],
    )
}

/// The example body of the `create_collection` command.
pub open spec fn create_collection_example_v() -> JsonView {
    JsonView::Object(
        seq![
            ("name"@, JsonView::Str("my-collection"@)),
            ("vector_size"@, JsonView::Number(crate::json::NumberView::U64(1536))),
        ],
    )
}

/// The REST commands the catalog lists, in order.
pub open spec fn command_catalog_v() -> Seq<CommandView> {
    seq![
        CommandView {
            name: "index"@,
            method: "POST"@,
            path: "/index"@,
            description: INDEX_COMMAND_DESCRIPTION@,
            request_example: Some(index_example_v()),
        },
        CommandView {
            name: "list_collections"@,
            method: "GET"@,
            path: "/collections"@,
            description: LIST_COLLECTIONS_COMMAND_DESCRIPTION@,
            request_example: None,
        },
        CommandView {
            name: "create_collection"@,
            method: "POST"@,
            path: "/collections"@,
            description: CREATE_COLLECTION_COMMAND_DESCRIPTION@,
            request_example: Some(create_collection_example_v()),
        },
        CommandView {
            name: "metrics"@,
            method: "GET"@,
            path: "/metrics"@,
            description: METRICS_COMMAND_DESCRIPTION@,
            request_example: None,
        },
    ]
}

fn command(
    name: &str,
    method: &str,
    path: &str,
    description: &str,
    request_example: Option<Json>,
) -> (res: CommandDescriptor)
    ensures
        res.view() == (CommandView {
            name: name@,
            method: method@,
            path: path@,
            description: description@,
            request_example: match request_example {
                Some(j) => Some(j.view()),
                None => None,
            },
        }),
{
    CommandDescriptor {
        name: owned(name),
        method: owned(method),
        path: owned(path),
        description: owned(description),
        request_example,
    }
}

fn index_example() -> (res: Json)
    ensures
        res.view() == index_example_v(),
{
    let tags = vec![owned("alpha"), owned("beta")];
    assert(views(tags@) =~= seq!["alpha"@, "beta"@]);
    let mut e: Vec<(String, Json)> = Vec::new();
    push_entry(&mut e, "text", Json::Str(owned("Document contents")));
    push_entry(&mut e, "collection", Json::Str(owned("optional-collection")));
    push_entry(&mut e, "project_id", Json::Str(owned("project-123")));
    push_entry(&mut e, "memory_type", Json::Str(owned("episodic")));
    push_entry(&mut e, "tags", string_array(&tags));
    push_entry(&mut e, "source_uri", Json::Str(owned("https://example.org/origin")));
    let ghost expected = index_example_v();
    assert(entries_view(e@) =~= expected->Object_0);
    let res = Json::Object(e);
    proof {
        lemma_object_view(res);
    }
    res
}

fn create_collection_example() -> (res: Json)
    ensures
        res.view() == create_collection_example_v(),
{
    let mut e: Vec<(String, Json)> = Vec::new();
    push_entry(&mut e, "name", Json::Str(owned("my-collection")));
    push_entry(&mut e, "vector_size", Json::Number(JsonNumber::U64(1536)));
    let ghost expected = create_collection_example_v();
    assert(entries_view(e@) =~= expected->Object_0);
    let res = Json::Object(e);
    proof {
        lemma_object_view(res);
    }
    res
}

/// Lists the REST commands the HTTP API offers.
pub fn commands_catalog() -> (res: Vec<CommandDescriptor>)
    ensures
        command_views(res@) == command_catalog_v(),
{
    let index = command(
        "index",
        "POST",
        "/index",
        INDEX_COMMAND_DESCRIPTION,
        Some(index_example()),
    );
    let list = command(
        "list_collections",
        "GET",
        "/collections",
        LIST_COLLECTIONS_COMMAND_DESCRIPTION,
        None,
    );
    let create = command(
        "create_collection",
        "POST",
        "/collections",
        CREATE_COLLECTION_COMMAND_DESCRIPTION,
        Some(create_collection_example()),
    );
    let metrics = command("metrics", "GET", "/metrics", METRICS_COMMAND_DESCRIPTION, None);
    let ghost parts = seq![index.view(), list.view(), create.view(), metrics.view()];
    assert(parts =~= command_catalog_v());
    let res = vec![index, list, create, metrics];
    assert(command_views(res@) =~= parts);
    res
}

} // verus!
