use rustymcp::catalog::{
    commands_catalog, describe_resource_templates, describe_resources, describe_tools,
    search_tool_description, server_identity, usage_payload,
};
use rustymcp::json::{get_key, Json, JsonNumber};

fn threshold() -> Json {
    Json::Number(JsonNumber::Float("0.25".to_string()))
}

#[test]
fn tool_catalog_lists_tools_in_order() {
    let tools = describe_tools(5, 50, "0.25", threshold());
    let names: Vec<&str> = tools.iter().map(|t| t.name.as_str()).collect();
    assert_eq!(
        names,
        vec!["search", "push", "get-collections", "new-collection", "metrics", "summarize"]
    );
    assert_eq!(tools[5].title, "Summarize Memories");
    assert_eq!(tools[5].hints.destructive, Some(false));
    assert!(get_key(&tools[5].input_schema, "required").is_some());
    assert_eq!(tools[0].title, "Search Memories");
    assert_eq!(tools[0].hints.read_only, Some(true));
    assert_eq!(tools[1].hints.destructive, Some(true));
    assert_eq!(tools[1].hints.idempotent, Some(false));
    assert_eq!(tools[3].hints.destructive, Some(false));
    assert!(get_key(&tools[0].input_schema, "examples").is_some());
    assert!(get_key(&tools[2].input_schema, "required").is_none());
}

#[test]
fn search_description_quotes_configured_defaults() {
    let text = search_tool_description(7, "0.4");
    assert!(text.starts_with("Semantic search over indexed memories."));
    assert!(text.contains("Defaults: `limit=7`, `score_threshold=0.4`."));
    assert!(text.ends_with("\\\"limit\\\": 7\\n}."));
}

#[test]
fn resources_and_template_are_listed() {
    let resources = describe_resources();
    let uris: Vec<&str> = resources.iter().map(|r| r.uri.as_str()).collect();
    assert_eq!(
        uris,
        vec![
            "mcp://rusty-mem/memory-types",
            "mcp://rusty-mem/health",
            "mcp://rusty-mem/projects",
            "mcp://rusty-mem/settings",
            "mcp://rusty-mem/usage",
        ]
    );
    let templates = describe_resource_templates();
    assert_eq!(templates.len(), 1);
    assert_eq!(templates[0].uri_template, "mcp://rusty-mem/projects/{project_id}/tags");
    assert_eq!(templates[0].mime_type, "application/json");
}

#[test]
fn server_identity_names_the_server() {
    let identity = server_identity();
    assert_eq!(identity.name, "rusty-mem");
    assert_eq!(identity.title, "Rusty Memory MCP");
    assert!(identity.instructions.starts_with("Rusty Memory MCP\n  1) listResources({})"));
}

#[test]
fn usage_payload_lists_policy_and_flows() {
    let usage = usage_payload();
    let entries = match &usage {
        Json::Object(entries) => entries,
        other => panic!("object expected, got {:?}", other),
    };
    assert_eq!(
        get_key(entries, "title"),
        Some(&Json::Str("Rusty Memory MCP Usage".to_string()))
    );
    match get_key(entries, "policy") {
        Some(Json::Array(items)) => {
            assert_eq!(items.len(), 5);
            assert_eq!(
                items[4],
                Json::Str("Use summarize to consolidate episodic → semantic summaries.".to_string())
            );
        }
        other => panic!("policy array expected, got {:?}", other),
    }
    match get_key(entries, "flows") {
        Some(Json::Array(items)) => {
            assert_eq!(items.len(), 2);
            let names: Vec<Option<&Json>> = items
                .iter()
                .map(|flow| match flow {
                    Json::Object(e) => get_key(e, "name"),
                    _ => None,
                })
                .collect();
            assert_eq!(
                names,
                vec![
                    Some(&Json::Str("Ingest & Retrieve".to_string())),
                    Some(&Json::Str("Summarize".to_string()))
                ]
            );
        }
        other => panic!("flows array expected, got {:?}", other),
    }
}

#[test]
fn command_catalog_lists_rest_routes() {
    let commands = commands_catalog();
    let routes: Vec<(&str, &str)> =
        commands.iter().map(|c| (c.method.as_str(), c.path.as_str())).collect();
    assert_eq!(
        routes,
        vec![("POST", "/index"), ("GET", "/collections"), ("POST", "/collections"), ("GET", "/metrics")]
    );
    assert!(commands[1].request_example.is_none());
    match &commands[2].request_example {
        Some(Json::Object(entries)) => assert_eq!(
            get_key(entries, "vector_size"),
            Some(&Json::Number(JsonNumber::U64(1536)))
        ),
        other => panic!("example expected, got {:?}", other),
    }
}

#[test]
fn commands_catalog_exposes_index_endpoint() {
    let commands = commands_catalog();
    let index = commands
        .iter()
        .find(|cmd| cmd.name == "index")
        .expect("index command present");

    assert_eq!(index.method, "POST");
    assert_eq!(index.path, "/index");
    assert!(index.description.to_lowercase().contains("chunk"));

    assert!(commands.len() >= 3);
}
