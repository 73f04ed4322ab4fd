use rustymcp::json::{get_key, Json, JsonNumber};
use rustymcp::schemas::{
    create_collection_input_schema, empty_object_schema, index_input_schema, search_input_schema,
    summarize_input_schema,
};

fn field<'a>(entries: &'a Vec<(String, Json)>, key: &str) -> &'a Json {
    get_key(entries, key).expect("key present")
}

fn object(value: &Json) -> &Vec<(String, Json)> {
    match value {
        Json::Object(entries) => entries,
        other => panic!("expected an object, got {:?}", other),
    }
}

fn threshold() -> Json {
    Json::Number(JsonNumber::Float("0.25".to_string()))
}

#[test]
fn search_input_schema_includes_examples_and_defaults() {
    let schema = search_input_schema(5, 50, threshold());
    let properties = object(field(&schema, "properties"));
    let project = object(field(properties, "project_id"));
    assert_eq!(field(project, "default"), &Json::Str("default".to_string()));
    assert_eq!(field(&schema, "additionalProperties"), &Json::Bool(false));

    let memory = object(field(properties, "memory_type"));
    assert!(matches!(field(memory, "enum"), Json::Array(_)));

    let examples = match field(&schema, "examples") {
        Json::Array(items) => items,
        other => panic!("examples array, got {:?}", other),
    };
    assert_eq!(examples.len(), 2);
    assert!(examples.iter().any(|value| match value {
        Json::Object(entries) => get_key(entries, "project") == Some(&Json::Str("site".to_string())),
        _ => false,
    }));
}

#[test]
fn search_schema_carries_configured_limits_and_threshold() {
    let schema = search_input_schema(7, 40, threshold());
    let properties = object(field(&schema, "properties"));
    let limit = object(field(properties, "limit"));
    assert_eq!(field(limit, "minimum"), &Json::Number(JsonNumber::U64(1)));
    assert_eq!(field(limit, "default"), &Json::Number(JsonNumber::U64(7)));
    assert_eq!(field(limit, "maximum"), &Json::Number(JsonNumber::U64(40)));
    let score = object(field(properties, "score_threshold"));
    assert_eq!(field(score, "default"), &threshold());
    assert_eq!(field(score, "maximum"), &Json::Number(JsonNumber::Float("1.0".to_string())));
    assert_eq!(
        field(&schema, "required"),
        &Json::Array(vec![Json::Str("query_text".to_string())])
    );
}

#[test]
fn summarize_schema_requires_time_range() {
    let schema = summarize_input_schema(30);
    assert_eq!(
        field(&schema, "required"),
        &Json::Array(vec![Json::Str("time_range".to_string())])
    );
    let properties = object(field(&schema, "properties"));
    let limit = object(field(properties, "limit"));
    assert_eq!(field(limit, "maximum"), &Json::Number(JsonNumber::U64(30)));
    assert_eq!(field(limit, "default"), &Json::Number(JsonNumber::U64(50)));
    let strategy = object(field(properties, "strategy"));
    assert_eq!(field(strategy, "default"), &Json::Str("auto".to_string()));
    assert!(get_key(&schema, "examples").is_none());
}

#[test]
fn index_and_collection_schemas_name_their_required_keys() {
    let index = index_input_schema();
    assert_eq!(
        field(&index, "required"),
        &Json::Array(vec![Json::Str("text".to_string())])
    );
    let properties = object(field(&index, "properties"));
    assert_eq!(properties.len(), 6);
    let collection = create_collection_input_schema();
    assert_eq!(
        field(&collection, "required"),
        &Json::Array(vec![Json::Str("name".to_string())])
    );
}

#[test]
fn empty_schema_has_no_required_list() {
    let schema = empty_object_schema();
    assert!(get_key(&schema, "required").is_none());
    assert_eq!(object(field(&schema, "properties")).len(), 0);
    assert_eq!(schema.len(), 3);
}
