use fetchless::json_cleaner::{clean_json_response, is_junk_key, is_junk_lowercase, strip_junk, JsonValue};
use serde_json::Value;

fn obj(entries: Vec<(&str, JsonValue)>) -> JsonValue {
    JsonValue::Object(entries.into_iter().map(|(k, v)| (k.to_string(), v)).collect())
}

fn text(s: &str) -> JsonValue {
    JsonValue::Text(s.to_string())
}

fn num(s: &str) -> JsonValue {
    JsonValue::Number(s.to_string())
}

fn keys(v: &JsonValue) -> Vec<String> {
    match v {
        JsonValue::Object(es) => es.iter().map(|(k, _)| k.clone()).collect(),
        _ => panic!("not an object"),
    }
}

fn get<'a>(v: &'a JsonValue, key: &str) -> Option<&'a JsonValue> {
    match v {
        JsonValue::Object(es) => es.iter().find(|(k, _)| k == key).map(|(_, v)| v),
        _ => None,
    }
}

#[test]
fn strip_removes_junk_keys() {
    let input = obj(vec![("data", text("important")), ("meta", obj(vec![("page", num("1"))])), ("tracking", text("abc123"))]);
    let parsed = strip_junk(input);
    assert!(get(&parsed, "data").is_some());
    assert!(get(&parsed, "meta").is_none());
    assert!(get(&parsed, "tracking").is_none());
}

#[test]
fn strip_recursive_junk_removal() {
    let input = obj(vec![(
        "results",
        JsonValue::Array(vec![obj(vec![
            ("name", text("test")),
            ("metadata", obj(vec![("internal", JsonValue::Bool(true))])),
            ("value", num("42")),
        ])]),
    )]);
    let parsed = strip_junk(input);
    let first = match get(&parsed, "results") {
        Some(JsonValue::Array(items)) => &items[0],
        _ => panic!("results missing"),
    };
    assert!(get(first, "name").is_some());
    assert!(get(first, "metadata").is_none());
    assert!(get(first, "value").is_some());
}

#[test]
fn strip_preserves_non_junk() {
    let input = obj(vec![
        ("id", num("1")),
        ("name", text("test")),
        ("items", JsonValue::Array(vec![num("1"), num("2"), num("3")])),
    ]);
    let parsed = strip_junk(input);
    assert!(matches!(get(&parsed, "id"), Some(JsonValue::Number(n)) if n == "1"));
    assert!(matches!(get(&parsed, "name"), Some(JsonValue::Text(t)) if t == "test"));
    assert!(matches!(get(&parsed, "items"), Some(JsonValue::Array(a)) if a.len() == 3));
}

#[test]
fn strip_all_junk_keys_removed() {
    let input = obj(vec![
        ("pagination", obj(vec![])),
        ("_links", obj(vec![])),
        ("debug", obj(vec![])),
        ("disclaimer", text("text")),
        ("copyright", text("2024")),
        ("real_data", JsonValue::Bool(true)),
    ]);
    let parsed = strip_junk(input);
    assert_eq!(keys(&parsed), vec!["real_data".to_string()]);
}

#[test]
fn junk_keys_compared_in_lowercase() {
    assert!(is_junk_key(&"META".to_string()));
    assert!(is_junk_key(&"Request_Id".to_string()));
    assert!(!is_junk_key(&"metas".to_string()));
    let parsed = strip_junk(obj(vec![("Tracking", text("x")), ("Data", text("y"))]));
    assert_eq!(keys(&parsed), vec!["Data".to_string()]);
}

#[test]
fn stripping_twice_changes_nothing() {
    let input = obj(vec![("a", obj(vec![("ads", JsonValue::Null), ("b", JsonValue::Array(vec![obj(vec![("timing", num("3"))])]))]))]);
    let once = strip_junk(input);
    let once_keys = keys(&once);
    let twice = strip_junk(once);
    assert_eq!(keys(&twice), once_keys);
    let inner = get(&twice, "a").unwrap();
    assert_eq!(keys(inner), vec!["b".to_string()]);
    match get(inner, "b") {
        Some(JsonValue::Array(items)) => assert!(keys(&items[0]).is_empty()),
        _ => panic!("b missing"),
    }
}

#[test]
fn scalars_unchanged() {
    assert!(matches!(strip_junk(JsonValue::Null), JsonValue::Null));
    assert!(matches!(strip_junk(num("2.5")), JsonValue::Number(n) if n == "2.5"));
}

#[test]
fn test_removes_junk_keys() {
    let input = r#"{"data":"important","meta":{"page":1},"tracking":"abc123"}"#;
    let result = clean_json_response(input);
    let parsed: Value = serde_json::from_str(&result).unwrap();
    assert!(parsed.get("data").is_some());
    assert!(parsed.get("meta").is_none());
    assert!(parsed.get("tracking").is_none());
}

#[test]
fn test_recursive_junk_removal() {
    let input = r#"{"results":[{"name":"test","metadata":{"internal":true},"value":42}]}"#;
    let result = clean_json_response(input);
    let parsed: Value = serde_json::from_str(&result).unwrap();
    let first = &parsed["results"][0];
    assert!(first.get("name").is_some());
    assert!(first.get("metadata").is_none());
    assert!(first.get("value").is_some());
}

#[test]
fn test_invalid_json_passthrough() {
    let input = "not json {{{";
    let result = clean_json_response(input);
    assert_eq!(result, input);
}

#[test]
fn test_preserves_non_junk() {
    let input = r#"{"id":1,"name":"test","items":[1,2,3]}"#;
    let result = clean_json_response(input);
    let parsed: Value = serde_json::from_str(&result).unwrap();
    assert_eq!(parsed["id"], 1);
    assert_eq!(parsed["name"], "test");
    assert_eq!(parsed["items"].as_array().unwrap().len(), 3);
}

#[test]
fn test_all_junk_keys_removed() {
    let input = r#"{"pagination":{},"_links":{},"debug":{},"disclaimer":"text","copyright":"2024","real_data":true}"#;
    let result = clean_json_response(input);
    let parsed: Value = serde_json::from_str(&result).unwrap();
    assert!(parsed.get("real_data").is_some());
    assert!(parsed.get("pagination").is_none());
    assert!(parsed.get("_links").is_none());
    assert!(parsed.get("debug").is_none());
}

#[test]
fn cleaned_json_is_pretty_printed_with_sorted_keys() {
    let input = r#"{"b":[1,{"Meta":0,"c":null}],"a":1.5,"Tracking":1}"#;
    assert_eq!(
        clean_json_response(input),
        "{\n  \"a\": 1.5,\n  \"b\": [\n    1,\n    {\n      \"c\": null\n    }\n  ]\n}"
    );
}

#[test]
fn lowercased_keys_checked_against_the_list() {
    assert!(is_junk_lowercase(&"meta".to_string()));
    assert!(!is_junk_lowercase(&"META".to_string()));
    assert!(!is_junk_lowercase(&"data".to_string()));
}
