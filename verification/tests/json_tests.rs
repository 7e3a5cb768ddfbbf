use workspace_snapshot::json::JsonValue;

fn sample_object() -> JsonValue {
    JsonValue::Object(vec![
        ("alpha".to_string(), JsonValue::Number("1".to_string())),
        ("beta".to_string(), JsonValue::Str("two".to_string())),
        ("alpha".to_string(), JsonValue::Null),
    ])
}

#[test]
fn get_finds_the_first_matching_key() {
    let v = sample_object();
    assert_eq!(v.get("alpha"), Some(&JsonValue::Number("1".to_string())));
    assert_eq!(v.get("beta"), Some(&JsonValue::Str("two".to_string())));
}

#[test]
fn get_misses_absent_keys_and_non_objects() {
    let v = sample_object();
    assert_eq!(v.get("gamma"), None);
    assert_eq!(JsonValue::Null.get("alpha"), None);
    assert_eq!(JsonValue::Array(vec![]).get("alpha"), None);
}

#[test]
fn as_array_and_as_str_match_the_variant() {
    let arr = JsonValue::Array(vec![JsonValue::Bool(false)]);
    assert_eq!(arr.as_array().map(|items| items.len()), Some(1));
    assert_eq!(arr.as_str(), None);

    let s = JsonValue::Str("hello".to_string());
    assert_eq!(s.as_str().map(|t| t.as_str()), Some("hello"));
    assert_eq!(s.as_array(), None);
}
