use nineclaw::json_value::{
    as_array, as_bool, as_str, as_u64, get, is_thinking_item, member_of, parse_number_u64,
    strip_provider_replay_state, JsonValue,
};

fn s(t: &str) -> JsonValue {
    JsonValue::Str(t.to_string())
}

fn obj(members: Vec<(&str, JsonValue)>) -> JsonValue {
    JsonValue::Object(members.into_iter().map(|(k, v)| (k.to_string(), v)).collect())
}

fn keys(v: &JsonValue) -> Vec<String> {
    match v {
        JsonValue::Object(members) => members.iter().map(|(k, _)| k.clone()).collect(),
        _ => Vec::new(),
    }
}

#[test]
fn numbers_read_as_u64_only_in_canonical_form() {
    assert_eq!(parse_number_u64("0"), Some(0));
    assert_eq!(parse_number_u64("42"), Some(42));
    assert_eq!(parse_number_u64("18446744073709551615"), Some(u64::MAX));
    assert_eq!(parse_number_u64("18446744073709551616"), None);
    assert_eq!(parse_number_u64("99999999999999999999999"), None);
    assert_eq!(parse_number_u64("007"), None);
    assert_eq!(parse_number_u64("-1"), None);
    assert_eq!(parse_number_u64("1.0"), None);
    assert_eq!(parse_number_u64("1e3"), None);
    assert_eq!(parse_number_u64(""), None);
}

#[test]
fn accessors_follow_value_kinds() {
    let v = obj(vec![("a", s("x")), ("b", JsonValue::Bool(true)), ("a", s("y"))]);
    assert_eq!(get(&v, "a").and_then(as_str), Some("y"));
    assert_eq!(get(&v, "b").and_then(as_bool), Some(true));
    assert!(get(&v, "c").is_none());
    assert!(get(&s("x"), "a").is_none());
    assert_eq!(as_u64(&JsonValue::Number("12".to_string())), Some(12));
    assert_eq!(as_u64(&s("12")), None);
    assert!(as_array(&JsonValue::Array(vec![])).is_some());
    assert!(as_array(&JsonValue::Null).is_none());
    if let JsonValue::Object(members) = &v {
        assert!(member_of(members, "b").is_some());
    }
}

#[test]
fn thinking_blocks_are_recognised_by_type() {
    assert!(is_thinking_item(&obj(vec![("type", s("thinking"))])));
    assert!(is_thinking_item(&obj(vec![("type", s("redacted_thinking"))])));
    assert!(!is_thinking_item(&obj(vec![("type", s("text"))])));
    assert!(!is_thinking_item(&obj(vec![("type", JsonValue::Bool(true))])));
    assert!(!is_thinking_item(&s("thinking")));
}

#[test]
fn strip_replay_state_removes_reasoning_and_is_idempotent() {
    let value = obj(vec![
        ("role", s("assistant")),
        ("reasoningContent", s("r")),
        ("thoughtSignature", s("sig")),
        (
            "content",
            JsonValue::Array(vec![
                obj(vec![("type", s("reasoning")), ("text", s("hidden"))]),
                obj(vec![("type", s("text")), ("text", s("shown")), ("reasoning_details", JsonValue::Null)]),
                JsonValue::Number("3".to_string()),
            ]),
        ),
    ]);
    let (stripped, changed) = strip_provider_replay_state(&value);
    assert!(changed);
    assert_eq!(keys(&stripped), vec!["role".to_string(), "content".to_string()]);
    let content = get(&stripped, "content").and_then(as_array).expect("content");
    assert_eq!(content.len(), 2);
    assert_eq!(keys(&content[0]), vec!["type".to_string(), "text".to_string()]);
    assert_eq!(get(&content[0], "text").and_then(as_str), Some("shown"));
    assert_eq!(as_u64(&content[1]), Some(3));
    let (again, changed_again) = strip_provider_replay_state(&stripped);
    assert!(!changed_again);
    assert_eq!(keys(&again), keys(&stripped));
    let (plain, unchanged) = strip_provider_replay_state(&s("reasoning"));
    assert!(!unchanged);
    assert_eq!(as_str(&plain), Some("reasoning"));
}
