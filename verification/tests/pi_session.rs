use nineclaw::digest::{hash_session_id, session_summary_key};
use nineclaw::provider::{
    anthropic_compat_api_key_env, anthropic_compat_provider_id, runtime_provider_id,
    should_use_desktop_anthropic_compat_extension,
};
use nineclaw::json_value::JsonValue;
use nineclaw::pi_session::{
    desktop_pi_fingerprint, extract_text_content, parse_context_stats_from_rpc_response,
    parse_env_bool, sanitize_session_records, session_file_text, session_record_lines,
    unknown_context_stats, SessionRecord,
};
use nineclaw::provider::ProviderRuntimeConfig;

#[test]
fn desktop_pi_fingerprint_changes_when_proxy_binding_changes() {
    let provider = ProviderRuntimeConfig {
        provider_id: "custom".to_string(),
        api_format: "openai".to_string(),
        base_url: "https://example.com/v1".to_string(),
        api_key: "secret".to_string(),
        model: "gpt-5".to_string(),
    };
    let sections = vec![("agent_system_prompt".to_string(), "hello".to_string())];

    let base = desktop_pi_fingerprint(
        Some(&provider),
        "/tmp/session.jsonl",
        "http://127.0.0.1:3000",
        "token-a",
        &sections,
        &Vec::new(),
    );
    let changed_proxy_url = desktop_pi_fingerprint(
        Some(&provider),
        "/tmp/session.jsonl",
        "http://127.0.0.1:4000",
        "token-a",
        &sections,
        &Vec::new(),
    );
    let changed_proxy_token = desktop_pi_fingerprint(
        Some(&provider),
        "/tmp/session.jsonl",
        "http://127.0.0.1:3000",
        "token-b",
        &sections,
        &Vec::new(),
    );

    assert_ne!(base, changed_proxy_url);
    assert_ne!(base, changed_proxy_token);
}

#[test]
fn fingerprint_is_the_md5_of_the_terminated_fields() {
    // no provider, no sections, no skills: eight empty-or-given fields each followed by a zero byte
    let fp = desktop_pi_fingerprint(None, "", "", "", &Vec::new(), &Vec::new());
    assert_eq!(fp, "7dea362b3fac8e00956a4952a3d4f474");
    let trimmed = ProviderRuntimeConfig {
        provider_id: " p ".to_string(),
        api_format: "openai".to_string(),
        base_url: "u".to_string(),
        api_key: "k".to_string(),
        model: "m".to_string(),
    };
    let plain = ProviderRuntimeConfig { provider_id: "p".to_string(), ..trimmed.clone() };
    assert_eq!(
        desktop_pi_fingerprint(Some(&trimmed), "s", "b", "t", &Vec::new(), &vec!["/skill".to_string()]),
        desktop_pi_fingerprint(Some(&plain), "s", "b", "t", &Vec::new(), &vec!["/skill".to_string()])
    );
    assert_eq!(fp.len(), 32);
}

fn json_eq(a: &JsonValue, b: &JsonValue) -> bool {
    match (a, b) {
        (JsonValue::Null, JsonValue::Null) => true,
        (JsonValue::Bool(x), JsonValue::Bool(y)) => x == y,
        (JsonValue::Number(x), JsonValue::Number(y)) => x == y,
        (JsonValue::Str(x), JsonValue::Str(y)) => x == y,
        (JsonValue::Array(x), JsonValue::Array(y)) => {
            x.len() == y.len() && x.iter().zip(y).all(|(p, q)| json_eq(p, q))
        }
        (JsonValue::Object(x), JsonValue::Object(y)) => {
            x.len() == y.len() && x.iter().zip(y).all(|(p, q)| p.0 == q.0 && json_eq(&p.1, &q.1))
        }
        _ => false,
    }
}

fn obj(members: Vec<(&str, JsonValue)>) -> JsonValue {
    JsonValue::Object(members.into_iter().map(|(k, v)| (k.to_string(), v)).collect())
}

fn num(n: &str) -> JsonValue {
    JsonValue::Number(n.to_string())
}

fn text(t: &str) -> JsonValue {
    JsonValue::Str(t.to_string())
}

fn usage(used: JsonValue, window: JsonValue, input: JsonValue, output: JsonValue) -> JsonValue {
    obj(vec![(
        "contextUsage",
        obj(vec![
            ("usedTokens", used),
            ("contextWindow", window),
            ("inputTokens", input),
            ("outputTokens", output),
        ]),
    )])
}

#[test]
fn parse_context_stats_valid() {
    let json = usage(num("5000"), num("128000"), num("3000"), num("2000"));
    let stats = parse_context_stats_from_rpc_response(&json);
    assert!(stats.is_some());
    let s = stats.unwrap();
    assert_eq!(s.used_tokens, 5000);
    assert_eq!(s.context_window, Some(128000));
    assert_eq!(s.input_tokens, 3000);
    assert_eq!(s.output_tokens, 2000);
}

#[test]
fn parse_context_stats_missing_usage() {
    let json = obj(vec![]);
    let stats = parse_context_stats_from_rpc_response(&json);
    assert!(stats.is_none());
}

#[test]
fn parse_context_stats_null_context_window() {
    let json = usage(num("5000"), JsonValue::Null, num("3000"), num("2000"));
    let stats = parse_context_stats_from_rpc_response(&json);
    assert!(stats.is_some());
    assert_eq!(stats.unwrap().context_window, None);
}

#[test]
fn parse_context_stats_zero_tokens() {
    let json = usage(num("0"), num("0"), num("0"), num("0"));
    let stats = parse_context_stats_from_rpc_response(&json);
    assert!(stats.is_some());
    let s = stats.unwrap();
    assert_eq!(s.used_tokens, 0);
    assert_eq!(s.context_window, None); // 0 is treated as None
}

#[test]
fn context_stats_read_only_unsigned_integers() {
    let json = usage(num("-5"), num("1.5e3"), text("7"), num("18446744073709551616"));
    let s = parse_context_stats_from_rpc_response(&json).expect("stats");
    assert_eq!(s.used_tokens, 0);
    assert_eq!(s.context_window, None);
    assert_eq!(s.input_tokens, 0);
    assert_eq!(s.output_tokens, 0);
    assert_eq!(s.source, "auto");
    assert_eq!(s.session_id, "");
    let max = usage(num("18446744073709551615"), num("007"), num("42"), num("0"));
    let s = parse_context_stats_from_rpc_response(&max).expect("stats");
    assert_eq!(s.used_tokens, u64::MAX);
    assert_eq!(s.context_window, None);
    assert_eq!(s.input_tokens, 42);
    let unknown = unknown_context_stats("s1");
    assert_eq!(unknown.session_id, "s1");
    assert_eq!(unknown.source, "unknown");
    assert!(parse_context_stats_from_rpc_response(&obj(vec![("contextUsage", JsonValue::Null)])).is_some());
}

#[test]
fn message_text_joins_content_entries() {
    assert_eq!(extract_text_content(None), None);
    let message = |content: JsonValue| obj(vec![("role", text("assistant")), ("content", content)]);
    assert_eq!(extract_text_content(Some(&message(JsonValue::Array(vec![])))), None);
    let parts = JsonValue::Array(vec![
        obj(vec![("type", text("text")), ("text", text("Hel"))]),
        obj(vec![("type", text("image"))]),
        obj(vec![("text", num("3"))]),
        obj(vec![("type", text("text")), ("text", text("lo"))]),
    ]);
    assert_eq!(extract_text_content(Some(&message(parts))), Some("Hello".to_string()));
    assert_eq!(extract_text_content(Some(&message(text("not a list")))), None);
    assert_eq!(extract_text_content(Some(&obj(vec![]))), None);
}

#[test]
fn sanitize_session_records_strips_reasoning_metadata() {
    let raw = "{\"type\":\"message\"}\n\n   \nnot json\n";
    let lines = session_record_lines(raw);
    assert_eq!(lines, vec!["{\"type\":\"message\"}".to_string(), "not json".to_string()]);
    let contaminated = obj(vec![
        ("type", text("message")),
        (
            "message",
            obj(vec![
                ("role", text("assistant")),
                ("reasoning_content", text("hidden")),
                (
                    "content",
                    JsonValue::Array(vec![
                        obj(vec![("type", text("thinking")), ("thinking", text("t")), ("thinkingSignature", text("sig"))]),
                        obj(vec![("type", text("text")), ("text", text("visible")), ("thoughtSignature", text("x"))]),
                    ]),
                ),
            ]),
        ),
    ]);
    let records = vec![SessionRecord::Parsed(contaminated), SessionRecord::Raw("not json".to_string())];
    let cleaned = sanitize_session_records(&records).expect("changed");
    let expected = || obj(vec![
        ("type", text("message")),
        (
            "message",
            obj(vec![
                ("role", text("assistant")),
                ("content", JsonValue::Array(vec![obj(vec![("type", text("text")), ("text", text("visible"))])])),
            ]),
        ),
    ]);
    assert_eq!(cleaned.len(), 2);
    match &cleaned[0] {
        SessionRecord::Parsed(value) => assert!(json_eq(value, &expected())),
        SessionRecord::Raw(_) => panic!("parsed record expected"),
    }
    match &cleaned[1] {
        SessionRecord::Raw(line) => assert_eq!(line, "not json"),
        SessionRecord::Parsed(_) => panic!("raw record expected"),
    }
    assert!(sanitize_session_records(&cleaned).is_none());
    assert!(sanitize_session_records(&vec![SessionRecord::Parsed(expected())]).is_none());
    assert_eq!(session_file_text(&vec!["a".to_string(), "b".to_string()]), "a\nb\n");
}

#[test]
fn environment_flags_read_common_spellings() {
    assert_eq!(parse_env_bool(" YES "), Some(true));
    assert_eq!(parse_env_bool("on"), Some(true));
    assert_eq!(parse_env_bool("0"), Some(false));
    assert_eq!(parse_env_bool("Off"), Some(false));
    assert_eq!(parse_env_bool("maybe"), None);
}

#[test]
fn runtime_provider_names_derive_from_the_trimmed_id() {
    assert_eq!(runtime_provider_id("custom"), "nineclaw-runtime-8b9035807842");
    assert_eq!(runtime_provider_id("  custom "), "nineclaw-runtime-8b9035807842");
    assert_eq!(runtime_provider_id("   "), "nineclaw-runtime-provider");
    assert_eq!(anthropic_compat_provider_id("custom"), "nineclaw-compat-8b9035807842");
    assert_eq!(anthropic_compat_provider_id(""), "nineclaw-compat-provider");
    assert_eq!(anthropic_compat_api_key_env("custom"), "NINECLAW_PI_COMPAT_API_KEY_8B9035807842");
    assert_eq!(anthropic_compat_api_key_env(" "), "NINECLAW_PI_COMPAT_API_KEY_PROVIDER");
    assert_eq!(hash_session_id(" session-1 "), "c7af2d3544f094b28e7fa85bd32bd22c");
    assert_eq!(session_summary_key("session-1"), "c7af2d3544f094b28e7fa85bd32bd22c");
}

#[test]
fn anthropic_gateways_other_than_anthropic_use_the_compat_extension() {
    assert!(should_use_desktop_anthropic_compat_extension("custom", "anthropic"));
    assert!(!should_use_desktop_anthropic_compat_extension(" anthropic ", "anthropic"));
    assert!(!should_use_desktop_anthropic_compat_extension("custom", "openai"));
}
