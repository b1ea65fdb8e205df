use nineclaw::desktop_media::finalize_desktop_outbound_reply;
use nineclaw::digest::{hash_session_id, session_file_path};
use nineclaw::json_value::{as_array, as_bool, as_str, get, JsonValue};
use nineclaw::memory_tools::memory_vector_admitted;
use nineclaw::provider::{build_provider_models_config_with_input, ProviderModelTraits, ProviderRuntimeConfig};

fn traits(format: &str, base_url: &str, explicit_off: bool, replay: bool, effort: bool) -> ProviderModelTraits {
    ProviderModelTraits {
        normalized_api_format: format.to_string(),
        normalized_base_url: base_url.to_string(),
        requires_explicit_thinking_disable: explicit_off,
        requires_reasoning_content_replay: replay,
        supports_reasoning_effort: effort,
    }
}

fn provider(api_format: &str, base_url: &str, model: &str) -> ProviderRuntimeConfig {
    ProviderRuntimeConfig {
        provider_id: "custom".to_string(),
        api_format: api_format.to_string(),
        base_url: base_url.to_string(),
        api_key: "secret".to_string(),
        model: model.to_string(),
    }
}

fn entry(config: &JsonValue) -> &JsonValue {
    let providers = get(config, "providers").expect("providers");
    get(providers, "nineclaw-runtime-8b9035807842").expect("provider entry")
}

fn path<'a>(value: &'a JsonValue, keys: &[&str]) -> Option<&'a JsonValue> {
    let mut cur = value;
    for key in keys {
        cur = get(cur, key)?;
    }
    Some(cur)
}

fn first_model(provider_json: &JsonValue) -> &JsonValue {
    &as_array(get(provider_json, "models").expect("models")).expect("array")[0]
}

fn strs(value: &JsonValue) -> Vec<String> {
    as_array(value).expect("array").iter().map(|v| as_str(v).expect("string").to_string()).collect()
}

#[test]
fn provider_models_config_can_fallback_to_text_only_input() {
    let provider = provider("openai", "https://example.com/v1", "custom-model");
    let t = traits("openai", "https://example.com/v1", false, false, false);
    let default_config = build_provider_models_config_with_input(&provider, &t, false, false).expect("default config");
    let text_only_config = build_provider_models_config_with_input(&provider, &t, true, false).expect("text-only config");
    assert_eq!(strs(get(first_model(entry(&default_config)), "input").unwrap()), vec!["text", "image"]);
    assert_eq!(strs(get(first_model(entry(&text_only_config)), "input").unwrap()), vec!["text"]);
}

#[test]
fn provider_models_config_can_disable_reasoning_effort_for_history_fallback() {
    let provider = provider("openai", "https://example.com/v1", "glm-4.6");
    let t = traits("openai", "https://example.com/v1", false, false, true);
    let default_config = build_provider_models_config_with_input(&provider, &t, false, false).expect("default config");
    let fallback_config = build_provider_models_config_with_input(&provider, &t, false, true).expect("fallback config");
    assert_eq!(as_bool(path(entry(&default_config), &["compat", "supportsReasoningEffort"]).unwrap()), Some(true));
    assert_eq!(as_bool(path(entry(&fallback_config), &["compat", "supportsReasoningEffort"]).unwrap()), Some(false));
}

#[test]
fn provider_models_config_for_deepseek_v4_pro_sends_qwen_thinking_off_shape() {
    let provider = provider("openai", "https://dashscope.aliyuncs.com/compatible-mode/v1", "deepseek-v4-pro");
    let t = traits("openai", "https://dashscope.aliyuncs.com/compatible-mode/v1", true, false, false);
    let config = build_provider_models_config_with_input(&provider, &t, false, false).expect("deepseek config");
    let provider_json = entry(&config);
    assert_eq!(as_bool(path(provider_json, &["compat", "supportsReasoningEffort"]).unwrap()), Some(false));
    assert_eq!(as_str(path(provider_json, &["compat", "thinkingFormat"]).unwrap()), Some("qwen"));
    assert_eq!(as_bool(get(first_model(provider_json), "reasoning").unwrap()), Some(true));
}

#[test]
fn provider_models_config_for_mimo_replays_reasoning_content() {
    let provider = provider("openai", "https://api.xiaomimimo.com/v1", "MiMo-V2.5-Pro");
    let t = traits("openai", "https://api.xiaomimimo.com/v1", false, true, false);
    let config = build_provider_models_config_with_input(&provider, &t, false, false).expect("mimo config");
    let provider_json = entry(&config);
    assert_eq!(
        as_bool(path(provider_json, &["compat", "requiresReasoningContentOnAssistantMessages"]).unwrap()),
        Some(true)
    );
    assert_eq!(as_str(path(provider_json, &["compat", "thinkingFormat"]).unwrap()), Some("deepseek"));
    assert_eq!(as_bool(get(first_model(provider_json), "reasoning").unwrap()), Some(true));
}

#[test]
fn provider_models_config_does_not_apply_mimo_replay_to_other_models() {
    let provider = provider("openai", "https://api.xiaomimimo.com/v1", "mimo-v2-tts");
    let t = traits("openai", "https://api.xiaomimimo.com/v1", false, false, false);
    let config = build_provider_models_config_with_input(&provider, &t, false, false).expect("tts config");
    let provider_json = entry(&config);
    assert!(path(provider_json, &["compat", "requiresReasoningContentOnAssistantMessages"]).is_none());
    assert!(path(provider_json, &["compat", "thinkingFormat"]).is_none());
}

#[test]
fn provider_models_config_keeps_mimo_replay_compat_when_retry_disables_reasoning_effort() {
    let provider = provider("openai", "https://api.xiaomimimo.com/v1", "mimo-v2.5");
    let t = traits("openai", "https://api.xiaomimimo.com/v1", false, true, false);
    let config = build_provider_models_config_with_input(&provider, &t, false, true).expect("mimo config");
    let provider_json = entry(&config);
    assert_eq!(
        as_bool(path(provider_json, &["compat", "requiresReasoningContentOnAssistantMessages"]).unwrap()),
        Some(true)
    );
    assert_eq!(as_str(path(provider_json, &["compat", "thinkingFormat"]).unwrap()), Some("deepseek"));
    assert_eq!(as_bool(get(first_model(provider_json), "reasoning").unwrap()), Some(true));
}

#[test]
fn provider_models_config_marks_anthropic_mimo_as_reasoning_capable() {
    let provider = provider("anthropic", "https://token-plan-cn.xiaomimimo.com/anthropic", "mimo-v2.5-pro");
    let t = traits("anthropic", "https://token-plan-cn.xiaomimimo.com/anthropic", false, true, false);
    let config = build_provider_models_config_with_input(&provider, &t, false, false).expect("mimo config");
    let provider_json = entry(&config);
    assert_eq!(as_str(get(provider_json, "api").unwrap()), Some("anthropic-messages"));
    assert_eq!(as_bool(get(provider_json, "authHeader").unwrap()), Some(true));
    assert_eq!(as_bool(get(first_model(provider_json), "reasoning").unwrap()), Some(true));
}

#[test]
fn provider_models_config_needs_id_base_url_and_model() {
    let t = traits("openai", "https://example.com/v1", false, false, false);
    assert!(build_provider_models_config_with_input(&provider("openai", "x", "  "), &t, false, false).is_none());
    let blank_url = traits("openai", "", false, false, false);
    assert!(build_provider_models_config_with_input(&provider("openai", "x", "m"), &blank_url, false, false).is_none());
    let mut keyless = provider("openai", "x", " m ");
    keyless.api_key = "  ".to_string();
    let config = build_provider_models_config_with_input(&keyless, &t, false, false).expect("config");
    assert_eq!(as_str(get(entry(&config), "apiKey").unwrap()), Some("DUMMY_KEY"));
    assert_eq!(as_str(get(first_model(entry(&config)), "id").unwrap()), Some("m"));
    assert_eq!(as_str(get(entry(&config), "api").unwrap()), Some("openai-completions"));
}

#[test]
fn outbound_reply_without_media_is_kept_as_is() {
    let content = "  hello  \nworld";
    assert_eq!(finalize_desktop_outbound_reply(content, &vec![]), content);
}

#[test]
fn outbound_reply_media_is_rebuilt_at_stored_paths() {
    let content = "done\n::nc-media{type=\"image\" path=\"/tmp/a.png\"}";
    let kept = finalize_desktop_outbound_reply(content, &vec![None]);
    let stored = finalize_desktop_outbound_reply(content, &vec![Some("/store/a.png".to_string())]);
    assert!(kept.starts_with("done\n"));
    assert!(kept.contains("/tmp/a.png"));
    assert_eq!(
        stored,
        "done\n::nc-media{type=\"image\" path=\"/store/a.png\" name=\"a.png\" label=\"%E5%9B%BE%E7%89%87\"}"
    );
    assert!(!stored.contains("/tmp/a.png"));
}

#[test]
fn session_files_are_named_by_the_hashed_session() {
    assert_eq!(session_file_path("/tmp", "pi-", None), "/tmp/pi-default.jsonl");
    assert_eq!(session_file_path("/tmp/", "pi-", Some("   ")), "/tmp/pi-default.jsonl");
    let key = hash_session_id("s1");
    assert_eq!(session_file_path("/tmp", "pi-", Some(" s1 ")), format!("/tmp/pi-{key}.jsonl"));
    assert_eq!(key.len(), 32);
}

#[test]
fn memory_vectors_are_admitted_by_scope_and_tags() {
    let tags = vec!["a".to_string(), "b".to_string()];
    let want_a = vec!["a".to_string()];
    let want_c = vec!["c".to_string()];
    let scopes = vec!["workspace".to_string()];
    assert!(memory_vector_admitted("ws", "ws", "workspace", None, &tags, Some(&want_a), Some(&scopes), None));
    assert!(!memory_vector_admitted("ws", "ws", "workspace", None, &tags, Some(&want_c), None, None));
    assert!(memory_vector_admitted("ws", "other", "system", None, &tags, None, None, None));
    assert!(!memory_vector_admitted("ws", "other", "workspace", None, &tags, None, None, None));
    assert!(!memory_vector_admitted("ws", "ws", "system", None, &tags, None, Some(&scopes), None));
    assert!(memory_vector_admitted("ws", "ws", "system", None, &tags, None, Some(&vec![]), None));
    assert!(!memory_vector_admitted("ws", "ws", "agent", Some("a2"), &tags, None, None, Some("a1")));
    assert!(memory_vector_admitted("ws", "ws", "agent", Some("a1"), &tags, None, None, Some("a1")));
    assert!(!memory_vector_admitted("ws", "ws", "agent", None, &tags, None, None, Some("a1")));
    assert!(memory_vector_admitted("ws", "ws", "agent", None, &tags, None, None, None));
}
