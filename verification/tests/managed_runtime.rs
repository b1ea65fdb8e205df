use nineclaw::managed_runtime::{
    collect_recent_session_events, llm_proxy_binding, render_session_context_snapshot,
    session_event_label, should_auto_retry_runtime, trim_to_char_limit, SessionEventKind,
};
use nineclaw::provider::ProviderRuntimeConfig;
use nineclaw::credential_proxy::{
    build_external_api_url, external_auth_header, external_method, external_request_headers,
    find_external_api, forwards_request_header, forwards_response_header, llm_proxy_headers,
    llm_upstream_url, upstream_method,
};
use nineclaw::delegation::{
    ask_user_timeout_ms, build_delegate_lookup_keys, build_delegate_search_haystack,
    delegate_candidates, delegate_not_found_error, delegate_outcome, delegate_roster,
    delegate_trace_message, format_delegate_candidates, kebab_case_delegate_lookup_key,
    normalize_delegate_lookup_key, resolve_delegate_agent, score_delegate_agent_match,
    tokenize_delegate_lookup_text, DelegateCandidate, DelegateRoleHint, DelegateToolCounter,
};
use nineclaw::managed_runtime::{
    build_retry_prompt, collect_external_apis, delegate_scope_label, extract_decision_summaries,
    prepare_managed_runtime, restrict_harness_to_agent_tools, select_harness, stable_session_token,
    ExternalApiCredential, HarnessCredentialsConfig, HarnessDefinition, HarnessPresence,
    SelectedHarness,
};
use nineclaw::managed_runtime::{
    append_assistant_output_events, default_harness_definition, select_scaffolded_harness,
    session_event_record, HarnessKind,
};
use nineclaw::memory_tools::{
    build_agent_memory_workspace_id, build_chat_search_excerpt, extract_kv_key_from_vector_id,
    memory_search_keyword_fallback, kv_memory_vector_id, matches_search_keyword,
    memory_markdown_relative_path, memory_md_record_id, memory_namespace_for,
    normalize_search_keyword, resolve_current_agent_id, resolve_memory_workspace, KvMemoryText,
    MemoryText,
};

fn test_agent(id: &str, name: &str) -> DelegateCandidate {
    DelegateCandidate {
        id: id.to_string(),
        name: name.to_string(),
        summary: String::new(),
        description: String::new(),
        updated_at: 0,
    }
}

#[test]
fn extracts_decisions_from_assistant_output() {
    let items = extract_decision_summaries(
        "我们决定统一走本地 proxy。\n这不是决定。\n以后都不要把真实 key 传进 agent。",
    );
    assert_eq!(items.len(), 2);
    assert!(items[0].contains("决定"));
}

#[test]
fn builds_external_api_url_with_query() {
    let query = vec![("q".to_string(), "rust lang".to_string())];
    let url = build_external_api_url("https://api.example.com", "/search", &query);
    assert!(url.starts_with("https://api.example.com/search?"));
    assert!(url.contains("q=rust%20lang"));
}

#[test]
fn resolve_delegate_agent_matches_workspace_role_and_slug() {
    let color = test_agent("agent_1", "ColorMaster");
    let psych = test_agent("agent_2", "PsychMarketer");
    let candidates = vec![color.clone(), psych.clone()];
    let role_hints = vec![(color.id.clone(), DelegateRoleHint { role: "colorist".to_string() })];

    let matched = resolve_delegate_agent(&candidates, &role_hints, "agent-colorist", "")
        .expect("match role slug");
    assert_eq!(matched.id, color.id);

    let matched = resolve_delegate_agent(&candidates, &role_hints, "ColorMaster", "")
        .expect("match name");
    assert_eq!(matched.id, color.id);
}

#[test]
fn format_delegate_candidates_includes_role_hint() {
    let color = test_agent("agent_1", "ColorMaster");
    let psych = test_agent("agent_2", "PsychMarketer");
    let candidates = vec![color, psych.clone()];
    let role_hints = vec![(psych.id.clone(), DelegateRoleHint { role: "marketer".to_string() })];

    let formatted = format_delegate_candidates(&candidates, &role_hints);
    assert!(formatted.contains("ColorMaster(agent_1)"));
    assert!(formatted.contains("PsychMarketer(agent_2) role=marketer"));
}

#[test]
fn resolve_delegate_agent_can_match_by_description_and_task() {
    let mut color = test_agent("agent_1", "ColorMaster");
    color.description = "专注于品牌配色策略、Design Token 体系与 CSS/Tailwind 落地。".to_string();
    let mut psych = test_agent("agent_2", "PsychMarketer");
    psych.description = "专注于消费心理、转化文案和增长策略。".to_string();
    let candidates = vec![color.clone(), psych];

    let matched = resolve_delegate_agent(
        &candidates,
        &Vec::new(),
        "帮我找一个适合做配色方案的智能体",
        "需要输出网站品牌配色、design token 和 tailwind 变量",
    )
    .expect("match by description");
    assert_eq!(matched.id, color.id);
}

#[test]
fn direct_chat_delegate_scope_is_global_agents() {
    assert_eq!(delegate_scope_label(None), "当前直接聊天可调用的智能体");
    assert_eq!(delegate_scope_label(Some("workspace-1")), "当前团队成员");
}

#[test]
fn delegate_resolution_prefers_exact_id_then_keys_then_names() {
    let a = test_agent("writer", "Alpha");
    let b = test_agent("agent_b", "Writer Pro");
    let cands = vec![a.clone(), b.clone()];
    assert_eq!(resolve_delegate_agent(&cands, &Vec::new(), " writer ", "").unwrap().id, "writer");
    assert_eq!(resolve_delegate_agent(&cands, &Vec::new(), "writer-pro", "").unwrap().id, "agent_b");
    assert_eq!(resolve_delegate_agent(&cands, &Vec::new(), "pro", "").unwrap().id, "agent_b");
    assert!(resolve_delegate_agent(&cands, &Vec::new(), "   ", "anything").is_none());
    assert!(resolve_delegate_agent(&cands, &Vec::new(), "zzz", "qqq").is_none());
}

#[test]
fn delegate_scoring_breaks_ties_toward_older_agents() {
    let mut older = test_agent("a1", "One");
    older.description = "rust expert".to_string();
    older.updated_at = 5;
    let mut newer = test_agent("a2", "Two");
    newer.description = "rust expert".to_string();
    newer.updated_at = 9;
    let cands = vec![newer, older];
    assert_eq!(resolve_delegate_agent(&cands, &Vec::new(), "need", "rust").unwrap().id, "a1");
}

#[test]
fn delegate_lookup_keys_and_tokens() {
    assert_eq!(normalize_delegate_lookup_key("  Color Master "), "color master");
    assert_eq!(kebab_case_delegate_lookup_key("  Color Master! "), "color-master");
    assert_eq!(kebab_case_delegate_lookup_key("--A__b--"), "a-b");
    assert_eq!(kebab_case_delegate_lookup_key("配色"), "");
    let keys = build_delegate_lookup_keys(
        &test_agent("agent_1", "ColorMaster"),
        Some(&DelegateRoleHint { role: "Lead Colorist".to_string() }),
    );
    for k in ["agent_1", "agent-1", "agent-agent-1", "colormaster", "agent-colormaster", "lead colorist", "lead-colorist", "agent-lead-colorist"] {
        assert!(keys.iter().any(|x| x == k), "missing {k}");
    }
    assert_eq!(
        tokenize_delegate_lookup_text("Design Token, CSS/Tailwind 配色方案!"),
        vec!["design", "token", "css", "tailwind", "配色方案"]
    );
    let mut agent = test_agent(" a1 ", " Name ");
    agent.summary = "  ".to_string();
    agent.description = "Desc".to_string();
    assert_eq!(build_delegate_search_haystack(&agent, None), "a1\nname\ndesc");
    assert_eq!(score_delegate_agent_match(&agent, None, "name", ""), 40 + 4);
    assert_eq!(score_delegate_agent_match(&test_agent("", ""), None, "x", "y"), 0);
}

#[test]
fn delegate_roster_and_candidates() {
    let members = vec![
        ("main".to_string(), "lead".to_string()),
        ("a1".to_string(), "colorist".to_string()),
        ("a2".to_string(), " ".to_string()),
        ("a1".to_string(), "painter".to_string()),
    ];
    let (ids, hints) = delegate_roster(&members, Some("main"));
    assert_eq!(ids, vec!["a1".to_string(), "a2".to_string(), "a1".to_string()]);
    assert_eq!(hints.len(), 1);
    assert_eq!(hints[0].0, "a1");
    assert_eq!(hints[0].1.role, "painter");
    let agents = vec![test_agent("main", "M"), test_agent("a1", "A"), test_agent("x", "X")];
    let allowed = vec!["a1".to_string()];
    let cands = delegate_candidates(agents.clone(), Some("main"), Some(&allowed));
    assert_eq!(cands.len(), 1);
    assert_eq!(cands[0].id, "a1");
    let all = delegate_candidates(agents, Some("main"), None);
    assert_eq!(all.len(), 2);
    assert_eq!(format_delegate_candidates(&Vec::new(), &Vec::new()), "无");
}

#[test]
fn delegate_messages_and_outcomes() {
    let cands = vec![test_agent("a1", "One")];
    let msg = delegate_not_found_error("painter", Some("ws"), &cands, &Vec::new());
    assert_eq!(
        msg,
        "未找到匹配 'painter' 的子智能体。请使用当前团队成员中的真实 agentId、显示名或团队 role。当前可委派智能体：One(a1)"
    );
    let direct = delegate_not_found_error("painter", None, &Vec::new(), &Vec::new());
    assert_eq!(
        direct,
        "未找到匹配 'painter' 的子智能体。请使用当前直接聊天可调用的智能体中的真实 agentId、显示名。当前可委派智能体：无"
    );
    assert_eq!(delegate_trace_message("画图", "背景"), "[委派任务] 画图\n\n背景");
    assert_eq!(delegate_outcome("success"), (true, "success", "done"));
    assert_eq!(delegate_outcome("failed"), (false, "error", "error"));
    assert_eq!(ask_user_timeout_ms(None), 600_000);
    assert_eq!(ask_user_timeout_ms(Some(5)), 1_000);
    assert_eq!(ask_user_timeout_ms(Some(9_999_999)), 3_600_000);
}

#[test]
fn delegate_tool_events_are_numbered() {
    let mut counter = DelegateToolCounter::new();
    assert_eq!(counter.tool_index("c1"), 0);
    assert_eq!(counter.tool_index("c2"), 1);
    assert_eq!(counter.tool_index("c1"), 1);
    assert_eq!(counter.tool_index(""), 2);
    assert_eq!(counter.tool_index(""), 3);
    assert_eq!(counter.count, 4);
}

fn harness(name: &str) -> SelectedHarness {
    SelectedHarness {
        file_path: "/home/harness/code.json".to_string(),
        definition: HarnessDefinition {
            name: name.to_string(),
            description: "d".to_string(),
            prompt_append: String::new(),
            active_tools: vec!["bash".to_string()],
            session_replay_limit: 12,
            enable_external_api_proxy: true,
            auto_retry_on_runtime_failure: true,
        },
    }
}

#[test]
fn restricting_a_harness_sets_tools_and_effective_path() {
    let r = restrict_harness_to_agent_tools(harness("code"), "/rt", vec!["read".to_string(), "grep".to_string()]);
    assert_eq!(r.definition.active_tools, vec!["read".to_string(), "grep".to_string()]);
    assert_eq!(r.file_path, "/rt/harness-effective-code.json");
    assert_eq!(r.definition.name, "code");
    let none = restrict_harness_to_agent_tools(harness("my harness!"), "/rt/", Vec::new());
    assert_eq!(none.definition.active_tools, vec!["__nineclaw_no_tools_allowed__".to_string()]);
    assert_eq!(none.file_path, "/rt/harness-effective-my_harness.json");
}

#[test]
fn code_like_prompts_select_the_code_harness() {
    let all = HarnessPresence { code: true, chat: true, default: true };
    assert_eq!(
        select_harness("/home", "single", Some("帮我修复这个 rust bug 并跑 cargo test"), &all),
        "/home/harness/code.json"
    );
    assert_eq!(select_harness("/home", "single", Some("hello"), &all), "/home/harness/default.json");
    assert_eq!(select_harness("/home", "worker", None, &all), "/home/harness/code.json");
}

#[test]
fn prepared_runtime_carries_the_session_token() {
    let p = prepare_managed_runtime(
        "/rt/ext.ts".to_string(),
        harness("code"),
        "/rt",
        vec![],
        None,
        "anthropic",
        "https://normalized.example",
        None::<String>,
        9,
        " agent ",
        "s1",
    );
    assert_eq!(p.harness.definition.active_tools, vec!["__nineclaw_no_tools_allowed__".to_string()]);
    assert_eq!(p.harness.file_path, "/rt/harness-effective-code.json");
    assert_eq!(p.image_proxy, None);
    assert_eq!(p.session_token, Some(stable_session_token("agent", " s1 ")));
    assert!(p.session_token.as_deref().unwrap().starts_with("nc_"));
    assert_eq!(p.session_token.as_deref().unwrap().len(), 3 + 32);
    assert_eq!(p.proxy_base_url.as_deref(), Some("http://127.0.0.1:9"));
    assert_eq!(p.llm_proxy, None);
    assert_ne!(stable_session_token("a", "s1"), stable_session_token("a", "s2"));
    assert!(build_retry_prompt("继续").contains("继续"));
}

#[test]
fn prepared_runtime_binds_the_configured_provider() {
    let config = ProviderRuntimeConfig {
        provider_id: "openai".to_string(),
        api_format: "openai-completions".to_string(),
        base_url: "https://api.example.com/v1".to_string(),
        api_key: "sk-test".to_string(),
        model: "gpt".to_string(),
    };
    let p = prepare_managed_runtime(
        "/rt/ext.ts".to_string(),
        harness("chat"),
        "/rt",
        vec!["read".to_string(), "grep".to_string()],
        Some(&config),
        "openai-completions",
        "https://normalized.example/v1",
        Some("image-config".to_string()),
        43121,
        "agent",
        "s1",
    );
    assert_eq!(p.image_proxy.as_deref(), Some("image-config"));
    assert_eq!(p.harness.definition.active_tools, vec!["read".to_string(), "grep".to_string()]);
    assert_eq!(p.harness.file_path, "/rt/harness-effective-chat.json");
    assert_eq!(p.proxy_base_url.as_deref(), Some("http://127.0.0.1:43121"));
    let b = p.llm_proxy.expect("binding");
    assert_eq!(b.provider_id, "openai");
    assert_eq!(b.api_format, "openai-completions");
    assert_eq!(b.base_url, "https://normalized.example/v1");
    assert_eq!(b.api_key, "sk-test");
    assert_eq!(b.model, "gpt");
    assert_eq!(p.harness.definition.name, "chat");
}

#[test]
fn selects_code_harness_for_code_like_prompt() {
    let harness = select_scaffolded_harness("/root", "single", Some("帮我修复这个 rust bug 并跑 cargo test"));
    assert_eq!(harness.definition.name, "code");
    assert_eq!(harness.file_path, "/root/harness/code.json");
    assert_eq!(
        harness.definition.active_tools,
        vec!["read", "write", "edit", "bash", "web_fetch"]
    );
    let worker = select_scaffolded_harness("/root", " worker ", Some("hello"));
    assert_eq!(worker.definition.name, "code");
    let chat = select_scaffolded_harness("/root", "single", Some("帮我总结一下"));
    assert_eq!(chat.definition.name, "chat");
    assert_eq!(chat.file_path, "/root/harness/chat.json");
    let plain = select_scaffolded_harness("/root", "single", None);
    assert_eq!(plain.definition.name, "default");
    assert!(plain.definition.active_tools.is_empty());
}

#[test]
fn restrict_harness_sets_sentinel_when_no_tools_allowed() {
    let harness = select_scaffolded_harness("/root", "single", Some("hello"));
    let restricted = restrict_harness_to_agent_tools(harness, "/root", vec![]);
    assert_eq!(restricted.definition.active_tools, vec!["__nineclaw_no_tools_allowed__".to_string()]);
}

#[test]
fn default_harnesses_match_the_scaffold() {
    let code = default_harness_definition(HarnessKind::Code);
    assert_eq!(code.description, "代码执行 harness。优先读代码、改代码、跑命令、验证结果。");
    assert_eq!(
        code.prompt_append,
        "你当前运行在 `code` harness 下。优先遵守该 harness 的职责边界；若任务超出边界，应先收缩问题，再决定是否调用工具。"
    );
    assert_eq!(code.session_replay_limit, 12);
    assert!(!code.enable_external_api_proxy);
    assert!(code.auto_retry_on_runtime_failure);
    let chat = default_harness_definition(HarnessKind::Chat);
    assert_eq!(chat.active_tools, vec!["read", "bash", "web_search", "web_fetch", "write"]);
    assert_eq!(default_harness_definition(HarnessKind::Default).name, "default");
}

#[test]
fn assistant_output_records_trim_the_session_and_cut_summaries() {
    let long: String = "长".repeat(230);
    let content = format!("  {long}\n我们决定统一走本地 proxy。 ");
    let records = append_assistant_output_events(Some("/home/agent"), " s1 ", &content);
    assert_eq!(records.len(), 2);
    assert_eq!(records[0].session_id, "s1");
    assert_eq!(records[0].kind, SessionEventKind::AssistantOutput);
    assert_eq!(records[0].summary.chars().count(), 221);
    assert!(records[0].summary.ends_with('…'));
    assert_eq!(records[1].kind, SessionEventKind::Decision);
    assert_eq!(records[1].summary, "我们决定统一走本地 proxy。");
    assert!(append_assistant_output_events(None, "s1", &content).is_empty());
    assert!(append_assistant_output_events(Some("/home/agent"), "s1", "   ").is_empty());
    let one = session_event_record(" s2 ", SessionEventKind::ToolCall, " read ");
    assert_eq!(one.session_id, "s2");
    assert_eq!(one.summary, "read");
}

fn credential(alias: &str) -> ExternalApiCredential {
    ExternalApiCredential {
        alias: alias.to_string(),
        base_url: "https://api.example.com/".to_string(),
        api_key: " secret ".to_string(),
        auth_header: "Authorization".to_string(),
        auth_scheme: "Bearer".to_string(),
        headers: vec![("x-team".to_string(), "1".to_string())],
    }
}

#[test]
fn external_dispatch_finds_api_and_builds_headers() {
    let config = HarnessCredentialsConfig { external_apis: vec![credential("search"), credential(" ")] };
    let apis = collect_external_apis(&config);
    assert_eq!(apis.len(), 1);
    let api = find_external_api(&apis, " search ").expect("found");
    assert_eq!(api.alias, "search");
    assert_eq!(
        find_external_api(&apis, "maps").err(),
        Some("external api alias not found: maps".to_string())
    );
    assert_eq!(
        external_auth_header(api),
        Some(("Authorization".to_string(), "Bearer secret".to_string()))
    );
    let headers = external_request_headers(api, &vec![("accept".to_string(), "json".to_string())]);
    assert_eq!(headers.len(), 3);
    assert_eq!(headers[0].0, "x-team");
    assert_eq!(headers[1].0, "accept");
    assert_eq!(headers[2].1, "Bearer secret");
    let mut no_key = credential("k");
    no_key.api_key = "  ".to_string();
    assert_eq!(external_auth_header(&no_key), None);
    let mut no_scheme = credential("k");
    no_scheme.auth_scheme = String::new();
    assert_eq!(
        external_auth_header(&no_scheme),
        Some(("Authorization".to_string(), "secret".to_string()))
    );
    assert_eq!(
        build_external_api_url("https://x.io///", "  ", &vec![("a b".to_string(), "ü&".to_string()), ("c".to_string(), "d".to_string())]),
        "https://x.io?a%20b=%C3%BC%26&c=d"
    );
    assert_eq!(external_method(" post "), "post");
    assert_eq!(external_method("PUT"), "PUT");
    assert_eq!(external_method("bad method"), "GET");
    assert_eq!(upstream_method(""), "POST");
}

#[test]
fn llm_proxy_rules() {
    assert_eq!(llm_upstream_url("https://api.x.com/v1/", "/chat/completions", Some("a=1")), "https://api.x.com/v1/chat/completions?a=1");
    assert_eq!(llm_upstream_url("https://api.x.com", " ", None), "https://api.x.com");
    assert!(!forwards_request_header("Host"));
    assert!(!forwards_request_header("X-API-KEY"));
    assert!(!forwards_request_header("authorization"));
    assert!(forwards_request_header("accept"));
    assert!(!forwards_response_header("Content-Length"));
    assert!(forwards_response_header("content-type"));
    let anthropic = llm_proxy_headers("tok", "anthropic", "k", false);
    assert_eq!(
        anthropic,
        vec![
            ("x-nineclaw-session-token".to_string(), "tok".to_string()),
            ("x-api-key".to_string(), "k".to_string()),
            ("anthropic-version".to_string(), "2023-06-01".to_string()),
        ]
    );
    assert_eq!(llm_proxy_headers("tok", "anthropic", "k", true).len(), 2);
    let openai = llm_proxy_headers("tok", "openai", "k", false);
    assert_eq!(openai[1], ("authorization".to_string(), "Bearer k".to_string()));
}

#[test]
fn memory_ids_and_workspaces() {
    assert_eq!(build_agent_memory_workspace_id("a1"), "__agent_memory__:a1");
    assert_eq!(kv_memory_vector_id("color"), "kv::color");
    assert_eq!(extract_kv_key_from_vector_id("kv::color").as_deref(), Some("color"));
    assert_eq!(extract_kv_key_from_vector_id("mem-1"), None);
    assert_eq!(memory_markdown_relative_path("a1"), "agents/a1/MEMORY.md");
    assert_eq!(memory_md_record_id("a1"), "memory_md_a1");
    assert_eq!(resolve_memory_workspace(Some(" ws "), Some("s"), Some("a")), Ok(" ws ".to_string()));
    assert_eq!(resolve_memory_workspace(Some(" "), Some("s"), Some("a")), Ok("s".to_string()));
    assert_eq!(resolve_memory_workspace(None, None, Some("a")), Ok("__agent_memory__:a".to_string()));
    assert_eq!(
        resolve_memory_workspace(None, Some(""), Some(" ")),
        Err("workspace_id is required for memory operations".to_string())
    );
    assert_eq!(resolve_current_agent_id(Some("a1")), Ok("a1".to_string()));
    assert!(resolve_current_agent_id(Some("  ")).is_err());
    assert_eq!(memory_namespace_for("team-1", Some("a")), None);
    let ns = memory_namespace_for("__agent_memory__:a", Some(" ")).expect("namespace");
    assert_eq!(ns.name, "Agent Memory memory-agent");
    assert_eq!(ns.supervisor_agent_id, "memory-agent");
}

#[test]
fn keyword_search_and_excerpts() {
    assert_eq!(normalize_search_keyword("  Rust "), "rust");
    assert!(matches_search_keyword("Learning RUST", "rust"));
    assert!(!matches_search_keyword("anything", ""));
    let memories = vec![
        MemoryText { title: "Rust".to_string(), content: String::new(), tags: Vec::new() },
        MemoryText { title: "x".to_string(), content: "y".to_string(), tags: vec!["rust-lang".to_string()] },
        MemoryText { title: "z".to_string(), content: "z".to_string(), tags: Vec::new() },
    ];
    let kv = vec![KvMemoryText { key: "lang".to_string(), text_value: "rust".to_string(), value_json: "\"rust\"".to_string() }];
    assert_eq!(memory_search_keyword_fallback(&memories, &kv, "  RUST ", 10), (vec![0, 1], vec![0]));
    assert_eq!(memory_search_keyword_fallback(&memories, &kv, "rust", 1), (vec![0], vec![]));
    assert_eq!(memory_search_keyword_fallback(&memories, &kv, "rust", 2), (vec![0, 1], vec![]));
    assert_eq!(memory_search_keyword_fallback(&memories, &kv, "", 5), (vec![], vec![]));
    let long = "word ".repeat(50);
    let excerpt = build_chat_search_excerpt(&long, "answer", "missing");
    assert_eq!(excerpt.chars().count(), 160);
    assert_eq!(build_chat_search_excerpt("  hello   world ", "the Answer has it", "ANSWER"), "the Answer has it");
    assert_eq!(build_chat_search_excerpt("  hello \n  world ", "no", "nothing"), "hello world");
}

#[test]
fn runtime_retries_only_first_attempt_of_retryable_failures() {
    let h = harness("code");
    assert!(should_auto_retry_runtime(Some(&h), 0, "pi 进程超时"));
    assert!(should_auto_retry_runtime(Some(&h), 0, "  RPC 错误: broken pipe"));
    assert!(!should_auto_retry_runtime(Some(&h), 1, "pi 进程超时"));
    assert!(!should_auto_retry_runtime(None, 0, "pi 进程超时"));
    assert!(!should_auto_retry_runtime(Some(&h), 0, "invalid api key"));
    let mut no_retry = harness("code");
    no_retry.definition.auto_retry_on_runtime_failure = false;
    assert!(!should_auto_retry_runtime(Some(&no_retry), 0, "pi 进程超时"));
    assert_eq!(trim_to_char_limit("abcdef", 3), "abc…");
    assert_eq!(trim_to_char_limit("abc", 3), "abc");
    assert_eq!(trim_to_char_limit("日报总结", 2), "日报…");
}

#[test]
fn proxy_binding_carries_the_provider_settings() {
    let config = ProviderRuntimeConfig {
        provider_id: "custom".to_string(),
        api_format: "openai".to_string(),
        base_url: "https://raw.example/v1".to_string(),
        api_key: "secret".to_string(),
        model: "m".to_string(),
    };
    let b = llm_proxy_binding(&config, "anthropic", "https://normalized.example");
    assert_eq!(b.provider_id, "custom");
    assert_eq!(b.api_format, "anthropic");
    assert_eq!(b.base_url, "https://normalized.example");
    assert_eq!(b.api_key, "secret");
    assert_eq!(b.model, "m");
}

fn labelled(events: Vec<(SessionEventKind, String)>) -> Vec<(String, String)> {
    events.into_iter().map(|(kind, summary)| (session_event_label(kind).to_string(), summary)).collect()
}

#[test]
fn appends_events_and_builds_snapshot() {
    let log = vec![
        Some((SessionEventKind::ToolCall, "调用 read 工具读取 Cargo.toml".to_string())),
        Some((SessionEventKind::Decision, "决定优先使用本地 proxy 而不是把真实 key 传进 pi".to_string())),
    ];
    let events = collect_recent_session_events(&vec![log], 8);
    let snapshot = render_session_context_snapshot(&labelled(events), 300).expect("has snapshot");
    assert!(snapshot.contains("tool_call"));
    assert!(snapshot.contains("decision"));
}

#[test]
fn snapshot_reads_newest_log_first_from_the_bottom_up() {
    let newer = vec![
        Some((SessionEventKind::Prompt, "p1".to_string())),
        None,
        Some((SessionEventKind::AssistantOutput, "o1".to_string())),
    ];
    let older = vec![Some((SessionEventKind::RuntimeError, "e0".to_string()))];
    let logs = vec![newer, older];
    let all = collect_recent_session_events(&logs, 10);
    assert_eq!(
        all,
        vec![
            (SessionEventKind::AssistantOutput, "o1".to_string()),
            (SessionEventKind::Prompt, "p1".to_string()),
            (SessionEventKind::RuntimeError, "e0".to_string()),
        ]
    );
    assert_eq!(collect_recent_session_events(&logs, 2).len(), 2);
    assert_eq!(collect_recent_session_events(&logs, 0), vec![(SessionEventKind::AssistantOutput, "o1".to_string())]);
    let snapshot = render_session_context_snapshot(&labelled(all), 1000).unwrap();
    assert_eq!(snapshot, "Recent Session Events:\n- [output] o1\n- [prompt] p1\n- [runtime_error] e0");
    let cut = render_session_context_snapshot(&vec![("prompt".to_string(), "x".repeat(200))], 30).unwrap();
    assert_eq!(cut, "Recent Session Events:\n- [prom…");
    let long = render_session_context_snapshot(&vec![("prompt".to_string(), "y".repeat(200))], 1000).unwrap();
    assert!(long.ends_with(&format!("{}…", "y".repeat(120))));
    assert_eq!(render_session_context_snapshot(&Vec::new(), 100), None);
    assert_eq!(render_session_context_snapshot(&vec![("prompt".to_string(), "z".to_string())], 0), Some("…".to_string()));
}
