use nineclaw::llm_log_export::{
    is_llm_trace_file, plan_preview, preview_from_text, preview_start, trace_export_file_name,
    LlmLogExport, PreviewStep,
};
use nineclaw::llm_trace::{
    append_response_delta, append_thinking_delta, record_tool_call, scope_registry_key,
    storage_scope_for, trace_type_meta, TraceEntry, TraceStorageScope, TraceSystemPromptSection,
    TraceUsage,
};
use nineclaw::trace_guard::{list_recent, TraceGuard};
use nineclaw::trace_registry::{
    clear_trace_file, finalize_entry, newest_first, scoped_trace_entries, trace_file_lines,
    TraceFileAction, TraceRegistry,
};

fn sample_entry() -> TraceEntry {
    let mut entry = TraceEntry {
        id: "trace-1".to_string(),
        workspace_id: Some("ws-1".to_string()),
        kind: "main_pi".to_string(),
        trace_type: "agent_llm".to_string(),
        caller_kind: "agent".to_string(),
        target_kind: "model".to_string(),
        caller_agent_id: "main".to_string(),
        caller_agent_name: "Main".to_string(),
        target_agent_id: None,
        target_agent_name: None,
        session_id: Some("session-1".to_string()),
        parent_trace_id: None,
        provider: Some("openai".to_string()),
        model: Some("gpt-5.4".to_string()),
        response_id: None,
        status: "running".to_string(),
        error: None,
        started_at: 1,
        finished_at: None,
        duration_ms: None,
        usage: None,
        system_prompts: Vec::new(),
        user_message: "hello".to_string(),
        response_text: String::new(),
        thinking_text: String::new(),
        message_blocks: Vec::new(),
        response_blocks: Vec::new(),
        tool_calls: Vec::new(),
    };
    entry.sync_structured_blocks();
    entry
}

#[test]
fn append_response_delta_appends_incrementally() {
    let mut entry = sample_entry();

    assert!(append_response_delta(&mut entry, "foo"));
    assert!(append_response_delta(&mut entry, "bar"));
    assert_eq!(entry.response_text, "foobar");
    assert!(!append_response_delta(&mut entry, ""));
}

#[test]
fn append_thinking_delta_appends_incrementally() {
    let mut entry = sample_entry();

    assert!(append_thinking_delta(&mut entry, "step1"));
    assert!(append_thinking_delta(&mut entry, " -> step2"));
    assert_eq!(entry.thinking_text, "step1 -> step2");
    assert!(!append_thinking_delta(&mut entry, ""));
}

#[test]
fn structured_blocks_fall_back_from_flat_fields() {
    let entry = sample_entry();
    assert_eq!(entry.message_blocks.len(), 1);
    assert_eq!(entry.message_blocks[0].role, "user");
    assert_eq!(entry.response_blocks.len(), 2);
    assert_eq!(entry.response_blocks[0].kind, "thinking");
    assert_eq!(entry.response_blocks[1].kind, "output");
}

#[test]
fn matches_scope_distinguishes_workspace_and_standalone() {
    let workspace_entry = sample_entry();
    let mut standalone_entry = sample_entry();
    standalone_entry.workspace_id = None;

    assert!(workspace_entry.matches_scope(Some("ws-1"), Some("session-1")));
    assert!(!workspace_entry.matches_scope(None, Some("session-1")));
    assert!(standalone_entry.matches_scope(None, Some("session-1")));
    assert!(!standalone_entry.matches_scope(Some("ws-1"), Some("session-1")));
}

#[test]
fn system_prompt_sections_become_numbered_blocks() {
    let mut entry = sample_entry();
    entry.system_prompts = vec![
        TraceSystemPromptSection { label: "agent_system_prompt".to_string(), content: "a".to_string() },
        TraceSystemPromptSection { label: "workspace_team".to_string(), content: "b".to_string() },
    ];
    entry.sync_structured_blocks();
    assert_eq!(entry.message_blocks.len(), 3);
    assert_eq!(entry.message_blocks[0].id, "system-0");
    assert_eq!(entry.message_blocks[1].id, "system-1");
    assert_eq!(entry.message_blocks[1].label, "workspace_team");
    assert_eq!(entry.message_blocks[2].id, "user-0");
    assert_eq!(entry.message_blocks[2].content, "hello");
}

#[test]
fn tool_calls_merge_by_id_and_finish_on_final_status() {
    let mut entry = sample_entry();
    record_tool_call(&mut entry, "call-1", "read", Some("{\"path\":\"a\"}"), None, "running", None, 10);
    record_tool_call(&mut entry, "call-1", "read", Some(""), Some("contents"), "done", Some(false), 25);
    record_tool_call(&mut entry, "", "grep", None, None, "running", None, 30);
    assert_eq!(entry.tool_calls.len(), 2);
    let first = &entry.tool_calls[0];
    assert_eq!(first.args_json, "{\"path\":\"a\"}");
    assert_eq!(first.result_text, "contents");
    assert_eq!(first.status, "done");
    assert_eq!(first.is_error, Some(false));
    assert_eq!(first.started_at, 10);
    assert_eq!(first.finished_at, Some(25));
    assert_eq!(entry.tool_calls[1].tool_name, "grep");
    assert_eq!(entry.tool_calls[1].finished_at, None);
}

#[test]
fn touch_duration_never_goes_negative() {
    let mut entry = sample_entry();
    entry.started_at = 100;
    entry.touch_duration(40);
    assert_eq!(entry.duration_ms, Some(0));
    entry.touch_duration(160);
    assert_eq!(entry.duration_ms, Some(60));
    entry.finished_at = Some(130);
    entry.touch_duration(1000);
    assert_eq!(entry.duration_ms, Some(30));
}

#[test]
fn trace_kinds_map_to_types() {
    assert_eq!(trace_type_meta("delegate"), ("agent_agent", "agent", "agent"));
    assert_eq!(trace_type_meta("action_llm"), ("action_llm", "action", "model"));
    assert_eq!(trace_type_meta("main_pi"), ("agent_llm", "agent", "model"));
}

#[test]
fn storage_scope_prefers_workspace_then_session() {
    assert_eq!(
        storage_scope_for(Some(" ws-9 "), Some("s")),
        Some(TraceStorageScope::Workspace("ws-9".to_string()))
    );
    assert_eq!(storage_scope_for(Some("  "), Some("s")), Some(TraceStorageScope::Standalone));
    assert_eq!(storage_scope_for(None, Some(" ")), None);
    assert_eq!(
        scope_registry_key(Some(" ws "), "s1"),
        ("workspace:ws".to_string(), "s1".to_string())
    );
    assert_eq!(scope_registry_key(None, "s1"), ("standalone".to_string(), "s1".to_string()));
}

#[test]
fn finalize_keeps_longer_snapshot_and_stamps_times() {
    let mut entry = sample_entry();
    entry.response_text = "abc".to_string();
    finalize_entry(
        &mut entry,
        "done",
        None,
        Some("ab".to_string()),
        Some(TraceUsage { input_tokens: Some(3), ..TraceUsage::default() }),
        Some(String::new()),
        Some("gpt-x".to_string()),
        Some("resp-1".to_string()),
        41,
    );
    assert_eq!(entry.status, "done");
    assert_eq!(entry.response_text, "abc");
    assert_eq!(entry.provider.as_deref(), Some("openai"));
    assert_eq!(entry.model.as_deref(), Some("gpt-x"));
    assert_eq!(entry.response_id.as_deref(), Some("resp-1"));
    assert_eq!(entry.finished_at, Some(41));
    assert_eq!(entry.duration_ms, Some(40));
    assert_eq!(entry.usage.map(|u| u.input_tokens), Some(Some(3)));
    assert_eq!(entry.response_blocks[1].content, "abc");

    let mut longer = sample_entry();
    longer.response_text = "ab".to_string();
    finalize_entry(&mut longer, "error", Some("boom".to_string()), Some("abcd".to_string()), None, None, None, None, 5);
    assert_eq!(longer.response_text, "abcd");
    assert_eq!(longer.error.as_deref(), Some("boom"));
    assert_eq!(longer.status, "error");
}

fn begin_main(reg: &mut TraceRegistry, id: &str, ws: Option<&str>, session: Option<&str>, now: i64) {
    reg.begin(id, now, ws, "main_pi", "main", "Main", None, None, session, Some("openai"), Some("m"), Vec::new(), "hi");
}

#[test]
fn registry_links_delegate_traces_to_latest_main_trace() {
    let mut reg = TraceRegistry::new();
    begin_main(&mut reg, "t1", Some(" ws-1 "), Some("s1"), 1);
    begin_main(&mut reg, "t2", Some("ws-1"), Some("s1"), 2);
    reg.begin("d1", 3, Some("ws-1"), "delegate", "main", "Main", Some("a2"), Some("Agent Two"), Some(" s1 "), None, None, Vec::new(), "task");
    let d = reg.get("d1").expect("delegate trace");
    assert_eq!(d.parent_trace_id.as_deref(), Some("t2"));
    assert_eq!(d.trace_type, "agent_agent");
    assert_eq!(d.session_id.as_deref(), Some("s1"));
    assert_eq!(d.workspace_id.as_deref(), Some("ws-1"));
    assert_eq!(d.status, "running");
    assert_eq!(d.started_at, 3);
    reg.begin("d2", 4, None, "delegate", "main", "Main", None, None, Some("s1"), None, None, Vec::new(), "task");
    assert_eq!(reg.get("d2").expect("standalone delegate").parent_trace_id, None);
    assert_eq!(reg.get("t1").expect("main").parent_trace_id, None);
}

#[test]
fn registry_updates_and_finishes_running_traces() {
    let mut reg = TraceRegistry::new();
    begin_main(&mut reg, "t1", None, Some("s1"), 10);
    assert!(reg.append_response("t1", "hel"));
    assert!(reg.append_response("t1", "lo"));
    assert!(!reg.append_response("t1", ""));
    assert!(!reg.append_response("missing", "x"));
    assert!(reg.append_thinking("t1", "think"));
    assert!(reg.record_tool("t1", "c1", "read", None, None, "running", None, 11));
    assert!(!reg.record_tool("", "c1", "read", None, None, "running", None, 11));
    let e = reg.get("t1").expect("running");
    assert_eq!(e.response_text, "hello");
    assert_eq!(e.response_blocks[1].content, "hello");
    assert_eq!(e.thinking_text, "think");
    assert_eq!(e.tool_calls.len(), 1);

    let done = reg.finalize("t1", "done", None, None, None, None, None, None, 30).expect("finalized");
    assert_eq!(done.status, "done");
    assert_eq!(done.duration_ms, Some(20));
    assert!(reg.get("t1").is_none());
    assert!(reg.finalize("t1", "done", None, None, None, None, None, None, 31).is_none());
}

#[test]
fn beginning_an_existing_id_replaces_it() {
    let mut reg = TraceRegistry::new();
    begin_main(&mut reg, "t1", None, Some("s1"), 1);
    reg.append_response("t1", "old");
    begin_main(&mut reg, "t1", None, Some("s1"), 5);
    assert_eq!(reg.entries.len(), 1);
    assert_eq!(reg.get("t1").expect("entry").response_text, "");
    assert_eq!(reg.get("t1").expect("entry").started_at, 5);
}

#[test]
fn clearing_a_scope_drops_only_its_running_traces() {
    let mut reg = TraceRegistry::new();
    begin_main(&mut reg, "a", Some("ws-1"), Some("s1"), 1);
    begin_main(&mut reg, "b", Some("ws-1"), Some("s2"), 2);
    begin_main(&mut reg, "c", None, Some("s1"), 3);
    assert_eq!(reg.running_in_scope(Some("ws-1"), None).len(), 2);
    reg.clear_scope(Some("ws-1"), Some("s1"));
    let ids: Vec<&str> = reg.entries.iter().map(|e| e.id.as_str()).collect();
    assert_eq!(ids, vec!["b", "c"]);
}

#[test]
fn newest_first_is_stable_and_limited() {
    let mut a = sample_entry();
    a.id = "a".to_string();
    a.started_at = 5;
    let mut b = sample_entry();
    b.id = "b".to_string();
    b.started_at = 9;
    let mut c = sample_entry();
    c.id = "c".to_string();
    c.started_at = 5;
    let mut d = sample_entry();
    d.id = "d".to_string();
    d.started_at = 1;
    let sorted = newest_first(vec![a.clone(), b.clone(), c.clone(), d.clone()], 10);
    let ids: Vec<&str> = sorted.iter().map(|e| e.id.as_str()).collect();
    assert_eq!(ids, vec!["b", "a", "c", "d"]);
    let top = newest_first(vec![a, b, c, d], 2);
    let ids: Vec<&str> = top.iter().map(|e| e.id.as_str()).collect();
    assert_eq!(ids, vec!["b", "a"]);
}

#[test]
fn trace_files_are_read_as_trimmed_records() {
    let lines = trace_file_lines("  {\"a\":1}  \r\n\n   \n{\"b\":2}");
    assert_eq!(lines, vec!["{\"a\":1}".to_string(), "{\"b\":2}".to_string()]);
}

#[test]
fn clearing_a_trace_file_keeps_other_scopes_and_unreadable_lines() {
    let mine = sample_entry();
    let mut other = sample_entry();
    other.session_id = Some("session-2".to_string());
    let records = vec!["one".to_string(), "two".to_string(), "three".to_string()];
    let parsed = vec![Some(mine.clone()), None, Some(other.clone())];
    assert_eq!(
        clear_trace_file(Some("ws-1"), Some("session-1"), &records, &parsed),
        TraceFileAction::Rewrite("two\nthree\n".to_string())
    );
    assert_eq!(clear_trace_file(Some("ws-1"), None, &records, &parsed), TraceFileAction::Remove);
    let only_mine = vec![Some(mine.clone())];
    assert_eq!(
        clear_trace_file(Some("ws-1"), Some("session-1"), &vec!["one".to_string()], &only_mine),
        TraceFileAction::Remove
    );
    let kept = scoped_trace_entries(vec![Some(mine), None, Some(other)], Some("ws-1"), Some("session-1"));
    assert_eq!(kept.len(), 1);
    assert_eq!(kept[0].id, "trace-1");
}

#[test]
fn export_directory_is_set_only_when_it_exists() {
    let mut export = LlmLogExport::new();
    assert_eq!(export.get_dir(), None);
    assert!(export.set_dir(Some("  /tmp/logs  "), true).is_ok());
    assert_eq!(export.get_dir().as_deref(), Some("/tmp/logs"));
    assert_eq!(export.set_dir(Some("/missing"), false), Err("路径不是已存在的目录".to_string()));
    assert_eq!(export.get_dir().as_deref(), Some("/tmp/logs"));
    assert!(export.set_dir(Some("   "), false).is_ok());
    assert_eq!(export.get_dir(), None);
    export.restore(" /var/log/x ", true);
    assert_eq!(export.get_dir().as_deref(), Some("/var/log/x"));
}

#[test]
fn mirror_file_names_are_recognised() {
    let name = trace_export_file_name("2024-05-01");
    assert_eq!(name, "llm-trace-2024-05-01.jsonl");
    assert!(is_llm_trace_file(&name));
    assert!(!is_llm_trace_file("llm-trace-2024-05-01.json"));
    assert!(!is_llm_trace_file("trace-2024.jsonl"));
}

#[test]
fn preview_reads_the_newest_mirror_file() {
    let names = vec![
        "llm-trace-2024-05-01.jsonl".to_string(),
        "notes.txt".to_string(),
        "llm-trace-2024-06-02.jsonl".to_string(),
        "llm-trace-2024-05-30.jsonl".to_string(),
    ];
    assert_eq!(
        plan_preview(Some("/logs/"), true, &names),
        Ok(PreviewStep::Read("/logs/llm-trace-2024-06-02.jsonl".to_string()))
    );
    assert_eq!(
        plan_preview(Some("/logs"), true, &names),
        Ok(PreviewStep::Read("/logs/llm-trace-2024-06-02.jsonl".to_string()))
    );
    assert_eq!(plan_preview(Some("/logs"), false, &names), Err("日志目录无效或不可访问".to_string()));
    match plan_preview(None, true, &names) {
        Ok(PreviewStep::Done(p)) => {
            assert_eq!(p.file, None);
            assert_eq!(p.tail, "未设置日志目录。");
        }
        other => panic!("unexpected {other:?}"),
    }
    match plan_preview(Some("/logs"), true, &vec!["a.txt".to_string()]) {
        Ok(PreviewStep::Done(p)) => assert!(p.tail.contains("llm-trace-*.jsonl")),
        other => panic!("unexpected {other:?}"),
    }
}

#[test]
fn preview_drops_the_cut_first_line() {
    assert_eq!(preview_start(100), 0);
    assert_eq!(preview_start(49152), 0);
    assert_eq!(preview_start(50000), 848);
    let p = preview_from_text("/f".to_string(), "tial line\nfull line\n", 848);
    assert_eq!(p.tail, "full line\n");
    assert_eq!(p.file.as_deref(), Some("/f"));
    assert_eq!(preview_from_text("/f".to_string(), "whole\nfile", 0).tail, "whole\nfile");
    assert_eq!(preview_from_text("/f".to_string(), "no break", 5).tail, "no break");
}

#[test]
fn trace_guard_finishes_its_trace_once() {
    let mut reg = TraceRegistry::new();
    begin_main(&mut reg, "t1", None, Some("s1"), 10);
    assert!(reg.append_response("t1", "partial"));
    let mut guard = TraceGuard::new("t1".to_string());
    assert_eq!(guard.id(), Some("t1"));
    let done = guard
        .finalize_done(&mut reg, Some("the full reply".to_string()), None, None, Some("m2".to_string()), Some("r-1".to_string()), 25)
        .expect("finished");
    assert_eq!(done.status, "done");
    assert_eq!(done.response_text, "the full reply");
    assert_eq!(done.model.as_deref(), Some("m2"));
    assert_eq!(done.response_id.as_deref(), Some("r-1"));
    assert_eq!(done.finished_at, Some(25));
    assert_eq!(done.duration_ms, Some(15));
    assert_eq!(guard.id(), None);
    assert!(reg.get("t1").is_none());
    assert!(guard.finalize_error(&mut reg, "late".to_string(), 30).is_none());
    assert!(guard.release(&mut reg, 31).is_none());
}

#[test]
fn trace_guard_error_aborted_and_release() {
    let mut reg = TraceRegistry::new();
    begin_main(&mut reg, "a", None, Some("s1"), 1);
    begin_main(&mut reg, "b", None, Some("s1"), 2);
    begin_main(&mut reg, "c", None, Some("s1"), 3);
    let mut ga = TraceGuard::new("a".to_string());
    let a = ga.finalize_error(&mut reg, "boom".to_string(), 5).expect("a");
    assert_eq!(a.status, "error");
    assert_eq!(a.error.as_deref(), Some("boom"));
    let mut gb = TraceGuard::new("b".to_string());
    let b = gb.finalize_aborted(&mut reg, "stopped".to_string(), 6).expect("b");
    assert_eq!(b.status, "aborted");
    assert_eq!(b.error.as_deref(), Some("stopped"));
    let c = TraceGuard::new("c".to_string()).release(&mut reg, 7).expect("c");
    assert_eq!(c.status, "aborted");
    assert_eq!(c.error.as_deref(), Some("调用流程提前结束（未显式标记完成）"));
    assert!(reg.entries.is_empty());
    assert!(TraceGuard::new("missing".to_string()).release(&mut reg, 8).is_none());
}

#[test]
fn list_recent_merges_running_and_archived_newest_first() {
    let mut running_a = sample_entry();
    running_a.id = "run-a".to_string();
    running_a.started_at = 50;
    let mut running_other = sample_entry();
    running_other.id = "run-other".to_string();
    running_other.workspace_id = Some("ws-2".to_string());
    running_other.started_at = 60;
    let mut old1 = sample_entry();
    old1.id = "old-1".to_string();
    old1.started_at = 10;
    let mut old2 = sample_entry();
    old2.id = "old-2".to_string();
    old2.started_at = 70;
    let listed = list_recent(
        vec![running_a, running_other],
        vec![Some(old1), None, Some(old2)],
        Some("ws-1"),
        None,
        2,
    );
    let ids: Vec<&str> = listed.iter().map(|e| e.id.as_str()).collect();
    assert_eq!(ids, vec!["old-2", "run-a"]);
}

#[test]
fn delegate_traces_link_to_the_main_trace_across_other_calls() {
    let mut reg = TraceRegistry::new();
    begin_main(&mut reg, "m1", Some("ws"), Some("s1"), 1);
    reg.begin("x1", 2, Some("ws"), "delegate", "main", "Main", None, None, Some("s1"), None, None, Vec::new(), "a");
    begin_main(&mut reg, "other", Some("ws"), Some("s2"), 3);
    begin_main(&mut reg, "solo", None, Some("s1"), 4);
    assert!(reg.finalize("m1", "done", None, None, None, None, None, None, 5).is_some());
    reg.begin("x2", 6, Some(" ws "), "delegate", "main", "Main", None, None, Some(" s1 "), None, None, Vec::new(), "b");
    assert_eq!(reg.get("x2").expect("delegate").parent_trace_id.as_deref(), Some("m1"));
    assert_eq!(reg.get("x1").expect("delegate").parent_trace_id.as_deref(), Some("m1"));
}
