use nineclaw::json_value::JsonValue;
use nineclaw::pi_stream::{classify_rpc_line, new_pi_stream, pi_stream_step, RpcReply, StreamAction};

fn s(t: &str) -> JsonValue {
    JsonValue::Str(t.to_string())
}

fn obj(members: Vec<(&str, JsonValue)>) -> JsonValue {
    JsonValue::Object(members.into_iter().map(|(k, v)| (k.to_string(), v)).collect())
}

fn event(kind: &str, rest: Vec<(&str, JsonValue)>) -> JsonValue {
    let mut members = vec![("type", s(kind))];
    members.extend(rest);
    obj(members)
}

fn update(kind: &str, rest: Vec<(&str, JsonValue)>) -> JsonValue {
    let mut inner = vec![("type", s(kind))];
    inner.extend(rest);
    event("message_update", vec![("assistantMessageEvent", obj(inner))])
}

fn assistant(text: &str) -> JsonValue {
    obj(vec![
        ("role", s("assistant")),
        ("content", JsonValue::Array(vec![obj(vec![("type", s("text")), ("text", s(text))])])),
    ])
}

fn deltas(actions: &[StreamAction]) -> Vec<String> {
    actions
        .iter()
        .filter_map(|a| match a {
            StreamAction::Delta(t) => Some(t.clone()),
            _ => None,
        })
        .collect()
}

#[test]
fn text_deltas_accumulate_and_done_catches_up() {
    let mut st = new_pi_stream(20);
    let a = pi_stream_step(&mut st, &update("text_delta", vec![("delta", s("Hel"))]), false);
    assert_eq!(deltas(&a), vec!["Hel".to_string()]);
    let a = pi_stream_step(&mut st, &update("text_delta", vec![("delta", s(""))]), false);
    assert!(a.is_empty());
    let a = pi_stream_step(&mut st, &update("thinking_start", vec![]), false);
    assert!(matches!(a.as_slice(), [StreamAction::ThinkingStart]));
    let a = pi_stream_step(&mut st, &update("thinking_delta", vec![("delta", s("hmm"))]), false);
    assert!(matches!(a.as_slice(), [StreamAction::ThinkingDelta(t)] if t == "hmm"));
    let a = pi_stream_step(&mut st, &update("done", vec![("message", assistant("Hello world"))]), false);
    assert_eq!(deltas(&a), vec!["lo world".to_string()]);
    assert!(matches!(a.last(), Some(StreamAction::Stop)));
    assert_eq!(st.emitted_text, "Hello world");
    assert!(st.saw_message_done);
    assert!(st.saw_assistant_activity);
    assert!(st.saw_terminal_completion());
    assert!(st.should_pool_after_turn(true, false, false, true));
    assert!(!st.should_pool_after_turn(true, true, false, true));
    assert!(!st.should_pool_after_turn(true, false, true, true));
    assert!(!st.should_pool_after_turn(false, false, false, true));
}

#[test]
fn turn_limit_warns_once_then_aborts_once() {
    let mut st = new_pi_stream(12);
    let turn = event("turn_end", vec![]);
    let mut warned = 0;
    let mut aborted = 0;
    for round in 1..=14u32 {
        let a = pi_stream_step(&mut st, &turn, false);
        for action in &a {
            match action {
                StreamAction::WarnIterationLimit { current, max } => {
                    warned += 1;
                    assert_eq!((*current, *max), (2, 12));
                }
                StreamAction::AbortForIterationLimit => {
                    aborted += 1;
                    assert_eq!(round, 12);
                }
                _ => {}
            }
        }
    }
    assert_eq!((warned, aborted), (1, 1));
    assert_eq!(st.completed_turns, 14);
    let mut zero = new_pi_stream(0);
    let a = pi_stream_step(&mut zero, &turn, false);
    assert!(matches!(a.as_slice(), [StreamAction::AbortForIterationLimit]));
}

#[test]
fn failed_prompt_response_ends_the_stream() {
    let mut st = new_pi_stream(20);
    let ok = event("response", vec![("command", s("prompt")), ("success", JsonValue::Bool(true))]);
    assert!(pi_stream_step(&mut st, &ok, false).is_empty());
    assert!(st.saw_prompt_response);
    let failed = event("response", vec![("command", s("prompt")), ("success", JsonValue::Bool(false))]);
    let a = pi_stream_step(&mut st, &failed, false);
    assert!(matches!(a.as_slice(), [StreamAction::PromptFailed(e)] if e == "prompt 调用失败"));
    let failed = event(
        "response",
        vec![("command", s("prompt")), ("error", s("bad model"))],
    );
    let a = pi_stream_step(&mut st, &failed, false);
    assert!(matches!(a.as_slice(), [StreamAction::PromptFailed(e)] if e == "bad model"));
    let other = event("response", vec![("command", s("get_state")), ("success", JsonValue::Bool(false))]);
    assert!(pi_stream_step(&mut st, &other, false).is_empty());
}

#[test]
fn tool_events_carry_their_fields() {
    let mut st = new_pi_stream(20);
    let args = obj(vec![("path", s("/tmp/a"))]);
    let start = event(
        "tool_execution_start",
        vec![("toolCallId", s("c1")), ("toolName", s("read")), ("args", args)],
    );
    let a = pi_stream_step(&mut st, &start, false);
    match a.as_slice() {
        [StreamAction::ToolStart { tool_call_id, tool_name, args: Some(JsonValue::Object(m)) }] => {
            assert_eq!(tool_call_id.as_deref(), Some("c1"));
            assert_eq!(tool_name.as_deref(), Some("read"));
            assert_eq!(m.len(), 1);
        }
        _ => panic!("tool start expected"),
    }
    let end = event(
        "tool_execution_end",
        vec![
            ("toolCallId", s("c1")),
            ("result", obj(vec![("content", JsonValue::Array(vec![obj(vec![("text", s("ok"))])]))])),
            ("isError", JsonValue::Bool(false)),
        ],
    );
    let a = pi_stream_step(&mut st, &end, false);
    match a.as_slice() {
        [StreamAction::ToolEnd { tool_call_id, tool_name, args, result, is_error }] => {
            assert_eq!(tool_call_id.as_deref(), Some("c1"));
            assert!(tool_name.is_none());
            assert!(args.is_none());
            assert_eq!(result.as_deref(), Some("ok"));
            assert_eq!(*is_error, Some(false));
        }
        _ => panic!("tool end expected"),
    }
    assert!(st.emitted_text.is_empty());
}

#[test]
fn assistant_message_end_marks_terminal_message_and_agent_end_stops() {
    let mut st = new_pi_stream(20);
    let user_end = event("message_end", vec![("message", obj(vec![("role", s("user"))]))]);
    assert!(pi_stream_step(&mut st, &user_end, false).is_empty());
    assert!(!st.saw_terminal_message);
    let end = event("message_end", vec![("message", assistant("Answer"))]);
    let a = pi_stream_step(&mut st, &end, false);
    assert_eq!(deltas(&a), vec!["Answer".to_string()]);
    assert!(st.saw_terminal_message);
    let agent_end = event(
        "agent_end",
        vec![("messages", JsonValue::Array(vec![assistant("Answer, extended"), obj(vec![("role", s("user"))])]))],
    );
    let a = pi_stream_step(&mut st, &agent_end, false);
    assert_eq!(deltas(&a), vec![", extended".to_string()]);
    assert!(matches!(a.last(), Some(StreamAction::Stop)));
    assert!(st.saw_agent_end);
    assert_eq!(st.emitted_text, "Answer, extended");
}

#[test]
fn model_abort_is_noted_only_when_not_requested() {
    let mut st = new_pi_stream(20);
    let abort = update("error", vec![("reason", s("aborted"))]);
    pi_stream_step(&mut st, &abort, true);
    assert!(!st.saw_model_abort_event);
    pi_stream_step(&mut st, &abort, false);
    assert!(st.saw_model_abort_event);
    let usage = event("nineclaw_skill_evolution_usage", vec![]);
    assert!(pi_stream_step(&mut st, &usage, false).is_empty());
}

#[test]
fn rpc_lines_answer_only_their_command() {
    let ok = event("response", vec![("id", s("cmd-1")), ("success", JsonValue::Bool(true))]);
    assert!(matches!(classify_rpc_line(&ok, "cmd-1"), RpcReply::Succeeded));
    assert!(matches!(classify_rpc_line(&ok, "cmd-2"), RpcReply::Other));
    let no_flag = event("response", vec![("id", s("cmd-1"))]);
    assert!(matches!(classify_rpc_line(&no_flag, "cmd-1"), RpcReply::Succeeded));
    let failed = event(
        "response",
        vec![("id", s("cmd-1")), ("success", JsonValue::Bool(false)), ("error", s("no session"))],
    );
    assert!(matches!(classify_rpc_line(&failed, "cmd-1"), RpcReply::Failed(m) if m == "pi rpc 命令失败 cmd-1: no session"));
    let bare = event("response", vec![("id", s("cmd-1")), ("success", JsonValue::Bool(false))]);
    assert!(matches!(classify_rpc_line(&bare, "cmd-1"), RpcReply::Failed(m) if m == "pi rpc 命令失败 cmd-1: unknown error"));
    let update = event("message_update", vec![("id", s("cmd-1"))]);
    assert!(matches!(classify_rpc_line(&update, "cmd-1"), RpcReply::Other));
}
