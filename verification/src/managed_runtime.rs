//! Managed agent runtime: harness choice, session event summaries, retry policy and the
//! shapes of the runtime configuration.
use vstd::prelude::*;
use crate::text::{
    chars_eq, chars_to_string, contains, contains_chars, join, lines, lower_chars, push_all, push_str,
    slice_to_vec, split_lines, str_chars, trim, trim_vec, trimmed_chars, unicode_lower,
};

verus! {

/// The kinds of events written to a session log.
#[derive(Debug, Clone, Copy, PartialEq, Eq, Structural)]
pub enum SessionEventKind {
    Prompt,
    ToolCall,
    ToolResult,
    AssistantOutput,
    Decision,
    RuntimeError,
    RuntimeRetry,
}

/// A harness: the tools and prompt additions a run works with.
#[derive(Debug, Clone, PartialEq, Eq)]
pub struct HarnessDefinition {
    pub name: String,
    pub description: String,
    pub prompt_append: String,
    pub active_tools: Vec<String>,
    pub session_replay_limit: usize,
    pub enable_external_api_proxy: bool,
    pub auto_retry_on_runtime_failure: bool,
}

/// The external APIs an agent may reach through the credential proxy.
#[derive(Debug, Clone, PartialEq, Eq, Default)]
pub struct HarnessCredentialsConfig {
    pub external_apis: Vec<ExternalApiCredential>,
}

/// One external API: where it lives and how to authenticate. `headers` has distinct names.
#[derive(Debug, Clone, PartialEq, Eq)]
pub struct ExternalApiCredential {
    pub alias: String,
    pub base_url: String,
    pub api_key: String,
    pub auth_header: String,
    pub auth_scheme: String,
    pub headers: Vec<(String, String)>,
}

/// The harness file chosen for a run, with its definition.
#[derive(Debug, Clone, PartialEq, Eq)]
pub struct SelectedHarness {
    pub file_path: String,
    pub definition: HarnessDefinition,
}

/// The LLM endpoint the credential proxy forwards to.
#[derive(Debug, Clone, PartialEq, Eq)]
pub struct LlmProxyBinding {
    pub provider_id: String,
    pub api_format: String,
    pub base_url: String,
    pub api_key: String,
    pub model: String,
}

/// Everything a managed runtime run is started with; `I` is the image generation configuration
/// the proxy hands to image requests.
#[derive(Debug, Clone, PartialEq, Eq)]
pub struct PreparedManagedRuntime<I> {
    pub extension_path: String,
    pub harness: SelectedHarness,
    pub llm_proxy: Option<LlmProxyBinding>,
    pub image_proxy: Option<I>,
    pub proxy_base_url: Option<String>,
    pub session_token: Option<String>,
}

/// One event as a session log stores it (the log adds an id and the time).
#[derive(Debug, Clone, PartialEq, Eq)]
pub struct SessionEventRecord {
    pub session_id: String,
    pub kind: SessionEventKind,
    pub summary: String,
}

/// Whether some needle, trimmed and lower-cased, is non-empty and occurs in `content`.
pub open spec fn contains_any_spec(content: Seq<char>, needles: Seq<Seq<char>>) -> bool {
    exists|i: int|
        0 <= i < needles.len() && trim(#[trigger] needles[i]).len() > 0 && contains(
            content,
            unicode_lower(trim(needles[i])),
        )
}

pub open spec fn strs_view(v: Seq<&str>) -> Seq<Seq<char>> {
    v.map_values(|s: &str| s@)
}

/// Whether `content` contains one of the (trimmed, lower-cased) needles.
pub fn contains_any(content: &[char], needles: &[&str]) -> (b: bool)
    ensures
        b == contains_any_spec(content@, strs_view(needles@)),
{
    let ghost nv = strs_view(needles@);
    let mut i: usize = 0;
    while i < needles.len()
        invariant
            i <= needles.len(),
            nv == strs_view(needles@),
            forall|j: int|
                0 <= j < i ==> !(trim(#[trigger] nv[j]).len() > 0 && contains(
                    content@,
                    unicode_lower(trim(nv[j])),
                )),
        decreases needles.len() - i,
    {
        let t = trimmed_chars(needles[i]);
        assert(nv[i as int] == needles@[i as int]@);
        if t.len() > 0 {
            let l = lower_chars(&t);
            if contains_chars(content, &l) {
                return true;
            }
        }
        i = i + 1;
    }
    false
}

/// `s` cut to `limit` characters with `…` appended when longer, then trimmed.
pub open spec fn truncated_summary(s: Seq<char>, limit: nat) -> Seq<char> {
    if s.len() <= limit {
        trim(s)
    } else {
        trim(s.take(limit as int) + "…"@)
    }
}

/// Shortens a summary to `limit` characters (marking the cut with `…`) and trims it.
pub fn truncate_summary(value: &[char], limit: usize) -> (r: Vec<char>)
    ensures
        r@ == truncated_summary(value@, limit as nat),
{
    if value.len() <= limit {
        return trim_vec(value);
    }
    let mut out = slice_to_vec(value, 0, limit);
    assert(out@ =~= value@.take(limit as int));
    push_str(&mut out, "…");
    trim_vec(&out)
}

/// `s` cut to `limit` characters with `…` appended when longer.
pub open spec fn char_limited(s: Seq<char>, limit: nat) -> Seq<char> {
    if s.len() <= limit {
        s
    } else {
        s.take(limit as int) + "…"@
    }
}

/// Cuts text to `char_limit` characters, marking the cut with `…`.
pub fn trim_to_char_limit(value: &str, char_limit: usize) -> (r: String)
    ensures
        r@ == char_limited(value@, char_limit as nat),
{
    let v = str_chars(value);
    if v.len() <= char_limit {
        return value.to_owned();
    }
    let mut out = slice_to_vec(&v, 0, char_limit);
    assert(out@ =~= v@.take(char_limit as int));
    push_str(&mut out, "…");
    chars_to_string(&out)
}

/// A line that states a decision: it names a decision keyword and does not disclaim one.
pub open spec fn decision_line(t: Seq<char>) -> bool {
    let lower = unicode_lower(t);
    !contains_any_spec(lower, seq!["不是决定"@, "not a decision"@, "并非决定"@]) && contains_any_spec(
        lower,
        seq!["决定"@, "约定"@, "规则"@, "统一"@, "以后都"@, "must"@, "we will"@, "decision"@],
    )
}

/// The decision summaries of some lines, with consecutive repeats dropped.
pub open spec fn decisions_in(ls: Seq<Seq<char>>) -> Seq<Seq<char>>
    decreases ls.len(),
{
    if ls.len() == 0 {
        Seq::empty()
    } else {
        let prev = decisions_in(ls.drop_last());
        let t = trim(ls.last());
        if t.len() > 0 && decision_line(t) {
            let s = truncated_summary(t, 140);
            if prev.len() > 0 && prev.last() == s {
                prev
            } else {
                prev.push(s)
            }
        } else {
            prev
        }
    }
}

/// The decisions stated in an assistant reply, one summary per line.
pub open spec fn decision_summaries(content: Seq<char>) -> Seq<Seq<char>> {
    if trim(content).len() == 0 {
        Seq::empty()
    } else {
        decisions_in(lines(trim(content)))
    }
}

fn is_decision_line(t: &[char]) -> (b: bool)
    ensures
        b == decision_line(t@),
{
    let lower = lower_chars(t);
    let negative: [&str; 3] = ["不是决定", "not a decision", "并非决定"];
    let positive: [&str; 8] = ["决定", "约定", "规则", "统一", "以后都", "must", "we will", "decision"];
    assert(strs_view(negative@) =~= seq!["不是决定"@, "not a decision"@, "并非决定"@]);
    assert(strs_view(positive@) =~= seq![
        "决定"@,
        "约定"@,
        "规则"@,
        "统一"@,
        "以后都"@,
        "must"@,
        "we will"@,
        "decision"@,
    ]);
    !contains_any(&lower, &negative) && contains_any(&lower, &positive)
}

/// Picks the lines of an assistant reply that record decisions.
pub fn extract_decision_summaries(content: &str) -> (r: Vec<String>)
    ensures
        r@.map_values(|s: String| s@) == decision_summaries(content@),
{
    let normalized = trimmed_chars(content);
    if normalized.len() == 0 {
        return Vec::new();
    }
    let ls = split_lines(&normalized);
    let ghost lv = ls@.map_values(|l: Vec<char>| l@);
    let mut hits: Vec<String> = Vec::new();
    let mut i: usize = 0;
    while i < ls.len()
        invariant
            i <= ls.len(),
            lv == ls@.map_values(|l: Vec<char>| l@),
            hits@.map_values(|s: String| s@) == decisions_in(lv.take(i as int)),
        decreases ls.len() - i,
    {
        assert(lv.take(i + 1).drop_last() =~= lv.take(i as int));
        assert(lv.take(i + 1).last() == ls@[i as int]@);
        let ghost before = hits@.map_values(|s: String| s@);
        let t = trim_vec(&ls[i]);
        if t.len() > 0 && is_decision_line(&t) {
            let s = truncate_summary(&t, 140);
            let repeat = if hits.len() > 0 {
                let last = str_chars(hits[hits.len() - 1].as_str());
                chars_eq(&last, &s)
            } else {
                false
            };
            if !repeat {
                hits.push(chars_to_string(&s));
                assert(hits@.map_values(|s: String| s@) =~= before.push(s@));
            }
        }
        i = i + 1;
    }
    assert(lv.take(ls.len() as int) =~= lv);
    hits
}

/// The events an assistant reply adds to the session log: the reply itself, then one event
/// per stated decision; nothing for a blank reply.
pub open spec fn output_events(content: Seq<char>) -> Seq<(SessionEventKind, Seq<char>)> {
    if trim(content).len() == 0 {
        Seq::empty()
    } else {
        seq![(SessionEventKind::AssistantOutput, trim(content))] + decision_summaries(
            trim(content),
        ).map_values(|d: Seq<char>| (SessionEventKind::Decision, d))
    }
}

/// The session events to record for an assistant reply, in order.
fn assistant_output_events(content: &str) -> (r: Vec<(SessionEventKind, String)>)
    ensures
        r@.map_values(|e: (SessionEventKind, String)| (e.0, e.1@)) == output_events(content@),
{
    let t = trimmed_chars(content);
    if t.len() == 0 {
        let r: Vec<(SessionEventKind, String)> = Vec::new();
        assert(r@.map_values(|e: (SessionEventKind, String)| (e.0, e.1@)) =~= output_events(
            content@,
        ));
        return r;
    }
    let trimmed = chars_to_string(&t);
    let mut events: Vec<(SessionEventKind, String)> = Vec::new();
    events.push((SessionEventKind::AssistantOutput, trimmed.clone()));
    let decisions = extract_decision_summaries(trimmed.as_str());
    let ghost dv = decisions@.map_values(|s: String| s@);
    let mut i: usize = 0;
    while i < decisions.len()
        invariant
            i <= decisions.len(),
            dv == decisions@.map_values(|s: String| s@),
            events@.map_values(|e: (SessionEventKind, String)| (e.0, e.1@)) =~= seq![
                (SessionEventKind::AssistantOutput, t@),
            ] + dv.take(i as int).map_values(|d: Seq<char>| (SessionEventKind::Decision, d)),
        decreases decisions.len() - i,
    {
        let ghost before = events@.map_values(|e: (SessionEventKind, String)| (e.0, e.1@));
        events.push((SessionEventKind::Decision, decisions[i].clone()));
        assert(events@.map_values(|e: (SessionEventKind, String)| (e.0, e.1@)) =~= before.push(
            (SessionEventKind::Decision, dv[i as int]),
        ));
        assert(dv.take(i + 1).map_values(|d: Seq<char>| (SessionEventKind::Decision, d)) =~= dv.take(
            i as int,
        ).map_values(|d: Seq<char>| (SessionEventKind::Decision, d)).push(
            (SessionEventKind::Decision, dv[i as int]),
        ));
        i = i + 1;
    }
    assert(dv.take(decisions.len() as int) =~= dv);
    proof {
        crate::text::lemma_trim_idempotent(content@);
    }
    events
}

/// The longest summary a session log keeps for one event, in characters.
pub open spec fn event_summary_limit() -> nat {
    220
}

/// An event as the log stores it: the session id trimmed, the summary shortened (see
/// `truncated_summary`).
pub open spec fn event_record(session_id: Seq<char>, kind: SessionEventKind, summary: Seq<char>) -> (
    Seq<char>,
    SessionEventKind,
    Seq<char>,
) {
    (trim(session_id), kind, truncated_summary(summary, event_summary_limit()))
}

pub open spec fn record_view(e: SessionEventRecord) -> (Seq<char>, SessionEventKind, Seq<char>) {
    (e.session_id@, e.kind, e.summary@)
}

/// Builds the record of one session event (see `event_record`).
pub fn session_event_record(session_id: &str, kind: SessionEventKind, summary: &str) -> (r:
    SessionEventRecord)
    ensures
        record_view(r) == event_record(session_id@, kind, summary@),
{
    let id = trimmed_chars(session_id);
    let s = str_chars(summary);
    let cut = truncate_summary(&s, 220);
    SessionEventRecord { session_id: chars_to_string(&id), kind, summary: chars_to_string(&cut) }
}

/// The records an assistant reply adds to a session log: none without an agent home, else one
/// per event of `output_events`, in order.
pub open spec fn output_records(has_home: bool, session_id: Seq<char>, content: Seq<char>) -> Seq<
    (Seq<char>, SessionEventKind, Seq<char>),
> {
    if !has_home {
        Seq::empty()
    } else {
        output_events(content).map_values(
            |e: (SessionEventKind, Seq<char>)| event_record(session_id, e.0, e.1),
        )
    }
}

/// The session log records for an assistant reply (see `output_records`); the caller appends
/// them to the agent's log.
pub fn append_assistant_output_events(agent_home: Option<&str>, session_id: &str, content: &str) -> (r:
    Vec<SessionEventRecord>)
    ensures
        r@.map_values(|e: SessionEventRecord| record_view(e)) == output_records(
            agent_home is Some,
            session_id@,
            content@,
        ),
{
    let mut out: Vec<SessionEventRecord> = Vec::new();
    if agent_home.is_none() {
        assert(out@.map_values(|e: SessionEventRecord| record_view(e)) =~= output_records(
            false,
            session_id@,
            content@,
        ));
        return out;
    }
    let events = assistant_output_events(content);
    let ghost ev = events@.map_values(|e: (SessionEventKind, String)| (e.0, e.1@));
    let mut i: usize = 0;
    while i < events.len()
        invariant
            i <= events.len(),
            ev == events@.map_values(|e: (SessionEventKind, String)| (e.0, e.1@)),
            out@.map_values(|e: SessionEventRecord| record_view(e)) =~= ev.take(i as int).map_values(
                |e: (SessionEventKind, Seq<char>)| event_record(session_id@, e.0, e.1),
            ),
        decreases events.len() - i,
    {
        let rec = session_event_record(session_id, events[i].0, events[i].1.as_str());
        let ghost before = out@.map_values(|e: SessionEventRecord| record_view(e));
        out.push(rec);
        assert(out@.map_values(|e: SessionEventRecord| record_view(e)) =~= before.push(
            event_record(session_id@, ev[i as int].0, ev[i as int].1),
        ));
        assert(ev.take(i + 1).map_values(
            |e: (SessionEventKind, Seq<char>)| event_record(session_id@, e.0, e.1),
        ) =~= ev.take(i as int).map_values(
            |e: (SessionEventKind, Seq<char>)| event_record(session_id@, e.0, e.1),
        ).push(event_record(session_id@, ev[i as int].0, ev[i as int].1)));
        i = i + 1;
    }
    assert(ev.take(events.len() as int) =~= ev);
    out
}

/// Error texts that point at a runtime failure worth one retry.
pub open spec fn retryable_error(error: Seq<char>) -> bool {
    contains_any_spec(
        unicode_lower(trim(error)),
        seq![
            "未返回 agent_end"@,
            "退出码"@,
            "超时"@,
            "timed out"@,
            "signal"@,
            "信号终止"@,
            "runtime"@,
            "rpc 错误"@,
            "启动 pi 失败"@,
            "无输出内容"@,
        ],
    )
}

/// Whether a failed first attempt is retried: the harness allows it and the error looks like a
/// runtime failure.
pub fn should_auto_retry_runtime(harness: Option<&SelectedHarness>, attempt: usize, error: &str) -> (b:
    bool)
    ensures
        b == (attempt == 0 && harness is Some
            && harness.unwrap().definition.auto_retry_on_runtime_failure && retryable_error(
            error@,
        )),
{
    if attempt > 0 {
        return false;
    }
    let harness = match harness {
        Some(h) => h,
        None => {
            return false;
        },
    };
    if !harness.definition.auto_retry_on_runtime_failure {
        return false;
    }
    let t = trimmed_chars(error);
    let lower = lower_chars(&t);
    let needles: [&str; 10] = [
        "未返回 agent_end",
        "退出码",
        "超时",
        "timed out",
        "signal",
        "信号终止",
        "runtime",
        "rpc 错误",
        "启动 pi 失败",
        "无输出内容",
    ];
    assert(strs_view(needles@) =~= seq![
        "未返回 agent_end"@,
        "退出码"@,
        "超时"@,
        "timed out"@,
        "signal"@,
        "信号终止"@,
        "runtime"@,
        "rpc 错误"@,
        "启动 pi 失败"@,
        "无输出内容"@,
    ]);
    contains_any(&lower, &needles)
}

pub open spec fn retry_note() -> Seq<char> {
    "\n\n[system note] 上一次运行因 runtime 异常中断。请读取当前 session 状态并继续未完成任务，不要重复已经完成的步骤。"@
}

pub open spec fn retry_prompt(original: Seq<char>) -> Seq<char> {
    if trim(original).len() == 0 {
        "上一次运行因为 runtime 异常中断。请基于当前 session 状态继续未完成任务，不要重复已经完成的工作。"@
    } else {
        trim(original) + retry_note()
    }
}

/// The prompt for a retry after a runtime failure.
pub fn build_retry_prompt(original_prompt: &str) -> (r: String)
    ensures
        r@ == retry_prompt(original_prompt@),
{
    let t = trimmed_chars(original_prompt);
    if t.len() == 0 {
        return "上一次运行因为 runtime 异常中断。请基于当前 session 状态继续未完成任务，不要重复已经完成的工作。".to_owned();
    }
    let mut out = t;
    push_str(
        &mut out,
        "\n\n[system note] 上一次运行因 runtime 异常中断。请读取当前 session 状态并继续未完成任务，不要重复已经完成的步骤。",
    );
    chars_to_string(&out)
}

/// The label of an event kind in a session snapshot.
pub open spec fn kind_label(k: SessionEventKind) -> Seq<char> {
    match k {
        SessionEventKind::Prompt => "prompt"@,
        SessionEventKind::ToolCall => "tool_call"@,
        SessionEventKind::ToolResult => "tool_result"@,
        SessionEventKind::AssistantOutput => "output"@,
        SessionEventKind::Decision => "decision"@,
        SessionEventKind::RuntimeError => "runtime_error"@,
        SessionEventKind::RuntimeRetry => "runtime_retry"@,
    }
}

/// The label a snapshot shows for an event kind.
pub fn session_event_label(kind: SessionEventKind) -> (r: &'static str)
    ensures
        r@ == kind_label(kind),
{
    match kind {
        SessionEventKind::Prompt => "prompt",
        SessionEventKind::ToolCall => "tool_call",
        SessionEventKind::ToolResult => "tool_result",
        SessionEventKind::AssistantOutput => "output",
        SessionEventKind::Decision => "decision",
        SessionEventKind::RuntimeError => "runtime_error",
        SessionEventKind::RuntimeRetry => "runtime_retry",
    }
}

/// The snapshot line of an event: its label in brackets and its summary cut to 120 characters.
pub open spec fn snapshot_line(label: Seq<char>, summary: Seq<char>) -> Seq<char> {
    "- ["@ + label + "] "@ + truncated_summary(summary, 120)
}

pub open spec fn snapshot_lines(events: Seq<(Seq<char>, Seq<char>)>) -> Seq<Seq<char>> {
    events.map_values(|e: (Seq<char>, Seq<char>)| snapshot_line(e.0, e.1))
}

/// The session context snapshot of some labelled events: a header and a line per event, cut to
/// `char_limit` characters; none without events or when it is blank.
pub open spec fn session_snapshot(events: Seq<(Seq<char>, Seq<char>)>, char_limit: nat) -> Option<
    Seq<char>,
> {
    if events.len() == 0 {
        None
    } else {
        let rendered = char_limited(
            join(seq!["Recent Session Events:"@] + snapshot_lines(events), "\n"@),
            char_limit,
        );
        if trim(rendered).len() == 0 {
            None
        } else {
            Some(rendered)
        }
    }
}

pub open spec fn labelled_view(v: Seq<(String, String)>) -> Seq<(Seq<char>, Seq<char>)> {
    v.map_values(|e: (String, String)| (e.0@, e.1@))
}

/// Renders the session context snapshot of labelled events, newest first (see
/// `session_snapshot`).
pub fn render_session_context_snapshot(events: &Vec<(String, String)>, char_limit: usize) -> (r:
    Option<String>)
    ensures
        match session_snapshot(labelled_view(events@), char_limit as nat) {
            Some(t) => r matches Some(s) && s@ == t,
            None => r is None,
        },
{
    if events.len() == 0 {
        return None;
    }
    let ghost ev = labelled_view(events@);
    let mut lines: Vec<Vec<char>> = Vec::new();
    lines.push(str_chars("Recent Session Events:"));
    let mut i: usize = 0;
    while i < events.len()
        invariant
            i <= events.len(),
            ev == labelled_view(events@),
            lines@.map_values(|l: Vec<char>| l@) =~= seq!["Recent Session Events:"@]
                + snapshot_lines(ev.take(i as int)),
        decreases events.len() - i,
    {
        let ghost before = lines@.map_values(|l: Vec<char>| l@);
        let mut line = str_chars("- [");
        push_str(&mut line, events[i].0.as_str());
        push_str(&mut line, "] ");
        let summary = str_chars(events[i].1.as_str());
        let cut = truncate_summary(&summary, 120);
        push_all(&mut line, &cut);
        lines.push(line);
        assert(ev.take(i + 1) =~= ev.take(i as int).push(ev[i as int]));
        assert(snapshot_lines(ev.take(i + 1)) =~= snapshot_lines(ev.take(i as int)).push(
            snapshot_line(ev[i as int].0, ev[i as int].1),
        ));
        assert(lines@.map_values(|l: Vec<char>| l@) =~= before.push(
            snapshot_line(ev[i as int].0, ev[i as int].1),
        ));
        i = i + 1;
    }
    assert(ev.take(events.len() as int) =~= ev);
    let joined = crate::text::join_vecs(&lines, &str_chars("\n"));
    let text = chars_to_string(&joined);
    let rendered = trim_to_char_limit(text.as_str(), char_limit);
    if trimmed_chars(rendered.as_str()).len() == 0 {
        None
    } else {
        Some(rendered)
    }
}

/// The events a snapshot shows from the session logs, given newest log first and each log's
/// records in file order (`None` for a line that is not an event): the logs' records from the
/// last line up, at most `limit` of them (but at least the first one found).
pub open spec fn recent_events(
    logs: Seq<Seq<Option<(SessionEventKind, Seq<char>)>>>,
    limit: nat,
) -> Seq<(SessionEventKind, Seq<char>)> {
    let all = flatten_newest(logs);
    let cap: nat = if limit == 0 {
        1
    } else {
        limit
    };
    if all.len() <= cap {
        all
    } else {
        all.take(cap as int)
    }
}

/// All parsed records, each log's from its last line up, logs in the given order.
pub open spec fn flatten_newest(logs: Seq<Seq<Option<(SessionEventKind, Seq<char>)>>>) -> Seq<
    (SessionEventKind, Seq<char>),
>
    decreases logs.len(),
{
    if logs.len() == 0 {
        Seq::empty()
    } else {
        flatten_newest(logs.drop_last()) + parsed_backwards(logs.last())
    }
}

/// The parsed records of one log, from its last line up.
pub open spec fn parsed_backwards(lines: Seq<Option<(SessionEventKind, Seq<char>)>>) -> Seq<
    (SessionEventKind, Seq<char>),
>
    decreases lines.len(),
{
    if lines.len() == 0 {
        Seq::empty()
    } else {
        match lines.last() {
            Some(e) => seq![e] + parsed_backwards(lines.drop_last()),
            None => parsed_backwards(lines.drop_last()),
        }
    }
}

proof fn lemma_parsed_backwards_prepend(
    x: Option<(SessionEventKind, Seq<char>)>,
    u: Seq<Option<(SessionEventKind, Seq<char>)>>,
)
    ensures
        parsed_backwards(seq![x] + u) == parsed_backwards(u) + match x {
            Some(e) => seq![e],
            None => Seq::empty(),
        },
    decreases u.len(),
{
    let t = seq![x] + u;
    if u.len() == 0 {
        let empty = Seq::<Option<(SessionEventKind, Seq<char>)>>::empty();
        assert(t.drop_last() =~= empty);
        assert(t.last() == x);
        assert(parsed_backwards(empty) == Seq::<(SessionEventKind, Seq<char>)>::empty());
        assert(u =~= empty);
        match x {
            Some(e) => {
                assert(seq![e] + Seq::<(SessionEventKind, Seq<char>)>::empty() =~= seq![e]);
                assert(Seq::<(SessionEventKind, Seq<char>)>::empty() + seq![e] =~= seq![e]);
            },
            None => {
                assert(Seq::<(SessionEventKind, Seq<char>)>::empty() + Seq::<(SessionEventKind, Seq<char>)>::empty()
                    =~= Seq::<(SessionEventKind, Seq<char>)>::empty());
            },
        }
    } else {
        assert(t.drop_last() =~= seq![x] + u.drop_last());
        assert(t.last() == u.last());
        lemma_parsed_backwards_prepend(x, u.drop_last());
        match u.last() {
            Some(e) => {
                assert(seq![e] + (parsed_backwards(u.drop_last()) + match x {
                    Some(f) => seq![f],
                    None => Seq::empty(),
                }) =~= (seq![e] + parsed_backwards(u.drop_last())) + match x {
                    Some(f) => seq![f],
                    None => Seq::empty(),
                });
            },
            None => {},
        }
    }
}

pub open spec fn events_view(v: Seq<Option<(SessionEventKind, String)>>) -> Seq<
    Option<(SessionEventKind, Seq<char>)>,
> {
    v.map_values(
        |o: Option<(SessionEventKind, String)>|
            match o {
                Some(e) => Some((e.0, e.1@)),
                None => None,
            },
    )
}

pub open spec fn logs_view(v: Seq<Vec<Option<(SessionEventKind, String)>>>) -> Seq<
    Seq<Option<(SessionEventKind, Seq<char>)>>,
> {
    v.map_values(|l: Vec<Option<(SessionEventKind, String)>>| events_view(l@))
}

pub open spec fn kinded_view(v: Seq<(SessionEventKind, String)>) -> Seq<(SessionEventKind, Seq<char>)> {
    v.map_values(|e: (SessionEventKind, String)| (e.0, e.1@))
}

fn push_backwards(
    out: &mut Vec<(SessionEventKind, String)>,
    log: &Vec<Option<(SessionEventKind, String)>>,
)
    ensures
        kinded_view(final(out)@) == kinded_view(old(out)@) + parsed_backwards(events_view(log@)),
{
    let ghost lv = events_view(log@);
    let ghost start = kinded_view(out@);
    let mut j: usize = log.len();
    assert(lv.skip(j as int) =~= Seq::<Option<(SessionEventKind, Seq<char>)>>::empty());
    while j > 0
        invariant
            j <= log.len(),
            lv == events_view(log@),
            kinded_view(out@) == start + parsed_backwards(lv.skip(j as int)),
        decreases j,
    {
        let ghost before = kinded_view(out@);
        assert(lv.skip(j - 1) =~= seq![lv[j - 1]] + lv.skip(j as int));
        proof {
            lemma_parsed_backwards_prepend(lv[j - 1], lv.skip(j as int));
        }
        match &log[j - 1] {
            Some(e) => {
                out.push((e.0, e.1.clone()));
                assert(kinded_view(out@) =~= before.push((e.0, e.1@)));
                assert(start + parsed_backwards(lv.skip(j as int)) + seq![(e.0, e.1@)] =~= start + (
                parsed_backwards(lv.skip(j as int)) + seq![(e.0, e.1@)]));
            },
            None => {
                assert(parsed_backwards(lv.skip(j as int)) + Seq::<(SessionEventKind, Seq<char>)>::empty()
                    =~= parsed_backwards(lv.skip(j as int)));
            },
        }
        j = j - 1;
    }
    assert(lv.skip(0) =~= lv);
}

/// Picks the events a session snapshot shows (see `recent_events`).
pub fn collect_recent_session_events(
    logs: &Vec<Vec<Option<(SessionEventKind, String)>>>,
    limit: usize,
) -> (r: Vec<(SessionEventKind, String)>)
    ensures
        kinded_view(r@) == recent_events(logs_view(logs@), limit as nat),
{
    let ghost lv = logs_view(logs@);
    let mut out: Vec<(SessionEventKind, String)> = Vec::new();
    let mut i: usize = 0;
    assert(kinded_view(out@) =~= flatten_newest(lv.take(0)));
    while i < logs.len()
        invariant
            i <= logs.len(),
            lv == logs_view(logs@),
            kinded_view(out@) == flatten_newest(lv.take(i as int)),
        decreases logs.len() - i,
    {
        push_backwards(&mut out, &logs[i]);
        assert(lv.take(i + 1).drop_last() =~= lv.take(i as int));
        assert(lv.take(i + 1).last() == events_view(logs@[i as int]@));
        i = i + 1;
    }
    assert(lv.take(logs.len() as int) =~= lv);
    let cap: usize = if limit == 0 {
        1
    } else {
        limit
    };
    let ghost all = kinded_view(out@);
    out.truncate(cap);
    assert(kinded_view(out@) =~= if all.len() <= cap {
        all
    } else {
        all.take(cap as int)
    });
    out
}

} // verus!

verus! {

/// Which harness files exist in an agent's home.
#[derive(Debug, Clone, Copy, PartialEq, Eq)]
pub struct HarnessPresence {
    pub code: bool,
    pub chat: bool,
    pub default: bool,
}

pub open spec fn code_words() -> Seq<Seq<char>> {
    seq![
        "代码"@,
        "修复"@,
        "bug"@,
        "函数"@,
        "compile"@,
        "build"@,
        "test"@,
        "cargo"@,
        "npm"@,
        "typescript"@,
        "rust"@,
        "refactor"@,
    ]
}

pub open spec fn chat_words() -> Seq<Seq<char>> {
    seq!["聊"@, "总结"@, "规划"@, "方案"@, "分析"@, "总结"@, "解释"@, "review"@]
}

/// Whether a run asks for the code harness: a worker, or a prompt that (trimmed, lower-cased)
/// mentions code work.
pub open spec fn wants_code_harness(execution_mode: Seq<char>, prompt: Seq<char>) -> bool {
    trim(execution_mode) == "worker"@ || contains_any_spec(unicode_lower(trim(prompt)), code_words())
}

/// Whether a prompt (trimmed, lower-cased) reads as chat, planning or analysis.
pub open spec fn wants_chat_harness(prompt: Seq<char>) -> bool {
    contains_any_spec(unicode_lower(trim(prompt)), chat_words())
}

/// The harness file a run uses: code work (a worker or a code-like prompt) takes the code
/// harness, chat-like prompts the chat harness, otherwise the default one, each only if present;
/// failing all, the chat harness if present, else the code harness.
pub open spec fn selected_harness_path(
    agent_home: Seq<char>,
    execution_mode: Seq<char>,
    prompt: Seq<char>,
    present: HarnessPresence,
) -> Seq<char> {
    let wants_code = wants_code_harness(execution_mode, prompt);
    let wants_chat = wants_chat_harness(prompt);
    let code = crate::paths::join_path(agent_home, "harness/code.json"@);
    let chat = crate::paths::join_path(agent_home, "harness/chat.json"@);
    let default = crate::paths::join_path(agent_home, "harness/default.json"@);
    if wants_code && present.code {
        code
    } else if wants_chat && present.chat {
        chat
    } else if present.default {
        default
    } else if present.chat {
        chat
    } else {
        code
    }
}

pub open spec fn prompt_view(prompt: Option<&str>) -> Seq<char> {
    match prompt {
        Some(p) => p@,
        None => Seq::empty(),
    }
}

/// Whether a run asks for the code harness and whether for the chat harness.
fn harness_wishes(execution_mode: &str, prompt: Option<&str>) -> (r: (bool, bool))
    ensures
        r.0 == wants_code_harness(execution_mode@, prompt_view(prompt)),
        r.1 == wants_chat_harness(prompt_view(prompt)),
{
    let raw: Vec<char> = match prompt {
        Some(p) => trimmed_chars(p),
        None => Vec::new(),
    };
    proof {
        assert(trim(Seq::<char>::empty()) =~= Seq::<char>::empty());
    }
    let p = lower_chars(&raw);
    let mode = trimmed_chars(execution_mode);
    let code_list: [&str; 12] = [
        "代码",
        "修复",
        "bug",
        "函数",
        "compile",
        "build",
        "test",
        "cargo",
        "npm",
        "typescript",
        "rust",
        "refactor",
    ];
    assert(strs_view(code_list@) =~= code_words());
    let chat_list: [&str; 8] = ["聊", "总结", "规划", "方案", "分析", "总结", "解释", "review"];
    assert(strs_view(chat_list@) =~= chat_words());
    let wants_code = crate::text::chars_eq_str(&mode, "worker") || contains_any(&p, &code_list);
    let wants_chat = contains_any(&p, &chat_list);
    (wants_code, wants_chat)
}

/// Chooses the harness file for a run from the execution mode, the prompt and the files that
/// exist.
pub fn select_harness(
    agent_home: &str,
    execution_mode: &str,
    prompt: Option<&str>,
    present: &HarnessPresence,
) -> (r: String)
    ensures
        r@ == selected_harness_path(
            agent_home@,
            execution_mode@,
            match prompt {
                Some(p) => p@,
                None => Seq::empty(),
            },
            *present,
        ),
{
    let (wants_code, wants_chat) = harness_wishes(execution_mode, prompt);
    let home = str_chars(agent_home);
    let code = crate::paths::join_path_chars(&home, &str_chars("harness/code.json"));
    let chat = crate::paths::join_path_chars(&home, &str_chars("harness/chat.json"));
    let default = crate::paths::join_path_chars(&home, &str_chars("harness/default.json"));
    let selected = if wants_code && present.code {
        code
    } else if wants_chat && present.chat {
        chat
    } else if present.default {
        default
    } else if present.chat {
        chat
    } else {
        code
    };
    chars_to_string(&selected)
}

/// The harnesses a new agent home is given.
#[derive(Debug, Clone, Copy, PartialEq, Eq, Structural)]
pub enum HarnessKind {
    Default,
    Chat,
    Code,
}

pub open spec fn harness_kind_name(k: HarnessKind) -> Seq<char> {
    match k {
        HarnessKind::Default => "default"@,
        HarnessKind::Chat => "chat"@,
        HarnessKind::Code => "code"@,
    }
}

pub open spec fn harness_kind_description(k: HarnessKind) -> Seq<char> {
    match k {
        HarnessKind::Default => "通用执行 harness，适合没有明显代码修改目标的对话。"@,
        HarnessKind::Chat => "聊天 / 规划 / 分析型 harness。少用写文件工具，优先结构化推理与检索。"@,
        HarnessKind::Code => "代码执行 harness。优先读代码、改代码、跑命令、验证结果。"@,
    }
}

pub open spec fn harness_kind_tools(k: HarnessKind) -> Seq<Seq<char>> {
    match k {
        HarnessKind::Default => Seq::empty(),
        HarnessKind::Chat => seq!["read"@, "bash"@, "web_search"@, "web_fetch"@, "write"@],
        HarnessKind::Code => seq!["read"@, "write"@, "edit"@, "bash"@, "web_fetch"@],
    }
}

/// The prompt addition of a default harness named `name`.
pub open spec fn harness_prompt_append(name: Seq<char>) -> Seq<char> {
    "你当前运行在 \u{60}"@ + name
        + "\u{60} harness 下。优先遵守该 harness 的职责边界；若任务超出边界，应先收缩问题，再决定是否调用工具。"@
}

/// Whether `d` is the definition a new agent home gets for harness `k`: its name, description,
/// prompt addition and tools, a replay limit of 12, no external API proxy, and one retry on a
/// runtime failure.
pub open spec fn is_default_harness(d: HarnessDefinition, k: HarnessKind) -> bool {
    &&& d.name@ == harness_kind_name(k)
    &&& d.description@ == harness_kind_description(k)
    &&& d.prompt_append@ == harness_prompt_append(harness_kind_name(k))
    &&& d.active_tools@.map_values(|t: String| t@) == harness_kind_tools(k)
    &&& d.session_replay_limit == 12
    &&& !d.enable_external_api_proxy
    &&& d.auto_retry_on_runtime_failure
}

fn owned_strings(items: &[&str]) -> (r: Vec<String>)
    ensures
        r@.map_values(|t: String| t@) == strs_view(items@),
{
    let mut out: Vec<String> = Vec::new();
    let mut i: usize = 0;
    while i < items.len()
        invariant
            i <= items.len(),
            out@.map_values(|t: String| t@) =~= strs_view(items@.take(i as int)),
        decreases items.len() - i,
    {
        let ghost before = out@.map_values(|t: String| t@);
        out.push(items[i].to_owned());
        assert(out@.map_values(|t: String| t@) =~= before.push(items@[i as int]@));
        assert(strs_view(items@.take(i + 1)) =~= strs_view(items@.take(i as int)).push(
            items@[i as int]@,
        ));
        i = i + 1;
    }
    assert(items@.take(items.len() as int) =~= items@);
    out
}

/// The harness definition a new agent home gets for `kind` (see `is_default_harness`).
pub fn default_harness_definition(kind: HarnessKind) -> (r: HarnessDefinition)
    ensures
        is_default_harness(r, kind),
{
    let (name, description, tools): (&str, &str, Vec<String>) = match kind {
        HarnessKind::Default => {
            let none: [&str; 0] = [];
            let t = owned_strings(&none);
            assert(strs_view(none@) =~= harness_kind_tools(kind));
            ("default", "通用执行 harness，适合没有明显代码修改目标的对话。", t)
        },
        HarnessKind::Chat => {
            let list: [&str; 5] = ["read", "bash", "web_search", "web_fetch", "write"];
            let t = owned_strings(&list);
            assert(strs_view(list@) =~= harness_kind_tools(kind));
            ("chat", "聊天 / 规划 / 分析型 harness。少用写文件工具，优先结构化推理与检索。", t)
        },
        HarnessKind::Code => {
            let list: [&str; 5] = ["read", "write", "edit", "bash", "web_fetch"];
            let t = owned_strings(&list);
            assert(strs_view(list@) =~= harness_kind_tools(kind));
            ("code", "代码执行 harness。优先读代码、改代码、跑命令、验证结果。", t)
        },
    };
    let mut append = str_chars("你当前运行在 \u{60}");
    push_str(&mut append, name);
    push_str(
        &mut append,
        "\u{60} harness 下。优先遵守该 harness 的职责边界；若任务超出边界，应先收缩问题，再决定是否调用工具。",
    );
    HarnessDefinition {
        name: name.to_owned(),
        description: description.to_owned(),
        prompt_append: chars_to_string(&append),
        active_tools: tools,
        session_replay_limit: 12,
        enable_external_api_proxy: false,
        auto_retry_on_runtime_failure: true,
    }
}

/// The harness a run on a freshly scaffolded agent home uses: code work the code harness,
/// chat-like prompts the chat harness, anything else the default one.
pub open spec fn scaffolded_harness_kind(execution_mode: Seq<char>, prompt: Seq<char>) -> HarnessKind {
    if wants_code_harness(execution_mode, prompt) {
        HarnessKind::Code
    } else if wants_chat_harness(prompt) {
        HarnessKind::Chat
    } else {
        HarnessKind::Default
    }
}

pub open spec fn all_harnesses_present() -> HarnessPresence {
    HarnessPresence { code: true, chat: true, default: true }
}

/// The harness of a run on an agent home whose harness files are the scaffolded defaults: the
/// file `select_harness` chooses when all three are there, with its default definition.
pub fn select_scaffolded_harness(agent_home: &str, execution_mode: &str, prompt: Option<&str>) -> (r:
    SelectedHarness)
    ensures
        r.file_path@ == selected_harness_path(
            agent_home@,
            execution_mode@,
            prompt_view(prompt),
            all_harnesses_present(),
        ),
        is_default_harness(r.definition, scaffolded_harness_kind(execution_mode@, prompt_view(prompt))),
{
    let present = HarnessPresence { code: true, chat: true, default: true };
    let path = select_harness(agent_home, execution_mode, prompt, &present);
    let (wants_code, wants_chat) = harness_wishes(execution_mode, prompt);
    let kind = if wants_code {
        HarnessKind::Code
    } else if wants_chat {
        HarnessKind::Chat
    } else {
        HarnessKind::Default
    };
    SelectedHarness { file_path: path, definition: default_harness_definition(kind) }
}

/// `s` with every character outside the kept set replaced by `_`.
pub open spec fn underscore_others(s: Seq<char>, keep_dot: bool) -> Seq<char> {
    s.map_values(
        |c: char|
            if crate::text::is_ascii_alnum(c) || c == '-' || c == '_' || (keep_dot && c == '.') {
                c
            } else {
                '_'
            },
    )
}

/// `s` without leading and trailing `_`.
pub open spec fn trim_underscores(s: Seq<char>) -> Seq<char>
    decreases s.len(),
{
    if s.len() > 0 && s[0] == '_' {
        trim_underscores(s.drop_first())
    } else if s.len() > 0 && s.last() == '_' {
        trim_underscores(s.drop_last())
    } else {
        s
    }
}

fn underscore_others_vec(s: &[char], keep_dot: bool) -> (r: Vec<char>)
    ensures
        r@ == underscore_others(s@, keep_dot),
{
    let mut r: Vec<char> = Vec::new();
    let mut i: usize = 0;
    while i < s.len()
        invariant
            i <= s.len(),
            r@ =~= underscore_others(s@.take(i as int), keep_dot),
        decreases s.len() - i,
    {
        let c = s[i];
        if crate::text::is_ascii_alnum_char(c) || c == '-' || c == '_' || (keep_dot && c == '.') {
            r.push(c);
        } else {
            r.push('_');
        }
        i = i + 1;
    }
    assert(s@.take(s.len() as int) =~= s@);
    r
}

fn trim_underscores_vec(s: &[char]) -> (r: Vec<char>)
    ensures
        r@ == trim_underscores(s@),
{
    let mut lo: usize = 0;
    let mut hi: usize = s.len();
    assert(s@.subrange(0, s.len() as int) =~= s@);
    while lo < hi && (s[lo] == '_' || s[hi - 1] == '_')
        invariant
            lo <= hi <= s.len(),
            trim_underscores(s@.subrange(lo as int, hi as int)) == trim_underscores(s@),
        decreases hi - lo,
    {
        let ghost cur = s@.subrange(lo as int, hi as int);
        if s[lo] == '_' {
            assert(cur.drop_first() =~= s@.subrange(lo + 1, hi as int));
            lo = lo + 1;
        } else {
            assert(cur.drop_last() =~= s@.subrange(lo as int, hi - 1));
            hi = hi - 1;
        }
    }
    slice_to_vec(s, lo, hi)
}

/// A file name segment: characters other than ASCII letters, digits, `-` and `_` become `_`,
/// surrounding `_` are dropped, and an empty result reads `default`.
pub open spec fn file_segment(value: Seq<char>) -> Seq<char> {
    let t = trim_underscores(underscore_others(value, false));
    if t.len() == 0 {
        "default"@
    } else {
        t
    }
}

/// Turns a name into a safe file name segment.
pub fn sanitize_file_segment(value: &str) -> (r: String)
    ensures
        r@ == file_segment(value@),
{
    let v = str_chars(value);
    let u = underscore_others_vec(&v, false);
    let t = trim_underscores_vec(&u);
    if t.len() == 0 {
        "default".to_owned()
    } else {
        chars_to_string(&t)
    }
}

/// A session log file name: characters other than ASCII letters, digits, `-`, `_` and `.`
/// become `_`; a name of nothing but `_` reads `default`.
pub open spec fn session_file_name(value: Seq<char>) -> Seq<char> {
    let u = underscore_others(value, true);
    if trim_underscores(u).len() == 0 {
        "default"@
    } else {
        u
    }
}

/// Turns a session id into a safe file name.
pub fn sanitize_session_file_name(value: &str) -> (r: String)
    ensures
        r@ == session_file_name(value@),
{
    let v = str_chars(value);
    let u = underscore_others_vec(&v, true);
    let t = trim_underscores_vec(&u);
    if t.len() == 0 {
        "default".to_owned()
    } else {
        chars_to_string(&u)
    }
}

/// The log file of a session under an agent's home.
pub fn session_log_path(agent_home: &str, session_id: &str) -> (r: String)
    ensures
        r@ == crate::paths::join_path(
            crate::paths::join_path(agent_home@, "memory/sessions"@),
            session_file_name(session_id@) + ".jsonl"@,
        ),
{
    let home = str_chars(agent_home);
    let dir = crate::paths::join_path_chars(&home, &str_chars("memory/sessions"));
    let name = sanitize_session_file_name(session_id);
    let mut file = str_chars(name.as_str());
    push_str(&mut file, ".jsonl");
    let p = crate::paths::join_path_chars(&dir, &file);
    chars_to_string(&p)
}

/// The label for the agents a delegation can reach.
pub fn delegate_scope_label(workspace_id: Option<&str>) -> (r: &'static str)
    ensures
        workspace_id is Some ==> r@ == "当前团队成员"@,
        workspace_id is None ==> r@ == "当前直接聊天可调用的智能体"@,
{
    if workspace_id.is_some() {
        "当前团队成员"
    } else {
        "当前直接聊天可调用的智能体"
    }
}

/// The proxy session token of an agent's session: `nc_` and the hex MD5 of the trimmed agent
/// id, a zero byte and the trimmed session id.
pub open spec fn session_token(agent_id: Seq<char>, session_id: Seq<char>) -> Seq<char> {
    "nc_"@ + crate::digest::md5_hex(
        vstd::utf8::encode_utf8(trim(agent_id)) + seq![0u8] + vstd::utf8::encode_utf8(
            trim(session_id),
        ),
    )
}

/// The stable token that identifies an agent session to the credential proxy.
pub fn stable_session_token(agent_id: &str, session_id: &str) -> (r: String)
    ensures
        r@ == session_token(agent_id@, session_id@),
{
    let a = trimmed_chars(agent_id);
    let s = trimmed_chars(session_id);
    let mut bytes = crate::digest::utf8_bytes(&a);
    bytes.push(0u8);
    let sb = crate::digest::utf8_bytes(&s);
    let ghost ab = bytes@;
    assert(ab =~= vstd::utf8::encode_utf8(a@) + seq![0u8]);
    bytes.extend_from_slice(&sb);
    assert(bytes@ =~= vstd::utf8::encode_utf8(a@) + seq![0u8] + vstd::utf8::encode_utf8(s@));
    let h = crate::digest::md5_hex_of(&bytes);
    let mut out = str_chars("nc_");
    push_all(&mut out, &h);
    chars_to_string(&out)
}

pub type CredentialView = (Seq<char>, Seq<char>, Seq<char>, Seq<char>, Seq<char>, Seq<(Seq<char>, Seq<char>)>);

pub open spec fn credential_view(c: ExternalApiCredential) -> CredentialView {
    (c.alias@, c.base_url@, c.api_key@, c.auth_header@, c.auth_scheme@, crate::mcp_settings::record_view(c.headers@))
}

pub open spec fn credentials_view(v: Seq<ExternalApiCredential>) -> Seq<CredentialView> {
    v.map_values(|c: ExternalApiCredential| credential_view(c))
}

/// Position of the entry with alias `alias`, or -1.
pub open spec fn alias_index(v: Seq<CredentialView>, alias: Seq<char>) -> int
    decreases v.len(),
{
    if v.len() == 0 {
        -1
    } else if v.last().0 == alias {
        v.len() - 1
    } else {
        alias_index(v.drop_last(), alias)
    }
}

/// The proxied external APIs: entries with a non-blank alias and base URL, one per alias (a
/// later entry with the same alias replaces an earlier one).
pub open spec fn proxied_apis(v: Seq<CredentialView>) -> Seq<CredentialView>
    decreases v.len(),
{
    if v.len() == 0 {
        Seq::empty()
    } else {
        let prev = proxied_apis(v.drop_last());
        let c = v.last();
        if trim(c.0).len() == 0 || trim(c.1).len() == 0 {
            prev
        } else if alias_index(prev, c.0) >= 0 {
            prev.update(alias_index(prev, c.0), c)
        } else {
            prev.push(c)
        }
    }
}

proof fn lemma_alias_index(v: Seq<CredentialView>, alias: Seq<char>)
    ensures
        -1 <= alias_index(v, alias) < v.len(),
    decreases v.len(),
{
    if v.len() > 0 {
        lemma_alias_index(v.drop_last(), alias);
    }
}

fn find_alias(v: &Vec<ExternalApiCredential>, alias: &[char]) -> (r: Option<usize>)
    ensures
        match r {
            Some(i) => i as int == alias_index(credentials_view(v@), alias@),
            None => alias_index(credentials_view(v@), alias@) < 0,
        },
{
    let ghost vv = credentials_view(v@);
    let mut j: usize = v.len();
    assert(vv.take(j as int) =~= vv);
    while j > 0
        invariant
            j <= v.len(),
            vv == credentials_view(v@),
            alias_index(vv.take(j as int), alias@) == alias_index(vv, alias@),
        decreases j,
    {
        let name = str_chars(v[j - 1].alias.as_str());
        assert(vv.take(j as int).last() == vv[j - 1]);
        if chars_eq(&name, alias) {
            return Some(j - 1);
        }
        assert(vv.take(j as int).drop_last() =~= vv.take(j - 1));
        j = j - 1;
    }
    None
}

impl ExternalApiCredential {
    /// A copy of this credential.
    pub fn clone_credential(&self) -> (r: ExternalApiCredential)
        ensures
            credential_view(r) == credential_view(*self),
    {
        ExternalApiCredential {
            alias: self.alias.clone(),
            base_url: self.base_url.clone(),
            api_key: self.api_key.clone(),
            auth_header: self.auth_header.clone(),
            auth_scheme: self.auth_scheme.clone(),
            headers: crate::mcp_settings::copy_record(&self.headers),
        }
    }
}

/// The external APIs an agent session may call through the proxy.
pub fn collect_external_apis(credentials: &HarnessCredentialsConfig) -> (r: Vec<ExternalApiCredential>)
    ensures
        credentials_view(r@) == proxied_apis(credentials_view(credentials.external_apis@)),
{
    let apis = &credentials.external_apis;
    let ghost av = credentials_view(apis@);
    let mut out: Vec<ExternalApiCredential> = Vec::new();
    let mut i: usize = 0;
    while i < apis.len()
        invariant
            i <= apis.len(),
            av == credentials_view(apis@),
            credentials_view(out@) == proxied_apis(av.take(i as int)),
        decreases apis.len() - i,
    {
        assert(av.take(i + 1).drop_last() =~= av.take(i as int));
        assert(av.take(i + 1).last() == credential_view(apis@[i as int]));
        let alias = trimmed_chars(apis[i].alias.as_str());
        let base = trimmed_chars(apis[i].base_url.as_str());
        if alias.len() > 0 && base.len() > 0 {
            let ghost before = credentials_view(out@);
            proof {
                lemma_alias_index(before, apis@[i as int].alias@);
            }
            let key = str_chars(apis[i].alias.as_str());
            let c = apis[i].clone_credential();
            match find_alias(&out, &key) {
                Some(idx) => {
                    out.set(idx, c);
                    assert(credentials_view(out@) =~= before.update(idx as int, av[i as int]));
                },
                None => {
                    out.push(c);
                    assert(credentials_view(out@) =~= before.push(av[i as int]));
                },
            }
        }
        i = i + 1;
    }
    assert(av.take(apis.len() as int) =~= av);
    out
}

} // verus!

verus! {

/// The LLM endpoint a session's proxy forwards to: the provider's id, key and model, with the
/// API format and base URL as the provider runtime rules normalise them (given by the caller).
pub fn llm_proxy_binding(
    config: &crate::provider::ProviderRuntimeConfig,
    api_format: &str,
    base_url: &str,
) -> (r: LlmProxyBinding)
    ensures
        r.provider_id == config.provider_id,
        r.api_format@ == api_format@,
        r.base_url@ == base_url@,
        r.api_key == config.api_key,
        r.model == config.model,
{
    LlmProxyBinding {
        provider_id: config.provider_id.clone(),
        api_format: api_format.to_owned(),
        base_url: base_url.to_owned(),
        api_key: config.api_key.clone(),
        model: config.model.clone(),
    }
}

/// The tool name that stands for "no tool allowed".
pub open spec fn no_tools_sentinel() -> Seq<char> {
    "__nineclaw_no_tools_allowed__"@
}

/// Where the effective copy of a harness is written: `harness-effective-<name>.json` in the
/// runtime directory, the name made file-safe.
pub open spec fn effective_harness_path(runtime_dir: Seq<char>, name: Seq<char>) -> Seq<char> {
    crate::paths::join_path(runtime_dir, "harness-effective-"@ + file_segment(name) + ".json"@)
}

/// Whether `r` is `harness` restricted to the runtime tools `tools`: the definition unchanged
/// but for its active tools, which are `tools` (the sentinel alone when `tools` is empty), and
/// the file its effective copy in the runtime directory.
pub open spec fn is_restricted_harness(
    r: SelectedHarness,
    harness: SelectedHarness,
    runtime_dir: Seq<char>,
    tools: Seq<Seq<char>>,
) -> bool {
    &&& r.definition == (HarnessDefinition { active_tools: r.definition.active_tools, ..harness.definition })
    &&& r.definition.active_tools@.map_values(|t: String| t@) == if tools.len() == 0 {
        seq![no_tools_sentinel()]
    } else {
        tools
    }
    &&& r.file_path@ == effective_harness_path(runtime_dir, harness.definition.name@)
}

/// Restricts a harness to the runtime tools an agent may use (the sentinel alone when it may
/// use none) and points it at its effective copy in the runtime directory.
pub fn restrict_harness_to_agent_tools(
    harness: SelectedHarness,
    runtime_dir: &str,
    runtime_tools: Vec<String>,
) -> (r: SelectedHarness)
    ensures
        is_restricted_harness(r, harness, runtime_dir@, runtime_tools@.map_values(|t: String| t@)),
        r.definition.active_tools@.len() > 0,
{
    let mut active_tools = runtime_tools;
    if active_tools.len() == 0 {
        active_tools.push("__nineclaw_no_tools_allowed__".to_owned());
        assert(active_tools@.map_values(|t: String| t@) =~= seq![no_tools_sentinel()]);
    }
    let mut definition = harness.definition;
    let mut file = str_chars("harness-effective-");
    let segment = sanitize_file_segment(definition.name.as_str());
    push_str(&mut file, segment.as_str());
    push_str(&mut file, ".json");
    let dir = str_chars(runtime_dir);
    let path = crate::paths::join_path_chars(&dir, &file);
    definition.active_tools = active_tools;
    SelectedHarness { file_path: chars_to_string(&path), definition }
}

/// The base URL of the local credential proxy listening on `port`: `http://127.0.0.1:<port>`.
pub open spec fn proxy_base_url(port: u16) -> Seq<char> {
    "http://127.0.0.1:"@ + crate::text::decimal(port as nat)
}

/// Whether `b` is the LLM binding of provider `c` with the given normalised API format and
/// base URL (see `llm_proxy_binding`).
pub open spec fn binds_provider(
    b: LlmProxyBinding,
    c: crate::provider::ProviderRuntimeConfig,
    api_format: Seq<char>,
    base_url: Seq<char>,
) -> bool {
    &&& b.provider_id == c.provider_id
    &&& b.api_format@ == api_format
    &&& b.base_url@ == base_url
    &&& b.api_key == c.api_key
    &&& b.model == c.model
}

/// Assembles a prepared managed runtime: its extension; the harness restricted to the agent's
/// runtime tools and placed in the runtime directory (see `is_restricted_harness`); the LLM
/// binding when a provider is configured (its API format and base URL normalised by the
/// caller); the image generation configuration as given; the base URL of the credential proxy
/// on `proxy_port`; and the session's proxy token.
pub fn prepare_managed_runtime<I>(
    extension_path: String,
    harness: SelectedHarness,
    runtime_dir: &str,
    runtime_tools: Vec<String>,
    provider_config: Option<&crate::provider::ProviderRuntimeConfig>,
    normalized_api_format: &str,
    normalized_base_url: &str,
    image_runtime_config: Option<I>,
    proxy_port: u16,
    agent_id: &str,
    session_id: &str,
) -> (r: PreparedManagedRuntime<I>)
    ensures
        r.extension_path == extension_path,
        is_restricted_harness(r.harness, harness, runtime_dir@, runtime_tools@.map_values(|t: String| t@)),
        r.harness.definition.active_tools@.len() > 0,
        r.llm_proxy is Some == provider_config is Some,
        provider_config matches Some(c) ==> r.llm_proxy matches Some(b) && binds_provider(
            b,
            *c,
            normalized_api_format@,
            normalized_base_url@,
        ),
        r.image_proxy == image_runtime_config,
        r.proxy_base_url matches Some(u) && u@ == proxy_base_url(proxy_port),
        r.session_token matches Some(t) && t@ == session_token(agent_id@, session_id@),
{
    let restricted = restrict_harness_to_agent_tools(harness, runtime_dir, runtime_tools);
    let token = stable_session_token(agent_id, session_id);
    let llm_proxy = match provider_config {
        Some(c) => Some(llm_proxy_binding(c, normalized_api_format, normalized_base_url)),
        None => None,
    };
    let mut url = str_chars("http://127.0.0.1:");
    let port = crate::text::decimal_chars(proxy_port as usize);
    push_all(&mut url, &port);
    PreparedManagedRuntime {
        extension_path,
        harness: restricted,
        llm_proxy,
        image_proxy: image_runtime_config,
        proxy_base_url: Some(chars_to_string(&url)),
        session_token: Some(token),
    }
}

} // verus!

verus! {

/// A session's proxy token ignores whitespace around the agent and session ids.
pub proof fn lemma_session_token_ignores_whitespace(agent_id: Seq<char>, session_id: Seq<char>)
    ensures
        session_token(agent_id, session_id) == session_token(trim(agent_id), trim(session_id)),
{
    crate::text::lemma_trim_idempotent(agent_id);
    crate::text::lemma_trim_idempotent(session_id);
}

} // verus!
