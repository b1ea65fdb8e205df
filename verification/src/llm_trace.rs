//! LLM call traces: entries, their structured blocks, tool-call merging and scoping.
use vstd::prelude::*;
use vstd::string::StringExecFns;
use crate::text::{chars_eq, chars_to_string, decimal, decimal_chars, push_all, push_str, str_chars, trim, trimmed_chars};

verus! {

/// One section of the system prompt.
#[derive(Debug, Clone, PartialEq, Eq)]
pub struct TraceSystemPromptSection {
    pub label: String,
    pub content: String,
}

/// A structured message block (`system` or `user`).
#[derive(Debug, Clone, PartialEq, Eq)]
pub struct TraceMessageBlock {
    pub id: String,
    pub role: String,
    pub label: String,
    pub content: String,
}

/// A structured response block (`thinking` or `output`).
#[derive(Debug, Clone, PartialEq, Eq)]
pub struct TraceResponseBlock {
    pub id: String,
    pub kind: String,
    pub label: String,
    pub content: String,
}

/// One tool call made during a traced LLM call.
#[derive(Debug, Clone, PartialEq, Eq)]
pub struct TraceToolCall {
    pub tool_call_id: String,
    pub tool_name: String,
    pub args_json: String,
    pub result_text: String,
    pub status: String,
    pub is_error: Option<bool>,
    pub started_at: i64,
    pub finished_at: Option<i64>,
}

/// Token counts reported for a traced call.
#[derive(Debug, Clone, Copy, PartialEq, Eq, Default)]
pub struct TraceUsage {
    pub input_tokens: Option<u64>,
    pub output_tokens: Option<u64>,
    pub cache_read_tokens: Option<u64>,
    pub cache_write_tokens: Option<u64>,
    pub total_tokens: Option<u64>,
}

/// A traced LLM call.
#[derive(Debug, Clone, PartialEq, Eq)]
pub struct TraceEntry {
    pub id: String,
    pub workspace_id: Option<String>,
    pub kind: String,
    pub trace_type: String,
    pub caller_kind: String,
    pub target_kind: String,
    pub caller_agent_id: String,
    pub caller_agent_name: String,
    pub target_agent_id: Option<String>,
    pub target_agent_name: Option<String>,
    pub session_id: Option<String>,
    pub parent_trace_id: Option<String>,
    pub provider: Option<String>,
    pub model: Option<String>,
    pub response_id: Option<String>,
    pub status: String,
    pub error: Option<String>,
    pub started_at: i64,
    pub finished_at: Option<i64>,
    pub duration_ms: Option<u64>,
    pub usage: Option<TraceUsage>,
    pub system_prompts: Vec<TraceSystemPromptSection>,
    pub user_message: String,
    pub response_text: String,
    pub thinking_text: String,
    pub message_blocks: Vec<TraceMessageBlock>,
    pub response_blocks: Vec<TraceResponseBlock>,
    pub tool_calls: Vec<TraceToolCall>,
}

/// The duration of a call: finished ones run to their end, running ones to `now`; never negative.
pub open spec fn duration_of(started_at: i64, finished_at: Option<i64>, now: i64) -> u64 {
    let end = match finished_at {
        Some(e) => e,
        None => now,
    };
    if end - started_at <= 0 {
        0
    } else if end - started_at > i64::MAX {
        i64::MAX as u64
    } else {
        (end - started_at) as u64
    }
}

pub open spec fn message_block_view(b: TraceMessageBlock) -> (Seq<char>, Seq<char>, Seq<char>, Seq<char>) {
    (b.id@, b.role@, b.label@, b.content@)
}

pub open spec fn response_block_view(b: TraceResponseBlock) -> (Seq<char>, Seq<char>, Seq<char>, Seq<char>) {
    (b.id@, b.kind@, b.label@, b.content@)
}

/// The message blocks of an entry: one `system` block per prompt section, then the user prompt.
pub open spec fn message_blocks_of(
    prompts: Seq<TraceSystemPromptSection>,
    user_message: Seq<char>,
) -> Seq<(Seq<char>, Seq<char>, Seq<char>, Seq<char>)> {
    Seq::new(
        prompts.len(),
        |i: int| ("system-"@ + decimal(i as nat), "system"@, prompts[i].label@, prompts[i].content@),
    ).push(("user-0"@, "user"@, "user_prompt"@, user_message))
}

/// The response blocks of an entry: its thinking, then its reply.
pub open spec fn response_blocks_of(thinking: Seq<char>, response: Seq<char>) -> Seq<
    (Seq<char>, Seq<char>, Seq<char>, Seq<char>),
> {
    seq![
        ("thinking-0"@, "thinking"@, "thinking"@, thinking),
        ("output-0"@, "output"@, "assistant_reply"@, response),
    ]
}

/// An optional text, trimmed, with blank reading as absent.
pub open spec fn non_blank(v: Option<Seq<char>>) -> Option<Seq<char>> {
    match v {
        Some(s) => if trim(s).len() > 0 {
            Some(trim(s))
        } else {
            None
        },
        None => None,
    }
}

/// Whether an entry with these ids belongs to the asked scope: the same workspace (or both
/// standalone) and, when a session is asked for, the same session.
pub open spec fn in_scope(
    entry_workspace: Option<Seq<char>>,
    entry_session: Option<Seq<char>>,
    workspace_id: Option<Seq<char>>,
    session_id: Option<Seq<char>>,
) -> bool {
    non_blank(entry_workspace) == non_blank(workspace_id) && (non_blank(session_id) is Some
        ==> non_blank(entry_session) == non_blank(session_id))
}

pub(crate) fn non_blank_of(v: Option<&str>) -> (r: Option<Vec<char>>)
    ensures
        match non_blank(
            match v {
                Some(s) => Some(s@),
                None => None,
            },
        ) {
            Some(x) => r matches Some(y) && y@ == x,
            None => r is None,
        },
{
    match v {
        Some(s) => {
            let t = trimmed_chars(s);
            if t.len() > 0 {
                Some(t)
            } else {
                None
            }
        },
        None => None,
    }
}

fn same_opt(a: &Option<Vec<char>>, b: &Option<Vec<char>>) -> (r: bool)
    ensures
        r == (match a {
            Some(x) => Some(x@),
            None => None::<Seq<char>>,
        } == match b {
            Some(x) => Some(x@),
            None => None::<Seq<char>>,
        }),
{
    match (a, b) {
        (Some(x), Some(y)) => chars_eq(x, y),
        (None, None) => true,
        _ => false,
    }
}

pub open spec fn opt_string_view(v: Option<String>) -> Option<Seq<char>> {
    match v {
        Some(s) => Some(s@),
        None => None,
    }
}

pub(crate) fn opt_as_str(v: &Option<String>) -> (r: Option<&str>)
    ensures
        match r {
            Some(s) => v matches Some(x) && s@ == x@,
            None => v is None,
        },
{
    match v {
        Some(s) => Some(s.as_str()),
        None => None,
    }
}

impl TraceEntry {
    /// Sets the duration: up to the finish time when finished, else up to `now`.
    pub fn touch_duration(&mut self, now: i64)
        ensures
            final(self).duration_ms == Some(duration_of(old(self).started_at, old(self).finished_at, now)),
            *final(self) == (TraceEntry { duration_ms: final(self).duration_ms, ..*old(self) }),
    {
        let end = match self.finished_at {
            Some(e) => e,
            None => now,
        };
        let diff: i128 = end as i128 - self.started_at as i128;
        let d: u64 = if diff <= 0 {
            0
        } else if diff > i64::MAX as i128 {
            i64::MAX as u64
        } else {
            diff as u64
        };
        self.duration_ms = Some(d);
    }

    /// Rebuilds the structured message and response blocks from the flat fields.
    pub fn sync_structured_blocks(&mut self)
        ensures
            final(self).message_blocks@.map_values(|b: TraceMessageBlock| message_block_view(b))
                == message_blocks_of(old(self).system_prompts@, old(self).user_message@),
            final(self).response_blocks@.map_values(|b: TraceResponseBlock| response_block_view(b))
                == response_blocks_of(old(self).thinking_text@, old(self).response_text@),
            *final(self) == (TraceEntry {
                message_blocks: final(self).message_blocks,
                response_blocks: final(self).response_blocks,
                ..*old(self)
            }),
    {
        let mut blocks: Vec<TraceMessageBlock> = Vec::new();
        let ghost prompts = self.system_prompts@;
        let mut i: usize = 0;
        while i < self.system_prompts.len()
            invariant
                i <= self.system_prompts.len(),
                prompts == self.system_prompts@,
                blocks@.map_values(|b: TraceMessageBlock| message_block_view(b)) =~= Seq::new(
                    i as nat,
                    |k: int| ("system-"@ + decimal(k as nat), "system"@, prompts[k].label@, prompts[k].content@),
                ),
            decreases self.system_prompts.len() - i,
        {
            let mut id = str_chars("system-");
            let digits = decimal_chars(i);
            push_all(&mut id, &digits);
            let prompt = &self.system_prompts[i];
            let ghost before = blocks@.map_values(|b: TraceMessageBlock| message_block_view(b));
            blocks.push(
                TraceMessageBlock {
                    id: chars_to_string(&id),
                    role: "system".to_owned(),
                    label: prompt.label.clone(),
                    content: prompt.content.clone(),
                },
            );
            assert(blocks@.map_values(|b: TraceMessageBlock| message_block_view(b)) =~= before.push(
                ("system-"@ + decimal(i as nat), "system"@, prompts[i as int].label@, prompts[i as int].content@),
            ));
            i = i + 1;
        }
        let ghost before = blocks@.map_values(|b: TraceMessageBlock| message_block_view(b));
        blocks.push(
            TraceMessageBlock {
                id: "user-0".to_owned(),
                role: "user".to_owned(),
                label: "user_prompt".to_owned(),
                content: self.user_message.clone(),
            },
        );
        assert(blocks@.map_values(|b: TraceMessageBlock| message_block_view(b)) =~= before.push(
            ("user-0"@, "user"@, "user_prompt"@, self.user_message@),
        ));
        self.message_blocks = blocks;
        let mut responses: Vec<TraceResponseBlock> = Vec::new();
        responses.push(
            TraceResponseBlock {
                id: "thinking-0".to_owned(),
                kind: "thinking".to_owned(),
                label: "thinking".to_owned(),
                content: self.thinking_text.clone(),
            },
        );
        responses.push(
            TraceResponseBlock {
                id: "output-0".to_owned(),
                kind: "output".to_owned(),
                label: "assistant_reply".to_owned(),
                content: self.response_text.clone(),
            },
        );
        assert(responses@.map_values(|b: TraceResponseBlock| response_block_view(b)) =~= response_blocks_of(
            self.thinking_text@,
            self.response_text@,
        ));
        self.response_blocks = responses;
    }

    /// Whether this entry belongs to the given workspace (or to standalone sessions when none is
    /// given) and, when one is given, to the given session.
    pub fn matches_scope(&self, workspace_id: Option<&str>, session_id: Option<&str>) -> (b: bool)
        ensures
            b == in_scope(
                opt_string_view(self.workspace_id),
                opt_string_view(self.session_id),
                match workspace_id {
                    Some(s) => Some(s@),
                    None => None,
                },
                match session_id {
                    Some(s) => Some(s@),
                    None => None,
                },
            ),
    {
        let entry_workspace = non_blank_of(opt_as_str(&self.workspace_id));
        let desired_workspace = non_blank_of(workspace_id);
        if !same_opt(&entry_workspace, &desired_workspace) {
            return false;
        }
        match non_blank_of(session_id) {
            Some(sid) => {
                let entry_session = non_blank_of(opt_as_str(&self.session_id));
                same_opt(&entry_session, &Some(sid))
            },
            None => true,
        }
    }
}

/// Appends a response text delta; an empty delta changes nothing.
pub fn append_response_delta(entry: &mut TraceEntry, delta: &str) -> (changed: bool)
    ensures
        changed == (delta@.len() > 0),
        final(entry).response_text@ == old(entry).response_text@ + delta@,
        *final(entry) == (TraceEntry { response_text: final(entry).response_text, ..*old(entry) }),
{
    if delta.is_empty() {
        assert(old(entry).response_text@ + delta@ =~= old(entry).response_text@);
        return false;
    }
    entry.response_text.append(delta);
    true
}

/// Appends a thinking text delta; an empty delta changes nothing.
pub fn append_thinking_delta(entry: &mut TraceEntry, delta: &str) -> (changed: bool)
    ensures
        changed == (delta@.len() > 0),
        final(entry).thinking_text@ == old(entry).thinking_text@ + delta@,
        *final(entry) == (TraceEntry { thinking_text: final(entry).thinking_text, ..*old(entry) }),
{
    if delta.is_empty() {
        assert(old(entry).thinking_text@ + delta@ =~= old(entry).thinking_text@);
        return false;
    }
    entry.thinking_text.append(delta);
    true
}

/// The trace type, caller kind and target kind of a trace kind.
pub open spec fn type_meta(kind: Seq<char>) -> (Seq<char>, Seq<char>, Seq<char>) {
    if kind == "delegate"@ {
        ("agent_agent"@, "agent"@, "agent"@)
    } else if kind == "action_llm"@ {
        ("action_llm"@, "action"@, "model"@)
    } else {
        ("agent_llm"@, "agent"@, "model"@)
    }
}

/// Classifies a trace kind.
pub fn trace_type_meta(kind: &str) -> (r: (&'static str, &'static str, &'static str))
    ensures
        (r.0@, r.1@, r.2@) == type_meta(kind@),
{
    let k = str_chars(kind);
    if crate::text::chars_eq_str(&k, "delegate") {
        ("agent_agent", "agent", "agent")
    } else if crate::text::chars_eq_str(&k, "action_llm") {
        ("action_llm", "action", "model")
    } else {
        ("agent_llm", "agent", "model")
    }
}

/// Where a trace is stored.
#[derive(Debug, Clone, PartialEq, Eq)]
pub enum TraceStorageScope {
    Workspace(String),
    Standalone,
}

/// The storage scope for a trace: its workspace, else standalone for a session, else none.
pub fn storage_scope_for(workspace_id: Option<&str>, session_id: Option<&str>) -> (r: Option<
    TraceStorageScope,
>)
    ensures
        match non_blank(
            match workspace_id {
                Some(s) => Some(s@),
                None => None,
            },
        ) {
            Some(w) => r matches Some(TraceStorageScope::Workspace(x)) && x@ == w,
            None => if non_blank(
                match session_id {
                    Some(s) => Some(s@),
                    None => None,
                },
            ) is Some {
                r matches Some(TraceStorageScope::Standalone)
            } else {
                r is None
            },
        },
{
    if let Some(w) = non_blank_of(workspace_id) {
        return Some(TraceStorageScope::Workspace(chars_to_string(&w)));
    }
    if non_blank_of(session_id).is_some() {
        return Some(TraceStorageScope::Standalone);
    }
    None
}

/// The registry key of a session's latest main trace: `workspace:<id>` or `standalone`, and the
/// session id.
pub fn scope_registry_key(workspace_id: Option<&str>, session_id: &str) -> (r: (String, String))
    ensures
        r.1@ == session_id@,
        r.0@ == match non_blank(
            match workspace_id {
                Some(s) => Some(s@),
                None => None,
            },
        ) {
            Some(w) => "workspace:"@ + w,
            None => "standalone"@,
        },
{
    let bucket = match non_blank_of(workspace_id) {
        Some(w) => {
            let mut b = str_chars("workspace:");
            push_all(&mut b, &w);
            chars_to_string(&b)
        },
        None => "standalone".to_owned(),
    };
    (bucket, session_id.to_owned())
}

} // verus!

verus! {

pub type ToolCallView = (Seq<char>, Seq<char>, Seq<char>, Seq<char>, Seq<char>, Option<bool>, i64, Option<i64>);

pub open spec fn tool_call_view(t: TraceToolCall) -> ToolCallView {
    (t.tool_call_id@, t.tool_name@, t.args_json@, t.result_text@, t.status@, t.is_error, t.started_at, t.finished_at)
}

pub open spec fn tool_calls_view(v: Seq<TraceToolCall>) -> Seq<ToolCallView> {
    v.map_values(|t: TraceToolCall| tool_call_view(t))
}

/// Position of the first call with the (non-empty) id `id`, or -1.
pub open spec fn tool_index(v: Seq<ToolCallView>, id: Seq<char>) -> int
    decreases v.len(),
{
    if id.len() == 0 || v.len() == 0 {
        -1
    } else if v[0].0 == id {
        0
    } else {
        let r = tool_index(v.drop_first(), id);
        if r < 0 {
            -1
        } else {
            r + 1
        }
    }
}

/// Whether a status ends a call.
pub open spec fn is_final_status(status: Seq<char>) -> bool {
    status == "done"@ || status == "error"@
}

/// A text update that only applies when given and non-empty.
pub open spec fn updated_text(current: Seq<char>, update: Option<Seq<char>>) -> Seq<char> {
    match update {
        Some(u) => if u.len() > 0 {
            u
        } else {
            current
        },
        None => current,
    }
}

/// The tool calls after recording an event for call `id`: an existing call (same non-empty id)
/// is updated in place, otherwise a new call is appended; final statuses set the finish time.
pub open spec fn recorded_tools(
    v: Seq<ToolCallView>,
    id: Seq<char>,
    name: Seq<char>,
    args: Option<Seq<char>>,
    result: Option<Seq<char>>,
    status: Seq<char>,
    is_error: Option<bool>,
    now: i64,
) -> Seq<ToolCallView> {
    let i = tool_index(v, id);
    if i >= 0 {
        let t = v[i];
        v.update(
            i,
            (
                t.0,
                name,
                updated_text(t.2, args),
                updated_text(t.3, result),
                status,
                if is_error is Some {
                    is_error
                } else {
                    t.5
                },
                t.6,
                if is_final_status(status) {
                    Some(now)
                } else {
                    t.7
                },
            ),
        )
    } else {
        v.push(
            (
                id,
                name,
                match args {
                    Some(a) => a,
                    None => Seq::empty(),
                },
                match result {
                    Some(r) => r,
                    None => Seq::empty(),
                },
                status,
                is_error,
                now,
                if is_final_status(status) {
                    Some(now)
                } else {
                    None
                },
            ),
        )
    }
}

proof fn lemma_tool_index(v: Seq<ToolCallView>, id: Seq<char>)
    ensures
        -1 <= tool_index(v, id) < v.len(),
        tool_index(v, id) >= 0 ==> v[tool_index(v, id)].0 == id && id.len() > 0,
        forall|j: int| 0 <= j < tool_index(v, id) ==> v[j].0 != id,
        tool_index(v, id) < 0 ==> (id.len() == 0 || forall|j: int| 0 <= j < v.len() ==> v[j].0 != id),
    decreases v.len(),
{
    if id.len() > 0 && v.len() > 0 && v[0].0 != id {
        lemma_tool_index(v.drop_first(), id);
        assert forall|j: int| 1 <= j < v.len() implies v[j] == v.drop_first()[j - 1] by {}
    }
}

/// A second event for the same tool call merges into it: after a `running` event that created
/// call `id` with its arguments, a `done` event with a result leaves exactly one call with that
/// id, holding the new name, the first arguments, the result, the status `done`, the error flag
/// given, the first start time and the finish time.
pub proof fn lemma_second_record_merges(
    v: Seq<ToolCallView>,
    id: Seq<char>,
    name: Seq<char>,
    args: Seq<char>,
    started: i64,
    name2: Seq<char>,
    result: Seq<char>,
    is_error: Option<bool>,
    finished: i64,
)
    requires
        id.len() > 0,
        args.len() > 0,
        result.len() > 0,
        is_error is Some,
        forall|j: int| 0 <= j < v.len() ==> (#[trigger] v[j]).0 != id,
    ensures
        ({
            let v1 = recorded_tools(v, id, name, Some(args), None, "running"@, None, started);
            let v2 = recorded_tools(v1, id, name2, None, Some(result), "done"@, is_error, finished);
            &&& v2.len() == v.len() + 1
            &&& forall|j: int| 0 <= j < v.len() ==> #[trigger] v2[j] == v[j]
            &&& v2[v.len() as int] == (id, name2, args, result, "done"@, is_error, started, Some(finished))
        }),
{
    reveal_strlit("running");
    reveal_strlit("done");
    reveal_strlit("error");
    lemma_tool_index(v, id);
    let v1 = recorded_tools(v, id, name, Some(args), None, "running"@, None, started);
    assert(!is_final_status("running"@)) by {
        assert("running"@.len() == 7);
    }
    assert(v1 == v.push((id, name, args, Seq::<char>::empty(), "running"@, None::<bool>, started, None::<i64>)));
    lemma_tool_index(v1, id);
    assert(v1[v.len() as int].0 == id);
    assert(tool_index(v1, id) == v.len());
}

pub open spec fn opt_str_view(v: Option<&str>) -> Option<Seq<char>> {
    match v {
        Some(s) => Some(s@),
        None => None,
    }
}

fn find_tool(v: &Vec<TraceToolCall>, id: &[char]) -> (r: Option<usize>)
    ensures
        match r {
            Some(i) => i as int == tool_index(tool_calls_view(v@), id@) && i < v.len(),
            None => tool_index(tool_calls_view(v@), id@) < 0,
        },
{
    let ghost vv = tool_calls_view(v@);
    proof {
        lemma_tool_index(vv, id@);
    }
    if id.len() == 0 {
        return None;
    }
    let mut i: usize = 0;
    while i < v.len()
        invariant
            i <= v.len(),
            id@.len() > 0,
            vv == tool_calls_view(v@),
            forall|j: int| 0 <= j < i ==> vv[j].0 != id@,
            -1 <= tool_index(vv, id@) < vv.len(),
            tool_index(vv, id@) >= 0 ==> vv[tool_index(vv, id@)].0 == id@,
            forall|j: int| 0 <= j < tool_index(vv, id@) ==> vv[j].0 != id@,
            tool_index(vv, id@) < 0 ==> forall|j: int| 0 <= j < vv.len() ==> vv[j].0 != id@,
        decreases v.len() - i,
    {
        let other = str_chars(v[i].tool_call_id.as_str());
        if chars_eq(&other, id) {
            assert(vv[i as int].0 == id@);
            return Some(i);
        }
        i = i + 1;
    }
    None
}

/// Records a tool call event on an entry (merging start and end of the same call) and rebuilds
/// its structured blocks.
pub fn record_tool_call(
    entry: &mut TraceEntry,
    tool_call_id: &str,
    tool_name: &str,
    args_json: Option<&str>,
    result_text: Option<&str>,
    status: &str,
    is_error: Option<bool>,
    now: i64,
)
    ensures
        tool_calls_view(final(entry).tool_calls@) == recorded_tools(
            tool_calls_view(old(entry).tool_calls@),
            tool_call_id@,
            tool_name@,
            opt_str_view(args_json),
            opt_str_view(result_text),
            status@,
            is_error,
            now,
        ),
        final(entry).message_blocks@.map_values(|b: TraceMessageBlock| message_block_view(b))
            == message_blocks_of(old(entry).system_prompts@, old(entry).user_message@),
        final(entry).response_blocks@.map_values(|b: TraceResponseBlock| response_block_view(b))
            == response_blocks_of(old(entry).thinking_text@, old(entry).response_text@),
        *final(entry) == (TraceEntry {
            tool_calls: final(entry).tool_calls,
            message_blocks: final(entry).message_blocks,
            response_blocks: final(entry).response_blocks,
            ..*old(entry)
        }),
{
    let ghost before = tool_calls_view(entry.tool_calls@);
    let id = str_chars(tool_call_id);
    let st = str_chars(status);
    let is_final = crate::text::chars_eq_str(&st, "done") || crate::text::chars_eq_str(&st, "error");
    let mut calls: Vec<TraceToolCall> = Vec::new();
    std::mem::swap(&mut calls, &mut entry.tool_calls);
    assert(tool_calls_view(calls@) == before);
    match find_tool(&calls, &id) {
        Some(i) => {
            let mut t = calls.remove(i);
            t.tool_name = tool_name.to_owned();
            if let Some(a) = args_json {
                if !a.is_empty() {
                    t.args_json = a.to_owned();
                }
            }
            if let Some(r) = result_text {
                if !r.is_empty() {
                    t.result_text = r.to_owned();
                }
            }
            t.status = status.to_owned();
            if is_error.is_some() {
                t.is_error = is_error;
            }
            if is_final {
                t.finished_at = Some(now);
            }
            calls.insert(i, t);
            assert(tool_calls_view(calls@) =~= recorded_tools(
                before,
                tool_call_id@,
                tool_name@,
                opt_str_view(args_json),
                opt_str_view(result_text),
                status@,
                is_error,
                now,
            ));
        },
        None => {
            let t = TraceToolCall {
                tool_call_id: tool_call_id.to_owned(),
                tool_name: tool_name.to_owned(),
                args_json: match args_json {
                    Some(a) => a.to_owned(),
                    None => String::new(),
                },
                result_text: match result_text {
                    Some(r) => r.to_owned(),
                    None => String::new(),
                },
                status: status.to_owned(),
                is_error,
                started_at: now,
                finished_at: if is_final {
                    Some(now)
                } else {
                    None
                },
            };
            calls.push(t);
            assert(tool_calls_view(calls@) =~= recorded_tools(
                before,
                tool_call_id@,
                tool_name@,
                opt_str_view(args_json),
                opt_str_view(result_text),
                status@,
                is_error,
                now,
            ));
        },
    }
    entry.tool_calls = calls;
    entry.sync_structured_blocks();
}

} // verus!
