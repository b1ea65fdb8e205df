//! The decisions of a desktop Pi prompt stream: how each JSON event Pi prints moves the stream's
//! state along, and what the caller does for it (emit text, record tools, stop reading).
use vstd::prelude::*;
use crate::text::{append_to_string, chars_eq_str, str_chars, trim, trim_vec};
use crate::json_value::{
    JsonValue, JsonModel, get, get_member, as_str, as_bool, as_array, model_str, model_bool,
    model_array, items_model, json_model, lemma_items_model, clone_json,
};
use crate::pi_session::{extract_text_content, message_text};
use crate::replies::{assistant_text_fragment_to_append, fragment_to_append};

verus! {

/// What a prompt stream has seen so far.
pub struct PiStreamState {
    /// The assistant text emitted to the front end.
    pub emitted_text: String,
    /// Completed Pi turns.
    pub completed_turns: u32,
    /// The configured limit of tool rounds per dialogue.
    pub tool_iteration_cap: u32,
    pub limit_warned: bool,
    pub abort_sent: bool,
    pub saw_prompt_response: bool,
    pub saw_assistant_activity: bool,
    pub saw_message_done: bool,
    pub saw_model_abort_event: bool,
    pub saw_terminal_message: bool,
    pub saw_agent_end: bool,
}

/// The mathematical form of the stream state.
pub struct StreamModel {
    pub emitted: Seq<char>,
    pub completed_turns: u32,
    pub tool_iteration_cap: u32,
    pub limit_warned: bool,
    pub abort_sent: bool,
    pub saw_prompt_response: bool,
    pub saw_assistant_activity: bool,
    pub saw_message_done: bool,
    pub saw_model_abort_event: bool,
    pub saw_terminal_message: bool,
    pub saw_agent_end: bool,
}

impl View for PiStreamState {
    type V = StreamModel;

    open spec fn view(&self) -> StreamModel {
        StreamModel {
            emitted: self.emitted_text@,
            completed_turns: self.completed_turns,
            tool_iteration_cap: self.tool_iteration_cap,
            limit_warned: self.limit_warned,
            abort_sent: self.abort_sent,
            saw_prompt_response: self.saw_prompt_response,
            saw_assistant_activity: self.saw_assistant_activity,
            saw_message_done: self.saw_message_done,
            saw_model_abort_event: self.saw_model_abort_event,
            saw_terminal_message: self.saw_terminal_message,
            saw_agent_end: self.saw_agent_end,
        }
    }
}

/// What the caller does for an event.
pub enum StreamAction {
    /// Tell the user that the tool rounds approach the limit.
    WarnIterationLimit { current: u32, max: u32 },
    /// Ask Pi to abort: the tool rounds reached the limit.
    AbortForIterationLimit,
    /// The prompt command failed with this error; the stream ends with it.
    PromptFailed(String),
    /// Assistant text to emit and trace.
    Delta(String),
    ThinkingStart,
    /// Thinking text to emit and trace.
    ThinkingDelta(String),
    ThinkingEnd,
    /// A tool call started.
    ToolStart { tool_call_id: Option<String>, tool_name: Option<String>, args: Option<JsonValue> },
    /// A tool call reported progress.
    ToolUpdate {
        tool_call_id: Option<String>,
        tool_name: Option<String>,
        args: Option<JsonValue>,
        partial_result: Option<String>,
    },
    /// A tool call ended.
    ToolEnd {
        tool_call_id: Option<String>,
        tool_name: Option<String>,
        args: Option<JsonValue>,
        result: Option<String>,
        is_error: Option<bool>,
    },
    /// The reply is complete: stop reading events.
    Stop,
}

/// The mathematical form of an action.
pub enum ActionModel {
    WarnIterationLimit { current: u32, max: u32 },
    AbortForIterationLimit,
    PromptFailed(Seq<char>),
    Delta(Seq<char>),
    ThinkingStart,
    ThinkingDelta(Seq<char>),
    ThinkingEnd,
    ToolStart {
        tool_call_id: Option<Seq<char>>,
        tool_name: Option<Seq<char>>,
        args: Option<JsonModel>,
    },
    ToolUpdate {
        tool_call_id: Option<Seq<char>>,
        tool_name: Option<Seq<char>>,
        args: Option<JsonModel>,
        partial_result: Option<Seq<char>>,
    },
    ToolEnd {
        tool_call_id: Option<Seq<char>>,
        tool_name: Option<Seq<char>>,
        args: Option<JsonModel>,
        result: Option<Seq<char>>,
        is_error: Option<bool>,
    },
    Stop,
}

pub open spec fn opt_text(o: Option<String>) -> Option<Seq<char>> {
    match o {
        Some(s) => Some(s@),
        None => None,
    }
}

pub open spec fn opt_json(o: Option<JsonValue>) -> Option<JsonModel> {
    match o {
        Some(v) => Some(v@),
        None => None,
    }
}

pub open spec fn action_model(a: StreamAction) -> ActionModel {
    match a {
        StreamAction::WarnIterationLimit { current, max } => ActionModel::WarnIterationLimit {
            current,
            max,
        },
        StreamAction::AbortForIterationLimit => ActionModel::AbortForIterationLimit,
        StreamAction::PromptFailed(e) => ActionModel::PromptFailed(e@),
        StreamAction::Delta(t) => ActionModel::Delta(t@),
        StreamAction::ThinkingStart => ActionModel::ThinkingStart,
        StreamAction::ThinkingDelta(t) => ActionModel::ThinkingDelta(t@),
        StreamAction::ThinkingEnd => ActionModel::ThinkingEnd,
        StreamAction::ToolStart { tool_call_id, tool_name, args } => ActionModel::ToolStart {
            tool_call_id: opt_text(tool_call_id),
            tool_name: opt_text(tool_name),
            args: opt_json(args),
        },
        StreamAction::ToolUpdate { tool_call_id, tool_name, args, partial_result } =>
            ActionModel::ToolUpdate {
            tool_call_id: opt_text(tool_call_id),
            tool_name: opt_text(tool_name),
            args: opt_json(args),
            partial_result: opt_text(partial_result),
        },
        StreamAction::ToolEnd { tool_call_id, tool_name, args, result, is_error } =>
            ActionModel::ToolEnd {
            tool_call_id: opt_text(tool_call_id),
            tool_name: opt_text(tool_name),
            args: opt_json(args),
            result: opt_text(result),
            is_error,
        },
        StreamAction::Stop => ActionModel::Stop,
    }
}

pub open spec fn actions_model(s: Seq<StreamAction>) -> Seq<ActionModel> {
    s.map_values(|a: StreamAction| action_model(a))
}

/// The string member `key` of a value, if there is one.
pub open spec fn str_at(m: Option<JsonModel>, key: Seq<char>) -> Option<Seq<char>> {
    match m {
        Some(x) => match get_member(x, key) {
            Some(v) => model_str(v),
            None => None,
        },
        None => None,
    }
}

pub open spec fn or_empty(o: Option<Seq<char>>) -> Seq<char> {
    match o {
        Some(t) => t,
        None => Seq::empty(),
    }
}

/// The boolean member `key` of a value, if there is one.
pub open spec fn bool_at(m: JsonModel, key: Seq<char>) -> Option<bool> {
    match get_member(m, key) {
        Some(v) => model_bool(v),
        None => None,
    }
}

/// The type of an event (empty when it has none).
pub open spec fn event_type(e: JsonModel) -> Seq<char> {
    or_empty(str_at(Some(e), "type"@))
}

/// The text snapshot of a message: its joined content texts, when not empty.
pub open spec fn snapshot(m: Option<JsonModel>) -> Option<Seq<char>> {
    match message_text(m) {
        Some(t) => if t.len() > 0 {
            Some(t)
        } else {
            None
        },
        None => None,
    }
}

/// The tool round limit: the configured one, kept between 1 and 500.
pub open spec fn iteration_cap(raw: u32) -> u32 {
    if raw < 1 {
        1
    } else if raw > 500 {
        500
    } else {
        raw
    }
}

/// The round from which the user is warned: ten before the limit, and at least the first.
pub open spec fn warn_at(cap: u32) -> u32 {
    if cap > 10 {
        (cap - 10) as u32
    } else {
        1
    }
}

/// The stream state and actions while an event is handled; `done` once no later rule applies.
pub struct StepModel {
    pub st: StreamModel,
    pub acts: Seq<ActionModel>,
    pub done: bool,
}

pub open spec fn one_if(b: bool, a: ActionModel) -> Seq<ActionModel> {
    if b {
        seq![a]
    } else {
        Seq::empty()
    }
}

/// A turn ends: count it, warn once when the limit comes near, abort once when it is reached.
pub open spec fn on_turn_count(x: StepModel, e: JsonModel) -> StepModel {
    if x.done || event_type(e) != "turn_end"@ {
        x
    } else {
        let c = (x.st.completed_turns + 1) as u32;
        let cap = iteration_cap(x.st.tool_iteration_cap);
        let warn = !x.st.limit_warned && c >= warn_at(cap) && c < cap;
        let abort = c >= cap && !x.st.abort_sent;
        StepModel {
            st: StreamModel {
                completed_turns: c,
                limit_warned: x.st.limit_warned || warn,
                abort_sent: x.st.abort_sent || abort,
                ..x.st
            },
            acts: x.acts + one_if(warn, ActionModel::WarnIterationLimit { current: c, max: cap })
                + one_if(abort, ActionModel::AbortForIterationLimit),
            done: false,
        }
    }
}

/// A usage report of skill evolution: nothing more to do for it.
pub open spec fn on_usage_report(x: StepModel, e: JsonModel) -> StepModel {
    if x.done || event_type(e) != "nineclaw_skill_evolution_usage"@ {
        x
    } else {
        StepModel { done: true, ..x }
    }
}

/// A command response: a successful prompt is noted; a failed one ends the stream with its
/// error (or a default message).
pub open spec fn on_response(x: StepModel, e: JsonModel) -> StepModel {
    if x.done || event_type(e) != "response"@ {
        x
    } else {
        let command = or_empty(str_at(Some(e), "command"@));
        let success = bool_at(e, "success"@) == Some(true);
        if command == "prompt"@ && success {
            StepModel { st: StreamModel { saw_prompt_response: true, ..x.st }, ..x }
        } else if command == "prompt"@ {
            let error = match str_at(Some(e), "error"@) {
                Some(t) => t,
                None => "prompt 调用失败"@,
            };
            StepModel { acts: x.acts.push(ActionModel::PromptFailed(error)), done: true, ..x }
        } else {
            x
        }
    }
}

/// Emits what a snapshot adds to the text emitted so far.
pub open spec fn catch_up(x: StepModel, snap: Option<Seq<char>>, mark_activity: bool) -> StepModel {
    match snap {
        Some(t) => {
            let f = fragment_to_append(x.st.emitted, t);
            let st = StreamModel {
                saw_assistant_activity: x.st.saw_assistant_activity || mark_activity,
                ..x.st
            };
            if f.len() > 0 {
                StepModel {
                    st: StreamModel { emitted: st.emitted + f, ..st },
                    acts: x.acts.push(ActionModel::Delta(f)),
                    ..x
                }
            } else {
                StepModel { st, ..x }
            }
        },
        None => x,
    }
}

/// A message update: text and thinking deltas are emitted, `done` catches up with the final
/// message and stops, and a model abort not asked for is noted.
pub open spec fn on_update(x: StepModel, e: JsonModel, abort_requested: bool) -> StepModel {
    if x.done || event_type(e) != "message_update"@ {
        x
    } else {
        let ae = get_member(e, "assistantMessageEvent"@);
        let dt = or_empty(str_at(ae, "type"@));
        let delta = or_empty(str_at(ae, "delta"@));
        if dt == "text_delta"@ {
            if delta.len() > 0 {
                StepModel {
                    st: StreamModel {
                        saw_assistant_activity: true,
                        emitted: x.st.emitted + delta,
                        ..x.st
                    },
                    acts: x.acts.push(ActionModel::Delta(delta)),
                    ..x
                }
            } else {
                x
            }
        } else if dt == "thinking_start"@ {
            StepModel { acts: x.acts.push(ActionModel::ThinkingStart), ..x }
        } else if dt == "thinking_delta"@ {
            if delta.len() > 0 {
                StepModel { acts: x.acts.push(ActionModel::ThinkingDelta(delta)), ..x }
            } else {
                x
            }
        } else if dt == "thinking_end"@ {
            StepModel { acts: x.acts.push(ActionModel::ThinkingEnd), ..x }
        } else if dt == "done"@ {
            let message = match ae {
                Some(a) => get_member(a, "message"@),
                None => None,
            };
            let y = catch_up(x, snapshot(message), true);
            StepModel {
                st: StreamModel { saw_message_done: true, ..y.st },
                acts: y.acts.push(ActionModel::Stop),
                done: true,
            }
        } else if dt == "error"@ {
            if or_empty(str_at(ae, "reason"@)) == "aborted"@ && !(abort_requested
                || x.st.abort_sent) {
                StepModel { st: StreamModel { saw_model_abort_event: true, ..x.st }, ..x }
            } else {
                x
            }
        } else {
            x
        }
    }
}

/// An assistant message starts or ends: catch up with its text; at its end (or a turn's) the
/// reply counts as complete when there is text.
pub open spec fn on_message(x: StepModel, e: JsonModel) -> StepModel {
    let ty = event_type(e);
    if x.done || !(ty == "message_start"@ || ty == "message_end"@ || ty == "turn_end"@) {
        x
    } else {
        let message = get_member(e, "message"@);
        if str_at(message, "role"@) == Some("assistant"@) {
            let snap = snapshot(message);
            let y = catch_up(x, snap, true);
            if (ty == "message_end"@ || ty == "turn_end"@) && (snap is Some || trim(y.st.emitted).len()
                > 0) {
                StepModel { st: StreamModel { saw_terminal_message: true, ..y.st }, ..y }
            } else {
                y
            }
        } else {
            x
        }
    }
}

/// Tool call events, passed on with their id, name and arguments (and result text).
pub open spec fn on_tool(x: StepModel, e: JsonModel) -> StepModel {
    let ty = event_type(e);
    let id = str_at(Some(e), "toolCallId"@);
    let name = str_at(Some(e), "toolName"@);
    let args = get_member(e, "args"@);
    if x.done {
        x
    } else if ty == "tool_execution_start"@ {
        StepModel {
            acts: x.acts.push(ActionModel::ToolStart { tool_call_id: id, tool_name: name, args }),
            ..x
        }
    } else if ty == "tool_execution_update"@ {
        StepModel {
            acts: x.acts.push(
                ActionModel::ToolUpdate {
                    tool_call_id: id,
                    tool_name: name,
                    args,
                    partial_result: snapshot(get_member(e, "partialResult"@)),
                },
            ),
            ..x
        }
    } else if ty == "tool_execution_end"@ {
        StepModel {
            acts: x.acts.push(
                ActionModel::ToolEnd {
                    tool_call_id: id,
                    tool_name: name,
                    args,
                    result: snapshot(get_member(e, "result"@)),
                    is_error: bool_at(e, "isError"@),
                },
            ),
            ..x
        }
    } else {
        x
    }
}

/// The last message of an assistant.
pub open spec fn last_assistant(items: Seq<JsonModel>) -> Option<JsonModel>
    decreases items.len(),
{
    if items.len() == 0 {
        None
    } else if str_at(Some(items.last()), "role"@) == Some("assistant"@) {
        Some(items.last())
    } else {
        last_assistant(items.drop_last())
    }
}

/// The agent ends: catch up with its last assistant message and stop.
pub open spec fn on_agent_end(x: StepModel, e: JsonModel) -> StepModel {
    if x.done || event_type(e) != "agent_end"@ {
        x
    } else {
        let y = match get_member(e, "messages"@) {
            Some(m) => match model_array(m) {
                Some(items) => match last_assistant(items) {
                    Some(last) => catch_up(x, snapshot(Some(last)), false),
                    None => x,
                },
                None => x,
            },
            None => x,
        };
        StepModel {
            st: StreamModel { saw_agent_end: true, ..y.st },
            acts: y.acts.push(ActionModel::Stop),
            done: true,
        }
    }
}

/// Handling one event: the rules in the order the stream applies them.
pub open spec fn stream_step(s: StreamModel, e: JsonModel, abort_requested: bool) -> StepModel {
    let x0 = StepModel { st: s, acts: Seq::empty(), done: false };
    on_agent_end(
        on_tool(
            on_message(
                on_update(on_response(on_usage_report(on_turn_count(x0, e), e), e), e, abort_requested),
                e,
            ),
            e,
        ),
        e,
    )
}

pub open spec fn step_of(st: StreamModel, acts: Seq<StreamAction>, done: bool) -> StepModel {
    StepModel { st, acts: actions_model(acts), done }
}

fn push_action(acts: &mut Vec<StreamAction>, a: StreamAction)
    ensures
        actions_model(final(acts)@) == actions_model(old(acts)@).push(action_model(a)),
{
    let ghost before = acts@;
    acts.push(a);
    assert(actions_model(acts@) =~= actions_model(before).push(action_model(a)));
}

/// The string member `key` of a value.
fn str_member<'a>(v: Option<&'a JsonValue>, key: &str) -> (r: Option<&'a str>)
    ensures
        opt_str_model(r) == str_at(
            match v {
                Some(x) => Some(x@),
                None => None,
            },
            key@,
        ),
{
    match v {
        Some(x) => match get(x, key) {
            Some(m) => as_str(m),
            None => None,
        },
        None => None,
    }
}

pub open spec fn opt_str_model(o: Option<&str>) -> Option<Seq<char>> {
    match o {
        Some(s) => Some(s@),
        None => None,
    }
}

fn chars_or_empty(o: Option<&str>) -> (r: Vec<char>)
    ensures
        r@ == or_empty(opt_str_model(o)),
{
    match o {
        Some(s) => str_chars(s),
        None => Vec::new(),
    }
}

fn opt_owned(o: Option<&str>) -> (r: Option<String>)
    ensures
        opt_text(r) == opt_str_model(o),
{
    match o {
        Some(s) => Some(s.to_owned()),
        None => None,
    }
}

fn snapshot_of(m: Option<&JsonValue>) -> (r: Option<String>)
    ensures
        opt_text(r) == snapshot(
            match m {
                Some(x) => Some(x@),
                None => None,
            },
        ),
{
    extract_text_content(m)
}

fn catch_up_exec(
    state: &mut PiStreamState,
    acts: &mut Vec<StreamAction>,
    snap: Option<String>,
    mark_activity: bool,
)
    ensures
        ({
            let y = catch_up(step_of(old(state)@, old(acts)@, false), opt_text(snap), mark_activity);
            &&& final(state)@ == y.st
            &&& actions_model(final(acts)@) == y.acts
        }),
{
    match snap {
        Some(t) => {
            let f = assistant_text_fragment_to_append(state.emitted_text.as_str(), t.as_str());
            if mark_activity {
                state.saw_assistant_activity = true;
            }
            let fc = str_chars(f.as_str());
            if fc.len() > 0 {
                append_to_string(&mut state.emitted_text, f.as_str());
                push_action(acts, StreamAction::Delta(f));
            }
        },
        None => {},
    }
}

fn on_turn_count_exec(
    state: &mut PiStreamState,
    acts: &mut Vec<StreamAction>,
    done: &mut bool,
    e: &JsonValue,
    ty: &Vec<char>,
)
    requires
        ty@ == event_type(e@),
        ty@ == "turn_end"@ ==> old(state).completed_turns < u32::MAX,
    ensures
        step_of(final(state)@, final(acts)@, *final(done)) == on_turn_count(
            step_of(old(state)@, old(acts)@, *old(done)),
            e@,
        ),
{
    if *done || !chars_eq_str(ty, "turn_end") {
        return;
    }
    let c = state.completed_turns + 1;
    let raw = state.tool_iteration_cap;
    let cap: u32 = if raw < 1 {
        1
    } else if raw > 500 {
        500
    } else {
        raw
    };
    let warn_from: u32 = if cap > 10 {
        cap - 10
    } else {
        1
    };
    let warn = !state.limit_warned && c >= warn_from && c < cap;
    let abort = c >= cap && !state.abort_sent;
    let ghost before = actions_model(acts@);
    state.completed_turns = c;
    if warn {
        state.limit_warned = true;
        push_action(acts, StreamAction::WarnIterationLimit { current: c, max: cap });
    }
    let ghost mid = actions_model(acts@);
    assert(mid =~= before + one_if(warn, ActionModel::WarnIterationLimit { current: c, max: cap }));
    if abort {
        state.abort_sent = true;
        push_action(acts, StreamAction::AbortForIterationLimit);
    }
    assert(actions_model(acts@) =~= mid + one_if(abort, ActionModel::AbortForIterationLimit));
}

fn on_usage_report_exec(done: &mut bool, ty: &Vec<char>)
    ensures
        *final(done) == (*old(done) || ty@ == "nineclaw_skill_evolution_usage"@),
{
    if !*done && chars_eq_str(ty, "nineclaw_skill_evolution_usage") {
        *done = true;
    }
}

fn on_response_exec(
    state: &mut PiStreamState,
    acts: &mut Vec<StreamAction>,
    done: &mut bool,
    e: &JsonValue,
    ty: &Vec<char>,
)
    requires
        ty@ == event_type(e@),
    ensures
        step_of(final(state)@, final(acts)@, *final(done)) == on_response(
            step_of(old(state)@, old(acts)@, *old(done)),
            e@,
        ),
{
    if *done || !chars_eq_str(ty, "response") {
        return;
    }
    let command = chars_or_empty(str_member(Some(e), "command"));
    let success = match get(e, "success") {
        Some(v) => as_bool(v) == Some(true),
        None => false,
    };
    if chars_eq_str(&command, "prompt") && success {
        state.saw_prompt_response = true;
    } else if chars_eq_str(&command, "prompt") {
        let error = match str_member(Some(e), "error") {
            Some(t) => t.to_owned(),
            None => "prompt 调用失败".to_owned(),
        };
        push_action(acts, StreamAction::PromptFailed(error));
        *done = true;
    }
}

fn on_update_exec(
    state: &mut PiStreamState,
    acts: &mut Vec<StreamAction>,
    done: &mut bool,
    e: &JsonValue,
    ty: &Vec<char>,
    abort_requested: bool,
)
    requires
        ty@ == event_type(e@),
    ensures
        step_of(final(state)@, final(acts)@, *final(done)) == on_update(
            step_of(old(state)@, old(acts)@, *old(done)),
            e@,
            abort_requested,
        ),
{
    if *done || !chars_eq_str(ty, "message_update") {
        return;
    }
    let ae = get(e, "assistantMessageEvent");
    let dt = chars_or_empty(str_member(ae, "type"));
    let delta = str_member(ae, "delta");
    let delta_chars = chars_or_empty(delta);
    if chars_eq_str(&dt, "text_delta") {
        if delta_chars.len() > 0 {
            let d = match delta {
                Some(t) => t,
                None => "",
            };
            state.saw_assistant_activity = true;
            append_to_string(&mut state.emitted_text, d);
            push_action(acts, StreamAction::Delta(d.to_owned()));
        }
    } else if chars_eq_str(&dt, "thinking_start") {
        push_action(acts, StreamAction::ThinkingStart);
    } else if chars_eq_str(&dt, "thinking_delta") {
        if delta_chars.len() > 0 {
            let d = match delta {
                Some(t) => t,
                None => "",
            };
            push_action(acts, StreamAction::ThinkingDelta(d.to_owned()));
        }
    } else if chars_eq_str(&dt, "thinking_end") {
        push_action(acts, StreamAction::ThinkingEnd);
    } else if chars_eq_str(&dt, "done") {
        let message = match ae {
            Some(a) => get(a, "message"),
            None => None,
        };
        catch_up_exec(state, acts, snapshot_of(message), true);
        state.saw_message_done = true;
        push_action(acts, StreamAction::Stop);
        *done = true;
    } else if chars_eq_str(&dt, "error") {
        let reason = chars_or_empty(str_member(ae, "reason"));
        if chars_eq_str(&reason, "aborted") && !(abort_requested || state.abort_sent) {
            state.saw_model_abort_event = true;
        }
    }
}

fn on_message_exec(
    state: &mut PiStreamState,
    acts: &mut Vec<StreamAction>,
    done: &mut bool,
    e: &JsonValue,
    ty: &Vec<char>,
)
    requires
        ty@ == event_type(e@),
    ensures
        step_of(final(state)@, final(acts)@, *final(done)) == on_message(
            step_of(old(state)@, old(acts)@, *old(done)),
            e@,
        ),
{
    let is_start = chars_eq_str(ty, "message_start");
    let is_end = chars_eq_str(ty, "message_end") || chars_eq_str(ty, "turn_end");
    if *done || !(is_start || is_end) {
        return;
    }
    let message = get(e, "message");
    let role = str_member(message, "role");
    let is_assistant = match role {
        Some(r) => chars_eq_str(&str_chars(r), "assistant"),
        None => false,
    };
    if !is_assistant {
        return;
    }
    let snap = snapshot_of(message);
    let had_snapshot = snap.is_some();
    catch_up_exec(state, acts, snap, true);
    if is_end {
        let trimmed = trim_vec(&str_chars(state.emitted_text.as_str()));
        if had_snapshot || trimmed.len() > 0 {
            state.saw_terminal_message = true;
        }
    }
}

fn on_tool_exec(acts: &mut Vec<StreamAction>, done: bool, e: &JsonValue, ty: &Vec<char>)
    requires
        ty@ == event_type(e@),
    ensures
        ({
            let x = on_tool(
                StepModel { st: arbitrary(), acts: actions_model(old(acts)@), done },
                e@,
            );
            actions_model(final(acts)@) == x.acts
        }),
{
    if done {
        return;
    }
    let is_start = chars_eq_str(ty, "tool_execution_start");
    let is_update = chars_eq_str(ty, "tool_execution_update");
    let is_end = chars_eq_str(ty, "tool_execution_end");
    if !(is_start || is_update || is_end) {
        return;
    }
    let id = opt_owned(str_member(Some(e), "toolCallId"));
    let name = opt_owned(str_member(Some(e), "toolName"));
    let args = match get(e, "args") {
        Some(a) => Some(clone_json(a)),
        None => None,
    };
    if is_start {
        push_action(acts, StreamAction::ToolStart { tool_call_id: id, tool_name: name, args });
    } else if is_update {
        let partial = snapshot_of(get(e, "partialResult"));
        push_action(
            acts,
            StreamAction::ToolUpdate { tool_call_id: id, tool_name: name, args, partial_result: partial },
        );
    } else {
        let result = snapshot_of(get(e, "result"));
        let is_error = match get(e, "isError") {
            Some(v) => as_bool(v),
            None => None,
        };
        push_action(
            acts,
            StreamAction::ToolEnd { tool_call_id: id, tool_name: name, args, result, is_error },
        );
    }
}

fn find_last_assistant(items: &Vec<JsonValue>) -> (r: Option<&JsonValue>)
    ensures
        match r {
            Some(m) => last_assistant(items_model(items@)) == Some(m@),
            None => last_assistant(items_model(items@)) is None,
        },
{
    proof {
        lemma_items_model(items@);
    }
    let ghost all = items_model(items@);
    assert(all.take(all.len() as int) =~= all);
    let mut i: usize = items.len();
    while i > 0
        invariant
            i <= items.len(),
            all == items_model(items@),
            all.len() == items@.len(),
            forall|k: int| 0 <= k < items@.len() ==> #[trigger] all[k] == json_model(items@[k]),
            last_assistant(all) == last_assistant(all.take(i as int)),
        decreases i,
    {
        let item = &items[i - 1];
        let role = str_member(Some(item), "role");
        let hit = match role {
            Some(r) => chars_eq_str(&str_chars(r), "assistant"),
            None => false,
        };
        assert(all.take(i as int).last() == all[i - 1]);
        assert(all.take(i as int).drop_last() =~= all.take(i - 1));
        if hit {
            return Some(item);
        }
        i = i - 1;
    }
    None
}

fn on_agent_end_exec(
    state: &mut PiStreamState,
    acts: &mut Vec<StreamAction>,
    done: &mut bool,
    e: &JsonValue,
    ty: &Vec<char>,
)
    requires
        ty@ == event_type(e@),
    ensures
        step_of(final(state)@, final(acts)@, *final(done)) == on_agent_end(
            step_of(old(state)@, old(acts)@, *old(done)),
            e@,
        ),
{
    if *done || !chars_eq_str(ty, "agent_end") {
        return;
    }
    match get(e, "messages") {
        Some(m) => match as_array(m) {
            Some(items) => match find_last_assistant(items) {
                Some(last) => catch_up_exec(state, acts, snapshot_of(Some(last)), false),
                None => {},
            },
            None => {},
        },
        None => {},
    }
    state.saw_agent_end = true;
    push_action(acts, StreamAction::Stop);
    *done = true;
}

/// Handles one event Pi printed (see `stream_step`): updates the stream state and returns what
/// the caller does for it, in order. `abort_requested` says whether an abort was asked for.
pub fn pi_stream_step(state: &mut PiStreamState, event: &JsonValue, abort_requested: bool) -> (r: Vec<
    StreamAction,
>)
    requires
        event_type(event@) == "turn_end"@ ==> old(state).completed_turns < u32::MAX,
    ensures
        ({
            let x = stream_step(old(state)@, event@, abort_requested);
            &&& final(state)@ == x.st
            &&& actions_model(r@) == x.acts
        }),
{
    let ty = chars_or_empty(str_member(Some(event), "type"));
    let mut acts: Vec<StreamAction> = Vec::new();
    let mut done = false;
    assert(actions_model(acts@) =~= Seq::<ActionModel>::empty());
    on_turn_count_exec(state, &mut acts, &mut done, event, &ty);
    on_usage_report_exec(&mut done, &ty);
    on_response_exec(state, &mut acts, &mut done, event, &ty);
    on_update_exec(state, &mut acts, &mut done, event, &ty, abort_requested);
    on_message_exec(state, &mut acts, &mut done, event, &ty);
    on_tool_exec(&mut acts, done, event, &ty);
    on_agent_end_exec(state, &mut acts, &mut done, event, &ty);
    acts
}

/// A fresh stream with the given tool round limit.
pub fn new_pi_stream(tool_iteration_cap: u32) -> (s: PiStreamState)
    ensures
        s@ == (StreamModel {
            emitted: Seq::empty(),
            completed_turns: 0,
            tool_iteration_cap,
            limit_warned: false,
            abort_sent: false,
            saw_prompt_response: false,
            saw_assistant_activity: false,
            saw_message_done: false,
            saw_model_abort_event: false,
            saw_terminal_message: false,
            saw_agent_end: false,
        }),
{
    PiStreamState {
        emitted_text: String::new(),
        completed_turns: 0,
        tool_iteration_cap,
        limit_warned: false,
        abort_sent: false,
        saw_prompt_response: false,
        saw_assistant_activity: false,
        saw_message_done: false,
        saw_model_abort_event: false,
        saw_terminal_message: false,
        saw_agent_end: false,
    }
}

impl PiStreamState {
    /// Whether the reply ended: the agent ended, the message was done, or an assistant message
    /// with text ended.
    pub fn saw_terminal_completion(&self) -> (b: bool)
        ensures
            b == (self.saw_agent_end || self.saw_message_done || self.saw_terminal_message),
    {
        self.saw_agent_end || self.saw_message_done || self.saw_terminal_message
    }

    /// Whether the Pi process can be kept for the next turn: reuse is on, nobody asked to abort,
    /// the model did not abort, the reply has no terminal error, the agent ended or the message
    /// was done, and the process still runs.
    pub fn should_pool_after_turn(
        &self,
        reuse_enabled: bool,
        abort_requested: bool,
        has_terminal_error: bool,
        child_running: bool,
    ) -> (b: bool)
        ensures
            b == (reuse_enabled && !abort_requested && !self.saw_model_abort_event && !has_terminal_error
                && (self.saw_agent_end || self.saw_message_done) && child_running),
    {
        reuse_enabled && !abort_requested && !self.saw_model_abort_event && !has_terminal_error && (
        self.saw_agent_end || self.saw_message_done) && child_running
    }
}

/// The assistant text carried by the actions, in order.
pub open spec fn delta_text(acts: Seq<ActionModel>) -> Seq<char>
    decreases acts.len(),
{
    if acts.len() == 0 {
        Seq::empty()
    } else {
        delta_text(acts.drop_last()) + match acts.last() {
            ActionModel::Delta(t) => t,
            _ => Seq::empty(),
        }
    }
}

proof fn lemma_delta_push(acts: Seq<ActionModel>, a: ActionModel)
    ensures
        delta_text(acts.push(a)) == delta_text(acts) + match a {
            ActionModel::Delta(t) => t,
            _ => Seq::<char>::empty(),
        },
{
    assert(acts.push(a).drop_last() =~= acts);
}

proof fn lemma_delta_one_if(acts: Seq<ActionModel>, b: bool, a: ActionModel)
    requires
        !(a is Delta),
    ensures
        delta_text(acts + one_if(b, a)) == delta_text(acts),
{
    if b {
        assert(acts + one_if(b, a) =~= acts.push(a));
        lemma_delta_push(acts, a);
        assert(delta_text(acts) + Seq::<char>::empty() =~= delta_text(acts));
    } else {
        assert(acts + one_if(b, a) =~= acts);
    }
}

/// The text emitted so far is `base` followed by the text of the actions.
pub open spec fn text_tracked(x: StepModel, base: Seq<char>) -> bool {
    x.st.emitted == base + delta_text(x.acts)
}

proof fn lemma_push_non_delta(x: StepModel, base: Seq<char>, a: ActionModel)
    requires
        text_tracked(x, base),
        !(a is Delta),
    ensures
        x.st.emitted == base + delta_text(x.acts.push(a)),
{
    lemma_delta_push(x.acts, a);
    assert(delta_text(x.acts) + Seq::<char>::empty() =~= delta_text(x.acts));
}

proof fn lemma_catch_up_tracked(x: StepModel, base: Seq<char>, snap: Option<Seq<char>>, mark: bool)
    requires
        text_tracked(x, base),
    ensures
        text_tracked(catch_up(x, snap, mark), base),
{
    if let Some(t) = snap {
        let f = fragment_to_append(x.st.emitted, t);
        if f.len() > 0 {
            lemma_delta_push(x.acts, ActionModel::Delta(f));
            assert(base + delta_text(x.acts) + f =~= base + (delta_text(x.acts) + f));
        }
    }
}

proof fn lemma_turn_count_tracked(x: StepModel, e: JsonModel, base: Seq<char>)
    requires
        text_tracked(x, base),
    ensures
        text_tracked(on_turn_count(x, e), base),
{
    if !x.done && event_type(e) == "turn_end"@ {
        let c = (x.st.completed_turns + 1) as u32;
        let cap = iteration_cap(x.st.tool_iteration_cap);
        let warn = !x.st.limit_warned && c >= warn_at(cap) && c < cap;
        let abort = c >= cap && !x.st.abort_sent;
        let w = ActionModel::WarnIterationLimit { current: c, max: cap };
        lemma_delta_one_if(x.acts, warn, w);
        lemma_delta_one_if(x.acts + one_if(warn, w), abort, ActionModel::AbortForIterationLimit);
    }
}

proof fn lemma_response_tracked(x: StepModel, e: JsonModel, base: Seq<char>)
    requires
        text_tracked(x, base),
    ensures
        text_tracked(on_response(x, e), base),
{
    if !x.done && event_type(e) == "response"@ {
        let error = match str_at(Some(e), "error"@) {
            Some(t) => t,
            None => "prompt 调用失败"@,
        };
        lemma_push_non_delta(x, base, ActionModel::PromptFailed(error));
    }
}

proof fn lemma_update_tracked(x: StepModel, e: JsonModel, abort: bool, base: Seq<char>)
    requires
        text_tracked(x, base),
    ensures
        text_tracked(on_update(x, e, abort), base),
{
    if !x.done && event_type(e) == "message_update"@ {
        let ae = get_member(e, "assistantMessageEvent"@);
        let dt = or_empty(str_at(ae, "type"@));
        let delta = or_empty(str_at(ae, "delta"@));
        if dt == "text_delta"@ {
            lemma_delta_push(x.acts, ActionModel::Delta(delta));
            assert(base + delta_text(x.acts) + delta =~= base + (delta_text(x.acts) + delta));
        } else if dt == "thinking_start"@ {
            lemma_push_non_delta(x, base, ActionModel::ThinkingStart);
        } else if dt == "thinking_delta"@ {
            lemma_push_non_delta(x, base, ActionModel::ThinkingDelta(delta));
        } else if dt == "thinking_end"@ {
            lemma_push_non_delta(x, base, ActionModel::ThinkingEnd);
        } else if dt == "done"@ {
            let message = match ae {
                Some(a) => get_member(a, "message"@),
                None => None,
            };
            let y = catch_up(x, snapshot(message), true);
            lemma_catch_up_tracked(x, base, snapshot(message), true);
            lemma_push_non_delta(y, base, ActionModel::Stop);
        }
    }
}

proof fn lemma_message_tracked(x: StepModel, e: JsonModel, base: Seq<char>)
    requires
        text_tracked(x, base),
    ensures
        text_tracked(on_message(x, e), base),
{
    let message = get_member(e, "message"@);
    lemma_catch_up_tracked(x, base, snapshot(message), true);
}

proof fn lemma_tool_tracked(x: StepModel, e: JsonModel, base: Seq<char>)
    requires
        text_tracked(x, base),
    ensures
        text_tracked(on_tool(x, e), base),
{
    let ty = event_type(e);
    let id = str_at(Some(e), "toolCallId"@);
    let name = str_at(Some(e), "toolName"@);
    let args = get_member(e, "args"@);
    if !x.done {
        if ty == "tool_execution_start"@ {
            lemma_push_non_delta(
                x,
                base,
                ActionModel::ToolStart { tool_call_id: id, tool_name: name, args },
            );
        } else if ty == "tool_execution_update"@ {
            lemma_push_non_delta(
                x,
                base,
                ActionModel::ToolUpdate {
                    tool_call_id: id,
                    tool_name: name,
                    args,
                    partial_result: snapshot(get_member(e, "partialResult"@)),
                },
            );
        } else if ty == "tool_execution_end"@ {
            lemma_push_non_delta(
                x,
                base,
                ActionModel::ToolEnd {
                    tool_call_id: id,
                    tool_name: name,
                    args,
                    result: snapshot(get_member(e, "result"@)),
                    is_error: bool_at(e, "isError"@),
                },
            );
        }
    }
}

proof fn lemma_agent_end_tracked(x: StepModel, e: JsonModel, base: Seq<char>)
    requires
        text_tracked(x, base),
    ensures
        text_tracked(on_agent_end(x, e), base),
{
    if !x.done && event_type(e) == "agent_end"@ {
        let y = match get_member(e, "messages"@) {
            Some(m) => match model_array(m) {
                Some(items) => match last_assistant(items) {
                    Some(last) => catch_up(x, snapshot(Some(last)), false),
                    None => x,
                },
                None => x,
            },
            None => x,
        };
        if let Some(m) = get_member(e, "messages"@) {
            if let Some(items) = model_array(m) {
                if let Some(last) = last_assistant(items) {
                    lemma_catch_up_tracked(x, base, snapshot(Some(last)), false);
                }
            }
        }
        lemma_push_non_delta(y, base, ActionModel::Stop);
    }
}

/// The text a stream has emitted grows by exactly the text of the `Delta` actions an event
/// produces, in order: what the front end is sent is what the stream holds.
pub proof fn lemma_stream_step_text(s: StreamModel, e: JsonModel, abort_requested: bool)
    ensures
        stream_step(s, e, abort_requested).st.emitted == s.emitted + delta_text(
            stream_step(s, e, abort_requested).acts,
        ),
{
    let base = s.emitted;
    let x0 = StepModel { st: s, acts: Seq::empty(), done: false };
    assert(base + delta_text(x0.acts) =~= base);
    lemma_turn_count_tracked(x0, e, base);
    let x1 = on_turn_count(x0, e);
    let x2 = on_usage_report(x1, e);
    lemma_response_tracked(x2, e, base);
    let x3 = on_response(x2, e);
    lemma_update_tracked(x3, e, abort_requested, base);
    let x4 = on_update(x3, e, abort_requested);
    lemma_message_tracked(x4, e, base);
    let x5 = on_message(x4, e);
    lemma_tool_tracked(x5, e, base);
    let x6 = on_tool(x5, e);
    lemma_agent_end_tracked(x6, e, base);
}

/// An action about the tool round limit.
pub open spec fn is_limit_action(a: ActionModel) -> bool {
    a is WarnIterationLimit || a is AbortForIterationLimit
}

/// `b` is `a` followed by actions that are not about the tool round limit.
pub open spec fn extends_without_limits(a: Seq<ActionModel>, b: Seq<ActionModel>) -> bool {
    &&& a.len() <= b.len()
    &&& b.take(a.len() as int) == a
    &&& forall|i: int| a.len() <= i < b.len() ==> !is_limit_action(#[trigger] b[i])
}

/// The limit bookkeeping of two states agrees.
pub open spec fn same_limits(s: StreamModel, t: StreamModel) -> bool {
    &&& s.completed_turns == t.completed_turns
    &&& s.tool_iteration_cap == t.tool_iteration_cap
    &&& s.limit_warned == t.limit_warned
    &&& s.abort_sent == t.abort_sent
}

/// A rule other than turn counting: it leaves the limit bookkeeping alone and adds no action
/// about the limit.
pub open spec fn keeps_limits(x: StepModel, y: StepModel) -> bool {
    same_limits(x.st, y.st) && extends_without_limits(x.acts, y.acts)
}

proof fn lemma_keeps_refl(x: StepModel)
    ensures
        keeps_limits(x, x),
{
    assert(x.acts.take(x.acts.len() as int) =~= x.acts);
}

proof fn lemma_keeps_push(x: StepModel, y: StepModel, a: ActionModel)
    requires
        keeps_limits(x, y),
        !is_limit_action(a),
    ensures
        extends_without_limits(x.acts, y.acts.push(a)),
{
    let b = y.acts.push(a);
    assert(b.take(x.acts.len() as int) =~= y.acts.take(x.acts.len() as int));
    assert forall|i: int| x.acts.len() <= i < b.len() implies !is_limit_action(#[trigger] b[i]) by {
        if i < y.acts.len() {
            assert(b[i] == y.acts[i]);
        }
    }
}

proof fn lemma_keeps_trans(x: StepModel, y: StepModel, z: StepModel)
    requires
        keeps_limits(x, y),
        keeps_limits(y, z),
    ensures
        keeps_limits(x, z),
{
    assert(z.acts.take(x.acts.len() as int) =~= z.acts.take(y.acts.len() as int).take(
        x.acts.len() as int,
    ));
    assert forall|i: int| x.acts.len() <= i < z.acts.len() implies !is_limit_action(#[trigger] z.acts[i]) by {
        if i < y.acts.len() {
            assert(z.acts.take(y.acts.len() as int)[i] == z.acts[i]);
            assert(y.acts[i] == z.acts[i]);
        }
    }
}

proof fn lemma_catch_up_keeps(x: StepModel, snap: Option<Seq<char>>, mark: bool)
    ensures
        keeps_limits(x, catch_up(x, snap, mark)),
{
    lemma_keeps_refl(x);
    if let Some(t) = snap {
        let f = fragment_to_append(x.st.emitted, t);
        if f.len() > 0 {
            lemma_keeps_push(x, x, ActionModel::Delta(f));
        }
    }
}

proof fn lemma_rules_keep_limits(x: StepModel, e: JsonModel, abort: bool)
    ensures
        keeps_limits(x, on_usage_report(x, e)),
        keeps_limits(x, on_response(x, e)),
        keeps_limits(x, on_update(x, e, abort)),
        keeps_limits(x, on_message(x, e)),
        keeps_limits(x, on_tool(x, e)),
        keeps_limits(x, on_agent_end(x, e)),
{
    lemma_keeps_refl(x);
    // response
    let error = match str_at(Some(e), "error"@) {
        Some(t) => t,
        None => "prompt 调用失败"@,
    };
    lemma_keeps_push(x, x, ActionModel::PromptFailed(error));
    // update
    let ae = get_member(e, "assistantMessageEvent"@);
    let delta = or_empty(str_at(ae, "delta"@));
    lemma_keeps_push(x, x, ActionModel::Delta(delta));
    lemma_keeps_push(x, x, ActionModel::ThinkingStart);
    lemma_keeps_push(x, x, ActionModel::ThinkingDelta(delta));
    lemma_keeps_push(x, x, ActionModel::ThinkingEnd);
    let message = match ae {
        Some(a) => get_member(a, "message"@),
        None => None,
    };
    let y = catch_up(x, snapshot(message), true);
    lemma_catch_up_keeps(x, snapshot(message), true);
    lemma_keeps_push(x, y, ActionModel::Stop);
    // message
    let msg = get_member(e, "message"@);
    lemma_catch_up_keeps(x, snapshot(msg), true);
    // tools
    let id = str_at(Some(e), "toolCallId"@);
    let name = str_at(Some(e), "toolName"@);
    let args = get_member(e, "args"@);
    lemma_keeps_push(x, x, ActionModel::ToolStart { tool_call_id: id, tool_name: name, args });
    lemma_keeps_push(
        x,
        x,
        ActionModel::ToolUpdate {
            tool_call_id: id,
            tool_name: name,
            args,
            partial_result: snapshot(get_member(e, "partialResult"@)),
        },
    );
    lemma_keeps_push(
        x,
        x,
        ActionModel::ToolEnd {
            tool_call_id: id,
            tool_name: name,
            args,
            result: snapshot(get_member(e, "result"@)),
            is_error: bool_at(e, "isError"@),
        },
    );
    // agent end
    let z = match get_member(e, "messages"@) {
        Some(m) => match model_array(m) {
            Some(items) => match last_assistant(items) {
                Some(last) => catch_up(x, snapshot(Some(last)), false),
                None => x,
            },
            None => x,
        },
        None => x,
    };
    if let Some(m) = get_member(e, "messages"@) {
        if let Some(items) = model_array(m) {
            if let Some(last) = last_assistant(items) {
                lemma_catch_up_keeps(x, snapshot(Some(last)), false);
            }
        }
    }
    lemma_keeps_push(x, z, ActionModel::Stop);
}

/// Tool rounds are counted once per turn end; the user is warned of the limit at most once and
/// Pi is asked to abort for it at most once: once the stream has warned (or aborted), no event
/// warns (or aborts) again, and an event that warns (or aborts) leaves the stream marked so.
pub proof fn lemma_iteration_limit_once(s: StreamModel, e: JsonModel, abort_requested: bool)
    requires
        event_type(e) == "turn_end"@ ==> s.completed_turns < u32::MAX,
    ensures
        ({
            let x = stream_step(s, e, abort_requested);
            &&& x.st.completed_turns == s.completed_turns + (if event_type(e) == "turn_end"@ {
                1int
            } else {
                0int
            })
            &&& x.st.tool_iteration_cap == s.tool_iteration_cap
            &&& s.limit_warned ==> x.st.limit_warned && forall|i: int|
                0 <= i < x.acts.len() ==> !(#[trigger] x.acts[i] is WarnIterationLimit)
            &&& s.abort_sent ==> x.st.abort_sent && forall|i: int|
                0 <= i < x.acts.len() ==> !(#[trigger] x.acts[i] is AbortForIterationLimit)
            &&& (exists|i: int| 0 <= i < x.acts.len() && #[trigger] x.acts[i] is WarnIterationLimit)
                ==> x.st.limit_warned
            &&& (exists|i: int|
                0 <= i < x.acts.len() && #[trigger] x.acts[i] is AbortForIterationLimit)
                ==> x.st.abort_sent
        }),
{
    let x0 = StepModel { st: s, acts: Seq::empty(), done: false };
    let x1 = on_turn_count(x0, e);
    let x2 = on_usage_report(x1, e);
    let x3 = on_response(x2, e);
    let x4 = on_update(x3, e, abort_requested);
    let x5 = on_message(x4, e);
    let x6 = on_tool(x5, e);
    let x7 = on_agent_end(x6, e);
    lemma_rules_keep_limits(x1, e, abort_requested);
    lemma_rules_keep_limits(x2, e, abort_requested);
    lemma_rules_keep_limits(x3, e, abort_requested);
    lemma_rules_keep_limits(x4, e, abort_requested);
    lemma_rules_keep_limits(x5, e, abort_requested);
    lemma_rules_keep_limits(x6, e, abort_requested);
    lemma_keeps_trans(x1, x2, x3);
    lemma_keeps_trans(x1, x3, x4);
    lemma_keeps_trans(x1, x4, x5);
    lemma_keeps_trans(x1, x5, x6);
    lemma_keeps_trans(x1, x6, x7);
    assert(x7 == stream_step(s, e, abort_requested));
    // the limit actions all come from the turn count
    assert forall|i: int| 0 <= i < x7.acts.len() && is_limit_action(#[trigger] x7.acts[i]) implies i
        < x1.acts.len() && x7.acts[i] == x1.acts[i] by {
        assert(x7.acts.take(x1.acts.len() as int)[i] == x7.acts[i]);
    }
    if event_type(e) == "turn_end"@ {
        let c = (s.completed_turns + 1) as u32;
        let cap = iteration_cap(s.tool_iteration_cap);
        let warn = !s.limit_warned && c >= warn_at(cap) && c < cap;
        let abort = c >= cap && !s.abort_sent;
        let w = ActionModel::WarnIterationLimit { current: c, max: cap };
        assert(x1.acts =~= one_if(warn, w) + one_if(abort, ActionModel::AbortForIterationLimit));
    } else {
        assert(x1.acts.len() == 0);
    }
}

proof fn lemma_catch_up_keeps_abort_flag(x: StepModel, snap: Option<Seq<char>>, mark: bool)
    ensures
        catch_up(x, snap, mark).st.saw_model_abort_event == x.st.saw_model_abort_event,
{
}

/// A user's abort is told apart from the model's: while an abort was asked for, no event marks
/// the reply as aborted by the model.
pub proof fn lemma_requested_abort_is_not_model_abort(s: StreamModel, e: JsonModel)
    ensures
        stream_step(s, e, true).st.saw_model_abort_event == s.saw_model_abort_event,
{
    let x0 = StepModel { st: s, acts: Seq::empty(), done: false };
    let x1 = on_turn_count(x0, e);
    let x2 = on_usage_report(x1, e);
    let x3 = on_response(x2, e);
    let x4 = on_update(x3, e, true);
    assert(x4.st.saw_model_abort_event == s.saw_model_abort_event) by {
        let ae = get_member(e, "assistantMessageEvent"@);
        let message = match ae {
            Some(a) => get_member(a, "message"@),
            None => None,
        };
        lemma_catch_up_keeps_abort_flag(x3, snapshot(message), true);
    }
    let x5 = on_message(x4, e);
    assert(x5.st.saw_model_abort_event == s.saw_model_abort_event) by {
        lemma_catch_up_keeps_abort_flag(x4, snapshot(get_member(e, "message"@)), true);
    }
    let x6 = on_tool(x5, e);
    assert(on_agent_end(x6, e).st.saw_model_abort_event == s.saw_model_abort_event) by {
        if let Some(m) = get_member(e, "messages"@) {
            if let Some(items) = model_array(m) {
                if let Some(last) = last_assistant(items) {
                    lemma_catch_up_keeps_abort_flag(x6, snapshot(Some(last)), false);
                }
            }
        }
    }
}

/// What a line read while waiting for an RPC command's reply means.
pub enum RpcReply {
    /// Not the awaited reply: keep waiting.
    Other,
    /// The command succeeded with this response.
    Succeeded,
    /// The command failed with this error.
    Failed(String),
}

/// How a Pi RPC line answers the command `command_id`: only a `response` carrying that id
/// counts, and it fails when its `success` is `false` (with its `error`, or `unknown error`).
pub open spec fn rpc_reply(e: JsonModel, command_id: Seq<char>) -> Option<Option<Seq<char>>> {
    if event_type(e) != "response"@ || str_at(Some(e), "id"@) != Some(command_id) {
        None
    } else if bool_at(e, "success"@) == Some(false) {
        Some(
            Some(
                "pi rpc 命令失败 "@ + command_id + ": "@ + match str_at(Some(e), "error"@) {
                    Some(m) => m,
                    None => "unknown error"@,
                },
            ),
        )
    } else {
        Some(None)
    }
}

/// Reads a line while waiting for the reply to `command_id` (see `rpc_reply`).
pub fn classify_rpc_line(value: &JsonValue, command_id: &str) -> (r: RpcReply)
    ensures
        match rpc_reply(value@, command_id@) {
            None => r is Other,
            Some(None) => r is Succeeded,
            Some(Some(m)) => r matches RpcReply::Failed(t) && t@ == m,
        },
{
    let ty = chars_or_empty(str_member(Some(value), "type"));
    if !chars_eq_str(&ty, "response") {
        return RpcReply::Other;
    }
    let same_id = match str_member(Some(value), "id") {
        Some(id) => chars_eq_str(&str_chars(id), command_id),
        None => false,
    };
    if !same_id {
        return RpcReply::Other;
    }
    let failed = match get(value, "success") {
        Some(v) => as_bool(v) == Some(false),
        None => false,
    };
    if !failed {
        return RpcReply::Succeeded;
    }
    let mut message = str_chars("pi rpc 命令失败 ");
    crate::text::push_str(&mut message, command_id);
    crate::text::push_str(&mut message, ": ");
    match str_member(Some(value), "error") {
        Some(m) => crate::text::push_str(&mut message, m),
        None => crate::text::push_str(&mut message, "unknown error"),
    }
    RpcReply::Failed(crate::text::chars_to_string(&message))
}

} // verus!
