//! The registry of running LLM traces: starting one, recording its tool calls and text, finishing
//! it, clearing a scope, and ordering traces newest first.
use vstd::prelude::*;
use crate::text::{chars_eq, chars_eq_str, chars_to_string, join, join_vecs, lines, split_lines, str_chars, trim, trim_vec};
use crate::llm_trace::{
    TraceEntry, TraceSystemPromptSection, TraceMessageBlock, TraceResponseBlock, TraceUsage,
    non_blank, non_blank_of, opt_str_view, opt_string_view, type_meta, trace_type_meta,
    message_block_view, response_block_view, message_blocks_of, response_blocks_of,
    scope_registry_key, tool_calls_view, recorded_tools, record_tool_call, append_response_delta,
    append_thinking_delta, duration_of, in_scope,
};

verus! {

/// Position of the first entry with id `id`, or -1.
pub open spec fn trace_index(s: Seq<TraceEntry>, id: Seq<char>) -> int
    decreases s.len(),
{
    if s.len() == 0 {
        -1
    } else if s[0].id@ == id {
        0
    } else {
        let r = trace_index(s.drop_first(), id);
        if r < 0 {
            -1
        } else {
            r + 1
        }
    }
}

pub proof fn lemma_trace_index(s: Seq<TraceEntry>, id: Seq<char>)
    ensures
        -1 <= trace_index(s, id) < s.len(),
        trace_index(s, id) >= 0 ==> s[trace_index(s, id)].id@ == id,
        forall|j: int| 0 <= j < trace_index(s, id) ==> s[j].id@ != id,
        trace_index(s, id) < 0 ==> forall|j: int| 0 <= j < s.len() ==> s[j].id@ != id,
    decreases s.len(),
{
    if s.len() > 0 && s[0].id@ != id {
        lemma_trace_index(s.drop_first(), id);
        assert forall|j: int| 1 <= j < s.len() implies s[j] == s.drop_first()[j - 1] by {}
    }
}

/// No two entries share an id.
pub open spec fn distinct_ids(s: Seq<TraceEntry>) -> bool {
    forall|i: int, j: int| #![trigger s[i], s[j]] 0 <= i < j < s.len() ==> s[i].id@ != s[j].id@
}

/// The entry with id `e.id` replaced by `e`, or `e` appended when there is none.
pub open spec fn put_trace(s: Seq<TraceEntry>, e: TraceEntry) -> Seq<TraceEntry> {
    let i = trace_index(s, e.id@);
    if i >= 0 {
        s.update(i, e)
    } else {
        s.push(e)
    }
}

/// A remembered main trace: the scope bucket, the session id and the trace id.
pub type MainView = (Seq<char>, Seq<char>, Seq<char>);

pub open spec fn mains_view(v: Seq<(String, String, String)>) -> Seq<MainView> {
    v.map_values(|m: (String, String, String)| (m.0@, m.1@, m.2@))
}

/// Position of the first remembered main trace of bucket `b` and session `sid`, or -1.
pub open spec fn main_index(m: Seq<MainView>, b: Seq<char>, sid: Seq<char>) -> int
    decreases m.len(),
{
    if m.len() == 0 {
        -1
    } else if m[0].0 == b && m[0].1 == sid {
        0
    } else {
        let r = main_index(m.drop_first(), b, sid);
        if r < 0 {
            -1
        } else {
            r + 1
        }
    }
}

pub proof fn lemma_main_index(m: Seq<MainView>, b: Seq<char>, sid: Seq<char>)
    ensures
        -1 <= main_index(m, b, sid) < m.len(),
        main_index(m, b, sid) >= 0 ==> m[main_index(m, b, sid)].0 == b && m[main_index(m, b, sid)].1 == sid,
        forall|j: int| 0 <= j < main_index(m, b, sid) ==> !(m[j].0 == b && m[j].1 == sid),
        main_index(m, b, sid) < 0 ==> forall|j: int| 0 <= j < m.len() ==> !(m[j].0 == b && m[j].1 == sid),
    decreases m.len(),
{
    if m.len() > 0 && !(m[0].0 == b && m[0].1 == sid) {
        lemma_main_index(m.drop_first(), b, sid);
        assert forall|j: int| 1 <= j < m.len() implies m[j] == m.drop_first()[j - 1] by {}
    }
}

/// The bucket of a scope: `workspace:<id>` for a workspace, else `standalone`.
pub open spec fn scope_bucket(workspace_id: Option<Seq<char>>) -> Seq<char> {
    match non_blank(workspace_id) {
        Some(w) => "workspace:"@ + w,
        None => "standalone"@,
    }
}

/// The latest main trace remembered for a bucket and session.
pub open spec fn main_lookup(m: Seq<MainView>, b: Seq<char>, sid: Seq<char>) -> Option<Seq<char>> {
    let i = main_index(m, b, sid);
    if i >= 0 {
        Some(m[i].2)
    } else {
        None
    }
}

/// The parent of a new trace: none for a main trace, else the latest main trace of its session.
pub open spec fn parent_of(
    m: Seq<MainView>,
    kind: Seq<char>,
    workspace_id: Option<Seq<char>>,
    session_id: Option<Seq<char>>,
) -> Option<Seq<char>> {
    if kind == "main_pi"@ {
        None
    } else {
        match non_blank(session_id) {
            Some(s) => main_lookup(m, scope_bucket(workspace_id), s),
            None => None,
        }
    }
}

/// The latest main trace remembered for a scope and session (none without a session).
pub open spec fn latest_main_in(
    m: Seq<MainView>,
    workspace_id: Option<Seq<char>>,
    session_id: Option<Seq<char>>,
) -> Option<Seq<char>> {
    match non_blank(session_id) {
        Some(s) => main_lookup(m, scope_bucket(workspace_id), s),
        None => None,
    }
}

/// Whether two scopes and sessions name the same remembered main trace: a non-blank session,
/// the same session and the same scope bucket.
pub open spec fn same_main_key(
    workspace_id: Option<Seq<char>>,
    session_id: Option<Seq<char>>,
    other_workspace_id: Option<Seq<char>>,
    other_session_id: Option<Seq<char>>,
) -> bool {
    &&& non_blank(session_id) is Some
    &&& non_blank(other_session_id) == non_blank(session_id)
    &&& scope_bucket(other_workspace_id) == scope_bucket(workspace_id)
}

/// The remembered main traces after starting a trace: a main trace with a session becomes the
/// latest of its bucket and session.
pub open spec fn remember_main(
    m: Seq<MainView>,
    kind: Seq<char>,
    workspace_id: Option<Seq<char>>,
    session_id: Option<Seq<char>>,
    id: Seq<char>,
) -> Seq<MainView> {
    if kind == "main_pi"@ {
        match non_blank(session_id) {
            Some(s) => {
                let b = scope_bucket(workspace_id);
                let i = main_index(m, b, s);
                if i >= 0 {
                    m.update(i, (b, s, id))
                } else {
                    m.push((b, s, id))
                }
            },
            None => m,
        }
    } else {
        m
    }
}

/// What a freshly started trace holds.
pub open spec fn is_started_entry(
    e: TraceEntry,
    id: Seq<char>,
    now: i64,
    workspace_id: Option<Seq<char>>,
    kind: Seq<char>,
    caller_agent_id: Seq<char>,
    caller_agent_name: Seq<char>,
    target_agent_id: Option<Seq<char>>,
    target_agent_name: Option<Seq<char>>,
    session_id: Option<Seq<char>>,
    provider: Option<Seq<char>>,
    model: Option<Seq<char>>,
    system_prompts: Vec<TraceSystemPromptSection>,
    user_message: Seq<char>,
    parent: Option<Seq<char>>,
) -> bool {
    &&& e.id@ == id
    &&& opt_string_view(e.workspace_id) == non_blank(workspace_id)
    &&& e.kind@ == kind
    &&& (e.trace_type@, e.caller_kind@, e.target_kind@) == type_meta(kind)
    &&& e.caller_agent_id@ == caller_agent_id
    &&& e.caller_agent_name@ == caller_agent_name
    &&& opt_string_view(e.target_agent_id) == target_agent_id
    &&& opt_string_view(e.target_agent_name) == target_agent_name
    &&& opt_string_view(e.session_id) == non_blank(session_id)
    &&& opt_string_view(e.parent_trace_id) == parent
    &&& opt_string_view(e.provider) == provider
    &&& opt_string_view(e.model) == model
    &&& e.response_id is None
    &&& e.status@ == "running"@
    &&& e.error is None
    &&& e.started_at == now
    &&& e.finished_at is None
    &&& e.duration_ms is None
    &&& e.usage is None
    &&& e.system_prompts == system_prompts
    &&& e.user_message@ == user_message
    &&& e.response_text@.len() == 0
    &&& e.thinking_text@.len() == 0
    &&& e.message_blocks@.map_values(|b: TraceMessageBlock| message_block_view(b))
        == message_blocks_of(system_prompts@, user_message)
    &&& e.response_blocks@.map_values(|b: TraceResponseBlock| response_block_view(b))
        == response_blocks_of(Seq::empty(), Seq::empty())
    &&& e.tool_calls@.len() == 0
}

fn owned_opt(v: Option<&str>) -> (r: Option<String>)
    ensures
        opt_string_view(r) == opt_str_view(v),
{
    match v {
        Some(s) => Some(s.to_owned()),
        None => None,
    }
}

fn chars_opt_to_string(v: &Option<Vec<char>>) -> (r: Option<String>)
    ensures
        opt_string_view(r) == match v {
            Some(x) => Some(x@),
            None => None::<Seq<char>>,
        },
{
    match v {
        Some(x) => Some(chars_to_string(x)),
        None => None,
    }
}

/// The traces that are running, and the latest main trace of each session.
pub struct TraceRegistry {
    pub entries: Vec<TraceEntry>,
    pub latest_main: Vec<(String, String, String)>,
}

/// The latest main trace a registry remembers for a scope and session.
pub open spec fn latest_main_of(
    reg: TraceRegistry,
    workspace_id: Option<Seq<char>>,
    session_id: Option<Seq<char>>,
) -> Option<Seq<char>> {
    latest_main_in(mains_view(reg.latest_main@), workspace_id, session_id)
}

impl TraceRegistry {
    /// Entries are kept by id: no two share one.
    pub open spec fn wf(&self) -> bool {
        distinct_ids(self.entries@)
    }

    /// An empty registry.
    pub fn new() -> (r: Self)
        ensures
            r.wf(),
            r.entries@.len() == 0,
            r.latest_main@.len() == 0,
    {
        TraceRegistry { entries: Vec::new(), latest_main: Vec::new() }
    }

    fn find(&self, id: &str) -> (r: Option<usize>)
        ensures
            match r {
                Some(i) => i as int == trace_index(self.entries@, id@) && i < self.entries@.len(),
                None => trace_index(self.entries@, id@) < 0,
            },
    {
        proof {
            lemma_trace_index(self.entries@, id@);
        }
        let target = str_chars(id);
        let mut i: usize = 0;
        while i < self.entries.len()
            invariant
                i <= self.entries.len(),
                target@ == id@,
                forall|j: int| 0 <= j < i ==> self.entries@[j].id@ != id@,
                -1 <= trace_index(self.entries@, id@) < self.entries@.len(),
                trace_index(self.entries@, id@) >= 0 ==> self.entries@[trace_index(
                    self.entries@,
                    id@,
                )].id@ == id@,
                forall|j: int| 0 <= j < trace_index(self.entries@, id@) ==> self.entries@[j].id@ != id@,
                trace_index(self.entries@, id@) < 0 ==> forall|j: int|
                    0 <= j < self.entries@.len() ==> self.entries@[j].id@ != id@,
            decreases self.entries.len() - i,
        {
            let other = str_chars(self.entries[i].id.as_str());
            if chars_eq(&other, &target) {
                return Some(i);
            }
            i = i + 1;
        }
        None
    }

    /// The running trace with the given id.
    pub fn get(&self, id: &str) -> (r: Option<&TraceEntry>)
        ensures
            match r {
                Some(e) => trace_index(self.entries@, id@) >= 0 && *e == self.entries@[trace_index(
                    self.entries@,
                    id@,
                )],
                None => trace_index(self.entries@, id@) < 0,
            },
    {
        match self.find(id) {
            Some(i) => Some(&self.entries[i]),
            None => None,
        }
    }

    fn find_main(&self, bucket: &str, session_id: &str) -> (r: Option<usize>)
        ensures
            match r {
                Some(i) => i as int == main_index(mains_view(self.latest_main@), bucket@, session_id@)
                    && i < self.latest_main@.len(),
                None => main_index(mains_view(self.latest_main@), bucket@, session_id@) < 0,
            },
    {
        let ghost m = mains_view(self.latest_main@);
        proof {
            lemma_main_index(m, bucket@, session_id@);
        }
        let b = str_chars(bucket);
        let s = str_chars(session_id);
        let mut i: usize = 0;
        while i < self.latest_main.len()
            invariant
                i <= self.latest_main.len(),
                m == mains_view(self.latest_main@),
                b@ == bucket@,
                s@ == session_id@,
                forall|j: int| 0 <= j < i ==> !(m[j].0 == bucket@ && m[j].1 == session_id@),
                -1 <= main_index(m, bucket@, session_id@) < m.len(),
                main_index(m, bucket@, session_id@) >= 0 ==> m[main_index(m, bucket@, session_id@)].0
                    == bucket@ && m[main_index(m, bucket@, session_id@)].1 == session_id@,
                forall|j: int|
                    0 <= j < main_index(m, bucket@, session_id@) ==> !(m[j].0 == bucket@ && m[j].1
                        == session_id@),
                main_index(m, bucket@, session_id@) < 0 ==> forall|j: int|
                    0 <= j < m.len() ==> !(m[j].0 == bucket@ && m[j].1 == session_id@),
            decreases self.latest_main.len() - i,
        {
            let eb = str_chars(self.latest_main[i].0.as_str());
            let es = str_chars(self.latest_main[i].1.as_str());
            assert(m[i as int] == (self.latest_main@[i as int].0@, self.latest_main@[i as int].1@, self.latest_main@[i as int].2@));
            if chars_eq(&eb, &b) && chars_eq(&es, &s) {
                return Some(i);
            }
            i = i + 1;
        }
        None
    }

    /// Starts a trace with the given id at time `now`: a delegated trace is linked to the latest
    /// main trace of its session, and a main trace becomes that latest one.
    pub fn begin(
        &mut self,
        id: &str,
        now: i64,
        workspace_id: Option<&str>,
        kind: &str,
        caller_agent_id: &str,
        caller_agent_name: &str,
        target_agent_id: Option<&str>,
        target_agent_name: Option<&str>,
        session_id: Option<&str>,
        provider: Option<&str>,
        model: Option<&str>,
        system_prompts: Vec<TraceSystemPromptSection>,
        user_message: &str,
    )
        requires
            old(self).wf(),
        ensures
            final(self).wf(),
            trace_index(final(self).entries@, id@) >= 0,
            final(self).entries@ == put_trace(
                old(self).entries@,
                final(self).entries@[trace_index(final(self).entries@, id@)],
            ),
            is_started_entry(
                final(self).entries@[trace_index(final(self).entries@, id@)],
                id@,
                now,
                opt_str_view(workspace_id),
                kind@,
                caller_agent_id@,
                caller_agent_name@,
                opt_str_view(target_agent_id),
                opt_str_view(target_agent_name),
                opt_str_view(session_id),
                opt_str_view(provider),
                opt_str_view(model),
                system_prompts,
                user_message@,
                parent_of(
                    mains_view(old(self).latest_main@),
                    kind@,
                    opt_str_view(workspace_id),
                    opt_str_view(session_id),
                ),
            ),
            mains_view(final(self).latest_main@) == remember_main(
                mains_view(old(self).latest_main@),
                kind@,
                opt_str_view(workspace_id),
                opt_str_view(session_id),
                id@,
            ),
            opt_string_view(final(self).entries@[trace_index(final(self).entries@, id@)].parent_trace_id) == if kind@
                == "main_pi"@ {
                None
            } else {
                latest_main_of(*old(self), opt_str_view(workspace_id), opt_str_view(session_id))
            },
            kind@ == "main_pi"@ && non_blank(opt_str_view(session_id)) is Some ==> latest_main_of(
                *final(self),
                opt_str_view(workspace_id),
                opt_str_view(session_id),
            ) == Some(id@),
            forall|other_workspace_id: Option<Seq<char>>, other_session_id: Option<Seq<char>>|
                !(kind@ == "main_pi"@ && same_main_key(
                    opt_str_view(workspace_id),
                    opt_str_view(session_id),
                    other_workspace_id,
                    other_session_id,
                )) ==> #[trigger] latest_main_of(*final(self), other_workspace_id, other_session_id)
                    == latest_main_of(*old(self), other_workspace_id, other_session_id),
    {
        let ghost old_entries = self.entries@;
        let ghost old_mains = mains_view(self.latest_main@);
        let (trace_type, caller_kind, target_kind) = trace_type_meta(kind);
        let ws = non_blank_of(workspace_id);
        let sid = non_blank_of(session_id);
        let kind_chars = str_chars(kind);
        let is_main = chars_eq_str(&kind_chars, "main_pi");
        let sid_string = chars_opt_to_string(&sid);
        let parent: Option<String> = if is_main {
            None
        } else {
            match &sid_string {
                Some(s) => {
                    let key = scope_registry_key(workspace_id, s.as_str());
                    match self.find_main(key.0.as_str(), key.1.as_str()) {
                        Some(i) => Some(self.latest_main[i].2.clone()),
                        None => None,
                    }
                },
                None => None,
            }
        };
        let main_key: Option<(String, String)> = if is_main {
            match &sid_string {
                Some(s) => Some(scope_registry_key(workspace_id, s.as_str())),
                None => None,
            }
        } else {
            None
        };
        let mut entry = TraceEntry {
            id: id.to_owned(),
            workspace_id: chars_opt_to_string(&ws),
            kind: kind.to_owned(),
            trace_type: trace_type.to_owned(),
            caller_kind: caller_kind.to_owned(),
            target_kind: target_kind.to_owned(),
            caller_agent_id: caller_agent_id.to_owned(),
            caller_agent_name: caller_agent_name.to_owned(),
            target_agent_id: owned_opt(target_agent_id),
            target_agent_name: owned_opt(target_agent_name),
            session_id: sid_string,
            parent_trace_id: parent,
            provider: owned_opt(provider),
            model: owned_opt(model),
            response_id: None,
            status: "running".to_owned(),
            error: None,
            started_at: now,
            finished_at: None,
            duration_ms: None,
            usage: None,
            system_prompts,
            user_message: user_message.to_owned(),
            response_text: String::new(),
            thinking_text: String::new(),
            message_blocks: Vec::new(),
            response_blocks: Vec::new(),
            tool_calls: Vec::new(),
        };
        entry.sync_structured_blocks();
        proof {
            lemma_trace_index(old_entries, id@);
        }
        match self.find(id) {
            Some(i) => {
                self.entries.set(i, entry);
                assert(self.entries@ == old_entries.update(i as int, entry));
            },
            None => {
                self.entries.push(entry);
                assert(self.entries@ == old_entries.push(entry));
            },
        }
        proof {
            lemma_trace_index(self.entries@, id@);
            let i = trace_index(old_entries, id@);
            let k = if i >= 0 { i } else { old_entries.len() as int };
            assert(self.entries@[k] == entry);
            assert forall|j: int| 0 <= j < k implies self.entries@[j].id@ != id@ by {
                assert(self.entries@[j] == old_entries[j]);
            }
            assert(trace_index(self.entries@, id@) == k);
        }
        match main_key {
            Some(key) => {
                    let ghost before = mains_view(self.latest_main@);
                    proof {
                        lemma_main_index(before, key.0@, key.1@);
                    }
                    match self.find_main(key.0.as_str(), key.1.as_str()) {
                        Some(i) => {
                            self.latest_main.set(i, (key.0, key.1, id.to_owned()));
                            assert(mains_view(self.latest_main@) =~= before.update(
                                i as int,
                                (key.0@, key.1@, id@),
                            ));
                        },
                        None => {
                            self.latest_main.push((key.0, key.1, id.to_owned()));
                            assert(mains_view(self.latest_main@) =~= before.push((key.0@, key.1@, id@)));
                        },
                    }
            },
            None => {},
        }
        proof {
            lemma_begin_latest_main(
                old_mains,
                kind@,
                opt_str_view(workspace_id),
                opt_str_view(session_id),
                id@,
            );
        }
    }
}


/// The structured blocks of an entry agree with its flat fields.
pub open spec fn blocks_synced(e: TraceEntry) -> bool {
    &&& e.message_blocks@.map_values(|b: TraceMessageBlock| message_block_view(b))
        == message_blocks_of(e.system_prompts@, e.user_message@)
    &&& e.response_blocks@.map_values(|b: TraceResponseBlock| response_block_view(b))
        == response_blocks_of(e.thinking_text@, e.response_text@)
}

/// The reply text kept at the end: a non-empty snapshot replaces the streamed text when it has
/// more characters.
pub open spec fn finalized_text(current: Seq<char>, snapshot: Option<Seq<char>>) -> Seq<char> {
    match snapshot {
        Some(t) => if t.len() > 0 && t.len() > current.len() {
            t
        } else {
            current
        },
        None => current,
    }
}

/// An optional value replaced by a given non-empty one.
pub open spec fn given_or(current: Option<Seq<char>>, update: Option<Seq<char>>) -> Option<Seq<char>> {
    match update {
        Some(u) => if u.len() > 0 {
            Some(u)
        } else {
            current
        },
        None => current,
    }
}

/// `after` is `before` finished at `now` with the given outcome.
pub open spec fn is_finalized(
    before: TraceEntry,
    after: TraceEntry,
    status: Seq<char>,
    error: Option<String>,
    snapshot: Option<Seq<char>>,
    usage: Option<TraceUsage>,
    provider: Option<Seq<char>>,
    model: Option<Seq<char>>,
    response_id: Option<Seq<char>>,
    now: i64,
) -> bool {
    &&& after.status@ == status
    &&& after.error == error
    &&& after.response_text@ == finalized_text(before.response_text@, snapshot)
    &&& after.usage == (if usage is Some {
        usage
    } else {
        before.usage
    })
    &&& opt_string_view(after.provider) == given_or(opt_string_view(before.provider), provider)
    &&& opt_string_view(after.model) == given_or(opt_string_view(before.model), model)
    &&& opt_string_view(after.response_id) == given_or(
        opt_string_view(before.response_id),
        response_id,
    )
    &&& after.finished_at == Some(now)
    &&& after.duration_ms == Some(duration_of(before.started_at, Some(now), now))
    &&& blocks_synced(after)
    &&& after == (TraceEntry {
        status: after.status,
        error: after.error,
        response_text: after.response_text,
        usage: after.usage,
        provider: after.provider,
        model: after.model,
        response_id: after.response_id,
        finished_at: after.finished_at,
        duration_ms: after.duration_ms,
        message_blocks: after.message_blocks,
        response_blocks: after.response_blocks,
        ..before
    })
}

fn given_string(current: &mut Option<String>, update: Option<String>)
    ensures
        opt_string_view(*final(current)) == given_or(opt_string_view(*old(current)), opt_string_view(update)),
{
    match update {
        Some(u) => {
            if !u.as_str().is_empty() {
                *current = Some(u);
            }
        },
        None => {},
    }
}

/// Finishes an entry: sets its outcome, keeps the longer reply text, takes the given usage,
/// provider, model and response id, and stamps the finish time and duration.
pub fn finalize_entry(
    entry: &mut TraceEntry,
    status: &str,
    error: Option<String>,
    snapshot: Option<String>,
    usage: Option<TraceUsage>,
    provider: Option<String>,
    model: Option<String>,
    response_id: Option<String>,
    now: i64,
)
    ensures
        is_finalized(
            *old(entry),
            *final(entry),
            status@,
            error,
            opt_string_view(snapshot),
            usage,
            opt_string_view(provider),
            opt_string_view(model),
            opt_string_view(response_id),
            now,
        ),
{
    entry.status = status.to_owned();
    entry.error = error;
    match snapshot {
        Some(text) => {
            let new_len = str_chars(text.as_str()).len();
            let cur_len = str_chars(entry.response_text.as_str()).len();
            if new_len > 0 && new_len > cur_len {
                entry.response_text = text;
            }
        },
        None => {},
    }
    if usage.is_some() {
        entry.usage = usage;
    }
    given_string(&mut entry.provider, provider);
    given_string(&mut entry.model, model);
    given_string(&mut entry.response_id, response_id);
    entry.finished_at = Some(now);
    entry.touch_duration(now);
    entry.sync_structured_blocks();
}

/// Whether an entry belongs to the given scope.
pub open spec fn entry_in_scope(
    e: TraceEntry,
    workspace_id: Option<Seq<char>>,
    session_id: Option<Seq<char>>,
) -> bool {
    in_scope(opt_string_view(e.workspace_id), opt_string_view(e.session_id), workspace_id, session_id)
}

/// The entries left after clearing a scope, in order.
pub open spec fn kept_after_clear(
    s: Seq<TraceEntry>,
    workspace_id: Option<Seq<char>>,
    session_id: Option<Seq<char>>,
) -> Seq<TraceEntry> {
    s.filter(|e: TraceEntry| !entry_in_scope(e, workspace_id, session_id))
}

/// The entries of a scope, in order.
pub open spec fn in_scope_entries(
    s: Seq<TraceEntry>,
    workspace_id: Option<Seq<char>>,
    session_id: Option<Seq<char>>,
) -> Seq<TraceEntry> {
    s.filter(|e: TraceEntry| entry_in_scope(e, workspace_id, session_id))
}

pub proof fn lemma_update_keeps_distinct(s: Seq<TraceEntry>, i: int, e: TraceEntry)
    requires
        distinct_ids(s),
        0 <= i < s.len(),
        e.id@ == s[i].id@,
    ensures
        distinct_ids(s.update(i, e)),
{
    let t = s.update(i, e);
    assert forall|a: int, b: int| 0 <= a < b < t.len() implies #[trigger] t[a].id@ != #[trigger] t[b].id@ by {
        assert(t[a].id@ == s[a].id@);
        assert(t[b].id@ == s[b].id@);
    }
}

pub proof fn lemma_remove_keeps_distinct(s: Seq<TraceEntry>, i: int)
    requires
        distinct_ids(s),
        0 <= i < s.len(),
    ensures
        distinct_ids(s.remove(i)),
        forall|j: int| 0 <= j < s.remove(i).len() ==> s.remove(i)[j].id@ != s[i].id@,
{
    let t = s.remove(i);
    assert forall|j: int| 0 <= j < t.len() implies t[j] == (if j < i { s[j] } else { s[j + 1] }) by {}
    assert forall|a: int, b: int| 0 <= a < b < t.len() implies #[trigger] t[a].id@ != #[trigger] t[b].id@ by {
        let a2 = if a < i { a } else { a + 1 };
        let b2 = if b < i { b } else { b + 1 };
        assert(t[a] == s[a2]);
        assert(t[b] == s[b2]);
    }
    assert forall|j: int| 0 <= j < t.len() implies t[j].id@ != s[i].id@ by {
        let j2 = if j < i { j } else { j + 1 };
        assert(t[j] == s[j2]);
    }
}

impl TraceRegistry {
    /// Records a tool call event on a running trace (see `record_tool_call`); says whether the
    /// trace was found.
    pub fn record_tool(
        &mut self,
        trace_id: &str,
        tool_call_id: &str,
        tool_name: &str,
        args_json: Option<&str>,
        result_text: Option<&str>,
        status: &str,
        is_error: Option<bool>,
        now: i64,
    ) -> (found: bool)
        requires
            old(self).wf(),
        ensures
            final(self).wf(),
            final(self).latest_main == old(self).latest_main,
            found == (trace_id@.len() > 0 && trace_index(old(self).entries@, trace_id@) >= 0),
            !found ==> final(self).entries@ == old(self).entries@,
            found ==> ({
                let i = trace_index(old(self).entries@, trace_id@);
                let e = final(self).entries@[i];
                &&& final(self).entries@ == old(self).entries@.update(i, e)
                &&& tool_calls_view(e.tool_calls@) == recorded_tools(
                    tool_calls_view(old(self).entries@[i].tool_calls@),
                    tool_call_id@,
                    tool_name@,
                    opt_str_view(args_json),
                    opt_str_view(result_text),
                    status@,
                    is_error,
                    now,
                )
                &&& blocks_synced(e)
                &&& e == (TraceEntry {
                    tool_calls: e.tool_calls,
                    message_blocks: e.message_blocks,
                    response_blocks: e.response_blocks,
                    ..old(self).entries@[i]
                })
            }),
    {
        if trace_id.is_empty() {
            return false;
        }
        match self.find(trace_id) {
            None => false,
            Some(i) => {
                let ghost before = self.entries@;
                let mut e = self.entries.remove(i);
                record_tool_call(&mut e, tool_call_id, tool_name, args_json, result_text, status, is_error, now);
                let ghost ne = e;
                self.entries.insert(i, e);
                assert(self.entries@ =~= before.update(i as int, ne));
                proof {
                    lemma_update_keeps_distinct(before, i as int, ne);
                }
                true
            },
        }
    }

    /// Appends a reply text delta to a running trace; says whether anything changed.
    pub fn append_response(&mut self, trace_id: &str, delta: &str) -> (changed: bool)
        requires
            old(self).wf(),
        ensures
            final(self).wf(),
            final(self).latest_main == old(self).latest_main,
            changed == (trace_id@.len() > 0 && delta@.len() > 0 && trace_index(old(self).entries@, trace_id@) >= 0),
            !changed ==> final(self).entries@ == old(self).entries@,
            changed ==> ({
                let i = trace_index(old(self).entries@, trace_id@);
                let e = final(self).entries@[i];
                &&& final(self).entries@ == old(self).entries@.update(i, e)
                &&& e.response_text@ == old(self).entries@[i].response_text@ + delta@
                &&& blocks_synced(e)
                &&& e == (TraceEntry {
                    response_text: e.response_text,
                    message_blocks: e.message_blocks,
                    response_blocks: e.response_blocks,
                    ..old(self).entries@[i]
                })
            }),
    {
        if trace_id.is_empty() || delta.is_empty() {
            return false;
        }
        match self.find(trace_id) {
            None => false,
            Some(i) => {
                let ghost before = self.entries@;
                let mut e = self.entries.remove(i);
                append_response_delta(&mut e, delta);
                e.sync_structured_blocks();
                let ghost ne = e;
                self.entries.insert(i, e);
                assert(self.entries@ =~= before.update(i as int, ne));
                proof {
                    lemma_update_keeps_distinct(before, i as int, ne);
                }
                true
            },
        }
    }

    /// Appends a thinking text delta to a running trace; says whether anything changed.
    pub fn append_thinking(&mut self, trace_id: &str, delta: &str) -> (changed: bool)
        requires
            old(self).wf(),
        ensures
            final(self).wf(),
            final(self).latest_main == old(self).latest_main,
            changed == (trace_id@.len() > 0 && delta@.len() > 0 && trace_index(old(self).entries@, trace_id@) >= 0),
            !changed ==> final(self).entries@ == old(self).entries@,
            changed ==> ({
                let i = trace_index(old(self).entries@, trace_id@);
                let e = final(self).entries@[i];
                &&& final(self).entries@ == old(self).entries@.update(i, e)
                &&& e.thinking_text@ == old(self).entries@[i].thinking_text@ + delta@
                &&& blocks_synced(e)
                &&& e == (TraceEntry {
                    thinking_text: e.thinking_text,
                    message_blocks: e.message_blocks,
                    response_blocks: e.response_blocks,
                    ..old(self).entries@[i]
                })
            }),
    {
        if trace_id.is_empty() || delta.is_empty() {
            return false;
        }
        match self.find(trace_id) {
            None => false,
            Some(i) => {
                let ghost before = self.entries@;
                let mut e = self.entries.remove(i);
                append_thinking_delta(&mut e, delta);
                e.sync_structured_blocks();
                let ghost ne = e;
                self.entries.insert(i, e);
                assert(self.entries@ =~= before.update(i as int, ne));
                proof {
                    lemma_update_keeps_distinct(before, i as int, ne);
                }
                true
            },
        }
    }

    /// Takes a running trace out of the registry and finishes it (see `finalize_entry`).
    pub fn finalize(
        &mut self,
        trace_id: &str,
        status: &str,
        error: Option<String>,
        snapshot: Option<String>,
        usage: Option<TraceUsage>,
        provider: Option<String>,
        model: Option<String>,
        response_id: Option<String>,
        now: i64,
    ) -> (r: Option<TraceEntry>)
        requires
            old(self).wf(),
        ensures
            final(self).wf(),
            final(self).latest_main == old(self).latest_main,
            r is Some == (trace_id@.len() > 0 && trace_index(old(self).entries@, trace_id@) >= 0),
            r is None ==> final(self).entries@ == old(self).entries@,
            r is Some ==> trace_index(final(self).entries@, trace_id@) < 0,
            r matches Some(e) ==> ({
                let i = trace_index(old(self).entries@, trace_id@);
                &&& final(self).entries@ == old(self).entries@.remove(i)
                &&& is_finalized(
                    old(self).entries@[i],
                    e,
                    status@,
                    error,
                    opt_string_view(snapshot),
                    usage,
                    opt_string_view(provider),
                    opt_string_view(model),
                    opt_string_view(response_id),
                    now,
                )
            }),
    {
        if trace_id.is_empty() {
            return None;
        }
        match self.find(trace_id) {
            None => None,
            Some(i) => {
                let ghost before = self.entries@;
                let mut e = self.entries.remove(i);
                proof {
                    lemma_trace_index(before, trace_id@);
                    lemma_remove_keeps_distinct(before, i as int);
                    lemma_trace_index(self.entries@, trace_id@);
                }
                finalize_entry(&mut e, status, error, snapshot, usage, provider, model, response_id, now);
                Some(e)
            },
        }
    }

    /// The running traces of a scope, in order.
    pub fn running_in_scope(&self, workspace_id: Option<&str>, session_id: Option<&str>) -> (r: Vec<&TraceEntry>)
        ensures
            r@.map_values(|e: &TraceEntry| *e) == in_scope_entries(
                self.entries@,
                opt_str_view(workspace_id),
                opt_str_view(session_id),
            ),
    {
        let ghost s = self.entries@;
        let ghost ws = opt_str_view(workspace_id);
        let ghost sid = opt_str_view(session_id);
        let mut out: Vec<&TraceEntry> = Vec::new();
        let mut i: usize = 0;
        while i < self.entries.len()
            invariant
                i <= self.entries.len(),
                s == self.entries@,
                ws == opt_str_view(workspace_id),
                sid == opt_str_view(session_id),
                out@.map_values(|e: &TraceEntry| *e) == in_scope_entries(s.take(i as int), ws, sid),
            decreases self.entries.len() - i,
        {
            let ghost before = out@.map_values(|e: &TraceEntry| *e);
            assert(s.take(i + 1).drop_last() =~= s.take(i as int));
            assert(s.take(i + 1).last() == s[i as int]);
            reveal_with_fuel(Seq::filter, 1);
            let e = &self.entries[i];
            if e.matches_scope(workspace_id, session_id) {
                out.push(e);
                assert(out@.map_values(|e: &TraceEntry| *e) =~= before.push(s[i as int]));
            }
            i = i + 1;
        }
        assert(s.take(self.entries.len() as int) =~= s);
        out
    }

    /// Drops the running traces of a scope.
    pub fn clear_scope(&mut self, workspace_id: Option<&str>, session_id: Option<&str>)
        requires
            old(self).wf(),
        ensures
            final(self).wf(),
            final(self).latest_main == old(self).latest_main,
            final(self).entries@ == kept_after_clear(
                old(self).entries@,
                opt_str_view(workspace_id),
                opt_str_view(session_id),
            ),
    {
        let ghost orig = self.entries@;
        let ghost ws = opt_str_view(workspace_id);
        let ghost sid = opt_str_view(session_id);
        let total = self.entries.len();
        let mut rest: Vec<TraceEntry> = Vec::new();
        std::mem::swap(&mut rest, &mut self.entries);
        let mut kept: Vec<TraceEntry> = Vec::new();
        let mut taken: usize = 0;
        while rest.len() > 0
            invariant
                taken + rest.len() == total,
                total == orig.len(),
                rest@ == orig.skip(taken as int),
                ws == opt_str_view(workspace_id),
                sid == opt_str_view(session_id),
                kept@ == kept_after_clear(orig.take(taken as int), ws, sid),
                distinct_ids(orig),
                distinct_ids(kept@),
                forall|k: int, m: int|
                    #![trigger kept@[k], orig[m]]
                    0 <= k < kept@.len() && taken <= m < orig.len() ==> kept@[k].id@ != orig[m].id@,
            decreases rest.len(),
        {
            let ghost before = kept@;
            let e = rest.remove(0);
            assert(e == orig[taken as int]);
            assert(rest@ =~= orig.skip(taken + 1));
            assert(orig.take(taken + 1).drop_last() =~= orig.take(taken as int));
            assert(orig.take(taken + 1).last() == orig[taken as int]);
            reveal_with_fuel(Seq::filter, 1);
            if !e.matches_scope(workspace_id, session_id) {
                kept.push(e);
                assert(kept@ =~= before.push(orig[taken as int]));
                assert forall|k: int, m: int|
                    #![trigger kept@[k], orig[m]]
                    0 <= k < kept@.len() && taken + 1 <= m < orig.len() implies kept@[k].id@ != orig[m].id@ by {
                    if k < before.len() {
                        assert(kept@[k] == before[k]);
                    } else {
                        assert(kept@[k] == orig[taken as int]);
                    }
                }
                assert forall|a: int, b: int| #![trigger kept@[a], kept@[b]] 0 <= a < b < kept@.len() implies kept@[a].id@ != kept@[b].id@ by {
                    if b < before.len() {
                        assert(kept@[a] == before[a]);
                        assert(kept@[b] == before[b]);
                    } else {
                        assert(kept@[a] == before[a]);
                        assert(kept@[b] == orig[taken as int]);
                    }
                }
            }
            taken = taken + 1;
        }
        assert(orig.take(orig.len() as int) =~= orig);
        self.entries = kept;
    }
}


/// `e` placed after every entry that started no earlier than it, before the first that started
/// earlier.
pub open spec fn insert_by_start(sorted: Seq<TraceEntry>, e: TraceEntry) -> Seq<TraceEntry>
    decreases sorted.len(),
{
    if sorted.len() == 0 {
        seq![e]
    } else if sorted[0].started_at < e.started_at {
        seq![e] + sorted
    } else {
        seq![sorted[0]] + insert_by_start(sorted.drop_first(), e)
    }
}

/// The entries ordered newest first; entries that started at the same time keep their order.
pub open spec fn newest_first_order(s: Seq<TraceEntry>) -> Seq<TraceEntry>
    decreases s.len(),
{
    if s.len() == 0 {
        s
    } else {
        insert_by_start(newest_first_order(s.drop_last()), s.last())
    }
}

/// Position of the first entry that started before `t`, or the length.
pub open spec fn first_earlier(s: Seq<TraceEntry>, t: i64) -> int
    decreases s.len(),
{
    if s.len() == 0 {
        0
    } else if s[0].started_at < t {
        0
    } else {
        1 + first_earlier(s.drop_first(), t)
    }
}

/// Every entry started no earlier than the ones after it.
pub open spec fn is_newest_first(s: Seq<TraceEntry>) -> bool {
    forall|i: int, j: int| #![trigger s[i], s[j]] 0 <= i < j < s.len() ==> s[i].started_at >= s[j].started_at
}

pub proof fn lemma_insert_by_start(s: Seq<TraceEntry>, e: TraceEntry)
    ensures
        0 <= first_earlier(s, e.started_at) <= s.len(),
        forall|j: int| 0 <= j < first_earlier(s, e.started_at) ==> s[j].started_at >= e.started_at,
        first_earlier(s, e.started_at) < s.len() ==> s[first_earlier(s, e.started_at)].started_at
            < e.started_at,
        insert_by_start(s, e) == s.insert(first_earlier(s, e.started_at), e),
    decreases s.len(),
{
    if s.len() == 0 {
        assert(s.insert(0, e) =~= seq![e]);
    } else if s[0].started_at < e.started_at {
        assert(s.insert(0, e) =~= seq![e] + s);
    } else {
        let t = s.drop_first();
        lemma_insert_by_start(t, e);
        let p = first_earlier(t, e.started_at);
        assert forall|j: int| 1 <= j < s.len() implies s[j] == t[j - 1] by {}
        assert(s.insert(p + 1, e) =~= seq![s[0]] + t.insert(p, e));
    }
}

/// Ordering newest first keeps every entry and sorts them.
pub proof fn lemma_newest_first_sorted(s: Seq<TraceEntry>)
    ensures
        is_newest_first(newest_first_order(s)),
        newest_first_order(s).to_multiset() == s.to_multiset(),
        newest_first_order(s).len() == s.len(),
    decreases s.len(),
{
    broadcast use vstd::seq_lib::to_multiset_insert, vstd::seq_lib::to_multiset_build, vstd::seq_lib::to_multiset_len;
    if s.len() > 0 {
        let d = s.drop_last();
        let o = newest_first_order(d);
        let e = s.last();
        lemma_newest_first_sorted(d);
        lemma_insert_by_start(o, e);
        let p = first_earlier(o, e.started_at);
        let r = o.insert(p, e);
        assert(s =~= d.push(e));
        assert forall|i: int, j: int| #![trigger r[i], r[j]] 0 <= i < j < r.len() implies r[i].started_at >= r[j].started_at by {
            if j < p {
                assert(r[i] == o[i] && r[j] == o[j]);
            } else if j == p {
                assert(r[i] == o[i]);
            } else if i < p {
                assert(r[i] == o[i] && r[j] == o[j - 1]);
            } else if i == p {
                assert(r[j] == o[j - 1]);
                assert(o[p].started_at >= o[j - 1].started_at);
            } else {
                assert(r[i] == o[i - 1] && r[j] == o[j - 1]);
            }
        }
    }
}

/// Orders traces newest first (entries that started together keep their order) and keeps at
/// most `limit` of them.
pub fn newest_first(entries: Vec<TraceEntry>, limit: usize) -> (r: Vec<TraceEntry>)
    ensures
        r@ == newest_first_order(entries@).take(
            if limit <= entries@.len() {
                limit as int
            } else {
                entries@.len() as int
            },
        ),
{
    let ghost orig = entries@;
    let total = entries.len();
    let mut rest = entries;
    let mut out: Vec<TraceEntry> = Vec::new();
    let mut taken: usize = 0;
    while rest.len() > 0
        invariant
            taken + rest.len() == total,
            total == orig.len(),
            rest@ == orig.skip(taken as int),
            out@ == newest_first_order(orig.take(taken as int)),
        decreases rest.len(),
    {
        let e = rest.remove(0);
        assert(e == orig[taken as int]);
        assert(rest@ =~= orig.skip(taken + 1));
        assert(orig.take(taken + 1).drop_last() =~= orig.take(taken as int));
        assert(orig.take(taken + 1).last() == orig[taken as int]);
        proof {
            lemma_insert_by_start(out@, e);
        }
        let mut p: usize = 0;
        while p < out.len() && out[p].started_at >= e.started_at
            invariant
                p <= out.len(),
                forall|j: int| 0 <= j < p ==> out@[j].started_at >= e.started_at,
                0 <= first_earlier(out@, e.started_at) <= out@.len(),
                forall|j: int| 0 <= j < first_earlier(out@, e.started_at) ==> out@[j].started_at >= e.started_at,
                first_earlier(out@, e.started_at) < out@.len() ==> out@[first_earlier(out@, e.started_at)].started_at < e.started_at,
            decreases out.len() - p,
        {
            p = p + 1;
        }
        assert(p == first_earlier(out@, e.started_at));
        out.insert(p, e);
        taken = taken + 1;
    }
    assert(orig.take(total as int) =~= orig);
    let ghost sorted = out@;
    proof {
        lemma_newest_first_sorted(orig);
    }
    out.truncate(limit);
    assert(out@ =~= sorted.take(
        if limit <= orig.len() {
            limit as int
        } else {
            orig.len() as int
        },
    ));
    out
}


/// The non-blank lines, trimmed, in order.
pub open spec fn nonblank_trimmed(ls: Seq<Seq<char>>) -> Seq<Seq<char>>
    decreases ls.len(),
{
    if ls.len() == 0 {
        Seq::empty()
    } else {
        let prev = nonblank_trimmed(ls.drop_last());
        if trim(ls.last()).len() > 0 {
            prev.push(trim(ls.last()))
        } else {
            prev
        }
    }
}

/// The records of a trace file: its non-blank lines, trimmed.
pub fn trace_file_lines(content: &str) -> (r: Vec<String>)
    ensures
        r@.map_values(|l: String| l@) == nonblank_trimmed(lines(content@)),
{
    let chars = str_chars(content);
    let ls = split_lines(&chars);
    let ghost lv = ls@.map_values(|l: Vec<char>| l@);
    let mut out: Vec<String> = Vec::new();
    let mut i: usize = 0;
    while i < ls.len()
        invariant
            i <= ls.len(),
            lv == ls@.map_values(|l: Vec<char>| l@),
            lv == lines(content@),
            out@.map_values(|l: String| l@) == nonblank_trimmed(lv.take(i as int)),
        decreases ls.len() - i,
    {
        let ghost before = out@.map_values(|l: String| l@);
        assert(lv.take(i + 1).drop_last() =~= lv.take(i as int));
        assert(lv.take(i + 1).last() == ls@[i as int]@);
        let t = trim_vec(&ls[i]);
        if t.len() > 0 {
            out.push(chars_to_string(&t));
            assert(out@.map_values(|l: String| l@) =~= before.push(t@));
        }
        i = i + 1;
    }
    assert(lv.take(ls.len() as int) =~= lv);
    out
}

/// The lines a scope clear keeps: those that do not hold a trace, and traces of other scopes.
pub open spec fn kept_trace_lines(
    ls: Seq<Seq<char>>,
    parsed: Seq<Option<TraceEntry>>,
    workspace_id: Option<Seq<char>>,
    session_id: Option<Seq<char>>,
) -> Seq<Seq<char>>
    decreases ls.len(),
{
    if ls.len() == 0 || parsed.len() == 0 {
        Seq::empty()
    } else {
        let prev = kept_trace_lines(ls.drop_last(), parsed.drop_last(), workspace_id, session_id);
        match parsed.last() {
            Some(e) => if entry_in_scope(e, workspace_id, session_id) {
                prev
            } else {
                prev.push(ls.last())
            },
            None => prev.push(ls.last()),
        }
    }
}

/// What clearing a scope does to a trace file.
#[derive(Debug, Clone, PartialEq, Eq)]
pub enum TraceFileAction {
    Remove,
    Rewrite(String),
}

/// Decides what clearing a scope does to one trace file, given its records and what each
/// parsed to: clearing a whole workspace removes every file; otherwise the records of the scope
/// are dropped and the file is removed when nothing is left.
pub fn clear_trace_file(
    workspace_id: Option<&str>,
    session_id: Option<&str>,
    records: &Vec<String>,
    parsed: &Vec<Option<TraceEntry>>,
) -> (r: TraceFileAction)
    requires
        records.len() == parsed.len(),
    ensures
        ({
            let kept = kept_trace_lines(
                records@.map_values(|l: String| l@),
                parsed@,
                opt_str_view(workspace_id),
                opt_str_view(session_id),
            );
            if session_id is None && workspace_id is Some {
                r is Remove
            } else if kept.len() == 0 {
                r is Remove
            } else {
                r matches TraceFileAction::Rewrite(text) && text@ == join(kept, "\n"@) + "\n"@
            }
        }),
{
    if session_id.is_none() && workspace_id.is_some() {
        return TraceFileAction::Remove;
    }
    let ghost rv = records@.map_values(|l: String| l@);
    let ghost ws = opt_str_view(workspace_id);
    let ghost sid = opt_str_view(session_id);
    let mut kept: Vec<Vec<char>> = Vec::new();
    let mut i: usize = 0;
    while i < records.len()
        invariant
            i <= records.len(),
            records.len() == parsed.len(),
            rv == records@.map_values(|l: String| l@),
            ws == opt_str_view(workspace_id),
            sid == opt_str_view(session_id),
            kept@.map_values(|l: Vec<char>| l@) == kept_trace_lines(
                rv.take(i as int),
                parsed@.take(i as int),
                ws,
                sid,
            ),
        decreases records.len() - i,
    {
        let ghost before = kept@.map_values(|l: Vec<char>| l@);
        assert(rv.take(i + 1).drop_last() =~= rv.take(i as int));
        assert(parsed@.take(i + 1).drop_last() =~= parsed@.take(i as int));
        assert(rv.take(i + 1).last() == records@[i as int]@);
        assert(parsed@.take(i + 1).last() == parsed@[i as int]);
        let keep = match &parsed[i] {
            Some(e) => !e.matches_scope(workspace_id, session_id),
            None => true,
        };
        if keep {
            kept.push(str_chars(records[i].as_str()));
            assert(kept@.map_values(|l: Vec<char>| l@) =~= before.push(records@[i as int]@));
        }
        i = i + 1;
    }
    assert(rv.take(records.len() as int) =~= rv);
    assert(parsed@.take(records.len() as int) =~= parsed@);
    if kept.len() == 0 {
        return TraceFileAction::Remove;
    }
    let nl = str_chars("\n");
    let mut text = join_vecs(&kept, &nl);
    text.push('\n');
    proof {
        reveal_strlit("\n");
    }
    TraceFileAction::Rewrite(chars_to_string(&text))
}

/// The parsed traces that belong to a scope, in order.
pub open spec fn scoped_traces(
    parsed: Seq<Option<TraceEntry>>,
    workspace_id: Option<Seq<char>>,
    session_id: Option<Seq<char>>,
) -> Seq<TraceEntry>
    decreases parsed.len(),
{
    if parsed.len() == 0 {
        Seq::empty()
    } else {
        let prev = scoped_traces(parsed.drop_last(), workspace_id, session_id);
        match parsed.last() {
            Some(e) => if entry_in_scope(e, workspace_id, session_id) {
                prev.push(e)
            } else {
                prev
            },
            None => prev,
        }
    }
}

/// Keeps the parsed traces of a scope, dropping records that did not parse.
pub fn scoped_trace_entries(
    parsed: Vec<Option<TraceEntry>>,
    workspace_id: Option<&str>,
    session_id: Option<&str>,
) -> (r: Vec<TraceEntry>)
    ensures
        r@ == scoped_traces(parsed@, opt_str_view(workspace_id), opt_str_view(session_id)),
{
    let ghost orig = parsed@;
    let ghost ws = opt_str_view(workspace_id);
    let ghost sid = opt_str_view(session_id);
    let total = parsed.len();
    let mut rest = parsed;
    let mut out: Vec<TraceEntry> = Vec::new();
    let mut taken: usize = 0;
    while rest.len() > 0
        invariant
            taken + rest.len() == total,
            total == orig.len(),
            rest@ == orig.skip(taken as int),
            ws == opt_str_view(workspace_id),
            sid == opt_str_view(session_id),
            out@ == scoped_traces(orig.take(taken as int), ws, sid),
        decreases rest.len(),
    {
        let item = rest.remove(0);
        assert(item == orig[taken as int]);
        assert(rest@ =~= orig.skip(taken + 1));
        assert(orig.take(taken + 1).drop_last() =~= orig.take(taken as int));
        assert(orig.take(taken + 1).last() == orig[taken as int]);
        match item {
            Some(e) => {
                if e.matches_scope(workspace_id, session_id) {
                    out.push(e);
                }
            },
            None => {},
        }
        taken = taken + 1;
    }
    assert(orig.take(total as int) =~= orig);
    out
}

} // verus!

verus! {

proof fn lemma_remember_main_sets(
    m: Seq<MainView>,
    workspace_id: Option<Seq<char>>,
    session_id: Option<Seq<char>>,
    main_id: Seq<char>,
)
    requires
        non_blank(session_id) is Some,
    ensures
        latest_main_in(remember_main(m, "main_pi"@, workspace_id, session_id, main_id), workspace_id, session_id)
            == Some(main_id),
{
    let b = scope_bucket(workspace_id);
    let s = non_blank(session_id).unwrap();
    lemma_main_index(m, b, s);
    let i = main_index(m, b, s);
    let r = remember_main(m, "main_pi"@, workspace_id, session_id, main_id);
    lemma_main_index(r, b, s);
    if i >= 0 {
        assert forall|j: int| 0 <= j < i implies !(r[j].0 == b && r[j].1 == s) by {
            assert(r[j] == m[j]);
        }
        assert(r[i] == (b, s, main_id));
        assert(main_index(r, b, s) == i);
    } else {
        assert forall|j: int| 0 <= j < m.len() implies !(r[j].0 == b && r[j].1 == s) by {
            assert(r[j] == m[j]);
        }
        assert(r[m.len() as int] == (b, s, main_id));
        assert(main_index(r, b, s) == m.len());
    }
}

/// How starting a trace bears on the remembered main traces: a trace other than a main trace is
/// linked to the latest main trace of its scope and session; a main trace with a session becomes
/// that latest one; every other scope and session keeps its latest main trace.
pub proof fn lemma_begin_latest_main(
    m: Seq<MainView>,
    kind: Seq<char>,
    workspace_id: Option<Seq<char>>,
    session_id: Option<Seq<char>>,
    id: Seq<char>,
)
    ensures
        parent_of(m, kind, workspace_id, session_id) == if kind == "main_pi"@ {
            None
        } else {
            latest_main_in(m, workspace_id, session_id)
        },
        kind == "main_pi"@ && non_blank(session_id) is Some ==> latest_main_in(
            remember_main(m, kind, workspace_id, session_id, id),
            workspace_id,
            session_id,
        ) == Some(id),
        forall|other_workspace_id: Option<Seq<char>>, other_session_id: Option<Seq<char>>|
            !(kind == "main_pi"@ && same_main_key(workspace_id, session_id, other_workspace_id, other_session_id))
                ==> #[trigger] latest_main_in(
                remember_main(m, kind, workspace_id, session_id, id),
                other_workspace_id,
                other_session_id,
            ) == latest_main_in(m, other_workspace_id, other_session_id),
{
    if kind == "main_pi"@ && non_blank(session_id) is Some {
        lemma_remember_main_sets(m, workspace_id, session_id, id);
    }
    assert forall|other_workspace_id: Option<Seq<char>>, other_session_id: Option<Seq<char>>|
        !(kind == "main_pi"@ && same_main_key(workspace_id, session_id, other_workspace_id, other_session_id))
            implies #[trigger] latest_main_in(
            remember_main(m, kind, workspace_id, session_id, id),
            other_workspace_id,
            other_session_id,
        ) == latest_main_in(m, other_workspace_id, other_session_id) by {
        if let Some(s2) = non_blank(other_session_id) {
            lemma_other_begin_keeps_lookup(m, (kind, workspace_id, session_id, id), scope_bucket(other_workspace_id), s2);
        }
    }
}

/// After a main trace starts in a session, a trace of another kind started in the same session
/// and scope is linked to it.
pub proof fn lemma_started_after_main_links_to_it(
    m: Seq<MainView>,
    workspace_id: Option<Seq<char>>,
    session_id: Option<Seq<char>>,
    main_id: Seq<char>,
    kind: Seq<char>,
)
    requires
        non_blank(session_id) is Some,
        kind != "main_pi"@,
    ensures
        parent_of(remember_main(m, "main_pi"@, workspace_id, session_id, main_id), kind, workspace_id, session_id)
            == Some(main_id),
{
    lemma_remember_main_sets(m, workspace_id, session_id, main_id);
}


/// One started trace as it bears on the remembered main traces: kind, workspace, session, id.
pub type BeginView = (Seq<char>, Option<Seq<char>>, Option<Seq<char>>, Seq<char>);

/// The remembered main traces after starting the given traces in order (the registry's other
/// operations leave them as they are).
pub open spec fn remember_all(m: Seq<MainView>, begins: Seq<BeginView>) -> Seq<MainView>
    decreases begins.len(),
{
    if begins.len() == 0 {
        m
    } else {
        remember_all(
            remember_main(m, begins[0].0, begins[0].1, begins[0].2, begins[0].3),
            begins.drop_first(),
        )
    }
}

/// Whether a started trace is a main trace of bucket `b` and session `s`.
pub open spec fn is_main_of(begin: BeginView, b: Seq<char>, s: Seq<char>) -> bool {
    begin.0 == "main_pi"@ && non_blank(begin.2) == Some(s) && scope_bucket(begin.1) == b
}

proof fn lemma_same_keys_same_lookup(m: Seq<MainView>, r: Seq<MainView>, b: Seq<char>, s: Seq<char>)
    requires
        m.len() <= r.len(),
        forall|j: int| 0 <= j < m.len() ==> ((#[trigger] r[j]).0 == b && r[j].1 == s) == (m[j].0 == b
            && m[j].1 == s),
        forall|j: int| 0 <= j < m.len() && m[j].0 == b && m[j].1 == s ==> #[trigger] r[j] == m[j],
        forall|j: int| m.len() <= j < r.len() ==> !((#[trigger] r[j]).0 == b && r[j].1 == s),
    ensures
        main_lookup(r, b, s) == main_lookup(m, b, s),
{
    lemma_main_index(m, b, s);
    lemma_main_index(r, b, s);
    let x = main_index(m, b, s);
    let y = main_index(r, b, s);
    if x >= 0 {
        assert(r[x].0 == b && r[x].1 == s);
        assert(y >= 0 && y <= x);
        assert(y < m.len());
        assert(m[y].0 == b && m[y].1 == s);
        assert(x <= y);
    } else if y >= 0 {
        if y < m.len() {
            assert(m[y].0 == b && m[y].1 == s);
        }
    }
}

proof fn lemma_other_begin_keeps_lookup(m: Seq<MainView>, begin: BeginView, b: Seq<char>, s: Seq<char>)
    requires
        !is_main_of(begin, b, s),
    ensures
        main_lookup(remember_main(m, begin.0, begin.1, begin.2, begin.3), b, s) == main_lookup(m, b, s),
{
    let r = remember_main(m, begin.0, begin.1, begin.2, begin.3);
    if begin.0 == "main_pi"@ {
        if let Some(s2) = non_blank(begin.2) {
            let b2 = scope_bucket(begin.1);
            lemma_main_index(m, b2, s2);
            let i = main_index(m, b2, s2);
            assert(!(b2 == b && s2 == s));
            if i >= 0 {
                assert forall|j: int| 0 <= j < m.len() && m[j].0 == b && m[j].1 == s implies #[trigger] r[j]
                    == m[j] by {
                    if j == i {
                        assert(m[i].0 == b2 && m[i].1 == s2);
                    }
                }
            }
            lemma_same_keys_same_lookup(m, r, b, s);
        }
    }
}

proof fn lemma_lookup_survives(m: Seq<MainView>, begins: Seq<BeginView>, b: Seq<char>, s: Seq<char>)
    requires
        forall|j: int| 0 <= j < begins.len() ==> !is_main_of(#[trigger] begins[j], b, s),
    ensures
        main_lookup(remember_all(m, begins), b, s) == main_lookup(m, b, s),
    decreases begins.len(),
{
    if begins.len() > 0 {
        let m2 = remember_main(m, begins[0].0, begins[0].1, begins[0].2, begins[0].3);
        lemma_other_begin_keeps_lookup(m, begins[0], b, s);
        assert forall|j: int| 0 <= j < begins.drop_first().len() implies !is_main_of(
            #[trigger] begins.drop_first()[j],
            b,
            s,
        ) by {
            assert(begins.drop_first()[j] == begins[j + 1]);
        }
        lemma_lookup_survives(m2, begins.drop_first(), b, s);
    }
}

/// A trace of another kind started in a session and scope is linked to the latest main trace
/// started there, however many other traces were started in between (none of them a main trace
/// of that session and scope); a main trace itself gets no parent.
pub proof fn lemma_delegated_links_to_latest_main(
    m: Seq<MainView>,
    workspace_id: Option<Seq<char>>,
    session_id: Option<Seq<char>>,
    main_id: Seq<char>,
    between: Seq<BeginView>,
    kind: Seq<char>,
    later_workspace_id: Option<Seq<char>>,
    later_session_id: Option<Seq<char>>,
)
    requires
        non_blank(session_id) is Some,
        scope_bucket(later_workspace_id) == scope_bucket(workspace_id),
        non_blank(later_session_id) == non_blank(session_id),
        forall|j: int| 0 <= j < between.len() ==> !is_main_of(
            #[trigger] between[j],
            scope_bucket(workspace_id),
            non_blank(session_id).unwrap(),
        ),
    ensures
        kind != "main_pi"@ ==> parent_of(
            remember_all(remember_main(m, "main_pi"@, workspace_id, session_id, main_id), between),
            kind,
            later_workspace_id,
            later_session_id,
        ) == Some(main_id),
        parent_of(
            remember_all(remember_main(m, "main_pi"@, workspace_id, session_id, main_id), between),
            "main_pi"@,
            later_workspace_id,
            later_session_id,
        ) is None,
{
    let b = scope_bucket(workspace_id);
    let s = non_blank(session_id).unwrap();
    let m1 = remember_main(m, "main_pi"@, workspace_id, session_id, main_id);
    lemma_lookup_survives(m1, between, b, s);
    if kind != "main_pi"@ {
        lemma_started_after_main_links_to_it(m, workspace_id, session_id, main_id, kind);
    }
}

} // verus!
