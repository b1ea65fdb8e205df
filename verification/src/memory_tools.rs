//! The memory and chat-search tools of the credential proxy: memory namespaces and ids, keyword
//! matching, and search excerpts.
use vstd::prelude::*;
use crate::text::{
    chars_to_string, collapse_whitespace, collapse_ws, contains, contains_chars, has_prefix,
    push_str, slice_to_vec, starts_with, str_chars, trim, trimmed_chars, unicode_lower,
};

verus! {

/// The prefix of an agent's private memory workspace id.
pub open spec fn agent_memory_prefix() -> Seq<char> {
    "__agent_memory__:"@
}

/// The private memory workspace of an agent.
pub fn build_agent_memory_workspace_id(agent_id: &str) -> (r: String)
    ensures
        r@ == agent_memory_prefix() + agent_id@,
{
    let mut out = str_chars("__agent_memory__:");
    push_str(&mut out, agent_id);
    chars_to_string(&out)
}

/// The vector id of a key-value memory: `kv::<key>`.
pub fn kv_memory_vector_id(key: &str) -> (r: String)
    ensures
        r@ == "kv::"@ + key@,
{
    let mut out = str_chars("kv::");
    push_str(&mut out, key);
    chars_to_string(&out)
}

/// The key of a key-value memory vector id, if it is one.
pub fn extract_kv_key_from_vector_id(memory_id: &str) -> (r: Option<String>)
    ensures
        match r {
            Some(k) => starts_with(memory_id@, "kv::"@) && k@ == memory_id@.skip(4),
            None => !starts_with(memory_id@, "kv::"@),
        },
{
    let id = str_chars(memory_id);
    let prefix = str_chars("kv::");
    proof {
        reveal_strlit("kv::");
    }
    if has_prefix(&id, &prefix) {
        let rest = slice_to_vec(&id, 4, id.len());
        assert(rest@ =~= memory_id@.skip(4));
        Some(chars_to_string(&rest))
    } else {
        None
    }
}

/// Where an agent's memory file lives, relative to the workspace root.
pub fn memory_markdown_relative_path(agent_id: &str) -> (r: String)
    ensures
        r@ == "agents/"@ + agent_id@ + "/MEMORY.md"@,
{
    let mut out = str_chars("agents/");
    push_str(&mut out, agent_id);
    push_str(&mut out, "/MEMORY.md");
    chars_to_string(&out)
}

/// The record id of an agent's memory file.
pub fn memory_md_record_id(agent_id: &str) -> (r: String)
    ensures
        r@ == "memory_md_"@ + agent_id@,
{
    let mut out = str_chars("memory_md_");
    push_str(&mut out, agent_id);
    chars_to_string(&out)
}

pub open spec fn opt_view(v: Option<&str>) -> Option<Seq<char>> {
    match v {
        Some(s) => Some(s@),
        None => None,
    }
}

/// A value that is present and not blank (kept as it is, untrimmed).
pub open spec fn present(v: Option<Seq<char>>) -> Option<Seq<char>> {
    match v {
        Some(s) => if trim(s).len() > 0 {
            Some(s)
        } else {
            None
        },
        None => None,
    }
}

fn present_of(v: Option<&str>) -> (r: bool)
    ensures
        r == present(opt_view(v)) is Some,
{
    match v {
        Some(s) => trimmed_chars(s).len() > 0,
        None => false,
    }
}

/// The workspace a memory operation works in: the one the request names, else the session's,
/// else the calling agent's private one; an error when none of them is given (blank values
/// count as none).
pub fn resolve_memory_workspace(
    requested_workspace_id: Option<&str>,
    session_workspace_id: Option<&str>,
    caller_agent_id: Option<&str>,
) -> (r: Result<String, String>)
    ensures
        match present(opt_view(requested_workspace_id)) {
            Some(w) => r matches Ok(x) && x@ == w,
            None => match present(opt_view(session_workspace_id)) {
                Some(w) => r matches Ok(x) && x@ == w,
                None => match present(opt_view(caller_agent_id)) {
                    Some(a) => r matches Ok(x) && x@ == agent_memory_prefix() + a,
                    None => r matches Err(e) && e@ == "workspace_id is required for memory operations"@,
                },
            },
        },
{
    if present_of(requested_workspace_id) {
        return Ok(requested_workspace_id.unwrap().to_owned());
    }
    if present_of(session_workspace_id) {
        return Ok(session_workspace_id.unwrap().to_owned());
    }
    if present_of(caller_agent_id) {
        return Ok(build_agent_memory_workspace_id(caller_agent_id.unwrap()));
    }
    Err("workspace_id is required for memory operations".to_owned())
}

/// The calling agent of a memory file operation, when it is known (not blank).
pub fn resolve_current_agent_id(caller_agent_id: Option<&str>) -> (r: Result<String, String>)
    ensures
        match present(opt_view(caller_agent_id)) {
            Some(a) => r matches Ok(x) && x@ == a,
            None => r matches Err(e) && e@ == "current agent id is unavailable for memory file operations"@,
        },
{
    if present_of(caller_agent_id) {
        Ok(caller_agent_id.unwrap().to_owned())
    } else {
        Err("current agent id is unavailable for memory file operations".to_owned())
    }
}

/// The workspace record that stands for an agent's private memory namespace.
#[derive(Debug, Clone, PartialEq, Eq)]
pub struct MemoryNamespace {
    pub id: String,
    pub name: String,
    pub description: String,
    pub supervisor_agent_id: String,
}

/// The namespace to create for a private memory workspace that does not exist yet: none for
/// other workspaces; its supervisor is the fallback agent when that is not blank, else
/// `memory-agent`.
pub fn memory_namespace_for(workspace_id: &str, fallback_agent_id: Option<&str>) -> (r: Option<
    MemoryNamespace,
>)
    ensures
        !starts_with(workspace_id@, agent_memory_prefix()) ==> r is None,
        starts_with(workspace_id@, agent_memory_prefix()) ==> (r matches Some(ns) && ({
            let agent = match present(opt_view(fallback_agent_id)) {
                Some(a) => a,
                None => "memory-agent"@,
            };
            &&& ns.id@ == workspace_id@
            &&& ns.name@ == "Agent Memory "@ + agent
            &&& ns.description@ == "Implicit agent-private memory namespace"@
            &&& ns.supervisor_agent_id@ == agent
        })),
{
    let id = str_chars(workspace_id);
    let prefix = str_chars("__agent_memory__:");
    if !has_prefix(&id, &prefix) {
        return None;
    }
    let agent: String = if present_of(fallback_agent_id) {
        fallback_agent_id.unwrap().to_owned()
    } else {
        "memory-agent".to_owned()
    };
    let mut name = str_chars("Agent Memory ");
    push_str(&mut name, agent.as_str());
    Some(
        MemoryNamespace {
            id: workspace_id.to_owned(),
            name: chars_to_string(&name),
            description: "Implicit agent-private memory namespace".to_owned(),
            supervisor_agent_id: agent,
        },
    )
}

/// A search keyword: trimmed and lower-cased.
pub open spec fn search_keyword(value: Seq<char>) -> Seq<char> {
    unicode_lower(trim(value))
}

/// Normalises a search keyword.
pub fn normalize_search_keyword(value: &str) -> (r: String)
    ensures
        r@ == search_keyword(value@),
{
    let t = chars_to_string(&trimmed_chars(value));
    crate::text::to_lowercase(t.as_str())
}

/// Whether a text matches a (normalised) keyword: the keyword is not empty and occurs in the
/// lower-cased text.
pub open spec fn keyword_matches(haystack: Seq<char>, keyword: Seq<char>) -> bool {
    keyword.len() > 0 && contains(unicode_lower(haystack), keyword)
}

/// Whether a text matches a (normalised) keyword.
pub fn matches_search_keyword(haystack: &str, keyword: &str) -> (b: bool)
    ensures
        b == keyword_matches(haystack@, keyword@),
{
    let k = str_chars(keyword);
    if k.len() == 0 {
        return false;
    }
    let lowered = crate::text::to_lowercase(haystack);
    contains_chars(&str_chars(lowered.as_str()), &k)
}

/// Whether a workspace memory matches a keyword: by title, content or one of its tags.
pub open spec fn memory_record_matches(
    title: Seq<char>,
    content: Seq<char>,
    tags: Seq<Seq<char>>,
    keyword: Seq<char>,
) -> bool {
    keyword_matches(title, keyword) || keyword_matches(content, keyword) || exists|i: int|
        0 <= i < tags.len() && keyword_matches(#[trigger] tags[i], keyword)
}

/// A workspace memory as the keyword search reads it: title, content and tags.
#[derive(Debug, Clone, PartialEq, Eq)]
pub struct MemoryText {
    pub title: String,
    pub content: String,
    pub tags: Vec<String>,
}

/// A key-value memory as the keyword search reads it: key, text value and JSON value.
#[derive(Debug, Clone, PartialEq, Eq)]
pub struct KvMemoryText {
    pub key: String,
    pub text_value: String,
    pub value_json: String,
}

pub open spec fn memory_matches(m: MemoryText, keyword: Seq<char>) -> bool {
    memory_record_matches(m.title@, m.content@, m.tags@.map_values(|t: String| t@), keyword)
}

pub open spec fn kv_matches(m: KvMemoryText, keyword: Seq<char>) -> bool {
    keyword_matches(m.key@, keyword) || keyword_matches(m.text_value@, keyword) || keyword_matches(
        m.value_json@,
        keyword,
    )
}

fn memory_text_matches(m: &MemoryText, keyword: &str) -> (b: bool)
    ensures
        b == memory_matches(*m, keyword@),
{
    if matches_search_keyword(m.title.as_str(), keyword) || matches_search_keyword(m.content.as_str(), keyword) {
        return true;
    }
    let ghost tv = m.tags@.map_values(|t: String| t@);
    let mut i: usize = 0;
    while i < m.tags.len()
        invariant
            i <= m.tags.len(),
            tv == m.tags@.map_values(|t: String| t@),
            forall|j: int| 0 <= j < i ==> !keyword_matches(#[trigger] tv[j], keyword@),
        decreases m.tags.len() - i,
    {
        if matches_search_keyword(m.tags[i].as_str(), keyword) {
            assert(keyword_matches(tv[i as int], keyword@));
            return true;
        }
        i = i + 1;
    }
    false
}

/// The indices of the items at which a search that stops once it has `limit` hits collects
/// hits, among `n` items of which `hit(i)` says which match, counting `already` earlier hits.
pub open spec fn collected(n: int, hit: spec_fn(int) -> bool, already: int, limit: int) -> Seq<int>
    decreases n,
{
    if n <= 0 {
        Seq::empty()
    } else {
        let prev = collected(n - 1, hit, already, limit);
        if already + prev.len() >= limit && prev.len() > 0 {
            prev
        } else if hit(n - 1) {
            prev.push(n - 1)
        } else {
            prev
        }
    }
}

proof fn lemma_collected_stays(k: int, n: int, hit: spec_fn(int) -> bool, already: int, limit: int)
    requires
        0 <= k <= n,
        collected(k, hit, already, limit).len() > 0,
        already + collected(k, hit, already, limit).len() >= limit,
    ensures
        collected(n, hit, already, limit) == collected(k, hit, already, limit),
    decreases n - k,
{
    if n > k {
        lemma_collected_stays(k, n - 1, hit, already, limit);
    }
}

pub open spec fn memory_hit(ms: Seq<MemoryText>, keyword: Seq<char>) -> spec_fn(int) -> bool {
    |i: int| memory_matches(ms[i], keyword)
}

pub open spec fn kv_hit(ks: Seq<KvMemoryText>, keyword: Seq<char>) -> spec_fn(int) -> bool {
    |i: int| kv_matches(ks[i], keyword)
}

/// Chooses the keyword hits of a memory search for `query` (trimmed and lower-cased):
/// workspace memories first, then key-value memories, stopping as soon as `limit` hits are
/// collected (at least one hit is always kept). Returns the positions of the chosen memories of
/// each kind.
pub fn memory_search_keyword_fallback(
    memories: &Vec<MemoryText>,
    kv_memories: &Vec<KvMemoryText>,
    query: &str,
    limit: usize,
) -> (r: (Vec<usize>, Vec<usize>))
    ensures
        ({
            let keyword = search_keyword(query@);
            let first = collected(memories@.len() as int, memory_hit(memories@, keyword), 0, limit as int);
            &&& r.0@.map_values(|i: usize| i as int) == first
            &&& if first.len() > 0 && first.len() >= limit {
                r.1@.len() == 0
            } else {
                r.1@.map_values(|i: usize| i as int) == collected(
                    kv_memories@.len() as int,
                    kv_hit(kv_memories@, keyword),
                    first.len() as int,
                    limit as int,
                )
            }
        }),
{
    let normalized = normalize_search_keyword(query);
    collect_keyword_hits(memories, kv_memories, normalized.as_str(), limit)
}

fn collect_keyword_hits(
    memories: &Vec<MemoryText>,
    kv_memories: &Vec<KvMemoryText>,
    keyword: &str,
    limit: usize,
) -> (r: (Vec<usize>, Vec<usize>))
    ensures
        ({
            let first = collected(memories@.len() as int, memory_hit(memories@, keyword@), 0, limit as int);
            &&& r.0@.map_values(|i: usize| i as int) == first
            &&& if first.len() > 0 && first.len() >= limit {
                r.1@.len() == 0
            } else {
                r.1@.map_values(|i: usize| i as int) == collected(
                    kv_memories@.len() as int,
                    kv_hit(kv_memories@, keyword@),
                    first.len() as int,
                    limit as int,
                )
            }
        }),
{
    let ghost ms = memories@;
    let mut first: Vec<usize> = Vec::new();
    let mut i: usize = 0;
    while i < memories.len()
        invariant
            i <= memories.len(),
            ms == memories@,
            first@.map_values(|x: usize| x as int) == collected(i as int, memory_hit(ms, keyword@), 0, limit as int),
            first@.len() <= i,
        decreases memories.len() - i,
    {
        let ghost prev = first@.map_values(|x: usize| x as int);
        if first.len() > 0 && first.len() >= limit {
            proof {
                lemma_collected_stays(i as int, ms.len() as int, memory_hit(ms, keyword@), 0, limit as int);
            }
            return (first, Vec::new());
        }
        if memory_text_matches(&memories[i], keyword) {
            first.push(i);
            assert(first@.map_values(|x: usize| x as int) =~= prev.push(i as int));
        }
        i = i + 1;
    }
    if first.len() > 0 && first.len() >= limit {
        return (first, Vec::new());
    }
    let ghost base = first@.len() as int;
    let ghost ks = kv_memories@;
    let mut second: Vec<usize> = Vec::new();
    let mut j: usize = 0;
    while j < kv_memories.len()
        invariant
            j <= kv_memories.len(),
            ks == kv_memories@,
            ms == memories@,
            base == first@.len(),
            base == 0 || base < limit,
            first@.map_values(|x: usize| x as int) == collected(ms.len() as int, memory_hit(ms, keyword@), 0, limit as int),
            second@.map_values(|x: usize| x as int) == collected(j as int, kv_hit(ks, keyword@), base, limit as int),
            second@.len() <= j,
        decreases kv_memories.len() - j,
    {
        let ghost prev = second@.map_values(|x: usize| x as int);
        if second.len() > 0 && second.len() >= limit - first.len() {
            proof {
                lemma_collected_stays(j as int, ks.len() as int, kv_hit(ks, keyword@), base, limit as int);
            }
            return (first, second);
        }
        let m = &kv_memories[j];
        if matches_search_keyword(m.key.as_str(), keyword) || matches_search_keyword(m.text_value.as_str(), keyword)
            || matches_search_keyword(m.value_json.as_str(), keyword) {
            second.push(j);
            assert(second@.map_values(|x: usize| x as int) =~= prev.push(j as int));
        }
        j = j + 1;
    }
    (first, second)
}

/// The excerpt shown for a chat search hit: the prompt, or the answer when only the answer
/// mentions the (trimmed, lower-cased) query, with its whitespace collapsed, cut to 160
/// characters.
pub open spec fn search_excerpt(prompt: Seq<char>, answer: Seq<char>, query: Seq<char>) -> Seq<char> {
    let q = unicode_lower(trim(query));
    let base = if contains(unicode_lower(prompt), q) {
        prompt
    } else if contains(unicode_lower(answer), q) {
        answer
    } else {
        prompt
    };
    let compact = collapse_ws(base);
    if compact.len() <= 160 {
        compact
    } else {
        compact.take(160)
    }
}

/// Builds the excerpt shown for a chat search hit (see `search_excerpt`).
pub fn build_chat_search_excerpt(prompt: &str, answer: &str, query: &str) -> (r: String)
    ensures
        r@ == search_excerpt(prompt@, answer@, query@),
{
    let q = str_chars(normalize_search_keyword(query).as_str());
    let p_lower = str_chars(crate::text::to_lowercase(prompt).as_str());
    let base: Vec<char> = if contains_chars(&p_lower, &q) {
        str_chars(prompt)
    } else {
        let a_lower = str_chars(crate::text::to_lowercase(answer).as_str());
        if contains_chars(&a_lower, &q) {
            str_chars(answer)
        } else {
            str_chars(prompt)
        }
    };
    let compact = collapse_whitespace(&base);
    if compact.len() <= 160 {
        chars_to_string(&compact)
    } else {
        let cut = slice_to_vec(&compact, 0, 160);
        assert(cut@ =~= compact@.take(160));
        chars_to_string(&cut)
    }
}

/// The MEMORY.md text after an update: in `append` mode the new content follows the existing
/// text (on a new line unless that text already ends with one); otherwise it replaces it.
pub open spec fn merged_memory(existing: Seq<char>, content: Seq<char>, mode: Seq<char>) -> Seq<char> {
    if mode == "append"@ && existing.len() > 0 {
        existing + (if existing.last() == '\n' {
            Seq::empty()
        } else {
            seq!['\n']
        }) + content
    } else {
        content
    }
}

/// Merges an update into the MEMORY.md text (see `merged_memory`).
pub fn merged_memory_content(existing: &str, content: &str, mode: &str) -> (r: String)
    ensures
        r@ == merged_memory(existing@, content@, mode@),
{
    let e = str_chars(existing);
    if !crate::text::chars_eq_str(&str_chars(mode), "append") || e.len() == 0 {
        return content.to_owned();
    }
    let mut out = e;
    if out[out.len() - 1] != '\n' {
        out.push('\n');
    }
    push_str(&mut out, content);
    let ghost ev = existing@;
    assert(out@ =~= ev + (if ev.last() == '\n' {
        Seq::<char>::empty()
    } else {
        seq!['\n']
    }) + content@);
    chars_to_string(&out)
}


pub open spec fn strings_view(v: Seq<String>) -> Seq<Seq<char>> {
    v.map_values(|t: String| t@)
}

/// Whether a stored memory vector may be a hit of a semantic search in `workspace_id`: it
/// belongs to that workspace or has the `system` scope; its scope is one of `scope_filter` when
/// that is given and not empty; an `agent`-scoped memory belongs to `scope_agent_id` when that is
/// given; and it carries every tag of `tag_filter` when that is given.
pub open spec fn vector_hit_admitted(
    workspace_id: Seq<char>,
    row_workspace_id: Seq<char>,
    row_scope: Seq<char>,
    row_scope_agent_id: Option<Seq<char>>,
    row_tags: Seq<Seq<char>>,
    tag_filter: Option<Seq<Seq<char>>>,
    scope_filter: Option<Seq<Seq<char>>>,
    scope_agent_id: Option<Seq<char>>,
) -> bool {
    &&& (row_workspace_id == workspace_id || row_scope == "system"@)
    &&& match scope_filter {
        Some(scopes) => scopes.len() == 0 || scopes.contains(row_scope),
        None => true,
    }
    &&& match scope_agent_id {
        Some(a) => row_scope != "agent"@ || row_scope_agent_id == Some(a),
        None => true,
    }
    &&& match tag_filter {
        Some(tags) => has_all_tags(row_tags, tags),
        None => true,
    }
}

/// Whether `row_tags` holds every tag of `tags`.
pub open spec fn has_all_tags(row_tags: Seq<Seq<char>>, tags: Seq<Seq<char>>) -> bool {
    forall|i: int| 0 <= i < tags.len() ==> row_tags.contains(#[trigger] tags[i])
}

fn contains_string(items: &Vec<String>, target: &str) -> (b: bool)
    ensures
        b == strings_view(items@).contains(target@),
{
    let ghost v = strings_view(items@);
    let t = str_chars(target);
    let mut i: usize = 0;
    while i < items.len()
        invariant
            i <= items.len(),
            v == strings_view(items@),
            t@ == target@,
            forall|j: int| 0 <= j < i ==> v[j] != target@,
        decreases items.len() - i,
    {
        assert(v[i as int] == items@[i as int]@);
        if crate::text::chars_eq_str(&t, items[i].as_str()) {
            assert(v[i as int] == target@);
            return true;
        }
        i = i + 1;
    }
    false
}

fn same_text(a: &str, b: &str) -> (r: bool)
    ensures
        r == (a@ == b@),
{
    let x = str_chars(a);
    crate::text::chars_eq_str(&x, b)
}

/// Decides whether a stored memory vector may be a hit of a semantic search (see
/// `vector_hit_admitted`); the similarity score is weighed apart from this.
pub fn memory_vector_admitted(
    workspace_id: &str,
    row_workspace_id: &str,
    row_scope: &str,
    row_scope_agent_id: Option<&str>,
    row_tags: &Vec<String>,
    tag_filter: Option<&Vec<String>>,
    scope_filter: Option<&Vec<String>>,
    scope_agent_id: Option<&str>,
) -> (b: bool)
    ensures
        b == vector_hit_admitted(
            workspace_id@,
            row_workspace_id@,
            row_scope@,
            opt_view(row_scope_agent_id),
            strings_view(row_tags@),
            match tag_filter {
                Some(t) => Some(strings_view(t@)),
                None => None,
            },
            match scope_filter {
                Some(t) => Some(strings_view(t@)),
                None => None,
            },
            opt_view(scope_agent_id),
        ),
{
    proof {
        reveal_strlit("system");
        reveal_strlit("agent");
    }
    if !(same_text(row_workspace_id, workspace_id) || same_text(row_scope, "system")) {
        return false;
    }
    match scope_filter {
        Some(scopes) => {
            if scopes.len() > 0 && !contains_string(scopes, row_scope) {
                return false;
            }
        },
        None => {},
    }
    match scope_agent_id {
        Some(a) => {
            if same_text(row_scope, "agent") {
                let owned = match row_scope_agent_id {
                    Some(o) => same_text(o, a),
                    None => false,
                };
                if !owned {
                    return false;
                }
            }
        },
        None => {},
    }
    match tag_filter {
        Some(tags) => {
            let ghost tv = strings_view(tags@);
            let ghost rv = strings_view(row_tags@);
            let mut i: usize = 0;
            while i < tags.len()
                invariant
                    i <= tags.len(),
                    tag_filter == Some(tags),
                    tv == strings_view(tags@),
                    rv == strings_view(row_tags@),
                    forall|j: int| 0 <= j < i ==> rv.contains(#[trigger] tv[j]),
                decreases tags.len() - i,
            {
                assert(tv[i as int] == tags@[i as int]@);
                if !contains_string(row_tags, tags[i].as_str()) {
                    assert(!rv.contains(tv[i as int]));
                    return false;
                }
                i = i + 1;
            }
        },
        None => {},
    }
    true
}

} // verus!
