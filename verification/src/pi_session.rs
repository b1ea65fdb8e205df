//! Bookkeeping around a desktop Pi session: the fingerprint that decides whether a running Pi
//! can be reused, context usage statistics, message text and environment flags.
use vstd::prelude::*;
use crate::text::{
    ascii_lower, chars_eq_str, chars_to_string, join, join_vecs, lines, push_all, split_lines,
    str_chars, to_ascii_lower, trim, trim_vec, trimmed_chars,
};
use crate::digest::{md5_hex, md5_hex_of, utf8_bytes};
use crate::provider::ProviderRuntimeConfig;
use vstd::utf8::encode_utf8;
use crate::json_value::{
    JsonValue, JsonModel, get, get_member, as_u64, as_str, as_array, model_u64, model_str,
    model_array, items_model, json_model, lemma_items_model, stripped, has_replay_state,
    strip_provider_replay_state,
};

verus! {

/// The values a fingerprint starts with, each followed by a zero byte: the provider's id, API
/// format, base URL, key and model (trimmed, empty without a provider), the session file, the
/// proxy base URL and the proxy token.
pub open spec fn fingerprint_head(
    provider: Option<ProviderRuntimeConfig>,
    session_path: Seq<char>,
    proxy_base_url: Seq<char>,
    proxy_session_token: Seq<char>,
) -> Seq<Seq<char>> {
    let p = |f: spec_fn(ProviderRuntimeConfig) -> Seq<char>| match provider {
        Some(c) => trim(f(c)),
        None => Seq::empty(),
    };
    seq![
        p(|c: ProviderRuntimeConfig| c.provider_id@),
        p(|c: ProviderRuntimeConfig| c.api_format@),
        p(|c: ProviderRuntimeConfig| c.base_url@),
        p(|c: ProviderRuntimeConfig| c.api_key@),
        p(|c: ProviderRuntimeConfig| c.model@),
        session_path,
        proxy_base_url,
        proxy_session_token,
    ]
}

/// Texts as bytes, each followed by the byte `end`.
pub open spec fn terminated(values: Seq<Seq<char>>, end: u8) -> Seq<u8>
    decreases values.len(),
{
    if values.len() == 0 {
        Seq::empty()
    } else {
        terminated(values.drop_last(), end) + encode_utf8(values.last()) + seq![end]
    }
}

/// Prompt sections as bytes: each label, a one byte, its content and a two byte.
pub open spec fn sections_bytes(sections: Seq<(Seq<char>, Seq<char>)>) -> Seq<u8>
    decreases sections.len(),
{
    if sections.len() == 0 {
        Seq::empty()
    } else {
        sections_bytes(sections.drop_last()) + encode_utf8(sections.last().0) + seq![1u8]
            + encode_utf8(sections.last().1) + seq![2u8]
    }
}

/// The bytes a session fingerprint hashes.
pub open spec fn fingerprint_blob(
    provider: Option<ProviderRuntimeConfig>,
    session_path: Seq<char>,
    proxy_base_url: Seq<char>,
    proxy_session_token: Seq<char>,
    sections: Seq<(Seq<char>, Seq<char>)>,
    skill_paths: Seq<Seq<char>>,
) -> Seq<u8> {
    terminated(fingerprint_head(provider, session_path, proxy_base_url, proxy_session_token), 0u8)
        + sections_bytes(sections) + terminated(skill_paths, 3u8)
}

pub open spec fn pairs_view(v: Seq<(String, String)>) -> Seq<(Seq<char>, Seq<char>)> {
    v.map_values(|p: (String, String)| (p.0@, p.1@))
}

pub open spec fn strings_view(v: Seq<String>) -> Seq<Seq<char>> {
    v.map_values(|s: String| s@)
}

fn push_terminated(blob: &mut Vec<u8>, values: &Vec<Vec<char>>, end: u8)
    ensures
        final(blob)@ == old(blob)@ + terminated(values@.map_values(|v: Vec<char>| v@), end),
{
    let ghost start = blob@;
    let ghost vv = values@.map_values(|v: Vec<char>| v@);
    let mut i: usize = 0;
    while i < values.len()
        invariant
            i <= values.len(),
            vv == values@.map_values(|v: Vec<char>| v@),
            blob@ == start + terminated(vv.take(i as int), end),
        decreases values.len() - i,
    {
        assert(vv.take(i + 1).drop_last() =~= vv.take(i as int));
        assert(vv.take(i + 1).last() == values@[i as int]@);
        let bytes = utf8_bytes(&values[i]);
        blob.extend_from_slice(&bytes);
        blob.push(end);
        assert(blob@ =~= start + terminated(vv.take(i + 1), end));
        i = i + 1;
    }
    assert(vv.take(values.len() as int) =~= vv);
}

/// The fingerprint of a desktop Pi session: the lower-case hex MD5 of its provider, session
/// file, proxy binding, prompt sections and skill paths (see `fingerprint_blob`). A running Pi is
/// reused only while the fingerprint stays the same.
pub fn desktop_pi_fingerprint(
    provider_config: Option<&ProviderRuntimeConfig>,
    session_path: &str,
    proxy_base_url: &str,
    proxy_session_token: &str,
    system_prompt_sections: &Vec<(String, String)>,
    skill_paths: &Vec<String>,
) -> (r: String)
    ensures
        r@ == md5_hex(
            fingerprint_blob(
                match provider_config {
                    Some(c) => Some(*c),
                    None => None,
                },
                session_path@,
                proxy_base_url@,
                proxy_session_token@,
                pairs_view(system_prompt_sections@),
                strings_view(skill_paths@),
            ),
        ),
{
    let ghost provider = match provider_config {
        Some(c) => Some(*c),
        None => None::<ProviderRuntimeConfig>,
    };
    let mut head: Vec<Vec<char>> = Vec::new();
    match provider_config {
        Some(c) => {
            head.push(trimmed_chars(c.provider_id.as_str()));
            head.push(trimmed_chars(c.api_format.as_str()));
            head.push(trimmed_chars(c.base_url.as_str()));
            head.push(trimmed_chars(c.api_key.as_str()));
            head.push(trimmed_chars(c.model.as_str()));
        },
        None => {
            head.push(Vec::new());
            head.push(Vec::new());
            head.push(Vec::new());
            head.push(Vec::new());
            head.push(Vec::new());
        },
    }
    head.push(str_chars(session_path));
    head.push(str_chars(proxy_base_url));
    head.push(str_chars(proxy_session_token));
    assert(head@.map_values(|v: Vec<char>| v@) =~= fingerprint_head(
        provider,
        session_path@,
        proxy_base_url@,
        proxy_session_token@,
    ));
    let mut blob: Vec<u8> = Vec::new();
    push_terminated(&mut blob, &head, 0u8);
    let ghost after_head = blob@;
    let ghost sv = pairs_view(system_prompt_sections@);
    let mut i: usize = 0;
    while i < system_prompt_sections.len()
        invariant
            i <= system_prompt_sections.len(),
            sv == pairs_view(system_prompt_sections@),
            blob@ == after_head + sections_bytes(sv.take(i as int)),
        decreases system_prompt_sections.len() - i,
    {
        assert(sv.take(i + 1).drop_last() =~= sv.take(i as int));
        assert(sv.take(i + 1).last() == (system_prompt_sections@[i as int].0@, system_prompt_sections@[i as int].1@));
        let label = utf8_bytes(&str_chars(system_prompt_sections[i].0.as_str()));
        let content = utf8_bytes(&str_chars(system_prompt_sections[i].1.as_str()));
        blob.extend_from_slice(&label);
        blob.push(1u8);
        blob.extend_from_slice(&content);
        blob.push(2u8);
        assert(blob@ =~= after_head + sections_bytes(sv.take(i + 1)));
        i = i + 1;
    }
    assert(sv.take(system_prompt_sections.len() as int) =~= sv);
    let mut skills: Vec<Vec<char>> = Vec::new();
    let mut j: usize = 0;
    while j < skill_paths.len()
        invariant
            j <= skill_paths.len(),
            skills@.map_values(|v: Vec<char>| v@) =~= strings_view(skill_paths@).take(j as int),
        decreases skill_paths.len() - j,
    {
        let ghost before = skills@.map_values(|v: Vec<char>| v@);
        skills.push(str_chars(skill_paths[j].as_str()));
        assert(skills@.map_values(|v: Vec<char>| v@) =~= before.push(skill_paths@[j as int]@));
        assert(strings_view(skill_paths@).take(j + 1) =~= strings_view(skill_paths@).take(j as int).push(
            skill_paths@[j as int]@,
        ));
        j = j + 1;
    }
    assert(strings_view(skill_paths@).take(skill_paths.len() as int) =~= strings_view(skill_paths@));
    push_terminated(&mut blob, &skills, 3u8);
    let hex = md5_hex_of(&blob);
    chars_to_string(&hex)
}

/// Context usage statistics of a session.
#[derive(Debug, Clone, PartialEq, Eq)]
pub struct SessionContextStats {
    pub session_id: String,
    pub used_tokens: u64,
    pub context_window: Option<u64>,
    pub input_tokens: u64,
    pub output_tokens: u64,
    pub model: Option<String>,
    pub source: String,
}

pub open spec fn or_zero(v: Option<u64>) -> u64 {
    match v {
        Some(x) => x,
        None => 0,
    }
}

/// The unsigned member `key` of an object, if it is one.
pub open spec fn u64_member(m: JsonModel, key: Seq<char>) -> Option<u64> {
    match get_member(m, key) {
        Some(v) => model_u64(v),
        None => None,
    }
}

/// Statistics read from a `contextUsage` object: missing or non-integer counts read as zero, a
/// zero or missing context window as unknown; the session id is left empty and the source is
/// `auto`.
pub open spec fn stats_from_usage(cu: JsonModel, s: SessionContextStats) -> bool {
    let window = or_zero(u64_member(cu, "contextWindow"@));
    &&& s.session_id@.len() == 0
    &&& s.used_tokens == or_zero(u64_member(cu, "usedTokens"@))
    &&& s.context_window == (if window > 0 {
        Some(window)
    } else {
        None
    })
    &&& s.input_tokens == or_zero(u64_member(cu, "inputTokens"@))
    &&& s.output_tokens == or_zero(u64_member(cu, "outputTokens"@))
    &&& s.model is None
    &&& s.source@ == "auto"@
}

fn read_count(cu: &JsonValue, key: &str) -> (r: u64)
    ensures
        r == or_zero(u64_member(cu@, key@)),
{
    match get(cu, key) {
        Some(v) => match as_u64(v) {
            Some(n) => n,
            None => 0,
        },
        None => 0,
    }
}

/// Reads the context statistics of a Pi RPC response from its `contextUsage` object; none when
/// the response has no such member.
pub fn parse_context_stats_from_rpc_response(value: &JsonValue) -> (r: Option<SessionContextStats>)
    ensures
        match get_member(value@, "contextUsage"@) {
            None => r is None,
            Some(cu) => r matches Some(s) && stats_from_usage(cu, s),
        },
{
    let cu = match get(value, "contextUsage") {
        Some(cu) => cu,
        None => {
            return None;
        },
    };
    let raw_window = read_count(cu, "contextWindow");
    Some(
        SessionContextStats {
            session_id: String::new(),
            used_tokens: read_count(cu, "usedTokens"),
            context_window: if raw_window > 0 {
                Some(raw_window)
            } else {
                None
            },
            input_tokens: read_count(cu, "inputTokens"),
            output_tokens: read_count(cu, "outputTokens"),
            model: None,
            source: "auto".to_owned(),
        },
    )
}

/// Statistics for a session nothing is known about.
pub fn unknown_context_stats(session_id: &str) -> (r: SessionContextStats)
    ensures
        r.session_id@ == session_id@,
        r.used_tokens == 0 && r.context_window is None && r.input_tokens == 0 && r.output_tokens == 0,
        r.model is None,
        r.source@ == "unknown"@,
{
    SessionContextStats {
        session_id: session_id.to_owned(),
        used_tokens: 0,
        context_window: None,
        input_tokens: 0,
        output_tokens: 0,
        model: None,
        source: "unknown".to_owned(),
    }
}

/// The texts of the entries that have one, concatenated.
pub open spec fn concat_texts(entries: Seq<Option<Seq<char>>>) -> Seq<char>
    decreases entries.len(),
{
    if entries.len() == 0 {
        Seq::empty()
    } else {
        concat_texts(entries.drop_last()) + match entries.last() {
            Some(t) => t,
            None => Seq::empty(),
        }
    }
}

/// The `text` member of each entry, where it is a string.
pub open spec fn entry_texts(entries: Seq<JsonModel>) -> Seq<Option<Seq<char>>> {
    entries.map_values(|e: JsonModel| match get_member(e, "text"@) {
        Some(t) => model_str(t),
        None => None,
    })
}

/// The joined text of a message's `content` entries, when the message has a `content` array.
pub open spec fn message_text(value: Option<JsonModel>) -> Option<Seq<char>> {
    match value {
        Some(m) => match get_member(m, "content"@) {
            Some(c) => match model_array(c) {
                Some(entries) => Some(concat_texts(entry_texts(entries))),
                None => None,
            },
            None => None,
        },
        None => None,
    }
}

/// The text of a message: the `text` members of its `content` entries joined together, or none
/// when it has no `content` array or the joined text is empty.
pub fn extract_text_content(value: Option<&JsonValue>) -> (r: Option<String>)
    ensures
        match message_text(
            match value {
                Some(v) => Some(v@),
                None => None,
            },
        ) {
            Some(t) => if t.len() == 0 {
                r is None
            } else {
                r matches Some(s) && s@ == t
            },
            None => r is None,
        },
{
    let message = match value {
        Some(v) => v,
        None => {
            return None;
        },
    };
    let entries = match get(message, "content") {
        Some(c) => match as_array(c) {
            Some(e) => e,
            None => {
                return None;
            },
        },
        None => {
            return None;
        },
    };
    proof {
        lemma_items_model(entries@);
    }
    let ghost ev = entry_texts(items_model(entries@));
    let mut out: Vec<char> = Vec::new();
    let mut i: usize = 0;
    while i < entries.len()
        invariant
            i <= entries.len(),
            ev == entry_texts(items_model(entries@)),
            items_model(entries@).len() == entries@.len(),
            forall|k: int|
                0 <= k < entries@.len() ==> #[trigger] items_model(entries@)[k] == json_model(
                    entries@[k],
                ),
            out@ == concat_texts(ev.take(i as int)),
        decreases entries.len() - i,
    {
        assert(ev.take(i + 1).drop_last() =~= ev.take(i as int));
        assert(ev.take(i + 1).last() == ev[i as int]);
        assert(ev[i as int] == match get_member(entries@[i as int]@, "text"@) {
            Some(t) => model_str(t),
            None => None,
        });
        let text = match get(&entries[i], "text") {
            Some(t) => as_str(t),
            None => None,
        };
        match text {
            Some(t) => {
                let chars = str_chars(t);
                push_all(&mut out, &chars);
            },
            None => {
                assert(out@ + Seq::<char>::empty() =~= out@);
            },
        }
        i = i + 1;
    }
    assert(ev.take(entries.len() as int) =~= ev);
    if out.len() == 0 {
        None
    } else {
        Some(chars_to_string(&out))
    }
}

/// How an environment flag reads: `1`, `true`, `yes`, `on` as set and `0`, `false`, `no`, `off`
/// as unset (trimmed, any ASCII case); anything else is no value.
pub open spec fn env_flag(raw: Seq<char>) -> Option<bool> {
    let k = ascii_lower(trim(raw));
    if k == "1"@ || k == "true"@ || k == "yes"@ || k == "on"@ {
        Some(true)
    } else if k == "0"@ || k == "false"@ || k == "no"@ || k == "off"@ {
        Some(false)
    } else {
        None
    }
}

/// Reads an environment flag's value (see `env_flag`).
pub fn parse_env_bool(raw: &str) -> (r: Option<bool>)
    ensures
        r == env_flag(raw@),
{
    let k = to_ascii_lower(&trimmed_chars(raw));
    if chars_eq_str(&k, "1") || chars_eq_str(&k, "true") || chars_eq_str(&k, "yes") || chars_eq_str(&k, "on") {
        Some(true)
    } else if chars_eq_str(&k, "0") || chars_eq_str(&k, "false") || chars_eq_str(&k, "no") || chars_eq_str(
        &k,
        "off",
    ) {
        Some(false)
    } else {
        None
    }
}

/// A record of a Pi session file: a line that parsed as JSON, or one that did not.
pub enum SessionRecord {
    Parsed(JsonValue),
    Raw(String),
}

/// The non-blank lines of a session file, as they stand.
pub open spec fn nonblank_lines(ls: Seq<Seq<char>>) -> Seq<Seq<char>>
    decreases ls.len(),
{
    if ls.len() == 0 {
        Seq::empty()
    } else {
        let prev = nonblank_lines(ls.drop_last());
        if trim(ls.last()).len() > 0 {
            prev.push(ls.last())
        } else {
            prev
        }
    }
}

/// The records of a session file: its non-blank lines.
pub fn session_record_lines(raw: &str) -> (r: Vec<String>)
    ensures
        r@.map_values(|l: String| l@) == nonblank_lines(lines(raw@)),
{
    let chars = str_chars(raw);
    let ls = split_lines(&chars);
    let ghost lv = ls@.map_values(|l: Vec<char>| l@);
    let mut out: Vec<String> = Vec::new();
    let mut i: usize = 0;
    while i < ls.len()
        invariant
            i <= ls.len(),
            lv == ls@.map_values(|l: Vec<char>| l@),
            lv == lines(raw@),
            out@.map_values(|l: String| l@) == nonblank_lines(lv.take(i as int)),
        decreases ls.len() - i,
    {
        let ghost before = out@.map_values(|l: String| l@);
        assert(lv.take(i + 1).drop_last() =~= lv.take(i as int));
        assert(lv.take(i + 1).last() == ls@[i as int]@);
        let t = trim_vec(&ls[i]);
        if t.len() > 0 {
            out.push(chars_to_string(&ls[i]));
            assert(out@.map_values(|l: String| l@) =~= before.push(ls@[i as int]@));
        }
        i = i + 1;
    }
    assert(lv.take(ls.len() as int) =~= lv);
    out
}

/// `after` is `before` with the replay state stripped from a parsed record; a raw line stays.
pub open spec fn record_sanitized(before: SessionRecord, after: SessionRecord) -> bool {
    match before {
        SessionRecord::Parsed(v) => after matches SessionRecord::Parsed(w) && w@ == stripped(v@),
        SessionRecord::Raw(t) => after matches SessionRecord::Raw(u) && u@ == t@,
    }
}

/// Whether a record holds replay state.
pub open spec fn record_has_replay_state(r: SessionRecord) -> bool {
    match r {
        SessionRecord::Parsed(v) => has_replay_state(v@),
        SessionRecord::Raw(_) => false,
    }
}

/// Strips provider replay state from the parsed records of a session file: `None` when none
/// holds any (the file stays as it is), else every record, each parsed one stripped.
pub fn sanitize_session_records(records: &Vec<SessionRecord>) -> (r: Option<Vec<SessionRecord>>)
    ensures
        match r {
            None => forall|i: int|
                0 <= i < records@.len() ==> !record_has_replay_state(#[trigger] records@[i]),
            Some(out) => {
                &&& out@.len() == records@.len()
                &&& forall|i: int|
                    0 <= i < records@.len() ==> record_sanitized(
                        #[trigger] records@[i],
                        out@[i],
                    )
                &&& exists|i: int|
                    0 <= i < records@.len() && record_has_replay_state(#[trigger] records@[i])
            },
        },
{
    let mut out: Vec<SessionRecord> = Vec::new();
    let mut changed = false;
    let mut i: usize = 0;
    while i < records.len()
        invariant
            i <= records.len(),
            out@.len() == i,
            forall|k: int| 0 <= k < i ==> record_sanitized(#[trigger] records@[k], out@[k]),
            changed == exists|k: int| 0 <= k < i && record_has_replay_state(#[trigger] records@[k]),
        decreases records.len() - i,
    {
        match &records[i] {
            SessionRecord::Parsed(v) => {
                let (w, c) = strip_provider_replay_state(v);
                out.push(SessionRecord::Parsed(w));
                if c {
                    changed = true;
                }
            },
            SessionRecord::Raw(t) => {
                out.push(SessionRecord::Raw(t.clone()));
            },
        }
        assert(record_sanitized(records@[i as int], out@[i as int]));
        i = i + 1;
    }
    if changed {
        Some(out)
    } else {
        None
    }
}

/// Sanitising is done in one pass: the records it gives back hold no replay state, so a second
/// pass over them finds nothing to strip (`sanitize_session_records` gives `None`).
pub proof fn lemma_sanitized_records_are_clean(records: Seq<SessionRecord>, out: Seq<SessionRecord>)
    requires
        out.len() == records.len(),
        forall|i: int| 0 <= i < records.len() ==> record_sanitized(#[trigger] records[i], out[i]),
    ensures
        forall|i: int| 0 <= i < out.len() ==> !record_has_replay_state(#[trigger] out[i]),
{
    assert forall|i: int| 0 <= i < out.len() implies !record_has_replay_state(#[trigger] out[i]) by {
        assert(record_sanitized(records[i], out[i]));
        if let SessionRecord::Parsed(v) = records[i] {
            crate::json_value::lemma_strip_replay_state(v@);
        }
    }
}

/// The text of a session file rewritten from its records' lines: one per line, each ended by a
/// newline.
pub fn session_file_text(texts: &Vec<String>) -> (r: String)
    ensures
        r@ == join(texts@.map_values(|l: String| l@), "\n"@) + "\n"@,
{
    let mut parts: Vec<Vec<char>> = Vec::new();
    let mut i: usize = 0;
    while i < texts.len()
        invariant
            i <= texts.len(),
            parts@.len() == i,
            parts@.map_values(|p: Vec<char>| p@) == texts@.map_values(|l: String| l@).take(i as int),
        decreases texts.len() - i,
    {
        let ghost before = parts@.map_values(|p: Vec<char>| p@);
        parts.push(str_chars(texts[i].as_str()));
        assert(parts@[i as int]@ == texts@[i as int]@);
        assert(parts@.map_values(|p: Vec<char>| p@) =~= texts@.map_values(|l: String| l@).take(i + 1));
        i = i + 1;
    }
    assert(texts@.map_values(|l: String| l@).take(texts.len() as int) =~= texts@.map_values(|l: String| l@));
    let nl = str_chars("\n");
    let mut text = join_vecs(&parts, &nl);
    push_all(&mut text, &nl);
    chars_to_string(&text)
}

} // verus!
