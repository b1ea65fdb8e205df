//! Streaming reply text, multimodal turn summaries and media type inference.
use vstd::prelude::*;
use crate::text::{
    chars_eq, chars_to_string, collapse_whitespace, collapse_ws, has_prefix, join, join_vecs,
    is_ws, push_all, push_str, slice_to_vec, starts_with, str_chars, trim, trim_end, trim_end_vec,
    trimmed_chars, unicode_lower,
};

verus! {

/// The part of a reply snapshot that has not been streamed yet; nothing when the snapshot
/// repeats or differs from what was emitted.
pub open spec fn fragment_to_append(emitted: Seq<char>, snapshot: Seq<char>) -> Seq<char> {
    if snapshot.len() == 0 {
        Seq::empty()
    } else if emitted.len() == 0 {
        snapshot
    } else if emitted == snapshot {
        Seq::empty()
    } else if starts_with(snapshot, emitted) {
        snapshot.skip(emitted.len() as int)
    } else {
        let et = trim_end(emitted);
        let st = trim_end(snapshot);
        if et == st {
            Seq::empty()
        } else if starts_with(st, et) {
            st.skip(et.len() as int)
        } else if starts_with(snapshot, et) {
            snapshot.skip(et.len() as int)
        } else {
            Seq::empty()
        }
    }
}

fn suffix_after(s: &[char], n: usize) -> (r: Vec<char>)
    requires
        n <= s.len(),
    ensures
        r@ == s@.skip(n as int),
{
    let r = slice_to_vec(s, n, s.len());
    assert(r@ =~= s@.skip(n as int));
    r
}

/// The text to append to the stream for a new reply snapshot.
pub fn assistant_text_fragment_to_append(emitted: &str, snapshot: &str) -> (r: String)
    ensures
        r@ == fragment_to_append(emitted@, snapshot@),
{
    let e = str_chars(emitted);
    let s = str_chars(snapshot);
    if s.len() == 0 {
        return String::new();
    }
    if e.len() == 0 {
        return snapshot.to_owned();
    }
    if chars_eq(&e, &s) {
        return String::new();
    }
    if has_prefix(&s, &e) {
        let rest = suffix_after(&s, e.len());
        return chars_to_string(&rest);
    }
    let et = trim_end_vec(&e);
    let st = trim_end_vec(&s);
    if chars_eq(&et, &st) {
        return String::new();
    }
    if has_prefix(&st, &et) {
        let rest = suffix_after(&st, et.len());
        return chars_to_string(&rest);
    }
    if has_prefix(&s, &et) {
        let rest = suffix_after(&s, et.len());
        return chars_to_string(&rest);
    }
    String::new()
}

/// A summary text with whitespace collapsed, cut to `max_chars` characters plus `…`.
pub open spec fn summary_text(text: Seq<char>, max_chars: nat) -> Seq<char> {
    let compact = collapse_ws(text);
    if compact.len() <= max_chars {
        compact
    } else {
        compact.take(max_chars as int) + "…"@
    }
}

/// Collapses whitespace and shortens a summary to at most `max_chars` characters (plus `…`).
pub fn normalize_summary_text(text: &str, max_chars: usize) -> (r: String)
    ensures
        r@ == summary_text(text@, max_chars as nat),
{
    let v = str_chars(text);
    let compact = collapse_whitespace(&v);
    if compact.len() <= max_chars {
        return chars_to_string(&compact);
    }
    let mut out = slice_to_vec(&compact, 0, max_chars);
    assert(out@ =~= compact@.take(max_chars as int));
    push_str(&mut out, "…");
    chars_to_string(&out)
}

/// One earlier turn that carried images or video, kept as text.
#[derive(Debug, Clone, PartialEq, Eq)]
pub struct MultimodalSummaryEntry {
    pub timestamp_ms: i64,
    pub user_prompt: String,
    pub assistant_response: String,
}

pub open spec fn summary_header() -> Seq<char> {
    "以下是此前多模态附件轮次的文字摘要，原始图片/视频已从主会话上下文移除："@
}

/// The two lines that describe one summarised turn.
pub open spec fn entry_lines(e: MultimodalSummaryEntry) -> Seq<Seq<char>> {
    seq!["- 用户: "@ + e.user_prompt@, "  结果: "@ + e.assistant_response@]
}

/// The lines for a list of entries, in order.
pub open spec fn entries_lines(es: Seq<MultimodalSummaryEntry>) -> Seq<Seq<char>>
    decreases es.len(),
{
    if es.len() == 0 {
        Seq::empty()
    } else {
        entries_lines(es.drop_last()) + entry_lines(es.last())
    }
}

/// The summary context: a header and the last four entries, oldest first.
pub open spec fn summary_context(es: Seq<MultimodalSummaryEntry>) -> Option<Seq<char>> {
    if es.len() == 0 {
        None
    } else {
        let start = if es.len() > 4 {
            es.len() - 4
        } else {
            0
        };
        Some(join(seq![summary_header()] + entries_lines(es.skip(start)), "\n"@))
    }
}

/// Renders the context block that replaces earlier media with their summaries.
pub fn render_multimodal_summary_context(entries: &[MultimodalSummaryEntry]) -> (r: Option<
    String,
>)
    ensures
        match summary_context(entries@) {
            Some(c) => r matches Some(s) && s@ == c,
            None => r is None,
        },
{
    if entries.len() == 0 {
        return None;
    }
    let start: usize = if entries.len() > 4 {
        entries.len() - 4
    } else {
        0
    };
    let ghost tail = entries@.skip(start as int);
    let mut lines: Vec<Vec<char>> = Vec::new();
    lines.push(str_chars("以下是此前多模态附件轮次的文字摘要，原始图片/视频已从主会话上下文移除："));
    let mut i = start;
    assert(entries@.subrange(start as int, start as int) =~= Seq::<MultimodalSummaryEntry>::empty());
    while i < entries.len()
        invariant
            start <= i <= entries.len(),
            lines@.map_values(|l: Vec<char>| l@) =~= seq![summary_header()] + entries_lines(
                entries@.subrange(start as int, i as int),
            ),
        decreases entries.len() - i,
    {
        let e = &entries[i];
        let mut a = str_chars("- 用户: ");
        push_str(&mut a, e.user_prompt.as_str());
        let mut b = str_chars("  结果: ");
        push_str(&mut b, e.assistant_response.as_str());
        let ghost before = lines@.map_values(|l: Vec<char>| l@);
        lines.push(a);
        lines.push(b);
        assert(entries@.subrange(start as int, i + 1).drop_last() =~= entries@.subrange(
            start as int,
            i as int,
        ));
        assert(lines@.map_values(|l: Vec<char>| l@) =~= before + entry_lines(*e));
        i = i + 1;
    }
    assert(entries@.subrange(start as int, entries.len() as int) =~= tail);
    let joined = join_vecs(&lines, &str_chars("\n"));
    Some(chars_to_string(&joined))
}

/// A prompt with the summary context placed before it.
pub open spec fn prompt_with_context(prompt: Seq<char>, context: Option<Seq<char>>) -> Seq<char> {
    match context {
        None => prompt,
        Some(c) => if trim(prompt).len() == 0 {
            c
        } else {
            c + "\n\n"@ + trim(prompt)
        },
    }
}

/// Places the summary context (when there is one) before the prompt.
pub fn prepend_multimodal_summary_context(prompt: &str, summary_context: Option<&str>) -> (r:
    String)
    ensures
        r@ == prompt_with_context(
            prompt@,
            match summary_context {
                Some(c) => Some(c@),
                None => None,
            },
        ),
{
    match summary_context {
        None => prompt.to_owned(),
        Some(c) => {
            let t = trimmed_chars(prompt);
            if t.len() == 0 {
                c.to_owned()
            } else {
                let mut out = str_chars(c);
                push_str(&mut out, "\n\n");
                push_all(&mut out, &t);
                chars_to_string(&out)
            }
        },
    }
}

/// The prompt for a turn: turns that carry images or video go as they are; other turns get the
/// summary context of earlier media turns.
pub fn build_turn_prompt_with_multimodal_summary(
    prompt: &str,
    summary_context: Option<&str>,
    has_visual_context: bool,
) -> (r: String)
    ensures
        has_visual_context ==> r@ == prompt@,
        !has_visual_context ==> r@ == prompt_with_context(
            prompt@,
            match summary_context {
                Some(c) => Some(c@),
                None => None,
            },
        ),
{
    if has_visual_context {
        return prompt.to_owned();
    }
    prepend_multimodal_summary_context(prompt, summary_context)
}

/// How many summarised turns are kept.
pub const MULTIMODAL_SUMMARY_LIMIT: usize = 8;

/// Records a summarised media turn: the prompt (cut to 240 characters) and reply (cut to 1200)
/// are appended as the newest entry, and only the last eight entries are kept; nothing changes
/// when either text is empty after whitespace is collapsed.
pub fn record_multimodal_summary(
    entries: Vec<MultimodalSummaryEntry>,
    user_prompt: &str,
    assistant_response: &str,
    timestamp_ms: i64,
) -> (r: Vec<MultimodalSummaryEntry>)
    ensures
        ({
            let u = summary_text(user_prompt@, 240);
            let a = summary_text(assistant_response@, 1200);
            if u.len() == 0 || a.len() == 0 {
                r@ == entries@
            } else {
                let keep_from = if entries@.len() + 1 > 8 {
                    entries@.len() + 1 - 8
                } else {
                    0
                };
                &&& r@.len() == entries@.len() + 1 - keep_from
                &&& r@.drop_last() == entries@.skip(keep_from)
                &&& r@.last().timestamp_ms == timestamp_ms
                &&& r@.last().user_prompt@ == u
                &&& r@.last().assistant_response@ == a
                &&& r@.len() <= 8
            }
        }),
{
    let user = normalize_summary_text(user_prompt, 240);
    let answer = normalize_summary_text(assistant_response, 1200);
    if str_chars(user.as_str()).len() == 0 || str_chars(answer.as_str()).len() == 0 {
        return entries;
    }
    let ghost orig = entries@;
    let mut kept = entries;
    let mut dropped: usize = 0;
    let target: usize = if kept.len() >= MULTIMODAL_SUMMARY_LIMIT {
        kept.len() - (MULTIMODAL_SUMMARY_LIMIT - 1)
    } else {
        0
    };
    while dropped < target
        invariant
            target <= orig.len(),
            dropped <= target,
            kept@ == orig.skip(dropped as int),
        decreases target - dropped,
    {
        kept.remove(0);
        assert(kept@ =~= orig.skip(dropped + 1));
        dropped = dropped + 1;
    }
    let ghost before = kept@;
    kept.push(MultimodalSummaryEntry { timestamp_ms, user_prompt: user, assistant_response: answer });
    assert(kept@.drop_last() =~= before);
    kept
}

} // verus!

verus! {

/// Dropping trailing whitespace keeps a prefix of the text.
proof fn lemma_trim_end_prefix(s: Seq<char>)
    ensures
        trim_end(s).len() <= s.len(),
        trim_end(s) == s.take(trim_end(s).len() as int),
    decreases s.len(),
{
    if s.len() > 0 && is_ws(s.last()) {
        lemma_trim_end_prefix(s.drop_last());
        assert(s.drop_last().take(trim_end(s).len() as int) =~= s.take(trim_end(s).len() as int));
    } else {
        assert(s.take(s.len() as int) =~= s);
    }
}

/// Dropping trailing whitespace never drops a character that is not whitespace.
proof fn lemma_trim_end_keeps_non_ws(s: Seq<char>, k: int)
    requires
        0 <= k < s.len(),
        !is_ws(s[k]),
    ensures
        trim_end(s).len() > k,
    decreases s.len(),
{
    if s.len() > 0 && is_ws(s.last()) {
        assert(k < s.len() - 1);
        assert(s.drop_last()[k] == s[k]);
        lemma_trim_end_keeps_non_ws(s.drop_last(), k);
    }
}

/// Text made only of whitespace trims to nothing.
proof fn lemma_trim_all_ws(s: Seq<char>)
    requires
        forall|i: int| 0 <= i < s.len() ==> is_ws(#[trigger] s[i]),
    ensures
        trim(s).len() == 0,
    decreases s.len(),
{
    if s.len() > 0 {
        assert(is_ws(s[0]));
        assert forall|i: int| 0 <= i < s.drop_first().len() implies is_ws(#[trigger] s.drop_first()[i]) by {
            assert(s.drop_first()[i] == s[i + 1]);
        }
        lemma_trim_all_ws(s.drop_first());
        assert(crate::text::trim_start(s) == crate::text::trim_start(s.drop_first()));
    }
}

/// What streaming appends for a reply snapshot, once something other than whitespace was sent:
/// it never sends the whole snapshot again (it is shorter, unless the snapshot is empty); when
/// the snapshot extends what was sent, sent text plus fragment is the snapshot; and when the two
/// differ only in trailing whitespace, the fragment is blank.
pub proof fn lemma_fragment_never_resends(emitted: Seq<char>, snapshot: Seq<char>)
    requires
        trim_end(emitted).len() > 0,
    ensures
        snapshot.len() == 0 || fragment_to_append(emitted, snapshot).len() < snapshot.len(),
        starts_with(snapshot, emitted) ==> emitted + fragment_to_append(emitted, snapshot)
            == snapshot,
        trim_end(emitted) == trim_end(snapshot) ==> trim(fragment_to_append(emitted, snapshot)).len()
            == 0,
{
    let r = fragment_to_append(emitted, snapshot);
    lemma_trim_end_prefix(emitted);
    lemma_trim_end_prefix(snapshot);
    assert(emitted.len() > 0);
    assert(trim(Seq::<char>::empty()).len() == 0) by {
        assert(crate::text::trim_start(Seq::<char>::empty()) =~= Seq::<char>::empty());
    }
    if snapshot.len() > 0 && emitted != snapshot && starts_with(snapshot, emitted) {
        assert(emitted + r =~= snapshot);
        if trim_end(emitted) == trim_end(snapshot) {
            assert forall|i: int| 0 <= i < r.len() implies is_ws(#[trigger] r[i]) by {
                assert(r[i] == snapshot[emitted.len() + i]);
                if !is_ws(r[i]) {
                    lemma_trim_end_keeps_non_ws(snapshot, emitted.len() + i);
                }
            }
            lemma_trim_all_ws(r);
        }
    }
}

} // verus!
