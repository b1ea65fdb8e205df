//! Choosing the agent a delegated task goes to: lookup keys, search scoring and resolution, and
//! the bookkeeping around a delegated run.
use vstd::prelude::*;
use crate::text::{
    ascii_lower_char, char_ascii_lower, chars_eq, chars_to_string, contains, contains_chars,
    is_ascii_alnum, is_ascii_alnum_char, join, join_vecs, push_all, push_str, str_chars, trim,
    trimmed_chars, unicode_lower,
};

verus! {

/// What delegation reads of an agent.
#[derive(Debug, Clone, PartialEq, Eq)]
pub struct DelegateCandidate {
    pub id: String,
    pub name: String,
    pub summary: String,
    pub description: String,
    pub updated_at: i64,
}

/// The role an agent plays in the current team.
#[derive(Debug, Clone, PartialEq, Eq)]
pub struct DelegateRoleHint {
    pub role: String,
}

/// A lookup key: trimmed and lower-cased.
pub open spec fn lookup_key(value: Seq<char>) -> Seq<char> {
    unicode_lower(trim(value))
}

/// Normalises a lookup key: trimmed and lower-cased.
pub fn normalize_delegate_lookup_key(value: &str) -> (r: String)
    ensures
        r@ == lookup_key(value@),
{
    let t = trimmed_chars(value);
    let s = chars_to_string(&t);
    crate::text::to_lowercase(s.as_str())
}

/// The kebab form before its dashes are stripped: ASCII letters and digits lower-cased, each
/// run of other characters after the first kept one turned into one dash. The flag says whether
/// the last character was such a run.
pub open spec fn kebab_scan(s: Seq<char>) -> (Seq<char>, bool)
    decreases s.len(),
{
    if s.len() == 0 {
        (Seq::empty(), false)
    } else {
        let (out, last_sep) = kebab_scan(s.drop_last());
        let c = s.last();
        if is_ascii_alnum(c) {
            (out.push(ascii_lower_char(c)), false)
        } else if !last_sep && out.len() > 0 {
            (out.push('-'), true)
        } else {
            (out, last_sep)
        }
    }
}

/// `s` without its leading dashes.
pub open spec fn strip_leading_dashes(s: Seq<char>) -> Seq<char>
    decreases s.len(),
{
    if s.len() > 0 && s[0] == '-' {
        strip_leading_dashes(s.drop_first())
    } else {
        s
    }
}

/// `s` without its trailing dashes.
pub open spec fn strip_trailing_dashes(s: Seq<char>) -> Seq<char>
    decreases s.len(),
{
    if s.len() > 0 && s.last() == '-' {
        strip_trailing_dashes(s.drop_last())
    } else {
        s
    }
}

/// The kebab-case key of a value: `Color Master` becomes `color-master`.
pub open spec fn kebab_key(value: Seq<char>) -> Seq<char> {
    strip_trailing_dashes(strip_leading_dashes(kebab_scan(trim(value)).0))
}

fn strip_dashes(v: &Vec<char>) -> (r: Vec<char>)
    ensures
        r@ == strip_trailing_dashes(strip_leading_dashes(v@)),
{
    let mut lo: usize = 0;
    assert(v@.skip(0) =~= v@);
    while lo < v.len() && v[lo] == '-'
        invariant
            lo <= v.len(),
            strip_leading_dashes(v@) == strip_leading_dashes(v@.skip(lo as int)),
        decreases v.len() - lo,
    {
        assert(v@.skip(lo as int).drop_first() =~= v@.skip(lo + 1));
        lo = lo + 1;
    }
    assert(v@.skip(0) =~= v@);
    let ghost mid = v@.skip(lo as int);
    assert(strip_leading_dashes(v@) == mid);
    let mut hi: usize = v.len();
    while hi > lo && v[hi - 1] == '-'
        invariant
            lo <= hi <= v.len(),
            mid == v@.skip(lo as int),
            strip_trailing_dashes(mid) == strip_trailing_dashes(v@.subrange(lo as int, hi as int)),
        decreases hi,
    {
        assert(v@.subrange(lo as int, hi as int).drop_last() =~= v@.subrange(lo as int, hi - 1));
        hi = hi - 1;
    }
    assert(v@.subrange(lo as int, v.len() as int) =~= mid);
    crate::text::slice_to_vec(v, lo, hi)
}

/// The kebab-case lookup key of a value.
pub fn kebab_case_delegate_lookup_key(value: &str) -> (r: String)
    ensures
        r@ == kebab_key(value@),
{
    let t = trimmed_chars(value);
    let mut out: Vec<char> = Vec::new();
    let mut last_was_sep = false;
    let mut i: usize = 0;
    while i < t.len()
        invariant
            i <= t.len(),
            (out@, last_was_sep) == kebab_scan(t@.take(i as int)),
        decreases t.len() - i,
    {
        assert(t@.take(i + 1).drop_last() =~= t@.take(i as int));
        assert(t@.take(i + 1).last() == t@[i as int]);
        let ch = t[i];
        if is_ascii_alnum_char(ch) {
            out.push(char_ascii_lower(ch));
            last_was_sep = false;
        } else if !last_was_sep && out.len() > 0 {
            out.push('-');
            last_was_sep = true;
        }
        i = i + 1;
    }
    assert(t@.take(t.len() as int) =~= t@);
    let r = strip_dashes(&out);
    chars_to_string(&r)
}

/// The keys a raw (already trimmed) name contributes: its lookup key when non-empty, and its
/// kebab key with and without `agent-` when that is non-empty.
pub open spec fn key_variants(raw: Seq<char>) -> Seq<Seq<char>> {
    if raw.len() == 0 {
        Seq::empty()
    } else {
        (if lookup_key(raw).len() > 0 {
            seq![lookup_key(raw)]
        } else {
            Seq::empty()
        }) + (if kebab_key(raw).len() > 0 {
            seq![kebab_key(raw), "agent-"@ + kebab_key(raw)]
        } else {
            Seq::empty()
        })
    }
}

/// The role of a hint, or the empty text.
pub open spec fn hint_text(hint: Option<DelegateRoleHint>) -> Seq<char> {
    match hint {
        Some(h) => h.role@,
        None => Seq::empty(),
    }
}

/// The lookup keys of an agent: from its id, its name and its team role.
pub open spec fn agent_keys(agent: DelegateCandidate, hint: Option<DelegateRoleHint>) -> Seq<Seq<char>> {
    key_variants(trim(agent.id@)) + key_variants(trim(agent.name@)) + key_variants(trim(hint_text(hint)))
}

fn push_variants(keys: &mut Vec<String>, raw: &[char])
    ensures
        final(keys)@.map_values(|k: String| k@) == old(keys)@.map_values(|k: String| k@) + key_variants(raw@),
{
    let ghost before = keys@.map_values(|k: String| k@);
    if raw.len() == 0 {
        assert(before + key_variants(raw@) =~= before);
        return;
    }
    let s = chars_to_string(raw);
    let normalized = normalize_delegate_lookup_key(s.as_str());
    let n_len = str_chars(normalized.as_str()).len();
    if n_len > 0 {
        keys.push(normalized);
    }
    let ghost mid = keys@.map_values(|k: String| k@);
    let kebab = kebab_case_delegate_lookup_key(s.as_str());
    let k_len = str_chars(kebab.as_str()).len();
    if k_len > 0 {
        let mut prefixed = str_chars("agent-");
        push_str(&mut prefixed, kebab.as_str());
        keys.push(kebab);
        keys.push(chars_to_string(&prefixed));
    }
    assert(keys@.map_values(|k: String| k@) =~= before + key_variants(raw@));
}

/// The lookup keys of an agent (a set; the list may repeat a key).
pub fn build_delegate_lookup_keys(agent: &DelegateCandidate, role_hint: Option<&DelegateRoleHint>) -> (r: Vec<String>)
    ensures
        r@.map_values(|k: String| k@) == agent_keys(
            *agent,
            match role_hint {
                Some(h) => Some(*h),
                None => None,
            },
        ),
{
    let mut keys: Vec<String> = Vec::new();
    let id = trimmed_chars(agent.id.as_str());
    push_variants(&mut keys, &id);
    let name = trimmed_chars(agent.name.as_str());
    push_variants(&mut keys, &name);
    let role = match role_hint {
        Some(h) => trimmed_chars(h.role.as_str()),
        None => Vec::new(),
    };
    proof {
        assert(trim(Seq::<char>::empty()) =~= Seq::<char>::empty());
    }
    push_variants(&mut keys, &role);
    assert(keys@.map_values(|k: String| k@) =~= Seq::<Seq<char>>::empty() + key_variants(trim(agent.id@))
        + key_variants(trim(agent.name@)) + key_variants(
        trim(
            hint_text(
                match role_hint {
                    Some(h) => Some(*h),
                    None => None,
                },
            ),
        ),
    ));
    keys
}

/// Characters that belong to a search token: ASCII letters and digits, `-`, `_` and CJK
/// ideographs.
pub open spec fn is_token_char(c: char) -> bool {
    is_ascii_alnum(c) || c == '-' || c == '_' || ('\u{4e00}' <= c && c <= '\u{9fff}')
}

/// The runs of token characters and the (possibly empty) pieces between separators.
pub open spec fn token_pieces(s: Seq<char>) -> Seq<Seq<char>>
    decreases s.len(),
{
    if s.len() == 0 {
        seq![Seq::<char>::empty()]
    } else {
        let prev = token_pieces(s.drop_last());
        if !is_token_char(s.last()) {
            prev.push(Seq::<char>::empty())
        } else {
            prev.update(prev.len() - 1, prev.last().push(s.last()))
        }
    }
}

proof fn lemma_token_pieces_nonempty(s: Seq<char>)
    ensures
        token_pieces(s).len() >= 1,
    decreases s.len(),
{
    if s.len() > 0 {
        lemma_token_pieces_nonempty(s.drop_last());
    }
}

/// The non-empty pieces, lower-cased.
pub open spec fn lowered_nonempty(ps: Seq<Seq<char>>) -> Seq<Seq<char>>
    decreases ps.len(),
{
    if ps.len() == 0 {
        Seq::empty()
    } else {
        let prev = lowered_nonempty(ps.drop_last());
        if ps.last().len() > 0 {
            prev.push(unicode_lower(ps.last()))
        } else {
            prev
        }
    }
}

/// The search tokens of a text: its runs of token characters, lower-cased.
pub open spec fn lookup_tokens(value: Seq<char>) -> Seq<Seq<char>> {
    lowered_nonempty(token_pieces(value))
}

fn is_token_char_exec(c: char) -> (b: bool)
    ensures
        b == is_token_char(c),
{
    is_ascii_alnum_char(c) || c == '-' || c == '_' || ('\u{4e00}' <= c && c <= '\u{9fff}')
}

/// Splits a text into lower-cased search tokens.
pub fn tokenize_delegate_lookup_text(value: &str) -> (r: Vec<String>)
    ensures
        r@.map_values(|t: String| t@) == lookup_tokens(value@),
{
    let s = str_chars(value);
    let mut pieces: Vec<Vec<char>> = Vec::new();
    let mut cur: Vec<char> = Vec::new();
    let mut i: usize = 0;
    while i < s.len()
        invariant
            i <= s.len(),
            token_pieces(s@.take(i as int)).len() >= 1,
            pieces@.map_values(|p: Vec<char>| p@) =~= token_pieces(s@.take(i as int)).drop_last(),
            cur@ == token_pieces(s@.take(i as int)).last(),
        decreases s.len() - i,
    {
        proof {
            lemma_token_pieces_nonempty(s@.take(i as int));
        }
        assert(s@.take(i + 1).drop_last() =~= s@.take(i as int));
        assert(s@.take(i + 1).last() == s@[i as int]);
        let c = s[i];
        if !is_token_char_exec(c) {
            let ghost before = pieces@.map_values(|p: Vec<char>| p@);
            let done = cur;
            pieces.push(done);
            cur = Vec::new();
            assert(pieces@.map_values(|p: Vec<char>| p@) =~= before.push(done@));
        } else {
            cur.push(c);
        }
        i = i + 1;
    }
    proof {
        lemma_token_pieces_nonempty(s@.take(i as int));
    }
    assert(s@.take(s.len() as int) =~= s@);
    let ghost before = pieces@.map_values(|p: Vec<char>| p@);
    let ghost tp = token_pieces(s@);
    assert(before =~= tp.drop_last());
    assert(cur@ == tp.last());
    let last = cur;
    pieces.push(last);
    assert(pieces@.map_values(|p: Vec<char>| p@) =~= before.push(tp.last()));
    assert(tp.drop_last().push(tp.last()) =~= tp);
    assert(pieces@.map_values(|p: Vec<char>| p@) =~= token_pieces(s@));
    let ghost pv = token_pieces(s@);
    let mut out: Vec<String> = Vec::new();
    let mut j: usize = 0;
    while j < pieces.len()
        invariant
            j <= pieces.len(),
            pv == pieces@.map_values(|p: Vec<char>| p@),
            out@.map_values(|t: String| t@) == lowered_nonempty(pv.take(j as int)),
        decreases pieces.len() - j,
    {
        let ghost prev = out@.map_values(|t: String| t@);
        assert(pv.take(j + 1).drop_last() =~= pv.take(j as int));
        assert(pv.take(j + 1).last() == pieces@[j as int]@);
        if pieces[j].len() > 0 {
            let piece = chars_to_string(&pieces[j]);
            let lowered = crate::text::to_lowercase(piece.as_str());
            out.push(lowered);
            assert(out@.map_values(|t: String| t@) =~= prev.push(unicode_lower(pieces@[j as int]@)));
        }
        j = j + 1;
    }
    assert(pv.take(pieces.len() as int) =~= pv);
    out
}

/// The non-empty texts, in order.
pub open spec fn nonempty_texts(ps: Seq<Seq<char>>) -> Seq<Seq<char>>
    decreases ps.len(),
{
    if ps.len() == 0 {
        Seq::empty()
    } else {
        let prev = nonempty_texts(ps.drop_last());
        if ps.last().len() > 0 {
            prev.push(ps.last())
        } else {
            prev
        }
    }
}

/// What an agent is searched by: its id, name, team role, summary and description (trimmed,
/// blank ones left out), one per line, lower-cased.
pub open spec fn search_haystack(agent: DelegateCandidate, hint: Option<DelegateRoleHint>) -> Seq<char> {
    unicode_lower(
        join(
            nonempty_texts(
                seq![
                    trim(agent.id@),
                    trim(agent.name@),
                    trim(hint_text(hint)),
                    trim(agent.summary@),
                    trim(agent.description@),
                ],
            ),
            "\n"@,
        ),
    )
}

pub open spec fn opt_hint(h: Option<&DelegateRoleHint>) -> Option<DelegateRoleHint> {
    match h {
        Some(x) => Some(*x),
        None => None,
    }
}

/// Builds the text an agent is searched by.
pub fn build_delegate_search_haystack(agent: &DelegateCandidate, role_hint: Option<&DelegateRoleHint>) -> (r: String)
    ensures
        r@ == search_haystack(*agent, opt_hint(role_hint)),
{
    let role = match role_hint {
        Some(h) => trimmed_chars(h.role.as_str()),
        None => Vec::new(),
    };
    proof {
        assert(trim(Seq::<char>::empty()) =~= Seq::<char>::empty());
    }
    let mut parts: Vec<Vec<char>> = Vec::new();
    parts.push(trimmed_chars(agent.id.as_str()));
    parts.push(trimmed_chars(agent.name.as_str()));
    parts.push(role);
    parts.push(trimmed_chars(agent.summary.as_str()));
    parts.push(trimmed_chars(agent.description.as_str()));
    let ghost pv = parts@.map_values(|p: Vec<char>| p@);
    assert(pv =~= seq![
        trim(agent.id@),
        trim(agent.name@),
        trim(hint_text(opt_hint(role_hint))),
        trim(agent.summary@),
        trim(agent.description@),
    ]);
    let mut kept: Vec<Vec<char>> = Vec::new();
    let mut i: usize = 0;
    while i < parts.len()
        invariant
            i <= parts.len(),
            pv == parts@.map_values(|p: Vec<char>| p@),
            kept@.map_values(|p: Vec<char>| p@) == nonempty_texts(pv.take(i as int)),
        decreases parts.len() - i,
    {
        let ghost prev = kept@.map_values(|p: Vec<char>| p@);
        assert(pv.take(i + 1).drop_last() =~= pv.take(i as int));
        assert(pv.take(i + 1).last() == parts@[i as int]@);
        if parts[i].len() > 0 {
            let p = crate::text::slice_to_vec(&parts[i], 0, parts[i].len());
            assert(p@ =~= parts@[i as int]@);
            kept.push(p);
            assert(kept@.map_values(|p: Vec<char>| p@) =~= prev.push(parts@[i as int]@));
        }
        i = i + 1;
    }
    assert(pv.take(parts.len() as int) =~= pv);
    let nl = str_chars("\n");
    proof {
        reveal_strlit("\n");
    }
    let joined = join_vecs(&kept, &nl);
    let js = chars_to_string(&joined);
    crate::text::to_lowercase(js.as_str())
}

/// The points the tokens of a needle earn: the length of each token of two or more characters
/// that occurs in the haystack.
pub open spec fn token_points(hay: Seq<char>, tokens: Seq<Seq<char>>) -> int
    decreases tokens.len(),
{
    if tokens.len() == 0 {
        0
    } else {
        token_points(hay, tokens.drop_last()) + if tokens.last().len() > 1 && contains(
            hay,
            tokens.last(),
        ) {
            tokens.last().len() as int
        } else {
            0
        }
    }
}

/// The points a needle earns against a haystack: ten per character when the whole (trimmed,
/// lower-cased) needle occurs, plus its token points; a blank needle earns nothing.
pub open spec fn needle_points(hay: Seq<char>, needle: Seq<char>) -> int {
    let n = lookup_key(needle);
    if n.len() == 0 {
        0
    } else {
        (if contains(hay, n) {
            n.len() * 10
        } else {
            0
        }) + token_points(hay, lookup_tokens(needle))
    }
}

/// How well an agent matches a requested role and task.
pub open spec fn match_score(
    agent: DelegateCandidate,
    hint: Option<DelegateRoleHint>,
    role: Seq<char>,
    task: Seq<char>,
) -> int {
    let hay = search_haystack(agent, hint);
    if hay.len() == 0 {
        0
    } else {
        needle_points(hay, role) + needle_points(hay, task)
    }
}

/// A count capped at `usize::MAX`.
pub open spec fn capped(x: int) -> usize {
    if x <= usize::MAX {
        x as usize
    } else {
        usize::MAX
    }
}

fn sat_add(a: usize, b: usize) -> (r: usize)
    ensures
        r == capped(a + b),
{
    if b > usize::MAX - a {
        usize::MAX
    } else {
        a + b
    }
}

proof fn lemma_capped_add(x: int, b: int)
    requires
        x >= 0,
        b >= 0,
    ensures
        capped(capped(x) + b) == capped(x + b),
{
}

fn needle_score(hay: &[char], needle: &str) -> (r: usize)
    ensures
        r == capped(needle_points(hay@, needle@)),
{
    let ns = normalize_delegate_lookup_key(needle);
    let n = str_chars(ns.as_str());
    if n.len() == 0 {
        return 0;
    }
    let mut score: usize = 0;
    if contains_chars(hay, &n) {
        score = if n.len() > usize::MAX / 10 {
            usize::MAX
        } else {
            n.len() * 10
        };
    }
    let ghost whole: int = if contains(hay@, n@) {
        (n@.len() * 10) as int
    } else {
        0int
    };
    assert(score == capped(whole));
    let tokens = tokenize_delegate_lookup_text(needle);
    let ghost tv = tokens@.map_values(|t: String| t@);
    let mut i: usize = 0;
    while i < tokens.len()
        invariant
            i <= tokens.len(),
            tv == tokens@.map_values(|t: String| t@),
            whole >= 0,
            score == capped(whole + token_points(hay@, tv.take(i as int))),
        decreases tokens.len() - i,
    {
        assert(tv.take(i + 1).drop_last() =~= tv.take(i as int));
        assert(tv.take(i + 1).last() == tokens@[i as int]@);
        let t = str_chars(tokens[i].as_str());
        if t.len() > 1 && contains_chars(hay, &t) {
            proof {
                lemma_token_points_nonneg(hay@, tv.take(i as int));
                lemma_capped_add(whole + token_points(hay@, tv.take(i as int)), t@.len() as int);
            }
            score = sat_add(score, t.len());
        }
        i = i + 1;
    }
    assert(tv.take(tokens.len() as int) =~= tv);
    score
}

proof fn lemma_token_points_nonneg(hay: Seq<char>, tokens: Seq<Seq<char>>)
    ensures
        token_points(hay, tokens) >= 0,
    decreases tokens.len(),
{
    if tokens.len() > 0 {
        lemma_token_points_nonneg(hay, tokens.drop_last());
    }
}

/// Scores how well an agent matches a requested role and task (capped at `usize::MAX`).
pub fn score_delegate_agent_match(
    agent: &DelegateCandidate,
    role_hint: Option<&DelegateRoleHint>,
    requested_role: &str,
    task: &str,
) -> (r: usize)
    ensures
        r == capped(match_score(*agent, opt_hint(role_hint), requested_role@, task@)),
{
    let hs = build_delegate_search_haystack(agent, role_hint);
    let hay = str_chars(hs.as_str());
    if hay.len() == 0 {
        return 0;
    }
    let a = needle_score(&hay, requested_role);
    let b = needle_score(&hay, task);
    proof {
        let ghost hv = hay@;
        lemma_token_points_nonneg(hv, lookup_tokens(requested_role@));
        lemma_token_points_nonneg(hv, lookup_tokens(task@));
        lemma_capped_add(needle_points(hv, requested_role@), capped(needle_points(hv, task@)) as int);
        lemma_capped_add(needle_points(hv, task@), needle_points(hv, requested_role@));
    }
    sat_add(a, b)
}


/// The team role recorded for an agent id (the first record of it).
pub open spec fn hint_for(hints: Seq<(String, DelegateRoleHint)>, id: Seq<char>) -> Option<DelegateRoleHint>
    decreases hints.len(),
{
    if hints.len() == 0 {
        None
    } else if hints[0].0@ == id {
        Some(hints[0].1)
    } else {
        hint_for(hints.drop_first(), id)
    }
}

fn find_hint<'a>(hints: &'a Vec<(String, DelegateRoleHint)>, id: &str) -> (r: Option<&'a DelegateRoleHint>)
    ensures
        opt_hint(r) == hint_for(hints@, id@),
{
    let target = str_chars(id);
    let mut i: usize = 0;
    assert(hints@.skip(0) =~= hints@);
    while i < hints.len()
        invariant
            i <= hints.len(),
            target@ == id@,
            hint_for(hints@, id@) == hint_for(hints@.skip(i as int), id@),
        decreases hints.len() - i,
    {
        assert(hints@.skip(i as int).drop_first() =~= hints@.skip(i + 1));
        assert(hints@.skip(i as int)[0] == hints@[i as int]);
        let k = str_chars(hints[i].0.as_str());
        if chars_eq(&k, &target) {
            return Some(&hints[i].1);
        }
        i = i + 1;
    }
    assert(hints@.skip(i as int) =~= Seq::<(String, DelegateRoleHint)>::empty());
    None
}

/// The first index in `[i, n)` where `p` holds, or -1.
pub open spec fn first_from(i: int, n: int, p: spec_fn(int) -> bool) -> int
    decreases n - i,
{
    if i >= n {
        -1
    } else if p(i) {
        i
    } else {
        first_from(i + 1, n, p)
    }
}

pub proof fn lemma_first_from(i: int, n: int, p: spec_fn(int) -> bool)
    requires
        0 <= i <= n,
    ensures
        first_from(i, n, p) == -1 || (i <= first_from(i, n, p) < n && p(first_from(i, n, p))),
        first_from(i, n, p) == -1 ==> forall|j: int| i <= j < n ==> !#[trigger] p(j),
        first_from(i, n, p) >= 0 ==> forall|j: int| i <= j < first_from(i, n, p) ==> !#[trigger] p(j),
    decreases n - i,
{
    if i < n && !p(i) {
        lemma_first_from(i + 1, n, p);
        assert(first_from(i, n, p) == first_from(i + 1, n, p));
    }
}

/// The keys a requested role is looked up by: its lookup key, and its kebab key with and
/// without `agent-` when that is non-empty.
pub open spec fn requested_keys(requested: Seq<char>) -> Seq<Seq<char>> {
    seq![lookup_key(requested)] + (if kebab_key(requested).len() > 0 {
        seq![kebab_key(requested), "agent-"@ + kebab_key(requested)]
    } else {
        Seq::empty()
    })
}

/// Whether two key lists share a key.
pub open spec fn shares_key(a: Seq<Seq<char>>, b: Seq<Seq<char>>) -> bool {
    exists|i: int, j: int| 0 <= i < a.len() && 0 <= j < b.len() && a[i] == b[j]
}

/// Candidates whose id is the requested role.
pub open spec fn by_id(cands: Seq<DelegateCandidate>, requested: Seq<char>) -> spec_fn(int) -> bool {
    |i: int| cands[i].id@ == requested
}

/// Candidates with a lookup key of the requested role.
pub open spec fn by_key(
    cands: Seq<DelegateCandidate>,
    hints: Seq<(String, DelegateRoleHint)>,
    requested: Seq<char>,
) -> spec_fn(int) -> bool {
    |i: int| shares_key(agent_keys(cands[i], hint_for(hints, cands[i].id@)), requested_keys(requested))
}

/// Candidates whose (normalised, non-empty) name or team role contains the requested role.
pub open spec fn by_name(
    cands: Seq<DelegateCandidate>,
    hints: Seq<(String, DelegateRoleHint)>,
    requested: Seq<char>,
) -> spec_fn(int) -> bool {
    |i: int|
        {
            let n = lookup_key(requested);
            let a = lookup_key(cands[i].name@);
            (a.len() > 0 && contains(a, n)) || match hint_for(hints, cands[i].id@) {
                Some(h) => lookup_key(h.role@).len() > 0 && contains(lookup_key(h.role@), n),
                None => false,
            }
        }
}

/// The (capped) match score of candidate `i`.
pub open spec fn score_at(
    cands: Seq<DelegateCandidate>,
    hints: Seq<(String, DelegateRoleHint)>,
    requested: Seq<char>,
    task: Seq<char>,
    i: int,
) -> int {
    capped(match_score(cands[i], hint_for(hints, cands[i].id@), requested, task)) as int
}

/// Among the first `n` candidates with a positive score, the best: the highest score, then the
/// least recently updated, then the last.
pub open spec fn best_scored(
    cands: Seq<DelegateCandidate>,
    hints: Seq<(String, DelegateRoleHint)>,
    requested: Seq<char>,
    task: Seq<char>,
    n: int,
) -> int
    decreases n,
{
    if n <= 0 {
        -1
    } else {
        let prev = best_scored(cands, hints, requested, task, n - 1);
        let k = n - 1;
        let s = score_at(cands, hints, requested, task, k);
        if s <= 0 {
            prev
        } else if prev < 0 {
            k
        } else if score_at(cands, hints, requested, task, prev) > s || (score_at(
            cands,
            hints,
            requested,
            task,
            prev,
        ) == s && cands[k].updated_at > cands[prev].updated_at) {
            prev
        } else {
            k
        }
    }
}

/// The candidate a requested role resolves to, or -1: for a non-blank (trimmed) role, the
/// first whose id it is, else the first sharing a lookup key with it, else the first whose name
/// or team role contains it, else the best scored for the role and task.
pub open spec fn resolved_index(
    cands: Seq<DelegateCandidate>,
    hints: Seq<(String, DelegateRoleHint)>,
    role: Seq<char>,
    task: Seq<char>,
) -> int {
    let requested = trim(role);
    let n = cands.len() as int;
    if requested.len() == 0 {
        -1
    } else if first_from(0, n, by_id(cands, requested)) >= 0 {
        first_from(0, n, by_id(cands, requested))
    } else if first_from(0, n, by_key(cands, hints, requested)) >= 0 {
        first_from(0, n, by_key(cands, hints, requested))
    } else if first_from(0, n, by_name(cands, hints, requested)) >= 0 {
        first_from(0, n, by_name(cands, hints, requested))
    } else {
        best_scored(cands, hints, requested, task, n)
    }
}

fn requested_key_list(requested: &str) -> (r: Vec<String>)
    ensures
        r@.map_values(|k: String| k@) == requested_keys(requested@),
{
    let mut keys: Vec<String> = Vec::new();
    keys.push(normalize_delegate_lookup_key(requested));
    let kebab = kebab_case_delegate_lookup_key(requested);
    if str_chars(kebab.as_str()).len() > 0 {
        let mut prefixed = str_chars("agent-");
        push_str(&mut prefixed, kebab.as_str());
        keys.push(kebab);
        keys.push(chars_to_string(&prefixed));
    }
    assert(keys@.map_values(|k: String| k@) =~= requested_keys(requested@));
    keys
}

fn any_shared(a: &Vec<String>, b: &Vec<String>) -> (r: bool)
    ensures
        r == shares_key(a@.map_values(|k: String| k@), b@.map_values(|k: String| k@)),
{
    let ghost av = a@.map_values(|k: String| k@);
    let ghost bv = b@.map_values(|k: String| k@);
    let mut i: usize = 0;
    while i < a.len()
        invariant
            i <= a.len(),
            av == a@.map_values(|k: String| k@),
            bv == b@.map_values(|k: String| k@),
            forall|x: int, y: int| 0 <= x < i && 0 <= y < bv.len() ==> av[x] != bv[y],
        decreases a.len() - i,
    {
        let ka = str_chars(a[i].as_str());
        let mut j: usize = 0;
        while j < b.len()
            invariant
                i < a.len(),
                j <= b.len(),
                av == a@.map_values(|k: String| k@),
                bv == b@.map_values(|k: String| k@),
                ka@ == av[i as int],
                forall|x: int, y: int| 0 <= x < i && 0 <= y < bv.len() ==> av[x] != bv[y],
                forall|y: int| 0 <= y < j ==> av[i as int] != bv[y],
            decreases b.len() - j,
        {
            let kb = str_chars(b[j].as_str());
            if chars_eq(&ka, &kb) {
                assert(av[i as int] == bv[j as int]);
                return true;
            }
            j = j + 1;
        }
        i = i + 1;
    }
    false
}

fn name_or_role_contains(agent: &DelegateCandidate, hint: Option<&DelegateRoleHint>, normalized: &[char]) -> (r: bool)
    ensures
        r == ({
            let a = lookup_key(agent.name@);
            (a.len() > 0 && contains(a, normalized@)) || match opt_hint(hint) {
                Some(h) => lookup_key(h.role@).len() > 0 && contains(lookup_key(h.role@), normalized@),
                None => false,
            }
        }),
{
    let a = str_chars(normalize_delegate_lookup_key(agent.name.as_str()).as_str());
    if a.len() > 0 && contains_chars(&a, normalized) {
        return true;
    }
    match hint {
        Some(h) => {
            let r = str_chars(normalize_delegate_lookup_key(h.role.as_str()).as_str());
            r.len() > 0 && contains_chars(&r, normalized)
        },
        None => false,
    }
}

proof fn lemma_first_is(n: int, p: spec_fn(int) -> bool, i: int)
    requires
        0 <= i < n,
        p(i),
        forall|j: int| 0 <= j < i ==> !#[trigger] p(j),
    ensures
        first_from(0, n, p) == i,
{
    lemma_first_from(0, n, p);
}

proof fn lemma_none_is(n: int, p: spec_fn(int) -> bool)
    requires
        0 <= n,
        forall|j: int| 0 <= j < n ==> !#[trigger] p(j),
    ensures
        first_from(0, n, p) == -1,
{
    lemma_first_from(0, n, p);
}

/// Resolves the agent a delegated task goes to (see `resolved_index`).
pub fn resolve_delegate_agent<'a>(
    candidate_agents: &'a Vec<DelegateCandidate>,
    role_hints: &Vec<(String, DelegateRoleHint)>,
    requested_role: &str,
    task: &str,
) -> (r: Option<&'a DelegateCandidate>)
    ensures
        ({
            let i = resolved_index(candidate_agents@, role_hints@, requested_role@, task@);
            match r {
                Some(a) => 0 <= i < candidate_agents@.len() && *a == candidate_agents@[i],
                None => i < 0,
            }
        }),
{
    let ghost cands = candidate_agents@;
    let ghost hints = role_hints@;
    let ghost n = cands.len() as int;
    let req = trimmed_chars(requested_role);
    if req.len() == 0 {
        return None;
    }
    let requested = chars_to_string(&req);
    let ghost rq = req@;
    assert(rq == trim(requested_role@));
    // by id
    let mut i: usize = 0;
    while i < candidate_agents.len()
        invariant
            i <= candidate_agents.len(),
            cands == candidate_agents@,
            n == cands.len(),
            rq == req@,
            rq == trim(requested_role@),
            rq.len() > 0,
            forall|j: int| 0 <= j < i ==> !#[trigger] by_id(cands, rq)(j),
        decreases candidate_agents.len() - i,
    {
        let id = str_chars(candidate_agents[i].id.as_str());
        assert(id@ == cands[i as int].id@);
        if chars_eq(&id, &req) {
            proof {
                assert(cands[i as int].id@ == rq);
                assert(by_id(cands, rq)(i as int));
                lemma_first_is(n, by_id(cands, rq), i as int);
                assert(rq.len() > 0);
                assert(first_from(0, n, by_id(cands, rq)) == i);
                assert(resolved_index(cands, hints, requested_role@, task@) == i);
            }
            return Some(&candidate_agents[i]);
        }
        assert(!by_id(cands, rq)(i as int));
        i = i + 1;
    }
    proof {
        lemma_none_is(n, by_id(cands, rq));
    }
    // by lookup key
    let wanted = requested_key_list(requested.as_str());
    let mut i: usize = 0;
    while i < candidate_agents.len()
        invariant
            i <= candidate_agents.len(),
            cands == candidate_agents@,
            hints == role_hints@,
            n == cands.len(),
            rq == req@,
            rq == trim(requested_role@),
            rq.len() > 0,
            first_from(0, n, by_id(cands, rq)) == -1,
            wanted@.map_values(|k: String| k@) == requested_keys(rq),
            forall|j: int| 0 <= j < i ==> !#[trigger] by_key(cands, hints, rq)(j),
        decreases candidate_agents.len() - i,
    {
        let agent = &candidate_agents[i];
        let hint = find_hint(role_hints, agent.id.as_str());
        let keys = build_delegate_lookup_keys(agent, hint);
        if any_shared(&keys, &wanted) {
            proof {
                assert(by_key(cands, hints, rq)(i as int));
                lemma_first_is(n, by_key(cands, hints, rq), i as int);
            }
            return Some(agent);
        }
        i = i + 1;
    }
    proof {
        lemma_none_is(n, by_key(cands, hints, rq));
    }
    // by name or role
    let normalized = str_chars(normalize_delegate_lookup_key(requested.as_str()).as_str());
    let mut i: usize = 0;
    while i < candidate_agents.len()
        invariant
            i <= candidate_agents.len(),
            cands == candidate_agents@,
            hints == role_hints@,
            n == cands.len(),
            rq == req@,
            rq == trim(requested_role@),
            rq.len() > 0,
            first_from(0, n, by_id(cands, rq)) == -1,
            first_from(0, n, by_key(cands, hints, rq)) == -1,
            normalized@ == lookup_key(rq),
            forall|j: int| 0 <= j < i ==> !#[trigger] by_name(cands, hints, rq)(j),
        decreases candidate_agents.len() - i,
    {
        let agent = &candidate_agents[i];
        let hint = find_hint(role_hints, agent.id.as_str());
        if name_or_role_contains(agent, hint, &normalized) {
            proof {
                assert(by_name(cands, hints, rq)(i as int));
                lemma_first_is(n, by_name(cands, hints, rq), i as int);
            }
            return Some(agent);
        }
        i = i + 1;
    }
    proof {
        lemma_none_is(n, by_name(cands, hints, rq));
    }
    // by score
    let mut best: Option<usize> = None;
    let mut best_score: usize = 0;
    let mut i: usize = 0;
    while i < candidate_agents.len()
        invariant
            i <= candidate_agents.len(),
            cands == candidate_agents@,
            hints == role_hints@,
            n == cands.len(),
            rq == req@,
            rq == trim(requested_role@),
            rq.len() > 0,
            requested@ == rq,
            first_from(0, n, by_id(cands, rq)) == -1,
            first_from(0, n, by_key(cands, hints, rq)) == -1,
            first_from(0, n, by_name(cands, hints, rq)) == -1,
            match best {
                Some(b) => b < i && b as int == best_scored(cands, hints, rq, task@, i as int)
                    && best_score as int == score_at(cands, hints, rq, task@, b as int),
                None => best_scored(cands, hints, rq, task@, i as int) == -1,
            },
        decreases candidate_agents.len() - i,
    {
        let agent = &candidate_agents[i];
        let hint = find_hint(role_hints, agent.id.as_str());
        let score = score_delegate_agent_match(agent, hint, requested.as_str(), task);
        assert(score as int == score_at(cands, hints, rq, task@, i as int));
        if score > 0 {
            match best {
                None => {
                    best = Some(i);
                    best_score = score;
                },
                Some(b) => {
                    let keep = best_score > score || (best_score == score
                        && candidate_agents[i].updated_at > candidate_agents[b].updated_at);
                    if !keep {
                        best = Some(i);
                        best_score = score;
                    }
                },
            }
        }
        i = i + 1;
    }
    match best {
        Some(b) => Some(&candidate_agents[b]),
        None => None,
    }
}

/// How an agent is listed among delegation candidates: `name(id)`, and ` role=<role>` when it
/// has a non-blank team role.
pub open spec fn candidate_label(agent: DelegateCandidate, hint: Option<DelegateRoleHint>) -> Seq<char> {
    agent.name@ + "("@ + agent.id@ + ")"@ + match hint {
        Some(h) => if trim(h.role@).len() > 0 {
            " role="@ + trim(h.role@)
        } else {
            Seq::empty()
        },
        None => Seq::empty(),
    }
}

/// The candidates listed for the user: their labels joined by `, `, or `无` when there is none.
pub open spec fn candidates_text(
    cands: Seq<DelegateCandidate>,
    hints: Seq<(String, DelegateRoleHint)>,
) -> Seq<char> {
    if cands.len() == 0 {
        "无"@
    } else {
        join(
            Seq::new(cands.len(), |i: int| candidate_label(cands[i], hint_for(hints, cands[i].id@))),
            ", "@,
        )
    }
}

/// Lists the delegation candidates for the user.
pub fn format_delegate_candidates(
    candidate_agents: &Vec<DelegateCandidate>,
    role_hints: &Vec<(String, DelegateRoleHint)>,
) -> (r: String)
    ensures
        r@ == candidates_text(candidate_agents@, role_hints@),
{
    if candidate_agents.len() == 0 {
        return "无".to_owned();
    }
    let ghost cands = candidate_agents@;
    let ghost hints = role_hints@;
    let mut labels: Vec<Vec<char>> = Vec::new();
    let mut i: usize = 0;
    while i < candidate_agents.len()
        invariant
            i <= candidate_agents.len(),
            cands == candidate_agents@,
            hints == role_hints@,
            labels@.map_values(|l: Vec<char>| l@) =~= Seq::new(
                i as nat,
                |k: int| candidate_label(cands[k], hint_for(hints, cands[k].id@)),
            ),
        decreases candidate_agents.len() - i,
    {
        let agent = &candidate_agents[i];
        let mut label = str_chars(agent.name.as_str());
        push_str(&mut label, "(");
        push_str(&mut label, agent.id.as_str());
        push_str(&mut label, ")");
        match find_hint(role_hints, agent.id.as_str()) {
            Some(h) => {
                let role = trimmed_chars(h.role.as_str());
                if role.len() > 0 {
                    push_str(&mut label, " role=");
                    push_all(&mut label, &role);
                }
            },
            None => {},
        }
        let ghost before = labels@.map_values(|l: Vec<char>| l@);
        assert(label@ == candidate_label(cands[i as int], hint_for(hints, cands[i as int].id@)));
        labels.push(label);
        assert(labels@.map_values(|l: Vec<char>| l@) =~= before.push(
            candidate_label(cands[i as int], hint_for(hints, cands[i as int].id@)),
        ));
        i = i + 1;
    }
    let sep = str_chars(", ");
    let joined = join_vecs(&labels, &sep);
    chars_to_string(&joined)
}


pub type HintView = (Seq<char>, Seq<char>);

pub open spec fn hints_view(v: Seq<(String, DelegateRoleHint)>) -> Seq<HintView> {
    v.map_values(|h: (String, DelegateRoleHint)| (h.0@, h.1.role@))
}

/// Position of the first hint for `id`, or -1.
pub open spec fn hint_index(hs: Seq<HintView>, id: Seq<char>) -> int
    decreases hs.len(),
{
    if hs.len() == 0 {
        -1
    } else if hs[0].0 == id {
        0
    } else {
        let r = hint_index(hs.drop_first(), id);
        if r < 0 {
            -1
        } else {
            r + 1
        }
    }
}

pub proof fn lemma_hint_index(hs: Seq<HintView>, id: Seq<char>)
    ensures
        -1 <= hint_index(hs, id) < hs.len(),
        hint_index(hs, id) >= 0 ==> hs[hint_index(hs, id)].0 == id,
        forall|j: int| 0 <= j < hint_index(hs, id) ==> hs[j].0 != id,
        hint_index(hs, id) < 0 ==> forall|j: int| 0 <= j < hs.len() ==> hs[j].0 != id,
    decreases hs.len(),
{
    if hs.len() > 0 && hs[0].0 != id {
        lemma_hint_index(hs.drop_first(), id);
        assert forall|j: int| 1 <= j < hs.len() implies hs[j] == hs.drop_first()[j - 1] by {}
    }
}

/// The team members other than the caller, by agent id.
pub open spec fn roster_ids(members: Seq<(Seq<char>, Seq<char>)>, caller: Option<Seq<char>>) -> Seq<Seq<char>>
    decreases members.len(),
{
    if members.len() == 0 {
        Seq::empty()
    } else {
        let prev = roster_ids(members.drop_last(), caller);
        if caller == Some(members.last().0) {
            prev
        } else {
            prev.push(members.last().0)
        }
    }
}

/// The team roles of the members other than the caller: one per agent, a later non-blank role
/// replacing an earlier one.
pub open spec fn roster_hints(members: Seq<(Seq<char>, Seq<char>)>, caller: Option<Seq<char>>) -> Seq<HintView>
    decreases members.len(),
{
    if members.len() == 0 {
        Seq::empty()
    } else {
        let prev = roster_hints(members.drop_last(), caller);
        let m = members.last();
        if caller == Some(m.0) || trim(m.1).len() == 0 {
            prev
        } else {
            let k = hint_index(prev, m.0);
            if k >= 0 {
                prev.update(k, (m.0, m.1))
            } else {
                prev.push((m.0, m.1))
            }
        }
    }
}

pub open spec fn members_view(v: Seq<(String, String)>) -> Seq<(Seq<char>, Seq<char>)> {
    v.map_values(|m: (String, String)| (m.0@, m.1@))
}

fn find_hint_index(hints: &Vec<(String, DelegateRoleHint)>, id: &[char]) -> (r: Option<usize>)
    ensures
        match r {
            Some(k) => k as int == hint_index(hints_view(hints@), id@) && k < hints@.len(),
            None => hint_index(hints_view(hints@), id@) < 0,
        },
{
    let ghost hv = hints_view(hints@);
    proof {
        lemma_hint_index(hv, id@);
    }
    let mut i: usize = 0;
    while i < hints.len()
        invariant
            i <= hints.len(),
            hv == hints_view(hints@),
            forall|j: int| 0 <= j < i ==> hv[j].0 != id@,
            -1 <= hint_index(hv, id@) < hv.len(),
            hint_index(hv, id@) >= 0 ==> hv[hint_index(hv, id@)].0 == id@,
            forall|j: int| 0 <= j < hint_index(hv, id@) ==> hv[j].0 != id@,
            hint_index(hv, id@) < 0 ==> forall|j: int| 0 <= j < hv.len() ==> hv[j].0 != id@,
        decreases hints.len() - i,
    {
        let k = str_chars(hints[i].0.as_str());
        assert(hv[i as int].0 == hints@[i as int].0@);
        if chars_eq(&k, id) {
            return Some(i);
        }
        i = i + 1;
    }
    None
}

/// Splits a team's members (agent id and role) into the agents a delegation may reach, other
/// than the caller, and their team roles.
pub fn delegate_roster(members: &Vec<(String, String)>, caller_agent_id: Option<&str>) -> (r: (
    Vec<String>,
    Vec<(String, DelegateRoleHint)>,
))
    ensures
        r.0@.map_values(|id: String| id@) == roster_ids(members_view(members@), opt_str(caller_agent_id)),
        hints_view(r.1@) == roster_hints(members_view(members@), opt_str(caller_agent_id)),
{
    let ghost mv = members_view(members@);
    let ghost caller = opt_str(caller_agent_id);
    let caller_chars: Option<Vec<char>> = match caller_agent_id {
        Some(c) => Some(str_chars(c)),
        None => None,
    };
    let mut ids: Vec<String> = Vec::new();
    let mut hints: Vec<(String, DelegateRoleHint)> = Vec::new();
    let mut i: usize = 0;
    while i < members.len()
        invariant
            i <= members.len(),
            mv == members_view(members@),
            caller == opt_str(caller_agent_id),
            match caller_chars {
                Some(c) => caller == Some(c@),
                None => caller is None,
            },
            ids@.map_values(|id: String| id@) == roster_ids(mv.take(i as int), caller),
            hints_view(hints@) == roster_hints(mv.take(i as int), caller),
        decreases members.len() - i,
    {
        let ghost prev_ids = ids@.map_values(|id: String| id@);
        let ghost prev_hints = hints_view(hints@);
        assert(mv.take(i + 1).drop_last() =~= mv.take(i as int));
        assert(mv.take(i + 1).last() == (members@[i as int].0@, members@[i as int].1@));
        let id = str_chars(members[i].0.as_str());
        let is_caller = match &caller_chars {
            Some(c) => chars_eq(c, &id),
            None => false,
        };
        if !is_caller {
            let role = trimmed_chars(members[i].1.as_str());
            if role.len() > 0 {
                let hint = (members[i].0.clone(), DelegateRoleHint { role: members[i].1.clone() });
                proof {
                    lemma_hint_index(prev_hints, id@);
                }
                match find_hint_index(&hints, &id) {
                    Some(k) => {
                        hints.set(k, hint);
                        assert(hints_view(hints@) =~= prev_hints.update(k as int, (id@, members@[i as int].1@)));
                    },
                    None => {
                        hints.push(hint);
                        assert(hints_view(hints@) =~= prev_hints.push((id@, members@[i as int].1@)));
                    },
                }
            }
            ids.push(members[i].0.clone());
            assert(ids@.map_values(|id: String| id@) =~= prev_ids.push(id@));
        }
        i = i + 1;
    }
    assert(mv.take(members.len() as int) =~= mv);
    (ids, hints)
}

pub open spec fn opt_str(v: Option<&str>) -> Option<Seq<char>> {
    match v {
        Some(s) => Some(s@),
        None => None,
    }
}

/// Whether an agent may receive a delegation: it is not the caller and, when the team limits
/// the choice, it is a member.
pub open spec fn is_eligible(
    agent: DelegateCandidate,
    caller: Option<Seq<char>>,
    allowed: Option<Seq<Seq<char>>>,
) -> bool {
    caller != Some(agent.id@) && match allowed {
        Some(ids) => ids.contains(agent.id@),
        None => true,
    }
}

/// The agents that may receive a delegation, in order.
pub open spec fn eligible_agents(
    agents: Seq<DelegateCandidate>,
    caller: Option<Seq<char>>,
    allowed: Option<Seq<Seq<char>>>,
) -> Seq<DelegateCandidate>
    decreases agents.len(),
{
    if agents.len() == 0 {
        Seq::empty()
    } else {
        let prev = eligible_agents(agents.drop_last(), caller, allowed);
        if is_eligible(agents.last(), caller, allowed) {
            prev.push(agents.last())
        } else {
            prev
        }
    }
}

fn contains_id(ids: &Vec<String>, id: &[char]) -> (r: bool)
    ensures
        r == ids@.map_values(|x: String| x@).contains(id@),
{
    let ghost iv = ids@.map_values(|x: String| x@);
    let mut i: usize = 0;
    while i < ids.len()
        invariant
            i <= ids.len(),
            iv == ids@.map_values(|x: String| x@),
            forall|j: int| 0 <= j < i ==> iv[j] != id@,
        decreases ids.len() - i,
    {
        let x = str_chars(ids[i].as_str());
        if chars_eq(&x, id) {
            assert(iv[i as int] == id@);
            return true;
        }
        i = i + 1;
    }
    false
}

/// Keeps the agents that may receive a delegation (see `is_eligible`).
pub fn delegate_candidates(
    agents: Vec<DelegateCandidate>,
    caller_agent_id: Option<&str>,
    allowed_ids: Option<&Vec<String>>,
) -> (r: Vec<DelegateCandidate>)
    ensures
        r@ == eligible_agents(
            agents@,
            opt_str(caller_agent_id),
            match allowed_ids {
                Some(v) => Some(v@.map_values(|x: String| x@)),
                None => None,
            },
        ),
{
    let ghost orig = agents@;
    let ghost caller = opt_str(caller_agent_id);
    let ghost allowed = match allowed_ids {
        Some(v) => Some(v@.map_values(|x: String| x@)),
        None => None::<Seq<Seq<char>>>,
    };
    let caller_chars: Option<Vec<char>> = match caller_agent_id {
        Some(c) => Some(str_chars(c)),
        None => None,
    };
    let total = agents.len();
    let mut rest = agents;
    let mut out: Vec<DelegateCandidate> = Vec::new();
    let mut taken: usize = 0;
    while rest.len() > 0
        invariant
            taken + rest.len() == total,
            total == orig.len(),
            rest@ == orig.skip(taken as int),
            caller == opt_str(caller_agent_id),
            allowed == match allowed_ids {
                Some(v) => Some(v@.map_values(|x: String| x@)),
                None => None::<Seq<Seq<char>>>,
            },
            match caller_chars {
                Some(c) => caller == Some(c@),
                None => caller is None,
            },
            out@ == eligible_agents(orig.take(taken as int), caller, allowed),
        decreases rest.len(),
    {
        let a = rest.remove(0);
        assert(a == orig[taken as int]);
        assert(rest@ =~= orig.skip(taken + 1));
        assert(orig.take(taken + 1).drop_last() =~= orig.take(taken as int));
        assert(orig.take(taken + 1).last() == orig[taken as int]);
        let id = str_chars(a.id.as_str());
        let is_caller = match &caller_chars {
            Some(c) => chars_eq(c, &id),
            None => false,
        };
        let permitted = match allowed_ids {
            Some(v) => contains_id(v, &id),
            None => true,
        };
        if !is_caller && permitted {
            out.push(a);
        }
        taken = taken + 1;
    }
    assert(orig.take(total as int) =~= orig);
    out
}

/// The reply when no agent matches a delegation.
pub open spec fn not_found_text(
    role: Seq<char>,
    in_team: bool,
    cands: Seq<DelegateCandidate>,
    hints: Seq<(String, DelegateRoleHint)>,
) -> Seq<char> {
    "未找到匹配 '"@ + role + "' 的子智能体。请使用"@ + (if in_team {
        "当前团队成员"@
    } else {
        "当前直接聊天可调用的智能体"@
    }) + "中的真实 agentId、显示名"@ + (if in_team {
        "或团队 role"@
    } else {
        Seq::empty()
    }) + "。当前可委派智能体："@ + candidates_text(cands, hints)
}

/// Explains that no agent matches a delegation and lists the candidates.
pub fn delegate_not_found_error(
    role: &str,
    workspace_id: Option<&str>,
    candidate_agents: &Vec<DelegateCandidate>,
    role_hints: &Vec<(String, DelegateRoleHint)>,
) -> (r: String)
    ensures
        r@ == not_found_text(role@, workspace_id is Some, candidate_agents@, role_hints@),
{
    let mut out = str_chars("未找到匹配 '");
    push_str(&mut out, role);
    push_str(&mut out, "' 的子智能体。请使用");
    push_str(&mut out, crate::managed_runtime::delegate_scope_label(workspace_id));
    push_str(&mut out, "中的真实 agentId、显示名");
    if workspace_id.is_some() {
        push_str(&mut out, "或团队 role");
    } else {
        assert(out@ + Seq::<char>::empty() =~= out@);
    }
    push_str(&mut out, "。当前可委派智能体：");
    let available = format_delegate_candidates(candidate_agents, role_hints);
    push_str(&mut out, available.as_str());
    chars_to_string(&out)
}

/// The user message traced for a delegation.
pub open spec fn delegation_message(task: Seq<char>, context: Seq<char>) -> Seq<char> {
    "[委派任务] "@ + task + "\n\n"@ + context
}

/// The message a delegated run is traced with: the task, a blank line and the context.
pub fn delegate_trace_message(task: &str, context: &str) -> (r: String)
    ensures
        r@ == delegation_message(task@, context@),
{
    let mut out = str_chars("[委派任务] ");
    push_str(&mut out, task);
    push_str(&mut out, "\n\n");
    push_str(&mut out, context);
    chars_to_string(&out)
}

/// Numbers the tool calls of a delegated run as their events arrive.
#[derive(Debug, Clone, PartialEq, Eq)]
pub struct DelegateToolCounter {
    pub seen: Vec<String>,
    pub count: usize,
}

/// The next count: one more, wrapping around at the top.
pub open spec fn next_count(count: usize) -> usize {
    if count == usize::MAX {
        0
    } else {
        (count + 1) as usize
    }
}

impl DelegateToolCounter {
    /// No tool call seen yet.
    pub fn new() -> (r: Self)
        ensures
            r.seen@.len() == 0,
            r.count == 0,
    {
        DelegateToolCounter { seen: Vec::new(), count: 0 }
    }

    /// The index shown for a tool event: a new call (or one without an id) gets the next number;
    /// a call seen before is shown at the latest number.
    pub fn tool_index(&mut self, tool_call_id: &str) -> (r: usize)
        ensures
            ({
                let seen_before = tool_call_id@.len() > 0 && old(self).seen@.map_values(|s: String| s@).contains(tool_call_id@);
                if seen_before {
                    &&& r == (if old(self).count == 0 { 0 } else { (old(self).count - 1) as usize })
                    &&& final(self).count == old(self).count
                    &&& final(self).seen@.map_values(|s: String| s@) == old(self).seen@.map_values(|s: String| s@)
                } else {
                    &&& r == old(self).count
                    &&& final(self).count == next_count(old(self).count)
                    &&& final(self).seen@.map_values(|s: String| s@) == if tool_call_id@.len() > 0 {
                        old(self).seen@.map_values(|s: String| s@).push(tool_call_id@)
                    } else {
                        old(self).seen@.map_values(|s: String| s@)
                    }
                }
            }),
    {
        let id = str_chars(tool_call_id);
        let is_new = if id.len() > 0 {
            if contains_id(&self.seen, &id) {
                false
            } else {
                let ghost before = self.seen@.map_values(|s: String| s@);
                self.seen.push(tool_call_id.to_owned());
                assert(self.seen@.map_values(|s: String| s@) =~= before.push(tool_call_id@));
                true
            }
        } else {
            true
        };
        if is_new {
            let index = self.count;
            self.count = if self.count == usize::MAX {
                0
            } else {
                self.count + 1
            };
            index
        } else if self.count == 0 {
            0
        } else {
            self.count - 1
        }
    }
}

/// How a delegated run ended: whether it succeeded, the status reported to the UI and the
/// status its trace is finished with.
pub fn delegate_outcome(status: &str) -> (r: (bool, &'static str, &'static str))
    ensures
        r.0 == (status@ == "success"@),
        r.0 ==> r.1@ == "success"@ && r.2@ == "done"@,
        !r.0 ==> r.1@ == "error"@ && r.2@ == "error"@,
{
    let s = str_chars(status);
    if crate::text::chars_eq_str(&s, "success") {
        (true, "success", "done")
    } else {
        (false, "error", "error")
    }
}

/// How long an ask-user form waits: the requested time (ten minutes when none), kept between one
/// second and one hour.
pub fn ask_user_timeout_ms(requested: Option<u64>) -> (r: u64)
    ensures
        r == ({
            let t = match requested {
                Some(x) => x,
                None => 600000,
            };
            if t < 1000 {
                1000
            } else if t > 3600000 {
                3600000
            } else {
                t
            }
        }),
{
    let t = match requested {
        Some(x) => x,
        None => 600000,
    };
    if t < 1000 {
        1000
    } else if t > 3600000 {
        3600000
    } else {
        t
    }
}

} // verus!

verus! {

/// The agent picked by score has a positive score, no candidate scores higher, and no candidate
/// with the same score was updated earlier; nothing is picked only when no candidate scores.
pub proof fn lemma_best_scored_is_best(
    cands: Seq<DelegateCandidate>,
    hints: Seq<(String, DelegateRoleHint)>,
    requested: Seq<char>,
    task: Seq<char>,
    n: int,
)
    requires
        0 <= n <= cands.len(),
    ensures
        ({
            let b = best_scored(cands, hints, requested, task, n);
            &&& (b == -1) == (forall|j: int| 0 <= j < n ==> score_at(cands, hints, requested, task, j) <= 0)
            &&& b != -1 ==> {
                &&& 0 <= b < n
                &&& score_at(cands, hints, requested, task, b) > 0
                &&& forall|j: int|
                    0 <= j < n ==> score_at(cands, hints, requested, task, j) < score_at(
                        cands,
                        hints,
                        requested,
                        task,
                        b,
                    ) || (score_at(cands, hints, requested, task, j) == score_at(cands, hints, requested, task, b)
                        && cands[j].updated_at >= cands[b].updated_at)
            }
        }),
    decreases n,
{
    if n > 0 {
        lemma_best_scored_is_best(cands, hints, requested, task, n - 1);
    }
}

} // verus!
