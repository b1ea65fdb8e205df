//! The `::nc-media{...}` directive format, markdown media links and bare media paths.
use vstd::prelude::*;
use crate::percent::{decoded_value, percent_encode, url_decode, url_encode};
use crate::text::{
    chars_to_string, ends_with, has_prefix, has_suffix, is_ascii_ws, push_all, slice_to_vec,
    starts_with, str_chars, trim, trim_vec,
};
use vstd::utf8::encode_utf8;

verus! {

/// Percent-decodes a directive value; text that does not decode to UTF-8 stays as written.
pub fn decode_directive_value(value: &str) -> (r: String)
    ensures
        r@ == decoded_value(value@),
{
    match url_decode(value) {
        Some(decoded) => decoded,
        None => value.to_owned(),
    }
}

fn decode_chars(value: &[char]) -> (r: Vec<char>)
    ensures
        r@ == decoded_value(value@),
{
    let s = chars_to_string(value);
    let d = decode_directive_value(s.as_str());
    str_chars(d.as_str())
}

/// Percent-encodes a directive value.
pub fn encode_directive_value(value: &str) -> (r: String)
    ensures
        r@ == percent_encode(encode_utf8(value@)),
{
    url_encode(value)
}

/// `s` with every non-overlapping occurrence of `p`, scanned from the left, replaced by `rep`.
pub open spec fn replace_all(s: Seq<char>, p: Seq<char>, rep: Seq<char>) -> Seq<char>
    recommends
        p.len() > 0,
    decreases s.len(),
{
    if s.len() == 0 || p.len() == 0 {
        s
    } else if starts_with(s, p) {
        rep + replace_all(s.skip(p.len() as int), p, rep)
    } else {
        seq![s[0]] + replace_all(s.drop_first(), p, rep)
    }
}

/// Replaces every occurrence of `p` in `s` with `rep`.
pub fn replace_chars(s: &[char], p: &[char], rep: &[char]) -> (r: Vec<char>)
    requires
        p.len() > 0,
    ensures
        r@ == replace_all(s@, p@, rep@),
{
    let mut out: Vec<char> = Vec::new();
    let mut i: usize = 0;
    assert(s@.skip(0) =~= s@);
    while i < s.len()
        invariant
            i <= s.len(),
            p.len() > 0,
            out@ + replace_all(s@.skip(i as int), p@, rep@) == replace_all(s@, p@, rep@),
        decreases s.len() - i,
    {
        let ghost rest = s@.skip(i as int);
        let hit = crate::text::matches_at(s, p, i);
        if hit {
            assert(rest.take(p@.len() as int) =~= s@.subrange(i as int, i + p@.len()));
            assert(rest.skip(p@.len() as int) =~= s@.skip(i + p@.len()));
            let ghost before = out@;
            push_all(&mut out, rep);
            assert(before + (rep@ + replace_all(rest.skip(p@.len() as int), p@, rep@)) =~= out@
                + replace_all(s@.skip(i + p@.len()), p@, rep@));
            i = i + p.len();
        } else {
            proof {
                if p@.len() <= rest.len() {
                    assert(rest.take(p@.len() as int) =~= s@.subrange(i as int, i + p@.len()));
                }
            }
            assert(rest.drop_first() =~= s@.skip(i + 1));
            let ghost before = out@;
            out.push(s[i]);
            assert(before + (seq![rest[0]] + replace_all(rest.drop_first(), p@, rep@)) =~= out@
                + replace_all(s@.skip(i + 1), p@, rep@));
            i = i + 1;
        }
    }
    assert(s@.skip(i as int) =~= Seq::<char>::empty());
    assert(out@ + Seq::<char>::empty() =~= out@);
    out
}

/// The path encoding used in directives: percent-encoded, with `/`, `:` and `\` kept readable.
pub open spec fn encode_path_spec(value: Seq<char>) -> Seq<char> {
    replace_all(
        replace_all(
            replace_all(percent_encode(encode_utf8(value)), "%2F"@, "/"@),
            "%3A"@,
            ":"@,
        ),
        "%5C"@,
        "\\"@,
    )
}

/// Percent-encodes a path value but keeps separators and drive colons.
pub fn encode_directive_path_value(value: &str) -> (r: String)
    ensures
        r@ == encode_path_spec(value@),
{
    proof {
        reveal_strlit("%2F");
        reveal_strlit("%3A");
        reveal_strlit("%5C");
    }
    let enc = encode_directive_value(value);
    let v = str_chars(enc.as_str());
    let p1 = str_chars("%2F");
    let r1 = str_chars("/");
    let a = replace_chars(&v, &p1, &r1);
    let p2 = str_chars("%3A");
    let r2 = str_chars(":");
    let b = replace_chars(&a, &p2, &r2);
    let p3 = str_chars("%5C");
    let r3 = str_chars("\\");
    let c = replace_chars(&b, &p3, &r3);
    chars_to_string(&c)
}

} // verus!

verus! {

/// First index at or after `i` that is not ASCII whitespace.
pub open spec fn skip_ws_from(s: Seq<char>, i: int) -> int
    decreases s.len() - i,
{
    if 0 <= i < s.len() && is_ascii_ws(s[i]) {
        skip_ws_from(s, i + 1)
    } else {
        i
    }
}

/// End of the attribute key that starts at `i`: the first ASCII whitespace or `=`.
pub open spec fn key_end_from(s: Seq<char>, i: int) -> int
    decreases s.len() - i,
{
    if 0 <= i < s.len() && !is_ascii_ws(s[i]) && s[i] != '=' {
        key_end_from(s, i + 1)
    } else {
        i
    }
}

/// End of the run of non-whitespace characters that starts at `i`.
pub open spec fn word_end_from(s: Seq<char>, i: int) -> int
    decreases s.len() - i,
{
    if 0 <= i < s.len() && !is_ascii_ws(s[i]) {
        word_end_from(s, i + 1)
    } else {
        i
    }
}

/// First index at or after `i` that holds `q` (or the length).
pub open spec fn quote_end_from(s: Seq<char>, i: int, q: char) -> int
    decreases s.len() - i,
{
    if 0 <= i < s.len() && s[i] != q {
        quote_end_from(s, i + 1, q)
    } else {
        i
    }
}

pub proof fn lemma_scan_bounds(s: Seq<char>, i: int, q: char)
    requires
        0 <= i <= s.len(),
    ensures
        i <= skip_ws_from(s, i) <= s.len(),
        i <= key_end_from(s, i) <= s.len(),
        i <= word_end_from(s, i) <= s.len(),
        i <= quote_end_from(s, i, q) <= s.len(),
    decreases s.len() - i,
{
    if i < s.len() {
        lemma_scan_bounds(s, i + 1, q);
    }
}

/// Whether `c` opens a quoted attribute value.
pub open spec fn is_quote(c: char) -> bool {
    c == '"' || c == '\''
}

/// The `key=value` attributes found in `s` from index `i` on. Keys are trimmed; values may be
/// quoted with `"` or `'` (an unterminated quote runs to the end) and are trimmed and
/// percent-decoded. Words without `=` and pairs with an empty key or no value are skipped.
pub open spec fn attrs_from(s: Seq<char>, i: int) -> Seq<(Seq<char>, Seq<char>)>
    decreases s.len() - i,
{
    if i < 0 || i >= s.len() {
        Seq::empty()
    } else {
        let a = skip_ws_from(s, i);
        proof {
            lemma_scan_bounds(s, i, ' ');
        }
        if a >= s.len() {
            Seq::empty()
        } else {
            let k = key_end_from(s, a);
            proof {
                lemma_scan_bounds(s, a, ' ');
            }
            if k >= s.len() || s[k] != '=' {
                if k <= i {
                    Seq::empty()
                } else {
                    attrs_from(s, k)
                }
            } else {
                let key = trim(s.subrange(a, k));
                let v = skip_ws_from(s, k + 1);
                proof {
                    lemma_scan_bounds(s, k + 1, ' ');
                }
                if key.len() == 0 || v >= s.len() {
                    attrs_from(s, v)
                } else if is_quote(s[v]) {
                    let e = quote_end_from(s, v + 1, s[v]);
                    proof {
                        lemma_scan_bounds(s, v + 1, s[v]);
                    }
                    let next = if e < s.len() {
                        e + 1
                    } else {
                        e
                    };
                    seq![(key, decoded_value(trim(s.subrange(v + 1, e))))] + attrs_from(s, next)
                } else {
                    let e = word_end_from(s, v);
                    proof {
                        lemma_scan_bounds(s, v, ' ');
                    }
                    seq![(key, decoded_value(trim(s.subrange(v, e))))] + attrs_from(
                        s,
                        if e > i {
                            e
                        } else {
                            s.len() as int
                        },
                    )
                }
            }
        }
    }
}

fn is_ascii_ws_char(c: char) -> (b: bool)
    ensures
        b == is_ascii_ws(c),
{
    c == ' ' || c == '\t' || c == '\n' || c == '\x0C' || c == '\r'
}

fn skip_ws(s: &[char], i: usize) -> (r: usize)
    requires
        i <= s.len(),
    ensures
        r == skip_ws_from(s@, i as int),
{
    let mut j = i;
    while j < s.len() && is_ascii_ws_char(s[j])
        invariant
            i <= j <= s.len(),
            skip_ws_from(s@, j as int) == skip_ws_from(s@, i as int),
        decreases s.len() - j,
    {
        j = j + 1;
    }
    j
}

fn key_end(s: &[char], i: usize) -> (r: usize)
    requires
        i <= s.len(),
    ensures
        r == key_end_from(s@, i as int),
{
    let mut j = i;
    while j < s.len() && !is_ascii_ws_char(s[j]) && s[j] != '='
        invariant
            i <= j <= s.len(),
            key_end_from(s@, j as int) == key_end_from(s@, i as int),
        decreases s.len() - j,
    {
        j = j + 1;
    }
    j
}

fn word_end(s: &[char], i: usize) -> (r: usize)
    requires
        i <= s.len(),
    ensures
        r == word_end_from(s@, i as int),
{
    let mut j = i;
    while j < s.len() && !is_ascii_ws_char(s[j])
        invariant
            i <= j <= s.len(),
            word_end_from(s@, j as int) == word_end_from(s@, i as int),
        decreases s.len() - j,
    {
        j = j + 1;
    }
    j
}

fn quote_end(s: &[char], i: usize, q: char) -> (r: usize)
    requires
        i <= s.len(),
    ensures
        r == quote_end_from(s@, i as int, q),
{
    let mut j = i;
    while j < s.len() && s[j] != q
        invariant
            i <= j <= s.len(),
            quote_end_from(s@, j as int, q) == quote_end_from(s@, i as int, q),
        decreases s.len() - j,
    {
        j = j + 1;
    }
    j
}

/// The view of a list of attribute pairs.
pub open spec fn pairs_view(v: Seq<(Vec<char>, Vec<char>)>) -> Seq<(Seq<char>, Seq<char>)> {
    v.map_values(|p: (Vec<char>, Vec<char>)| (p.0@, p.1@))
}

/// Parses `key=value` attributes from a directive body.
pub fn parse_attributes(body: &[char]) -> (r: Vec<(Vec<char>, Vec<char>)>)
    ensures
        pairs_view(r@) == attrs_from(body@, 0),
{
    let s = body;
    let mut out: Vec<(Vec<char>, Vec<char>)> = Vec::new();
    let mut index: usize = 0;
    while index < s.len()
        invariant
            index <= s.len(),
            pairs_view(out@) + attrs_from(s@, index as int) == attrs_from(s@, 0),
        decreases s.len() - index,
    {
        let start = index;
        let ghost i0 = index as int;
        let ghost before = pairs_view(out@);
        proof {
            lemma_scan_bounds(s@, i0, ' ');
        }
        index = skip_ws(s, index);
        if index >= s.len() {
            assert(attrs_from(s@, i0) =~= Seq::<(Seq<char>, Seq<char>)>::empty());
            assert(before + Seq::<(Seq<char>, Seq<char>)>::empty() =~= before);
            index = s.len();
            continue;
        }
        let key_start = index;
        proof {
            lemma_scan_bounds(s@, key_start as int, ' ');
        }
        index = key_end(s, index);
        if index >= s.len() || s[index] != '=' {
            if index <= start {
                assert(attrs_from(s@, i0) =~= Seq::<(Seq<char>, Seq<char>)>::empty());
                assert(before + Seq::<(Seq<char>, Seq<char>)>::empty() =~= before);
                index = s.len();
            } else {
                assert(attrs_from(s@, i0) == attrs_from(s@, index as int));
            }
            continue;
        }
        let raw_key = slice_to_vec(s, key_start, index);
        let key = trim_vec(&raw_key);
        proof {
            lemma_scan_bounds(s@, index + 1, ' ');
        }
        index = skip_ws(s, index + 1);
        if key.len() == 0 || index >= s.len() {
            assert(attrs_from(s@, i0) == attrs_from(s@, index as int));
            continue;
        }
        let value: Vec<char>;
        if s[index] == '"' || s[index] == '\'' {
            let quote = s[index];
            proof {
                lemma_scan_bounds(s@, index + 1, quote);
            }
            let e = quote_end(s, index + 1, quote);
            value = slice_to_vec(s, index + 1, e);
            if e < s.len() {
                index = e + 1;
            } else {
                index = e;
            }
        } else {
            proof {
                lemma_scan_bounds(s@, index as int, ' ');
            }
            let e = word_end(s, index);
            value = slice_to_vec(s, index, e);
            index = e;
        }
        let trimmed_value = trim_vec(&value);
        let decoded = decode_chars(&trimmed_value);
        let ghost pair = (key@, decoded@);
        out.push((key, decoded));
        assert(attrs_from(s@, i0) == seq![pair] + attrs_from(s@, index as int));
        assert(pairs_view(out@) =~= before.push(pair));
        assert(before.push(pair) + attrs_from(s@, index as int) =~= before + (seq![pair]
            + attrs_from(s@, index as int)));
    }
    assert(attrs_from(s@, index as int) =~= Seq::<(Seq<char>, Seq<char>)>::empty());
    assert(pairs_view(out@) + Seq::<(Seq<char>, Seq<char>)>::empty() =~= pairs_view(out@));
    out
}

} // verus!

verus! {

/// The fields of an `::nc-media{...}` directive.
#[derive(Debug, Clone, PartialEq, Eq)]
pub struct MediaDirectiveFields {
    pub media_type: Option<String>,
    pub path: String,
    pub name: Option<String>,
    pub label: Option<String>,
}

/// A markdown link `[label](path)` (optionally an image link `![label](path)`).
#[derive(Debug, Clone, PartialEq, Eq)]
pub struct MarkdownMediaReference {
    pub label: String,
    pub path: String,
}

/// A line that is nothing but a file path.
#[derive(Debug, Clone, PartialEq, Eq)]
pub struct PlainMediaPathReference {
    pub path: String,
}

/// The abstract content of directive fields: type, path, name, label.
pub type FieldsView = (Option<Seq<char>>, Seq<char>, Option<Seq<char>>, Option<Seq<char>>);

pub open spec fn fields_view(f: MediaDirectiveFields) -> FieldsView {
    (f.media_type.deep_view(), f.path@, f.name.deep_view(), f.label.deep_view())
}

/// The value of the last attribute named `key`.
pub open spec fn last_attr(attrs: Seq<(Seq<char>, Seq<char>)>, key: Seq<char>) -> Option<
    Seq<char>,
>
    decreases attrs.len(),
{
    if attrs.len() == 0 {
        None
    } else if attrs.last().0 == key {
        Some(attrs.last().1)
    } else {
        last_attr(attrs.drop_last(), key)
    }
}

pub open spec fn directive_prefix() -> Seq<char> {
    "::nc-media{"@
}

/// The text between `::nc-media{` and the closing `}` of a trimmed directive line.
pub open spec fn directive_body(line: Seq<char>) -> Option<Seq<char>> {
    let t = trim(line);
    if starts_with(t, directive_prefix()) && ends_with(t, "}"@) {
        Some(t.subrange(directive_prefix().len() as int, t.len() - 1))
    } else {
        None
    }
}

/// What a directive line parses to: its last `type`, `path`, `name` and `label` attributes;
/// nothing when the line is not a directive or names no path.
pub open spec fn directive_fields(line: Seq<char>) -> Option<FieldsView> {
    match directive_body(line) {
        Some(body) => {
            let attrs = attrs_from(body, 0);
            match last_attr(attrs, "path"@) {
                Some(path) => Some(
                    (
                        last_attr(attrs, "type"@),
                        path,
                        last_attr(attrs, "name"@),
                        last_attr(attrs, "label"@),
                    ),
                ),
                None => None,
            }
        },
        None => None,
    }
}

fn opt_string(v: Option<Vec<char>>) -> (r: Option<String>)
    ensures
        r.deep_view() == match v {
            Some(x) => Some(x@),
            None => None::<Seq<char>>,
        },
{
    match v {
        Some(x) => Some(chars_to_string(&x)),
        None => None,
    }
}

/// Parses an `::nc-media{type=".." path=".." name=".." label=".."}` line.
pub fn parse_media_directive_fields(line: &str) -> (r: Option<MediaDirectiveFields>)
    ensures
        match directive_fields(line@) {
            Some(v) => r matches Some(f) && fields_view(f) == v,
            None => r is None,
        },
{
    proof {
        reveal_strlit("::nc-media{");
        reveal_strlit("}");
        reveal_strlit("type");
        reveal_strlit("path");
        reveal_strlit("name");
        reveal_strlit("label");
        assert("type"@[0] != "path"@[0] && "type"@[0] != "name"@[0] && "type"@[0] != "label"@[0]);
        assert("path"@[0] != "name"@[0] && "path"@[0] != "label"@[0]);
        assert("name"@[0] != "label"@[0]);
    }
    let t = crate::text::trimmed_chars(line);
    let prefix = str_chars("::nc-media{");
    let close = str_chars("}");
    if !has_prefix(&t, &prefix) || !has_suffix(&t, &close) {
        return None;
    }
    assert(t@.take(11)[10] == '{');
    assert(t@[10] == '{');
    assert(t@.skip(t@.len() - 1)[0] == '}');
    assert(t@[t@.len() - 1] == '}');
    let body = slice_to_vec(&t, 11, t.len() - 1);
    let attrs = parse_attributes(&body);
    let ghost av = attrs_from(body@, 0);
    let type_key = str_chars("type");
    let path_key = str_chars("path");
    let name_key = str_chars("name");
    let label_key = str_chars("label");
    let mut media_type: Option<Vec<char>> = None;
    let mut path: Option<Vec<char>> = None;
    let mut name: Option<Vec<char>> = None;
    let mut label: Option<Vec<char>> = None;
    let mut i: usize = 0;
    while i < attrs.len()
        invariant
            i <= attrs.len(),
            pairs_view(attrs@) == av,
            type_key@ == "type"@,
            path_key@ == "path"@,
            name_key@ == "name"@,
            label_key@ == "label"@,
            "type"@ != "path"@ && "type"@ != "name"@ && "type"@ != "label"@,
            "path"@ != "name"@ && "path"@ != "label"@ && "name"@ != "label"@,
            opt_view(media_type) == last_attr(av.take(i as int), "type"@),
            opt_view(path) == last_attr(av.take(i as int), "path"@),
            opt_view(name) == last_attr(av.take(i as int), "name"@),
            opt_view(label) == last_attr(av.take(i as int), "label"@),
        decreases attrs.len() - i,
    {
        let key = &attrs[i].0;
        let value = &attrs[i].1;
        assert(av.take(i + 1).drop_last() =~= av.take(i as int));
        assert(av.take(i + 1).last() == (key@, value@));
        if crate::text::chars_eq(key, &type_key) {
            media_type = Some(value.clone());
        } else if crate::text::chars_eq(key, &path_key) {
            path = Some(value.clone());
        } else if crate::text::chars_eq(key, &name_key) {
            name = Some(value.clone());
        } else if crate::text::chars_eq(key, &label_key) {
            label = Some(value.clone());
        }
        i = i + 1;
    }
    assert(av.take(attrs.len() as int) =~= av);
    match path {
        Some(p) => Some(
            MediaDirectiveFields {
                media_type: opt_string(media_type),
                path: chars_to_string(&p),
                name: opt_string(name),
                label: opt_string(label),
            },
        ),
        None => None,
    }
}

pub open spec fn opt_view(v: Option<Vec<char>>) -> Option<Seq<char>> {
    match v {
        Some(x) => Some(x@),
        None => None,
    }
}

} // verus!

verus! {

pub proof fn lemma_first_index_unique(s: Seq<char>, p: Seq<char>, i: int, j: int)
    requires
        crate::text::first_index_of(s, p, i),
        crate::text::first_index_of(s, p, j),
    ensures
        i == j,
{
}

pub proof fn lemma_last_index_unique(s: Seq<char>, p: Seq<char>, i: int, j: int)
    requires
        crate::text::last_index_of(s, p, i),
        crate::text::last_index_of(s, p, j),
    ensures
        i == j,
{
}

/// The position of the first `](` and the last `)` in `n`, when both occur.
pub open spec fn link_marks(n: Seq<char>) -> Option<(int, int)> {
    if crate::text::contains(n, "]("@) && crate::text::contains(n, ")"@) {
        let c = choose|i: int| crate::text::first_index_of(n, "]("@, i);
        let e = choose|i: int| crate::text::last_index_of(n, ")"@, i);
        Some((c, e))
    } else {
        None
    }
}

/// What a markdown media link parses to: the trimmed label between `[` and the first `](`,
/// and the trimmed, percent-decoded target up to the last `)`.
pub open spec fn markdown_reference(line: Seq<char>) -> Option<(Seq<char>, Seq<char>)> {
    let t = trim(line);
    let n = if starts_with(t, "!"@) {
        t.skip(1)
    } else {
        t
    };
    if !starts_with(n, "["@) {
        None
    } else {
        match link_marks(n) {
            Some((c, e)) => {
                if c <= 1 || e <= c + 2 {
                    None
                } else {
                    let raw = trim(n.subrange(c + 2, e));
                    if raw.len() == 0 {
                        None
                    } else {
                        Some((trim(n.subrange(1, c)), decoded_value(raw)))
                    }
                }
            },
            None => None,
        }
    }
}

/// A markdown link `[label](target)` names its target up to the last `)` of the line: for a
/// label of at least one character in which `](` does not occur and a target that is not blank
/// (it may itself hold `)`), the link reads as the trimmed label and the trimmed, decoded target.
pub proof fn lemma_markdown_target_ends_at_last_paren(label: Seq<char>, target: Seq<char>)
    requires
        label.len() >= 1,
        !crate::text::contains(label, "]("@),
        trim(target).len() > 0,
    ensures
        markdown_reference(seq!['['] + label + "]("@ + target + seq![')']) == Some(
            (trim(label), decoded_value(trim(target))),
        ),
{
    reveal_strlit("](");
    reveal_strlit(")");
    reveal_strlit("[");
    reveal_strlit("!");
    let n = seq!['['] + label + "]("@ + target + seq![')'];
    let c: int = label.len() as int + 1;
    let e: int = n.len() - 1;
    assert(n[0] == '[');
    assert(n[e] == ')');
    crate::text::lemma_trim_untouched(n);
    assert(!starts_with(n, "!"@)) by {
        assert(n.take(1)[0] == '[');
    }
    assert(starts_with(n, "["@)) by {
        assert(n.take(1) =~= "["@);
    }
    assert(crate::text::occurs_at(n, "]("@, c)) by {
        assert(n.subrange(c, c + 2) =~= "]("@);
    }
    assert forall|j: int| 0 <= j < c implies !crate::text::occurs_at(n, "]("@, j) by {
        if crate::text::occurs_at(n, "]("@, j) {
            if j == 0 {
                assert(n[0] == n.subrange(j, j + 2)[0]);
            } else if j + 1 < c {
                assert(label.subrange(j - 1, j + 1) =~= n.subrange(j, j + 2));
                assert(crate::text::occurs_at(label, "]("@, j - 1));
            } else {
                assert(n[j + 1] == n.subrange(j, j + 2)[1]);
                assert(n[j + 1] == ']');
            }
        }
    }
    assert(crate::text::first_index_of(n, "]("@, c));
    assert(crate::text::occurs_at(n, ")"@, e)) by {
        assert(n.subrange(e, e + 1) =~= ")"@);
    }
    assert(crate::text::last_index_of(n, ")"@, e));
    assert(crate::text::contains(n, "]("@));
    assert(crate::text::contains(n, ")"@));
    let cc = choose|i: int| crate::text::first_index_of(n, "]("@, i);
    lemma_first_index_unique(n, "]("@, c, cc);
    let ee = choose|i: int| crate::text::last_index_of(n, ")"@, i);
    lemma_last_index_unique(n, ")"@, e, ee);
    assert(n.subrange(c + 2, e) =~= target);
    assert(n.subrange(1, c) =~= label);
}

/// Parses `[label](path)` or `![label](path)`.
pub fn parse_markdown_media_reference(line: &str) -> (r: Option<MarkdownMediaReference>)
    ensures
        match markdown_reference(line@) {
            Some((label, path)) => r matches Some(m) && m.label@ == label && m.path@ == path,
            None => r is None,
        },
{
    proof {
        reveal_strlit("!");
        reveal_strlit("[");
        reveal_strlit("](");
        reveal_strlit(")");
    }
    let t = crate::text::trimmed_chars(line);
    let bang = str_chars("!");
    let n: Vec<char> = if has_prefix(&t, &bang) {
        assert(t@.skip(1) =~= t@.subrange(1, t@.len() as int));
        slice_to_vec(&t, 1, t.len())
    } else {
        t
    };
    let open = str_chars("[");
    if !has_prefix(&n, &open) {
        return None;
    }
    let mid = str_chars("](");
    let close = str_chars(")");
    let c = match crate::text::find(&n, &mid) {
        Some(c) => c,
        None => {
            return None;
        },
    };
    let e = match crate::text::rfind(&n, &close) {
        Some(e) => e,
        None => {
            return None;
        },
    };
    proof {
        let cc = choose|i: int| crate::text::first_index_of(n@, "]("@, i);
        lemma_first_index_unique(n@, "]("@, c as int, cc);
        let ee = choose|i: int| crate::text::last_index_of(n@, ")"@, i);
        lemma_last_index_unique(n@, ")"@, e as int, ee);
    }
    assert(mid@.len() == 2);
    assert(c + 2 <= n.len());
    if c <= 1 || e <= c + 2 {
        return None;
    }
    let raw_path = slice_to_vec(&n, c + 2, e);
    let raw = trim_vec(&raw_path);
    if raw.len() == 0 {
        return None;
    }
    let raw_label = slice_to_vec(&n, 1, c);
    let label = trim_vec(&raw_label);
    let path = decode_chars(&raw);
    Some(MarkdownMediaReference { label: chars_to_string(&label), path: chars_to_string(&path) })
}

} // verus!

verus! {

/// `c` without a leading `- `, `* ` or `• ` list marker.
pub open spec fn strip_bullet(c: Seq<char>) -> Seq<char> {
    if starts_with(c, "- "@) || starts_with(c, "* "@) || starts_with(c, "• "@) {
        trim(c.skip(2))
    } else {
        c
    }
}

/// Whether every character of `s` is an ASCII digit.
pub open spec fn all_digits(s: Seq<char>) -> bool {
    forall|i: int| 0 <= i < s.len() ==> crate::text::is_ascii_digit(#[trigger] s[i])
}

/// `c` without a leading `12. ` enumeration marker (the first `. ` must follow only digits).
pub open spec fn strip_enumeration(c: Seq<char>) -> Seq<char> {
    if crate::text::contains(c, ". "@) {
        let d = choose|i: int| crate::text::first_index_of(c, ". "@, i);
        if d > 0 && all_digits(c.take(d)) {
            trim(c.skip(d + 2))
        } else {
            c
        }
    } else {
        c
    }
}

/// Whether `c` is wrapped in a pair of backticks or quotes.
pub open spec fn is_quoted(c: Seq<char>) -> bool {
    c.len() >= 2 && ((c[0] == '`' && c.last() == '`') || (c[0] == '"' && c.last() == '"') || (
    c[0] == '\'' && c.last() == '\''))
}

pub open spec fn strip_quotes(c: Seq<char>) -> Seq<char> {
    if is_quoted(c) {
        trim(c.subrange(1, c.len() - 1))
    } else {
        c
    }
}

/// Characters a bare file name may hold.
pub open spec fn is_file_name_char(c: char) -> bool {
    crate::text::is_ascii_alnum(c) || c == '.' || c == '_' || c == '-' || c == ' ' || c == '('
        || c == ')' || c == '[' || c == ']'
}

/// An extension that is neither empty nor longer than ten UTF-8 bytes.
pub open spec fn has_reasonable_extension(path: Seq<char>) -> bool {
    match crate::paths::extension(path) {
        Some(ext) => ext.len() > 0 && encode_utf8(ext).len() <= 10,
        None => false,
    }
}

/// An absolute Unix path or a `C:\`/`C:/` drive path.
pub open spec fn looks_absolute(p: Seq<char>) -> bool {
    starts_with(p, "/"@) || (p.len() >= 3 && crate::text::is_ascii_alpha(p[0]) && p[1] == ':' && (
    p[2] == '/' || p[2] == '\\'))
}

/// A path with a directory part.
pub open spec fn looks_relative(p: Seq<char>) -> bool {
    starts_with(p, "./"@) || starts_with(p, "../"@) || crate::text::contains(p, "/"@)
        || crate::text::contains(p, "\\"@)
}

/// A bare file name of plain characters.
pub open spec fn looks_file_name(p: Seq<char>) -> bool {
    forall|i: int| 0 <= i < p.len() ==> is_file_name_char(#[trigger] p[i])
}

/// The candidate path of a line once list markers, numbering and quotes are removed, decoded.
pub open spec fn plain_candidate(line: Seq<char>) -> Seq<char> {
    decoded_value(strip_quotes(strip_enumeration(strip_bullet(trim(line)))))
}

/// What a bare path line parses to: the decoded candidate, when it has a reasonable
/// extension and looks like an absolute path, a relative path or a plain file name.
pub open spec fn plain_path_reference(line: Seq<char>) -> Option<Seq<char>> {
    let path = plain_candidate(line);
    if trim(line).len() == 0 || path.len() == 0 {
        None
    } else if has_reasonable_extension(path) && (looks_absolute(path) || looks_relative(path)
        || looks_file_name(path)) {
        Some(path)
    } else {
        None
    }
}

fn strip_bullet_vec(c: Vec<char>) -> (r: Vec<char>)
    ensures
        r@ == strip_bullet(c@),
{
    proof {
        reveal_strlit("- ");
        reveal_strlit("* ");
        reveal_strlit("• ");
    }
    let p1 = str_chars("- ");
    let p2 = str_chars("* ");
    let p3 = str_chars("• ");
    if has_prefix(&c, &p1) || has_prefix(&c, &p2) || has_prefix(&c, &p3) {
        let rest = slice_to_vec(&c, 2, c.len());
        assert(rest@ =~= c@.skip(2));
        trim_vec(&rest)
    } else {
        c
    }
}

fn all_digits_vec(s: &[char], n: usize) -> (b: bool)
    requires
        n <= s.len(),
    ensures
        b == all_digits(s@.take(n as int)),
{
    let mut i: usize = 0;
    while i < n
        invariant
            i <= n <= s.len(),
            forall|k: int| 0 <= k < i ==> crate::text::is_ascii_digit(s@[k]),
        decreases n - i,
    {
        if !crate::text::is_ascii_digit_char(s[i]) {
            assert(!crate::text::is_ascii_digit(s@.take(n as int)[i as int]));
            return false;
        }
        i = i + 1;
    }
    assert forall|k: int| 0 <= k < n implies crate::text::is_ascii_digit(
        #[trigger] s@.take(n as int)[k],
    ) by {}
    true
}

fn strip_enumeration_vec(c: Vec<char>) -> (r: Vec<char>)
    ensures
        r@ == strip_enumeration(c@),
{
    proof {
        reveal_strlit(". ");
    }
    let sep = str_chars(". ");
    match crate::text::find(&c, &sep) {
        Some(d) => {
            proof {
                let dd = choose|i: int| crate::text::first_index_of(c@, ". "@, i);
                lemma_first_index_unique(c@, ". "@, d as int, dd);
            }
            assert(d + 2 <= c.len());
            if d > 0 && all_digits_vec(&c, d) {
                let rest = slice_to_vec(&c, d + 2, c.len());
                assert(rest@ =~= c@.skip(d + 2));
                trim_vec(&rest)
            } else {
                c
            }
        },
        None => c,
    }
}

fn strip_quotes_vec(c: Vec<char>) -> (r: Vec<char>)
    ensures
        r@ == strip_quotes(c@),
{
    let n = c.len();
    if n >= 2 && ((c[0] == '`' && c[n - 1] == '`') || (c[0] == '"' && c[n - 1] == '"') || (c[0]
        == '\'' && c[n - 1] == '\'')) {
        let inner = slice_to_vec(&c, 1, n - 1);
        trim_vec(&inner)
    } else {
        c
    }
}

fn contains_char(s: &[char], c: char) -> (b: bool)
    ensures
        b == (exists|i: int| 0 <= i < s.len() && s@[i] == c),
{
    let mut i: usize = 0;
    while i < s.len()
        invariant
            i <= s.len(),
            forall|k: int| 0 <= k < i ==> s@[k] != c,
        decreases s.len() - i,
    {
        if s[i] == c {
            return true;
        }
        i = i + 1;
    }
    false
}

pub proof fn lemma_contains_single(s: Seq<char>, c: char)
    ensures
        crate::text::contains(s, seq![c]) == (exists|i: int| 0 <= i < s.len() && s[i] == c),
{
    if exists|i: int| 0 <= i < s.len() && s[i] == c {
        let i = choose|i: int| 0 <= i < s.len() && s[i] == c;
        assert(s.subrange(i, i + 1) =~= seq![c]);
        assert(crate::text::occurs_at(s, seq![c], i));
    }
    if crate::text::contains(s, seq![c]) {
        let i = choose|i: int| crate::text::occurs_at(s, seq![c], i);
        assert(s.subrange(i, i + 1)[0] == s[i]);
    }
}

fn all_file_name_chars(p: &[char]) -> (b: bool)
    ensures
        b == looks_file_name(p@),
{
    let mut i: usize = 0;
    while i < p.len()
        invariant
            i <= p.len(),
            forall|k: int| 0 <= k < i ==> is_file_name_char(p@[k]),
        decreases p.len() - i,
    {
        let c = p[i];
        let ok = crate::text::is_ascii_alnum_char(c) || c == '.' || c == '_' || c == '-' || c
            == ' ' || c == '(' || c == ')' || c == '[' || c == ']';
        if !ok {
            return false;
        }
        i = i + 1;
    }
    true
}

pub proof fn lemma_utf8_len_bounds(s: Seq<char>)
    ensures
        s.len() <= encode_utf8(s).len() <= 4 * s.len(),
    decreases s.len(),
{
    if s.len() > 0 {
        lemma_utf8_len_bounds(s.drop_first());
    }
}

fn reasonable_extension(path: &[char]) -> (b: bool)
    ensures
        b == has_reasonable_extension(path@),
{
    match crate::paths::path_extension(path) {
        Some(ext) => {
            if ext.len() == 0 || ext.len() > 10 {
                proof {
                    lemma_utf8_len_bounds(ext@);
                }
                return false;
            }
            let s = chars_to_string(&ext);
            proof {
                lemma_utf8_len_bounds(ext@);
            }
            let bytes = s.as_str().len();
            bytes <= 10
        },
        None => false,
    }
}

/// Parses a line that holds nothing but a path to a file.
pub fn parse_plain_media_path_reference(line: &str) -> (r: Option<PlainMediaPathReference>)
    ensures
        match plain_path_reference(line@) {
            Some(path) => r matches Some(m) && m.path@ == path,
            None => r is None,
        },
{
    proof {
        reveal_strlit("/");
        reveal_strlit("./");
        reveal_strlit("../");
        reveal_strlit("\\");
        lemma_contains_single(plain_candidate(line@), '/');
        lemma_contains_single(plain_candidate(line@), '\\');
        assert("/"@ =~= seq!['/']);
        assert("\\"@ =~= seq!['\\']);
    }
    let candidate = crate::text::trimmed_chars(line);
    if candidate.len() == 0 {
        return None;
    }
    let c1 = strip_bullet_vec(candidate);
    let c2 = strip_enumeration_vec(c1);
    let c3 = strip_quotes_vec(c2);
    let path = decode_chars(&c3);
    if path.len() == 0 {
        return None;
    }
    let has_ext = reasonable_extension(&path);
    let n = path.len();
    let slash = str_chars("/");
    let dot_slash = str_chars("./");
    let dot_dot_slash = str_chars("../");
    let absolute = has_ext && (has_prefix(&path, &slash) || (n >= 3 && (('a' <= path[0]
        && path[0] <= 'z') || ('A' <= path[0] && path[0] <= 'Z')) && path[1] == ':' && (path[2]
        == '/' || path[2] == '\\')));
    let relative = has_ext && (has_prefix(&path, &dot_slash) || has_prefix(&path, &dot_dot_slash)
        || contains_char(&path, '/') || contains_char(&path, '\\'));
    let file_name = has_ext && all_file_name_chars(&path);
    if !(absolute || relative || file_name) {
        return None;
    }
    Some(PlainMediaPathReference { path: chars_to_string(&path) })
}

} // verus!

verus! {

/// `key="value"`.
pub open spec fn quoted_attr(key: Seq<char>, value: Seq<char>) -> Seq<char> {
    key + "=\""@ + value + "\""@
}

/// The optional attribute parts for a trimmed, non-empty name or label.
pub open spec fn optional_part(key: Seq<char>, value: Option<Seq<char>>) -> Seq<Seq<char>> {
    match value {
        Some(v) => if trim(v).len() > 0 {
            seq![quoted_attr(key, percent_encode(encode_utf8(trim(v))))]
        } else {
            Seq::empty()
        },
        None => Seq::empty(),
    }
}

/// The directive line for a media item, its values percent-encoded.
pub open spec fn directive_line(
    media_type: Seq<char>,
    path: Seq<char>,
    name: Option<Seq<char>>,
    label: Option<Seq<char>>,
) -> Seq<char> {
    let parts = seq![
        quoted_attr("type"@, percent_encode(encode_utf8(media_type))),
        quoted_attr("path"@, encode_path_spec(path)),
    ] + optional_part("name"@, name) + optional_part("label"@, label);
    directive_prefix() + crate::text::join(parts, " "@) + "}"@
}

pub open spec fn opt_str_view(v: Option<&str>) -> Option<Seq<char>> {
    match v {
        Some(s) => Some(s@),
        None => None,
    }
}

fn quoted_attr_vec(key: &str, value: &str) -> (r: Vec<char>)
    ensures
        r@ == quoted_attr(key@, value@),
{
    let mut r = str_chars(key);
    crate::text::push_str(&mut r, "=\"");
    crate::text::push_str(&mut r, value);
    crate::text::push_str(&mut r, "\"");
    r
}

fn push_optional_part(parts: &mut Vec<Vec<char>>, key: &str, value: Option<&str>)
    ensures
        final(parts)@.map_values(|p: Vec<char>| p@) == old(parts)@.map_values(|p: Vec<char>| p@)
            + optional_part(key@, opt_str_view(value)),
{
    let ghost before = parts@.map_values(|p: Vec<char>| p@);
    match value {
        Some(v) => {
            let t = crate::text::trimmed_chars(v);
            if t.len() > 0 {
                let ts = chars_to_string(&t);
                let enc = encode_directive_value(ts.as_str());
                let part = quoted_attr_vec(key, enc.as_str());
                parts.push(part);
                assert(parts@.map_values(|p: Vec<char>| p@) =~= before + optional_part(
                    key@,
                    opt_str_view(value),
                ));
            } else {
                assert(before + Seq::<Seq<char>>::empty() =~= before);
            }
        },
        None => {
            assert(before + Seq::<Seq<char>>::empty() =~= before);
        },
    }
}

/// Builds `::nc-media{type="…" path="…" name="…" label="…"}`; empty names and labels are left out.
pub fn build_media_directive_line(
    media_type: &str,
    path: &str,
    name: Option<&str>,
    label: Option<&str>,
) -> (r: String)
    ensures
        r@ == directive_line(media_type@, path@, opt_str_view(name), opt_str_view(label)),
{
    let enc_type = encode_directive_value(media_type);
    let enc_path = encode_directive_path_value(path);
    let mut parts: Vec<Vec<char>> = Vec::new();
    parts.push(quoted_attr_vec("type", enc_type.as_str()));
    parts.push(quoted_attr_vec("path", enc_path.as_str()));
    let ghost first = parts@.map_values(|p: Vec<char>| p@);
    assert(first =~= seq![
        quoted_attr("type"@, percent_encode(encode_utf8(media_type@))),
        quoted_attr("path"@, encode_path_spec(path@)),
    ]);
    push_optional_part(&mut parts, "name", name);
    push_optional_part(&mut parts, "label", label);
    let mut out = str_chars("::nc-media{");
    let joined = crate::text::join_vecs(&parts, &str_chars(" "));
    push_all(&mut out, &joined);
    crate::text::push_str(&mut out, "}");
    chars_to_string(&out)
}

} // verus!

use crate::percent::{ascii_bytes, percent_unescape};

verus! {

/// Hexadecimal digits, either case.
pub open spec fn is_hex_char(c: char) -> bool {
    ('0' <= c && c <= '9') || ('A' <= c && c <= 'F') || ('a' <= c && c <= 'f')
}

proof fn lemma_ascii_char_byte(c: char)
    requires
        '\0' <= c <= '\u{7f}',
    ensures
        crate::percent::is_hex_byte(c as u8) == is_hex_char(c),
        (c as u8 == 37) == (c == '%'),
{
}

proof fn lemma_ascii_bytes_concat(a: Seq<char>, b: Seq<char>)
    ensures
        crate::percent::ascii_bytes(a + b) == crate::percent::ascii_bytes(a) + crate::percent::ascii_bytes(b),
{
    assert(crate::percent::ascii_bytes(a + b) =~= crate::percent::ascii_bytes(a) + crate::percent::ascii_bytes(b));
}

proof fn lemma_ascii_concat(a: Seq<char>, b: Seq<char>)
    requires
        vstd::utf8::is_ascii_chars(a),
        vstd::utf8::is_ascii_chars(b),
    ensures
        vstd::utf8::is_ascii_chars(a + b),
{
    assert forall|i: int| 0 <= i < (a + b).len() implies '\0' <= #[trigger] (a + b)[i] <= '\u{7f}' by {
        if i < a.len() {
            assert((a + b)[i] == a[i]);
        } else {
            assert((a + b)[i] == b[i - a.len()]);
        }
    }
}

/// Replacing the escape `%XY` of a character that is neither a hex digit nor `%` by that
/// character keeps a text ASCII and does not change what it percent-decodes to.
proof fn lemma_unescape_replace(t: Seq<char>, pat: Seq<char>, c: char)
    requires
        vstd::utf8::is_ascii_chars(t),
        pat.len() == 3,
        pat[0] == '%',
        is_hex_char(pat[1]),
        is_hex_char(pat[2]),
        '\0' <= pat[1] <= '\u{7f}',
        '\0' <= pat[2] <= '\u{7f}',
        '\0' <= c <= '\u{7f}',
        !is_hex_char(c),
        c != '%',
        (crate::percent::hex_value(pat[1] as u8) * 16 + crate::percent::hex_value(pat[2] as u8)) as u8
            == c as u8,
    ensures
        vstd::utf8::is_ascii_chars(replace_all(t, pat, seq![c])),
        crate::percent::percent_unescape(crate::percent::ascii_bytes(replace_all(t, pat, seq![c])))
            == crate::percent::percent_unescape(crate::percent::ascii_bytes(t)),
    decreases t.len(),
{
    let rep = seq![c];
    let r = replace_all(t, pat, rep);
    if t.len() == 0 {
    } else if starts_with(t, pat) {
        assert(t[0] == t.take(3)[0] && t[1] == t.take(3)[1] && t[2] == t.take(3)[2]);
        let rest = t.skip(3);
        assert(vstd::utf8::is_ascii_chars(rest)) by {
            assert forall|i: int| 0 <= i < rest.len() implies '\0' <= #[trigger] rest[i] <= '\u{7f}' by {
                assert(rest[i] == t[i + 3]);
            }
        }
        lemma_unescape_replace(rest, pat, c);
        let rr = replace_all(rest, pat, rep);
        assert(r == rep + rr);
        lemma_ascii_concat(rep, rr);
        lemma_ascii_bytes_concat(rep, rr);
        lemma_ascii_char_byte(c);
        let rb = ascii_bytes(rep) + ascii_bytes(rr);
        assert(rb[0] == c as u8);
        assert(rb.drop_first() =~= ascii_bytes(rr));
        let tb = ascii_bytes(t);
        lemma_ascii_char_byte(t[1]);
        lemma_ascii_char_byte(t[2]);
        assert(tb[0] == 37u8 && tb[1] == t[1] as u8 && tb[2] == t[2] as u8);
        assert(tb.skip(3) =~= ascii_bytes(rest));
    } else {
        let d = t.drop_first();
        assert(vstd::utf8::is_ascii_chars(d)) by {
            assert forall|i: int| 0 <= i < d.len() implies '\0' <= #[trigger] d[i] <= '\u{7f}' by {
                assert(d[i] == t[i + 1]);
            }
        }
        lemma_unescape_replace(d, pat, c);
        let rd = replace_all(d, pat, rep);
        assert(r == seq![t[0]] + rd);
        lemma_ascii_concat(seq![t[0]], rd);
        lemma_ascii_bytes_concat(seq![t[0]], rd);
        lemma_ascii_char_byte(t[0]);
        let tb = ascii_bytes(t);
        let rb = ascii_bytes(r);
        assert(rb[0] == t[0] as u8);
        assert(rb.drop_first() =~= ascii_bytes(rd));
        assert(tb.drop_first() =~= ascii_bytes(d));
        if t[0] == '%' {
            let esc = t.len() >= 3 && is_hex_char(t[1]) && is_hex_char(t[2]);
            if t.len() >= 2 {
                lemma_ascii_char_byte(t[1]);
            }
            if t.len() >= 3 {
                lemma_ascii_char_byte(t[2]);
            }
            if esc {
                // the two hex digits are copied as they are
                assert(!starts_with(d, pat)) by {
                    if starts_with(d, pat) {
                        assert(d[0] == d.take(3)[0]);
                    }
                }
                let d2 = t.skip(2);
                assert(d.drop_first() =~= d2);
                assert(rd == seq![d[0]] + replace_all(d2, pat, rep));
                assert(!starts_with(d2, pat)) by {
                    if starts_with(d2, pat) {
                        assert(d2[0] == d2.take(3)[0]);
                    }
                }
                let d3 = t.skip(3);
                assert(d2.drop_first() =~= d3);
                assert(replace_all(d2, pat, rep) == seq![d2[0]] + replace_all(d3, pat, rep));
                assert(vstd::utf8::is_ascii_chars(d3)) by {
                    assert forall|i: int| 0 <= i < d3.len() implies '\0' <= #[trigger] d3[i] <= '\u{7f}' by {
                        assert(d3[i] == t[i + 3]);
                    }
                }
                lemma_unescape_replace(d3, pat, c);
                let r3 = replace_all(d3, pat, rep);
                assert(r =~= seq![t[0], t[1], t[2]] + r3);
                lemma_ascii_bytes_concat(seq![t[0], t[1], t[2]], r3);
                assert(rb[1] == t[1] as u8 && rb[2] == t[2] as u8);
                assert(rb.skip(3) =~= ascii_bytes(r3));
                assert(tb.skip(3) =~= ascii_bytes(d3));
                assert(tb[1] == t[1] as u8 && tb[2] == t[2] as u8);
            } else {
                // the decoded text keeps the `%` in both
                if d.len() > 0 {
                    if starts_with(d, pat) {
                        assert(d[0] == d.take(3)[0]);
                        assert(rd == rep + replace_all(d.skip(3), pat, rep));
                        assert(rd[0] == c);
                        lemma_ascii_char_byte(c);
                    } else {
                        assert(rd == seq![d[0]] + replace_all(d.drop_first(), pat, rep));
                        assert(rd[0] == t[1]);
                        if is_hex_char(t[1]) && d.len() >= 2 {
                            let d2 = d.drop_first();
                            assert(d2[0] == t[2]);
                            if starts_with(d2, pat) {
                                assert(d2[0] == d2.take(3)[0]);
                                assert(replace_all(d2, pat, rep) == rep + replace_all(d2.skip(3), pat, rep));
                                assert(rd[1] == c);
                                lemma_ascii_char_byte(c);
                            } else {
                                assert(replace_all(d2, pat, rep) == seq![d2[0]] + replace_all(d2.drop_first(), pat, rep));
                                assert(rd[1] == t[2]);
                            }
                        }
                    }
                }
                assert(ascii_bytes(rd).len() == rd.len());
                assert(rd.len() >= 2 ==> ascii_bytes(rd)[0] == rd[0] as u8 && ascii_bytes(rd)[1] == rd[1] as u8);
            }
        }
    }
}

/// Percent-decoding an encoded directive path gives the path back.
pub proof fn lemma_decoded_encoded_path(p: Seq<char>)
    ensures
        crate::percent::decoded_value(encode_path_spec(p)) == p,
{
    reveal_strlit("%2F");
    reveal_strlit("%3A");
    reveal_strlit("%5C");
    reveal_strlit("/");
    reveal_strlit(":");
    reveal_strlit("\\");
    let pe = percent_encode(encode_utf8(p));
    crate::percent::lemma_percent_encode_ascii(encode_utf8(p));
    crate::percent::lemma_percent_roundtrip(encode_utf8(p));
    crate::percent::lemma_ascii_encode(pe);
    assert("/"@ == seq!['/']);
    assert(":"@ == seq![':']);
    assert("\\"@ == seq!['\\']);
    lemma_unescape_replace(pe, "%2F"@, '/');
    let r1 = replace_all(pe, "%2F"@, "/"@);
    lemma_unescape_replace(r1, "%3A"@, ':');
    let r2 = replace_all(r1, "%3A"@, ":"@);
    lemma_unescape_replace(r2, "%5C"@, '\\');
    let r3 = replace_all(r2, "%5C"@, "\\"@);
    assert(r3 == encode_path_spec(p));
    crate::percent::lemma_ascii_encode(r3);
    vstd::utf8::encode_utf8_valid_utf8(p);
    vstd::utf8::encode_utf8_decode_utf8(p);
}

} // verus!

verus! {

/// Characters an encoded attribute value holds: printable ASCII other than `"`.
pub open spec fn is_value_char(c: char) -> bool {
    '!' <= c && c <= '~' && c != '"'
}

pub open spec fn value_chars(v: Seq<char>) -> bool {
    forall|i: int| 0 <= i < v.len() ==> is_value_char(#[trigger] v[i])
}

/// Attribute names of built directives: non-empty lower-case ASCII words.
pub open spec fn good_key(k: Seq<char>) -> bool {
    k.len() > 0 && forall|i: int| 0 <= i < k.len() ==> 'a' <= #[trigger] k[i] && k[i] <= 'z'
}

proof fn lemma_percent_encode_value_chars(b: Seq<u8>)
    ensures
        value_chars(crate::percent::percent_encode(b)),
    decreases b.len(),
{
    if b.len() > 0 {
        lemma_percent_encode_value_chars(b.drop_first());
        let head = if crate::percent::is_unreserved_byte(b[0]) {
            seq![b[0] as char]
        } else {
            seq!['%', crate::percent::hex_digit_upper(b[0] / 16), crate::percent::hex_digit_upper(b[0] % 16)]
        };
        let r = crate::percent::percent_encode(b.drop_first());
        assert(crate::percent::percent_encode(b) == head + r);
        assert forall|i: int| 0 <= i < (head + r).len() implies is_value_char(#[trigger] (head + r)[i]) by {
            if i >= head.len() {
                assert((head + r)[i] == r[i - head.len()]);
            }
        }
    }
}

proof fn lemma_replace_value_chars(t: Seq<char>, pat: Seq<char>, rep: Seq<char>)
    requires
        value_chars(t),
        value_chars(rep),
    ensures
        value_chars(replace_all(t, pat, rep)),
    decreases t.len(),
{
    if t.len() > 0 && pat.len() > 0 {
        let r = replace_all(t, pat, rep);
        if starts_with(t, pat) {
            let rest = t.skip(pat.len() as int);
            assert forall|i: int| 0 <= i < rest.len() implies is_value_char(#[trigger] rest[i]) by {
                assert(rest[i] == t[i + pat.len()]);
            }
            lemma_replace_value_chars(rest, pat, rep);
            let rr = replace_all(rest, pat, rep);
            assert forall|i: int| 0 <= i < r.len() implies is_value_char(#[trigger] r[i]) by {
                if i >= rep.len() {
                    assert(r[i] == rr[i - rep.len()]);
                } else {
                    assert(r[i] == rep[i]);
                }
            }
        } else {
            let rest = t.drop_first();
            assert forall|i: int| 0 <= i < rest.len() implies is_value_char(#[trigger] rest[i]) by {
                assert(rest[i] == t[i + 1]);
            }
            lemma_replace_value_chars(rest, pat, rep);
            let rr = replace_all(rest, pat, rep);
            assert forall|i: int| 0 <= i < r.len() implies is_value_char(#[trigger] r[i]) by {
                if i >= 1 {
                    assert(r[i] == rr[i - 1]);
                }
            }
        }
    }
}

proof fn lemma_path_value_chars(p: Seq<char>)
    ensures
        value_chars(encode_path_spec(p)),
{
    reveal_strlit("/");
    reveal_strlit(":");
    reveal_strlit("\\");
    let pe = crate::percent::percent_encode(encode_utf8(p));
    lemma_percent_encode_value_chars(encode_utf8(p));
    lemma_replace_value_chars(pe, "%2F"@, "/"@);
    let r1 = replace_all(pe, "%2F"@, "/"@);
    lemma_replace_value_chars(r1, "%3A"@, ":"@);
    let r2 = replace_all(r1, "%3A"@, ":"@);
    lemma_replace_value_chars(r2, "%5C"@, "\\"@);
}

proof fn lemma_trim_value(v: Seq<char>)
    requires
        value_chars(v),
    ensures
        trim(v) == v,
{
    if v.len() > 0 {
        assert(is_value_char(v[0]));
        assert(is_value_char(v[v.len() - 1]));
        crate::text::lemma_trim_untouched(v);
    } else {
        assert(crate::text::trim_start(v) == v);
    }
}

proof fn lemma_skip_ws_at(s: Seq<char>, start: int, a: int)
    requires
        0 <= start <= a < s.len(),
        start == a || (start + 1 == a && is_ascii_ws(s[start])),
        !is_ascii_ws(s[a]),
    ensures
        skip_ws_from(s, start) == a,
{
    if start < a {
        assert(skip_ws_from(s, start) == skip_ws_from(s, start + 1));
    }
}

proof fn lemma_key_end_at(s: Seq<char>, a: int, e: int)
    requires
        0 <= a <= e < s.len(),
        forall|x: int| a <= x < e ==> !is_ascii_ws(#[trigger] s[x]) && s[x] != '=',
        s[e] == '=',
    ensures
        key_end_from(s, a) == e,
    decreases e - a,
{
    if a < e {
        lemma_key_end_at(s, a + 1, e);
    }
}

proof fn lemma_quote_end_at(s: Seq<char>, a: int, e: int, q: char)
    requires
        0 <= a <= e < s.len(),
        forall|x: int| a <= x < e ==> #[trigger] s[x] != q,
        s[e] == q,
    ensures
        quote_end_from(s, a, q) == e,
    decreases e - a,
{
    if a < e {
        lemma_quote_end_at(s, a + 1, e, q);
    }
}

/// Scanning a built attribute yields its name and decoded value and moves past it.
proof fn lemma_attr_part(s: Seq<char>, start: int, a: int, key: Seq<char>, v: Seq<char>)
    requires
        0 <= start <= a,
        start == a || (start + 1 == a && is_ascii_ws(s[start])),
        a + quoted_attr(key, v).len() <= s.len(),
        s.subrange(a, a + quoted_attr(key, v).len()) == quoted_attr(key, v),
        good_key(key),
        value_chars(v),
    ensures
        attrs_from(s, start) == seq![(key, crate::percent::decoded_value(v))] + attrs_from(
            s,
            a + quoted_attr(key, v).len(),
        ),
{
    reveal_strlit("=\"");
    reveal_strlit("\"");
    let part = quoted_attr(key, v);
    let n = key.len() as int;
    let m = v.len() as int;
    assert(part.len() == n + m + 3);
    let sub = s.subrange(a, a + part.len());
    assert forall|x: int| 0 <= x < n implies #[trigger] s[a + x] == key[x] by {
        assert(sub[x] == s[a + x]);
        assert(part[x] == key[x]);
    }
    assert(s[a + n] == '=') by {
        assert(sub[n] == s[a + n]);
        assert(part[n] == '=');
    }
    assert(s[a + n + 1] == '"') by {
        assert(sub[n + 1] == s[a + n + 1]);
        assert(part[n + 1] == '"');
    }
    assert forall|x: int| 0 <= x < m implies #[trigger] s[a + n + 2 + x] == v[x] by {
        assert(sub[n + 2 + x] == s[a + n + 2 + x]);
        assert(part[n + 2 + x] == v[x]);
    }
    assert(s[a + n + 2 + m] == '"') by {
        assert(sub[n + 2 + m] == s[a + n + 2 + m]);
        assert(part[n + 2 + m] == '"');
    }
    assert(!is_ascii_ws(s[a])) by {
        assert(s[a + 0] == key[0]);
    }
    lemma_skip_ws_at(s, start, a);
    assert forall|x: int| a <= x < a + n implies !is_ascii_ws(#[trigger] s[x]) && s[x] != '=' by {
        assert(s[a + (x - a)] == key[x - a]);
    }
    lemma_key_end_at(s, a, a + n);
    let k = a + n;
    assert(s.subrange(a, k) =~= key) by {
        assert forall|x: int| 0 <= x < n implies s.subrange(a, k)[x] == key[x] by {
            assert(s[a + x] == key[x]);
        }
    }
    assert(trim(key) == key) by {
        assert('a' <= key[0] && key[0] <= 'z');
        assert('a' <= key[n - 1] && key[n - 1] <= 'z');
        crate::text::lemma_trim_untouched(key);
    }
    lemma_skip_ws_at(s, k + 1, k + 1);
    let vp = k + 1;
    assert forall|x: int| vp + 1 <= x < vp + 1 + m implies #[trigger] s[x] != '"' by {
        assert(s[a + n + 2 + (x - vp - 1)] == v[x - vp - 1]);
        assert(is_value_char(v[x - vp - 1]));
    }
    lemma_quote_end_at(s, vp + 1, vp + 1 + m, '"');
    let e = vp + 1 + m;
    assert(s.subrange(vp + 1, e) =~= v) by {
        assert forall|x: int| 0 <= x < m implies s.subrange(vp + 1, e)[x] == v[x] by {
            assert(s[a + n + 2 + x] == v[x]);
        }
    }
    lemma_trim_value(v);
    lemma_scan_bounds(s, start, ' ');
    assert(e + 1 == a + part.len());
}

proof fn lemma_skip_split(s: Seq<char>, i: int, a: Seq<char>, b: Seq<char>)
    requires
        0 <= i <= s.len(),
        s.skip(i) == a + b,
    ensures
        i + a.len() <= s.len(),
        s.subrange(i, i + a.len()) == a,
        s.skip(i + a.len()) == b,
{
    assert(s.skip(i).len() == s.len() - i);
    assert forall|x: int| 0 <= x < a.len() implies s.subrange(i, i + a.len())[x] == a[x] by {
        assert(s.skip(i)[x] == s[i + x]);
        assert((a + b)[x] == a[x]);
    }
    assert(s.subrange(i, i + a.len()) =~= a);
    assert forall|x: int| 0 <= x < b.len() implies s.skip(i + a.len())[x] == b[x] by {
        assert(s.skip(i)[a.len() + x] == s[i + a.len() + x]);
        assert((a + b)[a.len() + x] == b[x]);
    }
    assert(s.skip(i + a.len()) =~= b);
}

/// The attributes of a built list of `name="value"` parts joined by spaces.
pub open spec fn built_parts(kvs: Seq<(Seq<char>, Seq<char>)>) -> Seq<Seq<char>> {
    kvs.map_values(|kv: (Seq<char>, Seq<char>)| quoted_attr(kv.0, kv.1))
}

pub open spec fn decoded_pairs(kvs: Seq<(Seq<char>, Seq<char>)>) -> Seq<(Seq<char>, Seq<char>)> {
    kvs.map_values(|kv: (Seq<char>, Seq<char>)| (kv.0, crate::percent::decoded_value(kv.1)))
}

proof fn lemma_attrs_of_parts(s: Seq<char>, start: int, i: int, kvs: Seq<(Seq<char>, Seq<char>)>)
    requires
        kvs.len() > 0,
        0 <= start <= i <= s.len(),
        start == i || (start + 1 == i && is_ascii_ws(s[start])),
        s.skip(i) == crate::text::join(built_parts(kvs), " "@),
        forall|j: int| 0 <= j < kvs.len() ==> good_key((#[trigger] kvs[j]).0) && value_chars(kvs[j].1),
    ensures
        attrs_from(s, start) == decoded_pairs(kvs),
    decreases kvs.len(),
{
    reveal_strlit(" ");
    let ps = built_parts(kvs);
    let p0 = ps[0];
    assert(p0 == quoted_attr(kvs[0].0, kvs[0].1));
    assert(good_key(kvs[0].0) && value_chars(kvs[0].1));
    if kvs.len() == 1 {
        assert(ps.len() == 1);
        assert(crate::text::join(ps, " "@) == p0);
        assert(s.skip(i) == p0 + Seq::<char>::empty());
        lemma_skip_split(s, i, p0, Seq::<char>::empty());
        lemma_attr_part(s, start, i, kvs[0].0, kvs[0].1);
        assert(i + p0.len() == s.len());
        assert(decoded_pairs(kvs) =~= seq![(kvs[0].0, crate::percent::decoded_value(kvs[0].1))]);
    } else {
        crate::text::lemma_join_front(ps, " "@);
        let rest = kvs.drop_first();
        assert(ps.drop_first() =~= built_parts(rest));
        let tail = crate::text::join(built_parts(rest), " "@);
        assert(s.skip(i) == p0 + (" "@ + tail));
        lemma_skip_split(s, i, p0, " "@ + tail);
        lemma_attr_part(s, start, i, kvs[0].0, kvs[0].1);
        let j = i + p0.len();
        lemma_skip_split(s, j, " "@, tail);
        assert(s[j] == ' ') by {
            assert(s.subrange(j, j + 1)[0] == s[j]);
        }
        assert forall|k: int| 0 <= k < rest.len() implies good_key((#[trigger] rest[k]).0) && value_chars(rest[k].1) by {
            assert(rest[k] == kvs[k + 1]);
        }
        lemma_attrs_of_parts(s, j, j + 1, rest);
        assert(decoded_pairs(kvs) =~= seq![(kvs[0].0, crate::percent::decoded_value(kvs[0].1))] + decoded_pairs(rest));
    }
}

/// A name or label as a built directive keeps it: trimmed, and left out when blank.
pub open spec fn kept_text(v: Option<Seq<char>>) -> Option<Seq<char>> {
    match v {
        Some(x) => if trim(x).len() > 0 {
            Some(trim(x))
        } else {
            None
        },
        None => None,
    }
}

pub open spec fn optional_kv(key: Seq<char>, value: Option<Seq<char>>) -> Seq<(Seq<char>, Seq<char>)> {
    match kept_text(value) {
        Some(x) => seq![(key, crate::percent::percent_encode(encode_utf8(x)))],
        None => Seq::empty(),
    }
}

pub open spec fn encoded_text(x: Seq<char>) -> Seq<char> {
    crate::percent::percent_encode(encode_utf8(x))
}

/// The attributes a directive line is built from, encoded.
pub open spec fn line_kvs(
    media_type: Seq<char>,
    path: Seq<char>,
    name: Option<Seq<char>>,
    label: Option<Seq<char>>,
) -> Seq<(Seq<char>, Seq<char>)> {
    seq![("type"@, encoded_text(media_type)), ("path"@, encode_path_spec(path))] + optional_kv(
        "name"@,
        name,
    ) + optional_kv("label"@, label)
}

proof fn lemma_line_body(media_type: Seq<char>, path: Seq<char>, name: Option<Seq<char>>, label: Option<Seq<char>>)
    ensures
        directive_body(directive_line(media_type, path, name, label)) == Some(
            crate::text::join(built_parts(line_kvs(media_type, path, name, label)), " "@),
        ),
{
    reveal_strlit("::nc-media{");
    reveal_strlit("}");
    let kvs = line_kvs(media_type, path, name, label);
    let parts = seq![
        quoted_attr("type"@, encoded_text(media_type)),
        quoted_attr("path"@, encode_path_spec(path)),
    ] + optional_part("name"@, name) + optional_part("label"@, label);
    assert(built_parts(kvs) =~= parts);
    let line = directive_line(media_type, path, name, label);
    let body = crate::text::join(parts, " "@);
    assert(line == directive_prefix() + body + "}"@);
    assert(line[0] == ':');
    assert(line[line.len() - 1] == '}');
    crate::text::lemma_trim_untouched(line);
    assert(line.take(directive_prefix().len() as int) =~= directive_prefix());
    assert(line.skip(line.len() - 1) =~= "}"@);
    assert(line.subrange(directive_prefix().len() as int, line.len() - 1) =~= body);
}

#[verifier::rlimit(40)]
proof fn lemma_line_attrs(media_type: Seq<char>, path: Seq<char>, name: Option<Seq<char>>, label: Option<Seq<char>>)
    ensures
        attrs_from(crate::text::join(built_parts(line_kvs(media_type, path, name, label)), " "@), 0)
            == seq![("type"@, media_type), ("path"@, path)] + match kept_text(name) {
            Some(x) => seq![("name"@, x)],
            None => Seq::<(Seq<char>, Seq<char>)>::empty(),
        } + match kept_text(label) {
            Some(x) => seq![("label"@, x)],
            None => Seq::<(Seq<char>, Seq<char>)>::empty(),
        },
{
    reveal_strlit("type");
    reveal_strlit("path");
    reveal_strlit("name");
    reveal_strlit("label");
    let kvs = line_kvs(media_type, path, name, label);
    let body = crate::text::join(built_parts(kvs), " "@);
    lemma_percent_encode_value_chars(encode_utf8(media_type));
    lemma_path_value_chars(path);
    match kept_text(name) {
        Some(x) => lemma_percent_encode_value_chars(encode_utf8(x)),
        None => {},
    }
    match kept_text(label) {
        Some(x) => lemma_percent_encode_value_chars(encode_utf8(x)),
        None => {},
    }
    assert forall|j: int| 0 <= j < kvs.len() implies good_key((#[trigger] kvs[j]).0) && value_chars(kvs[j].1) by {
    }
    assert(body.skip(0) =~= body);
    lemma_attrs_of_parts(body, 0, 0, kvs);
    crate::percent::lemma_decoded_encoded(media_type);
    lemma_decoded_encoded_path(path);
    match kept_text(name) {
        Some(x) => crate::percent::lemma_decoded_encoded(x),
        None => {},
    }
    match kept_text(label) {
        Some(x) => crate::percent::lemma_decoded_encoded(x),
        None => {},
    }
    assert(decoded_pairs(kvs) =~= seq![("type"@, media_type), ("path"@, path)] + match kept_text(name) {
        Some(x) => seq![("name"@, x)],
        None => Seq::<(Seq<char>, Seq<char>)>::empty(),
    } + match kept_text(label) {
        Some(x) => seq![("label"@, x)],
        None => Seq::<(Seq<char>, Seq<char>)>::empty(),
    });
}

/// Parsing a built directive line gives back what it was built from: the type, the path, and
/// the trimmed name and label (left out when blank).
pub proof fn lemma_directive_roundtrip(
    media_type: Seq<char>,
    path: Seq<char>,
    name: Option<Seq<char>>,
    label: Option<Seq<char>>,
)
    ensures
        directive_fields(directive_line(media_type, path, name, label)) == Some(
            (Some(media_type), path, kept_text(name), kept_text(label)),
        ),
{
    reveal_strlit("type");
    reveal_strlit("path");
    reveal_strlit("name");
    reveal_strlit("label");
    assert("path"@ != "type"@) by {
        assert("path"@[0] != "type"@[0]);
    }
    assert("name"@ != "type"@ && "name"@ != "path"@) by {
        assert("name"@[0] != "type"@[0] && "name"@[0] != "path"@[0]);
    }
    assert("label"@ != "type"@ && "label"@ != "path"@ && "label"@ != "name"@) by {
        assert("label"@.len() != "type"@.len());
    }
    lemma_line_body(media_type, path, name, label);
    lemma_line_attrs(media_type, path, name, label);
    let t1: Seq<(Seq<char>, Seq<char>)> = seq![("type"@, media_type)];
    let base = seq![("type"@, media_type), ("path"@, path)];
    assert(base.drop_last() =~= t1);
    assert(t1.drop_last() =~= Seq::<(Seq<char>, Seq<char>)>::empty());
    assert(t1.last() == ("type"@, media_type));
    assert(last_attr(t1, "type"@) == Some(media_type));
    assert(last_attr(Seq::<(Seq<char>, Seq<char>)>::empty(), "name"@) == None::<Seq<char>>);
    assert(last_attr(Seq::<(Seq<char>, Seq<char>)>::empty(), "label"@) == None::<Seq<char>>);
    assert(last_attr(t1, "name"@) == last_attr(t1.drop_last(), "name"@));
    assert(last_attr(t1, "label"@) == last_attr(t1.drop_last(), "label"@));
    assert(last_attr(t1, "name"@) == None::<Seq<char>>);
    assert(last_attr(t1, "label"@) == None::<Seq<char>>);
    assert(last_attr(base, "type"@) == Some(media_type));
    assert(last_attr(base, "path"@) == Some(path));
    assert(last_attr(base, "name"@) == None::<Seq<char>>);
    assert(last_attr(base, "label"@) == None::<Seq<char>>);
    let nm = match kept_text(name) {
        Some(x) => seq![("name"@, x)],
        None => Seq::<(Seq<char>, Seq<char>)>::empty(),
    };
    let lb = match kept_text(label) {
        Some(x) => seq![("label"@, x)],
        None => Seq::<(Seq<char>, Seq<char>)>::empty(),
    };
    let bn = base + nm;
    if nm.len() > 0 {
        assert(bn.drop_last() =~= base);
    } else {
        assert(bn =~= base);
    }
    assert(last_attr(bn, "type"@) == Some(media_type));
    assert(last_attr(bn, "path"@) == Some(path));
    assert(last_attr(bn, "label"@) == None::<Seq<char>>);
    assert(last_attr(bn, "name"@) == kept_text(name));
    let attrs = bn + lb;
    if lb.len() > 0 {
        assert(attrs.drop_last() =~= bn);
    } else {
        assert(attrs =~= bn);
    }
    assert(last_attr(attrs, "type"@) == Some(media_type));
    assert(last_attr(attrs, "path"@) == Some(path));
    assert(last_attr(attrs, "name"@) == kept_text(name));
    assert(last_attr(attrs, "label"@) == kept_text(label));
}

} // verus!
