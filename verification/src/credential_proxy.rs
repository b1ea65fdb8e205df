//! The credential proxy's request rules: upstream URLs, which headers pass, how requests are
//! authenticated, and which external API a dispatch names.
use vstd::prelude::*;
use crate::text::{
    ascii_lower, chars_eq, chars_eq_str, chars_to_string, push_all, push_str, str_chars,
    to_ascii_lower, trim, trimmed_chars,
};
use crate::percent::{percent_encode, url_encode};
use crate::managed_runtime::ExternalApiCredential;
use vstd::utf8::encode_utf8;

verus! {

/// `s` without its trailing `/`s.
pub open spec fn strip_trailing_slashes(s: Seq<char>) -> Seq<char>
    decreases s.len(),
{
    if s.len() > 0 && s.last() == '/' {
        strip_trailing_slashes(s.drop_last())
    } else {
        s
    }
}

/// `s` without its leading `/`s.
pub open spec fn strip_leading_slashes(s: Seq<char>) -> Seq<char>
    decreases s.len(),
{
    if s.len() > 0 && s[0] == '/' {
        strip_leading_slashes(s.drop_first())
    } else {
        s
    }
}

fn without_trailing_slashes(s: &[char]) -> (r: Vec<char>)
    ensures
        r@ == strip_trailing_slashes(s@),
{
    let mut hi: usize = s.len();
    assert(s@.subrange(0, s.len() as int) =~= s@);
    while hi > 0 && s[hi - 1] == '/'
        invariant
            hi <= s.len(),
            strip_trailing_slashes(s@) == strip_trailing_slashes(s@.subrange(0, hi as int)),
        decreases hi,
    {
        assert(s@.subrange(0, hi as int).drop_last() =~= s@.subrange(0, hi - 1));
        hi = hi - 1;
    }
    crate::text::slice_to_vec(s, 0, hi)
}

fn without_leading_slashes(s: &[char]) -> (r: Vec<char>)
    ensures
        r@ == strip_leading_slashes(s@),
{
    let mut lo: usize = 0;
    assert(s@.skip(0) =~= s@);
    while lo < s.len() && s[lo] == '/'
        invariant
            lo <= s.len(),
            strip_leading_slashes(s@) == strip_leading_slashes(s@.skip(lo as int)),
        decreases s.len() - lo,
    {
        assert(s@.skip(lo as int).drop_first() =~= s@.skip(lo + 1));
        lo = lo + 1;
    }
    assert(s@.subrange(lo as int, s.len() as int) =~= s@.skip(lo as int));
    crate::text::slice_to_vec(s, lo, s.len())
}

/// The URL a proxied LLM request goes to: the base URL without trailing slashes, then `/` and
/// the path without leading slashes when the path is not blank, then `?` and the query when
/// there is one.
pub open spec fn upstream_url(base: Seq<char>, path: Seq<char>, query: Option<Seq<char>>) -> Seq<char> {
    strip_trailing_slashes(base) + (if trim(path).len() > 0 {
        "/"@ + strip_leading_slashes(path)
    } else {
        Seq::empty()
    }) + match query {
        Some(q) => "?"@ + q,
        None => Seq::empty(),
    }
}

/// Builds the URL a proxied LLM request goes to (see `upstream_url`).
pub fn llm_upstream_url(base_url: &str, path: &str, query: Option<&str>) -> (r: String)
    ensures
        r@ == upstream_url(
            base_url@,
            path@,
            match query {
                Some(q) => Some(q@),
                None => None,
            },
        ),
{
    let base = str_chars(base_url);
    let mut out = without_trailing_slashes(&base);
    let ghost after_base = out@;
    if trimmed_chars(path).len() > 0 {
        push_str(&mut out, "/");
        let p = str_chars(path);
        let rest = without_leading_slashes(&p);
        push_all(&mut out, &rest);
    } else {
        assert(out@ =~= after_base + Seq::<char>::empty());
    }
    let ghost after_path = out@;
    match query {
        Some(q) => {
            push_str(&mut out, "?");
            push_str(&mut out, q);
        },
        None => {
            assert(out@ =~= after_path + Seq::<char>::empty());
        },
    }
    chars_to_string(&out)
}

/// Whether a client request header is passed upstream: every header but `host`,
/// `content-length`, `authorization` and `x-api-key`, in any ASCII case.
pub open spec fn is_forwarded_request_header(name: Seq<char>) -> bool {
    let n = ascii_lower(name);
    n != "host"@ && n != "content-length"@ && n != "authorization"@ && n != "x-api-key"@
}

/// Whether a client request header is passed upstream.
pub fn forwards_request_header(name: &str) -> (b: bool)
    ensures
        b == is_forwarded_request_header(name@),
{
    let n = to_ascii_lower(&str_chars(name));
    !(chars_eq_str(&n, "host") || chars_eq_str(&n, "content-length") || chars_eq_str(&n, "authorization")
        || chars_eq_str(&n, "x-api-key"))
}

/// Whether an upstream response header is passed back: every header but `content-length`.
pub fn forwards_response_header(name: &str) -> (b: bool)
    ensures
        b == (ascii_lower(name@) != "content-length"@),
{
    let n = to_ascii_lower(&str_chars(name));
    !chars_eq_str(&n, "content-length")
}

pub open spec fn pair_view(v: Seq<(String, String)>) -> Seq<(Seq<char>, Seq<char>)> {
    v.map_values(|h: (String, String)| (h.0@, h.1@))
}

/// The headers a proxied LLM request gets: the session token, then for the `anthropic` format
/// the key as `x-api-key` (and `anthropic-version: 2023-06-01` unless the client sent one),
/// otherwise the key as a bearer token.
pub open spec fn llm_headers(
    token: Seq<char>,
    api_format: Seq<char>,
    api_key: Seq<char>,
    has_anthropic_version: bool,
) -> Seq<(Seq<char>, Seq<char>)> {
    seq![("x-nineclaw-session-token"@, token)] + if api_format == "anthropic"@ {
        seq![("x-api-key"@, api_key)] + if has_anthropic_version {
            Seq::empty()
        } else {
            seq![("anthropic-version"@, "2023-06-01"@)]
        }
    } else {
        seq![("authorization"@, "Bearer "@ + api_key)]
    }
}

/// Builds the headers a proxied LLM request gets (see `llm_headers`).
pub fn llm_proxy_headers(
    token: &str,
    api_format: &str,
    api_key: &str,
    has_anthropic_version: bool,
) -> (r: Vec<(String, String)>)
    ensures
        pair_view(r@) == llm_headers(token@, api_format@, api_key@, has_anthropic_version),
{
    let mut out: Vec<(String, String)> = Vec::new();
    out.push(("x-nineclaw-session-token".to_owned(), token.to_owned()));
    let format = str_chars(api_format);
    if chars_eq_str(&format, "anthropic") {
        out.push(("x-api-key".to_owned(), api_key.to_owned()));
        if !has_anthropic_version {
            out.push(("anthropic-version".to_owned(), "2023-06-01".to_owned()));
        }
    } else {
        let mut v = str_chars("Bearer ");
        push_str(&mut v, api_key);
        out.push(("authorization".to_owned(), chars_to_string(&v)));
    }
    assert(pair_view(out@) =~= llm_headers(token@, api_format@, api_key@, has_anthropic_version));
    out
}

/// HTTP token characters, the characters of a method name.
pub open spec fn is_tchar(c: char) -> bool {
    ('0' <= c && c <= '9') || ('a' <= c && c <= 'z') || ('A' <= c && c <= 'Z') || c == '!' || c == '#'
        || c == '$' || c == '%' || c == '&' || c == '\'' || c == '*' || c == '+' || c == '-' || c
        == '.' || c == '^' || c == '_' || c == '`' || c == '|' || c == '~'
}

/// Whether a text is a method name: one or more token characters.
pub open spec fn is_method_name(s: Seq<char>) -> bool {
    s.len() > 0 && forall|i: int| 0 <= i < s.len() ==> is_tchar(#[trigger] s[i])
}

/// Calls `reqwest::Method`'s `FromStr` (that is, `http::Method::from_bytes`): a non-empty text of
/// HTTP token characters is a method whose name is that text; anything else is refused.
#[verifier::external_body]
fn parse_method(s: &str) -> (r: Option<String>)
    ensures
        r is Some <==> is_method_name(s@),
        r matches Some(m) ==> m@ == s@,
{
    match s.parse::<reqwest::Method>() {
        Ok(m) => Some(m.as_str().to_owned()),
        Err(_) => None,
    }
}

/// The method a dispatch to an external API uses: the trimmed requested method when it is a
/// method name, else `GET`.
pub fn external_method(method: &str) -> (r: String)
    ensures
        r@ == if is_method_name(trim(method@)) {
            trim(method@)
        } else {
            "GET"@
        },
{
    let t = chars_to_string(&trimmed_chars(method));
    match parse_method(t.as_str()) {
        Some(m) => m,
        None => "GET".to_owned(),
    }
}

/// The method a proxied LLM request uses upstream: the client's method when it is a method
/// name, else `POST`.
pub fn upstream_method(method: &str) -> (r: String)
    ensures
        r@ == if is_method_name(method@) {
            method@
        } else {
            "POST"@
        },
{
    match parse_method(method) {
        Some(m) => m,
        None => "POST".to_owned(),
    }
}

/// Finds the external API a dispatch names by its trimmed alias.
pub fn find_external_api<'a>(apis: &'a Vec<ExternalApiCredential>, alias: &str) -> (r: Result<
    &'a ExternalApiCredential,
    String,
>)
    ensures
        match r {
            Ok(c) => exists|i: int|
                0 <= i < apis@.len() && apis@[i] == *c && c.alias@ == trim(alias@) && forall|j: int|
                    0 <= j < i ==> #[trigger] apis@[j].alias@ != trim(alias@),
            Err(e) => e@ == "external api alias not found: "@ + alias@ && forall|i: int|
                0 <= i < apis@.len() ==> apis@[i].alias@ != trim(alias@),
        },
{
    let wanted = trimmed_chars(alias);
    let mut i: usize = 0;
    while i < apis.len()
        invariant
            i <= apis.len(),
            wanted@ == trim(alias@),
            forall|j: int| 0 <= j < i ==> apis@[j].alias@ != trim(alias@),
        decreases apis.len() - i,
    {
        let a = str_chars(apis[i].alias.as_str());
        if chars_eq(&a, &wanted) {
            return Ok(&apis[i]);
        }
        i = i + 1;
    }
    let mut msg = str_chars("external api alias not found: ");
    push_str(&mut msg, alias);
    Err(chars_to_string(&msg))
}

/// The query string of an external API call: each pair percent-encoded as `key=value`, joined
/// by `&`.
pub open spec fn encoded_query(q: Seq<(Seq<char>, Seq<char>)>) -> Seq<char>
    decreases q.len(),
{
    if q.len() == 0 {
        Seq::empty()
    } else {
        let prev = encoded_query(q.drop_last());
        let pair = percent_encode(encode_utf8(q.last().0)) + "="@ + percent_encode(encode_utf8(q.last().1));
        if q.len() == 1 {
            pair
        } else {
            prev + "&"@ + pair
        }
    }
}

/// The URL of an external API call: the base URL without trailing slashes, `/` and the
/// trimmed path without leading slashes when that path is not blank, and `?` and the encoded
/// query when there is one.
pub open spec fn external_url(base: Seq<char>, path: Seq<char>, query: Seq<(Seq<char>, Seq<char>)>) -> Seq<char> {
    strip_trailing_slashes(base) + (if trim(path).len() > 0 {
        "/"@ + strip_leading_slashes(trim(path))
    } else {
        Seq::empty()
    }) + if query.len() > 0 {
        "?"@ + encoded_query(query)
    } else {
        Seq::empty()
    }
}

/// Builds the URL of an external API call (see `external_url`); the query pairs are taken in
/// the order given.
pub fn build_external_api_url(base_url: &str, path: &str, query: &Vec<(String, String)>) -> (r: String)
    ensures
        r@ == external_url(base_url@, path@, pair_view(query@)),
{
    let base = str_chars(base_url);
    let mut url = without_trailing_slashes(&base);
    let ghost after_base = url@;
    let p = trimmed_chars(path);
    if p.len() > 0 {
        push_str(&mut url, "/");
        let rest = without_leading_slashes(&p);
        push_all(&mut url, &rest);
    } else {
        assert(url@ =~= after_base + Seq::<char>::empty());
    }
    let ghost after_path = url@;
    let ghost qv = pair_view(query@);
    if query.len() == 0 {
        assert(url@ =~= after_path + Seq::<char>::empty());
        return chars_to_string(&url);
    }
    push_str(&mut url, "?");
    let ghost start = url@;
    let mut i: usize = 0;
    while i < query.len()
        invariant
            i <= query.len(),
            qv == pair_view(query@),
            url@ == start + encoded_query(qv.take(i as int)),
        decreases query.len() - i,
    {
        assert(qv.take(i + 1).drop_last() =~= qv.take(i as int));
        assert(qv.take(i + 1).last() == (query@[i as int].0@, query@[i as int].1@));
        if i > 0 {
            push_str(&mut url, "&");
        }
        let k = url_encode(query[i].0.as_str());
        push_str(&mut url, k.as_str());
        push_str(&mut url, "=");
        let v = url_encode(query[i].1.as_str());
        push_str(&mut url, v.as_str());
        proof {
            if i == 0 {
                assert(qv.take(0) =~= Seq::<(Seq<char>, Seq<char>)>::empty());
            }
        }
        assert(url@ =~= start + encoded_query(qv.take(i + 1)));
        i = i + 1;
    }
    assert(qv.take(query.len() as int) =~= qv);
    chars_to_string(&url)
}

/// The header that authenticates an external API call: none without a (trimmed) key or header
/// name; otherwise the header name with the key, after the scheme and a space when there is a
/// scheme.
pub open spec fn auth_header_of(c: ExternalApiCredential) -> Option<(Seq<char>, Seq<char>)> {
    if trim(c.api_key@).len() == 0 || trim(c.auth_header@).len() == 0 {
        None
    } else if trim(c.auth_scheme@).len() == 0 {
        Some((trim(c.auth_header@), trim(c.api_key@)))
    } else {
        Some((trim(c.auth_header@), trim(c.auth_scheme@) + " "@ + trim(c.api_key@)))
    }
}

/// The header that authenticates an external API call (see `auth_header_of`).
pub fn external_auth_header(credential: &ExternalApiCredential) -> (r: Option<(String, String)>)
    ensures
        match r {
            Some(h) => auth_header_of(*credential) == Some((h.0@, h.1@)),
            None => auth_header_of(*credential) is None,
        },
{
    let key = trimmed_chars(credential.api_key.as_str());
    let name = trimmed_chars(credential.auth_header.as_str());
    if key.len() == 0 || name.len() == 0 {
        return None;
    }
    let scheme = trimmed_chars(credential.auth_scheme.as_str());
    if scheme.len() == 0 {
        return Some((chars_to_string(&name), chars_to_string(&key)));
    }
    let mut v = scheme;
    push_str(&mut v, " ");
    push_all(&mut v, &key);
    Some((chars_to_string(&name), chars_to_string(&v)))
}

/// The headers of an external API call, in order: the credential's own headers, the caller's
/// headers, then the authentication header when there is one.
pub fn external_request_headers(
    credential: &ExternalApiCredential,
    request_headers: &Vec<(String, String)>,
) -> (r: Vec<(String, String)>)
    ensures
        pair_view(r@) == pair_view(credential.headers@) + pair_view(request_headers@) + match auth_header_of(
            *credential,
        ) {
            Some(h) => seq![h],
            None => Seq::empty(),
        },
{
    let mut out: Vec<(String, String)> = Vec::new();
    let mut i: usize = 0;
    while i < credential.headers.len()
        invariant
            i <= credential.headers.len(),
            pair_view(out@) =~= pair_view(credential.headers@).take(i as int),
        decreases credential.headers.len() - i,
    {
        let ghost before = pair_view(out@);
        out.push((credential.headers[i].0.clone(), credential.headers[i].1.clone()));
        assert(pair_view(out@) =~= before.push((credential.headers@[i as int].0@, credential.headers@[i as int].1@)));
        assert(pair_view(credential.headers@).take(i + 1) =~= pair_view(credential.headers@).take(i as int).push(
            (credential.headers@[i as int].0@, credential.headers@[i as int].1@),
        ));
        i = i + 1;
    }
    let ghost mid = pair_view(out@);
    assert(mid =~= pair_view(credential.headers@));
    let mut j: usize = 0;
    while j < request_headers.len()
        invariant
            j <= request_headers.len(),
            pair_view(out@) =~= mid + pair_view(request_headers@).take(j as int),
        decreases request_headers.len() - j,
    {
        let ghost before = pair_view(out@);
        out.push((request_headers[j].0.clone(), request_headers[j].1.clone()));
        assert(pair_view(out@) =~= before.push((request_headers@[j as int].0@, request_headers@[j as int].1@)));
        assert(pair_view(request_headers@).take(j + 1) =~= pair_view(request_headers@).take(j as int).push(
            (request_headers@[j as int].0@, request_headers@[j as int].1@),
        ));
        j = j + 1;
    }
    assert(pair_view(request_headers@).take(request_headers.len() as int) =~= pair_view(request_headers@));
    let ghost before = pair_view(out@);
    match external_auth_header(credential) {
        Some(h) => {
            out.push(h);
        },
        None => {},
    }
    assert(pair_view(out@) =~= before + match auth_header_of(*credential) {
        Some(h) => seq![h],
        None => Seq::empty(),
    });
    out
}

} // verus!
