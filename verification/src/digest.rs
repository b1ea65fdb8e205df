//! MD5 digests (from the `md-5` crate) and their lower-case hex rendering.
use vstd::prelude::*;
use md5::{Digest, Md5};
use vstd::utf8::encode_utf8;

verus! {

/// The MD5 digest of a byte string.
pub uninterp spec fn md5(data: Seq<u8>) -> Seq<u8>;

/// Calls `md5::Md5::digest`, the one-shot MD5 of `data`; its output type holds 16 bytes.
#[verifier::external_body]
fn md5_digest(data: &[u8]) -> (r: Vec<u8>)
    ensures
        r@ == md5(data@),
        r@.len() == 16,
{
    Md5::digest(data).to_vec()
}

pub open spec fn hex_digit_lower(d: u8) -> char {
    if d < 10 {
        (48 + d) as char
    } else {
        (87 + d) as char
    }
}

/// Lower-case hex of a byte string, two digits per byte.
pub open spec fn hex_lower(b: Seq<u8>) -> Seq<char>
    decreases b.len(),
{
    if b.len() == 0 {
        Seq::empty()
    } else {
        hex_lower(b.drop_last()) + seq![hex_digit_lower(b.last() / 16), hex_digit_lower(b.last() % 16)]
    }
}

fn hex_char(d: u8) -> (c: char)
    requires
        d < 16,
    ensures
        c == hex_digit_lower(d),
{
    if d < 10 {
        (48 + d) as char
    } else {
        (87 + d) as char
    }
}

/// Lower-case hex rendering of bytes.
pub fn to_hex_lower(b: &[u8]) -> (r: Vec<char>)
    ensures
        r@ == hex_lower(b@),
        r@.len() == 2 * b@.len(),
{
    let mut r: Vec<char> = Vec::new();
    let mut i: usize = 0;
    while i < b.len()
        invariant
            i <= b.len(),
            r@ == hex_lower(b@.take(i as int)),
            r@.len() == 2 * i,
        decreases b.len() - i,
    {
        assert(b@.take(i + 1).drop_last() =~= b@.take(i as int));
        let x = b[i];
        r.push(hex_char(x / 16));
        r.push(hex_char(x % 16));
        i = i + 1;
        assert(r@ =~= hex_lower(b@.take(i as int)));
    }
    assert(b@.take(b.len() as int) =~= b@);
    r
}

/// Lower-case hex MD5 of the UTF-8 bytes of `s`.
pub open spec fn md5_hex(bytes: Seq<u8>) -> Seq<char> {
    hex_lower(md5(bytes))
}

/// Hex MD5 of a byte string (32 characters).
pub fn md5_hex_of(data: &[u8]) -> (r: Vec<char>)
    ensures
        r@ == md5_hex(data@),
        r@.len() == 32,
{
    let d = md5_digest(data);
    to_hex_lower(&d)
}

/// The UTF-8 bytes of a character sequence.
pub fn utf8_bytes(s: &[char]) -> (r: Vec<u8>)
    ensures
        r@ == encode_utf8(s@),
{
    let st = crate::text::chars_to_string(s);
    let b = st.as_str().as_bytes();
    let mut r: Vec<u8> = Vec::new();
    let mut i: usize = 0;
    while i < b.len()
        invariant
            i <= b.len(),
            r@ =~= b@.take(i as int),
        decreases b.len() - i,
    {
        r.push(b[i]);
        i = i + 1;
    }
    assert(b@.take(b.len() as int) =~= b@);
    r
}

/// The key under which a session's media summaries are kept: hex MD5 of the trimmed id.
pub open spec fn summary_key(session_id: Seq<char>) -> Seq<char> {
    md5_hex(encode_utf8(crate::text::trim(session_id)))
}

pub fn hash_session_id(session_id: &str) -> (r: String)
    ensures
        r@ == summary_key(session_id@),
{
    let t = crate::text::trimmed_chars(session_id);
    let bytes = utf8_bytes(&t);
    let h = md5_hex_of(&bytes);
    crate::text::chars_to_string(&h)
}

/// The summary key of a session.
pub fn session_summary_key(session_id: &str) -> (r: String)
    ensures
        r@ == summary_key(session_id@),
{
    hash_session_id(session_id)
}


/// The key of a session's Pi session file: the summary key of a non-blank session id, else
/// `default`.
pub open spec fn session_file_key(session_id: Option<Seq<char>>) -> Seq<char> {
    match session_id {
        Some(s) => if crate::text::trim(s).len() > 0 {
            summary_key(s)
        } else {
            "default"@
        },
        None => "default"@,
    }
}

/// The one Pi session file a session shares across its turns: `<prefix><key>.jsonl` in the
/// temporary directory `temp_dir` (see `session_file_key`).
pub fn session_file_path(temp_dir: &str, prefix: &str, session_id: Option<&str>) -> (r: String)
    ensures
        r@ == crate::paths::join_path(
            temp_dir@,
            prefix@ + session_file_key(
                match session_id {
                    Some(s) => Some(s@),
                    None => None,
                },
            ) + ".jsonl"@,
        ),
{
    let key: String = match session_id {
        Some(s) => if crate::text::trimmed_chars(s).len() > 0 {
            hash_session_id(s)
        } else {
            "default".to_owned()
        },
        None => "default".to_owned(),
    };
    let mut name = crate::text::str_chars(prefix);
    crate::text::push_str(&mut name, key.as_str());
    crate::text::push_str(&mut name, ".jsonl");
    let dir = crate::text::str_chars(temp_dir);
    let path = crate::paths::join_path_chars(&dir, &name);
    crate::text::chars_to_string(&path)
}

} // verus!
