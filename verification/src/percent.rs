//! Percent-encoding as the `urlencoding` crate performs it.
use vstd::prelude::*;
use vstd::utf8::{decode_utf8, encode_utf8, valid_utf8};

verus! {

/// Bytes that `urlencoding::encode` leaves as they are.
pub open spec fn is_unreserved_byte(b: u8) -> bool {
    (48 <= b && b <= 57) || (65 <= b && b <= 90) || (97 <= b && b <= 122) || b == 45 || b == 46
        || b == 95 || b == 126
}

/// Upper-case hexadecimal digit for `d < 16`.
pub open spec fn hex_digit_upper(d: u8) -> char {
    if d < 10 {
        (48 + d) as char
    } else {
        (55 + d) as char
    }
}

/// Percent-encoding of a byte string: unreserved bytes stay, every other byte becomes `%XX`.
pub open spec fn percent_encode(b: Seq<u8>) -> Seq<char>
    decreases b.len(),
{
    if b.len() == 0 {
        Seq::empty()
    } else {
        let head = if is_unreserved_byte(b[0]) {
            seq![b[0] as char]
        } else {
            seq!['%', hex_digit_upper(b[0] / 16), hex_digit_upper(b[0] % 16)]
        };
        head + percent_encode(b.drop_first())
    }
}

pub open spec fn is_hex_byte(b: u8) -> bool {
    (48 <= b && b <= 57) || (65 <= b && b <= 70) || (97 <= b && b <= 102)
}

pub open spec fn hex_value(b: u8) -> u8 {
    if 48 <= b && b <= 57 {
        (b - 48) as u8
    } else if 65 <= b && b <= 70 {
        (b - 55) as u8
    } else {
        (b - 87) as u8
    }
}

/// Byte string with every `%` followed by two hex digits replaced by the byte they name.
pub open spec fn percent_unescape(b: Seq<u8>) -> Seq<u8>
    decreases b.len(),
{
    if b.len() == 0 {
        Seq::empty()
    } else if b[0] == 37 && b.len() >= 3 && is_hex_byte(b[1]) && is_hex_byte(b[2]) {
        seq![(hex_value(b[1]) * 16 + hex_value(b[2])) as u8] + percent_unescape(b.skip(3))
    } else {
        seq![b[0]] + percent_unescape(b.drop_first())
    }
}

/// Calls `urlencoding::encode`: every UTF-8 byte of `s` except ASCII letters, digits and
/// `-`, `.`, `_`, `~` is written as `%` and two upper-case hex digits.
#[verifier::external_body]
pub(crate) fn url_encode(s: &str) -> (r: String)
    ensures
        r@ == percent_encode(encode_utf8(s@)),
{
    urlencoding::encode(s).into_owned()
}

/// Calls `urlencoding::decode`: `%XX` escapes are turned into bytes, every other byte is kept,
/// and the result is returned when those bytes are valid UTF-8 (`None` where the crate
/// returns its UTF-8 error).
#[verifier::external_body]
pub(crate) fn url_decode(s: &str) -> (r: Option<String>)
    ensures
        r is Some <==> valid_utf8(percent_unescape(encode_utf8(s@))),
        r matches Some(d) ==> d@ == decode_utf8(percent_unescape(encode_utf8(s@))),
{
    match urlencoding::decode(s) {
        Ok(decoded) => Some(decoded.into_owned()),
        Err(_) => None,
    }
}

/// What a percent-decoded directive value reads: the decoded text, or the raw text where
/// the decoded bytes are not UTF-8.
pub open spec fn decoded_value(v: Seq<char>) -> Seq<char> {
    let b = percent_unescape(encode_utf8(v));
    if valid_utf8(b) {
        decode_utf8(b)
    } else {
        v
    }
}

} // verus!

verus! {

/// The bytes of an ASCII text, one per character.
pub open spec fn ascii_bytes(t: Seq<char>) -> Seq<u8> {
    t.map_values(|c: char| c as u8)
}

/// A text's UTF-8 bytes are its ASCII bytes when it is ASCII.
pub proof fn lemma_ascii_encode(t: Seq<char>)
    requires
        vstd::utf8::is_ascii_chars(t),
    ensures
        encode_utf8(t) == ascii_bytes(t),
{
    vstd::utf8::is_ascii_chars_encode_utf8(t);
    assert(encode_utf8(t) =~= ascii_bytes(t));
}

/// Whether every character of a text is ASCII.
pub open spec fn all_ascii(t: Seq<char>) -> bool {
    vstd::utf8::is_ascii_chars(t)
}

proof fn lemma_byte_char_roundtrip(b: u8)
    requires
        b < 128,
    ensures
        ((b as char) as u8) == b,
        '\0' <= (b as char) <= '\u{7f}',
{
}

proof fn lemma_hex_digit(d: u8)
    requires
        d < 16,
    ensures
        '\0' <= hex_digit_upper(d) <= '\u{7f}',
        is_hex_byte(hex_digit_upper(d) as u8),
        hex_value(hex_digit_upper(d) as u8) == d,
        hex_digit_upper(d) != '%',
{
}

/// Percent-encoded text is ASCII.
pub proof fn lemma_percent_encode_ascii(b: Seq<u8>)
    ensures
        all_ascii(percent_encode(b)),
    decreases b.len(),
{
    if b.len() > 0 {
        lemma_percent_encode_ascii(b.drop_first());
        let head = if is_unreserved_byte(b[0]) {
            seq![b[0] as char]
        } else {
            seq!['%', hex_digit_upper(b[0] / 16), hex_digit_upper(b[0] % 16)]
        };
        if !is_unreserved_byte(b[0]) {
            lemma_hex_digit(b[0] / 16);
            lemma_hex_digit(b[0] % 16);
        } else {
            lemma_byte_char_roundtrip(b[0]);
        }
        let r = percent_encode(b.drop_first());
        assert forall|i: int| 0 <= i < (head + r).len() implies '\0' <= #[trigger] (head + r)[i] <= '\u{7f}' by {
            if i >= head.len() {
                assert((head + r)[i] == r[i - head.len()]);
            }
        }
    }
}

/// Undoing percent-encoding gives the bytes back.
pub proof fn lemma_percent_roundtrip(b: Seq<u8>)
    ensures
        percent_unescape(ascii_bytes(percent_encode(b))) == b,
    decreases b.len(),
{
    if b.len() > 0 {
        lemma_percent_roundtrip(b.drop_first());
        let r = percent_encode(b.drop_first());
        let rb = ascii_bytes(r);
        if is_unreserved_byte(b[0]) {
            let t = seq![b[0] as char] + r;
            assert(percent_encode(b) == t);
            lemma_byte_char_roundtrip(b[0]);
            assert(ascii_bytes(t) =~= seq![b[0]] + rb);
            assert((seq![b[0]] + rb).drop_first() =~= rb);
        } else {
            let h1 = hex_digit_upper(b[0] / 16);
            let h2 = hex_digit_upper(b[0] % 16);
            lemma_hex_digit(b[0] / 16);
            lemma_hex_digit(b[0] % 16);
            let t = seq!['%', h1, h2] + r;
            assert(percent_encode(b) == t);
            let bytes = seq![37u8, h1 as u8, h2 as u8] + rb;
            assert(ascii_bytes(t) =~= bytes);
            assert(bytes.skip(3) =~= rb);
            assert((hex_value(h1 as u8) * 16 + hex_value(h2 as u8)) as u8 == b[0]) by (nonlinear_arith)
                requires
                    hex_value(h1 as u8) == b[0] / 16,
                    hex_value(h2 as u8) == b[0] % 16,
            ;
        }
        assert(seq![b[0]] + b.drop_first() =~= b);
    }
}

/// Percent-decoding a percent-encoded text gives the text back.
pub proof fn lemma_decoded_encoded(x: Seq<char>)
    ensures
        decoded_value(percent_encode(encode_utf8(x))) == x,
{
    let pe = percent_encode(encode_utf8(x));
    lemma_percent_encode_ascii(encode_utf8(x));
    lemma_ascii_encode(pe);
    lemma_percent_roundtrip(encode_utf8(x));
    vstd::utf8::encode_utf8_valid_utf8(x);
    vstd::utf8::encode_utf8_decode_utf8(x);
}

} // verus!
