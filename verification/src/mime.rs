//! Recognising media types from file headers and extensions.
use vstd::prelude::*;
use crate::text::{chars_eq_str, str_chars, trim, trimmed_chars};

verus! {

/// Whether `b` begins with `p`.
pub open spec fn bytes_start(b: Seq<u8>, p: Seq<u8>) -> bool {
    p.len() <= b.len() && b.take(p.len() as int) == p
}

/// Whether `p` occurs in `b` at `i`.
pub open spec fn bytes_at(b: Seq<u8>, p: Seq<u8>, i: int) -> bool {
    0 <= i && i + p.len() <= b.len() && b.subrange(i, i + p.len()) == p
}

/// Whether `p` occurs anywhere in `b`.
pub open spec fn bytes_contain(b: Seq<u8>, p: Seq<u8>) -> bool {
    exists|i: int| bytes_at(b, p, i)
}

pub open spec fn lower_byte(x: u8) -> u8 {
    if 65 <= x <= 90 {
        (x + 32) as u8
    } else {
        x
    }
}

/// Whether `p` occurs in `b` at `i`, ignoring ASCII case.
pub open spec fn bytes_at_ci(b: Seq<u8>, p: Seq<u8>, i: int) -> bool {
    0 <= i && i + p.len() <= b.len() && forall|k: int|
        0 <= k < p.len() ==> lower_byte(#[trigger] b[i + k]) == lower_byte(p[k])
}

pub open spec fn bytes_contain_ci(b: Seq<u8>, p: Seq<u8>) -> bool {
    exists|i: int| bytes_at_ci(b, p, i)
}

fn bytes_match_at(b: &[u8], p: &[u8], i: usize, ignore_case: bool) -> (r: bool)
    ensures
        !ignore_case ==> r == bytes_at(b@, p@, i as int),
        ignore_case ==> r == bytes_at_ci(b@, p@, i as int),
{
    if i > b.len() || p.len() > b.len() - i {
        return false;
    }
    let mut k: usize = 0;
    while k < p.len()
        invariant
            k <= p.len(),
            i + p.len() <= b.len(),
            !ignore_case ==> forall|m: int| 0 <= m < k ==> b@[i + m] == p@[m],
            ignore_case ==> forall|m: int| 0 <= m < k ==> lower_byte(b@[i + m]) == lower_byte(p@[m]),
        decreases p.len() - k,
    {
        let x = b[i + k];
        let y = p[k];
        let same = if ignore_case {
            let lx: u8 = if 65 <= x && x <= 90 { x + 32 } else { x };
            let ly: u8 = if 65 <= y && y <= 90 { y + 32 } else { y };
            lx == ly
        } else {
            x == y
        };
        if !same {
            assert(b@.subrange(i as int, i + p.len())[k as int] == x);
            return false;
        }
        k = k + 1;
    }
    assert(!ignore_case ==> b@.subrange(i as int, i + p.len()) =~= p@);
    true
}

fn bytes_starts(b: &[u8], p: &[u8]) -> (r: bool)
    ensures
        r == bytes_start(b@, p@),
{
    let r = bytes_match_at(b, p, 0, false);
    assert(p@.len() <= b@.len() ==> b@.subrange(0, p@.len() as int) =~= b@.take(p@.len() as int));
    r
}

fn bytes_find(b: &[u8], p: &[u8], ignore_case: bool) -> (r: bool)
    ensures
        !ignore_case ==> r == bytes_contain(b@, p@),
        ignore_case ==> r == bytes_contain_ci(b@, p@),
{
    if p.len() > b.len() {
        return false;
    }
    let last = b.len() - p.len();
    let mut i: usize = 0;
    while i < last
        invariant
            i <= last,
            last == b.len() - p.len(),
            !ignore_case ==> forall|j: int| 0 <= j < i ==> !bytes_at(b@, p@, j),
            ignore_case ==> forall|j: int| 0 <= j < i ==> !bytes_at_ci(b@, p@, j),
        decreases last - i,
    {
        if bytes_match_at(b, p, i, ignore_case) {
            return true;
        }
        i = i + 1;
    }
    bytes_match_at(b, p, last, ignore_case)
}

pub open spec fn png_magic() -> Seq<u8> {
    seq![0x89u8, 0x50, 0x4E, 0x47, 0x0D, 0x0A, 0x1A, 0x0A]
}

pub open spec fn svg_tag() -> Seq<u8> {
    seq![0x3Cu8, 0x73, 0x76, 0x67]
}

/// The media type that a file header announces.
pub open spec fn sniffed_mime(b: Seq<u8>) -> Option<Seq<char>> {
    if bytes_start(b, png_magic()) {
        Some("image/png"@)
    } else if b.len() >= 3 && b[0] == 0xFF && b[1] == 0xD8 && b[2] == 0xFF {
        Some("image/jpeg"@)
    } else if bytes_start(b, seq![0x47u8, 0x49, 0x46, 0x38, 0x37, 0x61]) || bytes_start(
        b,
        seq![0x47u8, 0x49, 0x46, 0x38, 0x39, 0x61],
    ) {
        Some("image/gif"@)
    } else if b.len() >= 12 && b.take(4) == seq![0x52u8, 0x49, 0x46, 0x46] && b.subrange(8, 12)
        == seq![0x57u8, 0x45, 0x42, 0x50] {
        Some("image/webp"@)
    } else if b.len() >= 2 && b[0] == 0x42 && b[1] == 0x4D {
        Some("image/bmp"@)
    } else if bytes_contain(b, svg_tag()) {
        Some("image/svg+xml"@)
    } else if b.len() >= 12 && b.subrange(4, 8) == seq![0x66u8, 0x74, 0x79, 0x70] {
        let brand = b.subrange(8, 12);
        if brand == seq![0x68u8, 0x65, 0x69, 0x63] || brand == seq![0x68u8, 0x65, 0x69, 0x78]
            || brand == seq![0x68u8, 0x65, 0x76, 0x63] || brand == seq![0x68u8, 0x65, 0x76, 0x78]
            || brand == seq![0x68u8, 0x65, 0x69, 0x6D] || brand == seq![0x68u8, 0x65, 0x69, 0x73] {
            Some("image/heic"@)
        } else if brand == seq![0x6Du8, 0x69, 0x66, 0x31] || brand == seq![0x6Du8, 0x73, 0x66, 0x31]
            || brand == seq![0x68u8, 0x65, 0x69, 0x66] {
            Some("image/heif"@)
        } else if brand == seq![0x71u8, 0x74, 0x20, 0x20] {
            Some("video/quicktime"@)
        } else {
            Some("video/mp4"@)
        }
    } else if b.len() >= 4 && b.take(4) == seq![0x1Au8, 0x45, 0xDF, 0xA3] {
        if bytes_contain_ci(b, seq![0x77u8, 0x65, 0x62, 0x6D]) {
            Some("video/webm"@)
        } else {
            Some("video/x-matroska"@)
        }
    } else if b.len() >= 12 && b.take(4) == seq![0x52u8, 0x49, 0x46, 0x46] && b.subrange(8, 12)
        == seq![0x57u8, 0x41, 0x56, 0x45] {
        Some("audio/wav"@)
    } else if bytes_start(b, seq![0x49u8, 0x44, 0x33]) {
        Some("audio/mpeg"@)
    } else if b.len() >= 2 && b[0] == 0xFF && (b[1] & 0xE0) == 0xE0 {
        Some("audio/mpeg"@)
    } else if bytes_start(b, seq![0x4Fu8, 0x67, 0x67, 0x53]) {
        Some("audio/ogg"@)
    } else if bytes_start(b, seq![0x23u8, 0x21, 0x41, 0x4D, 0x52, 0x0A]) || bytes_start(
        b,
        seq![0x23u8, 0x21, 0x41, 0x4D, 0x52, 0x2D, 0x57, 0x42, 0x0A],
    ) {
        Some("audio/amr"@)
    } else if bytes_start(b, seq![0x25u8, 0x50, 0x44, 0x46, 0x2D]) {
        Some("application/pdf"@)
    } else {
        None
    }
}

fn eq4(b: &[u8], at: usize, x: [u8; 4]) -> (r: bool)
    requires
        at + 4 <= b.len(),
    ensures
        r == (b@.subrange(at as int, at + 4) == x@),
{
    let r = b[at] == x[0] && b[at + 1] == x[1] && b[at + 2] == x[2] && b[at + 3] == x[3];
    proof {
        if r {
            assert(b@.subrange(at as int, at + 4) =~= x@);
        } else {
            let s = b@.subrange(at as int, at + 4);
            assert(s[0] == b@[at as int] && s[1] == b@[at + 1] && s[2] == b@[at + 2] && s[3]
                == b@[at + 3]);
        }
    }
    r
}

/// The media type announced by the first bytes of a file.
pub fn detect_media_mime_from_bytes(bytes: &[u8]) -> (r: Option<&'static str>)
    ensures
        match sniffed_mime(bytes@) {
            Some(m) => r matches Some(s) && s@ == m,
            None => r is None,
        },
{
    let b = bytes;
    let png: [u8; 8] = [0x89, 0x50, 0x4E, 0x47, 0x0D, 0x0A, 0x1A, 0x0A];
    assert(png@ =~= png_magic());
    if bytes_starts(b, &png) {
        return Some("image/png");
    }
    if b.len() >= 3 && b[0] == 0xFF && b[1] == 0xD8 && b[2] == 0xFF {
        return Some("image/jpeg");
    }
    let gif7: [u8; 6] = [0x47, 0x49, 0x46, 0x38, 0x37, 0x61];
    let gif9: [u8; 6] = [0x47, 0x49, 0x46, 0x38, 0x39, 0x61];
    assert(gif7@ =~= seq![0x47u8, 0x49, 0x46, 0x38, 0x37, 0x61]);
    assert(gif9@ =~= seq![0x47u8, 0x49, 0x46, 0x38, 0x39, 0x61]);
    if bytes_starts(b, &gif7) || bytes_starts(b, &gif9) {
        return Some("image/gif");
    }
    let riff: [u8; 4] = [0x52, 0x49, 0x46, 0x46];
    let webp: [u8; 4] = [0x57, 0x45, 0x42, 0x50];
    assert(riff@ =~= seq![0x52u8, 0x49, 0x46, 0x46]);
    assert(webp@ =~= seq![0x57u8, 0x45, 0x42, 0x50]);
    if b.len() >= 12 && eq4(b, 0, riff) && eq4(b, 8, webp) {
        assert(b@.subrange(0, 4) =~= b@.take(4));
        return Some("image/webp");
    }
    proof {
        if b.len() >= 12 {
            assert(b@.subrange(0, 4) =~= b@.take(4));
        }
    }
    if b.len() >= 2 && b[0] == 0x42 && b[1] == 0x4D {
        return Some("image/bmp");
    }
    let svg: [u8; 4] = [0x3C, 0x73, 0x76, 0x67];
    assert(svg@ =~= svg_tag());
    if bytes_find(b, &svg, false) {
        return Some("image/svg+xml");
    }
    let ftyp: [u8; 4] = [0x66, 0x74, 0x79, 0x70];
    assert(ftyp@ =~= seq![0x66u8, 0x74, 0x79, 0x70]);
    if b.len() >= 12 && eq4(b, 4, ftyp) {
        let heic: [u8; 4] = [0x68, 0x65, 0x69, 0x63];
        let heix: [u8; 4] = [0x68, 0x65, 0x69, 0x78];
        let hevc: [u8; 4] = [0x68, 0x65, 0x76, 0x63];
        let hevx: [u8; 4] = [0x68, 0x65, 0x76, 0x78];
        let heim: [u8; 4] = [0x68, 0x65, 0x69, 0x6D];
        let heis: [u8; 4] = [0x68, 0x65, 0x69, 0x73];
        assert(heic@ =~= seq![0x68u8, 0x65, 0x69, 0x63]);
        assert(heix@ =~= seq![0x68u8, 0x65, 0x69, 0x78]);
        assert(hevc@ =~= seq![0x68u8, 0x65, 0x76, 0x63]);
        assert(hevx@ =~= seq![0x68u8, 0x65, 0x76, 0x78]);
        assert(heim@ =~= seq![0x68u8, 0x65, 0x69, 0x6D]);
        assert(heis@ =~= seq![0x68u8, 0x65, 0x69, 0x73]);
        if eq4(b, 8, heic) || eq4(b, 8, heix) || eq4(b, 8, hevc) || eq4(b, 8, hevx) || eq4(
            b,
            8,
            heim,
        ) || eq4(b, 8, heis) {
            return Some("image/heic");
        }
        let mif1: [u8; 4] = [0x6D, 0x69, 0x66, 0x31];
        let msf1: [u8; 4] = [0x6D, 0x73, 0x66, 0x31];
        let heif: [u8; 4] = [0x68, 0x65, 0x69, 0x66];
        assert(mif1@ =~= seq![0x6Du8, 0x69, 0x66, 0x31]);
        assert(msf1@ =~= seq![0x6Du8, 0x73, 0x66, 0x31]);
        assert(heif@ =~= seq![0x68u8, 0x65, 0x69, 0x66]);
        if eq4(b, 8, mif1) || eq4(b, 8, msf1) || eq4(b, 8, heif) {
            return Some("image/heif");
        }
        let qt: [u8; 4] = [0x71, 0x74, 0x20, 0x20];
        assert(qt@ =~= seq![0x71u8, 0x74, 0x20, 0x20]);
        if eq4(b, 8, qt) {
            return Some("video/quicktime");
        }
        return Some("video/mp4");
    }
    let ebml: [u8; 4] = [0x1A, 0x45, 0xDF, 0xA3];
    assert(ebml@ =~= seq![0x1Au8, 0x45, 0xDF, 0xA3]);
    proof {
        if b.len() >= 4 {
            assert(b@.subrange(0, 4) =~= b@.take(4));
        }
    }
    if b.len() >= 4 && eq4(b, 0, ebml) {
        let webm: [u8; 4] = [0x77, 0x65, 0x62, 0x6D];
        assert(webm@ =~= seq![0x77u8, 0x65, 0x62, 0x6D]);
        if bytes_find(b, &webm, true) {
            return Some("video/webm");
        }
        return Some("video/x-matroska");
    }
    let wave: [u8; 4] = [0x57, 0x41, 0x56, 0x45];
    assert(wave@ =~= seq![0x57u8, 0x41, 0x56, 0x45]);
    if b.len() >= 12 && eq4(b, 0, riff) && eq4(b, 8, wave) {
        return Some("audio/wav");
    }
    let id3: [u8; 3] = [0x49, 0x44, 0x33];
    assert(id3@ =~= seq![0x49u8, 0x44, 0x33]);
    if bytes_starts(b, &id3) {
        return Some("audio/mpeg");
    }
    if b.len() >= 2 && b[0] == 0xFF && (b[1] & 0xE0) == 0xE0 {
        return Some("audio/mpeg");
    }
    let ogg: [u8; 4] = [0x4F, 0x67, 0x67, 0x53];
    assert(ogg@ =~= seq![0x4Fu8, 0x67, 0x67, 0x53]);
    if bytes_starts(b, &ogg) {
        return Some("audio/ogg");
    }
    let amr: [u8; 6] = [0x23, 0x21, 0x41, 0x4D, 0x52, 0x0A];
    let amr_wb: [u8; 9] = [0x23, 0x21, 0x41, 0x4D, 0x52, 0x2D, 0x57, 0x42, 0x0A];
    assert(amr@ =~= seq![0x23u8, 0x21, 0x41, 0x4D, 0x52, 0x0A]);
    assert(amr_wb@ =~= seq![0x23u8, 0x21, 0x41, 0x4D, 0x52, 0x2D, 0x57, 0x42, 0x0A]);
    if bytes_starts(b, &amr) || bytes_starts(b, &amr_wb) {
        return Some("audio/amr");
    }
    let pdf: [u8; 5] = [0x25, 0x50, 0x44, 0x46, 0x2D];
    assert(pdf@ =~= seq![0x25u8, 0x50, 0x44, 0x46, 0x2D]);
    if bytes_starts(b, &pdf) {
        return Some("application/pdf");
    }
    None
}

} // verus!

verus! {

/// The media type for a lower-cased file extension.
pub open spec fn mime_for_extension(e: Seq<char>) -> Seq<char> {
    if e == "png"@ {
        "image/png"@
    } else if e == "jpg"@ || e == "jpeg"@ {
        "image/jpeg"@
    } else if e == "gif"@ {
        "image/gif"@
    } else if e == "webp"@ {
        "image/webp"@
    } else if e == "bmp"@ {
        "image/bmp"@
    } else if e == "svg"@ {
        "image/svg+xml"@
    } else if e == "mp4"@ {
        "video/mp4"@
    } else if e == "mov"@ {
        "video/quicktime"@
    } else if e == "webm"@ {
        "video/webm"@
    } else if e == "m4v"@ {
        "video/x-m4v"@
    } else if e == "avi"@ {
        "video/x-msvideo"@
    } else if e == "mkv"@ {
        "video/x-matroska"@
    } else if e == "mp3"@ {
        "audio/mpeg"@
    } else if e == "wav"@ {
        "audio/wav"@
    } else if e == "m4a"@ {
        "audio/mp4"@
    } else if e == "aac"@ {
        "audio/aac"@
    } else if e == "ogg"@ || e == "opus"@ {
        "audio/ogg"@
    } else if e == "amr"@ {
        "audio/amr"@
    } else if e == "silk"@ {
        "audio/silk"@
    } else {
        "application/octet-stream"@
    }
}

fn mime_for_ext(e: &[char]) -> (r: &'static str)
    ensures
        r@ == mime_for_extension(e@),
{
    if chars_eq_str(e, "png") {
        "image/png"
    } else if chars_eq_str(e, "jpg") || chars_eq_str(e, "jpeg") {
        "image/jpeg"
    } else if chars_eq_str(e, "gif") {
        "image/gif"
    } else if chars_eq_str(e, "webp") {
        "image/webp"
    } else if chars_eq_str(e, "bmp") {
        "image/bmp"
    } else if chars_eq_str(e, "svg") {
        "image/svg+xml"
    } else if chars_eq_str(e, "mp4") {
        "video/mp4"
    } else if chars_eq_str(e, "mov") {
        "video/quicktime"
    } else if chars_eq_str(e, "webm") {
        "video/webm"
    } else if chars_eq_str(e, "m4v") {
        "video/x-m4v"
    } else if chars_eq_str(e, "avi") {
        "video/x-msvideo"
    } else if chars_eq_str(e, "mkv") {
        "video/x-matroska"
    } else if chars_eq_str(e, "mp3") {
        "audio/mpeg"
    } else if chars_eq_str(e, "wav") {
        "audio/wav"
    } else if chars_eq_str(e, "m4a") {
        "audio/mp4"
    } else if chars_eq_str(e, "aac") {
        "audio/aac"
    } else if chars_eq_str(e, "ogg") || chars_eq_str(e, "opus") {
        "audio/ogg"
    } else if chars_eq_str(e, "amr") {
        "audio/amr"
    } else if chars_eq_str(e, "silk") {
        "audio/silk"
    } else {
        "application/octet-stream"
    }
}

/// The media type of a file: a non-blank hint, else what its header announces, else what its
/// (Unicode lower-cased) extension suggests.
pub open spec fn inferred_mime(path: Seq<char>, hint: Option<Seq<char>>, sniffed: Option<Seq<char>>) -> Seq<
    char,
> {
    if hint matches Some(h) && trim(h).len() > 0 {
        trim(hint.unwrap())
    } else if sniffed matches Some(s) {
        sniffed.unwrap()
    } else {
        match crate::paths::extension(path) {
            Some(e) => mime_for_extension(crate::text::unicode_lower(e)),
            None => "application/octet-stream"@,
        }
    }
}

pub open spec fn opt_view_str(v: Option<&str>) -> Option<Seq<char>> {
    match v {
        Some(s) => Some(s@),
        None => None,
    }
}

/// Picks the media type of a file. `sniffed` is what `detect_media_mime_from_bytes` found in
/// the file's first bytes, if it could be read.
pub fn infer_media_mime_type(path: &str, mime_hint: Option<&str>, sniffed: Option<&str>) -> (r:
    String)
    ensures
        r@ == inferred_mime(path@, opt_view_str(mime_hint), opt_view_str(sniffed)),
{
    if let Some(hint) = mime_hint {
        let t = trimmed_chars(hint);
        if t.len() > 0 {
            return crate::text::chars_to_string(&t);
        }
    }
    if let Some(s) = sniffed {
        return s.to_owned();
    }
    let p = str_chars(path);
    match crate::paths::path_extension(&p) {
        Some(e) => {
            let lower = crate::text::lower_chars(&e);
            mime_for_ext(&lower).to_owned()
        },
        None => "application/octet-stream".to_owned(),
    }
}

} // verus!
