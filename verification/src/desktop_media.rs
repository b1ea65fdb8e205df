//! Media items in desktop replies: recognising them line by line and writing them back as
//! directives.
use vstd::prelude::*;
use crate::media_directives::{
    build_media_directive_line, directive_fields, directive_line, markdown_reference,
    parse_markdown_media_reference, parse_media_directive_fields,
    parse_plain_media_path_reference, plain_path_reference,
};
use crate::paths::{extension, file_name, is_absolute, path_extension, path_file_name, path_is_absolute};
use crate::text::{
    ascii_lower, chars_eq_str, chars_to_string, join, lines, starts_with, str_chars, to_ascii_lower,
    trim,
};

verus! {

/// The kind of a media attachment.
#[derive(Debug, Clone, Copy, PartialEq, Eq, Structural)]
pub enum MediaType {
    Image,
    Video,
    Audio,
    File,
}

/// A media item found in a reply.
#[derive(Debug, Clone, PartialEq, Eq)]
pub struct DesktopParsedMediaItem {
    pub media_type: MediaType,
    pub file_name: String,
    pub file_path: String,
}

/// The abstract content of a media item: kind, file name, path.
pub type ItemView = (MediaType, Seq<char>, Seq<char>);

pub open spec fn item_view(item: DesktopParsedMediaItem) -> ItemView {
    (item.media_type, item.file_name@, item.file_path@)
}

/// The lower-cased extension of a path.
pub open spec fn lower_extension(p: Seq<char>) -> Option<Seq<char>> {
    match extension(p) {
        Some(e) => Some(ascii_lower(e)),
        None => None,
    }
}

pub open spec fn is_image_path(p: Seq<char>) -> bool {
    match lower_extension(p) {
        Some(e) => e == "png"@ || e == "jpg"@ || e == "jpeg"@ || e == "gif"@ || e == "webp"@
            || e == "bmp"@ || e == "svg"@,
        None => false,
    }
}

pub open spec fn is_video_path(p: Seq<char>) -> bool {
    match lower_extension(p) {
        Some(e) => e == "mp4"@ || e == "mov"@ || e == "avi"@ || e == "mkv"@ || e == "webm"@ || e
            == "m4v"@,
        None => false,
    }
}

pub open spec fn is_audio_path(p: Seq<char>) -> bool {
    match lower_extension(p) {
        Some(e) => e == "mp3"@ || e == "wav"@ || e == "ogg"@ || e == "opus"@ || e == "m4a"@ || e
            == "aac"@ || e == "amr"@ || e == "silk"@,
        None => false,
    }
}

fn lower_ext(path: &str) -> (r: Option<Vec<char>>)
    ensures
        r matches Some(v) ==> lower_extension(path@) == Some(v@),
        r is None ==> lower_extension(path@) is None,
{
    let p = str_chars(path);
    match path_extension(&p) {
        Some(e) => Some(to_ascii_lower(&e)),
        None => None,
    }
}

/// Whether the path names an image file (by extension, any case).
pub fn is_desktop_image_path(path: &str) -> (b: bool)
    ensures
        b == is_image_path(path@),
{
    match lower_ext(path) {
        Some(e) => chars_eq_str(&e, "png") || chars_eq_str(&e, "jpg") || chars_eq_str(&e, "jpeg")
            || chars_eq_str(&e, "gif") || chars_eq_str(&e, "webp") || chars_eq_str(&e, "bmp")
            || chars_eq_str(&e, "svg"),
        None => false,
    }
}

/// Whether the path names a video file (by extension, any case).
pub fn is_desktop_video_path(path: &str) -> (b: bool)
    ensures
        b == is_video_path(path@),
{
    match lower_ext(path) {
        Some(e) => chars_eq_str(&e, "mp4") || chars_eq_str(&e, "mov") || chars_eq_str(&e, "avi")
            || chars_eq_str(&e, "mkv") || chars_eq_str(&e, "webm") || chars_eq_str(&e, "m4v"),
        None => false,
    }
}

/// Whether the path names an audio file (by extension, any case).
pub fn is_desktop_audio_path(path: &str) -> (b: bool)
    ensures
        b == is_audio_path(path@),
{
    match lower_ext(path) {
        Some(e) => chars_eq_str(&e, "mp3") || chars_eq_str(&e, "wav") || chars_eq_str(&e, "ogg")
            || chars_eq_str(&e, "opus") || chars_eq_str(&e, "m4a") || chars_eq_str(&e, "aac")
            || chars_eq_str(&e, "amr") || chars_eq_str(&e, "silk"),
        None => false,
    }
}

/// The kind of media a path holds, judged by its extension.
pub open spec fn kind_of_path(p: Seq<char>) -> MediaType {
    if is_image_path(p) {
        MediaType::Image
    } else if is_video_path(p) {
        MediaType::Video
    } else if is_audio_path(p) {
        MediaType::Audio
    } else {
        MediaType::File
    }
}

fn path_kind(path: &str) -> (k: MediaType)
    ensures
        k == kind_of_path(path@),
{
    if is_desktop_image_path(path) {
        MediaType::Image
    } else if is_desktop_video_path(path) {
        MediaType::Video
    } else if is_desktop_audio_path(path) {
        MediaType::Audio
    } else {
        MediaType::File
    }
}

/// The displayed file name: the path's final component, or `attachment`.
pub open spec fn display_name(p: Seq<char>) -> Seq<char> {
    match file_name(p) {
        Some(n) => n,
        None => "attachment"@,
    }
}

fn name_of_path(path: &str) -> (r: String)
    ensures
        r@ == display_name(path@),
{
    let p = str_chars(path);
    match path_file_name(&p) {
        Some(n) => chars_to_string(&n),
        None => "attachment".to_owned(),
    }
}

/// The media kind a directive declares, or the path's kind when the type is missing or unknown.
pub open spec fn directive_kind(declared: Option<Seq<char>>, path: Seq<char>) -> MediaType {
    let k = ascii_lower(trim(
        match declared {
            Some(t) => t,
            None => Seq::empty(),
        },
    ));
    if k == "image"@ {
        MediaType::Image
    } else if k == "video"@ {
        MediaType::Video
    } else if k == "audio"@ || k == "voice"@ {
        MediaType::Audio
    } else if k == "file"@ {
        MediaType::File
    } else {
        kind_of_path(path)
    }
}

/// A directive line that names an absolute path.
pub open spec fn directive_item(line: Seq<char>) -> Option<ItemView> {
    match directive_fields(line) {
        Some((t, path, name, _label)) => if is_absolute(path) {
            Some(
                (
                    directive_kind(t, path),
                    match name {
                        Some(n) => n,
                        None => display_name(path),
                    },
                    path,
                ),
            )
        } else {
            None
        },
        None => None,
    }
}

/// Reads a media directive that points at an absolute path.
pub fn parse_desktop_media_directive(line: &str) -> (r: Option<DesktopParsedMediaItem>)
    ensures
        match directive_item(line@) {
            Some(v) => r matches Some(item) && item_view(item) == v,
            None => r is None,
        },
{
    let directive = match parse_media_directive_fields(line) {
        Some(d) => d,
        None => {
            return None;
        },
    };
    let path_chars = str_chars(directive.path.as_str());
    if !path_is_absolute(&path_chars) {
        return None;
    }
    let declared = match &directive.media_type {
        Some(t) => crate::text::trimmed_chars(t.as_str()),
        None => Vec::new(),
    };
    assert(declared@ == trim(
        match directive.media_type.deep_view() {
            Some(t) => t,
            None => Seq::empty(),
        },
    )) by {
        if directive.media_type is None {
            assert(trim(Seq::<char>::empty()) =~= Seq::<char>::empty());
        }
    }
    let k = to_ascii_lower(&declared);
    let media_type = if chars_eq_str(&k, "image") {
        MediaType::Image
    } else if chars_eq_str(&k, "video") {
        MediaType::Video
    } else if chars_eq_str(&k, "audio") || chars_eq_str(&k, "voice") {
        MediaType::Audio
    } else if chars_eq_str(&k, "file") {
        MediaType::File
    } else {
        path_kind(directive.path.as_str())
    };
    let file_name = match directive.name {
        Some(n) => n,
        None => name_of_path(directive.path.as_str()),
    };
    Some(DesktopParsedMediaItem { media_type, file_name, file_path: directive.path })
}

/// A markdown link to an absolute path; `![...]` links are images.
pub open spec fn markdown_item(line: Seq<char>) -> Option<ItemView> {
    match markdown_reference(line) {
        Some((_label, path)) => if is_absolute(path) {
            let kind = if starts_with(trim(line), "!["@) {
                MediaType::Image
            } else {
                kind_of_path(path)
            };
            Some((kind, display_name(path), path))
        } else {
            None
        },
        None => None,
    }
}

/// Reads a markdown media link that points at an absolute path.
pub fn parse_desktop_markdown_media(line: &str) -> (r: Option<DesktopParsedMediaItem>)
    ensures
        match markdown_item(line@) {
            Some(v) => r matches Some(item) && item_view(item) == v,
            None => r is None,
        },
{
    let reference = match parse_markdown_media_reference(line) {
        Some(r) => r,
        None => {
            return None;
        },
    };
    let path_chars = str_chars(reference.path.as_str());
    if !path_is_absolute(&path_chars) {
        return None;
    }
    let t = crate::text::trimmed_chars(line);
    let image_mark = str_chars("![");
    let media_type = if crate::text::has_prefix(&t, &image_mark) {
        MediaType::Image
    } else {
        path_kind(reference.path.as_str())
    };
    let file_name = name_of_path(reference.path.as_str());
    Some(DesktopParsedMediaItem { media_type, file_name, file_path: reference.path })
}

/// A line that is a bare file path.
pub open spec fn plain_item(line: Seq<char>) -> Option<ItemView> {
    match plain_path_reference(line) {
        Some(path) => Some((kind_of_path(path), display_name(path), path)),
        None => None,
    }
}

/// Reads a line that is a bare file path.
pub fn parse_desktop_plain_path_media(line: &str) -> (r: Option<DesktopParsedMediaItem>)
    ensures
        match plain_item(line@) {
            Some(v) => r matches Some(item) && item_view(item) == v,
            None => r is None,
        },
{
    let reference = match parse_plain_media_path_reference(line) {
        Some(r) => r,
        None => {
            return None;
        },
    };
    let media_type = path_kind(reference.path.as_str());
    let file_name = name_of_path(reference.path.as_str());
    Some(DesktopParsedMediaItem { media_type, file_name, file_path: reference.path })
}

/// The media item a reply line stands for: a directive, else a markdown link, else a bare path.
pub open spec fn line_item(line: Seq<char>) -> Option<ItemView> {
    match directive_item(line) {
        Some(v) => Some(v),
        None => match markdown_item(line) {
            Some(v) => Some(v),
            None => plain_item(line),
        },
    }
}

/// The text lines and the media items of a list of lines, each in order.
pub open spec fn partition_lines(ls: Seq<Seq<char>>) -> (Seq<Seq<char>>, Seq<ItemView>)
    decreases ls.len(),
{
    if ls.len() == 0 {
        (Seq::empty(), Seq::empty())
    } else {
        let (t, m) = partition_lines(ls.drop_last());
        match line_item(ls.last()) {
            Some(v) => (t, m.push(v)),
            None => (t.push(ls.last()), m),
        }
    }
}

/// The reply text (lines that are not media, trimmed) and the media items of a reply.
pub open spec fn split_reply(content: Seq<char>) -> (Seq<char>, Seq<ItemView>) {
    let (t, m) = partition_lines(lines(content));
    (trim(join(t, "\n"@)), m)
}

fn line_media(line: &str) -> (r: Option<DesktopParsedMediaItem>)
    ensures
        match line_item(line@) {
            Some(v) => r matches Some(item) && item_view(item) == v,
            None => r is None,
        },
{
    match parse_desktop_media_directive(line) {
        Some(item) => Some(item),
        None => match parse_desktop_markdown_media(line) {
            Some(item) => Some(item),
            None => parse_desktop_plain_path_media(line),
        },
    }
}

pub open spec fn items_view(v: Seq<DesktopParsedMediaItem>) -> Seq<ItemView> {
    v.map_values(|i: DesktopParsedMediaItem| item_view(i))
}

/// Separates the media lines of a reply from its text.
pub fn split_desktop_text_and_media(content: &str) -> (r: (String, Vec<DesktopParsedMediaItem>))
    ensures
        (r.0@, items_view(r.1@)) == split_reply(content@),
{
    let chars = str_chars(content);
    let ls = crate::text::split_lines(&chars);
    let ghost lv = ls@.map_values(|l: Vec<char>| l@);
    let mut text_lines: Vec<Vec<char>> = Vec::new();
    let mut media_items: Vec<DesktopParsedMediaItem> = Vec::new();
    let mut i: usize = 0;
    while i < ls.len()
        invariant
            i <= ls.len(),
            lv == ls@.map_values(|l: Vec<char>| l@),
            (text_lines@.map_values(|l: Vec<char>| l@), items_view(media_items@))
                == partition_lines(lv.take(i as int)),
        decreases ls.len() - i,
    {
        let ghost t0 = text_lines@.map_values(|l: Vec<char>| l@);
        let ghost m0 = items_view(media_items@);
        assert(lv.take(i + 1).drop_last() =~= lv.take(i as int));
        assert(lv.take(i + 1).last() == ls@[i as int]@);
        let line = chars_to_string(&ls[i]);
        match line_media(line.as_str()) {
            Some(item) => {
                media_items.push(item);
                assert(items_view(media_items@) =~= m0.push(item_view(item)));
            },
            None => {
                text_lines.push(ls[i].clone());
                assert(text_lines@.map_values(|l: Vec<char>| l@) =~= t0.push(ls@[i as int]@));
            },
        }
        i = i + 1;
    }
    assert(lv.take(ls.len() as int) =~= lv);
    let joined = crate::text::join_vecs(&text_lines, &str_chars("\n"));
    let text = crate::text::trim_vec(&joined);
    (chars_to_string(&text), media_items)
}

/// The directive type word for a media kind.
pub open spec fn slug_of(t: MediaType) -> Seq<char> {
    match t {
        MediaType::Image => "image"@,
        MediaType::Video => "video"@,
        MediaType::Audio => "audio"@,
        MediaType::File => "file"@,
    }
}

/// The displayed label for a media kind.
pub open spec fn label_of(t: MediaType) -> Seq<char> {
    match t {
        MediaType::Image => "图片"@,
        MediaType::Video => "视频"@,
        MediaType::Audio => "语音"@,
        MediaType::File => "文件"@,
    }
}

pub fn desktop_media_type_slug(media_type: &MediaType) -> (s: &'static str)
    ensures
        s@ == slug_of(*media_type),
{
    match media_type {
        MediaType::Image => "image",
        MediaType::Video => "video",
        MediaType::Audio => "audio",
        MediaType::File => "file",
    }
}

pub fn desktop_media_label(media_type: &MediaType) -> (s: &'static str)
    ensures
        s@ == label_of(*media_type),
{
    match media_type {
        MediaType::Image => "图片",
        MediaType::Video => "视频",
        MediaType::Audio => "语音",
        MediaType::File => "文件",
    }
}

/// The directive line that stands for a media item.
pub open spec fn item_line(v: ItemView) -> Seq<char> {
    directive_line(slug_of(v.0), v.2, Some(v.1), Some(label_of(v.0)))
}

/// The lines of an outbound reply: the trimmed text (when not blank), then one directive per item.
pub open spec fn display_lines(text: Seq<char>, items: Seq<ItemView>) -> Seq<Seq<char>> {
    let head = if trim(text).len() > 0 {
        seq![trim(text)]
    } else {
        Seq::empty()
    };
    head + items.map_values(|v: ItemView| item_line(v))
}

/// Rebuilds the reply text shown in the desktop chat from its text and media items.
pub fn build_desktop_outbound_display_text(
    text_reply: &str,
    media_items: &[DesktopParsedMediaItem],
) -> (r: String)
    ensures
        r@ == join(display_lines(text_reply@, items_view(media_items@)), "\n"@),
{
    let mut out_lines: Vec<Vec<char>> = Vec::new();
    let t = crate::text::trimmed_chars(text_reply);
    if t.len() > 0 {
        out_lines.push(t);
    }
    let ghost head = out_lines@.map_values(|l: Vec<char>| l@);
    let ghost iv = items_view(media_items@);
    let mut i: usize = 0;
    while i < media_items.len()
        invariant
            i <= media_items.len(),
            iv == items_view(media_items@),
            out_lines@.map_values(|l: Vec<char>| l@) =~= head + iv.take(i as int).map_values(
                |v: ItemView| item_line(v),
            ),
        decreases media_items.len() - i,
    {
        let item = &media_items[i];
        let line = build_media_directive_line(
            desktop_media_type_slug(&item.media_type),
            item.file_path.as_str(),
            Some(item.file_name.as_str()),
            Some(desktop_media_label(&item.media_type)),
        );
        let ghost before = out_lines@.map_values(|l: Vec<char>| l@);
        assert(iv[i as int] == item_view(*item));
        assert(line@ == item_line(iv[i as int]));
        out_lines.push(str_chars(line.as_str()));
        assert(out_lines@.map_values(|l: Vec<char>| l@) =~= before.push(line@));
        assert(iv.take(i + 1).map_values(|v: ItemView| item_line(v)) =~= iv.take(
            i as int,
        ).map_values(|v: ItemView| item_line(v)).push(item_line(iv[i as int])));
        i = i + 1;
    }
    assert(iv.take(media_items.len() as int) =~= iv);
    assert(out_lines@.map_values(|l: Vec<char>| l@) =~= display_lines(text_reply@, iv));
    let joined = crate::text::join_vecs(&out_lines, &str_chars("\n"));
    chars_to_string(&joined)
}


/// The media items with the paths they were stored under: item `i` takes `stored[i]` when that
/// is given, and keeps its own path otherwise.
pub open spec fn with_stored_paths(items: Seq<ItemView>, stored: Seq<Option<Seq<char>>>) -> Seq<ItemView> {
    Seq::new(
        items.len(),
        |i: int|
            if i < stored.len() && stored[i] is Some {
                (items[i].0, items[i].1, stored[i].unwrap())
            } else {
                items[i]
            },
    )
}

/// The reply as the desktop chat keeps it: unchanged when it names no media, else rebuilt from
/// its text and its media items (at their stored paths).
pub open spec fn finalized_reply(content: Seq<char>, stored: Seq<Option<Seq<char>>>) -> Seq<char> {
    let (text, items) = split_reply(content);
    if items.len() == 0 {
        content
    } else {
        join(display_lines(text, with_stored_paths(items, stored)), "\n"@)
    }
}

pub open spec fn stored_view(v: Seq<Option<String>>) -> Seq<Option<Seq<char>>> {
    v.map_values(
        |o: Option<String>|
            match o {
                Some(s) => Some(s@),
                None => None,
            },
    )
}

/// Finishes an outbound desktop reply (see `finalized_reply`); `stored_paths[i]` is where the
/// caller stored the `i`-th media item that `split_desktop_text_and_media` finds, if it did.
pub fn finalize_desktop_outbound_reply(content: &str, stored_paths: &Vec<Option<String>>) -> (r: String)
    ensures
        r@ == finalized_reply(content@, stored_view(stored_paths@)),
{
    let (text_reply, items) = split_desktop_text_and_media(content);
    if items.len() == 0 {
        return content.to_owned();
    }
    let ghost iv = items_view(items@);
    let ghost sv = stored_view(stored_paths@);
    let ghost target = with_stored_paths(iv, sv);
    let mut out: Vec<DesktopParsedMediaItem> = Vec::new();
    let mut i: usize = 0;
    while i < items.len()
        invariant
            i <= items.len(),
            iv == items_view(items@),
            sv == stored_view(stored_paths@),
            target == with_stored_paths(iv, sv),
            items_view(out@) =~= target.take(i as int),
        decreases items.len() - i,
    {
        let item = &items[i];
        let path = if i < stored_paths.len() {
            match &stored_paths[i] {
                Some(p) => p.clone(),
                None => item.file_path.clone(),
            }
        } else {
            item.file_path.clone()
        };
        let next = DesktopParsedMediaItem {
            media_type: item.media_type,
            file_name: item.file_name.clone(),
            file_path: path,
        };
        assert(item_view(next) == target[i as int]);
        let ghost before = items_view(out@);
        out.push(next);
        assert(items_view(out@) =~= before.push(item_view(next)));
        assert(target.take(i + 1) =~= target.take(i as int).push(target[i as int]));
        i = i + 1;
    }
    assert(target.take(items.len() as int) =~= target);
    build_desktop_outbound_display_text(text_reply.as_str(), &out)
}

} // verus!

verus! {

/// The video extensions (compared lower-cased).
pub open spec fn is_video_extension(e: Seq<char>) -> bool {
    e == "mp4"@ || e == "mov"@ || e == "avi"@ || e == "mkv"@ || e == "webm"@ || e == "m4v"@
}

/// A path whose extension, lower-cased, is `mp4`, `mov`, `avi`, `mkv`, `webm` or `m4v` holds a
/// video, and a bare path line naming such a file yields a media item of kind video.
pub proof fn lemma_video_extensions_are_video(p: Seq<char>, line: Seq<char>)
    ensures
        extension(p) matches Some(e) ==> (is_video_extension(ascii_lower(e)) ==> is_video_path(p)
            && kind_of_path(p) == MediaType::Video),
        plain_item(line) matches Some(v) ==> (extension(v.2) matches Some(e) ==> (
        is_video_extension(ascii_lower(e)) ==> v.0 == MediaType::Video)),
{
    reveal_strlit("mp4");
    reveal_strlit("mov");
    reveal_strlit("avi");
    reveal_strlit("mkv");
    reveal_strlit("webm");
    reveal_strlit("m4v");
    reveal_strlit("png");
    reveal_strlit("jpg");
    reveal_strlit("jpeg");
    reveal_strlit("gif");
    reveal_strlit("webp");
    reveal_strlit("bmp");
    reveal_strlit("svg");
    assert("mp4"@[0] != "png"@[0]);
    assert("mp4"@ != "png"@);
    assert("mp4"@[0] != "jpg"@[0]);
    assert("mp4"@ != "jpg"@);
    assert("mp4"@[0] != "gif"@[0]);
    assert("mp4"@ != "gif"@);
    assert("mp4"@[0] != "bmp"@[0]);
    assert("mp4"@ != "bmp"@);
    assert("mp4"@[0] != "svg"@[0]);
    assert("mp4"@ != "svg"@);
    assert("mov"@[0] != "png"@[0]);
    assert("mov"@ != "png"@);
    assert("mov"@[0] != "jpg"@[0]);
    assert("mov"@ != "jpg"@);
    assert("mov"@[0] != "gif"@[0]);
    assert("mov"@ != "gif"@);
    assert("mov"@[0] != "bmp"@[0]);
    assert("mov"@ != "bmp"@);
    assert("mov"@[0] != "svg"@[0]);
    assert("mov"@ != "svg"@);
    assert("avi"@[0] != "png"@[0]);
    assert("avi"@ != "png"@);
    assert("avi"@[0] != "jpg"@[0]);
    assert("avi"@ != "jpg"@);
    assert("avi"@[0] != "gif"@[0]);
    assert("avi"@ != "gif"@);
    assert("avi"@[0] != "bmp"@[0]);
    assert("avi"@ != "bmp"@);
    assert("avi"@[0] != "svg"@[0]);
    assert("avi"@ != "svg"@);
    assert("mkv"@[0] != "png"@[0]);
    assert("mkv"@ != "png"@);
    assert("mkv"@[0] != "jpg"@[0]);
    assert("mkv"@ != "jpg"@);
    assert("mkv"@[0] != "gif"@[0]);
    assert("mkv"@ != "gif"@);
    assert("mkv"@[0] != "bmp"@[0]);
    assert("mkv"@ != "bmp"@);
    assert("mkv"@[0] != "svg"@[0]);
    assert("mkv"@ != "svg"@);
    assert("webm"@[0] != "jpeg"@[0]);
    assert("webm"@ != "jpeg"@);
    assert("webm"@[3] != "webp"@[3]);
    assert("webm"@ != "webp"@);
    assert("m4v"@[0] != "png"@[0]);
    assert("m4v"@ != "png"@);
    assert("m4v"@[0] != "jpg"@[0]);
    assert("m4v"@ != "jpg"@);
    assert("m4v"@[0] != "gif"@[0]);
    assert("m4v"@ != "gif"@);
    assert("m4v"@[0] != "bmp"@[0]);
    assert("m4v"@ != "bmp"@);
    assert("m4v"@[0] != "svg"@[0]);
    assert("m4v"@ != "svg"@);
}

} // verus!
