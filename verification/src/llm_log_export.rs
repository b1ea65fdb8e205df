//! Mirroring finished traces into a directory the user chose, and previewing the newest mirror
//! file there.
use vstd::prelude::*;
use crate::text::{
    chars_to_string, ends_with, has_prefix, has_suffix, push_all, push_str, starts_with, str_chars,
};
use crate::llm_trace::{non_blank, non_blank_of, opt_str_view, opt_string_view};
use crate::paths::{join_path, join_path_chars};

verus! {

/// The directory traces are mirrored to, if one is set.
#[derive(Debug, Clone, PartialEq, Eq)]
pub struct LlmLogExport {
    pub root: Option<String>,
}

/// A preview of the newest mirror file: its path and its tail.
#[derive(Debug, Clone, PartialEq, Eq)]
pub struct LlmLogPreview {
    pub file: Option<String>,
    pub tail: String,
}

/// Whether a file name is that of a mirror file: `llm-trace-` ... `.jsonl`.
pub open spec fn is_trace_file_name(name: Seq<char>) -> bool {
    starts_with(name, "llm-trace-"@) && ends_with(name, ".jsonl"@)
}

/// Whether a file name is that of a mirror file.
pub fn is_llm_trace_file(name: &str) -> (b: bool)
    ensures
        b == is_trace_file_name(name@),
{
    let n = str_chars(name);
    let p = str_chars("llm-trace-");
    let s = str_chars(".jsonl");
    has_prefix(&n, &p) && has_suffix(&n, &s)
}

/// The mirror file of a day: `llm-trace-<day>.jsonl`.
pub open spec fn export_file_name(day: Seq<char>) -> Seq<char> {
    "llm-trace-"@ + day + ".jsonl"@
}

/// The name of the mirror file for a day (the day as the caller formats it).
pub fn trace_export_file_name(day: &str) -> (r: String)
    ensures
        r@ == export_file_name(day@),
{
    let mut out = str_chars("llm-trace-");
    push_str(&mut out, day);
    push_str(&mut out, ".jsonl");
    chars_to_string(&out)
}

/// Every mirror file name is recognised as one.
pub proof fn lemma_export_file_name_is_trace_file(day: Seq<char>)
    ensures
        is_trace_file_name(export_file_name(day)),
{
    reveal_strlit("llm-trace-");
    reveal_strlit(".jsonl");
    let n = export_file_name(day);
    assert(n.subrange(0, 10) =~= "llm-trace-"@);
    assert(n.subrange(n.len() - 6, n.len() as int) =~= ".jsonl"@);
}

impl LlmLogExport {
    /// No export directory.
    pub fn new() -> (r: Self)
        ensures
            r.root is None,
    {
        LlmLogExport { root: None }
    }

    /// The export directory, if one is set.
    pub fn get_dir(&self) -> (r: Option<String>)
        ensures
            opt_string_view(r) == opt_string_view(self.root),
    {
        match &self.root {
            Some(p) => Some(p.clone()),
            None => None,
        }
    }

    /// Sets (or, for a blank path, clears) the export directory. A non-blank path must name an
    /// existing directory (`path_is_dir`, for the trimmed path), else nothing changes.
    pub fn set_dir(&mut self, path: Option<&str>, path_is_dir: bool) -> (r: Result<(), String>)
        ensures
            match non_blank(opt_str_view(path)) {
                Some(p) => if path_is_dir {
                    r is Ok && opt_string_view(final(self).root) == Some(p)
                } else {
                    r matches Err(e) && e@ == "路径不是已存在的目录"@ && final(self).root == old(self).root
                },
                None => r is Ok && final(self).root is None,
            },
    {
        match non_blank_of(path) {
            Some(p) => {
                if !path_is_dir {
                    return Err("路径不是已存在的目录".to_owned());
                }
                self.root = Some(chars_to_string(&p));
                Ok(())
            },
            None => {
                self.root = None;
                Ok(())
            },
        }
    }

    /// Restores the export directory from a stored path: kept when non-blank and an existing
    /// directory (`path_is_dir`, for the trimmed path), else nothing changes.
    pub fn restore(&mut self, stored_path: &str, path_is_dir: bool)
        ensures
            match non_blank(Some(stored_path@)) {
                Some(p) => if path_is_dir {
                    opt_string_view(final(self).root) == Some(p)
                } else {
                    final(self).root == old(self).root
                },
                None => final(self).root == old(self).root,
            },
    {
        match non_blank_of(Some(stored_path)) {
            Some(p) => {
                if path_is_dir {
                    self.root = Some(chars_to_string(&p));
                }
            },
            None => {},
        }
    }
}

/// Whether `a` comes before `b` in code point order.
pub open spec fn chars_less(a: Seq<char>, b: Seq<char>) -> bool
    decreases a.len(),
{
    if b.len() == 0 {
        false
    } else if a.len() == 0 {
        true
    } else if a[0] < b[0] {
        true
    } else if a[0] > b[0] {
        false
    } else {
        chars_less(a.drop_first(), b.drop_first())
    }
}

pub proof fn lemma_chars_less_order(a: Seq<char>, b: Seq<char>, c: Seq<char>)
    ensures
        !(chars_less(a, b) && chars_less(b, a)),
        a != b ==> chars_less(a, b) || chars_less(b, a),
        chars_less(a, b) && chars_less(b, c) ==> chars_less(a, c),
    decreases a.len(),
{
    if a.len() == 0 || b.len() == 0 {
        if a.len() == 0 && b.len() == 0 {
            assert(a =~= b);
        }
    } else {
        if c.len() > 0 {
            lemma_chars_less_order(a.drop_first(), b.drop_first(), c.drop_first());
        } else {
            lemma_chars_less_order(a.drop_first(), b.drop_first(), b.drop_first());
        }
        if a[0] == b[0] && a != b {
            assert(a =~= seq![a[0]] + a.drop_first());
            assert(b =~= seq![b[0]] + b.drop_first());
            assert(a.drop_first() != b.drop_first());
        }
    }
}

fn less_chars(a: &[char], b: &[char]) -> (r: bool)
    ensures
        r == chars_less(a@, b@),
{
    let mut i: usize = 0;
    assert(a@.skip(0) =~= a@);
    assert(b@.skip(0) =~= b@);
    while i < a.len() && i < b.len() && a[i] == b[i]
        invariant
            i <= a.len(),
            i <= b.len(),
            chars_less(a@, b@) == chars_less(a@.skip(i as int), b@.skip(i as int)),
        decreases a.len() - i,
    {
        assert(a@.skip(i as int).drop_first() =~= a@.skip(i + 1));
        assert(b@.skip(i as int).drop_first() =~= b@.skip(i + 1));
        i = i + 1;
    }
    assert(i < a.len() ==> a@.skip(i as int)[0] == a@[i as int]);
    assert(i < b.len() ==> b@.skip(i as int)[0] == b@[i as int]);
    if i == b.len() {
        false
    } else if i == a.len() {
        true
    } else {
        a[i] < b[i]
    }
}

/// The greatest mirror file name among `names`, in code point order.
pub open spec fn latest_trace_name(names: Seq<Seq<char>>) -> Option<Seq<char>>
    decreases names.len(),
{
    if names.len() == 0 {
        None
    } else {
        let prev = latest_trace_name(names.drop_last());
        let n = names.last();
        if !is_trace_file_name(n) {
            prev
        } else {
            match prev {
                None => Some(n),
                Some(p) => if chars_less(p, n) {
                    Some(n)
                } else {
                    Some(p)
                },
            }
        }
    }
}

/// The chosen name is a mirror file name of the list, and no mirror file name of the list comes
/// after it; there is none only when the list holds no mirror file name.
pub proof fn lemma_latest_trace_name(names: Seq<Seq<char>>)
    ensures
        match latest_trace_name(names) {
            Some(r) => is_trace_file_name(r) && names.contains(r) && forall|i: int|
                0 <= i < names.len() && is_trace_file_name(#[trigger] names[i]) ==> !chars_less(r, names[i]),
            None => forall|i: int| 0 <= i < names.len() ==> !is_trace_file_name(#[trigger] names[i]),
        },
    decreases names.len(),
{
    if names.len() > 0 {
        let d = names.drop_last();
        lemma_latest_trace_name(d);
        let n = names.last();
        assert forall|i: int| 0 <= i < d.len() implies names[i] == d[i] by {}
        match latest_trace_name(d) {
            Some(p) => {
                let j = choose|j: int| 0 <= j < d.len() && d[j] == p;
                assert(names[j] == p);
                if is_trace_file_name(n) && chars_less(p, n) {
                    assert(names[names.len() - 1] == n);
                    assert forall|i: int| 0 <= i < names.len() && is_trace_file_name(#[trigger] names[i]) implies !chars_less(n, names[i]) by {
                        lemma_chars_less_order(names[i], p, n);
                        lemma_chars_less_order(n, names[i], p);
                        lemma_chars_less_order(p, names[i], n);
                        if i < d.len() {
                            assert(!chars_less(p, d[i]));
                        }
                    }
                } else {
                    assert forall|i: int| 0 <= i < names.len() && is_trace_file_name(#[trigger] names[i]) implies !chars_less(p, names[i]) by {
                        if i < d.len() {
                            assert(!chars_less(p, d[i]));
                        }
                    }
                }
            },
            None => {
                if is_trace_file_name(n) {
                    assert(names[names.len() - 1] == n);
                    assert forall|i: int| 0 <= i < names.len() && is_trace_file_name(#[trigger] names[i]) implies !chars_less(n, names[i]) by {
                        lemma_chars_less_order(n, names[i], n);
                        if i < d.len() {
                            assert(!is_trace_file_name(d[i]));
                        }
                    }
                }
            },
        }
    }
}

/// The message shown when no export directory is set.
pub open spec fn no_dir_message() -> Seq<char> {
    "未设置日志目录。"@
}

/// The message shown when the export directory holds no mirror file.
pub open spec fn no_file_message() -> Seq<char> {
    "目录中还没有 llm-trace-*.jsonl 文件（完成一次带追踪的 LLM 调用后会出现）。"@
}

/// The next step of a preview: done already, or read the tail of the given file.
#[derive(Debug, Clone, PartialEq, Eq)]
pub enum PreviewStep {
    Done(LlmLogPreview),
    Read(String),
}

/// Plans a preview from the export directory (if set), whether it is an existing directory,
/// and the file names it holds: with no directory or no mirror file it is done with a message;
/// otherwise the newest mirror file (the greatest name) is read.
pub fn plan_preview(root: Option<&str>, root_is_dir: bool, file_names: &Vec<String>) -> (r: Result<
    PreviewStep,
    String,
>)
    ensures
        match root {
            None => r matches Ok(PreviewStep::Done(p)) && p.file is None && p.tail@ == no_dir_message(),
            Some(dir) => if !root_is_dir {
                r matches Err(e) && e@ == "日志目录无效或不可访问"@
            } else {
                match latest_trace_name(file_names@.map_values(|n: String| n@)) {
                    None => r matches Ok(PreviewStep::Done(p)) && p.file is None && p.tail@
                        == no_file_message(),
                    Some(name) => r matches Ok(PreviewStep::Read(path)) && path@ == join_path(
                        dir@,
                        name,
                    ),
                }
            },
        },
{
    let dir = match root {
        None => {
            return Ok(
                PreviewStep::Done(
                    LlmLogPreview { file: None, tail: "未设置日志目录。".to_owned() },
                ),
            );
        },
        Some(d) => d,
    };
    if !root_is_dir {
        return Err("日志目录无效或不可访问".to_owned());
    }
    let ghost nv = file_names@.map_values(|n: String| n@);
    let mut best: Option<Vec<char>> = None;
    let mut i: usize = 0;
    while i < file_names.len()
        invariant
            i <= file_names.len(),
            nv == file_names@.map_values(|n: String| n@),
            match latest_trace_name(nv.take(i as int)) {
                Some(x) => best matches Some(b) && b@ == x,
                None => best is None,
            },
        decreases file_names.len() - i,
    {
        assert(nv.take(i + 1).drop_last() =~= nv.take(i as int));
        assert(nv.take(i + 1).last() == file_names@[i as int]@);
        if is_llm_trace_file(file_names[i].as_str()) {
            let n = str_chars(file_names[i].as_str());
            let replace = match &best {
                None => true,
                Some(b) => less_chars(b, &n),
            };
            if replace {
                best = Some(n);
            }
        }
        i = i + 1;
    }
    assert(nv.take(file_names.len() as int) =~= nv);
    match best {
        None => Ok(
            PreviewStep::Done(
                LlmLogPreview {
                    file: None,
                    tail: "目录中还没有 llm-trace-*.jsonl 文件（完成一次带追踪的 LLM 调用后会出现）。".to_owned(),
                },
            ),
        ),
        Some(name) => {
            let d = str_chars(dir);
            let path = join_path_chars(&d, &name);
            Ok(PreviewStep::Read(chars_to_string(&path)))
        },
    }
}

/// The most a preview shows of a file, in bytes.
pub const PREVIEW_MAX: u64 = 49152;

/// Where reading for a preview starts: the whole file when it is small, else its last
/// `PREVIEW_MAX` bytes.
pub fn preview_start(len: u64) -> (r: u64)
    ensures
        r == if len <= PREVIEW_MAX {
            0
        } else {
            (len - PREVIEW_MAX) as u64
        },
{
    if len <= PREVIEW_MAX {
        0
    } else {
        len - PREVIEW_MAX
    }
}

/// The text shown for a preview: when reading started inside the file, the first (likely cut)
/// line is dropped, unless there is no line break at all.
pub open spec fn preview_tail_text(text: Seq<char>, start: u64) -> Seq<char> {
    if start > 0 && text.contains('\n') {
        text.skip(text.index_of_first('\n').unwrap() + 1)
    } else {
        text
    }
}

/// Builds the preview of a file from the text read from `start` on.
pub fn preview_from_text(file: String, text: &str, start: u64) -> (r: LlmLogPreview)
    ensures
        r.file == Some(file),
        r.tail@ == preview_tail_text(text@, start),
{
    let chars = str_chars(text);
    if start > 0 {
        let mut i: usize = 0;
        while i < chars.len()
            invariant
                i <= chars.len(),
                chars@ == text@,
                start > 0,
                forall|j: int| 0 <= j < i ==> chars@[j] != '\n',
            decreases chars.len() - i,
        {
            if chars[i] == '\n' {
                proof {
                    assert(chars@[i as int] == '\n');
                    chars@.index_of_first_ensures('\n');
                    assert(chars@.contains('\n'));
                    assert(chars@.index_of_first('\n') == Some(i as int));
                }
                let rest = crate::text::slice_to_vec(&chars, i + 1, chars.len());
                assert(rest@ =~= chars@.skip(i + 1));
                return LlmLogPreview { file: Some(file), tail: chars_to_string(&rest) };
            }
            i = i + 1;
        }
        assert(!chars@.contains('\n'));
    }
    LlmLogPreview { file: Some(file), tail: chars_to_string(&chars) }
}

} // verus!
