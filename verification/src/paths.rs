//! File-name and extension of a `/`-separated path, as `std::path::Path` reads them on Unix.
use vstd::prelude::*;
use crate::text::{chars_eq_str, split_on};

verus! {

/// A path component that names something: neither empty nor `.`.
pub open spec fn is_named_segment(seg: Seq<char>) -> bool {
    seg.len() > 0 && seg != "."@
}

/// The last named component among `segs`.
pub open spec fn last_named(segs: Seq<Seq<char>>) -> Option<Seq<char>>
    decreases segs.len(),
{
    if segs.len() == 0 {
        None
    } else if is_named_segment(segs.last()) {
        Some(segs.last())
    } else {
        last_named(segs.drop_last())
    }
}

/// The final component of `p`, unless that component is `..` or there is none.
pub open spec fn file_name(p: Seq<char>) -> Option<Seq<char>> {
    match last_named(split_on(p, '/')) {
        Some(seg) => if seg == ".."@ {
            None
        } else {
            Some(seg)
        },
        None => None,
    }
}

/// Index of the last `.` in `s`, or -1.
pub open spec fn last_dot(s: Seq<char>) -> int
    decreases s.len(),
{
    if s.len() == 0 {
        -1
    } else if s.last() == '.' {
        s.len() - 1
    } else {
        last_dot(s.drop_last())
    }
}

/// The extension of a file name: what follows its last `.`, where that dot is not the first
/// character.
pub open spec fn name_extension(name: Seq<char>) -> Option<Seq<char>> {
    if last_dot(name) <= 0 {
        None
    } else {
        Some(name.skip(last_dot(name) + 1))
    }
}

/// The extension of the file that `p` names.
pub open spec fn extension(p: Seq<char>) -> Option<Seq<char>> {
    match file_name(p) {
        Some(name) => name_extension(name),
        None => None,
    }
}

fn is_named(seg: &Vec<char>) -> (b: bool)
    ensures
        b == is_named_segment(seg@),
{
    seg.len() > 0 && !chars_eq_str(seg.as_slice(), ".")
}

/// The final component of a path.
pub fn path_file_name(p: &[char]) -> (r: Option<Vec<char>>)
    ensures
        r matches Some(v) ==> file_name(p@) == Some(v@),
        r is None ==> file_name(p@) is None,
{
    let mut last: Option<Vec<char>> = None;
    let mut cur: Vec<char> = Vec::new();
    let mut i: usize = 0;
    while i < p.len()
        invariant
            i <= p.len(),
            split_on(p@.take(i as int), '/').len() >= 1,
            cur@ == split_on(p@.take(i as int), '/').last(),
            match last {
                Some(v) => last_named(split_on(p@.take(i as int), '/').drop_last()) == Some(v@),
                None => last_named(split_on(p@.take(i as int), '/').drop_last()) is None,
            },
        decreases p.len() - i,
    {
        let ghost t = p@.take(i as int);
        let ghost sp = split_on(t, '/');
        assert(p@.take(i + 1).drop_last() =~= t);
        proof {
            crate::text::lemma_split_on_nonempty(p@.take(i + 1), '/');
        }
        if p[i] == '/' {
            assert(sp.push(Seq::<char>::empty()).drop_last() =~= sp);
            assert(sp.drop_last() =~= sp.drop_last());
            if is_named(&cur) {
                last = Some(cur);
            }
            cur = Vec::new();
        } else {
            cur.push(p[i]);
            assert(sp.update(sp.len() - 1, sp.last().push(p@[i as int])).drop_last()
                =~= sp.drop_last());
        }
        i = i + 1;
    }
    assert(p@.take(p.len() as int) =~= p@);
    let ghost sp = split_on(p@, '/');
    let picked = if is_named(&cur) {
        Some(cur)
    } else {
        last
    };
    match picked {
        Some(seg) => {
            if chars_eq_str(seg.as_slice(), "..") {
                None
            } else {
                Some(seg)
            }
        },
        None => None,
    }
}

/// The extension of a file name.
pub fn file_name_extension(name: &[char]) -> (r: Option<Vec<char>>)
    ensures
        r matches Some(v) ==> name_extension(name@) == Some(v@),
        r is None ==> name_extension(name@) is None,
{
    let mut j: usize = name.len();
    assert(name@.take(j as int) =~= name@);
    while j > 0 && name[j - 1] != '.'
        invariant
            j <= name.len(),
            last_dot(name@.take(j as int)) == last_dot(name@),
        decreases j,
    {
        assert(name@.take(j as int).drop_last() =~= name@.take(j - 1));
        j = j - 1;
    }
    if j == 0 {
        assert(name@.take(0) =~= Seq::<char>::empty());
        return None;
    }
    assert(last_dot(name@.take(j as int)) == j - 1);
    if j == 1 {
        return None;
    }
    let mut ext: Vec<char> = Vec::new();
    let mut k = j;
    while k < name.len()
        invariant
            j <= k <= name.len(),
            ext@ =~= name@.subrange(j as int, k as int),
        decreases name.len() - k,
    {
        ext.push(name[k]);
        k = k + 1;
    }
    assert(name@.skip(j as int) =~= name@.subrange(j as int, name.len() as int));
    Some(ext)
}

/// The extension of the file a path names.
pub fn path_extension(p: &[char]) -> (r: Option<Vec<char>>)
    ensures
        r matches Some(v) ==> extension(p@) == Some(v@),
        r is None ==> extension(p@) is None,
{
    match path_file_name(p) {
        Some(name) => file_name_extension(name.as_slice()),
        None => None,
    }
}

/// Whether a path is absolute (begins at the root).
pub open spec fn is_absolute(p: Seq<char>) -> bool {
    p.len() > 0 && p[0] == '/'
}

pub fn path_is_absolute(p: &[char]) -> (b: bool)
    ensures
        b == is_absolute(p@),
{
    p.len() > 0 && p[0] == '/'
}

} // verus!

verus! {

/// `rel` appended to `base` as `Path::join` does for a relative `rel`.
pub open spec fn join_path(base: Seq<char>, rel: Seq<char>) -> Seq<char> {
    if base.len() == 0 {
        rel
    } else if base.last() == '/' {
        base + rel
    } else {
        base + "/"@ + rel
    }
}

/// Joins a relative path onto a base path.
pub fn join_path_chars(base: &[char], rel: &[char]) -> (r: Vec<char>)
    ensures
        r@ == join_path(base@, rel@),
{
    let mut out = crate::text::slice_to_vec(base, 0, base.len());
    assert(out@ =~= base@);
    if base.len() > 0 && base[base.len() - 1] != '/' {
        crate::text::push_str(&mut out, "/");
    }
    crate::text::push_all(&mut out, rel);
    out
}

} // verus!
