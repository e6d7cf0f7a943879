//! Windows path texts: the folder of a path and a name joined to a folder,
//! computed on the text alone.

use vstd::prelude::*;
use crate::text::{append_str, chars_of, string_of};

verus! {

/// Paths are Windows paths: `\` and `/` both separate components, and `\`
/// is the one written when two parts are joined.
pub open spec fn is_separator(c: char) -> bool {
    c == '\\' || c == '/'
}

/// The index of the last separator in `p`, or -1 when there is none.
pub open spec fn last_separator(p: Seq<char>) -> int
    decreases p.len(),
{
    if p.len() == 0 {
        -1
    } else if is_separator(p.last()) {
        p.len() - 1
    } else {
        last_separator(p.drop_last())
    }
}

/// A path that is a root alone: separators only, or a drive followed by
/// separators only (`C:`, `C:\`).
pub open spec fn is_root_only(p: Seq<char>) -> bool {
    (forall|i: int| 0 <= i < p.len() ==> is_separator(#[trigger] p[i])) || (has_drive(p) && forall|i: int|
        2 <= i < p.len() ==> is_separator(#[trigger] p[i]))
}

/// The folder of a path: `None` for an empty path or a root alone; the empty
/// path for a single name; the root (`\` or a drive's root
/// such as `C:\`) for a name right under it; else the text before the last
/// separator.
pub open spec fn parent_path(p: Seq<char>) -> Option<Seq<char>> {
    if p.len() == 0 || is_root_only(p) {
        None
    } else if last_separator(p) < 0 {
        Some(Seq::empty())
    } else if last_separator(p) == 0 {
        Some(p.take(1))
    } else if last_separator(p) == 2 && p[1] == ':' {
        Some(p.take(3))
    } else {
        Some(p.take(last_separator(p)))
    }
}

/// `name` inside the folder `dir`: `name` alone for an empty folder, else
/// the two with one separator between them.
pub open spec fn join_path(dir: Seq<char>, name: Seq<char>) -> Seq<char> {
    if dir.len() == 0 {
        name
    } else if is_separator(dir.last()) {
        dir + name
    } else {
        dir.push('\\') + name
    }
}

fn last_separator_exec(v: &[char]) -> (r: Option<usize>)
    ensures
        match r {
            Some(k) => k as int == last_separator(v@) && k < v@.len(),
            None => last_separator(v@) == -1,
        },
{
    let mut j: usize = v.len();
    assert(v@.take(j as int) =~= v@);
    while j > 0
        invariant
            j <= v@.len(),
            last_separator(v@) == last_separator(v@.take(j as int)),
        decreases j,
    {
        assert(v@.take(j as int).last() == v@[j - 1]);
        if v[j - 1] == '\\' || v[j - 1] == '/' {
            return Some(j - 1);
        }
        assert(v@.take(j as int).drop_last() =~= v@.take(j - 1));
        j -= 1;
    }
    None
}

/// The folder of a path (see `parent_path`).
pub fn parent_path_chars(v: &[char]) -> (r: Option<Vec<char>>)
    ensures
        match (r, parent_path(v@)) {
            (Some(a), Some(b)) => a@ == b,
            (None, None) => true,
            _ => false,
        },
{
    let drive = has_drive_exec(v);
    let mut only_separators = true;
    let mut rest_separators = true;
    let mut i: usize = 0;
    while i < v.len()
        invariant
            i <= v@.len(),
            only_separators == (forall|k: int| 0 <= k < i ==> is_separator(#[trigger] v@[k])),
            rest_separators == (forall|k: int| 2 <= k < i ==> is_separator(#[trigger] v@[k])),
        decreases v.len() - i,
    {
        if !is_separator_exec(v[i]) {
            only_separators = false;
            if i >= 2 {
                rest_separators = false;
            }
        }
        i += 1;
    }
    if v.len() == 0 || only_separators || (drive && rest_separators) {
        return None;
    }
    match last_separator_exec(v) {
        None => Some(Vec::new()),
        Some(k) => if k == 0 {
            Some(crate::text::copy_range(v, 0, 1))
        } else if k == 2 && v[1] == ':' {
            Some(crate::text::copy_range(v, 0, 3))
        } else {
            Some(crate::text::copy_range(v, 0, k))
        },
    }
}

/// `name` inside the folder `dir` (see `join_path`).
pub fn join_path_chars(dir: &[char], name: &str) -> (r: Vec<char>)
    ensures
        r@ == join_path(dir@, name@),
{
    let mut out = crate::text::copy_range(dir, 0, dir.len());
    assert(out@ =~= dir@);
    if dir.len() > 0 && !(dir[dir.len() - 1] == '\\' || dir[dir.len() - 1] == '/') {
        out.push('\\');
    }
    append_str(&mut out, name);
    out
}

/// The folder of a path (see `parent_path`).
pub fn parent_dir(path: &str) -> (r: Option<String>)
    ensures
        match (r, parent_path(path@)) {
            (Some(a), Some(b)) => a@ == b,
            (None, None) => true,
            _ => false,
        },
{
    match parent_path_chars(chars_of(path).as_slice()) {
        Some(p) => Some(string_of(p.as_slice())),
        None => None,
    }
}

/// A drive letter and a colon begin the path (`C:`).
pub open spec fn has_drive(p: Seq<char>) -> bool {
    p.len() >= 2 && p[1] == ':' && (('a' <= p[0] && p[0] <= 'z') || ('A' <= p[0] && p[0] <= 'Z'))
}

/// An absolute path: a drive and a root (`C:\`), or two leading separators
/// (a network or device path).
pub open spec fn is_absolute_path(p: Seq<char>) -> bool {
    (has_drive(p) && p.len() >= 3 && is_separator(p[2])) || (p.len() >= 2 && is_separator(p[0]) && is_separator(
        p[1],
    ))
}

/// `p` resolved against the folder `dir`: an absolute path, or one with a
/// drive, as it is; one that starts at the root, under the drive of `dir`;
/// any other inside `dir`.
pub open spec fn resolved_path(dir: Seq<char>, p: Seq<char>) -> Seq<char> {
    if is_absolute_path(p) || has_drive(p) {
        p
    } else if p.len() > 0 && is_separator(p[0]) {
        if has_drive(dir) {
            dir.take(2) + p
        } else {
            p
        }
    } else {
        join_path(dir, p)
    }
}

fn has_drive_exec(v: &[char]) -> (r: bool)
    ensures
        r == has_drive(v@),
{
    v.len() >= 2 && v[1] == ':' && (('a' <= v[0] && v[0] <= 'z') || ('A' <= v[0] && v[0] <= 'Z'))
}

fn is_separator_exec(c: char) -> (r: bool)
    ensures
        r == is_separator(c),
{
    c == '\\' || c == '/'
}

/// `path` resolved against the folder `dir` (see `resolved_path`).
pub fn resolve_path(dir: &str, path: &str) -> (r: String)
    ensures
        r@ == resolved_path(dir@, path@),
{
    let d = chars_of(dir);
    let p = chars_of(path);
    let absolute = (has_drive_exec(p.as_slice()) && p.len() >= 3 && is_separator_exec(p[2])) || (p.len() >= 2
        && is_separator_exec(p[0]) && is_separator_exec(p[1]));
    if absolute || has_drive_exec(p.as_slice()) {
        String::from_str(path)
    } else if p.len() > 0 && is_separator_exec(p[0]) {
        if has_drive_exec(d.as_slice()) {
            let mut v = crate::text::copy_range(d.as_slice(), 0, 2);
            append_str(&mut v, path);
            string_of(v.as_slice())
        } else {
            String::from_str(path)
        }
    } else {
        let v = join_path_chars(d.as_slice(), path);
        string_of(v.as_slice())
    }
}

} // verus!
