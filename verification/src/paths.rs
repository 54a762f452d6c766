//! `/`-separated file system paths, held as strings.
//!
//! A path is absolute when it starts with `/`; joining follows `Path::join`
//! on such paths: an absolute right-hand side replaces the base, otherwise a
//! separator is inserted unless the base is empty or already ends in one.
use vstd::prelude::*;
use crate::text::{owned, concat, push_char, prefix_until, has_char};

verus! {

pub open spec fn is_absolute_path(p: Seq<char>) -> bool {
    p.len() > 0 && p[0] == '/'
}

pub open spec fn join_path(base: Seq<char>, rel: Seq<char>) -> Seq<char> {
    if is_absolute_path(rel) {
        rel
    } else if base.len() == 0 {
        rel
    } else if base.last() == '/' {
        base + rel
    } else {
        base + seq!['/'] + rel
    }
}

/// Whether `p` is absolute.
pub fn path_is_absolute(p: &str) -> (r: bool)
    ensures r == is_absolute_path(p@),
{
    p.unicode_len() > 0 && p.get_char(0) == '/'
}

/// `rel` resolved against `base` (`base.join(rel)`).
pub fn join(base: &str, rel: &str) -> (r: String)
    ensures r@ == join_path(base@, rel@),
{
    if path_is_absolute(rel) {
        owned(rel)
    } else {
        let n = base.unicode_len();
        if n == 0 {
            owned(rel)
        } else if base.get_char(n - 1) == '/' {
            concat(base, rel)
        } else {
            let mut r = owned(base);
            push_char(&mut r, '/');
            r.append(rel);
            r
        }
    }
}

/// Whether every host splits `p` into the same names: it holds no
/// backslash and no colon, and does not begin with two slashes (which on
/// some hosts open a network-share or device prefix).
pub open spec fn portable_path(p: Seq<char>) -> bool {
    &&& !has_char(p, '\\')
    &&& !has_char(p, ':')
    &&& !(p.len() >= 2 && p[0] == '/' && p[1] == '/')
}

/// The components of a `/`-separated path, in order, as `Path::components`
/// reads it: separators and empty parts are skipped, and so are `.` parts
/// (a leading `.` stands for the current directory, which is no name).
pub open spec fn path_parts(p: Seq<char>) -> Seq<Seq<char>>
    decreases p.len(),
{
    let first = prefix_until(p, '/');
    let rest = if first.len() < p.len() {
        path_parts(p.subrange(first.len() as int + 1, p.len() as int))
    } else {
        Seq::empty()
    };
    if first.len() == 0 || first == "."@ { rest } else { seq![first] + rest }
}

/// The final component of a path when it is a name (`Path::file_name`):
/// none for an empty path, the root, or a path ending in `..`.
pub open spec fn last_component(p: Seq<char>) -> Option<Seq<char>> {
    let parts = path_parts(p);
    if parts.len() == 0 || parts.last() == ".."@ { None } else { Some(parts.last()) }
}

} // verus!
