//! Paths as text. Both `/` and `\` separate components; components are
//! joined with `/`, which the tools driven here accept beside `\`.

use vstd::prelude::*;
use vstd::string::*;
use crate::text::{chars_of, starts_with_at};

verus! {

/// Whether `c` separates the components of a path.
pub open spec fn is_separator(c: char) -> bool {
    c == '/' || c == '\\'
}

/// `base` with `rest` below it.
pub open spec fn joined(base: Seq<char>, rest: Seq<char>) -> Seq<char> {
    if base.len() == 0 {
        rest
    } else if is_separator(base.last()) {
        base + rest
    } else {
        base + seq!['/'] + rest
    }
}

/// Puts `rest` below `base`, with one `/` between them unless `base` is
/// empty or already ends in a separator.
pub fn join(base: &str, rest: &str) -> (r: String)
    ensures
        r@ == joined(base@, rest@),
{
    let n: usize = base.unicode_len();
    if n == 0 {
        return String::from_str(rest);
    }
    let mut out = String::from_str(base);
    let last = base.get_char(n - 1);
    if !(last == '/' || last == '\\') {
        proof {
            reveal_strlit("/");
            assert("/"@ =~= seq!['/']);
        }
        out.append("/");
    }
    out.append(rest);
    out
}

/// `path` is `root` itself or lies below it.
pub open spec fn under(path: Seq<char>, root: Seq<char>) -> bool {
    &&& root.len() <= path.len()
    &&& path.subrange(0, root.len() as int) == root
    &&& (path.len() == root.len() || is_separator(path[root.len() as int]))
}

/// What `path` adds to `root`; empty for `root` itself.
pub open spec fn relative_part(path: Seq<char>, root: Seq<char>) -> Seq<char>
    recommends
        under(path, root),
{
    if path.len() == root.len() {
        Seq::empty()
    } else {
        path.subrange(root.len() as int + 1, path.len() as int)
    }
}

/// The part of `path` below `root`, if `path` is `root` or lies below it.
pub fn strip_root(path: &str, root: &str) -> (r: Option<String>)
    ensures
        match r {
            Some(rel) => under(path@, root@) && rel@ == relative_part(path@, root@),
            None => !under(path@, root@),
        },
{
    let p = chars_of(path);
    let q = chars_of(root);
    if !starts_with_at(&p, 0, &q) {
        return None;
    }
    if p.len() == q.len() {
        return Some(String::new());
    }
    if !(p[q.len()] == '/' || p[q.len()] == '\\') {
        return None;
    }
    Some(String::from_str(path.substring_char(q.len() + 1, p.len())))
}

/// Whether `path` is `root` or lies below it.
pub fn is_under(path: &str, root: &str) -> (r: bool)
    ensures
        r == under(path@, root@),
{
    strip_root(path, root).is_some()
}

/// Scanning down from `i`: where the extension's dot stands in the last
/// component of `p`, or the length of `p` where that component has no
/// extension. A dot that opens the component belongs to the name.
pub open spec fn stem_end_from(p: Seq<char>, i: int) -> int
    decreases i,
{
    if i <= 0 || i > p.len() {
        p.len() as int
    } else if is_separator(p[i - 1]) {
        p.len() as int
    } else if p[i - 1] == '.' {
        if i - 1 == 0 || is_separator(p[i - 2]) {
            p.len() as int
        } else {
            i - 1
        }
    } else {
        stem_end_from(p, i - 1)
    }
}

proof fn lemma_stem_end_bounds(p: Seq<char>, i: int)
    requires
        0 <= i <= p.len(),
    ensures
        0 <= stem_end_from(p, i) <= p.len(),
    decreases i,
{
    if i > 0 && !is_separator(p[i - 1]) && p[i - 1] != '.' {
        lemma_stem_end_bounds(p, i - 1);
    }
}

/// `p` with the extension of its last component replaced by `ext`.
pub open spec fn with_extension(p: Seq<char>, ext: Seq<char>) -> Seq<char> {
    p.subrange(0, stem_end_from(p, p.len() as int)) + seq!['.'] + ext
}

/// Replaces the extension of the last component of `path` by `ext`, or
/// adds `ext` where it has none.
pub fn set_extension(path: &str, ext: &str) -> (r: String)
    ensures
        r@ == with_extension(path@, ext@),
{
    let p = chars_of(path);
    let n: usize = p.len();
    let mut i: usize = n;
    let mut end: usize = n;
    let mut done = false;
    while i > 0 && !done
        invariant
            n == p@.len(),
            i <= n,
            end <= n,
            !done ==> end == n && stem_end_from(p@, n as int) == stem_end_from(p@, i as int),
            done ==> end == stem_end_from(p@, n as int),
        decreases i + (if done { 0int } else { 1int }),
    {
        if p[i - 1] == '/' || p[i - 1] == '\\' {
            done = true;
        } else if p[i - 1] == '.' {
            if !(i - 1 == 0 || p[i - 2] == '/' || p[i - 2] == '\\') {
                end = i - 1;
            }
            done = true;
        } else {
            i = i - 1;
        }
    }
    proof {
        lemma_stem_end_bounds(p@, n as int);
        reveal_strlit(".");
        assert("."@ =~= seq!['.']);
    }
    let mut out = String::from_str(path.substring_char(0, end));
    out.append(".");
    out.append(ext);
    out
}

/// Where the artifact for `src_path` lies: as far below `output_dir` as
/// `src_path` lies below `src_dir`, with the extension `ext`.
pub open spec fn artifact_path_of(
    src_path: Seq<char>,
    src_dir: Seq<char>,
    output_dir: Seq<char>,
    ext: Seq<char>,
) -> Seq<char> {
    with_extension(joined(output_dir, relative_part(src_path, src_dir)), ext)
}

/// Goes from a source file to its artifact below `output_dir`
/// (`src/hello/world.cpp` to `obj/hello/world.obj`), or `None` where the
/// source does not lie in or below `src_dir`.
pub fn artifact_path(src_path: &str, src_dir: &str, output_dir: &str, ext: &str) -> (r: Option<
    String,
>)
    ensures
        match r {
            Some(p) => under(src_path@, src_dir@) && p@ == artifact_path_of(
                src_path@,
                src_dir@,
                output_dir@,
                ext@,
            ),
            None => !under(src_path@, src_dir@),
        },
{
    match strip_root(src_path, src_dir) {
        Some(rel) => {
            let below = join(output_dir, rel.as_str());
            Some(set_extension(below.as_str(), ext))
        },
        None => None,
    }
}

/// The marker that the system puts before a resolved path with a drive.
pub open spec fn has_verbatim_disk(p: Seq<char>) -> bool {
    &&& p.len() >= 6
    &&& p[0] == '\\'
    &&& p[1] == '\\'
    &&& p[2] == '?'
    &&& p[3] == '\\'
    &&& p[5] == ':'
}

/// A resolved path without the verbatim marker `\\?\` before its drive.
pub open spec fn without_verbatim(p: Seq<char>) -> Seq<char> {
    if has_verbatim_disk(p) {
        p.subrange(4, p.len() as int)
    } else {
        p
    }
}

/// Takes the path that the system resolved and removes the verbatim
/// marker `\\?\` where it stands before a drive letter and a colon; any
/// other path is returned as it is.
pub fn canonicalize(resolved: &str) -> (r: String)
    ensures
        r@ == without_verbatim(resolved@),
{
    let p = chars_of(resolved);
    let n: usize = p.len();
    if n >= 6 && p[0] == '\\' && p[1] == '\\' && p[2] == '?' && p[3] == '\\' && p[5] == ':' {
        String::from_str(resolved.substring_char(4, n))
    } else {
        String::from_str(resolved)
    }
}

/// Scanning down from `i`: where the last component of `p` begins.
pub open spec fn name_start_from(p: Seq<char>, i: int) -> int
    decreases i,
{
    if i <= 0 || i > p.len() {
        0
    } else if is_separator(p[i - 1]) {
        i
    } else {
        name_start_from(p, i - 1)
    }
}

/// The directory that holds `p`: `p` without its last component and the
/// separator before it; empty where `p` is a single component.
pub open spec fn parent_of(p: Seq<char>) -> Seq<char> {
    let start = name_start_from(p, p.len() as int);
    if start <= 1 {
        p.subrange(0, start)
    } else {
        p.subrange(0, start - 1)
    }
}

proof fn lemma_name_start_bounds(p: Seq<char>, i: int)
    requires
        0 <= i <= p.len(),
    ensures
        0 <= name_start_from(p, i) <= i,
    decreases i,
{
    if i > 0 && !is_separator(p[i - 1]) {
        lemma_name_start_bounds(p, i - 1);
    }
}

/// The directory that holds `path`.
pub fn parent(path: &str) -> (r: String)
    ensures
        r@ == parent_of(path@),
{
    let p = chars_of(path);
    let n: usize = p.len();
    let mut i: usize = n;
    while i > 0 && !(p[i - 1] == '/' || p[i - 1] == '\\')
        invariant
            n == p@.len(),
            i <= n,
            name_start_from(p@, n as int) == name_start_from(p@, i as int),
        decreases i,
    {
        i = i - 1;
    }
    proof {
        lemma_name_start_bounds(p@, n as int);
    }
    let end: usize = if i <= 1 {
        i
    } else {
        i - 1
    };
    String::from_str(path.substring_char(0, end))
}

} // verus!
