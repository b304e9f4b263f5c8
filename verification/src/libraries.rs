//! Finding the library files that a project's link libraries name, in the
//! library directories of the toolchain. Names are matched without regard
//! to case.

use vstd::prelude::*;
use vstd::string::*;
use crate::text::texts;
use crate::paths::{join, joined};
use crate::text::str_eq;

verus! {

/// The lower-case form of a text, as the standard library's
/// `str::to_lowercase` gives it.
pub uninterp spec fn lowercase_of(s: Seq<char>) -> Seq<char>;

/// Calls `str::to_lowercase` of the standard library. Nothing is proved
/// of it: the contract only gives its result the name `lowercase_of`, so
/// that callers can say which texts it makes equal.
#[verifier::external_body]
fn lowercase(s: &str) -> (r: String)
    ensures
        r@ == lowercase_of(s@),
{
    s.to_lowercase()
}

/// A library directory with the names of the files in it.
#[derive(Clone, Debug)]
pub struct LibraryDirectory {
    pub path: String,
    pub files: Vec<String>,
}

/// The paths of those of `files` in `dir` whose lower-case form, given
/// beside them in `lowered`, is `wanted`; in the order of `files`.
pub open spec fn matched(
    dir: Seq<char>,
    files: Seq<Seq<char>>,
    lowered: Seq<Seq<char>>,
    wanted: Seq<char>,
) -> Seq<Seq<char>>
    decreases files.len(),
{
    if files.len() == 0 {
        Seq::empty()
    } else {
        let rest = matched(dir, files.drop_last(), lowered, wanted);
        if files.len() <= lowered.len() && lowered[files.len() - 1] == wanted {
            rest.push(joined(dir, files.last()))
        } else {
            rest
        }
    }
}

/// Picks from the files of one directory those that stand for a library:
/// `lowered` holds the lower-case form of each file name, `wanted` that of
/// the library's name.
pub fn matching_files(dir: &str, files: &Vec<String>, lowered: &Vec<String>, wanted: &str) -> (r:
    Vec<String>)
    ensures
        texts(r@) == matched(dir@, texts(files@), texts(lowered@), wanted@),
{
    let ghost all = texts(files@);
    let mut out: Vec<String> = Vec::new();
    let mut i: usize = 0;
    assert(all.subrange(0, 0) =~= Seq::<Seq<char>>::empty());
    assert(texts(out@) =~= Seq::<Seq<char>>::empty());
    while i < files.len()
        invariant
            i <= files@.len(),
            all == texts(files@),
            texts(out@) == matched(dir@, all.subrange(0, i as int), texts(lowered@), wanted@),
        decreases files@.len() - i,
    {
        proof {
            let next = all.subrange(0, i + 1);
            assert(next.drop_last() =~= all.subrange(0, i as int));
            assert(next.last() == files@[i as int]@);
        }
        if i < lowered.len() && str_eq(lowered[i].as_str(), wanted) {
            let ghost before = out@;
            let path = join(dir, files[i].as_str());
            out.push(path);
            assert(texts(out@) =~= texts(before).push(path@));
        }
        i = i + 1;
    }
    assert(all.subrange(0, i as int) =~= all);
    out
}

/// The lower-case forms of `names`, in order.
pub open spec fn lowercased(names: Seq<Seq<char>>) -> Seq<Seq<char>> {
    names.map_values(|n: Seq<char>| lowercase_of(n))
}

/// The files that `library` resolves to in the first `n` of `directories`.
pub open spec fn found_in(library: Seq<char>, directories: Seq<LibraryDirectory>, n: int) -> Seq<
    Seq<char>,
>
    decreases n,
{
    if n <= 0 || n > directories.len() {
        Seq::empty()
    } else {
        found_in(library, directories, n - 1) + matched(
            directories[n - 1].path@,
            texts(directories[n - 1].files@),
            lowercased(texts(directories[n - 1].files@)),
            lowercase_of(library),
        )
    }
}

/// The files that `libraries` resolve to: for each library in order, for
/// each directory in order, the files of the directory whose name is the
/// library's but for case.
pub open spec fn resolved(libraries: Seq<String>, directories: Seq<LibraryDirectory>) -> Seq<
    Seq<char>,
>
    decreases libraries.len(),
{
    if libraries.len() == 0 {
        Seq::empty()
    } else {
        resolved(libraries.drop_last(), directories) + found_in(
            libraries.last()@,
            directories,
            directories.len() as int,
        )
    }
}

fn lowercase_all(names: &Vec<String>) -> (r: Vec<String>)
    ensures
        texts(r@) == lowercased(texts(names@)),
{
    let mut out: Vec<String> = Vec::new();
    let mut i: usize = 0;
    while i < names.len()
        invariant
            i <= names@.len(),
            out@.len() == i,
            forall|j: int| 0 <= j < i ==> (#[trigger] out@[j])@ == lowercase_of(names@[j]@),
        decreases names@.len() - i,
    {
        out.push(lowercase(names[i].as_str()));
        i = i + 1;
    }
    assert(texts(out@) =~= lowercased(texts(names@)));
    out
}

fn append(out: &mut Vec<String>, more: Vec<String>)
    ensures
        texts(final(out)@) == texts(old(out)@) + texts(more@),
{
    let mut more = more;
    let ghost added = texts(more@);
    let ghost start = texts(out@);
    let n: usize = more.len();
    let mut i: usize = 0;
    assert(texts(out@) =~= start + added.subrange(0, 0));
    while i < n
        invariant
            i <= n,
            n == more@.len(),
            n == added.len(),
            forall|j: int| i <= j < n ==> (#[trigger] more@[j])@ == added[j],
            texts(out@) == start + added.subrange(0, i as int),
        decreases n - i,
    {
        let mut item = String::new();
        std::mem::swap(&mut item, &mut more[i]);
        let ghost before = out@;
        out.push(item);
        i = i + 1;
        assert(texts(out@) =~= texts(before).push(added[i - 1]));
        assert(texts(out@) =~= start + added.subrange(0, i as int));
    }
    assert(added.subrange(0, n as int) =~= added);
}

/// Resolves the link libraries of a project against the library
/// directories of the toolchain.
pub fn resolve_link_libraries(libraries: &Vec<String>, directories: &Vec<LibraryDirectory>) -> (r:
    Vec<String>)
    ensures
        texts(r@) == resolved(libraries@, directories@),
{
    let mut lowered: Vec<Vec<String>> = Vec::new();
    let mut d: usize = 0;
    while d < directories.len()
        invariant
            d <= directories@.len(),
            lowered@.len() == d,
            forall|j: int|
                0 <= j < d ==> texts((#[trigger] lowered@[j])@) == lowercased(
                    texts(directories@[j].files@),
                ),
        decreases directories@.len() - d,
    {
        lowered.push(lowercase_all(&directories[d].files));
        d = d + 1;
    }
    let mut out: Vec<String> = Vec::new();
    let mut l: usize = 0;
    assert(libraries@.subrange(0, 0) =~= Seq::<String>::empty());
    assert(texts(out@) =~= Seq::<Seq<char>>::empty());
    while l < libraries.len()
        invariant
            l <= libraries@.len(),
            lowered@.len() == directories@.len(),
            forall|j: int|
                0 <= j < directories@.len() ==> texts((#[trigger] lowered@[j])@) == lowercased(
                    texts(directories@[j].files@),
                ),
            texts(out@) == resolved(libraries@.subrange(0, l as int), directories@),
        decreases libraries@.len() - l,
    {
        let wanted = lowercase(libraries[l].as_str());
        let ghost before = texts(out@);
        let mut k: usize = 0;
        while k < directories.len()
            invariant
                k <= directories@.len(),
                l < libraries@.len(),
                wanted@ == lowercase_of(libraries@[l as int]@),
                lowered@.len() == directories@.len(),
                forall|j: int|
                    0 <= j < directories@.len() ==> texts((#[trigger] lowered@[j])@)
                        == lowercased(texts(directories@[j].files@)),
                texts(out@) == before + found_in(libraries@[l as int]@, directories@, k as int),
            decreases directories@.len() - k,
        {
            let found = matching_files(
                directories[k].path.as_str(),
                &directories[k].files,
                &lowered[k],
                wanted.as_str(),
            );
            append(&mut out, found);
            k = k + 1;
            assert(texts(out@) =~= before + found_in(libraries@[l as int]@, directories@, k as int));
        }
        l = l + 1;
        proof {
            let next = libraries@.subrange(0, l as int);
            assert(next.drop_last() =~= libraries@.subrange(0, l - 1));
            assert(next.last() == libraries@[l - 1]);
        }
    }
    assert(libraries@.subrange(0, l as int) =~= libraries@);
    out
}

} // verus!
