//! The source tree of a project: which files are sources, which are
//! headers, and the tree that mirrors the directories.

use vstd::prelude::*;
use vstd::string::*;
use crate::text::texts;
use crate::paths::stem_end_from;
use crate::text::{chars_of, str_eq};

verus! {

/// What a file of the source tree is, by its extension.
#[derive(Clone, Copy, PartialEq, Eq, Debug, Structural)]
pub enum FileKind {
    Source,
    Header,
    Idl,
    Other,
}

/// The extension of the last component of `p`: what follows its last
/// dot, unless the dot opens the component.
pub open spec fn extension_of(p: Seq<char>) -> Option<Seq<char>> {
    let end = stem_end_from(p, p.len() as int);
    if 0 <= end < p.len() {
        Some(p.subrange(end + 1, p.len() as int))
    } else {
        None
    }
}

/// `cpp`, `cxx` and `cc` are sources; `h`, `hpp` and `hxx` are headers;
/// `idl` is an interface definition where those are asked for; anything
/// else is passed over.
pub open spec fn kind_of(extension: Option<Seq<char>>, with_idl: bool) -> FileKind {
    match extension {
        Some(e) => if e == "cpp"@ || e == "cxx"@ || e == "cc"@ {
            FileKind::Source
        } else if e == "h"@ || e == "hpp"@ || e == "hxx"@ {
            FileKind::Header
        } else if with_idl && e == "idl"@ {
            FileKind::Idl
        } else {
            FileKind::Other
        },
        None => FileKind::Other,
    }
}

/// The extension of the last component of `path`.
pub fn extension(path: &str) -> (r: Option<String>)
    ensures
        match r {
            Some(e) => extension_of(path@) == Some(e@),
            None => extension_of(path@).is_none(),
        },
{
    let p = chars_of(path);
    let n: usize = p.len();
    let mut i: usize = n;
    let mut end: usize = n;
    let mut done = false;
    while i > 0 && !done
        invariant
            n == p@.len(),
            i <= n,
            end <= n,
            !done ==> end == n && stem_end_from(p@, n as int) == stem_end_from(p@, i as int),
            done ==> end == stem_end_from(p@, n as int),
        decreases i + (if done { 0int } else { 1int }),
    {
        if p[i - 1] == '/' || p[i - 1] == '\\' {
            done = true;
        } else if p[i - 1] == '.' {
            if !(i - 1 == 0 || p[i - 2] == '/' || p[i - 2] == '\\') {
                end = i - 1;
            }
            done = true;
        } else {
            i = i - 1;
        }
    }
    if end < n {
        Some(String::from_str(path.substring_char(end + 1, n)))
    } else {
        None
    }
}

/// Says what the file at `path` is.
pub fn classify(path: &str, with_idl: bool) -> (r: FileKind)
    ensures
        r == kind_of(extension_of(path@), with_idl),
{
    match extension(path) {
        Some(e) => {
            let e = e.as_str();
            if str_eq(e, "cpp") || str_eq(e, "cxx") || str_eq(e, "cc") {
                FileKind::Source
            } else if str_eq(e, "h") || str_eq(e, "hpp") || str_eq(e, "hxx") {
                FileKind::Header
            } else if with_idl && str_eq(e, "idl") {
                FileKind::Idl
            } else {
                FileKind::Other
            }
        },
        None => FileKind::Other,
    }
}

/// Those of `files` that are of `kind`, in order.
pub open spec fn of_kind(files: Seq<Seq<char>>, kind: FileKind, with_idl: bool) -> Seq<Seq<char>>
    decreases files.len(),
{
    if files.len() == 0 {
        Seq::empty()
    } else if kind_of(extension_of(files.last()), with_idl) == kind {
        of_kind(files.drop_last(), kind, with_idl).push(files.last())
    } else {
        of_kind(files.drop_last(), kind, with_idl)
    }
}

/// A directory of the source tree.
#[derive(Debug)]
pub struct SrcPaths {
    pub root: String,
    pub src_paths: Vec<String>,
    pub header_paths: Vec<String>,
    /// The interface definitions, where they were asked for.
    pub idl_paths: Option<Vec<String>>,
    pub children: Vec<SrcPaths>,
}

impl SrcPaths {
    /// The directory `root` with the files found directly in it, sorted
    /// by kind, above the directories `children`.
    pub fn from_entries(root: &str, files: &Vec<String>, children: Vec<SrcPaths>, with_idl: bool) -> (r:
        SrcPaths)
        ensures
            r.root@ == root@,
            r.children == children,
            texts(r.src_paths@) == of_kind(texts(files@), FileKind::Source, with_idl),
            texts(r.header_paths@) == of_kind(texts(files@), FileKind::Header, with_idl),
            match r.idl_paths {
                Some(idl) => with_idl && texts(idl@) == of_kind(
                    texts(files@),
                    FileKind::Idl,
                    with_idl,
                ),
                None => !with_idl,
            },
    {
        let ghost all = texts(files@);
        let mut src_paths: Vec<String> = Vec::new();
        let mut header_paths: Vec<String> = Vec::new();
        let mut idl_paths: Vec<String> = Vec::new();
        let mut i: usize = 0;
        assert(all.subrange(0, 0) =~= Seq::<Seq<char>>::empty());
        assert(texts(src_paths@) =~= Seq::<Seq<char>>::empty());
        assert(texts(header_paths@) =~= Seq::<Seq<char>>::empty());
        assert(texts(idl_paths@) =~= Seq::<Seq<char>>::empty());
        while i < files.len()
            invariant
                i <= files@.len(),
                all == texts(files@),
                texts(src_paths@) == of_kind(all.subrange(0, i as int), FileKind::Source, with_idl),
                texts(header_paths@) == of_kind(
                    all.subrange(0, i as int),
                    FileKind::Header,
                    with_idl,
                ),
                texts(idl_paths@) == of_kind(all.subrange(0, i as int), FileKind::Idl, with_idl),
            decreases files@.len() - i,
        {
            proof {
                let next = all.subrange(0, i + 1);
                assert(next.drop_last() =~= all.subrange(0, i as int));
                assert(next.last() == files@[i as int]@);
            }
            let ghost sources = src_paths@;
            let ghost headers = header_paths@;
            let ghost idls = idl_paths@;
            match classify(files[i].as_str(), with_idl) {
                FileKind::Source => {
                    src_paths.push(files[i].clone());
                    assert(texts(src_paths@) =~= texts(sources).push(files@[i as int]@));
                },
                FileKind::Header => {
                    header_paths.push(files[i].clone());
                    assert(texts(header_paths@) =~= texts(headers).push(files@[i as int]@));
                },
                FileKind::Idl => {
                    idl_paths.push(files[i].clone());
                    assert(texts(idl_paths@) =~= texts(idls).push(files@[i as int]@));
                },
                FileKind::Other => {},
            }
            i = i + 1;
        }
        assert(all.subrange(0, i as int) =~= all);
        SrcPaths {
            root: String::from_str(root),
            src_paths,
            header_paths,
            idl_paths: if with_idl {
                Some(idl_paths)
            } else {
                None
            },
            children,
        }
    }

    /// The sources of the directory and of the directories below it: its
    /// own first, then those of each child in order.
    pub open spec fn sources_of(&self) -> Seq<Seq<char>>
        decreases self,
    {
        texts(self.src_paths@) + Self::sources_below(self.children@, self.children@.len() as int)
    }

    /// The sources of the first `n` of `children`, in order.
    pub open spec fn sources_below(children: Seq<SrcPaths>, n: int) -> Seq<Seq<char>>
        decreases children, n,
    {
        if n <= 0 || n > children.len() {
            Seq::empty()
        } else {
            Self::sources_below(children, n - 1) + children[n - 1].sources_of()
        }
    }

    /// All sources of the tree: those of the directory first, then those
    /// of each directory below it in order.
    pub fn all_sources(&self) -> (r: Vec<String>)
        ensures
            texts(r@) == self.sources_of(),
        decreases self,
    {
        let mut out: Vec<String> = Vec::new();
        let mut i: usize = 0;
        assert(texts(out@) =~= texts(self.src_paths@.subrange(0, 0)));
        while i < self.src_paths.len()
            invariant
                i <= self.src_paths@.len(),
                texts(out@) == texts(self.src_paths@.subrange(0, i as int)),
            decreases self.src_paths@.len() - i,
        {
            let ghost before = out@;
            out.push(self.src_paths[i].clone());
            i = i + 1;
            assert(texts(out@) =~= texts(before).push(self.src_paths@[i - 1]@));
            assert(texts(self.src_paths@.subrange(0, i as int)) =~= texts(
                self.src_paths@.subrange(0, i - 1),
            ).push(self.src_paths@[i - 1]@));
        }
        assert(self.src_paths@.subrange(0, i as int) =~= self.src_paths@);
        let mut c: usize = 0;
        assert(texts(out@) =~= texts(self.src_paths@) + Self::sources_below(self.children@, 0));
        while c < self.children.len()
            invariant
                c <= self.children@.len(),
                texts(out@) == texts(self.src_paths@) + Self::sources_below(
                    self.children@,
                    c as int,
                ),
            decreases self.children@.len() - c,
        {
            let below = self.children[c].all_sources();
            let ghost before = out@;
            let mut k: usize = 0;
            assert(texts(out@) =~= texts(before) + texts(below@.subrange(0, 0)));
            while k < below.len()
                invariant
                    k <= below@.len(),
                    texts(out@) == texts(before) + texts(below@.subrange(0, k as int)),
                decreases below@.len() - k,
            {
                let ghost inner = out@;
                out.push(below[k].clone());
                k = k + 1;
                assert(texts(out@) =~= texts(inner).push(below@[k - 1]@));
                assert(texts(below@.subrange(0, k as int)) =~= texts(
                    below@.subrange(0, k - 1),
                ).push(below@[k - 1]@));
                assert(texts(out@) =~= texts(before) + texts(below@.subrange(0, k as int)));
            }
            assert(below@.subrange(0, k as int) =~= below@);
            c = c + 1;
            assert(texts(out@) =~= texts(self.src_paths@) + Self::sources_below(
                self.children@,
                c as int,
            ));
        }
        out
    }
}

} // verus!
