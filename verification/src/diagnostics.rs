//! Showing each diagnostic once, and keeping the warnings of a compile so
//! that a later build which skips the compile can show them again.

use vstd::prelude::*;
use vstd::string::*;
use vstd::seq_lib::*;
use crate::build_manager::{CompilerOutput, OutputKind};
use crate::text::texts;
use crate::text::{first_line, first_line_of, str_eq};

verus! {

/// The first lines of the diagnostics shown so far in this build.
pub struct Deduplicator {
    seen: Vec<String>,
}

impl View for Deduplicator {
    type V = Set<Seq<char>>;

    closed spec fn view(&self) -> Set<Seq<char>> {
        texts(self.seen@).to_set()
    }
}

impl Deduplicator {
    /// Nothing was shown yet.
    pub fn new() -> (r: Deduplicator)
        ensures
            r@ == Set::<Seq<char>>::empty(),
    {
        let r = Deduplicator { seen: Vec::new() };
        assert(r@ =~= Set::<Seq<char>>::empty());
        r
    }

    /// Whether a diagnostic with the first line `line` was shown.
    pub fn contains(&self, line: &str) -> (r: bool)
        ensures
            r == self@.contains(line@),
    {
        let mut i: usize = 0;
        while i < self.seen.len()
            invariant
                i <= self.seen@.len(),
                forall|j: int| 0 <= j < i ==> texts(self.seen@)[j] != line@,
            decreases self.seen@.len() - i,
        {
            if str_eq(self.seen[i].as_str(), line) {
                assert(texts(self.seen@)[i as int] == line@);
                return true;
            }
            i = i + 1;
        }
        false
    }

    /// Decides whether `chunk` is shown: it is unless a diagnostic with the
    /// same first line was shown before. Its first line counts as shown
    /// from now on.
    pub fn first_showing(&mut self, chunk: &str) -> (r: bool)
        ensures
            r == !old(self)@.contains(first_line_of(chunk@)),
            final(self)@ == old(self)@.insert(first_line_of(chunk@)),
    {
        let line = first_line(chunk);
        if self.contains(line.as_str()) {
            assert(self@ =~= self@.insert(line@));
            false
        } else {
            let ghost before = self.seen@;
            self.seen.push(line);
            proof {
                broadcast use lemma_seq_contains_after_push;

                assert(texts(self.seen@) =~= texts(before).push(line@));
                assert(self@ =~= old(self)@.insert(line@));
            }
            true
        }
    }

    /// Shows again the warnings of the compiles that were skipped: from
    /// `chunks`, in order, those that are shown for the first time.
    pub fn replay(&mut self, chunks: &Vec<String>) -> (r: Vec<String>)
        ensures
            texts(r@) == shown(old(self)@, texts(chunks@)),
            final(self)@ == seen_after(old(self)@, texts(chunks@)),
    {
        let ghost start = self@;
        let mut out: Vec<String> = Vec::new();
        let mut i: usize = 0;
        assert(texts(out@) =~= shown(start, texts(chunks@).subrange(0, 0)));
        while i < chunks.len()
            invariant
                i <= chunks@.len(),
                texts(out@) == shown(start, texts(chunks@).subrange(0, i as int)),
                self@ == seen_after(start, texts(chunks@).subrange(0, i as int)),
            decreases chunks@.len() - i,
        {
            let ghost before = out@;
            if self.first_showing(chunks[i].as_str()) {
                out.push(chunks[i].clone());
                assert(texts(out@) =~= texts(before).push(chunks@[i as int]@));
            }
            i = i + 1;
            proof {
                let upto = texts(chunks@).subrange(0, i as int);
                assert(upto.drop_last() =~= texts(chunks@).subrange(0, i - 1));
                assert(upto.last() == chunks@[i - 1]@);
            }
        }
        assert(texts(chunks@).subrange(0, i as int) =~= texts(chunks@));
        out
    }
}

/// The first lines that count as shown after `chunks` went through.
pub open spec fn seen_after(seen: Set<Seq<char>>, chunks: Seq<Seq<char>>) -> Set<Seq<char>>
    decreases chunks.len(),
{
    if chunks.len() == 0 {
        seen
    } else {
        seen_after(seen, chunks.drop_last()).insert(first_line_of(chunks.last()))
    }
}

/// Those of `chunks` that are shown, in order: each whose first line was
/// not shown before it.
pub open spec fn shown(seen: Set<Seq<char>>, chunks: Seq<Seq<char>>) -> Seq<Seq<char>>
    decreases chunks.len(),
{
    if chunks.len() == 0 {
        Seq::empty()
    } else if seen_after(seen, chunks.drop_last()).contains(first_line_of(chunks.last())) {
        shown(seen, chunks.drop_last())
    } else {
        shown(seen, chunks.drop_last()).push(chunks.last())
    }
}

/// `line` is the first line of one of `chunks`.
pub open spec fn opens_one_of(chunks: Seq<Seq<char>>, line: Seq<char>) -> bool {
    exists|i: int| 0 <= i < chunks.len() && first_line_of(#[trigger] chunks[i]) == line
}

/// Replayed warnings are shown once each: no two of those shown open with
/// the same line, none opens with a line that was shown before, and every
/// chunk that opens with a new line has that line among those shown,
/// however many chunks share it.
pub proof fn lemma_replay_shows_each_once(seen: Set<Seq<char>>, chunks: Seq<Seq<char>>)
    ensures
        forall|i: int, j: int|
            0 <= i < j < shown(seen, chunks).len() ==> first_line_of(shown(seen, chunks)[i])
                != first_line_of(shown(seen, chunks)[j]),
        forall|i: int|
            0 <= i < shown(seen, chunks).len() ==> !seen.contains(
                first_line_of(#[trigger] shown(seen, chunks)[i]),
            ),
        forall|k: int|
            0 <= k < chunks.len() && !seen.contains(first_line_of(#[trigger] chunks[k]))
                ==> opens_one_of(shown(seen, chunks), first_line_of(chunks[k])),
        forall|line: Seq<char>|
            seen_after(seen, chunks).contains(line) <==> seen.contains(line) || opens_one_of(
                shown(seen, chunks),
                line,
            ),
    decreases chunks.len(),
{
    if chunks.len() > 0 {
        let pre = chunks.drop_last();
        let c = chunks.last();
        let l = first_line_of(c);
        lemma_replay_shows_each_once(seen, pre);
        let before = shown(seen, pre);
        let out = shown(seen, chunks);
        if seen_after(seen, pre).contains(l) {
            assert(out == before);
            assert forall|k: int|
                0 <= k < chunks.len() && !seen.contains(
                    first_line_of(#[trigger] chunks[k]),
                ) implies opens_one_of(out, first_line_of(chunks[k])) by {
                if k < pre.len() {
                    assert(pre[k] == chunks[k]);
                }
            }
        } else {
            assert(out == before.push(c));
            assert(!opens_one_of(before, l));
            assert forall|i: int, j: int| 0 <= i < j < out.len() implies first_line_of(out[i])
                != first_line_of(out[j]) by {
                if j == before.len() {
                    assert(out[i] == before[i]);
                    if first_line_of(before[i]) == l {
                        assert(opens_one_of(before, l));
                    }
                } else {
                    assert(out[i] == before[i] && out[j] == before[j]);
                }
            }
            assert forall|i: int| 0 <= i < out.len() implies !seen.contains(
                first_line_of(#[trigger] out[i]),
            ) by {
                if i < before.len() {
                    assert(out[i] == before[i]);
                }
            }
            assert forall|line: Seq<char>| opens_one_of(out, line) <==> opens_one_of(before, line)
                || line == l by {
                if opens_one_of(before, line) {
                    let i = choose|i: int|
                        0 <= i < before.len() && first_line_of(#[trigger] before[i]) == line;
                    assert(out[i] == before[i]);
                }
                if line == l {
                    assert(first_line_of(out[before.len() as int]) == l);
                }
                if opens_one_of(out, line) {
                    let i = choose|i: int|
                        0 <= i < out.len() && first_line_of(#[trigger] out[i]) == line;
                    if i < before.len() {
                        assert(out[i] == before[i]);
                    }
                }
            }
            assert forall|k: int|
                0 <= k < chunks.len() && !seen.contains(
                    first_line_of(#[trigger] chunks[k]),
                ) implies opens_one_of(out, first_line_of(chunks[k])) by {
                if k < pre.len() {
                    assert(pre[k] == chunks[k]);
                }
            }
        }
    }
}

/// The warnings of one compile, in the order the compiler gave them.
#[derive(Debug)]
pub struct WarningCache {
    pub warnings: Vec<String>,
}

impl Default for WarningCache {
    fn default() -> (r: Self)
        ensures
            r.warnings@ == Seq::<String>::empty(),
    {
        WarningCache { warnings: Vec::new() }
    }
}

/// What a piece of compiler output adds to the warnings that are kept:
/// a warning adds its text, anything else nothing.
pub open spec fn kept(warnings: Seq<Seq<char>>, output: crate::build_manager::Emitted) -> Seq<
    Seq<char>,
> {
    if output.kind == OutputKind::Warning {
        warnings.push(output.text)
    } else {
        warnings
    }
}

/// Takes one piece of compiler output. A warning or an error is returned
/// for showing unless one with the same first line was shown before; a
/// warning is kept in `cache` either way. The line that names the
/// translation unit is neither shown nor kept.
pub fn record_output(
    seen: &mut Deduplicator,
    cache: &mut WarningCache,
    output: &CompilerOutput,
) -> (r: Option<String>)
    ensures
        texts(final(cache).warnings@) == kept(texts(old(cache).warnings@), output@),
        output@.kind == OutputKind::Begun ==> r.is_none() && final(seen)@ == old(seen)@,
        output@.kind != OutputKind::Begun ==> final(seen)@ == old(seen)@.insert(
            first_line_of(output@.text),
        ) && match r {
            Some(text) => text@ == output@.text && !old(seen)@.contains(
                first_line_of(output@.text),
            ),
            None => old(seen)@.contains(first_line_of(output@.text)),
        },
{
    match output {
        CompilerOutput::Begun { first_line: _ } => {
            assert(texts(cache.warnings@) =~= texts(old(cache).warnings@));
            None
        },
        CompilerOutput::Warning(chunk) => {
            let fresh = seen.first_showing(chunk.as_str());
            cache.warnings.push(chunk.clone());
            assert(texts(cache.warnings@) =~= texts(old(cache).warnings@).push(chunk@));
            if fresh {
                Some(chunk.clone())
            } else {
                None
            }
        },
        CompilerOutput::Error(chunk) => {
            assert(texts(cache.warnings@) =~= texts(old(cache).warnings@));
            if seen.first_showing(chunk.as_str()) {
                Some(chunk.clone())
            } else {
                None
            }
        },
    }
}

} // verus!
