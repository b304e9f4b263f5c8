//! The compiler driver's pure parts: the typed flag list with its
//! realisation as command-line tokens, and the segmentation of the
//! compiler's output into diagnostics.

use vstd::prelude::*;
use vstd::string::*;
use crate::proj_config::CxxStandard;
use crate::text::{chars_of, concat2, find, find_from, occurs_at, starts_with_at, texts};

verus! {

/// A line that a child process wrote, with the stream it came from.
#[derive(Debug)]
pub enum OutputLine {
    Stdout(String),
    Stderr(String),
}

/// What a piece of compiler output is.
#[derive(Clone, Copy, PartialEq, Eq, Debug, Structural)]
pub enum OutputKind {
    Begun,
    Warning,
    Error,
}

/// A piece of compiler output: the line that names the translation unit,
/// or a whole warning or error with its continuation lines.
#[derive(Debug)]
pub enum CompilerOutput {
    Begun { first_line: String },
    Warning(String),
    Error(String),
}

/// A piece of compiler output as a value: its kind and its text.
pub struct Emitted {
    pub kind: OutputKind,
    pub text: Seq<char>,
}

impl View for CompilerOutput {
    type V = Emitted;

    open spec fn view(&self) -> Emitted {
        match self {
            CompilerOutput::Begun { first_line } => Emitted {
                kind: OutputKind::Begun,
                text: first_line@,
            },
            CompilerOutput::Warning(chunk) => Emitted { kind: OutputKind::Warning, text: chunk@ },
            CompilerOutput::Error(chunk) => Emitted { kind: OutputKind::Error, text: chunk@ },
        }
    }
}

/// Where the segmentation of the compiler's output stands.
#[derive(Clone, Copy, PartialEq, Eq, Debug, Structural)]
pub enum ParseState {
    /// Nothing was read yet: the next line names the translation unit.
    NoFileName,
    /// Between diagnostics.
    Neutral,
    /// Inside a warning.
    InWarning,
    /// Inside an error.
    InError,
}

/// The diagnostic that `line` opens, if any: after the first `": "` in the
/// line stands `warning`, `error` or `fatal error`.
pub open spec fn opens(line: Seq<char>) -> Option<ParseState> {
    match find_from(line, ": "@, 0) {
        Some(i) => if occurs_at(line, i + 2, "warning"@) {
            Some(ParseState::InWarning)
        } else if occurs_at(line, i + 2, "error"@) || occurs_at(line, i + 2, "fatal error"@) {
            Some(ParseState::InError)
        } else {
            None
        },
        None => None,
    }
}

/// Tells whether `line` opens a warning or an error.
pub fn state_transition(line: &str) -> (r: Option<ParseState>)
    ensures
        r == opens(line@),
{
    let chars = chars_of(line);
    let sep = chars_of(": ");
    match find(&chars, &sep) {
        Some(index) => {
            let n: usize = chars.len();
            proof {
                reveal_strlit(": ");
                assert(sep@.len() == 2);
                assert(index + 2 <= n);
            }
            let after: usize = index + 2;
            let warning = chars_of("warning");
            let error = chars_of("error");
            let fatal = chars_of("fatal error");
            if starts_with_at(&chars, after, &warning) {
                Some(ParseState::InWarning)
            } else if starts_with_at(&chars, after, &error) || starts_with_at(
                &chars,
                after,
                &fatal,
            ) {
                Some(ParseState::InError)
            } else {
                None
            }
        },
        None => None,
    }
}

/// One step of the segmentation: from the state and the buffered chunk,
/// on one line of standard output, to the next state, the next chunk and
/// what is emitted.
pub open spec fn step(state: ParseState, chunk: Seq<char>, line: Seq<char>) -> (
    ParseState,
    Seq<char>,
    Option<Emitted>,
) {
    match state {
        ParseState::NoFileName => (
            ParseState::Neutral,
            chunk,
            Some(Emitted { kind: OutputKind::Begun, text: line }),
        ),
        ParseState::Neutral => match opens(line) {
            Some(next) => (next, line, None),
            None => (ParseState::Neutral, chunk, None),
        },
        ParseState::InWarning => match opens(line) {
            Some(next) => (next, line, Some(Emitted { kind: OutputKind::Warning, text: chunk })),
            None => (state, chunk + seq!['\n'] + line, None),
        },
        ParseState::InError => match opens(line) {
            Some(next) => (next, line, Some(Emitted { kind: OutputKind::Error, text: chunk })),
            None => (state, chunk + seq!['\n'] + line, None),
        },
    }
}

/// What is emitted when the output ends in `state` with `chunk` buffered.
pub open spec fn flush(state: ParseState, chunk: Seq<char>) -> Option<Emitted> {
    match state {
        ParseState::InWarning => Some(Emitted { kind: OutputKind::Warning, text: chunk }),
        ParseState::InError => Some(Emitted { kind: OutputKind::Error, text: chunk }),
        _ => None,
    }
}

/// The segmentation of compiler output, fed line by line.
pub struct OutputParser {
    pub state: ParseState,
    pub chunk: String,
}

impl OutputParser {
    /// A parser that has read nothing.
    pub fn new() -> (r: OutputParser)
        ensures
            r.state == ParseState::NoFileName,
            r.chunk@ == Seq::<char>::empty(),
    {
        OutputParser { state: ParseState::NoFileName, chunk: String::new() }
    }

    /// Takes one line. A line of standard error changes nothing; a line of
    /// standard output makes one step.
    pub fn feed(&mut self, line: OutputLine) -> (r: Option<CompilerOutput>)
        ensures
            match line {
                OutputLine::Stderr(_) => r.is_none() && final(self).state == old(self).state
                    && final(self).chunk@ == old(self).chunk@,
                OutputLine::Stdout(text) => {
                    let next = step(old(self).state, old(self).chunk@, text@);
                    &&& final(self).state == next.0
                    &&& final(self).chunk@ == next.1
                    &&& match r {
                        Some(o) => next.2 == Some(o@),
                        None => next.2.is_none(),
                    }
                },
            },
    {
        let text = match line {
            OutputLine::Stdout(text) => text,
            OutputLine::Stderr(_) => {
                return None;
            },
        };
        match self.state {
            ParseState::NoFileName => {
                self.state = ParseState::Neutral;
                Some(CompilerOutput::Begun { first_line: text })
            },
            ParseState::Neutral => {
                if let Some(next) = state_transition(text.as_str()) {
                    self.state = next;
                    self.chunk = text;
                }
                None
            },
            ParseState::InWarning | ParseState::InError => {
                if let Some(next) = state_transition(text.as_str()) {
                    let mut done = text;
                    std::mem::swap(&mut self.chunk, &mut done);
                    let was_warning = matches!(self.state, ParseState::InWarning);
                    self.state = next;
                    if was_warning {
                        Some(CompilerOutput::Warning(done))
                    } else {
                        Some(CompilerOutput::Error(done))
                    }
                } else {
                    proof {
                        reveal_strlit("\n");
                        assert("\n"@ =~= seq!['\n']);
                    }
                    self.chunk.append("\n");
                    self.chunk.append(text.as_str());
                    None
                }
            },
        }
    }

    /// Ends the output: a diagnostic that is still buffered is emitted.
    pub fn finish(self) -> (r: Option<CompilerOutput>)
        ensures
            match r {
                Some(o) => flush(self.state, self.chunk@) == Some(o@),
                None => flush(self.state, self.chunk@).is_none(),
            },
    {
        match self.state {
            ParseState::InWarning => Some(CompilerOutput::Warning(self.chunk)),
            ParseState::InError => Some(CompilerOutput::Error(self.chunk)),
            _ => None,
        }
    }
}

/// One typed compiler flag.
#[derive(Debug)]
pub enum CompileFlag {
    Concrete(String),
    CxxStandard(CxxStandard),
    Rtti(bool),
    AsyncAwait(bool),
    SrcPath(String),
    ObjPath(String),
    PchPath { path: String, generate: bool },
    Define { name: String, value: String },
    IncludePath(String),
}

/// The token that selects a language standard.
pub open spec fn standard_token(standard: CxxStandard) -> Seq<char> {
    match standard {
        CxxStandard::Cxx11 | CxxStandard::Cxx14 => "/std:c++14"@,
        CxxStandard::Cxx17 => "/std:c++17"@,
        CxxStandard::Cxx20 => "/std:c++latest"@,
    }
}

/// The token that switches run-time type information on or off.
pub open spec fn rtti_token(enabled: bool) -> Seq<char> {
    if enabled {
        "/GR"@
    } else {
        "/GR-"@
    }
}

/// The tokens for coroutine support: one when enabled, none otherwise.
pub open spec fn await_tokens(enabled: bool) -> Seq<Seq<char>> {
    if enabled {
        seq!["/await"@]
    } else {
        Seq::empty()
    }
}

/// The tokens that name the precompiled header file and say whether it is
/// created or used.
pub open spec fn pch_tokens(path: Seq<char>, generate: bool) -> Seq<Seq<char>> {
    seq![
        "/Fp"@ + path,
        if generate {
            "/Ycpch.h"@
        } else {
            "/Yupch.h"@
        },
    ]
}

/// The token that defines a preprocessor name.
pub open spec fn define_token(name: Seq<char>, value: Seq<char>) -> Seq<char> {
    "/D"@ + name + "="@ + value
}

/// The tokens of a list of definitions, in order.
pub open spec fn define_tokens(defines: Seq<(String, String)>) -> Seq<Seq<char>> {
    defines.map_values(|d: (String, String)| define_token(d.0@, d.1@))
}

/// The tokens of a list of include directories: `/I` before each.
pub open spec fn include_tokens(paths: Seq<String>) -> Seq<Seq<char>>
    decreases paths.len(),
{
    if paths.len() == 0 {
        Seq::empty()
    } else {
        include_tokens(paths.drop_last()) + seq!["/I"@, paths.last()@]
    }
}

impl CompileFlag {
    /// The command-line tokens that the flag stands for.
    pub open spec fn tokens(&self) -> Seq<Seq<char>> {
        match self {
            CompileFlag::Concrete(s) => seq![s@],
            CompileFlag::CxxStandard(standard) => seq![standard_token(*standard)],
            CompileFlag::Rtti(enabled) => seq![rtti_token(*enabled)],
            CompileFlag::AsyncAwait(enabled) => await_tokens(*enabled),
            CompileFlag::SrcPath(p) => seq![p@],
            CompileFlag::ObjPath(p) => seq!["/Fo"@ + p@],
            CompileFlag::PchPath { path, generate } => pch_tokens(path@, *generate),
            CompileFlag::Define { name, value } => seq![define_token(name@, value@)],
            CompileFlag::IncludePath(p) => seq!["/I"@, p@],
        }
    }
}

/// The tokens of a list of flags, in the order of the flags.
pub open spec fn realise(flags: Seq<CompileFlag>) -> Seq<Seq<char>>
    decreases flags.len(),
{
    if flags.len() == 0 {
        Seq::empty()
    } else {
        realise(flags.drop_last()) + flags.last().tokens()
    }
}

/// `flag` directly followed by `arg`, as one token.
pub fn double(flag: &str, arg: &str) -> (r: String)
    ensures
        r@ == flag@ + arg@,
{
    concat2(flag, arg)
}

/// An ordered list of compiler flags, built by chaining.
#[must_use]
pub struct CompileFlags {
    flags: Vec<CompileFlag>,
}

impl CompileFlags {
    /// The flags held, in order.
    pub closed spec fn flags(&self) -> Seq<CompileFlag> {
        self.flags@
    }

    /// The command line that the flags stand for.
    pub open spec fn realised(&self) -> Seq<Seq<char>> {
        realise(self.flags())
    }

    /// No flags.
    pub fn empty() -> (r: Self)
        ensures
            r.flags() == Seq::<CompileFlag>::empty(),
            r.realised() == Seq::<Seq<char>>::empty(),
    {
        CompileFlags { flags: Vec::new() }
    }

    fn pushing(self, flag: CompileFlag) -> (r: Self)
        ensures
            r.flags() == self.flags().push(flag),
            r.realised() == self.realised() + flag.tokens(),
    {
        let mut flags = self.flags;
        flags.push(flag);
        assert(flags@.drop_last() =~= self.flags@);
        CompileFlags { flags }
    }

    /// Adds `flag` as it is.
    pub fn single(self, flag: &str) -> (r: Self)
        ensures
            r.realised() == self.realised().push(flag@),
    {
        let r = self.pushing(CompileFlag::Concrete(String::from_str(flag)));
        assert(r.realised() =~= self.realised().push(flag@));
        r
    }

    /// Adds each of `flags` as it is.
    pub fn singles(self, flags: &Vec<String>) -> (r: Self)
        ensures
            r.realised() == self.realised() + texts(flags@),
    {
        let mut out = self;
        let mut i: usize = 0;
        while i < flags.len()
            invariant
                i <= flags@.len(),
                out.realised() == self.realised() + texts(flags@.subrange(0, i as int)),
            decreases flags@.len() - i,
        {
            let ghost before = out.realised();
            out = out.pushing(CompileFlag::Concrete(flags[i].clone()));
            i = i + 1;
            assert(texts(flags@.subrange(0, i as int)) =~= texts(
                flags@.subrange(0, i - 1),
            ).push(flags@[i - 1]@));
            assert(out.realised() =~= self.realised() + texts(flags@.subrange(0, i as int)));
        }
        assert(flags@.subrange(0, flags@.len() as int) =~= flags@);
        out
    }

    /// Adds `flag` directly followed by `arg`, as one token.
    pub fn double(self, flag: &str, arg: &str) -> (r: Self)
        ensures
            r.realised() == self.realised().push(flag@ + arg@),
    {
        let token = double(flag, arg);
        self.single(token.as_str())
    }

    /// Adds the choice of the language standard.
    pub fn cxx_standard(self, standard: CxxStandard) -> (r: Self)
        ensures
            r.realised() == self.realised().push(standard_token(standard)),
    {
        let r = self.pushing(CompileFlag::CxxStandard(standard));
        assert(r.realised() =~= self.realised().push(standard_token(standard)));
        r
    }

    /// Adds the switch for run-time type information.
    pub fn rtti(self, enabled: bool) -> (r: Self)
        ensures
            r.realised() == self.realised().push(rtti_token(enabled)),
    {
        let r = self.pushing(CompileFlag::Rtti(enabled));
        assert(r.realised() =~= self.realised().push(rtti_token(enabled)));
        r
    }

    /// Adds the switch for coroutine support.
    pub fn async_await(self, enabled: bool) -> (r: Self)
        ensures
            r.realised() == self.realised() + await_tokens(enabled),
    {
        self.pushing(CompileFlag::AsyncAwait(enabled))
    }

    /// Adds the source file to compile.
    pub fn src_path(self, path: &str) -> (r: Self)
        ensures
            r.realised() == self.realised().push(path@),
    {
        let r = self.pushing(CompileFlag::SrcPath(String::from_str(path)));
        assert(r.realised() =~= self.realised().push(path@));
        r
    }

    /// Adds the object file to write.
    pub fn obj_path(self, path: &str) -> (r: Self)
        ensures
            r.realised() == self.realised().push("/Fo"@ + path@),
    {
        let r = self.pushing(CompileFlag::ObjPath(String::from_str(path)));
        assert(r.realised() =~= self.realised().push("/Fo"@ + path@));
        r
    }

    /// Adds the precompiled header file, to create or to use.
    pub fn pch_path(self, path: &str, generate: bool) -> (r: Self)
        ensures
            r.realised() == self.realised() + pch_tokens(path@, generate),
    {
        self.pushing(CompileFlag::PchPath { path: String::from_str(path), generate })
    }

    /// Adds one preprocessor definition.
    pub fn define(self, name: &str, value: &str) -> (r: Self)
        ensures
            r.realised() == self.realised().push(define_token(name@, value@)),
    {
        let r = self.pushing(
            CompileFlag::Define { name: String::from_str(name), value: String::from_str(value) },
        );
        assert(r.realised() =~= self.realised().push(define_token(name@, value@)));
        r
    }

    /// Adds preprocessor definitions, in their order.
    pub fn defines(self, defines: &Vec<(String, String)>) -> (r: Self)
        ensures
            r.realised() == self.realised() + define_tokens(defines@),
    {
        let mut out = self;
        let mut i: usize = 0;
        while i < defines.len()
            invariant
                i <= defines@.len(),
                out.realised() == self.realised() + define_tokens(
                    defines@.subrange(0, i as int),
                ),
            decreases defines@.len() - i,
        {
            out = out.define(defines[i].0.as_str(), defines[i].1.as_str());
            i = i + 1;
            assert(define_tokens(defines@.subrange(0, i as int)) =~= define_tokens(
                defines@.subrange(0, i - 1),
            ).push(define_token(defines@[i - 1].0@, defines@[i - 1].1@)));
            assert(out.realised() =~= self.realised() + define_tokens(
                defines@.subrange(0, i as int),
            ));
        }
        assert(defines@.subrange(0, defines@.len() as int) =~= defines@);
        out
    }

    /// Adds one directory to search for headers.
    pub fn include_path(self, path: &str) -> (r: Self)
        ensures
            r.realised() == self.realised() + seq!["/I"@, path@],
    {
        self.pushing(CompileFlag::IncludePath(String::from_str(path)))
    }

    /// Adds directories to search for headers, in their order.
    pub fn include_paths(self, paths: &Vec<String>) -> (r: Self)
        ensures
            r.realised() == self.realised() + include_tokens(paths@),
    {
        let mut out = self;
        let mut i: usize = 0;
        while i < paths.len()
            invariant
                i <= paths@.len(),
                out.realised() == self.realised() + include_tokens(paths@.subrange(0, i as int)),
            decreases paths@.len() - i,
        {
            out = out.include_path(paths[i].as_str());
            i = i + 1;
            assert(paths@.subrange(0, i as int).drop_last() =~= paths@.subrange(0, i - 1));
            assert(out.realised() =~= self.realised() + include_tokens(
                paths@.subrange(0, i as int),
            ));
        }
        assert(paths@.subrange(0, paths@.len() as int) =~= paths@);
        out
    }

    /// Expands the flags into command-line tokens, flag by flag in order.
    pub fn build(&self) -> (r: Vec<String>)
        ensures
            texts(r@) == self.realised(),
    {
        let mut out: Vec<String> = Vec::new();
        let mut i: usize = 0;
        assert(texts(out@) =~= realise(self.flags@.subrange(0, 0)));
        while i < self.flags.len()
            invariant
                i <= self.flags@.len(),
                texts(out@) == realise(self.flags@.subrange(0, i as int)),
            decreases self.flags@.len() - i,
        {
            let ghost before = out@;
            match &self.flags[i] {
                CompileFlag::Concrete(flag) => out.push(flag.clone()),
                CompileFlag::CxxStandard(standard) => {
                    match standard {
                        CxxStandard::Cxx11 | CxxStandard::Cxx14 => out.push(
                            String::from_str("/std:c++14"),
                        ),
                        CxxStandard::Cxx17 => out.push(String::from_str("/std:c++17")),
                        CxxStandard::Cxx20 => out.push(String::from_str("/std:c++latest")),
                    }
                },
                CompileFlag::Rtti(enabled) => if *enabled {
                    out.push(String::from_str("/GR"));
                } else {
                    out.push(String::from_str("/GR-"));
                },
                CompileFlag::AsyncAwait(enabled) => if *enabled {
                    out.push(String::from_str("/await"));
                },
                CompileFlag::SrcPath(path) => {
                    out.push(path.clone());
                },
                CompileFlag::ObjPath(path) => {
                    out.push(double("/Fo", path.as_str()));
                },
                CompileFlag::PchPath { path, generate } => {
                    out.push(double("/Fp", path.as_str()));
                    if *generate {
                        out.push(String::from_str("/Ycpch.h"));
                    } else {
                        out.push(String::from_str("/Yupch.h"));
                    }
                },
                CompileFlag::Define { name, value } => {
                    let mut flag = String::from_str("/D");
                    flag.append(name.as_str());
                    flag.append("=");
                    flag.append(value.as_str());
                    out.push(flag);
                },
                CompileFlag::IncludePath(path) => {
                    out.push(String::from_str("/I"));
                    out.push(path.clone());
                },
            }
            i = i + 1;
            proof {
                let upto = self.flags@.subrange(0, i as int);
                assert(upto.drop_last() =~= self.flags@.subrange(0, i - 1));
                assert(upto.last() == self.flags@[i - 1]);
                assert(texts(out@) =~= texts(before) + self.flags@[i - 1].tokens());
            }
        }
        assert(self.flags@.subrange(0, self.flags@.len() as int) =~= self.flags@);
        out
    }
}

/// What a parser that stands in `state` with `chunk` buffered emits for
/// the lines of standard output `lines`, the end of the output included.
pub open spec fn emitted_from(state: ParseState, chunk: Seq<char>, lines: Seq<Seq<char>>) -> Seq<
    Emitted,
>
    decreases lines.len(),
{
    if lines.len() == 0 {
        match flush(state, chunk) {
            Some(e) => seq![e],
            None => Seq::empty(),
        }
    } else {
        let next = step(state, chunk, lines[0]);
        let rest = emitted_from(next.0, next.1, lines.drop_first());
        match next.2 {
            Some(e) => seq![e] + rest,
            None => rest,
        }
    }
}

/// The views of a list of pieces of compiler output.
pub open spec fn emitted_views(outputs: Seq<CompilerOutput>) -> Seq<Emitted> {
    outputs.map_values(|o: CompilerOutput| o@)
}

/// Segments the whole standard output of a compile, given line by line,
/// into the line that names the translation unit and the warnings and
/// errors that follow it.
pub fn segment(lines: Vec<String>) -> (r: Vec<CompilerOutput>)
    ensures
        emitted_views(r@) == emitted_from(
            ParseState::NoFileName,
            Seq::<char>::empty(),
            texts(lines@),
        ),
{
    let ghost all = texts(lines@);
    let mut lines = lines;
    let mut parser = OutputParser::new();
    let mut out: Vec<CompilerOutput> = Vec::new();
    let n: usize = lines.len();
    let mut i: usize = 0;
    assert(all.subrange(0, all.len() as int) =~= all);
    assert(emitted_views(out@) =~= Seq::<Emitted>::empty());
    while i < n
        invariant
            i <= n,
            n == lines@.len(),
            n == all.len(),
            forall|j: int| i <= j < n ==> (#[trigger] lines@[j])@ == all[j],
            emitted_from(ParseState::NoFileName, Seq::<char>::empty(), all) == emitted_views(out@)
                + emitted_from(parser.state, parser.chunk@, all.subrange(i as int, n as int)),
        decreases n - i,
    {
        let mut line = String::new();
        std::mem::swap(&mut line, &mut lines[i]);
        let ghost before = out@;
        let ghost rest = all.subrange(i as int, n as int);
        proof {
            assert(rest[0] == line@);
            assert(rest.drop_first() =~= all.subrange(i + 1, n as int));
        }
        match parser.feed(OutputLine::Stdout(line)) {
            Some(o) => {
                out.push(o);
                assert(emitted_views(out@) =~= emitted_views(before).push(o@));
            },
            None => {},
        }
        i = i + 1;
        assert(emitted_from(ParseState::NoFileName, Seq::<char>::empty(), all) =~= emitted_views(
            out@,
        ) + emitted_from(parser.state, parser.chunk@, all.subrange(i as int, n as int)));
    }
    let ghost before = out@;
    assert(all.subrange(n as int, n as int) =~= Seq::<Seq<char>>::empty());
    match parser.finish() {
        Some(o) => {
            out.push(o);
            assert(emitted_views(out@) =~= emitted_views(before).push(o@));
        },
        None => {},
    }
    assert(emitted_views(out@) =~= emitted_from(
        ParseState::NoFileName,
        Seq::<char>::empty(),
        all,
    ));
    out
}

} // verus!
