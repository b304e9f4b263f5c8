//! Units of work. A task can say whether the result of an earlier run is
//! still good, and what has to be run to produce its artifact anew.

use vstd::prelude::*;
use vstd::string::*;
use vstd::seq_lib::*;
use crate::build_env::{BuildEnvironment, BuildError, DependencyBuilder, PchOption};
use crate::build_manager::{
    await_tokens,
    define_tokens,
    include_tokens,
    pch_tokens,
    rtti_token,
    standard_token,
    CompileFlags,
};
use crate::text::texts;
use crate::cmd_options::CompileMode;
use crate::proj_config::OutputType;
use crate::edit_times::{
    artifact_time,
    dependency_time,
    lemma_newer_dependency_forces_rebuild,
    lemma_up_to_date_is_kept,
    memo_after_decision,
    rebuild_needed,
    should_build_artifact,
    PathTimes,
};
use crate::paths::{is_separator, join, joined, relative_part, strip_root, under};
use crate::text::{concat2, str_eq};

verus! {

/// A program to run with its arguments.
#[derive(Clone, Debug)]
pub struct Invocation {
    pub program: String,
    pub arguments: Vec<String>,
}

/// What has to be done to produce an artifact: the command to run, if
/// any, and where the artifact then lies.
#[derive(Clone, Debug)]
pub struct Work {
    pub artifact: String,
    pub command: Option<Invocation>,
}

/// What a task comes to in a build: the artifact of an earlier run is
/// taken, or work is to be done.
#[derive(Clone, Debug)]
pub enum TaskStep {
    Reuse(String),
    Execute(Work),
}

/// A unit of work of the build.
pub trait Task {
    /// The task can be carried out in `env`.
    spec fn fits(&self, env: &BuildEnvironment) -> bool;

    /// The artifact of an earlier run that can be taken, if there is one.
    spec fn reusable(&self, env: &BuildEnvironment, memo: Map<Seq<char>, u64>) -> Result<
        Option<Seq<char>>,
        BuildError,
    >;

    /// The oracle's memo after the question was decided.
    spec fn memo_after(&self, env: &BuildEnvironment, memo: Map<Seq<char>, u64>) -> Map<
        Seq<char>,
        u64,
    >;

    /// Where the artifact of a run lies.
    spec fn artifact(&self, env: &BuildEnvironment) -> Seq<char>;

    /// The program and the arguments of a run, if it runs anything.
    spec fn command_line(&self, env: &BuildEnvironment) -> Option<(Seq<char>, Seq<Seq<char>>)>;

    /// Looks at the memo and the edit times and gives the artifact of an
    /// earlier run where it can be taken, else `None`.
    fn previous_valid_run(&self, env: &BuildEnvironment, oracle: &mut PathTimes) -> (r: Result<
        Option<String>,
        BuildError,
    >)
        requires
            self.fits(env),
        ensures
            final(oracle)@ == self.memo_after(env, old(oracle)@),
            match r {
                Ok(Some(p)) => self.reusable(env, old(oracle)@) == Ok::<
                    Option<Seq<char>>,
                    BuildError,
                >(Some(p@)),
                Ok(None) => self.reusable(env, old(oracle)@) == Ok::<
                    Option<Seq<char>>,
                    BuildError,
                >(None),
                Err(e) => self.reusable(env, old(oracle)@) == Err::<
                    Option<Seq<char>>,
                    BuildError,
                >(e),
            },
    ;

    /// Says what is to be run to produce the artifact, whatever an earlier
    /// run left.
    fn run_guaranteed(&self, env: &BuildEnvironment) -> (r: Work)
        requires
            self.fits(env),
        ensures
            r.artifact@ == self.artifact(env),
            match r.command {
                Some(c) => self.command_line(env) == Some((c.program@, texts(c.arguments@))),
                None => self.command_line(env).is_none(),
            },
    ;
}

/// The composition of the two operations of a task.
pub trait TaskExt: Task {
    /// Takes the artifact of an earlier run where it is still good, and
    /// else says what is to be run.
    fn run(&self, env: &BuildEnvironment, oracle: &mut PathTimes) -> (r: Result<
        TaskStep,
        BuildError,
    >)
        requires
            self.fits(env),
        ensures
            final(oracle)@ == self.memo_after(env, old(oracle)@),
            match r {
                Ok(TaskStep::Reuse(p)) => self.reusable(env, old(oracle)@) == Ok::<
                    Option<Seq<char>>,
                    BuildError,
                >(Some(p@)),
                Ok(TaskStep::Execute(w)) => {
                    &&& self.reusable(env, old(oracle)@) == Ok::<Option<Seq<char>>, BuildError>(
                        None,
                    )
                    &&& w.artifact@ == self.artifact(env)
                    &&& match w.command {
                        Some(c) => self.command_line(env) == Some(
                            (c.program@, texts(c.arguments@)),
                        ),
                        None => self.command_line(env).is_none(),
                    }
                },
                Err(e) => self.reusable(env, old(oracle)@) == Err::<
                    Option<Seq<char>>,
                    BuildError,
                >(e),
            },
    ;
}

impl<T: Task> TaskExt for T {
    fn run(&self, env: &BuildEnvironment, oracle: &mut PathTimes) -> (r: Result<
        TaskStep,
        BuildError,
    >) {
        match self.previous_valid_run(env, oracle) {
            Ok(Some(previous)) => Ok(TaskStep::Reuse(previous)),
            Ok(None) => Ok(TaskStep::Execute(self.run_guaranteed(env))),
            Err(e) => Err(e),
        }
    }
}

/// A file that is there already: nothing is run for it.
pub struct IdentityTask(pub String);

impl Task for IdentityTask {
    open spec fn fits(&self, env: &BuildEnvironment) -> bool {
        true
    }

    open spec fn reusable(&self, env: &BuildEnvironment, memo: Map<Seq<char>, u64>) -> Result<
        Option<Seq<char>>,
        BuildError,
    > {
        Ok(Some(self.0@))
    }

    open spec fn memo_after(&self, env: &BuildEnvironment, memo: Map<Seq<char>, u64>) -> Map<
        Seq<char>,
        u64,
    > {
        memo
    }

    open spec fn artifact(&self, env: &BuildEnvironment) -> Seq<char> {
        self.0@
    }

    open spec fn command_line(&self, env: &BuildEnvironment) -> Option<
        (Seq<char>, Seq<Seq<char>>),
    > {
        None
    }

    fn previous_valid_run(&self, env: &BuildEnvironment, oracle: &mut PathTimes) -> (r: Result<
        Option<String>,
        BuildError,
    >) {
        Ok(Some(self.0.clone()))
    }

    fn run_guaranteed(&self, env: &BuildEnvironment) -> (r: Work) {
        Work { artifact: self.0.clone(), command: None }
    }
}

/// The tokens that follow from the compile mode.
pub open spec fn mode_tokens(mode: CompileMode) -> Seq<Seq<char>> {
    match mode {
        CompileMode::Debug => seq!["/MDd"@, "/RTC1"@],
        CompileMode::Release => seq!["/O2"@],
    }
}

/// The extension of what a compile is asked for.
pub open spec fn compiled_extension(pch: PchOption) -> Seq<char> {
    if pch == PchOption::GeneratePch {
        "pch"@
    } else {
        "obj"@
    }
}

/// The source is the precompiled header's, at the root of the source
/// directory, and the compile does not generate the precompiled header:
/// the compile that does owns the source.
pub open spec fn left_to_pch_compile(
    env: &BuildEnvironment,
    source: Seq<char>,
    pch: PchOption,
) -> bool {
    pch != PchOption::GeneratePch && relative_part(source, env.src_dir_path@) == "pch.cpp"@
}

/// What an earlier compile of `source` would have left.
pub open spec fn earlier_object(env: &BuildEnvironment, source: Seq<char>, pch: PchOption) -> Seq<
    char,
> {
    env.artifact_of(source, env.objs_path@, compiled_extension(pch))
}

/// The artifact of an earlier compile of `source` that can be taken, if
/// there is one: the source's descriptor is not stale, and neither the
/// source, nor a file of the descriptor, nor the manifest is newer than
/// the artifact. The precompiled header's source is never taken by a
/// compile that does not generate the header.
pub open spec fn object_reusable(
    env: &BuildEnvironment,
    memo: Map<Seq<char>, u64>,
    source: Seq<char>,
    pch: PchOption,
) -> Result<Option<Seq<char>>, BuildError> {
    if left_to_pch_compile(env, source, pch) {
        Ok(None)
    } else {
        match env.discovered(memo, source) {
            Err(e) => Err(e),
            Ok(None) => Ok(None),
            Ok(Some(found)) => if rebuild_needed(
                env.memo_after_discovery(memo, source),
                env.disk@,
                env.config_path@,
                seq![source] + found,
                seq![earlier_object(env, source, pch)],
            ) {
                Ok(None)
            } else {
                Ok(Some(earlier_object(env, source, pch)))
            },
        }
    }
}

/// The oracle's memo after it was decided whether the artifact of an
/// earlier compile of `source` can be taken.
pub open spec fn memo_after_object(
    env: &BuildEnvironment,
    memo: Map<Seq<char>, u64>,
    source: Seq<char>,
    pch: PchOption,
) -> Map<Seq<char>, u64> {
    if left_to_pch_compile(env, source, pch) {
        memo
    } else {
        match env.discovered(memo, source) {
            Ok(Some(found)) => memo_after_decision(
                env.memo_after_discovery(memo, source),
                env.disk@,
                env.config_path@,
                seq![source] + found,
                seq![earlier_object(env, source, pch)],
                seq![earlier_object(env, source, pch)],
            ),
            _ => env.memo_after_discovery(memo, source),
        }
    }
}

/// The source can be compiled in `env`: it lies in the source directory,
/// whose path does not end in a separator.
pub open spec fn compiles_in(env: &BuildEnvironment, source: Seq<char>) -> bool {
    &&& under(source, env.src_dir_path@)
    &&& env.src_dir_path@.len() > 0
    &&& !is_separator(env.src_dir_path@.last())
}

/// The compile of one source file into an object file, or of the
/// precompiled header's source into the precompiled header.
pub struct CxxTask {
    pub src: IdentityTask,
    pub pch: PchOption,
}

impl CxxTask {
    /// The compile of the source at `src`.
    pub fn compile(src: &str, pch: PchOption) -> (r: Self)
        ensures
            r.src.0@ == src@,
            r.pch == pch,
    {
        CxxTask { src: IdentityTask(String::from_str(src)), pch }
    }

    /// The precompiled header file.
    pub open spec fn pch_file(env: &BuildEnvironment) -> Seq<char> {
        env.artifact_of(joined(env.src_dir_path@, "pch.h"@), env.objs_path@, "pch"@)
    }

    /// The tokens that say how the compile relates to the precompiled header.
    pub open spec fn pch_part(&self, env: &BuildEnvironment) -> Seq<Seq<char>> {
        match self.pch {
            PchOption::GeneratePch => pch_tokens(Self::pch_file(env), true),
            PchOption::UsePch => pch_tokens(Self::pch_file(env), false),
            PchOption::NoPch => Seq::empty(),
        }
    }

    /// The tokens on the language: warnings, debugging information and
    /// exceptions, then the language options of the project and what
    /// follows from the compile mode.
    pub open spec fn language_part(env: &BuildEnvironment) -> Seq<Seq<char>> {
        seq!["/W3"@, "/Zi"@, "/EHsc"@, "/c"@, "/FS"@] + seq![
            rtti_token(env.config.cxx_options.rtti),
        ] + await_tokens(env.config.cxx_options.async_await) + seq![
            standard_token(env.config.cxx_options.standard),
        ] + mode_tokens(env.build_options.compile_mode)
    }

    /// The definitions, then the directories that are searched for
    /// headers: those of the toolchain, that of the dependencies' headers
    /// and the source directory.
    pub open spec fn search_part(env: &BuildEnvironment) -> Seq<Seq<char>> {
        define_tokens(env.definitions@) + include_tokens(env.toolchain_paths.include_paths@)
            + seq!["/I"@, env.dependency_headers_path@, "/I"@, env.src_dir_path@]
    }

    /// The tokens that name what is written and what is read: the object
    /// file, the debugging symbols, the descriptor and the source.
    pub open spec fn files_part(&self, env: &BuildEnvironment) -> Seq<Seq<char>> {
        seq![
            "/Fo"@ + env.artifact_of(self.src.0@, env.objs_path@, "obj"@),
            "/Fd"@ + joined(env.objs_path@, env.config.name@ + ".pdb"@),
            "/sourceDependencies"@ + env.sidecar_of(self.src.0@),
            self.src.0@,
        ]
    }

    /// The arguments that the compiler is run with.
    pub open spec fn compile_line(&self, env: &BuildEnvironment) -> Seq<Seq<char>> {
        Self::language_part(env) + Self::search_part(env) + self.pch_part(env) + self.files_part(
            env,
        )
    }

    fn language_flags(env: &BuildEnvironment) -> (flags: CompileFlags)
        ensures
            flags.realised() == Self::language_part(env),
    {
        let options = env.config.cxx_options;
        let mut flags = CompileFlags::empty().single("/W3").single("/Zi").single("/EHsc").single(
            "/c",
        ).single("/FS");
        assert(flags.realised() =~= seq!["/W3"@, "/Zi"@, "/EHsc"@, "/c"@, "/FS"@]);
        flags = flags.rtti(options.rtti).async_await(options.async_await).cxx_standard(
            options.standard,
        );
        let ghost language = seq!["/W3"@, "/Zi"@, "/EHsc"@, "/c"@, "/FS"@] + seq![
            rtti_token(options.rtti),
        ] + await_tokens(options.async_await) + seq![standard_token(options.standard)];
        assert(flags.realised() =~= language);
        match env.build_options.compile_mode {
            CompileMode::Debug => {
                flags = flags.single("/MDd").single("/RTC1");
            },
            CompileMode::Release => {
                flags = flags.single("/O2");
            },
        }
        assert(flags.realised() =~= language + mode_tokens(env.build_options.compile_mode));
        flags
    }

    fn search_flags(flags: CompileFlags, env: &BuildEnvironment) -> (r: CompileFlags)
        ensures
            r.realised() == flags.realised() + Self::search_part(env),
    {
        let r = flags.defines(&env.definitions).include_paths(
            &env.toolchain_paths.include_paths,
        ).include_path(env.dependency_headers_path.as_str()).include_path(
            env.src_dir_path.as_str(),
        );
        assert(r.realised() =~= flags.realised() + Self::search_part(env));
        r
    }
}

impl Task for CxxTask {
    /// The source lies in the source directory, whose path does not end
    /// in a separator.
    open spec fn fits(&self, env: &BuildEnvironment) -> bool {
        compiles_in(env, self.src.0@)
    }

    open spec fn reusable(&self, env: &BuildEnvironment, memo: Map<Seq<char>, u64>) -> Result<
        Option<Seq<char>>,
        BuildError,
    > {
        object_reusable(env, memo, self.src.0@, self.pch)
    }

    open spec fn memo_after(&self, env: &BuildEnvironment, memo: Map<Seq<char>, u64>) -> Map<
        Seq<char>,
        u64,
    > {
        memo_after_object(env, memo, self.src.0@, self.pch)
    }

    open spec fn artifact(&self, env: &BuildEnvironment) -> Seq<char> {
        env.artifact_of(self.src.0@, env.objs_path@, "obj"@)
    }

    open spec fn command_line(&self, env: &BuildEnvironment) -> Option<
        (Seq<char>, Seq<Seq<char>>),
    > {
        Some(("cl.exe"@, self.compile_line(env)))
    }

    fn previous_valid_run(&self, env: &BuildEnvironment, oracle: &mut PathTimes) -> (r: Result<
        Option<String>,
        BuildError,
    >) {
        let path = self.src.0.as_str();
        let generating_pch = matches!(self.pch, PchOption::GeneratePch);
        let extension = if generating_pch {
            "pch"
        } else {
            "obj"
        };
        let is_pch = match strip_root(path, env.src_dir_path.as_str()) {
            Some(relative) => str_eq(relative.as_str(), "pch.cpp"),
            None => false,
        };
        if is_pch && !generating_pch {
            return Ok(None);
        }
        let artifact_path = env.get_artifact_path(path, env.objs_path.as_str(), extension);
        match env.discover_src_deps(oracle, path) {
            Err(e) => Err(e),
            Ok(None) => Ok(None),
            Ok(Some(found)) => {
                let dependencies = DependencyBuilder::new().file(path).files(&found).build();
                assert(texts(dependencies@) =~= seq![path@] + texts(found@));
                if should_build_artifact(
                    oracle,
                    &env.disk,
                    env.config_path.as_str(),
                    &dependencies,
                    artifact_path.as_str(),
                ) {
                    Ok(None)
                } else {
                    Ok(Some(artifact_path))
                }
            },
        }
    }

    fn run_guaranteed(&self, env: &BuildEnvironment) -> (r: Work) {
        let path = self.src.0.as_str();
        let mut flags = Self::search_flags(Self::language_flags(env), env);
        let ghost located = Self::language_part(env) + Self::search_part(env);
        match self.pch {
            PchOption::GeneratePch | PchOption::UsePch => {
                let header = join(env.src_dir_path.as_str(), "pch.h");
                proof {
                    let root = env.src_dir_path@;
                    assert(header@ == root + seq!['/'] + "pch.h"@);
                    assert(header@.subrange(0, root.len() as int) =~= root);
                    assert(header@[root.len() as int] == '/');
                }
                let pch_file = env.get_artifact_path(
                    header.as_str(),
                    env.objs_path.as_str(),
                    "pch",
                );
                flags = flags.pch_path(pch_file.as_str(), matches!(self.pch, PchOption::GeneratePch));
            },
            PchOption::NoPch => {},
        }
        let ghost headed = located + self.pch_part(env);
        assert(flags.realised() =~= headed);
        let sidecar = env.get_artifact_path(path, env.src_deps_path.as_str(), "json");
        let obj_path = env.get_artifact_path(path, env.objs_path.as_str(), "obj");
        let symbols = join(
            env.objs_path.as_str(),
            concat2(env.config.name.as_str(), ".pdb").as_str(),
        );
        flags = flags.obj_path(obj_path.as_str()).double("/Fd", symbols.as_str()).double(
            "/sourceDependencies",
            sidecar.as_str(),
        ).src_path(path);
        assert(flags.realised() =~= headed + seq![
            "/Fo"@ + obj_path@,
            "/Fd"@ + symbols@,
            "/sourceDependencies"@ + sidecar@,
            path@,
        ]);
        let arguments = flags.build();
        Work {
            artifact: obj_path,
            command: Some(Invocation { program: String::from_str("cl.exe"), arguments }),
        }
    }
}

/// A source whose descriptor is stale or missing is compiled: no
/// artifact of an earlier run is taken for it.
pub proof fn lemma_stale_descriptor_compiles(
    env: &BuildEnvironment,
    memo: Map<Seq<char>, u64>,
    source: Seq<char>,
    pch: PchOption,
)
    requires
        env.descriptor_stale(memo, source),
    ensures
        object_reusable(env, memo, source, pch) == Ok::<Option<Seq<char>>, BuildError>(None),
{
}

/// A source is compiled again when a file that its descriptor names is
/// newer than its object file, whatever the times of the other files are.
pub proof fn lemma_newer_header_recompiles(
    env: &BuildEnvironment,
    memo: Map<Seq<char>, u64>,
    source: Seq<char>,
    pch: PchOption,
    found: Seq<Seq<char>>,
    header: Seq<char>,
)
    requires
        env.discovered(memo, source) == Ok::<Option<Seq<Seq<char>>>, BuildError>(Some(found)),
        found.contains(header),
        dependency_time(env.memo_after_discovery(memo, source), env.disk@, header) > artifact_time(
            env.memo_after_discovery(memo, source),
            env.disk@,
            env.config_path@,
            seq![source] + found,
            earlier_object(env, source, pch),
        ),
    ensures
        object_reusable(env, memo, source, pch) == Ok::<Option<Seq<char>>, BuildError>(None),
{
    let deps = seq![source] + found;
    let object = earlier_object(env, source, pch);
    let k = found.lemma_contains_to_index(header);
    assert(deps[k + 1] == header);
    assert(seq![object][0] == object);
    lemma_newer_dependency_forces_rebuild(
        env.memo_after_discovery(memo, source),
        env.disk@,
        env.config_path@,
        deps,
        seq![object],
        header,
        object,
    );
}

/// The tokens that say what kind of product is linked.
pub open spec fn output_tokens(output_type: OutputType) -> Seq<Seq<char>> {
    match output_type {
        OutputType::GuiApp => seq!["/SUBSYSTEM:WINDOWS"@, "/manifest:embed"@, "/debug"@],
        OutputType::ConsoleApp => seq!["/SUBSYSTEM:CONSOLE"@, "/manifest:embed"@, "/debug"@],
        OutputType::DynamicLibrary => seq!["/DLL"@, "/manifest:embed"@, "/debug"@],
        OutputType::StaticLibrary => Seq::empty(),
    }
}

/// The tokens on the application manifest: the project's own where it
/// has one; else, for a windowed application, the common controls.
pub open spec fn manifest_tokens(manifest: Option<String>, output_type: OutputType) -> Seq<
    Seq<char>,
> {
    match manifest {
        Some(p) => seq!["/manifestinput:"@ + p@, "/manifestuac:no"@],
        None => if output_type == OutputType::GuiApp {
            seq![
                "/manifestdependency:type='win32' name='Microsoft.Windows.Common-Controls' version='6.0.0.0'\n                            processorArchitecture='*' publicKeyToken='6595b64144ccf1df' language='*'"@,
            ]
        } else {
            Seq::empty()
        },
    }
}

/// Each of `paths` with `prefix` before it.
pub open spec fn prefixed(prefix: Seq<char>, paths: Seq<String>) -> Seq<Seq<char>> {
    paths.map_values(|p: String| prefix + p@)
}

/// The link of the object files into the product of the project.
pub struct LinkTask {
    pub obj_paths: Vec<String>,
}

impl LinkTask {
    /// What the product is made from: the object files, the library
    /// files, and the application manifest where there is one.
    pub open spec fn inputs(&self, env: &BuildEnvironment) -> Seq<Seq<char>> {
        texts(self.obj_paths@) + texts(env.linker_lib_dependencies@) + (match env.manifest_path {
            Some(p) => seq![p@],
            None => Seq::empty(),
        })
    }

    /// The arguments that the linker or the librarian is run with.
    pub open spec fn link_line(&self, env: &BuildEnvironment) -> Seq<Seq<char>> {
        seq!["/nologo"@] + output_tokens(env.config.output_type) + manifest_tokens(
            env.manifest_path,
            env.config.output_type,
        ) + prefixed("/LIBPATH:"@, env.toolchain_paths.lib_paths@) + seq![
            "/out:"@ + env.product_of(),
        ] + texts(self.obj_paths@) + (if env.config.output_type == OutputType::StaticLibrary {
            Seq::empty()
        } else {
            texts(env.config.link_libraries@)
        })
    }
}

fn append_all(out: &mut Vec<String>, more: &Vec<String>)
    ensures
        texts(final(out)@) == texts(old(out)@) + texts(more@),
{
    let mut i: usize = 0;
    assert(texts(out@) =~= texts(old(out)@) + texts(more@.subrange(0, 0)));
    while i < more.len()
        invariant
            i <= more@.len(),
            texts(out@) == texts(old(out)@) + texts(more@.subrange(0, i as int)),
        decreases more@.len() - i,
    {
        let ghost before = out@;
        out.push(more[i].clone());
        i = i + 1;
        assert(texts(out@) =~= texts(before).push(more@[i - 1]@));
        assert(texts(more@.subrange(0, i as int)) =~= texts(more@.subrange(0, i - 1)).push(
            more@[i - 1]@,
        ));
        assert(texts(out@) =~= texts(old(out)@) + texts(more@.subrange(0, i as int)));
    }
    assert(more@.subrange(0, i as int) =~= more@);
}

impl Task for LinkTask {
    open spec fn fits(&self, env: &BuildEnvironment) -> bool {
        true
    }

    /// The product can be taken when none of its inputs, nor the project
    /// manifest, is newer than it.
    open spec fn reusable(&self, env: &BuildEnvironment, memo: Map<Seq<char>, u64>) -> Result<
        Option<Seq<char>>,
        BuildError,
    > {
        if rebuild_needed(
            memo,
            env.disk@,
            env.config_path@,
            self.inputs(env),
            seq![env.product_of()],
        ) {
            Ok(None)
        } else {
            Ok(Some(env.product_of()))
        }
    }

    open spec fn memo_after(&self, env: &BuildEnvironment, memo: Map<Seq<char>, u64>) -> Map<
        Seq<char>,
        u64,
    > {
        memo_after_decision(
            memo,
            env.disk@,
            env.config_path@,
            self.inputs(env),
            seq![env.product_of()],
            seq![env.product_of()],
        )
    }

    open spec fn artifact(&self, env: &BuildEnvironment) -> Seq<char> {
        env.product_of()
    }

    open spec fn command_line(&self, env: &BuildEnvironment) -> Option<
        (Seq<char>, Seq<Seq<char>>),
    > {
        Some(
            (
                if env.config.output_type == OutputType::StaticLibrary {
                    "lib.exe"@
                } else {
                    "link.exe"@
                },
                self.link_line(env),
            ),
        )
    }

    fn previous_valid_run(&self, env: &BuildEnvironment, oracle: &mut PathTimes) -> (r: Result<
        Option<String>,
        BuildError,
    >) {
        let mut dependencies: Vec<String> = Vec::new();
        append_all(&mut dependencies, &self.obj_paths);
        append_all(&mut dependencies, &env.linker_lib_dependencies);
        if let Some(manifest) = &env.manifest_path {
            let ghost before = dependencies@;
            dependencies.push(manifest.clone());
            assert(texts(dependencies@) =~= texts(before).push(manifest@));
        }
        assert(texts(dependencies@) =~= self.inputs(env));
        let product = join(env.artifact_path.as_str(), env.product_name().as_str());
        if should_build_artifact(
            oracle,
            &env.disk,
            env.config_path.as_str(),
            &dependencies,
            product.as_str(),
        ) {
            Ok(None)
        } else {
            Ok(Some(product))
        }
    }

    fn run_guaranteed(&self, env: &BuildEnvironment) -> (r: Work) {
        let is_static = matches!(env.config.output_type, OutputType::StaticLibrary);
        let mut args: Vec<String> = Vec::new();
        args.push(String::from_str("/nologo"));
        match env.config.output_type {
            OutputType::GuiApp => args.push(String::from_str("/SUBSYSTEM:WINDOWS")),
            OutputType::ConsoleApp => args.push(String::from_str("/SUBSYSTEM:CONSOLE")),
            OutputType::DynamicLibrary => args.push(String::from_str("/DLL")),
            OutputType::StaticLibrary => {},
        }
        if !is_static {
            args.push(String::from_str("/manifest:embed"));
            args.push(String::from_str("/debug"));
        }
        let ghost kind = seq!["/nologo"@] + output_tokens(env.config.output_type);
        assert(texts(args@) =~= kind);
        match &env.manifest_path {
            Some(manifest) => {
                args.push(concat2("/manifestinput:", manifest.as_str()));
                args.push(String::from_str("/manifestuac:no"));
            },
            None => {
                if matches!(env.config.output_type, OutputType::GuiApp) {
                    args.push(
                        String::from_str(
                            "/manifestdependency:type='win32' name='Microsoft.Windows.Common-Controls' version='6.0.0.0'\n                            processorArchitecture='*' publicKeyToken='6595b64144ccf1df' language='*'",
                        ),
                    );
                }
            },
        }
        let ghost declared = kind + manifest_tokens(env.manifest_path, env.config.output_type);
        assert(texts(args@) =~= declared);
        let mut i: usize = 0;
        let lib_paths = &env.toolchain_paths.lib_paths;
        assert(texts(args@) =~= declared + prefixed("/LIBPATH:"@, lib_paths@.subrange(0, 0)));
        while i < lib_paths.len()
            invariant
                i <= lib_paths@.len(),
                texts(args@) == declared + prefixed("/LIBPATH:"@, lib_paths@.subrange(0, i as int)),
            decreases lib_paths@.len() - i,
        {
            let ghost before = args@;
            args.push(concat2("/LIBPATH:", lib_paths[i].as_str()));
            i = i + 1;
            assert(texts(args@) =~= texts(before).push("/LIBPATH:"@ + lib_paths@[i - 1]@));
            assert(prefixed("/LIBPATH:"@, lib_paths@.subrange(0, i as int)) =~= prefixed(
                "/LIBPATH:"@,
                lib_paths@.subrange(0, i - 1),
            ).push("/LIBPATH:"@ + lib_paths@[i - 1]@));
            assert(texts(args@) =~= declared + prefixed(
                "/LIBPATH:"@,
                lib_paths@.subrange(0, i as int),
            ));
        }
        assert(lib_paths@.subrange(0, i as int) =~= lib_paths@);
        let product = join(env.artifact_path.as_str(), env.product_name().as_str());
        let ghost searched = declared + prefixed("/LIBPATH:"@, lib_paths@);
        let ghost before = args@;
        args.push(concat2("/out:", product.as_str()));
        assert(texts(args@) =~= searched + seq!["/out:"@ + env.product_of()]) by {
            assert(texts(args@) =~= texts(before).push("/out:"@ + product@));
        }
        append_all(&mut args, &self.obj_paths);
        if !is_static {
            append_all(&mut args, &env.config.link_libraries);
        }
        assert(texts(args@) =~= self.link_line(env));
        let program = if is_static {
            "lib.exe"
        } else {
            "link.exe"
        };
        Work {
            artifact: product,
            command: Some(Invocation { program: String::from_str(program), arguments: args }),
        }
    }
}

/// A product that is at least as new as every object file, every library
/// file, the application manifest and the project manifest is not linked
/// again.
pub proof fn lemma_up_to_date_product_is_kept(
    link: LinkTask,
    env: &BuildEnvironment,
    memo: Map<Seq<char>, u64>,
)
    requires
        forall|d: Seq<char>|
            link.inputs(env).contains(d) || d == env.config_path@ ==> #[trigger] dependency_time(
                memo,
                env.disk@,
                d,
            ) <= artifact_time(
                memo,
                env.disk@,
                env.config_path@,
                link.inputs(env),
                env.product_of(),
            ),
    ensures
        link.reusable(env, memo) == Ok::<Option<Seq<char>>, BuildError>(Some(env.product_of())),
{
    let product = env.product_of();
    assert forall|d: Seq<char>, a: Seq<char>|
        (link.inputs(env).contains(d) || d == env.config_path@) && seq![product].contains(
            a,
        ) implies #[trigger] dependency_time(memo, env.disk@, d) <= #[trigger] artifact_time(
        memo,
        env.disk@,
        env.config_path@,
        link.inputs(env),
        a,
    ) by {
        assert(a == seq![product][0]);
    }
    lemma_up_to_date_is_kept(memo, env.disk@, env.config_path@, link.inputs(env), seq![product]);
}

/// An object file that is at least as new as its source, every file
/// that the source's descriptor names and the project manifest is not
/// compiled again, where the descriptor is not stale.
pub proof fn lemma_up_to_date_object_is_kept(
    env: &BuildEnvironment,
    memo: Map<Seq<char>, u64>,
    source: Seq<char>,
    pch: PchOption,
    found: Seq<Seq<char>>,
)
    requires
        !left_to_pch_compile(env, source, pch),
        env.discovered(memo, source) == Ok::<Option<Seq<Seq<char>>>, BuildError>(Some(found)),
        forall|d: Seq<char>|
            (seq![source] + found).contains(d) || d == env.config_path@
                ==> #[trigger] dependency_time(
                env.memo_after_discovery(memo, source),
                env.disk@,
                d,
            ) <= artifact_time(
                env.memo_after_discovery(memo, source),
                env.disk@,
                env.config_path@,
                seq![source] + found,
                earlier_object(env, source, pch),
            ),
    ensures
        object_reusable(env, memo, source, pch) == Ok::<Option<Seq<char>>, BuildError>(
            Some(earlier_object(env, source, pch)),
        ),
{
    let object = earlier_object(env, source, pch);
    let m1 = env.memo_after_discovery(memo, source);
    let deps = seq![source] + found;
    assert forall|d: Seq<char>, a: Seq<char>|
        (deps.contains(d) || d == env.config_path@) && seq![object].contains(
            a,
        ) implies #[trigger] dependency_time(m1, env.disk@, d) <= #[trigger] artifact_time(
        m1,
        env.disk@,
        env.config_path@,
        deps,
        a,
    ) by {
        assert(a == seq![object][0]);
    }
    lemma_up_to_date_is_kept(m1, env.disk@, env.config_path@, deps, seq![object]);
}

} // verus!
