//! The environment of one build of one project for one target: where
//! things lie, what was read from disk, and the decisions that follow.

use vstd::prelude::*;
use vstd::string::*;
use crate::text::texts;
use crate::cmd_options::BuildOptions;
use crate::edit_times::{
    dependency_time,
    lemma_newer_dependency_forces_rebuild,
    memo_after_decision,
    rebuild_needed,
    should_build_artifact,
    PathTimes,
};
use crate::json::{descriptor_of, parse_descriptor};
use crate::paths::{artifact_path, artifact_path_of, join, joined, parent, parent_of, under};
use crate::proj_config::{OutputType, ProjectConfig};
use crate::text::{concat2, str_eq};
use crate::toolchain_paths::ToolchainPaths;

verus! {

/// What went wrong with a file.
#[derive(Clone, Copy, PartialEq, Eq, Debug, Structural)]
pub enum IoKind {
    NotFound,
    PermissionDenied,
    Other,
}

/// Why a build failed.
#[derive(Clone, Copy, PartialEq, Eq, Debug, Structural)]
pub enum BuildError {
    NoSrcDirectory,
    CantReadSrcDirectory,
    DiscoverSrcDepsError,
    CompilerError,
    LinkerError,
    IoError(IoKind),
}

impl BuildError {
    /// The sentence that tells the user of the failure.
    pub open spec fn message_of(self) -> Seq<char> {
        match self {
            BuildError::NoSrcDirectory => "Build failed: src directory does not exist."@,
            BuildError::CantReadSrcDirectory => "Build failed: unable to read src directory."@,
            BuildError::DiscoverSrcDepsError => "Build failed: unable to discover source dependencies."@,
            BuildError::CompilerError => "Build failed: unable to compile."@,
            BuildError::LinkerError => "Build failed: unable to link."@,
            BuildError::IoError(IoKind::NotFound) => "Build failed: there was an io error: NotFound."@,
            BuildError::IoError(IoKind::PermissionDenied) => "Build failed: there was an io error: PermissionDenied."@,
            BuildError::IoError(IoKind::Other) => "Build failed: there was an io error: Other."@,
        }
    }

    /// The sentence that tells the user of the failure.
    pub fn message(&self) -> (r: &'static str)
        ensures
            r@ == self.message_of(),
    {
        match self {
            BuildError::NoSrcDirectory => "Build failed: src directory does not exist.",
            BuildError::CantReadSrcDirectory => "Build failed: unable to read src directory.",
            BuildError::DiscoverSrcDepsError => "Build failed: unable to discover source dependencies.",
            BuildError::CompilerError => "Build failed: unable to compile.",
            BuildError::LinkerError => "Build failed: unable to link.",
            BuildError::IoError(IoKind::NotFound) => "Build failed: there was an io error: NotFound.",
            BuildError::IoError(IoKind::PermissionDenied) => "Build failed: there was an io error: PermissionDenied.",
            BuildError::IoError(IoKind::Other) => "Build failed: there was an io error: Other.",
        }
    }
}

/// How a compile relates to the precompiled header.
#[derive(Clone, Copy, PartialEq, Eq, Debug, Structural)]
pub enum PchOption {
    GeneratePch,
    UsePch,
    NoPch,
}

/// Collects the files that an artifact depends on.
pub struct DependencyBuilder {
    dependencies: Vec<String>,
}

impl Default for DependencyBuilder {
    fn default() -> (r: Self)
        ensures
            r.paths() == Seq::<Seq<char>>::empty(),
    {
        DependencyBuilder::new()
    }
}

impl DependencyBuilder {
    /// The files held, in order.
    pub closed spec fn paths(&self) -> Seq<Seq<char>> {
        texts(self.dependencies@)
    }

    /// A builder that holds no file yet.
    pub fn new() -> (r: Self)
        ensures
            r.paths() == Seq::<Seq<char>>::empty(),
    {
        let r = DependencyBuilder { dependencies: Vec::new() };
        assert(r.paths() =~= Seq::<Seq<char>>::empty());
        r
    }

    /// Adds one file.
    pub fn file(self, path: &str) -> (r: Self)
        ensures
            r.paths() == self.paths().push(path@),
    {
        let mut dependencies = self.dependencies;
        dependencies.push(String::from_str(path));
        assert(texts(dependencies@) =~= texts(self.dependencies@).push(path@));
        DependencyBuilder { dependencies }
    }

    /// Adds files, in their order.
    pub fn files(self, files: &Vec<String>) -> (r: Self)
        ensures
            r.paths() == self.paths() + texts(files@),
    {
        let mut dependencies = self.dependencies;
        let mut i: usize = 0;
        assert(texts(dependencies@) =~= texts(self.dependencies@) + texts(files@.subrange(0, 0)));
        while i < files.len()
            invariant
                i <= files@.len(),
                texts(dependencies@) == texts(self.dependencies@) + texts(
                    files@.subrange(0, i as int),
                ),
            decreases files@.len() - i,
        {
            let ghost before = dependencies@;
            dependencies.push(files[i].clone());
            i = i + 1;
            assert(texts(dependencies@) =~= texts(before).push(files@[i - 1]@));
            assert(texts(files@.subrange(0, i as int)) =~= texts(
                files@.subrange(0, i - 1),
            ).push(files@[i - 1]@));
            assert(texts(dependencies@) =~= texts(self.dependencies@) + texts(
                files@.subrange(0, i as int),
            ));
        }
        assert(files@.subrange(0, i as int) =~= files@);
        DependencyBuilder { dependencies }
    }

    /// The files that were added, in the order they were added.
    pub fn build(self) -> (r: Vec<String>)
        ensures
            texts(r@) == self.paths(),
    {
        self.dependencies
    }
}

/// What the compiler recorded of one translation unit: the headers it
/// read and the precompiled header it was given.
#[derive(Clone, Debug)]
pub struct DependencyDescriptor {
    pub includes: Vec<String>,
    pub pch: Option<String>,
}

/// The files that a descriptor names: the headers in order, then the
/// precompiled header.
pub open spec fn named_paths(includes: Seq<Seq<char>>, pch: Option<Seq<char>>) -> Seq<Seq<char>> {
    match pch {
        Some(pch) => includes.push(pch),
        None => includes,
    }
}

impl DependencyDescriptor {
    /// The header that was precompiled, as a text.
    pub open spec fn pch_text(&self) -> Option<Seq<char>> {
        match self.pch {
            Some(p) => Some(p@),
            None => None,
        }
    }

    /// The files named: the headers in order, then the precompiled header.
    pub open spec fn paths(&self) -> Seq<Seq<char>> {
        named_paths(texts(self.includes@), self.pch_text())
    }
}

/// The descriptor file of one source, as read.
#[derive(Clone, Debug)]
pub struct SourceDescriptor {
    pub source: String,
    /// What the file holds; `None` where there is no such file.
    pub text: Option<String>,
}

/// The index of the first descriptor from `i` on that belongs to `source`.
pub open spec fn descriptor_index(
    descriptors: Seq<SourceDescriptor>,
    source: Seq<char>,
    i: int,
) -> Option<int>
    decreases descriptors.len() - i,
{
    if i < 0 || i >= descriptors.len() {
        None
    } else if descriptors[i].source@ == source {
        Some(i)
    } else {
        descriptor_index(descriptors, source, i + 1)
    }
}

/// Where things lie for one build, and what was read from disk for it.
pub struct BuildEnvironment {
    pub config_path: String,
    pub manifest_path: Option<String>,
    pub linker_lib_dependencies: Vec<String>,
    pub toolchain_paths: ToolchainPaths,
    pub config: ProjectConfig,
    pub build_options: BuildOptions,
    pub definitions: Vec<(String, String)>,
    pub project_path: String,
    pub artifact_path: String,
    pub src_dir_path: String,
    pub assets_dir_path: String,
    pub objs_path: String,
    pub src_deps_path: String,
    pub dependency_headers_path: String,
    pub warning_cache_path: String,
    /// The last-write times of the files that exist.
    pub disk: PathTimes,
    /// The descriptor files that were read.
    pub descriptors: Vec<SourceDescriptor>,
}

impl BuildEnvironment {
    /// The paths of the environment are those that follow from the
    /// manifest's path and the artifact directory.
    pub open spec fn laid_out(&self, has_manifest: bool) -> bool {
        &&& self.project_path@ == parent_of(self.config_path@)
        &&& match self.manifest_path {
            Some(p) => has_manifest && p@ == joined(self.project_path@, "windows_manifest.xml"@),
            None => !has_manifest,
        }
        &&& self.src_dir_path@ == joined(self.project_path@, "src"@)
        &&& self.assets_dir_path@ == joined(self.project_path@, "assets"@)
        &&& self.objs_path@ == joined(self.artifact_path@, "obj"@)
        &&& self.src_deps_path@ == joined(self.artifact_path@, "src_deps"@)
        &&& self.dependency_headers_path@ == joined(self.artifact_path@, "dependency_headers"@)
        &&& self.warning_cache_path@ == joined(self.artifact_path@, "warning_cache"@)
    }

    /// Lays out the environment of a build. `has_manifest` says whether
    /// the project holds a `windows_manifest.xml`, `linker_lib_dependencies`
    /// are the library files that the project's link libraries resolved to.
    pub fn new(
        config: ProjectConfig,
        config_path: &str,
        build_options: BuildOptions,
        toolchain_paths: ToolchainPaths,
        definitions: Vec<(String, String)>,
        artifact_path: &str,
        has_manifest: bool,
        linker_lib_dependencies: Vec<String>,
        disk: PathTimes,
        descriptors: Vec<SourceDescriptor>,
    ) -> (r: BuildEnvironment)
        ensures
            r.laid_out(has_manifest),
            r.config_path@ == config_path@,
            r.artifact_path@ == artifact_path@,
            r.config == config,
            r.build_options == build_options,
            r.toolchain_paths == toolchain_paths,
            r.definitions == definitions,
            r.linker_lib_dependencies == linker_lib_dependencies,
            r.disk == disk,
            r.descriptors == descriptors,
    {
        let project_path = parent(config_path);
        let manifest_path = if has_manifest {
            Some(join(project_path.as_str(), "windows_manifest.xml"))
        } else {
            None
        };
        let src_dir_path = join(project_path.as_str(), "src");
        let assets_dir_path = join(project_path.as_str(), "assets");
        BuildEnvironment {
            config_path: String::from_str(config_path),
            manifest_path,
            linker_lib_dependencies,
            toolchain_paths,
            config,
            build_options,
            definitions,
            project_path,
            artifact_path: String::from_str(artifact_path),
            src_dir_path,
            assets_dir_path,
            objs_path: join(artifact_path, "obj"),
            src_deps_path: join(artifact_path, "src_deps"),
            dependency_headers_path: join(artifact_path, "dependency_headers"),
            warning_cache_path: join(artifact_path, "warning_cache"),
            disk,
            descriptors,
        }
    }

    /// The artifact for `src_path` below `output_dir`.
    pub open spec fn artifact_of(
        &self,
        src_path: Seq<char>,
        output_dir: Seq<char>,
        extension: Seq<char>,
    ) -> Seq<char> {
        artifact_path_of(src_path, self.src_dir_path@, output_dir, extension)
    }

    /// Goes from a source file to an artifact below `output_dir`
    /// (`src/hello/world.cpp` to `obj/hello/world.obj`).
    pub fn get_artifact_path(&self, src_path: &str, output_dir: &str, extension: &str) -> (r:
        String)
        requires
            under(src_path@, self.src_dir_path@),
        ensures
            r@ == self.artifact_of(src_path@, output_dir@, extension@),
    {
        match artifact_path(src_path, self.src_dir_path.as_str(), output_dir, extension) {
            Some(p) => p,
            None => unreached(),
        }
    }

    /// The descriptor file of `source`.
    pub open spec fn sidecar_of(&self, source: Seq<char>) -> Seq<char> {
        self.artifact_of(source, self.src_deps_path@, "json"@)
    }

    /// The descriptor of `source` is older than the source or the
    /// manifest, or is not there.
    pub open spec fn descriptor_stale(&self, memo: Map<Seq<char>, u64>, source: Seq<char>) -> bool {
        rebuild_needed(
            memo,
            self.disk@,
            self.config_path@,
            seq![source],
            seq![self.sidecar_of(source)],
        )
    }

    /// The oracle's memo after the descriptor of `source` was looked at.
    pub open spec fn memo_after_discovery(
        &self,
        memo: Map<Seq<char>, u64>,
        source: Seq<char>,
    ) -> Map<Seq<char>, u64> {
        memo_after_decision(
            memo,
            self.disk@,
            self.config_path@,
            seq![source],
            seq![self.sidecar_of(source)],
            seq![self.sidecar_of(source)],
        )
    }

    /// What `source` depends on beside itself, as far as it is known: the
    /// files of its descriptor, unless the descriptor is stale; an error
    /// where a descriptor that is not stale cannot be had.
    pub open spec fn discovered(&self, memo: Map<Seq<char>, u64>, source: Seq<char>) -> Result<
        Option<Seq<Seq<char>>>,
        BuildError,
    > {
        if self.descriptor_stale(memo, source) {
            Ok(None)
        } else {
            match descriptor_index(self.descriptors@, source, 0) {
                None => Err(BuildError::IoError(IoKind::NotFound)),
                Some(i) => match self.descriptors@[i].text {
                    None => Err(BuildError::IoError(IoKind::NotFound)),
                    Some(text) => match descriptor_of(text@) {
                        None => Err(BuildError::DiscoverSrcDepsError),
                        Some(named) => Ok(Some(named_paths(named.0, named.1))),
                    },
                },
            }
        }
    }

    fn descriptor_position(&self, source: &str) -> (r: Option<usize>)
        ensures
            match r {
                Some(i) => descriptor_index(self.descriptors@, source@, 0) == Some(i as int) && i
                    < self.descriptors@.len(),
                None => descriptor_index(self.descriptors@, source@, 0).is_none(),
            },
    {
        let mut i: usize = 0;
        while i < self.descriptors.len()
            invariant
                i <= self.descriptors@.len(),
                descriptor_index(self.descriptors@, source@, 0) == descriptor_index(
                    self.descriptors@,
                    source@,
                    i as int,
                ),
            decreases self.descriptors@.len() - i,
        {
            if str_eq(self.descriptors[i].source.as_str(), source) {
                return Some(i);
            }
            i = i + 1;
        }
        None
    }

    /// Finds what `path` depends on beside itself. A stale or missing
    /// descriptor gives `None`: the source must then be compiled, whatever
    /// it includes. A descriptor that is not stale is read; one that holds
    /// no descriptor is an error.
    pub fn discover_src_deps(&self, oracle: &mut PathTimes, path: &str) -> (r: Result<
        Option<Vec<String>>,
        BuildError,
    >)
        requires
            under(path@, self.src_dir_path@),
        ensures
            final(oracle)@ == self.memo_after_discovery(old(oracle)@, path@),
            match r {
                Ok(Some(v)) => self.discovered(old(oracle)@, path@) == Ok::<
                    Option<Seq<Seq<char>>>,
                    BuildError,
                >(Some(texts(v@))),
                Ok(None) => self.discovered(old(oracle)@, path@) == Ok::<
                    Option<Seq<Seq<char>>>,
                    BuildError,
                >(None),
                Err(e) => self.discovered(old(oracle)@, path@) == Err::<
                    Option<Seq<Seq<char>>>,
                    BuildError,
                >(e),
            },
    {
        let sidecar = self.get_artifact_path(path, self.src_deps_path.as_str(), "json");
        let sources: Vec<String> = vec![String::from_str(path)];
        assert(texts(sources@) =~= seq![path@]);
        if should_build_artifact(
            oracle,
            &self.disk,
            self.config_path.as_str(),
            &sources,
            sidecar.as_str(),
        ) {
            return Ok(None);
        }
        match self.descriptor_position(path) {
            None => Err(BuildError::IoError(IoKind::NotFound)),
            Some(i) => match &self.descriptors[i].text {
                None => Err(BuildError::IoError(IoKind::NotFound)),
                Some(text) => match parse_descriptor(text.as_str()) {
                    None => Err(BuildError::DiscoverSrcDepsError),
                    Some(d) => {
                        let mut dependencies = DependencyBuilder::new().files(&d.includes);
                        if let Some(pch) = &d.pch {
                            dependencies = dependencies.file(pch.as_str());
                        }
                        let out = dependencies.build();
                        assert(texts(out@) =~= d.paths());
                        Ok(Some(out))
                    },
                },
            },
        }
    }

    /// The file name of the linked product.
    pub open spec fn product_name_of(&self) -> Seq<char> {
        self.config.name@ + "."@ + self.config.output_type.extension_of()
    }

    /// Where the linked product lies.
    pub open spec fn product_of(&self) -> Seq<char> {
        joined(self.artifact_path@, self.product_name_of())
    }

    /// Where the debugging symbols of the product lie.
    pub open spec fn symbols_of(&self) -> Seq<char> {
        joined(self.artifact_path@, self.config.name@ + ".pdb"@)
    }

    /// The file name of the linked product: the project's name with
    /// `exe`, `dll` or `lib`.
    pub fn product_name(&self) -> (r: String)
        ensures
            r@ == self.product_name_of(),
    {
        let mut name = concat2(self.config.name.as_str(), ".");
        name.append(self.config.output_type.product_extension());
        name
    }

    /// The files that make up the package: the product, its symbols, and
    /// the assets directory where the project has one and is no static library.
    pub fn package_file_paths(&self, has_assets: bool) -> (r: Vec<String>)
        ensures
            texts(r@) == (if has_assets && self.config.output_type != OutputType::StaticLibrary {
                seq![self.product_of(), self.symbols_of(), self.assets_dir_path@]
            } else {
                seq![self.product_of(), self.symbols_of()]
            }),
    {
        let product = join(self.artifact_path.as_str(), self.product_name().as_str());
        let symbols = join(
            self.artifact_path.as_str(),
            concat2(self.config.name.as_str(), ".pdb").as_str(),
        );
        let mut out: Vec<String> = Vec::new();
        out.push(product);
        out.push(symbols);
        if has_assets && !matches!(self.config.output_type, OutputType::StaticLibrary) {
            out.push(self.assets_dir_path.clone());
        }
        assert(texts(out@) =~= (if has_assets && self.config.output_type
            != OutputType::StaticLibrary {
            seq![self.product_of(), self.symbols_of(), self.assets_dir_path@]
        } else {
            seq![self.product_of(), self.symbols_of()]
        }));
        out
    }

    /// An assets directory is packaged with an application or a dynamic
    /// library; beside a static library it is ignored with a warning.
    pub fn assets_ignored(&self, has_assets: bool) -> (r: bool)
        ensures
            r == (has_assets && self.config.output_type == OutputType::StaticLibrary),
    {
        has_assets && matches!(self.config.output_type, OutputType::StaticLibrary)
    }
}

/// A source whose descriptor is missing has a stale descriptor, and so is
/// compiled, as soon as the source or the manifest has a time after 0: a
/// descriptor that is neither on disk nor held by the oracle counts as
/// oldest.
pub proof fn lemma_missing_descriptor_is_stale(
    env: &BuildEnvironment,
    memo: Map<Seq<char>, u64>,
    source: Seq<char>,
)
    requires
        !env.disk@.contains_key(env.sidecar_of(source)),
        !memo.contains_key(env.sidecar_of(source)),
        env.sidecar_of(source) != source,
        env.sidecar_of(source) != env.config_path@,
        dependency_time(memo, env.disk@, source) > 0 || dependency_time(
            memo,
            env.disk@,
            env.config_path@,
        ) > 0,
    ensures
        env.descriptor_stale(memo, source),
{
    let sidecar = env.sidecar_of(source);
    let deps = seq![source];
    assert(deps.contains(source)) by {
        assert(deps[0] == source);
    }
    assert(seq![sidecar].contains(sidecar)) by {
        assert(seq![sidecar][0] == sidecar);
    }
    assert(!deps.push(env.config_path@).contains(sidecar));
    if dependency_time(memo, env.disk@, source) > 0 {
        lemma_newer_dependency_forces_rebuild(
            memo,
            env.disk@,
            env.config_path@,
            deps,
            seq![sidecar],
            source,
            sidecar,
        );
    } else {
        lemma_newer_dependency_forces_rebuild(
            memo,
            env.disk@,
            env.config_path@,
            deps,
            seq![sidecar],
            env.config_path@,
            sidecar,
        );
    }
}

} // verus!
