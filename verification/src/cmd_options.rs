//! What the command line asks for, and which requests are refused.

use vstd::prelude::*;
use crate::proj_config::{contains_platform, OutputType, Platform};
use crate::text::str_eq;

verus! {

/// Whether to build with debugging aids or with optimisation.
#[derive(Clone, Copy, PartialEq, Eq, Debug, Structural)]
pub enum CompileMode {
    Debug,
    Release,
}

impl CompileMode {
    /// The mode that `s` names.
    pub open spec fn parse(s: Seq<char>) -> Option<CompileMode> {
        if s == "debug"@ {
            Some(CompileMode::Debug)
        } else if s == "release"@ {
            Some(CompileMode::Release)
        } else {
            None
        }
    }

    /// Reads `debug` or `release`.
    pub fn from_str(s: &str) -> (r: Result<CompileMode, &'static str>)
        ensures
            match r {
                Ok(m) => Self::parse(s@) == Some(m),
                Err(e) => Self::parse(s@).is_none() && e@ == "no match"@,
            },
    {
        if str_eq(s, "debug") {
            Ok(CompileMode::Debug)
        } else if str_eq(s, "release") {
            Ok(CompileMode::Release)
        } else {
            Err("no match")
        }
    }

    /// The name of the mode's artifact directory.
    pub open spec fn dir_of(self) -> Seq<char> {
        match self {
            CompileMode::Debug => "debug"@,
            CompileMode::Release => "release"@,
        }
    }

    /// The name of the mode's artifact directory.
    pub fn dir_name(self) -> (r: &'static str)
        ensures
            r@ == self.dir_of(),
    {
        match self {
            CompileMode::Debug => "debug",
            CompileMode::Release => "release",
        }
    }
}

/// The target as written on the command line.
#[derive(Clone, Copy, PartialEq, Eq, Debug, Structural)]
pub enum RawTarget {
    Win32,
    Win64,
    All,
    Host,
}

impl RawTarget {
    /// The target that `s` names.
    pub open spec fn parse(s: Seq<char>) -> Option<RawTarget> {
        if s == "all"@ {
            Some(RawTarget::All)
        } else if s == "host"@ {
            Some(RawTarget::Host)
        } else if s == "win32"@ {
            Some(RawTarget::Win32)
        } else if s == "win64"@ {
            Some(RawTarget::Win64)
        } else {
            None
        }
    }

    /// Reads `all`, `host`, `win32` or `win64`.
    pub fn from_str(s: &str) -> (r: Result<RawTarget, &'static str>)
        ensures
            match r {
                Ok(t) => Self::parse(s@) == Some(t),
                Err(e) => Self::parse(s@).is_none() && e@ == "no match"@,
            },
    {
        if str_eq(s, "all") {
            Ok(RawTarget::All)
        } else if str_eq(s, "host") {
            Ok(RawTarget::Host)
        } else if str_eq(s, "win32") {
            Ok(RawTarget::Win32)
        } else if str_eq(s, "win64") {
            Ok(RawTarget::Win64)
        } else {
            Err("no match")
        }
    }
}

/// The target of a build: one platform, every supported one, or the host's.
#[derive(Clone, Copy, PartialEq, Eq, Debug, Structural)]
pub enum Target {
    Platform(Platform),
    All,
    Host,
}

impl Target {
    /// The target that a target of the command line stands for.
    pub open spec fn of_raw(target: RawTarget) -> Target {
        match target {
            RawTarget::Win32 => Target::Platform(Platform::Win32),
            RawTarget::Win64 => Target::Platform(Platform::Win64),
            RawTarget::All => Target::All,
            RawTarget::Host => Target::Host,
        }
    }
}

impl From<RawTarget> for Target {
    fn from(target: RawTarget) -> (r: Target) {
        match target {
            RawTarget::Win32 => Target::Platform(Platform::Win32),
            RawTarget::Win64 => Target::Platform(Platform::Win64),
            RawTarget::All => Target::All,
            RawTarget::Host => Target::Host,
        }
    }
}

impl vstd::std_specs::convert::FromSpecImpl<RawTarget> for Target {
    open spec fn obeys_from_spec() -> bool {
        true
    }

    open spec fn from_spec(target: RawTarget) -> Target {
        Target::of_raw(target)
    }
}

/// The options shared by the subcommands that build.
#[derive(Clone, Copy, PartialEq, Eq, Debug, Structural)]
pub struct BuildOptions {
    pub compile_mode: CompileMode,
    pub target: RawTarget,
}

/// What the program is asked to do.
#[derive(Clone, Debug)]
pub enum Subcommand {
    Init { project_root: Option<String> },
    Build(BuildOptions),
    Run(BuildOptions),
    Debug(BuildOptions),
    Clean,
    Kill,
}

/// The parsed command line.
#[derive(Clone, Debug)]
pub struct CmdOptions {
    pub sub_command: Subcommand,
}

/// The subcommands that build; two of them also launch the product.
#[derive(Clone, Copy, PartialEq, Eq, Debug, Structural)]
pub enum BuildAction {
    Build,
    Run,
    Debug,
}

impl BuildAction {
    /// The action launches the product after building it.
    pub open spec fn launches(self) -> bool {
        self == BuildAction::Run || self == BuildAction::Debug
    }
}

/// Why a build request is refused before anything is built.
#[derive(Clone, Copy, PartialEq, Eq, Debug, Structural)]
pub enum RequestError {
    /// `run` or `debug` on a project that produces a library.
    LaunchOfLibrary,
    /// `run` or `debug` with the target `all`.
    LaunchOfAllTargets,
    /// The named platform is not among the project's supported targets.
    UnsupportedTarget,
    /// `run` or `debug` for a target whose products the host cannot run.
    HostCannotRun,
    /// The host cannot run any supported target, and more than one is supported.
    AmbiguousTarget,
}

/// The first element of `targets` that the host can run.
pub open spec fn first_runnable_from(host: Platform, targets: Seq<Platform>, i: int) -> Option<
    Platform,
>
    decreases targets.len() - i,
{
    if i < 0 || i >= targets.len() {
        None
    } else if host.runs(targets[i]) {
        Some(targets[i])
    } else {
        first_runnable_from(host, targets, i + 1)
    }
}

/// The platforms to build for, or the reason why the request is refused.
pub open spec fn targets_for(
    action: BuildAction,
    target: Target,
    host: Platform,
    output_type: OutputType,
    supported: Seq<Platform>,
) -> Result<Seq<Platform>, RequestError> {
    if output_type.is_library() && action.launches() {
        Err(RequestError::LaunchOfLibrary)
    } else {
        match target {
            Target::All => if action.launches() {
                Err(RequestError::LaunchOfAllTargets)
            } else {
                Ok(supported)
            },
            Target::Host => if supported.contains(host) {
                Ok(seq![host])
            } else {
                match first_runnable_from(host, supported, 0) {
                    Some(p) => Ok(seq![p]),
                    None => if action.launches() {
                        Err(RequestError::HostCannotRun)
                    } else if supported.len() == 1 {
                        Ok(seq![supported[0]])
                    } else {
                        Err(RequestError::AmbiguousTarget)
                    },
                }
            },
            Target::Platform(p) => if !supported.contains(p) {
                Err(RequestError::UnsupportedTarget)
            } else if !host.runs(p) && action.launches() {
                Err(RequestError::HostCannotRun)
            } else {
                Ok(seq![p])
            },
        }
    }
}

fn first_runnable(host: Platform, supported: &Vec<Platform>) -> (r: Option<Platform>)
    ensures
        r == first_runnable_from(host, supported@, 0),
{
    let mut i: usize = 0;
    while i < supported.len()
        invariant
            i <= supported@.len(),
            first_runnable_from(host, supported@, 0) == first_runnable_from(
                host,
                supported@,
                i as int,
            ),
        decreases supported@.len() - i,
    {
        if host.is_backwards_compatible_with(supported[i]) {
            return Some(supported[i]);
        }
        i = i + 1;
    }
    None
}

/// Decides for which platforms a request builds. Launching is refused for
/// libraries, for the target `all`, and for targets the host cannot run; a
/// named platform must be supported; for the target `host` the host itself
/// is taken if supported, else the first supported target that it can run,
/// else the only supported target when nothing is to be launched.
pub fn select_targets(
    action: BuildAction,
    target: Target,
    host: Platform,
    output_type: OutputType,
    supported: &Vec<Platform>,
) -> (r: Result<Vec<Platform>, RequestError>)
    ensures
        match r {
            Ok(v) => targets_for(action, target, host, output_type, supported@) == Ok::<
                Seq<Platform>,
                RequestError,
            >(v@),
            Err(e) => targets_for(action, target, host, output_type, supported@) == Err::<
                Seq<Platform>,
                RequestError,
            >(e),
        },
{
    let launches = matches!(action, BuildAction::Run | BuildAction::Debug);
    if matches!(output_type, OutputType::DynamicLibrary | OutputType::StaticLibrary) && launches {
        return Err(RequestError::LaunchOfLibrary);
    }
    match target {
        Target::All => {
            if launches {
                Err(RequestError::LaunchOfAllTargets)
            } else {
                let mut out: Vec<Platform> = Vec::new();
                let mut i: usize = 0;
                while i < supported.len()
                    invariant
                        i <= supported@.len(),
                        out@ == supported@.subrange(0, i as int),
                    decreases supported@.len() - i,
                {
                    out.push(supported[i]);
                    i = i + 1;
                    assert(out@ =~= supported@.subrange(0, i as int));
                }
                assert(supported@.subrange(0, supported@.len() as int) =~= supported@);
                Ok(out)
            }
        },
        Target::Host => {
            if contains_platform(supported, host) {
                let out: Vec<Platform> = vec![host];
                assert(out@ =~= seq![host]);
                Ok(out)
            } else {
                match first_runnable(host, supported) {
                    Some(p) => {
                        let out: Vec<Platform> = vec![p];
                        assert(out@ =~= seq![p]);
                        Ok(out)
                    },
                    None => {
                        if launches {
                            Err(RequestError::HostCannotRun)
                        } else if supported.len() == 1 {
                            let out: Vec<Platform> = vec![supported[0]];
                            assert(out@ =~= seq![supported@[0]]);
                            Ok(out)
                        } else {
                            Err(RequestError::AmbiguousTarget)
                        }
                    },
                }
            }
        },
        Target::Platform(p) => {
            if !contains_platform(supported, p) {
                Err(RequestError::UnsupportedTarget)
            } else if !host.is_backwards_compatible_with(p) && launches {
                Err(RequestError::HostCannotRun)
            } else {
                let out: Vec<Platform> = vec![p];
                assert(out@ =~= seq![p]);
                Ok(out)
            }
        },
    }
}

} // verus!
