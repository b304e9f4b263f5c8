//! The project manifest and the platforms a project can be built for.

use vstd::prelude::*;

verus! {

/// A revision of the C++ language.
#[derive(Clone, Copy, PartialEq, Eq, PartialOrd, Ord, Debug, Structural)]
pub enum CxxStandard {
    Cxx11,
    Cxx14,
    Cxx17,
    Cxx20,
}

impl CxxStandard {
    /// The number by which standards are ordered.
    pub open spec fn number(self) -> int {
        match self {
            CxxStandard::Cxx11 => 11,
            CxxStandard::Cxx14 => 14,
            CxxStandard::Cxx17 => 17,
            CxxStandard::Cxx20 => 20,
        }
    }

    /// The two-digit number of the standard.
    pub fn numeric_value(self) -> (r: u8)
        ensures
            r == self.number(),
    {
        match self {
            CxxStandard::Cxx11 => 11,
            CxxStandard::Cxx14 => 14,
            CxxStandard::Cxx17 => 17,
            CxxStandard::Cxx20 => 20,
        }
    }
}

impl Default for CxxStandard {
    fn default() -> (r: Self)
        ensures
            r == CxxStandard::Cxx20,
    {
        CxxStandard::Cxx20
    }
}

/// The language options a project is compiled with.
#[derive(Clone, Copy, PartialEq, Eq, Debug, Structural)]
pub struct CxxOptions {
    pub rtti: bool,
    pub async_await: bool,
    pub standard: CxxStandard,
}

impl CxxOptions {
    /// A dependency with options `self` can be used by a root with options
    /// `other`: both switches agree and the dependency's standard is not
    /// newer than the root's.
    pub open spec fn compatible(self, other: CxxOptions) -> bool {
        &&& self.rtti == other.rtti
        &&& self.async_await == other.async_await
        &&& self.standard.number() <= other.standard.number()
    }

    /// Whether a dependency with these options can be used by a root with the options `other`.
    pub fn is_compatible_with(&self, other: &CxxOptions) -> (r: bool)
        ensures
            r == self.compatible(*other),
    {
        self.rtti == other.rtti && self.async_await == other.async_await
            && self.standard.numeric_value() <= other.standard.numeric_value()
    }
}

impl Default for CxxOptions {
    fn default() -> (r: Self)
        ensures
            r == (CxxOptions { rtti: false, async_await: true, standard: CxxStandard::Cxx20 }),
    {
        CxxOptions { rtti: false, async_await: true, standard: CxxStandard::Cxx20 }
    }
}

/// What a project's build produces.
#[derive(Clone, Copy, PartialEq, Eq, Debug, Structural)]
pub enum OutputType {
    GuiApp,
    ConsoleApp,
    DynamicLibrary,
    StaticLibrary,
}

impl OutputType {
    /// Libraries cannot be launched.
    pub open spec fn is_library(self) -> bool {
        self == OutputType::DynamicLibrary || self == OutputType::StaticLibrary
    }

    /// The file extension of the linked product.
    pub open spec fn extension_of(self) -> Seq<char> {
        match self {
            OutputType::ConsoleApp | OutputType::GuiApp => "exe"@,
            OutputType::DynamicLibrary => "dll"@,
            OutputType::StaticLibrary => "lib"@,
        }
    }

    /// The file extension of the linked product.
    pub fn product_extension(self) -> (r: &'static str)
        ensures
            r@ == self.extension_of(),
    {
        match self {
            OutputType::ConsoleApp | OutputType::GuiApp => "exe",
            OutputType::DynamicLibrary => "dll",
            OutputType::StaticLibrary => "lib",
        }
    }
}

/// An operating system.
#[derive(Clone, Copy, PartialEq, Eq, Debug, Structural)]
pub enum Os {
    Windows,
    Linux,
}

/// A processor architecture.
#[derive(Clone, Copy, PartialEq, Eq, Debug, Structural)]
pub enum Arch {
    X86,
    X64,
}

/// An operating system together with an architecture.
#[derive(Clone, Copy, PartialEq, Eq, Hash, Debug, Structural)]
pub enum Platform {
    Win32,
    Win64,
    Linux32,
    Linux64,
}

impl Platform {
    /// The operating system of the platform.
    pub open spec fn os_of(self) -> Os {
        match self {
            Platform::Win32 | Platform::Win64 => Os::Windows,
            Platform::Linux32 | Platform::Linux64 => Os::Linux,
        }
    }

    /// The architecture of the platform.
    pub open spec fn arch_of(self) -> Arch {
        match self {
            Platform::Win32 | Platform::Linux32 => Arch::X86,
            Platform::Win64 | Platform::Linux64 => Arch::X64,
        }
    }

    /// A machine of platform `self` can run what was built for `other`: the
    /// same system, and no wider an architecture.
    pub open spec fn runs(self, other: Platform) -> bool {
        self.os_of() == other.os_of() && (self.arch_of() == Arch::X64 || other.arch_of()
            == Arch::X86)
    }

    /// The platform of a machine with the given system and pointer width in bits.
    pub fn host(os: Os, pointer_width: u32) -> (r: Platform)
        requires
            pointer_width == 32 || pointer_width == 64,
        ensures
            r.os_of() == os,
            r.arch_of() == (if pointer_width == 32 { Arch::X86 } else { Arch::X64 }),
    {
        match os {
            Os::Windows => if pointer_width == 32 {
                Platform::Win32
            } else {
                Platform::Win64
            },
            Os::Linux => if pointer_width == 32 {
                Platform::Linux32
            } else {
                Platform::Linux64
            },
        }
    }

    /// The operating system of the platform.
    pub fn os(&self) -> (r: Os)
        ensures
            r == self.os_of(),
    {
        match self {
            Platform::Win32 | Platform::Win64 => Os::Windows,
            Platform::Linux32 | Platform::Linux64 => Os::Linux,
        }
    }

    /// The architecture of the platform.
    pub fn architecture(&self) -> (r: Arch)
        ensures
            r == self.arch_of(),
    {
        match self {
            Platform::Win32 => Arch::X86,
            Platform::Win64 => Arch::X64,
            Platform::Linux32 => Arch::X86,
            Platform::Linux64 => Arch::X64,
        }
    }

    /// Can devices of type `self` run software built for `other`?
    pub fn is_backwards_compatible_with(&self, other: Platform) -> (r: bool)
        ensures
            r == self.runs(other),
    {
        match self {
            Platform::Win32 => matches!(other, Platform::Win32),
            Platform::Win64 => matches!(other.os(), Os::Windows),
            Platform::Linux32 => matches!(other, Platform::Linux32),
            Platform::Linux64 => matches!(other.os(), Os::Linux),
        }
    }

    /// The lower-case tag of the platform, which also names its artifact directory.
    pub open spec fn tag_of(self) -> Seq<char> {
        match self {
            Platform::Win32 => "win32"@,
            Platform::Win64 => "win64"@,
            Platform::Linux32 => "linux32"@,
            Platform::Linux64 => "linux64"@,
        }
    }

    /// The lower-case tag of the platform.
    pub fn tag(self) -> (r: &'static str)
        ensures
            r@ == self.tag_of(),
    {
        match self {
            Platform::Win32 => "win32",
            Platform::Win64 => "win64",
            Platform::Linux32 => "linux32",
            Platform::Linux64 => "linux64",
        }
    }
}

/// Whether `p` is among `v`.
pub fn contains_platform(v: &Vec<Platform>, p: Platform) -> (r: bool)
    ensures
        r == v@.contains(p),
{
    let mut i: usize = 0;
    while i < v.len()
        invariant
            i <= v@.len(),
            forall|k: int| 0 <= k < i ==> v@[k] != p,
        decreases v@.len() - i,
    {
        if v[i] == p {
            return true;
        }
        i = i + 1;
    }
    false
}

/// Why a manifest is refused.
#[derive(Clone, Copy, PartialEq, Eq, Debug, Structural)]
pub enum ManifestError {
    /// The list of supported targets is empty.
    NoSupportedTargets,
    /// A target is listed more than once.
    DuplicateSupportedTargets,
}

/// A project manifest, as the user wrote it at the project root.
#[derive(Clone, Debug)]
pub struct ProjectConfig {
    pub name: String,
    pub cxx_options: CxxOptions,
    pub output_type: OutputType,
    pub link_libraries: Vec<String>,
    pub supported_targets: Vec<Platform>,
    pub dependencies: Vec<String>,
}

impl ProjectConfig {
    /// Takes over the language options of the root project of the build.
    pub fn adapt_to_workspace(&mut self, root_config: &ProjectConfig)
        ensures
            final(self).cxx_options == root_config.cxx_options,
            final(self).name == old(self).name,
            final(self).output_type == old(self).output_type,
            final(self).link_libraries == old(self).link_libraries,
            final(self).supported_targets == old(self).supported_targets,
            final(self).dependencies == old(self).dependencies,
    {
        self.cxx_options = root_config.cxx_options;
    }

    /// The list of supported targets is not empty and names no target twice.
    pub open spec fn targets_valid(&self) -> bool {
        &&& self.supported_targets@.len() > 0
        &&& self.supported_targets@.no_duplicates()
    }

    /// Checks the list of supported targets. An empty list is reported
    /// before a duplicate.
    pub fn validate(&self) -> (r: Result<(), ManifestError>)
        ensures
            r.is_ok() == self.targets_valid(),
            r == Err::<(), ManifestError>(ManifestError::NoSupportedTargets)
                <==> self.supported_targets@.len() == 0,
    {
        let n: usize = self.supported_targets.len();
        if n == 0 {
            return Err(ManifestError::NoSupportedTargets);
        }
        let mut i: usize = 0;
        while i < n
            invariant
                n == self.supported_targets@.len(),
                i <= n,
                forall|a: int, b: int|
                    0 <= a < i && 0 <= b < n && a != b ==> self.supported_targets@[a]
                        != self.supported_targets@[b],
            decreases n - i,
        {
            let mut j: usize = i + 1;
            while j < n
                invariant
                    n == self.supported_targets@.len(),
                    i < n,
                    i + 1 <= j <= n,
                    forall|b: int|
                        i < b < j ==> self.supported_targets@[i as int]
                            != self.supported_targets@[b],
                decreases n - j,
            {
                if self.supported_targets[i] == self.supported_targets[j] {
                    return Err(ManifestError::DuplicateSupportedTargets);
                }
                j = j + 1;
            }
            i = i + 1;
        }
        Ok(())
    }
}

} // verus!
