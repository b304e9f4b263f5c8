//! Reading the project manifest: a JSON object with the project's name,
//! its language options, what it produces, what it is linked against, the
//! targets it supports and the projects it depends on.

use vstd::prelude::*;
use vstd::string::*;
use crate::json::{
    bool_of,
    boolean,
    member,
    member_from,
    members,
    members_of,
    string,
    string_of,
    strings,
    strings_of,
};
use crate::proj_config::{CxxOptions, CxxStandard, OutputType, Platform, ProjectConfig};
use crate::text::{str_eq, texts};

verus! {

/// The standard that a token of the manifest names.
pub open spec fn standard_named(token: Seq<char>) -> Option<CxxStandard> {
    if token == "c++11"@ {
        Some(CxxStandard::Cxx11)
    } else if token == "c++14"@ {
        Some(CxxStandard::Cxx14)
    } else if token == "c++17"@ {
        Some(CxxStandard::Cxx17)
    } else if token == "c++20"@ {
        Some(CxxStandard::Cxx20)
    } else {
        None
    }
}

/// The output type that a token of the manifest names.
pub open spec fn output_named(token: Seq<char>) -> Option<OutputType> {
    if token == "gui_app"@ {
        Some(OutputType::GuiApp)
    } else if token == "console_app"@ {
        Some(OutputType::ConsoleApp)
    } else if token == "dynamic_library"@ {
        Some(OutputType::DynamicLibrary)
    } else if token == "static_library"@ {
        Some(OutputType::StaticLibrary)
    } else {
        None
    }
}

/// The platform that a tag names.
pub open spec fn platform_named(tag: Seq<char>) -> Option<Platform> {
    if tag == "win32"@ {
        Some(Platform::Win32)
    } else if tag == "win64"@ {
        Some(Platform::Win64)
    } else if tag == "linux32"@ {
        Some(Platform::Linux32)
    } else if tag == "linux64"@ {
        Some(Platform::Linux64)
    } else {
        None
    }
}

/// Reads `c++11`, `c++14`, `c++17` or `c++20`.
pub fn standard_from_token(token: &str) -> (r: Option<CxxStandard>)
    ensures
        r == standard_named(token@),
{
    if str_eq(token, "c++11") {
        Some(CxxStandard::Cxx11)
    } else if str_eq(token, "c++14") {
        Some(CxxStandard::Cxx14)
    } else if str_eq(token, "c++17") {
        Some(CxxStandard::Cxx17)
    } else if str_eq(token, "c++20") {
        Some(CxxStandard::Cxx20)
    } else {
        None
    }
}

/// Reads `gui_app`, `console_app`, `dynamic_library` or `static_library`.
pub fn output_type_from_token(token: &str) -> (r: Option<OutputType>)
    ensures
        r == output_named(token@),
{
    if str_eq(token, "gui_app") {
        Some(OutputType::GuiApp)
    } else if str_eq(token, "console_app") {
        Some(OutputType::ConsoleApp)
    } else if str_eq(token, "dynamic_library") {
        Some(OutputType::DynamicLibrary)
    } else if str_eq(token, "static_library") {
        Some(OutputType::StaticLibrary)
    } else {
        None
    }
}

/// Reads `win32`, `win64`, `linux32` or `linux64`.
pub fn platform_from_tag(tag: &str) -> (r: Option<Platform>)
    ensures
        r == platform_named(tag@),
{
    if str_eq(tag, "win32") {
        Some(Platform::Win32)
    } else if str_eq(tag, "win64") {
        Some(Platform::Win64)
    } else if str_eq(tag, "linux32") {
        Some(Platform::Linux32)
    } else if str_eq(tag, "linux64") {
        Some(Platform::Linux64)
    } else {
        None
    }
}

/// The platforms that `tags` name, in order; `None` where one of them
/// names none.
pub open spec fn platforms_named(tags: Seq<Seq<char>>) -> Option<Seq<Platform>>
    decreases tags.len(),
{
    if tags.len() == 0 {
        Some(Seq::empty())
    } else {
        match (platforms_named(tags.drop_last()), platform_named(tags.last())) {
            (Some(rest), Some(p)) => Some(rest.push(p)),
            _ => None,
        }
    }
}

proof fn lemma_unnamed_stays(tags: Seq<Seq<char>>, i: int)
    requires
        0 <= i <= tags.len(),
        platforms_named(tags.subrange(0, i)).is_none(),
    ensures
        platforms_named(tags).is_none(),
    decreases tags.len() - i,
{
    if i < tags.len() {
        assert(tags.subrange(0, i + 1).drop_last() =~= tags.subrange(0, i));
        lemma_unnamed_stays(tags, i + 1);
    } else {
        assert(tags.subrange(0, i) =~= tags);
    }
}

/// Reads a list of platform tags.
pub fn platforms_from_tags(tags: &Vec<String>) -> (r: Option<Vec<Platform>>)
    ensures
        match r {
            Some(v) => platforms_named(texts(tags@)) == Some(v@),
            None => platforms_named(texts(tags@)).is_none(),
        },
{
    let ghost all = texts(tags@);
    let mut out: Vec<Platform> = Vec::new();
    let mut i: usize = 0;
    assert(all.subrange(0, 0) =~= Seq::<Seq<char>>::empty());
    assert(out@ =~= Seq::<Platform>::empty());
    while i < tags.len()
        invariant
            i <= tags@.len(),
            all == texts(tags@),
            platforms_named(all.subrange(0, i as int)) == Some(out@),
        decreases tags@.len() - i,
    {
        proof {
            let next = all.subrange(0, i + 1);
            assert(next.drop_last() =~= all.subrange(0, i as int));
            assert(next.last() == tags@[i as int]@);
        }
        match platform_from_tag(tags[i].as_str()) {
            Some(p) => {
                out.push(p);
            },
            None => {
                proof {
                    lemma_unnamed_stays(all, i + 1);
                }
                return None;
            },
        }
        i = i + 1;
    }
    assert(all.subrange(0, i as int) =~= all);
    Some(out)
}

/// A manifest as a value.
pub struct ManifestView {
    pub name: Seq<char>,
    pub cxx_options: CxxOptions,
    pub output_type: OutputType,
    pub link_libraries: Seq<Seq<char>>,
    pub supported_targets: Seq<Platform>,
    pub dependencies: Seq<Seq<char>>,
}

/// The manifest that `config` holds.
pub open spec fn manifest_view(config: ProjectConfig) -> ManifestView {
    ManifestView {
        name: config.name@,
        cxx_options: config.cxx_options,
        output_type: config.output_type,
        link_libraries: texts(config.link_libraries@),
        supported_targets: config.supported_targets@,
        dependencies: texts(config.dependencies@),
    }
}

/// The member `key` of `fields`, read by `read`.
pub open spec fn field<T>(
    fields: Seq<(Seq<char>, Seq<char>)>,
    key: Seq<char>,
    read: spec_fn(Seq<char>) -> Option<T>,
) -> Option<T> {
    match member_from(fields, key, 0) {
        Some(text) => read(text),
        None => None,
    }
}

/// The language options that the members `fields` write: the switches
/// `rtti` and `async_await` and the token `standard`.
pub open spec fn options_of(fields: Seq<(Seq<char>, Seq<char>)>) -> Option<CxxOptions> {
    match (
        field(fields, "rtti"@, |t: Seq<char>| bool_of(t)),
        field(fields, "async_await"@, |t: Seq<char>| bool_of(t)),
        field(fields, "standard"@, |t: Seq<char>| string_of(t)),
    ) {
        (Some(rtti), Some(async_await), Some(token)) => match standard_named(token) {
            Some(standard) => Some(CxxOptions { rtti, async_await, standard }),
            None => None,
        },
        _ => None,
    }
}

/// The manifest that the members `fields` write. Every member has to be
/// there; members of other names are passed over.
pub open spec fn manifest_of_fields(fields: Seq<(Seq<char>, Seq<char>)>) -> Option<ManifestView> {
    match (
        field(fields, "name"@, |t: Seq<char>| string_of(t)),
        field(
            fields,
            "cxx_options"@,
            |t: Seq<char>|
                match members_of(t) {
                    Some(inner) => options_of(inner),
                    None => None,
                },
        ),
        field(fields, "output_type"@, |t: Seq<char>| string_of(t)),
        field(fields, "link_libraries"@, |t: Seq<char>| strings_of(t)),
        field(fields, "supported_targets"@, |t: Seq<char>| strings_of(t)),
        field(fields, "dependencies"@, |t: Seq<char>| strings_of(t)),
    ) {
        (
            Some(name),
            Some(cxx_options),
            Some(token),
            Some(link_libraries),
            Some(tags),
            Some(dependencies),
        ) => match (output_named(token), platforms_named(tags)) {
            (Some(output_type), Some(supported_targets)) => Some(
                ManifestView {
                    name,
                    cxx_options,
                    output_type,
                    link_libraries,
                    supported_targets,
                    dependencies,
                },
            ),
            _ => None,
        },
        _ => None,
    }
}

/// The manifest that `text` writes.
pub open spec fn manifest_of(text: Seq<char>) -> Option<ManifestView> {
    match members_of(text) {
        Some(fields) => manifest_of_fields(fields),
        None => None,
    }
}

fn read_options(fields: &Vec<(String, String)>) -> (r: Option<CxxOptions>)
    ensures
        r == options_of(crate::json::pairs(fields@)),
{
    let rtti = match member(fields, "rtti") {
        Some(t) => match boolean(t.as_str()) {
            Some(b) => b,
            None => {
                return None;
            },
        },
        None => {
            return None;
        },
    };
    let async_await = match member(fields, "async_await") {
        Some(t) => match boolean(t.as_str()) {
            Some(b) => b,
            None => {
                return None;
            },
        },
        None => {
            return None;
        },
    };
    let standard = match member(fields, "standard") {
        Some(t) => match string(t.as_str()) {
            Some(token) => match standard_from_token(token.as_str()) {
                Some(s) => s,
                None => {
                    return None;
                },
            },
            None => {
                return None;
            },
        },
        None => {
            return None;
        },
    };
    Some(CxxOptions { rtti, async_await, standard })
}

fn read_string(fields: &Vec<(String, String)>, key: &str) -> (r: Option<String>)
    ensures
        match r {
            Some(s) => field(crate::json::pairs(fields@), key@, |t: Seq<char>| string_of(t))
                == Some(s@),
            None => field(crate::json::pairs(fields@), key@, |t: Seq<char>| string_of(t)).is_none(),
        },
{
    match member(fields, key) {
        Some(t) => string(t.as_str()),
        None => None,
    }
}

fn read_strings(fields: &Vec<(String, String)>, key: &str) -> (r: Option<Vec<String>>)
    ensures
        match r {
            Some(v) => field(crate::json::pairs(fields@), key@, |t: Seq<char>| strings_of(t))
                == Some(texts(v@)),
            None => field(crate::json::pairs(fields@), key@, |t: Seq<char>| strings_of(t)).is_none(),
        },
{
    match member(fields, key) {
        Some(t) => strings(t.as_str()),
        None => None,
    }
}

/// Reads the members of a manifest into a project configuration.
pub fn manifest_from_fields(fields: &Vec<(String, String)>) -> (r: Option<ProjectConfig>)
    ensures
        match r {
            Some(config) => manifest_of_fields(crate::json::pairs(fields@)) == Some(
                manifest_view(config),
            ),
            None => manifest_of_fields(crate::json::pairs(fields@)).is_none(),
        },
{
    let name = match read_string(fields, "name") {
        Some(n) => n,
        None => {
            return None;
        },
    };
    let cxx_options = match member(fields, "cxx_options") {
        Some(t) => match members(t.as_str()) {
            Some(inner) => match read_options(&inner) {
                Some(o) => o,
                None => {
                    return None;
                },
            },
            None => {
                return None;
            },
        },
        None => {
            return None;
        },
    };
    let output_type = match read_string(fields, "output_type") {
        Some(token) => match output_type_from_token(token.as_str()) {
            Some(o) => Some(o),
            None => None,
        },
        None => {
            return None;
        },
    };
    let link_libraries = match read_strings(fields, "link_libraries") {
        Some(v) => v,
        None => {
            return None;
        },
    };
    let supported_targets = match read_strings(fields, "supported_targets") {
        Some(tags) => platforms_from_tags(&tags),
        None => {
            return None;
        },
    };
    let dependencies = match read_strings(fields, "dependencies") {
        Some(v) => v,
        None => {
            return None;
        },
    };
    match (output_type, supported_targets) {
        (Some(output_type), Some(supported_targets)) => Some(
            ProjectConfig {
                name,
                cxx_options,
                output_type,
                link_libraries,
                supported_targets,
                dependencies,
            },
        ),
        _ => None,
    }
}

/// Reads a project manifest; `None` where `text` is no manifest.
pub fn parse_manifest(text: &str) -> (r: Option<ProjectConfig>)
    ensures
        match r {
            Some(config) => manifest_of(text@) == Some(manifest_view(config)),
            None => manifest_of(text@).is_none(),
        },
{
    match members(text) {
        Some(fields) => manifest_from_fields(&fields),
        None => None,
    }
}

} // verus!
