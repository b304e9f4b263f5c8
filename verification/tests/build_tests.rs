use abs_build::build_env::{
    BuildEnvironment, BuildError, DependencyBuilder, IoKind, PchOption, SourceDescriptor,
};
use abs_build::cmd_options::{BuildOptions, CompileMode, RawTarget};
use abs_build::edit_times::PathTimes;
use abs_build::plan::{
    assemble_sources_to_rebuild, decide_source, failure_summary, has_pch_source, tally,
    SourceDecision,
};
use abs_build::process::{kill_again, kill_arguments, kill_debugger, search_path};
use abs_build::proj_config::{CxxOptions, CxxStandard, OutputType, Platform, ProjectConfig};
use abs_build::src_paths::{classify, extension, FileKind, SrcPaths};
use abs_build::task::{CxxTask, IdentityTask, LinkTask, Task, TaskExt, TaskStep};
use abs_build::toolchain_paths::ToolchainPaths;

fn strings(v: &[&str]) -> Vec<String> {
    v.iter().map(|s| s.to_string()).collect()
}

fn times(entries: &[(&str, u64)]) -> PathTimes {
    let mut t = PathTimes::new();
    for (p, v) in entries {
        t.record(p, *v);
    }
    t
}

fn config(standard: CxxStandard, output_type: OutputType) -> ProjectConfig {
    ProjectConfig {
        name: "hello".to_string(),
        cxx_options: CxxOptions { rtti: false, async_await: true, standard },
        output_type,
        link_libraries: vec!["user32.lib".to_string()],
        supported_targets: vec![Platform::Win32, Platform::Win64],
        dependencies: vec![],
    }
}

fn toolchain() -> ToolchainPaths {
    ToolchainPaths {
        debugger_path: "T/devenv.exe".to_string(),
        include_paths: strings(&["T/include", "K/um"]),
        lib_paths: strings(&["T/lib/x64", "K/lib"]),
        bin_paths: strings(&["T/bin", "K/bin"]),
    }
}

fn described(source: &str, includes: &[&str], pch: Option<&str>) -> SourceDescriptor {
    let listed: Vec<String> = includes.iter().map(|i| format!("\"{}\"", i)).collect();
    let header = match pch {
        Some(p) => format!("\"{}\"", p),
        None => "null".to_string(),
    };
    let text = format!(
        "{{\"Version\":\"1.1\",\"Data\":{{\"Source\":\"{}\",\"Includes\":[{}],\"PCH\":{}}}}}",
        source,
        listed.join(","),
        header
    );
    SourceDescriptor { source: source.to_string(), text: Some(text) }
}

fn env_with(
    standard: CxxStandard,
    output_type: OutputType,
    mode: CompileMode,
    has_manifest: bool,
    disk: PathTimes,
    descriptors: Vec<SourceDescriptor>,
) -> BuildEnvironment {
    BuildEnvironment::new(
        config(standard, output_type),
        "P/abs.json",
        BuildOptions { compile_mode: mode, target: RawTarget::Host },
        toolchain(),
        vec![("_WINDOWS".to_string(), "".to_string()), ("WIN32".to_string(), "".to_string())],
        "abs/debug/hello/win64",
        has_manifest,
        strings(&["K/lib/user32.lib"]),
        disk,
        descriptors,
    )
}

fn env(disk: PathTimes, descriptors: Vec<SourceDescriptor>) -> BuildEnvironment {
    env_with(CxxStandard::Cxx17, OutputType::ConsoleApp, CompileMode::Debug, false, disk, descriptors)
}

const OBJ: &str = "abs/debug/hello/win64/obj/main.obj";
const SIDECAR: &str = "abs/debug/hello/win64/src_deps/main.json";
const KEPT: &str = "abs/debug/hello/win64/warning_cache/main.warnings";

#[test]
fn environment_is_laid_out_from_the_manifest_path() {
    let e = env_with(CxxStandard::Cxx17, OutputType::ConsoleApp, CompileMode::Debug, true, PathTimes::new(), vec![]);
    assert_eq!(e.config_path, "P/abs.json");
    assert_eq!(e.project_path, "P");
    assert_eq!(e.manifest_path, Some("P/windows_manifest.xml".to_string()));
    assert_eq!(e.src_dir_path, "P/src");
    assert_eq!(e.assets_dir_path, "P/assets");
    assert_eq!(e.objs_path, "abs/debug/hello/win64/obj");
    assert_eq!(e.src_deps_path, "abs/debug/hello/win64/src_deps");
    assert_eq!(e.dependency_headers_path, "abs/debug/hello/win64/dependency_headers");
    assert_eq!(e.warning_cache_path, "abs/debug/hello/win64/warning_cache");
    assert_eq!(e.get_artifact_path("P/src/sub/x.cpp", &e.objs_path, "obj"), "abs/debug/hello/win64/obj/sub/x.obj");
    let none = env(PathTimes::new(), vec![]);
    assert_eq!(none.manifest_path, None);
}

#[test]
fn product_and_package_paths() {
    let e = env(PathTimes::new(), vec![]);
    assert_eq!(e.product_name(), "hello.exe");
    assert_eq!(
        e.package_file_paths(false),
        strings(&["abs/debug/hello/win64/hello.exe", "abs/debug/hello/win64/hello.pdb"])
    );
    assert_eq!(
        e.package_file_paths(true),
        strings(&["abs/debug/hello/win64/hello.exe", "abs/debug/hello/win64/hello.pdb", "P/assets"])
    );
    assert!(!e.assets_ignored(true));
    let lib = env_with(CxxStandard::Cxx17, OutputType::StaticLibrary, CompileMode::Debug, false, PathTimes::new(), vec![]);
    assert_eq!(lib.product_name(), "hello.lib");
    assert!(lib.assets_ignored(true));
    assert!(!lib.assets_ignored(false));
    assert_eq!(
        lib.package_file_paths(true),
        strings(&["abs/debug/hello/win64/hello.lib", "abs/debug/hello/win64/hello.pdb"])
    );
    let dll = env_with(CxxStandard::Cxx17, OutputType::DynamicLibrary, CompileMode::Debug, false, PathTimes::new(), vec![]);
    assert_eq!(dll.product_name(), "hello.dll");
}

#[test]
fn error_messages() {
    assert_eq!(BuildError::NoSrcDirectory.message(), "Build failed: src directory does not exist.");
    assert_eq!(BuildError::CantReadSrcDirectory.message(), "Build failed: unable to read src directory.");
    assert_eq!(BuildError::DiscoverSrcDepsError.message(), "Build failed: unable to discover source dependencies.");
    assert_eq!(BuildError::CompilerError.message(), "Build failed: unable to compile.");
    assert_eq!(BuildError::LinkerError.message(), "Build failed: unable to link.");
    assert_eq!(BuildError::IoError(IoKind::NotFound).message(), "Build failed: there was an io error: NotFound.");
    assert_eq!(BuildError::IoError(IoKind::PermissionDenied).message(), "Build failed: there was an io error: PermissionDenied.");
    assert_eq!(BuildError::IoError(IoKind::Other).message(), "Build failed: there was an io error: Other.");
}

#[test]
fn dependency_builder_keeps_the_order() {
    let deps = DependencyBuilder::new().file("a.cpp").files(&strings(&["x.h", "y.h"])).file("p.pch").build();
    assert_eq!(deps, strings(&["a.cpp", "x.h", "y.h", "p.pch"]));
}

#[test]
fn descriptor_gives_the_dependencies_unless_stale() {
    let disk = times(&[("P/abs.json", 1), ("P/src/main.cpp", 5), (SIDECAR, 9)]);
    let e = env(disk, vec![described("P/src/main.cpp", &["P/src/h.h", "K/um/windows.h"], Some("abs/pch.pch"))]);
    let mut oracle = PathTimes::new();
    assert_eq!(
        e.discover_src_deps(&mut oracle, "P/src/main.cpp"),
        Ok(Some(strings(&["P/src/h.h", "K/um/windows.h", "abs/pch.pch"])))
    );
    // the source is newer than its descriptor
    let disk = times(&[("P/abs.json", 1), ("P/src/main.cpp", 50), (SIDECAR, 9)]);
    let e = env(disk, vec![described("P/src/main.cpp", &["P/src/h.h"], None)]);
    let mut oracle = PathTimes::new();
    assert_eq!(e.discover_src_deps(&mut oracle, "P/src/main.cpp"), Ok(None));
    // no descriptor on disk: first build
    let disk = times(&[("P/abs.json", 1), ("P/src/main.cpp", 5)]);
    let e = env(disk, vec![]);
    let mut oracle = PathTimes::new();
    assert_eq!(e.discover_src_deps(&mut oracle, "P/src/main.cpp"), Ok(None));
}

#[test]
fn corrupted_descriptor_is_an_error() {
    let disk = times(&[("P/abs.json", 1), ("P/src/main.cpp", 5), (SIDECAR, 9)]);
    let e = env(disk, vec![SourceDescriptor { source: "P/src/main.cpp".to_string(), text: Some("{\"Data\":{}}".to_string()) }]);
    let mut oracle = PathTimes::new();
    assert_eq!(e.discover_src_deps(&mut oracle, "P/src/main.cpp"), Err(BuildError::DiscoverSrcDepsError));
    let disk = times(&[("P/abs.json", 1), ("P/src/main.cpp", 5), (SIDECAR, 9)]);
    let e = env(disk, vec![SourceDescriptor { source: "P/src/main.cpp".to_string(), text: None }]);
    let mut oracle = PathTimes::new();
    assert_eq!(e.discover_src_deps(&mut oracle, "P/src/main.cpp"), Err(BuildError::IoError(IoKind::NotFound)));
    let disk = times(&[("P/abs.json", 1), ("P/src/main.cpp", 5), (SIDECAR, 9)]);
    let e = env(disk, vec![]);
    let mut oracle = PathTimes::new();
    assert_eq!(e.discover_src_deps(&mut oracle, "P/src/main.cpp"), Err(BuildError::IoError(IoKind::NotFound)));
}

#[test]
fn first_build_compiles_second_is_a_no_op_touch_recompiles() {
    let task = CxxTask::compile("P/src/main.cpp", PchOption::NoPch);
    // first build: nothing was produced yet
    let e = env(times(&[("P/abs.json", 1), ("P/src/main.cpp", 5)]), vec![]);
    let mut oracle = PathTimes::new();
    assert_eq!(task.previous_valid_run(&e, &mut oracle), Ok(None));
    // second build: descriptor and object file are newer than the source
    let after = [("P/abs.json", 1), ("P/src/main.cpp", 5), (SIDECAR, 10), (OBJ, 10), (KEPT, 10)];
    let e = env(times(&after), vec![described("P/src/main.cpp", &[], None)]);
    let mut oracle = PathTimes::new();
    assert_eq!(task.previous_valid_run(&e, &mut oracle), Ok(Some(OBJ.to_string())));
    let mut oracle = PathTimes::new();
    match task.run(&e, &mut oracle) {
        Ok(TaskStep::Reuse(p)) => assert_eq!(p, OBJ),
        _ => panic!("the object file is up to date"),
    }
    // the source was touched
    let touched = [("P/abs.json", 1), ("P/src/main.cpp", 20), (SIDECAR, 10), (OBJ, 10)];
    let e = env(times(&touched), vec![described("P/src/main.cpp", &[], None)]);
    let mut oracle = PathTimes::new();
    match task.run(&e, &mut oracle) {
        Ok(TaskStep::Execute(w)) => {
            assert_eq!(w.artifact, OBJ);
            assert_eq!(w.command.unwrap().program, "cl.exe");
        },
        _ => panic!("the source is newer than the object file"),
    }
}

#[test]
fn header_of_the_descriptor_decides_too() {
    let task = CxxTask::compile("P/src/main.cpp", PchOption::NoPch);
    let disk = [("P/abs.json", 1), ("P/src/main.cpp", 5), ("P/src/h.h", 30), (SIDECAR, 10), (OBJ, 10)];
    let e = env(times(&disk), vec![described("P/src/main.cpp", &["P/src/h.h"], None)]);
    let mut oracle = PathTimes::new();
    assert_eq!(task.previous_valid_run(&e, &mut oracle), Ok(None));
    // a header that the descriptor does not name changes nothing
    let e = env(times(&disk), vec![described("P/src/main.cpp", &["P/src/other.h"], None)]);
    let mut oracle = PathTimes::new();
    oracle.record("P/src/other.h", 2);
    assert_eq!(task.previous_valid_run(&e, &mut oracle), Ok(Some(OBJ.to_string())));
    // a header that was deleted counts as newest
    let e = env(times(&disk), vec![described("P/src/main.cpp", &["P/src/deleted.h"], None)]);
    let mut oracle = PathTimes::new();
    assert_eq!(task.previous_valid_run(&e, &mut oracle), Ok(None));
}

#[test]
fn pch_source_is_left_to_the_task_that_generates_the_header() {
    let disk = [
        ("P/abs.json", 1),
        ("P/src/pch.cpp", 5),
        ("abs/debug/hello/win64/src_deps/pch.json", 10),
        ("abs/debug/hello/win64/obj/pch.obj", 10),
        ("abs/debug/hello/win64/obj/pch.pch", 10),
    ];
    let e = env(times(&disk), vec![described("P/src/pch.cpp", &[], None)]);
    let mut oracle = PathTimes::new();
    assert_eq!(CxxTask::compile("P/src/pch.cpp", PchOption::UsePch).previous_valid_run(&e, &mut oracle), Ok(None));
    assert_eq!(oracle.get("P/src/pch.cpp"), None);
    let mut oracle = PathTimes::new();
    assert_eq!(
        CxxTask::compile("P/src/pch.cpp", PchOption::GeneratePch).previous_valid_run(&e, &mut oracle),
        Ok(Some("abs/debug/hello/win64/obj/pch.pch".to_string()))
    );
    assert!(has_pch_source(&e, &strings(&["P/src/a.cpp", "P/src/pch.cpp"])));
    assert!(!has_pch_source(&e, &strings(&["P/src/a.cpp", "P/src/sub/pch.cpp"])));
}

#[test]
fn compile_line_in_debug_mode() {
    let e = env(PathTimes::new(), vec![]);
    let w = CxxTask::compile("P/src/main.cpp", PchOption::NoPch).run_guaranteed(&e);
    assert_eq!(w.artifact, OBJ);
    let c = w.command.unwrap();
    assert_eq!(c.program, "cl.exe");
    assert_eq!(
        c.arguments,
        strings(&[
            "/W3", "/Zi", "/EHsc", "/c", "/FS", "/GR-", "/await", "/std:c++17", "/MDd", "/RTC1",
            "/D_WINDOWS=", "/DWIN32=", "/I", "T/include", "/I", "K/um", "/I",
            "abs/debug/hello/win64/dependency_headers", "/I", "P/src",
            "/Foabs/debug/hello/win64/obj/main.obj", "/Fdabs/debug/hello/win64/obj/hello.pdb",
            "/sourceDependenciesabs/debug/hello/win64/src_deps/main.json", "P/src/main.cpp",
        ])
    );
}

#[test]
fn cxx20_is_compiled_with_the_latest_standard() {
    let e = env_with(CxxStandard::Cxx20, OutputType::ConsoleApp, CompileMode::Release, false, PathTimes::new(), vec![]);
    let c = CxxTask::compile("P/src/main.cpp", PchOption::NoPch).run_guaranteed(&e).command.unwrap();
    assert!(c.arguments.contains(&"/std:c++latest".to_string()));
    assert!(!c.arguments.contains(&"/std:c++17".to_string()));
    assert!(c.arguments.contains(&"/O2".to_string()));
    assert!(!c.arguments.contains(&"/MDd".to_string()));
}

#[test]
fn pch_is_generated_once_and_used_by_the_rest() {
    let e = env(PathTimes::new(), vec![]);
    let generate = CxxTask::compile("P/src/pch.cpp", PchOption::GeneratePch).run_guaranteed(&e).command.unwrap();
    let at = generate.arguments.iter().position(|a| a == "/Fpabs/debug/hello/win64/obj/pch.pch").unwrap();
    assert_eq!(generate.arguments[at + 1], "/Ycpch.h");
    let using = CxxTask::compile("P/src/a.cpp", PchOption::UsePch).run_guaranteed(&e).command.unwrap();
    let at = using.arguments.iter().position(|a| a == "/Fpabs/debug/hello/win64/obj/pch.pch").unwrap();
    assert_eq!(using.arguments[at + 1], "/Yupch.h");
    let without = CxxTask::compile("P/src/a.cpp", PchOption::NoPch).run_guaranteed(&e).command.unwrap();
    assert!(!without.arguments.iter().any(|a| a.starts_with("/Fp") || a.starts_with("/Y")));
}

#[test]
fn identity_task_runs_nothing() {
    let e = env(PathTimes::new(), vec![]);
    let t = IdentityTask("some/file.txt".to_string());
    let mut oracle = PathTimes::new();
    assert_eq!(t.previous_valid_run(&e, &mut oracle), Ok(Some("some/file.txt".to_string())));
    let w = t.run_guaranteed(&e);
    assert_eq!(w.artifact, "some/file.txt");
    assert!(w.command.is_none());
    assert!(matches!(t.run(&e, &mut oracle), Ok(TaskStep::Reuse(_))));
}

#[test]
fn link_line_of_a_console_application() {
    let e = env(PathTimes::new(), vec![]);
    let link = LinkTask { obj_paths: strings(&["o/a.obj", "o/b.obj"]) };
    let w = link.run_guaranteed(&e);
    assert_eq!(w.artifact, "abs/debug/hello/win64/hello.exe");
    let c = w.command.unwrap();
    assert_eq!(c.program, "link.exe");
    assert_eq!(
        c.arguments,
        strings(&[
            "/nologo", "/SUBSYSTEM:CONSOLE", "/manifest:embed", "/debug", "/LIBPATH:T/lib/x64",
            "/LIBPATH:K/lib", "/out:abs/debug/hello/win64/hello.exe", "o/a.obj", "o/b.obj",
            "user32.lib",
        ])
    );
}

#[test]
fn link_lines_of_the_other_output_types() {
    let lib = env_with(CxxStandard::Cxx17, OutputType::StaticLibrary, CompileMode::Debug, false, PathTimes::new(), vec![]);
    let c = LinkTask { obj_paths: strings(&["o/a.obj"]) }.run_guaranteed(&lib).command.unwrap();
    assert_eq!(c.program, "lib.exe");
    assert_eq!(
        c.arguments,
        strings(&["/nologo", "/LIBPATH:T/lib/x64", "/LIBPATH:K/lib", "/out:abs/debug/hello/win64/hello.lib", "o/a.obj"])
    );
    let dll = env_with(CxxStandard::Cxx17, OutputType::DynamicLibrary, CompileMode::Debug, true, PathTimes::new(), vec![]);
    let c = LinkTask { obj_paths: vec![] }.run_guaranteed(&dll).command.unwrap();
    assert_eq!(c.program, "link.exe");
    assert_eq!(
        c.arguments,
        strings(&[
            "/nologo", "/DLL", "/manifest:embed", "/debug", "/manifestinput:P/windows_manifest.xml",
            "/manifestuac:no", "/LIBPATH:T/lib/x64", "/LIBPATH:K/lib",
            "/out:abs/debug/hello/win64/hello.dll", "user32.lib",
        ])
    );
    let gui = env_with(CxxStandard::Cxx17, OutputType::GuiApp, CompileMode::Debug, false, PathTimes::new(), vec![]);
    let c = LinkTask { obj_paths: vec![] }.run_guaranteed(&gui).command.unwrap();
    assert_eq!(c.arguments[1], "/SUBSYSTEM:WINDOWS");
    assert_eq!(
        c.arguments[4],
        "/manifestdependency:type='win32' name='Microsoft.Windows.Common-Controls' version='6.0.0.0'\n                            processorArchitecture='*' publicKeyToken='6595b64144ccf1df' language='*'"
    );
}

#[test]
fn link_is_needed_when_an_input_is_newer_than_the_product() {
    let product = "abs/debug/hello/win64/hello.exe";
    let link = LinkTask { obj_paths: strings(&["o/a.obj"]) };
    let e = env(times(&[("P/abs.json", 1), ("o/a.obj", 5), ("K/lib/user32.lib", 2), (product, 9)]), vec![]);
    let mut oracle = PathTimes::new();
    assert_eq!(link.previous_valid_run(&e, &mut oracle), Ok(Some(product.to_string())));
    let e = env(times(&[("P/abs.json", 1), ("o/a.obj", 15), ("K/lib/user32.lib", 2), (product, 9)]), vec![]);
    let mut oracle = PathTimes::new();
    assert_eq!(link.previous_valid_run(&e, &mut oracle), Ok(None));
    let e = env(times(&[("P/abs.json", 1), ("o/a.obj", 5), ("K/lib/user32.lib", 20), (product, 9)]), vec![]);
    let mut oracle = PathTimes::new();
    assert_eq!(link.previous_valid_run(&e, &mut oracle), Ok(None));
    let e = env(times(&[("P/abs.json", 1), ("o/a.obj", 5), ("K/lib/user32.lib", 2)]), vec![]);
    let mut oracle = PathTimes::new();
    assert!(matches!(link.run(&e, &mut oracle), Ok(TaskStep::Execute(_))));
}

#[test]
fn sources_are_decided_one_by_one() {
    let disk = [
        ("P/abs.json", 1),
        ("P/src/main.cpp", 5),
        (SIDECAR, 10),
        (OBJ, 10),
        (KEPT, 10),
        ("P/src/new.cpp", 5),
        ("P/src/old.cpp", 5),
        ("abs/debug/hello/win64/src_deps/old.json", 10),
        ("abs/debug/hello/win64/obj/old.obj", 10),
    ];
    let e = env(
        times(&disk),
        vec![described("P/src/main.cpp", &[], None), described("P/src/old.cpp", &[], None)],
    );
    let mut oracle = PathTimes::new();
    assert_eq!(decide_source(&e, &mut oracle, "P/src/main.cpp", PchOption::NoPch), Ok(SourceDecision::Keep { replay: true }));
    assert_eq!(decide_source(&e, &mut oracle, "P/src/new.cpp", PchOption::NoPch), Ok(SourceDecision::Compile));
    assert_eq!(decide_source(&e, &mut oracle, "P/src/old.cpp", PchOption::NoPch), Ok(SourceDecision::Keep { replay: false }));
    let mut oracle = PathTimes::new();
    let plan = assemble_sources_to_rebuild(
        &e,
        &mut oracle,
        &strings(&["P/src/main.cpp", "P/src/new.cpp", "P/src/old.cpp"]),
        PchOption::NoPch,
    )
    .unwrap();
    assert_eq!(
        plan.obj_paths,
        strings(&[OBJ, "abs/debug/hello/win64/obj/new.obj", "abs/debug/hello/win64/obj/old.obj"])
    );
    assert_eq!(plan.sources, strings(&["P/src/new.cpp"]));
    assert_eq!(plan.replay, strings(&[KEPT]));
}

#[test]
fn a_build_after_a_build_compiles_nothing() {
    let disk = [
        ("P/abs.json", 1),
        ("P/src/a.cpp", 5),
        ("P/src/b.cpp", 6),
        ("abs/debug/hello/win64/src_deps/a.json", 10),
        ("abs/debug/hello/win64/src_deps/b.json", 10),
        ("abs/debug/hello/win64/obj/a.obj", 10),
        ("abs/debug/hello/win64/obj/b.obj", 10),
    ];
    let e = env(times(&disk), vec![described("P/src/a.cpp", &[], None), described("P/src/b.cpp", &[], None)]);
    let mut oracle = PathTimes::new();
    let plan = assemble_sources_to_rebuild(&e, &mut oracle, &strings(&["P/src/a.cpp", "P/src/b.cpp"]), PchOption::NoPch).unwrap();
    assert!(plan.sources.is_empty());
    assert_eq!(plan.obj_paths.len(), 2);
    // and after the manifest was touched, everything
    let mut touched = disk.to_vec();
    touched[0] = ("P/abs.json", 99);
    let e = env(times(&touched), vec![described("P/src/a.cpp", &[], None), described("P/src/b.cpp", &[], None)]);
    let mut oracle = PathTimes::new();
    let plan = assemble_sources_to_rebuild(&e, &mut oracle, &strings(&["P/src/a.cpp", "P/src/b.cpp"]), PchOption::NoPch).unwrap();
    assert_eq!(plan.sources, strings(&["P/src/a.cpp", "P/src/b.cpp"]));
}

#[test]
fn planning_stops_at_a_corrupted_descriptor() {
    let disk = [("P/abs.json", 1), ("P/src/main.cpp", 5), (SIDECAR, 10), (OBJ, 10)];
    let e = env(
        times(&disk),
        vec![SourceDescriptor { source: "P/src/main.cpp".to_string(), text: Some("{\"Data\":{}}".to_string()) }],
    );
    let mut oracle = PathTimes::new();
    assert_eq!(
        assemble_sources_to_rebuild(&e, &mut oracle, &strings(&["P/src/main.cpp"]), PchOption::NoPch).err(),
        Some(BuildError::DiscoverSrcDepsError)
    );
}

#[test]
fn compiles_are_tallied() {
    assert_eq!(tally(&vec![true, false, true, true]), (3, 1));
    assert_eq!(tally(&vec![]), (0, 0));
    assert_eq!(failure_summary(&vec![true, true]), None);
    assert_eq!(
        failure_summary(&vec![true, false, true, false, false]),
        Some("Compiled: 2/5 | Failed: 3/5".to_string())
    );
}

#[test]
fn files_are_sorted_by_extension() {
    assert_eq!(classify("src/a.cpp", false), FileKind::Source);
    assert_eq!(classify("src/a.cxx", false), FileKind::Source);
    assert_eq!(classify("src/a.cc", false), FileKind::Source);
    assert_eq!(classify("src/a.h", false), FileKind::Header);
    assert_eq!(classify("src/a.hpp", false), FileKind::Header);
    assert_eq!(classify("src/a.hxx", false), FileKind::Header);
    assert_eq!(classify("src/a.idl", true), FileKind::Idl);
    assert_eq!(classify("src/a.idl", false), FileKind::Other);
    assert_eq!(classify("src/a.txt", true), FileKind::Other);
    assert_eq!(classify("src/a", true), FileKind::Other);
    assert_eq!(classify("src.cpp/a", true), FileKind::Other);
    assert_eq!(classify("src/.cpp", true), FileKind::Other);
    assert_eq!(classify("src/a.CPP", true), FileKind::Other);
    assert_eq!(extension("a/b.tar.gz"), Some("gz".to_string()));
    assert_eq!(extension("a/b."), Some(String::new()));
    assert_eq!(extension("a/b"), None);
}

#[test]
fn tree_of_sources() {
    let child = SrcPaths::from_entries("src/sub", &strings(&["src/sub/c.cpp", "src/sub/c.h"]), vec![], false);
    let deeper = SrcPaths::from_entries("src/z", &strings(&["src/z/readme.md", "src/z/d.cc"]), vec![], false);
    let root = SrcPaths::from_entries(
        "src",
        &strings(&["src/a.cpp", "src/a.h", "src/notes.txt", "src/b.cxx", "src/i.idl"]),
        vec![child, deeper],
        true,
    );
    assert_eq!(root.root, "src");
    assert_eq!(root.src_paths, strings(&["src/a.cpp", "src/b.cxx"]));
    assert_eq!(root.header_paths, strings(&["src/a.h"]));
    assert_eq!(root.idl_paths, Some(strings(&["src/i.idl"])));
    assert_eq!(root.children.len(), 2);
    assert_eq!(root.children[0].idl_paths, None);
    assert_eq!(root.all_sources(), strings(&["src/a.cpp", "src/b.cxx", "src/sub/c.cpp", "src/z/d.cc"]));
}

#[test]
fn what_is_handed_to_child_processes() {
    assert_eq!(search_path(&strings(&["T/bin", "K/bin"])), "%PATH%;T/bin;K/bin");
    assert_eq!(search_path(&vec![]), "%PATH%");
    assert_eq!(kill_arguments("hello.exe"), strings(&["/F", "/IM", "hello.exe"]));
    assert_eq!(kill_debugger(), strings(&["/F", "/IM", "devenv.exe"]));
    assert!(kill_again(Some(1)));
    assert!(!kill_again(Some(0)));
    assert!(!kill_again(Some(128)));
    assert!(!kill_again(None));
}

#[test]
fn touched_pch_header_rebuilds_the_pch_and_every_source() {
    let pch_file = "abs/debug/hello/win64/obj/pch.pch";
    let descriptors = || {
        vec![
            described("P/src/pch.cpp", &["P/src/pch.h"], None),
            described("P/src/a.cpp", &["P/src/pch.h"], Some(pch_file)),
            described("P/src/b.cpp", &[], Some(pch_file)),
        ]
    };
    let mut disk = vec![
        ("P/abs.json", 1),
        ("P/src/pch.h", 4),
        ("P/src/pch.cpp", 5),
        ("P/src/a.cpp", 5),
        ("P/src/b.cpp", 5),
        ("abs/debug/hello/win64/src_deps/pch.json", 10),
        ("abs/debug/hello/win64/src_deps/a.json", 10),
        ("abs/debug/hello/win64/src_deps/b.json", 10),
        (pch_file, 10),
        ("abs/debug/hello/win64/obj/a.obj", 10),
        ("abs/debug/hello/win64/obj/b.obj", 10),
    ];
    let sources = strings(&["P/src/pch.cpp", "P/src/a.cpp", "P/src/b.cpp"]);
    let generate = CxxTask::compile("P/src/pch.cpp", PchOption::GeneratePch);

    // nothing was touched: the header is kept, and so is every object file
    let e = env(times(&disk), descriptors());
    let mut oracle = PathTimes::new();
    assert_eq!(generate.previous_valid_run(&e, &mut oracle), Ok(Some(pch_file.to_string())));
    let plan = assemble_sources_to_rebuild(&e, &mut oracle, &sources, PchOption::UsePch).unwrap();
    assert!(plan.sources.is_empty());
    assert_eq!(
        plan.obj_paths,
        strings(&[
            "abs/debug/hello/win64/obj/pch.obj",
            "abs/debug/hello/win64/obj/a.obj",
            "abs/debug/hello/win64/obj/b.obj",
        ])
    );

    // pch.h was touched: the header is generated anew
    disk[1] = ("P/src/pch.h", 20);
    let e = env(times(&disk), descriptors());
    let mut oracle = PathTimes::new();
    assert_eq!(generate.previous_valid_run(&e, &mut oracle), Ok(None));

    // and once it was, every source that uses it is compiled
    disk[8] = (pch_file, 30);
    disk[5] = ("abs/debug/hello/win64/src_deps/pch.json", 30);
    let e = env(times(&disk), descriptors());
    let mut oracle = PathTimes::new();
    let plan = assemble_sources_to_rebuild(&e, &mut oracle, &sources, PchOption::UsePch).unwrap();
    assert_eq!(plan.sources, strings(&["P/src/a.cpp", "P/src/b.cpp"]));
    let mut oracle = PathTimes::new();
    assert_eq!(
        decide_source(&e, &mut oracle, "P/src/pch.cpp", PchOption::UsePch),
        Ok(SourceDecision::LeftToPchCompile)
    );
}
