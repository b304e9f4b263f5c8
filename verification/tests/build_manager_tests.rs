use abs_build::build_manager::{
    double, segment, state_transition, CompileFlags, CompilerOutput, OutputLine, OutputParser,
    ParseState,
};
use abs_build::proj_config::CxxStandard;

fn strings(v: &[&str]) -> Vec<String> {
    v.iter().map(|s| s.to_string()).collect()
}

#[test]
fn flags_are_realised_in_order() {
    let flags = CompileFlags::empty()
        .single("/c")
        .singles(&strings(&["/W3", "/Zi"]))
        .double("/Fd", "out.pdb")
        .cxx_standard(CxxStandard::Cxx17)
        .rtti(true)
        .async_await(true)
        .src_path("src/main.cpp")
        .obj_path("obj/main.obj")
        .pch_path("obj/pch.pch", false)
        .define("WIN32", "")
        .defines(&vec![("A".to_string(), "1".to_string()), ("B".to_string(), "two".to_string())])
        .include_path("inc")
        .include_paths(&strings(&["x", "y"]));
    assert_eq!(
        flags.build(),
        strings(&[
            "/c", "/W3", "/Zi", "/Fdout.pdb", "/std:c++17", "/GR", "/await", "src/main.cpp",
            "/Foobj/main.obj", "/Fpobj/pch.pch", "/Yupch.h", "/DWIN32=", "/DA=1", "/DB=two", "/I",
            "inc", "/I", "x", "/I", "y",
        ])
    );
}

#[test]
fn each_standard_has_its_token() {
    assert_eq!(CompileFlags::empty().cxx_standard(CxxStandard::Cxx11).build(), strings(&["/std:c++14"]));
    assert_eq!(CompileFlags::empty().cxx_standard(CxxStandard::Cxx14).build(), strings(&["/std:c++14"]));
    assert_eq!(CompileFlags::empty().cxx_standard(CxxStandard::Cxx17).build(), strings(&["/std:c++17"]));
    assert_eq!(CompileFlags::empty().cxx_standard(CxxStandard::Cxx20).build(), strings(&["/std:c++latest"]));
}

#[test]
fn switches_off_give_their_tokens() {
    assert_eq!(CompileFlags::empty().rtti(false).build(), strings(&["/GR-"]));
    assert_eq!(CompileFlags::empty().async_await(false).build(), Vec::<String>::new());
    assert_eq!(
        CompileFlags::empty().pch_path("p.pch", true).build(),
        strings(&["/Fpp.pch", "/Ycpch.h"])
    );
    assert_eq!(CompileFlags::empty().build(), Vec::<String>::new());
    assert_eq!(double("/Fo", "a.obj"), "/Foa.obj");
}

#[test]
fn lines_that_open_a_diagnostic() {
    assert_eq!(state_transition("main.cpp(3): warning C4101: 'x': unreferenced"), Some(ParseState::InWarning));
    assert_eq!(state_transition("main.cpp(9): error C2065: 'y': undeclared"), Some(ParseState::InError));
    assert_eq!(state_transition("main.cpp(9): fatal error C1083: cannot open"), Some(ParseState::InError));
    assert_eq!(state_transition("main.cpp(9): note: see declaration"), None);
    assert_eq!(state_transition("no separator here"), None);
    assert_eq!(state_transition("a: b: warning"), None);
    assert_eq!(state_transition("x: "), None);
    assert_eq!(state_transition(""), None);
}

fn kinds(outputs: &[CompilerOutput]) -> Vec<(u8, String)> {
    outputs
        .iter()
        .map(|o| match o {
            CompilerOutput::Begun { first_line } => (0, first_line.clone()),
            CompilerOutput::Warning(s) => (1, s.clone()),
            CompilerOutput::Error(s) => (2, s.clone()),
        })
        .collect()
}

#[test]
fn output_is_segmented_into_chunks() {
    let lines = strings(&[
        "main.cpp",
        "stray line",
        "main.cpp(3): warning C4101: 'x'",
        "  continuation",
        "main.cpp(9): error C2065: 'y'",
        "main.cpp(12): warning C4102: 'z'",
        "  last",
    ]);
    let out = segment(lines);
    assert_eq!(
        kinds(&out),
        vec![
            (0, "main.cpp".to_string()),
            (1, "main.cpp(3): warning C4101: 'x'\n  continuation".to_string()),
            (2, "main.cpp(9): error C2065: 'y'".to_string()),
            (1, "main.cpp(12): warning C4102: 'z'\n  last".to_string()),
        ]
    );
}

#[test]
fn output_without_diagnostics() {
    assert_eq!(kinds(&segment(vec![])), vec![]);
    assert_eq!(kinds(&segment(strings(&["a.cpp"]))), vec![(0, "a.cpp".to_string())]);
    assert_eq!(
        kinds(&segment(strings(&["a.cpp(1): error C1: first line is the name"]))),
        vec![(0, "a.cpp(1): error C1: first line is the name".to_string())]
    );
}

#[test]
fn parser_ignores_standard_error() {
    let mut parser = OutputParser::new();
    assert!(parser.feed(OutputLine::Stderr("noise".to_string())).is_none());
    assert_eq!(parser.state, ParseState::NoFileName);
    assert!(matches!(
        parser.feed(OutputLine::Stdout("a.cpp".to_string())),
        Some(CompilerOutput::Begun { .. })
    ));
    assert_eq!(parser.state, ParseState::Neutral);
    assert!(parser.feed(OutputLine::Stdout("a.cpp(1): error C1: bad".to_string())).is_none());
    assert_eq!(parser.state, ParseState::InError);
    assert!(parser.feed(OutputLine::Stderr("noise".to_string())).is_none());
    assert_eq!(parser.chunk, "a.cpp(1): error C1: bad");
    match parser.finish() {
        Some(CompilerOutput::Error(s)) => assert_eq!(s, "a.cpp(1): error C1: bad"),
        _ => panic!("an error was buffered"),
    }
}
