use abs_build::paths::{artifact_path, canonicalize, is_under, join, parent, set_extension, strip_root};
use abs_build::text::{chars_of, find, first_line, starts_with_at, str_eq};

#[test]
fn join_puts_one_separator_between() {
    assert_eq!(join("abs", "debug"), "abs/debug");
    assert_eq!(join("abs/", "debug"), "abs/debug");
    assert_eq!(join("C:\\proj\\", "src"), "C:\\proj\\src");
    assert_eq!(join("", "src"), "src");
    assert_eq!(join("abs/debug/hello/win64", "hello.exe"), "abs/debug/hello/win64/hello.exe");
}

#[test]
fn extension_is_replaced_or_added() {
    assert_eq!(set_extension("obj/hello/world.cpp", "obj"), "obj/hello/world.obj");
    assert_eq!(set_extension("obj/world", "obj"), "obj/world.obj");
    assert_eq!(set_extension("obj.d/world", "obj"), "obj.d/world.obj");
    assert_eq!(set_extension("obj/.hidden", "obj"), "obj/.hidden.obj");
    assert_eq!(set_extension("a.b.cpp", "json"), "a.b.json");
    assert_eq!(set_extension("dir\\x.cpp", "warnings"), "dir\\x.warnings");
}

#[test]
fn artifact_mirrors_the_source_tree() {
    assert_eq!(
        artifact_path("src/hello/world.cpp", "src", "abs/debug/obj", "obj"),
        Some("abs/debug/obj/hello/world.obj".to_string())
    );
    assert_eq!(
        artifact_path("proj/src/main.cpp", "proj/src", "out/src_deps", "json"),
        Some("out/src_deps/main.json".to_string())
    );
    assert_eq!(artifact_path("other/main.cpp", "src", "obj", "obj"), None);
    assert_eq!(artifact_path("srcx/main.cpp", "src", "obj", "obj"), None);
}

#[test]
fn strip_root_gives_the_part_below() {
    assert_eq!(strip_root("src/a/b.h", "src"), Some("a/b.h".to_string()));
    assert_eq!(strip_root("src\\a.h", "src"), Some("a.h".to_string()));
    assert_eq!(strip_root("src", "src"), Some(String::new()));
    assert_eq!(strip_root("sr", "src"), None);
    assert!(is_under("src/pch.cpp", "src"));
    assert!(!is_under("srcs/pch.cpp", "src"));
}

#[test]
fn parent_drops_the_last_component() {
    assert_eq!(parent("C:\\proj\\abs.json"), "C:\\proj");
    assert_eq!(parent("/home/u/proj/abs.json"), "/home/u/proj");
    assert_eq!(parent("abs.json"), "");
    assert_eq!(parent("/abs.json"), "/");
}

#[test]
fn canonicalize_removes_the_verbatim_marker() {
    assert_eq!(canonicalize("\\\\?\\C:\\proj\\abs.json"), "C:\\proj\\abs.json");
    assert_eq!(canonicalize("C:\\proj\\abs.json"), "C:\\proj\\abs.json");
    assert_eq!(canonicalize("/home/u/proj"), "/home/u/proj");
    assert_eq!(canonicalize("\\\\?\\UNC\\server\\share"), "\\\\?\\UNC\\server\\share");
}

#[test]
fn text_helpers() {
    assert!(str_eq("abc", "abc"));
    assert!(!str_eq("abc", "abd"));
    let s = chars_of("main.cpp(3): warning C4101");
    assert_eq!(find(&s, &chars_of(": ")), Some(11));
    assert_eq!(find(&s, &chars_of("zz")), None);
    assert_eq!(find(&s, &chars_of("")), Some(0));
    assert!(starts_with_at(&s, 13, &chars_of("warning")));
    assert!(!starts_with_at(&s, 12, &chars_of("warning")));
    assert!(!starts_with_at(&s, 25, &chars_of("warning")));
    assert_eq!(first_line("a: warning\n  more\n  lines"), "a: warning");
    assert_eq!(first_line("single"), "single");
    assert_eq!(first_line("with cr\r\nnext"), "with cr");
    assert_eq!(first_line("bare cr\r"), "bare cr\r");
    assert_eq!(first_line(""), "");
    assert_eq!(first_line("\nrest"), "");
}
