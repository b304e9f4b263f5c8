use abs_build::diagnostics::WarningCache;
use abs_build::json::{
    boolean, member, optional_string, parse_descriptor, parse_warning_cache, write_warning_cache,
};

fn strings(v: &[&str]) -> Vec<String> {
    v.iter().map(|s| s.to_string()).collect()
}

fn parsed(text: &str) -> Option<(Vec<String>, Option<String>)> {
    parse_descriptor(text).map(|d| (d.includes, d.pch))
}

#[test]
fn descriptor_names_includes_and_pch() {
    let text = r#"{
        "Version": "1.1",
        "Data": {
            "Source": "c:\\p\\src\\main.cpp",
            "ProvidedModule": "",
            "PCH": "c:\\p\\abs\\obj\\pch.pch",
            "Includes": ["c:\\p\\src\\h.h", "k\\um\\windows.h"],
            "ImportedModules": []
        }
    }"#;
    assert_eq!(
        parsed(text),
        Some((strings(&["c:\\p\\src\\h.h", "k\\um\\windows.h"]), Some("c:\\p\\abs\\obj\\pch.pch".to_string())))
    );
    assert_eq!(parsed(r#"{"Data":{"Includes":[],"PCH":null}}"#), Some((vec![], None)));
    assert_eq!(parsed(r#"{"Data":{"Includes":["a.h"]}}"#), Some((strings(&["a.h"]), None)));
}

#[test]
fn text_without_a_descriptor_is_malformed() {
    assert_eq!(parsed(""), None);
    assert_eq!(parsed("not json"), None);
    assert_eq!(parsed("[1, 2]"), None);
    assert_eq!(parsed(r#"{"Version":"1.1"}"#), None);
    assert_eq!(parsed(r#"{"Data":[]}"#), None);
    assert_eq!(parsed(r#"{"Data":{"PCH":null}}"#), None);
    assert_eq!(parsed(r#"{"Data":{"Includes":"a.h"}}"#), None);
    assert_eq!(parsed(r#"{"Data":{"Includes":[1]}}"#), None);
    assert_eq!(parsed(r#"{"Data":{"Includes":[],"PCH":3}}"#), None);
    assert_eq!(parsed(r#"{"Data":{"Includes":[]}} trailing"#), None);
}

#[test]
fn kept_warnings_are_read() {
    let cache = parse_warning_cache(r#"{ "warnings": ["a.cpp(1): warning W\n  more", "b"] }"#).unwrap();
    assert_eq!(cache.warnings, strings(&["a.cpp(1): warning W\n  more", "b"]));
    assert_eq!(parse_warning_cache(r#"{"warnings":[]}"#).unwrap().warnings, Vec::<String>::new());
    assert!(parse_warning_cache(r#"{"warning":[]}"#).is_none());
    assert!(parse_warning_cache(r#"{"warnings":"a"}"#).is_none());
    assert!(parse_warning_cache("").is_none());
}

#[test]
fn kept_warnings_are_written_and_read_back() {
    let cache = WarningCache { warnings: strings(&["a.cpp(1): warning \"W\"\n  more", "b\\c"]) };
    let text = write_warning_cache(&cache).unwrap();
    assert_eq!(text, "{\"warnings\":[\"a.cpp(1): warning \\\"W\\\"\\n  more\",\"b\\\\c\"]}");
    assert_eq!(parse_warning_cache(&text).unwrap().warnings, cache.warnings);
    assert_eq!(write_warning_cache(&WarningCache::default()).unwrap(), "{\"warnings\":[]}");
}

#[test]
fn first_member_of_a_name_is_taken() {
    let members = vec![
        ("a".to_string(), "1".to_string()),
        ("b".to_string(), "[2]".to_string()),
        ("a".to_string(), "3".to_string()),
    ];
    assert_eq!(member(&members, "a"), Some("1".to_string()));
    assert_eq!(member(&members, "b"), Some("[2]".to_string()));
    assert_eq!(member(&members, "c"), None);
}

#[test]
fn truth_values_and_optional_strings_are_read_from_their_json_text() {
    assert_eq!(boolean("true"), Some(true));
    assert_eq!(boolean("false"), Some(false));
    assert_eq!(boolean("1"), None);
    assert_eq!(boolean("\"true\""), None);
    assert_eq!(optional_string("null"), Some(None));
    assert_eq!(optional_string("\"a\\\\b\""), Some(Some("a\\b".to_string())));
    assert_eq!(optional_string("3"), None);
    assert_eq!(optional_string(""), None);
}
