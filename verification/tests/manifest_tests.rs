use abs_build::manifest::{
    manifest_from_fields, output_type_from_token, parse_manifest, platform_from_tag,
    platforms_from_tags, standard_from_token,
};
use abs_build::proj_config::{CxxStandard, OutputType, Platform};

const HELLO: &str = r#"{
  "name": "hello",
  "cxx_options": { "rtti": false, "async_await": true, "standard": "c++20" },
  "output_type": "console_app",
  "link_libraries": ["user32.lib"],
  "supported_targets": ["win32", "win64"],
  "dependencies": ["../util"]
}"#;

#[test]
fn manifest_is_read() {
    let config = parse_manifest(HELLO).unwrap();
    assert_eq!(config.name, "hello");
    assert!(!config.cxx_options.rtti);
    assert!(config.cxx_options.async_await);
    assert_eq!(config.cxx_options.standard, CxxStandard::Cxx20);
    assert_eq!(config.output_type, OutputType::ConsoleApp);
    assert_eq!(config.link_libraries, vec!["user32.lib".to_string()]);
    assert_eq!(config.supported_targets, vec![Platform::Win32, Platform::Win64]);
    assert_eq!(config.dependencies, vec!["../util".to_string()]);
    assert_eq!(config.validate(), Ok(()));
}

#[test]
fn manifest_with_a_member_missing_or_wrong_is_refused() {
    assert!(parse_manifest("").is_none());
    assert!(parse_manifest("[]").is_none());
    assert!(parse_manifest("{}").is_none());
    assert!(parse_manifest(&HELLO.replace("\"name\"", "\"title\"")).is_none());
    assert!(parse_manifest(&HELLO.replace("\"hello\"", "7")).is_none());
    assert!(parse_manifest(&HELLO.replace("c++20", "c++23")).is_none());
    assert!(parse_manifest(&HELLO.replace("console_app", "ConsoleApp")).is_none());
    assert!(parse_manifest(&HELLO.replace("win64", "win128")).is_none());
    assert!(parse_manifest(&HELLO.replace("\"rtti\": false", "\"rtti\": 0")).is_none());
    assert!(parse_manifest(&HELLO.replace("\"async_await\": true,", "")).is_none());
    assert!(parse_manifest(&HELLO.replace("[\"../util\"]", "\"../util\"")).is_none());
    assert!(parse_manifest(&HELLO.replace("\"dependencies\"", "\"extra\": 1, \"dependencies\"")).is_some());
}

#[test]
fn empty_lists_are_read_and_left_to_validation() {
    let text = HELLO.replace("[\"win32\", \"win64\"]", "[]").replace("[\"../util\"]", "[]");
    let config = parse_manifest(&text).unwrap();
    assert!(config.supported_targets.is_empty());
    assert!(config.dependencies.is_empty());
    assert!(config.validate().is_err());
}

#[test]
fn tokens_of_the_manifest() {
    assert_eq!(standard_from_token("c++11"), Some(CxxStandard::Cxx11));
    assert_eq!(standard_from_token("c++14"), Some(CxxStandard::Cxx14));
    assert_eq!(standard_from_token("c++17"), Some(CxxStandard::Cxx17));
    assert_eq!(standard_from_token("c++20"), Some(CxxStandard::Cxx20));
    assert_eq!(standard_from_token("C++20"), None);
    assert_eq!(output_type_from_token("gui_app"), Some(OutputType::GuiApp));
    assert_eq!(output_type_from_token("console_app"), Some(OutputType::ConsoleApp));
    assert_eq!(output_type_from_token("dynamic_library"), Some(OutputType::DynamicLibrary));
    assert_eq!(output_type_from_token("static_library"), Some(OutputType::StaticLibrary));
    assert_eq!(output_type_from_token("library"), None);
    assert_eq!(platform_from_tag("win32"), Some(Platform::Win32));
    assert_eq!(platform_from_tag("win64"), Some(Platform::Win64));
    assert_eq!(platform_from_tag("linux32"), Some(Platform::Linux32));
    assert_eq!(platform_from_tag("linux64"), Some(Platform::Linux64));
    assert_eq!(platform_from_tag("host"), None);
    assert_eq!(
        platforms_from_tags(&vec!["win64".to_string(), "win32".to_string()]),
        Some(vec![Platform::Win64, Platform::Win32])
    );
    assert_eq!(platforms_from_tags(&vec!["win64".to_string(), "all".to_string()]), None);
    assert_eq!(platforms_from_tags(&vec![]), Some(vec![]));
}

#[test]
fn members_are_read_by_their_json_text() {
    let fields: Vec<(String, String)> = [
        ("name", "\"util\""),
        ("cxx_options", "{\"rtti\":true,\"async_await\":false,\"standard\":\"c++14\"}"),
        ("output_type", "\"static_library\""),
        ("link_libraries", "[]"),
        ("supported_targets", "[\"win64\"]"),
        ("dependencies", "[]"),
    ]
    .iter()
    .map(|(k, v)| (k.to_string(), v.to_string()))
    .collect();
    let config = manifest_from_fields(&fields).unwrap();
    assert_eq!(config.name, "util");
    assert!(config.cxx_options.rtti);
    assert!(!config.cxx_options.async_await);
    assert_eq!(config.cxx_options.standard, CxxStandard::Cxx14);
    assert_eq!(config.output_type, OutputType::StaticLibrary);
    assert_eq!(config.supported_targets, vec![Platform::Win64]);
    assert!(manifest_from_fields(&fields[1..].to_vec()).is_none());
}
