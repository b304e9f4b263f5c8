use abs_build::proj_config::Platform;
use abs_build::toolchain_paths::{
    decimal, newest_edition, newest_version, newest_year, parse_number, parse_version,
    version_newer, ToolchainChoice, ToolchainPaths,
};
use abs_build::text::chars_of;

fn strings(v: &[&str]) -> Vec<String> {
    v.iter().map(|s| s.to_string()).collect()
}

#[test]
fn versions_are_read() {
    assert_eq!(parse_version::<3>("14.29.30133"), Some([14, 29, 30133]));
    assert_eq!(parse_version::<4>("10.0.19041.0"), Some([10, 0, 19041, 0]));
    assert_eq!(parse_version::<3>("10.0.19041.0"), None);
    assert_eq!(parse_version::<4>("14.29.30133"), None);
    assert_eq!(parse_version::<3>("14.29."), None);
    assert_eq!(parse_version::<3>("14..3"), None);
    assert_eq!(parse_version::<3>("a.b.c"), None);
    assert_eq!(parse_version::<1>(""), None);
    assert_eq!(parse_version::<1>("7"), Some([7]));
    assert_eq!(parse_version::<2>("+1.007"), Some([1, 7]));
    assert_eq!(parse_version::<2>("-1.7"), None);
    assert_eq!(parse_version::<1>("18446744073709551615"), Some([u64::MAX]));
    assert_eq!(parse_version::<1>("18446744073709551616"), None);
    assert_eq!(parse_version::<0>(""), None);
}

#[test]
fn numbers_are_read_from_a_range() {
    let s = chars_of("ab123cd");
    assert_eq!(parse_number(&s, 2, 5), Some(123));
    assert_eq!(parse_number(&s, 2, 2), None);
    assert_eq!(parse_number(&s, 1, 5), None);
    assert_eq!(parse_number(&chars_of("+"), 0, 1), None);
    assert_eq!(parse_number(&chars_of("+0"), 0, 2), Some(0));
}

#[test]
fn versions_are_ordered_place_by_place() {
    assert!(version_newer(&[14, 29, 1], &[14, 28, 9]));
    assert!(!version_newer(&[14, 28, 9], &[14, 29, 1]));
    assert!(!version_newer(&[1, 2, 3], &[1, 2, 3]));
    assert!(version_newer(&[2, 0, 0], &[1, 99, 99]));
}

#[test]
fn newest_version_is_chosen_and_written_anew() {
    assert_eq!(
        newest_version::<3>(&strings(&["14.16.27023", "14.29.30133", "notes", "14.9.1"])),
        Some("14.29.30133".to_string())
    );
    assert_eq!(
        newest_version::<4>(&strings(&["10.0.17763.0", "10.0.19041.0", "wdf", "10.0.18362.0"])),
        Some("10.0.19041.0".to_string())
    );
    assert_eq!(newest_version::<3>(&strings(&["Community", "x"])), None);
    assert_eq!(newest_version::<3>(&vec![]), None);
    assert_eq!(newest_version::<2>(&strings(&["01.002"])), Some("1.2".to_string()));
}

#[test]
fn numbers_are_written_in_decimal() {
    assert_eq!(decimal(0), "0");
    assert_eq!(decimal(7), "7");
    assert_eq!(decimal(10), "10");
    assert_eq!(decimal(2019), "2019");
    assert_eq!(decimal(u64::MAX), "18446744073709551615");
}

#[test]
fn latest_year_and_edition() {
    assert_eq!(newest_year(&strings(&["2017", "Installer", "2019", "Shared"])), Some(2019));
    assert_eq!(newest_year(&strings(&["Installer"])), None);
    assert_eq!(newest_year(&strings(&["70000", "2015"])), Some(2015));
    assert_eq!(
        newest_edition(&vec![
            ("BuildTools".to_string(), 100),
            ("Preview".to_string(), 300),
            ("Community".to_string(), 200),
            ("Late".to_string(), 300),
        ]),
        "Preview"
    );
    assert_eq!(newest_edition(&vec![]), "Community");
    assert_eq!(newest_edition(&vec![("Enterprise".to_string(), 0)]), "Community");
}

fn choice() -> ToolchainChoice {
    ToolchainChoice {
        program_files: "C:\\Program Files (x86)".to_string(),
        year: 2019,
        edition: "Community".to_string(),
        msvc_version: "14.29.30133".to_string(),
        sdk_include_version: "10.0.19041.0".to_string(),
        sdk_lib_version: "10.0.18362.0".to_string(),
        sdk_bin_version: "10.0.17763.0".to_string(),
    }
}

#[test]
fn search_paths_follow_from_the_choice() {
    let paths = ToolchainPaths::find(Platform::Win32, 64, &choice());
    let version = "C:\\Program Files (x86)/Microsoft Visual Studio/2019/Community/VC/Tools/MSVC/14.29.30133";
    let kits = "C:\\Program Files (x86)/Windows Kits/10";
    assert_eq!(
        paths.debugger_path,
        "C:\\Program Files (x86)/Microsoft Visual Studio/2019/Community/Common7/IDE/devenv.exe"
    );
    assert_eq!(
        paths.include_paths,
        vec![
            format!("{}/ATLMFC/include", version),
            format!("{}/include", version),
            format!("{}/Include/10.0.19041.0/ucrt", kits),
            format!("{}/Include/10.0.19041.0/shared", kits),
            format!("{}/Include/10.0.19041.0/um", kits),
            format!("{}/Include/10.0.19041.0/winrt", kits),
        ]
    );
    assert_eq!(
        paths.lib_paths,
        vec![
            format!("{}/ATLMFC/lib/x86", version),
            format!("{}/lib/x86", version),
            format!("{}/Lib/10.0.18362.0/ucrt/x86", kits),
            format!("{}/Lib/10.0.18362.0/um/x86", kits),
        ]
    );
    assert_eq!(
        paths.bin_paths,
        vec![
            format!("{}/bin/Hostx64/x86", version),
            format!("{}/bin/10.0.17763.0/x64", kits),
        ]
    );
    let on32 = ToolchainPaths::find(Platform::Win64, 32, &choice());
    assert_eq!(on32.bin_paths[0], format!("{}/bin/Hostx86/x64", version));
    assert_eq!(on32.bin_paths[1], format!("{}/bin/10.0.17763.0/x86", kits));
}
