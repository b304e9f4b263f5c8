use abs_build::edit_times::{
    edit_time, should_build_artifact, should_build_artifacts, should_build_artifacts_impl,
    should_rebuild, PathTimes,
};

fn times(entries: &[(&str, u64)]) -> PathTimes {
    let mut t = PathTimes::new();
    for (p, v) in entries {
        t.record(p, *v);
    }
    t
}

fn strings(v: &[&str]) -> Vec<String> {
    v.iter().map(|s| s.to_string()).collect()
}

#[test]
fn table_records_and_forgets() {
    let mut t = PathTimes::new();
    assert_eq!(t.get("a"), None);
    t.record("a", 5);
    t.record("b", 7);
    assert_eq!(t.get("a"), Some(5));
    assert_eq!(t.get("b"), Some(7));
    t.record("a", 9);
    assert_eq!(t.get("a"), Some(9));
    t.forget("a");
    assert_eq!(t.get("a"), None);
    assert_eq!(t.get("b"), Some(7));
    t.forget("missing");
    t.record("a", 1);
    assert_eq!(t.get("a"), Some(1));
}

#[test]
fn oracle_memoises_and_falls_back() {
    let disk = times(&[("main.cpp", 100)]);
    let mut memo = PathTimes::new();
    assert_eq!(edit_time(&mut memo, &disk, "main.cpp", 0), 100);
    assert_eq!(edit_time(&mut memo, &disk, "gone.h", u64::MAX), u64::MAX);
    assert_eq!(edit_time(&mut memo, &disk, "gone.obj", 0), 0);
    // the first answer stays, whatever the fallback of a later question
    assert_eq!(edit_time(&mut memo, &disk, "gone.h", 0), u64::MAX);
    // and whatever happens on disk, until it is forgotten
    let later = times(&[("main.cpp", 200)]);
    assert_eq!(edit_time(&mut memo, &later, "main.cpp", 0), 100);
    memo.forget("main.cpp");
    assert_eq!(edit_time(&mut memo, &later, "main.cpp", 0), 200);
}

#[test]
fn newest_dependency_against_oldest_artifact() {
    assert!(should_rebuild(&vec![1, 9, 3], &vec![8, 20]));
    assert!(!should_rebuild(&vec![1, 8, 3], &vec![8, 20]));
    assert!(!should_rebuild(&vec![], &vec![5]));
    assert!(!should_rebuild(&vec![], &vec![]));
    assert!(should_rebuild(&vec![1], &vec![]));
    assert!(!should_rebuild(&vec![0], &vec![]));
    assert!(should_rebuild(&vec![u64::MAX], &vec![u64::MAX - 1]));
}

#[test]
fn up_to_date_artifact_is_kept_twice_in_a_row() {
    let disk = times(&[("abs.json", 10), ("main.cpp", 20), ("h.h", 15), ("main.obj", 30)]);
    let mut memo = PathTimes::new();
    let deps = strings(&["main.cpp", "h.h"]);
    assert!(!should_build_artifact(&mut memo, &disk, "abs.json", &deps, "main.obj"));
    assert!(!should_build_artifact(&mut memo, &disk, "abs.json", &deps, "main.obj"));
    assert_eq!(memo.get("main.obj"), Some(30));
}

#[test]
fn touched_manifest_forces_the_rebuild() {
    let disk = times(&[("abs.json", 40), ("main.cpp", 20), ("main.obj", 30)]);
    let mut memo = PathTimes::new();
    assert!(should_build_artifact(&mut memo, &disk, "abs.json", &strings(&["main.cpp"]), "main.obj"));
    // the artifact was forgotten, the dependencies are still held
    assert_eq!(memo.get("main.obj"), None);
    assert_eq!(memo.get("abs.json"), Some(40));
    assert_eq!(memo.get("main.cpp"), Some(20));
}

#[test]
fn touched_header_rebuilds_only_what_includes_it() {
    let disk = times(&[
        ("abs.json", 1),
        ("a.cpp", 2),
        ("b.cpp", 2),
        ("h.h", 50),
        ("a.obj", 10),
        ("b.obj", 10),
    ]);
    let mut memo = PathTimes::new();
    assert!(should_build_artifact(&mut memo, &disk, "abs.json", &strings(&["a.cpp", "h.h"]), "a.obj"));
    assert!(!should_build_artifact(&mut memo, &disk, "abs.json", &strings(&["b.cpp"]), "b.obj"));
}

#[test]
fn missing_files_count_as_newest_dependency_and_oldest_artifact() {
    let disk = times(&[("abs.json", 1), ("a.cpp", 2), ("a.obj", 10)]);
    let mut memo = PathTimes::new();
    assert!(should_build_artifact(&mut memo, &disk, "abs.json", &strings(&["a.cpp", "gone.h"]), "a.obj"));
    let mut memo = PathTimes::new();
    assert!(should_build_artifact(&mut memo, &disk, "abs.json", &strings(&["a.cpp"]), "gone.obj"));
    // with every time at 0 nothing is newer than a missing artifact
    let zero = times(&[("abs.json", 0), ("a.cpp", 0)]);
    let mut memo = PathTimes::new();
    assert!(!should_build_artifact(&mut memo, &zero, "abs.json", &strings(&["a.cpp"]), "gone.obj"));
}

#[test]
fn only_the_measured_artifacts_decide_and_all_are_forgotten() {
    let disk = times(&[("abs.json", 1), ("a.idl", 30), ("x.winmd", 40), ("y.txt", 5)]);
    let mut memo = PathTimes::new();
    memo.record("y.txt", 5);
    let measured = strings(&["x.winmd"]);
    let all = strings(&["x.winmd", "y.txt"]);
    assert!(!should_build_artifacts_impl(&mut memo, &disk, "abs.json", &strings(&["a.idl"]), &measured, &all));
    assert_eq!(memo.get("y.txt"), Some(5));
    let newer = times(&[("abs.json", 1), ("a.idl", 50), ("x.winmd", 40), ("y.txt", 5)]);
    let mut memo = PathTimes::new();
    memo.record("y.txt", 5);
    assert!(should_build_artifacts_impl(&mut memo, &newer, "abs.json", &strings(&["a.idl"]), &measured, &all));
    assert_eq!(memo.get("x.winmd"), None);
    assert_eq!(memo.get("y.txt"), None);
    assert_eq!(memo.get("a.idl"), Some(50));
}

#[test]
fn artifacts_of_a_directory_are_chosen_by_extension() {
    let disk = times(&[("abs.json", 1), ("x.winmd", 30), ("out/a.h", 40), ("out/b.h", 35), ("out/log.txt", 2)]);
    let entries = strings(&["out/a.h", "out/log.txt", "out/b.h"]);
    let headers = strings(&["h", "hpp"]);
    let mut memo = PathTimes::new();
    assert!(!should_build_artifacts(&mut memo, &disk, "abs.json", &strings(&["x.winmd"]), Some(&entries), &headers));
    // the text file is older than the dependency, but is not measured
    assert_eq!(memo.get("out/log.txt"), None);
    let mut memo = PathTimes::new();
    let every = strings(&["h", "txt"]);
    assert!(should_build_artifacts(&mut memo, &disk, "abs.json", &strings(&["x.winmd"]), Some(&entries), &every));
    assert_eq!(memo.get("out/a.h"), None);
    // no directory: build
    let mut memo = PathTimes::new();
    assert!(should_build_artifacts(&mut memo, &disk, "abs.json", &strings(&["x.winmd"]), None, &headers));
    assert_eq!(memo.get("x.winmd"), None);
    // an empty directory counts as oldest
    let mut memo = PathTimes::new();
    assert!(should_build_artifacts(&mut memo, &disk, "abs.json", &strings(&["x.winmd"]), Some(&vec![]), &headers));
}
