use abs_build::build_manager::CompilerOutput;
use abs_build::diagnostics::{record_output, Deduplicator, WarningCache};

fn strings(v: &[&str]) -> Vec<String> {
    v.iter().map(|s| s.to_string()).collect()
}

#[test]
fn a_first_line_is_shown_once() {
    let mut seen = Deduplicator::new();
    assert!(!seen.contains("a.h(1): warning C1"));
    assert!(seen.first_showing("a.h(1): warning C1\n  in a.cpp"));
    assert!(seen.contains("a.h(1): warning C1"));
    assert!(!seen.first_showing("a.h(1): warning C1\n  in b.cpp"));
    assert!(seen.first_showing("a.h(2): warning C1"));
}

#[test]
fn replayed_warnings_that_share_a_first_line_are_shown_once() {
    let mut seen = Deduplicator::new();
    let chunks = strings(&[
        "h.h(1): warning C4101: 'x'\n  from a.cpp",
        "h.h(1): warning C4101: 'x'\n  from b.cpp",
        "b.cpp(7): warning C4102: 'y'",
        "h.h(1): warning C4101: 'x'\n  from c.cpp",
        "b.cpp(7): warning C4102: 'y'",
    ]);
    let shown = seen.replay(&chunks);
    assert_eq!(
        shown,
        strings(&["h.h(1): warning C4101: 'x'\n  from a.cpp", "b.cpp(7): warning C4102: 'y'"])
    );
    assert_eq!(seen.replay(&chunks), Vec::<String>::new());
}

#[test]
fn replay_leaves_out_what_the_compiles_showed() {
    let mut seen = Deduplicator::new();
    let mut cache = WarningCache::default();
    let live = CompilerOutput::Warning("h.h(1): warning C4101: 'x'\n  from a.cpp".to_string());
    assert!(record_output(&mut seen, &mut cache, &live).is_some());
    let shown = seen.replay(&strings(&["h.h(1): warning C4101: 'x'\n  from z.cpp", "new: warning"]));
    assert_eq!(shown, strings(&["new: warning"]));
}

#[test]
fn warnings_are_kept_and_errors_are_not() {
    let mut seen = Deduplicator::new();
    let mut cache = WarningCache::default();
    assert!(cache.warnings.is_empty());
    let begun = CompilerOutput::Begun { first_line: "b.cpp".to_string() };
    assert_eq!(record_output(&mut seen, &mut cache, &begun), None);
    assert!(!seen.contains("b.cpp"));
    let w = CompilerOutput::Warning("b.cpp(1): warning W\n  more".to_string());
    assert_eq!(record_output(&mut seen, &mut cache, &w), Some("b.cpp(1): warning W\n  more".to_string()));
    // not shown a second time, but kept a second time
    assert_eq!(record_output(&mut seen, &mut cache, &w), None);
    let e = CompilerOutput::Error("a.cpp(2): error E".to_string());
    assert_eq!(record_output(&mut seen, &mut cache, &e), Some("a.cpp(2): error E".to_string()));
    assert_eq!(record_output(&mut seen, &mut cache, &e), None);
    assert_eq!(cache.warnings, strings(&["b.cpp(1): warning W\n  more", "b.cpp(1): warning W\n  more"]));
}
