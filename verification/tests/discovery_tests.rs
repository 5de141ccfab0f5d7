use forc_perf::discovery::{select_benchmarks, DiscoveredEntry};

fn entry(name: &str, is_dir: bool, has_manifest: bool) -> DiscoveredEntry {
    DiscoveredEntry {
        name: String::from(name),
        path: format!("/work/tests/suite/{name}"),
        is_dir,
        has_manifest,
    }
}

#[test]
fn empty_tests_directory_yields_no_benchmarks() {
    let entries: Vec<DiscoveredEntry> = Vec::new();
    let benchmarks = select_benchmarks(&entries);
    assert!(benchmarks.is_empty());
}

#[test]
fn qualifying_entries_become_fresh_benchmarks_in_order() {
    let entries = vec![
        entry("alpha", true, true),
        entry("beta", true, true),
    ];
    let benchmarks = select_benchmarks(&entries);
    assert_eq!(benchmarks.len(), 2);
    assert_eq!(benchmarks[0].name, "alpha");
    assert_eq!(benchmarks[1].name, "beta");
    assert_eq!(benchmarks[0].path, "/work/tests/suite/alpha");
    assert_eq!(benchmarks[0].start_time, None);
    assert_eq!(benchmarks[0].end_time, None);
    assert_eq!(benchmarks[0].bytecode_size, None);
    assert!(benchmarks[0].phases.is_empty());
    assert!(benchmarks[0].frames.is_empty());
}

#[test]
fn entry_without_manifest_is_passed_over() {
    let entries = vec![
        entry("good", true, true),
        entry("no-manifest", true, false),
        entry("stray-file", false, false),
        entry("late", true, true),
    ];
    let benchmarks = select_benchmarks(&entries);
    assert_eq!(benchmarks.len(), 2);
    assert_eq!(benchmarks[0].name, "good");
    assert_eq!(benchmarks[1].name, "late");
}
