use claudedeck::scanner::{
    file_has_log_extension, load_usage_data, scan_entry, DirEntry, RootSnapshot,
};

fn file(name: &str, content: &str) -> DirEntry {
    DirEntry::File { name: name.to_string(), content: content.to_string() }
}

fn dir(name: &str, entries: Vec<DirEntry>) -> DirEntry {
    DirEntry::Dir { name: name.to_string(), entries }
}

#[test]
fn log_extension_matches_only_jsonl_files() {
    assert!(file_has_log_extension("a.jsonl"));
    assert!(file_has_log_extension("x.y.jsonl"));
    assert!(!file_has_log_extension("a.json"));
    assert!(!file_has_log_extension(".jsonl"));
    assert!(!file_has_log_extension("jsonl"));
    assert!(!file_has_log_extension("a.JSONL"));
    assert!(!file_has_log_extension(""));
}

#[test]
fn scan_finds_deeply_nested_log_files_and_ignores_others() {
    let tree = dir(
        "projects",
        vec![
            file("top.jsonl", "t"),
            file("notes.txt", "n"),
            dir(
                "p1",
                vec![dir(
                    "sessions",
                    vec![file("deep.jsonl", "d"), file("other.json", "o")],
                )],
            ),
        ],
    );
    let records = scan_entry(&tree, "/root/");
    let paths: Vec<String> = records.iter().map(|r| r.path.clone()).collect();
    assert_eq!(paths, vec![
        "/root/projects/top.jsonl".to_string(),
        "/root/projects/p1/sessions/deep.jsonl".to_string(),
    ]);
    let contents: Vec<String> = records.iter().map(|r| r.content.clone()).collect();
    assert_eq!(contents, vec!["t".to_string(), "d".to_string()]);
}

#[test]
fn scan_of_empty_directory_is_empty() {
    let tree = dir("projects", Vec::new());
    assert!(scan_entry(&tree, "").is_empty());
}

#[test]
fn load_with_zero_roots_returns_empty_not_error() {
    let roots: Vec<RootSnapshot> = Vec::new();
    let loaded = load_usage_data(None, &roots);
    assert_eq!(loaded, Ok(Vec::new()));
}

#[test]
fn root_without_projects_subdirectory_is_skipped() {
    let root = RootSnapshot {
        path: "/r".to_string(),
        entries: vec![file("stray.jsonl", "x"), dir("sessions", vec![file("a.jsonl", "a")])],
    };
    let loaded = load_usage_data(None, &vec![root]);
    assert_eq!(loaded, Ok(Vec::new()));
}

#[test]
fn load_collects_contents_under_projects_in_root_order() {
    let r1 = RootSnapshot {
        path: "/one".to_string(),
        entries: vec![dir("projects", vec![file("a.jsonl", "alpha"), file("skip.txt", "no")])],
    };
    let r2 = RootSnapshot { path: "/two".to_string(), entries: vec![file("loose.jsonl", "no")] };
    let r3 = RootSnapshot {
        path: "/three".to_string(),
        entries: vec![dir("projects", vec![dir("nested", vec![file("b.jsonl", "beta")])])],
    };
    let loaded = load_usage_data(Some("2024-01-01".to_string()), &vec![r1, r2, r3]);
    assert_eq!(loaded, Ok(vec!["alpha".to_string(), "beta".to_string()]));
}
