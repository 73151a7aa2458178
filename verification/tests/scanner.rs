use miller::scanner::{
    calculate_sha256, is_hidden_or_ignored, is_scanned, CodebaseCache, FileState, ProjectScan,
    Reading, CACHE_FILE_NAME,
};

fn reading(content: &str, modified: u64) -> Reading {
    Reading { content: content.to_string(), modified }
}

fn paths(cache: &CodebaseCache) -> Vec<String> {
    cache.entries().iter().map(|e| e.0.clone()).collect()
}

fn state(path: &str, hash: &str, modified: u64) -> FileState {
    FileState {
        file_path: path.to_string(),
        sha256_hash: hash.to_string(),
        last_modified: modified,
    }
}

#[test]
fn hidden_and_built_entries_are_ignored() {
    assert_eq!(CACHE_FILE_NAME, ".miller_cache.json");
    assert!(!is_hidden_or_ignored(0, Some(".git")));
    assert!(!is_hidden_or_ignored(0, Some("target")));
    assert!(is_hidden_or_ignored(1, Some(".git")));
    assert!(is_hidden_or_ignored(2, Some("target")));
    assert!(is_hidden_or_ignored(1, Some("node_modules")));
    assert!(!is_hidden_or_ignored(1, Some("targets")));
    assert!(!is_hidden_or_ignored(1, Some("src")));
    assert!(!is_hidden_or_ignored(1, None));
}

#[test]
fn rust_files_are_scanned() {
    assert!(is_scanned(true, Some("rs"), Some("main.rs")));
    assert!(!is_scanned(false, Some("rs"), Some("main.rs")));
    assert!(!is_scanned(true, Some("py"), Some("main.py")));
    assert!(!is_scanned(true, None, Some("Makefile")));
    assert!(!is_scanned(true, Some("rs"), Some("sandbox.rs")));
    assert!(!is_scanned(true, Some("rs"), Some("sandbox_exec")));
    assert!(is_scanned(true, Some("rs"), None));
}

#[test]
fn hashes_are_those_of_sha256() {
    assert_eq!(
        calculate_sha256(""),
        "e3b0c44298fc1c149afbf4c8996fb92427ae41e4649b934ca495991b7852b855"
    );
    assert_eq!(
        calculate_sha256("abc"),
        "ba7816bf8f01cfea414140de5dae2223b00361a396177a9cb410ff61f20015ad"
    );
}

#[test]
fn cache_remembers_one_state_for_each_path() {
    let mut cache = CodebaseCache::new();
    assert!(cache.get("a").is_none());
    cache.insert("a".to_string(), state("a", "1", 1));
    cache.insert("b".to_string(), state("b", "2", 2));
    cache.insert("a".to_string(), state("a", "3", 3));
    assert_eq!(cache.entries().len(), 2);
    assert_eq!(cache.get("a").unwrap().sha256_hash, "3");
    assert_eq!(cache.get("a").unwrap().last_modified, 3);
    assert_eq!(cache.get("b").unwrap().sha256_hash, "2");
    assert!(cache.get("c").is_none());
    assert!(CodebaseCache::default().entries().is_empty());
    let copy = cache.clone();
    assert_eq!(format!("{:?}", copy), format!("{:?}", cache));
}

#[test]
fn scan_remembers_what_it_finds() {
    let mut old = CodebaseCache::new();
    old.insert("gone.rs".to_string(), state("gone.rs", "1", 1));
    let mut scan = ProjectScan::new(old);
    assert!(scan.visit("a.rs", &reading("fn a() {}", 10)));
    assert!(scan.visit("b.rs", &reading("struct B;\nfn b() { a(); }", 20)));
    scan.pass_over();
    assert_eq!(scan.checked(), 3);
    let report = scan.finish();
    assert_eq!((report.checked, report.skipped), (3, 0));
    let names: Vec<&str> = report.changed_nodes.iter().map(|n| n.entity_name.as_str()).collect();
    assert_eq!(names, vec!["a", "B", "b"]);
    assert_eq!(paths(&report.cache), vec!["a.rs", "b.rs"]);
    let a = report.cache.get("a.rs").unwrap();
    assert_eq!(a.file_path, "a.rs");
    assert_eq!(a.sha256_hash, calculate_sha256("fn a() {}"));
    assert_eq!(a.last_modified, 10);
}

#[test]
fn unchanged_project_is_skipped() {
    let files = [("a.rs", "fn a() {}", 10), ("b.rs", "fn b() {}", 20)];
    let mut first = ProjectScan::new(CodebaseCache::new());
    for (path, content, modified) in files {
        assert!(first.visit(path, &reading(content, modified)));
    }
    let mut second = ProjectScan::new(first.finish().cache);
    for (path, content, modified) in files {
        assert!(second.visit(path, &reading(content, modified)));
        second.pass_over();
    }
    let report = second.finish();
    assert_eq!((report.checked, report.skipped), (4, 2));
    assert!(report.changed_nodes.is_empty());
    assert_eq!(paths(&report.cache), vec!["a.rs", "b.rs"]);
}

#[test]
fn changed_file_is_extracted() {
    let mut first = ProjectScan::new(CodebaseCache::new());
    first.visit("a.rs", &reading("fn a() {}", 10));
    first.visit("b.rs", &reading("fn b() {}", 20));
    first.visit("c.rs", &reading("fn c() {}", 30));
    let mut second = ProjectScan::new(first.finish().cache);
    assert!(second.is_changed("new.rs", "x", 1));
    second.visit("a.rs", &reading("fn a() {}", 10));
    second.visit("b.rs", &reading("fn b2() {}", 20));
    second.visit("c.rs", &reading("fn c() {}", 31));
    let report = second.finish();
    assert_eq!((report.checked, report.skipped), (3, 1));
    let names: Vec<&str> = report.changed_nodes.iter().map(|n| n.entity_name.as_str()).collect();
    assert_eq!(names, vec!["b2", "c"]);
    assert_eq!(report.cache.get("c.rs").unwrap().last_modified, 31);
}

#[test]
fn recorded_files_count() {
    let mut scan = ProjectScan::new(CodebaseCache::new());
    scan.record("a.rs", "h".to_string(), 1, None);
    scan.record("b.rs", "h".to_string(), 1, Some(vec![]));
    let report = scan.finish();
    assert_eq!((report.checked, report.skipped), (2, 1));
    assert_eq!(paths(&report.cache), vec!["a.rs", "b.rs"]);
}
