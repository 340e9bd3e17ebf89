use hyperforge::v5::ops::analytics::{classify, large_files, loc_by_language, repo_size, AnalyticsError, LargeFile};

fn file(path: &str, size: u64) -> LargeFile {
    LargeFile { path: path.to_string(), size }
}

#[test]
fn size_skips_dotgit() {
    // The walk leaves `.git/` out; what it found is one five-byte file.
    let s = repo_size(&[file("a.txt", 5)]);
    assert_eq!(s.file_count, 1);
    assert_eq!(s.bytes, 5);
}

#[test]
fn loc_groups_by_extension() {
    let files = vec![("rs".to_string(), 2), ("rs".to_string(), 1), ("toml".to_string(), 2)];
    let m = loc_by_language(&files);
    assert_eq!(m, vec![("rust".to_string(), 3), ("toml".to_string(), 2)]);
}

#[test]
fn loc_counts_unknown_extensions_as_other_in_order() {
    let files = vec![
        ("yml".to_string(), 4),
        ("".to_string(), 7),
        ("bin".to_string(), 1),
        ("yaml".to_string(), 1),
        ("c".to_string(), 3),
    ];
    let m = loc_by_language(&files);
    assert_eq!(m, vec![("c".to_string(), 3), ("other".to_string(), 8), ("yaml".to_string(), 5)]);
    assert!(loc_by_language(&vec![]).is_empty());
}

#[test]
fn large_files_filters_and_sorts() {
    let files = vec![file("tiny", 10), file("big", 1024), file("huge", 4096)];
    let out = large_files(&files, 1000);
    assert_eq!(out.len(), 2);
    assert_eq!(out[0].size, 4096);
    assert_eq!(out[1].size, 1024);
}

#[test]
fn large_files_keeps_threshold_and_walk_order_on_ties() {
    let files = vec![file("a", 100), file("b", 50), file("c", 100), file("d", 99)];
    let out = large_files(&files, 100);
    let names: Vec<&str> = out.iter().map(|f| f.path.as_str()).collect();
    assert_eq!(names, vec!["a", "c"]);
}

#[test]
fn classify_known_and_unknown() {
    assert_eq!(classify("rs"), Some("rust"));
    assert_eq!(classify("hh"), Some("cpp"));
    assert_eq!(classify("lock"), Some("lockfile"));
    assert_eq!(classify("exe"), None);
}

#[test]
fn analytics_error_messages() {
    assert_eq!(AnalyticsError::NotADir("/x".to_string()).code(), "not_a_directory");
    assert_eq!(AnalyticsError::Io("boom".to_string()).message(), "io error: boom");
}
