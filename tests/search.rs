use litespeed_ide::search::{matches_folded, SearchManager, SourceFile};

fn one_file(path: &str, content: &str) -> Vec<SourceFile> {
    vec![SourceFile { path: path.to_string(), content: content.to_string() }]
}

#[test]
fn test_search_files() {
    let files = one_file("test.txt", "Hello World\nThis is a test\n");
    let mut search_manager = SearchManager::new();
    let results = search_manager.search_files("test", &files, false, false);
    assert_eq!(results.len(), 1);
    assert!(results[0].line_content.contains("test"));
}

#[test]
fn test_search_case_insensitive() {
    let files = one_file("test.txt", "Hello World\nThis is a TEST\nthis is test\n");
    let mut search_manager = SearchManager::new();
    let results = search_manager.search_files("test", &files, false, false);
    assert_eq!(results.len(), 2);
}

#[test]
fn test_search_case_sensitive() {
    let files = one_file("test.txt", "Hello World\nThis is a TEST\nthis is test\n");
    let mut search_manager = SearchManager::new();
    let results = search_manager.search_files("test", &files, false, true);
    assert_eq!(results.len(), 1);
}

#[test]
fn search_reports_line_numbers_and_paths() {
    let files = vec![
        SourceFile { path: "a.txt".to_string(), content: "x\r\nneedle here\n".to_string() },
        SourceFile { path: "b.txt".to_string(), content: "NEEDLE".to_string() },
    ];
    let mut m = SearchManager::new();
    let r = m.search_files("needle", &files, false, false);
    assert_eq!(r.len(), 2);
    assert_eq!(r[0].file_path, "a.txt");
    assert_eq!(r[0].line_number, 2);
    assert_eq!(r[0].line_content, "needle here");
    assert_eq!(r[1].file_path, "b.txt");
    assert_eq!(r[1].line_number, 1);
    assert_eq!(r[1].line_content, "NEEDLE");
    assert!(m.index.is_empty());
}

#[test]
fn search_skips_binary_files() {
    let files = one_file("image.png", "test\n");
    let mut m = SearchManager::new();
    assert!(m.search_files("test", &files, false, true).is_empty());
}

#[test]
fn regex_search_finds_nothing() {
    let files = one_file("t.txt", "test\n");
    let mut m = SearchManager::new();
    assert!(m.search_files("test", &files, true, true).is_empty());
}

#[test]
fn workspace_search_ignores_case() {
    let files = one_file("t.txt", "TeSt\n");
    let mut m = SearchManager::new();
    assert_eq!(m.search_workspace("test", &files).len(), 1);
}

#[test]
fn lone_carriage_return_stays_in_last_line() {
    let files = one_file("t.txt", "a\r\nab\r");
    let mut m = SearchManager::new();
    let r = m.search_files("ab", &files, false, true);
    assert_eq!(r.len(), 1);
    assert_eq!(r[0].line_content, "ab\r");
    let r = m.search_files("a", &files, false, true);
    assert_eq!(r[0].line_content, "a");
}

#[test]
fn folded_match() {
    assert!(matches_folded("this is a test", "test"));
    assert!(!matches_folded("this is a tes", "test"));
}
