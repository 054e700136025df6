use litespeed_ide::fs::{is_binary_extension, str_eq, FSManager, FileMetadata};
use litespeed_ide::git::{GitStatus, StatusEntry};
use litespeed_ide::plugin::Permission;
use litespeed_ide::plugins::{go, python, rust};

#[test]
fn binary_files_by_extension() {
    assert!(FSManager::is_binary_file("/tmp/a.png"));
    assert!(FSManager::is_binary_file("lib.tar.gz"));
    assert!(!FSManager::is_binary_file("/tmp/litespeed_test.txt"));
    assert!(!FSManager::is_binary_file("Makefile"));
    assert!(!FSManager::is_binary_file(".so"));
    assert!(is_binary_extension("7z"));
    assert!(!is_binary_extension("rs"));
}

#[test]
fn string_equality() {
    assert!(str_eq("abc", "abc"));
    assert!(!str_eq("abc", "abd"));
    assert!(!str_eq("ab", "abc"));
}

fn entry(path: Option<&str>, flags: [bool; 5]) -> StatusEntry {
    StatusEntry {
        path: path.map(|p| p.to_string()),
        wt_modified: flags[0],
        wt_new: flags[1],
        index_new: flags[2],
        index_modified: flags[3],
        index_renamed: flags[4],
    }
}

#[test]
fn git_status_groups_entries() {
    let entries = vec![
        entry(Some("a.rs"), [true, false, false, true, false]),
        entry(Some("new.txt"), [false, true, false, false, false]),
        entry(None, [false, false, true, false, false]),
        entry(Some("both"), [true, true, false, false, false]),
    ];
    let s = GitStatus::from_entries(Some("main".to_string()), &entries);
    assert_eq!(s.branch, "main");
    assert_eq!(s.modified, vec!["a.rs".to_string(), "both".to_string()]);
    assert_eq!(s.untracked, vec!["new.txt".to_string()]);
    assert_eq!(s.staged, vec!["a.rs".to_string(), "unknown".to_string()]);
    assert!(!s.clean);
    assert_eq!((s.ahead, s.behind), (0, 0));
}

#[test]
fn git_status_clean_and_detached() {
    let entries = vec![entry(Some("s.rs"), [false, false, true, false, false])];
    let s = GitStatus::from_entries(None, &entries);
    assert_eq!(s.branch, "HEAD");
    assert!(s.clean);
    assert_eq!(s.staged.len(), 1);
}

#[test]
fn plugin_metadata() {
    for (m, name) in [(go::metadata(), "go"), (python::metadata(), "python"), (rust::metadata(), "rust")] {
        assert_eq!(m.name, name);
        assert_eq!(m.version, "0.1.0");
        assert_eq!(m.permissions, vec![Permission::ReadFiles, Permission::WriteFiles, Permission::SpawnProcess]);
    }
    assert_eq!(go::GOPLS_COMMAND, "gopls");
    assert_eq!(rust::RUST_ANALYZER_COMMAND, "rust-analyzer");
    assert_eq!(python::PYLSP_COMMAND, "python-language-server");
}

#[test]
fn file_cache_remembers_contents() {
    let mut m = FSManager::new();
    assert_eq!(m.cached("/a.txt"), None);
    m.remember("/a.txt".to_string(), "one".to_string());
    m.remember("/b.txt".to_string(), "two".to_string());
    assert_eq!(m.cached("/a.txt"), Some("one".to_string()));
    m.remember("/a.txt".to_string(), "uno".to_string());
    assert_eq!(m.cached("/a.txt"), Some("uno".to_string()));
    assert_eq!(m.cached("/b.txt"), Some("two".to_string()));
}

#[test]
fn file_metadata_is_a_plain_value() {
    let m = FileMetadata { size: 12, modified: 1_700_000_000, is_binary: FSManager::is_binary_file("a.png") };
    let n = m;
    assert_eq!(m, n);
    assert!(n.is_binary);
}
