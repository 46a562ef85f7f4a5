use csharp_tools::error::AcquireError;
use csharp_tools::locate::{DirEntry, Locator};
use std::collections::HashMap;

fn file(name: &str) -> DirEntry {
    DirEntry { name: name.to_string(), is_file: true, is_dir: false }
}

fn dir(name: &str) -> DirEntry {
    DirEntry { name: name.to_string(), is_file: false, is_dir: true }
}

/// Runs the search over a tree given as listings by path.
fn find(tree: &HashMap<String, Vec<DirEntry>>, root: &str, target: &str) -> Result<String, AcquireError> {
    let mut loc = Locator::new(root, target);
    while let Some(d) = loc.next_dir() {
        let entries = tree.get(&d).cloned().unwrap_or_default();
        if let Some(found) = loc.visit(&d, &entries) {
            return Ok(found);
        }
    }
    Err(loc.not_found())
}

fn nested_tree() -> HashMap<String, Vec<DirEntry>> {
    let mut t = HashMap::new();
    t.insert("/tmp/x".to_string(), vec![file("README.md"), dir("a"), dir("other")]);
    t.insert("/tmp/x/a".to_string(), vec![file("notes.txt"), dir("b")]);
    t.insert("/tmp/x/a/b".to_string(), vec![dir("c"), file("netcoredbg.dll")]);
    t.insert("/tmp/x/a/b/c".to_string(), vec![file("libdbgshim.so"), file("netcoredbg")]);
    t.insert("/tmp/x/other".to_string(), vec![file("netcoredbg.txt"), dir("deeper")]);
    t.insert("/tmp/x/other/deeper".to_string(), vec![]);
    t
}

#[test]
fn finds_binary_three_levels_deep() {
    let found = find(&nested_tree(), "/tmp/x", "netcoredbg").unwrap();
    assert_eq!(found, "/tmp/x/a/b/c/netcoredbg");
}

#[test]
fn finds_binary_at_root() {
    let mut t = HashMap::new();
    t.insert("/r".to_string(), vec![dir("sub"), file("netcoredbg")]);
    t.insert("/r/sub".to_string(), vec![file("netcoredbg")]);
    assert_eq!(find(&t, "/r", "netcoredbg").unwrap(), "/r/netcoredbg");
}

#[test]
fn no_match_fails_with_binary_not_found() {
    match find(&nested_tree(), "/tmp/x", "netcoredbg.exe") {
        Err(AcquireError::BinaryNotFoundAfterExtraction { name, root }) => {
            assert_eq!(name, "netcoredbg.exe");
            assert_eq!(root, "/tmp/x");
        }
        other => panic!("unexpected {other:?}"),
    }
}

#[test]
fn directory_with_the_name_is_not_a_match() {
    let mut t = HashMap::new();
    t.insert("/r".to_string(), vec![dir("netcoredbg")]);
    t.insert("/r/netcoredbg".to_string(), vec![file("netcoredbg")]);
    assert_eq!(find(&t, "/r", "netcoredbg").unwrap(), "/r/netcoredbg/netcoredbg");
}

#[test]
fn visit_queues_subdirectories() {
    let mut loc = Locator::new("/r", "x");
    assert_eq!(loc.next_dir().as_deref(), Some("/r"));
    assert_eq!(loc.visit("/r", &vec![dir("a"), file("y"), dir("b")]), None);
    assert_eq!(loc.next_dir().as_deref(), Some("/r/b"));
    assert_eq!(loc.next_dir().as_deref(), Some("/r/a"));
    assert_eq!(loc.next_dir(), None);
}
