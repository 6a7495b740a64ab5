use sandbox_sync::filter::PathFilter;
use sandbox_sync::walk::RawEntry;
use sandbox_sync::walk::is_pruned;
use sandbox_sync::walk::select_directories;

fn dir(path: &str) -> RawEntry {
    RawEntry { path: String::from(path), is_dir: true, is_symlink: false }
}

fn file(path: &str) -> RawEntry {
    RawEntry { path: String::from(path), is_dir: false, is_symlink: false }
}

fn symlink_dir(path: &str) -> RawEntry {
    RawEntry { path: String::from(path), is_dir: true, is_symlink: true }
}

#[test]
fn test_select_keeps_ordinary_directories() {
    let filter = PathFilter::new().unwrap();
    let entries = vec![
        dir("dir1"),
        dir("dir1/subdir1"),
        dir("dir1/subdir2"),
        dir("dir2"),
        dir("dir3"),
        dir("dir3/nested"),
        dir("dir3/nested/deep"),
        file("file.txt"),
        file("dir1/file.R"),
    ];
    let set = select_directories(&entries, &filter);
    assert!(set.contains("dir1"));
    assert!(set.contains("dir1/subdir1"));
    assert!(set.contains("dir1/subdir2"));
    assert!(set.contains("dir2"));
    assert!(set.contains("dir3"));
    assert!(set.contains("dir3/nested"));
    assert!(set.contains("dir3/nested/deep"));
    assert!(!set.contains("file.txt"));
    assert!(!set.contains("dir1/file.R"));
    assert_eq!(set.len(), 7);
}

#[test]
fn test_excluded_directory_contributes_no_descendants() {
    // Subtree pruning: descendants of an excluded directory never appear,
    // even when their own names match no rule.
    let filter = PathFilter::new().unwrap();
    let entries = vec![
        dir(".git"),
        dir(".git/objects"),
        dir(".git/objects/pack"),
        dir("tmp"),
        dir("tmp/ordinary_name"),
        dir("dir1"),
        dir("dir1/.hidden"),
        dir("dir1/.hidden/innocent"),
        dir("dir1/kept"),
    ];
    let set = select_directories(&entries, &filter);
    assert!(!set.contains(".git"));
    assert!(!set.contains(".git/objects"));
    assert!(!set.contains(".git/objects/pack"));
    assert!(!set.contains("tmp"));
    assert!(!set.contains("tmp/ordinary_name"));
    assert!(!set.contains("dir1/.hidden"));
    assert!(!set.contains("dir1/.hidden/innocent"));
    assert!(set.contains("dir1"));
    assert!(set.contains("dir1/kept"));
    assert_eq!(set.len(), 2);
}

#[test]
fn test_symlinked_directories_never_selected() {
    let filter = PathFilter::new().unwrap();
    let entries = vec![dir("regular"), symlink_dir("link")];
    let set = select_directories(&entries, &filter);
    assert!(set.contains("regular"));
    assert!(!set.contains("link"));
}

#[test]
fn test_root_itself_not_selected() {
    let filter = PathFilter::new().unwrap();
    let entries = vec![dir(""), dir("child")];
    let set = select_directories(&entries, &filter);
    assert!(!set.contains(""));
    assert!(set.contains("child"));
}

#[test]
fn test_is_pruned_sees_ancestors() {
    let filter = PathFilter::new().unwrap();
    assert!(is_pruned(&filter, ".git/objects"));
    assert!(is_pruned(&filter, "tmp/a/b"));
    assert!(is_pruned(&filter, "a/tmp/b"));
    assert!(!is_pruned(&filter, "a/b/c"));
}

#[test]
fn test_select_with_custom_patterns_prunes_matching_subtrees() {
    let patterns = vec![String::from("**/build")];
    let filter = PathFilter::with_custom_patterns(&patterns).unwrap();
    let entries = vec![dir("build"), dir("build/out"), dir("src")];
    let set = select_directories(&entries, &filter);
    assert!(!set.contains("build"));
    assert!(!set.contains("build/out"));
    assert!(set.contains("src"));
}

#[test]
fn test_unsafe_entry_paths_never_selected() {
    // Enumerated sets hold well-formed relative paths only: an absolute
    // path or one with a parent-reference component never enters.
    let filter = PathFilter::new().unwrap();
    let entries = vec![dir("/abs/path"), dir("up/../side"), dir("../escape"), dir("fine")];
    let set = select_directories(&entries, &filter);
    assert!(!set.contains("/abs/path"));
    assert!(!set.contains("up/../side"));
    assert!(!set.contains("../escape"));
    assert!(set.contains("fine"));
    assert_eq!(set.len(), 1);
}
