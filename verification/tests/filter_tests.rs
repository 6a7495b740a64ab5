use sandbox_sync::filter::FilterError;
use sandbox_sync::filter::PathFilter;

#[test]
fn test_filter_excludes_git() {
    let filter = PathFilter::new().unwrap();
    assert!(filter.should_exclude(".git"));
    assert!(filter.should_exclude("foo/.git"));
    assert!(filter.should_exclude("foo/.git/objects"));
}

#[test]
fn test_filter_excludes_rproj_user() {
    let filter = PathFilter::new().unwrap();
    assert!(filter.should_exclude(".Rproj.user"));
    assert!(filter.should_exclude("project/.Rproj.user"));
    assert!(filter.should_exclude("project/.Rproj.user/settings"));
}

#[test]
fn test_filter_excludes_vscode_positron() {
    let filter = PathFilter::new().unwrap();
    assert!(filter.should_exclude(".vscode"));
    assert!(filter.should_exclude(".positron"));
    assert!(filter.should_exclude("foo/.vscode/settings.json"));
}

#[test]
fn test_filter_excludes_pycache() {
    let filter = PathFilter::new().unwrap();
    assert!(filter.should_exclude("__pycache__"));
    assert!(filter.should_exclude("module/__pycache__"));
}

#[test]
fn test_filter_excludes_system_files() {
    let filter = PathFilter::new().unwrap();
    assert!(filter.should_exclude(".DS_Store"));
    assert!(filter.should_exclude("Thumbs.db"));
    assert!(filter.should_exclude("folder/.DS_Store"));
}

#[test]
fn test_filter_excludes_tmp() {
    let filter = PathFilter::new().unwrap();
    assert!(filter.should_exclude("tmp"));
    assert!(filter.should_exclude("tmp/file"));
    assert!(filter.should_exclude("foo/tmp"));
}

#[test]
fn test_filter_excludes_hidden() {
    let filter = PathFilter::new().unwrap();
    assert!(filter.should_exclude(".hidden"));
    assert!(filter.should_exclude("foo/.hidden"));
    assert!(filter.should_exclude(".config"));
}

#[test]
fn test_filter_allows_normal_paths() {
    let filter = PathFilter::new().unwrap();
    assert!(!filter.should_exclude("foo"));
    assert!(!filter.should_exclude("foo/bar"));
    assert!(!filter.should_exclude("data/results"));
    assert!(!filter.should_exclude("my_script.R"));
}

#[test]
fn test_custom_patterns() {
    let patterns = vec![String::from("**/test_*"), String::from("**/*.bak")];
    let filter = PathFilter::with_custom_patterns(&patterns).unwrap();
    assert!(filter.should_exclude("test_file.txt"));
    assert!(filter.should_exclude("foo/test_data"));
    assert!(filter.should_exclude("backup.bak"));
    assert!(filter.should_exclude("data/old.bak"));
}

#[test]
fn test_filter_with_spaces() {
    let filter = PathFilter::new().unwrap();
    assert!(!filter.should_exclude("dir with spaces"));
    assert!(!filter.should_exclude("path/to/dir with spaces"));
}

#[test]
fn test_filter_with_unicode() {
    let filter = PathFilter::new().unwrap();
    let unicode_path = "folder_\u{4E2D}\u{6587}"; // "folder_中文"
    assert!(!filter.should_exclude(unicode_path));
}

#[test]
fn test_invalid_custom_pattern_reported() {
    let patterns = vec![String::from("[")];
    let err = match PathFilter::with_custom_patterns(&patterns) {
        Ok(_) => panic!("an invalid glob must be rejected"),
        Err(e) => e,
    };
    assert_eq!(err, FilterError::InvalidPattern { pattern: String::from("[") });
}

#[test]
fn test_reserved_component_anywhere_in_ancestry() {
    let filter = PathFilter::new().unwrap();
    assert!(filter.should_exclude(".git/hooks/scripts"));
    assert!(filter.should_exclude("project/__pycache__/module"));
    assert!(filter.should_exclude("a/tmp/b/c"));
    assert!(!filter.should_exclude("a/b/c/d"));
}

#[test]
fn test_construction_succeeds_on_valid_patterns() {
    assert!(PathFilter::new().is_ok());
    let patterns = vec![String::from("**/a"), String::from("b*")];
    assert!(PathFilter::with_custom_patterns(&patterns).is_ok());
}

#[test]
fn test_first_invalid_pattern_reported() {
    let patterns = vec![String::from("ok*"), String::from("["), String::from("[also-bad")];
    let err = match PathFilter::with_custom_patterns(&patterns) {
        Ok(_) => panic!("an invalid glob must be rejected"),
        Err(e) => e,
    };
    assert_eq!(err, FilterError::InvalidPattern { pattern: String::from("[") });
}
