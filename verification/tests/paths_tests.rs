use sandbox_sync::paths::PathError;
use sandbox_sync::paths::is_descendant;
use sandbox_sync::paths::relative_path;
use sandbox_sync::paths::safe_join;
use sandbox_sync::paths::to_forward_slashes;
use sandbox_sync::paths::validate_relative_path;

#[test]
fn test_relative_path() {
    let rel = relative_path("/foo/bar", "/foo/bar/baz/qux").unwrap();
    assert_eq!(rel, String::from("baz/qux"));
}

#[test]
fn test_relative_path_rejects_escape() {
    let result = relative_path("/foo/bar", "/foo");
    assert!(result.is_err());
}

#[test]
fn test_validate_relative_path_accepts_valid() {
    assert!(validate_relative_path("foo/bar/baz").is_ok());
}

#[test]
fn test_validate_relative_path_rejects_parent_dir() {
    assert!(validate_relative_path("foo/../bar").is_err());
    assert!(validate_relative_path("../foo").is_err());
}

#[test]
fn test_validate_relative_path_rejects_absolute() {
    assert!(validate_relative_path("/foo/bar").is_err());
}

#[test]
fn test_is_descendant() {
    assert!(is_descendant("/foo/bar", "/foo/bar/baz"));
    assert!(!is_descendant("/foo/bar", "/foo/baz"));
}

#[test]
fn test_to_forward_slashes() {
    let path = "C:\\Users\\test\\file.txt";
    assert_eq!(to_forward_slashes(path), "C:/Users/test/file.txt");

    let path = "/home/user/file.txt";
    assert_eq!(to_forward_slashes(path), "/home/user/file.txt");
}

#[test]
fn test_validate_error_variants() {
    assert_eq!(validate_relative_path("/abs").unwrap_err(), PathError::Absolute);
    assert_eq!(validate_relative_path("a/../b").unwrap_err(), PathError::ParentReference);
}

#[test]
fn test_safe_join_builds_path_inside_base() {
    assert_eq!(safe_join("/base", "sub/dir").unwrap(), String::from("/base/sub/dir"));
    assert_eq!(safe_join("/base/", "sub").unwrap(), String::from("/base/sub"));
    assert_eq!(safe_join("/base", "../escape").unwrap_err(), PathError::ParentReference);
    assert_eq!(safe_join("/base", "/abs").unwrap_err(), PathError::Absolute);
}

#[test]
fn test_is_descendant_is_component_wise() {
    assert!(!is_descendant("/foo/ba", "/foo/bar"));
    assert!(is_descendant("/foo", "/foo"));
}

#[test]
fn test_relative_path_escape_variant() {
    assert_eq!(relative_path("/foo/bar", "/foo").unwrap_err(), PathError::EscapesBase);
}
