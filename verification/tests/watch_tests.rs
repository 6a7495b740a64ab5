use sandbox_sync::filter::PathFilter;
use sandbox_sync::watch::MirrorAction;
use sandbox_sync::watch::RecentlyCreatedCache;
use sandbox_sync::watch::decide_mirror;

#[test]
fn test_recently_created_cache() {
    let mut cache = RecentlyCreatedCache::new();

    let path1 = String::from("/tmp/dir1");
    let path2 = String::from("/tmp/dir2");

    assert!(!cache.contains(&path1));

    cache.insert(path1.clone());
    assert!(cache.contains(&path1));
    assert!(!cache.contains(&path2));

    cache.remove(&path1);
    assert!(!cache.contains(&path1));
}

#[test]
fn test_cache_max_size() {
    let mut cache = RecentlyCreatedCache::with_max_size(5);

    // Insert more than max_size items
    for i in 0..10 {
        cache.insert(format!("/tmp/dir{}", i));
    }

    // Cache should have been cleared at some point
    assert!(cache.len() <= 10);
}

#[test]
fn test_cache_clears_on_overflow() {
    let mut cache = RecentlyCreatedCache::with_max_size(2);
    cache.insert(String::from("/a"));
    cache.insert(String::from("/b"));
    assert_eq!(cache.len(), 2);
    cache.insert(String::from("/c"));
    assert_eq!(cache.len(), 1);
    assert!(cache.contains("/c"));
    assert!(!cache.contains("/a"));
    assert!(!cache.contains("/b"));
}

#[test]
fn test_mirror_then_suppressed_echo() {
    // A directory created under the left root is mirrored to the right
    // root; the creation event the mirror itself raises is recognized
    // through the cache and not mirrored back.
    let filter = PathFilter::new().unwrap();
    let mut cache = RecentlyCreatedCache::new();

    let action = decide_mirror(true, "/left/x", "/left", "/right", &filter, &mut cache, false);
    match action {
        MirrorAction::Mirror { target } => assert_eq!(target, "/right/x"),
        _ => panic!("expected a mirror of /left/x"),
    }
    assert!(cache.contains("/right/x"));

    // The watcher now observes the engine's own creation on the right.
    let echo = decide_mirror(true, "/right/x", "/left", "/right", &filter, &mut cache, false);
    assert!(matches!(echo, MirrorAction::SkipEcho));
    assert!(!cache.contains("/right/x"));
}

#[test]
fn test_mirror_from_right_to_left() {
    let filter = PathFilter::new().unwrap();
    let mut cache = RecentlyCreatedCache::new();
    let action = decide_mirror(true, "/right/y/z", "/left", "/right", &filter, &mut cache, false);
    match action {
        MirrorAction::Mirror { target } => assert_eq!(target, "/left/y/z"),
        _ => panic!("expected a mirror of /right/y/z"),
    }
}

#[test]
fn test_non_creation_events_ignored() {
    let filter = PathFilter::new().unwrap();
    let mut cache = RecentlyCreatedCache::new();
    let action = decide_mirror(false, "/left/x", "/left", "/right", &filter, &mut cache, false);
    assert!(matches!(action, MirrorAction::Ignore));
}

#[test]
fn test_events_outside_roots_ignored() {
    let filter = PathFilter::new().unwrap();
    let mut cache = RecentlyCreatedCache::new();
    let action = decide_mirror(true, "/elsewhere/x", "/left", "/right", &filter, &mut cache, false);
    assert!(matches!(action, MirrorAction::Ignore));
}

#[test]
fn test_excluded_paths_not_mirrored() {
    let filter = PathFilter::new().unwrap();
    let mut cache = RecentlyCreatedCache::new();
    let action = decide_mirror(true, "/left/.git", "/left", "/right", &filter, &mut cache, false);
    assert!(matches!(action, MirrorAction::Ignore));
    let nested = decide_mirror(
        true,
        "/left/project/__pycache__",
        "/left",
        "/right",
        &filter,
        &mut cache,
        false,
    );
    assert!(matches!(nested, MirrorAction::Ignore));
}

#[test]
fn test_dry_run_reports_without_touching_cache() {
    let filter = PathFilter::new().unwrap();
    let mut cache = RecentlyCreatedCache::new();
    let action = decide_mirror(true, "/left/x", "/left", "/right", &filter, &mut cache, true);
    match action {
        MirrorAction::WouldMirror { target } => assert_eq!(target, "/right/x"),
        _ => panic!("expected a dry-run report for /left/x"),
    }
    assert!(!cache.contains("/right/x"));
}
