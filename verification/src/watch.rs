//! The watch engine's decision logic: given a filesystem event observed
//! under one of the two roots, decide whether to mirror it to the other
//! root, and keep the suppression cache that recognizes the engine's own
//! mirrored creations so they are not mirrored back — the guard against
//! the infinite echo loop.
//!
//! The caller runs the notification loop; it feeds each event's absolute
//! path here and performs the directory creation the decision directs.

use vstd::prelude::*;

use crate::filter::PathFilter;
use crate::filter::spec_should_exclude;
use crate::paths::spec_join;
use crate::walk::is_dir_prefix;

verus! {

/// How many paths the suppression cache holds before it is cleared.
pub const DEFAULT_CACHE_MAX_SIZE: usize = 1000;

/// What a watch run mirrors between.
pub struct WatchOptions {
    pub scripts_path: String,
    pub data_path: String,
    pub dry_run: bool,
}

/// A bounded set of absolute paths the engine itself is about to create
/// or has just created, used to tell self-caused creation events from
/// external ones. On overflow the whole cache is cleared rather than
/// evicting one entry.
pub struct RecentlyCreatedCache {
    entries: Vec<String>,
    max_size: usize,
}

impl RecentlyCreatedCache {
    /// The cached paths, each held once.
    pub closed spec fn view(&self) -> Set<Seq<char>> {
        self.entries.deep_view().to_set()
    }

    /// The bound above which an insertion clears the cache first.
    pub closed spec fn spec_max_size(&self) -> int {
        self.max_size as int
    }

    /// No path is cached twice, and the bound is positive.
    pub closed spec fn wf(&self) -> bool {
        self.entries.deep_view().no_duplicates() && self.max_size >= 1
    }

    /// An empty cache with the default bound.
    pub fn new() -> (r: RecentlyCreatedCache)
        ensures
            r.wf(),
            r@ == Set::<Seq<char>>::empty(),
            r.spec_max_size() == DEFAULT_CACHE_MAX_SIZE,
    {
        Self::with_max_size(DEFAULT_CACHE_MAX_SIZE)
    }

    /// An empty cache that clears once `max_size` entries are held.
    pub fn with_max_size(max_size: usize) -> (r: RecentlyCreatedCache)
        requires
            max_size >= 1,
        ensures
            r.wf(),
            r@ == Set::<Seq<char>>::empty(),
            r.spec_max_size() == max_size,
    {
        let entries: Vec<String> = Vec::new();
        proof {
            assert(entries.deep_view() =~= Seq::<Seq<char>>::empty());
            assert(entries.deep_view().to_set() =~= Set::<Seq<char>>::empty());
        }
        RecentlyCreatedCache { entries, max_size }
    }

    /// How many paths are cached.
    pub fn len(&self) -> (r: usize)
        requires
            self.wf(),
        ensures
            r == self@.len(),
    {
        proof {
            self.entries.deep_view().unique_seq_to_set();
        }
        self.entries.len()
    }

    /// Whether `path` is cached.
    pub fn contains(&self, path: &str) -> (r: bool)
        ensures
            r == self@.contains(path@),
    {
        let mut i: usize = 0;
        while i < self.entries.len()
            invariant
                0 <= i <= self.entries.len(),
                forall|j: int| 0 <= j < i ==> self.entries.deep_view()[j] != path@,
            decreases self.entries.len() - i,
        {
            if crate::paths::str_eq(self.entries[i].as_str(), path) {
                assert(self.entries.deep_view()[i as int] == path@);
                return true;
            }
            i = i + 1;
        }
        assert(!self@.contains(path@)) by {
            if self@.contains(path@) {
                let k = choose|k: int|
                    0 <= k < self.entries.deep_view().len() && self.entries.deep_view()[k]
                        == path@;
            }
        }
        false
    }

    /// Caches `path`. When the cache already holds `max_size` paths it is
    /// cleared first, so afterwards it holds `path` alone.
    pub fn insert(&mut self, path: String)
        requires
            old(self).wf(),
        ensures
            final(self).wf(),
            final(self).spec_max_size() == old(self).spec_max_size(),
            old(self)@.len() >= old(self).spec_max_size() ==> final(self)@ == Set::<
                Seq<char>,
            >::empty().insert(path@),
            old(self)@.len() < old(self).spec_max_size() ==> final(self)@ == old(self)@.insert(
                path@,
            ),
    {
        proof {
            self.entries.deep_view().unique_seq_to_set();
        }
        if self.entries.len() >= self.max_size {
            self.entries.clear();
            proof {
                assert(self.entries.deep_view() =~= Seq::<Seq<char>>::empty());
                assert(self.entries.deep_view().to_set() =~= Set::<Seq<char>>::empty());
            }
        }
        let ghost pre = self.entries.deep_view();
        if !self.contains(path.as_str()) {
            self.entries.push(path);
            proof {
                assert(self.entries.deep_view() =~= pre.push(path@));
                assert(self.entries.deep_view().drop_last() =~= pre);
                crate::dirset::lemma_push_to_set(pre, path@);
            }
        } else {
            proof {
                assert(pre.to_set() =~= pre.to_set().insert(path@));
            }
        }
    }

    /// Forgets `path`; other cached paths stay.
    pub fn remove(&mut self, path: &str)
        requires
            old(self).wf(),
        ensures
            final(self).wf(),
            final(self).spec_max_size() == old(self).spec_max_size(),
            final(self)@ == old(self)@.remove(path@),
    {
        let mut kept: Vec<String> = Vec::new();
        proof {
            assert(kept.deep_view() =~= Seq::<Seq<char>>::empty());
        }
        let mut i: usize = 0;
        while i < self.entries.len()
            invariant
                self.entries.deep_view().no_duplicates(),
                0 <= i <= self.entries.len(),
                kept.deep_view().no_duplicates(),
                kept.deep_view().to_set() =~= self.entries.deep_view().take(
                    i as int,
                ).to_set().remove(path@),
            decreases self.entries.len() - i,
        {
            let ghost pre = kept.deep_view();
            let ghost tk = self.entries.deep_view().take(i as int);
            proof {
                assert(self.entries.deep_view().take(i + 1) =~= tk.push(
                    self.entries.deep_view()[i as int],
                ));
                crate::dirset::lemma_push_to_set(tk, self.entries.deep_view()[i as int]);
            }
            if !crate::paths::str_eq(self.entries[i].as_str(), path) {
                kept.push(self.entries[i].clone());
                proof {
                    assert(kept.deep_view() =~= pre.push(self.entries.deep_view()[i as int]));
                    assert(kept.deep_view().drop_last() =~= pre);
                    assert(!pre.to_set().contains(self.entries.deep_view()[i as int])) by {
                        if pre.to_set().contains(self.entries.deep_view()[i as int]) {
                            assert(tk.to_set().remove(path@).contains(
                                self.entries.deep_view()[i as int],
                            ));
                            let k = choose|k: int|
                                0 <= k < tk.len() && tk[k] == self.entries.deep_view()[i as int];
                            assert(self.entries.deep_view()[k] == self.entries.deep_view()[i as int]);
                        }
                    }
                    crate::dirset::lemma_push_to_set(pre, self.entries.deep_view()[i as int]);
                    assert(kept.deep_view().to_set() =~= self.entries.deep_view().take(
                        i + 1,
                    ).to_set().remove(path@));
                }
            } else {
                proof {
                    assert(kept.deep_view().to_set() =~= self.entries.deep_view().take(
                        i + 1,
                    ).to_set().remove(path@));
                }
            }
            i = i + 1;
        }
        proof {
            assert(self.entries.deep_view().take(self.entries.deep_view().len() as int)
                =~= self.entries.deep_view());
        }
        self.entries = kept;
    }

}

/// What the watch loop should do about one observed event.
pub enum MirrorAction {
    /// Not a directory creation under either root, or an excluded path:
    /// nothing to do.
    Ignore,
    /// The creation was caused by the engine's own mirroring; the cache
    /// entry is consumed and no mirror happens.
    SkipEcho,
    /// Create `target` on the opposite root; it is already cached so the
    /// resulting event will be recognized as an echo.
    Mirror { target: String },
    /// Dry run: `target` would be created, but neither the filesystem
    /// nor the cache is touched.
    WouldMirror { target: String },
}

/// The event path relative to its source root.
pub open spec fn rel_under_root(root: Seq<char>, path: Seq<char>) -> Seq<char> {
    path.skip(root.len() as int + 1)
}

/// What `decide_mirror` does for an event under a recognized source
/// root, phrased over the cache before the call.
pub open spec fn mirror_case(
    source_root: Seq<char>,
    target_root: Seq<char>,
    path: Seq<char>,
    patterns: Seq<Seq<char>>,
    cache_before: Set<Seq<char>>,
    dry_run: bool,
    r: MirrorAction,
    cache_after: Set<Seq<char>>,
) -> bool {
    let rel = rel_under_root(source_root, path);
    let target = spec_join(target_root, rel);
    if spec_should_exclude(patterns, rel) {
        r is Ignore && cache_after == cache_before
    } else if cache_before.contains(path) {
        r is SkipEcho && cache_after == cache_before.remove(path)
    } else if dry_run {
        (r matches MirrorAction::WouldMirror { target: t } && t@ == target) && cache_after
            == cache_before
    } else {
        (r matches MirrorAction::Mirror { target: t } && t@ == target) && cache_after.contains(
            target,
        ) && (cache_after == cache_before.insert(target) || cache_after == Set::<
            Seq<char>,
        >::empty().insert(target))
    }
}

/// Decides how to handle one filesystem event. Only directory-creation
/// events under exactly one of the two roots are mirrored; the event's
/// relative path is filtered, and a cache hit on the absolute path means
/// the creation was the engine's own echo and is consumed instead of
/// mirrored. Before a real mirror the target path is cached, closing the
/// race with the watcher's own observation of that creation.
pub fn decide_mirror(
    is_dir_creation: bool,
    path: &str,
    scripts_root: &str,
    data_root: &str,
    filter: &PathFilter,
    cache: &mut RecentlyCreatedCache,
    dry_run: bool,
) -> (r: MirrorAction)
    requires
        filter.wf(),
        old(cache).wf(),
    ensures
        final(cache).wf(),
        final(cache).spec_max_size() == old(cache).spec_max_size(),
        !is_dir_creation ==> r is Ignore && final(cache)@ == old(cache)@,
        is_dir_creation && is_dir_prefix(scripts_root@, path@) ==> mirror_case(
            scripts_root@,
            data_root@,
            path@,
            filter.spec_patterns(),
            old(cache)@,
            dry_run,
            r,
            final(cache)@,
        ),
        is_dir_creation && !is_dir_prefix(scripts_root@, path@) && is_dir_prefix(
            data_root@,
            path@,
        ) ==> mirror_case(
            data_root@,
            scripts_root@,
            path@,
            filter.spec_patterns(),
            old(cache)@,
            dry_run,
            r,
            final(cache)@,
        ),
        is_dir_creation && !is_dir_prefix(scripts_root@, path@) && !is_dir_prefix(
            data_root@,
            path@,
        ) ==> r is Ignore && final(cache)@ == old(cache)@,
{
    if !is_dir_creation {
        return MirrorAction::Ignore;
    }
    let under_scripts = prefix_of(scripts_root, path);
    let under_data = prefix_of(data_root, path);
    if under_scripts {
        mirror_from(scripts_root, data_root, path, filter, cache, dry_run)
    } else if under_data {
        mirror_from(data_root, scripts_root, path, filter, cache, dry_run)
    } else {
        MirrorAction::Ignore
    }
}

/// Handles a creation event whose path lies under `source_root`.
fn mirror_from(
    source_root: &str,
    target_root: &str,
    path: &str,
    filter: &PathFilter,
    cache: &mut RecentlyCreatedCache,
    dry_run: bool,
) -> (r: MirrorAction)
    requires
        filter.wf(),
        old(cache).wf(),
        is_dir_prefix(source_root@, path@),
    ensures
        final(cache).wf(),
        final(cache).spec_max_size() == old(cache).spec_max_size(),
        mirror_case(
            source_root@,
            target_root@,
            path@,
            filter.spec_patterns(),
            old(cache)@,
            dry_run,
            r,
            final(cache)@,
        ),
{
    let root_len = source_root.unicode_len();
    let path_len = path.unicode_len();
    let rel = path.substring_char(root_len + 1, path_len);
    proof {
        assert(rel@ =~= rel_under_root(source_root@, path@));
    }
    if filter.should_exclude(rel) {
        return MirrorAction::Ignore;
    }
    if cache.contains(path) {
        cache.remove(path);
        return MirrorAction::SkipEcho;
    }
    let target = crate::paths::join_path(target_root, rel);
    if dry_run {
        MirrorAction::WouldMirror { target }
    } else {
        cache.insert(target.clone());
        MirrorAction::Mirror { target }
    }
}

/// Decides whether `root` is a proper ancestor directory of `path`,
/// character-wise: `path` continues `root` with a separator.
fn prefix_of(root: &str, path: &str) -> (r: bool)
    ensures
        r == is_dir_prefix(root@, path@),
{
    let rn = root.unicode_len();
    let pn = path.unicode_len();
    if rn >= pn {
        return false;
    }
    if path.get_char(rn) != '/' {
        return false;
    }
    let head = path.substring_char(0, rn);
    if crate::paths::str_eq(head, root) {
        proof {
            assert(path@.subrange(0, root@.len() as int) == root@);
        }
        true
    } else {
        proof {
            assert(path@.subrange(0, root@.len() as int) != root@);
        }
        false
    }
}

} // verus!
