//! Tree enumeration logic: which entries of a walked tree belong in a
//! root's `DirSet`. Directory entries survive only when neither the path
//! itself nor any ancestor directory is excluded by the filter, so an
//! excluded directory contributes none of its descendants, whatever their
//! own names. Symlinked entries never survive.

use vstd::prelude::*;

use crate::dirset::DirSet;
use crate::filter::PathFilter;
use crate::filter::spec_should_exclude;
use crate::paths::rel_path_ok;

verus! {

/// One entry observed while walking a root: its root-relative path and
/// what kind of object it is.
pub struct RawEntry {
    pub path: String,
    pub is_dir: bool,
    pub is_symlink: bool,
}

/// `anc` is a proper ancestor directory of `path`: a strict prefix ending
/// exactly at a separator.
pub open spec fn is_dir_prefix(anc: Seq<char>, path: Seq<char>) -> bool {
    anc.len() < path.len() && path.subrange(0, anc.len() as int) == anc && path[anc.len() as int]
        == '/'
}

/// The path is cut off from enumeration: it is excluded itself, or some
/// ancestor directory of it is excluded.
pub open spec fn pruned(patterns: Seq<Seq<char>>, path: Seq<char>) -> bool {
    spec_should_exclude(patterns, path) || exists|a: Seq<char>|
        #[trigger] is_dir_prefix(a, path) && spec_should_exclude(patterns, a)
}

/// A path earns a place in the enumeration of `entries`: some entry bears
/// it as a non-symlinked directory, it is not the root itself, it is a
/// well-formed relative path — never absolute, never with a `..`
/// component — and neither it nor any ancestor is excluded.
pub open spec fn entry_selected(
    entries: Seq<RawEntry>,
    patterns: Seq<Seq<char>>,
    p: Seq<char>,
) -> bool {
    (exists|k: int|
        0 <= k < entries.len() && (#[trigger] entries[k].path)@ == p && entries[k].is_dir
            && !entries[k].is_symlink) && p.len() > 0 && rel_path_ok(p) && !pruned(patterns, p)
}

/// Decides whether `path` or any ancestor directory of it is excluded.
pub fn is_pruned(filter: &PathFilter, path: &str) -> (r: bool)
    requires
        filter.wf(),
    ensures
        r == pruned(filter.spec_patterns(), path@),
{
    if filter.should_exclude(path) {
        return true;
    }
    let n = path.unicode_len();
    let mut i: usize = 0;
    while i < n
        invariant
            filter.wf(),
            n == path@.len(),
            0 <= i <= n,
            !spec_should_exclude(filter.spec_patterns(), path@),
            forall|a: Seq<char>|
                #[trigger] is_dir_prefix(a, path@) && a.len() < i ==> !spec_should_exclude(
                    filter.spec_patterns(),
                    a,
                ),
        decreases n - i,
    {
        if path.get_char(i) == '/' {
            let anc = path.substring_char(0, i);
            if filter.should_exclude(anc) {
                proof {
                    assert(is_dir_prefix(anc@, path@));
                }
                return true;
            }
            proof {
                assert forall|a: Seq<char>|
                    #[trigger] is_dir_prefix(a, path@) && a.len() < i + 1 implies !spec_should_exclude(
                    filter.spec_patterns(),
                    a,
                ) by {
                    if a.len() == i {
                        assert(a =~= path@.subrange(0, i as int));
                    }
                }
            }
        } else {
            proof {
                assert forall|a: Seq<char>|
                    #[trigger] is_dir_prefix(a, path@) && a.len() < i + 1 implies !spec_should_exclude(
                    filter.spec_patterns(),
                    a,
                ) by {
                    if a.len() == i {
                        assert(path@[i as int] == '/');
                    }
                }
            }
        }
        i = i + 1;
    }
    proof {
        assert forall|a: Seq<char>| #[trigger] is_dir_prefix(a, path@) implies !spec_should_exclude(
            filter.spec_patterns(),
            a,
        ) by {
            assert(a.len() < n);
        }
    }
    false
}

/// Builds the `DirSet` of a walked root: keeps exactly the non-symlinked
/// directory entries that are not the root itself, bear a well-formed
/// relative path, and that no exclusion rule cuts off, directly or
/// through an ancestor. Every path of the result therefore satisfies the
/// relative-path invariant: non-empty, not absolute, free of `..`.
pub fn select_directories(entries: &Vec<RawEntry>, filter: &PathFilter) -> (r: DirSet)
    requires
        filter.wf(),
    ensures
        r.wf(),
        forall|p: Seq<char>|
            r@.contains(p) <==> entry_selected(entries@, filter.spec_patterns(), p),
        forall|p: Seq<char>| #[trigger] r@.contains(p) ==> p.len() > 0 && rel_path_ok(p),
{
    let ghost pats = filter.spec_patterns();
    let mut out = DirSet::new();
    let mut k: usize = 0;
    while k < entries.len()
        invariant
            filter.wf(),
            pats == filter.spec_patterns(),
            out.wf(),
            0 <= k <= entries.len(),
            forall|p: Seq<char>|
                out@.contains(p) <==> entry_selected(entries@.take(k as int), pats, p),
        decreases entries.len() - k,
    {
        let ghost pre = out@;
        let e = &entries[k];
        let selected = e.is_dir && !e.is_symlink && e.path.as_str().unicode_len() > 0
            && e.path.as_str().get_char(0) != '/'
            && !crate::paths::contains_parent_component(e.path.as_str())
            && !is_pruned(filter, e.path.as_str());
        if selected {
            out.insert(e.path.clone());
        }
        proof {
            let tk = entries@.take(k as int);
            let tk1 = entries@.take(k + 1);
            assert(tk1 =~= tk.push(entries@[k as int]));
            assert forall|p: Seq<char>| out@.contains(p) implies entry_selected(tk1, pats, p) by {
                if selected && p == entries@[k as int].path@ {
                    assert(tk1[k as int].path@ == p);
                } else {
                    assert(pre.contains(p));
                    let j = choose|j: int|
                        0 <= j < tk.len() && (#[trigger] tk[j].path)@ == p && tk[j].is_dir
                            && !tk[j].is_symlink;
                    assert(tk1[j].path@ == p);
                }
            }
            assert forall|p: Seq<char>| entry_selected(tk1, pats, p) implies out@.contains(p) by {
                let j = choose|j: int|
                    0 <= j < tk1.len() && (#[trigger] tk1[j].path)@ == p && tk1[j].is_dir
                        && !tk1[j].is_symlink;
                if j == k {
                    assert(selected);
                } else {
                    assert(tk[j].path@ == p);
                    assert(entry_selected(tk, pats, p));
                }
            }
        }
        k = k + 1;
    }
    proof {
        assert(entries@.take(entries@.len() as int) =~= entries@);
    }
    out
}

/// Subtree pruning: a directory excluded by the filter contributes none
/// of its descendants to an enumeration, even when the descendant's own
/// name matches no rule.
pub proof fn lemma_excluded_subtree(
    entries: Seq<RawEntry>,
    patterns: Seq<Seq<char>>,
    anc: Seq<char>,
    p: Seq<char>,
)
    requires
        spec_should_exclude(patterns, anc),
        is_dir_prefix(anc, p),
    ensures
        !entry_selected(entries, patterns, p),
{
    assert(pruned(patterns, p));
}

} // verus!
