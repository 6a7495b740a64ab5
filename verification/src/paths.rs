//! Relative-path reasoning: splitting a path into components, the
//! traversal-safety check that rejects absolute paths and parent
//! references, component-wise prefix tests, and path joining.
//!
//! Paths use `/` as the canonical separator; a path is modelled as the
//! sequence of its characters and, derived from that, the sequence of its
//! components.

use vstd::prelude::*;

verus! {

/// Why a relative-path argument was rejected or a relation could not be
/// established.
#[derive(Debug, Clone, Copy, PartialEq, Eq, Structural)]
pub enum PathError {
    /// The path is absolute where a relative path is required.
    Absolute,
    /// The path contains a `..` component.
    ParentReference,
    /// No relative path leads from the base to the target.
    Unrelated,
    /// The computed relative path would escape the base.
    EscapesBase,
}

/// The components of `s`, split on `/`. Splitting keeps empty components,
/// so `split_path("a//b")` has an empty middle component and the empty
/// path has exactly one empty component.
pub open spec fn split_path(s: Seq<char>) -> Seq<Seq<char>>
    decreases s.len(),
{
    if s.len() == 0 {
        seq![Seq::<char>::empty()]
    } else if s[0] == '/' {
        seq![Seq::<char>::empty()] + split_path(s.skip(1))
    } else {
        let rest = split_path(s.skip(1));
        seq![seq![s[0]] + rest[0]] + rest.skip(1)
    }
}

/// A split always yields at least one component.
pub proof fn lemma_split_path_len(s: Seq<char>)
    ensures
        split_path(s).len() >= 1,
    decreases s.len(),
{
    if s.len() != 0 {
        lemma_split_path_len(s.skip(1));
    }
}

/// A path without a separator is its own single component.
pub proof fn lemma_split_path_no_slash(s: Seq<char>)
    requires
        !s.contains('/'),
    ensures
        split_path(s) =~~= seq![s],
    decreases s.len(),
{
    if s.len() == 0 {
        assert(split_path(s) =~~= seq![s]);
    } else {
        assert(s[0] != '/');
        assert(!s.skip(1).contains('/')) by {
            if s.skip(1).contains('/') {
                let i = choose|i: int| 0 <= i < s.skip(1).len() && s.skip(1)[i] == '/';
                assert(s[i + 1] == '/');
            }
        }
        lemma_split_path_no_slash(s.skip(1));
        assert(split_path(s) =~~= seq![s]);
    }
}

/// Splitting at the first separator: a slash after a slash-free prefix
/// contributes that prefix as one component, then the split of the rest.
pub proof fn lemma_split_path_slash(a: Seq<char>, b: Seq<char>)
    requires
        !a.contains('/'),
    ensures
        split_path(a + seq!['/'] + b) =~~= seq![a] + split_path(b),
    decreases a.len(),
{
    let s = a + seq!['/'] + b;
    if a.len() == 0 {
        assert(s[0] == '/');
        assert(s.skip(1) =~= b);
        assert(split_path(s) =~~= seq![a] + split_path(b));
    } else {
        assert(s[0] == a[0]);
        assert(a[0] != '/');
        let a1 = a.skip(1);
        assert(!a1.contains('/')) by {
            if a1.contains('/') {
                let i = choose|i: int| 0 <= i < a1.len() && a1[i] == '/';
                assert(a[i + 1] == '/');
            }
        }
        lemma_split_path_slash(a1, b);
        assert(s.skip(1) =~= a1 + seq!['/'] + b);
        lemma_split_path_len(b);
        assert(seq![a1] + split_path(b) =~~= split_path(a1 + seq!['/'] + b));
        assert((seq![a1] + split_path(b))[0] == a1);
        assert(seq![s[0]] + a1 =~= a);
        assert(split_path(s) =~~= seq![a] + split_path(b));
    }
}

/// A path is absolute when it starts with the separator.
pub open spec fn spec_is_absolute(s: Seq<char>) -> bool {
    s.len() > 0 && s[0] == '/'
}

/// A path contains a parent-reference (`..`) component.
pub open spec fn has_parent_component(s: Seq<char>) -> bool {
    split_path(s).contains(".."@)
}

/// The components of `base` are a prefix of the components of `target`.
pub open spec fn spec_components_prefix(base: Seq<char>, target: Seq<char>) -> bool {
    split_path(base).len() <= split_path(target).len() && split_path(base) == split_path(
        target,
    ).take(split_path(base).len() as int)
}

/// A well-formed root-relative directory path, in the canonical `/`
/// form: not absolute and free of parent-reference components.
pub open spec fn rel_path_ok(s: Seq<char>) -> bool {
    !spec_is_absolute(s) && !has_parent_component(s)
}

/// `base` joined with `rel` under one canonical separator; no separator is
/// doubled when `base` already ends with one.
pub open spec fn spec_join(base: Seq<char>, rel: Seq<char>) -> Seq<char> {
    if base.len() > 0 && base[base.len() - 1] == '/' {
        base + rel
    } else {
        base + seq!['/'] + rel
    }
}

/// `s` with every backslash replaced by a forward slash.
pub open spec fn forwardized(s: Seq<char>) -> Seq<char> {
    s.map_values(|c: char| if c == '\\' { '/' } else { c })
}

/// Character-wise string equality.
pub fn str_eq(a: &str, b: &str) -> (r: bool)
    ensures
        r == (a@ == b@),
{
    let na = a.unicode_len();
    let nb = b.unicode_len();
    if na != nb {
        return false;
    }
    let mut i: usize = 0;
    while i < na
        invariant
            na == a@.len(),
            na == b@.len(),
            0 <= i <= na,
            forall|j: int| 0 <= j < i ==> a@[j] == b@[j],
        decreases na - i,
    {
        if a.get_char(i) != b.get_char(i) {
            return false;
        }
        i = i + 1;
    }
    proof {
        assert(a@ =~= b@);
    }
    true
}

/// Splits a path into its `/`-separated components.
pub fn split_components(s: &str) -> (r: Vec<String>)
    ensures
        r.deep_view() == split_path(s@),
{
    let n = s.unicode_len();
    let mut comps: Vec<String> = Vec::new();
    let mut start: usize = 0;
    let mut i: usize = 0;
    proof {
        assert(s@.skip(0) =~= s@);
        assert(comps.deep_view() =~~= Seq::<Seq<char>>::empty());
    }
    while i < n
        invariant
            n == s@.len(),
            0 <= start <= i <= n,
            forall|j: int| start <= j < i ==> s@[j] != '/',
            split_path(s@) =~~= comps.deep_view() + split_path(s@.skip(start as int)),
        decreases n - i,
    {
        if s.get_char(i) == '/' {
            let comp = s.substring_char(start, i).to_owned();
            proof {
                let pre = s@.subrange(start as int, i as int);
                assert(!pre.contains('/')) by {
                    if pre.contains('/') {
                        let k = choose|k: int| 0 <= k < pre.len() && pre[k] == '/';
                        assert(s@[start + k] == '/');
                    }
                }
                lemma_split_path_slash(pre, s@.skip(i + 1));
                assert(s@.skip(start as int) =~= pre + seq!['/'] + s@.skip(i + 1));
                assert((comps.deep_view() + seq![comp@]) + split_path(s@.skip(i + 1)) =~~= comps.deep_view() + (seq![pre] + split_path(s@.skip(i + 1))));
            }
            let ghost dv = comps.deep_view();
            comps.push(comp);
            start = i + 1;
            proof {
                assert(comps.deep_view() =~~= dv + seq![comp@]);
            }
        }
        i = i + 1;
    }
    let last = s.substring_char(start, n).to_owned();
    proof {
        let pre = s@.subrange(start as int, n as int);
        assert(!pre.contains('/')) by {
            if pre.contains('/') {
                let k = choose|k: int| 0 <= k < pre.len() && pre[k] == '/';
                assert(s@[start + k] == '/');
            }
        }
        assert(pre =~= s@.skip(start as int));
        lemma_split_path_no_slash(pre);
    }
    comps.push(last);
    proof {
        assert(comps.deep_view() =~~= split_path(s@));
    }
    comps
}

/// True when `rel` has a `..` component; decided by scanning the components.
pub fn contains_parent_component(rel: &str) -> (r: bool)
    ensures
        r == has_parent_component(rel@),
{
    let comps = split_components(rel);
    let mut i: usize = 0;
    while i < comps.len()
        invariant
            comps.deep_view() == split_path(rel@),
            0 <= i <= comps.len(),
            forall|j: int| 0 <= j < i ==> comps.deep_view()[j] != ".."@,
        decreases comps.len() - i,
    {
        if str_eq(comps[i].as_str(), "..") {
            assert(split_path(rel@)[i as int] == ".."@);
            return true;
        }
        i = i + 1;
    }
    assert(!split_path(rel@).contains(".."@));
    false
}

/// Validates that a relative path is safe to use below a root: it must not
/// be absolute and must not contain a `..` component. This is the
/// directory-traversal boundary, checked before any filesystem access.
///
/// The check reads the path in the canonical `/` form; callers holding an
/// OS-native path bring it into that form first (`to_forward_slashes`),
/// and OS-specific absolute forms that use no leading separator, such as
/// a drive-qualified Windows path, are the caller's to reject.
pub fn validate_relative_path(rel_path: &str) -> (r: Result<String, PathError>)
    ensures
        spec_is_absolute(rel_path@) ==> r == Err::<String, PathError>(PathError::Absolute),
        !spec_is_absolute(rel_path@) && has_parent_component(rel_path@) ==> r == Err::<
            String,
            PathError,
        >(PathError::ParentReference),
        !spec_is_absolute(rel_path@) && !has_parent_component(rel_path@) ==> (r matches Ok(p)
            && p@ == rel_path@),
{
    if rel_path.unicode_len() > 0 && rel_path.get_char(0) == '/' {
        return Err(PathError::Absolute);
    }
    if contains_parent_component(rel_path) {
        return Err(PathError::ParentReference);
    }
    Ok(rel_path.to_owned())
}

/// True when every component of `base` is, in order, a leading component
/// of `target`: the component-wise notion of "descendant or self".
pub fn is_descendant(base: &str, target: &str) -> (r: bool)
    ensures
        r == spec_components_prefix(base@, target@),
{
    let b = split_components(base);
    let t = split_components(target);
    if b.len() > t.len() {
        return false;
    }
    let mut i: usize = 0;
    while i < b.len()
        invariant
            b.deep_view() == split_path(base@),
            t.deep_view() == split_path(target@),
            b.len() <= t.len(),
            0 <= i <= b.len(),
            forall|j: int| 0 <= j < i ==> b.deep_view()[j] == t.deep_view()[j],
        decreases b.len() - i,
    {
        if !str_eq(b[i].as_str(), t[i].as_str()) {
            assert(b.deep_view()[i as int] != t.deep_view()[i as int]);
            assert(!spec_components_prefix(base@, target@));
            return false;
        }
        i = i + 1;
    }
    proof {
        assert(split_path(base@) =~= split_path(target@).take(split_path(base@).len() as int));
    }
    true
}

/// Converts a path to use forward slashes only.
pub fn to_forward_slashes(path: &str) -> (r: String)
    ensures
        r@ == forwardized(path@),
{
    let n = path.unicode_len();
    let mut out = String::new();
    let mut i: usize = 0;
    while i < n
        invariant
            n == path@.len(),
            0 <= i <= n,
            out@ =~= forwardized(path@.take(i as int)),
        decreases n - i,
    {
        let c = path.get_char(i);
        if c == '\\' {
            out.append("/");
            proof {
                reveal_strlit("/");
                assert(out@ =~= forwardized(path@.take(i + 1)));
            }
        } else {
            let piece = path.substring_char(i, i + 1);
            out.append(piece);
            proof {
                assert(out@ =~= forwardized(path@.take(i + 1)));
            }
        }
        i = i + 1;
    }
    proof {
        assert(path@.take(n as int) =~= path@);
    }
    out
}

/// Joins `base` and `rel` with the canonical separator.
pub fn join_path(base: &str, rel: &str) -> (r: String)
    ensures
        r@ == spec_join(base@, rel@),
{
    let mut out = base.to_owned();
    let n = base.unicode_len();
    if n == 0 || base.get_char(n - 1) != '/' {
        out.append("/");
        proof {
            reveal_strlit("/");
            assert(out@ =~= base@ + seq!['/']);
        }
    }
    out.append(rel);
    proof {
        if base@.len() > 0 && base@[base@.len() - 1] == '/' {
            assert(out@ =~= spec_join(base@, rel@));
        } else {
            assert(out@ =~= spec_join(base@, rel@));
        }
    }
    out
}

/// Safely joins a base path with a relative path: the relative part is
/// validated first, so the resulting text cannot name anything above
/// `base`.
///
/// The join is purely textual. Resolving the result on the filesystem —
/// canonicalizing it and re-checking that no symlink inside `base` leads
/// elsewhere — is the caller's concern; a joined path that does not exist
/// is still returned as `Ok`.
pub fn safe_join(base: &str, rel_path: &str) -> (r: Result<String, PathError>)
    ensures
        spec_is_absolute(rel_path@) ==> r == Err::<String, PathError>(PathError::Absolute),
        !spec_is_absolute(rel_path@) && has_parent_component(rel_path@) ==> r == Err::<
            String,
            PathError,
        >(PathError::ParentReference),
        !spec_is_absolute(rel_path@) && !has_parent_component(rel_path@) ==> (r matches Ok(p)
            && p@ == spec_join(base@, rel_path@)),
{
    match validate_relative_path(rel_path) {
        Ok(_) => Ok(join_path(base, rel_path)),
        Err(e) => Err(e),
    }
}

/// What `pathdiff::diff_paths` returns for a target and a base: the
/// relative path leading from the base to the target, a pure function of
/// the two paths.
pub uninterp spec fn rel_path_between(target: Seq<char>, base: Seq<char>) -> Option<Seq<char>>;

/// Relies on pathdiff::diff_paths for the relative path from `base` to
/// `target`; the result is a function of the two arguments alone.
#[verifier::external_body]
fn diff_paths_str(target: &str, base: &str) -> (r: Option<String>)
    ensures
        r is Some <==> rel_path_between(target@, base@) is Some,
        r matches Some(p) ==> p@ == rel_path_between(target@, base@).unwrap(),
{
    pathdiff::diff_paths(target, base).map(|p| p.to_string_lossy().into_owned())
}

/// Computes the relative path from `base` to `target`, rejecting results
/// that escape the base through a `..` component.
pub fn relative_path(base: &str, target: &str) -> (r: Result<String, PathError>)
    ensures
        rel_path_between(target@, base@) is None ==> r == Err::<String, PathError>(
            PathError::Unrelated,
        ),
        rel_path_between(target@, base@) is Some && has_parent_component(
            rel_path_between(target@, base@).unwrap(),
        ) ==> r == Err::<String, PathError>(PathError::EscapesBase),
        rel_path_between(target@, base@) is Some && !has_parent_component(
            rel_path_between(target@, base@).unwrap(),
        ) ==> (r matches Ok(q) && q@ == rel_path_between(target@, base@).unwrap()),
{
    match diff_paths_str(target, base) {
        None => Err(PathError::Unrelated),
        Some(rel) => {
            if contains_parent_component(rel.as_str()) {
                Err(PathError::EscapesBase)
            } else {
                Ok(rel)
            }
        },
    }
}

} // verus!

