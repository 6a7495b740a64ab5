//! The exclusion filter: decides whether a root-relative directory path
//! must be kept out of enumeration and mirroring.
//!
//! Two rules combine. Any path component that bears a reserved name — a
//! hidden name starting with `.`, or one of a fixed list of system and
//! temporary-artifact names — excludes the path, and with it everything
//! beneath that component. In addition, caller-supplied glob patterns are
//! matched against the full relative path through the `globset` crate.

use vstd::prelude::*;

use crate::paths::split_path;

verus! {

/// Why a filter could not be built from a set of patterns.
#[derive(Debug, Clone, PartialEq, Eq)]
pub enum FilterError {
    /// A caller-supplied pattern was not a valid glob.
    InvalidPattern { pattern: String },
    /// The pattern set as a whole could not be compiled.
    BuildFailed,
}

/// Declares globset::Glob, one parsed glob pattern.
#[verifier::external_type_specification]
#[verifier::external_body]
pub struct ExGlob(globset::Glob);

/// Declares globset::GlobSetBuilder, which accumulates patterns.
#[verifier::external_type_specification]
#[verifier::external_body]
pub struct ExGlobSetBuilder(globset::GlobSetBuilder);

/// Declares globset::GlobSet, a compiled group of patterns matched
/// together.
#[verifier::external_type_specification]
#[verifier::external_body]
pub struct ExGlobSet(globset::GlobSet);

/// Declares globset::Error, the crate's pattern-compilation error.
#[verifier::external_type_specification]
#[verifier::external_body]
pub struct ExGlobError(globset::Error);

/// The pattern a parsed `globset::Glob` was built from.
pub uninterp spec fn glob_pattern_of(g: globset::Glob) -> Seq<char>;

/// The patterns a `globset::GlobSetBuilder` holds, in insertion order.
pub uninterp spec fn builder_patterns(b: globset::GlobSetBuilder) -> Seq<Seq<char>>;

/// The patterns a compiled `globset::GlobSet` was built from.
pub uninterp spec fn glob_set_patterns(s: globset::GlobSet) -> Seq<Seq<char>>;

/// Whether any of `patterns` matches `path` under glob semantics
/// (`*`, `**`, `?`, character classes); a function of the pattern list
/// and the path alone.
pub uninterp spec fn glob_set_matches(patterns: Seq<Seq<char>>, path: Seq<char>) -> bool;

/// Whether `pattern` is valid glob syntax, as `globset::Glob::new`
/// decides it; a function of the pattern text alone.
pub uninterp spec fn glob_ok(pattern: Seq<char>) -> bool;

/// Whether `patterns` compile together into a matcher, as
/// `globset::GlobSetBuilder::build` decides it; a function of the
/// pattern list alone.
pub uninterp spec fn globs_build(patterns: Seq<Seq<char>>) -> bool;

/// Every pattern of the list is valid glob syntax.
pub open spec fn all_patterns_ok(patterns: Seq<Seq<char>>) -> bool {
    forall|i: int| 0 <= i < patterns.len() ==> glob_ok(#[trigger] patterns[i])
}

/// `patterns[i]` is the first pattern of the list that is not valid glob
/// syntax.
pub open spec fn first_bad_pattern(patterns: Seq<Seq<char>>, i: int) -> bool {
    0 <= i < patterns.len() && !glob_ok(patterns[i]) && (forall|j: int|
        0 <= j < i ==> glob_ok(#[trigger] patterns[j]))
}

/// Relies on globset::Glob::new: parses one glob pattern, succeeding
/// exactly on valid glob syntax.
#[verifier::external_body]
fn glob_parse(pattern: &str) -> (r: Result<globset::Glob, globset::Error>)
    ensures
        r is Ok <==> glob_ok(pattern@),
        r matches Ok(g) ==> glob_pattern_of(g) == pattern@,
{
    globset::Glob::new(pattern)
}

/// Relies on globset::GlobSetBuilder::new: a builder holding no patterns.
#[verifier::external_body]
fn glob_builder_new() -> (r: globset::GlobSetBuilder)
    ensures
        builder_patterns(r) == Seq::<Seq<char>>::empty(),
{
    globset::GlobSetBuilder::new()
}

/// Relies on globset::GlobSetBuilder::add: appends one parsed pattern.
#[verifier::external_body]
fn glob_builder_add(b: &mut globset::GlobSetBuilder, g: globset::Glob)
    ensures
        builder_patterns(*final(b)) == builder_patterns(*old(b)).push(glob_pattern_of(g)),
{
    b.add(g);
}

/// Relies on globset::GlobSetBuilder::build: compiles the added patterns
/// into a set that matches them together; success depends on the pattern
/// list alone, and a builder holding no patterns always builds (it
/// yields the empty set).
#[verifier::external_body]
fn glob_builder_build(b: &globset::GlobSetBuilder) -> (r: Result<
    globset::GlobSet,
    globset::Error,
>)
    ensures
        r is Ok <==> globs_build(builder_patterns(*b)),
        builder_patterns(*b).len() == 0 ==> r is Ok,
        r matches Ok(s) ==> glob_set_patterns(s) == builder_patterns(*b),
{
    b.build()
}

/// Relies on globset::GlobSet::is_match: true when any pattern in the set
/// matches the path; a set built from no patterns matches nothing.
#[verifier::external_body]
fn glob_set_is_match(s: &globset::GlobSet, path: &str) -> (r: bool)
    ensures
        r == glob_set_matches(glob_set_patterns(*s), path@),
        glob_set_patterns(*s).len() == 0 ==> !r,
{
    s.is_match(std::path::Path::new(path))
}

/// A component name that is reserved: hidden names (a leading `.`, except
/// the bare `.`), Python bytecode caches, OS metadata files, temporary
/// directories, and Windows recycle-bin or volume-metadata names.
pub open spec fn is_reserved_name(name: Seq<char>) -> bool {
    ||| (name.len() > 0 && name[0] == '.' && name != "."@)
    ||| name == "__pycache__"@
    ||| name == "Thumbs.db"@
    ||| name == "tmp"@
    ||| name == "System Volume Information"@
    ||| name == "$RECYCLE.BIN"@
}

/// Some component of `path` bears a reserved name.
pub open spec fn has_reserved_component(path: Seq<char>) -> bool {
    exists|i: int| 0 <= i < split_path(path).len() && is_reserved_name(split_path(path)[i])
}

/// What the filter excludes: a glob match on the full path, or a reserved
/// name anywhere among the components.
pub open spec fn spec_should_exclude(patterns: Seq<Seq<char>>, path: Seq<char>) -> bool {
    glob_set_matches(patterns, path) || has_reserved_component(path)
}

/// Decides whether one component name is reserved.
fn name_is_reserved(name: &str) -> (r: bool)
    ensures
        r == is_reserved_name(name@),
{
    if name.unicode_len() > 0 && name.get_char(0) == '.' && !crate::paths::str_eq(name, ".") {
        return true;
    }
    if crate::paths::str_eq(name, "__pycache__") {
        return true;
    }
    if crate::paths::str_eq(name, "Thumbs.db") {
        return true;
    }
    if crate::paths::str_eq(name, "tmp") {
        return true;
    }
    if crate::paths::str_eq(name, "System Volume Information") {
        return true;
    }
    if crate::paths::str_eq(name, "$RECYCLE.BIN") {
        return true;
    }
    false
}

/// Decides whether any component of `path` bears a reserved name.
pub fn path_has_reserved_component(path: &str) -> (r: bool)
    ensures
        r == has_reserved_component(path@),
{
    let comps = crate::paths::split_components(path);
    let mut i: usize = 0;
    while i < comps.len()
        invariant
            comps.deep_view() == split_path(path@),
            0 <= i <= comps.len(),
            forall|j: int| 0 <= j < i ==> !is_reserved_name(comps.deep_view()[j]),
        decreases comps.len() - i,
    {
        if name_is_reserved(comps[i].as_str()) {
            assert(is_reserved_name(split_path(path@)[i as int]));
            return true;
        }
        i = i + 1;
    }
    false
}

/// Excludes directories and files that should never be mirrored: hidden
/// and reserved component names anywhere in a path's ancestry, plus any
/// caller-supplied glob patterns matched against the full relative path.
pub struct PathFilter {
    glob_set: globset::GlobSet,
    patterns: Ghost<Seq<Seq<char>>>,
}

impl PathFilter {
    /// The compiled glob set corresponds to the recorded patterns.
    pub closed spec fn wf(&self) -> bool {
        glob_set_patterns(self.glob_set) == self.patterns@
    }

    /// The glob patterns this filter was configured with.
    pub closed spec fn spec_patterns(&self) -> Seq<Seq<char>> {
        self.patterns@
    }

    /// Creates a filter with the reserved-name exclusions only; with no
    /// custom patterns to compile, construction always succeeds.
    pub fn new() -> (r: Result<PathFilter, FilterError>)
        ensures
            r matches Ok(f) ==> f.wf() && f.spec_patterns() == Seq::<Seq<char>>::empty(),
            r is Ok,
    {
        let empty: Vec<String> = Vec::new();
        proof {
            assert(empty.deep_view() =~= Seq::<Seq<char>>::empty());
        }
        Self::with_custom_patterns(&empty)
    }

    /// Creates a filter with the reserved-name exclusions plus
    /// caller-supplied glob patterns. Construction succeeds exactly when
    /// every custom pattern is valid glob syntax and the list compiles;
    /// the first invalid pattern is reported, and a compile failure of a
    /// valid list is reported as such.
    pub fn with_custom_patterns(custom: &Vec<String>) -> (r: Result<PathFilter, FilterError>)
        ensures
            r matches Ok(f) ==> f.wf() && f.spec_patterns() == custom.deep_view(),
            all_patterns_ok(custom.deep_view()) && globs_build(custom.deep_view()) ==> r is Ok,
            custom.deep_view().len() == 0 ==> r is Ok,
            forall|i: int|
                first_bad_pattern(custom.deep_view(), i) ==> r == Err::<PathFilter, FilterError>(
                    (FilterError::InvalidPattern { pattern: custom@[i] }),
                ),
            all_patterns_ok(custom.deep_view()) && !globs_build(custom.deep_view()) ==> r == Err::<
                PathFilter,
                FilterError,
            >(FilterError::BuildFailed),
    {
        let ghost dv = custom.deep_view();
        let mut builder = glob_builder_new();
        let mut i: usize = 0;
        while i < custom.len()
            invariant
                dv == custom.deep_view(),
                0 <= i <= custom.len(),
                builder_patterns(builder) == dv.take(i as int),
                forall|j: int| 0 <= j < i ==> glob_ok(#[trigger] dv[j]),
            decreases custom.len() - i,
        {
            let g = match glob_parse(custom[i].as_str()) {
                Ok(g) => g,
                Err(_) => {
                    proof {
                        assert(first_bad_pattern(dv, i as int));
                        assert forall|k: int| first_bad_pattern(dv, k) implies k == i as int by {
                            if k < i as int {
                                assert(glob_ok(dv[k]));
                            } else if k > i as int {
                                assert(glob_ok(dv[i as int]));
                            }
                        }
                        assert(!all_patterns_ok(dv)) by {
                            assert(!glob_ok(dv[i as int]));
                        }
                    }
                    return Err(FilterError::InvalidPattern { pattern: custom[i].clone() });
                },
            };
            glob_builder_add(&mut builder, g);
            proof {
                assert(dv.take(i + 1) =~= dv.take(i as int).push(dv[i as int]));
            }
            i = i + 1;
        }
        proof {
            assert(dv.take(custom.len() as int) =~= dv);
            assert(all_patterns_ok(dv));
            assert forall|k: int| !first_bad_pattern(dv, k) by {
                if 0 <= k < dv.len() {
                    assert(glob_ok(dv[k]));
                }
            }
        }
        match glob_builder_build(&builder) {
            Ok(set) => Ok(PathFilter { glob_set: set, patterns: Ghost(custom.deep_view()) }),
            Err(_) => Err(FilterError::BuildFailed),
        }
    }

    /// Checks whether a root-relative path is excluded: a glob match on
    /// the full path or a reserved component name anywhere within it.
    pub fn should_exclude(&self, path: &str) -> (r: bool)
        requires
            self.wf(),
        ensures
            r == spec_should_exclude(self.spec_patterns(), path@),
            self.spec_patterns().len() == 0 ==> r == has_reserved_component(path@),
    {
        if glob_set_is_match(&self.glob_set, path) {
            return true;
        }
        path_has_reserved_component(path)
    }
}

/// A reserved name anywhere in a path's components excludes that path,
/// whatever patterns the filter was configured with.
pub proof fn lemma_reserved_component_excludes(patterns: Seq<Seq<char>>, path: Seq<char>, i: int)
    requires
        0 <= i < split_path(path).len(),
        is_reserved_name(split_path(path)[i]),
    ensures
        spec_should_exclude(patterns, path),
{
}

} // verus!
