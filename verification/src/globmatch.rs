//! The source-root filter: a single glob pattern `<root>/*`, compiled and
//! applied through the `globset` crate. The pattern text is built by
//! verified code; the trusted wrappers only hand it to the crate. What the
//! crate accepts is a function of the pattern and the path alone, so it is
//! given names that the grouping contracts are stated over.

use vstd::prelude::*;

verus! {

/// Whether the glob pattern compiles all the way to a matcher: both the
/// parse and the matcher build succeed.
pub uninterp spec fn glob_pattern_ok(pattern: Seq<char>) -> bool;

/// Whether `path` matches the compiled glob pattern.
pub uninterp spec fn glob_pattern_match(pattern: Seq<char>, path: Seq<char>) -> bool;

/// The filter pattern of a source root: `<root>/*`, which matches the
/// paths under the root, recursively.
pub open spec fn source_pattern(root: Seq<char>) -> Seq<char> {
    root + "/*"@
}

/// The source root's pattern compiles all the way to a matcher.
pub open spec fn source_glob_ok(root: Seq<char>) -> bool {
    glob_pattern_ok(source_pattern(root))
}

/// `path` matches the source root's pattern.
pub open spec fn source_glob_match(root: Seq<char>, path: Seq<char>) -> bool {
    glob_pattern_match(source_pattern(root), path)
}

/// Builds the filter pattern of a source root.
pub(crate) fn source_pattern_exec(root: &str) -> (r: String)
    ensures
        r@ == source_pattern(root@),
{
    let mut p = root.to_owned();
    p.append("/*");
    p
}

/// Relies on globset::Glob::new and GlobSetBuilder::build: whether the
/// pattern parses and its matcher compiles. Both steps are functions of
/// the pattern text alone.
#[verifier::external_body]
pub(crate) fn glob_compiles(pattern: &str) -> (r: bool)
    ensures
        r == glob_pattern_ok(pattern@),
{
    match globset::Glob::new(pattern) {
        Ok(glob) => {
            let mut builder = globset::GlobSetBuilder::new();
            builder.add(glob);
            builder.build().is_ok()
        }
        Err(_) => false,
    }
}

/// Relies on globset::Glob::new, GlobSetBuilder::build and
/// GlobSet::is_match: whether `path` matches the pattern. The `requires`
/// repeats the two builds that `glob_compiles` reports on, so neither
/// unwrap can fail; matching is a function of the pattern and the path
/// alone.
#[verifier::external_body]
pub(crate) fn glob_matches(pattern: &str, path: &str) -> (r: bool)
    requires
        glob_pattern_ok(pattern@),
    ensures
        r == glob_pattern_match(pattern@, path@),
{
    let glob = globset::Glob::new(pattern).unwrap();
    let mut builder = globset::GlobSetBuilder::new();
    builder.add(glob);
    builder.build().unwrap().is_match(path)
}

} // verus!
