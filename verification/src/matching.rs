//! Glob expansion against the file system.
//!
//! The expansion itself is done by the `glob` and `globwalk` crates. Whether
//! they accept a pattern is decided from the pattern alone. What they find
//! depends on what is on disk, so nothing is promised about the matches: the
//! rest of the library is verified for every list of outcomes.

use vstd::prelude::*;

verus! {

/// One item of a glob expansion.
#[derive(Debug, PartialEq, Eq)]
pub enum MatchOutcome {
    /// A path that matched.
    Matched(String),
    /// An entry that could not be read; carries the text of the error.
    Failed(String),
}

/// A glob pattern that could not be compiled.
#[derive(Debug, Clone, Copy, PartialEq, Eq, Structural)]
pub struct InvalidPattern {
    /// Position of the offending pattern in the list that was given; zero
    /// where a single pattern was given.
    pub index: usize,
}

/// The matched paths among `outcomes`, in order; failed entries are left out.
pub open spec fn matched_paths(outcomes: Seq<MatchOutcome>) -> Seq<Seq<char>>
    decreases outcomes.len(),
{
    if outcomes.len() == 0 {
        Seq::empty()
    } else {
        let earlier = matched_paths(outcomes.drop_last());
        match outcomes.last() {
            MatchOutcome::Matched(path) => earlier.push(path@),
            MatchOutcome::Failed(_) => earlier,
        }
    }
}

/// The error texts of the failed entries among `outcomes`, in order.
pub open spec fn failure_notes(outcomes: Seq<MatchOutcome>) -> Seq<Seq<char>>
    decreases outcomes.len(),
{
    if outcomes.len() == 0 {
        Seq::empty()
    } else {
        let earlier = failure_notes(outcomes.drop_last());
        match outcomes.last() {
            MatchOutcome::Matched(_) => earlier,
            MatchOutcome::Failed(note) => earlier.push(note@),
        }
    }
}

/// Whether `glob::glob_with` accepts `pattern`. The crate compiles the
/// pattern, whole and component by component, before it looks at the file
/// system.
pub uninterp spec fn glob_accepts(pattern: Seq<char>) -> bool;

/// Whether `globwalk::glob` accepts `pattern`. The crate splits the pattern
/// into a base directory and a glob and compiles the glob before it looks at
/// the file system.
pub uninterp spec fn globwalk_accepts(pattern: Seq<char>) -> bool;

/// The error with which the `glob` crate refuses a pattern. It is only passed
/// on; nothing is read from it.
#[verifier::external_type_specification]
#[verifier::external_body]
pub struct ExPatternError(glob::PatternError);

/// The error with which the `globwalk` crate refuses a pattern. It is only
/// passed on; nothing is read from it.
#[verifier::external_type_specification]
#[verifier::external_body]
pub struct ExGlobError(globwalk::GlobError);

/// Calls `glob::glob_with` and collects what its iterator yields.
///
/// Each matched path is handed out as the text it displays as, each
/// iteration error as its debug text. A pattern that the crate does not
/// accept gives its `PatternError`, and only such a pattern does. Nothing is
/// claimed about which paths are found.
///
/// `require_literal_leading_dot` is excluded: with it the crate unwraps the
/// UTF-8 form of every file name it lists.
#[verifier::external_body]
pub(crate) fn expand_glob(
    pattern: &str,
    case_sensitive: bool,
    require_literal_separator: bool,
    require_literal_leading_dot: bool,
) -> (expansion: Result<Vec<MatchOutcome>, glob::PatternError>)
    requires
        !require_literal_leading_dot,
    ensures
        expansion is Ok <==> glob_accepts(pattern@),
{
    let options = glob::MatchOptions {
        case_sensitive,
        require_literal_separator,
        require_literal_leading_dot,
    };
    let paths = glob::glob_with(pattern, options)?;
    Ok(paths.map(|found| match found {
        Ok(path) => MatchOutcome::Matched(path.display().to_string()),
        Err(error) => MatchOutcome::Failed(format!("{:?}", error)),
    }).collect())
}

/// Calls `globwalk::glob` and collects what its walker yields.
///
/// Each matched entry is handed out as the text its path displays as, each
/// walk error as its debug text. A pattern that the crate does not accept
/// gives its `GlobError`, and only such a pattern does. Nothing is claimed
/// about which entries are found.
#[verifier::external_body]
pub(crate) fn walk_glob(pattern: &str) -> (walk: Result<Vec<MatchOutcome>, globwalk::GlobError>)
    ensures
        walk is Ok <==> globwalk_accepts(pattern@),
{
    let walker = globwalk::glob(pattern)?;
    Ok(walker.map(|entry| match entry {
        Ok(found) => MatchOutcome::Matched(found.path().display().to_string()),
        Err(error) => MatchOutcome::Failed(format!("{:?}", error)),
    }).collect())
}

/// The matched paths of `outcomes` as owned strings.
pub fn collect_matched(outcomes: &Vec<MatchOutcome>) -> (paths: Vec<String>)
    ensures
        paths.deep_view() == matched_paths(outcomes@),
{
    let mut paths: Vec<String> = Vec::new();
    let n: usize = outcomes.len();
    for i in 0..n
        invariant
            n == outcomes.len(),
            paths.deep_view() == matched_paths(outcomes@.take(i as int)),
    {
        assert(outcomes@.take(i + 1).drop_last() =~= outcomes@.take(i as int));
        match &outcomes[i] {
            MatchOutcome::Matched(path) => {
                paths.push(path.clone());
            },
            MatchOutcome::Failed(_) => {},
        }
    }
    assert(outcomes@.take(n as int) =~= outcomes@);
    paths
}

} // verus!
