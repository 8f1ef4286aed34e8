//! Expansion of SDK header-directory globs into include directories.

use crate::matching::{
    expand_glob, failure_notes, glob_accepts, matched_paths, InvalidPattern, MatchOutcome,
};
use crate::path::{join_path, join_paths};
use vstd::prelude::*;
use vstd::string::*;

verus! {

/// How an include directory is written out.
#[allow(non_camel_case_types)]
#[derive(Debug, Clone, Copy, PartialEq, Eq, Structural)]
pub enum IncludeDirFormat {
    /// The bare path.
    PLAIN,
    /// The path behind the compiler's `-I` flag.
    CLANG,
}

/// The include directories found for a list of patterns, and what could not
/// be read on the way.
#[derive(Debug)]
pub struct IncludeExpansion {
    /// The formatted include directories, by pattern and then by match.
    pub dirs: Vec<String>,
    /// The error text of every entry that could not be read, in the same
    /// order.
    pub diagnostics: Vec<String>,
}

/// What `format` puts in front of a path.
pub open spec fn include_flag(format: IncludeDirFormat) -> Seq<char> {
    match format {
        IncludeDirFormat::PLAIN => Seq::empty(),
        IncludeDirFormat::CLANG => seq!['-', 'I'],
    }
}

/// The include directory for one matched path: the match joined onto the SDK
/// root, behind the flag of `format`.
pub open spec fn include_dir(sdk_path: Seq<char>, matched: Seq<char>, format: IncludeDirFormat) -> Seq<
    char,
> {
    include_flag(format) + join_paths(sdk_path, matched)
}

/// The include directories for the matches of one pattern, in match order.
pub open spec fn include_dirs(
    sdk_path: Seq<char>,
    outcomes: Seq<MatchOutcome>,
    format: IncludeDirFormat,
) -> Seq<Seq<char>> {
    matched_paths(outcomes).map_values(|matched: Seq<char>| include_dir(sdk_path, matched, format))
}

/// The include directories for a list of patterns: those of the first
/// pattern, then those of the second, and so on. `expansions` holds the
/// outcomes of each pattern.
pub open spec fn expansion_dirs(
    sdk_path: Seq<char>,
    expansions: Seq<Seq<MatchOutcome>>,
    format: IncludeDirFormat,
) -> Seq<Seq<char>>
    decreases expansions.len(),
{
    if expansions.len() == 0 {
        Seq::empty()
    } else {
        expansion_dirs(sdk_path, expansions.drop_last(), format) + include_dirs(
            sdk_path,
            expansions.last(),
            format,
        )
    }
}

/// The error texts for a list of patterns, by pattern and then by entry.
pub open spec fn expansion_notes(expansions: Seq<Seq<MatchOutcome>>) -> Seq<Seq<char>>
    decreases expansions.len(),
{
    if expansions.len() == 0 {
        Seq::empty()
    } else {
        expansion_notes(expansions.drop_last()) + failure_notes(expansions.last())
    }
}

/// The glob expression for one pattern: the pattern written directly behind
/// the SDK root, with nothing put between them.
pub open spec fn glob_expression(sdk_path: Seq<char>, pattern: Seq<char>) -> Seq<char> {
    sdk_path + pattern
}

/// The glob expression of the pattern at position `k` is accepted.
pub open spec fn accepted_at(sdk_path: Seq<char>, patterns: Seq<Seq<char>>, k: int) -> bool {
    glob_accepts(glob_expression(sdk_path, patterns[k]))
}

/// The pattern at position `i` is the first whose glob expression is not
/// accepted.
pub open spec fn first_rejected_at(sdk_path: Seq<char>, patterns: Seq<Seq<char>>, i: int) -> bool {
    &&& 0 <= i < patterns.len()
    &&& !accepted_at(sdk_path, patterns, i)
    &&& forall|k: int| 0 <= k < i ==> accepted_at(sdk_path, patterns, k)
}

/// The glob expression of every pattern is accepted.
pub open spec fn all_accepted(sdk_path: Seq<char>, patterns: Seq<Seq<char>>) -> bool {
    forall|k: int| 0 <= k < patterns.len() ==> accepted_at(sdk_path, patterns, k)
}

/// Writes `pattern` directly behind `sdk_path`.
pub fn sdk_glob(sdk_path: &str, pattern: &str) -> (expression: String)
    ensures
        expression@ == glob_expression(sdk_path@, pattern@),
{
    String::from_str(sdk_path).concat(pattern)
}

/// Formats one matched path as an include directory.
pub fn format_include_dir(sdk_path: &str, matched: &str, format: IncludeDirFormat) -> (dir: String)
    ensures
        dir@ == include_dir(sdk_path@, matched@, format),
{
    let joined: String = join_path(sdk_path, matched);
    match format {
        IncludeDirFormat::PLAIN => joined,
        IncludeDirFormat::CLANG => {
            proof {
                reveal_strlit("-I");
            }
            String::from_str("-I").concat(joined.as_str())
        },
    }
}

/// Adds to `expansion` what the outcomes of one pattern contribute: an
/// include directory for every match, a diagnostic for every failed entry.
pub fn append_include_dirs(
    sdk_path: &str,
    outcomes: &Vec<MatchOutcome>,
    format: IncludeDirFormat,
    expansion: &mut IncludeExpansion,
)
    ensures
        final(expansion).dirs.deep_view() == old(expansion).dirs.deep_view() + include_dirs(
            sdk_path@,
            outcomes@,
            format,
        ),
        final(expansion).diagnostics.deep_view() == old(expansion).diagnostics.deep_view()
            + failure_notes(outcomes@),
{
    let n: usize = outcomes.len();
    let ghost dirs_before = expansion.dirs.deep_view();
    let ghost notes_before = expansion.diagnostics.deep_view();
    for i in 0..n
        invariant
            n == outcomes.len(),
            expansion.dirs.deep_view() == dirs_before + include_dirs(
                sdk_path@,
                outcomes@.take(i as int),
                format,
            ),
            expansion.diagnostics.deep_view() == notes_before + failure_notes(
                outcomes@.take(i as int),
            ),
    {
        let ghost dirs_now = expansion.dirs.deep_view();
        let ghost notes_now = expansion.diagnostics.deep_view();
        let ghost earlier = outcomes@.take(i as int);
        assert(outcomes@.take(i + 1).drop_last() =~= earlier);
        match &outcomes[i] {
            MatchOutcome::Matched(path) => {
                let dir: String = format_include_dir(sdk_path, path.as_str(), format);
                expansion.dirs.push(dir);
                proof {
                    let dirs_earlier = include_dirs(sdk_path@, earlier, format);
                    assert(include_dirs(sdk_path@, outcomes@.take(i + 1), format)
                        =~= dirs_earlier.push(dir@));
                    assert(dirs_now.push(dir@) =~= dirs_before + dirs_earlier.push(dir@));
                }
            },
            MatchOutcome::Failed(note) => {
                expansion.diagnostics.push(note.clone());
                assert(notes_now.push(note@) =~= notes_before + failure_notes(earlier).push(
                    note@,
                ));
            },
        }
    }
    assert(outcomes@.take(n as int) =~= outcomes@);
}

/// Expands each pattern of `sdk_header_dirs` under `sdk_path` and formats
/// every match as an include directory.
///
/// The glob expression of a pattern is the pattern written directly behind
/// `sdk_path`. Matching ignores case, and wildcards may match separators and
/// leading dots. Entries that cannot be read are reported in `diagnostics`
/// and otherwise skipped.
///
/// The expansion succeeds if every glob expression is accepted; otherwise it
/// ends with the position of the first one that is not. What is found
/// depends on the file system; whatever is found, the result is the
/// expansion of those outcomes, pattern by pattern.
pub fn expand_sdk_include_dirs(
    sdk_header_dirs: &Vec<String>,
    sdk_path: &str,
    format: IncludeDirFormat,
) -> (result: Result<IncludeExpansion, InvalidPattern>)
    ensures
        match result {
            Ok(expansion) => {
                &&& all_accepted(sdk_path@, sdk_header_dirs.deep_view())
                &&& exists|expansions: Seq<Seq<MatchOutcome>>|
                    {
                        &&& expansions.len() == sdk_header_dirs.len()
                        &&& expansion.dirs.deep_view() == #[trigger] expansion_dirs(
                            sdk_path@,
                            expansions,
                            format,
                        )
                        &&& expansion.diagnostics.deep_view() == expansion_notes(expansions)
                    }
            },
            Err(fault) => first_rejected_at(
                sdk_path@,
                sdk_header_dirs.deep_view(),
                fault.index as int,
            ),
        },
{
    let mut expansion = IncludeExpansion { dirs: Vec::new(), diagnostics: Vec::new() };
    let ghost mut expansions: Seq<Seq<MatchOutcome>> = Seq::empty();
    let n: usize = sdk_header_dirs.len();
    let ghost patterns = sdk_header_dirs.deep_view();
    for i in 0..n
        invariant
            n == sdk_header_dirs.len(),
            patterns == sdk_header_dirs.deep_view(),
            expansions.len() == i,
            expansion.dirs.deep_view() == expansion_dirs(sdk_path@, expansions, format),
            expansion.diagnostics.deep_view() == expansion_notes(expansions),
            forall|k: int| 0 <= k < i ==> accepted_at(sdk_path@, patterns, k),
    {
        let expression: String = sdk_glob(sdk_path, sdk_header_dirs[i].as_str());
        assert(patterns[i as int] == sdk_header_dirs[i as int]@);
        match expand_glob(expression.as_str(), false, false, false) {
            Ok(outcomes) => {
                append_include_dirs(sdk_path, &outcomes, format, &mut expansion);
                proof {
                    assert(expansions.push(outcomes@).drop_last() =~= expansions);
                    expansions = expansions.push(outcomes@);
                }
            },
            Err(_) => {
                return Err(InvalidPattern { index: i });
            },
        }
    }
    Ok(expansion)
}

/// The include directories for the patterns of `sdk_header_dirs` under
/// `sdk_path`, by pattern and then by match.
///
/// This is `expand_sdk_include_dirs` without the diagnostics.
pub fn get_sdk_include_dirs(
    sdk_header_dirs: &Vec<String>,
    sdk_path: &str,
    format: IncludeDirFormat,
) -> (result: Result<Vec<String>, InvalidPattern>)
    ensures
        match result {
            Ok(dirs) => {
                &&& all_accepted(sdk_path@, sdk_header_dirs.deep_view())
                &&& exists|expansions: Seq<Seq<MatchOutcome>>|
                    {
                        &&& expansions.len() == sdk_header_dirs.len()
                        &&& dirs.deep_view() == #[trigger] expansion_dirs(
                            sdk_path@,
                            expansions,
                            format,
                        )
                    }
            },
            Err(fault) => first_rejected_at(
                sdk_path@,
                sdk_header_dirs.deep_view(),
                fault.index as int,
            ),
        },
{
    match expand_sdk_include_dirs(sdk_header_dirs, sdk_path, format) {
        Ok(expansion) => Ok(expansion.dirs),
        Err(fault) => Err(fault),
    }
}

/// Pattern order is kept: the directories for a list of patterns followed by
/// a second list are the directories for the first list, followed by the
/// directories for the second. So everything an earlier pattern matched
/// comes before anything a later pattern matched.
pub proof fn lemma_pattern_order_kept(
    sdk_path: Seq<char>,
    first: Seq<Seq<MatchOutcome>>,
    second: Seq<Seq<MatchOutcome>>,
    format: IncludeDirFormat,
)
    ensures
        expansion_dirs(sdk_path, first + second, format) == expansion_dirs(sdk_path, first, format)
            + expansion_dirs(sdk_path, second, format),
    decreases second.len(),
{
    if second.len() > 0 {
        assert((first + second).drop_last() =~= first + second.drop_last());
        lemma_pattern_order_kept(sdk_path, first, second.drop_last(), format);
    }
}

/// Match order is kept within a pattern: the i-th include directory is the
/// formatted i-th match.
pub proof fn lemma_match_order_kept(
    sdk_path: Seq<char>,
    outcomes: Seq<MatchOutcome>,
    format: IncludeDirFormat,
)
    ensures
        include_dirs(sdk_path, outcomes, format).len() == matched_paths(outcomes).len(),
        forall|i: int|
            0 <= i < matched_paths(outcomes).len() ==> #[trigger] include_dirs(
                sdk_path,
                outcomes,
                format,
            )[i] == include_dir(sdk_path, matched_paths(outcomes)[i], format),
{
}

/// The two formats differ by the flag only: for the same outcomes, the
/// `CLANG` list has as many entries as the `PLAIN` list, and each entry is
/// `-I` followed by the `PLAIN` entry at the same position.
pub proof fn lemma_format_toggle(sdk_path: Seq<char>, expansions: Seq<Seq<MatchOutcome>>)
    ensures
        expansion_dirs(sdk_path, expansions, IncludeDirFormat::CLANG).len() == expansion_dirs(
            sdk_path,
            expansions,
            IncludeDirFormat::PLAIN,
        ).len(),
        forall|i: int|
            0 <= i < expansion_dirs(sdk_path, expansions, IncludeDirFormat::PLAIN).len()
                ==> #[trigger] expansion_dirs(sdk_path, expansions, IncludeDirFormat::CLANG)[i]
                == seq!['-', 'I'] + expansion_dirs(sdk_path, expansions, IncludeDirFormat::PLAIN)[i],
    decreases expansions.len(),
{
    if expansions.len() > 0 {
        lemma_format_toggle(sdk_path, expansions.drop_last());
    }
}

} // verus!
