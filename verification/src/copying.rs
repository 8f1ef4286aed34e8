//! Planning a copy of the files that a glob matched under a source root.
//!
//! A plan lists, for each matched file, where it goes under the destination
//! and whether its directory has to be made first. Carrying the plan out is
//! left to the caller.

use crate::matching::{
    collect_matched, globwalk_accepts, matched_paths, walk_glob, InvalidPattern, MatchOutcome,
};
use crate::path::{
    dir_prefix, file_name, join_path, join_paths, lemma_join_then_strip, lemma_strip_then_join,
    relative_subpath, relative_to, split_file_name,
};
use vstd::prelude::*;
use vstd::string::*;

verus! {

/// The destination directories met so far in one copy operation.
pub struct DirectorySet {
    dirs: Vec<String>,
}

impl View for DirectorySet {
    type V = Set<Seq<char>>;

    closed spec fn view(&self) -> Set<Seq<char>> {
        Set::new(|dir: Seq<char>| exists|i: int| 0 <= i < self.dirs.len() && self.dirs[i]@ == dir)
    }
}

impl DirectorySet {
    /// No directory is held twice.
    #[verifier::type_invariant]
    spec fn distinct(self) -> bool {
        forall|i: int, j: int|
            0 <= i < j < self.dirs.len() ==> self.dirs[i]@ != self.dirs[j]@
    }

    /// The empty set.
    pub fn new() -> (set: DirectorySet)
        ensures
            set@ == Set::<Seq<char>>::empty(),
    {
        DirectorySet { dirs: Vec::new() }
    }

    /// Whether `dir` is in the set.
    pub fn contains(&self, dir: &String) -> (found: bool)
        ensures
            found == self@.contains(dir@),
    {
        let n: usize = self.dirs.len();
        for i in 0..n
            invariant
                n == self.dirs.len(),
                forall|k: int| 0 <= k < i ==> self.dirs[k]@ != dir@,
        {
            if self.dirs[i] == *dir {
                return true;
            }
        }
        false
    }

    /// Puts `dir` into the set; says whether it was new.
    pub fn insert(&mut self, dir: String) -> (added: bool)
        ensures
            final(self)@ == old(self)@.insert(dir@),
            added == !old(self)@.contains(dir@),
    {
        proof {
            use_type_invariant(&*self);
        }
        if self.contains(&dir) {
            false
        } else {
            let ghost before = self.dirs@;
            let mut dirs: Vec<String> = Vec::new();
            std::mem::swap(&mut dirs, &mut self.dirs);
            dirs.push(dir);
            self.dirs = dirs;
            proof {
                assert forall|d: Seq<char>| self@.contains(d) <==> old(self)@.insert(dir@).contains(
                    d,
                ) by {
                    if old(self)@.contains(d) {
                        let i = choose|i: int| 0 <= i < before.len() && before[i]@ == d;
                        assert(self.dirs[i]@ == d);
                    }
                    if d == dir@ {
                        assert(self.dirs[before.len() as int]@ == d);
                    }
                }
            }
            true
        }
    }
}

/// One step of a copy: a matched file and where it goes.
#[derive(Debug)]
pub struct CopyAction {
    /// The matched file, as the glob expansion gave it.
    pub source: String,
    /// The directory under the destination that receives the file.
    pub destination_dir: String,
    /// The path the file is copied to.
    pub destination_file: String,
    /// Whether this is the first step that needs `destination_dir`, so that
    /// the directory has to be made, if it is missing, before the file is
    /// copied.
    pub create_dir: bool,
}

/// A `CopyAction` with its strings as sequences of characters.
pub struct PlannedCopy {
    pub source: Seq<char>,
    pub destination_dir: Seq<char>,
    pub destination_file: Seq<char>,
    pub create_dir: bool,
}

impl View for CopyAction {
    type V = PlannedCopy;

    open spec fn view(&self) -> PlannedCopy {
        PlannedCopy {
            source: self.source@,
            destination_dir: self.destination_dir@,
            destination_file: self.destination_file@,
            create_dir: self.create_dir,
        }
    }
}

/// The steps of `plan` as `PlannedCopy` values.
pub open spec fn plan_view(plan: Seq<CopyAction>) -> Seq<PlannedCopy> {
    plan.map_values(|action: CopyAction| action@)
}

/// The directory under `destination` for a file at relative path `rel`.
pub open spec fn destination_dir(destination: Seq<char>, rel: Seq<char>) -> Seq<char> {
    join_paths(destination, dir_prefix(rel))
}

/// The path under `destination` for a file at relative path `rel`.
pub open spec fn destination_file(destination: Seq<char>, rel: Seq<char>) -> Seq<char> {
    join_paths(destination_dir(destination, rel), file_name(rel))
}

/// The destination directories that the steps of `plan` use.
pub open spec fn planned_dirs(plan: Seq<PlannedCopy>) -> Set<Seq<char>> {
    Set::new(|dir: Seq<char>| exists|i: int| 0 <= i < plan.len() && plan[i].destination_dir == dir)
}

/// The step for one matched path, given the directories `seen` so far.
///
/// A path that does not lie under `source_root`, or whose relative path
/// would leave the destination, gets no step.
pub open spec fn entry_action(
    source_root: Seq<char>,
    destination: Seq<char>,
    seen: Set<Seq<char>>,
    path: Seq<char>,
) -> Option<PlannedCopy> {
    match relative_subpath(source_root, path) {
        Some(rel) => Some(
            PlannedCopy {
                source: path,
                destination_dir: destination_dir(destination, rel),
                destination_file: destination_file(destination, rel),
                create_dir: !seen.contains(destination_dir(destination, rel)),
            },
        ),
        None => None,
    }
}

/// The plan for the matched `paths`, in their order: the plan for all but the
/// last path, followed by the step for the last one, if it gets one.
pub open spec fn copy_plan(
    source_root: Seq<char>,
    destination: Seq<char>,
    paths: Seq<Seq<char>>,
) -> Seq<PlannedCopy>
    decreases paths.len(),
{
    if paths.len() == 0 {
        Seq::empty()
    } else {
        let earlier = copy_plan(source_root, destination, paths.drop_last());
        match entry_action(source_root, destination, planned_dirs(earlier), paths.last()) {
            Some(action) => earlier.push(action),
            None => earlier,
        }
    }
}

/// A plan extended by one step uses the directory of that step as well.
pub proof fn lemma_planned_dirs_push(plan: Seq<PlannedCopy>, action: PlannedCopy)
    ensures
        planned_dirs(plan.push(action)) == planned_dirs(plan).insert(action.destination_dir),
{
    let longer = plan.push(action);
    assert forall|dir: Seq<char>|
        planned_dirs(longer).contains(dir) <==> planned_dirs(plan).insert(
            action.destination_dir,
        ).contains(dir) by {
        if planned_dirs(plan).contains(dir) {
            let i = choose|i: int| 0 <= i < plan.len() && plan[i].destination_dir == dir;
            assert(longer[i].destination_dir == dir);
        }
        if dir == action.destination_dir {
            assert(longer[plan.len() as int].destination_dir == dir);
        }
    }
}

/// Plans the copy of one matched path and records its destination directory
/// in `seen`.
///
/// Returns `None`, and leaves `seen` as it is, for a path that does not lie
/// under `source_root` or whose relative path would leave the destination.
pub fn plan_entry(source_root: &str, destination: &str, seen: &mut DirectorySet, path: &str) -> (action:
    Option<CopyAction>)
    ensures
        match entry_action(source_root@, destination@, old(seen)@, path@) {
            Some(expected) => {
                &&& action matches Some(planned)
                &&& planned@ == expected
                &&& final(seen)@ == old(seen)@.insert(expected.destination_dir)
            },
            None => action is None && final(seen)@ == old(seen)@,
        },
{
    match relative_to(source_root, path) {
        Some(rel) => {
            let (dir, name) = split_file_name(rel.as_str());
            let destination_dir: String = join_path(destination, dir.as_str());
            let destination_file: String = join_path(destination_dir.as_str(), name.as_str());
            let create_dir: bool = seen.insert(destination_dir.clone());
            Some(
                CopyAction {
                    source: String::from_str(path),
                    destination_dir,
                    destination_file,
                    create_dir,
                },
            )
        },
        None => None,
    }
}

/// Plans the copy of the matched `paths` from under `source_root` to under
/// `destination`, in the order of `paths`.
pub fn plan_copy(source_root: &str, destination: &str, paths: &Vec<String>) -> (plan: Vec<CopyAction>)
    ensures
        plan_view(plan@) == copy_plan(source_root@, destination@, paths.deep_view()),
{
    let mut plan: Vec<CopyAction> = Vec::new();
    let mut seen = DirectorySet::new();
    let n: usize = paths.len();
    let ghost all = paths.deep_view();
    for i in 0..n
        invariant
            n == paths.len(),
            all == paths.deep_view(),
            plan_view(plan@) == copy_plan(source_root@, destination@, all.take(i as int)),
            seen@ == planned_dirs(plan_view(plan@)),
    {
        let ghost earlier = plan_view(plan@);
        proof {
            assert(all.take(i + 1).drop_last() =~= all.take(i as int));
        }
        match plan_entry(source_root, destination, &mut seen, paths[i].as_str()) {
            Some(action) => {
                plan.push(action);
                proof {
                    assert(plan_view(plan@) =~= earlier.push(action@));
                    lemma_planned_dirs_push(earlier, action@);
                }
            },
            None => {},
        }
    }
    assert(all.take(n as int) =~= all);
    plan
}

/// Plans the copy of every file under `source_root` that `pattern` matches to
/// the same relative place under `destination`.
///
/// The glob expression is `pattern` joined onto `source_root`, which is
/// expected to be in canonical form. Entries that the walk could not read are
/// skipped. A glob expression that is not accepted gives `InvalidPattern`,
/// and nothing else does.
///
/// What is found depends on the file system; whatever is found, the result
/// is the plan for the matched paths.
pub fn plan_copy_dir_with_pattern(source_root: &str, destination: &str, pattern: &str) -> (result:
    Result<Vec<CopyAction>, InvalidPattern>)
    ensures
        result is Ok <==> globwalk_accepts(join_paths(source_root@, pattern@)),
        match result {
            Ok(plan) => exists|outcomes: Seq<MatchOutcome>|
                plan_view(plan@) == #[trigger] copy_plan(
                    source_root@,
                    destination@,
                    matched_paths(outcomes),
                ),
            Err(fault) => fault.index == 0,
        },
{
    let expression: String = join_path(source_root, pattern);
    match walk_glob(expression.as_str()) {
        Ok(outcomes) => {
            let paths: Vec<String> = collect_matched(&outcomes);
            Ok(plan_copy(source_root, destination, &paths))
        },
        Err(_) => Err(InvalidPattern { index: 0 }),
    }
}

/// The files of a plan are the matched paths that have a relative path under
/// the source root, in their order: nothing else is copied and none of them
/// is left out.
pub proof fn lemma_plan_sources(
    source_root: Seq<char>,
    destination: Seq<char>,
    paths: Seq<Seq<char>>,
)
    ensures
        copy_plan(source_root, destination, paths).map_values(|action: PlannedCopy| action.source)
            == paths.filter(|path: Seq<char>| relative_subpath(source_root, path) is Some),
    decreases paths.len(),
{
    reveal(Seq::filter);
    if paths.len() > 0 {
        lemma_plan_sources(source_root, destination, paths.drop_last());
    }
}

/// The directory structure is kept: every file of a plan goes to the place
/// under the destination that it has under the source root. The file is the
/// source root joined with its relative path and goes to the destination
/// joined with the same relative path; its directory is the destination
/// joined with the directory part of that path; and taking the destination
/// away from where it goes gives the relative path back.
pub proof fn lemma_structure_kept(
    source_root: Seq<char>,
    destination: Seq<char>,
    paths: Seq<Seq<char>>,
    i: int,
)
    requires
        0 <= i < copy_plan(source_root, destination, paths).len(),
    ensures
        ({
            let action = copy_plan(source_root, destination, paths)[i];
            &&& relative_subpath(source_root, action.source) matches Some(rel)
            &&& action.source == join_paths(source_root, rel)
            &&& action.destination_dir == destination_dir(destination, rel)
            &&& action.destination_file == join_paths(destination, rel)
            &&& relative_subpath(destination, action.destination_file) == Some(rel)
        }),
    decreases paths.len(),
{
    if paths.len() > 0 {
        let earlier = copy_plan(source_root, destination, paths.drop_last());
        if i < earlier.len() {
            lemma_structure_kept(source_root, destination, paths.drop_last(), i);
        } else {
            let rel = relative_subpath(source_root, paths.last())->0;
            lemma_join_then_strip(destination, rel);
            lemma_strip_then_join(source_root, paths.last());
        }
    }
}

/// Two steps go to the same destination file only if they copy the same
/// matched file: different files under the source root never collide under
/// the destination.
pub proof fn lemma_no_collisions(
    source_root: Seq<char>,
    destination: Seq<char>,
    paths: Seq<Seq<char>>,
    i: int,
    j: int,
)
    requires
        0 <= i < copy_plan(source_root, destination, paths).len(),
        0 <= j < copy_plan(source_root, destination, paths).len(),
        copy_plan(source_root, destination, paths)[i].destination_file == copy_plan(
            source_root,
            destination,
            paths,
        )[j].destination_file,
    ensures
        copy_plan(source_root, destination, paths)[i].source == copy_plan(
            source_root,
            destination,
            paths,
        )[j].source,
{
    lemma_structure_kept(source_root, destination, paths, i);
    lemma_structure_kept(source_root, destination, paths, j);
}

/// Nothing outside the destination is written: a path that does not lie
/// under the destination, or would not stay inside it, is the destination
/// file of no step. In particular a source tree that the destination does not
/// overlap is left as it was.
pub proof fn lemma_only_destination_written(
    source_root: Seq<char>,
    destination: Seq<char>,
    paths: Seq<Seq<char>>,
    target: Seq<char>,
)
    requires
        relative_subpath(destination, target) is None,
    ensures
        forall|i: int|
            0 <= i < copy_plan(source_root, destination, paths).len() ==> (#[trigger] copy_plan(
                source_root,
                destination,
                paths,
            )[i]).destination_file != target,
{
    let plan = copy_plan(source_root, destination, paths);
    assert forall|i: int| 0 <= i < plan.len() implies (#[trigger] plan[i]).destination_file
        != target by {
        lemma_structure_kept(source_root, destination, paths, i);
    }
}

/// Each destination directory is made once, before its first file: a step
/// asks for its directory exactly when no earlier step of the plan uses the
/// same directory.
pub proof fn lemma_directory_made_at_first_use(
    source_root: Seq<char>,
    destination: Seq<char>,
    paths: Seq<Seq<char>>,
    i: int,
)
    requires
        0 <= i < copy_plan(source_root, destination, paths).len(),
    ensures
        ({
            let plan = copy_plan(source_root, destination, paths);
            plan[i].create_dir <==> forall|j: int|
                0 <= j < i ==> #[trigger] plan[j].destination_dir != plan[i].destination_dir
        }),
    decreases paths.len(),
{
    if paths.len() > 0 {
        let plan = copy_plan(source_root, destination, paths);
        let earlier = copy_plan(source_root, destination, paths.drop_last());
        if i < earlier.len() {
            lemma_directory_made_at_first_use(source_root, destination, paths.drop_last(), i);
            assert forall|j: int| 0 <= j < i implies plan[j] == earlier[j] by {}
        } else {
            assert forall|j: int| 0 <= j < i implies plan[j] == earlier[j] by {}
        }
    }
}

/// Which matched file each destination path holds a copy of, once the steps
/// of `plan` have been carried out in order: where two steps go to the same
/// path, the later one replaces what the earlier one put there.
pub open spec fn copied_from(plan: Seq<PlannedCopy>) -> Map<Seq<char>, Seq<char>>
    decreases plan.len(),
{
    if plan.len() == 0 {
        Map::empty()
    } else {
        copied_from(plan.drop_last()).insert(plan.last().destination_file, plan.last().source)
    }
}

/// Carrying out one list of steps after another leaves at each destination
/// path what the second list put there, and elsewhere what the first did.
pub proof fn lemma_copied_from_append(first: Seq<PlannedCopy>, second: Seq<PlannedCopy>)
    ensures
        copied_from(first + second) == copied_from(first).union_prefer_right(copied_from(second)),
    decreases second.len(),
{
    if second.len() > 0 {
        assert((first + second).drop_last() =~= first + second.drop_last());
        lemma_copied_from_append(first, second.drop_last());
    }
}

/// Carrying out a plan a second time overwrites and does not duplicate:
/// afterwards every destination path holds a copy of the same matched file
/// as after the first time, and no other path has been written.
pub proof fn lemma_repeating_a_plan(plan: Seq<PlannedCopy>)
    ensures
        copied_from(plan + plan) == copied_from(plan),
{
    lemma_copied_from_append(plan, plan);
}

} // verus!
