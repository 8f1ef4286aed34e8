//! Command lines of the packaging tools.
//!
//! The functions here say which program is to be run with which arguments.
//! Running it is left to the caller.

use crate::matching::{
    collect_matched, globwalk_accepts, matched_paths, walk_glob, InvalidPattern, MatchOutcome,
};
use crate::path::{chars_of, file_name, join_path, join_paths, split_file_name};
use vstd::prelude::*;
use vstd::string::*;

verus! {

/// A program and the arguments it is to be run with.
#[derive(Debug)]
pub struct ToolCommand {
    pub program: String,
    pub arguments: Vec<String>,
}

/// A `ToolCommand` with its strings as sequences of characters.
pub struct CommandLine {
    pub program: Seq<char>,
    pub arguments: Seq<Seq<char>>,
}

impl View for ToolCommand {
    type V = CommandLine;

    open spec fn view(&self) -> CommandLine {
        CommandLine { program: self.program@, arguments: self.arguments.deep_view() }
    }
}

/// The commands of `commands` as `CommandLine` values.
pub open spec fn commands_view(commands: Seq<ToolCommand>) -> Seq<CommandLine> {
    commands.map_values(|command: ToolCommand| command@)
}

/// Index of the last `.` of `name`, or -1 if it has none.
pub open spec fn last_dot(name: Seq<char>) -> int
    decreases name.len(),
{
    if name.len() == 0 {
        -1
    } else if name.last() == '.' {
        name.len() - 1
    } else {
        last_dot(name.drop_last())
    }
}

/// Length of the stem of a file name: the name up to its last `.`, or the
/// whole name if it has no `.` or only a leading one.
pub open spec fn stem_len(name: Seq<char>) -> int {
    if last_dot(name) <= 0 {
        name.len() as int
    } else {
        last_dot(name)
    }
}

/// A file name with its extension replaced by `nib`. The empty name and `..`
/// are no file names and stay as they are.
pub open spec fn nib_name(name: Seq<char>) -> Seq<char> {
    if name.len() == 0 || name == seq!['.', '.'] {
        name
    } else {
        name.take(stem_len(name)) + seq!['.', 'n', 'i', 'b']
    }
}

/// Where the compiled form of the interface file `xib_path` goes: directly
/// into `destination`, under the file's own name with the extension `nib`.
pub open spec fn nib_path(destination: Seq<char>, xib_path: Seq<char>) -> Seq<char> {
    join_paths(destination, nib_name(file_name(xib_path)))
}

/// The command that compiles `xib_path` to `nib_path`.
pub open spec fn ibtool_command_line(nib_path: Seq<char>, xib_path: Seq<char>) -> CommandLine {
    CommandLine { program: "ibtool"@, arguments: seq!["--compile"@, nib_path, xib_path] }
}

/// The command that signs `package` ad hoc, replacing any signature it has.
pub open spec fn codesign_command_line(package: Seq<char>) -> CommandLine {
    CommandLine { program: "codesign"@, arguments: seq!["--force"@, "--sign"@, "-"@, package] }
}

/// The commands that compile the interface files `xib_paths` into
/// `destination`, one per file and in their order.
pub open spec fn xib_command_lines(destination: Seq<char>, xib_paths: Seq<Seq<char>>) -> Seq<
    CommandLine,
> {
    xib_paths.map_values(
        |xib_path: Seq<char>| ibtool_command_line(nib_path(destination, xib_path), xib_path),
    )
}

/// Replaces the extension of the file name `name` by `nib`.
pub fn with_nib_extension(name: &str) -> (renamed: String)
    ensures
        renamed@ == nib_name(name@),
{
    let chars: Vec<char> = chars_of(name);
    let len: usize = chars.len();
    if len == 0 || (len == 2 && chars[0] == '.' && chars[1] == '.') {
        assert(len == 2 && chars[0] == '.' && chars[1] == '.' ==> name@ =~= seq!['.', '.']);
        return String::from_str(name);
    }
    assert(name@ != seq!['.', '.']);
    let mut dot: usize = len;
    assert(name@.take(dot as int) =~= name@);
    while dot > 0 && chars[dot - 1] != '.'
        invariant
            dot <= len,
            len == chars.len(),
            chars@ == name@,
            last_dot(name@) == last_dot(name@.take(dot as int)),
        decreases dot,
    {
        assert(name@.take(dot as int).drop_last() =~= name@.take(dot - 1));
        dot = dot - 1;
    }
    let stem: usize = if dot <= 1 {
        len
    } else {
        dot - 1
    };
    proof {
        reveal_strlit(".nib");
    }
    String::from_str(name.substring_char(0, stem)).concat(".nib")
}

/// Where the compiled form of `xib_path` goes under `destination`.
pub fn nib_path_for(destination: &str, xib_path: &str) -> (path: String)
    ensures
        path@ == nib_path(destination@, xib_path@),
{
    let (_, name) = split_file_name(xib_path);
    let renamed: String = with_nib_extension(name.as_str());
    join_path(destination, renamed.as_str())
}

/// The command that compiles the interface file `xib_path` to `nib_path`.
pub fn ibtool_command(nib_path: &str, xib_path: &str) -> (command: ToolCommand)
    ensures
        command@ == ibtool_command_line(nib_path@, xib_path@),
{
    let mut arguments: Vec<String> = Vec::new();
    arguments.push(String::from_str("--compile"));
    arguments.push(String::from_str(nib_path));
    arguments.push(String::from_str(xib_path));
    assert(arguments.deep_view() =~= seq!["--compile"@, nib_path@, xib_path@]);
    ToolCommand { program: String::from_str("ibtool"), arguments }
}

/// The command that signs the package at `package`.
pub fn codesign_command(package: &str) -> (command: ToolCommand)
    ensures
        command@ == codesign_command_line(package@),
{
    let mut arguments: Vec<String> = Vec::new();
    arguments.push(String::from_str("--force"));
    arguments.push(String::from_str("--sign"));
    arguments.push(String::from_str("-"));
    arguments.push(String::from_str(package));
    assert(arguments.deep_view() =~= seq!["--force"@, "--sign"@, "-"@, package@]);
    ToolCommand { program: String::from_str("codesign"), arguments }
}

/// The commands that compile the interface files `xib_paths` into
/// `destination`.
pub fn xib_commands(destination: &str, xib_paths: &Vec<String>) -> (commands: Vec<ToolCommand>)
    ensures
        commands_view(commands@) == xib_command_lines(destination@, xib_paths.deep_view()),
{
    let mut commands: Vec<ToolCommand> = Vec::new();
    let n: usize = xib_paths.len();
    for i in 0..n
        invariant
            n == xib_paths.len(),
            commands_view(commands@) == xib_command_lines(
                destination@,
                xib_paths.deep_view().take(i as int),
            ),
    {
        let nib: String = nib_path_for(destination, xib_paths[i].as_str());
        let command: ToolCommand = ibtool_command(nib.as_str(), xib_paths[i].as_str());
        commands.push(command);
        proof {
            let paths = xib_paths.deep_view();
            assert(xib_command_lines(destination@, paths.take(i + 1)) =~= xib_command_lines(
                destination@,
                paths.take(i as int),
            ).push(command@));
        }
    }
    commands
}

/// The commands that compile every interface file directly under `source`
/// into `destination`.
///
/// The files are those that the glob `*.xib`, joined onto `source`, matches.
/// Entries that the walk could not read are skipped. A glob expression that
/// is not accepted gives `InvalidPattern`, and nothing else does.
///
/// What is found depends on the file system; whatever is found, the result
/// is the list of commands for the matched paths.
pub fn compile_xib_commands(source: &str, destination: &str) -> (result: Result<
    Vec<ToolCommand>,
    InvalidPattern,
>)
    ensures
        result is Ok <==> globwalk_accepts(join_paths(source@, "*.xib"@)),
        match result {
            Ok(commands) => exists|outcomes: Seq<MatchOutcome>|
                commands_view(commands@) == #[trigger] xib_command_lines(
                    destination@,
                    matched_paths(outcomes),
                ),
            Err(fault) => fault.index == 0,
        },
{
    let expression: String = join_path(source, "*.xib");
    match walk_glob(expression.as_str()) {
        Ok(outcomes) => {
            let paths: Vec<String> = collect_matched(&outcomes);
            Ok(xib_commands(destination, &paths))
        },
        Err(_) => Err(InvalidPattern { index: 0 }),
    }
}

} // verus!
