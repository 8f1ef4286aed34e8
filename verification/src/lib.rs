//! Helper routines for native-app packaging workflows: planning glob-driven
//! directory copies, expanding SDK header globs into compiler include flags,
//! and assembling the command lines of the packaging tools.
//!
//! Paths are handled as plain strings with `/` as the separator. The library
//! expands globs against the file system and otherwise only computes: making
//! directories, copying files and running the tools is left to the caller.

pub mod copying;
pub mod headers;
pub mod matching;
pub mod package;
pub mod path;
pub mod tools;

pub use copying::{plan_copy, plan_copy_dir_with_pattern, CopyAction, DirectorySet};
pub use headers::{
    expand_sdk_include_dirs, get_sdk_include_dirs, IncludeDirFormat, IncludeExpansion,
};
pub use matching::{InvalidPattern, MatchOutcome};
pub use package::{get_name_from_cargo, pack_version, version};
pub use tools::{codesign_command, compile_xib_commands, ibtool_command, ToolCommand};
