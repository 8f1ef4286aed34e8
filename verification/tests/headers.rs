use toolbelt::headers::{append_include_dirs, format_include_dir};
use toolbelt::{
    expand_sdk_include_dirs, get_sdk_include_dirs, IncludeDirFormat, IncludeExpansion,
    InvalidPattern, MatchOutcome,
};

fn strings(items: &[&str]) -> Vec<String> {
    items.iter().map(|s| s.to_string()).collect()
}

fn matched(path: &str) -> MatchOutcome {
    MatchOutcome::Matched(path.to_string())
}

fn failed(note: &str) -> MatchOutcome {
    MatchOutcome::Failed(note.to_string())
}

fn empty_expansion() -> IncludeExpansion {
    IncludeExpansion { dirs: Vec::new(), diagnostics: Vec::new() }
}

fn expand(sdk: &str, patterns: &[Vec<MatchOutcome>], format: IncludeDirFormat) -> IncludeExpansion {
    let mut expansion = empty_expansion();
    for outcomes in patterns {
        append_include_dirs(sdk, outcomes, format, &mut expansion);
    }
    expansion
}

fn here() -> String {
    std::path::Path::new(".")
        .canonicalize()
        .unwrap()
        .display()
        .to_string()
}

#[test]
fn plain_format_is_the_joined_path() {
    assert_eq!(
        format_include_dir("/sdk", "/sdk/headers/common", IncludeDirFormat::PLAIN),
        "/sdk/headers/common"
    );
    assert_eq!(
        format_include_dir("sdk", "sdk/headers", IncludeDirFormat::PLAIN),
        "sdk/sdk/headers"
    );
}

#[test]
fn clang_format_puts_the_flag_in_front() {
    assert_eq!(
        format_include_dir("/sdk", "/sdk/headers/common", IncludeDirFormat::CLANG),
        "-I/sdk/headers/common"
    );
    assert_eq!(
        format_include_dir("sdk/", "headers", IncludeDirFormat::CLANG),
        "-Isdk/headers"
    );
}

#[test]
fn matches_of_an_earlier_pattern_come_first() {
    let a = vec![matched("/sdk/a/one")];
    let b = vec![matched("/sdk/b/two")];

    let expansion = expand("/sdk", &[a, b], IncludeDirFormat::PLAIN);

    assert_eq!(expansion.dirs, strings(&["/sdk/a/one", "/sdk/b/two"]));
}

#[test]
fn match_order_is_kept_within_a_pattern() {
    let a = vec![matched("/sdk/a/z"), matched("/sdk/a/y"), matched("/sdk/a/x")];
    let b = vec![matched("/sdk/b/2"), matched("/sdk/b/1")];

    let expansion = expand("/sdk", &[a, b], IncludeDirFormat::CLANG);

    assert_eq!(
        expansion.dirs,
        strings(&["-I/sdk/a/z", "-I/sdk/a/y", "-I/sdk/a/x", "-I/sdk/b/2", "-I/sdk/b/1"])
    );
}

#[test]
fn formats_differ_by_the_flag_only() {
    let patterns = || {
        vec![
            vec![matched("/sdk/a"), failed("unreadable"), matched("/sdk/b")],
            vec![],
            vec![matched("rel/c")],
        ]
    };

    let plain = expand("/sdk", &patterns(), IncludeDirFormat::PLAIN);
    let clang = expand("/sdk", &patterns(), IncludeDirFormat::CLANG);

    assert_eq!(plain.dirs, strings(&["/sdk/a", "/sdk/b", "/sdk/rel/c"]));
    assert_eq!(plain.dirs.len(), clang.dirs.len());
    for (p, c) in plain.dirs.iter().zip(clang.dirs.iter()) {
        assert_eq!(*c, format!("-I{}", p));
    }
    assert_eq!(plain.diagnostics, clang.diagnostics);
}

#[test]
fn failed_entries_are_skipped_and_reported() {
    let outcomes = vec![failed("first"), matched("/sdk/ok"), failed("second")];

    let expansion = expand("/sdk", &[outcomes], IncludeDirFormat::PLAIN);

    assert_eq!(expansion.dirs, strings(&["/sdk/ok"]));
    assert_eq!(expansion.diagnostics, strings(&["first", "second"]));
}

#[test]
fn duplicates_are_kept() {
    let a = vec![matched("/sdk/h"), matched("/sdk/h")];
    let b = vec![matched("/sdk/h")];

    let expansion = expand("/sdk", &[a, b], IncludeDirFormat::PLAIN);

    assert_eq!(expansion.dirs, strings(&["/sdk/h", "/sdk/h", "/sdk/h"]));
}

#[test]
fn append_keeps_what_was_there() {
    let mut expansion = IncludeExpansion {
        dirs: strings(&["kept"]),
        diagnostics: strings(&["old note"]),
    };

    append_include_dirs(
        "/sdk",
        &vec![matched("/sdk/new"), failed("new note")],
        IncludeDirFormat::PLAIN,
        &mut expansion,
    );

    assert_eq!(expansion.dirs, strings(&["kept", "/sdk/new"]));
    assert_eq!(expansion.diagnostics, strings(&["old note", "new note"]));
}

#[test]
fn no_patterns_give_no_directories() {
    let expansion = expand_sdk_include_dirs(&Vec::new(), "/sdk", IncludeDirFormat::CLANG).unwrap();

    assert!(expansion.dirs.is_empty());
    assert!(expansion.diagnostics.is_empty());
    assert_eq!(
        get_sdk_include_dirs(&Vec::new(), "/sdk", IncludeDirFormat::PLAIN),
        Ok(Vec::new())
    );
}

#[test]
fn patterns_are_expanded_in_the_order_given() {
    let sdk = format!("{}/", here());
    let patterns = strings(&["tests/path*.rs", "src/l*.rs"]);

    let dirs = get_sdk_include_dirs(&patterns, &sdk, IncludeDirFormat::PLAIN).unwrap();

    assert_eq!(
        dirs,
        vec![format!("{}tests/paths.rs", sdk), format!("{}src/lib.rs", sdk)]
    );
}

#[test]
fn the_pattern_is_written_directly_behind_the_root() {
    let sdk = format!("{}/sr", here());
    let patterns = strings(&["c/l*.rs"]);

    let dirs = get_sdk_include_dirs(&patterns, &sdk, IncludeDirFormat::CLANG).unwrap();

    assert_eq!(dirs, vec![format!("-I{}/src/lib.rs", here())]);
}

#[test]
fn a_relative_match_is_joined_onto_the_root() {
    let patterns = strings(&["/l*.rs"]);

    let dirs = get_sdk_include_dirs(&patterns, "src", IncludeDirFormat::PLAIN).unwrap();

    assert_eq!(dirs, strings(&["src/src/lib.rs"]));
}

#[test]
fn matching_ignores_case() {
    let sdk = format!("{}/", here());
    let patterns = strings(&["src/L*.RS"]);

    let dirs = get_sdk_include_dirs(&patterns, &sdk, IncludeDirFormat::PLAIN).unwrap();

    assert_eq!(dirs, vec![format!("{}src/lib.rs", sdk)]);
}

#[test]
fn a_pattern_without_matches_contributes_nothing() {
    let sdk = format!("{}/", here());
    let patterns = strings(&["src/*.none", "src/l*.rs"]);

    let expansion = expand_sdk_include_dirs(&patterns, &sdk, IncludeDirFormat::PLAIN).unwrap();

    assert_eq!(expansion.dirs, vec![format!("{}src/lib.rs", sdk)]);
    assert!(expansion.diagnostics.is_empty());
}

#[test]
fn an_invalid_pattern_is_reported_with_its_position() {
    let patterns = strings(&["src/*.rs", "src/a**b", "src/***"]);

    let result = get_sdk_include_dirs(&patterns, "", IncludeDirFormat::PLAIN);

    assert_eq!(result, Err(InvalidPattern { index: 1 }));
    assert_eq!(
        expand_sdk_include_dirs(&strings(&["[unclosed"]), "", IncludeDirFormat::PLAIN).err(),
        Some(InvalidPattern { index: 0 })
    );
}
