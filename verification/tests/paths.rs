use toolbelt::path::{
    chars_of, has_parent_dir_component, is_absolute_path, is_inside, join_path, relative_to,
    split_file_name, strip_root_prefix,
};

fn split(path: &str) -> (String, String) {
    split_file_name(path)
}

#[test]
fn chars_of_gives_every_character() {
    assert_eq!(chars_of("a/ü.txt"), vec!['a', '/', 'ü', '.', 't', 'x', 't']);
    assert_eq!(chars_of(""), Vec::<char>::new());
}

#[test]
fn absolute_paths_start_with_a_separator() {
    assert!(is_absolute_path("/"));
    assert!(is_absolute_path("/usr/include"));
    assert!(!is_absolute_path("usr/include"));
    assert!(!is_absolute_path(""));
    assert!(!is_absolute_path("./x"));
}

#[test]
fn join_puts_one_separator_between() {
    assert_eq!(join_path("a", "b"), "a/b");
    assert_eq!(join_path("a/", "b"), "a/b");
    assert_eq!(join_path("/root/sdk", "headers/common"), "/root/sdk/headers/common");
}

#[test]
fn join_with_an_absolute_path_replaces_the_base() {
    assert_eq!(join_path("a", "/b"), "/b");
    assert_eq!(join_path("/sdk", "/sdk/headers"), "/sdk/headers");
    assert_eq!(join_path("", "/b"), "/b");
}

#[test]
fn join_with_empty_parts() {
    assert_eq!(join_path("", "b"), "b");
    assert_eq!(join_path("a", ""), "a/");
    assert_eq!(join_path("a/", ""), "a/");
    assert_eq!(join_path("", ""), "");
}

#[test]
fn split_file_name_cuts_after_the_last_separator() {
    assert_eq!(
        split("more_files/file3.md"),
        ("more_files/".to_string(), "file3.md".to_string())
    );
    assert_eq!(split("file1.txt"), (String::new(), "file1.txt".to_string()));
    assert_eq!(split("a/b/c"), ("a/b/".to_string(), "c".to_string()));
    assert_eq!(split("a/b/"), ("a/b/".to_string(), String::new()));
    assert_eq!(split("/x"), ("/".to_string(), "x".to_string()));
    assert_eq!(split(""), (String::new(), String::new()));
}

#[test]
fn strip_root_takes_the_root_and_one_separator_away() {
    assert_eq!(strip_root_prefix("/src", "/src/a.txt"), Some("a.txt".to_string()));
    assert_eq!(strip_root_prefix("/src/", "/src/a.txt"), Some("a.txt".to_string()));
    assert_eq!(strip_root_prefix("/", "/a/b"), Some("a/b".to_string()));
    assert_eq!(strip_root_prefix("", "a/b"), Some("a/b".to_string()));
    assert_eq!(strip_root_prefix("/src", "/src"), Some(String::new()));
    assert_eq!(strip_root_prefix("/src", "/src//a"), Some("/a".to_string()));
}

#[test]
fn strip_root_refuses_what_is_not_under_the_root() {
    assert_eq!(strip_root_prefix("/src", "/other/a.txt"), None);
    assert_eq!(strip_root_prefix("/src", "/srcx/a.txt"), None);
    assert_eq!(strip_root_prefix("/src/long", "/src"), None);
    assert_eq!(strip_root_prefix("src", "/src/a"), None);
}

#[test]
fn parent_components_are_found() {
    assert!(has_parent_dir_component(".."));
    assert!(has_parent_dir_component("../a"));
    assert!(has_parent_dir_component("a/.."));
    assert!(has_parent_dir_component("a/../b"));
    assert!(has_parent_dir_component("/.."));
}

#[test]
fn dots_inside_names_are_no_parent_components() {
    assert!(!has_parent_dir_component(""));
    assert!(!has_parent_dir_component("."));
    assert!(!has_parent_dir_component("..."));
    assert!(!has_parent_dir_component("a..b"));
    assert!(!has_parent_dir_component("a/..b"));
    assert!(!has_parent_dir_component("..a/b"));
    assert!(!has_parent_dir_component("a/b.."));
    assert!(!has_parent_dir_component("a/b.txt"));
}

#[test]
fn inside_means_relative_named_and_without_parent_components() {
    assert!(is_inside("a.txt"));
    assert!(is_inside("a/b/c.txt"));
    assert!(!is_inside(""));
    assert!(!is_inside("/a.txt"));
    assert!(!is_inside("a/"));
    assert!(!is_inside("../a.txt"));
    assert!(!is_inside("a/../../b.txt"));
}

#[test]
fn relative_to_gives_the_path_below_the_root() {
    assert_eq!(relative_to("/src", "/src/a/b.txt"), Some("a/b.txt".to_string()));
    assert_eq!(relative_to("/src/", "/src/file1.txt"), Some("file1.txt".to_string()));
}

#[test]
fn relative_to_refuses_paths_that_escape() {
    assert_eq!(relative_to("/src", "/src/../etc/passwd"), None);
    assert_eq!(relative_to("/src", "/src/a/../../etc/passwd"), None);
    assert_eq!(relative_to("/src", "/etc/passwd"), None);
    assert_eq!(relative_to("/src", "/src"), None);
    assert_eq!(relative_to("/src", "/src/dir/"), None);
    assert_eq!(relative_to("/src", "/src//etc/passwd"), None);
}
