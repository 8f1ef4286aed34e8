use glob::Pattern;
use toolbelt::matching::collect_matched;
use toolbelt::MatchOutcome;

#[test]
fn test_basic_glob() {
    assert!(Pattern::new("c?t").unwrap().matches("cat"));
    assert!(Pattern::new("file1.txt").unwrap().matches("file1.txt"));
}

#[test]
fn collect_matched_leaves_failed_entries_out() {
    let outcomes = vec![
        MatchOutcome::Failed("denied".to_string()),
        MatchOutcome::Matched("a".to_string()),
        MatchOutcome::Matched("b".to_string()),
        MatchOutcome::Failed("gone".to_string()),
        MatchOutcome::Matched("a".to_string()),
    ];

    assert_eq!(collect_matched(&outcomes), vec!["a", "b", "a"]);
    assert!(collect_matched(&Vec::new()).is_empty());
}
