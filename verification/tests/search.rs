use lazylog::search::Search;
use lazylog::utils::contains_ignore_case;

#[test]
fn test_apply_pattern_sets_active_pattern() {
    let mut search = Search::default();
    let lines = ["WARNING: baz", "ERROR: foo", "INFO: bar"];
    search.apply_pattern("ERROR", &lines);
    assert_eq!(search.get_active_pattern(), Some("ERROR"));
}

#[test]
fn test_apply_pattern_adds_to_history() {
    let mut search = Search::default();
    let lines = ["ERROR: foo"];
    search.apply_pattern("ERROR", &lines);
    assert_eq!(search.history.get_history().len(), 1);
    assert_eq!(search.history.get_history()[0], "ERROR");
}

#[test]
fn test_apply_pattern_finds_matches() {
    let mut search = Search::default();
    let lines = ["ERROR: foo", "INFO: bar", "ERROR: baz"];
    search.apply_pattern("ERROR", &lines);
    let (_current, visible, _total) = search.get_match_info();
    assert_eq!(visible, 2);
}

#[test]
fn test_clear_matches_clears_pattern_and_matches() {
    let mut search = Search::default();
    let lines = ["ERROR: foo"];
    search.apply_pattern("ERROR", &lines);
    search.clear_matches();
    assert_eq!(search.get_active_pattern(), None);
    assert_eq!(search.get_match_info(), (0, 0, 0));
}

#[test]
fn test_update_matches_case_insensitive() {
    let mut search = Search::default();
    let lines = ["ERROR: foo", "error: bar", "Error: baz"];
    search.update_matches("error", &lines);
    let (_, visible, _) = search.get_match_info();
    assert_eq!(visible, 3);
}

#[test]
fn test_update_matches_case_sensitive() {
    let mut search = Search::default();
    search.toggle_case_sensitivity();
    let lines = ["ERROR: foo", "error: bar", "Error: baz"];
    search.update_matches("error", &lines);
    let (_, visible, _) = search.get_match_info();
    assert_eq!(visible, 1);
}

#[test]
fn test_get_match_info_returns_correct_values() {
    let mut search = Search::default();
    let lines = ["ERROR: foo", "INFO: bar", "ERROR: baz"];
    search.update_matches("ERROR", &lines);
    search.next_match(0);
    let (current, visible, _total) = search.get_match_info();
    assert_eq!(current, 2);
    assert_eq!(visible, 2);
}

#[test]
fn search_test_contains_ignore_case_finds_different_cases() {
    assert!(contains_ignore_case("ERROR: foo", "error"));
    assert!(contains_ignore_case("error: foo", "ERROR"));
    assert!(contains_ignore_case("Error: foo", "eRrOr"));
}

#[test]
fn search_test_contains_ignore_case_returns_false_for_no_match() {
    assert!(!contains_ignore_case("INFO: foo", "error"));
}

#[test]
fn search_test_contains_ignore_case_handles_empty_needle() {
    assert!(contains_ignore_case("foo", ""));
}

#[test]
fn search_test_contains_ignore_case_handles_needle_longer_than_haystack() {
    assert!(!contains_ignore_case("foo", "foobar"));
}

#[test]
fn next_and_previous_match_wrap_around() {
    let mut search = Search::default();
    let lines = ["a x", "b", "c x", "d"];
    search.update_matches("x", &lines);
    assert_eq!(search.next_match(0), Some(2));
    assert_eq!(search.next_match(2), Some(0));
    assert_eq!(search.previous_match(0), Some(2));
    assert_eq!(search.count_matches("x", &lines), 2);
}
