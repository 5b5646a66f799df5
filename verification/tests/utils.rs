use lazylog::utils::contains_ignore_case;

#[test]
fn utils_test_contains_ignore_case_finds_different_cases() {
    assert!(contains_ignore_case("ERROR: foo", "error"));
    assert!(contains_ignore_case("error: foo", "ERROR"));
    assert!(contains_ignore_case("Error: foo", "eRrOr"));
}

#[test]
fn utils_test_contains_ignore_case_returns_false_for_no_match() {
    assert!(!contains_ignore_case("INFO: foo", "error"));
}

#[test]
fn utils_test_contains_ignore_case_handles_empty_needle() {
    assert!(contains_ignore_case("foo", ""));
}

#[test]
fn utils_test_contains_ignore_case_handles_needle_longer_than_haystack() {
    assert!(!contains_ignore_case("foo", "foobar"));
}
