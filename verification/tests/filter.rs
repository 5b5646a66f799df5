use lazylog::filter::{ActiveFilterMode, Filter};

#[test]
fn test_add_filter_creates_new_pattern() {
    let mut filter = Filter::default();
    filter.add_filter_from_pattern("ERROR");
    assert_eq!(filter.get_filter_patterns().len(), 1);
    assert_eq!(filter.get_filter_patterns()[0].pattern, "ERROR");
}

#[test]
fn test_add_filter_prevents_duplicates() {
    let mut filter = Filter::default();
    filter.add_filter_from_pattern("ERROR");
    filter.add_filter_from_pattern("ERROR");
    assert_eq!(filter.get_filter_patterns().len(), 1);
}

#[test]
fn test_add_filter_allows_same_pattern_different_mode() {
    let mut filter = Filter::default();
    filter.add_filter_from_pattern("ERROR");
    filter.toggle_mode();
    filter.add_filter_from_pattern("ERROR");
    assert_eq!(filter.get_filter_patterns().len(), 2);
}

#[test]
fn test_toggle_mode_switches_between_include_and_exclude() {
    let mut filter = Filter::default();
    assert_eq!(filter.get_mode(), ActiveFilterMode::Include);
    filter.toggle_mode();
    assert_eq!(filter.get_mode(), ActiveFilterMode::Exclude);
    filter.toggle_mode();
    assert_eq!(filter.get_mode(), ActiveFilterMode::Include);
}

#[test]
fn test_remove_pattern_deletes_pattern() {
    let mut filter = Filter::default();
    filter.add_filter_from_pattern("ERROR");
    filter.add_filter_from_pattern("WARNING");
    filter.remove_pattern(1);
    assert_eq!(filter.get_filter_patterns().len(), 1);
    assert_eq!(filter.get_filter_patterns()[0].pattern, "ERROR");
}

#[test]
fn test_update_pattern_succeeds_with_unique_pattern() {
    let mut filter = Filter::default();
    filter.add_filter_from_pattern("ERROR");
    filter.add_filter_from_pattern("WARNING");
    let success = filter.update_pattern(1, "INFO");
    assert!(success);
    assert_eq!(filter.get_filter_patterns()[1].pattern, "INFO");
}

#[test]
fn test_update_pattern_prevents_duplicates() {
    let mut filter = Filter::default();
    filter.add_filter_from_pattern("ERROR");
    filter.add_filter_from_pattern("WARNING");
    let success = filter.update_pattern(1, "ERROR");
    assert!(!success);
    assert_eq!(filter.get_filter_patterns()[0].pattern, "ERROR");
    assert_eq!(filter.get_filter_patterns()[1].pattern, "WARNING");
}

#[test]
fn test_update_pattern_allows_same_pattern_different_mode() {
    let mut filter = Filter::default();
    filter.add_filter_from_pattern("ERROR"); // Include mode
    filter.toggle_mode();
    filter.add_filter_from_pattern("WARNING"); // Exclude mode
    let success = filter.update_pattern(1, "ERROR");
    assert!(success);
    assert_eq!(filter.get_filter_patterns()[1].pattern, "ERROR");
    assert_eq!(filter.get_filter_patterns()[1].mode, ActiveFilterMode::Exclude);
}

#[test]
fn toggling_a_filter_twice_restores_it() {
    let mut filter = Filter::default();
    filter.add_filter_from_pattern("error");
    let before = filter.get_pattern(0).unwrap().enabled;
    filter.toggle_pattern_enabled(0);
    assert_eq!(filter.get_pattern(0).unwrap().enabled, !before);
    filter.toggle_pattern_enabled(0);
    assert_eq!(filter.get_pattern(0).unwrap().enabled, before);
    filter.toggle_pattern_enabled(5);
    assert_eq!(filter.count(), 1);
}
