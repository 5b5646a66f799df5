use lazylog::log::LogBuffer;
use lazylog::log_event::{EventPattern, LogEventTracker};
use lazylog::matcher::{PatternMatcher, PlainMatch};

fn create_test_patterns() -> Vec<EventPattern> {
    vec![
        EventPattern {
            name: "error".to_string(),
            matcher: PatternMatcher::Plain(PlainMatch { pattern: "ERROR".to_string(), case_sensitive: true }),
            enabled: true,
            count: 0,
            critical: false,
            is_custom: false,
        },
        EventPattern {
            name: "warning".to_string(),
            matcher: PatternMatcher::Plain(PlainMatch { pattern: "WARN".to_string(), case_sensitive: true }),
            enabled: true,
            count: 0,
            critical: false,
            is_custom: false,
        },
        EventPattern {
            name: "info".to_string(),
            matcher: PatternMatcher::Plain(PlainMatch { pattern: "INFO".to_string(), case_sensitive: true }),
            enabled: true,
            count: 0,
            critical: false,
            is_custom: false,
        },
    ]
}

fn create_test_log_buffer() -> LogBuffer {
    let mut buffer = LogBuffer::default();
    buffer.append_line("INFO: Starting application".to_string());
    buffer.append_line("ERROR: Failed to connect".to_string());
    buffer.append_line("WARN: Retrying connection".to_string());
    buffer.append_line("INFO: Connection established".to_string());
    buffer.append_line("ERROR: Timeout occurred".to_string());
    buffer
}

#[test]
fn test_new_tracker_is_empty() {
    let patterns = create_test_patterns();
    let tracker = LogEventTracker::new(patterns);
    assert!(tracker.is_empty());
    assert_eq!(tracker.count(), 0);
}

#[test]
fn test_scan_all_lines_finds_events() {
    let patterns = create_test_patterns();
    let mut tracker = LogEventTracker::new(patterns);
    let buffer = create_test_log_buffer();

    tracker.scan_all_lines(&buffer);

    assert_eq!(tracker.count(), 5);
    assert!(!tracker.is_empty());
}

#[test]
fn test_scan_all_lines_counts_events_by_type() {
    let patterns = create_test_patterns();
    let mut tracker = LogEventTracker::new(patterns);
    let buffer = create_test_log_buffer();

    tracker.scan_all_lines(&buffer);

    assert_eq!(tracker.get_event_count("error"), 2);
    assert_eq!(tracker.get_event_count("warning"), 1);
    assert_eq!(tracker.get_event_count("info"), 2);
}

#[test]
fn test_get_event_stats_sorted_by_count() {
    let patterns = create_test_patterns();
    let mut tracker = LogEventTracker::new(patterns);
    let buffer = create_test_log_buffer();

    tracker.scan_all_lines(&buffer);

    let stats = tracker.get_event_stats();
    assert_eq!(stats.len(), 3);

    let counts: Vec<_> = stats.iter().map(|s| s.count).collect();
    assert!(counts[0] >= counts[1]);
    assert!(counts[1] >= counts[2]);

    assert!(stats.iter().any(|s| s.name == "error" && s.count == 2));
    assert!(stats.iter().any(|s| s.name == "warning" && s.count == 1));
    assert!(stats.iter().any(|s| s.name == "info" && s.count == 2));
}

#[test]
fn test_toggle_event_enabled() {
    let patterns = create_test_patterns();
    let mut tracker = LogEventTracker::new(patterns);
    let buffer = create_test_log_buffer();

    tracker.scan_all_lines(&buffer);

    let enabled_before = tracker.get_enabled_events();
    assert_eq!(enabled_before.len(), 5);

    tracker.toggle_event_enabled("error");

    let enabled_after = tracker.get_enabled_events();
    assert_eq!(enabled_after.len(), 3);

    assert_eq!(tracker.get_event_count("error"), 2);
}

#[test]
fn test_toggle_all_filters() {
    let patterns = create_test_patterns();
    let mut tracker = LogEventTracker::new(patterns);
    let buffer = create_test_log_buffer();

    tracker.scan_all_lines(&buffer);

    tracker.toggle_all_filters();

    let stats = tracker.get_event_stats();
    assert!(stats.iter().all(|s| !s.enabled));

    tracker.toggle_all_filters();

    let stats = tracker.get_event_stats();
    assert!(stats.iter().all(|s| s.enabled));
}

#[test]
fn test_restore_filter_states() {
    let patterns = create_test_patterns();
    let mut tracker = LogEventTracker::new(patterns);

    let saved_states = vec![
        ("error".to_string(), false),
        ("warning".to_string(), true),
        ("info".to_string(), false),
    ];

    tracker.restore_filter_states(&saved_states);

    let stats = tracker.get_event_stats();
    let error_state = stats.iter().find(|s| s.name == "error").unwrap();
    let warning_state = stats.iter().find(|s| s.name == "warning").unwrap();
    let info_state = stats.iter().find(|s| s.name == "info").unwrap();

    assert!(!error_state.enabled);
    assert!(warning_state.enabled);
    assert!(!info_state.enabled);
}

#[test]
fn test_toggle_preserves_events() {
    let patterns = create_test_patterns();
    let mut tracker = LogEventTracker::new(patterns);
    let buffer = create_test_log_buffer();

    tracker.scan_all_lines(&buffer);
    let initial_count = tracker.count();

    tracker.toggle_event_enabled("error");
    assert_eq!(tracker.count(), initial_count);

    let enabled = tracker.get_enabled_events();
    assert_eq!(enabled.len(), 3);
}

#[test]
fn test_get_enabled_events_filters_correctly() {
    let patterns = create_test_patterns();
    let mut tracker = LogEventTracker::new(patterns);
    let buffer = create_test_log_buffer();

    tracker.scan_all_lines(&buffer);

    tracker.toggle_event_enabled("warning");

    let enabled = tracker.get_enabled_events();
    assert_eq!(enabled.len(), 4);
    assert!(enabled.iter().all(|e| e.name != "warning"));
}

#[test]
fn test_clear_all() {
    let patterns = create_test_patterns();
    let mut tracker = LogEventTracker::new(patterns);
    let buffer = create_test_log_buffer();

    tracker.scan_all_lines(&buffer);
    assert_eq!(tracker.count(), 5);

    tracker.clear_all();
    assert_eq!(tracker.count(), 0);
    assert!(tracker.is_empty());

    assert_eq!(tracker.get_event_count("error"), 0);
    assert_eq!(tracker.get_event_count("warning"), 0);
    assert_eq!(tracker.get_event_count("info"), 0);
}

#[test]
fn test_filter_count() {
    let patterns = create_test_patterns();
    let tracker = LogEventTracker::new(patterns);

    assert_eq!(tracker.filter_count(), 3);
}

#[test]
fn test_scan_single_line_increments_count() {
    let patterns = create_test_patterns();
    let mut tracker = LogEventTracker::new(patterns);
    let buffer = create_test_log_buffer();

    tracker.scan_all_lines(&buffer);

    let initial_error_count = tracker.get_event_count("error");

    let mut temp_buffer = LogBuffer::default();
    temp_buffer.append_line("ERROR: Another error".to_string());
    let log_line = temp_buffer.get_line(0).unwrap();

    tracker.scan_single_line(log_line);

    assert_eq!(tracker.get_event_count("error"), initial_error_count + 1);
}

#[test]
fn events_are_ordered_by_line_index() {
    let mut tracker = LogEventTracker::new(create_test_patterns());
    tracker.scan_all_lines(&create_test_log_buffer());
    let lines: Vec<usize> = tracker.get_events().iter().map(|e| e.line_index).collect();
    assert_eq!(lines, vec![0, 1, 2, 3, 4]);
    assert_eq!(tracker.get_events()[2].name, "warning");
}

#[test]
fn stats_keep_pattern_order_on_equal_counts() {
    let mut tracker = LogEventTracker::new(create_test_patterns());
    tracker.scan_all_lines(&create_test_log_buffer());
    let names: Vec<String> = tracker.get_event_stats().iter().map(|s| s.name.clone()).collect();
    assert_eq!(names, vec!["error".to_string(), "info".to_string(), "warning".to_string()]);
}

#[test]
fn custom_events_are_added_named_and_removed() {
    let mut tracker = LogEventTracker::new(create_test_patterns());
    assert!(!tracker.add_custom_event(""));
    assert!(!tracker.add_custom_event("ERROR"));
    assert!(tracker.add_custom_event("a very long custom pattern"));
    assert!(tracker.is_custom_event("a very long c..."));
    assert_eq!(tracker.get_custom_event_patterns(), vec!["a very long custom pattern"]);
    let mut buffer = LogBuffer::default();
    buffer.append_line("here is a very long custom pattern".to_string());
    tracker.scan_all_lines(&buffer);
    assert_eq!(tracker.get_custom_event_indices().len(), 1);
    assert_eq!(tracker.remove_custom_event("a very long c..."), Some("a very long custom pattern".to_string()));
    assert_eq!(tracker.filter_count(), 3);
    assert_eq!(tracker.count(), 0);
}

#[test]
fn solo_and_filtering_state() {
    let mut tracker = LogEventTracker::new(create_test_patterns());
    assert!(!tracker.has_event_filtering());
    tracker.solo_event_filter("info");
    assert!(tracker.has_event_filtering());
    let enabled: Vec<bool> = tracker.get_event_stats().iter().map(|s| s.enabled).collect();
    assert_eq!(enabled.iter().filter(|e| **e).count(), 1);
    assert!(tracker.toggle_show_marks());
    assert!(tracker.showing_marks());
    assert!(!tracker.toggle_show_marks());
}

#[test]
fn event_and_critical_indices() {
    let mut patterns = create_test_patterns();
    patterns[0].critical = true;
    let mut tracker = LogEventTracker::new(patterns);
    tracker.scan_all_lines(&create_test_log_buffer());
    let all = tracker.get_event_indices();
    assert_eq!(all.len(), 5);
    let critical = tracker.get_critical_event_indices();
    assert!(critical.contains(&1) && critical.contains(&4) && critical.len() == 2);
    assert!(tracker.is_critical_event("error"));
    assert!(!tracker.is_critical_event("info"));
}

#[test]
fn toggling_an_event_twice_restores_it() {
    let mut tracker = LogEventTracker::new(create_test_patterns());
    let enabled = |t: &LogEventTracker| t.get_event_stats().iter().find(|s| s.name == "warning").unwrap().enabled;
    assert!(enabled(&tracker));
    tracker.toggle_event_enabled("warning");
    assert!(!enabled(&tracker));
    tracker.toggle_event_enabled("warning");
    assert!(enabled(&tracker));
}
