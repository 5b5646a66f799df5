use lazylog::log::LogBuffer;
use lazylog::log_event::{EventPattern, LogEventTracker};
use lazylog::matcher::{PatternMatcher, PlainMatch};
use lazylog::timeline::TimelineData;

fn pattern(name: &str, text: &str) -> EventPattern {
    EventPattern {
        name: name.to_string(),
        matcher: PatternMatcher::Plain(PlainMatch { pattern: text.to_string(), case_sensitive: true }),
        enabled: true,
        count: 0,
        critical: false,
        is_custom: false,
    }
}

#[test]
fn test_intensity_char_empty() {
    assert_eq!(TimelineData::intensity_char(0, 10), '.');
    assert_eq!(TimelineData::intensity_char(0, 0), '.');
    assert_eq!(TimelineData::intensity_char(5, 0), '.');
}

#[test]
fn test_intensity_char_levels() {
    assert_eq!(TimelineData::intensity_char(1, 100), '░');
    assert_eq!(TimelineData::intensity_char(25, 100), '░');
    assert_eq!(TimelineData::intensity_char(26, 100), '▒');
    assert_eq!(TimelineData::intensity_char(50, 100), '▒');
    assert_eq!(TimelineData::intensity_char(51, 100), '▓');
    assert_eq!(TimelineData::intensity_char(75, 100), '▓');
    assert_eq!(TimelineData::intensity_char(76, 100), '█');
    assert_eq!(TimelineData::intensity_char(100, 100), '█');
}

fn sample() -> (LogBuffer, LogEventTracker) {
    let mut buffer = LogBuffer::default();
    buffer.append_line("2024-01-01T00:00:00Z ERROR a".to_string());
    buffer.append_line("2024-01-01T00:00:01Z WARN b".to_string());
    buffer.append_line("2024-01-01T00:00:09Z ERROR c".to_string());
    buffer.append_line("no time ERROR d".to_string());
    buffer.append_line("2024-01-01T00:00:10Z ERROR e".to_string());
    let mut tracker = LogEventTracker::new(vec![pattern("warning", "WARN"), pattern("error", "ERROR"), pattern("never", "NEVER")]);
    tracker.scan_all_lines(&buffer);
    (buffer, tracker)
}

fn count(slot: &lazylog::timeline::TimeSlot, name: &str) -> usize {
    slot.event_counts.iter().find(|(n, _)| n == name).map(|(_, c)| *c).unwrap_or(0)
}

#[test]
fn timeline_slots_and_counts() {
    let (buffer, tracker) = sample();
    let data = TimelineData::compute_in_year(&buffer, &tracker, 2, 2024).unwrap();
    let start: i128 = 1_704_067_200 * 1_000_000_000;
    assert_eq!(data.time_range, Some((start, start + 10_000_000_000)));
    assert_eq!(data.slots.len(), 2);
    assert_eq!(data.slots[0].start_time, start);
    assert_eq!(data.slots[0].end_time, start + 5_000_000_000);
    assert_eq!(data.slots[1].start_time, start + 5_000_000_000);
    assert_eq!(data.slots[1].end_time, start + 10_000_000_000);
    assert_eq!(data.event_names, vec!["error".to_string(), "warning".to_string()]);
    assert_eq!(count(&data.slots[0], "error"), 1);
    assert_eq!(count(&data.slots[0], "warning"), 1);
    assert_eq!(count(&data.slots[1], "error"), 2);
    assert_eq!(count(&data.slots[1], "warning"), 0);
    assert_eq!(data.max_count, 2);
    let total: usize = data.slots.iter().map(|s| count(s, "error")).sum();
    assert_eq!(total, 3);
}

#[test]
fn timeline_needs_slots_and_span() {
    let (buffer, tracker) = sample();
    assert!(TimelineData::compute_in_year(&buffer, &tracker, 0, 2024).is_none());
    assert!(TimelineData::compute(&buffer, &tracker, 3).is_some());

    let mut single = LogBuffer::default();
    single.append_line("2024-01-01T00:00:00Z ERROR a".to_string());
    single.append_line("2024-01-01T00:00:00Z ERROR b".to_string());
    let mut tracker = LogEventTracker::new(vec![pattern("error", "ERROR")]);
    tracker.scan_all_lines(&single);
    assert!(TimelineData::compute_in_year(&single, &tracker, 4, 2024).is_none());
}

#[test]
fn timeline_needs_counted_events() {
    let (buffer, _) = sample();
    let tracker = LogEventTracker::new(vec![pattern("never", "NEVER")]);
    assert!(TimelineData::compute_in_year(&buffer, &tracker, 2, 2024).is_none());
}

#[test]
fn timeline_slot_shorter_than_a_nanosecond() {
    let (buffer, tracker) = sample();
    assert!(TimelineData::compute_in_year(&buffer, &tracker, 20_000_000_000, 2024).is_none());
}
