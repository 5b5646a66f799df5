use lazylog::log::LogLine;
use lazylog::resolver::VisibilityRule;
use lazylog::time_filter::{
    compute_date_rollover_separator_indices, compute_gap_separator_indices, TimeFilter, TimeFilterFocus,
};

const MINUTE: i128 = 60_000_000_000;
const DAY: i128 = 86_400_000_000_000;

fn line_at(index: usize, ts: Option<i128>) -> LogLine {
    let mut line = LogLine::new("x", index);
    line.timestamp = ts;
    line
}

#[test]
fn focus_alternates() {
    assert_eq!(TimeFilterFocus::Start.next(), TimeFilterFocus::End);
    assert_eq!(TimeFilterFocus::End.next(), TimeFilterFocus::Start);
}

#[test]
fn time_filter_keeps_lines_in_range() {
    let filter = TimeFilter::new(10, 20);
    assert!(filter.is_visible(&line_at(0, Some(10))));
    assert!(filter.is_visible(&line_at(0, Some(20))));
    assert!(!filter.is_visible(&line_at(0, Some(21))));
    assert!(filter.is_visible(&line_at(0, None)));
}

#[test]
fn gaps_and_rollovers() {
    let base = 19_000 * DAY + 23 * 60 * MINUTE;
    let mut inherited = line_at(3, Some(base + 200 * MINUTE));
    inherited.timestamp_inherited = true;
    let lines = vec![
        line_at(0, Some(base)),
        line_at(1, Some(base + 5 * MINUTE)),
        line_at(2, None),
        inherited,
        line_at(4, Some(base + 30 * MINUTE)),
        line_at(5, Some(base + 100 * MINUTE)),
    ];
    let gaps = compute_gap_separator_indices(&lines, 20, false);
    assert!(gaps.contains(&4) && gaps.contains(&5) && gaps.len() == 2);
    let gaps_no_rollover = compute_gap_separator_indices(&lines, 20, true);
    assert!(gaps_no_rollover.contains(&4) && gaps_no_rollover.len() == 1);
    let rollovers = compute_date_rollover_separator_indices(&lines);
    assert!(rollovers.contains(&5) && rollovers.len() == 1);
}

#[test]
fn days_before_the_epoch() {
    let lines = vec![line_at(0, Some(-1)), line_at(1, Some(0))];
    let rollovers = compute_date_rollover_separator_indices(&lines);
    assert!(rollovers.contains(&1));
}
