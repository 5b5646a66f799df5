use lazylog::file_manager::FileFilterRule;
use lazylog::filter::{ActiveFilterMode, FilterPattern, FilterRule};
use lazylog::log::LogLine;
use lazylog::marking::{MarkOnlyVisibilityRule, MarkTagRule};
use lazylog::resolver::{Tag, TagSet, ViewportResolver, VisibleLine};
use std::collections::{HashMap, HashSet};

fn lines() -> Vec<LogLine> {
    vec![
        LogLine::new("INFO start", 0),
        LogLine::new("ERROR boom", 1),
        LogLine::new("INFO middle", 2),
        LogLine::new("ERROR again", 3),
    ]
}

fn pattern_for(pattern: &str) -> FilterPattern {
    FilterPattern { pattern: pattern.to_string(), mode: ActiveFilterMode::Include, case_sensitive: true, enabled: true }
}

#[test]
fn no_rules_shows_every_line() {
    let mut resolver = ViewportResolver::new();
    let all = lines();
    let visible = resolver.get_visible_lines(&all);
    let idx: Vec<usize> = visible.iter().map(|v| v.log_index).collect();
    assert_eq!(idx, vec![0, 1, 2, 3]);
    assert_eq!(resolver.visible_count(&all), 4);
}

#[test]
fn filter_rule_and_expansion() {
    let mut resolver = ViewportResolver::new();
    let all = lines();
    resolver.add_visibility_rule(Box::new(FilterRule::new(vec![pattern_for("ERROR")], HashSet::new())));
    let mut expanded = HashMap::new();
    expanded.insert(1usize, vec![2usize, 99]);
    resolver.set_expanded_lines(expanded);
    let visible = resolver.get_visible_lines(&all);
    let idx: Vec<usize> = visible.iter().map(|v| v.log_index).collect();
    assert_eq!(idx, vec![1, 2, 3]);
    assert!(visible[1].tags.contains(&Tag::Expanded));
    assert!(!visible[0].tags.contains(&Tag::Expanded));
    assert_eq!(resolver.viewport_to_log(2, &all), Some(3));
    assert_eq!(resolver.log_to_viewport(3, &all), Some(2));
    assert_eq!(resolver.log_to_viewport(0, &all), None);
    assert_eq!(resolver.viewport_to_log(5, &all), None);
}

#[test]
fn mark_rules_and_tag_updates() {
    let mut resolver = ViewportResolver::new();
    let all = lines();
    let mut marked = HashSet::new();
    marked.insert(2usize);
    resolver.add_visibility_rule(Box::new(MarkOnlyVisibilityRule::new(marked.clone())));
    resolver.add_tag_rule(Box::new(MarkTagRule::new(marked)));
    let visible = resolver.get_visible_lines(&all);
    assert_eq!(visible.len(), 1);
    assert!(visible[0].tags.contains(&Tag::Marked));
    resolver.update_mark_tags(&HashSet::new());
    let visible = resolver.get_visible_lines(&all);
    assert!(!visible[0].tags.contains(&Tag::Marked));
    resolver.clear_rules();
    assert_eq!(resolver.visible_count(&all), 4);
}

#[test]
fn file_rule_hides_disabled_files() {
    let mut resolver = ViewportResolver::default();
    let mut a = LogLine::new("from file 0", 0);
    a.log_file_id = Some(0);
    let mut b = LogLine::new("from file 1", 1);
    b.log_file_id = Some(1);
    let all = vec![a, b, LogLine::new("no file", 2)];
    let mut ids = HashSet::new();
    ids.insert(1usize);
    resolver.add_visibility_rule(Box::new(FileFilterRule::new(ids)));
    let idx: Vec<usize> = resolver.get_visible_lines(&all).iter().map(|v| v.log_index).collect();
    assert_eq!(idx, vec![1, 2]);
}

#[test]
fn visible_line_tags() {
    let line = VisibleLine { log_index: 5, tags: TagSet::new() };
    let tagged = line.with_tag(Tag::Event);
    assert!(tagged.tags.contains(&Tag::Event));
    assert!(!line.tags.contains(&Tag::Event));
    let mut other = tagged;
    other.add_tag(Tag::Selected);
    other.remove_tag(Tag::Event);
    assert!(other.tags.contains(&Tag::Selected));
    assert!(!other.tags.contains(&Tag::Event));
    assert_eq!(other.log_index, 5);
}
