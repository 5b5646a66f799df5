use lazylog::log::LogLine;
use lazylog::marking::{Mark, Marking};

#[test]
fn test_mark_new_creates_mark_without_name() {
    let mark = Mark::new(42);
    assert_eq!(mark.line_index, 42);
    assert_eq!(mark.name, None);
}

#[test]
fn test_mark_set_name_updates_name() {
    let mut mark = Mark::new(42);
    mark.set_name("important");
    assert_eq!(mark.name, Some("important".to_string()));
}

#[test]
fn test_toggle_mark_adds_mark() {
    let mut marking = Marking::default();
    marking.toggle_mark(10);
    assert!(marking.is_marked(10));
    assert_eq!(marking.count(), 1);
}

#[test]
fn test_toggle_mark_removes_existing_mark() {
    let mut marking = Marking::default();
    marking.toggle_mark(10);
    marking.toggle_mark(10);
    assert!(!marking.is_marked(10));
    assert_eq!(marking.count(), 0);
}

#[test]
fn test_is_marked_returns_false_for_unmarked_line() {
    let marking = Marking::default();
    assert!(!marking.is_marked(10));
}

#[test]
fn test_count_returns_number_of_marks() {
    let mut marking = Marking::default();
    marking.toggle_mark(10);
    marking.toggle_mark(20);
    marking.toggle_mark(30);
    assert_eq!(marking.count(), 3);
}

#[test]
fn test_create_marks_from_pattern_case_insensitive() {
    let log_lines = [
        LogLine::new("ERROR in caps", 10),
        LogLine::new("error in lower", 20),
        LogLine::new("Error in mixed", 30),
        LogLine::new("info message", 40),
    ];

    let mut marking = Marking::default();
    marking.create_marks_from_pattern("ErRoR", &log_lines);

    assert_eq!(marking.count(), 3);
    let marks = marking.get_marks();
    assert_eq!(marks[0].line_index, 10);
    assert_eq!(marks[1].line_index, 20);
    assert_eq!(marks[2].line_index, 30);
    assert_eq!(marks[0].name, Some("ErRoR".to_string()));
}

#[test]
fn test_create_marks_from_pattern_uses_original_indices() {
    let log_lines = [
        LogLine::new("ERROR in module A", 5),
        LogLine::new("info message", 12),
        LogLine::new("Error in module B", 23),
        LogLine::new("debug output", 45),
    ];

    let mut marking = Marking::default();
    marking.create_marks_from_pattern("error", &log_lines);

    assert_eq!(marking.count(), 2);
    let marks = marking.get_marks();
    assert_eq!(marks[0].line_index, 5);
    assert_eq!(marks[1].line_index, 23);
    assert_eq!(marks[0].name, Some("error".to_string()));
    assert_eq!(marks[1].name, Some("error".to_string()));
}

#[test]
fn marks_stay_ordered_by_line_index() {
    let mut marking = Marking::default();
    marking.toggle_mark(30);
    marking.toggle_mark(10);
    marking.toggle_mark(20);
    let lines: Vec<usize> = marking.get_marks().iter().map(|m| m.line_index).collect();
    assert_eq!(lines, vec![10, 20, 30]);
}

#[test]
fn toggling_a_mark_twice_restores_the_marks() {
    let mut marking = Marking::default();
    marking.add_named_mark(3, "keep");
    marking.toggle_mark(7);
    marking.toggle_mark(7);
    assert_eq!(marking.count(), 1);
    assert_eq!(marking.get_marks()[0].name, Some("keep".to_string()));
}

#[test]
fn named_mark_renames_an_existing_mark() {
    let mut marking = Marking::default();
    marking.toggle_mark(4);
    marking.add_named_mark(4, "first");
    assert_eq!(marking.count(), 1);
    assert_eq!(marking.get_marks()[0].name, Some("first".to_string()));
    marking.set_mark_name(4, "second");
    assert_eq!(marking.get_marks()[0].name, Some("second".to_string()));
    marking.unmark(4);
    assert!(marking.is_empty());
}

#[test]
fn marked_indices_and_clear_all() {
    let mut marking = Marking::default();
    marking.toggle_mark(1);
    marking.toggle_mark(9);
    let set = marking.get_marked_indices();
    assert!(set.contains(&1) && set.contains(&9) && set.len() == 2);
    marking.clear_all();
    assert!(marking.is_empty());
}
