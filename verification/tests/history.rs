use lazylog::history::History;

#[test]
fn test_add_entry() {
    let mut history = History::new();
    history.add("test1".to_string());
    history.add("test2".to_string());
    assert_eq!(history.get_history(), &["test1", "test2"]);
}

#[test]
fn test_add_duplicate_ignored() {
    let mut history = History::new();
    history.add("test1".to_string());
    history.add("test1".to_string());
    assert_eq!(history.get_history(), &["test1"]);
}

#[test]
fn test_previous_from_empty() {
    let mut history: History<String> = History::new();
    assert_eq!(history.previous_record(), None);
}

#[test]
fn test_previous_navigation() {
    let mut history = History::new();
    history.add("test1".to_string());
    history.add("test2".to_string());
    history.add("test3".to_string());

    // First previous should return most recent (test3)
    assert_eq!(history.previous_record(), Some(&"test3".to_string()));
    // Second previous should return test2
    assert_eq!(history.previous_record(), Some(&"test2".to_string()));
    // Third previous should return test1
    assert_eq!(history.previous_record(), Some(&"test1".to_string()));
    // Fourth previous should return None (at oldest)
    assert_eq!(history.previous_record(), None);
}

#[test]
fn test_next_navigation() {
    let mut history = History::new();
    history.add("test1".to_string());
    history.add("test2".to_string());

    // Navigate back first
    history.previous_record();
    history.previous_record();

    // Now navigate forward
    assert_eq!(history.next_record(), Some(&"test2".to_string()));
    // At newest, next should return None and reset index
    assert_eq!(history.next_record(), None);
}

#[test]
fn history_test_reset() {
    let mut history = History::new();
    history.add("test1".to_string());
    history.previous_record();
    history.reset();

    // After reset, previous should start from the end again
    assert_eq!(history.previous_record(), Some(&"test1".to_string()));
}

#[test]
fn previous_then_next_returns_to_same_entry() {
    let mut history = History::new();
    history.add("a".to_string());
    history.add("b".to_string());
    history.add("c".to_string());
    assert_eq!(history.previous_record(), Some(&"c".to_string()));
    assert_eq!(history.previous_record(), Some(&"b".to_string()));
    assert_eq!(history.previous_record(), Some(&"a".to_string()));
    assert_eq!(history.next_record(), Some(&"b".to_string()));
    assert_eq!(history.previous_record(), Some(&"a".to_string()));
    assert_eq!(history.next_record(), Some(&"b".to_string()));
}
