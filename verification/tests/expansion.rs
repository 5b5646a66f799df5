use lazylog::expansion::Expansions;

#[test]
fn test_toggle_expansion() {
    let mut expansion = Expansions::new();

    assert!(!expansion.is_expanded(0));
    expansion.toggle(0, vec![10, 11, 12, 13, 14]);
    assert!(expansion.is_expanded(0));
    assert_eq!(expansion.get_expanded_count(0), 5);

    expansion.toggle(0, vec![10, 11, 12, 13, 14]);
    assert!(!expansion.is_expanded(0));
}

#[test]
fn test_clear() {
    let mut expansion = Expansions::new();
    expansion.toggle(0, vec![10, 11, 12, 13, 14]);
    expansion.toggle(1, vec![20, 21, 22]);

    assert_eq!(expansion.total_expanded_lines(), 8);

    expansion.clear();
    assert_eq!(expansion.total_expanded_lines(), 0);
    assert!(!expansion.is_expanded(0));
    assert!(!expansion.is_expanded(1));
}

#[test]
fn find_parent_of_an_expanded_line() {
    let mut expansion = Expansions::new();
    expansion.toggle(4, vec![7, 8]);
    assert_eq!(expansion.find_parent(8), Some(4));
    assert_eq!(expansion.find_parent(9), None);
    assert_eq!(expansion.get_expanded_indices(4), Some(&vec![7, 8]));
    assert_eq!(expansion.get_all_expanded().len(), 1);
}
