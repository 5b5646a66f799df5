use lazylog::log::LogBuffer;

const SECOND: i128 = 1_000_000_000;
const BASE: i128 = 1_705_314_600 * SECOND; // 2024-01-15T10:30:00Z

#[test]
fn load_without_files_fails() {
    let mut buffer = LogBuffer::default();
    assert_eq!(buffer.load_files(&[], true), Err("No files provided".to_string()));
    assert_eq!(buffer.get_total_lines_count(), 0);
}

#[test]
fn load_single_file_splits_and_sanitizes() {
    let mut buffer = LogBuffer::default();
    let contents = vec!["a\tb\r\nplain\n\nlast\r".to_string()];
    assert_eq!(buffer.load_files(&contents, false), Ok(0));
    let lines = buffer.all_lines();
    assert_eq!(lines.len(), 4);
    assert_eq!(lines[0].content, "a    b");
    assert_eq!(lines[1].content, "plain");
    assert_eq!(lines[2].content, "");
    assert_eq!(lines[3].content, "last");
    for (i, line) in lines.iter().enumerate() {
        assert_eq!(line.index, i);
        assert_eq!(line.log_file_id, Some(0));
        assert_eq!(line.timestamp, None);
    }
}

#[test]
fn load_single_file_inherits_timestamps() {
    let mut buffer = LogBuffer::default();
    let contents = vec!["first line\n2024-01-15T10:30:05Z start\ncontinued\n2024-01-15T10:30:07Z next".to_string()];
    assert_eq!(buffer.load_files_in_year(&contents, true, 2024), Ok(0));
    let lines = buffer.all_lines();
    assert_eq!(lines[0].timestamp, None);
    assert!(!lines[0].timestamp_inherited);
    assert_eq!(lines[1].timestamp, Some(BASE + 5 * SECOND));
    assert!(!lines[1].timestamp_inherited);
    assert_eq!(lines[2].timestamp, Some(BASE + 5 * SECOND));
    assert!(lines[2].timestamp_inherited);
    assert_eq!(lines[3].timestamp, Some(BASE + 7 * SECOND));
}

#[test]
fn load_several_files_merges_by_time() {
    let mut buffer = LogBuffer::default();
    let contents = vec![
        "2024-01-15T10:30:07Z late\nlate more".to_string(),
        "2024-01-15T10:30:05Z early\nearly more\n2024-01-15T10:30:06Z middle".to_string(),
    ];
    assert_eq!(buffer.load_files_in_year(&contents, true, 2024), Ok(0));
    let got: Vec<(&str, usize, Option<usize>)> =
        buffer.all_lines().iter().map(|l| (l.content.as_str(), l.index, l.log_file_id)).collect();
    assert_eq!(
        got,
        vec![
            ("2024-01-15T10:30:05Z early", 0, Some(1)),
            ("early more", 1, Some(1)),
            ("2024-01-15T10:30:06Z middle", 2, Some(1)),
            ("2024-01-15T10:30:07Z late", 3, Some(0)),
            ("late more", 4, Some(0)),
        ]
    );
}

#[test]
fn load_several_files_puts_unstamped_last() {
    let mut buffer = LogBuffer::default();
    let contents = vec!["no time\nstill none".to_string(), "2024-01-15 10:30:00 stamped".to_string()];
    assert_eq!(buffer.load_files_in_year(&contents, true, 2024), Ok(2));
    let lines = buffer.all_lines();
    assert_eq!(lines[0].content, "2024-01-15 10:30:00 stamped");
    assert_eq!(lines[0].timestamp, Some(BASE));
    assert_eq!(lines[1].content, "no time");
    assert_eq!(lines[2].content, "still none");
    assert_eq!(lines[2].index, 2);
}

#[test]
fn load_several_files_without_timestamps_keeps_order() {
    let mut buffer = LogBuffer::default();
    let contents = vec!["b1\nb2".to_string(), "a1".to_string()];
    assert_eq!(buffer.load_files(&contents, false), Ok(0));
    let got: Vec<(&str, usize)> = buffer.all_lines().iter().map(|l| (l.content.as_str(), l.index)).collect();
    assert_eq!(got, vec![("b1", 0), ("b2", 1), ("a1", 2)]);
}
