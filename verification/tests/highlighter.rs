use lazylog::highlighter::{Color, HighlightPattern, Highlighter, PatternStyle};

fn fg(c: Color) -> PatternStyle {
    PatternStyle::new(Some(c), None, false)
}

#[test]
fn overlapping_ranges_become_ordered_segments() {
    let patterns = vec![
        HighlightPattern::new("world", false, fg(Color::Red), None).unwrap(),
        HighlightPattern::new("o w", false, fg(Color::Green), None).unwrap(),
    ];
    let events = vec![HighlightPattern::new("hello", false, PatternStyle::white_on_blue(), None).unwrap()];
    let highlighter = Highlighter::new(patterns, events);
    let line = "hello world";
    let segments = highlighter.highlight_line(line, 0, true).segments;
    let spans: Vec<(usize, usize)> = segments.iter().map(|s| (s.start, s.end)).collect();
    assert_eq!(spans, vec![(0, 4), (4, 7), (7, 11)]);
    assert_eq!(segments[1].style.fg_color, Some(Color::Green));
    assert_eq!(segments[1].style.bg_color, Some(Color::Blue));
    assert_eq!(segments[2].style.fg_color, Some(Color::Red));
    assert_eq!(segments[2].style.bg_color, Some(Color::Blue));
}

#[test]
fn foreground_equal_to_inherited_background_turns_white() {
    let patterns = vec![HighlightPattern::new("b", false, fg(Color::Blue), None).unwrap()];
    let events = vec![HighlightPattern::new("a", false, PatternStyle::new(None, Some(Color::Blue), false), None).unwrap()];
    let highlighter = Highlighter::new(patterns, events);
    let segments = highlighter.highlight_line("ab", 0, true).segments;
    assert_eq!(segments.len(), 2);
    assert_eq!(segments[1].style.fg_color, Some(Color::Rgb(255, 255, 255)));
}

#[test]
fn colors_disabled_keeps_temporary_highlights() {
    let patterns = vec![HighlightPattern::new("x", false, fg(Color::Red), None).unwrap()];
    let mut highlighter = Highlighter::new(patterns, Vec::new());
    highlighter.add_temporary_highlight("y".to_string(), PatternStyle::white_on_blue(), true);
    let segments = highlighter.highlight_line("xyxy", 0, false).segments;
    let spans: Vec<(usize, usize)> = segments.iter().map(|s| (s.start, s.end)).collect();
    assert_eq!(spans, vec![(1, 2), (3, 4)]);
    highlighter.clear_temporary_highlights();
    assert!(highlighter.highlight_line("xyxy", 0, false).segments.is_empty());
}

#[test]
fn horizontal_offset_shifts_and_clips() {
    let patterns = vec![HighlightPattern::new("abcd", false, fg(Color::Red), None).unwrap()];
    let highlighter = Highlighter::new(patterns, Vec::new());
    let segments = highlighter.highlight_line("abcd efgh abcd", 2, true).segments;
    let spans: Vec<(usize, usize)> = segments.iter().map(|s| (s.start, s.end)).collect();
    assert_eq!(spans, vec![(0, 2), (8, 12)]);
}

#[test]
fn line_style_and_regex_patterns() {
    let events = vec![
        HighlightPattern::new("E[0-9]+", true, fg(Color::Red), Some("err".to_string())).unwrap(),
        HighlightPattern::new("warn", false, fg(Color::Yellow), None).unwrap(),
    ];
    assert!(HighlightPattern::new("(", true, fg(Color::Red), None).is_none());
    let highlighter = Highlighter::new(Vec::new(), events);
    assert_eq!(highlighter.get_line_style("code E42 here"), Some(fg(Color::Red)));
    assert_eq!(highlighter.get_line_style("WARN here"), Some(fg(Color::Yellow)));
    assert_eq!(highlighter.get_line_style("nothing"), None);
}

#[test]
fn each_covered_position_lies_in_one_segment_with_the_last_style() {
    let patterns = vec![
        HighlightPattern::new("world", false, fg(Color::Red), None).unwrap(),
        HighlightPattern::new("o w", false, fg(Color::Green), None).unwrap(),
    ];
    let highlighter = Highlighter::new(patterns, Vec::new());
    let segments = highlighter.highlight_line("hello world", 0, true).segments;
    for p in 0..11usize {
        let covering: Vec<_> = segments.iter().filter(|s| s.start <= p && p < s.end).collect();
        let expected = if p < 4 {
            None
        } else if p < 7 {
            Some(Color::Green)
        } else {
            Some(Color::Red)
        };
        match expected {
            None => assert!(covering.is_empty()),
            Some(c) => {
                assert_eq!(covering.len(), 1);
                assert_eq!(covering[0].style.fg_color, Some(c));
            },
        }
    }
}
