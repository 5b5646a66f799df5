use lazylog::cli::Cli;
use lazylog::event_mark_view::{EventMarkView, EventOrMark};
use lazylog::filter::{ActiveFilterMode, Filter, FilterPattern};
use lazylog::log::{sanitize_line, LogBuffer, LogLine};
use lazylog::log_event::{EventPattern, LogEvent, LogEventTracker};
use lazylog::marking::{Mark, Marking};
use lazylog::matcher::{PatternMatcher, PlainMatch};
use lazylog::options::AppOptions;
use lazylog::persistence::PersistedState;
use lazylog::processing::apply_filters;
use lazylog::search::Search;
use lazylog::sorting::sort_pairs;
use lazylog::version::{long_version, BuildInfo};
use lazylog::viewport::Viewport;

#[test]
fn merge_orders_events_and_marks() {
    let e1 = LogEvent { name: "a".to_string(), line_index: 1 };
    let e2 = LogEvent { name: "b".to_string(), line_index: 5 };
    let m1 = Mark::new(3);
    let m2 = Mark::new_with_name(5, "named");
    let merged = EventMarkView::merge(&[&e1, &e2], &[&m1, &m2], true);
    let lines: Vec<usize> = merged.iter().map(|x| x.line_index()).collect();
    assert_eq!(lines, vec![1, 3, 5, 5]);
    assert!(!merged[2].is_mark());
    assert!(merged[3].is_mark());
    assert_eq!(merged[1].name(), "MARK");
    assert_eq!(merged[3].name(), "named");
    let only_events = EventMarkView::merge(&[&e1, &e2], &[&m1], false);
    assert_eq!(only_events.len(), 2);
    assert!(matches!(only_events[0], EventOrMark::Event(_)));
}

#[test]
fn processing_filters() {
    let patterns = vec![
        FilterPattern { pattern: "ERROR".to_string(), mode: ActiveFilterMode::Include, case_sensitive: false, enabled: true },
        FilterPattern { pattern: "debug".to_string(), mode: ActiveFilterMode::Exclude, case_sensitive: true, enabled: true },
    ];
    assert!(apply_filters("error here", &patterns));
    assert!(!apply_filters("error debug", &patterns));
    assert!(!apply_filters("info", &patterns));
    assert!(apply_filters("anything", &[]));
}

#[test]
fn stdin_only_without_files_and_terminal() {
    let cli = Cli { files: vec![], config: None, filters: None, clear_state: false, no_persist: false, debug: None };
    assert!(cli.should_use_stdin(false));
    assert!(!cli.should_use_stdin(true));
    let with_file = Cli { files: vec!["a.log".to_string()], ..cli };
    assert!(!with_file.should_use_stdin(false));
}

#[test]
fn version_text() {
    let info = BuildInfo {
        pkg_version: "1.2.3".to_string(),
        commit_hash: "abc".to_string(),
        branch: String::new(),
        ci_ref_name: None,
        git_clean: false,
        build_time: "now".to_string(),
        rust_version: "rustc 1".to_string(),
        build_os: "linux".to_string(),
        build_target: "x86_64".to_string(),
        commit_message: None,
    };
    assert_eq!(
        long_version(&info),
        "1.2.3 built from branch unknown at commit abc dirty (no commit message)\nBuild: now\nTarget: x86_64 (linux)\nRustc: rustc 1"
    );
}

#[test]
fn sanitizing_lines() {
    assert_eq!(sanitize_line("a\tb\r"), "a    b");
    assert_eq!(sanitize_line("plain"), "plain");
    let mut buffer = LogBuffer::default();
    buffer.init_stdin_mode();
    assert_eq!(buffer.append_line("x\ty".to_string()), 0);
    assert_eq!(buffer.get_line(0).unwrap().content(), "x    y");
    assert_eq!(buffer.get_total_lines_count(), 1);
    buffer.clear_all();
    assert_eq!(buffer.all_lines().len(), 0);
}

#[test]
fn sorting_pairs_is_stable() {
    let sorted = sort_pairs(vec![(3, 0), (1, 1), (3, 2), (2, 3)], false);
    assert_eq!(sorted, vec![(1, 1), (2, 3), (3, 0), (3, 2)]);
    let desc = sort_pairs(vec![(3, 0), (1, 1), (3, 2), (2, 3)], true);
    assert_eq!(desc, vec![(3, 0), (3, 2), (2, 3), (1, 1)]);
}

#[test]
fn state_is_taken_from_the_session() {
    let mut viewport = Viewport::default();
    viewport.selected_line = 7;
    let mut search = Search::default();
    search.apply_pattern("needle", &["needle in line"]);
    let mut filter = Filter::default();
    filter.add_filter_from_pattern("ERROR");
    let mut marking = Marking::default();
    marking.add_named_mark(2, "two");
    let tracker = LogEventTracker::new(vec![EventPattern {
        name: "e".to_string(),
        matcher: PatternMatcher::Plain(PlainMatch { pattern: "E".to_string(), case_sensitive: true }),
        enabled: false,
        count: 0,
        critical: false,
        is_custom: false,
    }]);
    let options = AppOptions::default();
    let state = PersistedState::from_app(&["a.log"], &viewport, &search, &filter, &marking, &tracker, &options);
    assert_eq!(state.viewport_selected_line(), 7);
    assert_eq!(state.search_history(), &["needle".to_string()]);
    assert_eq!(state.filters()[0].pattern(), "ERROR");
    assert_eq!(state.marks()[0].line_index(), 2);
    assert_eq!(state.marks()[0].name(), &Some("two".to_string()));
    assert_eq!(state.event_filters()[0].name(), "e");
    assert!(!state.event_filters()[0].enabled());
    assert_eq!(state.options().len(), 5);
    assert_eq!(state.log_file_paths, vec!["a.log".to_string()]);
    assert_eq!(state.filter_history().len(), 1);
}

#[test]
fn log_line_defaults() {
    let line = LogLine::new("abc", 4);
    assert_eq!(line.index, 4);
    assert!(line.timestamp.is_none());
    assert!(!line.timestamp_inherited);
}
