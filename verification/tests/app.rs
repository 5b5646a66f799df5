use lazylog::app::{Action, App, Overlay, ViewState};
use lazylog::app_steps::parse_line_number;
use lazylog::command::Command;
use lazylog::config::{Config, EventConfig};
use lazylog::filter::{ActiveFilterMode, FilterHistoryEntry, FilterPattern};
use lazylog::help::Help;
use lazylog::options::AppOption;
use lazylog::persistence::{
    CustomEventState, EventFilterState, FilterPatternState, MarkState, OptionState, PersistedState, ViewportState,
};
use lazylog::time_filter::{TimeFilter, TimeFilterFocus};
use lazylog::timestamp::parse_time_input;
use lazylog::filter::FilterRule;
use lazylog::highlighter::{Color, Highlighter};
use lazylog::resolver::{Tag, ViewportResolver};
use std::collections::{HashMap, HashSet};

fn loaded_app(text: &str) -> App {
    let mut app = App::new(Config::default(), Vec::new(), &["a.log".to_string()], false);
    app.load_contents(&[text.to_string()]);
    app
}

fn confirm_typed(app: &mut App, text: &str) -> Action {
    app.input = text.to_string();
    Command::Confirm.execute(app)
}

#[test]
fn help_new_holds_all_keybindings() {
    let help = Help::new();
    assert!(help.item_count() > 0);
    let selected = help.item(help.selected_index()).unwrap();
    assert!(selected.is_selectable());
    assert!(!help.is_visible());
}

#[test]
fn new_app_without_files_reports_an_error() {
    let app = App::new(Config::default(), Vec::new(), &[], false);
    assert!(app.running);
    assert_eq!(app.view_state, ViewState::LogView);
    assert_eq!(app.overlay, Some(Overlay::Error("No file paths provided".to_string())));
}

#[test]
fn new_app_on_a_stream_follows_it() {
    let app = App::new(Config::default(), Vec::new(), &[], true);
    assert_eq!(app.overlay, None);
    assert!(app.viewport.follow_mode);
    assert!(app.visible.is_empty());
}

#[test]
fn new_app_holds_configured_and_extra_filters() {
    let extra = vec![FilterPattern::new("x".to_string(), ActiveFilterMode::Exclude, false, true)];
    let app = App::new(Config::default(), extra, &["a.log".to_string()], false);
    assert_eq!(app.filter.count(), 1);
    assert_eq!(app.filter.get_pattern(0).unwrap().pattern, "x");
    assert_eq!(app.overlay, None);
}

#[test]
fn loading_shows_every_line() {
    let app = loaded_app("one\ntwo\nthree");
    assert_eq!(app.visible, vec![0, 1, 2]);
    assert_eq!(app.viewport.total_lines, 3);
    assert_eq!(app.log_buffer.all_lines()[1].content, "two");
}

#[test]
fn loading_nothing_reports_an_error() {
    let mut app = App::new(Config::default(), Vec::new(), &[], false);
    app.load_contents(&[]);
    assert_eq!(app.overlay, Some(Overlay::Error("No files provided".to_string())));
}

#[test]
fn goto_line_selects_the_numbered_row() {
    let mut app = loaded_app("one\ntwo\nthree");
    Command::ActivateGotoLineMode.execute(&mut app);
    assert_eq!(app.view_state, ViewState::GotoLineMode);
    assert_eq!(confirm_typed(&mut app, "2"), Action::Nothing);
    assert_eq!(app.viewport.selected_line, 1);
    assert!(!app.viewport.follow_mode);
    assert_eq!(app.view_state, ViewState::LogView);
    assert_eq!(app.overlay, None);
}

#[test]
fn goto_line_ignores_numbers_out_of_range() {
    let mut app = loaded_app("one\ntwo\nthree");
    for typed in ["0", "4", "abc", ""] {
        Command::ActivateGotoLineMode.execute(&mut app);
        confirm_typed(&mut app, typed);
        assert_eq!(app.viewport.selected_line, 0);
        assert_eq!(app.view_state, ViewState::LogView);
    }
}

#[test]
fn line_numbers_parse_like_usize() {
    assert_eq!(parse_line_number("12"), Some(12));
    assert_eq!(parse_line_number("+3"), Some(3));
    assert_eq!(parse_line_number(""), None);
    assert_eq!(parse_line_number("+"), None);
    assert_eq!(parse_line_number("1a"), None);
    assert_eq!(parse_line_number("-1"), None);
    assert_eq!(parse_line_number("99999999999999999999999"), None);
}

#[test]
fn search_without_hits_says_so() {
    let mut app = loaded_app("one\ntwo\nthree");
    Command::ActivateActiveSearchMode.execute(&mut app);
    confirm_typed(&mut app, "zzz");
    assert_eq!(app.overlay, Some(Overlay::Message("0 hits for 'zzz'".to_string())));
    assert_eq!(app.view_state, ViewState::ActiveSearchMode);
}

#[test]
fn search_hits_only_in_filtered_lines_are_counted() {
    let mut app = loaded_app("one\ntwo\nthree");
    Command::ActivateActiveFilterMode.execute(&mut app);
    confirm_typed(&mut app, "one");
    assert_eq!(app.visible, vec![0]);
    Command::ActivateActiveSearchMode.execute(&mut app);
    confirm_typed(&mut app, "two");
    assert_eq!(
        app.overlay,
        Some(Overlay::Message("0 hits for 'two' (1 in filtered lines)".to_string()))
    );
}

#[test]
fn search_jumps_to_the_first_match() {
    let mut app = loaded_app("one\ntwo\nthree\ntwo again");
    Command::ActivateActiveSearchMode.execute(&mut app);
    confirm_typed(&mut app, "two");
    assert_eq!(app.view_state, ViewState::LogView);
    assert_eq!(app.viewport.selected_line, 1);
    assert_eq!(app.search.get_match_info(), (1, 2, 2));
    Command::SearchNext.execute(&mut app);
    assert_eq!(app.viewport.selected_line, 3);
}

#[test]
fn filter_confirm_adds_a_pattern_and_hides_lines() {
    let mut app = loaded_app("one\ntwo\nthree");
    Command::ActivateActiveFilterMode.execute(&mut app);
    confirm_typed(&mut app, "t");
    assert_eq!(app.filter.count(), 1);
    assert_eq!(app.visible, vec![1, 2]);
    assert_eq!(app.view_state, ViewState::LogView);
    assert_eq!(app.viewport.total_lines, 2);
}

#[test]
fn edit_filter_confirm_replaces_the_text() {
    let mut app = loaded_app("one\ntwo\nthree");
    Command::ActivateActiveFilterMode.execute(&mut app);
    confirm_typed(&mut app, "one");
    Command::ActivateFilterView.execute(&mut app);
    Command::ActivateEditActiveFilterMode.execute(&mut app);
    assert_eq!(app.overlay, Some(Overlay::EditFilter));
    assert_eq!(app.input, "one");
    confirm_typed(&mut app, "three");
    assert_eq!(app.overlay, None);
    assert_eq!(app.visible, vec![2]);
}

#[test]
fn cancel_drops_a_search() {
    let mut app = loaded_app("one\ntwo");
    Command::ActivateActiveSearchMode.execute(&mut app);
    Command::Cancel.execute(&mut app);
    assert_eq!(app.view_state, ViewState::LogView);
    assert!(app.search.get_active_pattern().is_none());
}

#[test]
fn cancel_in_log_view_shows_all_lines_again() {
    let mut app = loaded_app("one\ntwo\nthree");
    Command::ToggleMark.execute(&mut app);
    Command::ToggleShowMarkedOnly.execute(&mut app);
    assert_eq!(app.visible, vec![0]);
    Command::Cancel.execute(&mut app);
    assert!(!app.show_marked_lines_only);
    assert_eq!(app.visible, vec![0, 1, 2]);
}

#[test]
fn cancel_keeps_an_error() {
    let mut app = App::new(Config::default(), Vec::new(), &[], false);
    Command::Cancel.execute(&mut app);
    assert_eq!(app.overlay, Some(Overlay::Error("No file paths provided".to_string())));
}

#[test]
fn marks_view_confirm_goes_to_the_mark() {
    let mut app = loaded_app("one\ntwo\nthree");
    Command::MoveDown.execute(&mut app);
    Command::MoveDown.execute(&mut app);
    Command::ToggleMark.execute(&mut app);
    Command::GotoTop.execute(&mut app);
    assert_eq!(app.viewport.selected_line, 0);
    Command::ActivateMarksView.execute(&mut app);
    assert_eq!(app.view_state, ViewState::MarksView);
    app.overlay = Some(Overlay::MarkName);
    confirm_typed(&mut app, "here");
    assert_eq!(app.marking.get_marks()[0].name, Some("here".to_string()));
    Command::Confirm.execute(&mut app);
    assert_eq!(app.viewport.selected_line, 2);
    assert_eq!(app.view_state, ViewState::LogView);
}

#[test]
fn save_to_file_asks_for_the_save() {
    let mut app = loaded_app("one");
    app.overlay = Some(Overlay::SaveToFile);
    assert_eq!(confirm_typed(&mut app, "out.log"), Action::SaveToFile("out.log".to_string()));
    assert_eq!(app.overlay, Some(Overlay::SaveToFile));
    assert_eq!(confirm_typed(&mut app, ""), Action::Nothing);
    assert_eq!(app.overlay, None);
}

#[test]
fn custom_event_confirm_adds_a_pattern() {
    let mut app = loaded_app("boom here\nquiet");
    let before = app.event_tracker.get_event_stats().len();
    app.overlay = Some(Overlay::AddCustomEvent);
    confirm_typed(&mut app, "boom");
    assert_eq!(app.overlay, None);
    assert_eq!(app.event_tracker.get_event_stats().len(), before + 1);
    assert_eq!(app.event_tracker.get_event_count("boom"), 1);
}

#[test]
fn quit_asks_to_keep_the_session_unless_streaming() {
    let mut app = loaded_app("one");
    assert_eq!(Command::Quit.execute(&mut app), Action::SaveState);
    assert!(!app.running);
    let mut stream = App::new(Config::default(), Vec::new(), &[], true);
    assert_eq!(Command::Quit.execute(&mut stream), Action::Nothing);
}

#[test]
fn options_confirm_switches_the_option_on() {
    let mut app = loaded_app("one");
    Command::ActivateOptionsView.execute(&mut app);
    Command::Confirm.execute(&mut app);
    assert!(app.options.get(0).unwrap().enabled);
    assert_eq!(app.view_state, ViewState::LogView);
}

fn kept_session() -> PersistedState {
    PersistedState {
        version: 1,
        log_file_paths: vec!["a.log".to_string()],
        viewport: ViewportState { selected_line: 7, top_line: 0, horizontal_offset: 4, center_cursor_mode: true },
        search_history: vec!["old".to_string()],
        filter_history: Vec::new(),
        filters: vec![FilterPatternState {
            pattern: "t".to_string(),
            mode: ActiveFilterMode::Include,
            case_sensitive: false,
            enabled: true,
        }],
        marks: vec![MarkState { line_index: 2, name: Some("end".to_string()) }, MarkState { line_index: 99, name: None }],
        event_filters: vec![EventFilterState { name: "boom".to_string(), enabled: false }],
        custom_events: vec![CustomEventState { pattern: "boom".to_string() }],
        options: vec![OptionState { option: AppOption::AlwaysShowMarkedLines, enabled: true }],
    }
}

#[test]
fn restoring_a_session_puts_it_back() {
    let mut app = loaded_app("one\ntwo\nthree");
    app.restore_state(&kept_session());
    assert_eq!(app.filter.count(), 1);
    assert_eq!(app.visible, vec![1, 2]);
    assert!(app.marking.is_marked(2));
    assert!(!app.marking.is_marked(99));
    assert_eq!(app.marking.get_marks()[0].name, Some("end".to_string()));
    assert_eq!(app.search.history().get_history(), &["old".to_string()]);
    assert!(app.options.is_enabled(AppOption::AlwaysShowMarkedLines));
    assert!(app.viewport.center_cursor_mode);
    assert_eq!(app.viewport.horizontal_offset, 4);
    assert_eq!(app.viewport.selected_line, 1);
    assert_eq!(app.filter_list_state.item_count(), 1);
}

#[test]
fn typed_times_are_read_in_the_popup_formats() {
    assert_eq!(parse_time_input("1970-01-01 00:00:10"), Some(10_000_000_000));
    assert_eq!(parse_time_input("1970-01-01T00:01:00"), Some(60_000_000_000));
    assert_eq!(parse_time_input("1970-01-01 00:02"), Some(120_000_000_000));
    assert_eq!(parse_time_input("1970-01-02"), Some(86_400_000_000_000));
    assert_eq!(parse_time_input("yesterday"), None);
}

#[test]
fn time_filter_confirm_refuses_an_unreadable_time() {
    let mut app = loaded_app("one");
    app.overlay = Some(Overlay::EditTimeFilter);
    confirm_typed(&mut app, "noon");
    assert_eq!(
        app.overlay,
        Some(Overlay::Message("Invalid timestamp format.\nExpected: YYYY-MM-DD HH:MM:SS".to_string()))
    );
    assert!(app.time_filter.is_none());
}

#[test]
fn time_filter_confirm_applies_the_range_in_the_popup() {
    let mut app = loaded_app("2024-01-01T10:00:00Z a\n2024-01-02T10:00:00Z b\n2024-01-03T10:00:00Z c");
    app.time_filter_input_start = "2024-01-02".to_string();
    app.time_filter_input_end = "2024-01-02 23:59:59".to_string();
    app.time_filter_focus = TimeFilterFocus::End;
    app.overlay = Some(Overlay::EditTimeFilter);
    confirm_typed(&mut app, "2024-01-03");
    assert_eq!(app.overlay, None);
    let day = 86_400_000_000_000i128;
    let start = 19_724 * day;
    let range: TimeFilter = app.time_filter.unwrap();
    assert_eq!(range.start, start);
    assert_eq!(range.end, start + day - 1_000_000_000);
    assert_eq!(app.visible, vec![1]);
    assert_eq!(app.time_filter_input_end, "2024-01-03");
    assert_eq!(app.time_filter_input_start, "2024-01-02");
}

#[test]
fn mark_steps_go_to_the_neighbouring_marks() {
    let mut app = loaded_app("a\nb\nc\nd\ne");
    Command::MoveDown.execute(&mut app);
    Command::ToggleMark.execute(&mut app);
    Command::GotoBottom.execute(&mut app);
    Command::ToggleMark.execute(&mut app);
    Command::GotoTop.execute(&mut app);
    Command::MarkNext.execute(&mut app);
    assert_eq!(app.viewport.selected_line, 1);
    Command::MarkNext.execute(&mut app);
    assert_eq!(app.viewport.selected_line, 4);
    Command::MarkNext.execute(&mut app);
    assert_eq!(app.viewport.selected_line, 4);
    Command::MarkPrevious.execute(&mut app);
    assert_eq!(app.viewport.selected_line, 1);
    Command::MarkPrevious.execute(&mut app);
    assert_eq!(app.viewport.selected_line, 1);
}

#[test]
fn marks_view_names_and_removes_the_selected_mark() {
    let mut app = loaded_app("a\nb\nc");
    Command::MoveDown.execute(&mut app);
    Command::ToggleMark.execute(&mut app);
    Command::ActivateMarksView.execute(&mut app);
    Command::ActivateMarkNameMode.execute(&mut app);
    assert_eq!(app.overlay, Some(Overlay::MarkName));
    assert_eq!(app.input, "");
    confirm_typed(&mut app, "second");
    Command::ActivateMarkNameMode.execute(&mut app);
    assert_eq!(app.input, "second");
    Command::Cancel.execute(&mut app);
    assert_eq!(app.overlay, None);
    Command::UnmarkSelected.execute(&mut app);
    assert!(!app.marking.is_marked(1));
    assert_eq!(app.marking_list_state.item_count(), 0);
}

#[test]
fn clearing_a_stream_empties_everything() {
    let mut app = App::new(Config::default(), Vec::new(), &[], true);
    app.log_buffer.append_line("one".to_string());
    app.log_buffer.append_line("two".to_string());
    app.update_view();
    assert_eq!(app.visible, vec![0, 1]);
    Command::ToggleMark.execute(&mut app);
    Command::ClearLogBuffer.execute(&mut app);
    assert_eq!(app.log_buffer.get_total_lines_count(), 0);
    assert!(app.visible.is_empty());
    assert_eq!(app.marking.count(), 0);
    assert_eq!(app.viewport.total_lines, 0);
}

#[test]
fn clearing_is_only_for_streams() {
    let mut app = loaded_app("one");
    Command::ClearLogBuffer.execute(&mut app);
    assert_eq!(app.log_buffer.get_total_lines_count(), 1);
}

#[test]
fn search_history_steps_fill_the_input() {
    let mut app = loaded_app("one\ntwo");
    Command::ActivateActiveSearchMode.execute(&mut app);
    confirm_typed(&mut app, "one");
    Command::ActivateActiveSearchMode.execute(&mut app);
    confirm_typed(&mut app, "two");
    Command::ActivateActiveSearchMode.execute(&mut app);
    Command::SearchHistoryPrevious.execute(&mut app);
    assert_eq!(app.input, "two");
    Command::SearchHistoryPrevious.execute(&mut app);
    assert_eq!(app.input, "one");
    Command::SearchHistoryPrevious.execute(&mut app);
    assert_eq!(app.input, "one");
    Command::SearchHistoryNext.execute(&mut app);
    assert_eq!(app.input, "two");
    Command::SearchHistoryNext.execute(&mut app);
    assert_eq!(app.input, "");
}

#[test]
fn filter_history_steps_restore_mode_and_case() {
    let mut app = loaded_app("one\ntwo");
    Command::ActivateActiveFilterMode.execute(&mut app);
    Command::ToggleActiveFilterModeInOut.execute(&mut app);
    confirm_typed(&mut app, "one");
    Command::ActivateActiveFilterMode.execute(&mut app);
    assert_eq!(app.filter.get_mode(), ActiveFilterMode::Include);
    Command::FilterHistoryPrevious.execute(&mut app);
    assert_eq!(app.input, "one");
    assert_eq!(app.filter.get_mode(), ActiveFilterMode::Exclude);
    Command::FilterHistoryNext.execute(&mut app);
    assert_eq!(app.input, "");
    assert_eq!(app.filter.get_mode(), ActiveFilterMode::Include);
}

#[test]
fn recomputing_the_rows_again_changes_nothing() {
    let mut app = loaded_app("one\ntwo\nthree");
    Command::ActivateActiveFilterMode.execute(&mut app);
    confirm_typed(&mut app, "t");
    let rows = app.visible.clone();
    let selected = app.viewport.selected_line;
    app.update_view();
    assert_eq!(app.visible, rows);
    assert_eq!(app.viewport.selected_line, selected);
}

#[test]
fn search_started_and_cancelled_leaves_nothing_behind() {
    let mut app = loaded_app("one\ntwo");
    app.input = "leftover".to_string();
    Command::ActivateActiveSearchMode.execute(&mut app);
    Command::Cancel.execute(&mut app);
    assert_eq!(app.view_state, ViewState::LogView);
    assert_eq!(app.overlay, None);
    assert!(app.search.get_active_pattern().is_none());
    assert_eq!(app.input, "");
}

#[test]
fn files_view_hides_the_lines_of_a_file() {
    let paths = vec!["a.log".to_string(), "b.log".to_string()];
    let mut app = App::new(Config::default(), Vec::new(), &paths, false);
    app.load_contents(&["a1\na2".to_string(), "b1".to_string()]);
    assert_eq!(app.visible.len(), 3);
    Command::ActivateFilesView.execute(&mut app);
    assert_eq!(app.view_state, ViewState::FilesView);
    Command::MoveDown.execute(&mut app);
    Command::ToggleFile.execute(&mut app);
    assert_eq!(app.visible.len(), 2);
    for &row in &app.visible {
        assert_eq!(app.log_buffer.all_lines()[row].log_file_id, Some(0));
    }
}

#[test]
fn files_view_needs_several_files() {
    let mut app = loaded_app("one");
    Command::ActivateFilesView.execute(&mut app);
    assert_eq!(app.view_state, ViewState::LogView);
}

#[test]
fn paging_moves_by_the_viewport_height() {
    let mut app = loaded_app("0\n1\n2\n3\n4\n5\n6\n7\n8\n9");
    app.viewport.height = 4;
    Command::PageDown.execute(&mut app);
    assert_eq!(app.viewport.selected_line, 3);
    Command::PageDown.execute(&mut app);
    assert_eq!(app.viewport.selected_line, 6);
    Command::PageUp.execute(&mut app);
    assert_eq!(app.viewport.selected_line, 3);
}

#[test]
fn event_filters_and_marks_among_events_toggle() {
    let mut app = loaded_app("boom\nquiet");
    app.overlay = Some(Overlay::AddCustomEvent);
    confirm_typed(&mut app, "boom");
    assert!(app.event_tracker.get_event_stats().iter().all(|s| s.enabled));
    Command::ToggleAllEventFilters.execute(&mut app);
    assert!(app.event_tracker.get_event_stats().iter().all(|s| !s.enabled));
    let shown = app.event_tracker.showing_marks();
    Command::ToggleEventsShowMarks.execute(&mut app);
    assert_eq!(app.event_tracker.showing_marks(), !shown);
}

#[test]
fn scrolling_right_stops_at_the_longest_shown_line() {
    let mut app = loaded_app("0123456789\nab");
    app.viewport.width = 4;
    app.viewport.height = 5;
    Command::ScrollRight.execute(&mut app);
    assert_eq!(app.viewport.horizontal_offset, 2);
    for _ in 0..5 {
        Command::ScrollRight.execute(&mut app);
    }
    assert_eq!(app.viewport.horizontal_offset, 8);
    Command::ResetHorizontal.execute(&mut app);
    assert_eq!(app.viewport.horizontal_offset, 0);
}

#[test]
fn case_toggle_while_searching_recounts_the_typed_text() {
    let mut app = loaded_app("Two\ntwo");
    Command::ActivateActiveSearchMode.execute(&mut app);
    app.input = "two".to_string();
    assert!(!app.search.is_case_sensitive());
    Command::ToggleCaseSearch.execute(&mut app);
    assert!(app.search.is_case_sensitive());
    assert!(app.filter.is_case_sensitive());
    assert_eq!(app.search.get_match_info(), (1, 1, 1));
    Command::ToggleCaseFilter.execute(&mut app);
    assert_eq!(app.search.get_match_info(), (1, 2, 2));
}

fn with_events(text: &str, names: &[&str]) -> App {
    let mut app = loaded_app(text);
    for name in names {
        app.overlay = Some(Overlay::AddCustomEvent);
        confirm_typed(&mut app, name);
    }
    app
}

fn select_event_filter(app: &mut App, name: &str) {
    let k = app.event_tracker.get_event_stats().iter().position(|s| s.name == name).unwrap();
    app.event_filter_list_state.select_index(k);
}

#[test]
fn events_view_lists_the_events_and_steps_between_them() {
    let mut app = with_events("boom a\nquiet\nboom b\nquiet\nboom c", &["boom"]);
    Command::ActivateEventsView.execute(&mut app);
    assert_eq!(app.view_state, ViewState::EventsView);
    assert_eq!(app.events_list(), vec![(0, false), (2, false), (4, false)]);
    assert_eq!(app.events_list_state.selected_index(), 0);
    assert_eq!(app.events_list_state.item_count(), 3);
    Command::EventNext.execute(&mut app);
    assert_eq!(app.viewport.selected_line, 2);
    Command::EventNext.execute(&mut app);
    assert_eq!(app.viewport.selected_line, 4);
    Command::EventNext.execute(&mut app);
    assert_eq!(app.viewport.selected_line, 4);
    Command::EventPrevious.execute(&mut app);
    assert_eq!(app.viewport.selected_line, 2);
}

#[test]
fn events_view_goes_to_the_selected_event() {
    let mut app = with_events("boom a\nquiet\nboom b\nquiet\nboom c", &["boom"]);
    Command::ActivateEventsView.execute(&mut app);
    Command::MoveDown.execute(&mut app);
    Command::MoveDown.execute(&mut app);
    assert_eq!(app.events_list_state.selected_index(), 2);
    Command::GotoSelectedEvent.execute(&mut app);
    assert_eq!(app.viewport.selected_line, 4);
    assert_eq!(app.view_state, ViewState::EventsView);
}

#[test]
fn events_view_is_reopened_near_the_selected_row() {
    let mut app = with_events("boom\nq\nq\nboom\nboom", &["boom"]);
    app.viewport.selected_line = 2;
    Command::ActivateEventsView.execute(&mut app);
    assert_eq!(app.events_list_state.selected_index(), 1);
}

#[test]
fn event_filter_view_opens_only_over_the_events_view() {
    let mut app = with_events("boom\nquiet", &["boom", "quiet"]);
    Command::ActivateEventFilterView.execute(&mut app);
    assert_eq!(app.overlay, None);
    Command::ActivateEventsView.execute(&mut app);
    Command::ActivateEventFilterView.execute(&mut app);
    assert_eq!(app.overlay, Some(Overlay::EventsFilter));
    assert_eq!(app.event_filter_list_state.item_count(), 2);
    let first = app.event_filter_list_state.selected_index();
    Command::MoveDown.execute(&mut app);
    assert_ne!(app.event_filter_list_state.selected_index(), first);
    Command::MoveDown.execute(&mut app);
    assert_eq!(app.event_filter_list_state.selected_index(), first);
}

#[test]
fn switched_off_event_filters_leave_the_events_list() {
    let mut app = with_events("boom\nquiet\nboom", &["boom", "quiet"]);
    Command::ActivateEventsView.execute(&mut app);
    assert_eq!(app.events_list(), vec![(0, false), (1, false), (2, false)]);
    Command::ActivateEventFilterView.execute(&mut app);
    select_event_filter(&mut app, "quiet");
    Command::ToggleEventFilter.execute(&mut app);
    let stats = app.event_tracker.get_event_stats();
    assert!(stats.iter().any(|s| s.name == "quiet" && !s.enabled));
    assert!(stats.iter().any(|s| s.name == "boom" && s.enabled));
    assert_eq!(app.events_list(), vec![(0, false), (2, false)]);
    assert_eq!(app.events_list_state.item_count(), 2);
}

#[test]
fn soloed_event_filter_keeps_only_its_events() {
    let mut app = with_events("boom\nquiet\nboom", &["boom", "quiet"]);
    Command::ActivateEventsView.execute(&mut app);
    Command::ActivateEventFilterView.execute(&mut app);
    select_event_filter(&mut app, "quiet");
    app.solo_event_filter();
    let stats = app.event_tracker.get_event_stats();
    assert!(stats.iter().any(|s| s.name == "quiet" && s.enabled));
    assert!(stats.iter().any(|s| s.name == "boom" && !s.enabled));
    assert_eq!(app.events_list(), vec![(1, false)]);
}

#[test]
fn event_steps_with_the_filter_list_open_follow_its_entry() {
    let mut app = with_events("boom\nquiet\nboom\nquiet", &["boom", "quiet"]);
    Command::ActivateEventsView.execute(&mut app);
    Command::ActivateEventFilterView.execute(&mut app);
    select_event_filter(&mut app, "quiet");
    Command::EventNext.execute(&mut app);
    assert_eq!(app.viewport.selected_line, 1);
    Command::EventNext.execute(&mut app);
    assert_eq!(app.viewport.selected_line, 3);
}

#[test]
fn going_to_an_event_the_filters_hide_switches_the_filters_off() {
    let mut app = with_events("boom a\nquiet\nboom b", &["boom", "quiet"]);
    Command::ActivateActiveFilterMode.execute(&mut app);
    confirm_typed(&mut app, "quiet");
    assert_eq!(app.visible, vec![1]);
    Command::ActivateEventsView.execute(&mut app);
    Command::ActivateEventFilterView.execute(&mut app);
    select_event_filter(&mut app, "quiet");
    Command::ToggleEventFilter.execute(&mut app);
    app.overlay = None;
    let items = app.events_list();
    assert_eq!(items, vec![(0, false), (2, false)]);
    let line = items[app.events_list_state.selected_index()].0;
    Command::GotoSelectedEvent.execute(&mut app);
    assert_eq!(app.visible, vec![0, 1, 2]);
    assert!(!app.filter.get_pattern(0).unwrap().enabled);
    assert_eq!(app.viewport.selected_line, line);
}

#[test]
fn confirming_in_the_events_view_returns_to_the_log() {
    let mut app = with_events("boom a\nquiet\nboom b", &["boom"]);
    Command::ActivateEventsView.execute(&mut app);
    Command::MoveDown.execute(&mut app);
    Command::Confirm.execute(&mut app);
    assert_eq!(app.view_state, ViewState::LogView);
    assert_eq!(app.viewport.selected_line, 2);
}

#[test]
fn marks_among_events_are_listed_after_events_on_their_line() {
    let mut app = with_events("boom\nquiet\nboom", &["boom"]);
    app.viewport.selected_line = 1;
    Command::ToggleMark.execute(&mut app);
    app.viewport.selected_line = 0;
    Command::ToggleMark.execute(&mut app);
    Command::ActivateEventsView.execute(&mut app);
    if !app.event_tracker.showing_marks() {
        Command::ToggleEventsShowMarks.execute(&mut app);
    }
    assert_eq!(app.events_list(), vec![(0, false), (0, true), (1, true), (2, false)]);
    assert_eq!(app.events_list_state.item_count(), 4);
}

#[test]
fn a_selection_grows_with_the_cursor_and_is_copied() {
    let mut app = loaded_app("a\nb\nc\nd");
    Command::StartSelection.execute(&mut app);
    assert_eq!(app.view_state, ViewState::SelectionMode);
    assert_eq!(app.get_selection_range(), Some((0, 0)));
    Command::MoveDown.execute(&mut app);
    Command::MoveDown.execute(&mut app);
    assert_eq!(app.get_selection_range(), Some((0, 2)));
    assert_eq!(app.selection_lines(), vec![0, 1, 2]);
    let act = Command::CopySelection.execute(&mut app);
    assert_eq!(act, Action::CopyToClipboard("a\nb\nc".to_string()));
    assert_eq!(app.overlay, Some(Overlay::Message("Copied 3 lines to clipboard".to_string())));
    assert_eq!(app.selection_range, None);
}

#[test]
fn a_selection_made_upwards_is_ordered() {
    let mut app = loaded_app("a\nb\nc\nd");
    app.viewport.selected_line = 2;
    Command::StartSelection.execute(&mut app);
    Command::MoveUp.execute(&mut app);
    assert_eq!(app.selection_range, Some((2, 1)));
    assert_eq!(app.get_selection_range(), Some((1, 2)));
    let act = Command::CopySelection.execute(&mut app);
    assert_eq!(act, Action::CopyToClipboard("b\nc".to_string()));
}

#[test]
fn copying_one_line_says_line() {
    let mut app = loaded_app("a\nb");
    Command::StartSelection.execute(&mut app);
    let act = Command::CopySelection.execute(&mut app);
    assert_eq!(act, Action::CopyToClipboard("a".to_string()));
    assert_eq!(app.overlay, Some(Overlay::Message("Copied 1 line to clipboard".to_string())));
}

#[test]
fn copying_without_a_selection_does_nothing() {
    let mut app = loaded_app("a\nb");
    assert_eq!(Command::CopySelection.execute(&mut app), Action::Nothing);
    assert_eq!(app.overlay, None);
}

#[test]
fn cancelling_a_selection_returns_to_the_log() {
    let mut app = loaded_app("a\nb");
    Command::StartSelection.execute(&mut app);
    Command::Cancel.execute(&mut app);
    assert_eq!(app.selection_range, None);
    assert_eq!(app.view_state, ViewState::LogView);
}

#[test]
fn marking_a_selection_marks_all_its_lines_then_unmarks_them() {
    let mut app = loaded_app("a\nb\nc");
    app.viewport.selected_line = 1;
    Command::ToggleMark.execute(&mut app);
    app.viewport.selected_line = 0;
    Command::StartSelection.execute(&mut app);
    Command::MoveDown.execute(&mut app);
    Command::MoveDown.execute(&mut app);
    Command::ToggleMark.execute(&mut app);
    assert!(app.marking.is_marked(0) && app.marking.is_marked(1) && app.marking.is_marked(2));
    Command::ToggleMark.execute(&mut app);
    assert!(!app.marking.is_marked(0) && !app.marking.is_marked(1) && !app.marking.is_marked(2));
}

#[test]
fn selections_extend_to_the_neighbouring_mark_and_event() {
    let mut app = with_events("a\nboom\nc\nd", &["boom"]);
    app.viewport.selected_line = 3;
    Command::ToggleMark.execute(&mut app);
    app.viewport.selected_line = 0;
    Command::StartSelection.execute(&mut app);
    let history = app.viewport.history_position;
    app.select_to_mark_next();
    assert_eq!(app.viewport.selected_line, 3);
    assert_eq!(app.selection_range, Some((0, 3)));
    app.select_to_event_previous();
    assert_eq!(app.viewport.selected_line, 1);
    assert_eq!(app.selection_range, Some((0, 1)));
    app.select_to_event_next();
    assert_eq!(app.viewport.selected_line, 1);
    app.select_to_mark_previous();
    assert_eq!(app.viewport.selected_line, 1);
    assert_eq!(app.viewport.history_position, history);
}

#[test]
fn tab_completes_the_typed_word_from_the_shown_lines() {
    let mut app = loaded_app("hello world\nhelp me");
    Command::ActivateActiveSearchMode.execute(&mut app);
    app.input = "wor".to_string();
    Command::TabCompletion.execute(&mut app);
    assert_eq!(app.input, "world");
    app.input = "zzz".to_string();
    Command::TabCompletion.execute(&mut app);
    assert_eq!(app.input, "zzz");
}

#[test]
fn tab_does_nothing_outside_search_and_filter() {
    let mut app = loaded_app("hello world");
    app.input = "wor".to_string();
    Command::TabCompletion.execute(&mut app);
    assert_eq!(app.input, "wor");
}

#[test]
fn input_prefixes_name_the_prompt() {
    let mut app = loaded_app("a");
    assert_eq!(app.get_input_prefix(), "");
    Command::ActivateActiveSearchMode.execute(&mut app);
    assert_eq!(app.get_input_prefix(), "Search: [aa] ");
    Command::Cancel.execute(&mut app);
    Command::ActivateActiveFilterMode.execute(&mut app);
    assert_eq!(app.get_input_prefix(), "Filter: [aa] [IN] ");
    Command::Cancel.execute(&mut app);
    Command::ActivateGotoLineMode.execute(&mut app);
    assert_eq!(app.get_input_prefix(), "Go to line: ");
}

#[test]
fn expanding_shows_the_hidden_lines_below_a_row() {
    let mut app = loaded_app("x1\nhide\nhide\nx2");
    Command::ActivateActiveFilterMode.execute(&mut app);
    confirm_typed(&mut app, "x");
    assert_eq!(app.visible, vec![0, 3]);
    app.viewport.selected_line = 0;
    Command::ToggleExpansion.execute(&mut app);
    assert_eq!(app.visible, vec![0, 1, 2, 3]);
    assert_eq!(app.expanded_rows, vec![false, true, true, false]);
    app.viewport.selected_line = 2;
    Command::ToggleExpansion.execute(&mut app);
    assert_eq!(app.visible, vec![0, 3]);
    app.viewport.selected_line = 0;
    Command::ToggleExpansion.execute(&mut app);
    assert_eq!(app.visible, vec![0, 1, 2, 3]);
    app.viewport.selected_line = 0;
    Command::ToggleExpansion.execute(&mut app);
    assert_eq!(app.visible, vec![0, 3]);
    app.viewport.selected_line = 1;
    Command::ToggleExpansion.execute(&mut app);
    assert_eq!(app.visible, vec![0, 3]);
}

#[test]
fn new_app_tracks_the_configured_events() {
    let mut config = Config::default();
    config.events = vec![
        EventConfig { name: "zeta".to_string(), pattern: "z".to_string(), regex: false, style: None },
        EventConfig { name: "alpha".to_string(), pattern: "a+".to_string(), regex: true, style: None },
    ];
    let mut app = App::new(config, Vec::new(), &["a.log".to_string()], false);
    assert_eq!(app.config.events.len(), 2);
    assert_eq!(app.event_filter_list_state.item_count(), 2);
    app.load_contents(&["z\naa\nq".to_string()]);
    Command::ActivateEventsView.execute(&mut app);
    assert_eq!(app.events_list(), vec![(0, false), (1, false)]);
    let stats = app.event_tracker.get_event_stats();
    assert!(stats.iter().any(|s| s.name == "zeta" && s.enabled));
    assert!(stats.iter().any(|s| s.name == "alpha" && s.enabled));
}

#[test]
fn the_rows_are_those_the_resolver_gives_for_the_same_rules() {
    let mut app = loaded_app("x1\nhide\nhide\nx2\nhide");
    Command::ActivateActiveFilterMode.execute(&mut app);
    confirm_typed(&mut app, "x");
    app.viewport.selected_line = 0;
    Command::ToggleExpansion.execute(&mut app);
    let mut resolver = ViewportResolver::new();
    let pattern = app.filter.get_pattern(0).unwrap().clone();
    resolver.add_visibility_rule(Box::new(FilterRule::new(vec![pattern], HashSet::new())));
    let mut expanded = HashMap::new();
    expanded.insert(0usize, vec![1usize, 2]);
    resolver.set_expanded_lines(expanded);
    let rows = resolver.get_visible_lines(app.log_buffer.all_lines());
    let lines: Vec<usize> = rows.iter().map(|v| v.log_index).collect();
    let flags: Vec<bool> = rows.iter().map(|v| v.tags.contains(&Tag::Expanded)).collect();
    assert_eq!(lines, app.visible);
    assert_eq!(flags, app.expanded_rows);
}

#[test]
fn history_steps_go_back_and_forth_between_jumps() {
    let mut app = loaded_app("a\nb\nc\nd");
    Command::ActivateGotoLineMode.execute(&mut app);
    confirm_typed(&mut app, "2");
    Command::ActivateGotoLineMode.execute(&mut app);
    confirm_typed(&mut app, "4");
    assert_eq!(app.viewport.selected_line, 3);
    Command::HistoryBack.execute(&mut app);
    assert_eq!(app.viewport.selected_line, 1);
    Command::HistoryForward.execute(&mut app);
    assert_eq!(app.viewport.selected_line, 3);
    Command::HistoryForward.execute(&mut app);
    assert_eq!(app.viewport.selected_line, 3);
    Command::HistoryBack.execute(&mut app);
    Command::HistoryBack.execute(&mut app);
    assert_eq!(app.viewport.selected_line, 1);
    assert!(!app.viewport.follow_mode);
}

#[test]
fn search_steps_wrap_around_in_both_directions() {
    let mut app = loaded_app("x\na\nx\nb\nx");
    Command::ActivateActiveSearchMode.execute(&mut app);
    confirm_typed(&mut app, "x");
    app.viewport.selected_line = 2;
    app.search_next();
    assert_eq!(app.viewport.selected_line, 4);
    app.search_next();
    assert_eq!(app.viewport.selected_line, 0);
    app.search_previous();
    assert_eq!(app.viewport.selected_line, 4);
    Command::SearchPrevious.execute(&mut app);
    assert_eq!(app.viewport.selected_line, 2);
}

#[test]
fn named_steps_match_their_commands() {
    let mut app = with_events("boom\nq\nboom", &["boom"]);
    app.event_next();
    assert_eq!(app.viewport.selected_line, 2);
    app.event_previous();
    assert_eq!(app.viewport.selected_line, 0);
    app.viewport.selected_line = 1;
    Command::ToggleMark.execute(&mut app);
    app.viewport.selected_line = 0;
    app.mark_next();
    assert_eq!(app.viewport.selected_line, 1);
    app.mark_previous();
    assert_eq!(app.viewport.selected_line, 1);
    app.activate_marks_view();
    app.goto_selected_mark(false);
    assert_eq!(app.viewport.selected_line, 1);
    app.clear_all_marks();
    assert_eq!(app.get_visible_marks(), Vec::<usize>::new());
}

#[test]
fn visible_events_are_those_on_shown_rows() {
    let mut app = with_events("boom a\nquiet\nboom b", &["boom"]);
    assert_eq!(app.get_visible_events(), vec![0, 2]);
    Command::ActivateActiveFilterMode.execute(&mut app);
    confirm_typed(&mut app, "boom b");
    assert_eq!(app.visible, vec![2]);
    assert_eq!(app.get_visible_events(), vec![2]);
}

fn highlighted(app: &App, line: &str) -> Vec<(usize, usize, Option<Color>, bool)> {
    let mut h = Highlighter::new(Vec::new(), Vec::new());
    app.update_temporary_highlights(&mut h);
    h.highlight_line(line, 0, true).segments.iter().map(|s| (s.start, s.end, s.style.bg_color, s.style.bold)).collect()
}

#[test]
fn typed_and_submitted_texts_are_highlighted() {
    let mut app = loaded_app("one two\nthree");
    assert_eq!(highlighted(&app, "one two"), vec![]);
    Command::ActivateActiveSearchMode.execute(&mut app);
    app.input = "t".to_string();
    assert_eq!(highlighted(&app, "one two"), vec![]);
    app.input = "tw".to_string();
    assert_eq!(highlighted(&app, "one two"), vec![(4, 6, Some(Color::Yellow), true)]);
    confirm_typed(&mut app, "two");
    assert_ne!(app.view_state, ViewState::ActiveSearchMode);
    let segments = highlighted(&app, "one two");
    assert_eq!(segments, vec![(4, 7, Some(Color::Yellow), false)]);
    Command::ActivateActiveFilterMode.execute(&mut app);
    app.input = "one".to_string();
    let segments = highlighted(&app, "one two");
    assert_eq!(segments, vec![(0, 3, Some(Color::Cyan), true), (4, 7, Some(Color::Yellow), false)]);
}

#[test]
fn time_filter_popup_edits_the_focused_time_and_clears() {
    let mut app = loaded_app("2024-01-01 10:00:00 a\n2024-01-02 10:00:00 b");
    app.time_filter_input_start = "2024-01-01".to_string();
    app.time_filter_input_end = "2024-01-01 12:00:00".to_string();
    app.edit_time_filter();
    assert_eq!(app.input, "2024-01-01");
    assert_eq!(app.overlay, Some(Overlay::EditTimeFilter));
    app.time_filter_focus_next();
    assert_eq!(app.time_filter_focus, TimeFilterFocus::End);
    app.edit_time_filter();
    assert_eq!(app.input, "2024-01-01 12:00:00");
    Command::Confirm.execute(&mut app);
    assert_eq!(app.visible, vec![0]);
    app.clear_time_filter();
    assert!(app.time_filter.is_none());
    assert_eq!(app.visible, vec![0, 1]);
}

#[test]
fn custom_events_added_from_the_events_view_are_listed() {
    let mut app = loaded_app("boom\nquiet\nboom");
    Command::ActivateEventsView.execute(&mut app);
    assert_eq!(app.events_list_state.item_count(), 0);
    app.activate_add_custom_event_mode();
    assert_eq!(app.overlay, Some(Overlay::AddCustomEvent));
    assert_eq!(app.input, "");
    confirm_typed(&mut app, "boom");
    assert_eq!(app.overlay, None);
    assert_eq!(app.events_list_state.item_count(), 2);
    assert_eq!(app.event_filter_list_state.item_count(), 1);
    app.view_state = ViewState::LogView;
    app.activate_add_custom_event_mode();
    assert_eq!(app.overlay, None);
}

#[test]
fn showing_hidden_events_recounts_the_events_list() {
    let mut app = with_events("boom a\nquiet\nboom b", &["boom", "quiet"]);
    Command::ActivateActiveFilterMode.execute(&mut app);
    confirm_typed(&mut app, "quiet");
    Command::ActivateEventsView.execute(&mut app);
    Command::ActivateEventFilterView.execute(&mut app);
    select_event_filter(&mut app, "quiet");
    Command::ToggleEventFilter.execute(&mut app);
    app.overlay = None;
    assert_eq!(app.events_list_state.item_count(), 2);
    Command::GotoSelectedEvent.execute(&mut app);
    assert_eq!(app.visible, vec![0, 1, 2]);
    assert_eq!(app.events_list(), vec![(0, false), (2, false)]);
    assert_eq!(app.events_list_state.item_count(), 2);
}

#[test]
fn restoring_a_session_brings_back_histories_custom_events_and_flags() {
    let mut app = loaded_app("boom\nquiet\nboom");
    let mut st = kept_session();
    st.filter_history =
        vec![FilterHistoryEntry { pattern: "x".to_string(), mode: ActiveFilterMode::Exclude, case_sensitive: true }];
    st.filters.push(FilterPatternState {
        pattern: "q".to_string(),
        mode: ActiveFilterMode::Exclude,
        case_sensitive: true,
        enabled: false,
    });
    st.marks = vec![MarkState { line_index: 1, name: None }, MarkState { line_index: 1, name: Some("again".to_string()) }];
    app.restore_state(&st);
    let hist: Vec<(String, ActiveFilterMode, bool)> =
        app.filter.history().get_history().iter().map(|e| (e.pattern.clone(), e.mode, e.case_sensitive)).collect();
    assert_eq!(
        hist,
        vec![
            ("x".to_string(), ActiveFilterMode::Exclude, true),
            ("t".to_string(), ActiveFilterMode::Include, false),
            ("q".to_string(), ActiveFilterMode::Exclude, true),
        ]
    );
    let q = app.filter.get_pattern(1).unwrap();
    assert_eq!((q.pattern.as_str(), q.case_sensitive, q.enabled), ("q", true, false));
    assert!(!app.marking.is_marked(1));
    assert_eq!(app.event_tracker.get_custom_event_patterns(), vec!["boom"]);
    let stats = app.event_tracker.get_event_stats();
    assert!(stats.iter().any(|s| s.name == "boom" && !s.enabled));
}

#[test]
fn help_opens_at_the_section_of_the_current_view() {
    let mut app = loaded_app("a");
    Command::ToggleHelp.execute(&mut app);
    assert!(app.help.is_visible());
    let in_log = app.help.selected_index();
    assert!(app.help.item(in_log).unwrap().is_selectable());
    Command::ToggleHelp.execute(&mut app);
    assert!(!app.help.is_visible());
    assert!(app.help.item(app.help.selected_index()).unwrap().is_selectable());
    app.view_state = ViewState::MarksView;
    Command::ToggleHelp.execute(&mut app);
    let in_marks = app.help.selected_index();
    assert!(app.help.item(in_marks).unwrap().is_header());
    assert_ne!(in_log, in_marks);
    Command::ToggleHelp.execute(&mut app);
    app.view_state = ViewState::EventsView;
    app.overlay = Some(Overlay::EventsFilter);
    Command::ToggleHelp.execute(&mut app);
    let in_event_filters = app.help.selected_index();
    assert!(app.help.item(in_event_filters).unwrap().is_header());
    assert!(in_event_filters > in_marks || in_event_filters < in_marks);
}

#[test]
fn time_filter_popup_starts_from_the_log_time_range() {
    let mut app = loaded_app("2024-01-01 10:00:00 a\n2024-01-02 11:30:00 b");
    app.activate_time_filter_mode();
    assert_eq!(app.view_state, ViewState::TimeFilterView);
    assert_eq!(app.time_filter_focus, TimeFilterFocus::Start);
    assert_eq!(app.time_filter_input_start, "2024-01-01 10:00:00");
    assert_eq!(app.time_filter_input_end, "2024-01-02 11:30:00");
    app.time_filter_input_end = "2024-01-01 12:00:00".to_string();
    app.time_filter_focus = TimeFilterFocus::End;
    app.activate_time_filter_mode();
    assert_eq!(app.time_filter_focus, TimeFilterFocus::Start);
    assert_eq!(app.time_filter_input_end, "2024-01-01 12:00:00");
    app.edit_time_filter();
    Command::Confirm.execute(&mut app);
    assert_eq!(app.visible, vec![0]);
    app.reset_time_filter();
    assert!(app.time_filter.is_none());
    assert_eq!(app.visible, vec![0, 1]);
    assert_eq!(app.time_filter_input_end, "2024-01-02 11:30:00");
}

#[test]
fn time_filter_popup_is_refused_on_a_stream_and_empty_without_times() {
    let mut app = App::new(Config::default(), Vec::new(), &[], true);
    app.activate_time_filter_mode();
    assert_eq!(app.overlay, Some(Overlay::Message("Time filter not available in streaming mode".to_string())));
    assert_eq!(app.view_state, ViewState::LogView);
    let mut app = loaded_app("no time here");
    app.activate_time_filter_mode();
    assert_eq!(app.time_filter_input_start, "");
    assert_eq!(app.time_filter_input_end, "");
}

#[test]
fn goto_line_selects_the_row_of_a_log_line() {
    let mut app = loaded_app("x1\nhide\nx2\nx3");
    Command::ActivateActiveFilterMode.execute(&mut app);
    confirm_typed(&mut app, "x");
    assert_eq!(app.visible, vec![0, 2, 3]);
    app.goto_line(3, false);
    assert_eq!(app.viewport.selected_line, 2);
    app.goto_line(1, false);
    assert_eq!(app.viewport.selected_line, 2);
}

#[test]
fn keys_go_to_the_input_only_where_text_is_typed() {
    let mut app = loaded_app("a");
    assert!(!app.is_text_input_mode());
    Command::ActivateActiveSearchMode.execute(&mut app);
    assert!(app.is_text_input_mode());
    Command::ToggleHelp.execute(&mut app);
    assert!(!app.is_text_input_mode());
    Command::ToggleHelp.execute(&mut app);
    Command::Cancel.execute(&mut app);
    app.overlay = Some(Overlay::EditTimeFilter);
    assert!(app.is_text_input_mode());
    app.overlay = Some(Overlay::EventsFilter);
    assert!(!app.is_text_input_mode());
}
