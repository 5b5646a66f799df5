use lazylog::display_options::{DisplayOption, DisplayOptions};
use lazylog::options::{AppOption, AppOptions};

#[test]
fn app_options_enable_and_restore() {
    let mut options = AppOptions::default();
    assert_eq!(options.count(), 5);
    assert!(!options.is_empty());
    assert!(options.is_disabled(AppOption::DisableColors));
    options.enable(AppOption::DisableColors);
    assert!(options.is_enabled(AppOption::DisableColors));
    options.toggle_option(1);
    assert!(!options.is_enabled(AppOption::DisableColors));
    options.enable_option(3);
    assert!(options.is_enabled(AppOption::AlwaysShowMarkedLines));
    options.restore(&[(AppOption::AlwaysShowMarkedLines, false), (AppOption::SearchDisableJumping, true)]);
    assert!(!options.is_enabled(AppOption::AlwaysShowMarkedLines));
    assert!(options.is_enabled(AppOption::SearchDisableJumping));
    assert_eq!(options.get(0).unwrap().get_description(), "Hide Timestamp & Hostname");
    assert!(options.get(9).is_none());
    assert_eq!(options.iter().count(), 5);
}

#[test]
fn hide_timestamp_strips_the_line_start() {
    let mut options = AppOptions::default();
    let line = "Jan 15 10:30:45 myhost app[1]: started";
    assert_eq!(options.apply_to_line(line), line);
    options.enable(AppOption::HideTimestamp);
    assert_eq!(options.apply_to_line(line), "app[1]: started");
    assert_eq!(options.apply_to_line("2024-01-15T10:30:45.123+0200 msg"), "msg");
    assert_eq!(options.apply_to_line("plain line"), "plain line");
}

#[test]
fn display_options_move_toggle_and_apply() {
    let mut options = DisplayOptions::default();
    assert_eq!(options.options.len(), 3);
    options.move_selection_up();
    assert_eq!(options.selected_index, 2);
    options.move_selection_down();
    assert_eq!(options.selected_index, 0);
    options.toggle_selected_option();
    assert!(options.is_enabled("Hide Date, Time & Hostname"));
    assert!(!options.is_enabled("Disable Colors"));
    assert!(!options.is_enabled("unknown"));
    assert_eq!(options.apply_to_line("Jan 15 10:30:45 myhost rest"), "rest");
    assert!(DisplayOption::try_hide_pattern("bad", "(").is_none());
    let toggle = DisplayOption::new_toggle("t");
    assert!(!toggle.enabled);
}
