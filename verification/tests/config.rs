use lazylog::config::{Config, ConfigSource, EventConfig, FilterConfig, Filters, HighlightConfig, StyleConfig};
use lazylog::filter::ActiveFilterMode;
use lazylog::highlighter::Color;
use lazylog::matcher::PatternMatcher;

fn filter_config(pattern: &str, mode: &str) -> FilterConfig {
    FilterConfig { pattern: pattern.to_string(), mode: mode.to_string(), case_sensitive: false, enabled: true }
}

#[test]
fn filter_modes_are_read_in_any_case() {
    let filters = Filters { filters: vec![filter_config("a", "EXCLUDE"), filter_config("b", "include"), filter_config("c", "other")] };
    let parsed = filters.parse_filter_patterns();
    assert_eq!(parsed[0].mode, ActiveFilterMode::Exclude);
    assert_eq!(parsed[1].mode, ActiveFilterMode::Include);
    assert_eq!(parsed[2].mode, ActiveFilterMode::Include);
    assert_eq!(parsed[0].pattern, "a");
}

#[test]
fn colors_are_parsed_by_name() {
    assert_eq!(Config::parse_color("Red"), Some(Color::Red));
    assert_eq!(Config::parse_color("lightcyan"), Some(Color::LightCyan));
    assert_eq!(Config::parse_color("DarkGray"), Some(Color::DarkGray));
    assert_eq!(Config::parse_color("purple"), None);
}

#[test]
fn hash_colors_are_deterministic_and_bright() {
    let a = Config::hash_to_color("ERROR");
    assert_eq!(a, Config::hash_to_color("ERROR"));
    let mut hash: u32 = 5381;
    for b in "ERROR".bytes() {
        hash = hash.wrapping_mul(33).wrapping_add(b as u32);
    }
    let bright = [82u8, 118, 154, 190, 196, 202, 208, 214, 220, 226];
    assert_eq!(a, Color::Indexed(bright[(hash % 10) as usize] + (hash % 6) as u8));
}

#[test]
fn load_outcomes() {
    let missing = Config::load("x.toml", ConfigSource::Missing).unwrap();
    assert_eq!(missing.get_path(), None);
    let read = Config::load("x.toml", ConfigSource::ReadFailed("denied".to_string()));
    assert_eq!(read.unwrap_err(), "Failed to read config file 'x.toml': denied");
    let parse = Config::load("x.toml", ConfigSource::ParseFailed("bad".to_string()));
    assert_eq!(parse.unwrap_err(), "Failed to parse config file 'x.toml': bad");
    let parsed = Config::load("x.toml", ConfigSource::Parsed(Config::default())).unwrap();
    assert_eq!(parsed.get_path(), Some(&"x.toml".to_string()));
}

#[test]
fn patterns_from_config() {
    let mut config = Config::default();
    config.highlights = vec![
        HighlightConfig { pattern: "id=\\d+".to_string(), regex: true, case_sensitive: false, style: None },
        HighlightConfig { pattern: "(".to_string(), regex: true, case_sensitive: false, style: None },
        HighlightConfig {
            pattern: "ok".to_string(),
            regex: false,
            case_sensitive: true,
            style: Some(StyleConfig { fg: Some("green".to_string()), bg: None, bold: true }),
        },
    ];
    config.events = vec![EventConfig { name: "err".to_string(), pattern: "ERROR".to_string(), regex: false, style: None }];
    config.default_event_bg_color_index = Some(52);
    let highlights = config.parse_highlight_patterns();
    assert_eq!(highlights.len(), 2);
    assert_eq!(highlights[0].style.fg_color, Some(Config::hash_to_color("id=\\d+")));
    assert_eq!(highlights[1].style.fg_color, Some(Color::Green));
    assert!(highlights[1].style.bold);
    let line_events = config.parse_highlight_event_patterns();
    assert_eq!(line_events[0].style.bg_color, Some(Color::Indexed(52)));
    assert_eq!(line_events[0].style.fg_color, None);
    let events = config.parse_log_event_patterns();
    assert_eq!(events.len(), 1);
    assert_eq!(events[0].name, "err");
    assert!(events[0].enabled);
    assert!(matches!(&events[0].matcher, PatternMatcher::Plain(p) if p.case_sensitive));
    assert_eq!(config.parse_filter_patterns().len(), 0);
}
