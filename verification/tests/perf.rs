use lazylog::highlighter::{Color, HighlightPattern, Highlighter, PatternStyle, PlainMatch};
use regex::Regex;
use lazylog::options::{AppOption, AppOptions};
use std::time::{Duration, Instant};

/// Measures execution time of a function
fn measure_time<F, R>(iterations: usize, mut f: F) -> Duration
where
    F: FnMut() -> R,
{
    for _ in 0..iterations {
        f();
    }

    let start = Instant::now();
    for _ in 0..iterations {
        std::hint::black_box(f());
    }
    start.elapsed()
}

/// Sample log line for testing (typical production log line)
const SAMPLE_LOG_LINE: &str = "okt 18 21:20:22 archlinux INFO [thread-pool-1] com.example.service.UserService - Processing user request id=12345 user=john.doe@example.com status=active duration=42ms";

fn plain(pattern: &str, color: Color, bold: bool) -> HighlightPattern {
    HighlightPattern::new(pattern, false, PatternStyle::new(Some(color), None, bold), None).unwrap()
}

fn regex(pattern: &str, color: Color) -> HighlightPattern {
    HighlightPattern::new(pattern, true, PatternStyle::new(Some(color), None, false), None).unwrap()
}

#[test]
fn perf_display_options_none_enabled() {
    let options = AppOptions::default();
    let iterations = 100000;
    let time = measure_time(iterations, || options.apply_to_line(SAMPLE_LOG_LINE));
    println!("options (no options): total={:?} ({})", time, iterations);
}

#[test]
fn perf_display_options_hide_pattern_enabled() {
    let mut app_options = AppOptions::default();
    app_options.enable(AppOption::HideTimestamp);
    let iterations = 100000;
    let time = measure_time(iterations, || app_options.apply_to_line(SAMPLE_LOG_LINE));
    println!("options (hide pattern): total={:?} ({})", time, iterations);
}

#[test]
fn perf_highlight_line_cache_hit() {
    let patterns = vec![plain("ERROR", Color::Red, false), plain("INFO", Color::Green, false)];
    let highlighter = Highlighter::new(patterns, vec![]);
    let iterations = 10000;
    let time = measure_time(iterations, || highlighter.highlight_line(SAMPLE_LOG_LINE, 0, true));
    println!("Highlight line (cache hit): total={:?} ({})", time, iterations);
}

#[test]
fn perf_highlight_line_cache_miss() {
    let patterns = vec![plain("ERROR", Color::Red, false), plain("INFO", Color::Green, false)];
    let highlighter = Highlighter::new(patterns, vec![]);
    let iterations = 10000;
    let mut counter = 0usize;
    let time = measure_time(iterations, || {
        counter += 1;
        highlighter.highlight_line(SAMPLE_LOG_LINE, counter % 4, true)
    });
    println!("Highlight line (cache miss): total={:?} ({})", time, iterations);
}

#[test]
fn perf_plain_match_case_sensitive() {
    let matcher = PlainMatch { pattern: "INFO".to_string(), case_sensitive: true };
    let iterations = 10000;
    let time = measure_time(iterations, || matcher.is_match(SAMPLE_LOG_LINE));
    println!("Plain match (case sensitive): total={:?} ({})", time, iterations);
}

#[test]
fn perf_plain_match_case_insensitive() {
    let matcher = PlainMatch { pattern: "info".to_string(), case_sensitive: false };
    let iterations = 10000;
    let time = measure_time(iterations, || matcher.is_match(SAMPLE_LOG_LINE));
    println!("Plain match (case insensitive): total={:?} ({})", time, iterations);
}

#[test]
fn perf_regex_match() {
    let matcher = Regex::new(r"\d{4}-\d{2}-\d{2}").unwrap();
    let iterations = 10000;
    let time = measure_time(iterations, || matcher.is_match(SAMPLE_LOG_LINE));
    println!("Regex match: total={:?} ({} iterations)", time, iterations);
}

#[test]
fn perf_highlight_multiple_patterns() {
    let patterns = vec![
        plain("ERROR", Color::Red, true),
        plain("WARN", Color::Yellow, false),
        plain("INFO", Color::Green, false),
        plain("DEBUG", Color::Blue, false),
        regex(r"\d+ms", Color::Cyan),
        regex(r"id=\d+", Color::Magenta),
    ];
    let highlighter = Highlighter::new(patterns, vec![]);
    let iterations = 10000;
    let mut counter = 0usize;
    let time = measure_time(iterations, || {
        counter += 1;
        highlighter.highlight_line(SAMPLE_LOG_LINE, counter % 4, true)
    });
    println!("Highlight with 6 patterns: total={:?} ({} iterations)", time, iterations);
}
