use lazylog::completion::CompletionEngine;
use lazylog::log::LogLine;

#[test]
fn test_incremental_updates() {
    let mut engine = CompletionEngine::new();

    let line1 = LogLine::new("Processing request", 0);
    let line2 = LogLine::new("Error occurred", 1);
    engine.update(&[&line1, &line2]);

    assert_eq!(engine.find_completion("Pro"), Some("cessing".to_string()));

    let line3 = LogLine::new("Program started", 2);
    let line4 = LogLine::new("Profile loaded", 3);
    engine.update(&[&line3, &line4]);

    let completion = engine.find_completion("Pro");
    assert!(completion.is_some());
    assert_eq!(completion.unwrap(), "");
}

#[test]
fn test_case_sensitive_completion() {
    let mut engine = CompletionEngine::new();
    let line1 = LogLine::new("ERROR message", 0);
    let line2 = LogLine::new("error occurred", 1);
    engine.update(&[&line1, &line2]);

    assert_eq!(engine.find_completion("ERR"), Some("OR".to_string()));
    assert_eq!(engine.find_completion("err"), Some("or".to_string()));
}

#[test]
fn completion_edge_cases() {
    let mut engine = CompletionEngine::default();
    let line = LogLine::new("  alpha\tbeta  alphabet ", 0);
    engine.append_line(&line);
    assert_eq!(engine.find_completion(""), None);
    assert_eq!(engine.find_completion("zeta"), None);
    assert_eq!(engine.find_completion("beta"), None);
    assert_eq!(engine.find_completion("alp"), Some("ha".to_string()));
    assert_eq!(engine.find_completion("alpha"), Some("".to_string()));
}
