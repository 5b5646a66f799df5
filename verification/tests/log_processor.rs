use lazylog::filter::{ActiveFilterMode, FilterPattern};
use lazylog::log_processor::{process_batch, ProcessingContext};

#[test]
fn empty_batch_gives_nothing() {
    let context = ProcessingContext::default();
    let mut batch: Vec<String> = Vec::new();
    assert!(process_batch(&context, &mut batch).is_none());
}

#[test]
fn batch_lines_are_marked_by_filters() {
    let mut context = ProcessingContext::default();
    context.filter_patterns.push(FilterPattern::new("debug".to_string(), ActiveFilterMode::Exclude, false, true));
    let mut batch = vec!["INFO start".to_string(), "DEBUG noise".to_string(), "ERROR stop".to_string()];
    let processed = process_batch(&context, &mut batch).unwrap();
    assert!(batch.is_empty());
    let got: Vec<(&str, bool)> = processed.iter().map(|p| (p.line_content.as_str(), p.passes_filter)).collect();
    assert_eq!(got, vec![("INFO start", true), ("DEBUG noise", false), ("ERROR stop", true)]);
}
