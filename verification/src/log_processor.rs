//! What the streaming pipeline does with each batch of lines read from standard input:
//! it marks whether each line passes the current filters.
use vstd::prelude::*;
use crate::filter::{filter_specs, passes_filters, FilterPattern};
use crate::highlighter::HighlightPattern;
use crate::processing::apply_filters;

verus! {

/// A line read in streaming mode, with whether it passes the filters.
#[derive(Debug, Clone)]
pub struct ProcessedLine {
    pub line_content: String,
    pub passes_filter: bool,
}

/// What the lines of a stream are processed with.
#[derive(Debug)]
pub struct ProcessingContext {
    pub filter_patterns: Vec<FilterPattern>,
    pub search_pattern: Option<String>,
    pub search_case_sensitive: bool,
    pub event_patterns: Vec<HighlightPattern>,
}

impl Default for ProcessingContext {
    fn default() -> (r: Self)
        ensures
            r.filter_patterns@.len() == 0,
            r.search_pattern is None,
            !r.search_case_sensitive,
            r.event_patterns@.len() == 0,
    {
        ProcessingContext {
            filter_patterns: Vec::new(),
            search_pattern: None,
            search_case_sensitive: false,
            event_patterns: Vec::new(),
        }
    }
}

/// Processes a batch of lines, taking them out of the batch: each line with whether it
/// passes the context's filters, in order; `None` for an empty batch.
pub fn process_batch(context: &ProcessingContext, batch: &mut Vec<String>) -> (r: Option<Vec<ProcessedLine>>)
    ensures
        final(batch)@.len() == 0,
        old(batch)@.len() == 0 ==> r is None,
        old(batch)@.len() > 0 ==> (r matches Some(v) && v@.len() == old(batch)@.len() && forall|i: int|
            0 <= i < v@.len() ==> (#[trigger] v@[i]).line_content@ == old(batch)@[i]@ && v@[i].passes_filter
                == passes_filters(old(batch)@[i]@, filter_specs(context.filter_patterns@))),
{
    if batch.len() == 0 {
        return None;
    }
    let ghost lines = batch@;
    let mut out: Vec<ProcessedLine> = Vec::new();
    let mut i: usize = 0;
    while i < batch.len()
        invariant
            batch@ == lines,
            i <= lines.len(),
            out@.len() == i,
            forall|j: int|
                0 <= j < i ==> (#[trigger] out@[j]).line_content@ == lines[j]@ && out@[j].passes_filter
                    == passes_filters(lines[j]@, filter_specs(context.filter_patterns@)),
        decreases lines.len() - i,
    {
        let passes = apply_filters(batch[i].as_str(), context.filter_patterns.as_slice());
        out.push(ProcessedLine { line_content: batch[i].clone(), passes_filter: passes });
        i += 1;
    }
    batch.clear();
    Some(out)
}

} // verus!
