//! Whether a line's content passes a list of filter patterns.
use vstd::prelude::*;
use crate::filter::{filter_specs, passes_filters, FilterPattern};

verus! {

/// Checks if content passes the given filter patterns: no enabled exclude pattern
/// matches it, and when there are enabled include patterns, one of them matches it.
pub fn apply_filters(content: &str, filter_patterns: &[FilterPattern]) -> (r: bool)
    ensures
        r == passes_filters(content@, filter_specs(filter_patterns@)),
{
    crate::filter::apply_filters(content, filter_patterns)
}

} // verus!
