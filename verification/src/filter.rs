//! Include/exclude text filters and the rule that applies them to lines.
use vstd::prelude::*;
use std::collections::HashSet;
use crate::history::{position_after_next, position_after_previous, record_after_step, History, HistoryEntry};
use crate::log::LogLine;
use crate::resolver::VisibilityRule;
use crate::utils::{str_eq, text_contains, text_matches};

verus! {

broadcast use vstd::std_specs::hash::group_hash_axioms;

/// Filter mode - include or exclude matching lines.
#[derive(Debug, Copy, Clone, PartialEq, Eq, Structural)]
pub enum ActiveFilterMode {
    /// Include only lines matching the pattern.
    Include,
    /// Exclude lines matching the pattern.
    Exclude,
}

impl Default for ActiveFilterMode {
    fn default() -> (r: Self)
        ensures
            r == ActiveFilterMode::Include,
    {
        ActiveFilterMode::Include
    }
}

/// The other mode: Include and Exclude swap.
pub open spec fn flipped_mode(mode: ActiveFilterMode) -> ActiveFilterMode {
    match mode {
        ActiveFilterMode::Include => ActiveFilterMode::Exclude,
        ActiveFilterMode::Exclude => ActiveFilterMode::Include,
    }
}

/// Switching the mode twice gives it back.
pub proof fn lemma_flip_mode_twice(mode: ActiveFilterMode)
    ensures
        flipped_mode(flipped_mode(mode)) == mode,
{
}

/// The filters with the one at `index`, if there is one, switched on or off.
pub open spec fn toggled_enabled(fs: Seq<FilterSpec>, index: int) -> Seq<FilterSpec> {
    if 0 <= index < fs.len() {
        fs.update(index, FilterSpec { enabled: !fs[index].enabled, ..fs[index] })
    } else {
        fs
    }
}

/// Switching a filter on or off twice leaves the filters as they were.
pub proof fn lemma_toggle_enabled_twice(fs: Seq<FilterSpec>, index: int)
    ensures
        toggled_enabled(toggled_enabled(fs, index), index) == fs,
{
    assert(toggled_enabled(toggled_enabled(fs, index), index) =~= fs);
}

fn flip_mode(mode: ActiveFilterMode) -> (r: ActiveFilterMode)
    ensures
        r == flipped_mode(mode),
{
    match mode {
        ActiveFilterMode::Include => ActiveFilterMode::Exclude,
        ActiveFilterMode::Exclude => ActiveFilterMode::Include,
    }
}

/// A filter history entry containing the complete state of a filter.
#[derive(Debug, Clone, PartialEq, Eq)]
pub struct FilterHistoryEntry {
    pub pattern: String,
    pub mode: ActiveFilterMode,
    pub case_sensitive: bool,
}

impl View for FilterHistoryEntry {
    type V = (Seq<char>, ActiveFilterMode, bool);

    open spec fn view(&self) -> (Seq<char>, ActiveFilterMode, bool) {
        (self.pattern@, self.mode, self.case_sensitive)
    }
}

impl HistoryEntry for FilterHistoryEntry {
    fn same_entry(&self, other: &Self) -> (r: bool) {
        self.pattern == other.pattern && self.mode == other.mode && self.case_sensitive
            == other.case_sensitive
    }

    fn duplicate(&self) -> (r: Self) {
        FilterHistoryEntry {
            pattern: self.pattern.clone(),
            mode: self.mode,
            case_sensitive: self.case_sensitive,
        }
    }
}

/// A single filter pattern.
#[derive(Debug, Clone)]
pub struct FilterPattern {
    /// The pattern to match.
    pub pattern: String,
    /// Whether to include or exclude matching lines.
    pub mode: ActiveFilterMode,
    /// Whether the pattern matching is case-sensitive.
    pub case_sensitive: bool,
    /// Whether this pattern is currently active.
    pub enabled: bool,
}

/// The plain-value model of a filter pattern.
pub struct FilterSpec {
    pub pattern: Seq<char>,
    pub mode: ActiveFilterMode,
    pub case_sensitive: bool,
    pub enabled: bool,
}

impl View for FilterPattern {
    type V = FilterSpec;

    open spec fn view(&self) -> FilterSpec {
        FilterSpec {
            pattern: self.pattern@,
            mode: self.mode,
            case_sensitive: self.case_sensitive,
            enabled: self.enabled,
        }
    }
}

impl FilterPattern {
    /// Creates a new filter pattern.
    pub fn new(pattern: String, mode: ActiveFilterMode, case_sensitive: bool, enabled: bool) -> (r:
        Self)
        ensures
            r.pattern@ == pattern@,
            r.mode == mode,
            r.case_sensitive == case_sensitive,
            r.enabled == enabled,
    {
        Self { pattern, mode, case_sensitive, enabled }
    }

    /// A copy of this filter pattern.
    pub fn duplicate(&self) -> (r: Self)
        ensures
            r@ == self@,
    {
        FilterPattern {
            pattern: self.pattern.clone(),
            mode: self.mode,
            case_sensitive: self.case_sensitive,
            enabled: self.enabled,
        }
    }
}

/// The filter matches the content.
pub open spec fn filter_hits(content: Seq<char>, f: FilterSpec) -> bool {
    text_matches(content, f.pattern, f.case_sensitive)
}

/// Some enabled exclude filter matches the content.
pub open spec fn excluded_by(content: Seq<char>, fs: Seq<FilterSpec>) -> bool {
    exists|i: int|
        0 <= i < fs.len() && (#[trigger] fs[i]).enabled && fs[i].mode == ActiveFilterMode::Exclude
            && filter_hits(content, fs[i])
}

/// Some filter is an enabled include filter.
pub open spec fn has_include(fs: Seq<FilterSpec>) -> bool {
    exists|i: int|
        0 <= i < fs.len() && (#[trigger] fs[i]).enabled && fs[i].mode == ActiveFilterMode::Include
}

/// Some enabled include filter matches the content.
pub open spec fn included_by(content: Seq<char>, fs: Seq<FilterSpec>) -> bool {
    exists|i: int|
        0 <= i < fs.len() && (#[trigger] fs[i]).enabled && fs[i].mode == ActiveFilterMode::Include
            && filter_hits(content, fs[i])
}

/// A line passes the filters when no enabled exclude filter matches it and, if there is
/// any enabled include filter, at least one of them matches it.
pub open spec fn passes_filters(content: Seq<char>, fs: Seq<FilterSpec>) -> bool {
    !excluded_by(content, fs) && (has_include(fs) ==> included_by(content, fs))
}

/// The model of a slice of filter patterns.
pub open spec fn filter_specs(fs: Seq<FilterPattern>) -> Seq<FilterSpec> {
    fs.map_values(|f: FilterPattern| f@)
}

/// Checks if content passes the given filter patterns.
pub fn apply_filters(content: &str, filter_patterns: &[FilterPattern]) -> (r: bool)
    ensures
        r == passes_filters(content@, filter_specs(filter_patterns@)),
{
    let ghost fs = filter_specs(filter_patterns@);
    if filter_patterns.len() == 0 {
        return true;
    }
    let mut has_include_filters = false;
    let mut include_matched = false;
    let mut i: usize = 0;
    while i < filter_patterns.len()
        invariant
            fs == filter_specs(filter_patterns@),
            i <= filter_patterns@.len(),
            forall|k: int|
                0 <= k < i && (#[trigger] fs[k]).enabled && fs[k].mode == ActiveFilterMode::Exclude
                    ==> !filter_hits(content@, fs[k]),
            has_include_filters == exists|k: int|
                0 <= k < i && (#[trigger] fs[k]).enabled && fs[k].mode == ActiveFilterMode::Include,
            include_matched == exists|k: int|
                0 <= k < i && (#[trigger] fs[k]).enabled && fs[k].mode == ActiveFilterMode::Include
                    && filter_hits(content@, fs[k]),
        decreases filter_patterns@.len() - i,
    {
        let filter = &filter_patterns[i];
        assert(fs[i as int] == filter@);
        if filter.enabled {
            let matches = text_contains(content, filter.pattern.as_str(), filter.case_sensitive);
            match filter.mode {
                ActiveFilterMode::Exclude => {
                    if matches {
                        return false;
                    }
                },
                ActiveFilterMode::Include => {
                    has_include_filters = true;
                    if matches {
                        include_matched = true;
                    }
                },
            }
        }
        i += 1;
    }
    if has_include_filters {
        include_matched
    } else {
        true
    }
}

} // verus!

verus! {

/// Some filter has this pattern text and mode.
pub open spec fn pattern_in(fs: Seq<FilterSpec>, pattern: Seq<char>, mode: ActiveFilterMode) -> bool {
    exists|i: int| 0 <= i < fs.len() && (#[trigger] fs[i]).pattern == pattern && fs[i].mode == mode
}

/// A filter spec with its `enabled` flag replaced.
pub open spec fn with_enabled(f: FilterSpec, enabled: bool) -> FilterSpec {
    FilterSpec { enabled, ..f }
}

/// Manages filter patterns.
#[derive(Debug)]
pub struct Filter {
    patterns: Vec<FilterPattern>,
    filter_mode: ActiveFilterMode,
    case_sensitive: bool,
    pub history: History<FilterHistoryEntry>,
}

/// New filters are case-insensitive unless told otherwise.
pub const DEFAULT_CASE_SENSITIVITY: bool = false;

impl Default for Filter {
    fn default() -> (r: Self)
        ensures
            r.patterns() == Seq::<FilterSpec>::empty(),
            r.mode() == ActiveFilterMode::Include,
            r.case_sensitive() == DEFAULT_CASE_SENSITIVITY,
            r.hist()@ == Seq::<(Seq<char>, ActiveFilterMode, bool)>::empty(),
            r.hist().wf(),
            r.hist().position() is None,
    {
        Filter::with_patterns(Vec::new())
    }
}

impl Filter {
    /// The filter patterns, in order.
    pub closed spec fn patterns(&self) -> Seq<FilterSpec> {
        filter_specs(self.patterns@)
    }

    /// The history of added filters.
    pub closed spec fn hist(&self) -> History<FilterHistoryEntry> {
        self.history
    }

    /// The filter history.
    pub fn history(&self) -> (r: &History<FilterHistoryEntry>)
        ensures
            *r == self.hist(),
    {
        &self.history
    }

    /// The mode that new filters get.
    pub closed spec fn mode(&self) -> ActiveFilterMode {
        self.filter_mode
    }

    /// The case sensitivity that new filters get.
    pub closed spec fn case_sensitive(&self) -> bool {
        self.case_sensitive
    }

    /// Creates a new Filter with preconfigured patterns.
    pub fn with_patterns(patterns: Vec<FilterPattern>) -> (r: Self)
        ensures
            r.patterns() == filter_specs(patterns@),
            r.mode() == ActiveFilterMode::Include,
            r.case_sensitive() == DEFAULT_CASE_SENSITIVITY,
            r.hist()@ == Seq::<(Seq<char>, ActiveFilterMode, bool)>::empty(),
            r.hist().wf(),
            r.hist().position() is None,
    {
        Self {
            patterns,
            filter_mode: ActiveFilterMode::Include,
            case_sensitive: DEFAULT_CASE_SENSITIVITY,
            history: History::new(),
        }
    }

    /// Toggles the filter mode between Include and Exclude.
    pub fn toggle_mode(&mut self)
        ensures
            final(self).mode() == flipped_mode(old(self).mode()),
            final(self).patterns() == old(self).patterns(),
            final(self).case_sensitive() == old(self).case_sensitive(),
            final(self).hist() == old(self).hist(),
    {
        self.filter_mode = flip_mode(self.filter_mode);
    }

    /// Replaces the filter history with the given entries, oldest first.
    pub fn restore_history(&mut self, entries: Vec<FilterHistoryEntry>)
        ensures
            final(self).hist().wf(),
            final(self).hist()@ == entries@.map_values(|e: FilterHistoryEntry| e@),
            final(self).hist().position() is None,
            final(self).patterns() == old(self).patterns(),
            final(self).mode() == old(self).mode(),
            final(self).case_sensitive() == old(self).case_sensitive(),
    {
        self.history.restore(entries);
    }

    /// Steps back (`back`) or forward through the filter history and returns the entry it
    /// lands on, if any.
    pub fn history_record(&mut self, back: bool) -> (r: Option<FilterHistoryEntry>)
        requires
            old(self).hist().wf(),
        ensures
            final(self).hist().wf(),
            final(self).hist()@ == old(self).hist()@,
            final(self).hist().position() == (if back {
                position_after_previous(old(self).hist().position(), old(self).hist()@.len())
            } else {
                position_after_next(old(self).hist().position(), old(self).hist()@.len())
            }),
            match r {
                Some(e) => record_after_step(old(self).hist()@, old(self).hist().position(), back) == Some(e@),
                None => record_after_step(old(self).hist()@, old(self).hist().position(), back) is None,
            },
            final(self).patterns() == old(self).patterns(),
            final(self).mode() == old(self).mode(),
            final(self).case_sensitive() == old(self).case_sensitive(),
    {
        let r = if back {
            self.history.previous_record()
        } else {
            self.history.next_record()
        };
        match r {
            Some(e) => Some(e.duplicate()),
            None => None,
        }
    }

    /// Leaves browsing of the filter history.
    pub fn reset_history(&mut self)
        requires
            old(self).hist().wf(),
        ensures
            final(self).hist().wf(),
            final(self).hist()@ == old(self).hist()@,
            final(self).hist().position() is None,
            final(self).patterns() == old(self).patterns(),
            final(self).mode() == old(self).mode(),
            final(self).case_sensitive() == old(self).case_sensitive(),
    {
        self.history.reset();
    }

    /// Resets the filter mode to Include.
    pub fn reset_mode(&mut self)
        ensures
            final(self).mode() == ActiveFilterMode::Include,
            final(self).patterns() == old(self).patterns(),
            final(self).case_sensitive() == old(self).case_sensitive(),
            final(self).hist() == old(self).hist(),
    {
        self.filter_mode = ActiveFilterMode::Include;
    }

    /// Returns the current filter mode.
    pub fn get_mode(&self) -> (r: ActiveFilterMode)
        ensures
            r == self.mode(),
    {
        self.filter_mode
    }

    /// Sets the filter mode.
    pub fn set_mode(&mut self, mode: ActiveFilterMode)
        ensures
            final(self).mode() == mode,
            final(self).patterns() == old(self).patterns(),
            final(self).case_sensitive() == old(self).case_sensitive(),
            final(self).hist() == old(self).hist(),
    {
        self.filter_mode = mode;
    }

    /// Returns whether new filters will be case-sensitive.
    pub fn is_case_sensitive(&self) -> (r: bool)
        ensures
            r == self.case_sensitive(),
    {
        self.case_sensitive
    }

    /// Toggles the case sensitivity for new filters.
    pub fn toggle_case_sensitivity(&mut self)
        ensures
            final(self).case_sensitive() == !old(self).case_sensitive(),
            final(self).mode() == old(self).mode(),
            final(self).patterns() == old(self).patterns(),
            final(self).hist() == old(self).hist(),
    {
        self.case_sensitive = !self.case_sensitive;
    }

    /// Sets case sensitivity.
    pub fn set_case_sensitivity(&mut self, case_sensitive: bool)
        ensures
            final(self).case_sensitive() == case_sensitive,
            final(self).mode() == old(self).mode(),
            final(self).patterns() == old(self).patterns(),
            final(self).hist() == old(self).hist(),
    {
        self.case_sensitive = case_sensitive;
    }

    /// Resets case sensitivity to default.
    pub fn reset_case_sensitivity(&mut self)
        ensures
            final(self).case_sensitive() == DEFAULT_CASE_SENSITIVITY,
            final(self).mode() == old(self).mode(),
            final(self).patterns() == old(self).patterns(),
            final(self).hist() == old(self).hist(),
    {
        self.case_sensitive = DEFAULT_CASE_SENSITIVITY;
    }

    /// Adds a new filter pattern in the current mode and case sensitivity, unless the
    /// pattern is empty or a filter with the same text and mode already exists.
    /// A filter that is added is also recorded in the history.
    pub fn add_filter_from_pattern(&mut self, pattern: &str)
        requires
            old(self).hist().wf(),
        ensures
            final(self).hist().wf(),
            final(self).mode() == old(self).mode(),
            final(self).case_sensitive() == old(self).case_sensitive(),
            ({
                let added = pattern@.len() > 0 && !pattern_in(old(self).patterns(), pattern@, old(self).mode());
                let entry = (pattern@, old(self).mode(), old(self).case_sensitive());
                &&& added ==> final(self).patterns() == old(self).patterns().push(
                    FilterSpec {
                        pattern: pattern@,
                        mode: old(self).mode(),
                        case_sensitive: old(self).case_sensitive(),
                        enabled: true,
                    },
                )
                &&& added ==> final(self).hist()@ == (if old(self).hist()@.contains(entry) {
                    old(self).hist()@
                } else {
                    old(self).hist()@.push(entry)
                })
                &&& added ==> final(self).hist().position() is None
                &&& !added ==> final(self).patterns() == old(self).patterns()
                &&& !added ==> final(self).hist() == old(self).hist()
            }),
    {
        if !pattern.is_empty() && !self.pattern_exists(pattern, self.filter_mode) {
            let new_filter = FilterPattern::new(
                pattern.to_owned(),
                self.filter_mode,
                self.case_sensitive,
                true,
            );
            let ghost nf = new_filter@;
            self.patterns.push(new_filter);
            proof {
                assert(self.patterns() =~= old(self).patterns().push(nf));
            }
            self.history.add(
                FilterHistoryEntry {
                    pattern: pattern.to_owned(),
                    mode: self.filter_mode,
                    case_sensitive: self.case_sensitive,
                },
            );
        }
    }

    /// Adds a copy of the given filter pattern unless one with the same text and mode
    /// already exists. A filter that is added is also recorded in the history.
    pub fn add_filter(&mut self, filter: &FilterPattern)
        requires
            old(self).hist().wf(),
        ensures
            final(self).hist().wf(),
            final(self).mode() == old(self).mode(),
            final(self).case_sensitive() == old(self).case_sensitive(),
            ({
                let added = !pattern_in(old(self).patterns(), filter.pattern@, filter.mode);
                let entry = (filter.pattern@, filter.mode, filter.case_sensitive);
                &&& added ==> final(self).patterns() == old(self).patterns().push(filter@)
                &&& added ==> final(self).hist()@ == (if old(self).hist()@.contains(entry) {
                    old(self).hist()@
                } else {
                    old(self).hist()@.push(entry)
                })
                &&& added ==> final(self).hist().position() is None
                &&& !added ==> final(self).patterns() == old(self).patterns()
                &&& !added ==> final(self).hist() == old(self).hist()
            }),
    {
        if !self.pattern_exists(filter.pattern.as_str(), filter.mode) {
            self.patterns.push(filter.duplicate());
            proof {
                assert(self.patterns() =~= old(self).patterns().push(filter@));
            }
            self.history.add(
                FilterHistoryEntry {
                    pattern: filter.pattern.clone(),
                    mode: filter.mode,
                    case_sensitive: filter.case_sensitive,
                },
            );
        }
    }

    /// Returns all filter patterns.
    pub fn get_filter_patterns(&self) -> (r: &[FilterPattern])
        ensures
            filter_specs(r@) == self.patterns(),
    {
        self.patterns.as_slice()
    }

    /// Returns the number of filter patterns.
    pub fn count(&self) -> (r: usize)
        ensures
            r == self.patterns().len(),
    {
        self.patterns.len()
    }

    /// Returns the pattern at the given index, if any.
    pub fn get_pattern(&self, index: usize) -> (r: Option<&FilterPattern>)
        ensures
            index < self.patterns().len() ==> (r matches Some(p) && p@ == self.patterns()[index as int]),
            index >= self.patterns().len() ==> r is None,
    {
        if index < self.patterns.len() {
            Some(&self.patterns[index])
        } else {
            None
        }
    }

    /// Toggles the enabled state of the pattern at the given index.
    pub fn toggle_pattern_enabled(&mut self, index: usize)
        ensures
            final(self).patterns() == toggled_enabled(old(self).patterns(), index as int),
            final(self).mode() == old(self).mode(),
            final(self).case_sensitive() == old(self).case_sensitive(),
            final(self).hist() == old(self).hist(),
    {
        if index < self.patterns.len() {
            let e = self.patterns[index].enabled;
            self.patterns[index].enabled = !e;
            proof {
                assert(self.patterns() =~= old(self).patterns().update(
                    index as int,
                    FilterSpec { enabled: !old(self).patterns()[index as int].enabled, ..old(self).patterns()[index as int] },
                ));
            }
        }
    }

    /// Disables all filter patterns.
    pub fn disable_all_patterns(&mut self)
        ensures
            final(self).patterns().len() == old(self).patterns().len(),
            forall|i: int|
                0 <= i < old(self).patterns().len() ==> #[trigger] final(self).patterns()[i]
                    == with_enabled(old(self).patterns()[i], false),
            final(self).mode() == old(self).mode(),
            final(self).case_sensitive() == old(self).case_sensitive(),
            final(self).hist() == old(self).hist(),
    {
        self.set_all_enabled(false);
    }

    fn set_all_enabled(&mut self, enabled: bool)
        ensures
            final(self).patterns().len() == old(self).patterns().len(),
            forall|i: int|
                0 <= i < old(self).patterns().len() ==> #[trigger] final(self).patterns()[i]
                    == with_enabled(old(self).patterns()[i], enabled),
            final(self).mode() == old(self).mode(),
            final(self).case_sensitive() == old(self).case_sensitive(),
            final(self).hist() == old(self).hist(),
    {
        let mut i: usize = 0;
        while i < self.patterns.len()
            invariant
                i <= self.patterns@.len(),
                self.patterns().len() == old(self).patterns().len(),
                forall|k: int|
                    0 <= k < i ==> #[trigger] self.patterns()[k] == with_enabled(old(self).patterns()[k], enabled),
                forall|k: int|
                    i <= k < self.patterns().len() ==> #[trigger] self.patterns()[k] == old(self).patterns()[k],
                self.mode() == old(self).mode(),
                self.case_sensitive() == old(self).case_sensitive(),
                self.hist() == old(self).hist(),
            decreases self.patterns@.len() - i,
        {
            let ghost prev = self.patterns();
            self.patterns[i].enabled = enabled;
            proof {
                assert(self.patterns() =~= prev.update(i as int, with_enabled(prev[i as int], enabled)));
            }
            i += 1;
        }
    }

    /// Toggles all patterns: if every pattern is enabled all are disabled, otherwise all
    /// are enabled. Nothing happens when there are no patterns.
    pub fn toggle_all_patterns_enabled(&mut self)
        ensures
            final(self).patterns().len() == old(self).patterns().len(),
            ({
                let all_enabled = forall|k: int| 0 <= k < old(self).patterns().len() ==> #[trigger] old(self).patterns()[k].enabled;
                forall|i: int|
                    0 <= i < old(self).patterns().len() ==> #[trigger] final(self).patterns()[i]
                        == with_enabled(old(self).patterns()[i], !all_enabled)
            }),
            final(self).mode() == old(self).mode(),
            final(self).case_sensitive() == old(self).case_sensitive(),
            final(self).hist() == old(self).hist(),
    {
        if self.patterns.len() == 0 {
            return;
        }
        let ghost fs = self.patterns();
        let mut all_enabled = true;
        let mut i: usize = 0;
        while i < self.patterns.len()
            invariant
                fs == self.patterns(),
                i <= self.patterns@.len(),
                all_enabled == forall|k: int| 0 <= k < i ==> #[trigger] fs[k].enabled,
            decreases self.patterns@.len() - i,
        {
            assert(fs[i as int] == self.patterns@[i as int]@);
            if !self.patterns[i].enabled {
                all_enabled = false;
            }
            proof {
                if all_enabled {
                    assert forall|k: int| 0 <= k < i + 1 implies #[trigger] fs[k].enabled by {
                        if k < i {
                        }
                    }
                } else if !fs[i as int].enabled {
                    assert(!(forall|k: int| 0 <= k < i + 1 ==> #[trigger] fs[k].enabled));
                } else {
                    let w = choose|k: int| 0 <= k < i && !#[trigger] fs[k].enabled;
                    assert(!(forall|k: int| 0 <= k < i + 1 ==> #[trigger] fs[k].enabled));
                }
            }
            i += 1;
        }
        self.set_all_enabled(!all_enabled);
    }

    /// Removes the pattern at the given index, if there is one.
    pub fn remove_pattern(&mut self, index: usize)
        ensures
            index < old(self).patterns().len() ==> final(self).patterns() == old(self).patterns().remove(index as int),
            index >= old(self).patterns().len() ==> final(self).patterns() == old(self).patterns(),
            final(self).mode() == old(self).mode(),
            final(self).case_sensitive() == old(self).case_sensitive(),
            final(self).hist() == old(self).hist(),
    {
        if index < self.patterns.len() {
            self.patterns.remove(index);
            proof {
                assert(self.patterns() =~= old(self).patterns().remove(index as int));
            }
        }
    }

    /// Toggles case sensitivity for the pattern at the given index.
    pub fn toggle_pattern_case_sensitivity(&mut self, index: usize)
        ensures
            index < old(self).patterns().len() ==> final(self).patterns() == old(self).patterns().update(
                index as int,
                FilterSpec { case_sensitive: !old(self).patterns()[index as int].case_sensitive, ..old(self).patterns()[index as int] },
            ),
            index >= old(self).patterns().len() ==> final(self).patterns() == old(self).patterns(),
            final(self).mode() == old(self).mode(),
            final(self).case_sensitive() == old(self).case_sensitive(),
            final(self).hist() == old(self).hist(),
    {
        if index < self.patterns.len() {
            let c = self.patterns[index].case_sensitive;
            self.patterns[index].case_sensitive = !c;
            proof {
                assert(self.patterns() =~= old(self).patterns().update(
                    index as int,
                    FilterSpec { case_sensitive: !old(self).patterns()[index as int].case_sensitive, ..old(self).patterns()[index as int] },
                ));
            }
        }
    }

    /// Toggles the mode (Include/Exclude) of the pattern at the given index.
    pub fn toggle_pattern_mode(&mut self, index: usize)
        ensures
            index < old(self).patterns().len() ==> final(self).patterns() == old(self).patterns().update(
                index as int,
                FilterSpec { mode: flipped_mode(old(self).patterns()[index as int].mode), ..old(self).patterns()[index as int] },
            ),
            index >= old(self).patterns().len() ==> final(self).patterns() == old(self).patterns(),
            final(self).mode() == old(self).mode(),
            final(self).case_sensitive() == old(self).case_sensitive(),
            final(self).hist() == old(self).hist(),
    {
        if index < self.patterns.len() {
            let m = flip_mode(self.patterns[index].mode);
            self.patterns[index].mode = m;
            proof {
                assert(self.patterns() =~= old(self).patterns().update(
                    index as int,
                    FilterSpec { mode: flipped_mode(old(self).patterns()[index as int].mode), ..old(self).patterns()[index as int] },
                ));
            }
        }
    }

    /// Replaces the text of the pattern at the given index, unless another pattern with
    /// the same mode already has that text. Returns whether the pattern was updated.
    pub fn update_pattern(&mut self, index: usize, new_pattern: &str) -> (r: bool)
        ensures
            r == (index < old(self).patterns().len() && !(exists|k: int|
                0 <= k < old(self).patterns().len() && k != index && (#[trigger] old(self).patterns()[k]).pattern
                    == new_pattern@ && old(self).patterns()[k].mode == old(self).patterns()[index as int].mode)),
            r ==> final(self).patterns() == old(self).patterns().update(
                index as int,
                FilterSpec { pattern: new_pattern@, ..old(self).patterns()[index as int] },
            ),
            !r ==> final(self).patterns() == old(self).patterns(),
            final(self).mode() == old(self).mode(),
            final(self).case_sensitive() == old(self).case_sensitive(),
            final(self).hist() == old(self).hist(),
    {
        if index >= self.patterns.len() {
            return false;
        }
        let ghost fs = self.patterns();
        let selected_mode = self.patterns[index].mode;
        let mut i: usize = 0;
        while i < self.patterns.len()
            invariant
                fs == self.patterns(),
                index < fs.len(),
                selected_mode == fs[index as int].mode,
                i <= self.patterns@.len(),
                forall|k: int|
                    0 <= k < i && k != index ==> !((#[trigger] fs[k]).pattern == new_pattern@ && fs[k].mode
                        == selected_mode),
            decreases self.patterns@.len() - i,
        {
            assert(fs[i as int] == self.patterns@[i as int]@);
            if i != index && self.patterns[i].mode == selected_mode && str_eq(
                self.patterns[i].pattern.as_str(),
                new_pattern,
            ) {
                return false;
            }
            i += 1;
        }
        self.patterns[index].pattern = new_pattern.to_owned();
        proof {
            assert(self.patterns() =~= old(self).patterns().update(
                index as int,
                FilterSpec { pattern: new_pattern@, ..old(self).patterns()[index as int] },
            ));
        }
        true
    }

    /// Checks if content passes the filter patterns.
    pub fn apply_filters(&self, content: &str) -> (r: bool)
        ensures
            r == passes_filters(content@, self.patterns()),
    {
        apply_filters(content, self.patterns.as_slice())
    }

    /// Checks if a pattern exists with the given mode.
    fn pattern_exists(&self, pattern: &str, mode: ActiveFilterMode) -> (r: bool)
        ensures
            r == pattern_in(self.patterns(), pattern@, mode),
    {
        let ghost fs = self.patterns();
        let mut i: usize = 0;
        while i < self.patterns.len()
            invariant
                fs == self.patterns(),
                i <= self.patterns@.len(),
                forall|k: int| 0 <= k < i ==> !((#[trigger] fs[k]).pattern == pattern@ && fs[k].mode == mode),
            decreases self.patterns@.len() - i,
        {
            let fp = &self.patterns[i];
            assert(fs[i as int] == fp@);
            if fp.mode == mode && str_eq(fp.pattern.as_str(), pattern) {
                return true;
            }
            i += 1;
        }
        false
    }
}

} // verus!

verus! {

/// Rule that applies text filtering; lines in `always_visible` are shown regardless.
pub struct FilterRule {
    patterns: Vec<FilterPattern>,
    always_visible: HashSet<usize>,
}

impl FilterRule {
    /// A rule for the given filters and always-visible line indices.
    pub fn new(patterns: Vec<FilterPattern>, always_visible: HashSet<usize>) -> (r: Self)
        ensures
            r.filters() == filter_specs(patterns@),
            r.pinned() == always_visible@,
    {
        Self { patterns, always_visible }
    }

    /// The filters the rule applies.
    pub closed spec fn filters(&self) -> Seq<FilterSpec> {
        filter_specs(self.patterns@)
    }

    /// The line indices that are shown whatever the filters say.
    pub closed spec fn pinned(&self) -> Set<usize> {
        self.always_visible@
    }
}

impl VisibilityRule for FilterRule {
    open spec fn accepts(&self, line: LogLine) -> bool {
        self.pinned().contains(line.index) || passes_filters(line.content@, self.filters())
    }

    fn is_visible(&self, line: &LogLine) -> (r: bool) {
        if self.always_visible.contains(&line.index) {
            return true;
        }
        apply_filters(line.content(), self.patterns.as_slice())
    }
}

} // verus!
