//! Event patterns, the events they find in log lines, and per-pattern statistics.
use vstd::prelude::*;
use std::collections::HashSet;
use vstd::string::{StringExecFns, StringSliceAdditionalSpecFns};
use vstd::utf8::{decode_utf8, is_char_boundary};
use crate::log::{LogBuffer, LogLine};
use crate::matcher::{matcher_matches, PatternMatcher, PlainMatch};
use crate::sorting::{lemma_sort_stable_props, sort_pairs, sort_stable};
use crate::utils::{str_eq, utf8};

verus! {

broadcast use vstd::std_specs::hash::group_hash_axioms;

/// A log event occurrence.
#[derive(Debug, Clone)]
pub struct LogEvent {
    /// Name of the event that matched.
    pub name: String,
    /// Line number where the event occurred.
    pub line_index: usize,
}

/// An event pattern for matching and tracking.
#[derive(Debug)]
pub struct EventPattern {
    pub name: String,
    pub matcher: PatternMatcher,
    pub enabled: bool,
    pub count: usize,
    /// Whether this event is critical (shown with special indicators).
    pub critical: bool,
    /// Whether this is a custom event.
    pub is_custom: bool,
}

/// Name, enabled state and count of one event pattern.
#[derive(Debug)]
pub struct EventState {
    pub name: String,
    pub enabled: bool,
    pub count: usize,
}

/// Manages log event tracking and scanning.
#[derive(Debug)]
pub struct LogEventTracker {
    /// Event patterns
    patterns: Vec<EventPattern>,
    /// All events, sorted by line_index.
    events: Vec<LogEvent>,
    /// Whether to show marks in the events view
    pub show_marks: bool,
}

/// One of the flags of an event pattern.
#[derive(Debug, Clone, Copy, PartialEq, Eq, Structural)]
pub enum PatternFlag {
    Enabled,
    Critical,
    Custom,
}

/// The flag `f` of pattern `p`.
pub open spec fn flag_of(p: EventPattern, f: PatternFlag) -> bool {
    match f {
        PatternFlag::Enabled => p.enabled,
        PatternFlag::Critical => p.critical,
        PatternFlag::Custom => p.is_custom,
    }
}

/// Some pattern named `name` has the flag `f`.
pub open spec fn named_with_flag(ps: Seq<EventPattern>, name: Seq<char>, f: PatternFlag) -> bool {
    exists|i: int| 0 <= i < ps.len() && #[trigger] ps[i].name@ == name && flag_of(ps[i], f)
}

/// The first pattern at or after position `k` whose matcher matches the text.
pub open spec fn first_match_from(ps: Seq<EventPattern>, text: Seq<char>, k: nat) -> Option<int>
    decreases ps.len() - k,
{
    if k >= ps.len() {
        None
    } else if matcher_matches(ps[k as int].matcher, text) {
        Some(k as int)
    } else {
        first_match_from(ps, text, k + 1)
    }
}

/// The first pattern whose matcher matches the text.
pub open spec fn first_match(ps: Seq<EventPattern>, text: Seq<char>) -> Option<int> {
    first_match_from(ps, text, 0)
}

/// The first pattern at or after position `k` with the given name.
pub open spec fn first_named_from(ps: Seq<EventPattern>, name: Seq<char>, k: nat) -> Option<int>
    decreases ps.len() - k,
{
    if k >= ps.len() {
        None
    } else if ps[k as int].name@ == name {
        Some(k as int)
    } else {
        first_named_from(ps, name, k + 1)
    }
}

/// The first pattern with the given name.
pub open spec fn first_named(ps: Seq<EventPattern>, name: Seq<char>) -> Option<int> {
    first_named_from(ps, name, 0)
}

/// An event as its name and line index.
pub open spec fn event_view(e: LogEvent) -> (Seq<char>, usize) {
    (e.name@, e.line_index)
}

/// Events as names and line indices.
pub open spec fn events_view(evs: Seq<LogEvent>) -> Seq<(Seq<char>, usize)> {
    evs.map_values(|e: LogEvent| event_view(e))
}

/// The events found in lines, in line order: one for each line that some pattern matches,
/// named after the first such pattern.
pub open spec fn raw_events(ps: Seq<EventPattern>, lines: Seq<LogLine>) -> Seq<(Seq<char>, usize)>
    decreases lines.len(),
{
    if lines.len() == 0 {
        Seq::empty()
    } else {
        let rest = raw_events(ps, lines.drop_last());
        match first_match(ps, lines.last().content@) {
            Some(j) => rest.push((ps[j].name@, lines.last().index)),
            None => rest,
        }
    }
}

/// Each raw event as its line index and its position.
pub open spec fn event_keys(raw: Seq<(Seq<char>, usize)>) -> Seq<(usize, usize)> {
    Seq::new(raw.len(), |i: int| (raw[i].1, i as usize))
}

/// The events found in lines, stably sorted by line index.
pub open spec fn scanned_events(ps: Seq<EventPattern>, lines: Seq<LogLine>) -> Seq<(Seq<char>, usize)> {
    let raw = raw_events(ps, lines);
    let order = sort_stable(event_keys(raw), false);
    Seq::new(order.len(), |i: int| raw[order[i].1 as int])
}

/// How many of the events are counted for the pattern at position `i`: those whose name
/// is first found there.
pub open spec fn tally(ps: Seq<EventPattern>, evs: Seq<(Seq<char>, usize)>, i: int) -> nat
    decreases evs.len(),
{
    if evs.len() == 0 {
        0
    } else {
        tally(ps, evs.drop_last(), i) + if first_named(ps, evs.last().0) == Some(i) {
            1nat
        } else {
            0nat
        }
    }
}

/// How many of the events have the given name.
pub open spec fn count_named(evs: Seq<(Seq<char>, usize)>, name: Seq<char>) -> nat
    decreases evs.len(),
{
    if evs.len() == 0 {
        0
    } else {
        count_named(evs.drop_last(), name) + if evs.last().0 == name {
            1nat
        } else {
            0nat
        }
    }
}

/// A pattern with another count.
pub open spec fn with_count(p: EventPattern, c: usize) -> EventPattern {
    EventPattern { count: c, ..p }
}

/// A pattern with another enabled state.
pub open spec fn with_enabled(p: EventPattern, e: bool) -> EventPattern {
    EventPattern { enabled: e, ..p }
}

/// The patterns with the first one of the name switched on or off.
pub open spec fn toggled_event(ps: Seq<EventPattern>, name: Seq<char>) -> Seq<EventPattern> {
    match first_named(ps, name) {
        Some(k) => ps.update(k, with_enabled(ps[k], !ps[k].enabled)),
        None => ps,
    }
}

/// Switching the event of a name twice leaves the patterns as they were.
pub proof fn lemma_toggle_event_twice(ps: Seq<EventPattern>, name: Seq<char>)
    ensures
        toggled_event(toggled_event(ps, name), name) == ps,
{
    let once = toggled_event(ps, name);
    lemma_first_named_from(ps, name, 0);
    assert(once.len() == ps.len());
    assert forall|i: int| 0 <= i < ps.len() implies #[trigger] ps[i].name == once[i].name by {}
    lemma_first_named_same(ps, once, name, 0);
    assert(toggled_event(once, name) =~= ps);
}

/// The pattern whose count a new event of the text increases: the first one named like
/// the first pattern that matches.
pub open spec fn bumped(ps: Seq<EventPattern>, text: Seq<char>) -> Option<int> {
    match first_match(ps, text) {
        Some(j) => first_named(ps, ps[j].name@),
        None => None,
    }
}

/// The events that some pattern with their name flags with `f`, in order.
pub open spec fn flagged_events(ps: Seq<EventPattern>, evs: Seq<LogEvent>, f: PatternFlag) -> Seq<LogEvent>
    decreases evs.len(),
{
    if evs.len() == 0 {
        Seq::empty()
    } else {
        let rest = flagged_events(ps, evs.drop_last(), f);
        if named_with_flag(ps, evs.last().name@, f) {
            rest.push(evs.last())
        } else {
            rest
        }
    }
}

/// Each `(name, enabled)` entry with its name as text.
pub open spec fn state_texts(states: Seq<(String, bool)>) -> Seq<(Seq<char>, bool)> {
    states.map_values(|e: (String, bool)| (e.0@, e.1))
}

/// The patterns after each `(name, enabled)` entry in turn set the enabled state of the
/// first pattern so named.
pub open spec fn restored(ps: Seq<EventPattern>, states: Seq<(Seq<char>, bool)>) -> Seq<EventPattern>
    decreases states.len(),
{
    if states.len() == 0 {
        ps
    } else {
        let prev = restored(ps, states.drop_last());
        match first_named(prev, states.last().0) {
            Some(k) => prev.update(k, with_enabled(prev[k], states.last().1)),
            None => prev,
        }
    }
}

/// A plain-text pattern equal to `text` is among the patterns.
pub open spec fn has_plain_pattern(ps: Seq<EventPattern>, text: Seq<char>) -> bool {
    exists|i: int|
        0 <= i < ps.len() && (#[trigger] ps[i].matcher matches PatternMatcher::Plain(m) && m.pattern@ == text)
}

/// The name given to a custom event: its pattern, cut to its first 13 bytes followed by
/// "..." when it is longer than 16 bytes.
pub open spec fn custom_event_name(pattern: Seq<char>) -> Seq<char> {
    if utf8(pattern).len() > 16 {
        decode_utf8(utf8(pattern).subrange(0, 13)) + seq!['.', '.', '.']
    } else {
        pattern
    }
}

/// The texts of the plain-text custom patterns, in order.
pub open spec fn custom_patterns(ps: Seq<EventPattern>) -> Seq<Seq<char>>
    decreases ps.len(),
{
    if ps.len() == 0 {
        Seq::empty()
    } else {
        let rest = custom_patterns(ps.drop_last());
        match ps.last().matcher {
            PatternMatcher::Plain(m) => if ps.last().is_custom {
                rest.push(m.pattern@)
            } else {
                rest
            },
            PatternMatcher::Regex(_) => rest,
        }
    }
}

/// The first custom pattern with the given name.
pub open spec fn first_custom_named(ps: Seq<EventPattern>, name: Seq<char>, k: nat) -> Option<int>
    decreases ps.len() - k,
{
    if k >= ps.len() {
        None
    } else if ps[k as int].is_custom && ps[k as int].name@ == name {
        Some(k as int)
    } else {
        first_custom_named(ps, name, k + 1)
    }
}

/// The patterns that remain when the custom ones with the given name are removed.
pub open spec fn without_custom(ps: Seq<EventPattern>, name: Seq<char>) -> Seq<EventPattern>
    decreases ps.len(),
{
    if ps.len() == 0 {
        Seq::empty()
    } else {
        let rest = without_custom(ps.drop_last(), name);
        if ps.last().is_custom && ps.last().name@ == name {
            rest
        } else {
            rest.push(ps.last())
        }
    }
}

/// The events that remain when those with the given name are removed.
pub open spec fn without_named(evs: Seq<LogEvent>, name: Seq<char>) -> Seq<LogEvent>
    decreases evs.len(),
{
    if evs.len() == 0 {
        Seq::empty()
    } else {
        let rest = without_named(evs.drop_last(), name);
        if evs.last().name@ == name {
            rest
        } else {
            rest.push(evs.last())
        }
    }
}

/// Each pattern's count and position, the key the statistics are ordered by.
pub open spec fn count_keys(ps: Seq<EventPattern>) -> Seq<(usize, usize)> {
    Seq::new(ps.len(), |i: int| (ps[i].count, i as usize))
}

/// The order of the patterns in the statistics: by count, highest first, ties in pattern
/// order.
pub open spec fn stats_order(ps: Seq<EventPattern>) -> Seq<(usize, usize)> {
    sort_stable(count_keys(ps), true)
}

proof fn lemma_tally_le(ps: Seq<EventPattern>, evs: Seq<(Seq<char>, usize)>, i: int)
    ensures
        tally(ps, evs, i) <= evs.len(),
    decreases evs.len(),
{
    if evs.len() > 0 {
        lemma_tally_le(ps, evs.drop_last(), i);
    }
}

proof fn lemma_first_named_from(ps: Seq<EventPattern>, name: Seq<char>, k: nat)
    ensures
        first_named_from(ps, name, k) matches Some(j) ==> k <= j < ps.len() && ps[j].name@ == name,
        first_named_from(ps, name, k) is None ==> forall|j: int| k <= j < ps.len() ==> ps[j].name@ != name,
        forall|j: int| k <= j < ps.len() && ps[j].name@ == name ==> first_named_from(ps, name, k) is Some,
    decreases ps.len() - k,
{
    if k < ps.len() {
        lemma_first_named_from(ps, name, k + 1);
    }
}

proof fn lemma_first_match_from(ps: Seq<EventPattern>, text: Seq<char>, k: nat)
    ensures
        first_match_from(ps, text, k) matches Some(j) ==> k <= j < ps.len(),
        first_match_from(ps, text, k) matches Some(j) ==> matcher_matches(ps[j].matcher, text) && forall|i: int|
            k <= i < j ==> !matcher_matches(#[trigger] ps[i].matcher, text),
        first_match_from(ps, text, k) is None ==> forall|i: int|
            k <= i < ps.len() ==> !matcher_matches(#[trigger] ps[i].matcher, text),
    decreases ps.len() - k,
{
    if k < ps.len() {
        lemma_first_match_from(ps, text, k + 1);
    }
}

/// A line's event is named after a pattern that matches the line and that no earlier
/// pattern matching it precedes; a line no pattern matches has no event.
pub proof fn law_first_matching_pattern(ps: Seq<EventPattern>, text: Seq<char>)
    ensures
        match first_match(ps, text) {
            Some(j) => 0 <= j < ps.len() && matcher_matches(ps[j].matcher, text) && forall|i: int|
                0 <= i < j ==> !matcher_matches(#[trigger] ps[i].matcher, text),
            None => forall|i: int| 0 <= i < ps.len() ==> !matcher_matches(#[trigger] ps[i].matcher, text),
        },
{
    lemma_first_match_from(ps, text, 0);
}

/// After a scan, the count of the first pattern with a name is the number of events with
/// that name.
pub proof fn lemma_tally_counts_name(ps: Seq<EventPattern>, evs: Seq<(Seq<char>, usize)>, name: Seq<char>)
    requires
        first_named(ps, name) is Some,
    ensures
        tally(ps, evs, first_named(ps, name)->0) == count_named(evs, name),
    decreases evs.len(),
{
    lemma_first_named_from(ps, name, 0);
    if evs.len() > 0 {
        lemma_tally_counts_name(ps, evs.drop_last(), name);
        let k = first_named(ps, name)->0;
        let other = evs.last().0;
        lemma_first_named_from(ps, other, 0);
        if first_named(ps, other) == Some(k) {
            assert(ps[k].name@ == other);
        }
    }
}

proof fn lemma_raw_len(ps: Seq<EventPattern>, lines: Seq<LogLine>)
    ensures
        raw_events(ps, lines).len() <= lines.len(),
    decreases lines.len(),
{
    if lines.len() > 0 {
        lemma_raw_len(ps, lines.drop_last());
    }
}

proof fn lemma_order_in_range(raw: Seq<(Seq<char>, usize)>, k: int)
    requires
        0 <= k < sort_stable(event_keys(raw), false).len(),
        raw.len() <= usize::MAX,
    ensures
        sort_stable(event_keys(raw), false)[k].1 < raw.len(),
        sort_stable(event_keys(raw), false)[k].0 == raw[sort_stable(event_keys(raw), false)[k].1 as int].1,
{
    broadcast use vstd::seq_lib::group_to_multiset_ensures;
    let keys = event_keys(raw);
    let order = sort_stable(keys, false);
    lemma_sort_stable_props(keys, false);
    assert(order.to_multiset().count(order[k]) > 0);
    assert(keys.contains(order[k]));
    let t = choose|t: int| 0 <= t < keys.len() && keys[t] == order[k];
    assert(keys[t] == (raw[t].1, t as usize));
}

/// The events of a scan are ordered by line index.
pub proof fn lemma_scanned_events_sorted(ps: Seq<EventPattern>, lines: Seq<LogLine>)
    requires
        lines.len() <= usize::MAX,
    ensures
        forall|i: int, j: int|
            0 <= i < j < scanned_events(ps, lines).len() ==> #[trigger] scanned_events(ps, lines)[i].1
                <= #[trigger] scanned_events(ps, lines)[j].1,
{
    let raw = raw_events(ps, lines);
    let order = sort_stable(event_keys(raw), false);
    lemma_sort_stable_props(event_keys(raw), false);
    lemma_raw_len(ps, lines);
    assert forall|i: int, j: int|
        0 <= i < j < scanned_events(ps, lines).len() implies #[trigger] scanned_events(ps, lines)[i].1
            <= #[trigger] scanned_events(ps, lines)[j].1 by {
        lemma_order_in_range(raw, i);
        lemma_order_in_range(raw, j);
        assert(order[i].0 <= order[j].0);
    }
}

impl Default for LogEventTracker {
    fn default() -> (r: Self)
        ensures
            r.patterns() == Seq::<EventPattern>::empty(),
            r.events() == Seq::<LogEvent>::empty(),
            !r.marks_shown(),
    {
        LogEventTracker { patterns: Vec::new(), events: Vec::new(), show_marks: false }
    }
}

impl LogEventTracker {
    /// The event patterns, in order.
    pub closed spec fn patterns(&self) -> Seq<EventPattern> {
        self.patterns@
    }

    /// Whether marks are shown in the events view.
    pub closed spec fn marks_shown(&self) -> bool {
        self.show_marks
    }

    /// The events found, in order.
    pub closed spec fn events(&self) -> Seq<LogEvent> {
        self.events@
    }

    /// Creates a new log event tracker with the given patterns and no events.
    pub fn new(patterns: Vec<EventPattern>) -> (r: Self)
        ensures
            r.patterns() == patterns@,
            r.events() == Seq::<LogEvent>::empty(),
            !r.marks_shown(),
    {
        LogEventTracker { patterns, events: Vec::new(), show_marks: false }
    }

    fn find_match(&self, text: &str) -> (r: Option<usize>)
        ensures
            r matches Some(j) ==> first_match(self.patterns(), text@) == Some(j as int) && j < self.patterns().len(),
            r is None ==> first_match(self.patterns(), text@) is None,
    {
        let mut k: usize = 0;
        while k < self.patterns.len()
            invariant
                k <= self.patterns@.len(),
                first_match(self.patterns(), text@) == first_match_from(self.patterns(), text@, k as nat),
            decreases self.patterns@.len() - k,
        {
            if self.patterns[k].matcher.matches(text) {
                return Some(k);
            }
            k += 1;
        }
        None
    }

    fn find_named(&self, name: &str) -> (r: Option<usize>)
        ensures
            r matches Some(j) ==> first_named(self.patterns(), name@) == Some(j as int) && j < self.patterns().len(),
            r is None ==> first_named(self.patterns(), name@) is None,
    {
        let mut k: usize = 0;
        while k < self.patterns.len()
            invariant
                k <= self.patterns@.len(),
                first_named(self.patterns(), name@) == first_named_from(self.patterns(), name@, k as nat),
            decreases self.patterns@.len() - k,
        {
            if str_eq(self.patterns[k].name.as_str(), name) {
                return Some(k);
            }
            k += 1;
        }
        None
    }

    fn has_named_with(&self, name: &str, f: PatternFlag) -> (r: bool)
        ensures
            r == named_with_flag(self.patterns(), name@, f),
    {
        let mut k: usize = 0;
        while k < self.patterns.len()
            invariant
                k <= self.patterns@.len(),
                forall|i: int| 0 <= i < k ==> !(#[trigger] self.patterns()[i].name@ == name@ && flag_of(self.patterns()[i], f)),
            decreases self.patterns@.len() - k,
        {
            let p = &self.patterns[k];
            let flag = match f {
                PatternFlag::Enabled => p.enabled,
                PatternFlag::Critical => p.critical,
                PatternFlag::Custom => p.is_custom,
            };
            if flag && str_eq(p.name.as_str(), name) {
                return true;
            }
            k += 1;
        }
        false
    }

    /// Finds the events in the lines, sorted by line index.
    fn scan_lines(&self, lines: &[LogLine]) -> (r: Vec<LogEvent>)
        ensures
            events_view(r@) == scanned_events(self.patterns(), lines@),
    {
        let ghost ps = self.patterns();
        let mut raw: Vec<LogEvent> = Vec::new();
        let mut keys: Vec<(usize, usize)> = Vec::new();
        let mut i: usize = 0;
        while i < lines.len()
            invariant
                i <= lines@.len(),
                ps == self.patterns(),
                events_view(raw@) == raw_events(ps, lines@.take(i as int)),
                keys@ == event_keys(raw_events(ps, lines@.take(i as int))),
                raw@.len() <= i,
            decreases lines@.len() - i,
        {
            let line = &lines[i];
            let found = self.find_match(line.content());
            proof {
                assert(lines@.take(i + 1).drop_last() =~= lines@.take(i as int));
            }
            match found {
                Some(j) => {
                    let name = self.patterns[j].name.clone();
                    let ghost before = raw@;
                    keys.push((line.index, raw.len()));
                    raw.push(LogEvent { name, line_index: line.index });
                    proof {
                        assert(events_view(raw@) =~= events_view(before).push((ps[j as int].name@, line.index)));
                        assert(keys@ =~= event_keys(raw_events(ps, lines@.take(i + 1))));
                    }
                },
                None => {},
            }
            i += 1;
        }
        proof {
            assert(lines@.take(i as int) =~= lines@);
        }
        let ghost rv = raw_events(ps, lines@);
        let order = sort_pairs(keys, false);
        proof {
            lemma_sort_stable_props(event_keys(rv), false);
            lemma_raw_len(ps, lines@);
        }
        let mut out: Vec<LogEvent> = Vec::new();
        let mut k: usize = 0;
        while k < order.len()
            invariant
                k <= order@.len(),
                order@ == sort_stable(event_keys(rv), false),
                events_view(raw@) == rv,
                rv.len() <= usize::MAX,
                out@.len() == k,
                events_view(out@) == Seq::new(k as nat, |t: int| rv[order@[t].1 as int]),
            decreases order@.len() - k,
        {
            proof {
                lemma_order_in_range(rv, k as int);
            }
            let idx = order[k].1;
            let e = &raw[idx];
            let ghost before = out@;
            out.push(LogEvent { name: e.name.clone(), line_index: e.line_index });
            proof {
                assert(events_view(raw@)[idx as int] == event_view(raw@[idx as int]));
                assert forall|t: int| 0 <= t < k + 1 implies #[trigger] events_view(out@)[t] == rv[order@[t].1 as int] by {
                    if t < k {
                        assert(out@[t] == before[t]);
                        assert(events_view(before)[t] == event_view(before[t]));
                    }
                }
                assert(events_view(out@) =~= Seq::new((k + 1) as nat, |t: int| rv[order@[t].1 as int]));
            }
            k += 1;
        }
        proof {
            assert(events_view(out@) =~= scanned_events(ps, lines@));
        }
        out
    }

    /// Scans all log lines for events, replacing the events found before and recounting
    /// each pattern.
    pub fn scan_all_lines(&mut self, log_buffer: &LogBuffer)
        ensures
            events_view(final(self).events()) == scanned_events(old(self).patterns(), log_buffer.lines()),
            final(self).patterns().len() == old(self).patterns().len(),
            forall|i: int|
                0 <= i < old(self).patterns().len() ==> #[trigger] final(self).patterns()[i] == with_count(
                    old(self).patterns()[i],
                    tally(old(self).patterns(), events_view(final(self).events()), i) as usize,
                ),
            final(self).marks_shown() == old(self).marks_shown(),
    {
        let ghost ps = self.patterns();
        let lines = log_buffer.all_lines();
        let evs = self.scan_lines(lines);
        self.events = evs;
        self.reset_event_counts();
        let ghost ev = events_view(self.events@);
        let mut k: usize = 0;
        while k < self.events.len()
            invariant
                k <= self.events@.len(),
                ev == events_view(self.events@),
                ev.len() == self.events@.len(),
                self.show_marks == old(self).show_marks,
                self.patterns().len() == ps.len(),
                forall|i: int|
                    0 <= i < ps.len() ==> #[trigger] self.patterns()[i] == with_count(
                        ps[i],
                        tally(ps, ev.take(k as int), i) as usize,
                    ),
                forall|i: int| 0 <= i < ps.len() ==> #[trigger] tally(ps, ev.take(k as int), i) <= k,
            decreases self.events@.len() - k,
        {
            let found = self.find_named(self.events[k].name.as_str());
            proof {
                assert(ev.take(k + 1).drop_last() =~= ev.take(k as int));
                assert(ev[k as int] == event_view(self.events@[k as int]));
                assert forall|i: int| 0 <= i < ps.len() implies #[trigger] tally(ps, ev.take(k + 1), i) <= k + 1 by {
                    lemma_tally_le(ps, ev.take(k + 1), i);
                }
                assert(forall|i: int| 0 <= i < ps.len() ==> #[trigger] self.patterns()[i].name == ps[i].name);
                assert(self.patterns().map_values(|p: EventPattern| p.name@) =~= ps.map_values(|p: EventPattern| p.name@));
                lemma_first_named_same(self.patterns(), ps, ev[k as int].0, 0);
            }
            match found {
                Some(j) => {
                    let c = self.patterns[j].count;
                    proof {
                        assert(tally(ps, ev.take(k as int), j as int) <= k);
                    }
                    self.patterns[j].count = c + 1;
                },
                None => {},
            }
            proof {
                assert forall|i: int|
                    0 <= i < ps.len() implies #[trigger] self.patterns()[i] == with_count(
                        ps[i],
                        tally(ps, ev.take(k + 1), i) as usize,
                    ) by {
                }
            }
            k += 1;
        }
        proof {
            assert(ev.take(k as int) =~= ev);
        }
    }

    /// Checks a single line for an event and adds it if there is one.
    ///
    /// Returns true if an event was added whose pattern is enabled, so that it should be
    /// selected in the events list.
    pub fn scan_single_line(&mut self, log_line: &LogLine) -> (r: bool)
        requires
            bumped(old(self).patterns(), log_line.content@) matches Some(k) ==> old(self).patterns()[k].count
                < usize::MAX,
        ensures
            r == (bumped(old(self).patterns(), log_line.content@) matches Some(k) && old(self).patterns()[k].enabled),
            final(self).patterns() == match bumped(old(self).patterns(), log_line.content@) {
                Some(k) => old(self).patterns().update(
                    k,
                    with_count(old(self).patterns()[k], (old(self).patterns()[k].count + 1) as usize),
                ),
                None => old(self).patterns(),
            },
            events_view(final(self).events()) == match first_match(old(self).patterns(), log_line.content@) {
                Some(j) => events_view(old(self).events()).push((old(self).patterns()[j].name@, log_line.index)),
                None => events_view(old(self).events()),
            },
            final(self).marks_shown() == old(self).marks_shown(),
    {
        let found = self.find_match(log_line.content());
        match found {
            None => false,
            Some(j) => {
                let name = self.patterns[j].name.clone();
                let target = self.find_named(name.as_str());
                let mut should_select = false;
                match target {
                    Some(t) => {
                        let c = self.patterns[t].count;
                        self.patterns[t].count = c + 1;
                        if self.patterns[t].enabled {
                            should_select = true;
                        }
                        proof {
                            assert(self.patterns() =~= old(self).patterns().update(
                                t as int,
                                with_count(old(self).patterns()[t as int], (c + 1) as usize),
                            ));
                        }
                    },
                    None => {},
                }
                let ghost before = self.events@;
                self.events.push(LogEvent { name, line_index: log_line.index });
                proof {
                    assert(events_view(self.events@) =~= events_view(before).push(
                        (old(self).patterns()[j as int].name@, log_line.index),
                    ));
                }
                should_select
            },
        }
    }

    fn reset_event_counts(&mut self)
        ensures
            final(self).patterns().len() == old(self).patterns().len(),
            forall|i: int|
                0 <= i < old(self).patterns().len() ==> #[trigger] final(self).patterns()[i] == with_count(
                    old(self).patterns()[i],
                    0,
                ),
            final(self).events() == old(self).events(),
            final(self).marks_shown() == old(self).marks_shown(),
    {
        let mut i: usize = 0;
        while i < self.patterns.len()
            invariant
                i <= self.patterns@.len(),
                self.patterns().len() == old(self).patterns().len(),
                forall|k: int| 0 <= k < i ==> #[trigger] self.patterns()[k] == with_count(old(self).patterns()[k], 0),
                forall|k: int| i <= k < self.patterns().len() ==> #[trigger] self.patterns()[k] == old(self).patterns()[k],
                self.events() == old(self).events(),
                self.show_marks == old(self).marks_shown(),
            decreases self.patterns@.len() - i,
        {
            self.patterns[i].count = 0;
            i += 1;
        }
    }

    /// Returns all log events.
    pub fn get_events(&self) -> (r: &[LogEvent])
        ensures
            r@ == self.events(),
    {
        self.events.as_slice()
    }

    fn events_with_flag(&self, f: PatternFlag) -> (r: Vec<&LogEvent>)
        ensures
            r@.len() == flagged_events(self.patterns(), self.events(), f).len(),
            forall|i: int| 0 <= i < r@.len() ==> *r@[i] == flagged_events(self.patterns(), self.events(), f)[i],
    {
        let mut out: Vec<&LogEvent> = Vec::new();
        let mut k: usize = 0;
        while k < self.events.len()
            invariant
                k <= self.events@.len(),
                out@.len() == flagged_events(self.patterns(), self.events@.take(k as int), f).len(),
                forall|i: int|
                    0 <= i < out@.len() ==> *out@[i] == flagged_events(self.patterns(), self.events@.take(k as int), f)[i],
            decreases self.events@.len() - k,
        {
            let e = &self.events[k];
            proof {
                assert(self.events@.take(k + 1).drop_last() =~= self.events@.take(k as int));
            }
            if self.has_named_with(e.name.as_str(), f) {
                out.push(e);
            }
            k += 1;
        }
        proof {
            assert(self.events@.take(k as int) =~= self.events@);
        }
        out
    }

    /// Returns the events whose name belongs to an enabled pattern.
    pub fn get_enabled_events(&self) -> (r: Vec<&LogEvent>)
        ensures
            r@.len() == flagged_events(self.patterns(), self.events(), PatternFlag::Enabled).len(),
            forall|i: int|
                0 <= i < r@.len() ==> *r@[i] == flagged_events(self.patterns(), self.events(), PatternFlag::Enabled)[i],
    {
        self.events_with_flag(PatternFlag::Enabled)
    }

    fn lines_with_flag(&self, f: Option<PatternFlag>) -> (r: HashSet<usize>)
        ensures
            forall|x: usize|
                #[trigger] r@.contains(x) <==> exists|k: int|
                    0 <= k < self.events().len() && self.events()[k].line_index == x && (f matches Some(g)
                        ==> named_with_flag(self.patterns(), self.events()[k].name@, g)),
    {
        let mut out: HashSet<usize> = HashSet::new();
        let mut k: usize = 0;
        while k < self.events.len()
            invariant
                k <= self.events().len(),
                forall|x: usize|
                    #[trigger] out@.contains(x) <==> exists|t: int|
                        0 <= t < k && self.events()[t].line_index == x && (f matches Some(g) ==> named_with_flag(
                            self.patterns(),
                            self.events()[t].name@,
                            g,
                        )),
            decreases self.events().len() - k,
        {
            let e = &self.events[k];
            let keep = match f {
                Some(g) => self.has_named_with(e.name.as_str(), g),
                None => true,
            };
            if keep {
                out.insert(e.line_index);
            }
            proof {
                assert forall|x: usize|
                    #[trigger] out@.contains(x) <==> exists|t: int|
                        0 <= t < k + 1 && self.events()[t].line_index == x && (f matches Some(g) ==> named_with_flag(
                            self.patterns(),
                            self.events()[t].name@,
                            g,
                        )) by {
                    if exists|t: int|
                        0 <= t < k + 1 && self.events()[t].line_index == x && (f matches Some(g) ==> named_with_flag(
                            self.patterns(),
                            self.events()[t].name@,
                            g,
                        )) {
                        let t = choose|t: int|
                            0 <= t < k + 1 && self.events()[t].line_index == x && (f matches Some(g)
                                ==> named_with_flag(self.patterns(), self.events()[t].name@, g));
                        if t < k {
                        } else {
                            assert(keep);
                        }
                    }
                }
            }
            k += 1;
        }
        out
    }

    /// Returns the set of all line indices that hold events.
    pub fn get_event_indices(&self) -> (r: HashSet<usize>)
        ensures
            forall|x: usize|
                #[trigger] r@.contains(x) <==> exists|k: int|
                    0 <= k < self.events().len() && self.events()[k].line_index == x,
    {
        self.lines_with_flag(None)
    }

    /// Returns the set of line indices that hold events of a critical pattern.
    pub fn get_critical_event_indices(&self) -> (r: HashSet<usize>)
        ensures
            forall|x: usize|
                #[trigger] r@.contains(x) <==> exists|k: int|
                    0 <= k < self.events().len() && self.events()[k].line_index == x && named_with_flag(
                        self.patterns(),
                        self.events()[k].name@,
                        PatternFlag::Critical,
                    ),
    {
        self.lines_with_flag(Some(PatternFlag::Critical))
    }

    /// Returns the set of line indices that hold events of a custom pattern.
    pub fn get_custom_event_indices(&self) -> (r: HashSet<usize>)
        ensures
            forall|x: usize|
                #[trigger] r@.contains(x) <==> exists|k: int|
                    0 <= k < self.events().len() && self.events()[k].line_index == x && named_with_flag(
                        self.patterns(),
                        self.events()[k].name@,
                        PatternFlag::Custom,
                    ),
    {
        self.lines_with_flag(Some(PatternFlag::Custom))
    }

    /// Returns true if a pattern with the given name is critical.
    pub fn is_critical_event(&self, event_name: &str) -> (r: bool)
        ensures
            r == named_with_flag(self.patterns(), event_name@, PatternFlag::Critical),
    {
        self.has_named_with(event_name, PatternFlag::Critical)
    }

    /// Returns true if a pattern with the given name is a custom one.
    pub fn is_custom_event(&self, event_name: &str) -> (r: bool)
        ensures
            r == named_with_flag(self.patterns(), event_name@, PatternFlag::Custom),
    {
        self.has_named_with(event_name, PatternFlag::Custom)
    }

    /// Removes all events and resets every count.
    pub fn clear_all(&mut self)
        ensures
            final(self).events() == Seq::<LogEvent>::empty(),
            final(self).patterns().len() == old(self).patterns().len(),
            forall|i: int|
                0 <= i < old(self).patterns().len() ==> #[trigger] final(self).patterns()[i] == with_count(
                    old(self).patterns()[i],
                    0,
                ),
            final(self).marks_shown() == old(self).marks_shown(),
    {
        self.events.clear();
        self.reset_event_counts();
    }

    /// Returns the number of events.
    pub fn count(&self) -> (r: usize)
        ensures
            r == self.events().len(),
    {
        self.events.len()
    }

    /// Returns true if there are no events.
    pub fn is_empty(&self) -> (r: bool)
        ensures
            r == (self.events().len() == 0),
    {
        self.events.len() == 0
    }

    /// Toggles whether marks are shown in the events view, and returns the new setting.
    pub fn toggle_show_marks(&mut self) -> (r: bool)
        ensures
            final(self).marks_shown() == !old(self).marks_shown(),
            r == final(self).marks_shown(),
            final(self).patterns() == old(self).patterns(),
            final(self).events() == old(self).events(),
    {
        self.show_marks = !self.show_marks;
        self.show_marks
    }

    /// Returns true if some pattern is disabled, that is when events are being filtered.
    pub fn has_event_filtering(&self) -> (r: bool)
        ensures
            r == exists|i: int| 0 <= i < self.patterns().len() && !(#[trigger] self.patterns()[i]).enabled,
    {
        let mut k: usize = 0;
        while k < self.patterns.len()
            invariant
                k <= self.patterns@.len(),
                forall|i: int| 0 <= i < k ==> (#[trigger] self.patterns()[i]).enabled,
            decreases self.patterns@.len() - k,
        {
            if !self.patterns[k].enabled {
                return true;
            }
            k += 1;
        }
        false
    }

    /// Whether marks are shown in the events list.
    pub fn showing_marks(&self) -> (r: bool)
        ensures
            r == self.marks_shown(),
    {
        self.show_marks
    }

    /// Returns the name, enabled state and count of each pattern, by count with the highest
    /// first; patterns with equal counts keep their order.
    pub fn get_event_stats(&self) -> (r: Vec<EventState>)
        ensures
            r@.len() == self.patterns().len(),
            forall|k: int|
                0 <= k < r@.len() ==> {
                    let p = self.patterns()[stats_order(self.patterns())[k].1 as int];
                    &&& (#[trigger] r@[k]).name@ == p.name@
                    &&& r@[k].enabled == p.enabled
                    &&& r@[k].count == p.count
                },
            forall|i: int, j: int| 0 <= i < j < r@.len() ==> #[trigger] r@[i].count >= #[trigger] r@[j].count,
    {
        let ghost ps = self.patterns();
        let mut keys: Vec<(usize, usize)> = Vec::new();
        let mut i: usize = 0;
        while i < self.patterns.len()
            invariant
                i <= ps.len(),
                ps == self.patterns(),
                keys@ == count_keys(ps).take(i as int),
            decreases ps.len() - i,
        {
            keys.push((self.patterns[i].count, i));
            proof {
                assert(keys@ =~= count_keys(ps).take(i + 1));
            }
            i += 1;
        }
        proof {
            assert(keys@ =~= count_keys(ps));
        }
        let order = sort_pairs(keys, true);
        proof {
            lemma_count_order(ps);
        }
        let mut out: Vec<EventState> = Vec::new();
        let mut k: usize = 0;
        while k < order.len()
            invariant
                k <= order@.len(),
                ps == self.patterns(),
                order@ == stats_order(ps),
                order@.len() == ps.len(),
                forall|t: int| 0 <= t < order@.len() ==> (#[trigger] order@[t]).1 < ps.len() && order@[t].0 == ps[order@[t].1 as int].count,
                out@.len() == k,
                forall|t: int|
                    0 <= t < k ==> {
                        let p = ps[order@[t].1 as int];
                        &&& (#[trigger] out@[t]).name@ == p.name@
                        &&& out@[t].enabled == p.enabled
                        &&& out@[t].count == p.count
                    },
            decreases order@.len() - k,
        {
            let idx = order[k].1;
            let p = &self.patterns[idx];
            let ghost before = out@;
            out.push(EventState { name: p.name.clone(), enabled: p.enabled, count: p.count });
            proof {
                assert forall|t: int| 0 <= t < k + 1 implies {
                    let q = ps[order@[t].1 as int];
                    &&& (#[trigger] out@[t]).name@ == q.name@
                    &&& out@[t].enabled == q.enabled
                    &&& out@[t].count == q.count
                } by {
                    if t < k {
                        assert(out@[t] == before[t]);
                    }
                }
            }
            k += 1;
        }
        proof {
            lemma_sort_stable_props(count_keys(ps), true);
            assert forall|i: int, j: int| 0 <= i < j < out@.len() implies #[trigger] out@[i].count >= #[trigger] out@[j].count by {
                assert(crate::sorting::in_order(order@[i].0, order@[j].0, true));
            }
        }
        out
    }

    /// Returns the count of the first pattern with the given name, or 0 when there is none.
    pub fn get_event_count(&self, event_name: &str) -> (r: usize)
        ensures
            r == match first_named(self.patterns(), event_name@) {
                Some(k) => self.patterns()[k].count,
                None => 0,
            },
    {
        match self.find_named(event_name) {
            Some(k) => self.patterns[k].count,
            None => 0,
        }
    }

    /// Returns the number of event patterns.
    pub fn filter_count(&self) -> (r: usize)
        ensures
            r == self.patterns().len(),
    {
        self.patterns.len()
    }

    /// Toggles the enabled state of the first pattern with the given name.
    pub fn toggle_event_enabled(&mut self, event_name: &str)
        ensures
            final(self).patterns() == toggled_event(old(self).patterns(), event_name@),
            final(self).events() == old(self).events(),
            final(self).marks_shown() == old(self).marks_shown(),
    {
        match self.find_named(event_name) {
            Some(k) => {
                let e = self.patterns[k].enabled;
                self.patterns[k].enabled = !e;
                proof {
                    assert(self.patterns() =~= old(self).patterns().update(
                        k as int,
                        with_enabled(old(self).patterns()[k as int], !e),
                    ));
                }
            },
            None => {},
        }
    }

    fn set_all_enabled(&mut self, name: Option<&str>, on: bool)
        ensures
            final(self).patterns().len() == old(self).patterns().len(),
            forall|i: int|
                0 <= i < old(self).patterns().len() ==> #[trigger] final(self).patterns()[i] == with_enabled(
                    old(self).patterns()[i],
                    match name {
                        Some(n) => old(self).patterns()[i].name@ == n@,
                        None => on,
                    },
                ),
            final(self).events() == old(self).events(),
            final(self).marks_shown() == old(self).marks_shown(),
    {
        let mut i: usize = 0;
        while i < self.patterns.len()
            invariant
                i <= self.patterns@.len(),
                self.patterns().len() == old(self).patterns().len(),
                forall|k: int|
                    0 <= k < i ==> #[trigger] self.patterns()[k] == with_enabled(
                        old(self).patterns()[k],
                        match name {
                            Some(n) => old(self).patterns()[k].name@ == n@,
                            None => on,
                        },
                    ),
                forall|k: int| i <= k < self.patterns().len() ==> #[trigger] self.patterns()[k] == old(self).patterns()[k],
                self.events() == old(self).events(),
                self.show_marks == old(self).marks_shown(),
            decreases self.patterns@.len() - i,
        {
            let v = match name {
                Some(n) => str_eq(self.patterns[i].name.as_str(), n),
                None => on,
            };
            self.patterns[i].enabled = v;
            i += 1;
        }
    }

    /// Disables every pattern when all are enabled, and enables every pattern otherwise.
    pub fn toggle_all_filters(&mut self)
        ensures
            final(self).patterns().len() == old(self).patterns().len(),
            forall|i: int|
                0 <= i < old(self).patterns().len() ==> #[trigger] final(self).patterns()[i] == with_enabled(
                    old(self).patterns()[i],
                    !(forall|k: int| 0 <= k < old(self).patterns().len() ==> (#[trigger] old(self).patterns()[k]).enabled),
                ),
            final(self).events() == old(self).events(),
            final(self).marks_shown() == old(self).marks_shown(),
    {
        let any_disabled = self.has_event_filtering();
        self.set_all_enabled(None, any_disabled);
    }

    /// Enables only the patterns with the given name, disabling all others.
    pub fn solo_event_filter(&mut self, event_name: &str)
        ensures
            final(self).patterns().len() == old(self).patterns().len(),
            forall|i: int|
                0 <= i < old(self).patterns().len() ==> #[trigger] final(self).patterns()[i] == with_enabled(
                    old(self).patterns()[i],
                    old(self).patterns()[i].name@ == event_name@,
                ),
            final(self).events() == old(self).events(),
            final(self).marks_shown() == old(self).marks_shown(),
    {
        self.set_all_enabled(Some(event_name), true);
    }

    /// Restores enabled states: each `(name, enabled)` entry in turn sets the state of the
    /// first pattern with that name.
    pub fn restore_filter_states(&mut self, filter_states: &[(String, bool)])
        ensures
            final(self).patterns() == restored(old(self).patterns(), state_texts(filter_states@)),
            final(self).events() == old(self).events(),
            final(self).marks_shown() == old(self).marks_shown(),
    {
        let mut i: usize = 0;
        while i < filter_states.len()
            invariant
                i <= filter_states@.len(),
                self.patterns() == restored(old(self).patterns(), state_texts(filter_states@).take(i as int)),
                self.events() == old(self).events(),
                self.show_marks == old(self).marks_shown(),
            decreases filter_states@.len() - i,
        {
            let (name, enabled) = &filter_states[i];
            proof {
                assert(state_texts(filter_states@).take(i + 1).drop_last() =~= state_texts(filter_states@).take(i as int));
            }
            match self.find_named(name.as_str()) {
                Some(k) => {
                    let ghost prev = self.patterns();
                    self.patterns[k].enabled = *enabled;
                    proof {
                        assert(self.patterns() =~= prev.update(k as int, with_enabled(prev[k as int], *enabled)));
                    }
                },
                None => {},
            }
            i += 1;
        }
        proof {
            assert(state_texts(filter_states@).take(i as int) =~= state_texts(filter_states@));
        }
    }

    fn has_plain(&self, pattern: &str) -> (r: bool)
        ensures
            r == has_plain_pattern(self.patterns(), pattern@),
    {
        let mut k: usize = 0;
        while k < self.patterns.len()
            invariant
                k <= self.patterns@.len(),
                forall|i: int|
                    0 <= i < k ==> !(#[trigger] self.patterns()[i].matcher matches PatternMatcher::Plain(m) && m.pattern@
                        == pattern@),
            decreases self.patterns@.len() - k,
        {
            match &self.patterns[k].matcher {
                PatternMatcher::Plain(m) => {
                    if str_eq(m.pattern.as_str(), pattern) {
                        return true;
                    }
                },
                PatternMatcher::Regex(_) => {},
            }
            k += 1;
        }
        false
    }

    /// Adds a custom plain-text event pattern, named after it. Returns false, and adds
    /// nothing, when the pattern is empty or already used by a plain-text pattern.
    pub fn add_custom_event(&mut self, pattern: &str) -> (r: bool)
        requires
            pattern@.len() > 0 && !has_plain_pattern(old(self).patterns(), pattern@) && utf8(pattern@).len() > 16
                ==> is_char_boundary(utf8(pattern@), 13),
        ensures
            r == (pattern@.len() > 0 && !has_plain_pattern(old(self).patterns(), pattern@)),
            !r ==> final(self).patterns() == old(self).patterns(),
            r ==> {
                let ps = final(self).patterns();
                let n = old(self).patterns().len();
                &&& ps.len() == n + 1
                &&& ps.take(n as int) == old(self).patterns()
                &&& ps[n as int].name@ == custom_event_name(pattern@)
                &&& ps[n as int].matcher matches PatternMatcher::Plain(m) && m.pattern@ == pattern@ && m.case_sensitive
                &&& ps[n as int].enabled
                &&& ps[n as int].count == 0
                &&& !ps[n as int].critical
                &&& ps[n as int].is_custom
            },
            final(self).events() == old(self).events(),
            final(self).marks_shown() == old(self).marks_shown(),
    {
        if pattern.is_empty() {
            return false;
        }
        if self.has_plain(pattern) {
            return false;
        }
        let byte_len = pattern.as_bytes().len();
        let name = if byte_len > 16 {
            let (head, _) = pattern.split_at(13);
            proof {
                vstd::utf8::encode_utf8_decode_utf8(head@);
                reveal_strlit("...");
                assert(head.spec_bytes() == utf8(pattern@).subrange(0, 13));
                assert(head@ == decode_utf8(utf8(pattern@).subrange(0, 13)));
            }
            let start = String::from_str(head);
            let full = start.concat("...");
            assert(full@ == head@ + seq!['.', '.', '.']);
            assert(utf8(pattern@).len() > 16);
            assert(full@ == custom_event_name(pattern@));
            full
        } else {
            let full = String::from_str(pattern);
            assert(full@ == custom_event_name(pattern@));
            full
        };
        let event_pattern = EventPattern {
            name,
            matcher: PatternMatcher::Plain(PlainMatch { pattern: String::from_str(pattern), case_sensitive: true }),
            enabled: true,
            count: 0,
            critical: false,
            is_custom: true,
        };
        self.patterns.push(event_pattern);
        proof {
            assert(self.patterns().take(old(self).patterns().len() as int) =~= old(self).patterns());
        }
        true
    }

    /// Returns the texts of the plain-text custom patterns.
    pub fn get_custom_event_patterns(&self) -> (r: Vec<&str>)
        ensures
            r@.len() == custom_patterns(self.patterns()).len(),
            forall|i: int| 0 <= i < r@.len() ==> r@[i]@ == custom_patterns(self.patterns())[i],
    {
        let mut out: Vec<&str> = Vec::new();
        let mut k: usize = 0;
        while k < self.patterns.len()
            invariant
                k <= self.patterns@.len(),
                out@.len() == custom_patterns(self.patterns@.take(k as int)).len(),
                forall|i: int| 0 <= i < out@.len() ==> out@[i]@ == custom_patterns(self.patterns@.take(k as int))[i],
            decreases self.patterns@.len() - k,
        {
            proof {
                assert(self.patterns@.take(k + 1).drop_last() =~= self.patterns@.take(k as int));
            }
            let p = &self.patterns[k];
            if p.is_custom {
                match &p.matcher {
                    PatternMatcher::Plain(m) => {
                        out.push(m.pattern.as_str());
                    },
                    PatternMatcher::Regex(_) => {},
                }
            }
            k += 1;
        }
        proof {
            assert(self.patterns@.take(k as int) =~= self.patterns@);
        }
        out
    }

    fn find_custom(&self, name: &str) -> (r: Option<usize>)
        ensures
            r matches Some(k) ==> first_custom_named(self.patterns(), name@, 0) == Some(k as int) && k < self.patterns().len(),
            r is None ==> first_custom_named(self.patterns(), name@, 0) is None,
    {
        let mut k: usize = 0;
        while k < self.patterns.len()
            invariant
                k <= self.patterns@.len(),
                first_custom_named(self.patterns(), name@, 0) == first_custom_named(self.patterns(), name@, k as nat),
            decreases self.patterns@.len() - k,
        {
            let p = &self.patterns[k];
            if p.is_custom && str_eq(p.name.as_str(), name) {
                return Some(k);
            }
            k += 1;
        }
        None
    }

    /// Removes the custom patterns with the given name and every event with that name.
    /// Returns the text of the first such pattern when it is a plain-text one.
    pub fn remove_custom_event(&mut self, name: &str) -> (r: Option<String>)
        ensures
            match first_custom_named(old(self).patterns(), name@, 0) {
                Some(k) => match old(self).patterns()[k].matcher {
                    PatternMatcher::Plain(m) => r matches Some(s) && s@ == m.pattern@,
                    PatternMatcher::Regex(_) => r is None,
                },
                None => r is None,
            },
            final(self).patterns() == without_custom(old(self).patterns(), name@),
            final(self).events() == without_named(old(self).events(), name@),
            final(self).marks_shown() == old(self).marks_shown(),
    {
        let found: Option<String> = match self.find_custom(name) {
            Some(k) => match &self.patterns[k].matcher {
                PatternMatcher::Plain(m) => Some(m.pattern.clone()),
                PatternMatcher::Regex(_) => None,
            },
            None => None,
        };
        let mut rest: Vec<EventPattern> = Vec::new();
        std::mem::swap(&mut rest, &mut self.patterns);
        let ghost orig = rest@;
        assert(orig.len() == rest.len());
        let mut i: usize = 0;
        while rest.len() > 0
            invariant
                orig == old(self).patterns(),
                orig.len() <= usize::MAX,
                i <= orig.len(),
                rest@ == orig.skip(i as int),
                self.patterns@ == without_custom(orig.take(i as int), name@),
                self.events() == old(self).events(),
                self.show_marks == old(self).marks_shown(),
            decreases rest@.len(),
        {
            let p = rest.remove(0);
            proof {
                assert(orig.take(i + 1).drop_last() =~= orig.take(i as int));
                assert(orig.take(i + 1).last() == p);
            }
            if !(p.is_custom && str_eq(p.name.as_str(), name)) {
                self.patterns.push(p);
            }
            i += 1;
            proof {
                assert(rest@ =~= orig.skip(i as int));
            }
        }
        proof {
            assert(orig.take(i as int) =~= orig);
        }
        let mut evs: Vec<LogEvent> = Vec::new();
        std::mem::swap(&mut evs, &mut self.events);
        let ghost eorig = evs@;
        assert(eorig.len() == evs.len());
        let mut j: usize = 0;
        while evs.len() > 0
            invariant
                eorig == old(self).events(),
                eorig.len() <= usize::MAX,
                j <= eorig.len(),
                evs@ == eorig.skip(j as int),
                self.events@ == without_named(eorig.take(j as int), name@),
                self.patterns() == without_custom(old(self).patterns(), name@),
                self.show_marks == old(self).marks_shown(),
            decreases evs@.len(),
        {
            let e = evs.remove(0);
            proof {
                assert(eorig.take(j + 1).drop_last() =~= eorig.take(j as int));
                assert(eorig.take(j + 1).last() == e);
            }
            if !str_eq(e.name.as_str(), name) {
                self.events.push(e);
            }
            j += 1;
            proof {
                assert(evs@ =~= eorig.skip(j as int));
            }
        }
        proof {
            assert(eorig.take(j as int) =~= eorig);
        }
        found
    }
}

proof fn lemma_first_named_same(a: Seq<EventPattern>, b: Seq<EventPattern>, name: Seq<char>, k: nat)
    requires
        a.len() == b.len(),
        forall|i: int| 0 <= i < a.len() ==> #[trigger] a[i].name == b[i].name,
    ensures
        first_named_from(a, name, k) == first_named_from(b, name, k),
    decreases a.len() - k,
{
    if k < a.len() {
        lemma_first_named_same(a, b, name, k + 1);
    }
}

proof fn lemma_count_order(ps: Seq<EventPattern>)
    requires
        ps.len() <= usize::MAX,
    ensures
        stats_order(ps).len() == ps.len(),
        forall|t: int|
            0 <= t < stats_order(ps).len() ==> (#[trigger] stats_order(ps)[t]).1 < ps.len() && stats_order(ps)[t].0
                == ps[stats_order(ps)[t].1 as int].count,
{
    broadcast use vstd::seq_lib::group_to_multiset_ensures;
    let keys = count_keys(ps);
    let order = stats_order(ps);
    lemma_sort_stable_props(keys, true);
    assert forall|t: int| 0 <= t < order.len() implies (#[trigger] order[t]).1 < ps.len() && order[t].0
        == ps[order[t].1 as int].count by {
        assert(order.to_multiset().count(order[t]) > 0);
        assert(keys.contains(order[t]));
        let u = choose|u: int| 0 <= u < keys.len() && keys[u] == order[t];
        assert(keys[u] == (ps[u].count, u as usize));
    }
}

} // verus!
