//! What the application does when the user confirms or cancels: each step goes from one
//! application state to the next, and tells its surroundings what else to do.
use vstd::prelude::*;
use crate::app::{
    find_row, first_row_of, line_contents, line_texts, option_on, row_contents, row_texts, search_refreshed,
    overlay_has_text_input, overlay_view, view_has_text_input, viewport_after, visible_flags, visible_lines, Action,
    App, Overlay, ViewState,
};
use crate::completion::{with_line_words, CompletionEngine};
use crate::config::{event_pattern_from, filter_of, kept_events, Config};
use crate::expansion::Expansions;
use crate::file_manager::FileManager;
use crate::filter::filter_specs;
use crate::filter::FilterPattern;
use crate::help::{help_table, Help};
use crate::keybindings::default_table;
use crate::app_commands::{other_focus, search_mode_entered};
use crate::app_events::{event_items, event_selected_goto, events_lists_recounted, events_recounted};
use crate::history::HistoryEntry;
use crate::list_view_state::sat_sub;
use crate::log::{loaded_as, LogBuffer, LogLine, Timestamp};
use crate::options::restored_options;
use crate::persistence::{
    option_states_view, texts as persisted_texts, CustomEventState, EventFilterState, FilterPatternState, MarkState,
    PersistedState, ViewportState,
};
use crate::log_event::LogEvent;
use crate::marking::{toggled_mark, Marking};
use crate::options::AppOptions;
use crate::search::Search;
use crate::time_filter::{TimeFilter, TimeFilterFocus};
use crate::timestamp::{clock_year, parse_time_input, popup_time, popup_time_text, time_input_instant};
use crate::log_event::{custom_event_name, events_view, restored, state_texts, has_plain_pattern, scanned_events, tally, with_count, EventPattern, LogEventTracker};
use crate::matcher::PatternMatcher;
use crate::search::{match_count, matching_positions};
use crate::utils::utf8;
use vstd::utf8::is_char_boundary;
use crate::filter::{pattern_in, ActiveFilterMode, Filter, FilterHistoryEntry, FilterSpec};
use crate::list_view_state::{list_offset_after, ListViewState};
use crate::marking::Mark;
use crate::options::{AppOption, AppOptionDef};
use crate::timestamp::{all_digits, decimal, decimal_value, is_digit, lemma_decimal_grows, push_decimal, push_text, unsigned_part};
use crate::utils::chars_of;
use crate::viewport::{adjusted, centered, history_after_push, Viewport};

verus! {

/// `str::parse::<usize>`: an optional `+` followed by one or more ASCII digits whose value
/// fits in a `usize`.
pub open spec fn parse_usize_spec(s: Seq<char>) -> Option<usize> {
    let d = unsigned_part(s);
    if d.len() > 0 && all_digits(d) && decimal_value(d) <= usize::MAX {
        Some(decimal_value(d) as usize)
    } else {
        None
    }
}

/// Reads a line number as `str::parse::<usize>` does.
pub fn parse_line_number(text: &str) -> (r: Option<usize>)
    ensures
        r == parse_usize_spec(text@),
{
    let s = chars_of(text);
    let start: usize = if s.len() > 0 && s[0] == '+' {
        1
    } else {
        0
    };
    let ghost d = unsigned_part(s@);
    assert(d =~= s@.skip(start as int));
    if start == s.len() {
        return None;
    }
    let mut value: usize = 0;
    let mut i: usize = start;
    while i < s.len()
        invariant
            start <= i <= s@.len(),
            s@ == text@,
            d == s@.skip(start as int),
            d == unsigned_part(s@),
            d.len() > 0,
            forall|k: int| 0 <= k < i - start ==> is_digit(#[trigger] d[k]),
            value == decimal_value(d.take(i - start)),
        decreases s@.len() - i,
    {
        let c = s[i];
        if !('0' <= c && c <= '9') {
            assert(!is_digit(d[i - start]));
            return None;
        }
        let digit = (c as u32 - '0' as u32) as usize;
        assert(d.take(i - start + 1).drop_last() =~= d.take(i - start));
        let next = match value.checked_mul(10) {
            Some(t) => t.checked_add(digit),
            None => None,
        };
        match next {
            Some(v) => {
                value = v;
            },
            None => {
                proof {
                    if all_digits(d) {
                        lemma_decimal_grows(d, i - start + 1);
                    }
                }
                return None;
            },
        }
        i += 1;
    }
    assert(d.take(d.len() as int) =~= d);
    Some(value)
}

/// The search with its pattern and matches cleared, its case sensitivity and history kept.
pub open spec fn search_cleared(a: crate::search::Search, b: crate::search::Search) -> bool {
    &&& b.wf()
    &&& b.pattern() is None
    &&& b.matches() == Seq::<usize>::empty()
    &&& b.current() == 0
    &&& b.total() == 0
    &&& b.case_sensitive() == a.case_sensitive()
    &&& b.hist() == a.hist()
}

/// Cancelling: an overlay is closed (an edited filter goes back to the filter list, a save
/// or a message back to the log view, an error stays); with no overlay, a search or a
/// selection is dropped, any other mode goes back to the log view, and in the log view the
/// search is dropped and showing only marked lines ends.
pub open spec fn cancelled(a: App, b: App) -> bool {
    match a.overlay {
        Some(o) => match o {
            Overlay::EditFilter => b == App { view_state: ViewState::FilterView, overlay: None, ..a },
            Overlay::SaveToFile | Overlay::Message(_) => b == App { view_state: ViewState::LogView, overlay: None, ..a },
            Overlay::Error(_) => b == a,
            _ => b == App { overlay: None, ..a },
        },
        None => match a.view_state {
            ViewState::ActiveSearchMode => {
                &&& search_cleared(a.search, b.search)
                &&& b == App { view_state: ViewState::LogView, overlay: None, search: b.search, ..a }
            },
            ViewState::LogView => {
                let m = App { show_marked_lines_only: false, ..a };
                &&& search_cleared(a.search, b.search)
                &&& a.show_marked_lines_only ==> {
                    &&& b == App { search: b.search, visible: b.visible,
            expanded_rows: b.expanded_rows, events_list_state: b.events_list_state, event_filter_list_state: b.event_filter_list_state, viewport: b.viewport, ..m }
                    &&& b.visible@ == visible_lines(m)
                    &&& b.expanded_rows@ == visible_flags(m)
                    &&& b.viewport == viewport_after(m, visible_lines(m))
                    &&& events_lists_recounted(
                        App {
                            visible: b.visible,
                            expanded_rows: b.expanded_rows,
                            viewport: b.viewport,
                            search: b.search,
                            ..m
                        },
                        b,
                        false,
                        false,
                    )
                }
                &&& !a.show_marked_lines_only ==> b == App { search: b.search, ..a }
            },
            ViewState::SelectionMode => b == App {
                selection_range: None,
                view_state: ViewState::LogView,
                overlay: None,
                ..a
            },
            _ => b == App { view_state: ViewState::LogView, overlay: None, ..a },
        },
    }
}

/// The history of a viewport is the given sequence and position.
pub open spec fn history_is(v: Viewport, h: Seq<usize>, p: int) -> bool {
    v.history@ == h && v.history_position == p
}

/// `w` is `v` after selecting row `row` (centered or kept in view), recording the line
/// shown there in the history and ending following; a row that does not exist changes
/// nothing.
pub open spec fn jumped(v: Viewport, w: Viewport, rows: Seq<usize>, row: int, center: bool) -> bool {
    if 0 <= row < v.total_lines && row < rows.len() {
        let (h, p) = history_after_push(v.history@, v.history_position as int, rows[row]);
        let u = Viewport {
            selected_line: row as usize,
            follow_mode: false,
            history: w.history,
            history_position: w.history_position,
            ..v
        };
        &&& history_is(w, h, p)
        &&& w == (if center {
            centered(u)
        } else {
            adjusted(u)
        })
    } else {
        w == v
    }
}

/// `w` is `v` after recording log line `line` in the history and selecting, centered or
/// kept in view, the first row that shows it, if any.
pub open spec fn jumped_to_line(v: Viewport, w: Viewport, rows: Seq<usize>, line: usize, center: bool) -> bool {
    let (h, p) = history_after_push(v.history@, v.history_position as int, line);
    let kept = Viewport { history: w.history, history_position: w.history_position, ..v };
    &&& history_is(w, h, p)
    &&& match first_row_of(rows, line, 0) {
        Some(row) => if row < v.total_lines {
            let u = Viewport { selected_line: row as usize, follow_mode: false, ..kept };
            w == (if center {
                centered(u)
            } else {
                adjusted(u)
            })
        } else {
            w == kept
        },
        None => w == kept,
    }
}

/// Confirming a line number: a number from 1 to the number of rows selects that row,
/// centered, records its line in the history and ends following; anything else leaves the
/// view where it was. Either way the log view is shown with no overlay.
pub open spec fn goto_line_confirmed(a: App, b: App) -> bool {
    let ok = parse_usize_spec(a.input@) matches Some(n) && 1 <= n && n <= a.viewport.total_lines;
    &&& b == App { view_state: ViewState::LogView, overlay: None, viewport: b.viewport, ..a }
    &&& ok ==> jumped(a.viewport, b.viewport, a.visible@, parse_usize_spec(a.input@).unwrap() - 1, true)
    &&& !ok ==> b.viewport == a.viewport
}

/// The line indices of the marks, in order, whose line is on some row.
pub open spec fn marks_on_rows(ms: Seq<Mark>, rows: Seq<usize>) -> Seq<usize>
    decreases ms.len(),
{
    if ms.len() == 0 {
        Seq::empty()
    } else {
        let p = marks_on_rows(ms.drop_last(), rows);
        if rows.contains(ms.last().line_index) {
            p.push(ms.last().line_index)
        } else {
            p
        }
    }
}

/// The marked lines listed in the marks view: those on some row, in line order.
pub open spec fn listed_marks(a: App) -> Seq<usize> {
    marks_on_rows(a.marking.ordered(), a.visible@)
}

/// Confirming in the marks view: the selected mark's line is recorded in the history and
/// selected, centered; then the log view is shown.
pub open spec fn marks_view_confirmed(a: App, b: App) -> bool {
    let ls = listed_marks(a);
    let k = a.marking_list_state.selected();
    &&& b == App { view_state: ViewState::LogView, overlay: None, viewport: b.viewport, ..a }
    &&& 0 <= k < ls.len() ==> jumped_to_line(a.viewport, b.viewport, a.visible@, ls[k], true)
    &&& !(0 <= k < ls.len()) ==> b.viewport == a.viewport
}

/// Confirming a mark's name: the mark being named (see `named_mark_line`) gets the typed
/// name; the overlay closes.
pub open spec fn mark_name_confirmed(a: App, b: App) -> bool {
    match named_mark_line(a) {
        Some(l) => {
            &&& b == App { overlay: None, marking: b.marking, ..a }
            &&& b.marking.wf()
            &&& b.marking@ == (if a.marking@.contains_key(l) {
                a.marking@.insert(l, Some(a.input@))
            } else {
                a.marking@
            })
        },
        None => b == App { overlay: None, ..a },
    }
}

/// The line of the mark a name is given to: the one selected in the marks view, or, while
/// marks are shown among the events, the selected item of the events view when it is a
/// mark.
pub open spec fn named_mark_line(a: App) -> Option<usize> {
    if a.view_state == ViewState::MarksView {
        let ls = listed_marks(a);
        let k = a.marking_list_state.selected();
        if 0 <= k < ls.len() {
            Some(ls[k])
        } else {
            None
        }
    } else if a.view_state == ViewState::EventsView && a.event_tracker.marks_shown() {
        let items = event_items(a);
        let k = a.events_list_state.selected();
        if 0 <= k < items.len() && items[k].1 {
            Some(items[k].0)
        } else {
            None
        }
    } else {
        None
    }
}

impl App {
    /// Shows a view and closes any overlay.
    pub fn set_view_state(&mut self, view: ViewState)
        ensures
            *final(self) == (App { view_state: view, overlay: None, ..*old(self) }),
    {
        self.view_state = view;
        self.overlay = None;
    }

    /// Closes the overlay.
    pub fn close_overlay(&mut self)
        ensures
            *final(self) == (App { overlay: None, ..*old(self) }),
    {
        self.overlay = None;
    }

    /// Jumps to the row given by the typed line number, counted from 1.
    fn confirm_goto_line(&mut self)
        requires
            old(self).wf(),
        ensures
            final(self).wf(),
            goto_line_confirmed(*old(self), *final(self)),
    {
        match parse_line_number(self.input.as_str()) {
            Some(n) => {
                if n > 0 && n - 1 < self.viewport.total_lines {
                    let row = n - 1;
                    let line = self.visible[row];
                    self.viewport.push_history(line);
                    let ghost pushed = self.viewport;
                    self.viewport.goto_line(row, true);
                    assert(self.viewport.history == pushed.history);
                }
            },
            None => {},
        }
        self.set_view_state(ViewState::LogView);
    }
}

/// The view after recomputing the rows of `m`: its rows, the viewport that follows
/// from them, the search refreshed over them, and the events lists recounted.
pub open spec fn view_refreshed(m: App, b: App) -> bool {
    &&& b.visible@ == visible_lines(m)
    &&& b.expanded_rows@ == visible_flags(m)
    &&& b.viewport == viewport_after(m, visible_lines(m))
    &&& search_refreshed(m.search, b.search, m.log_buffer.lines(), visible_lines(m))
    &&& events_lists_recounted(
        App { visible: b.visible, expanded_rows: b.expanded_rows, viewport: b.viewport, search: b.search, ..m },
        b,
        false,
        false,
    )
}

/// `b` is filter `a` with the text of pattern `index` replaced, unless there is no such
/// pattern or another pattern of its mode already has that text.
pub open spec fn pattern_updated(a: Filter, b: Filter, index: int, text: Seq<char>) -> bool {
    let ps = a.patterns();
    let ok = 0 <= index < ps.len() && !(exists|k: int|
        0 <= k < ps.len() && k != index && (#[trigger] ps[k]).pattern == text && ps[k].mode == ps[index].mode);
    &&& ok ==> b.patterns() == ps.update(index, FilterSpec { pattern: text, ..ps[index] })
    &&& !ok ==> b.patterns() == ps
    &&& b.mode() == a.mode()
    &&& b.case_sensitive() == a.case_sensitive()
    &&& b.hist() == a.hist()
}

/// `b` is filter `a` with a new enabled pattern of the text in the current mode and case
/// sensitivity, recorded in the history, unless the text is empty or already a pattern of
/// that mode.
pub open spec fn pattern_added(a: Filter, b: Filter, text: Seq<char>) -> bool {
    let added = text.len() > 0 && !pattern_in(a.patterns(), text, a.mode());
    let entry = (text, a.mode(), a.case_sensitive());
    &&& b.hist().wf()
    &&& b.mode() == a.mode()
    &&& b.case_sensitive() == a.case_sensitive()
    &&& added ==> b.patterns() == a.patterns().push(
        FilterSpec { pattern: text, mode: a.mode(), case_sensitive: a.case_sensitive(), enabled: true },
    )
    &&& added ==> b.hist()@ == (if a.hist()@.contains(entry) {
        a.hist()@
    } else {
        a.hist()@.push(entry)
    })
    &&& added ==> b.hist().position() is None
    &&& !added ==> b.patterns() == a.patterns() && b.hist() == a.hist()
}

/// `b` is list state `a` with `count` items, the selection clamped to the last one.
pub open spec fn list_recounted(a: ListViewState, b: ListViewState, count: int) -> bool {
    &&& b.wf()
    &&& b.count() == count
    &&& b.height() == a.height()
    &&& b.selected() == (if count == 0 {
        0
    } else if a.selected() >= count {
        count - 1
    } else {
        a.selected()
    })
    &&& b.offset() == list_offset_after(b.selected(), a.offset(), count, a.height())
}

/// Confirming an edited filter: a non-empty text replaces the selected pattern's, the
/// expansions are dropped and the rows recomputed; the overlay closes.
pub open spec fn edit_filter_confirmed(a: App, b: App) -> bool {
    if a.input@.len() == 0 {
        b == App { overlay: None, ..a }
    } else {
        let m = App { filter: b.filter, expansion: b.expansion, ..a };
        &&& pattern_updated(a.filter, b.filter, a.filter_list_state.selected(), a.input@)
        &&& b.expansion@ == Map::<usize, Seq<usize>>::empty()
        &&& view_refreshed(m, b)
        &&& b == App { visible: b.visible,
            expanded_rows: b.expanded_rows, events_list_state: b.events_list_state, event_filter_list_state: b.event_filter_list_state, viewport: b.viewport, search: b.search, overlay: None, ..m }
    }
}

/// Confirming a new filter: a non-empty text is added as a pattern, the filter list is
/// recounted, the expansions are dropped and the rows recomputed; then the log view is
/// shown.
pub open spec fn filter_confirmed(a: App, b: App) -> bool {
    if a.input@.len() == 0 {
        b == App { view_state: ViewState::LogView, overlay: None, ..a }
    } else {
        let m = App { filter: b.filter, filter_list_state: b.filter_list_state, expansion: b.expansion, ..a };
        &&& pattern_added(a.filter, b.filter, a.input@)
        &&& list_recounted(a.filter_list_state, b.filter_list_state, b.filter.patterns().len() as int)
        &&& b.expansion@ == Map::<usize, Seq<usize>>::empty()
        &&& view_refreshed(m, b)
        &&& b == App {
            visible: b.visible,
            expanded_rows: b.expanded_rows, events_list_state: b.events_list_state, event_filter_list_state: b.event_filter_list_state,
            viewport: b.viewport,
            search: b.search,
            view_state: ViewState::LogView,
            overlay: None,
            ..m
        }
    }
}

/// Confirming in the options view: the selected option is switched on and the rows
/// recomputed; then the log view is shown.
pub open spec fn options_confirmed(a: App, b: App) -> bool {
    let k = a.options_list_state.selected();
    let ds = a.options.defs();
    let m = App { options: b.options, ..a };
    &&& 0 <= k < ds.len() ==> b.options.defs() == ds.update(k, AppOptionDef { enabled: true, ..ds[k] })
    &&& !(0 <= k < ds.len()) ==> b.options.defs() == ds
    &&& view_refreshed(m, b)
    &&& b == App {
        visible: b.visible,
            expanded_rows: b.expanded_rows, events_list_state: b.events_list_state, event_filter_list_state: b.event_filter_list_state,
        viewport: b.viewport,
        search: b.search,
        view_state: ViewState::LogView,
        overlay: None,
        ..m
    }
}

/// The message shown when a search finds nothing on the rows, with the number of matches
/// among all lines when there are some.
pub open spec fn zero_hits_message(p: Seq<char>, total: nat) -> Seq<char> {
    let head = "0 hits for '"@ + p + "'"@;
    if total > 0 {
        head + " ("@ + decimal(total) + " in filtered lines)"@
    } else {
        head
    }
}

/// `k` is the first match at or after row `sel`, or the first match when none is.
pub open spec fn first_match_from_index(m: Seq<usize>, sel: usize, k: int) -> bool {
    &&& 0 <= k < m.len()
    &&& (exists|j: int| 0 <= j < m.len() && m[j] >= sel) ==> (m[k] >= sel && forall|j: int|
        0 <= j < k ==> m[j] < sel)
    &&& !(exists|j: int| 0 <= j < m.len() && m[j] >= sel) ==> k == 0
}

/// Confirming a search: an empty text drops the search; otherwise the text becomes the
/// search, recorded in the history, with its matches among the rows and its count over all
/// lines. With no match on the rows a message says so and the search mode stays; else,
/// unless jumping is switched off or the view follows a stream, the first match at or
/// after the selection (or the first one) is selected, and the log view is shown.
pub open spec fn search_confirmed(a: App, b: App) -> bool {
    let p = a.input@;
    let cs = a.search.case_sensitive();
    let lines = a.log_buffer.lines();
    if p.len() == 0 {
        &&& search_cleared(a.search, b.search)
        &&& b == App { view_state: ViewState::LogView, overlay: None, search: b.search, ..a }
    } else {
        let m = matching_positions(row_texts(lines, a.visible@), p, cs);
        let total = match_count(line_texts(lines), p, cs);
        &&& b.search.wf()
        &&& b.search.hist().wf()
        &&& b.search.pattern() == Some(p)
        &&& b.search.matches() == m
        &&& b.search.total() == total
        &&& b.search.case_sensitive() == cs
        &&& b.search.hist()@ == (if a.search.hist()@.contains(p) {
            a.search.hist()@
        } else {
            a.search.hist()@.push(p)
        })
        &&& b.search.hist().position() is None
        &&& if m.len() == 0 {
            &&& b.search.current() == 0
            &&& b.overlay matches Some(Overlay::Message(t)) && t@ == zero_hits_message(p, total)
            &&& b == App { search: b.search, overlay: b.overlay, ..a }
        } else if !option_on(a.options.defs(), AppOption::SearchDisableJumping) && !a.viewport.follow_mode {
            &&& first_match_from_index(m, a.viewport.selected_line, b.search.current())
            &&& jumped(a.viewport, b.viewport, a.visible@, m[b.search.current()] as int, false)
            &&& b == App {
                search: b.search,
                viewport: b.viewport,
                view_state: ViewState::LogView,
                overlay: None,
                ..a
            }
        } else {
            &&& b.search.current() == 0
            &&& b == App { search: b.search, view_state: ViewState::LogView, overlay: None, ..a }
        }
    }
}

/// `ps` is `old` with a custom, case-sensitive, enabled plain-text pattern for `text`
/// appended.
pub open spec fn custom_pattern_added(old: Seq<EventPattern>, ps: Seq<EventPattern>, text: Seq<char>) -> bool {
    let n = old.len();
    &&& ps.len() == n + 1
    &&& ps.take(n as int) == old
    &&& ps[n as int].name@ == custom_event_name(text)
    &&& ps[n as int].matcher matches PatternMatcher::Plain(m) && m.pattern@ == text && m.case_sensitive
    &&& ps[n as int].enabled
    &&& ps[n as int].count == 0
    &&& !ps[n as int].critical
    &&& ps[n as int].is_custom
}

/// The tracker holds the events of patterns `ps` found on the lines, each pattern with
/// its count.
pub open spec fn rescanned(ps: Seq<EventPattern>, lines: Seq<LogLine>, t: LogEventTracker) -> bool {
    &&& events_view(t.events()) == scanned_events(ps, lines)
    &&& t.patterns().len() == ps.len()
    &&& forall|i: int|
        0 <= i < ps.len() ==> #[trigger] t.patterns()[i] == with_count(ps[i], tally(ps, events_view(t.events()), i) as usize)
}

/// Confirming a custom event: a non-empty text not yet used as a plain-text pattern
/// becomes a custom event pattern, the log is scanned again and the events lists are
/// recounted; the overlay closes.
pub open spec fn custom_event_confirmed(a: App, b: App) -> bool {
    let added = a.input@.len() > 0 && !has_plain_pattern(a.event_tracker.patterns(), a.input@);
    let m = App { event_tracker: b.event_tracker, overlay: None, ..a };
    &&& b.event_tracker.marks_shown() == a.event_tracker.marks_shown()
    &&& !added ==> b == m && b.event_tracker.patterns() == a.event_tracker.patterns() && b.event_tracker.events()
        == a.event_tracker.events()
    &&& added ==> events_recounted(m, b, false, false) && exists|ps: Seq<EventPattern>|
        #[trigger] custom_pattern_added(a.event_tracker.patterns(), ps, a.input@) && rescanned(
            ps,
            a.log_buffer.lines(),
            b.event_tracker,
        )
}

/// The message shown when a typed time cannot be read.
pub open spec fn invalid_time_message() -> Seq<char> {
    "Invalid timestamp format.\nExpected: YYYY-MM-DD HH:MM:SS"@
}

/// Confirming a typed time: a time that cannot be read is refused with a message.
/// Otherwise the two times already in the popup are checked: when both read and the start
/// is not after the end, they become the time filter and the rows are recomputed, and the
/// typed time replaces the one being edited; else nothing changes. Either way the overlay
/// closes.
pub open spec fn time_filter_confirmed(a: App, b: App) -> bool {
    let s = time_input_instant(a.time_filter_input_start@);
    let e = time_input_instant(a.time_filter_input_end@);
    if time_input_instant(a.input@) is None {
        &&& b.overlay matches Some(Overlay::Message(t)) && t@ == invalid_time_message()
        &&& b == App { overlay: b.overlay, ..a }
    } else if s is Some && e is Some && s.unwrap() <= e.unwrap() {
        let m = App {
            time_filter: Some(TimeFilter { start: s.unwrap(), end: e.unwrap() }),
            overlay: None,
            ..a
        };
        &&& view_refreshed(m, b)
        &&& (a.time_filter_focus == TimeFilterFocus::Start ==> b.time_filter_input_start@ == a.input@
            && b.time_filter_input_end == a.time_filter_input_end)
        &&& (a.time_filter_focus == TimeFilterFocus::End ==> b.time_filter_input_end@ == a.input@
            && b.time_filter_input_start == a.time_filter_input_start)
        &&& b == App {
            visible: b.visible,
            expanded_rows: b.expanded_rows, events_list_state: b.events_list_state, event_filter_list_state: b.event_filter_list_state,
            viewport: b.viewport,
            search: b.search,
            time_filter_input_start: b.time_filter_input_start,
            time_filter_input_end: b.time_filter_input_end,
            ..m
        }
    } else {
        b == App { overlay: None, ..a }
    }
}

/// Confirming in a view with no overlay that takes the step (see `confirmed`).
pub open spec fn view_confirmed(a: App, b: App) -> bool {
    match a.view_state {
        ViewState::ActiveSearchMode => search_confirmed(a, b),
        ViewState::ActiveFilterMode => filter_confirmed(a, b),
        ViewState::EventsView => {
            &&& event_selected_goto(a, App { view_state: a.view_state, overlay: a.overlay, ..b }, true)
            &&& b.view_state == ViewState::LogView
            &&& b.overlay is None
        },
        ViewState::OptionsView => options_confirmed(a, b),
        ViewState::MarksView => marks_view_confirmed(a, b),
        ViewState::GotoLineMode => goto_line_confirmed(a, b),
        _ => b == a,
    }
}

/// Confirming: an overlay takes the step when it has one (an error does not); a
/// non-empty file name asks for the log to be saved there; otherwise the view takes it.
pub open spec fn confirmed(a: App, b: App, act: Action) -> bool {
    match a.overlay {
        Some(Overlay::EditFilter) => act is Nothing && edit_filter_confirmed(a, b),
        Some(Overlay::SaveToFile) => if a.input@.len() > 0 {
            &&& act matches Action::SaveToFile(path) && path@ == a.input@
            &&& b == a
        } else {
            act is Nothing && b == App { overlay: None, ..a }
        },
        Some(Overlay::MarkName) => act is Nothing && mark_name_confirmed(a, b),
        Some(Overlay::AddCustomEvent) => act is Nothing && custom_event_confirmed(a, b),
        Some(Overlay::EventsFilter) => act is Nothing && b == App {
            view_state: ViewState::LogView,
            overlay: None,
            ..a
        },
        Some(Overlay::EditTimeFilter) => act is Nothing && time_filter_confirmed(a, b),
        Some(Overlay::Message(_)) => act is Nothing && b == App { overlay: None, ..a },
        _ => act is Nothing && view_confirmed(a, b),
    }
}

/// A custom event made from the typed text gets a name that cuts the text at a character
/// boundary.
pub open spec fn custom_text_ok(a: App) -> bool {
    a.overlay == Some(Overlay::AddCustomEvent) && a.input@.len() > 0 && !has_plain_pattern(
        a.event_tracker.patterns(),
        a.input@,
    ) && utf8(a.input@).len() > 16 ==> is_char_boundary(utf8(a.input@), 13)
}

fn zero_hits_text(p: &str, total: usize) -> (r: String)
    ensures
        r@ == zero_hits_message(p@, total as nat),
{
    let mut s = String::new();
    push_text(&mut s, "0 hits for '");
    push_text(&mut s, p);
    push_text(&mut s, "'");
    if total > 0 {
        push_text(&mut s, " (");
        push_decimal(&mut s, total as u64);
        push_text(&mut s, " in filtered lines)");
    }
    s
}

proof fn lemma_positions_len(lines: Seq<Seq<char>>, p: Seq<char>, cs: bool)
    ensures
        matching_positions(lines, p, cs).len() <= lines.len(),
    decreases lines.len(),
{
    if lines.len() > 0 {
        lemma_positions_len(lines.drop_last(), p, cs);
    }
}

pub(crate) fn contains_row(rows: &Vec<usize>, x: usize) -> (r: bool)
    ensures
        r == rows@.contains(x),
{
    let mut k: usize = 0;
    while k < rows.len()
        invariant
            k <= rows@.len(),
            forall|j: int| 0 <= j < k ==> rows@[j] != x,
        decreases rows@.len() - k,
    {
        if rows[k] == x {
            return true;
        }
        k += 1;
    }
    false
}

impl App {
    /// The marked lines listed in the marks view (see `listed_marks`).
    pub fn get_visible_marks(&self) -> (r: Vec<usize>)
        ensures
            r@ == listed_marks(*self),
    {
        let marks = self.marking.get_marks();
        let mut out: Vec<usize> = Vec::new();
        let mut k: usize = 0;
        while k < marks.len()
            invariant
                k <= marks@.len(),
                marks@ == self.marking.ordered(),
                out@ == marks_on_rows(marks@.take(k as int), self.visible@),
            decreases marks@.len() - k,
        {
            assert(marks@.take(k + 1).drop_last() =~= marks@.take(k as int));
            let line = marks[k].line_index;
            if contains_row(&self.visible, line) {
                out.push(line);
            }
            k += 1;
        }
        assert(marks@.take(k as int) =~= marks@);
        out
    }

    /// Selects, centered or kept in view, the first row that shows a log line, ending
    /// following; nothing changes when no row shows it.
    pub fn goto_line(&mut self, log_index: usize, center: bool)
        requires
            old(self).wf(),
        ensures
            final(self).wf(),
            *final(self) == (App { viewport: final(self).viewport, ..*old(self) }),
            final(self).viewport == match first_row_of(old(self).visible@, log_index, 0) {
                Some(row) => {
                    let u = Viewport { selected_line: row as usize, follow_mode: false, ..old(self).viewport };
                    if center {
                        centered(u)
                    } else {
                        adjusted(u)
                    }
                },
                None => old(self).viewport,
            },
    {
        match find_row(&self.visible, log_index) {
            Some(row) => {
                proof {
                    crate::app::lemma_first_row_in_range(self.visible@, log_index, 0);
                }
                self.viewport.goto_line(row, center);
            },
            None => {},
        }
    }

    /// Records a log line in the history and selects the first row that shows it.
    pub(crate) fn goto_log_line(&mut self, line: usize, center: bool)
        ensures
            jumped_to_line(old(self).viewport, final(self).viewport, old(self).visible@, line, center),
            *final(self) == (App { viewport: final(self).viewport, ..*old(self) }),
    {
        self.viewport.push_history(line);
        let ghost pushed = self.viewport;
        match find_row(&self.visible, line) {
            Some(row) => {
                self.viewport.goto_line(row, center);
                assert(self.viewport.history == pushed.history);
            },
            None => {},
        }
    }

    /// Goes to the mark selected in the marks view and shows the log view.
    fn confirm_marks_view(&mut self)
        requires
            old(self).wf(),
        ensures
            final(self).wf(),
            marks_view_confirmed(*old(self), *final(self)),
    {
        let ls = self.get_visible_marks();
        let k = self.marking_list_state.selected_index();
        if k < ls.len() {
            self.goto_log_line(ls[k], true);
        }
        self.set_view_state(ViewState::LogView);
    }

    /// Names the mark selected in the marks view and closes the overlay.
    fn confirm_mark_name(&mut self)
        requires
            old(self).wf(),
        ensures
            final(self).wf(),
            mark_name_confirmed(*old(self), *final(self)),
    {
        match self.named_mark() {
            Some(l) => self.marking.set_mark_name(l, self.input.as_str()),
            None => {},
        }
        self.close_overlay();
    }

    /// The line of the mark a name is given to (see `named_mark_line`).
    pub(crate) fn named_mark(&self) -> (r: Option<usize>)
        ensures
            r == named_mark_line(*self),
    {
        if self.view_state == ViewState::MarksView {
            let ls = self.get_visible_marks();
            let k = self.marking_list_state.selected_index();
            if k < ls.len() {
                Some(ls[k])
            } else {
                None
            }
        } else if self.view_state == ViewState::EventsView && self.event_tracker.showing_marks() {
            let items = self.events_list();
            let k = self.events_list_state.selected_index();
            if k < items.len() && items[k].1 {
                Some(items[k].0)
            } else {
                None
            }
        } else {
            None
        }
    }
}

impl App {
    /// Replaces the selected filter pattern's text with the typed one and closes the overlay.
    fn confirm_edit_filter(&mut self)
        requires
            old(self).wf(),
        ensures
            final(self).wf(),
            edit_filter_confirmed(*old(self), *final(self)),
    {
        if !self.input.as_str().is_empty() {
            let k = self.filter_list_state.selected_index();
            self.filter.update_pattern(k, self.input.as_str());
            self.expansion.clear();
            self.update_view();
        }
        self.close_overlay();
    }

    /// Adds the typed filter pattern and shows the log view.
    fn confirm_filter(&mut self)
        requires
            old(self).wf(),
        ensures
            final(self).wf(),
            filter_confirmed(*old(self), *final(self)),
    {
        if !self.input.as_str().is_empty() {
            self.filter.add_filter_from_pattern(self.input.as_str());
            let n = self.filter.count();
            self.filter_list_state.set_item_count(n);
            self.expansion.clear();
            self.update_view();
        }
        self.set_view_state(ViewState::LogView);
    }

    /// Switches the selected option on and shows the log view.
    fn confirm_options(&mut self)
        requires
            old(self).wf(),
        ensures
            final(self).wf(),
            options_confirmed(*old(self), *final(self)),
    {
        let k = self.options_list_state.selected_index();
        self.options.enable_option(k);
        self.update_view();
        self.set_view_state(ViewState::LogView);
    }
}

impl App {
    /// Applies the typed search (see `search_confirmed`).
    fn confirm_search(&mut self)
        requires
            old(self).wf(),
        ensures
            final(self).wf(),
            search_confirmed(*old(self), *final(self)),
    {
        if self.input.as_str().is_empty() {
            self.search.clear_matches();
            self.set_view_state(ViewState::LogView);
            return;
        }
        let lines = self.log_buffer.all_lines();
        let shown = row_contents(lines, &self.visible);
        let all = line_contents(lines);
        let shown_count = shown.len();
        proof {
            lemma_positions_len(crate::search::texts(shown@), self.input@, self.search.case_sensitive());
        }
        let found = self.search.apply_pattern(self.input.as_str(), shown.as_slice());
        let total = self.search.count_matches(self.input.as_str(), all.as_slice());
        self.search.set_total_match_count(total);
        let none_shown = match found {
            Some(c) => c == 0,
            None => false,
        };
        if none_shown {
            let text = zero_hits_text(self.input.as_str(), total);
            self.overlay = Some(Overlay::Message(text));
            return;
        }
        if !self.options.is_enabled(AppOption::SearchDisableJumping) && !self.viewport.follow_mode {
            match self.search.first_match_from(self.viewport.selected_line) {
                Some(row) => {
                    if row < self.visible.len() {
                        self.viewport.push_history(self.visible[row]);
                    }
                    let ghost pushed = self.viewport;
                    self.viewport.goto_line(row, false);
                    assert(self.viewport.history == pushed.history);
                },
                None => {},
            }
            self.viewport.follow_mode = false;
            proof {
                self.search.lemma_counts_nonneg();
            }
        }
        self.set_view_state(ViewState::LogView);
    }

    /// Adds the typed custom event and scans the log again (see `custom_event_confirmed`).
    fn confirm_custom_event(&mut self)
        requires
            old(self).wf(),
            custom_text_ok(*old(self)),
            old(self).overlay == Some(Overlay::AddCustomEvent),
        ensures
            final(self).wf(),
            custom_event_confirmed(*old(self), *final(self)),
    {
        if !self.input.as_str().is_empty() {
            if self.event_tracker.add_custom_event(self.input.as_str()) {
                let ghost ps = self.event_tracker.patterns();
                self.event_tracker.scan_all_lines(&self.log_buffer);
                assert(custom_pattern_added(old(self).event_tracker.patterns(), ps, old(self).input@));
                assert(rescanned(ps, self.log_buffer.lines(), self.event_tracker));
                self.close_overlay();
                self.recount_events(false, false);
                return;
            }
        }
        self.close_overlay();
    }

    /// Takes the typed time for the time filter (see `time_filter_confirmed`).
    fn confirm_time_filter(&mut self)
        requires
            old(self).wf(),
        ensures
            final(self).wf(),
            time_filter_confirmed(*old(self), *final(self)),
    {
        match parse_time_input(self.input.as_str()) {
            None => {
                self.overlay = Some(
                    Overlay::Message(String::from_str("Invalid timestamp format.\nExpected: YYYY-MM-DD HH:MM:SS")),
                );
                return;
            },
            Some(_) => {},
        }
        let start = parse_time_input(self.time_filter_input_start.as_str());
        let end = parse_time_input(self.time_filter_input_end.as_str());
        match (start, end) {
            (Some(s), Some(e)) => {
                if s <= e {
                    self.time_filter = Some(TimeFilter::new(s, e));
                    self.close_overlay();
                    self.update_view();
                    match self.time_filter_focus {
                        TimeFilterFocus::Start => self.time_filter_input_start = self.input.clone(),
                        TimeFilterFocus::End => self.time_filter_input_end = self.input.clone(),
                    }
                }
            },
            _ => {},
        }
        self.close_overlay();
    }

    /// Confirms the current overlay or view (see `confirmed`); the action says what else
    /// to do.
    pub fn confirm(&mut self) -> (act: Action)
        requires
            old(self).wf(),
            custom_text_ok(*old(self)),
        ensures
            final(self).wf(),
            confirmed(*old(self), *final(self), act),
    {
        match &self.overlay {
            Some(Overlay::EditFilter) => {
                self.confirm_edit_filter();
                return Action::Nothing;
            },
            Some(Overlay::SaveToFile) => {
                if !self.input.as_str().is_empty() {
                    return Action::SaveToFile(self.input.clone());
                }
                self.close_overlay();
                return Action::Nothing;
            },
            Some(Overlay::MarkName) => {
                self.confirm_mark_name();
                return Action::Nothing;
            },
            Some(Overlay::AddCustomEvent) => {
                self.confirm_custom_event();
                return Action::Nothing;
            },
            Some(Overlay::EventsFilter) => {
                self.set_view_state(ViewState::LogView);
                return Action::Nothing;
            },
            Some(Overlay::EditTimeFilter) => {
                self.confirm_time_filter();
                return Action::Nothing;
            },
            Some(Overlay::Message(_)) => {
                self.close_overlay();
                return Action::Nothing;
            },
            _ => {},
        }
        match self.view_state {
            ViewState::ActiveSearchMode => self.confirm_search(),
            ViewState::ActiveFilterMode => self.confirm_filter(),
            ViewState::EventsView => {
                self.goto_selected_event(true);
                self.set_view_state(ViewState::LogView);
            },
            ViewState::OptionsView => self.confirm_options(),
            ViewState::MarksView => self.confirm_marks_view(),
            ViewState::GotoLineMode => self.confirm_goto_line(),
            _ => {},
        }
        Action::Nothing
    }
}

impl App {
    /// Cancels the current overlay or mode (see `cancelled`).
    pub fn cancel(&mut self)
        requires
            old(self).wf(),
        ensures
            final(self).wf(),
            cancelled(*old(self), *final(self)),
    {
        match &self.overlay {
            Some(o) => {
                match o {
                    Overlay::EditFilter => self.set_view_state(ViewState::FilterView),
                    Overlay::SaveToFile | Overlay::Message(_) => self.set_view_state(ViewState::LogView),
                    Overlay::Error(_) => {},
                    _ => self.close_overlay(),
                }
                return;
            },
            None => {},
        }
        match self.view_state {
            ViewState::ActiveSearchMode => {
                self.search.clear_matches();
                self.set_view_state(ViewState::LogView);
            },
            ViewState::LogView => {
                if self.show_marked_lines_only {
                    self.show_marked_lines_only = false;
                    self.update_view();
                }
                self.search.clear_matches();
            },
            ViewState::SelectionMode => {
                self.cancel_selection();
                self.set_view_state(ViewState::LogView);
            },
            _ => self.set_view_state(ViewState::LogView),
        }
    }
}

/// A new application: the log view with no lines yet, help built from the default
/// keybindings, the configured filters followed by the extra ones, the configured event
/// patterns, and the files given. Reading a stream starts following it; with neither a
/// stream nor files an error says so.
pub open spec fn started(config: Config, extra: Seq<FilterSpec>, paths: Seq<Seq<char>>, use_stdin: bool, r: App) -> bool {
    let n = config.filters@.len();
    &&& r.running
    &&& r.view_state == ViewState::LogView
    &&& r.help.items() == help_table(default_table())
    &&& !r.help.shown()
    &&& r.filter.patterns().len() == n + extra.len()
    &&& forall|i: int| 0 <= i < n ==> #[trigger] r.filter.patterns()[i] == filter_of(config.filters@[i])
    &&& forall|j: int| 0 <= j < extra.len() ==> #[trigger] r.filter.patterns()[n + j] == extra[j]
    &&& r.filter_list_state.count() == n + extra.len()
    &&& r.filter_list_state.selected() == 0
    &&& r.config == config
    &&& r.event_tracker.patterns().len() == kept_events(config.events@).len()
    &&& forall|i: int|
        0 <= i < kept_events(config.events@).len() ==> event_pattern_from(
            #[trigger] r.event_tracker.patterns()[i],
            kept_events(config.events@)[i],
        )
    &&& !r.event_tracker.marks_shown()
    &&& r.event_tracker.events() == Seq::<LogEvent>::empty()
    &&& r.file_manager.entries().len() == paths.len()
    &&& forall|i: int|
        0 <= i < paths.len() ==> (#[trigger] r.file_manager.entries()[i]).path@ == paths[i] && r.file_manager.entries()[i].file_id
            == i && r.file_manager.entries()[i].enabled
    &&& r.files_list_state.count() == paths.len()
    &&& r.files_list_state.selected() == 0
    &&& r.log_buffer.lines() == Seq::<LogLine>::empty()
    &&& r.log_buffer.is_streaming() == use_stdin
    &&& r.viewport.follow_mode == use_stdin
    &&& r.viewport.total_lines == 0
    &&& r.viewport.selected_line == 0
    &&& r.visible@ == Seq::<usize>::empty()
    &&& r.input@ == Seq::<char>::empty()
    &&& r.search.pattern() is None
    &&& r.marking@ == Map::<usize, Option<Seq<char>>>::empty()
    &&& r.expansion@ == Map::<usize, Seq<usize>>::empty()
    &&& !r.show_marked_lines_only
    &&& r.time_filter is None
    &&& r.time_filter_input_start@ == Seq::<char>::empty()
    &&& r.time_filter_input_end@ == Seq::<char>::empty()
    &&& r.time_filter_focus == TimeFilterFocus::Start
    &&& r.selection_range is None
    &&& r.completion.words() == Seq::<Seq<char>>::empty()
    &&& r.events_list_state.count() == 0
    &&& r.event_filter_list_state.count() == kept_events(config.events@).len()
    &&& !r.streaming_paused
    &&& (if !use_stdin && paths.len() == 0 {
        r.overlay matches Some(Overlay::Error(t)) && t@ == "No file paths provided"@
    } else {
        r.overlay is None
    })
}

impl App {
    /// Creates the application (see `started`).
    pub fn new(config: Config, extra_filters: Vec<FilterPattern>, file_paths: &[String], use_stdin: bool) -> (r: App)
        ensures
            r.wf(),
            started(config, filter_specs(extra_filters@), file_paths@.map_values(|p: String| p@), use_stdin, r),
    {
        let mut patterns = config.parse_filter_patterns();
        let ghost configured = patterns@;
        let mut extra = extra_filters;
        let ghost extra_v = extra@;
        patterns.append(&mut extra);
        let filter = Filter::with_patterns(patterns);
        let count = filter.count();
        let mut filter_list_state = ListViewState::new();
        filter_list_state.set_item_count(count);
        let event_tracker = LogEventTracker::new(config.parse_log_event_patterns());
        let mut app = App {
            running: true,
            config,
            view_state: ViewState::LogView,
            overlay: None,
            log_buffer: LogBuffer::default(),
            viewport: Viewport::default(),
            help: Help::new(),
            search: Search::default(),
            filter,
            filter_list_state,
            options: AppOptions::default(),
            options_list_state: ListViewState::new(),
            input: String::new(),
            streaming_paused: false,
            event_tracker,
            marking: Marking::default(),
            marking_list_state: ListViewState::new(),
            events_list_state: ListViewState::new(),
            event_filter_list_state: ListViewState::new(),
            file_manager: FileManager::new(file_paths),
            files_list_state: ListViewState::new(),
            expansion: Expansions::new(),
            show_marked_lines_only: false,
            time_filter: None,
            time_filter_input_start: String::new(),
            time_filter_input_end: String::new(),
            time_filter_focus: TimeFilterFocus::Start,
            selection_range: None,
            completion: CompletionEngine::new(),
            expanded_rows: Vec::new(),
            visible: Vec::new(),
        };
        let n = app.options.count();
        app.options_list_state.set_item_count(n);
        let files = app.file_manager.count();
        app.files_list_state.set_item_count(files);
        let event_filters = app.event_tracker.filter_count();
        app.event_filter_list_state.set_item_count(event_filters);
        if use_stdin {
            app.log_buffer.init_stdin_mode();
            app.viewport.follow_mode = true;
        } else if file_paths.len() == 0 {
            app.overlay = Some(Overlay::Error(String::from_str("No file paths provided")));
        }
        proof {
            assert(app.filter.patterns() =~= configured.map_values(|f: FilterPattern| f@) + extra_v.map_values(|f: FilterPattern| f@));
        }
        app
    }
}

/// The warning shown when lines of several files were left without a timestamp.
pub open spec fn unstamped_message(k: nat) -> Seq<char> {
    "Warning: Failed to parse timestamps for "@ + decimal(k)
        + " line(s).\nThe line(s) will not be displayed in the correct order!"@
}

/// Loading the files' contents into a new application: the lines are read with their
/// timestamps (syslog times in some year), the rows computed, the events found, and a
/// warning shown when lines of several files were left without a timestamp. With no
/// contents an error says so.
pub open spec fn contents_loaded(a: App, b: App, contents: Seq<Seq<char>>) -> bool {
    if contents.len() == 0 {
        &&& b.overlay matches Some(Overlay::Error(t)) && t@ == "No files provided"@
        &&& b == App { overlay: b.overlay, ..a }
    } else {
        let m = App { log_buffer: b.log_buffer, ..a };
        &&& !b.log_buffer.is_streaming()
        &&& view_refreshed(m, b)
        &&& events_view(b.event_tracker.events()) == scanned_events(a.event_tracker.patterns(), b.log_buffer.lines())
        &&& b.event_tracker.patterns().len() == a.event_tracker.patterns().len()
        &&& b.completion.wf()
        &&& b.completion.words() == with_line_words(
            a.completion.words(),
            Seq::new(b.visible@.len(), |j: int| &b.log_buffer.lines()[b.visible@[j] as int]),
        )
        &&& b == App {
            log_buffer: b.log_buffer,
            visible: b.visible,
            expanded_rows: b.expanded_rows, events_list_state: b.events_list_state, event_filter_list_state: b.event_filter_list_state,
            viewport: b.viewport,
            search: b.search,
            event_tracker: b.event_tracker,
            completion: b.completion,
            overlay: b.overlay,
            ..a
        }
        &&& exists|year: i32, k: usize|
            clock_year(year) && #[trigger] loaded_as(a.log_buffer.lines(), contents, true, year as int, b.log_buffer.lines(), Ok(k)) && (k > 0
                ==> (b.overlay matches Some(Overlay::Message(t)) && t@ == unstamped_message(k as nat))) && (k == 0
                ==> b.overlay == a.overlay)
    }
}

fn unstamped_text(k: usize) -> (r: String)
    ensures
        r@ == unstamped_message(k as nat),
{
    let mut s = String::new();
    push_text(&mut s, "Warning: Failed to parse timestamps for ");
    push_decimal(&mut s, k as u64);
    push_text(&mut s, " line(s).\nThe line(s) will not be displayed in the correct order!");
    s
}

impl App {
    /// Adds the words of the lines on the rows to the completion words.
    fn update_completion_words(&mut self)
        requires
            old(self).wf(),
        ensures
            final(self).wf(),
            final(self).completion.words() == with_line_words(
                old(self).completion.words(),
                Seq::new(old(self).visible@.len(), |j: int| &old(self).log_buffer.lines()[old(self).visible@[j] as int]),
            ),
            *final(self) == (App { completion: final(self).completion, ..*old(self) }),
    {
        let all = self.log_buffer.all_lines();
        let mut refs: Vec<&LogLine> = Vec::new();
        let mut i: usize = 0;
        while i < self.visible.len()
            invariant
                i <= self.visible@.len(),
                all@ == self.log_buffer.lines(),
                forall|k: int| 0 <= k < self.visible@.len() ==> (#[trigger] self.visible@[k]) < all@.len(),
                refs@.len() == i,
                forall|k: int| 0 <= k < i ==> #[trigger] refs@[k] == &all@[self.visible@[k] as int],
            decreases self.visible@.len() - i,
        {
            refs.push(&all[self.visible[i]]);
            i += 1;
        }
        proof {
            assert(refs@ =~= Seq::new(self.visible@.len(), |j: int| &self.log_buffer.lines()[self.visible@[j] as int]));
        }
        self.completion.update(refs.as_slice());
    }

    /// Loads the contents of the files into a new application (see `contents_loaded`).
    pub fn load_contents(&mut self, contents: &[String])
        requires
            old(self).wf(),
            old(self).log_buffer.lines().len() == 0,
        ensures
            final(self).wf(),
            contents_loaded(*old(self), *final(self), crate::log::texts(contents@)),
    {
        if contents.len() == 0 {
            self.overlay = Some(Overlay::Error(String::from_str("No files provided")));
            return;
        }
        match self.log_buffer.load_files(contents, true) {
            Ok(skipped) => {
                let ghost loaded = self.log_buffer.lines();
                self.update_view();
                self.update_completion_words();
                self.event_tracker.scan_all_lines(&self.log_buffer);
                if skipped > 0 {
                    self.overlay = Some(Overlay::Message(unstamped_text(skipped)));
                }
                proof {
                    let year = choose|year: i32|
                        clock_year(year) && #[trigger] loaded_as(
                            old(self).log_buffer.lines(),
                            crate::log::texts(contents@),
                            true,
                            year as int,
                            loaded,
                            Ok::<usize, String>(skipped),
                        );
                    assert(loaded_as(
                        old(self).log_buffer.lines(),
                        crate::log::texts(contents@),
                        true,
                        year as int,
                        self.log_buffer.lines(),
                        Ok::<usize, String>(skipped),
                    ));
                }
            },
            Err(e) => {
                self.overlay = Some(Overlay::Error(e));
            },
        }
    }
}

/// The viewport as a kept session puts it back: over some rows the selection and top
/// line (clamped to the rows) and the horizontal offset; the centering mode in any case.
pub open spec fn restored_viewport(v: Viewport, kept: ViewportState, rows: nat) -> Viewport {
    if rows > 0 {
        Viewport {
            selected_line: if kept.selected_line < rows { kept.selected_line } else { (rows - 1) as usize },
            top_line: if kept.top_line < sat_sub(rows as int, v.height as int) {
                kept.top_line
            } else {
                sat_sub(rows as int, v.height as int) as usize
            },
            horizontal_offset: kept.horizontal_offset,
            center_cursor_mode: kept.center_cursor_mode,
            ..v
        }
    } else {
        Viewport { center_cursor_mode: kept.center_cursor_mode, ..v }
    }
}

/// The texts of the kept custom events.
pub open spec fn kept_custom_texts(st: PersistedState) -> Seq<Seq<char>> {
    custom_texts(st.custom_events@)
}

/// Each text that adding the custom events in turn to patterns `ps` would add (a
/// non-empty one not yet used, nor used by an earlier text) makes a name that cuts it at a
/// character boundary.
pub open spec fn customs_ok(ps: Seq<EventPattern>, texts: Seq<Seq<char>>) -> bool {
    forall|i: int|
        0 <= i < texts.len() && (#[trigger] texts[i]).len() > 0 && !has_plain_pattern(ps, texts[i])
            && !(exists|j: int| 0 <= j < i && texts[j] == texts[i]) && utf8(texts[i]).len() > 16
            ==> is_char_boundary(utf8(texts[i]), 13)
}

/// Each kept custom event that restoring would add makes a name that cuts its text at a
/// character boundary.
pub open spec fn custom_events_ok(a: App, st: PersistedState) -> bool {
    customs_ok(a.event_tracker.patterns(), kept_custom_texts(st))
}

/// The texts that offering each text in turn as a custom event to patterns `old` adds: a
/// non-empty text not yet used by a plain-text pattern, nor added before.
pub open spec fn added_texts(old: Seq<EventPattern>, texts: Seq<Seq<char>>) -> Seq<Seq<char>>
    decreases texts.len(),
{
    if texts.len() == 0 {
        Seq::empty()
    } else {
        let prev = added_texts(old, texts.drop_last());
        let t = texts.last();
        if t.len() > 0 && !has_plain_pattern(old, t) && !prev.contains(t) {
            prev.push(t)
        } else {
            prev
        }
    }
}

/// `p` is the custom event pattern `add_custom_event` makes for text `t`.
pub open spec fn custom_pattern_for(p: EventPattern, t: Seq<char>) -> bool {
    &&& p.name@ == custom_event_name(t)
    &&& p.matcher matches PatternMatcher::Plain(m) && m.pattern@ == t && m.case_sensitive
    &&& p.enabled
    &&& p.count == 0
    &&& !p.critical
    &&& p.is_custom
}

/// `ps` is `old` after each text in turn is offered as a custom event: the patterns of
/// the added texts (`added_texts`) follow the old ones, in order.
pub open spec fn customs_added(old: Seq<EventPattern>, texts: Seq<Seq<char>>, ps: Seq<EventPattern>) -> bool {
    let added = added_texts(old, texts);
    &&& ps.len() == old.len() + added.len()
    &&& ps.take(old.len() as int) == old
    &&& forall|i: int| 0 <= i < added.len() ==> custom_pattern_for(#[trigger] ps[old.len() + i], added[i])
}

/// Kept filters as filter specs.
pub open spec fn filter_states_view(fs: Seq<FilterPatternState>) -> Seq<FilterSpec> {
    fs.map_values(
        |f: FilterPatternState|
            FilterSpec { pattern: f.pattern@, mode: f.mode, case_sensitive: f.case_sensitive, enabled: f.enabled },
    )
}

/// The filters as kept.
pub open spec fn kept_filters(st: PersistedState) -> Seq<FilterSpec> {
    filter_states_view(st.filters@)
}

/// The texts of kept custom events.
pub open spec fn custom_texts(cs: Seq<CustomEventState>) -> Seq<Seq<char>> {
    cs.map_values(|c: CustomEventState| c.pattern@)
}

/// The filters and the filter history after each filter in turn is added (see
/// `Filter::add_filter`): a filter whose text and mode are not yet there is appended, and
/// its text, mode and case sensitivity recorded in the history unless already there.
pub open spec fn filters_added(
    ps: Seq<FilterSpec>,
    h: Seq<(Seq<char>, ActiveFilterMode, bool)>,
    fs: Seq<FilterSpec>,
) -> (Seq<FilterSpec>, Seq<(Seq<char>, ActiveFilterMode, bool)>)
    decreases fs.len(),
{
    if fs.len() == 0 {
        (ps, h)
    } else {
        let prev = filters_added(ps, h, fs.drop_last());
        let f = fs.last();
        let entry = (f.pattern, f.mode, f.case_sensitive);
        if pattern_in(prev.0, f.pattern, f.mode) {
            prev
        } else {
            (prev.0.push(f), if prev.1.contains(entry) {
                prev.1
            } else {
                prev.1.push(entry)
            })
        }
    }
}

/// The marks after each kept mark on one of the first `n` lines in turn toggles its line
/// and, when the line is then marked and the kept mark has a name, names it.
pub open spec fn marks_added(m: Map<usize, Option<Seq<char>>>, ks: Seq<MarkState>, n: nat) -> Map<
    usize,
    Option<Seq<char>>,
>
    decreases ks.len(),
{
    if ks.len() == 0 {
        m
    } else {
        let p = marks_added(m, ks.drop_last(), n);
        let k = ks.last();
        if k.line_index < n {
            let t = toggled_mark(p, k.line_index);
            match k.name {
                Some(name) => if t.contains_key(k.line_index) {
                    t.insert(k.line_index, Some(name@))
                } else {
                    t
                },
                None => t,
            }
        } else {
            p
        }
    }
}

/// The kept event-filter states as names and flags.
pub open spec fn kept_flags(st: PersistedState) -> Seq<(Seq<char>, bool)> {
    st.event_filters@.map_values(|e: EventFilterState| (e.name@, e.enabled))
}

/// A kept session put back: the options and both histories as kept; the kept filters added
/// in turn (`filters_added`, which also records them in the filter history); the kept
/// marks on existing lines toggled and named in turn (`marks_added`); the kept custom
/// events offered in turn (`customs_added`) and then the kept event-filter states set by
/// name (`restored`); the viewport as `restored_viewport` says, and the rows recomputed.
pub open spec fn session_restored(a: App, st: PersistedState, b: App) -> bool {
    let pre = App { viewport: restored_viewport(a.viewport, st.viewport, a.visible@.len()), ..a };
    let lines = a.log_buffer.lines();
    let fl = filters_added(
        a.filter.patterns(),
        st.filter_history@.map_values(|e: FilterHistoryEntry| e@),
        kept_filters(st),
    );
    &&& b.options.defs() == restored_options(a.options.defs(), option_states_view(st.options@))
    &&& b.search.hist()@ == persisted_texts(st.search_history@)
    &&& b.search.hist().position() is None
    &&& b.search.pattern() == a.search.pattern()
    &&& b.filter.patterns() == fl.0
    &&& b.filter.hist()@ == fl.1
    &&& b.filter.hist().position() is None
    &&& b.filter.mode() == a.filter.mode()
    &&& b.filter.case_sensitive() == a.filter.case_sensitive()
    &&& b.filter_list_state.wf()
    &&& b.filter_list_state.count() == b.filter.patterns().len()
    &&& b.filter_list_state.height() == a.filter_list_state.height()
    &&& b.marking@ == marks_added(a.marking@, st.marks@, lines.len())
    &&& exists|ps: Seq<EventPattern>|
        customs_added(a.event_tracker.patterns(), kept_custom_texts(st), ps) && #[trigger] restored(ps, kept_flags(st))
            == b.event_tracker.patterns()
    &&& b.event_tracker.events() == a.event_tracker.events()
    &&& b.event_tracker.marks_shown() == a.event_tracker.marks_shown()
    &&& b.visible@ == visible_lines(b)
    &&& b.viewport == viewport_after(pre, b.visible@)
    &&& events_lists_recounted(
        App { events_list_state: a.events_list_state, event_filter_list_state: a.event_filter_list_state, ..b },
        b,
        false,
        false,
    )
    &&& b.log_buffer == a.log_buffer
    &&& b.view_state == a.view_state
    &&& b.overlay == a.overlay
    &&& b.input == a.input
}

fn copy_entries<T: HistoryEntry>(s: &[T]) -> (r: Vec<T>)
    ensures
        r@.map_values(|e: T| e@) == s@.map_values(|e: T| e@),
{
    let mut out: Vec<T> = Vec::new();
    let mut i: usize = 0;
    while i < s.len()
        invariant
            i <= s@.len(),
            out@.len() == i,
            forall|k: int| 0 <= k < i ==> (#[trigger] out@[k])@ == s@[k]@,
        decreases s@.len() - i,
    {
        out.push(s[i].duplicate());
        i += 1;
    }
    assert(out@.map_values(|e: T| e@) =~= s@.map_values(|e: T| e@));
    out
}

fn add_saved_filters(filter: &mut Filter, filters: &[FilterPatternState])
    requires
        old(filter).hist().wf(),
    ensures
        final(filter).hist().wf(),
        ({
            let r = filters_added(old(filter).patterns(), old(filter).hist()@, filter_states_view(filters@));
            &&& final(filter).patterns() == r.0
            &&& final(filter).hist()@ == r.1
        }),
        old(filter).hist().position() is None ==> final(filter).hist().position() is None,
        final(filter).mode() == old(filter).mode(),
        final(filter).case_sensitive() == old(filter).case_sensitive(),
{
    let ghost before = filter.patterns();
    let ghost hbefore = filter.hist()@;
    let ghost fs = filter_states_view(filters@);
    let mut i: usize = 0;
    while i < filters.len()
        invariant
            i <= filters@.len(),
            fs == filter_states_view(filters@),
            filter.hist().wf(),
            filter.patterns() == filters_added(before, hbefore, fs.take(i as int)).0,
            filter.hist()@ == filters_added(before, hbefore, fs.take(i as int)).1,
            old(filter).hist().position() is None ==> filter.hist().position() is None,
            filter.mode() == old(filter).mode(),
            filter.case_sensitive() == old(filter).case_sensitive(),
        decreases filters@.len() - i,
    {
        let f = &filters[i];
        let p = FilterPattern::new(f.pattern.clone(), f.mode, f.case_sensitive, f.enabled);
        proof {
            assert(fs.take(i + 1).drop_last() =~= fs.take(i as int));
            assert(p@ == fs[i as int]);
        }
        filter.add_filter(&p);
        i += 1;
    }
    proof {
        assert(fs.take(i as int) =~= fs);
    }
}

fn add_saved_marks(marking: &mut Marking, marks: &[MarkState], line_count: usize)
    requires
        old(marking).wf(),
    ensures
        final(marking).wf(),
        final(marking)@ == marks_added(old(marking)@, marks@, line_count as nat),
{
    let ghost marked_before = marking@;
    let mut j: usize = 0;
    while j < marks.len()
        invariant
            j <= marks@.len(),
            marking.wf(),
            marking@ == marks_added(marked_before, marks@.take(j as int), line_count as nat),
        decreases marks@.len() - j,
    {
        proof {
            assert(marks@.take(j + 1).drop_last() =~= marks@.take(j as int));
        }
        let line = marks[j].line_index;
        if line < line_count {
            marking.toggle_mark(line);
            match &marks[j].name {
                Some(name) => marking.set_mark_name(line, name.as_str()),
                None => {},
            }
        }
        j += 1;
    }
    proof {
        assert(marks@.take(j as int) =~= marks@);
    }
}

fn add_saved_custom_events(tracker: &mut LogEventTracker, customs: &[CustomEventState])
    requires
        customs_ok(old(tracker).patterns(), custom_texts(customs@)),
    ensures
        customs_added(old(tracker).patterns(), custom_texts(customs@), final(tracker).patterns()),
        final(tracker).events() == old(tracker).events(),
        final(tracker).marks_shown() == old(tracker).marks_shown(),
{
    let ghost before = tracker.patterns();
    let ghost texts = custom_texts(customs@);
    proof {
        assert(texts.take(0) =~= Seq::<Seq<char>>::empty());
        assert(added_texts(before, texts.take(0)) =~= Seq::<Seq<char>>::empty());
        assert(before.take(before.len() as int) =~= before);
    }
    let mut c: usize = 0;
    while c < customs.len()
        invariant
            c <= customs@.len(),
            texts == custom_texts(customs@),
            customs_ok(before, texts),
            customs_added(before, texts.take(c as int), tracker.patterns()),
            forall|t: Seq<char>|
                #[trigger] has_plain_pattern(tracker.patterns(), t) == (has_plain_pattern(before, t) || added_texts(
                    before,
                    texts.take(c as int),
                ).contains(t)),
            forall|j: int| 0 <= j < c && (#[trigger] texts[j]).len() > 0 ==> has_plain_pattern(tracker.patterns(), texts[j]),
            tracker.events() == old(tracker).events(),
            tracker.marks_shown() == old(tracker).marks_shown(),
        decreases customs@.len() - c,
    {
        let ghost prev = tracker.patterns();
        let ghost t = texts[c as int];
        let ghost ap = added_texts(before, texts.take(c as int));
        proof {
            assert(texts.take(c + 1).drop_last() =~= texts.take(c as int));
            assert(texts.take(c + 1).last() == t);
            assert(customs@[c as int].pattern@ == t);
            assert(has_plain_pattern(prev, t) == (has_plain_pattern(before, t) || ap.contains(t)));
            if t.len() > 0 && !has_plain_pattern(prev, t) {
                assert(!(exists|j: int| 0 <= j < c && texts[j] == t));
            }
        }
        let added = tracker.add_custom_event(customs[c].pattern.as_str());
        proof {
            let now = tracker.patterns();
            let an = added_texts(before, texts.take(c + 1));
            if added {
                assert(an == ap.push(t));
                assert forall|x: Seq<char>|
                    #[trigger] has_plain_pattern(now, x) == (has_plain_pattern(before, x) || an.contains(x)) by {
                    if has_plain_pattern(prev, x) {
                        let i = choose|i: int|
                            0 <= i < prev.len() && (#[trigger] prev[i].matcher matches PatternMatcher::Plain(m) && m.pattern@
                                == x);
                        assert(now.take(prev.len() as int)[i] == prev[i]);
                    }
                    if has_plain_pattern(now, x) {
                        let i = choose|i: int|
                            0 <= i < now.len() && (#[trigger] now[i].matcher matches PatternMatcher::Plain(m) && m.pattern@
                                == x);
                        if i < prev.len() {
                            assert(now.take(prev.len() as int)[i] == prev[i]);
                            assert(has_plain_pattern(prev, x));
                        } else {
                            assert(x == t);
                        }
                    }
                    if x == t {
                        assert(now[prev.len() as int].matcher matches PatternMatcher::Plain(m) && m.pattern@ == t);
                    }
                    assert(an.contains(x) == (ap.contains(x) || x == t)) by {
                        if an.contains(x) {
                            let k = choose|k: int| 0 <= k < an.len() && an[k] == x;
                            if k < ap.len() {
                                assert(ap[k] == an[k]);
                            }
                        }
                        if ap.contains(x) {
                            let k = choose|k: int| 0 <= k < ap.len() && ap[k] == x;
                            assert(an[k] == ap[k]);
                        }
                        if x == t {
                            assert(an[ap.len() as int] == t);
                        }
                    }
                }
                assert(now.take(before.len() as int) =~= before) by {
                    assert(prev.take(before.len() as int) == before);
                    assert forall|i: int| 0 <= i < before.len() implies now[i] == before[i] by {
                        assert(now.take(prev.len() as int)[i] == prev[i]);
                        assert(prev.take(before.len() as int)[i] == prev[i]);
                    }
                }
                assert forall|i: int| 0 <= i < an.len() implies custom_pattern_for(#[trigger] now[before.len() + i], an[i]) by {
                    if i < ap.len() {
                        assert(now.take(prev.len() as int)[before.len() + i] == prev[before.len() + i]);
                        assert(custom_pattern_for(prev[before.len() + i], ap[i]));
                    }
                }
            } else {
                assert(an == ap);
            }
            if t.len() > 0 {
                assert(has_plain_pattern(now, t));
            }
        }
        c += 1;
    }
    proof {
        assert(texts.take(c as int) =~= texts);
    }
}

fn event_flags(kept: &[EventFilterState]) -> (r: Vec<(String, bool)>)
    ensures
        state_texts(r@) == kept@.map_values(|e: EventFilterState| (e.name@, e.enabled)),
{
    let mut flags: Vec<(String, bool)> = Vec::new();
    let mut e: usize = 0;
    while e < kept.len()
        invariant
            e <= kept@.len(),
            flags@.len() == e,
            forall|i: int| 0 <= i < e ==> (#[trigger] flags@[i]).0@ == kept@[i].name@ && flags@[i].1 == kept@[i].enabled,
        decreases kept@.len() - e,
    {
        flags.push((kept[e].name.clone(), kept[e].enabled));
        e += 1;
    }
    assert(state_texts(flags@) =~= kept@.map_values(|e: EventFilterState| (e.name@, e.enabled)));
    flags
}

impl App {
    /// Puts back a kept session (see `session_restored`).
    pub fn restore_state(&mut self, state: &PersistedState)
        requires
            old(self).wf(),
            custom_events_ok(*old(self), *state),
        ensures
            final(self).wf(),
            session_restored(*old(self), *state, *final(self)),
    {
        let saved = state.options();
        self.options.restore(saved.as_slice());
        self.search.restore_history(copy_entries(state.search_history()));
        self.filter.restore_history(copy_entries(state.filter_history()));
        add_saved_filters(&mut self.filter, state.filters());
        let n = self.filter.count();
        self.filter_list_state.set_item_count(n);
        let line_count = self.log_buffer.get_total_lines_count();
        add_saved_marks(&mut self.marking, state.marks(), line_count);
        add_saved_custom_events(&mut self.event_tracker, state.custom_events());
        let ghost offered = self.event_tracker.patterns();
        let flags = event_flags(state.event_filters());
        self.event_tracker.restore_filter_states(flags.as_slice());
        assert(customs_added(old(self).event_tracker.patterns(), kept_custom_texts(*state), offered));
        assert(restored(offered, kept_flags(*state)) == self.event_tracker.patterns());
        let rows = self.visible.len();
        if rows > 0 {
            let sel = state.viewport_selected_line();
            self.viewport.selected_line = if sel < rows {
                sel
            } else {
                rows - 1
            };
            let room = if rows > self.viewport.height {
                rows - self.viewport.height
            } else {
                0
            };
            let top = state.viewport_top_line();
            self.viewport.top_line = if top < room {
                top
            } else {
                room
            };
            self.viewport.horizontal_offset = state.viewport_horizontal_offset();
        }
        self.viewport.center_cursor_mode = state.viewport_center_cursor_mode();
        let ghost mid = *self;
        self.update_view();
        proof {
            crate::app::lemma_rows_same(
                mid,
                *self,
                self.log_buffer.lines(),
                self.log_buffer.lines().len(),
            );
        }
    }
}

/// Recomputing the rows settles them: after the rows are recomputed, computing them again
/// gives the same rows.
pub proof fn law_rows_settle(a: App, b: App)
    requires
        view_refreshed(a, b),
        b == (App { visible: b.visible,
            expanded_rows: b.expanded_rows, events_list_state: b.events_list_state, event_filter_list_state: b.event_filter_list_state, viewport: b.viewport, search: b.search, ..a }),
    ensures
        visible_lines(b) == b.visible@,
{
    crate::app::lemma_rows_same(a, b, a.log_buffer.lines(), a.log_buffer.lines().len());
}

/// Starting a search and cancelling it leaves the log view with no search, no overlay and
/// an empty input.
pub proof fn law_search_cancelled(a: App, b: App, c: App)
    requires
        search_mode_entered(a, b),
        cancelled(b, c),
    ensures
        c.view_state == ViewState::LogView,
        c.overlay is None,
        c.search.pattern() is None,
        c.input@ == Seq::<char>::empty(),
{
}

/// Editing the focused time of the time filter popup: the input starts from that time and
/// the edit overlay opens.
pub open spec fn time_filter_edit_started(a: App, b: App) -> bool {
    &&& b == App { input: b.input, overlay: Some(Overlay::EditTimeFilter), ..a }
    &&& b.input@ == (if a.time_filter_focus == TimeFilterFocus::Start {
        a.time_filter_input_start@
    } else {
        a.time_filter_input_end@
    })
}

/// Dropping the time filter: the rows are recomputed without it.
pub open spec fn time_filter_cleared(a: App, b: App) -> bool {
    let m = App { time_filter: None, ..a };
    &&& view_refreshed(m, b)
    &&& b == App { visible: b.visible, expanded_rows: b.expanded_rows, events_list_state: b.events_list_state, event_filter_list_state: b.event_filter_list_state, viewport: b.viewport, search: b.search, ..m }
}

impl App {
    /// Starts editing the focused time (see `time_filter_edit_started`).
    pub fn edit_time_filter(&mut self)
        ensures
            time_filter_edit_started(*old(self), *final(self)),
    {
        let current = match self.time_filter_focus {
            TimeFilterFocus::Start => self.time_filter_input_start.clone(),
            TimeFilterFocus::End => self.time_filter_input_end.clone(),
        };
        self.input = current;
        self.overlay = Some(Overlay::EditTimeFilter);
    }

    /// Drops the time filter (see `time_filter_cleared`).
    pub fn clear_time_filter(&mut self)
        requires
            old(self).wf(),
        ensures
            final(self).wf(),
            time_filter_cleared(*old(self), *final(self)),
    {
        self.time_filter = None;
        self.update_view();
    }

    /// Moves the focus of the time filter popup to the other time.
    pub fn time_filter_focus_next(&mut self)
        ensures
            *final(self) == (App { time_filter_focus: other_focus(old(self).time_filter_focus), ..*old(self) }),
    {
        self.time_filter_focus = self.time_filter_focus.next();
    }
}

/// The earliest and latest timestamps among the lines, if any line has one.
pub open spec fn time_bounds(lines: Seq<LogLine>) -> Option<(Timestamp, Timestamp)>
    decreases lines.len(),
{
    if lines.len() == 0 {
        None
    } else {
        let prev = time_bounds(lines.drop_last());
        match lines.last().timestamp {
            None => prev,
            Some(t) => match prev {
                None => Some((t, t)),
                Some(b) => Some(
                    (
                        if t < b.0 {
                            t
                        } else {
                            b.0
                        },
                        if t > b.1 {
                            t
                        } else {
                            b.1
                        },
                    ),
                ),
            },
        }
    }
}

/// The earliest and latest timestamps among the lines (see `time_bounds`).
pub fn line_time_bounds(lines: &[LogLine]) -> (r: Option<(Timestamp, Timestamp)>)
    ensures
        r == time_bounds(lines@),
{
    let mut r: Option<(Timestamp, Timestamp)> = None;
    let mut i: usize = 0;
    while i < lines.len()
        invariant
            i <= lines@.len(),
            r == time_bounds(lines@.take(i as int)),
        decreases lines@.len() - i,
    {
        proof {
            assert(lines@.take(i + 1).drop_last() =~= lines@.take(i as int));
        }
        match lines[i].timestamp {
            Some(t) => {
                r = match r {
                    None => Some((t, t)),
                    Some((lo, hi)) => Some(
                        (
                            if t < lo {
                                t
                            } else {
                                lo
                            },
                            if t > hi {
                                t
                            } else {
                                hi
                            },
                        ),
                    ),
                };
            },
            None => {},
        }
        i += 1;
    }
    proof {
        assert(lines@.take(i as int) =~= lines@);
    }
    r
}

/// The times of the popup of `b` are those of the log's time range as the popup writes
/// them, or empty when no line has a timestamp.
pub open spec fn inputs_from_range(lines: Seq<LogLine>, b: App) -> bool {
    match time_bounds(lines) {
        Some(r) => b.time_filter_input_start@ == popup_time_text(r.0) && b.time_filter_input_end@ == popup_time_text(
            r.1,
        ),
        None => b.time_filter_input_start@ == Seq::<char>::empty() && b.time_filter_input_end@ == Seq::<char>::empty(),
    }
}

/// The message shown when the time filter is asked for on a stream.
pub open spec fn no_time_filter_message() -> Seq<char> {
    "Time filter not available in streaming mode"@
}

/// Opening the time filter popup: refused with a message on a stream; otherwise the start
/// time gets the focus, the times are filled from the log's time range when either is
/// empty, and the popup is shown.
pub open spec fn time_filter_mode_entered(a: App, b: App) -> bool {
    if a.log_buffer.is_streaming() {
        &&& b.overlay matches Some(Overlay::Message(t)) && t@ == no_time_filter_message()
        &&& b == App { overlay: b.overlay, ..a }
    } else {
        let refill = a.time_filter_input_start@.len() == 0 || a.time_filter_input_end@.len() == 0;
        &&& b == App {
            time_filter_focus: TimeFilterFocus::Start,
            time_filter_input_start: b.time_filter_input_start,
            time_filter_input_end: b.time_filter_input_end,
            view_state: ViewState::TimeFilterView,
            overlay: None,
            ..a
        }
        &&& refill ==> inputs_from_range(a.log_buffer.lines(), b)
        &&& !refill ==> b.time_filter_input_start == a.time_filter_input_start && b.time_filter_input_end
            == a.time_filter_input_end
    }
}

/// Resetting the time filter: the times are filled from the log's time range, the filter
/// is dropped and the rows recomputed.
pub open spec fn time_filter_reset(a: App, b: App) -> bool {
    let m = App {
        time_filter: None,
        time_filter_input_start: b.time_filter_input_start,
        time_filter_input_end: b.time_filter_input_end,
        ..a
    };
    &&& inputs_from_range(a.log_buffer.lines(), b)
    &&& view_refreshed(m, b)
    &&& b == App {
        visible: b.visible,
        expanded_rows: b.expanded_rows,
        events_list_state: b.events_list_state,
        event_filter_list_state: b.event_filter_list_state,
        viewport: b.viewport,
        search: b.search,
        ..m
    }
}

impl App {
    /// Fills the times of the popup from the log's time range.
    fn reset_time_filter_to_file_range(&mut self)
        ensures
            inputs_from_range(old(self).log_buffer.lines(), *final(self)),
            *final(self) == (App {
                time_filter_input_start: final(self).time_filter_input_start,
                time_filter_input_end: final(self).time_filter_input_end,
                ..*old(self)
            }),
    {
        match line_time_bounds(self.log_buffer.all_lines()) {
            Some((start, end)) => {
                self.time_filter_input_start = popup_time(start);
                self.time_filter_input_end = popup_time(end);
            },
            None => {
                self.time_filter_input_start = String::new();
                self.time_filter_input_end = String::new();
            },
        }
    }

    /// Opens the time filter popup (see `time_filter_mode_entered`).
    pub fn activate_time_filter_mode(&mut self)
        ensures
            time_filter_mode_entered(*old(self), *final(self)),
    {
        if self.log_buffer.streaming_mode() {
            self.overlay = Some(Overlay::Message(String::from_str("Time filter not available in streaming mode")));
            return;
        }
        self.time_filter_focus = TimeFilterFocus::Start;
        if self.time_filter_input_start.as_str().is_empty() || self.time_filter_input_end.as_str().is_empty() {
            self.reset_time_filter_to_file_range();
        }
        self.set_view_state(ViewState::TimeFilterView);
    }

    /// Resets the time filter to the log's time range (see `time_filter_reset`).
    pub fn reset_time_filter(&mut self)
        requires
            old(self).wf(),
        ensures
            final(self).wf(),
            time_filter_reset(*old(self), *final(self)),
    {
        self.reset_time_filter_to_file_range();
        self.time_filter = None;
        self.update_view();
    }
}

/// Typed keys go to the input: the help is not shown, and the view or the overlay takes
/// text (the time filter's edit overlay too).
pub open spec fn text_input_mode(a: App) -> bool {
    &&& !a.help.shown()
    &&& (view_has_text_input(a.view_state) || (a.overlay matches Some(o) && overlay_has_text_input(
        overlay_view(o).0,
    )) || a.overlay == Some(Overlay::EditTimeFilter))
}

impl App {
    /// Whether typed keys go to the input (see `text_input_mode`).
    pub fn is_text_input_mode(&self) -> (r: bool)
        ensures
            r == text_input_mode(*self),
    {
        if self.help.is_visible() {
            return false;
        }
        let in_overlay = match &self.overlay {
            Some(o) => o.has_text_input() || o.kind() == crate::app::OverlayKind::EditTimeFilter,
            None => false,
        };
        self.view_state.has_text_input() || in_overlay
    }
}

} // verus!
