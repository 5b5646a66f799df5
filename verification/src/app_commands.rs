//! The application's smaller steps: moving, switching modes and toggling settings, each
//! from one application state to the next.
use vstd::prelude::*;
use crate::command::Command;
use crate::app::{
    find_row, first_row_of, lemma_first_row_in_range, overlay_view, line_contents, line_texts, nearest_row, nearest_upto, row_contents, row_texts, Action, App,
    Overlay, ViewState,
};
use crate::search::{match_count, matching_positions};
use crate::completion::completion_of;
use crate::timestamp::push_text;
use crate::app_steps::{jumped, jumped_to_line, listed_marks, view_refreshed};
use crate::history::{position_after_next, position_after_previous, record_after_step};
use crate::file_manager::FileEntry;
use crate::log::LogLine;
use crate::log_event::LogEvent;
use crate::marking::Marking;
use crate::app_events::{
    event_filter_toggled, event_filters_all_toggled, event_items, event_marks_toggled, event_selected_goto, event_stepped,
    events_view_entered,
};
use crate::app_selection::{all_marked, marked_all, selected_lines, selection_copied, toggled_all};
use crate::filter::{flipped_mode, toggled_enabled, with_enabled, ActiveFilterMode, FilterSpec, DEFAULT_CASE_SENSITIVITY};
use crate::keybindings::{ContextKind, KeybindingContext};
use crate::help::{header_for, sat, Help};
use crate::list_view_state::{half_page, list_offset_after, min_int, sat_sub, ListViewState};
use crate::marking::toggled_mark;
use crate::options::AppOptionDef;
use crate::time_filter::TimeFilterFocus;
use crate::viewport::{adjusted, centered, history_after_push, Viewport};

verus! {

/// `b` is list state `a` with `sel` selected; when `moved`, the offset follows the
/// selection, otherwise it stays.
pub open spec fn list_moved(a: ListViewState, b: ListViewState, sel: int, moved: bool) -> bool {
    &&& b.wf()
    &&& b.count() == a.count()
    &&& b.height() == a.height()
    &&& b.selected() == sel
    &&& b.offset() == (if moved {
        list_offset_after(sel, a.offset(), a.count(), a.height())
    } else {
        a.offset()
    })
}

/// `b` is `a` with the list state moved one up, wrapping to the last item.
pub open spec fn moved_up_wrapping(a: ListViewState, b: ListViewState) -> bool {
    if a.count() == 0 {
        list_moved(a, b, a.selected(), false)
    } else {
        list_moved(a, b, if a.selected() == 0 { a.count() - 1 } else { a.selected() - 1 }, true)
    }
}

/// `b` is `a` with the list state moved one down, wrapping to the first item.
pub open spec fn moved_down_wrapping(a: ListViewState, b: ListViewState) -> bool {
    if a.count() == 0 {
        list_moved(a, b, a.selected(), false)
    } else {
        list_moved(a, b, (a.selected() + 1) % a.count(), true)
    }
}

/// `b` is `a` with the list state moved one up, stopping at the first item.
pub open spec fn moved_up(a: ListViewState, b: ListViewState) -> bool {
    if a.selected() == 0 {
        list_moved(a, b, 0, false)
    } else {
        list_moved(a, b, a.selected() - 1, true)
    }
}

/// `b` is `a` with the list state moved one down, stopping at the last item.
pub open spec fn moved_down(a: ListViewState, b: ListViewState) -> bool {
    if a.selected() + 1 < a.count() {
        list_moved(a, b, a.selected() + 1, true)
    } else {
        list_moved(a, b, a.selected(), false)
    }
}

/// Moving up: in the event filter list, and in the filter and options lists, the
/// selection moves up, wrapping; in the marks, files and events lists it moves up (in the
/// events list ending following); in the time filter popup the other field gets the
/// focus; in the other views the selected row moves up, following ends, and in selection
/// mode the selection's end moves with it.
pub open spec fn up_done(a: App, b: App) -> bool {
    if a.overlay == Some(Overlay::EventsFilter) {
        b == App { event_filter_list_state: b.event_filter_list_state, ..a } && moved_up_wrapping(
            a.event_filter_list_state,
            b.event_filter_list_state,
        )
    } else {
        match a.view_state {
            ViewState::FilterView => b == App { filter_list_state: b.filter_list_state, ..a } && moved_up_wrapping(
                a.filter_list_state,
                b.filter_list_state,
            ),
            ViewState::OptionsView => b == App { options_list_state: b.options_list_state, ..a }
                && moved_up_wrapping(a.options_list_state, b.options_list_state),
            ViewState::MarksView => b == App { marking_list_state: b.marking_list_state, ..a } && moved_up(
                a.marking_list_state,
                b.marking_list_state,
            ),
            ViewState::FilesView => b == App { files_list_state: b.files_list_state, ..a } && moved_up(
                a.files_list_state,
                b.files_list_state,
            ),
            ViewState::EventsView => b == App {
                events_list_state: b.events_list_state,
                viewport: Viewport { follow_mode: false, ..a.viewport },
                ..a
            } && moved_up(a.events_list_state, b.events_list_state),
            ViewState::TimeFilterView => b == App { time_filter_focus: other_focus(a.time_filter_focus), ..a },
            _ => {
                let v = if a.viewport.selected_line > 0 {
                    adjusted(Viewport { selected_line: (a.viewport.selected_line - 1) as usize, ..a.viewport })
                } else {
                    a.viewport
                };
                let w = Viewport { follow_mode: false, ..v };
                b == App { viewport: w, selection_range: selection_after(a, w), ..a }
            },
        }
    }
}

/// The other field of the time filter popup.
pub open spec fn other_focus(f: TimeFilterFocus) -> TimeFilterFocus {
    match f {
        TimeFilterFocus::Start => TimeFilterFocus::End,
        TimeFilterFocus::End => TimeFilterFocus::Start,
    }
}

/// In selection mode, the selection then ends at the viewport's selected row; elsewhere
/// it stays.
pub open spec fn selection_after(a: App, w: Viewport) -> Option<(usize, usize)> {
    if a.view_state == ViewState::SelectionMode {
        match a.selection_range {
            Some(r) => Some((r.0, w.selected_line)),
            None => None,
        }
    } else {
        a.selection_range
    }
}

/// Moving down: in the filter and options lists the selection moves down, wrapping; in
/// the marks, files and events lists it moves down, and in the event filter list down,
/// wrapping; in the time filter popup the other field gets the focus; in the other views
/// the selected row moves down (in selection mode ending following and moving the
/// selection's end).
pub open spec fn down_done(a: App, b: App) -> bool {
    if a.overlay == Some(Overlay::EventsFilter) {
        b == App { event_filter_list_state: b.event_filter_list_state, ..a } && moved_down_wrapping(
            a.event_filter_list_state,
            b.event_filter_list_state,
        )
    } else {
        match a.view_state {
            ViewState::FilterView => b == App { filter_list_state: b.filter_list_state, ..a } && moved_down_wrapping(
                a.filter_list_state,
                b.filter_list_state,
            ),
            ViewState::OptionsView => b == App { options_list_state: b.options_list_state, ..a }
                && moved_down_wrapping(a.options_list_state, b.options_list_state),
            ViewState::MarksView => b == App { marking_list_state: b.marking_list_state, ..a } && moved_down(
                a.marking_list_state,
                b.marking_list_state,
            ),
            ViewState::FilesView => b == App { files_list_state: b.files_list_state, ..a } && moved_down(
                a.files_list_state,
                b.files_list_state,
            ),
            ViewState::EventsView => b == App { events_list_state: b.events_list_state, ..a } && moved_down(
                a.events_list_state,
                b.events_list_state,
            ),
            ViewState::TimeFilterView => b == App { time_filter_focus: other_focus(a.time_filter_focus), ..a },
            _ => {
                let v = if a.viewport.selected_line + 1 < a.viewport.total_lines {
                    adjusted(Viewport { selected_line: (a.viewport.selected_line + 1) as usize, ..a.viewport })
                } else {
                    a.viewport
                };
                if a.view_state == ViewState::SelectionMode {
                    let w = Viewport { follow_mode: false, ..v };
                    b == App { viewport: w, selection_range: selection_after(a, w), ..a }
                } else {
                    b == App { viewport: v, ..a }
                }
            },
        }
    }
}

/// `w` is `v` with the line on row `row` (if that row exists) recorded in the history.
pub open spec fn row_recorded(v: Viewport, w: Viewport, rows: Seq<usize>, row: int) -> bool {
    if 0 <= row < rows.len() {
        let (h, p) = history_after_push(v.history@, v.history_position as int, rows[row]);
        &&& w.history@ == h
        &&& w.history_position == p
        &&& w == Viewport { history: w.history, history_position: w.history_position, ..v }
    } else {
        w == v
    }
}

/// Going to the top: the first row is selected, its line recorded in the history, and
/// following ends.
pub open spec fn top_done(a: App, b: App) -> bool {
    let v = adjusted(Viewport { selected_line: 0, ..a.viewport });
    &&& b == App { viewport: b.viewport, ..a }
    &&& row_recorded(v, Viewport { follow_mode: v.follow_mode, ..b.viewport }, a.visible@, 0)
    &&& !b.viewport.follow_mode
}

/// Going to the bottom: the last row is selected and its line recorded in the history.
pub open spec fn bottom_done(a: App, b: App) -> bool {
    let last = if a.viewport.total_lines > 0 { a.viewport.total_lines - 1 } else { 0 };
    let v = adjusted(Viewport { selected_line: last as usize, ..a.viewport });
    &&& b == App { viewport: b.viewport, ..a }
    &&& row_recorded(v, b.viewport, a.visible@, last as int)
}

/// The match a step goes to from row `sel`: forward, the first match past it, or the first
/// match when none lies past it; backward, the last match before it, or the last match
/// when none lies before it.
pub open spec fn match_step_target(m: Seq<usize>, sel: usize, forward: bool, k: int) -> bool {
    if forward {
        &&& (exists|j: int| 0 <= j < m.len() && m[j] > sel) ==> (m[k] > sel && forall|j: int|
            0 <= j < k ==> m[j] <= sel)
        &&& !(exists|j: int| 0 <= j < m.len() && m[j] > sel) ==> k == 0
    } else {
        &&& (exists|j: int| 0 <= j < m.len() && m[j] < sel) ==> (m[k] < sel && forall|j: int|
            k < j < m.len() ==> m[j] >= sel)
        &&& !(exists|j: int| 0 <= j < m.len() && m[j] < sel) ==> k == m.len() - 1
    }
}

/// Going to the next (or previous) search match (see `match_step_target`): with matches,
/// the match the search moves to is selected and recorded; without, nothing changes.
pub open spec fn match_step_done(a: App, b: App, forward: bool) -> bool {
    &&& a.search.matches().len() > 0 ==> 0 <= b.search.current() < a.search.matches().len()
        && match_step_target(a.search.matches(), a.viewport.selected_line, forward, b.search.current())
    &&& b == App { search: b.search, viewport: b.viewport, ..a }
    &&& b.search.wf()
    &&& b.search.matches() == a.search.matches()
    &&& b.search.pattern() == a.search.pattern()
    &&& b.search.case_sensitive() == a.search.case_sensitive()
    &&& b.search.total() == a.search.total()
    &&& b.search.hist() == a.search.hist()
    &&& a.search.matches().len() == 0 ==> b.viewport == a.viewport && b.search.current() == a.search.current()
    &&& a.search.matches().len() > 0 ==> jumped(
        a.viewport,
        b.viewport,
        a.visible@,
        a.search.matches()[b.search.current()] as int,
        false,
    )
}

/// Where a step back (or forward) in the history lands: the new position, and the line
/// recorded there, if any; at either end the position stays (back from the start, at 0).
pub open spec fn history_landing(v: Viewport, back: bool) -> (int, Option<usize>) {
    if back {
        if v.history_position > 0 {
            let p = v.history_position - 1;
            (p, if p < v.history@.len() { Some(v.history@[p]) } else { None })
        } else {
            (0, None)
        }
    } else if v.history_position + 1 < v.history@.len() {
        (v.history_position + 1, Some(v.history@[v.history_position + 1]))
    } else {
        (v.history_position as int, None)
    }
}

/// Going back (or forward) in the history: the history position moves (see
/// `history_landing`); the first row of the line found there, if any, is selected and kept
/// in view; following ends.
pub open spec fn history_step_done(a: App, b: App, back: bool) -> bool {
    let (p, found) = history_landing(a.viewport, back);
    let v = Viewport { history_position: p as usize, follow_mode: false, ..a.viewport };
    &&& b == App { viewport: b.viewport, ..a }
    &&& b.viewport == match found {
        Some(line) => match first_row_of(a.visible@, line, 0) {
            Some(row) => adjusted(Viewport { selected_line: row as usize, ..v }),
            None => v,
        },
        None => v,
    }
}

/// Starting a search: the input is emptied, the search dropped, case sensitivity reset,
/// history browsing left, and the search mode shown.
pub open spec fn search_mode_entered(a: App, b: App) -> bool {
    &&& b == App { input: b.input, search: b.search, view_state: ViewState::ActiveSearchMode, overlay: None, ..a }
    &&& b.input@ == Seq::<char>::empty()
    &&& b.search.wf()
    &&& b.search.hist().wf()
    &&& b.search.pattern() is None
    &&& b.search.matches() == Seq::<usize>::empty()
    &&& b.search.current() == 0
    &&& b.search.total() == 0
    &&& !b.search.case_sensitive()
    &&& b.search.hist()@ == a.search.hist()@
    &&& b.search.hist().position() is None
}

/// Starting a new filter: the input is emptied, the mode set to include, case sensitivity
/// reset, history browsing left, and the filter mode shown.
pub open spec fn filter_mode_entered(a: App, b: App) -> bool {
    &&& b == App { input: b.input, filter: b.filter, view_state: ViewState::ActiveFilterMode, overlay: None, ..a }
    &&& b.input@ == Seq::<char>::empty()
    &&& b.filter.patterns() == a.filter.patterns()
    &&& b.filter.mode() == ActiveFilterMode::Include
    &&& b.filter.case_sensitive() == DEFAULT_CASE_SENSITIVITY
    &&& b.filter.hist().wf()
    &&& b.filter.hist()@ == a.filter.hist()@
    &&& b.filter.hist().position() is None
}

/// Editing the selected filter: its text is put in the input and the edit overlay shown;
/// with no such filter nothing changes.
pub open spec fn edit_filter_entered(a: App, b: App) -> bool {
    let k = a.filter_list_state.selected();
    if 0 <= k < a.filter.patterns().len() {
        &&& b == App { input: b.input, overlay: Some(Overlay::EditFilter), ..a }
        &&& b.input@ == a.filter.patterns()[k].pattern
    } else {
        b == a
    }
}

/// A change `fs` of the filter patterns, after which the expansions are dropped and the
/// rows recomputed.
pub open spec fn filters_changed(a: App, b: App, fs: Seq<FilterSpec>) -> bool {
    let m = App { filter: b.filter, expansion: b.expansion, ..a };
    &&& b.filter.patterns() == fs
    &&& b.filter.mode() == a.filter.mode()
    &&& b.filter.case_sensitive() == a.filter.case_sensitive()
    &&& b.filter.hist() == a.filter.hist()
    &&& b.expansion@ == Map::<usize, Seq<usize>>::empty()
    &&& view_refreshed(m, b)
    &&& b == App { visible: b.visible,
            expanded_rows: b.expanded_rows, events_list_state: b.events_list_state, event_filter_list_state: b.event_filter_list_state, viewport: b.viewport, search: b.search, ..m }
}

/// Switching the selected option on or off, then recomputing the rows.
pub open spec fn option_toggled(a: App, b: App) -> bool {
    let k = a.options_list_state.selected();
    let ds = a.options.defs();
    let m = App { options: b.options, ..a };
    &&& 0 <= k < ds.len() ==> b.options.defs() == ds.update(k, AppOptionDef { enabled: !ds[k].enabled, ..ds[k] })
    &&& !(0 <= k < ds.len()) ==> b.options.defs() == ds
    &&& view_refreshed(m, b)
    &&& b == App { visible: b.visible,
            expanded_rows: b.expanded_rows, events_list_state: b.events_list_state, event_filter_list_state: b.event_filter_list_state, viewport: b.viewport, search: b.search, ..m }
}

/// The marks after toggling: in selection mode, the selected lines are all unmarked when
/// all are marked and otherwise all marked (`None`, nothing at all, when the selection
/// covers no row); in the events view the mark of the selected item's line is toggled;
/// elsewhere that of the selected row's line.
pub open spec fn mark_change(a: App) -> Option<Map<usize, Option<Seq<char>>>> {
    if a.view_state == ViewState::SelectionMode {
        if a.selection_range is Some {
            let ls = selected_lines(a);
            if ls.len() == 0 {
                None
            } else if all_marked(a.marking@, ls) {
                Some(toggled_all(a.marking@, ls))
            } else {
                Some(marked_all(a.marking@, ls))
            }
        } else {
            Some(a.marking@)
        }
    } else if a.view_state == ViewState::EventsView {
        let items = event_items(a);
        let k = a.events_list_state.selected();
        if 0 <= k < items.len() {
            Some(toggled_mark(a.marking@, items[k].0))
        } else {
            Some(a.marking@)
        }
    } else {
        let sel = a.viewport.selected_line;
        if sel < a.visible@.len() {
            Some(toggled_mark(a.marking@, a.visible@[sel as int]))
        } else {
            Some(a.marking@)
        }
    }
}

/// Toggling marks (see `mark_change`); the marks list is then recounted, and the rows
/// recomputed when only marked lines are shown.
pub open spec fn mark_toggled(a: App, b: App) -> bool {
    match mark_change(a) {
        None => b == a,
        Some(mm) => {
            let m = App { marking: b.marking, marking_list_state: b.marking_list_state, ..a };
            &&& b.marking.wf()
            &&& b.marking@ == mm
            &&& crate::app_steps::list_recounted(a.marking_list_state, b.marking_list_state, b.marking@.dom().len() as int)
            &&& a.show_marked_lines_only ==> view_refreshed(m, b) && b == App {
                visible: b.visible,
            expanded_rows: b.expanded_rows, events_list_state: b.events_list_state, event_filter_list_state: b.event_filter_list_state,
                viewport: b.viewport,
                search: b.search,
                ..m
            }
            &&& !a.show_marked_lines_only ==> b == m
        },
    }
}

/// Showing only marked lines, or all lines again, and recomputing the rows.
pub open spec fn marked_only_toggled(a: App, b: App) -> bool {
    let m = App { show_marked_lines_only: !a.show_marked_lines_only, ..a };
    &&& view_refreshed(m, b)
    &&& b == App { visible: b.visible,
            expanded_rows: b.expanded_rows, events_list_state: b.events_list_state, event_filter_list_state: b.event_filter_list_state, viewport: b.viewport, search: b.search, ..m }
}

/// Following a stream is switched (only while streaming); when it starts, the last row is
/// selected.
pub open spec fn follow_toggled(a: App, b: App) -> bool {
    if a.log_buffer.is_streaming() {
        let v = Viewport { follow_mode: !a.viewport.follow_mode, ..a.viewport };
        let last = if v.total_lines > 0 { v.total_lines - 1 } else { 0 };
        b == App {
            viewport: if v.follow_mode {
                adjusted(Viewport { selected_line: last as usize, ..v })
            } else {
                v
            },
            ..a
        }
    } else {
        b == a
    }
}

/// Removing the selected filter pattern: the filter list is recounted, the expansions
/// dropped and the rows recomputed.
pub open spec fn filter_removed(a: App, b: App) -> bool {
    let k = a.filter_list_state.selected();
    let ps = a.filter.patterns();
    let m = App { filter: b.filter, filter_list_state: b.filter_list_state, expansion: b.expansion, ..a };
    &&& b.filter.patterns() == (if 0 <= k < ps.len() {
        ps.remove(k)
    } else {
        ps
    })
    &&& b.filter.mode() == a.filter.mode()
    &&& b.filter.case_sensitive() == a.filter.case_sensitive()
    &&& b.filter.hist() == a.filter.hist()
    &&& crate::app_steps::list_recounted(a.filter_list_state, b.filter_list_state, b.filter.patterns().len() as int)
    &&& b.expansion@ == Map::<usize, Seq<usize>>::empty()
    &&& view_refreshed(m, b)
    &&& b == App { visible: b.visible,
            expanded_rows: b.expanded_rows, events_list_state: b.events_list_state, event_filter_list_state: b.event_filter_list_state, viewport: b.viewport, search: b.search, ..m }
}

/// Opening the marks view: the list holds the listed marks, and the one nearest to the
/// selected row's line is selected (the first when there is no such line).
pub open spec fn marks_view_entered(a: App, b: App) -> bool {
    let ls = listed_marks(a);
    let sel = a.viewport.selected_line;
    &&& b == App { marking_list_state: b.marking_list_state, view_state: ViewState::MarksView, overlay: None, ..a }
    &&& b.marking_list_state.wf()
    &&& b.marking_list_state.count() == ls.len()
    &&& b.marking_list_state.selected() == (if sel < a.visible@.len() && ls.len() > 0 {
        nearest_upto(ls, a.visible@[sel as int], ls.len() as int)
    } else {
        0
    })
}

/// The patterns with the case sensitivity of pattern `k` switched, if there is one.
pub open spec fn case_toggled_at(ps: Seq<FilterSpec>, k: int) -> Seq<FilterSpec> {
    if 0 <= k < ps.len() {
        ps.update(k, FilterSpec { case_sensitive: !ps[k].case_sensitive, ..ps[k] })
    } else {
        ps
    }
}

/// The patterns with the mode of pattern `k` flipped, if there is one.
pub open spec fn mode_toggled_at(ps: Seq<FilterSpec>, k: int) -> Seq<FilterSpec> {
    if 0 <= k < ps.len() {
        ps.update(k, FilterSpec { mode: flipped_mode(ps[k].mode), ..ps[k] })
    } else {
        ps
    }
}

/// The first of the listed marks after line `x` (`after`), or the last one before it.
pub open spec fn neighbour_mark(ls: Seq<usize>, x: usize, after: bool) -> Option<usize>
    decreases ls.len(),
{
    if ls.len() == 0 {
        None
    } else if after {
        match neighbour_mark(ls.drop_last(), x, after) {
            Some(l) => Some(l),
            None => if ls.last() > x { Some(ls.last()) } else { None },
        }
    } else if ls.last() < x {
        Some(ls.last())
    } else {
        neighbour_mark(ls.drop_last(), x, after)
    }
}

/// Going to the next (or previous) mark: see `stepped_to_line`.
pub open spec fn mark_step_done(a: App, b: App, after: bool) -> bool {
    stepped_to_line(a, b, listed_marks(a), after)
}

/// From the selected row's line, the first target line after it (or the last one before
/// it) is recorded in the history and its first row selected; with no such line, or no
/// row for it, nothing changes.
pub open spec fn stepped_to_line(a: App, b: App, targets: Seq<usize>, after: bool) -> bool {
    let sel = a.viewport.selected_line;
    &&& b == App { viewport: b.viewport, ..a }
    &&& if sel < a.visible@.len() {
        match neighbour_mark(targets, a.visible@[sel as int], after) {
            Some(line) => match first_row_of(a.visible@, line, 0) {
                Some(row) => jumped_to_line(a.viewport, b.viewport, a.visible@, line, false),
                None => b.viewport == a.viewport,
            },
            None => b.viewport == a.viewport,
        }
    } else {
        b.viewport == a.viewport
    }
}

/// Removing the mark selected in the marks view; the marks list is recounted, and the rows
/// recomputed when only marked lines are shown.
pub open spec fn unmarked_selected(a: App, b: App) -> bool {
    let ls = listed_marks(a);
    let k = a.marking_list_state.selected();
    let m = App { marking: b.marking, marking_list_state: b.marking_list_state, ..a };
    if 0 <= k < ls.len() {
        &&& b.marking.wf()
        &&& b.marking@ == a.marking@.remove(ls[k])
        &&& crate::app_steps::list_recounted(a.marking_list_state, b.marking_list_state, b.marking@.dom().len() as int)
        &&& a.show_marked_lines_only ==> view_refreshed(m, b) && b == App {
            visible: b.visible,
            expanded_rows: b.expanded_rows, events_list_state: b.events_list_state, event_filter_list_state: b.event_filter_list_state,
            viewport: b.viewport,
            search: b.search,
            ..m
        }
        &&& !a.show_marked_lines_only ==> b == m
    } else {
        b == a
    }
}

/// The name of the mark on a line, or empty.
pub open spec fn name_text(n: Option<Seq<char>>) -> Seq<char> {
    match n {
        Some(t) => t,
        None => Seq::empty(),
    }
}

/// Naming a mark (see `named_mark_line`): its name (or nothing) is put in the input and
/// the name overlay shown.
pub open spec fn mark_name_entered(a: App, b: App) -> bool {
    match crate::app_steps::named_mark_line(a) {
        Some(l) => {
            &&& b == App { input: b.input, overlay: Some(Overlay::MarkName), ..a }
            &&& b.input@ == (if a.marking@.contains_key(l) { name_text(a.marking@[l]) } else { Seq::empty() })
        },
        None => b == a,
    }
}

/// Emptying a stream: the lines, marks and events go, the viewport starts over, and the
/// (now empty) rows are recomputed.
pub open spec fn stream_cleared(a: App, b: App) -> bool {
    if a.log_buffer.is_streaming() {
        &&& b.log_buffer.is_streaming()
        &&& b.log_buffer.lines() == Seq::<LogLine>::empty()
        &&& b.marking.wf()
        &&& b.marking@ == Map::<usize, Option<Seq<char>>>::empty()
        &&& b.event_tracker.events() == Seq::<LogEvent>::empty()
        &&& b.event_tracker.patterns().len() == a.event_tracker.patterns().len()
        &&& b.visible@ == Seq::<usize>::empty()
        &&& b.viewport.total_lines == 0
        &&& b.viewport.selected_line == 0
        &&& b.viewport.history@ == Seq::<usize>::empty()
        &&& b == App {
            log_buffer: b.log_buffer,
            marking: b.marking,
            event_tracker: b.event_tracker,
            visible: b.visible,
            expanded_rows: b.expanded_rows, events_list_state: b.events_list_state, event_filter_list_state: b.event_filter_list_state,
            viewport: b.viewport,
            search: b.search,
            ..a
        }
    } else {
        b == a
    }
}

/// Collapsing every expansion and recomputing the rows.
pub open spec fn expansions_collapsed(a: App, b: App) -> bool {
    let m = App { expansion: b.expansion, ..a };
    &&& b.expansion@ == Map::<usize, Seq<usize>>::empty()
    &&& view_refreshed(m, b)
    &&& b == App { visible: b.visible,
            expanded_rows: b.expanded_rows, events_list_state: b.events_list_state, event_filter_list_state: b.event_filter_list_state, viewport: b.viewport, search: b.search, ..m }
}

/// Stepping through the search history: the entry landed on is put in the input; going
/// forward past the newest empties it.
pub open spec fn search_history_stepped(a: App, b: App, back: bool) -> bool {
    let h = a.search.hist();
    let rec = record_after_step(h@, h.position(), back);
    &&& b == App { search: b.search, input: b.input, ..a }
    &&& b.search.hist().wf()
    &&& b.search.hist()@ == h@
    &&& b.search.hist().position() == (if back {
        position_after_previous(h.position(), h@.len())
    } else {
        position_after_next(h.position(), h@.len())
    })
    &&& b.search.pattern() == a.search.pattern()
    &&& b.search.matches() == a.search.matches()
    &&& b.search.current() == a.search.current()
    &&& b.search.total() == a.search.total()
    &&& b.search.case_sensitive() == a.search.case_sensitive()
    &&& match rec {
        Some(t) => b.input@ == t,
        None => if back {
            b.input == a.input
        } else {
            b.input@ == Seq::<char>::empty()
        },
    }
}

/// Stepping through the filter history: the entry landed on gives the input, the mode and
/// the case sensitivity; going forward past the newest empties the input and resets both.
pub open spec fn filter_history_stepped(a: App, b: App, back: bool) -> bool {
    let h = a.filter.hist();
    let rec = record_after_step(h@, h.position(), back);
    &&& b == App { filter: b.filter, input: b.input, ..a }
    &&& b.filter.hist().wf()
    &&& b.filter.hist()@ == h@
    &&& b.filter.hist().position() == (if back {
        position_after_previous(h.position(), h@.len())
    } else {
        position_after_next(h.position(), h@.len())
    })
    &&& b.filter.patterns() == a.filter.patterns()
    &&& match rec {
        Some(e) => b.input@ == e.0 && b.filter.mode() == e.1 && b.filter.case_sensitive() == e.2,
        None => if back {
            b.input == a.input && b.filter.mode() == a.filter.mode() && b.filter.case_sensitive()
                == a.filter.case_sensitive()
        } else {
            b.input@ == Seq::<char>::empty() && b.filter.mode() == ActiveFilterMode::Include
                && b.filter.case_sensitive() == DEFAULT_CASE_SENSITIVITY
        },
    }
}

/// Showing or hiding the lines of the file selected in the files list; the expansions
/// are dropped and the rows recomputed.
pub open spec fn file_toggled(a: App, b: App) -> bool {
    let k = a.files_list_state.selected();
    let es = a.file_manager.entries();
    let m = App { file_manager: b.file_manager, expansion: b.expansion, ..a };
    &&& b.file_manager.entries().len() == es.len()
    &&& forall|i: int| 0 <= i < es.len() && i != k ==> #[trigger] b.file_manager.entries()[i] == es[i]
    &&& 0 <= k < es.len() ==> b.file_manager.entries()[k] == (FileEntry { enabled: !es[k].enabled, ..es[k] })
    &&& b.expansion@ == Map::<usize, Seq<usize>>::empty()
    &&& view_refreshed(m, b)
    &&& b == App { visible: b.visible,
            expanded_rows: b.expanded_rows, events_list_state: b.events_list_state, event_filter_list_state: b.event_filter_list_state, viewport: b.viewport, search: b.search, ..m }
}

/// `b` is `a` with the list state moved a page up (`up`) or down.
pub open spec fn list_paged(a: ListViewState, b: ListViewState, up: bool) -> bool {
    if a.count() == 0 {
        list_moved(a, b, a.selected(), false)
    } else if up {
        list_moved(a, b, sat_sub(a.selected(), half_page(a.height())), true)
    } else {
        list_moved(a, b, min_int(a.selected() + half_page(a.height()), a.count() - 1), true)
    }
}

/// Paging up (`up`) or down: in the marks, files and events lists their selection moves
/// a page; in the log views the selected row moves a page and is centered, paging up ends
/// following, and in selection mode following ends and the selection's end moves along.
pub open spec fn paged(a: App, b: App, up: bool) -> bool {
    match a.view_state {
        ViewState::MarksView => b == App { marking_list_state: b.marking_list_state, ..a } && list_paged(
            a.marking_list_state,
            b.marking_list_state,
            up,
        ),
        ViewState::FilesView => b == App { files_list_state: b.files_list_state, ..a } && list_paged(
            a.files_list_state,
            b.files_list_state,
            up,
        ),
        ViewState::EventsView => b == App { events_list_state: b.events_list_state, ..a } && list_paged(
            a.events_list_state,
            b.events_list_state,
            up,
        ),
        _ => {
            let v = a.viewport;
            if up {
                let w = if v.selected_line > 0 {
                    centered(
                        adjusted(
                            Viewport {
                                selected_line: sat_sub(v.selected_line as int, sat_sub(v.height as int, 1)) as usize,
                                ..v
                            },
                        ),
                    )
                } else {
                    v
                };
                let u = Viewport { follow_mode: false, ..w };
                b == App { viewport: u, selection_range: selection_after(a, u), ..a }
            } else {
                let w = if v.selected_line + 1 < v.total_lines {
                    centered(
                        adjusted(
                            Viewport {
                                selected_line: min_int(
                                    v.selected_line + sat_sub(v.height as int, 1),
                                    v.total_lines - 1,
                                ) as usize,
                                ..v
                            },
                        ),
                    )
                } else {
                    v
                };
                if a.view_state == ViewState::SelectionMode {
                    let u = Viewport { follow_mode: false, ..w };
                    b == App { viewport: u, selection_range: selection_after(a, u), ..a }
                } else {
                    b == App { viewport: w, ..a }
                }
            }
        },
    }
}

/// The byte length of the longest line on rows `start` up to `end`.
pub open spec fn longest_shown(lines: Seq<LogLine>, rows: Seq<usize>, start: int, end: int) -> nat
    decreases end - start,
{
    if start >= end {
        0
    } else {
        let l = crate::utils::utf8(lines[rows[end - 1] as int].content@).len();
        let m = longest_shown(lines, rows, start, end - 1);
        if l > m {
            l
        } else {
            m
        }
    }
}

/// Scrolling right by half the width, no further than the longest line among the rows in
/// the window allows.
pub open spec fn scrolled_right(a: App, b: App) -> bool {
    let v = a.viewport;
    let rows = a.visible@;
    let end = v.top_line + v.height;
    let longest = if v.top_line < rows.len() {
        longest_shown(a.log_buffer.lines(), rows, v.top_line as int, if end < rows.len() { end } else { rows.len() as int })
    } else {
        0
    };
    b == App {
        viewport: if longest > v.width {
            Viewport {
                horizontal_offset: min_int(v.horizontal_offset + v.width / 2, longest - v.width / 2) as usize,
                ..v
            }
        } else {
            v
        },
        ..a
    }
}

/// Switching case sensitivity of both searching and filtering; while a search is typed,
/// its matches among the rows and its count over all lines follow the typed text.
pub open spec fn case_toggled(a: App, b: App) -> bool {
    let cs = !a.search.case_sensitive();
    let lines = a.log_buffer.lines();
    &&& b == App { search: b.search, filter: b.filter, ..a }
    &&& b.filter.case_sensitive() == !a.filter.case_sensitive()
    &&& b.filter.mode() == a.filter.mode()
    &&& b.filter.patterns() == a.filter.patterns()
    &&& b.filter.hist() == a.filter.hist()
    &&& b.search.wf()
    &&& b.search.case_sensitive() == cs
    &&& b.search.pattern() == a.search.pattern()
    &&& b.search.hist() == a.search.hist()
    &&& if a.view_state == ViewState::ActiveSearchMode {
        &&& b.search.current() == 0
        &&& b.search.matches() == (if a.input@.len() == 0 {
            Seq::<usize>::empty()
        } else {
            matching_positions(row_texts(lines, a.visible@), a.input@, cs)
        })
        &&& b.search.total() == (if a.input@.len() == 0 {
            0
        } else {
            match_count(line_texts(lines), a.input@, cs) as int
        })
    } else {
        &&& b.search.matches() == a.search.matches()
        &&& b.search.current() == a.search.current()
        &&& b.search.total() == a.search.total()
    }
}

/// The line indices from `lo` up to `hi` (exclusive).
pub open spec fn line_range(lo: int, hi: int) -> Seq<usize> {
    Seq::new(if hi > lo { (hi - lo) as nat } else { 0 }, |i: int| (lo + i) as usize)
}

/// The expansions become `e` and the rows are recomputed.
pub open spec fn expansion_changed(a: App, b: App, e: Map<usize, Seq<usize>>) -> bool {
    let m = App { expansion: b.expansion, ..a };
    &&& b.expansion@ == e
    &&& view_refreshed(m, b)
    &&& b == App { visible: b.visible, expanded_rows: b.expanded_rows, events_list_state: b.events_list_state, event_filter_list_state: b.event_filter_list_state, viewport: b.viewport, search: b.search, ..m }
}

/// Expanding or collapsing at the selected row: on a row an expansion added, an expansion
/// showing its line collapses; on an expanded line, its expansion collapses; otherwise the
/// lines hidden between it and the next row are shown below it (nothing when there are
/// none).
pub open spec fn expansion_toggled(a: App, b: App) -> bool {
    let sel = a.viewport.selected_line;
    if sel < a.visible@.len() {
        let cur = a.visible@[sel as int];
        if a.expanded_rows@[sel as int] {
            if exists|p: usize| #[trigger] a.expansion@.contains_key(p) && a.expansion@[p].contains(cur) {
                exists|p: usize|
                    #[trigger] a.expansion@.contains_key(p) && a.expansion@[p].contains(cur) && expansion_changed(
                        a,
                        b,
                        a.expansion@.remove(p),
                    )
            } else {
                b == a
            }
        } else if a.expansion@.contains_key(cur) {
            expansion_changed(a, b, a.expansion@.remove(cur))
        } else {
            let hidden = if sel + 1 < a.visible@.len() {
                line_range(cur + 1, a.visible@[sel + 1] as int)
            } else {
                Seq::empty()
            };
            if hidden.len() == 0 {
                b == a
            } else {
                expansion_changed(a, b, a.expansion@.insert(cur, hidden))
            }
        }
    } else {
        b == a
    }
}

/// Completing the typed text while searching or filtering: what the known words add to
/// it is appended; otherwise nothing changes.
pub open spec fn tab_completed(a: App, b: App) -> bool {
    if a.view_state == ViewState::ActiveSearchMode || a.view_state == ViewState::ActiveFilterMode {
        match completion_of(a.completion.words(), a.input@) {
            Some(c) => b == App { input: b.input, ..a } && b.input@ == a.input@ + c,
            None => b == a,
        }
    } else {
        b == a
    }
}

/// The case label of the search or filter prompt.
pub open spec fn case_label(cs: bool) -> Seq<char> {
    if cs {
        "Aa"@
    } else {
        "aa"@
    }
}

/// The prompt shown before the typed text: for saving, for the time being edited, or for
/// the search, filter (with case and mode) or line number being typed; none elsewhere.
pub open spec fn input_prefix(a: App) -> Seq<char> {
    match a.overlay {
        Some(Overlay::SaveToFile) => "Save to file: "@,
        Some(Overlay::EditTimeFilter) => if a.time_filter_focus == TimeFilterFocus::Start {
            "Start: "@
        } else {
            "End: "@
        },
        _ => if a.view_state == ViewState::ActiveSearchMode {
            "Search: ["@ + case_label(a.search.case_sensitive()) + "] "@
        } else if a.view_state == ViewState::ActiveFilterMode {
            "Filter: ["@ + case_label(a.filter.case_sensitive()) + "] ["@ + (if a.filter.mode()
                == ActiveFilterMode::Include {
                "IN"@
            } else {
                "EX"@
            }) + "] "@
        } else if a.view_state == ViewState::GotoLineMode {
            "Go to line: "@
        } else {
            Seq::empty()
        },
    }
}

/// Going to the mark selected in the marks view: its line is recorded in the history and
/// its first row selected, centered or kept in view; with no mark selected nothing changes.
pub open spec fn mark_selected_goto(a: App, b: App, center: bool) -> bool {
    let ls = listed_marks(a);
    let k = a.marking_list_state.selected();
    &&& b == App { viewport: b.viewport, ..a }
    &&& 0 <= k < ls.len() ==> jumped_to_line(a.viewport, b.viewport, a.visible@, ls[k], center)
    &&& !(0 <= k < ls.len()) ==> b.viewport == a.viewport
}

/// The help section that belongs to the current overlay, or to the view when there is
/// none.
pub open spec fn help_context(a: App) -> (ContextKind, Seq<char>) {
    match a.overlay {
        Some(o) => (ContextKind::Overlay(overlay_view(o).0), overlay_view(o).1),
        None => (ContextKind::View(a.view_state), Seq::empty()),
    }
}

/// Toggling the help: shown help is hidden with its first selectable item selected;
/// hidden help is shown at the header of the section for the current overlay or view
/// (that header selected, scrolled to the top as far as the items allow), or at its first
/// selectable item when there is no such section. Nothing else changes.
pub open spec fn help_toggled(a: App, b: App) -> bool {
    let items = a.help.items();
    &&& b == App { help: b.help, ..a }
    &&& b.help.items() == items
    &&& b.help.height() == a.help.height()
    &&& b.help.shown() == !a.help.shown()
    &&& if a.help.shown() {
        b.help.selected() == Help::first_selectable(items) && b.help.offset() == a.help.offset()
    } else {
        match header_for(items, help_context(a), 0) {
            Some(k) => b.help.selected() == k && b.help.offset() == (if k <= sat(items.len() - a.help.height()) {
                k
            } else {
                sat(items.len() - a.help.height())
            }),
            None => b.help.selected() == Help::first_selectable(items) && b.help.offset() == a.help.offset(),
        }
    }
}

/// A copy of an overlay, with the same kind and text.
fn overlay_copy(o: &Overlay) -> (r: Overlay)
    ensures
        overlay_view(r) == overlay_view(*o),
{
    match o {
        Overlay::EditFilter => Overlay::EditFilter,
        Overlay::EventsFilter => Overlay::EventsFilter,
        Overlay::MarkName => Overlay::MarkName,
        Overlay::SaveToFile => Overlay::SaveToFile,
        Overlay::AddCustomEvent => Overlay::AddCustomEvent,
        Overlay::EditTimeFilter => Overlay::EditTimeFilter,
        Overlay::Message(t) => Overlay::Message(t.clone()),
        Overlay::Error(t) => Overlay::Error(t.clone()),
    }
}

/// What a command does to the application, and what it asks of its surroundings (copying
/// the selection hands its text out to be put on the clipboard).
pub open spec fn executed(c: Command, a: App, b: App, act: Action) -> bool {
    match c {
        Command::MoveUp => act is Nothing && up_done(a, b),
        Command::MoveDown => act is Nothing && down_done(a, b),
        Command::GotoTop => act is Nothing && top_done(a, b),
        Command::GotoBottom => act is Nothing && bottom_done(a, b),
        Command::HistoryBack => act is Nothing && history_step_done(a, b, true),
        Command::HistoryForward => act is Nothing && history_step_done(a, b, false),
        Command::SearchNext => act is Nothing && match_step_done(a, b, true),
        Command::SearchPrevious => act is Nothing && match_step_done(a, b, false),
        Command::Quit => b == App { running: false, ..a } && (if a.log_buffer.is_streaming() {
            act is Nothing
        } else {
            act is SaveState
        }),
        Command::Cancel => act is Nothing && crate::app_steps::cancelled(a, b),
        Command::Confirm => crate::app_steps::confirmed(a, b, act),
        Command::ActivateActiveSearchMode => act is Nothing && search_mode_entered(a, b),
        Command::ActivateActiveFilterMode => act is Nothing && filter_mode_entered(a, b),
        Command::ActivateFilterView => act is Nothing && b == App {
            view_state: ViewState::FilterView,
            overlay: None,
            ..a
        },
        Command::ActivateEditActiveFilterMode => act is Nothing && edit_filter_entered(a, b),
        Command::ToggleFilterPattern => act is Nothing && filters_changed(
            a,
            b,
            toggled_enabled(a.filter.patterns(), a.filter_list_state.selected()),
        ),
        Command::ToggleAllFilterPatterns => act is Nothing && filters_changed(
            a,
            b,
            Seq::new(
                a.filter.patterns().len(),
                |i: int|
                    with_enabled(
                        a.filter.patterns()[i],
                        !(forall|k: int| 0 <= k < a.filter.patterns().len() ==> #[trigger] a.filter.patterns()[k].enabled),
                    ),
            ),
        ),
        Command::ToggleActiveFilterModeInOut => act is Nothing && b == App { filter: b.filter, ..a }
            && b.filter.mode() == flipped_mode(a.filter.mode()) && b.filter.patterns() == a.filter.patterns()
            && b.filter.case_sensitive() == a.filter.case_sensitive() && b.filter.hist() == a.filter.hist(),
        Command::ActivateGotoLineMode => act is Nothing && b == App {
            input: b.input,
            view_state: ViewState::GotoLineMode,
            overlay: None,
            viewport: Viewport { follow_mode: false, ..a.viewport },
            ..a
        } && b.input@ == Seq::<char>::empty(),
        Command::ActivateOptionsView => act is Nothing && b == App {
            view_state: ViewState::OptionsView,
            overlay: None,
            ..a
        },
        Command::ToggleDisplayOption | Command::ToggleOption => act is Nothing && option_toggled(a, b),
        Command::ToggleMark => act is Nothing && mark_toggled(a, b),
        Command::ToggleShowMarkedOnly => act is Nothing && marked_only_toggled(a, b),
        Command::ToggleFollowMode => act is Nothing && follow_toggled(a, b),
        Command::TogglePauseMode => act is Nothing && b == App {
            streaming_paused: if a.log_buffer.is_streaming() {
                !a.streaming_paused
            } else {
                a.streaming_paused
            },
            ..a
        },
        Command::ActivateSaveToFileMode => act is Nothing && (if a.log_buffer.is_streaming() {
            b == App { input: b.input, overlay: Some(Overlay::SaveToFile), ..a } && b.input@ == Seq::<char>::empty()
        } else {
            b == a
        }),
        Command::ToggleHelp => act is Nothing && help_toggled(a, b),
        Command::CenterSelected => act is Nothing && b == App { viewport: centered(a.viewport), ..a },
        Command::ScrollLeft => act is Nothing && b == App {
            viewport: Viewport {
                horizontal_offset: sat_sub(a.viewport.horizontal_offset as int, (a.viewport.width / 2) as int) as usize,
                ..a.viewport
            },
            ..a
        },
        Command::ResetHorizontal => act is Nothing && b == App {
            viewport: Viewport { horizontal_offset: 0, ..a.viewport },
            ..a
        },
        Command::ToggleFilterPatternCaseSensitive => act is Nothing && filters_changed(
            a,
            b,
            case_toggled_at(a.filter.patterns(), a.filter_list_state.selected()),
        ),
        Command::ToggleFilterPatternMode => act is Nothing && filters_changed(
            a,
            b,
            mode_toggled_at(a.filter.patterns(), a.filter_list_state.selected()),
        ),
        Command::RemoveFilterPattern => act is Nothing && filter_removed(a, b),
        Command::ActivateMarksView => act is Nothing && marks_view_entered(a, b),
        Command::ClearAllMarks => act is Nothing && b == App { marking: b.marking, ..a } && b.marking.wf()
            && b.marking@ == Map::<usize, Option<Seq<char>>>::empty(),
        Command::ToggleCenterCursorMode => act is Nothing && b == App {
            viewport: if a.viewport.center_cursor_mode {
                Viewport { center_cursor_mode: false, ..a.viewport }
            } else {
                centered(Viewport { center_cursor_mode: true, ..a.viewport })
            },
            ..a
        },
        Command::MarkNext => act is Nothing && mark_step_done(a, b, true),
        Command::MarkPrevious => act is Nothing && mark_step_done(a, b, false),
        Command::UnmarkSelected => act is Nothing && unmarked_selected(a, b),
        Command::GotoSelectedMark => act is Nothing && mark_selected_goto(a, b, true),
        Command::ActivateMarkNameMode => act is Nothing && mark_name_entered(a, b),
        Command::ClearLogBuffer => act is Nothing && stream_cleared(a, b),
        Command::CollapseAll => act is Nothing && expansions_collapsed(a, b),
        Command::ActivateEventsView => act is Nothing && events_view_entered(a, b),
        Command::ActivateEventFilterView => act is Nothing && (if a.view_state == ViewState::EventsView {
            b == App { overlay: Some(Overlay::EventsFilter), ..a }
        } else {
            b == a
        }),
        Command::GotoSelectedEvent => act is Nothing && event_selected_goto(a, b, true),
        Command::ToggleEventFilter => act is Nothing && event_filter_toggled(a, b),
        Command::ToggleAllEventFilters => act is Nothing && event_filters_all_toggled(a, b),
        Command::ToggleEventsShowMarks => act is Nothing && event_marks_toggled(a, b),
        Command::EventNext => act is Nothing && event_stepped(a, b, true),
        Command::EventPrevious => act is Nothing && event_stepped(a, b, false),
        Command::StartSelection => act is Nothing && b == App {
            selection_range: Some((a.viewport.selected_line, a.viewport.selected_line)),
            view_state: ViewState::SelectionMode,
            overlay: None,
            ..a
        },
        Command::CopySelection => selection_copied(a, b, act),
        Command::TabCompletion => act is Nothing && tab_completed(a, b),
        Command::ToggleExpansion => act is Nothing && expansion_toggled(a, b),
        Command::ScrollRight => act is Nothing && scrolled_right(a, b),
        Command::ToggleCaseSearch | Command::ToggleCaseFilter => act is Nothing && case_toggled(a, b),
        Command::PageUp => act is Nothing && paged(a, b, true),
        Command::PageDown => act is Nothing && paged(a, b, false),
        Command::ActivateFilesView => act is Nothing && (if a.file_manager.entries().len() > 1 {
            b == App { view_state: ViewState::FilesView, overlay: None, ..a }
        } else {
            b == a
        }),
        Command::ToggleFile => act is Nothing && file_toggled(a, b),
        Command::SearchHistoryPrevious => act is Nothing && search_history_stepped(a, b, true),
        Command::SearchHistoryNext => act is Nothing && search_history_stepped(a, b, false),
        Command::FilterHistoryPrevious => act is Nothing && filter_history_stepped(a, b, true),
        Command::FilterHistoryNext => act is Nothing && filter_history_stepped(a, b, false),
    }
}

impl App {
    fn move_up(&mut self)
        requires
            old(self).wf(),
        ensures
            final(self).wf(),
            up_done(*old(self), *final(self)),
    {
        proof {
            self.filter_list_state.lemma_nonneg();
            self.options_list_state.lemma_nonneg();
            self.marking_list_state.lemma_nonneg();
            self.files_list_state.lemma_nonneg();
            self.events_list_state.lemma_nonneg();
            self.event_filter_list_state.lemma_nonneg();
        }
        match &self.overlay {
            Some(Overlay::EventsFilter) => {
                self.event_filter_list_state.move_up_wrap();
                return;
            },
            _ => {},
        }
        match self.view_state {
            ViewState::FilterView => self.filter_list_state.move_up_wrap(),
            ViewState::OptionsView => self.options_list_state.move_up_wrap(),
            ViewState::MarksView => self.marking_list_state.move_up(),
            ViewState::FilesView => self.files_list_state.move_up(),
            ViewState::EventsView => {
                self.events_list_state.move_up();
                self.viewport.follow_mode = false;
            },
            ViewState::TimeFilterView => self.time_filter_focus = self.time_filter_focus.next(),
            _ => {
                self.viewport.move_up();
                self.viewport.follow_mode = false;
                self.update_selection_end();
            },
        }
    }

    fn move_down(&mut self)
        requires
            old(self).wf(),
        ensures
            final(self).wf(),
            down_done(*old(self), *final(self)),
    {
        proof {
            self.filter_list_state.lemma_nonneg();
            self.options_list_state.lemma_nonneg();
            self.marking_list_state.lemma_nonneg();
            self.files_list_state.lemma_nonneg();
            self.events_list_state.lemma_nonneg();
            self.event_filter_list_state.lemma_nonneg();
        }
        match &self.overlay {
            Some(Overlay::EventsFilter) => {
                self.event_filter_list_state.move_down_wrap();
                return;
            },
            _ => {},
        }
        match self.view_state {
            ViewState::FilterView => self.filter_list_state.move_down_wrap(),
            ViewState::OptionsView => self.options_list_state.move_down_wrap(),
            ViewState::MarksView => self.marking_list_state.move_down(),
            ViewState::FilesView => self.files_list_state.move_down(),
            ViewState::EventsView => self.events_list_state.move_down(),
            ViewState::TimeFilterView => self.time_filter_focus = self.time_filter_focus.next(),
            ViewState::SelectionMode => {
                self.viewport.move_down();
                self.viewport.follow_mode = false;
                self.update_selection_end();
            },
            _ => self.viewport.move_down(),
        }
    }

    /// In selection mode, ends the selection at the selected row.
    pub fn update_selection_end(&mut self)
        ensures
            *final(self) == (App { selection_range: selection_after(*old(self), old(self).viewport), ..*old(self) }),
    {
        if self.view_state == ViewState::SelectionMode {
            match self.selection_range {
                Some((start, _)) => self.selection_range = Some((start, self.viewport.selected_line)),
                None => {},
            }
        }
    }

    fn record_row(&mut self, row: usize)
        ensures
            row_recorded(old(self).viewport, final(self).viewport, old(self).visible@, row as int),
            *final(self) == (App { viewport: final(self).viewport, ..*old(self) }),
    {
        if row < self.visible.len() {
            self.viewport.push_history(self.visible[row]);
        }
    }

    fn goto_top(&mut self)
        requires
            old(self).wf(),
        ensures
            final(self).wf(),
            top_done(*old(self), *final(self)),
    {
        self.viewport.goto_top();
        self.record_row(0);
        self.viewport.follow_mode = false;
    }

    fn goto_bottom(&mut self)
        requires
            old(self).wf(),
        ensures
            final(self).wf(),
            bottom_done(*old(self), *final(self)),
    {
        self.viewport.goto_bottom();
        let row = self.viewport.selected_line;
        self.record_row(row);
    }

    fn search_step(&mut self, forward: bool)
        requires
            old(self).wf(),
        ensures
            final(self).wf(),
            match_step_done(*old(self), *final(self), forward),
    {
        let sel = self.viewport.selected_line;
        let found = if forward {
            self.search.next_match(sel)
        } else {
            self.search.previous_match(sel)
        };
        proof {
            self.search.lemma_counts_nonneg();
        }
        match found {
            Some(row) => {
                self.record_row(row);
                let ghost pushed = self.viewport;
                self.viewport.goto_line(row, false);
                assert(self.viewport.history == pushed.history);
            },
            None => {},
        }
    }

    fn history_step(&mut self, back: bool)
        requires
            old(self).wf(),
        ensures
            final(self).wf(),
            history_step_done(*old(self), *final(self), back),
    {
        let found = if back {
            self.viewport.history_back()
        } else {
            self.viewport.history_forward()
        };
        match found {
            Some(line) => match find_row(&self.visible, line) {
                Some(row) => {
                    proof {
                        lemma_first_row_in_range(self.visible@, line, 0);
                    }
                    self.viewport.goto_line(row, false);
                },
                None => {},
            },
            None => {},
        }
        self.viewport.follow_mode = false;
    }

    pub fn activate_search_mode(&mut self)
        requires
            old(self).wf(),
        ensures
            final(self).wf(),
            search_mode_entered(*old(self), *final(self)),
    {
        self.input = String::new();
        self.search.clear_matches();
        self.search.reset_case_sensitivity();
        self.search.reset_history();
        self.view_state = ViewState::ActiveSearchMode;
        self.overlay = None;
    }

    pub fn activate_filter_mode(&mut self)
        requires
            old(self).wf(),
        ensures
            final(self).wf(),
            filter_mode_entered(*old(self), *final(self)),
    {
        self.input = String::new();
        self.filter.reset_mode();
        self.filter.reset_case_sensitivity();
        self.filter.reset_history();
        self.view_state = ViewState::ActiveFilterMode;
        self.overlay = None;
    }

    pub fn activate_edit_filter_mode(&mut self)
        ensures
            edit_filter_entered(*old(self), *final(self)),
    {
        let k = self.filter_list_state.selected_index();
        match self.filter.get_pattern(k) {
            Some(f) => {
                self.input = f.pattern.clone();
                self.overlay = Some(Overlay::EditFilter);
            },
            None => {},
        }
    }
}

impl App {
    pub fn quit(&mut self) -> (act: Action)
        ensures
            *final(self) == (App { running: false, ..*old(self) }),
            old(self).log_buffer.is_streaming() ==> act is Nothing,
            !old(self).log_buffer.is_streaming() ==> act is SaveState,
    {
        self.running = false;
        if self.log_buffer.streaming_mode() {
            Action::Nothing
        } else {
            Action::SaveState
        }
    }

    /// Hides the help, or shows it at the section for the current overlay or view (see
    /// `help_toggled`).
    pub fn toggle_help(&mut self)
        ensures
            help_toggled(*old(self), *final(self)),
    {
        if self.help.is_visible() {
            self.help.toggle_visibility();
        } else {
            let ctx = match &self.overlay {
                Some(o) => KeybindingContext::Overlay(overlay_copy(o)),
                None => KeybindingContext::View(self.view_state),
            };
            self.help.show_for_state(&ctx);
        }
    }

    pub fn toggle_filter_pattern_active(&mut self)
        requires
            old(self).wf(),
        ensures
            final(self).wf(),
            filters_changed(
                *old(self),
                *final(self),
                toggled_enabled(old(self).filter.patterns(), old(self).filter_list_state.selected()),
            ),
    {
        let k = self.filter_list_state.selected_index();
        self.filter.toggle_pattern_enabled(k);
        self.expansion.clear();
        self.update_view();
    }

    pub fn toggle_all_filter_patterns(&mut self)
        requires
            old(self).wf(),
        ensures
            final(self).wf(),
            filters_changed(
                *old(self),
                *final(self),
                Seq::new(
                    old(self).filter.patterns().len(),
                    |i: int|
                        with_enabled(
                            old(self).filter.patterns()[i],
                            !(forall|k: int|
                                0 <= k < old(self).filter.patterns().len() ==> #[trigger] old(self).filter.patterns()[k].enabled),
                        ),
                ),
            ),
    {
        self.filter.toggle_all_patterns_enabled();
        assert(self.filter.patterns() =~= Seq::new(
            old(self).filter.patterns().len(),
            |i: int|
                with_enabled(
                    old(self).filter.patterns()[i],
                    !(forall|k: int|
                        0 <= k < old(self).filter.patterns().len() ==> #[trigger] old(self).filter.patterns()[k].enabled),
                ),
        ));
        self.expansion.clear();
        self.update_view();
    }

    pub fn toggle_filter_pattern_case_sensitive(&mut self)
        requires
            old(self).wf(),
        ensures
            final(self).wf(),
            executed(Command::ToggleFilterPatternCaseSensitive, *old(self), *final(self), Action::Nothing),
    {
        let k = self.filter_list_state.selected_index();
        self.filter.toggle_pattern_case_sensitivity(k);
        self.expansion.clear();
        self.update_view();
    }

    pub fn toggle_filter_pattern_mode(&mut self)
        requires
            old(self).wf(),
        ensures
            final(self).wf(),
            executed(Command::ToggleFilterPatternMode, *old(self), *final(self), Action::Nothing),
    {
        let k = self.filter_list_state.selected_index();
        self.filter.toggle_pattern_mode(k);
        self.expansion.clear();
        self.update_view();
    }

    pub fn remove_filter_pattern(&mut self)
        requires
            old(self).wf(),
        ensures
            final(self).wf(),
            filter_removed(*old(self), *final(self)),
    {
        let k = self.filter_list_state.selected_index();
        self.filter.remove_pattern(k);
        let n = self.filter.count();
        self.filter_list_state.set_item_count(n);
        self.expansion.clear();
        self.update_view();
    }

    fn toggle_option(&mut self)
        requires
            old(self).wf(),
        ensures
            final(self).wf(),
            option_toggled(*old(self), *final(self)),
    {
        let k = self.options_list_state.selected_index();
        self.options.toggle_option(k);
        self.update_view();
    }

    fn toggle_mark(&mut self)
        requires
            old(self).wf(),
        ensures
            final(self).wf(),
            mark_toggled(*old(self), *final(self)),
    {
        if self.view_state == ViewState::SelectionMode {
            match self.selection_range {
                Some(_) => {
                    let ls = self.selection_lines();
                    if ls.len() == 0 {
                        return;
                    }
                    mark_lines(&mut self.marking, &ls);
                },
                None => {},
            }
        } else if self.view_state == ViewState::EventsView {
            let items = self.events_list();
            let k = self.events_list_state.selected_index();
            if k < items.len() {
                self.marking.toggle_mark(items[k].0);
            }
        } else {
            let sel = self.viewport.selected_line;
            if sel < self.visible.len() {
                self.marking.toggle_mark(self.visible[sel]);
            }
        }
        let n = self.marking.count();
        self.marking_list_state.set_item_count(n);
        if self.show_marked_lines_only {
            self.update_view();
        }
    }

    pub fn toggle_show_marked_only(&mut self)
        requires
            old(self).wf(),
        ensures
            final(self).wf(),
            marked_only_toggled(*old(self), *final(self)),
    {
        self.show_marked_lines_only = !self.show_marked_lines_only;
        self.update_view();
    }

    pub fn toggle_follow_mode(&mut self)
        requires
            old(self).wf(),
        ensures
            final(self).wf(),
            follow_toggled(*old(self), *final(self)),
    {
        if self.log_buffer.streaming_mode() {
            self.viewport.follow_mode = !self.viewport.follow_mode;
            if self.viewport.follow_mode {
                self.viewport.goto_bottom();
            }
        }
    }

    pub fn toggle_center_cursor_mode(&mut self)
        requires
            old(self).wf(),
        ensures
            final(self).wf(),
            executed(Command::ToggleCenterCursorMode, *old(self), *final(self), Action::Nothing),
    {
        self.viewport.center_cursor_mode = !self.viewport.center_cursor_mode;
        if self.viewport.center_cursor_mode {
            self.viewport.center_selected();
        }
    }

    pub fn activate_marks_view(&mut self)
        requires
            old(self).wf(),
        ensures
            final(self).wf(),
            marks_view_entered(*old(self), *final(self)),
    {
        let ls = self.get_visible_marks();
        self.marking_list_state.set_item_count(ls.len());
        let sel = self.viewport.selected_line;
        if sel < self.visible.len() {
            let line = self.visible[sel];
            if ls.len() > 0 {
                let k = nearest_row(&ls, line);
                self.marking_list_state.select_index(k);
            } else {
                self.marking_list_state.select_index(0);
            }
        } else {
            self.marking_list_state.reset();
        }
        self.view_state = ViewState::MarksView;
        self.overlay = None;
    }
}

pub(crate) fn neighbour_of(ls: &Vec<usize>, x: usize, after: bool) -> (r: Option<usize>)
    ensures
        r == neighbour_mark(ls@, x, after),
{
    if after {
        let mut k: usize = 0;
        while k < ls.len()
            invariant
                after,
                k <= ls@.len(),
                neighbour_mark(ls@.take(k as int), x, true) is None,
            decreases ls@.len() - k,
        {
            assert(ls@.take(k + 1).drop_last() =~= ls@.take(k as int));
            if ls[k] > x {
                proof {
                    assert(ls@.take(k + 1).last() == ls@[k as int]);
                    assert(neighbour_mark(ls@.take(k + 1), x, true) == Some(ls@[k as int]));
                    lemma_neighbour_prefix(ls@, x, k as int + 1);
                }
                return Some(ls[k]);
            }
            k += 1;
        }
        assert(ls@.take(k as int) =~= ls@);
        None
    } else {
        let mut k: usize = ls.len();
        assert(ls@.take(k as int) =~= ls@);
        while k > 0
            invariant
                !after,
                k <= ls@.len(),
                neighbour_mark(ls@, x, false) == neighbour_mark(ls@.take(k as int), x, false),
            decreases k,
        {
            assert(ls@.take(k as int).drop_last() =~= ls@.take(k - 1));
            assert(ls@.take(k as int).last() == ls@[k - 1]);
            if ls[k - 1] < x {
                return Some(ls[k - 1]);
            }
            k -= 1;
        }
        None
    }
}

proof fn lemma_neighbour_prefix(ls: Seq<usize>, x: usize, n: int)
    requires
        0 < n <= ls.len(),
        neighbour_mark(ls.take(n), x, true) is Some,
    ensures
        neighbour_mark(ls, x, true) == neighbour_mark(ls.take(n), x, true),
    decreases ls.len() - n,
{
    assert(ls.take(ls.len() as int) =~= ls);
    if n < ls.len() {
        assert(ls.take(n + 1).drop_last() =~= ls.take(n));
        lemma_neighbour_prefix(ls, x, n + 1);
    }
}

fn mark_name_text(m: &Marking, line: usize) -> (r: String)
    requires
        m.wf(),
    ensures
        r@ == (if m@.contains_key(line) { name_text(m@[line]) } else { Seq::empty() }),
{
    proof {
        m.lemma_ordered();
    }
    let marks = m.get_marks();
    let mut k: usize = 0;
    while k < marks.len()
        invariant
            m.wf(),
            marks@ == m.ordered(),
            k <= marks@.len(),
            forall|j: int| 0 <= j < k ==> (#[trigger] marks@[j]).line_index != line,
        decreases marks@.len() - k,
    {
        if marks[k].line_index == line {
            proof {
                m.lemma_ordered();
                assert(m.ordered()[k as int] == marks@[k as int]);
                assert(m@[m.ordered()[k as int].line_index] == crate::marking::name_view(m.ordered()[k as int].name));
                assert(crate::marking::has_mark(m.ordered(), line));
            }
            return match &marks[k].name {
                Some(n) => n.clone(),
                None => String::new(),
            };
        }
        k += 1;
    }
    proof {
        m.lemma_ordered();
    }
    String::new()
}

impl App {
    fn mark_step(&mut self, after: bool)
        requires
            old(self).wf(),
        ensures
            final(self).wf(),
            mark_step_done(*old(self), *final(self), after),
    {
        let ls = self.get_visible_marks();
        self.step_to_line(&ls, after);
    }

    /// Goes to the next (or previous) target line (see `stepped_to_line`).
    pub(crate) fn step_to_line(&mut self, targets: &Vec<usize>, after: bool)
        requires
            old(self).wf(),
        ensures
            final(self).wf(),
            stepped_to_line(*old(self), *final(self), targets@, after),
    {
        let sel = self.viewport.selected_line;
        if sel < self.visible.len() {
            match neighbour_of(targets, self.visible[sel], after) {
                Some(line) => match find_row(&self.visible, line) {
                    Some(row) => {
                        self.viewport.push_history(line);
                        let ghost pushed = self.viewport;
                        self.viewport.goto_line(row, false);
                        assert(self.viewport.history == pushed.history);
                    },
                    None => {},
                },
                None => {},
            }
        }
    }

    pub fn unmark_selected(&mut self)
        requires
            old(self).wf(),
        ensures
            final(self).wf(),
            unmarked_selected(*old(self), *final(self)),
    {
        let ls = self.get_visible_marks();
        let k = self.marking_list_state.selected_index();
        if k < ls.len() {
            self.marking.unmark(ls[k]);
            let n = self.marking.count();
            self.marking_list_state.set_item_count(n);
            if self.show_marked_lines_only {
                self.update_view();
            }
        }
    }

    /// Goes to the mark selected in the marks view (see `mark_selected_goto`).
    pub fn goto_selected_mark(&mut self, center: bool)
        requires
            old(self).wf(),
        ensures
            final(self).wf(),
            mark_selected_goto(*old(self), *final(self), center),
    {
        let ls = self.get_visible_marks();
        let k = self.marking_list_state.selected_index();
        if k < ls.len() {
            self.goto_log_line(ls[k], center);
        }
    }

    fn activate_mark_name_mode(&mut self)
        requires
            old(self).wf(),
        ensures
            final(self).wf(),
            mark_name_entered(*old(self), *final(self)),
    {
        match self.named_mark() {
            Some(l) => {
                self.input = mark_name_text(&self.marking, l);
                self.overlay = Some(Overlay::MarkName);
            },
            None => {},
        }
    }


    pub fn clear_log_buffer(&mut self)
        requires
            old(self).wf(),
        ensures
            final(self).wf(),
            stream_cleared(*old(self), *final(self)),
    {
        if self.log_buffer.streaming_mode() {
            self.log_buffer.clear_all();
            self.marking.clear_all();
            self.event_tracker.clear_all();
            self.viewport.reset_view();
            self.visible = Vec::new();
            self.expanded_rows = Vec::new();
            self.update_view();
        }
    }

    pub fn collapse_all_expansions(&mut self)
        requires
            old(self).wf(),
        ensures
            final(self).wf(),
            expansions_collapsed(*old(self), *final(self)),
    {
        self.expansion.clear();
        self.update_view();
    }
}

impl App {
    fn search_history_step(&mut self, back: bool)
        requires
            old(self).wf(),
        ensures
            final(self).wf(),
            search_history_stepped(*old(self), *final(self), back),
    {
        match self.search.history_record(back) {
            Some(t) => self.input = t,
            None => if !back {
                self.input = String::new();
            },
        }
    }

    fn filter_history_step(&mut self, back: bool)
        requires
            old(self).wf(),
        ensures
            final(self).wf(),
            filter_history_stepped(*old(self), *final(self), back),
    {
        match self.filter.history_record(back) {
            Some(e) => {
                self.filter.set_mode(e.mode);
                self.filter.set_case_sensitivity(e.case_sensitive);
                self.input = e.pattern;
            },
            None => if !back {
                self.input = String::new();
                self.filter.reset_mode();
                self.filter.reset_case_sensitivity();
            },
        }
    }
}

impl App {
    pub fn toggle_file(&mut self)
        requires
            old(self).wf(),
        ensures
            final(self).wf(),
            file_toggled(*old(self), *final(self)),
    {
        let k = self.files_list_state.selected_index();
        self.file_manager.toggle_enabled(k);
        self.expansion.clear();
        self.update_view();
    }
}

impl App {
    #[verifier::rlimit(40)]
    fn page(&mut self, up: bool)
        requires
            old(self).wf(),
        ensures
            final(self).wf(),
            paged(*old(self), *final(self), up),
    {
        proof {
            self.marking_list_state.lemma_nonneg();
            self.files_list_state.lemma_nonneg();
            self.events_list_state.lemma_nonneg();
        }
        match self.view_state {
            ViewState::MarksView => if up {
                self.marking_list_state.page_up()
            } else {
                self.marking_list_state.page_down()
            },
            ViewState::FilesView => if up {
                self.files_list_state.page_up()
            } else {
                self.files_list_state.page_down()
            },
            ViewState::EventsView => if up {
                self.events_list_state.page_up()
            } else {
                self.events_list_state.page_down()
            },
            ViewState::SelectionMode => {
                if up {
                    self.viewport.page_up();
                } else {
                    self.viewport.page_down();
                }
                self.viewport.follow_mode = false;
                self.update_selection_end();
            },
            _ => if up {
                self.viewport.page_up();
                self.viewport.follow_mode = false;
            } else {
                self.viewport.page_down();
            },
        }
    }
}

impl App {
    fn scroll_right(&mut self)
        requires
            old(self).wf(),
            old(self).viewport.top_line + old(self).viewport.height <= usize::MAX,
        ensures
            final(self).wf(),
            scrolled_right(*old(self), *final(self)),
    {
        let (start, end) = self.viewport.visible();
        let rows = self.visible.len();
        let lines = self.log_buffer.all_lines();
        let mut longest: usize = 0;
        if start < rows {
            let stop = if end < rows {
                end
            } else {
                rows
            };
            let mut r: usize = start;
            while r < stop
                invariant
                    start <= r <= stop,
                    stop <= rows,
                    rows == self.visible@.len(),
                    lines@ == self.log_buffer.lines(),
                    forall|i: int| 0 <= i < self.visible@.len() ==> (#[trigger] self.visible@[i]) < lines@.len(),
                    longest == longest_shown(lines@, self.visible@, start as int, r as int),
                decreases stop - r,
            {
                let len = lines[self.visible[r]].content.as_str().as_bytes().len();
                if len > longest {
                    longest = len;
                }
                r += 1;
            }
        }
        self.viewport.scroll_right(longest);
    }
}

impl App {
    pub fn toggle_case_sensitive(&mut self)
        requires
            old(self).wf(),
        ensures
            final(self).wf(),
            case_toggled(*old(self), *final(self)),
    {
        self.search.toggle_case_sensitivity();
        self.filter.toggle_case_sensitivity();
        if self.view_state == ViewState::ActiveSearchMode {
            let lines = self.log_buffer.all_lines();
            let shown = row_contents(lines, &self.visible);
            let all = line_contents(lines);
            self.search.update_matches(self.input.as_str(), shown.as_slice());
            let total = self.search.count_matches(self.input.as_str(), all.as_slice());
            self.search.set_total_match_count(total);
        }
    }
}

/// Unmarks the lines when all are marked, else marks those that are not.
fn mark_lines(marking: &mut Marking, ls: &Vec<usize>)
    requires
        old(marking).wf(),
    ensures
        final(marking).wf(),
        final(marking)@ == (if all_marked(old(marking)@, ls@) {
            toggled_all(old(marking)@, ls@)
        } else {
            marked_all(old(marking)@, ls@)
        }),
{
    let ghost m0 = marking@;
    let mut all = true;
    let mut i: usize = 0;
    while i < ls.len()
        invariant
            i <= ls@.len(),
            marking.wf(),
            marking@ == m0,
            all == (forall|k: int| 0 <= k < i ==> m0.contains_key(#[trigger] ls@[k])),
        decreases ls@.len() - i,
    {
        if !marking.is_marked(ls[i]) {
            all = false;
        }
        i += 1;
    }
    let mut j: usize = 0;
    while j < ls.len()
        invariant
            j <= ls@.len(),
            marking.wf(),
            all == all_marked(m0, ls@),
            all ==> marking@ == toggled_all(m0, ls@.take(j as int)),
            !all ==> marking@ == marked_all(m0, ls@.take(j as int)),
        decreases ls@.len() - j,
    {
        assert(ls@.take(j + 1).drop_last() =~= ls@.take(j as int));
        assert(ls@.take(j + 1).last() == ls@[j as int]);
        if all {
            marking.toggle_mark(ls[j]);
        } else if !marking.is_marked(ls[j]) {
            marking.toggle_mark(ls[j]);
        }
        j += 1;
    }
    assert(ls@.take(j as int) =~= ls@);
}

fn lines_between(lo: usize, hi: usize) -> (r: Vec<usize>)
    ensures
        r@ == line_range(lo as int, hi as int),
{
    let mut out: Vec<usize> = Vec::new();
    let mut k: usize = lo;
    if lo < hi {
        while k < hi
            invariant
                lo <= k <= hi,
                out@ == line_range(lo as int, k as int),
            decreases hi - k,
        {
            out.push(k);
            k += 1;
            proof {
                assert(out@ =~= line_range(lo as int, k as int));
            }
        }
    } else {
        assert(out@ =~= line_range(lo as int, hi as int));
    }
    out
}

impl App {
    /// Expands or collapses at the selected row (see `expansion_toggled`).
    pub fn toggle_expansion(&mut self)
        requires
            old(self).wf(),
        ensures
            final(self).wf(),
            expansion_toggled(*old(self), *final(self)),
    {
        let sel = self.viewport.selected_line;
        if sel >= self.visible.len() {
            return;
        }
        let cur = self.visible[sel];
        if self.expanded_rows[sel] {
            match self.expansion.find_parent(cur) {
                Some(p) => {
                    self.expansion.toggle(p, Vec::new());
                    self.update_view();
                },
                None => {},
            }
            return;
        }
        if self.expansion.is_expanded(cur) {
            self.expansion.toggle(cur, Vec::new());
            self.update_view();
            return;
        }
        let total = self.log_buffer.get_total_lines_count();
        assert(cur < total);
        let hidden = if sel + 1 < self.visible.len() {
            lines_between(cur + 1, self.visible[sel + 1])
        } else {
            Vec::new()
        };
        if hidden.len() == 0 {
            return;
        }
        self.expansion.toggle(cur, hidden);
        self.update_view();
    }
}

impl App {
    /// Completes the typed text (see `tab_completed`).
    pub fn apply_tab_completion(&mut self)
        ensures
            tab_completed(*old(self), *final(self)),
    {
        if self.view_state != ViewState::ActiveSearchMode && self.view_state != ViewState::ActiveFilterMode {
            return;
        }
        match self.completion.find_completion(self.input.as_str()) {
            Some(c) => {
                let mut text = String::new();
                push_text(&mut text, self.input.as_str());
                push_text(&mut text, c.as_str());
                self.input = text;
            },
            None => {},
        }
    }

    /// The prompt before the typed text (see `input_prefix`).
    pub fn get_input_prefix(&self) -> (r: String)
        ensures
            r@ == input_prefix(*self),
    {
        let mut s = String::new();
        match &self.overlay {
            Some(Overlay::SaveToFile) => {
                push_text(&mut s, "Save to file: ");
                return s;
            },
            Some(Overlay::EditTimeFilter) => {
                match self.time_filter_focus {
                    TimeFilterFocus::Start => push_text(&mut s, "Start: "),
                    TimeFilterFocus::End => push_text(&mut s, "End: "),
                }
                return s;
            },
            _ => {},
        }
        if self.view_state == ViewState::ActiveSearchMode {
            push_text(&mut s, "Search: [");
            if self.search.is_case_sensitive() {
                push_text(&mut s, "Aa");
            } else {
                push_text(&mut s, "aa");
            }
            push_text(&mut s, "] ");
        } else if self.view_state == ViewState::ActiveFilterMode {
            push_text(&mut s, "Filter: [");
            if self.filter.is_case_sensitive() {
                push_text(&mut s, "Aa");
            } else {
                push_text(&mut s, "aa");
            }
            push_text(&mut s, "] [");
            match self.filter.get_mode() {
                ActiveFilterMode::Include => push_text(&mut s, "IN"),
                ActiveFilterMode::Exclude => push_text(&mut s, "EX"),
            }
            push_text(&mut s, "] ");
        } else if self.view_state == ViewState::GotoLineMode {
            push_text(&mut s, "Go to line: ");
        }
        proof {
            assert(s@ =~= input_prefix(*self));
        }
        s
    }
}

impl App {
    /// Goes to the next search match (see `match_step_done`).
    pub fn search_next(&mut self)
        requires
            old(self).wf(),
        ensures
            final(self).wf(),
            match_step_done(*old(self), *final(self), true),
    {
        self.search_step(true);
    }

    /// Goes to the previous search match (see `match_step_done`).
    pub fn search_previous(&mut self)
        requires
            old(self).wf(),
        ensures
            final(self).wf(),
            match_step_done(*old(self), *final(self), false),
    {
        self.search_step(false);
    }

    /// Goes to the next shown mark (see `mark_step_done`).
    pub fn mark_next(&mut self)
        requires
            old(self).wf(),
        ensures
            final(self).wf(),
            mark_step_done(*old(self), *final(self), true),
    {
        self.mark_step(true);
    }

    /// Goes to the previous shown mark (see `mark_step_done`).
    pub fn mark_previous(&mut self)
        requires
            old(self).wf(),
        ensures
            final(self).wf(),
            mark_step_done(*old(self), *final(self), false),
    {
        self.mark_step(false);
    }

    /// Fills the input with the previous search of the history (see `search_history_stepped`).
    pub fn search_history_previous(&mut self)
        requires
            old(self).wf(),
        ensures
            final(self).wf(),
            search_history_stepped(*old(self), *final(self), true),
    {
        self.search_history_step(true);
    }

    /// Fills the input with the next search of the history (see `search_history_stepped`).
    pub fn search_history_next(&mut self)
        requires
            old(self).wf(),
        ensures
            final(self).wf(),
            search_history_stepped(*old(self), *final(self), false),
    {
        self.search_history_step(false);
    }

    /// Fills the input with the previous filter of the history (see `filter_history_stepped`).
    pub fn filter_history_previous(&mut self)
        requires
            old(self).wf(),
        ensures
            final(self).wf(),
            filter_history_stepped(*old(self), *final(self), true),
    {
        self.filter_history_step(true);
    }

    /// Fills the input with the next filter of the history (see `filter_history_stepped`).
    pub fn filter_history_next(&mut self)
        requires
            old(self).wf(),
        ensures
            final(self).wf(),
            filter_history_stepped(*old(self), *final(self), false),
    {
        self.filter_history_step(false);
    }

    /// Shows the list of filters.
    pub fn activate_filter_list_view(&mut self)
        ensures
            executed(Command::ActivateFilterView, *old(self), *final(self), Action::Nothing),
    {
        self.set_view_state(ViewState::FilterView);
    }

    /// Asks for a line number to go to, ending following.
    pub fn activate_goto_line_mode(&mut self)
        ensures
            executed(Command::ActivateGotoLineMode, *old(self), *final(self), Action::Nothing),
    {
        self.input = String::new();
        self.set_view_state(ViewState::GotoLineMode);
        self.viewport.follow_mode = false;
    }

    /// Shows the list of options.
    pub fn activate_options_view(&mut self)
        ensures
            executed(Command::ActivateOptionsView, *old(self), *final(self), Action::Nothing),
    {
        self.set_view_state(ViewState::OptionsView);
    }

    /// Shows the list of files, when there are several.
    pub fn activate_files_view(&mut self)
        ensures
            executed(Command::ActivateFilesView, *old(self), *final(self), Action::Nothing),
    {
        if self.file_manager.is_multi_file() {
            self.set_view_state(ViewState::FilesView);
        }
    }

    /// Opens the list of event filters over the events view.
    pub fn activate_event_filter_view(&mut self)
        ensures
            executed(Command::ActivateEventFilterView, *old(self), *final(self), Action::Nothing),
    {
        if self.view_state == ViewState::EventsView {
            self.overlay = Some(Overlay::EventsFilter);
        }
    }

    /// Pauses or resumes reading a stream.
    pub fn toggle_pause_mode(&mut self)
        ensures
            executed(Command::TogglePauseMode, *old(self), *final(self), Action::Nothing),
    {
        if self.log_buffer.streaming_mode() {
            self.streaming_paused = !self.streaming_paused;
        }
    }

    /// Asks for a file to save a stream to.
    pub fn activate_save_to_file_mode(&mut self)
        ensures
            executed(Command::ActivateSaveToFileMode, *old(self), *final(self), Action::Nothing),
    {
        if self.log_buffer.streaming_mode() {
            self.input = String::new();
            self.overlay = Some(Overlay::SaveToFile);
        }
    }

    /// Removes every mark.
    pub fn clear_all_marks(&mut self)
        ensures
            executed(Command::ClearAllMarks, *old(self), *final(self), Action::Nothing),
    {
        self.marking.clear_all();
    }
}

impl Command {
    /// Carries out the command on the application (see `executed`); the action says what
    /// else to do.
    pub fn execute(&self, app: &mut App) -> (act: Action)
        requires
            old(app).wf(),
            *self == Command::Confirm ==> crate::app_steps::custom_text_ok(*old(app)),
            *self == Command::ScrollRight ==> old(app).viewport.top_line + old(app).viewport.height <= usize::MAX,
        ensures
            final(app).wf(),
            executed(*self, *old(app), *final(app), act),
    {
        match self {
            Command::MoveUp => app.move_up(),
            Command::MoveDown => app.move_down(),
            Command::GotoTop => app.goto_top(),
            Command::GotoBottom => app.goto_bottom(),
            Command::HistoryBack => app.history_step(true),
            Command::HistoryForward => app.history_step(false),
            Command::SearchNext => app.search_next(),
            Command::SearchPrevious => app.search_previous(),
            Command::Quit => {
                return app.quit();
            },
            Command::Cancel => app.cancel(),
            Command::Confirm => {
                return app.confirm();
            },
            Command::ActivateActiveSearchMode => app.activate_search_mode(),
            Command::ActivateActiveFilterMode => app.activate_filter_mode(),
            Command::ActivateFilterView => app.activate_filter_list_view(),
            Command::ActivateEditActiveFilterMode => app.activate_edit_filter_mode(),
            Command::ToggleFilterPattern => app.toggle_filter_pattern_active(),
            Command::ToggleAllFilterPatterns => app.toggle_all_filter_patterns(),
            Command::ToggleActiveFilterModeInOut => app.filter.toggle_mode(),
            Command::ActivateGotoLineMode => app.activate_goto_line_mode(),
            Command::ActivateOptionsView => app.activate_options_view(),
            Command::ToggleDisplayOption | Command::ToggleOption => app.toggle_option(),
            Command::ToggleMark => app.toggle_mark(),
            Command::ToggleShowMarkedOnly => app.toggle_show_marked_only(),
            Command::ToggleFollowMode => app.toggle_follow_mode(),
            Command::TogglePauseMode => app.toggle_pause_mode(),
            Command::ActivateSaveToFileMode => app.activate_save_to_file_mode(),
            Command::ToggleHelp => app.toggle_help(),
            Command::CenterSelected => app.viewport.center_selected(),
            Command::ScrollLeft => app.viewport.scroll_left(),
            Command::ResetHorizontal => app.viewport.reset_horizontal(),
            Command::ToggleFilterPatternCaseSensitive => app.toggle_filter_pattern_case_sensitive(),
            Command::ToggleFilterPatternMode => app.toggle_filter_pattern_mode(),
            Command::RemoveFilterPattern => app.remove_filter_pattern(),
            Command::ActivateMarksView => app.activate_marks_view(),
            Command::ClearAllMarks => app.clear_all_marks(),
            Command::ToggleCenterCursorMode => app.toggle_center_cursor_mode(),
            Command::MarkNext => app.mark_next(),
            Command::MarkPrevious => app.mark_previous(),
            Command::UnmarkSelected => app.unmark_selected(),
            Command::GotoSelectedMark => app.goto_selected_mark(true),
            Command::ActivateMarkNameMode => app.activate_mark_name_mode(),
            Command::ClearLogBuffer => app.clear_log_buffer(),
            Command::CollapseAll => app.collapse_all_expansions(),
            Command::ActivateEventsView => app.activate_events_view(),
            Command::ActivateEventFilterView => app.activate_event_filter_view(),
            Command::GotoSelectedEvent => app.goto_selected_event(true),
            Command::ToggleEventFilter => app.toggle_event_filter(),
            Command::ToggleAllEventFilters => app.toggle_all_event_filters(),
            Command::ToggleEventsShowMarks => app.toggle_events_show_marks(),
            Command::EventNext => app.event_next(),
            Command::EventPrevious => app.event_previous(),
            Command::StartSelection => app.start_selection(),
            Command::CopySelection => {
                return app.copy_selection_to_clipboard();
            },
            Command::TabCompletion => app.apply_tab_completion(),
            Command::ToggleExpansion => app.toggle_expansion(),
            Command::ScrollRight => app.scroll_right(),
            Command::ToggleCaseSearch | Command::ToggleCaseFilter => app.toggle_case_sensitive(),
            Command::PageUp => app.page(true),
            Command::PageDown => app.page(false),
            Command::ActivateFilesView => app.activate_files_view(),
            Command::ToggleFile => app.toggle_file(),
            Command::SearchHistoryPrevious => app.search_history_previous(),
            Command::SearchHistoryNext => app.search_history_next(),
            Command::FilterHistoryPrevious => app.filter_history_previous(),
            Command::FilterHistoryNext => app.filter_history_next(),
        }
        Action::Nothing
    }
}

} // verus!
