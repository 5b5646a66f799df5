//! The events view: which events it lists, moving between events, and switching the
//! event filters.
use vstd::prelude::*;
use crate::app::{nearest_row, nearest_upto, search_refreshed, viewport_after, visible_lines, App, Overlay, ViewState};
use crate::app_commands::stepped_to_line;
use crate::app_steps::{contains_row, jumped_to_line, list_recounted, listed_marks, rescanned};
use crate::filter::with_enabled;
use crate::list_view_state::{list_offset_after, min_int};
use crate::log::LogLine;
use crate::log_event::{flagged_events, stats_order, toggled_event, LogEvent, PatternFlag};
use crate::sorting::{sort_pairs, sort_stable};

verus! {

/// The enabled events, in the tracker's order.
pub open spec fn enabled_events(a: App) -> Seq<LogEvent> {
    flagged_events(a.event_tracker.patterns(), a.event_tracker.events(), PatternFlag::Enabled)
}

/// The lines of the events, in order, that lie on some row (`on_rows`) or on none.
pub open spec fn event_lines_where(evs: Seq<LogEvent>, rows: Seq<usize>, on_rows: bool) -> Seq<usize>
    decreases evs.len(),
{
    if evs.len() == 0 {
        Seq::empty()
    } else {
        let p = event_lines_where(evs.drop_last(), rows, on_rows);
        if rows.contains(evs.last().line_index) == on_rows {
            p.push(evs.last().line_index)
        } else {
            p
        }
    }
}

/// The lines of the enabled events that are shown.
pub open spec fn shown_event_lines(a: App) -> Seq<usize> {
    event_lines_where(enabled_events(a), a.visible@, true)
}

/// The lines of the enabled events that the filters hide.
pub open spec fn hidden_event_lines(a: App) -> Seq<usize> {
    event_lines_where(enabled_events(a), a.visible@, false)
}

/// Some event pattern is switched off.
pub open spec fn event_filtering(a: App) -> bool {
    exists|i: int| 0 <= i < a.event_tracker.patterns().len() && !(#[trigger] a.event_tracker.patterns()[i]).enabled
}

/// Each line with its position.
pub open spec fn line_keys(s: Seq<usize>) -> Seq<(usize, usize)> {
    Seq::new(s.len(), |i: int| (s[i], i as usize))
}

/// The lines ordered by line index, equal ones in their order.
pub open spec fn by_line(s: Seq<usize>) -> Seq<usize> {
    sort_stable(line_keys(s), false).map_values(|p: (usize, usize)| p.0)
}

/// The event lines the events list holds: the shown ones; while some event pattern is
/// switched off, also the hidden ones, all ordered by line.
pub open spec fn listed_event_lines(a: App) -> Seq<usize> {
    if event_filtering(a) {
        by_line(shown_event_lines(a) + hidden_event_lines(a))
    } else {
        shown_event_lines(a)
    }
}

/// Lines as list items, each marked as a mark's or an event's.
pub open spec fn as_items(s: Seq<usize>, is_mark: bool) -> Seq<(usize, bool)> {
    s.map_values(|l: usize| (l, is_mark))
}

/// Two item lists merged by line, an event before a mark on the same line.
pub open spec fn merge_items(es: Seq<(usize, bool)>, ms: Seq<(usize, bool)>) -> Seq<(usize, bool)>
    decreases es.len() + ms.len(),
{
    if es.len() == 0 {
        ms
    } else if ms.len() == 0 {
        es
    } else if es[0].0 <= ms[0].0 {
        seq![es[0]] + merge_items(es.drop_first(), ms)
    } else {
        seq![ms[0]] + merge_items(es, ms.drop_first())
    }
}

/// The items of the events list, as line and whether it is a mark: the listed events,
/// merged with the listed marks while marks are shown among the events.
pub open spec fn event_items(a: App) -> Seq<(usize, bool)> {
    if a.event_tracker.marks_shown() {
        merge_items(as_items(listed_event_lines(a), false), as_items(listed_marks(a), true))
    } else {
        as_items(listed_event_lines(a), false)
    }
}

/// The lines of the events with the given name, in order.
pub open spec fn event_lines_named(evs: Seq<LogEvent>, name: Seq<char>) -> Seq<usize>
    decreases evs.len(),
{
    if evs.len() == 0 {
        Seq::empty()
    } else {
        let p = event_lines_named(evs.drop_last(), name);
        if evs.last().name@ == name {
            p.push(evs.last().line_index)
        } else {
            p
        }
    }
}

proof fn lemma_merge_step(es: Seq<(usize, bool)>, ms: Seq<(usize, bool)>, i: int, j: int)
    requires
        0 <= i < es.len(),
        0 <= j < ms.len(),
    ensures
        es[i].0 <= ms[j].0 ==> merge_items(es.skip(i), ms.skip(j)) == seq![es[i]] + merge_items(
            es.skip(i + 1),
            ms.skip(j),
        ),
        es[i].0 > ms[j].0 ==> merge_items(es.skip(i), ms.skip(j)) == seq![ms[j]] + merge_items(
            es.skip(i),
            ms.skip(j + 1),
        ),
{
    assert(es.skip(i).drop_first() =~= es.skip(i + 1));
    assert(ms.skip(j).drop_first() =~= ms.skip(j + 1));
}

fn merge_lines(es: &Vec<usize>, ms: &Vec<usize>) -> (r: Vec<(usize, bool)>)
    ensures
        r@ == merge_items(as_items(es@, false), as_items(ms@, true)),
{
    let ghost ei = as_items(es@, false);
    let ghost mi = as_items(ms@, true);
    let mut out: Vec<(usize, bool)> = Vec::new();
    let mut i: usize = 0;
    let mut j: usize = 0;
    assert(ei.skip(0) =~= ei);
    assert(mi.skip(0) =~= mi);
    while i < es.len() || j < ms.len()
        invariant
            i <= es@.len(),
            j <= ms@.len(),
            ei == as_items(es@, false),
            mi == as_items(ms@, true),
            out@ + merge_items(ei.skip(i as int), mi.skip(j as int)) == merge_items(ei, mi),
        decreases es@.len() - i + ms@.len() - j,
    {
        if i < es.len() && (j >= ms.len() || es[i] <= ms[j]) {
            proof {
                if j < ms@.len() {
                    lemma_merge_step(ei, mi, i as int, j as int);
                } else {
                    assert(mi.skip(j as int).len() == 0);
                    assert(ei.skip(i as int) =~= seq![ei[i as int]] + ei.skip(i + 1));
                    assert(merge_items(ei.skip(i + 1), mi.skip(j as int)) == ei.skip(i + 1));
                }
            }
            let ghost before = out@;
            out.push((es[i], false));
            proof {
                assert(out@ =~= before + seq![ei[i as int]]);
            }
            i += 1;
        } else {
            proof {
                if i < es@.len() {
                    lemma_merge_step(ei, mi, i as int, j as int);
                } else {
                    assert(ei.skip(i as int).len() == 0);
                    assert(mi.skip(j as int) =~= seq![mi[j as int]] + mi.skip(j + 1));
                    assert(merge_items(ei.skip(i as int), mi.skip(j + 1)) == mi.skip(j + 1));
                }
            }
            let ghost before = out@;
            out.push((ms[j], true));
            proof {
                assert(out@ =~= before + seq![mi[j as int]]);
            }
            j += 1;
        }
    }
    proof {
        assert(ei.skip(i as int).len() == 0);
        assert(mi.skip(j as int).len() == 0);
        assert(out@ + Seq::<(usize, bool)>::empty() =~= out@);
    }
    out
}

fn events_as_items(es: &Vec<usize>) -> (r: Vec<(usize, bool)>)
    ensures
        r@ == as_items(es@, false),
{
    let mut out: Vec<(usize, bool)> = Vec::new();
    let mut i: usize = 0;
    while i < es.len()
        invariant
            i <= es@.len(),
            out@ == as_items(es@.take(i as int), false),
        decreases es@.len() - i,
    {
        out.push((es[i], false));
        i += 1;
        proof {
            assert(out@ =~= as_items(es@.take(i as int), false));
        }
    }
    assert(es@.take(i as int) =~= es@);
    out
}

fn ordered_by_line(s: &Vec<usize>) -> (r: Vec<usize>)
    ensures
        r@ == by_line(s@),
{
    let mut keys: Vec<(usize, usize)> = Vec::new();
    let mut i: usize = 0;
    while i < s.len()
        invariant
            i <= s@.len(),
            keys@ == line_keys(s@).take(i as int),
        decreases s@.len() - i,
    {
        keys.push((s[i], i));
        i += 1;
        proof {
            assert(keys@ =~= line_keys(s@).take(i as int));
        }
    }
    assert(line_keys(s@).take(i as int) =~= line_keys(s@));
    let sorted = sort_pairs(keys, false);
    let mut out: Vec<usize> = Vec::new();
    let mut k: usize = 0;
    while k < sorted.len()
        invariant
            k <= sorted@.len(),
            out@ == sorted@.take(k as int).map_values(|p: (usize, usize)| p.0),
        decreases sorted@.len() - k,
    {
        out.push(sorted[k].0);
        k += 1;
        proof {
            assert(out@ =~= sorted@.take(k as int).map_values(|p: (usize, usize)| p.0));
        }
    }
    assert(sorted@.take(k as int) =~= sorted@);
    out
}

fn append_lines(a: &Vec<usize>, b: &Vec<usize>) -> (r: Vec<usize>)
    ensures
        r@ == a@ + b@,
{
    let mut out: Vec<usize> = Vec::new();
    let mut i: usize = 0;
    while i < a.len()
        invariant
            i <= a@.len(),
            out@ == a@.take(i as int),
        decreases a@.len() - i,
    {
        out.push(a[i]);
        i += 1;
        proof {
            assert(out@ =~= a@.take(i as int));
        }
    }
    let mut j: usize = 0;
    while j < b.len()
        invariant
            j <= b@.len(),
            i == a@.len(),
            out@ == a@.take(i as int) + b@.take(j as int),
        decreases b@.len() - j,
    {
        out.push(b[j]);
        j += 1;
        proof {
            assert(out@ =~= a@.take(i as int) + b@.take(j as int));
        }
    }
    assert(a@.take(i as int) =~= a@);
    assert(b@.take(j as int) =~= b@);
    out
}

fn lines_named(evs: &[LogEvent], name: &str) -> (r: Vec<usize>)
    ensures
        r@ == event_lines_named(evs@, name@),
{
    let mut out: Vec<usize> = Vec::new();
    let mut i: usize = 0;
    while i < evs.len()
        invariant
            i <= evs@.len(),
            out@ == event_lines_named(evs@.take(i as int), name@),
        decreases evs@.len() - i,
    {
        assert(evs@.take(i + 1).drop_last() =~= evs@.take(i as int));
        if crate::utils::str_eq(evs[i].name.as_str(), name) {
            out.push(evs[i].line_index);
        }
        i += 1;
    }
    assert(evs@.take(i as int) =~= evs@);
    out
}

impl App {
    /// The lines of the enabled events on some row (`on_rows`) or on none.
    pub(crate) fn event_lines(&self, on_rows: bool) -> (r: Vec<usize>)
        ensures
            r@ == event_lines_where(enabled_events(*self), self.visible@, on_rows),
    {
        let evs = self.event_tracker.get_enabled_events();
        let ghost es = enabled_events(*self);
        let mut out: Vec<usize> = Vec::new();
        let mut i: usize = 0;
        while i < evs.len()
            invariant
                i <= evs@.len(),
                evs@.len() == es.len(),
                forall|k: int| 0 <= k < evs@.len() ==> *evs@[k] == es[k],
                out@ == event_lines_where(es.take(i as int), self.visible@, on_rows),
            decreases evs@.len() - i,
        {
            assert(es.take(i + 1).drop_last() =~= es.take(i as int));
            assert(es.take(i + 1).last() == *evs@[i as int]);
            let line = evs[i].line_index;
            if contains_row(&self.visible, line) == on_rows {
                out.push(line);
            }
            i += 1;
        }
        assert(es.take(i as int) =~= es);
        out
    }

    /// The lines of the enabled events that are shown, in order.
    pub fn get_visible_events(&self) -> (r: Vec<usize>)
        ensures
            r@ == shown_event_lines(*self),
    {
        self.event_lines(true)
    }

    /// The event lines of the events list (see `listed_event_lines`).
    pub fn get_events_for_list(&self) -> (r: Vec<usize>)
        ensures
            r@ == listed_event_lines(*self),
    {
        let shown = self.event_lines(true);
        if self.event_tracker.has_event_filtering() {
            let hidden = self.event_lines(false);
            let all = append_lines(&shown, &hidden);
            ordered_by_line(&all)
        } else {
            shown
        }
    }

    /// The items of the events list (see `event_items`).
    pub fn events_list(&self) -> (r: Vec<(usize, bool)>)
        ensures
            r@ == event_items(*self),
    {
        let es = self.get_events_for_list();
        if self.event_tracker.showing_marks() {
            let ms = self.get_visible_marks();
            merge_lines(&es, &ms)
        } else {
            events_as_items(&es)
        }
    }

    /// The lines of the events with the name.
    fn event_lines_with_name(&self, name: &str) -> (r: Vec<usize>)
        ensures
            r@ == event_lines_named(self.event_tracker.events(), name@),
    {
        lines_named(self.event_tracker.get_events(), name)
    }
}

/// A list position after the list is recounted to `count` items.
pub open spec fn clamped(sel: int, count: int) -> int {
    if count == 0 {
        0
    } else if sel >= count {
        count - 1
    } else {
        sel
    }
}

/// The events list of `b` is that of `m` recounted to its items, and, when `reselect`,
/// moved to the event nearest the selected row's line (to the first item when
/// `first_if_none` and there is no event); the event filter list is recounted; nothing
/// else changes.
pub open spec fn events_recounted(m: App, b: App, reselect: bool, first_if_none: bool) -> bool {
    &&& events_lists_recounted(m, b, reselect, first_if_none)
    &&& b == App { events_list_state: b.events_list_state, event_filter_list_state: b.event_filter_list_state, ..m }
}

/// The two events lists of `b` are those of `m` recounted (see `events_recounted`).
pub open spec fn events_lists_recounted(m: App, b: App, reselect: bool, first_if_none: bool) -> bool {
    let n = event_items(m).len() as int;
    let l = m.events_list_state;
    let s1 = clamped(l.selected(), n);
    let o1 = list_offset_after(s1, l.offset(), n, l.height());
    let ls = listed_event_lines(m);
    let sel = m.viewport.selected_line;
    let target: Option<int> = if reselect && sel < m.visible@.len() {
        if ls.len() > 0 {
            Some(nearest_upto(ls, m.visible@[sel as int], ls.len() as int))
        } else if first_if_none {
            Some(0)
        } else {
            None
        }
    } else {
        None
    };
    let bl = b.events_list_state;
    &&& bl.wf()
    &&& bl.count() == n
    &&& bl.height() == l.height()
    &&& if target is Some && n > 0 {
        &&& bl.selected() == min_int(target.unwrap(), n - 1)
        &&& bl.offset() == list_offset_after(bl.selected(), o1, n, l.height())
    } else {
        bl.selected() == s1 && bl.offset() == o1
    }
    &&& list_recounted(
        m.event_filter_list_state,
        b.event_filter_list_state,
        m.event_tracker.patterns().len() as int,
    )
}

/// Opening the events view: the log is scanned for events if none were found yet, the
/// lists are recounted and the event nearest the selected row's line is selected (the
/// first item when there is none).
pub open spec fn events_view_entered(a: App, b: App) -> bool {
    let t = b.event_tracker;
    let m = App { event_tracker: t, ..a };
    &&& a.event_tracker.events().len() == 0 ==> rescanned(a.event_tracker.patterns(), a.log_buffer.lines(), t)
        && t.marks_shown() == a.event_tracker.marks_shown()
    &&& a.event_tracker.events().len() > 0 ==> t == a.event_tracker
    &&& b.view_state == ViewState::EventsView
    &&& b.overlay is None
    &&& events_recounted(m, App { view_state: a.view_state, overlay: a.overlay, ..b }, true, true)
}

/// The name of the entry selected in the list of event filters, which lists the
/// patterns by count.
pub open spec fn filter_entry_name(a: App) -> Option<Seq<char>> {
    let ps = a.event_tracker.patterns();
    let k = a.event_filter_list_state.selected();
    if 0 <= k < ps.len() {
        Some(ps[stats_order(ps)[k].1 as int].name@)
    } else {
        None
    }
}

/// The lines moving between events goes to: with the event filter list open, those of the
/// events named by its selected entry; otherwise those of the shown enabled events.
pub open spec fn step_targets(a: App) -> Seq<usize> {
    if a.overlay == Some(Overlay::EventsFilter) {
        match filter_entry_name(a) {
            Some(n) => event_lines_named(a.event_tracker.events(), n),
            None => Seq::empty(),
        }
    } else {
        shown_event_lines(a)
    }
}

/// Going to the next (or previous) event (see `stepped_to_line`).
pub open spec fn event_stepped(a: App, b: App, forward: bool) -> bool {
    stepped_to_line(a, b, step_targets(a), forward)
}

/// Going to the item selected in the events list: when it is an event the filters hide,
/// every filter pattern is switched off, the rows recomputed and the events lists
/// recounted first; then its line is recorded in the history and its first row selected.
pub open spec fn event_selected_goto(a: App, b: App, center: bool) -> bool {
    let items = event_items(a);
    let k = a.events_list_state.selected();
    if 0 <= k < items.len() {
        let line = items[k].0;
        if event_filtering(a) && hidden_event_lines(a).contains(line) {
            let m = App { filter: b.filter, ..a };
            &&& b.filter.patterns().len() == a.filter.patterns().len()
            &&& forall|i: int|
                0 <= i < a.filter.patterns().len() ==> #[trigger] b.filter.patterns()[i] == with_enabled(
                    a.filter.patterns()[i],
                    false,
                )
            &&& b.filter.mode() == a.filter.mode()
            &&& b.filter.case_sensitive() == a.filter.case_sensitive()
            &&& b.filter.hist() == a.filter.hist()
            &&& b.visible@ == visible_lines(m)
            &&& search_refreshed(m.search, b.search, m.log_buffer.lines(), visible_lines(m))
            &&& jumped_to_line(viewport_after(m, visible_lines(m)), b.viewport, b.visible@, line, center)
            &&& events_recounted(
                App { filter: b.filter, visible: b.visible, expanded_rows: b.expanded_rows, search: b.search, ..a },
                App {
                    filter: b.filter,
                    visible: b.visible,
                    expanded_rows: b.expanded_rows,
                    search: b.search,
                    events_list_state: b.events_list_state,
                    event_filter_list_state: b.event_filter_list_state,
                    ..a
                },
                false,
                false,
            )
            &&& b == App {
                filter: b.filter,
                visible: b.visible,
                expanded_rows: b.expanded_rows,
                viewport: b.viewport,
                search: b.search,
                events_list_state: b.events_list_state,
                event_filter_list_state: b.event_filter_list_state,
                ..a
            }
        } else {
            &&& jumped_to_line(a.viewport, b.viewport, a.visible@, line, center)
            &&& b == App { viewport: b.viewport, ..a }
        }
    } else {
        b == a
    }
}

/// Switching the event of the selected filter entry on or off; the lists are recounted and
/// the event nearest the selected row's line selected.
pub open spec fn event_filter_toggled(a: App, b: App) -> bool {
    match filter_entry_name(a) {
        Some(n) => {
            let t = b.event_tracker;
            &&& t.patterns() == toggled_event(a.event_tracker.patterns(), n)
            &&& t.events() == a.event_tracker.events()
            &&& t.marks_shown() == a.event_tracker.marks_shown()
            &&& events_recounted(App { event_tracker: t, ..a }, b, true, false)
        },
        None => b == a,
    }
}

/// Keeping only the events of the selected filter entry's name switched on; the lists
/// are recounted and the event nearest the selected row's line selected.
pub open spec fn event_filter_soloed(a: App, b: App) -> bool {
    match filter_entry_name(a) {
        Some(n) => {
            let t = b.event_tracker;
            let ps = a.event_tracker.patterns();
            &&& t.patterns().len() == ps.len()
            &&& forall|i: int|
                0 <= i < ps.len() ==> #[trigger] t.patterns()[i] == crate::log_event::with_enabled(ps[i], ps[i].name@ == n)
            &&& t.events() == a.event_tracker.events()
            &&& t.marks_shown() == a.event_tracker.marks_shown()
            &&& events_recounted(App { event_tracker: t, ..a }, b, true, false)
        },
        None => b == a,
    }
}

/// Switching every event pattern on, or off when all are on; the lists are recounted and
/// the event nearest the selected row's line selected.
pub open spec fn event_filters_all_toggled(a: App, b: App) -> bool {
    let t = b.event_tracker;
    let ps = a.event_tracker.patterns();
    &&& t.patterns().len() == ps.len()
    &&& forall|i: int|
        0 <= i < ps.len() ==> #[trigger] t.patterns()[i] == crate::log_event::with_enabled(
            ps[i],
            !(forall|k: int| 0 <= k < ps.len() ==> (#[trigger] ps[k]).enabled),
        )
    &&& t.events() == a.event_tracker.events()
    &&& t.marks_shown() == a.event_tracker.marks_shown()
    &&& events_recounted(App { event_tracker: t, ..a }, b, true, false)
}

/// Showing marks among the events, or not; the lists are recounted.
pub open spec fn event_marks_toggled(a: App, b: App) -> bool {
    let t = b.event_tracker;
    &&& t.marks_shown() == !a.event_tracker.marks_shown()
    &&& t.patterns() == a.event_tracker.patterns()
    &&& t.events() == a.event_tracker.events()
    &&& events_recounted(App { event_tracker: t, ..a }, b, false, false)
}

impl App {
    /// Recounts the events list and the event filter list (see `events_recounted`).
    pub(crate) fn recount_events(&mut self, reselect: bool, first_if_none: bool)
        requires
            old(self).wf(),
        ensures
            final(self).wf(),
            events_recounted(*old(self), *final(self), reselect, first_if_none),
    {
        let items = self.events_list();
        let ls = self.get_events_for_list();
        proof {
            self.events_list_state.lemma_nonneg();
        }
        self.events_list_state.set_item_count(items.len());
        let fc = self.event_tracker.filter_count();
        self.event_filter_list_state.set_item_count(fc);
        let sel = self.viewport.selected_line;
        if reselect && sel < self.visible.len() {
            if ls.len() > 0 {
                let k = nearest_row(&ls, self.visible[sel]);
                self.events_list_state.select_index(k);
            } else if first_if_none {
                self.events_list_state.select_index(0);
            }
        }
    }

    /// Opens the events view (see `events_view_entered`).
    pub fn activate_events_view(&mut self)
        requires
            old(self).wf(),
        ensures
            final(self).wf(),
            events_view_entered(*old(self), *final(self)),
    {
        if self.event_tracker.is_empty() {
            self.event_tracker.scan_all_lines(&self.log_buffer);
        }
        self.recount_events(true, true);
        self.view_state = ViewState::EventsView;
        self.overlay = None;
    }

    /// Goes to the next (or previous) event (see `event_stepped`).
    pub fn event_step(&mut self, forward: bool)
        requires
            old(self).wf(),
        ensures
            final(self).wf(),
            event_stepped(*old(self), *final(self), forward),
    {
        let targets = match &self.overlay {
            Some(Overlay::EventsFilter) => {
                let stats = self.event_tracker.get_event_stats();
                let k = self.event_filter_list_state.selected_index();
                if k < stats.len() {
                    self.event_lines_with_name(stats[k].name.as_str())
                } else {
                    Vec::new()
                }
            },
            _ => self.event_lines(true),
        };
        self.step_to_line(&targets, forward);
    }

    /// Goes to the next event (see `event_stepped`).
    pub fn event_next(&mut self)
        requires
            old(self).wf(),
        ensures
            final(self).wf(),
            event_stepped(*old(self), *final(self), true),
    {
        self.event_step(true);
    }

    /// Goes to the previous event (see `event_stepped`).
    pub fn event_previous(&mut self)
        requires
            old(self).wf(),
        ensures
            final(self).wf(),
            event_stepped(*old(self), *final(self), false),
    {
        self.event_step(false);
    }

    /// Goes to the item selected in the events list (see `event_selected_goto`).
    pub fn goto_selected_event(&mut self, center: bool)
        requires
            old(self).wf(),
        ensures
            final(self).wf(),
            event_selected_goto(*old(self), *final(self), center),
    {
        let items = self.events_list();
        let k = self.events_list_state.selected_index();
        if k < items.len() {
            let line = items[k].0;
            if self.event_tracker.has_event_filtering() {
                let hidden = self.event_lines(false);
                if contains_row(&hidden, line) {
                    self.filter.disable_all_patterns();
                    self.update_view();
                }
            }
            self.goto_log_line(line, center);
        }
    }

    /// In the events view, asks for the text of a custom event.
    pub fn activate_add_custom_event_mode(&mut self)
        ensures
            old(self).view_state == ViewState::EventsView ==> *final(self) == (App {
                input: final(self).input,
                overlay: Some(Overlay::AddCustomEvent),
                ..*old(self)
            }) && final(self).input@ == Seq::<char>::empty(),
            old(self).view_state != ViewState::EventsView ==> *final(self) == *old(self),
    {
        if self.view_state == ViewState::EventsView {
            self.input = String::new();
            self.overlay = Some(Overlay::AddCustomEvent);
        }
    }

    /// Switches the selected event filter entry on or off (see `event_filter_toggled`).
    pub fn toggle_event_filter(&mut self)
        requires
            old(self).wf(),
        ensures
            final(self).wf(),
            event_filter_toggled(*old(self), *final(self)),
    {
        let stats = self.event_tracker.get_event_stats();
        let k = self.event_filter_list_state.selected_index();
        if k < stats.len() {
            self.event_tracker.toggle_event_enabled(stats[k].name.as_str());
            self.recount_events(true, false);
        }
    }

    /// Keeps only the selected event filter entry switched on (see `event_filter_soloed`).
    pub fn solo_event_filter(&mut self)
        requires
            old(self).wf(),
        ensures
            final(self).wf(),
            event_filter_soloed(*old(self), *final(self)),
    {
        let stats = self.event_tracker.get_event_stats();
        let k = self.event_filter_list_state.selected_index();
        if k < stats.len() {
            self.event_tracker.solo_event_filter(stats[k].name.as_str());
            self.recount_events(true, false);
        }
    }

    /// Switches every event pattern (see `event_filters_all_toggled`).
    pub fn toggle_all_event_filters(&mut self)
        requires
            old(self).wf(),
        ensures
            final(self).wf(),
            event_filters_all_toggled(*old(self), *final(self)),
    {
        self.event_tracker.toggle_all_filters();
        self.recount_events(true, false);
    }

    /// Shows marks among the events, or stops (see `event_marks_toggled`).
    pub fn toggle_events_show_marks(&mut self)
        requires
            old(self).wf(),
        ensures
            final(self).wf(),
            event_marks_toggled(*old(self), *final(self)),
    {
        self.event_tracker.toggle_show_marks();
        self.recount_events(false, false);
    }
}

} // verus!
