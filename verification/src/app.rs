//! The application's views and overlays, its state, and which lines its view shows.
use vstd::prelude::*;
use std::collections::HashSet;
use crate::completion::CompletionEngine;
use crate::config::Config;
use crate::expansion::Expansions;
use crate::file_manager::FileManager;
use crate::filter::{filter_specs, passes_filters, Filter};
use crate::help::{help_table, Help};
use crate::keybindings::default_table;
use crate::list_view_state::ListViewState;
use crate::log::{LogBuffer, LogLine};
use crate::log_event::{named_with_flag, LogEventTracker, PatternFlag};
use crate::marking::Marking;
use crate::options::{option_position_from, AppOption, AppOptionDef, AppOptions};
use crate::search::Search;
use crate::time_filter::{TimeFilter, TimeFilterFocus};
use crate::viewport::{adjusted, Viewport};
use crate::app_events::events_lists_recounted;

verus! {

/// Represents the main views.
#[derive(Debug, Clone, Copy, PartialEq, Eq, Structural, Hash)]
pub enum ViewState {
    /// Normal mode for viewing logs.
    LogView,
    /// Active search mode where a search query is highlighted and can be navigated.
    ActiveSearchMode,
    /// Active goto line mode where the user can input a line number to jump to.
    GotoLineMode,
    /// Active filter mode where the user can input a filter pattern to filter log lines.
    ActiveFilterMode,
    /// View for managing existing filter patterns.
    FilterView,
    /// View for adjusting display options.
    OptionsView,
    /// View for displaying all events found in the log.
    EventsView,
    /// View for displaying marked log lines.
    MarksView,
    /// View for listing opened files in multi-file sessions.
    FilesView,
    /// Visual selection mode for selecting a range of lines.
    SelectionMode,
    /// View for applying time filter range.
    TimeFilterView,
}

/// Represents an overlay/modal that appears on top of the current view.
#[derive(Debug, Clone, PartialEq, Eq, Hash)]
pub enum Overlay {
    /// Edit an existing filter pattern.
    EditFilter,
    /// Filter selection for events view.
    EventsFilter,
    /// Active mode for entering a name/tag for a mark.
    MarkName,
    /// Active mode for entering a file name for saving the current log buffer to a file.
    SaveToFile,
    /// Active mode for entering a custom event pattern.
    AddCustomEvent,
    /// Edit a time filter
    EditTimeFilter,
    /// Display a message to the user.
    Message(String),
    /// Display an error message to the user.
    Error(String),
}

/// The kind of an overlay, without the text a message or an error carries.
#[derive(Debug, Clone, Copy, PartialEq, Eq, Structural, Hash)]
pub enum OverlayKind {
    EditFilter,
    EventsFilter,
    MarkName,
    SaveToFile,
    AddCustomEvent,
    EditTimeFilter,
    Message,
    Error,
}

/// An overlay as its kind and the text it carries (empty for those that carry none).
pub open spec fn overlay_view(o: Overlay) -> (OverlayKind, Seq<char>) {
    match o {
        Overlay::EditFilter => (OverlayKind::EditFilter, Seq::empty()),
        Overlay::EventsFilter => (OverlayKind::EventsFilter, Seq::empty()),
        Overlay::MarkName => (OverlayKind::MarkName, Seq::empty()),
        Overlay::SaveToFile => (OverlayKind::SaveToFile, Seq::empty()),
        Overlay::AddCustomEvent => (OverlayKind::AddCustomEvent, Seq::empty()),
        Overlay::EditTimeFilter => (OverlayKind::EditTimeFilter, Seq::empty()),
        Overlay::Message(s) => (OverlayKind::Message, s@),
        Overlay::Error(s) => (OverlayKind::Error, s@),
    }
}

/// The views that take text input.
pub open spec fn view_has_text_input(v: ViewState) -> bool {
    v == ViewState::ActiveSearchMode || v == ViewState::ActiveFilterMode || v == ViewState::GotoLineMode
}

/// The overlays that take text input.
pub open spec fn overlay_has_text_input(k: OverlayKind) -> bool {
    k == OverlayKind::EditFilter || k == OverlayKind::MarkName || k == OverlayKind::SaveToFile
        || k == OverlayKind::AddCustomEvent
}

impl ViewState {
    /// Whether this view takes text input.
    pub fn has_text_input(&self) -> (r: bool)
        ensures
            r == view_has_text_input(*self),
    {
        match self {
            ViewState::ActiveSearchMode | ViewState::ActiveFilterMode | ViewState::GotoLineMode => true,
            _ => false,
        }
    }
}

impl Overlay {
    /// Whether this overlay takes text input.
    pub fn has_text_input(&self) -> (r: bool)
        ensures
            r == overlay_has_text_input(overlay_view(*self).0),
    {
        match self {
            Overlay::EditFilter | Overlay::MarkName | Overlay::SaveToFile | Overlay::AddCustomEvent => true,
            _ => false,
        }
    }

    /// The kind of this overlay.
    pub(crate) fn kind(&self) -> (r: OverlayKind)
        ensures
            r == overlay_view(*self).0,
    {
        match self {
            Overlay::EditFilter => OverlayKind::EditFilter,
            Overlay::EventsFilter => OverlayKind::EventsFilter,
            Overlay::MarkName => OverlayKind::MarkName,
            Overlay::SaveToFile => OverlayKind::SaveToFile,
            Overlay::AddCustomEvent => OverlayKind::AddCustomEvent,
            Overlay::EditTimeFilter => OverlayKind::EditTimeFilter,
            Overlay::Message(_) => OverlayKind::Message,
            Overlay::Error(_) => OverlayKind::Error,
        }
    }

    /// The text this overlay carries: a message's or an error's, otherwise empty.
    pub(crate) fn text(&self) -> (r: &str)
        ensures
            r@ == overlay_view(*self).1,
    {
        match self {
            Overlay::Message(s) => s.as_str(),
            Overlay::Error(s) => s.as_str(),
            _ => {
                let e = "";
                proof {
                    reveal_strlit("");
                }
                e
            },
        }
    }
}

} // verus!

verus! {

/// What the application asks its surroundings to do after a step.
#[derive(Debug, Clone, PartialEq, Eq)]
pub enum Action {
    /// Nothing beyond the state change.
    Nothing,
    /// Write the log's lines to the file at the path.
    SaveToFile(String),
    /// Keep the session (filters, marks, options, histories, position) for the files.
    SaveState,
    /// Put the text on the clipboard; when that fails, show the error in place of the
    /// message that was set.
    CopyToClipboard(String),
}

/// The application's state: the log, the view over it and the tools that work on it.
#[derive(Debug)]
pub struct App {
    pub running: bool,
    pub config: Config,
    pub view_state: ViewState,
    pub overlay: Option<Overlay>,
    pub log_buffer: LogBuffer,
    pub viewport: Viewport,
    pub help: Help,
    pub search: Search,
    pub filter: Filter,
    pub filter_list_state: ListViewState,
    pub options: AppOptions,
    pub options_list_state: ListViewState,
    /// The text typed into the active input field.
    pub input: String,
    pub streaming_paused: bool,
    pub event_tracker: LogEventTracker,
    pub marking: Marking,
    pub marking_list_state: ListViewState,
    /// The selection in the events list.
    pub events_list_state: ListViewState,
    /// The selection in the list of event filters.
    pub event_filter_list_state: ListViewState,
    pub file_manager: FileManager,
    /// The selection in the list of files.
    pub files_list_state: ListViewState,
    pub expansion: Expansions,
    pub show_marked_lines_only: bool,
    pub time_filter: Option<TimeFilter>,
    /// The start typed for the time filter.
    pub time_filter_input_start: String,
    /// The end typed for the time filter.
    pub time_filter_input_end: String,
    /// Which of the two the time filter popup edits.
    pub time_filter_focus: TimeFilterFocus,
    /// The rows where a line selection started and where it ends now.
    pub selection_range: Option<(usize, usize)>,
    /// The words known for completing typed text.
    pub completion: CompletionEngine,
    /// For each row of the view, whether an expansion added it.
    pub expanded_rows: Vec<bool>,
    /// The log line shown on each row of the view.
    pub visible: Vec<usize>,
}

/// The option is switched on.
pub open spec fn option_on(defs: Seq<AppOptionDef>, o: AppOption) -> bool {
    match option_position_from(defs, o, 0) {
        Some(k) => defs[k].enabled,
        None => false,
    }
}

/// Some event of a critical pattern is on the line.
pub open spec fn critical_line(t: LogEventTracker, x: usize) -> bool {
    exists|k: int|
        0 <= k < t.events().len() && t.events()[k].line_index == x && named_with_flag(
            t.patterns(),
            t.events()[k].name@,
            PatternFlag::Critical,
        )
}

/// Some enabled file has the id.
pub open spec fn file_enabled(fm: FileManager, id: usize) -> bool {
    exists|i: int| 0 <= i < fm.entries().len() && fm.entries()[i].enabled && fm.entries()[i].file_id == id
}

/// The line is kept in view whatever the filters say: a marked line when marked lines are
/// always shown, a line with a critical event when those are always shown.
pub open spec fn pinned(app: App, l: LogLine) -> bool {
    ||| option_on(app.options.defs(), AppOption::AlwaysShowMarkedLines) && app.marking@.contains_key(l.index)
    ||| option_on(app.options.defs(), AppOption::AlwaysShowCriticalEvents) && critical_line(app.event_tracker, l.index)
}

/// The line is shown: its file is enabled (with several files), it is pinned or passes the
/// filters, it lies in the time filter's range when it has a timestamp, and it is marked
/// when only marked lines are shown.
pub open spec fn line_shown(app: App, l: LogLine) -> bool {
    &&& (app.file_manager.entries().len() > 1 ==> (l.log_file_id matches Some(id) ==> file_enabled(app.file_manager, id)))
    &&& (pinned(app, l) || passes_filters(l.content@, app.filter.patterns()))
    &&& (app.time_filter matches Some(tf) ==> (l.timestamp matches Some(ts) ==> tf.start <= ts && ts <= tf.end))
    &&& (app.show_marked_lines_only ==> app.marking@.contains_key(l.index))
}

/// The indices of `s` that lie below `n`.
pub open spec fn below(s: Seq<usize>, n: nat) -> Seq<usize>
    decreases s.len(),
{
    if s.len() == 0 {
        Seq::empty()
    } else if s.last() < n {
        below(s.drop_last(), n).push(s.last())
    } else {
        below(s.drop_last(), n)
    }
}

/// The rows for the first `n` lines: each shown line, followed by the lines expanded
/// under it.
pub open spec fn rows_upto(app: App, lines: Seq<LogLine>, n: nat) -> Seq<usize>
    decreases n,
{
    if n == 0 {
        Seq::empty()
    } else {
        let prev = rows_upto(app, lines, (n - 1) as nat);
        let i = (n - 1) as usize;
        if line_shown(app, lines[i as int]) {
            if app.expansion@.contains_key(i) {
                prev.push(i) + below(app.expansion@[i], lines.len())
            } else {
                prev.push(i)
            }
        } else {
            prev
        }
    }
}

/// `k` times `true`.
pub open spec fn trues(k: nat) -> Seq<bool> {
    Seq::new(k, |i: int| true)
}

/// For each row of `rows_upto`, whether an expansion added it.
pub open spec fn row_flags_upto(app: App, lines: Seq<LogLine>, n: nat) -> Seq<bool>
    decreases n,
{
    if n == 0 {
        Seq::empty()
    } else {
        let prev = row_flags_upto(app, lines, (n - 1) as nat);
        let i = (n - 1) as usize;
        if line_shown(app, lines[i as int]) {
            if app.expansion@.contains_key(i) {
                prev.push(false) + trues(below(app.expansion@[i], lines.len()).len())
            } else {
                prev.push(false)
            }
        } else {
            prev
        }
    }
}

/// For each row of the view, whether an expansion added it.
pub open spec fn visible_flags(app: App) -> Seq<bool> {
    row_flags_upto(app, app.log_buffer.lines(), app.log_buffer.lines().len())
}

/// The rows depend only on the lines and on what decides whether a line is shown.
pub proof fn lemma_rows_same(x: App, y: App, lines: Seq<LogLine>, n: nat)
    requires
        x.filter == y.filter,
        x.marking == y.marking,
        x.options == y.options,
        x.event_tracker == y.event_tracker,
        x.file_manager == y.file_manager,
        x.time_filter == y.time_filter,
        x.show_marked_lines_only == y.show_marked_lines_only,
        x.expansion == y.expansion,
    ensures
        rows_upto(x, lines, n) == rows_upto(y, lines, n),
        row_flags_upto(x, lines, n) == row_flags_upto(y, lines, n),
    decreases n,
{
    if n > 0 {
        lemma_rows_same(x, y, lines, (n - 1) as nat);
        assert(line_shown(x, lines[n - 1]) == line_shown(y, lines[n - 1]));
    }
}

/// The log line of each row of the view.
pub open spec fn visible_lines(app: App) -> Seq<usize> {
    rows_upto(app, app.log_buffer.lines(), app.log_buffer.lines().len())
}

/// The distance between two line indices.
pub open spec fn dist(a: usize, b: usize) -> int {
    if a >= b {
        a - b
    } else {
        b - a
    }
}

/// The first of the first `n` rows nearest to line `t`.
pub open spec fn nearest_upto(rows: Seq<usize>, t: usize, n: int) -> int
    decreases n,
{
    if n <= 1 {
        0
    } else {
        let b = nearest_upto(rows, t, n - 1);
        if dist(rows[n - 1], t) < dist(rows[b], t) {
            n - 1
        } else {
            b
        }
    }
}

/// The first row showing line `t`.
pub open spec fn first_row_of(rows: Seq<usize>, t: usize, k: int) -> Option<int>
    decreases rows.len() - k,
{
    if k < 0 || k >= rows.len() {
        None
    } else if rows[k] == t {
        Some(k)
    } else {
        first_row_of(rows, t, k + 1)
    }
}

/// The row to select when the rows change from `old_rows` to `rows`: the row of the line
/// that was selected, else the row nearest to it, else the old position within the new
/// rows.
pub open spec fn closest_row(old_rows: Seq<usize>, selected: usize, rows: Seq<usize>) -> int {
    if selected < old_rows.len() {
        let t = old_rows[selected as int];
        match first_row_of(rows, t, 0) {
            Some(j) => j,
            None => nearest_upto(rows, t, rows.len() as int),
        }
    } else if selected < rows.len() {
        selected as int
    } else {
        rows.len() - 1
    }
}

/// The application's parts agree: the view has a row for each visible line, each row is a
/// line of the log, and the parts keep their own invariants.
pub open spec fn app_wf(app: App) -> bool {
    &&& app.search.wf()
    &&& app.search.hist().wf()
    &&& app.filter.hist().wf()
    &&& app.marking.wf()
    &&& app.filter_list_state.wf()
    &&& app.options_list_state.wf()
    &&& app.marking_list_state.wf()
    &&& app.files_list_state.wf()
    &&& app.events_list_state.wf()
    &&& app.event_filter_list_state.wf()
    &&& app.completion.wf()
    &&& app.viewport.total_lines == app.visible@.len()
    &&& app.expanded_rows@.len() == app.visible@.len()
    &&& forall|i: int| 0 <= i < app.visible@.len() ==> (#[trigger] app.visible@[i]) < app.log_buffer.lines().len()
}

impl App {
    /// The parts agree (see `app_wf`).
    pub open spec fn wf(&self) -> bool {
        app_wf(*self)
    }
}

/// The texts of the lines on the rows.
pub open spec fn row_texts(lines: Seq<LogLine>, rows: Seq<usize>) -> Seq<Seq<char>> {
    Seq::new(rows.len(), |j: int| lines[rows[j] as int].content@)
}

/// The texts of all the lines.
pub open spec fn line_texts(lines: Seq<LogLine>) -> Seq<Seq<char>> {
    Seq::new(lines.len(), |j: int| lines[j].content@)
}

proof fn lemma_nearest_in_range(rows: Seq<usize>, t: usize, n: int)
    requires
        1 <= n,
    ensures
        0 <= nearest_upto(rows, t, n) < n,
    decreases n,
{
    if n > 1 {
        lemma_nearest_in_range(rows, t, n - 1);
    }
}

pub(crate) proof fn lemma_first_row_in_range(rows: Seq<usize>, t: usize, k: int)
    ensures
        first_row_of(rows, t, k) matches Some(j) ==> 0 <= j < rows.len(),
    decreases rows.len() - k,
{
    if 0 <= k < rows.len() {
        lemma_first_row_in_range(rows, t, k + 1);
    }
}

pub(crate) fn find_row(rows: &Vec<usize>, t: usize) -> (r: Option<usize>)
    ensures
        match r {
            Some(j) => first_row_of(rows@, t, 0) == Some(j as int),
            None => first_row_of(rows@, t, 0) is None,
        },
{
    let mut k: usize = 0;
    while k < rows.len()
        invariant
            k <= rows@.len(),
            first_row_of(rows@, t, 0) == first_row_of(rows@, t, k as int),
        decreases rows@.len() - k,
    {
        if rows[k] == t {
            return Some(k);
        }
        k += 1;
    }
    None
}

fn distance(a: usize, b: usize) -> (r: usize)
    ensures
        r == dist(a, b),
{
    if a >= b {
        a - b
    } else {
        b - a
    }
}

pub(crate) fn nearest_row(rows: &Vec<usize>, t: usize) -> (r: usize)
    requires
        rows@.len() > 0,
    ensures
        r == nearest_upto(rows@, t, rows@.len() as int),
        r < rows@.len(),
{
    let mut best: usize = 0;
    let mut j: usize = 1;
    while j < rows.len()
        invariant
            1 <= j <= rows@.len(),
            best < j,
            best == nearest_upto(rows@, t, j as int),
        decreases rows@.len() - j,
    {
        if distance(rows[j], t) < distance(rows[best], t) {
            best = j;
        }
        j += 1;
    }
    best
}

impl App {
    fn compute_rows(&self) -> (r: (Vec<usize>, Vec<bool>))
        requires
            self.marking.wf(),
        ensures
            r.0@ == visible_lines(*self),
            r.1@ == visible_flags(*self),
            r.1@.len() == r.0@.len(),
            forall|i: int| 0 <= i < r.0@.len() ==> (#[trigger] r.0@[i]) < self.log_buffer.lines().len(),
    {
        let lines = self.log_buffer.all_lines();
        let n = lines.len();
        let marked: HashSet<usize> = self.marking.get_marked_indices();
        let critical: HashSet<usize> = self.event_tracker.get_critical_event_indices();
        let marked_on = self.options.is_enabled(AppOption::AlwaysShowMarkedLines);
        let critical_on = self.options.is_enabled(AppOption::AlwaysShowCriticalEvents);
        let multi = self.file_manager.is_multi_file();
        let ids: HashSet<usize> = self.file_manager.enabled_file_ids();
        let patterns = self.filter.get_filter_patterns();
        let ghost app = *self;
        let mut rows: Vec<usize> = Vec::new();
        let mut flags: Vec<bool> = Vec::new();
        let mut i: usize = 0;
        while i < n
            invariant
                i <= n,
                flags@ == row_flags_upto(app, lines@, i as nat),
                flags@.len() == rows@.len(),
                n == lines@.len(),
                lines@ == self.log_buffer.lines(),
                app == *self,
                marked@ == self.marking@.dom(),
                forall|x: usize| #[trigger] critical@.contains(x) <==> critical_line(self.event_tracker, x),
                marked_on == option_on(self.options.defs(), AppOption::AlwaysShowMarkedLines),
                critical_on == option_on(self.options.defs(), AppOption::AlwaysShowCriticalEvents),
                multi == (self.file_manager.entries().len() > 1),
                forall|id: usize| #[trigger] ids@.contains(id) <==> file_enabled(self.file_manager, id),
                filter_specs(patterns@) == self.filter.patterns(),
                rows@ == rows_upto(app, lines@, i as nat),
                forall|k: int| 0 <= k < rows@.len() ==> (#[trigger] rows@[k]) < n,
            decreases n - i,
        {
            let l = &lines[i];
            let file_ok = if multi {
                match l.log_file_id {
                    Some(id) => ids.contains(&id),
                    None => true,
                }
            } else {
                true
            };
            let pin = (marked_on && marked.contains(&l.index)) || (critical_on && critical.contains(&l.index));
            let time_ok = match &self.time_filter {
                Some(tf) => match l.timestamp {
                    Some(ts) => tf.start <= ts && ts <= tf.end,
                    None => true,
                },
                None => true,
            };
            let mark_ok = !self.show_marked_lines_only || marked.contains(&l.index);
            let shown = file_ok && time_ok && mark_ok && (pin || crate::processing::apply_filters(l.content.as_str(), patterns));
            proof {
                assert(shown == line_shown(app, lines@[i as int]));
            }
            if shown {
                rows.push(i);
                flags.push(false);
                match self.expansion.get_expanded_indices(i) {
                    Some(hidden) => {
                        let ghost start = rows@;
                        let ghost fstart = flags@;
                        let mut k: usize = 0;
                        while k < hidden.len()
                            invariant
                                k <= hidden@.len(),
                                n == lines@.len(),
                                rows@ == start + below(hidden@.take(k as int), n as nat),
                                flags@ == fstart + trues(below(hidden@.take(k as int), n as nat).len()),
                                fstart.len() == start.len(),
                                forall|q: int| 0 <= q < rows@.len() ==> (#[trigger] rows@[q]) < n,
                            decreases hidden@.len() - k,
                        {
                            proof {
                                assert(hidden@.take(k + 1).drop_last() =~= hidden@.take(k as int));
                                assert(hidden@.take(k + 1).last() == hidden@[k as int]);
                            }
                            if hidden[k] < n {
                                rows.push(hidden[k]);
                                flags.push(true);
                            }
                            k += 1;
                            proof {
                                assert(rows@ =~= start + below(hidden@.take(k as int), n as nat));
                                assert(flags@ =~= fstart + trues(below(hidden@.take(k as int), n as nat).len()));
                            }
                        }
                        proof {
                            assert(hidden@.take(k as int) =~= hidden@);
                        }
                    },
                    None => {},
                }
            }
            i += 1;
        }
        (rows, flags)
    }
}

pub(crate) fn row_contents<'a>(lines: &'a [LogLine], rows: &Vec<usize>) -> (r: Vec<&'a str>)
    requires
        forall|i: int| 0 <= i < rows@.len() ==> (#[trigger] rows@[i]) < lines@.len(),
    ensures
        crate::search::texts(r@) == row_texts(lines@, rows@),
{
    let mut out: Vec<&'a str> = Vec::new();
    let mut j: usize = 0;
    while j < rows.len()
        invariant
            j <= rows@.len(),
            forall|i: int| 0 <= i < rows@.len() ==> (#[trigger] rows@[i]) < lines@.len(),
            crate::search::texts(out@) == row_texts(lines@, rows@.take(j as int)),
            out@.len() == j,
        decreases rows@.len() - j,
    {
        let s = lines[rows[j]].content.as_str();
        let ghost before = out@;
        out.push(s);
        j += 1;
        proof {
            assert(out@ == before.push(s));
            assert forall|k: int| 0 <= k < j implies #[trigger] crate::search::texts(out@)[k] == row_texts(
                lines@,
                rows@.take(j as int),
            )[k] by {
                if k < j - 1 {
                    assert(out@[k] == before[k]);
                    assert(crate::search::texts(before)[k] == row_texts(lines@, rows@.take(j - 1))[k]);
                }
            }
            assert(crate::search::texts(out@) =~= row_texts(lines@, rows@.take(j as int)));
        }
    }
    proof {
        assert(rows@.take(j as int) =~= rows@);
    }
    out
}

pub(crate) fn line_contents<'a>(lines: &'a [LogLine]) -> (r: Vec<&'a str>)
    ensures
        crate::search::texts(r@) == line_texts(lines@),
{
    let mut out: Vec<&'a str> = Vec::new();
    let mut j: usize = 0;
    while j < lines.len()
        invariant
            j <= lines@.len(),
            crate::search::texts(out@) == line_texts(lines@.take(j as int)),
            out@.len() == j,
        decreases lines@.len() - j,
    {
        let s = lines[j].content.as_str();
        let ghost before = out@;
        out.push(s);
        j += 1;
        proof {
            assert(out@ == before.push(s));
            assert forall|k: int| 0 <= k < j implies #[trigger] crate::search::texts(out@)[k] == line_texts(
                lines@.take(j as int),
            )[k] by {
                if k < j - 1 {
                    assert(out@[k] == before[k]);
                    assert(crate::search::texts(before)[k] == line_texts(lines@.take(j - 1))[k]);
                }
            }
            assert(crate::search::texts(out@) =~= line_texts(lines@.take(j as int)));
        }
    }
    proof {
        assert(lines@.take(j as int) =~= lines@);
    }
    out
}

/// The search after the rows change: with an active pattern, its matches among the rows'
/// texts and its count over all lines; without one, as it was.
pub open spec fn search_refreshed(old_s: Search, s: Search, lines: Seq<LogLine>, rows: Seq<usize>) -> bool {
    match old_s.pattern() {
        Some(p) => {
            &&& s.pattern() == old_s.pattern()
            &&& s.case_sensitive() == old_s.case_sensitive()
            &&& s.hist() == old_s.hist()
            &&& s.current() == 0
            &&& s.matches() == (if p.len() == 0 {
                Seq::<usize>::empty()
            } else {
                crate::search::matching_positions(row_texts(lines, rows), p, old_s.case_sensitive())
            })
            &&& s.total() == (if p.len() == 0 {
                0
            } else {
                crate::search::match_count(line_texts(lines), p, old_s.case_sensitive()) as int
            })
        },
        None => s == old_s,
    }
}

/// The viewport after the rows change to `rows`: no rows select row 0; while following a
/// stream the last row is selected; otherwise `closest_row` is selected and following
/// stops.
pub open spec fn viewport_after(old_app: App, rows: Seq<usize>) -> Viewport {
    let n = rows.len();
    let v = Viewport { total_lines: n as usize, ..old_app.viewport };
    if n == 0 {
        Viewport { selected_line: 0, ..v }
    } else if old_app.log_buffer.is_streaming() && old_app.viewport.follow_mode {
        adjusted(Viewport { selected_line: (n - 1) as usize, ..v })
    } else {
        adjusted(
            Viewport {
                selected_line: closest_row(old_app.visible@, old_app.viewport.selected_line, rows) as usize,
                follow_mode: false,
                ..v
            },
        )
    }
}

impl App {
    /// Recomputes which lines are shown and refreshes what depends on it: the search
    /// matches, the number of rows, the selection, which stays on the line it was on or
    /// moves to the nearest shown one, and the counts of the events lists.
    pub fn update_view(&mut self)
        requires
            old(self).wf(),
        ensures
            final(self).wf(),
            final(self).visible@ == visible_lines(*old(self)),
            final(self).expanded_rows@ == visible_flags(*old(self)),
            final(self).viewport == viewport_after(*old(self), visible_lines(*old(self))),
            search_refreshed(old(self).search, final(self).search, old(self).log_buffer.lines(), visible_lines(*old(self))),
            events_lists_recounted(
                App {
                    visible: final(self).visible,
                    expanded_rows: final(self).expanded_rows,
                    viewport: final(self).viewport,
                    search: final(self).search,
                    ..*old(self)
                },
                *final(self),
                false,
                false,
            ),
            *final(self) == (App {
                visible: final(self).visible,
                expanded_rows: final(self).expanded_rows,
                viewport: final(self).viewport,
                search: final(self).search,
                events_list_state: final(self).events_list_state,
                event_filter_list_state: final(self).event_filter_list_state,
                ..*old(self)
            }),
    {
        self.refresh_rows();
        self.recount_events(false, false);
    }

    /// Recomputes the rows, the search matches and the selection (see `update_view`).
    fn refresh_rows(&mut self)
        requires
            old(self).wf(),
        ensures
            final(self).wf(),
            final(self).visible@ == visible_lines(*old(self)),
            final(self).expanded_rows@ == visible_flags(*old(self)),
            final(self).viewport == viewport_after(*old(self), visible_lines(*old(self))),
            search_refreshed(old(self).search, final(self).search, old(self).log_buffer.lines(), visible_lines(*old(self))),
            *final(self) == (App {
                visible: final(self).visible,
                expanded_rows: final(self).expanded_rows,
                viewport: final(self).viewport,
                search: final(self).search,
                ..*old(self)
            }),
    {
        let (rows, flags) = self.compute_rows();
        let ghost old_app = *self;
        let n = rows.len();
        match self.search.get_active_pattern() {
            Some(p) => {
                let pattern = p.to_owned();
                let lines = self.log_buffer.all_lines();
                let shown = row_contents(lines, &rows);
                let all = line_contents(lines);
                self.search.update_matches(pattern.as_str(), shown.as_slice());
                let total = self.search.count_matches(pattern.as_str(), all.as_slice());
                self.search.set_total_match_count(total);
            },
            None => {},
        }
        let selected = self.viewport.selected_line;
        let target: Option<usize> = if selected < self.visible.len() {
            Some(self.visible[selected])
        } else {
            None
        };
        self.viewport.set_total_lines(n);
        if n == 0 {
            self.viewport.selected_line = 0;
            self.visible = rows;
            self.expanded_rows = flags;
            return;
        }
        if self.log_buffer.streaming_mode() && self.viewport.follow_mode {
            self.viewport.goto_bottom();
        } else {
            let new_selected = match target {
                Some(t) => match find_row(&rows, t) {
                    Some(j) => {
                        proof {
                            lemma_first_row_in_range(rows@, t, 0);
                        }
                        j
                    },
                    None => nearest_row(&rows, t),
                },
                None => if selected < n {
                    selected
                } else {
                    n - 1
                },
            };
            assert(new_selected == closest_row(old_app.visible@, old_app.viewport.selected_line, rows@));
            self.viewport.goto_line(new_selected, false);
        }
        self.visible = rows;
        self.expanded_rows = flags;
    }
}

} // verus!

