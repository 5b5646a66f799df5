//! The state kept between sessions: viewport, histories, filters, marks, event filters,
//! custom events and options.
use vstd::prelude::*;
use crate::filter::{ActiveFilterMode, Filter, FilterHistoryEntry, FilterSpec};
use crate::history::HistoryEntry;
use crate::log_event::{custom_patterns, stats_order, LogEventTracker};
use crate::marking::{name_view, Marking};
use crate::options::{AppOption, AppOptions};
use crate::search::Search;
use crate::viewport::Viewport;

verus! {

/// The state kept between sessions.
#[derive(Debug)]
pub struct PersistedState {
    pub version: u8,
    pub log_file_paths: Vec<String>,
    pub viewport: ViewportState,
    pub search_history: Vec<String>,
    pub filter_history: Vec<FilterHistoryEntry>,
    pub filters: Vec<FilterPatternState>,
    pub marks: Vec<MarkState>,
    pub event_filters: Vec<EventFilterState>,
    pub custom_events: Vec<CustomEventState>,
    pub options: Vec<OptionState>,
}

/// An option and whether it is enabled.
#[derive(Debug)]
pub struct OptionState {
    pub option: AppOption,
    pub enabled: bool,
}

/// Where the viewport was.
#[derive(Debug)]
pub struct ViewportState {
    pub selected_line: usize,
    pub top_line: usize,
    pub horizontal_offset: usize,
    pub center_cursor_mode: bool,
}

/// A filter pattern as kept.
#[derive(Debug)]
pub struct FilterPatternState {
    pub pattern: String,
    pub mode: ActiveFilterMode,
    pub case_sensitive: bool,
    pub enabled: bool,
}

/// A mark as kept.
#[derive(Debug)]
pub struct MarkState {
    pub line_index: usize,
    pub name: Option<String>,
}

/// An event filter as kept.
#[derive(Debug)]
pub struct EventFilterState {
    pub name: String,
    pub enabled: bool,
}

/// A custom event as kept.
#[derive(Debug)]
pub struct CustomEventState {
    pub pattern: String,
}

/// Strings as their texts.
pub open spec fn texts(s: Seq<String>) -> Seq<Seq<char>> {
    s.map_values(|x: String| x@)
}

/// Kept filter patterns as filters.
pub open spec fn filter_states_view(s: Seq<FilterPatternState>) -> Seq<FilterSpec> {
    s.map_values(
        |f: FilterPatternState| FilterSpec { pattern: f.pattern@, mode: f.mode, case_sensitive: f.case_sensitive, enabled: f.enabled },
    )
}

/// Kept marks as line indices and names.
pub open spec fn mark_states_view(s: Seq<MarkState>) -> Seq<(usize, Option<Seq<char>>)> {
    s.map_values(|m: MarkState| (m.line_index, name_view(m.name)))
}

/// Kept event filters as names and enabled states.
pub open spec fn event_states_view(s: Seq<EventFilterState>) -> Seq<(Seq<char>, bool)> {
    s.map_values(|e: EventFilterState| (e.name@, e.enabled))
}

/// Kept options as options and enabled states.
pub open spec fn option_states_view(s: Seq<OptionState>) -> Seq<(AppOption, bool)> {
    s.map_values(|o: OptionState| (o.option, o.enabled))
}

fn copy_strings(s: &[String]) -> (r: Vec<String>)
    ensures
        texts(r@) == texts(s@),
{
    let mut out: Vec<String> = Vec::new();
    let mut i: usize = 0;
    while i < s.len()
        invariant
            i <= s@.len(),
            out@.len() == i,
            forall|k: int| 0 <= k < i ==> (#[trigger] out@[k])@ == s@[k]@,
        decreases s@.len() - i,
    {
        out.push(s[i].clone());
        i += 1;
    }
    proof {
        assert(texts(out@) =~= texts(s@));
    }
    out
}

impl PersistedState {
    /// The state of a session on the given files, from its viewport, search, filter,
    /// marks, event tracker and options.
    pub fn from_app(
        file_paths: &[&str],
        viewport: &Viewport,
        search: &Search,
        filter: &Filter,
        marking: &Marking,
        event_tracker: &LogEventTracker,
        options: &AppOptions,
    ) -> (r: Self)
        ensures
            r.version == 1,
            texts(r.log_file_paths@) == file_paths@.map_values(|p: &str| p@),
            r.viewport.selected_line == viewport.selected_line,
            r.viewport.top_line == viewport.top_line,
            r.viewport.horizontal_offset == viewport.horizontal_offset,
            r.viewport.center_cursor_mode == viewport.center_cursor_mode,
            texts(r.search_history@) == search.hist()@,
            r.filter_history@.map_values(|e: FilterHistoryEntry| e@) == filter.hist()@,
            filter_states_view(r.filters@) == filter.patterns(),
            mark_states_view(r.marks@) == marking.ordered().map_values(
                |m: crate::marking::Mark| (m.line_index, name_view(m.name)),
            ),
            event_states_view(r.event_filters@) == Seq::new(
                event_tracker.patterns().len(),
                |i: int|
                    (
                        event_tracker.patterns()[stats_order(event_tracker.patterns())[i].1 as int].name@,
                        event_tracker.patterns()[stats_order(event_tracker.patterns())[i].1 as int].enabled,
                    ),
            ),
            r.custom_events@.map_values(|c: CustomEventState| c.pattern@) == custom_patterns(event_tracker.patterns()),
            option_states_view(r.options@) == options.defs().map_values(|o: crate::options::AppOptionDef| (o.option, o.enabled)),
    {
        let mut log_file_paths: Vec<String> = Vec::new();
        let mut i: usize = 0;
        while i < file_paths.len()
            invariant
                i <= file_paths@.len(),
                log_file_paths@.len() == i,
                forall|k: int| 0 <= k < i ==> (#[trigger] log_file_paths@[k])@ == file_paths@[k]@,
            decreases file_paths@.len() - i,
        {
            log_file_paths.push(file_paths[i].to_owned());
            i += 1;
        }
        proof {
            assert(texts(log_file_paths@) =~= file_paths@.map_values(|p: &str| p@));
        }
        let search_history = copy_strings(search.history().get_history());
        let fh = filter.history().get_history();
        let mut filter_history: Vec<FilterHistoryEntry> = Vec::new();
        let mut i: usize = 0;
        while i < fh.len()
            invariant
                i <= fh@.len(),
                filter_history@.len() == i,
                forall|k: int| 0 <= k < i ==> (#[trigger] filter_history@[k])@ == fh@[k]@,
            decreases fh@.len() - i,
        {
            filter_history.push(fh[i].duplicate());
            i += 1;
        }
        proof {
            assert(filter_history@.map_values(|e: FilterHistoryEntry| e@) =~= fh@.map_values(|e: FilterHistoryEntry| e@));
        }
        let fps = filter.get_filter_patterns();
        let mut filters: Vec<FilterPatternState> = Vec::new();
        let mut i: usize = 0;
        while i < fps.len()
            invariant
                i <= fps@.len(),
                filters@.len() == i,
                forall|k: int|
                    0 <= k < i ==> (#[trigger] filters@[k]).pattern@ == fps@[k].pattern@ && filters@[k].mode == fps@[k].mode
                        && filters@[k].case_sensitive == fps@[k].case_sensitive && filters@[k].enabled == fps@[k].enabled,
            decreases fps@.len() - i,
        {
            let fp = &fps[i];
            filters.push(
                FilterPatternState {
                    pattern: fp.pattern.clone(),
                    mode: fp.mode,
                    case_sensitive: fp.case_sensitive,
                    enabled: fp.enabled,
                },
            );
            i += 1;
        }
        proof {
            assert(filter_states_view(filters@) =~= crate::filter::filter_specs(fps@));
        }
        let ms = marking.get_marks();
        let mut marks: Vec<MarkState> = Vec::new();
        let mut i: usize = 0;
        while i < ms.len()
            invariant
                i <= ms@.len(),
                marks@.len() == i,
                forall|k: int|
                    0 <= k < i ==> (#[trigger] marks@[k]).line_index == ms@[k].line_index && name_view(marks@[k].name)
                        == name_view(ms@[k].name),
            decreases ms@.len() - i,
        {
            let m = &ms[i];
            let name = match &m.name {
                Some(n) => Some(n.clone()),
                None => None,
            };
            marks.push(MarkState { line_index: m.line_index, name });
            i += 1;
        }
        proof {
            assert(mark_states_view(marks@) =~= ms@.map_values(|m: crate::marking::Mark| (m.line_index, name_view(m.name))));
        }
        let stats = event_tracker.get_event_stats();
        let mut event_filters: Vec<EventFilterState> = Vec::new();
        let mut i: usize = 0;
        while i < stats.len()
            invariant
                i <= stats@.len(),
                event_filters@.len() == i,
                forall|k: int|
                    0 <= k < i ==> (#[trigger] event_filters@[k]).name@ == stats@[k].name@ && event_filters@[k].enabled
                        == stats@[k].enabled,
            decreases stats@.len() - i,
        {
            event_filters.push(EventFilterState { name: stats[i].name.clone(), enabled: stats[i].enabled });
            i += 1;
        }
        proof {
            assert(event_states_view(event_filters@) =~= Seq::new(
                event_tracker.patterns().len(),
                |i: int|
                    (
                        event_tracker.patterns()[stats_order(event_tracker.patterns())[i].1 as int].name@,
                        event_tracker.patterns()[stats_order(event_tracker.patterns())[i].1 as int].enabled,
                    ),
            ));
        }
        let cps = event_tracker.get_custom_event_patterns();
        let mut custom_events: Vec<CustomEventState> = Vec::new();
        let mut i: usize = 0;
        while i < cps.len()
            invariant
                i <= cps@.len(),
                custom_events@.len() == i,
                forall|k: int| 0 <= k < i ==> (#[trigger] custom_events@[k]).pattern@ == cps@[k]@,
            decreases cps@.len() - i,
        {
            custom_events.push(CustomEventState { pattern: cps[i].to_owned() });
            i += 1;
        }
        proof {
            assert(custom_events@.map_values(|c: CustomEventState| c.pattern@) =~= custom_patterns(event_tracker.patterns()));
        }
        let mut opts: Vec<OptionState> = Vec::new();
        let mut k: usize = 0;
        while k < options.count()
            invariant
                k <= options.defs().len(),
                opts@.len() == k,
                forall|t: int|
                    0 <= t < k ==> (#[trigger] opts@[t]).option == options.defs()[t].option && opts@[t].enabled
                        == options.defs()[t].enabled,
            decreases options.defs().len() - k,
        {
            match options.get(k) {
                Some(def) => {
                    opts.push(OptionState { option: def.option, enabled: def.enabled });
                },
                None => {},
            }
            k += 1;
        }
        proof {
            assert(option_states_view(opts@) =~= options.defs().map_values(
                |o: crate::options::AppOptionDef| (o.option, o.enabled),
            ));
        }
        PersistedState {
            version: 1,
            log_file_paths,
            viewport: ViewportState {
                selected_line: viewport.selected_line,
                top_line: viewport.top_line,
                horizontal_offset: viewport.horizontal_offset,
                center_cursor_mode: viewport.center_cursor_mode,
            },
            search_history,
            filter_history,
            filters,
            marks,
            event_filters,
            custom_events,
            options: opts,
        }
    }

    pub fn viewport_selected_line(&self) -> (r: usize)
        ensures
            r == self.viewport.selected_line,
    {
        self.viewport.selected_line
    }

    pub fn viewport_top_line(&self) -> (r: usize)
        ensures
            r == self.viewport.top_line,
    {
        self.viewport.top_line
    }

    pub fn viewport_horizontal_offset(&self) -> (r: usize)
        ensures
            r == self.viewport.horizontal_offset,
    {
        self.viewport.horizontal_offset
    }

    pub fn viewport_center_cursor_mode(&self) -> (r: bool)
        ensures
            r == self.viewport.center_cursor_mode,
    {
        self.viewport.center_cursor_mode
    }

    pub fn search_history(&self) -> (r: &[String])
        ensures
            r@ == self.search_history@,
    {
        self.search_history.as_slice()
    }

    pub fn filter_history(&self) -> (r: &[FilterHistoryEntry])
        ensures
            r@ == self.filter_history@,
    {
        self.filter_history.as_slice()
    }

    pub fn filters(&self) -> (r: &[FilterPatternState])
        ensures
            r@ == self.filters@,
    {
        self.filters.as_slice()
    }

    pub fn marks(&self) -> (r: &[MarkState])
        ensures
            r@ == self.marks@,
    {
        self.marks.as_slice()
    }

    pub fn event_filters(&self) -> (r: &[EventFilterState])
        ensures
            r@ == self.event_filters@,
    {
        self.event_filters.as_slice()
    }

    pub fn custom_events(&self) -> (r: &[CustomEventState])
        ensures
            r@ == self.custom_events@,
    {
        self.custom_events.as_slice()
    }

    /// The options and whether each is enabled.
    pub fn options(&self) -> (r: Vec<(AppOption, bool)>)
        ensures
            r@ == option_states_view(self.options@),
    {
        let mut out: Vec<(AppOption, bool)> = Vec::new();
        let mut i: usize = 0;
        while i < self.options.len()
            invariant
                i <= self.options@.len(),
                out@ == option_states_view(self.options@.take(i as int)),
            decreases self.options@.len() - i,
        {
            out.push((self.options[i].option, self.options[i].enabled));
            i += 1;
            proof {
                assert(out@ =~= option_states_view(self.options@.take(i as int)));
            }
        }
        proof {
            assert(self.options@.take(i as int) =~= self.options@);
        }
        out
    }
}

impl FilterPatternState {
    pub fn pattern(&self) -> (r: &str)
        ensures
            r@ == self.pattern@,
    {
        self.pattern.as_str()
    }

    pub fn mode(&self) -> (r: ActiveFilterMode)
        ensures
            r == self.mode,
    {
        self.mode
    }

    pub fn case_sensitive(&self) -> (r: bool)
        ensures
            r == self.case_sensitive,
    {
        self.case_sensitive
    }

    pub fn enabled(&self) -> (r: bool)
        ensures
            r == self.enabled,
    {
        self.enabled
    }
}

impl MarkState {
    pub fn line_index(&self) -> (r: usize)
        ensures
            r == self.line_index,
    {
        self.line_index
    }

    pub fn name(&self) -> (r: &Option<String>)
        ensures
            *r == self.name,
    {
        &self.name
    }
}

impl EventFilterState {
    pub fn name(&self) -> (r: &str)
        ensures
            r@ == self.name@,
    {
        self.name.as_str()
    }

    pub fn enabled(&self) -> (r: bool)
        ensures
            r == self.enabled,
    {
        self.enabled
    }
}

impl CustomEventState {
    pub fn pattern(&self) -> (r: &str)
        ensures
            r@ == self.pattern@,
    {
        self.pattern.as_str()
    }
}

} // verus!
