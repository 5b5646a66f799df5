//! Selecting a range of rows: starting, extending and cancelling a selection, the lines
//! it covers, and the text copied from it.
use vstd::prelude::*;
use crate::app::{first_row_of, find_row, lemma_first_row_in_range, Action, App, Overlay, ViewState};
use crate::app_commands::{neighbour_mark, neighbour_of};
use crate::app_events::shown_event_lines;
use crate::app_steps::listed_marks;
use crate::viewport::{adjusted, Viewport};
use crate::log::LogLine;
use crate::marking::toggled_mark;
use crate::timestamp::{decimal, push_decimal, push_decimal_wide, push_text};

verus! {

/// The selection with its first row first.
pub open spec fn ordered_range(r: Option<(usize, usize)>) -> Option<(usize, usize)> {
    match r {
        Some(p) => Some(
            if p.0 <= p.1 {
                p
            } else {
                (p.1, p.0)
            },
        ),
        None => None,
    }
}

/// The end (exclusive) of the rows from `s` to `e` that exist among `n` rows.
pub open spec fn range_end(s: usize, e: usize, n: nat) -> int {
    if e < n {
        e + 1
    } else {
        n as int
    }
}

/// The lines on the rows from `start` up to `end` (exclusive).
pub open spec fn lines_on_rows(rows: Seq<usize>, start: int, end: int) -> Seq<usize>
    decreases end - start,
{
    if end <= start {
        Seq::empty()
    } else {
        lines_on_rows(rows, start, end - 1).push(rows[end - 1])
    }
}

proof fn lemma_lines_on_rows(rows: Seq<usize>, start: int, end: int)
    requires
        0 <= start,
        end <= rows.len(),
    ensures
        lines_on_rows(rows, start, end).len() == (if end <= start { 0 } else { end - start }),
        forall|k: int|
            0 <= k < lines_on_rows(rows, start, end).len() ==> #[trigger] lines_on_rows(rows, start, end)[k]
                == rows[start + k],
    decreases end - start,
{
    if end > start {
        lemma_lines_on_rows(rows, start, end - 1);
    }
}

/// The lines of the selected rows that exist, in row order.
pub open spec fn selected_lines(a: App) -> Seq<usize> {
    match ordered_range(a.selection_range) {
        Some(p) => lines_on_rows(a.visible@, p.0 as int, range_end(p.0, p.1, a.visible@.len())),
        None => Seq::empty(),
    }
}

/// A line as it is copied: with several files, its file's number (from 1) in brackets
/// before its text.
pub open spec fn copied_line(a: App, l: LogLine) -> Seq<char> {
    match l.log_file_id {
        Some(id) => if a.file_manager.entries().len() > 1 {
            "["@ + decimal(id as nat + 1) + "] "@ + l.content@
        } else {
            l.content@
        },
        None => l.content@,
    }
}

/// The texts joined by line breaks.
pub open spec fn joined(ts: Seq<Seq<char>>) -> Seq<char>
    decreases ts.len(),
{
    if ts.len() == 0 {
        Seq::empty()
    } else if ts.len() == 1 {
        ts[0]
    } else {
        joined(ts.drop_last()) + "\n"@ + ts.last()
    }
}

/// The copied texts of the lines.
pub open spec fn copied_texts(a: App, ls: Seq<usize>) -> Seq<Seq<char>> {
    Seq::new(ls.len(), |i: int| copied_line(a, a.log_buffer.lines()[ls[i] as int]))
}

/// The message shown after copying lines.
pub open spec fn copied_message(n: nat) -> Seq<char> {
    "Copied "@ + decimal(n) + " line"@ + (if n == 1 {
        Seq::<char>::empty()
    } else {
        "s"@
    }) + " to clipboard"@
}

/// Copying the selection: when it covers some rows, their lines' texts, joined by line
/// breaks, are handed out to be put on the clipboard, the selection ends and a message
/// tells how many lines were copied; otherwise nothing happens.
pub open spec fn selection_copied(a: App, b: App, act: Action) -> bool {
    let ls = selected_lines(a);
    if ls.len() > 0 {
        &&& act matches Action::CopyToClipboard(t) && t@ == joined(copied_texts(a, ls))
        &&& b.overlay matches Some(Overlay::Message(m)) && m@ == copied_message(ls.len())
        &&& b == App { selection_range: None, overlay: b.overlay, ..a }
    } else {
        act is Nothing && b == a
    }
}

/// Every line of `ls` toggled in turn.
pub open spec fn toggled_all(m: Map<usize, Option<Seq<char>>>, ls: Seq<usize>) -> Map<usize, Option<Seq<char>>>
    decreases ls.len(),
{
    if ls.len() == 0 {
        m
    } else {
        toggled_mark(toggled_all(m, ls.drop_last()), ls.last())
    }
}

/// Every line of `ls` marked, those already marked kept as they are.
pub open spec fn marked_all(m: Map<usize, Option<Seq<char>>>, ls: Seq<usize>) -> Map<usize, Option<Seq<char>>>
    decreases ls.len(),
{
    if ls.len() == 0 {
        m
    } else {
        let p = marked_all(m, ls.drop_last());
        if p.contains_key(ls.last()) {
            p
        } else {
            p.insert(ls.last(), None)
        }
    }
}

/// Every line of `ls` is marked.
pub open spec fn all_marked(m: Map<usize, Option<Seq<char>>>, ls: Seq<usize>) -> bool {
    forall|i: int| 0 <= i < ls.len() ==> m.contains_key(#[trigger] ls[i])
}

/// Extending the selection to the first target line after the selected row's line (or the
/// last one before it): that line's first row is selected and kept in view, following ends,
/// nothing is recorded in the history, and a selection, if there is one, then ends at that
/// row; with no such line, or no row for it, nothing changes.
pub open spec fn selected_to_line(a: App, b: App, targets: Seq<usize>, after: bool) -> bool {
    let sel = a.viewport.selected_line;
    let target = if sel < a.visible@.len() {
        neighbour_mark(targets, a.visible@[sel as int], after)
    } else {
        None
    };
    match target {
        Some(line) => match first_row_of(a.visible@, line, 0) {
            Some(row) => b == App {
                viewport: adjusted(Viewport { selected_line: row as usize, follow_mode: false, ..a.viewport }),
                selection_range: match a.selection_range {
                    Some(r) => Some((r.0, row as usize)),
                    None => None,
                },
                ..a
            },
            None => b == a,
        },
        None => b == a,
    }
}

impl App {
    /// The selection with its first row first.
    pub fn get_selection_range(&self) -> (r: Option<(usize, usize)>)
        ensures
            r == ordered_range(self.selection_range),
    {
        match self.selection_range {
            Some((s, e)) => Some(
                if s <= e {
                    (s, e)
                } else {
                    (e, s)
                },
            ),
            None => None,
        }
    }

    /// Starts selecting at the selected row and shows the selection mode.
    pub fn start_selection(&mut self)
        ensures
            *final(self) == (App {
                selection_range: Some((old(self).viewport.selected_line, old(self).viewport.selected_line)),
                view_state: ViewState::SelectionMode,
                overlay: None,
                ..*old(self)
            }),
    {
        let row = self.viewport.selected_line;
        self.selection_range = Some((row, row));
        self.view_state = ViewState::SelectionMode;
        self.overlay = None;
    }

    /// Drops the selection.
    pub fn cancel_selection(&mut self)
        ensures
            *final(self) == (App { selection_range: None, ..*old(self) }),
    {
        self.selection_range = None;
    }

    /// The lines of the selected rows (see `selected_lines`).
    pub fn selection_lines(&self) -> (r: Vec<usize>)
        ensures
            r@ == selected_lines(*self),
    {
        match self.get_selection_range() {
            Some((s, e)) => {
                let n = self.visible.len();
                let end = if e < n {
                    e + 1
                } else {
                    n
                };
                let mut out: Vec<usize> = Vec::new();
                let mut r: usize = s;
                if s < end {
                    while r < end
                        invariant
                            s <= r <= end,
                            end <= self.visible@.len(),
                            out@ == lines_on_rows(self.visible@, s as int, r as int),
                        decreases end - r,
                    {
                        out.push(self.visible[r]);
                        r += 1;
                    }
                } else {
                    assert(lines_on_rows(self.visible@, s as int, end as int) =~= Seq::<usize>::empty());
                }
                out
            },
            None => Vec::new(),
        }
    }

    fn copied_line_text(&self, line: usize) -> (r: String)
        requires
            line < self.log_buffer.lines().len(),
        ensures
            r@ == copied_line(*self, self.log_buffer.lines()[line as int]),
    {
        let lines = self.log_buffer.all_lines();
        let l = &lines[line];
        let mut s = String::new();
        match l.log_file_id {
            Some(id) => if self.file_manager.is_multi_file() {
                push_text(&mut s, "[");
                push_decimal_wide(&mut s, id as u128 + 1);
                push_text(&mut s, "] ");
                push_text(&mut s, l.content.as_str());
                return s;
            },
            None => {},
        }
        push_text(&mut s, l.content.as_str());
        s
    }

    /// Copies the selection (see `selection_copied`).
    pub fn copy_selection_to_clipboard(&mut self) -> (act: Action)
        requires
            old(self).wf(),
        ensures
            final(self).wf(),
            selection_copied(*old(self), *final(self), act),
    {
        let ls = self.selection_lines();
        if ls.len() == 0 {
            return Action::Nothing;
        }
        let ghost a = *self;
        let ghost ts = copied_texts(a, ls@);
        proof {
            let p = ordered_range(a.selection_range).unwrap();
            lemma_lines_on_rows(a.visible@, p.0 as int, range_end(p.0, p.1, a.visible@.len()));
            assert forall|k: int| 0 <= k < ls@.len() implies (#[trigger] ls@[k]) < a.log_buffer.lines().len() by {
                assert(ls@[k] == a.visible@[p.0 + k]);
            }
        }
        let mut text = String::new();
        let mut i: usize = 0;
        while i < ls.len()
            invariant
                *self == a,
                ls@ == selected_lines(a),
                ts == copied_texts(a, ls@),
                i <= ls@.len(),
                ls@.len() > 0,
                a.wf(),
                forall|k: int| 0 <= k < ls@.len() ==> (#[trigger] ls@[k]) < a.log_buffer.lines().len(),
                text@ == joined(ts.take(i as int)),
            decreases ls@.len() - i,
        {
            let t = self.copied_line_text(ls[i]);
            if i > 0 {
                push_text(&mut text, "\n");
            }
            push_text(&mut text, t.as_str());
            proof {
                assert(ts.take(i + 1).drop_last() =~= ts.take(i as int));
                if i == 0 {
                    assert(text@ =~= ts.take(1)[0]);
                }
            }
            i += 1;
        }
        assert(ts.take(i as int) =~= ts);
        let mut msg = String::new();
        push_text(&mut msg, "Copied ");
        push_decimal(&mut msg, ls.len() as u64);
        push_text(&mut msg, " line");
        if ls.len() != 1 {
            push_text(&mut msg, "s");
        }
        push_text(&mut msg, " to clipboard");
        proof {
            if ls@.len() == 1 {
                assert(msg@ =~= copied_message(ls@.len()));
            }
        }
        self.selection_range = None;
        self.overlay = Some(Overlay::Message(msg));
        Action::CopyToClipboard(text)
    }

    /// Extends the selection to a target line (see `selected_to_line`).
    fn select_to_line(&mut self, targets: &Vec<usize>, after: bool)
        requires
            old(self).wf(),
        ensures
            final(self).wf(),
            selected_to_line(*old(self), *final(self), targets@, after),
    {
        let sel = self.viewport.selected_line;
        if sel < self.visible.len() {
            match neighbour_of(targets, self.visible[sel], after) {
                Some(line) => match find_row(&self.visible, line) {
                    Some(row) => {
                        proof {
                            lemma_first_row_in_range(self.visible@, line, 0);
                        }
                        self.viewport.goto_line(row, false);
                        match self.selection_range {
                            Some((start, _)) => self.selection_range = Some((start, row)),
                            None => {},
                        }
                    },
                    None => {},
                },
                None => {},
            }
        }
    }

    /// Extends the selection to the next shown event (see `selected_to_line`).
    pub fn select_to_event_next(&mut self)
        requires
            old(self).wf(),
        ensures
            final(self).wf(),
            selected_to_line(*old(self), *final(self), shown_event_lines(*old(self)), true),
    {
        let ls = self.event_lines(true);
        self.select_to_line(&ls, true);
    }

    /// Extends the selection to the previous shown event (see `selected_to_line`).
    pub fn select_to_event_previous(&mut self)
        requires
            old(self).wf(),
        ensures
            final(self).wf(),
            selected_to_line(*old(self), *final(self), shown_event_lines(*old(self)), false),
    {
        let ls = self.event_lines(true);
        self.select_to_line(&ls, false);
    }

    /// Extends the selection to the next shown mark (see `selected_to_line`).
    pub fn select_to_mark_next(&mut self)
        requires
            old(self).wf(),
        ensures
            final(self).wf(),
            selected_to_line(*old(self), *final(self), listed_marks(*old(self)), true),
    {
        let ls = self.get_visible_marks();
        self.select_to_line(&ls, true);
    }

    /// Extends the selection to the previous shown mark (see `selected_to_line`).
    pub fn select_to_mark_previous(&mut self)
        requires
            old(self).wf(),
        ensures
            final(self).wf(),
            selected_to_line(*old(self), *final(self), listed_marks(*old(self)), false),
    {
        let ls = self.get_visible_marks();
        self.select_to_line(&ls, false);
    }
}

} // verus!
