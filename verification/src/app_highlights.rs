//! The temporary highlights the application's state calls for: the filter or search text
//! while it is typed, and the search in force once it is submitted.
use vstd::prelude::*;
use crate::app::{App, Overlay, ViewState};
use crate::highlighter::{Color, Highlighter, PatternStyle, PlainMatch};
use crate::matcher::PatternMatcher;
use crate::timestamp::push_text;

verus! {

/// The near-black of the terminal palette that preview highlights are written in.
pub open spec fn preview_black() -> Color {
    Color::Indexed(234)
}

/// The style of the filter text while it is typed.
pub open spec fn filter_preview_style() -> PatternStyle {
    PatternStyle { fg_color: Some(preview_black()), bg_color: Some(Color::Cyan), bold: true }
}

/// The style of the search text: bold while it is typed, plain once submitted.
pub open spec fn search_style(bold: bool) -> PatternStyle {
    PatternStyle { fg_color: Some(preview_black()), bg_color: Some(Color::Yellow), bold }
}

/// The temporary highlights the state calls for, in order, each as its text, style and
/// case sensitivity: the typed text while a filter is typed or edited (with the filter's
/// case sensitivity), the typed text while a search is typed (with the search's), each
/// only from two characters on; and the submitted search, when it is not empty and no
/// search is being typed.
pub open spec fn wanted_highlights(a: App) -> Seq<(Seq<char>, PatternStyle, bool)> {
    let typed = a.input@;
    let filtering = (a.view_state == ViewState::ActiveFilterMode || a.overlay == Some(Overlay::EditFilter))
        && typed.len() >= 2;
    let searching = a.view_state == ViewState::ActiveSearchMode && typed.len() >= 2;
    let f = if filtering {
        seq![(typed, filter_preview_style(), a.filter.case_sensitive())]
    } else {
        Seq::empty()
    };
    let s = if searching {
        seq![(typed, search_style(true), a.search.case_sensitive())]
    } else {
        Seq::empty()
    };
    let active = match a.search.pattern() {
        Some(p) => if p.len() > 0 && a.view_state != ViewState::ActiveSearchMode {
            seq![(p, search_style(false), a.search.case_sensitive())]
        } else {
            Seq::empty()
        },
        None => Seq::empty(),
    };
    f + s + active
}

/// The highlighter's temporary highlights are the wanted ones: unnamed plain-text patterns
/// with the given texts, styles and case sensitivities, in order.
pub open spec fn highlights_are(h: Highlighter, ws: Seq<(Seq<char>, PatternStyle, bool)>) -> bool {
    &&& h.temporary().len() == ws.len()
    &&& forall|i: int|
        0 <= i < ws.len() ==> {
            let t = #[trigger] h.temporary()[i];
            &&& t.name is None
            &&& t.style == ws[i].1
            &&& t.matcher matches PatternMatcher::Plain(p) && p.pattern@ == ws[i].0 && p.case_sensitive == ws[i].2
        }
}

impl App {
    /// Puts into the highlighter the temporary highlights the state calls for (see
    /// `wanted_highlights`), in place of those it had; its other patterns stay.
    pub fn update_temporary_highlights(&self, highlighter: &mut Highlighter)
        ensures
            final(highlighter).highlight_patterns() == old(highlighter).highlight_patterns(),
            final(highlighter).event_patterns() == old(highlighter).event_patterns(),
            highlights_are(*final(highlighter), wanted_highlights(*self)),
    {
        highlighter.clear_temporary_highlights();
        let typed_len = self.input.as_str().unicode_len();
        let ghost mut ws: Seq<(Seq<char>, PatternStyle, bool)> = Seq::empty();
        assert(typed_len == self.input@.len());
        assert(highlights_are(*highlighter, ws));
        let editing = match &self.overlay {
            Some(Overlay::EditFilter) => true,
            _ => false,
        };
        if (self.view_state == ViewState::ActiveFilterMode || editing) && typed_len >= 2 {
            let mut text = String::new();
            push_text(&mut text, self.input.as_str());
            let style = PatternStyle::new(Some(Color::Indexed(234)), Some(Color::Cyan), true);
            highlighter.add_temporary_highlight(text, style, self.filter.is_case_sensitive());
            proof {
                ws = ws.push((self.input@, filter_preview_style(), self.filter.case_sensitive()));
                assert(highlights_are(*highlighter, ws));
            }
        }
        if self.view_state == ViewState::ActiveSearchMode && typed_len >= 2 {
            let mut text = String::new();
            push_text(&mut text, self.input.as_str());
            let style = PatternStyle::new(Some(Color::Indexed(234)), Some(Color::Yellow), true);
            highlighter.add_temporary_highlight(text, style, self.search.is_case_sensitive());
            proof {
                ws = ws.push((self.input@, search_style(true), self.search.case_sensitive()));
                assert(highlights_are(*highlighter, ws));
            }
        }
        match self.search.get_active_pattern() {
            Some(p) => {
                if p.unicode_len() > 0 && self.view_state != ViewState::ActiveSearchMode {
                    let mut text = String::new();
                    push_text(&mut text, p);
                    let style = PatternStyle::new(Some(Color::Indexed(234)), Some(Color::Yellow), false);
                    highlighter.add_temporary_highlight(text, style, self.search.is_case_sensitive());
                    proof {
                        ws = ws.push((p@, search_style(false), self.search.case_sensitive()));
                        assert(highlights_are(*highlighter, ws));
                    }
                }
            },
            None => {},
        }
        proof {
            assert(ws =~= wanted_highlights(*self));
        }
    }
}

} // verus!
