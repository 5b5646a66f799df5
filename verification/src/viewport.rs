//! The visible window over the log lines, the cursor, and jump history.
use vstd::prelude::*;
use crate::list_view_state::{min_int, sat_sub};

verus! {

/// Maximum number of history entries to keep.
pub const MAX_HISTORY: usize = 20;

/// Manages the visible window and cursor position for viewing log lines.
#[derive(Debug)]
pub struct Viewport {
    /// Width of the viewport in characters.
    pub width: usize,
    /// Height of the viewport in lines.
    pub height: usize,
    /// Index of the first visible line.
    pub top_line: usize,
    /// Index of the currently selected line.
    pub selected_line: usize,
    /// Number of lines to maintain as margin when scrolling.
    pub scroll_margin: usize,
    /// Total number of lines available to display.
    pub total_lines: usize,
    /// Horizontal scroll offset for wide lines.
    pub horizontal_offset: usize,
    /// Whether to automatically scroll to bottom when new lines arrive in streaming mode.
    pub follow_mode: bool,
    /// Whether to keep the cursor centered in the viewport when scrolling.
    pub center_cursor_mode: bool,
    /// History stack of log line indices.
    pub history: Vec<usize>,
    /// Current position in the history stack.
    pub history_position: usize,
}

/// The viewport with the top line and selection changed.
pub open spec fn with_lines(v: Viewport, top: int, selected: int) -> Viewport {
    Viewport { top_line: top as usize, selected_line: selected as usize, ..v }
}

/// Centering: the selected line sits half a screen below the top, unless that would
/// scroll past the end or before the start; with no lines everything is at 0.
pub open spec fn centered(v: Viewport) -> Viewport {
    if v.total_lines == 0 {
        with_lines(v, 0, 0)
    } else {
        let half = v.height / 2;
        let top = if v.selected_line >= half {
            let t = v.selected_line - half;
            if t + v.height > v.total_lines {
                sat_sub(v.total_lines as int, v.height as int)
            } else {
                t
            }
        } else {
            0
        };
        with_lines(v, top, v.selected_line as int)
    }
}

/// Scrolling so that the selection keeps `scroll_margin` lines of context above and
/// below it (or centering in center-cursor mode); with no lines everything is at 0.
pub open spec fn adjusted(v: Viewport) -> Viewport {
    if v.total_lines == 0 {
        with_lines(v, 0, 0)
    } else if v.center_cursor_mode {
        centered(v)
    } else {
        let sel = v.selected_line as int;
        let m = v.scroll_margin as int;
        let h = v.height as int;
        let t1 = if sel < v.top_line + m {
            sat_sub(sel, m)
        } else {
            v.top_line as int
        };
        let bottom = t1 + sat_sub(h, m + 1);
        let t2 = if sel > bottom {
            min_int(sat_sub(sel + m + 1, h), sat_sub(v.total_lines as int, h))
        } else {
            t1
        };
        let t3 = if v.total_lines <= h {
            0
        } else {
            t2
        };
        with_lines(v, t3, sel)
    }
}

/// The history after recording a jump to `line`: forward entries are dropped, a
/// repeat of the newest entry is ignored, and at most `MAX_HISTORY` entries are kept.
pub open spec fn history_after_push(h: Seq<usize>, pos: int, line: usize) -> (Seq<usize>, int) {
    let kept = if pos + 1 < h.len() {
        h.subrange(0, pos + 1)
    } else {
        h
    };
    if kept.len() > 0 && kept.last() == line {
        (kept, pos)
    } else {
        let pushed = kept.push(line);
        let trimmed = if pushed.len() > MAX_HISTORY {
            pushed.subrange(1, pushed.len() as int)
        } else {
            pushed
        };
        (trimmed, trimmed.len() - 1)
    }
}

impl Default for Viewport {
    fn default() -> (r: Self)
        ensures
            r.width == 0 && r.height == 0 && r.top_line == 0 && r.selected_line == 0,
            r.scroll_margin == 0 && r.total_lines == 0 && r.horizontal_offset == 0,
            !r.follow_mode && !r.center_cursor_mode,
            r.history@ == Seq::<usize>::empty(),
            r.history_position == 0,
    {
        Viewport {
            width: 0,
            height: 0,
            top_line: 0,
            selected_line: 0,
            scroll_margin: 0,
            total_lines: 0,
            horizontal_offset: 0,
            follow_mode: false,
            center_cursor_mode: false,
            history: Vec::new(),
            history_position: 0,
        }
    }
}

impl Viewport {
    /// Clears the content-dependent state: lines, positions and history.
    pub fn reset_view(&mut self)
        ensures
            *final(self) == (Viewport {
                total_lines: 0,
                top_line: 0,
                selected_line: 0,
                horizontal_offset: 0,
                history: final(self).history,
                history_position: 0,
                ..*old(self)
            }),
            final(self).history@ == Seq::<usize>::empty(),
    {
        self.total_lines = 0;
        self.top_line = 0;
        self.selected_line = 0;
        self.horizontal_offset = 0;
        self.history = Vec::new();
        self.history_position = 0;
    }

    /// Updates the viewport dimensions and rescrolls.
    pub fn resize(&mut self, width: usize, height: usize)
        ensures
            *final(self) == adjusted(Viewport { width, height, ..*old(self) }),
    {
        self.width = width;
        self.height = height;
        self.adjust_visible();
    }

    /// Sets the total number of available lines.
    pub fn set_total_lines(&mut self, total_lines: usize)
        ensures
            *final(self) == (Viewport { total_lines, ..*old(self) }),
    {
        self.total_lines = total_lines;
    }

    /// Moves the selection up by one line.
    pub fn move_up(&mut self)
        ensures
            old(self).selected_line > 0 ==> *final(self) == adjusted(
                Viewport { selected_line: (old(self).selected_line - 1) as usize, ..*old(self) },
            ),
            old(self).selected_line == 0 ==> *final(self) == *old(self),
    {
        if self.selected_line > 0 {
            self.selected_line -= 1;
            self.adjust_visible();
        }
    }

    /// Moves the selection down by one line.
    pub fn move_down(&mut self)
        ensures
            old(self).selected_line + 1 < old(self).total_lines ==> *final(self) == adjusted(
                Viewport { selected_line: (old(self).selected_line + 1) as usize, ..*old(self) },
            ),
            old(self).selected_line + 1 >= old(self).total_lines ==> *final(self) == *old(self),
    {
        if self.total_lines > 0 && self.selected_line < self.total_lines - 1 {
            self.selected_line += 1;
            self.adjust_visible();
        }
    }

    /// Moves the selection up by one page and centers the viewport on that line.
    pub fn page_up(&mut self)
        ensures
            old(self).selected_line > 0 ==> *final(self) == centered(
                adjusted(
                    Viewport {
                        selected_line: sat_sub(
                            old(self).selected_line as int,
                            sat_sub(old(self).height as int, 1),
                        ) as usize,
                        ..*old(self)
                    },
                ),
            ),
            old(self).selected_line == 0 ==> *final(self) == *old(self),
    {
        if self.selected_line > 0 {
            let page_size = if self.height > 0 {
                self.height - 1
            } else {
                0
            };
            self.selected_line = if self.selected_line > page_size {
                self.selected_line - page_size
            } else {
                0
            };
            self.adjust_visible();
            self.center_selected();
        }
    }

    /// Moves the selection down by one page and centers the viewport on that line.
    pub fn page_down(&mut self)
        ensures
            old(self).selected_line + 1 < old(self).total_lines ==> *final(self) == centered(
                adjusted(
                    Viewport {
                        selected_line: min_int(
                            old(self).selected_line + sat_sub(old(self).height as int, 1),
                            old(self).total_lines - 1,
                        ) as usize,
                        ..*old(self)
                    },
                ),
            ),
            old(self).selected_line + 1 >= old(self).total_lines ==> *final(self) == *old(self),
    {
        if self.total_lines > 0 && self.selected_line < self.total_lines - 1 {
            let page_size = if self.height > 0 {
                self.height - 1
            } else {
                0
            };
            let last = self.total_lines - 1;
            self.selected_line = if page_size >= last - self.selected_line {
                last
            } else {
                self.selected_line + page_size
            };
            self.adjust_visible();
            self.center_selected();
        }
    }

    /// Moves the selection to the first line.
    pub fn goto_top(&mut self)
        ensures
            *final(self) == adjusted(Viewport { selected_line: 0, ..*old(self) }),
    {
        self.selected_line = 0;
        self.adjust_visible();
    }

    /// Moves the selection to the last line.
    pub fn goto_bottom(&mut self)
        ensures
            *final(self) == adjusted(
                Viewport {
                    selected_line: sat_sub(old(self).total_lines as int, 1) as usize,
                    ..*old(self)
                },
            ),
    {
        if self.total_lines > 0 {
            self.selected_line = self.total_lines - 1;
        } else {
            self.selected_line = 0;
        }
        self.adjust_visible();
    }

    /// Moves the selection to a specific line and leaves follow mode; lines past the end
    /// are ignored. If `center` is true, the line is centered in the viewport.
    pub fn goto_line(&mut self, line: usize, center: bool)
        ensures
            line < old(self).total_lines ==> *final(self) == (if center {
                centered(Viewport { selected_line: line, follow_mode: false, ..*old(self) })
            } else {
                adjusted(Viewport { selected_line: line, follow_mode: false, ..*old(self) })
            }),
            line >= old(self).total_lines ==> *final(self) == *old(self),
    {
        if line < self.total_lines {
            self.selected_line = line;
            self.follow_mode = false;
            if center {
                self.center_selected();
            } else {
                self.adjust_visible();
            }
        }
    }

    /// Centers the selected line in the viewport.
    pub fn center_selected(&mut self)
        ensures
            *final(self) == centered(*old(self)),
    {
        if self.total_lines == 0 {
            self.top_line = 0;
            self.selected_line = 0;
            return;
        }
        let half_height = self.height / 2;
        if self.selected_line >= half_height {
            self.top_line = self.selected_line - half_height;
            if self.top_line > self.total_lines || self.height > self.total_lines - self.top_line {
                self.top_line = if self.total_lines > self.height {
                    self.total_lines - self.height
                } else {
                    0
                };
            }
        } else {
            self.top_line = 0;
        }
    }

    /// Returns the range of visible lines (start, end).
    pub fn visible(&self) -> (r: (usize, usize))
        requires
            self.top_line + self.height <= usize::MAX,
        ensures
            r == (self.top_line, (self.top_line + self.height) as usize),
    {
        (self.top_line, self.top_line + self.height)
    }

    /// Adjusts the visible window to keep the selected line visible with scroll margin.
    pub fn adjust_visible(&mut self)
        ensures
            *final(self) == adjusted(*old(self)),
    {
        if self.total_lines == 0 {
            self.top_line = 0;
            self.selected_line = 0;
            return;
        }
        if self.center_cursor_mode {
            self.center_selected();
            return;
        }
        let sel = self.selected_line as u128;
        let m = self.scroll_margin as u128;
        let h = self.height as u128;
        let total = self.total_lines as u128;
        let mut top = self.top_line as u128;
        if sel < top + m {
            top = if sel > m {
                sel - m
            } else {
                0
            };
        }
        let below = if h > m + 1 {
            h - (m + 1)
        } else {
            0
        };
        if sel > top + below {
            let a = if sel + m + 1 > h {
                sel + m + 1 - h
            } else {
                0
            };
            let b = if total > h {
                total - h
            } else {
                0
            };
            top = if a <= b {
                a
            } else {
                b
            };
        }
        if total <= h {
            top = 0;
        }
        assert(top <= self.top_line || top <= sel || top <= total);
        self.top_line = top as usize;
    }

    /// Scrolls left horizontally by half the viewport width.
    pub fn scroll_left(&mut self)
        ensures
            *final(self) == (Viewport {
                horizontal_offset: sat_sub(
                    old(self).horizontal_offset as int,
                    (old(self).width / 2) as int,
                ) as usize,
                ..*old(self)
            }),
    {
        let scroll_amount = self.width / 2;
        self.horizontal_offset = if self.horizontal_offset > scroll_amount {
            self.horizontal_offset - scroll_amount
        } else {
            0
        };
    }

    /// Scrolls right horizontally by half the viewport width, bounded so that half a
    /// screen of the longest line stays visible; nothing happens when lines fit.
    pub fn scroll_right(&mut self, max_line_length: usize)
        ensures
            max_line_length > old(self).width ==> *final(self) == (Viewport {
                horizontal_offset: min_int(
                    old(self).horizontal_offset + old(self).width / 2,
                    max_line_length - old(self).width / 2,
                ) as usize,
                ..*old(self)
            }),
            max_line_length <= old(self).width ==> *final(self) == *old(self),
    {
        if max_line_length > self.width {
            let scroll_amount = (self.width / 2) as u128;
            let bound = (max_line_length - self.width / 2) as u128;
            let next = self.horizontal_offset as u128 + scroll_amount;
            self.horizontal_offset = if next <= bound {
                next as usize
            } else {
                bound as usize
            };
        }
    }

    /// Resets horizontal scroll.
    pub fn reset_horizontal(&mut self)
        ensures
            *final(self) == (Viewport { horizontal_offset: 0, ..*old(self) }),
    {
        self.horizontal_offset = 0;
    }
}


impl Viewport {
    /// Records a log line index in the navigation history.
    pub fn push_history(&mut self, line_index: usize)
        ensures
            ({
                let (h, p) = history_after_push(old(self).history@, old(self).history_position as int, line_index);
                &&& final(self).history@ == h
                &&& final(self).history_position == p
            }),
            *final(self) == (Viewport {
                history: final(self).history,
                history_position: final(self).history_position,
                ..*old(self)
            }),
    {
        if self.history.len() > 0 && self.history_position < self.history.len() - 1 {
            self.history.truncate(self.history_position + 1);
        }
        let n = self.history.len();
        if n == 0 || self.history[n - 1] != line_index {
            self.history.push(line_index);
            if self.history.len() > MAX_HISTORY {
                self.history.remove(0);
            }
            self.history_position = self.history.len() - 1;
        }
        proof {
            let (h, p) = history_after_push(old(self).history@, old(self).history_position as int, line_index);
            assert(self.history@ =~= h);
        }
    }

    /// Navigates back in history: the log line index to jump to, or None at the beginning.
    pub fn history_back(&mut self) -> (r: Option<usize>)
        ensures
            old(self).history_position > 0 ==> final(self).history_position == old(self).history_position - 1
                && r == (if final(self).history_position < old(self).history@.len() {
                Some(old(self).history@[final(self).history_position as int])
            } else {
                None
            }),
            old(self).history_position == 0 ==> r is None && final(self).history_position == 0,
            *final(self) == (Viewport { history_position: final(self).history_position, ..*old(self) }),
    {
        if self.history_position > 0 {
            self.history_position -= 1;
            if self.history_position < self.history.len() {
                Some(self.history[self.history_position])
            } else {
                None
            }
        } else {
            None
        }
    }

    /// Navigates forward in history: the log line index to jump to, or None at the end.
    pub fn history_forward(&mut self) -> (r: Option<usize>)
        ensures
            old(self).history_position + 1 < old(self).history@.len() ==> final(self).history_position
                == old(self).history_position + 1 && r == Some(
                old(self).history@[final(self).history_position as int],
            ),
            old(self).history_position + 1 >= old(self).history@.len() ==> r is None
                && final(self).history_position == old(self).history_position,
            *final(self) == (Viewport { history_position: final(self).history_position, ..*old(self) }),
    {
        if self.history.len() > 0 && self.history_position < self.history.len() - 1 {
            self.history_position += 1;
            Some(self.history[self.history_position])
        } else {
            None
        }
    }
}

/// Keeping the selection in view: whenever the selection is one of the lines and the
/// screen is taller than the scroll margin, the selection stays where it is and lies on
/// the screen after scrolling (in center-cursor mode as well).
pub proof fn law_selection_stays_visible(v: Viewport)
    requires
        v.selected_line < v.total_lines,
        v.height > v.scroll_margin,
    ensures
        adjusted(v).selected_line == v.selected_line,
        adjusted(v).top_line <= adjusted(v).selected_line < adjusted(v).top_line + adjusted(v).height,
        adjusted(v).height == v.height,
        adjusted(v).total_lines == v.total_lines,
{
}

/// Scrolling keeps context around the selection: outside center-cursor mode, when the
/// lines overflow the screen and the screen holds both margins, at least `scroll_margin`
/// lines stay above the selection unless the screen starts at the first line, and at
/// least `scroll_margin` below it unless the screen ends at the last line.
pub proof fn law_scroll_margins(v: Viewport)
    requires
        !v.center_cursor_mode,
        v.selected_line < v.total_lines,
        v.total_lines > v.height,
        v.height > 2 * v.scroll_margin,
    ensures
        adjusted(v).top_line == 0 || adjusted(v).selected_line >= adjusted(v).top_line + v.scroll_margin,
        adjusted(v).selected_line + v.scroll_margin < adjusted(v).top_line + v.height || adjusted(v).top_line + v.height
            == v.total_lines,
{
}

} // verus!
