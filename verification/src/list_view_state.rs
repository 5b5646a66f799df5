//! Selection and scrolling state of a list popup.
use vstd::prelude::*;

verus! {

/// `a - b`, or 0 when `b > a`.
pub open spec fn sat_sub(a: int, b: int) -> int {
    if a > b {
        a - b
    } else {
        0
    }
}

/// The smaller of two integers.
pub open spec fn min_int(a: int, b: int) -> int {
    if a <= b {
        a
    } else {
        b
    }
}

/// The viewport offset that keeps `selected` visible in a window of `height` rows over
/// `count` items, starting from `offset`; with no items it is 0, and with an unknown
/// (zero) height the offset is left as it is.
pub open spec fn list_offset_after(selected: int, offset: int, count: int, height: int) -> int {
    if count == 0 {
        0
    } else if height == 0 {
        offset
    } else {
        let up = if selected < offset {
            selected
        } else {
            offset
        };
        let down = if selected > up + (height - 1) {
            selected + 1 - height
        } else {
            up
        };
        min_int(down, sat_sub(count, height))
    }
}

/// Half a page: (height - 1) / 2, at least 1 row before halving.
pub open spec fn half_page(height: int) -> int {
    let h = sat_sub(height, 1);
    (if h >= 1 {
        h
    } else {
        1
    }) / 2
}

/// Viewport management for any list view.
/// Handles selection, scrolling, and viewport tracking.
#[derive(Debug)]
pub struct ListViewState {
    /// Currently selected item index.
    selected_index: usize,
    /// Viewport offset for scrolling the list.
    viewport_offset: usize,
    /// Total number of items in the list.
    item_count: usize,
    /// Last rendered viewport height.
    viewport_height: usize,
}

impl Default for ListViewState {
    fn default() -> (r: Self)
        ensures
            r.wf(),
            r.selected() == 0,
            r.offset() == 0,
            r.count() == 0,
            r.height() == 0,
    {
        ListViewState { selected_index: 0, viewport_offset: 0, item_count: 0, viewport_height: 0 }
    }
}

impl ListViewState {
    /// The selected index.
    pub closed spec fn selected(&self) -> int {
        self.selected_index as int
    }

    /// The viewport offset.
    pub closed spec fn offset(&self) -> int {
        self.viewport_offset as int
    }

    /// The number of items.
    pub closed spec fn count(&self) -> int {
        self.item_count as int
    }

    /// The last known viewport height.
    pub closed spec fn height(&self) -> int {
        self.viewport_height as int
    }

    /// The positions, the count and the height are never negative.
    pub proof fn lemma_nonneg(&self)
        ensures
            self.selected() >= 0,
            self.offset() >= 0,
            self.count() >= 0,
            self.height() >= 0,
    {
    }

    /// The selection lies on an item, or at 0 when the list is empty.
    pub open spec fn wf(&self) -> bool {
        if self.count() == 0 {
            self.selected() == 0
        } else {
            self.selected() < self.count()
        }
    }

    /// Creates a new list view state with selection at index 0.
    pub fn new() -> (r: Self)
        ensures
            r.wf(),
            r.selected() == 0,
            r.offset() == 0,
            r.count() == 0,
            r.height() == 0,
    {
        Self::default()
    }

    /// Gets the currently selected index.
    pub fn selected_index(&self) -> (r: usize)
        ensures
            r == self.selected(),
    {
        self.selected_index
    }

    /// Gets the current viewport offset.
    pub fn viewport_offset(&self) -> (r: usize)
        ensures
            r == self.offset(),
    {
        self.viewport_offset
    }

    /// Sets the viewport height (called from UI rendering).
    pub fn set_viewport_height(&mut self, height: usize)
        ensures
            final(self).height() == height,
            final(self).selected() == old(self).selected(),
            final(self).offset() == old(self).offset(),
            final(self).count() == old(self).count(),
    {
        self.viewport_height = height;
    }

    /// Gets the total item count.
    pub fn item_count(&self) -> (r: usize)
        ensures
            r == self.count(),
    {
        self.item_count
    }

    /// Sets the total item count, clamping the selection to the last item.
    pub fn set_item_count(&mut self, count: usize)
        ensures
            final(self).wf(),
            final(self).count() == count,
            final(self).height() == old(self).height(),
            final(self).selected() == (if count == 0 {
                0
            } else if old(self).selected() >= count {
                count - 1
            } else {
                old(self).selected()
            }),
            final(self).offset() == list_offset_after(
                final(self).selected(),
                old(self).offset(),
                count as int,
                old(self).height(),
            ),
    {
        self.item_count = count;
        if count > 0 && self.selected_index >= count {
            self.selected_index = count - 1;
        } else if count == 0 {
            self.selected_index = 0;
        }
        self.adjust_viewport();
    }

    /// Adjusts the viewport offset to keep the selected item visible.
    fn adjust_viewport(&mut self)
        ensures
            final(self).offset() == list_offset_after(
                old(self).selected(),
                old(self).offset(),
                old(self).count(),
                old(self).height(),
            ),
            final(self).selected() == old(self).selected(),
            final(self).count() == old(self).count(),
            final(self).height() == old(self).height(),
    {
        if self.item_count == 0 {
            self.viewport_offset = 0;
            return;
        }
        let viewport_height = self.viewport_height;
        if viewport_height == 0 {
            return;
        }
        if self.selected_index < self.viewport_offset {
            self.viewport_offset = self.selected_index;
        }
        if self.selected_index > self.viewport_offset && self.selected_index - self.viewport_offset
            > viewport_height - 1 {
            self.viewport_offset = self.selected_index - (viewport_height - 1);
        }
        let max_offset = if self.item_count > viewport_height {
            self.item_count - viewport_height
        } else {
            0
        };
        if self.viewport_offset > max_offset {
            self.viewport_offset = max_offset;
        }
    }

    /// Moves selection up by 1 without wrapping.
    pub fn move_up(&mut self)
        requires
            old(self).wf(),
        ensures
            final(self).wf(),
            final(self).count() == old(self).count(),
            final(self).height() == old(self).height(),
            old(self).selected() > 0 ==> final(self).selected() == old(self).selected() - 1
                && final(self).offset() == list_offset_after(
                final(self).selected(),
                old(self).offset(),
                old(self).count(),
                old(self).height(),
            ),
            old(self).selected() == 0 ==> final(self).selected() == 0 && final(self).offset()
                == old(self).offset(),
    {
        if self.item_count > 0 && self.selected_index > 0 {
            self.selected_index -= 1;
            self.adjust_viewport();
        }
    }

    /// Moves selection down by 1 without wrapping.
    pub fn move_down(&mut self)
        requires
            old(self).wf(),
        ensures
            final(self).wf(),
            final(self).count() == old(self).count(),
            final(self).height() == old(self).height(),
            old(self).selected() + 1 < old(self).count() ==> final(self).selected() == old(self).selected()
                + 1 && final(self).offset() == list_offset_after(
                final(self).selected(),
                old(self).offset(),
                old(self).count(),
                old(self).height(),
            ),
            old(self).selected() + 1 >= old(self).count() ==> final(self).selected() == old(self).selected()
                && final(self).offset() == old(self).offset(),
    {
        if self.item_count > 0 && self.selected_index < self.item_count - 1 {
            self.selected_index += 1;
            self.adjust_viewport();
        }
    }

    /// Moves selection up by 1, wrapping from the first item to the last.
    pub fn move_up_wrap(&mut self)
        requires
            old(self).wf(),
        ensures
            final(self).wf(),
            final(self).count() == old(self).count(),
            final(self).height() == old(self).height(),
            old(self).count() > 0 ==> final(self).selected() == (if old(self).selected() == 0 {
                old(self).count() - 1
            } else {
                old(self).selected() - 1
            }) && final(self).offset() == list_offset_after(
                final(self).selected(),
                old(self).offset(),
                old(self).count(),
                old(self).height(),
            ),
            old(self).count() == 0 ==> final(self).selected() == old(self).selected()
                && final(self).offset() == old(self).offset(),
    {
        if self.item_count > 0 {
            self.selected_index = if self.selected_index == 0 {
                self.item_count - 1
            } else {
                self.selected_index - 1
            };
            self.adjust_viewport();
        }
    }

    /// Moves selection down by 1, wrapping from the last item to the first.
    pub fn move_down_wrap(&mut self)
        requires
            old(self).wf(),
        ensures
            final(self).wf(),
            final(self).count() == old(self).count(),
            final(self).height() == old(self).height(),
            old(self).count() > 0 ==> final(self).selected() == (old(self).selected() + 1) % old(
                self,
            ).count() && final(self).offset() == list_offset_after(
                final(self).selected(),
                old(self).offset(),
                old(self).count(),
                old(self).height(),
            ),
            old(self).count() == 0 ==> final(self).selected() == old(self).selected()
                && final(self).offset() == old(self).offset(),
    {
        if self.item_count > 0 {
            self.selected_index = (self.selected_index + 1) % self.item_count;
            self.adjust_viewport();
        }
    }

    fn page_size(&self) -> (r: usize)
        ensures
            r == half_page(self.height()),
    {
        let h = if self.viewport_height > 1 {
            self.viewport_height - 1
        } else {
            0
        };
        let h = if h >= 1 {
            h
        } else {
            1
        };
        h / 2
    }

    /// Moves selection up by half a page, stopping at the first item.
    pub fn page_up(&mut self)
        requires
            old(self).wf(),
        ensures
            final(self).wf(),
            final(self).count() == old(self).count(),
            final(self).height() == old(self).height(),
            old(self).count() > 0 ==> final(self).selected() == sat_sub(
                old(self).selected(),
                half_page(old(self).height()),
            ) && final(self).offset() == list_offset_after(
                final(self).selected(),
                old(self).offset(),
                old(self).count(),
                old(self).height(),
            ),
            old(self).count() == 0 ==> final(self).selected() == old(self).selected()
                && final(self).offset() == old(self).offset(),
    {
        if self.item_count > 0 {
            let page_size = self.page_size();
            self.selected_index = if self.selected_index > page_size {
                self.selected_index - page_size
            } else {
                0
            };
            self.adjust_viewport();
        }
    }

    /// Moves selection down by half a page, stopping at the last item.
    pub fn page_down(&mut self)
        requires
            old(self).wf(),
        ensures
            final(self).wf(),
            final(self).count() == old(self).count(),
            final(self).height() == old(self).height(),
            old(self).count() > 0 ==> final(self).selected() == min_int(
                old(self).selected() + half_page(old(self).height()),
                old(self).count() - 1,
            ) && final(self).offset() == list_offset_after(
                final(self).selected(),
                old(self).offset(),
                old(self).count(),
                old(self).height(),
            ),
            old(self).count() == 0 ==> final(self).selected() == old(self).selected()
                && final(self).offset() == old(self).offset(),
    {
        if self.item_count > 0 {
            let page_size = self.page_size();
            let last = self.item_count - 1;
            self.selected_index = if page_size >= last - self.selected_index {
                last
            } else {
                self.selected_index + page_size
            };
            self.adjust_viewport();
        }
    }

    /// Selects the last (most recent) item in the list.
    pub fn select_last(&mut self)
        requires
            old(self).wf(),
        ensures
            final(self).wf(),
            final(self).count() == old(self).count(),
            final(self).height() == old(self).height(),
            old(self).count() > 0 ==> final(self).selected() == old(self).count() - 1
                && final(self).offset() == list_offset_after(
                final(self).selected(),
                old(self).offset(),
                old(self).count(),
                old(self).height(),
            ),
            old(self).count() == 0 ==> final(self).selected() == old(self).selected()
                && final(self).offset() == old(self).offset(),
    {
        if self.item_count > 0 {
            self.selected_index = self.item_count - 1;
            self.adjust_viewport();
        }
    }

    /// Selects the first item in the list.
    pub fn select_first(&mut self)
        requires
            old(self).wf(),
        ensures
            final(self).wf(),
            final(self).count() == old(self).count(),
            final(self).height() == old(self).height(),
            old(self).count() > 0 ==> final(self).selected() == 0 && final(self).offset()
                == list_offset_after(0, old(self).offset(), old(self).count(), old(self).height()),
            old(self).count() == 0 ==> final(self).selected() == old(self).selected()
                && final(self).offset() == old(self).offset(),
    {
        if self.item_count > 0 {
            self.selected_index = 0;
            self.adjust_viewport();
        }
    }

    /// Selects a specific index, clamped to the last item.
    pub fn select_index(&mut self, index: usize)
        requires
            old(self).wf(),
        ensures
            final(self).wf(),
            final(self).count() == old(self).count(),
            final(self).height() == old(self).height(),
            old(self).count() > 0 ==> final(self).selected() == min_int(
                index as int,
                old(self).count() - 1,
            ) && final(self).offset() == list_offset_after(
                final(self).selected(),
                old(self).offset(),
                old(self).count(),
                old(self).height(),
            ),
            old(self).count() == 0 ==> final(self).selected() == old(self).selected()
                && final(self).offset() == old(self).offset(),
    {
        if self.item_count > 0 {
            self.selected_index = if index < self.item_count - 1 {
                index
            } else {
                self.item_count - 1
            };
            self.adjust_viewport();
        }
    }

    /// Resets to initial state (selection at 0).
    pub fn reset(&mut self)
        ensures
            final(self).wf(),
            final(self).selected() == 0,
            final(self).offset() == 0,
            final(self).count() == old(self).count(),
            final(self).height() == old(self).height(),
    {
        self.selected_index = 0;
        self.viewport_offset = 0;
    }
}

} // verus!
