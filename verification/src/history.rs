//! Navigable history of previously entered values (searches, filters).
use vstd::prelude::*;

verus! {

/// An entry that a history can hold: it can be compared and duplicated by its view.
pub trait HistoryEntry: View + Sized {
    /// Whether two entries are the same entry.
    fn same_entry(&self, other: &Self) -> (r: bool)
        ensures
            r == (self@ == other@),
    ;

    /// A copy of this entry.
    fn duplicate(&self) -> (r: Self)
        ensures
            r@ == self@,
    ;
}

impl HistoryEntry for String {
    fn same_entry(&self, other: &Self) -> (r: bool) {
        *self == *other
    }

    fn duplicate(&self) -> (r: Self) {
        self.clone()
    }
}

/// History manager for storing and navigating through previous entries.
#[derive(Debug)]
pub struct History<T> {
    /// List of history entries.
    history: Vec<T>,
    /// Current position when navigating history (None when not navigating).
    index: Option<usize>,
}

/// Where navigating to an older entry leaves the position, with `len` entries.
pub open spec fn position_after_previous(p: Option<usize>, len: nat) -> Option<usize> {
    if len == 0 {
        p
    } else {
        match p {
            None => Some((len - 1) as usize),
            Some(i) => if i == 0 {
                Some(0usize)
            } else {
                Some((i - 1) as usize)
            },
        }
    }
}

/// Where navigating to a newer entry leaves the position, with `len` entries.
pub open spec fn position_after_next(p: Option<usize>, len: nat) -> Option<usize> {
    match p {
        None => None,
        Some(i) => if i + 1 >= len {
            None
        } else {
            Some((i + 1) as usize)
        },
    }
}

/// The entry that a step through the history lands on: going back (`back`) from no
/// position gives the newest entry and otherwise the one before, stopping at the oldest;
/// going forward gives the one after, and none past the newest.
pub open spec fn record_after_step<V>(h: Seq<V>, p: Option<usize>, back: bool) -> Option<V> {
    if back {
        if h.len() == 0 {
            None
        } else {
            match p {
                None => Some(h.last()),
                Some(i) => if i == 0 {
                    None
                } else {
                    Some(h[i - 1])
                },
            }
        }
    } else {
        match p {
            None => None,
            Some(i) => if i + 1 >= h.len() {
                None
            } else {
                Some(h[i + 1])
            },
        }
    }
}

/// Going to an older entry and back to a newer one returns to where navigation was,
/// unless it was already at the oldest entry.
pub proof fn lemma_previous_then_next(p: Option<usize>, len: nat)
    requires
        0 < len <= usize::MAX,
        p matches Some(i) ==> 0 < i < len,
    ensures
        position_after_next(position_after_previous(p, len), len) == p,
{
}

impl<T: HistoryEntry> View for History<T> {
    type V = Seq<T::V>;

    closed spec fn view(&self) -> Seq<T::V> {
        self.history@.map_values(|e: T| e@)
    }
}

impl<T: HistoryEntry> History<T> {
    /// The navigation position, `None` when not navigating.
    pub closed spec fn position(&self) -> Option<usize> {
        self.index
    }

    /// The navigation position is within bounds.
    pub closed spec fn wf(&self) -> bool {
        self.index matches Some(i) ==> i < self.history.len()
    }

    /// Creates a new empty history.
    pub fn new() -> (r: Self)
        ensures
            r.wf(),
            r@ == Seq::<T::V>::empty(),
            r.position() is None,
    {
        let r = Self { history: Vec::new(), index: None };
        proof {
            assert(r@ =~= Seq::<T::V>::empty());
        }
        r
    }

    fn contains_entry(&self, entry: &T) -> (r: bool)
        ensures
            r == self@.contains(entry@),
    {
        let mut i: usize = 0;
        while i < self.history.len()
            invariant
                i <= self.history@.len(),
                forall|k: int| 0 <= k < i ==> self.history@[k]@ != entry@,
            decreases self.history@.len() - i,
        {
            if self.history[i].same_entry(entry) {
                proof {
                    assert(self@[i as int] == entry@);
                }
                return true;
            }
            i += 1;
        }
        proof {
            if self@.contains(entry@) {
                let k = choose|k: int| 0 <= k < self@.len() && self@[k] == entry@;
                assert(self.history@[k]@ == entry@);
            }
        }
        false
    }

    /// Adds an entry to the history if the entry doesn't already exist,
    /// and leaves navigation mode.
    pub fn add(&mut self, entry: T)
        requires
            old(self).wf(),
        ensures
            final(self).wf(),
            old(self)@.contains(entry@) ==> final(self)@ == old(self)@,
            !old(self)@.contains(entry@) ==> final(self)@ == old(self)@.push(entry@),
            old(self)@.no_duplicates() ==> final(self)@.no_duplicates(),
            final(self)@.contains(entry@),
            final(self).position() is None,
    {
        if !self.contains_entry(&entry) {
            let ghost e = entry@;
            self.history.push(entry);
            proof {
                assert(self@ =~= old(self)@.push(e));
                assert(self@[self@.len() - 1] == e);
                if old(self)@.no_duplicates() {
                assert forall|a: int, b: int| 0 <= a < b < self@.len() implies self@[a] != self@[b] by {
                    if b == self@.len() - 1 {
                        assert(old(self)@[a] == self@[a]);
                    } else {
                        assert(old(self)@[a] == self@[a] && old(self)@[b] == self@[b]);
                    }
                }
                }
            }
        }
        self.index = None;
    }

    /// Navigates to the previous (older) entry in history.
    ///
    /// Starts at the most recent entry; returns `None` at the oldest one.
    pub fn previous_record(&mut self) -> (r: Option<&T>)
        requires
            old(self).wf(),
        ensures
            final(self).wf(),
            final(self)@ == old(self)@,
            final(self).position() == position_after_previous(old(self).position(), old(self)@.len()),
            old(self)@.len() == 0 ==> r is None && final(self).position() == old(self).position(),
            old(self)@.len() > 0 ==> match old(self).position() {
                None => {
                    &&& final(self).position() == Some((old(self)@.len() - 1) as usize)
                    &&& r matches Some(e) && e@ == old(self)@[old(self)@.len() - 1]
                },
                Some(i) => if i == 0 {
                    r is None && final(self).position() == Some(0usize)
                } else {
                    &&& final(self).position() == Some((i - 1) as usize)
                    &&& r matches Some(e) && e@ == old(self)@[i - 1]
                },
            },
    {
        if self.history.len() == 0 {
            return None;
        }
        match self.index {
            None => {
                let last = self.history.len() - 1;
                self.index = Some(last);
                Some(&self.history[last])
            },
            Some(i) => {
                if i == 0 {
                    None
                } else {
                    self.index = Some(i - 1);
                    Some(&self.history[i - 1])
                }
            },
        }
    }

    /// Navigates to the next (newer) entry in history.
    ///
    /// At the newest entry it leaves navigation mode and returns `None`.
    pub fn next_record(&mut self) -> (r: Option<&T>)
        requires
            old(self).wf(),
        ensures
            final(self).wf(),
            final(self)@ == old(self)@,
            final(self).position() == position_after_next(old(self).position(), old(self)@.len()),
            match old(self).position() {
                None => r is None && final(self).position() is None,
                Some(i) => if i + 1 >= old(self)@.len() {
                    r is None && final(self).position() is None
                } else {
                    &&& final(self).position() == Some((i + 1) as usize)
                    &&& r matches Some(e) && e@ == old(self)@[i + 1]
                },
            },
    {
        match self.index {
            None => None,
            Some(i) => {
                if i + 1 >= self.history.len() {
                    self.index = None;
                    None
                } else {
                    self.index = Some(i + 1);
                    Some(&self.history[i + 1])
                }
            },
        }
    }

    /// Resets the navigation index to None (exits history navigation mode).
    pub fn reset(&mut self)
        requires
            old(self).wf(),
        ensures
            final(self).wf(),
            final(self)@ == old(self)@,
            final(self).position() is None,
    {
        self.index = None;
    }

    /// Returns a slice of all history entries.
    pub fn get_history(&self) -> (r: &[T])
        ensures
            r@.map_values(|e: T| e@) == self@,
    {
        self.history.as_slice()
    }

    /// Restores history from a vector of entries and leaves navigation mode.
    pub fn restore(&mut self, history: Vec<T>)
        ensures
            final(self).wf(),
            final(self)@ == history@.map_values(|e: T| e@),
            final(self).position() is None,
    {
        self.history = history;
        self.index = None;
    }
}

} // verus!
