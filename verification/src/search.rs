//! Text search over lines and navigation through the matches.
use vstd::prelude::*;
use crate::history::{position_after_next, position_after_previous, record_after_step, History};
use crate::utils::{text_contains, text_matches};

verus! {

/// The positions, in order, of the lines that match the pattern.
pub open spec fn matching_positions(lines: Seq<Seq<char>>, pattern: Seq<char>, case_sensitive: bool) -> Seq<usize>
    decreases lines.len(),
{
    if lines.len() == 0 {
        Seq::empty()
    } else {
        let rest = matching_positions(lines.drop_last(), pattern, case_sensitive);
        if text_matches(lines.last(), pattern, case_sensitive) {
            rest.push((lines.len() - 1) as usize)
        } else {
            rest
        }
    }
}

/// The number of lines that match the pattern.
pub open spec fn match_count(lines: Seq<Seq<char>>, pattern: Seq<char>, case_sensitive: bool) -> nat {
    matching_positions(lines, pattern, case_sensitive).len()
}

/// The texts of a slice of string slices.
pub open spec fn texts(lines: Seq<&str>) -> Seq<Seq<char>> {
    lines.map_values(|l: &str| l@)
}

/// Manages search pattern matching and navigation through search results.
#[derive(Debug)]
pub struct Search {
    /// Active search pattern (set when user submits search).
    active_pattern: Option<String>,
    /// Whether search is case-sensitive.
    case_sensitive: bool,
    /// Index of the current match in match_indices.
    current_match_index: usize,
    /// Line indices where matches were found (in visible lines).
    match_indices: Vec<usize>,
    /// Total number of matches including filtered-out lines.
    total_match_count: usize,
    /// Search query history.
    pub history: History<String>,
}

impl Default for Search {
    fn default() -> (r: Self)
        ensures
            r.wf(),
            r.pattern() is None,
            !r.case_sensitive(),
            r.current() == 0,
            r.matches() == Seq::<usize>::empty(),
            r.total() == 0,
            r.hist()@ == Seq::<Seq<char>>::empty(),
            r.hist().wf(),
    {
        Search {
            active_pattern: None,
            case_sensitive: false,
            current_match_index: 0,
            match_indices: Vec::new(),
            total_match_count: 0,
            history: History::new(),
        }
    }
}

impl Search {
    /// The submitted search pattern, if any.
    pub closed spec fn pattern(&self) -> Option<Seq<char>> {
        match self.active_pattern {
            Some(p) => Some(p@),
            None => None,
        }
    }

    /// Whether matching is case-sensitive.
    pub closed spec fn case_sensitive(&self) -> bool {
        self.case_sensitive
    }

    /// The position of the current match among the matches.
    pub closed spec fn current(&self) -> int {
        self.current_match_index as int
    }

    /// The positions of the matching lines.
    pub closed spec fn matches(&self) -> Seq<usize> {
        self.match_indices@
    }

    /// The number of matches including filtered-out lines.
    pub closed spec fn total(&self) -> int {
        self.total_match_count as int
    }

    /// The current match number and the total are never negative.
    pub proof fn lemma_counts_nonneg(&self)
        ensures
            self.current() >= 0,
            self.total() >= 0,
    {
    }

    /// The search history.
    pub closed spec fn hist(&self) -> History<String> {
        self.history
    }

    /// The search history.
    pub fn history(&self) -> (r: &History<String>)
        ensures
            *r == self.hist(),
    {
        &self.history
    }

    /// The current match is a match, or 0.
    pub open spec fn wf(&self) -> bool {
        self.current() == 0 || self.current() < self.matches().len()
    }

    /// Applies a search pattern: records it as active and in the history and finds the
    /// matching lines. Returns the number of matches; an empty pattern changes nothing.
    pub fn apply_pattern(&mut self, pattern: &str, lines: &[&str]) -> (r: Option<usize>)
        requires
            old(self).wf(),
            old(self).hist().wf(),
        ensures
            final(self).wf(),
            final(self).hist().wf(),
            final(self).case_sensitive() == old(self).case_sensitive(),
            final(self).total() == old(self).total(),
            pattern@.len() == 0 ==> r is None && *final(self) == *old(self),
            pattern@.len() > 0 ==> {
                &&& final(self).pattern() == Some(pattern@)
                &&& final(self).matches() == matching_positions(texts(lines@), pattern@, old(self).case_sensitive())
                &&& final(self).current() == 0
                &&& r == Some(final(self).matches().len() as usize)
                &&& final(self).hist()@ == (if old(self).hist()@.contains(pattern@) {
                    old(self).hist()@
                } else {
                    old(self).hist()@.push(pattern@)
                })
                &&& final(self).hist().position() is None
            },
    {
        if pattern.is_empty() {
            return None;
        }
        self.active_pattern = Some(pattern.to_owned());
        self.history.add(pattern.to_owned());
        self.update_matches(pattern, lines);
        Some(self.match_indices.len())
    }

    /// Clears all matches and the active pattern.
    pub fn clear_matches(&mut self)
        ensures
            final(self).wf(),
            final(self).pattern() is None,
            final(self).matches() == Seq::<usize>::empty(),
            final(self).current() == 0,
            final(self).total() == 0,
            final(self).case_sensitive() == old(self).case_sensitive(),
            final(self).hist() == old(self).hist(),
    {
        self.active_pattern = None;
        self.match_indices.clear();
        self.current_match_index = 0;
        self.total_match_count = 0;
    }

    /// Returns the active search pattern (submitted search).
    pub fn get_active_pattern(&self) -> (r: Option<&str>)
        ensures
            self.pattern() is None ==> r is None,
            self.pattern() matches Some(p) ==> (r matches Some(s) && s@ == p),
    {
        match &self.active_pattern {
            Some(p) => Some(p.as_str()),
            None => None,
        }
    }

    /// Returns whether search is case-sensitive.
    pub fn is_case_sensitive(&self) -> (r: bool)
        ensures
            r == self.case_sensitive(),
    {
        self.case_sensitive
    }

    /// Toggles case sensitivity.
    pub fn toggle_case_sensitivity(&mut self)
        ensures
            final(self).pattern() == old(self).pattern(),
            final(self).matches() == old(self).matches(),
            final(self).current() == old(self).current(),
            final(self).total() == old(self).total(),
            final(self).hist() == old(self).hist(),
            final(self).case_sensitive() == !old(self).case_sensitive(),
    {
        self.case_sensitive = !self.case_sensitive;
    }

    /// Replaces the search history with the given entries, oldest first.
    pub fn restore_history(&mut self, entries: Vec<String>)
        ensures
            final(self).hist().wf(),
            final(self).hist()@ == entries@.map_values(|e: String| e@),
            final(self).hist().position() is None,
            final(self).pattern() == old(self).pattern(),
            final(self).matches() == old(self).matches(),
            final(self).current() == old(self).current(),
            final(self).total() == old(self).total(),
            final(self).case_sensitive() == old(self).case_sensitive(),
    {
        self.history.restore(entries);
    }

    /// Steps back (`back`) or forward through the search history and returns the entry
    /// it lands on, if any.
    pub fn history_record(&mut self, back: bool) -> (r: Option<String>)
        requires
            old(self).hist().wf(),
        ensures
            final(self).hist().wf(),
            final(self).hist()@ == old(self).hist()@,
            final(self).hist().position() == (if back {
                position_after_previous(old(self).hist().position(), old(self).hist()@.len())
            } else {
                position_after_next(old(self).hist().position(), old(self).hist()@.len())
            }),
            match r {
                Some(e) => record_after_step(old(self).hist()@, old(self).hist().position(), back) == Some(e@),
                None => record_after_step(old(self).hist()@, old(self).hist().position(), back) is None,
            },
            final(self).pattern() == old(self).pattern(),
            final(self).matches() == old(self).matches(),
            final(self).current() == old(self).current(),
            final(self).total() == old(self).total(),
            final(self).case_sensitive() == old(self).case_sensitive(),
    {
        let r = if back {
            self.history.previous_record()
        } else {
            self.history.next_record()
        };
        match r {
            Some(e) => Some(e.clone()),
            None => None,
        }
    }

    /// Leaves browsing of the search history.
    pub fn reset_history(&mut self)
        requires
            old(self).hist().wf(),
        ensures
            final(self).hist().wf(),
            final(self).hist()@ == old(self).hist()@,
            final(self).hist().position() is None,
            final(self).pattern() == old(self).pattern(),
            final(self).matches() == old(self).matches(),
            final(self).current() == old(self).current(),
            final(self).total() == old(self).total(),
            final(self).case_sensitive() == old(self).case_sensitive(),
    {
        self.history.reset();
    }

    /// Resets case sensitivity to false.
    pub fn reset_case_sensitivity(&mut self)
        ensures
            final(self).pattern() == old(self).pattern(),
            final(self).matches() == old(self).matches(),
            final(self).current() == old(self).current(),
            final(self).total() == old(self).total(),
            final(self).hist() == old(self).hist(),
            !final(self).case_sensitive(),
    {
        self.case_sensitive = false;
    }

    /// Recomputes the matching line positions for a pattern without touching the
    /// history; the current match goes back to the first one.
    pub fn update_matches(&mut self, pattern: &str, lines: &[&str])
        ensures
            final(self).wf(),
            final(self).current() == 0,
            pattern@.len() == 0 ==> final(self).matches() == Seq::<usize>::empty(),
            pattern@.len() > 0 ==> final(self).matches() == matching_positions(texts(lines@), pattern@, old(self).case_sensitive()),
            final(self).pattern() == old(self).pattern(),
            final(self).case_sensitive() == old(self).case_sensitive(),
            final(self).total() == old(self).total(),
            final(self).hist() == old(self).hist(),
    {
        self.match_indices.clear();
        self.current_match_index = 0;
        if pattern.is_empty() {
            return;
        }
        let case_sensitive = self.case_sensitive;
        let mut i: usize = 0;
        while i < lines.len()
            invariant
                i <= lines@.len(),
                case_sensitive == old(self).case_sensitive(),
                self.match_indices@ == matching_positions(texts(lines@.subrange(0, i as int)), pattern@, case_sensitive),
                self.current_match_index == 0,
                self.active_pattern == old(self).active_pattern,
                self.case_sensitive == old(self).case_sensitive,
                self.total_match_count == old(self).total_match_count,
                self.history == old(self).history,
            decreases lines@.len() - i,
        {
            proof {
                assert(texts(lines@.subrange(0, i + 1)).drop_last() =~= texts(lines@.subrange(0, i as int)));
                assert(texts(lines@.subrange(0, i + 1)).last() == lines@[i as int]@);
            }
            if text_contains(lines[i], pattern, case_sensitive) {
                self.match_indices.push(i);
            }
            i += 1;
        }
        proof {
            assert(lines@.subrange(0, lines@.len() as int) =~= lines@);
        }
    }

    /// Appends a line position to the matches if the line matches the active pattern.
    pub fn append_line(&mut self, line_index: usize, line_content: &str)
        requires
            old(self).wf(),
        ensures
            final(self).wf(),
            (old(self).pattern() matches Some(p) && text_matches(line_content@, p, old(self).case_sensitive()))
                ==> final(self).matches() == old(self).matches().push(line_index),
            !(old(self).pattern() matches Some(p) && text_matches(line_content@, p, old(self).case_sensitive()))
                ==> final(self).matches() == old(self).matches(),
            final(self).current() == old(self).current(),
            final(self).pattern() == old(self).pattern(),
            final(self).case_sensitive() == old(self).case_sensitive(),
            final(self).total() == old(self).total(),
            final(self).hist() == old(self).hist(),
    {
        match &self.active_pattern {
            Some(pattern) => {
                if text_contains(line_content, pattern.as_str(), self.case_sensitive) {
                    self.match_indices.push(line_index);
                }
            },
            None => {},
        }
    }

    /// Finds the first match after the current line, wrapping to the first match.
    /// Returns `None` if there are no matches.
    pub fn next_match(&mut self, current_line: usize) -> (r: Option<usize>)
        requires
            old(self).wf(),
        ensures
            final(self).wf(),
            final(self).matches() == old(self).matches(),
            final(self).pattern() == old(self).pattern(),
            final(self).case_sensitive() == old(self).case_sensitive(),
            final(self).total() == old(self).total(),
            final(self).hist() == old(self).hist(),
            old(self).matches().len() == 0 ==> r is None && final(self).current() == old(self).current(),
            old(self).matches().len() > 0 ==> {
                let m = old(self).matches();
                let k = final(self).current();
                &&& r == Some(m[k])
                &&& (exists|j: int| 0 <= j < m.len() && m[j] > current_line) ==> (m[k] > current_line
                    && forall|j: int| 0 <= j < k ==> m[j] <= current_line)
                &&& !(exists|j: int| 0 <= j < m.len() && m[j] > current_line) ==> k == 0
            },
    {
        if self.match_indices.len() == 0 {
            return None;
        }
        let mut k: usize = 0;
        while k < self.match_indices.len()
            invariant
                *self == *old(self),
                self.match_indices@.len() > 0,
                k <= self.match_indices@.len(),
                forall|j: int| 0 <= j < k ==> self.match_indices@[j] <= current_line,
            decreases self.match_indices@.len() - k,
        {
            if self.match_indices[k] > current_line {
                self.current_match_index = k;
                return Some(self.match_indices[k]);
            }
            k += 1;
        }
        self.current_match_index = 0;
        Some(self.match_indices[0])
    }

    /// Finds the first match at or after the current line, wrapping to the first match.
    /// Returns `None` if there are no matches.
    pub fn first_match_from(&mut self, current_line: usize) -> (r: Option<usize>)
        requires
            old(self).wf(),
        ensures
            final(self).wf(),
            final(self).matches() == old(self).matches(),
            final(self).pattern() == old(self).pattern(),
            final(self).case_sensitive() == old(self).case_sensitive(),
            final(self).total() == old(self).total(),
            final(self).hist() == old(self).hist(),
            old(self).matches().len() == 0 ==> r is None && final(self).current() == old(self).current(),
            old(self).matches().len() > 0 ==> {
                let m = old(self).matches();
                let k = final(self).current();
                &&& r == Some(m[k])
                &&& (exists|j: int| 0 <= j < m.len() && m[j] >= current_line) ==> (m[k] >= current_line
                    && forall|j: int| 0 <= j < k ==> m[j] < current_line)
                &&& !(exists|j: int| 0 <= j < m.len() && m[j] >= current_line) ==> k == 0
            },
    {
        if self.match_indices.len() == 0 {
            return None;
        }
        let mut k: usize = 0;
        while k < self.match_indices.len()
            invariant
                *self == *old(self),
                self.match_indices@.len() > 0,
                k <= self.match_indices@.len(),
                forall|j: int| 0 <= j < k ==> self.match_indices@[j] < current_line,
            decreases self.match_indices@.len() - k,
        {
            if self.match_indices[k] >= current_line {
                self.current_match_index = k;
                return Some(self.match_indices[k]);
            }
            k += 1;
        }
        self.current_match_index = 0;
        Some(self.match_indices[0])
    }

    /// Finds the last match before the current line, wrapping to the last match.
    /// Returns `None` if there are no matches.
    pub fn previous_match(&mut self, current_line: usize) -> (r: Option<usize>)
        requires
            old(self).wf(),
        ensures
            final(self).wf(),
            final(self).matches() == old(self).matches(),
            final(self).pattern() == old(self).pattern(),
            final(self).case_sensitive() == old(self).case_sensitive(),
            final(self).total() == old(self).total(),
            final(self).hist() == old(self).hist(),
            old(self).matches().len() == 0 ==> r is None && final(self).current() == old(self).current(),
            old(self).matches().len() > 0 ==> {
                let m = old(self).matches();
                let k = final(self).current();
                &&& r == Some(m[k])
                &&& (exists|j: int| 0 <= j < m.len() && m[j] < current_line) ==> (m[k] < current_line
                    && forall|j: int| k < j < m.len() ==> m[j] >= current_line)
                &&& !(exists|j: int| 0 <= j < m.len() && m[j] < current_line) ==> k == m.len() - 1
            },
    {
        let n = self.match_indices.len();
        if n == 0 {
            return None;
        }
        let mut k: usize = n;
        while k > 0
            invariant
                *self == *old(self),
                k <= n,
                n == self.match_indices@.len(),
                forall|j: int| k <= j < n ==> self.match_indices@[j] >= current_line,
            decreases k,
        {
            if self.match_indices[k - 1] < current_line {
                self.current_match_index = k - 1;
                return Some(self.match_indices[k - 1]);
            }
            k -= 1;
        }
        self.current_match_index = n - 1;
        Some(self.match_indices[n - 1])
    }

    /// Returns (current match number, visible matches, total matches); the current match
    /// number and visible matches are 0 when there are no matches.
    pub fn get_match_info(&self) -> (r: (usize, usize, usize))
        requires
            self.wf(),
        ensures
            self.matches().len() == 0 ==> r == (0usize, 0usize, self.total() as usize),
            self.matches().len() > 0 ==> r == ((self.current() + 1) as usize, self.matches().len() as usize, self.total() as usize),
    {
        if self.match_indices.len() == 0 {
            (0, 0, self.total_match_count)
        } else {
            (self.current_match_index + 1, self.match_indices.len(), self.total_match_count)
        }
    }

    /// Sets the total match count (including filtered-out lines).
    pub fn set_total_match_count(&mut self, count: usize)
        ensures
            final(self).pattern() == old(self).pattern(),
            final(self).matches() == old(self).matches(),
            final(self).current() == old(self).current(),
            final(self).case_sensitive() == old(self).case_sensitive(),
            final(self).hist() == old(self).hist(),
            final(self).total() == count,
    {
        self.total_match_count = count;
    }

    /// Counts the lines that match a pattern; an empty pattern counts nothing.
    pub fn count_matches(&self, pattern: &str, lines: &[&str]) -> (r: usize)
        ensures
            pattern@.len() == 0 ==> r == 0,
            pattern@.len() > 0 ==> r == match_count(texts(lines@), pattern@, self.case_sensitive()),
    {
        if pattern.is_empty() {
            return 0;
        }
        let mut count: usize = 0;
        let mut i: usize = 0;
        while i < lines.len()
            invariant
                i <= lines@.len(),
                count == match_count(texts(lines@.subrange(0, i as int)), pattern@, self.case_sensitive()),
                count <= i,
            decreases lines@.len() - i,
        {
            proof {
                assert(texts(lines@.subrange(0, i + 1)).drop_last() =~= texts(lines@.subrange(0, i as int)));
                assert(texts(lines@.subrange(0, i + 1)).last() == lines@[i as int]@);
            }
            if text_contains(lines[i], pattern, self.case_sensitive) {
                count += 1;
            }
            i += 1;
        }
        proof {
            assert(lines@.subrange(0, lines@.len() as int) =~= lines@);
        }
        count
    }
}

} // verus!
