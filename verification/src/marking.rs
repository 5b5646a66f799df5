//! Marks on log lines, optionally named, kept ordered by line index.
use vstd::prelude::*;
use std::collections::HashSet;
use crate::log::LogLine;
use crate::resolver::{Tag, TagRule, VisibilityRule};
use crate::utils::{contains_ignore_case, contains_ignore_case_spec, utf8};

verus! {

broadcast use vstd::std_specs::hash::group_hash_axioms;

/// A log line mark with an optional name/tag.
#[derive(Debug, Clone)]
pub struct Mark {
    /// Optional name/tag for the mark.
    pub name: Option<String>,
    /// The original log line index.
    pub line_index: usize,
}

/// The name of a mark as plain text.
pub open spec fn name_view(name: Option<String>) -> Option<Seq<char>> {
    match name {
        Some(s) => Some(s@),
        None => None,
    }
}

impl Mark {
    /// Creates a new mark without a name.
    pub fn new(line_index: usize) -> (r: Self)
        ensures
            r.line_index == line_index,
            r.name is None,
    {
        Self { name: None, line_index }
    }

    /// Creates a new mark with a name.
    pub fn new_with_name(line_index: usize, name: &str) -> (r: Self)
        ensures
            r.line_index == line_index,
            name_view(r.name) == Some(name@),
    {
        Self { name: Some(name.to_owned()), line_index }
    }

    /// Sets or updates the mark's name.
    pub fn set_name(&mut self, name: &str)
        ensures
            final(self).line_index == old(self).line_index,
            name_view(final(self).name) == Some(name@),
    {
        self.name = Some(name.to_owned());
    }
}

/// Line indices strictly increase along the sequence.
pub open spec fn sorted_marks(s: Seq<Mark>) -> bool {
    forall|i: int, j: int| 0 <= i < j < s.len() ==> (#[trigger] s[i]).line_index < (#[trigger] s[j]).line_index
}

/// Some mark is on the line.
pub open spec fn has_mark(s: Seq<Mark>, idx: usize) -> bool {
    exists|k: int| 0 <= k < s.len() && (#[trigger] s[k]).line_index == idx
}

/// The marks as a map from line index to name.
pub open spec fn marks_map(s: Seq<Mark>) -> Map<usize, Option<Seq<char>>> {
    Map::new(
        |i: usize| has_mark(s, i),
        |i: usize| name_view(s[choose|k: int| 0 <= k < s.len() && (#[trigger] s[k]).line_index == i].name),
    )
}

proof fn lemma_map_at(s: Seq<Mark>, k: int)
    requires
        sorted_marks(s),
        0 <= k < s.len(),
    ensures
        marks_map(s).contains_key(s[k].line_index),
        marks_map(s)[s[k].line_index] == name_view(s[k].name),
{
    let i = s[k].line_index;
    assert(has_mark(s, i));
    let c = choose|c: int| 0 <= c < s.len() && (#[trigger] s[c]).line_index == i;
    if c != k {
        if c < k {
            assert(s[c].line_index < s[k].line_index);
        } else {
            assert(s[k].line_index < s[c].line_index);
        }
    }
}

proof fn lemma_map_ext(s: Seq<Mark>, m: Map<usize, Option<Seq<char>>>)
    requires
        sorted_marks(s),
        forall|i: usize| #[trigger] m.contains_key(i) <==> has_mark(s, i),
        forall|k: int| 0 <= k < s.len() ==> m[(#[trigger] s[k]).line_index] == name_view(s[k].name),
    ensures
        marks_map(s) == m,
{
    assert forall|i: usize| #[trigger] marks_map(s).contains_key(i) implies marks_map(s)[i] == m[i] by {
        let k = choose|k: int| 0 <= k < s.len() && (#[trigger] s[k]).line_index == i;
        lemma_map_at(s, k);
    }
    assert(marks_map(s) =~= m);
}

proof fn lemma_insert(s: Seq<Mark>, p: int, m: Mark)
    requires
        sorted_marks(s),
        0 <= p <= s.len(),
        forall|k: int| 0 <= k < p ==> (#[trigger] s[k]).line_index < m.line_index,
        forall|k: int| p <= k < s.len() ==> (#[trigger] s[k]).line_index > m.line_index,
    ensures
        sorted_marks(s.insert(p, m)),
        marks_map(s.insert(p, m)) == marks_map(s).insert(m.line_index, name_view(m.name)),
{
    let t = s.insert(p, m);
    assert forall|i: int, j: int| 0 <= i < j < t.len() implies (#[trigger] t[i]).line_index < (#[trigger] t[j]).line_index by {
        if j < p {
            assert(t[i] == s[i] && t[j] == s[j]);
        } else if j == p {
            assert(t[i] == s[i]);
        } else if i < p {
            assert(t[i] == s[i] && t[j] == s[j - 1]);
        } else if i == p {
            assert(t[j] == s[j - 1]);
        } else {
            assert(t[i] == s[i - 1] && t[j] == s[j - 1]);
        }
    }
    let target = marks_map(s).insert(m.line_index, name_view(m.name));
    assert forall|i: usize| #[trigger] target.contains_key(i) <==> has_mark(t, i) by {
        if has_mark(s, i) {
            let k = choose|k: int| 0 <= k < s.len() && (#[trigger] s[k]).line_index == i;
            if k < p {
                assert(t[k] == s[k]);
            } else {
                assert(t[k + 1] == s[k]);
            }
        }
        if i == m.line_index {
            assert(t[p] == m);
        }
        if has_mark(t, i) {
            let k = choose|k: int| 0 <= k < t.len() && (#[trigger] t[k]).line_index == i;
            if k < p {
                assert(t[k] == s[k]);
            } else if k > p {
                assert(t[k] == s[k - 1]);
            }
        }
    }
    assert forall|k: int| 0 <= k < t.len() implies target[(#[trigger] t[k]).line_index] == name_view(t[k].name) by {
        if k < p {
            assert(t[k] == s[k]);
            lemma_map_at(s, k);
        } else if k > p {
            assert(t[k] == s[k - 1]);
            lemma_map_at(s, k - 1);
        }
    }
    lemma_map_ext(t, target);
}

proof fn lemma_remove(s: Seq<Mark>, p: int)
    requires
        sorted_marks(s),
        0 <= p < s.len(),
    ensures
        sorted_marks(s.remove(p)),
        marks_map(s.remove(p)) == marks_map(s).remove(s[p].line_index),
{
    let t = s.remove(p);
    let idx = s[p].line_index;
    assert forall|i: int, j: int| 0 <= i < j < t.len() implies (#[trigger] t[i]).line_index < (#[trigger] t[j]).line_index by {
        if j < p {
            assert(t[i] == s[i] && t[j] == s[j]);
        } else if i < p {
            assert(t[i] == s[i] && t[j] == s[j + 1]);
        } else {
            assert(t[i] == s[i + 1] && t[j] == s[j + 1]);
        }
    }
    let target = marks_map(s).remove(idx);
    assert forall|i: usize| #[trigger] target.contains_key(i) <==> has_mark(t, i) by {
        if has_mark(s, i) && i != idx {
            let k = choose|k: int| 0 <= k < s.len() && (#[trigger] s[k]).line_index == i;
            if k < p {
                assert(t[k] == s[k]);
            } else {
                assert(k != p);
                assert(t[k - 1] == s[k]);
            }
        }
        if has_mark(t, i) {
            let k = choose|k: int| 0 <= k < t.len() && (#[trigger] t[k]).line_index == i;
            if k < p {
                assert(t[k] == s[k]);
                assert(s[k].line_index < s[p].line_index);
            } else {
                assert(t[k] == s[k + 1]);
                assert(s[p].line_index < s[k + 1].line_index);
            }
        }
    }
    assert forall|k: int| 0 <= k < t.len() implies target[(#[trigger] t[k]).line_index] == name_view(t[k].name) by {
        if k < p {
            assert(t[k] == s[k]);
            lemma_map_at(s, k);
        } else {
            assert(t[k] == s[k + 1]);
            lemma_map_at(s, k + 1);
        }
    }
    lemma_map_ext(t, target);
}


proof fn lemma_len(s: Seq<Mark>)
    requires
        sorted_marks(s),
    ensures
        marks_map(s).dom().finite(),
        marks_map(s).len() == s.len(),
    decreases s.len(),
{
    if s.len() == 0 {
        assert(marks_map(s).dom() =~= Set::<usize>::empty());
    } else {
        let t = s.drop_last();
        let m = s.last();
        assert(sorted_marks(t)) by {
            assert forall|i: int, j: int| 0 <= i < j < t.len() implies (#[trigger] t[i]).line_index < (#[trigger] t[j]).line_index by {
                assert(t[i] == s[i] && t[j] == s[j]);
            }
        }
        lemma_len(t);
        assert forall|k: int| 0 <= k < t.len() implies (#[trigger] t[k]).line_index < m.line_index by {
            assert(t[k] == s[k]);
        }
        lemma_insert(t, t.len() as int, m);
        assert(t.insert(t.len() as int, m) =~= s);
        if marks_map(t).contains_key(m.line_index) {
            let k = choose|k: int| 0 <= k < t.len() && (#[trigger] t[k]).line_index == m.line_index;
        }
    }
}

/// Manages marked log lines.
#[derive(Debug)]
pub struct Marking {
    /// All marks sorted by line index.
    marks: Vec<Mark>,
}

/// The marks with the mark on a line toggled: removed when there is one, else added
/// without a name.
pub open spec fn toggled_mark(m: Map<usize, Option<Seq<char>>>, i: usize) -> Map<usize, Option<Seq<char>>> {
    if m.contains_key(i) {
        m.remove(i)
    } else {
        m.insert(i, None)
    }
}

/// Toggling the mark of a line twice leaves the marks as they were, when the line had no
/// mark or a mark without a name (a name is not kept).
pub proof fn lemma_toggle_mark_twice(m: Map<usize, Option<Seq<char>>>, i: usize)
    requires
        !m.contains_key(i) || m[i] is None,
    ensures
        toggled_mark(toggled_mark(m, i), i) == m,
{
    assert(toggled_mark(toggled_mark(m, i), i) =~= m);
}

impl View for Marking {
    type V = Map<usize, Option<Seq<char>>>;

    closed spec fn view(&self) -> Map<usize, Option<Seq<char>>> {
        marks_map(self.marks@)
    }
}

impl Default for Marking {
    fn default() -> (r: Self)
        ensures
            r.wf(),
            r@ == Map::<usize, Option<Seq<char>>>::empty(),
    {
        let r = Marking { marks: Vec::new() };
        proof {
            assert(r@ =~= Map::<usize, Option<Seq<char>>>::empty());
        }
        r
    }
}

impl Marking {
    /// Marks are ordered by strictly increasing line index.
    pub closed spec fn wf(&self) -> bool {
        sorted_marks(self.marks@)
    }

    /// The marks in line order.
    pub closed spec fn ordered(&self) -> Seq<Mark> {
        self.marks@
    }

    /// The ordered marks list exactly the marked lines with their names.
    pub proof fn lemma_ordered(&self)
        requires
            self.wf(),
        ensures
            sorted_marks(self.ordered()),
            forall|i: usize| #[trigger] self@.contains_key(i) <==> has_mark(self.ordered(), i),
            forall|k: int|
                0 <= k < self.ordered().len() ==> self@[(#[trigger] self.ordered()[k]).line_index]
                    == name_view(self.ordered()[k].name),
    {
        assert forall|k: int| 0 <= k < self.ordered().len() implies self@[(#[trigger] self.ordered()[k]).line_index]
            == name_view(self.ordered()[k].name) by {
            lemma_map_at(self.marks@, k);
        }
    }

    /// Binary search by line index: `Ok(position)` of the mark on the line, or
    /// `Err(position)` where such a mark would be inserted.
    fn search(&self, line_index: usize) -> (r: Result<usize, usize>)
        requires
            self.wf(),
        ensures
            r matches Ok(p) ==> p < self.marks@.len() && self.marks@[p as int].line_index == line_index,
            r matches Err(p) ==> p <= self.marks@.len() && (forall|k: int|
                0 <= k < p ==> (#[trigger] self.marks@[k]).line_index < line_index) && (forall|k: int|
                p <= k < self.marks@.len() ==> (#[trigger] self.marks@[k]).line_index > line_index),
    {
        let mut lo: usize = 0;
        let mut hi: usize = self.marks.len();
        while lo < hi
            invariant
                self.wf(),
                lo <= hi <= self.marks@.len(),
                forall|k: int| 0 <= k < lo ==> (#[trigger] self.marks@[k]).line_index < line_index,
                forall|k: int| hi <= k < self.marks@.len() ==> (#[trigger] self.marks@[k]).line_index > line_index,
            decreases hi - lo,
        {
            let mid = lo + (hi - lo) / 2;
            let v = self.marks[mid].line_index;
            if v == line_index {
                return Ok(mid);
            } else if v < line_index {
                proof {
                    assert forall|k: int| 0 <= k < mid + 1 implies (#[trigger] self.marks@[k]).line_index < line_index by {
                        if k < mid {
                            assert(self.marks@[k].line_index < self.marks@[mid as int].line_index);
                        }
                    }
                }
                lo = mid + 1;
            } else {
                proof {
                    assert forall|k: int| mid <= k < self.marks@.len() implies (#[trigger] self.marks@[k]).line_index > line_index by {
                        if k > mid {
                            assert(self.marks@[mid as int].line_index < self.marks@[k].line_index);
                        }
                    }
                }
                hi = mid;
            }
        }
        Err(lo)
    }

    /// Toggles the mark on a log line: a marked line is unmarked, an unmarked line gets
    /// a mark without a name.
    pub fn toggle_mark(&mut self, line_index: usize)
        requires
            old(self).wf(),
        ensures
            final(self).wf(),
            final(self)@ == toggled_mark(old(self)@, line_index),
    {
        proof {
            self.lemma_ordered();
        }
        match self.search(line_index) {
            Ok(pos) => {
                proof {
                    lemma_remove(self.marks@, pos as int);
                }
                self.marks.remove(pos);
            },
            Err(pos) => {
                proof {
                    lemma_insert(self.marks@, pos as int, Mark { name: None, line_index });
                    if has_mark(self.marks@, line_index) {
                        let k = choose|k: int| 0 <= k < self.marks@.len() && (#[trigger] self.marks@[k]).line_index == line_index;
                    }
                }
                self.marks.insert(pos, Mark::new(line_index));
            },
        }
    }

    /// Adds a named mark on a line, or renames the mark already on it.
    pub fn add_named_mark(&mut self, line_index: usize, name: &str)
        requires
            old(self).wf(),
        ensures
            final(self).wf(),
            final(self)@ == old(self)@.insert(line_index, Some(name@)),
    {
        proof {
            self.lemma_ordered();
        }
        match self.search(line_index) {
            Ok(pos) => {
                self.rename_at(pos, name);
            },
            Err(pos) => {
                let m = Mark::new_with_name(line_index, name);
                proof {
                    lemma_insert(self.marks@, pos as int, m);
                }
                self.marks.insert(pos, m);
            },
        }
    }

    fn rename_at(&mut self, pos: usize, name: &str)
        requires
            old(self).wf(),
            pos < old(self).marks@.len(),
        ensures
            final(self).wf(),
            final(self)@ == old(self)@.insert(old(self).marks@[pos as int].line_index, Some(name@)),
            final(self).marks@.len() == old(self).marks@.len(),
            forall|k: int| 0 <= k < final(self).marks@.len() ==> (#[trigger] final(self).marks@[k]).line_index == old(self).marks@[k].line_index,
    {
        let ghost s = self.marks@;
        let mut m = self.marks[pos].clone_mark();
        m.set_name(name);
        let ghost mm = m;
        self.marks.set(pos, m);
        proof {
            let t = self.marks@;
            assert(t == s.update(pos as int, mm));
            assert(sorted_marks(t)) by {
                assert forall|i: int, j: int| 0 <= i < j < t.len() implies (#[trigger] t[i]).line_index < (#[trigger] t[j]).line_index by {
                    assert(s[i].line_index < s[j].line_index);
                }
            }
            let target = marks_map(s).insert(s[pos as int].line_index, Some(name@));
            assert forall|i: usize| #[trigger] target.contains_key(i) <==> has_mark(t, i) by {
                if has_mark(s, i) {
                    let k = choose|k: int| 0 <= k < s.len() && (#[trigger] s[k]).line_index == i;
                    assert(t[k].line_index == i);
                }
                if has_mark(t, i) {
                    let k = choose|k: int| 0 <= k < t.len() && (#[trigger] t[k]).line_index == i;
                    assert(s[k].line_index == i);
                }
                if i == s[pos as int].line_index {
                    assert(t[pos as int].line_index == i);
                }
            }
            assert forall|k: int| 0 <= k < t.len() implies target[(#[trigger] t[k]).line_index] == name_view(t[k].name) by {
                if k != pos {
                    assert(t[k] == s[k]);
                    lemma_map_at(s, k);
                    assert(s[k].line_index != s[pos as int].line_index) by {
                        if k < pos {
                            assert(s[k].line_index < s[pos as int].line_index);
                        } else {
                            assert(s[pos as int].line_index < s[k].line_index);
                        }
                    }
                }
            }
            lemma_map_ext(t, target);
        }
    }

    /// Sets or updates the name of an existing mark; unmarked lines are left alone.
    pub fn set_mark_name(&mut self, line_index: usize, name: &str)
        requires
            old(self).wf(),
        ensures
            final(self).wf(),
            old(self)@.contains_key(line_index) ==> final(self)@ == old(self)@.insert(line_index, Some(name@)),
            !old(self)@.contains_key(line_index) ==> final(self)@ == old(self)@,
    {
        proof {
            self.lemma_ordered();
        }
        match self.search(line_index) {
            Ok(pos) => {
                self.rename_at(pos, name);
            },
            Err(pos) => {
                proof {
                    if has_mark(self.marks@, line_index) {
                        let k = choose|k: int| 0 <= k < self.marks@.len() && (#[trigger] self.marks@[k]).line_index == line_index;
                    }
                }
            },
        }
    }

    /// Unmarks a log line.
    pub fn unmark(&mut self, line_index: usize)
        requires
            old(self).wf(),
        ensures
            final(self).wf(),
            final(self)@ == old(self)@.remove(line_index),
    {
        proof {
            self.lemma_ordered();
        }
        match self.search(line_index) {
            Ok(pos) => {
                proof {
                    lemma_remove(self.marks@, pos as int);
                }
                self.marks.remove(pos);
            },
            Err(pos) => {
                proof {
                    if has_mark(self.marks@, line_index) {
                        let k = choose|k: int| 0 <= k < self.marks@.len() && (#[trigger] self.marks@[k]).line_index == line_index;
                    }
                    assert(self@ =~= self@.remove(line_index));
                }
            },
        }
    }

    /// Marks, with the pattern as name, every given line whose content contains the
    /// pattern ignoring ASCII case and that is not marked yet. An empty pattern marks
    /// nothing.
    pub fn create_marks_from_pattern(&mut self, pattern: &str, lines: &[LogLine])
        requires
            old(self).wf(),
        ensures
            final(self).wf(),
            pattern@.len() == 0 ==> final(self)@ == old(self)@,
            pattern@.len() > 0 ==> (forall|i: usize|
                #[trigger] final(self)@.contains_key(i) <==> (old(self)@.contains_key(i) || exists|k: int|
                    0 <= k < lines@.len() && lines@[k].index == i && contains_ignore_case_spec(
                        utf8(lines@[k].content@),
                        utf8(pattern@),
                    ))),
            pattern@.len() > 0 ==> (forall|i: usize|
                #[trigger] final(self)@.contains_key(i) ==> final(self)@[i] == (if old(self)@.contains_key(i) {
                    old(self)@[i]
                } else {
                    Some(pattern@)
                })),
    {
        if pattern.is_empty() {
            return;
        }
        let mut k: usize = 0;
        while k < lines.len()
            invariant
                self.wf(),
                k <= lines@.len(),
                forall|i: usize|
                    #[trigger] self@.contains_key(i) <==> (old(self)@.contains_key(i) || exists|j: int|
                        0 <= j < k && lines@[j].index == i && contains_ignore_case_spec(
                            utf8(lines@[j].content@),
                            utf8(pattern@),
                        )),
                forall|i: usize|
                    #[trigger] self@.contains_key(i) ==> self@[i] == (if old(self)@.contains_key(i) {
                        old(self)@[i]
                    } else {
                        Some(pattern@)
                    }),
            decreases lines@.len() - k,
        {
            let line = &lines[k];
            let hit = contains_ignore_case(line.content(), pattern);
            let ghost before = self@;
            if hit {
                proof {
                    self.lemma_ordered();
                }
                match self.search(line.index) {
                    Ok(_) => {},
                    Err(pos) => {
                        let m = Mark::new_with_name(line.index, pattern);
                        proof {
                            lemma_insert(self.marks@, pos as int, m);
                            if has_mark(self.marks@, line.index) {
                                let q = choose|q: int| 0 <= q < self.marks@.len() && (#[trigger] self.marks@[q]).line_index == line.index;
                            }
                            assert(!before.contains_key(line.index));
                            assert(!old(self)@.contains_key(line.index));
                        }
                        self.marks.insert(pos, m);
                        proof {
                            assert(self@ == before.insert(line.index, Some(pattern@)));
                            assert forall|i: usize| #[trigger] self@.contains_key(i) implies self@[i] == (if old(self)@.contains_key(i) {
                                old(self)@[i]
                            } else {
                                Some(pattern@)
                            }) by {
                                if i != line.index {
                                    assert(before.contains_key(i));
                                }
                            }
                        }
                    },
                }
            }
            proof {
                assert forall|i: usize|
                    #[trigger] self@.contains_key(i) <==> (old(self)@.contains_key(i) || exists|j: int|
                        0 <= j < k + 1 && lines@[j].index == i && contains_ignore_case_spec(
                            utf8(lines@[j].content@),
                            utf8(pattern@),
                        )) by {
                    if exists|j: int|
                        0 <= j < k + 1 && lines@[j].index == i && contains_ignore_case_spec(
                            utf8(lines@[j].content@),
                            utf8(pattern@),
                        ) {
                        let j = choose|j: int|
                            0 <= j < k + 1 && lines@[j].index == i && contains_ignore_case_spec(
                                utf8(lines@[j].content@),
                                utf8(pattern@),
                            );
                        if j == k {
                            if before.contains_key(i) {
                            } else {
                            }
                        }
                    }
                }
            }
            k += 1;
        }
    }

    /// Returns whether a log line is marked.
    pub fn is_marked(&self, line_index: usize) -> (r: bool)
        requires
            self.wf(),
        ensures
            r == self@.contains_key(line_index),
    {
        proof {
            self.lemma_ordered();
        }
        match self.search(line_index) {
            Ok(_) => true,
            Err(_) => {
                proof {
                    if has_mark(self.marks@, line_index) {
                        let k = choose|k: int| 0 <= k < self.marks@.len() && (#[trigger] self.marks@[k]).line_index == line_index;
                    }
                }
                false
            },
        }
    }

    /// Returns all marked line indices.
    pub fn get_marked_indices(&self) -> (r: HashSet<usize>)
        requires
            self.wf(),
        ensures
            r@ == self@.dom(),
    {
        proof {
            self.lemma_ordered();
        }
        let mut out: HashSet<usize> = HashSet::new();
        let mut i: usize = 0;
        while i < self.marks.len()
            invariant
                i <= self.marks@.len(),
                forall|x: usize| #[trigger] out@.contains(x) <==> exists|k: int| 0 <= k < i && self.marks@[k].line_index == x,
            decreases self.marks@.len() - i,
        {
            out.insert(self.marks[i].line_index);
            proof {
                assert forall|x: usize| #[trigger] out@.contains(x) <==> exists|k: int| 0 <= k < i + 1 && self.marks@[k].line_index == x by {
                    if exists|k: int| 0 <= k < i + 1 && self.marks@[k].line_index == x {
                        let k = choose|k: int| 0 <= k < i + 1 && self.marks@[k].line_index == x;
                        if k < i {
                        }
                    }
                }
            }
            i += 1;
        }
        proof {
            assert forall|x: usize| #[trigger] out@.contains(x) <==> self@.dom().contains(x) by {
                if out@.contains(x) {
                    let k = choose|k: int| 0 <= k < i && self.marks@[k].line_index == x;
                    assert(has_mark(self.marks@, x));
                }
                if self@.dom().contains(x) {
                    let k = choose|k: int| 0 <= k < self.marks@.len() && (#[trigger] self.marks@[k]).line_index == x;
                    assert(self.marks@[k].line_index == x);
                }
            }
            assert(out@ =~= self@.dom());
        }
        out
    }

    /// Returns the total number of marked lines.
    pub fn count(&self) -> (r: usize)
        requires
            self.wf(),
        ensures
            r == self@.len(),
    {
        proof {
            self.lemma_len();
        }
        self.marks.len()
    }

    proof fn lemma_len(&self)
        requires
            self.wf(),
        ensures
            self@.dom().finite(),
            self@.len() == self.marks@.len(),
    {
        lemma_len(self.marks@);
    }

    /// Returns whether there are any marked lines.
    pub fn is_empty(&self) -> (r: bool)
        requires
            self.wf(),
        ensures
            r == (self@.len() == 0),
    {
        proof {
            self.lemma_len();
        }
        self.marks.len() == 0
    }

    /// Returns all marks, in line order.
    pub fn get_marks(&self) -> (r: &[Mark])
        ensures
            r@ == self.ordered(),
    {
        self.marks.as_slice()
    }

    /// Clears all marks.
    pub fn clear_all(&mut self)
        ensures
            final(self).wf(),
            final(self)@ == Map::<usize, Option<Seq<char>>>::empty(),
    {
        self.marks.clear();
        proof {
            assert(self@ =~= Map::<usize, Option<Seq<char>>>::empty());
        }
    }
}

impl Mark {
    /// A copy of this mark.
    pub fn clone_mark(&self) -> (r: Self)
        ensures
            r.line_index == self.line_index,
            name_view(r.name) == name_view(self.name),
    {
        Mark {
            name: match &self.name {
                Some(s) => Some(s.clone()),
                None => None,
            },
            line_index: self.line_index,
        }
    }
}

} // verus!

verus! {

/// Tag rule that tags marked lines.
pub struct MarkTagRule {
    marked_indices: HashSet<usize>,
}

impl MarkTagRule {
    /// A rule for the given marked line indices.
    pub fn new(marked_indices: HashSet<usize>) -> (r: Self)
        ensures
            r.marked() == marked_indices@,
    {
        Self { marked_indices }
    }

    /// The marked line indices.
    pub closed spec fn marked(&self) -> Set<usize> {
        self.marked_indices@
    }
}

impl TagRule for MarkTagRule {
    open spec fn tag_of(&self, line: LogLine) -> Option<Tag> {
        if self.marked().contains(line.index) {
            Some(Tag::Marked)
        } else {
            None
        }
    }

    fn get_tags(&self, line: &LogLine) -> (r: Option<Tag>) {
        if self.marked_indices.contains(&line.index) {
            Some(Tag::Marked)
        } else {
            None
        }
    }
}

/// Rule that only shows lines that are marked.
pub struct MarkOnlyVisibilityRule {
    marked_indices: HashSet<usize>,
}

impl MarkOnlyVisibilityRule {
    /// A rule for the given marked line indices.
    pub fn new(marked_indices: HashSet<usize>) -> (r: Self)
        ensures
            r.marked() == marked_indices@,
    {
        Self { marked_indices }
    }

    /// The marked line indices.
    pub closed spec fn marked(&self) -> Set<usize> {
        self.marked_indices@
    }
}

impl VisibilityRule for MarkOnlyVisibilityRule {
    open spec fn accepts(&self, line: LogLine) -> bool {
        self.marked().contains(line.index)
    }

    fn is_visible(&self, line: &LogLine) -> (r: bool) {
        self.marked_indices.contains(&line.index)
    }
}

} // verus!
