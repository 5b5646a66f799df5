//! Which log lines are visible, in what order, and with which tags: visibility rules,
//! tag rules and expanded lines resolved against the log.
use vstd::prelude::*;
use std::collections::{HashMap, HashSet};
use crate::log::LogLine;

verus! {

broadcast use vstd::std_specs::hash::group_hash_axioms;


/// Tags that can be attached to visible lines for rendering metadata.
#[derive(Debug, Clone, Copy, PartialEq, Eq, Structural, Hash)]
pub enum Tag {
    /// Line is selected
    Selected,
    /// Line passes normal text filters
    Filtered,
    /// Line is marked
    Marked,
    /// Line contains an event
    Event,
    /// Line belongs to an enabled file
    FileEnabled,
    /// Line is shown due to expansion
    Expanded,
}

/// Rules that determine line visibility.
pub trait VisibilityRule {
    /// Whether the rule lets the line be shown.
    spec fn accepts(&self, line: LogLine) -> bool;

    /// Returns true if the line should be visible.
    fn is_visible(&self, line: &LogLine) -> (r: bool)
        ensures
            r == self.accepts(*line),
    ;
}

/// Rules that add a tag to lines.
pub trait TagRule {
    /// The tag the rule attaches to the line, if any.
    spec fn tag_of(&self, line: LogLine) -> Option<Tag>;

    /// Returns the tag to attach to this line, or None.
    fn get_tags(&self, line: &LogLine) -> (r: Option<Tag>)
        ensures
            r == self.tag_of(*line),
    ;
}


/// A set of tags, one flag per tag.
#[derive(Debug, Clone, Copy, PartialEq, Eq, Structural, Default)]
pub struct TagSet {
    selected: bool,
    filtered: bool,
    marked: bool,
    event: bool,
    file_enabled: bool,
    expanded: bool,
}

/// Whether the flag of `tag` is set in `s`.
pub closed spec fn tag_flag(s: TagSet, tag: Tag) -> bool {
    match tag {
        Tag::Selected => s.selected,
        Tag::Filtered => s.filtered,
        Tag::Marked => s.marked,
        Tag::Event => s.event,
        Tag::FileEnabled => s.file_enabled,
        Tag::Expanded => s.expanded,
    }
}

impl View for TagSet {
    type V = Set<Tag>;

    open spec fn view(&self) -> Set<Tag> {
        Set::new(|t: Tag| tag_flag(*self, t))
    }
}

impl TagSet {
    /// The empty set of tags.
    pub fn new() -> (r: Self)
        ensures
            r@ == Set::<Tag>::empty(),
    {
        let r = TagSet {
            selected: false,
            filtered: false,
            marked: false,
            event: false,
            file_enabled: false,
            expanded: false,
        };
        assert(r@ =~= Set::<Tag>::empty());
        r
    }

    fn set(&mut self, tag: Tag, on: bool)
        ensures
            forall|t: Tag| tag_flag(*final(self), t) == if t == tag { on } else { tag_flag(*old(self), t) },
    {
        match tag {
            Tag::Selected => self.selected = on,
            Tag::Filtered => self.filtered = on,
            Tag::Marked => self.marked = on,
            Tag::Event => self.event = on,
            Tag::FileEnabled => self.file_enabled = on,
            Tag::Expanded => self.expanded = on,
        }
    }

    /// Adds a tag.
    pub fn insert(&mut self, tag: Tag)
        ensures
            final(self)@ == old(self)@.insert(tag),
    {
        self.set(tag, true);
        assert(self@ =~= old(self)@.insert(tag));
    }

    /// Removes a tag.
    pub fn remove(&mut self, tag: &Tag)
        ensures
            final(self)@ == old(self)@.remove(*tag),
    {
        self.set(*tag, false);
        assert(self@ =~= old(self)@.remove(*tag));
    }

    /// Whether the tag is in the set.
    pub fn contains(&self, tag: &Tag) -> (r: bool)
        ensures
            r == self@.contains(*tag),
    {
        match tag {
            Tag::Selected => self.selected,
            Tag::Filtered => self.filtered,
            Tag::Marked => self.marked,
            Tag::Event => self.event,
            Tag::FileEnabled => self.file_enabled,
            Tag::Expanded => self.expanded,
        }
    }
}

/// A visible line with metadata for rendering.
#[derive(Debug, Clone, Copy, PartialEq, Eq, Structural)]
pub struct VisibleLine {
    /// Index in the original log.
    pub log_index: usize,
    /// The tags applied to the line.
    pub tags: TagSet,
}

/// A visible line as its log index and its tags.
pub open spec fn row_of(v: VisibleLine) -> (usize, Set<Tag>) {
    (v.log_index, v.tags@)
}

/// Visible lines as log indices and tags.
pub open spec fn rows_of(vs: Seq<VisibleLine>) -> Seq<(usize, Set<Tag>)> {
    vs.map_values(|v: VisibleLine| row_of(v))
}

impl VisibleLine {
    fn new(log_index: usize) -> (r: Self)
        ensures
            r.log_index == log_index,
            r.tags@ == Set::<Tag>::empty(),
    {
        VisibleLine { log_index, tags: TagSet::new() }
    }

    /// A copy of this line with one more tag.
    pub fn with_tag(&self, tag: Tag) -> (r: Self)
        ensures
            r.log_index == self.log_index,
            r.tags@ == self.tags@.insert(tag),
    {
        let mut new = *self;
        new.add_tag(tag);
        new
    }

    /// Adds a tag to the line.
    pub fn add_tag(&mut self, tag: Tag)
        ensures
            final(self).log_index == old(self).log_index,
            final(self).tags@ == old(self).tags@.insert(tag),
    {
        self.tags.insert(tag);
    }

    /// Removes a tag from the line.
    pub fn remove_tag(&mut self, tag: Tag)
        ensures
            final(self).log_index == old(self).log_index,
            final(self).tags@ == old(self).tags@.remove(tag),
    {
        self.tags.remove(&tag);
    }
}

/// Every visibility rule accepts the line; with no rules, every line is visible.
pub open spec fn line_visible(rules: Seq<Box<dyn VisibilityRule>>, line: LogLine) -> bool {
    forall|i: int| 0 <= i < rules.len() ==> #[trigger] rules[i].accepts(line)
}

/// The tags that the tag rules attach to a line.
pub open spec fn rule_tags(rules: Seq<Box<dyn TagRule>>, line: LogLine) -> Set<Tag> {
    Set::new(|t: Tag| exists|i: int| 0 <= i < rules.len() && #[trigger] rules[i].tag_of(line) == Some(t))
}

/// The rows that an expansion adds: each expanded index within the log, tagged as expanded.
pub open spec fn expansion_rows(
    tag_rules: Seq<Box<dyn TagRule>>,
    expanded: Seq<usize>,
    all: Seq<LogLine>,
) -> Seq<(usize, Set<Tag>)>
    decreases expanded.len(),
{
    if expanded.len() == 0 {
        Seq::empty()
    } else {
        let rest = expansion_rows(tag_rules, expanded.drop_last(), all);
        let l = expanded.last();
        if l < all.len() {
            rest.push((l, rule_tags(tag_rules, all[l as int]).insert(Tag::Expanded)))
        } else {
            rest
        }
    }
}

/// The rows for the first `n` log lines: each visible line with its tags, followed by the
/// lines expanded under it.
pub open spec fn resolved_rows(
    vis_rules: Seq<Box<dyn VisibilityRule>>,
    tag_rules: Seq<Box<dyn TagRule>>,
    expanded: Map<usize, Seq<usize>>,
    all: Seq<LogLine>,
    n: nat,
) -> Seq<(usize, Set<Tag>)>
    decreases n,
{
    if n == 0 {
        Seq::empty()
    } else {
        let prev = resolved_rows(vis_rules, tag_rules, expanded, all, (n - 1) as nat);
        let i = n - 1;
        if line_visible(vis_rules, all[i]) {
            let own = prev.push(((i as usize), rule_tags(tag_rules, all[i])));
            if expanded.contains_key(i as usize) {
                own + expansion_rows(tag_rules, expanded[i as usize], all)
            } else {
                own
            }
        } else {
            prev
        }
    }
}

/// The log index of the row at a viewport position.
pub open spec fn row_to_log(rows: Seq<(usize, Set<Tag>)>, v: int) -> Option<usize> {
    if 0 <= v < rows.len() {
        Some(rows[v].0)
    } else {
        None
    }
}

/// The first viewport position at or after `v` whose row shows a log index.
pub open spec fn first_row_from(rows: Seq<(usize, Set<Tag>)>, l: usize, v: nat) -> Option<usize>
    decreases rows.len() - v,
{
    if v >= rows.len() {
        None
    } else if rows[v as int].0 == l {
        Some(v as usize)
    } else {
        first_row_from(rows, l, v + 1)
    }
}

/// The first viewport position whose row shows a log index.
pub open spec fn log_to_row(rows: Seq<(usize, Set<Tag>)>, l: usize) -> Option<usize> {
    first_row_from(rows, l, 0)
}

/// The main viewport resolver that applies rules to determine visible lines.
pub struct ViewportResolver {
    /// Visibility rules (filters, file enables) - determine which lines show
    visibility_rules: Vec<Box<dyn VisibilityRule>>,
    /// Tag rules (marks, events) - add metadata to visible lines
    tag_rules: Vec<Box<dyn TagRule>>,
    /// Visible lines computed before, kept until a change invalidates them.
    visible_cache: Option<Vec<VisibleLine>>,
    /// Expanded lines: log index -> log indices shown under it
    expanded_lines: HashMap<usize, Vec<usize>>,
}

impl Default for ViewportResolver {
    fn default() -> (r: Self)
        ensures
            r.vis_rules().len() == 0,
            r.tag_rules().len() == 0,
            r.cache() is None,
            r.expanded() == Map::<usize, Seq<usize>>::empty(),
    {
        Self::new()
    }
}

impl ViewportResolver {
    /// The visibility rules, in order.
    pub closed spec fn vis_rules(&self) -> Seq<Box<dyn VisibilityRule>> {
        self.visibility_rules@
    }

    /// The tag rules, in order.
    pub closed spec fn tag_rules(&self) -> Seq<Box<dyn TagRule>> {
        self.tag_rules@
    }

    /// The visible lines kept from the last computation, if still valid.
    pub closed spec fn cache(&self) -> Option<Seq<VisibleLine>> {
        match self.visible_cache {
            Some(v) => Some(v@),
            None => None,
        }
    }

    /// The expanded lines.
    pub closed spec fn expanded(&self) -> Map<usize, Seq<usize>> {
        self.expanded_lines@.map_values(|v: Vec<usize>| v@)
    }

    /// The rows the rules give for the log.
    pub open spec fn resolve(&self, all: Seq<LogLine>) -> Seq<(usize, Set<Tag>)> {
        resolved_rows(self.vis_rules(), self.tag_rules(), self.expanded(), all, all.len())
    }

    /// The rows shown for the log: those kept from before, or else the ones the rules give.
    pub open spec fn shown(&self, all: Seq<LogLine>) -> Seq<(usize, Set<Tag>)> {
        match self.cache() {
            Some(c) => rows_of(c),
            None => self.resolve(all),
        }
    }

    /// Creates a new resolver with no rules.
    pub fn new() -> (r: Self)
        ensures
            r.vis_rules().len() == 0,
            r.tag_rules().len() == 0,
            r.cache() is None,
            r.expanded() == Map::<usize, Seq<usize>>::empty(),
    {
        let r = Self {
            visibility_rules: Vec::new(),
            tag_rules: Vec::new(),
            visible_cache: None,
            expanded_lines: HashMap::new(),
        };
        assert(r.expanded() =~= Map::<usize, Seq<usize>>::empty());
        r
    }

    /// Adds a visibility rule.
    pub fn add_visibility_rule(&mut self, rule: Box<dyn VisibilityRule>)
        ensures
            final(self).vis_rules() == old(self).vis_rules().push(rule),
            final(self).tag_rules() == old(self).tag_rules(),
            final(self).expanded() == old(self).expanded(),
            final(self).cache() is None,
    {
        self.visibility_rules.push(rule);
        self.invalidate_cache();
    }

    /// Adds a tag rule.
    pub fn add_tag_rule(&mut self, rule: Box<dyn TagRule>)
        ensures
            final(self).tag_rules() == old(self).tag_rules().push(rule),
            final(self).vis_rules() == old(self).vis_rules(),
            final(self).expanded() == old(self).expanded(),
            final(self).cache() is None,
    {
        self.tag_rules.push(rule);
        self.invalidate_cache();
    }

    /// Clears all rules and expanded lines.
    pub fn clear_rules(&mut self)
        ensures
            final(self).vis_rules().len() == 0,
            final(self).tag_rules().len() == 0,
            final(self).expanded() == Map::<usize, Seq<usize>>::empty(),
            final(self).cache() is None,
    {
        self.visibility_rules.clear();
        self.tag_rules.clear();
        self.expanded_lines = HashMap::new();
        self.invalidate_cache();
        assert(self.expanded() =~= Map::<usize, Seq<usize>>::empty());
    }

    /// Sets the expanded lines.
    pub fn set_expanded_lines(&mut self, expanded_lines: HashMap<usize, Vec<usize>>)
        ensures
            final(self).expanded() == expanded_lines@.map_values(|v: Vec<usize>| v@),
            final(self).vis_rules() == old(self).vis_rules(),
            final(self).tag_rules() == old(self).tag_rules(),
            final(self).cache() is None,
    {
        self.expanded_lines = expanded_lines;
        self.invalidate_cache();
    }

    /// Invalidates the kept visible lines, so that the next access recomputes them.
    pub fn invalidate_cache(&mut self)
        ensures
            final(self).cache() is None,
            final(self).vis_rules() == old(self).vis_rules(),
            final(self).tag_rules() == old(self).tag_rules(),
            final(self).expanded() == old(self).expanded(),
    {
        self.visible_cache = None;
    }

    fn apply_tags(&self, visible_line: &mut VisibleLine, line: &LogLine)
        ensures
            final(visible_line).log_index == old(visible_line).log_index,
            final(visible_line).tags@ == old(visible_line).tags@.union(rule_tags(self.tag_rules(), *line)),
    {
        let mut k: usize = 0;
        while k < self.tag_rules.len()
            invariant
                k <= self.tag_rules@.len(),
                visible_line.log_index == old(visible_line).log_index,
                visible_line.tags@ == old(visible_line).tags@.union(
                    Set::new(|t: Tag| exists|i: int| 0 <= i < k && #[trigger] self.tag_rules@[i].tag_of(*line) == Some(t)),
                ),
            decreases self.tag_rules@.len() - k,
        {
            let ghost before = visible_line.tags@;
            match self.tag_rules[k].get_tags(line) {
                Some(tag) => visible_line.add_tag(tag),
                None => {},
            }
            proof {
                assert(visible_line.tags@ =~= old(visible_line).tags@.union(
                    Set::new(|t: Tag| exists|i: int| 0 <= i < k + 1 && #[trigger] self.tag_rules@[i].tag_of(*line) == Some(t)),
                )) by {
                    assert forall|t: Tag| #[trigger] visible_line.tags@.contains(t) == old(visible_line).tags@.union(
                        Set::new(|t: Tag| exists|i: int| 0 <= i < k + 1 && #[trigger] self.tag_rules@[i].tag_of(*line) == Some(t)),
                    ).contains(t) by {
                        if exists|i: int| 0 <= i < k + 1 && #[trigger] self.tag_rules@[i].tag_of(*line) == Some(t) {
                            let i = choose|i: int| 0 <= i < k + 1 && #[trigger] self.tag_rules@[i].tag_of(*line) == Some(t);
                            if i < k {
                                assert(before.contains(t));
                            }
                        }
                    }
                }
            }
            k += 1;
        }
        proof {
            assert(visible_line.tags@ =~= old(visible_line).tags@.union(rule_tags(self.tag_rules(), *line)));
        }
    }

    fn is_line_visible(&self, line: &LogLine) -> (r: bool)
        ensures
            r == line_visible(self.vis_rules(), *line),
    {
        let mut k: usize = 0;
        while k < self.visibility_rules.len()
            invariant
                k <= self.visibility_rules@.len(),
                forall|i: int| 0 <= i < k ==> #[trigger] self.visibility_rules@[i].accepts(*line),
            decreases self.visibility_rules@.len() - k,
        {
            if !self.visibility_rules[k].is_visible(line) {
                return false;
            }
            k += 1;
        }
        true
    }

    fn push_expansion(&self, results: &mut Vec<VisibleLine>, expanded: &Vec<usize>, lines: &[LogLine])
        ensures
            rows_of(final(results)@) == rows_of(old(results)@) + expansion_rows(self.tag_rules(), expanded@, lines@),
    {
        let ghost start = results@;
        let mut j: usize = 0;
        while j < expanded.len()
            invariant
                j <= expanded@.len(),
                rows_of(results@) == rows_of(start) + expansion_rows(self.tag_rules(), expanded@.take(j as int), lines@),
            decreases expanded@.len() - j,
        {
            let log_idx = expanded[j];
            proof {
                assert(expanded@.take(j + 1).drop_last() =~= expanded@.take(j as int));
            }
            let ghost before = results@;
            if log_idx < lines.len() {
                let mut expanded_line = VisibleLine::new(log_idx).with_tag(Tag::Expanded);
                self.apply_tags(&mut expanded_line, &lines[log_idx]);
                results.push(expanded_line);
                proof {
                    assert(expanded_line.tags@ =~= rule_tags(self.tag_rules(), lines@[log_idx as int]).insert(Tag::Expanded));
                    assert(rows_of(results@) =~= rows_of(before).push(row_of(expanded_line)));
                    assert(rows_of(results@) =~= rows_of(start) + expansion_rows(self.tag_rules(), expanded@.take(j + 1), lines@));
                }
            }
            j += 1;
        }
        proof {
            assert(expanded@.take(j as int) =~= expanded@);
        }
    }

    /// Computes the visible lines by applying all rules.
    fn compute_visible_lines(&self, lines: &[LogLine]) -> (r: Vec<VisibleLine>)
        ensures
            rows_of(r@) == self.resolve(lines@),
    {
        let mut results: Vec<VisibleLine> = Vec::new();
        let mut idx: usize = 0;
        while idx < lines.len()
            invariant
                idx <= lines@.len(),
                rows_of(results@) == resolved_rows(self.vis_rules(), self.tag_rules(), self.expanded(), lines@, idx as nat),
            decreases lines@.len() - idx,
        {
            let line = &lines[idx];
            if self.is_line_visible(line) {
                let ghost before = results@;
                let mut visible_line = VisibleLine::new(idx);
                self.apply_tags(&mut visible_line, line);
                results.push(visible_line);
                proof {
                    assert(visible_line.tags@ =~= rule_tags(self.tag_rules(), lines@[idx as int]));
                    assert(rows_of(results@) =~= rows_of(before).push(row_of(visible_line)));
                }
                match self.expanded_lines.get(&idx) {
                    Some(expanded_indices) => {
                        self.push_expansion(&mut results, expanded_indices, lines);
                        proof {
                            assert(self.expanded().contains_key(idx));
                            assert(self.expanded()[idx] == expanded_indices@);
                        }
                    },
                    None => {
                        proof {
                            assert(!self.expanded().contains_key(idx));
                        }
                    },
                }
            }
            idx += 1;
        }
        results
    }

    /// Returns the visible lines: those kept from before, or else computed now and kept.
    pub fn get_visible_lines(&mut self, lines: &[LogLine]) -> (r: Vec<VisibleLine>)
        ensures
            rows_of(r@) == old(self).shown(lines@),
            final(self).cache() == Some(r@),
            final(self).vis_rules() == old(self).vis_rules(),
            final(self).tag_rules() == old(self).tag_rules(),
            final(self).expanded() == old(self).expanded(),
    {
        match &self.visible_cache {
            Some(cached) => {
                return cached.clone();
            },
            None => {},
        }
        let visible = self.compute_visible_lines(lines);
        self.visible_cache = Some(visible.clone());
        visible
    }

    /// Converts a viewport position to the log index shown there.
    pub fn viewport_to_log(&mut self, viewport_idx: usize, lines: &[LogLine]) -> (r: Option<usize>)
        ensures
            r == row_to_log(old(self).shown(lines@), viewport_idx as int),
            final(self).cache() is Some,
            rows_of(final(self).cache()->0) == old(self).shown(lines@),
            final(self).vis_rules() == old(self).vis_rules(),
            final(self).tag_rules() == old(self).tag_rules(),
            final(self).expanded() == old(self).expanded(),
    {
        let visible = self.get_visible_lines(lines);
        if viewport_idx < visible.len() {
            proof {
                assert(rows_of(visible@)[viewport_idx as int] == row_of(visible@[viewport_idx as int]));
            }
            Some(visible[viewport_idx].log_index)
        } else {
            None
        }
    }

    /// Converts a log index to the first viewport position that shows it.
    pub fn log_to_viewport(&mut self, log_idx: usize, lines: &[LogLine]) -> (r: Option<usize>)
        ensures
            r == log_to_row(old(self).shown(lines@), log_idx),
            final(self).cache() is Some,
            rows_of(final(self).cache()->0) == old(self).shown(lines@),
            final(self).vis_rules() == old(self).vis_rules(),
            final(self).tag_rules() == old(self).tag_rules(),
            final(self).expanded() == old(self).expanded(),
    {
        let visible = self.get_visible_lines(lines);
        let ghost rows = rows_of(visible@);
        let mut v: usize = 0;
        while v < visible.len()
            invariant
                v <= visible@.len(),
                rows == rows_of(visible@),
                rows == old(self).shown(lines@),
                self.cache() == Some(visible@),
                self.vis_rules() == old(self).vis_rules(),
                self.tag_rules() == old(self).tag_rules(),
                self.expanded() == old(self).expanded(),
                log_to_row(rows, log_idx) == first_row_from(rows, log_idx, v as nat),
            decreases visible@.len() - v,
        {
            proof {
                assert(rows[v as int] == row_of(visible@[v as int]));
            }
            if visible[v].log_index == log_idx {
return Some(v);
            }
            v += 1;
        }
        None
    }

    /// Returns the number of visible lines.
    pub fn visible_count(&mut self, lines: &[LogLine]) -> (r: usize)
        ensures
            r == old(self).shown(lines@).len(),
            final(self).cache() is Some,
            rows_of(final(self).cache()->0) == old(self).shown(lines@),
            final(self).vis_rules() == old(self).vis_rules(),
            final(self).tag_rules() == old(self).tag_rules(),
            final(self).expanded() == old(self).expanded(),
    {
        self.get_visible_lines(lines).len()
    }

    /// Sets or clears `Tag::Marked` on the kept visible lines, by whether their log index
    /// is marked. Does nothing when no visible lines are kept.
    pub fn update_mark_tags(&mut self, marked_indices: &HashSet<usize>)
        ensures
            old(self).cache() is None ==> final(self).cache() is None,
            old(self).cache() matches Some(c) ==> final(self).cache() matches Some(d) && d.len() == c.len() && forall|i: int|
                0 <= i < c.len() ==> (#[trigger] d[i]).log_index == c[i].log_index && d[i].tags@ == if marked_indices@.contains(c[i].log_index) {
                    c[i].tags@.insert(Tag::Marked)
                } else {
                    c[i].tags@.remove(Tag::Marked)
                },
            final(self).vis_rules() == old(self).vis_rules(),
            final(self).tag_rules() == old(self).tag_rules(),
            final(self).expanded() == old(self).expanded(),
    {
        let taken = self.visible_cache.take();
        match taken {
            Some(mut visible_lines) => {
                let ghost c = visible_lines@;
                let mut i: usize = 0;
                while i < visible_lines.len()
                    invariant
                        i <= visible_lines@.len(),
                        visible_lines@.len() == c.len(),
                        forall|k: int| i <= k < c.len() ==> #[trigger] visible_lines@[k] == c[k],
                        forall|k: int|
                            0 <= k < i ==> (#[trigger] visible_lines@[k]).log_index == c[k].log_index && visible_lines@[k].tags@
                                == if marked_indices@.contains(c[k].log_index) {
                                c[k].tags@.insert(Tag::Marked)
                            } else {
                                c[k].tags@.remove(Tag::Marked)
                            },
                    decreases visible_lines@.len() - i,
                {
                    let mut line = visible_lines[i];
                    if marked_indices.contains(&line.log_index) {
                        line.add_tag(Tag::Marked);
                    } else {
                        line.remove_tag(Tag::Marked);
                    }
                    visible_lines.set(i, line);
                    i += 1;
                }
                self.visible_cache = Some(visible_lines);
            },
            None => {},
        }
    }
}

proof fn lemma_first_row_from(rows: Seq<(usize, Set<Tag>)>, l: usize, v: nat, p: int)
    requires
        v <= p < rows.len(),
        rows[p].0 == l,
        rows.len() <= usize::MAX,
    ensures
        first_row_from(rows, l, v) matches Some(w) && v <= w <= p && rows[w as int].0 == l,
    decreases p - v,
{
    if rows[v as int].0 != l {
        lemma_first_row_from(rows, l, v + 1, p);
    }
}

proof fn lemma_first_row_found(rows: Seq<(usize, Set<Tag>)>, l: usize, v: nat)
    requires
        rows.len() <= usize::MAX,
    ensures
        first_row_from(rows, l, v) matches Some(w) ==> v <= w < rows.len() && rows[w as int].0 == l,
    decreases rows.len() - v,
{
    if v < rows.len() && rows[v as int].0 != l {
        lemma_first_row_found(rows, l, v + 1);
    }
}

/// A log index shown at a viewport position is found again at that position or before it.
pub proof fn lemma_viewport_log_roundtrip(rows: Seq<(usize, Set<Tag>)>, v: int)
    requires
        0 <= v < rows.len(),
        rows.len() <= usize::MAX,
    ensures
        log_to_row(rows, rows[v].0) matches Some(w) && w <= v && row_to_log(rows, w as int) == Some(rows[v].0),
{
    lemma_first_row_from(rows, rows[v].0, 0, v);
}

/// A viewport position found for a log index shows that log index.
pub proof fn lemma_log_viewport_roundtrip(rows: Seq<(usize, Set<Tag>)>, l: usize)
    requires
        log_to_row(rows, l) is Some,
        rows.len() <= usize::MAX,
    ensures
        row_to_log(rows, log_to_row(rows, l)->0 as int) == Some(l),
{
    lemma_first_row_found(rows, l, 0);
}

/// Without visibility rules or expanded lines, every log line is shown once, in order.
pub proof fn lemma_no_rules_shows_all(
    tag_rules: Seq<Box<dyn TagRule>>,
    all: Seq<LogLine>,
    n: nat,
)
    requires
        n <= all.len(),
        all.len() <= usize::MAX,
    ensures
        resolved_rows(Seq::empty(), tag_rules, Map::empty(), all, n).len() == n,
        forall|i: int| 0 <= i < n ==> #[trigger] resolved_rows(Seq::empty(), tag_rules, Map::empty(), all, n)[i].0 == i,
    decreases n,
{
    if n > 0 {
        lemma_no_rules_shows_all(tag_rules, all, (n - 1) as nat);
    }
}

} // verus!
