//! Highlighting of a log line: styled ranges from event, highlight and temporary
//! patterns, clipped to the horizontal scroll and resolved into non-overlapping segments.
use vstd::prelude::*;
pub use crate::matcher::{PatternMatchType, PatternMatcher, PlainMatch};
use crate::matcher::{matcher_find_all, matcher_matches, RegexMatcher};
use crate::sorting::{lemma_sort_stable_props, sort_pairs, sort_stable};
use crate::utils::utf8;

verus! {

/// A terminal color.
#[derive(Debug, Clone, Copy, PartialEq, Eq, Structural, Hash)]
pub enum Color {
    Reset,
    Black,
    Red,
    Green,
    Yellow,
    Blue,
    Magenta,
    Cyan,
    Gray,
    DarkGray,
    LightRed,
    LightGreen,
    LightYellow,
    LightBlue,
    LightMagenta,
    LightCyan,
    White,
    Rgb(u8, u8, u8),
    Indexed(u8),
}

/// Style configuration for text rendering.
#[derive(Debug, Clone, Copy, PartialEq, Eq, Structural)]
pub struct PatternStyle {
    /// Foreground color.
    pub fg_color: Option<Color>,
    /// Background color.
    pub bg_color: Option<Color>,
    /// Bold text.
    pub bold: bool,
}

impl Default for PatternStyle {
    fn default() -> (r: Self)
        ensures
            r == (PatternStyle { fg_color: None, bg_color: None, bold: false }),
    {
        PatternStyle { fg_color: None, bg_color: None, bold: false }
    }
}

impl PatternStyle {
    /// Creates a new pattern style.
    pub fn new(fg_color: Option<Color>, bg_color: Option<Color>, bold: bool) -> (r: Self)
        ensures
            r == (PatternStyle { fg_color, bg_color, bold }),
    {
        Self { fg_color, bg_color, bold }
    }

    /// White text on a blue background.
    pub fn white_on_blue() -> (r: Self)
        ensures
            r == (PatternStyle { fg_color: Some(Color::Rgb(255, 255, 255)), bg_color: Some(Color::Blue), bold: false }),
    {
        Self { fg_color: Some(Color::Rgb(255, 255, 255)), bg_color: Some(Color::Blue), bold: false }
    }
}

/// Pattern with associated style for text highlighting.
#[derive(Debug)]
pub struct HighlightPattern {
    /// Optional name to display
    pub name: Option<String>,
    /// Matcher to identify text spans to highlight.
    pub matcher: PatternMatcher,
    /// Style to apply to matched text.
    pub style: PatternStyle,
}

impl HighlightPattern {
    /// Creates a highlight pattern: a regular expression when `is_regex` (none when it
    /// does not compile), else a case-insensitive plain-text pattern.
    pub fn new(pattern: &str, is_regex: bool, style: PatternStyle, name: Option<String>) -> (r: Option<Self>)
        ensures
            is_regex ==> (r is Some <==> crate::matcher::regex_compiles(pattern@)),
            !is_regex ==> r is Some,
            r matches Some(h) ==> h.style == style && h.name == name && (if is_regex {
                h.matcher matches PatternMatcher::Regex(m) && m.source() == pattern@
            } else {
                h.matcher matches PatternMatcher::Plain(p) && p.pattern@ == pattern@ && !p.case_sensitive
            }),
    {
        let matcher = if is_regex {
            match RegexMatcher::compile(pattern) {
                Some(m) => PatternMatcher::Regex(m),
                None => {
                    return None;
                },
            }
        } else {
            PatternMatcher::Plain(PlainMatch { pattern: pattern.to_owned(), case_sensitive: false })
        };
        Some(Self { name, matcher, style })
    }
}

/// Styled range for rendering.
#[derive(Debug, Clone, Copy, PartialEq, Eq, Structural)]
pub struct StyledRange {
    /// Start position in text.
    pub start: usize,
    /// End position in text.
    pub end: usize,
    /// Pattern style
    pub style: PatternStyle,
}

/// Complete highlighting information for a single line, ready to render.
#[derive(Debug)]
pub struct HighlightedLine {
    /// Non-overlapping segments with styles, in order.
    pub segments: Vec<StyledRange>,
}

/// The first event pattern at or after position `k` that matches the text.
pub open spec fn first_event_from(events: Seq<HighlightPattern>, text: Seq<char>, k: int) -> Option<int>
    decreases events.len() - k,
{
    if k < 0 || k >= events.len() {
        None
    } else if matcher_matches(events[k].matcher, text) {
        Some(k)
    } else {
        first_event_from(events, text, k + 1)
    }
}

/// The style of the first event pattern that matches the text.
pub open spec fn line_style(events: Seq<HighlightPattern>, text: Seq<char>) -> Option<PatternStyle> {
    match first_event_from(events, text, 0) {
        Some(k) => Some(events[k].style),
        None => None,
    }
}

/// The ranges of byte spans with one style.
pub open spec fn styled(spans: Seq<(usize, usize)>, style: PatternStyle) -> Seq<StyledRange> {
    spans.map_values(|m: (usize, usize)| StyledRange { start: m.0, end: m.1, style })
}

/// The ranges every pattern finds in the text, pattern by pattern.
pub open spec fn pattern_ranges(ps: Seq<HighlightPattern>, text: Seq<char>) -> Seq<StyledRange>
    decreases ps.len(),
{
    if ps.len() == 0 {
        Seq::empty()
    } else {
        pattern_ranges(ps.drop_last(), text) + styled(matcher_find_all(ps.last().matcher, text), ps.last().style)
    }
}

/// A range moved left by the horizontal offset and clipped at the left edge; none when
/// it ends before the edge.
pub open spec fn shifted(r: StyledRange, offset: usize) -> Option<StyledRange> {
    if r.end <= offset {
        None
    } else if r.start >= offset {
        Some(StyledRange { start: (r.start - offset) as usize, end: (r.end - offset) as usize, style: r.style })
    } else {
        Some(StyledRange { start: 0, end: (r.end - offset) as usize, style: r.style })
    }
}

/// The ranges moved by the horizontal offset, those left of the edge dropped.
pub open spec fn shifted_all(rs: Seq<StyledRange>, offset: usize) -> Seq<StyledRange>
    decreases rs.len(),
{
    if rs.len() == 0 {
        Seq::empty()
    } else {
        let rest = shifted_all(rs.drop_last(), offset);
        match shifted(rs.last(), offset) {
            Some(x) => rest.push(x),
            None => rest,
        }
    }
}

/// Two ranges share a position.
pub open spec fn overlaps(x: StyledRange, r: StyledRange) -> bool {
    !(r.start >= x.end || r.end <= x.start)
}

/// What is left of an existing range when a new one is laid over it: itself when they do
/// not overlap, nothing when it is covered, else the part before or after the new one.
pub open spec fn kept(x: StyledRange, r: StyledRange) -> Option<StyledRange> {
    if !overlaps(x, r) {
        Some(x)
    } else if r.start <= x.start && r.end >= x.end {
        None
    } else if r.start > x.start {
        Some(StyledRange { end: r.start, ..x })
    } else if r.end < x.end {
        Some(StyledRange { start: r.end, ..x })
    } else {
        Some(x)
    }
}

/// The part of an existing range after a new one that lies strictly inside it.
pub open spec fn split_of(x: StyledRange, r: StyledRange) -> Option<StyledRange> {
    if overlaps(x, r) && !(r.start <= x.start && r.end >= x.end) && r.start > x.start && r.end < x.end {
        Some(StyledRange { start: r.end, ..x })
    } else {
        None
    }
}

/// The existing ranges, each cut back by the new one.
pub open spec fn retained(res: Seq<StyledRange>, r: StyledRange) -> Seq<StyledRange>
    decreases res.len(),
{
    if res.len() == 0 {
        Seq::empty()
    } else {
        let rest = retained(res.drop_last(), r);
        match kept(res.last(), r) {
            Some(x) => rest.push(x),
            None => rest,
        }
    }
}

/// The right-hand parts of the existing ranges the new one splits.
pub open spec fn splits(res: Seq<StyledRange>, r: StyledRange) -> Seq<StyledRange>
    decreases res.len(),
{
    if res.len() == 0 {
        Seq::empty()
    } else {
        let rest = splits(res.drop_last(), r);
        match split_of(res.last(), r) {
            Some(x) => rest.push(x),
            None => rest,
        }
    }
}

/// The background of the first existing range, at or after position `k`, that has one
/// and overlaps the new range.
pub open spec fn background_from(res: Seq<StyledRange>, r: StyledRange, k: int) -> Option<Color>
    decreases res.len() - k,
{
    if k < 0 || k >= res.len() {
        None
    } else if res[k].style.bg_color is Some && overlaps(res[k], r) {
        res[k].style.bg_color
    } else {
        background_from(res, r, k + 1)
    }
}

/// The new range as it is added: a range with a foreground and no background takes the
/// background of the first overlapping range that has one, its foreground turned white
/// when it equals that background.
pub open spec fn merged_range(res: Seq<StyledRange>, r: StyledRange) -> StyledRange {
    let inherit = r.style.bg_color is None && r.style.fg_color is Some;
    match (if inherit { background_from(res, r, 0) } else { None }) {
        Some(bg) => StyledRange {
            start: r.start,
            end: r.end,
            style: PatternStyle {
                fg_color: if r.style.fg_color == Some(bg) {
                    Some(Color::Rgb(255, 255, 255))
                } else {
                    r.style.fg_color
                },
                bg_color: Some(bg),
                bold: r.style.bold,
            },
        },
        None => r,
    }
}

/// The segments after laying one more range over them.
pub open spec fn step(res: Seq<StyledRange>, r: StyledRange) -> Seq<StyledRange> {
    retained(res, r).push(merged_range(res, r)) + splits(res, r)
}

/// The segments after laying the ranges over each other in turn, before sorting.
pub open spec fn layered(ranges: Seq<StyledRange>) -> Seq<StyledRange>
    decreases ranges.len(),
{
    if ranges.len() == 0 {
        Seq::empty()
    } else {
        step(layered(ranges.drop_last()), ranges.last())
    }
}

/// Each segment's start and position, the key the segments are ordered by.
pub open spec fn start_keys(s: Seq<StyledRange>) -> Seq<(usize, usize)> {
    Seq::new(s.len(), |i: int| (s[i].start, i as usize))
}

/// The segments, stably sorted by start.
pub open spec fn sorted_segments(s: Seq<StyledRange>) -> Seq<StyledRange> {
    let order = sort_stable(start_keys(s), false);
    Seq::new(order.len(), |i: int| s[order[i].1 as int])
}

/// The non-overlapping segments of a list of ranges, in order of their start.
pub open spec fn segments_of(ranges: Seq<StyledRange>) -> Seq<StyledRange> {
    sorted_segments(layered(ranges))
}

/// Manages text highlighting and line coloring based on configured patterns.
#[derive(Debug)]
pub struct Highlighter {
    /// Patterns for text highlighting.
    patterns: Vec<HighlightPattern>,
    /// Event patterns for line coloring and tracking.
    events: Vec<HighlightPattern>,
    /// Temporary highlights.
    temporary_highlights: Vec<HighlightPattern>,
}

impl Highlighter {
    /// The highlight patterns.
    pub closed spec fn highlight_patterns(&self) -> Seq<HighlightPattern> {
        self.patterns@
    }

    /// The event patterns.
    pub closed spec fn event_patterns(&self) -> Seq<HighlightPattern> {
        self.events@
    }

    /// The temporary highlights.
    pub closed spec fn temporary(&self) -> Seq<HighlightPattern> {
        self.temporary_highlights@
    }

    /// The ranges a line gets before they are clipped and resolved: the event style over
    /// the whole line and the highlight patterns' ranges when colors are enabled, then the
    /// temporary highlights' ranges.
    pub open spec fn raw_ranges(&self, line: Seq<char>, enable_colors: bool) -> Seq<StyledRange> {
        let base = if enable_colors {
            (match line_style(self.event_patterns(), line) {
                Some(s) => seq![StyledRange { start: 0, end: utf8(line).len() as usize, style: s }],
                None => Seq::empty(),
            }) + pattern_ranges(self.highlight_patterns(), line)
        } else {
            Seq::empty()
        };
        base + pattern_ranges(self.temporary(), line)
    }

    /// Creates a new highlighter with the given patterns.
    pub fn new(patterns: Vec<HighlightPattern>, events: Vec<HighlightPattern>) -> (r: Self)
        ensures
            r.highlight_patterns() == patterns@,
            r.event_patterns() == events@,
            r.temporary() == Seq::<HighlightPattern>::empty(),
    {
        Self { patterns, events, temporary_highlights: Vec::new() }
    }

    /// Returns the style of the first event pattern that matches the text.
    pub fn get_line_style(&self, text: &str) -> (r: Option<PatternStyle>)
        ensures
            r == line_style(self.event_patterns(), text@),
    {
        let mut k: usize = 0;
        while k < self.events.len()
            invariant
                k <= self.events@.len(),
                first_event_from(self.events@, text@, 0) == first_event_from(self.events@, text@, k as int),
            decreases self.events@.len() - k,
        {
            if self.events[k].matcher.matches(text) {
                return Some(self.events[k].style);
            }
            k += 1;
        }
        None
    }

    /// Adds a temporary plain-text highlight, applied on top of any other highlighting.
    pub fn add_temporary_highlight(&mut self, pattern: String, style: PatternStyle, case_sensitive: bool)
        ensures
            final(self).highlight_patterns() == old(self).highlight_patterns(),
            final(self).event_patterns() == old(self).event_patterns(),
            final(self).temporary().len() == old(self).temporary().len() + 1,
            final(self).temporary().drop_last() == old(self).temporary(),
            ({
                let h = final(self).temporary().last();
                &&& h.name is None
                &&& h.style == style
                &&& h.matcher matches PatternMatcher::Plain(p) && p.pattern@ == pattern@ && p.case_sensitive
                    == case_sensitive
            }),
    {
        self.temporary_highlights.push(
            HighlightPattern { name: None, matcher: PatternMatcher::Plain(PlainMatch { pattern, case_sensitive }), style },
        );
        proof {
            assert(self.temporary().drop_last() =~= old(self).temporary());
        }
    }

    /// Clears all temporary highlights.
    pub fn clear_temporary_highlights(&mut self)
        ensures
            final(self).highlight_patterns() == old(self).highlight_patterns(),
            final(self).event_patterns() == old(self).event_patterns(),
            final(self).temporary() == Seq::<HighlightPattern>::empty(),
    {
        self.temporary_highlights.clear();
    }

    fn push_pattern_ranges(ranges: &mut Vec<StyledRange>, ps: &Vec<HighlightPattern>, line: &str)
        requires
            all_well_formed(old(ranges)@),
        ensures
            final(ranges)@ == old(ranges)@ + pattern_ranges(ps@, line@),
            all_well_formed(final(ranges)@),
    {
        let mut k: usize = 0;
        while k < ps.len()
            invariant
                k <= ps@.len(),
                ranges@ == old(ranges)@ + pattern_ranges(ps@.take(k as int), line@),
                all_well_formed(ranges@),
            decreases ps@.len() - k,
        {
            proof {
                assert(ps@.take(k + 1).drop_last() =~= ps@.take(k as int));
                assert(ps@.take(k + 1).last() == ps@[k as int]);
            }
            let found = ps[k].matcher.find_all(line);
            let style = ps[k].style;
            let ghost before = ranges@;
            let mut j: usize = 0;
            while j < found.len()
                invariant
                    j <= found@.len(),
                    ranges@ == before + styled(found@.take(j as int), style),
                    all_well_formed(ranges@),
                    forall|i: int| 0 <= i < found@.len() ==> (#[trigger] found@[i]).0 <= found@[i].1,
                decreases found@.len() - j,
            {
                let (start, end) = found[j];
                ranges.push(StyledRange { start, end, style });
                j += 1;
                proof {
                    assert(styled(found@.take(j as int), style) =~= styled(found@.take(j - 1), style).push(
                        StyledRange { start, end, style },
                    ));
                }
            }
            proof {
                assert(found@.take(j as int) =~= found@);
                assert(ranges@ =~= old(ranges)@ + pattern_ranges(ps@.take(k + 1), line@));
            }
            k += 1;
        }
        proof {
            assert(ps@.take(k as int) =~= ps@);
        }
    }

    /// Returns the styled, non-overlapping segments of a line, in order, after scrolling
    /// it left by `horizontal_offset` bytes.
    pub fn highlight_line(&self, line: &str, horizontal_offset: usize, enable_colors: bool) -> (r: HighlightedLine)
        ensures
            r.segments@ == segments_of(shifted_all(self.raw_ranges(line@, enable_colors), horizontal_offset)),
            all_apart(r.segments@),
            all_well_formed(r.segments@),
            forall|i: int, j: int|
                0 <= i < j < r.segments@.len() ==> (#[trigger] r.segments@[i]).start <= (#[trigger] r.segments@[j]).start,
    {
        let mut ranges: Vec<StyledRange> = Vec::new();
        assert(all_well_formed(ranges@));
        if enable_colors {
            match self.get_line_style(line) {
                Some(line_style) => {
                    ranges.push(StyledRange { start: 0, end: line.as_bytes().len(), style: line_style });
                },
                None => {},
            }
            Self::push_pattern_ranges(&mut ranges, &self.patterns, line);
        }
        Self::push_pattern_ranges(&mut ranges, &self.temporary_highlights, line);
        proof {
            assert(ranges@ =~= self.raw_ranges(line@, enable_colors));
        }
        let styled_ranges = adjust_for_viewport_offset(ranges, horizontal_offset);
        let segments = split_into_segments(styled_ranges);
        HighlightedLine { segments }
    }
}

/// Moves the ranges left by the horizontal scroll offset, dropping those left of the edge.
fn adjust_for_viewport_offset(ranges: Vec<StyledRange>, offset: usize) -> (r: Vec<StyledRange>)
    requires
        all_well_formed(ranges@),
    ensures
        r@ == shifted_all(ranges@, offset),
        all_well_formed(r@),
{
    let mut out: Vec<StyledRange> = Vec::new();
    let mut i: usize = 0;
    while i < ranges.len()
        invariant
            i <= ranges@.len(),
            out@ == shifted_all(ranges@.take(i as int), offset),
            all_well_formed(ranges@),
            all_well_formed(out@),
        decreases ranges@.len() - i,
    {
        proof {
            assert(ranges@.take(i + 1).drop_last() =~= ranges@.take(i as int));
            assert(ranges@.take(i + 1).last() == ranges@[i as int]);
        }
        let r = ranges[i];
        if r.end <= offset {
        } else if r.start >= offset {
            out.push(StyledRange { start: r.start - offset, end: r.end - offset, style: r.style });
        } else {
            out.push(StyledRange { start: 0, end: r.end - offset, style: r.style });
        }
        i += 1;
    }
    proof {
        assert(ranges@.take(i as int) =~= ranges@);
    }
    out
}

fn find_background(result: &Vec<StyledRange>, range: StyledRange) -> (r: Option<Color>)
    ensures
        r == background_from(result@, range, 0),
{
    let mut k: usize = 0;
    while k < result.len()
        invariant
            k <= result@.len(),
            background_from(result@, range, 0) == background_from(result@, range, k as int),
        decreases result@.len() - k,
    {
        let x = result[k];
        if x.style.bg_color.is_some() && !(x.end <= range.start || x.start >= range.end) {
            return x.style.bg_color;
        }
        k += 1;
    }
    None
}

/// Lays one range over the segments: cuts back or removes what it covers, then adds it
/// (with an inherited background) and the split-off right-hand parts.
fn lay_over(result: Vec<StyledRange>, range: StyledRange) -> (r: Vec<StyledRange>)
    ensures
        r@ == step(result@, range),
{
    let should_inherit_bg = range.style.bg_color.is_none() && range.style.fg_color.is_some();
    let bg_to_preserve = if should_inherit_bg {
        find_background(&result, range)
    } else {
        None
    };
    let mut kept_ranges: Vec<StyledRange> = Vec::new();
    let mut split_ranges: Vec<StyledRange> = Vec::new();
    let mut i: usize = 0;
    while i < result.len()
        invariant
            i <= result@.len(),
            kept_ranges@ == retained(result@.take(i as int), range),
            split_ranges@ == splits(result@.take(i as int), range),
        decreases result@.len() - i,
    {
        proof {
            assert(result@.take(i + 1).drop_last() =~= result@.take(i as int));
            assert(result@.take(i + 1).last() == result@[i as int]);
        }
        let existing = result[i];
        if range.start >= existing.end || range.end <= existing.start {
            kept_ranges.push(existing);
        } else if range.start <= existing.start && range.end >= existing.end {
        } else if range.start > existing.start && range.end < existing.end {
            split_ranges.push(StyledRange { start: range.end, end: existing.end, style: existing.style });
            kept_ranges.push(StyledRange { start: existing.start, end: range.start, style: existing.style });
        } else if range.start > existing.start {
            kept_ranges.push(StyledRange { start: existing.start, end: range.start, style: existing.style });
        } else if range.end < existing.end {
            kept_ranges.push(StyledRange { start: range.end, end: existing.end, style: existing.style });
        } else {
            kept_ranges.push(existing);
        }
        i += 1;
    }
    proof {
        assert(result@.take(i as int) =~= result@);
    }
    let merged = match bg_to_preserve {
        Some(bg_color) => {
            let fg_color = if range.style.fg_color == Some(bg_color) {
                Some(Color::Rgb(255, 255, 255))
            } else {
                range.style.fg_color
            };
            StyledRange {
                start: range.start,
                end: range.end,
                style: PatternStyle { fg_color, bg_color: Some(bg_color), bold: range.style.bold },
            }
        },
        None => range,
    };
    let mut out = kept_ranges;
    out.push(merged);
    let mut j: usize = 0;
    let ghost base = out@;
    while j < split_ranges.len()
        invariant
            j <= split_ranges@.len(),
            out@ == base + split_ranges@.take(j as int),
        decreases split_ranges@.len() - j,
    {
        out.push(split_ranges[j]);
        j += 1;
        proof {
            assert(out@ =~= base + split_ranges@.take(j as int));
        }
    }
    proof {
        assert(split_ranges@.take(j as int) =~= split_ranges@);
    }
    out
}

/// Splits overlapping ranges into non-overlapping segments, merging styles as needed, and
/// orders them by start.
fn split_into_segments(ranges: Vec<StyledRange>) -> (r: Vec<StyledRange>)
    ensures
        r@ == segments_of(ranges@),
        all_well_formed(ranges@) ==> {
            &&& all_apart(r@)
            &&& all_well_formed(r@)
            &&& forall|i: int, j: int| 0 <= i < j < r@.len() ==> (#[trigger] r@[i]).start <= (#[trigger] r@[j]).start
        },
{
    let mut result: Vec<StyledRange> = Vec::new();
    let mut i: usize = 0;
    while i < ranges.len()
        invariant
            i <= ranges@.len(),
            result@ == layered(ranges@.take(i as int)),
        decreases ranges@.len() - i,
    {
        proof {
            assert(ranges@.take(i + 1).drop_last() =~= ranges@.take(i as int));
            assert(ranges@.take(i + 1).last() == ranges@[i as int]);
        }
        result = lay_over(result, ranges[i]);
        i += 1;
    }
    let count = result.len();
    proof {
        assert(ranges@.take(i as int) =~= ranges@);
        assert(layered(ranges@).len() == count);
        if all_well_formed(ranges@) {
            lemma_segments_apart_and_sorted(ranges@);
        }
    }
    sort_by_start(result)
}

fn sort_by_start(segments: Vec<StyledRange>) -> (r: Vec<StyledRange>)
    ensures
        r@ == sorted_segments(segments@),
{
    let mut keys: Vec<(usize, usize)> = Vec::new();
    let mut i: usize = 0;
    while i < segments.len()
        invariant
            i <= segments@.len(),
            keys@ == start_keys(segments@).take(i as int),
        decreases segments@.len() - i,
    {
        keys.push((segments[i].start, i));
        i += 1;
        proof {
            assert(keys@ =~= start_keys(segments@).take(i as int));
        }
    }
    proof {
        assert(keys@ =~= start_keys(segments@));
    }
    let order = sort_pairs(keys, false);
    proof {
        lemma_start_order(segments@);
    }
    let mut out: Vec<StyledRange> = Vec::new();
    let mut k: usize = 0;
    while k < order.len()
        invariant
            k <= order@.len(),
            order@ == sort_stable(start_keys(segments@), false),
            order@.len() == segments@.len(),
            forall|t: int| 0 <= t < order@.len() ==> (#[trigger] order@[t]).1 < segments@.len(),
            out@ == Seq::new(k as nat, |t: int| segments@[order@[t].1 as int]),
        decreases order@.len() - k,
    {
        out.push(segments[order[k].1]);
        k += 1;
        proof {
            assert(out@ =~= Seq::new(k as nat, |t: int| segments@[order@[t].1 as int]));
        }
    }
    out
}

proof fn lemma_start_order(s: Seq<StyledRange>)
    requires
        s.len() <= usize::MAX,
    ensures
        sort_stable(start_keys(s), false).len() == s.len(),
        forall|t: int|
            0 <= t < sort_stable(start_keys(s), false).len() ==> (#[trigger] sort_stable(start_keys(s), false)[t]).1
                < s.len() && sort_stable(start_keys(s), false)[t].0 == s[sort_stable(start_keys(s), false)[t].1 as int].start,
{
    broadcast use vstd::seq_lib::group_to_multiset_ensures;
    let keys = start_keys(s);
    let order = sort_stable(keys, false);
    lemma_sort_stable_props(keys, false);
    assert forall|t: int| 0 <= t < order.len() implies (#[trigger] order[t]).1 < s.len() && order[t].0 == s[order[t].1 as int].start by {
        assert(order.to_multiset().count(order[t]) > 0);
        assert(keys.contains(order[t]));
        let u = choose|u: int| 0 <= u < keys.len() && keys[u] == order[t];
        assert(keys[u] == (s[u].start, u as usize));
    }
}

} // verus!

verus! {

/// A range does not end before it starts.
pub open spec fn well_formed(r: StyledRange) -> bool {
    r.start <= r.end
}

/// Two ranges share no position.
pub open spec fn apart(a: StyledRange, b: StyledRange) -> bool {
    a.end <= b.start || b.end <= a.start
}

/// `a` lies inside `x`.
pub open spec fn within(a: StyledRange, x: StyledRange) -> bool {
    x.start <= a.start && a.end <= x.end
}

/// Every range is well formed.
pub open spec fn all_well_formed(s: Seq<StyledRange>) -> bool {
    forall|i: int| 0 <= i < s.len() ==> well_formed(#[trigger] s[i])
}

/// No two ranges share a position.
pub open spec fn all_apart(s: Seq<StyledRange>) -> bool {
    forall|i: int, j: int| 0 <= i < s.len() && 0 <= j < s.len() && i != j ==> apart(#[trigger] s[i], #[trigger] s[j])
}

proof fn lemma_cut(x: StyledRange, r: StyledRange)
    requires
        well_formed(x),
        well_formed(r),
    ensures
        kept(x, r) matches Some(k) ==> well_formed(k) && within(k, x) && apart(k, r),
        split_of(x, r) matches Some(p) ==> well_formed(p) && within(p, x) && apart(p, r),
        (kept(x, r) is Some && split_of(x, r) is Some) ==> apart(kept(x, r)->0, split_of(x, r)->0),
{
}

proof fn lemma_within_apart(a: StyledRange, x: StyledRange, b: StyledRange, y: StyledRange)
    requires
        within(a, x),
        within(b, y),
        apart(x, y),
    ensures
        apart(a, b),
{
}

proof fn lemma_retained(res: Seq<StyledRange>, r: StyledRange)
    requires
        all_apart(res),
        all_well_formed(res),
        well_formed(r),
    ensures
        all_apart(retained(res, r)),
        all_well_formed(retained(res, r)),
        forall|i: int|
            0 <= i < retained(res, r).len() ==> exists|j: int|
                0 <= j < res.len() && kept(res[j], r) == Some(#[trigger] retained(res, r)[i]),
        forall|i: int| 0 <= i < retained(res, r).len() ==> apart(#[trigger] retained(res, r)[i], r),
    decreases res.len(),
{
    if res.len() > 0 {
        let d = res.drop_last();
        let x = res.last();
        assert forall|i: int, j: int| 0 <= i < d.len() && 0 <= j < d.len() && i != j implies apart(#[trigger] d[i], #[trigger] d[j]) by {
            assert(d[i] == res[i] && d[j] == res[j]);
        }
        lemma_retained(d, r);
        lemma_cut(x, r);
        let rd = retained(d, r);
        let rr = retained(res, r);
        match kept(x, r) {
            Some(k) => {
                assert(rr == rd.push(k));
                assert forall|i: int, j: int| 0 <= i < rr.len() && 0 <= j < rr.len() && i != j implies apart(
                    #[trigger] rr[i],
                    #[trigger] rr[j],
                ) by {
                    if i < rd.len() && j < rd.len() {
                        assert(rr[i] == rd[i] && rr[j] == rd[j]);
                    } else {
                        let a = if i < rd.len() { i } else { j };
                        assert(a < rd.len());
                        let w = choose|w: int| 0 <= w < d.len() && kept(d[w], r) == Some(rd[a]);
                        lemma_cut(d[w], r);
                        assert(apart(res[w], res[res.len() - 1]));
                        lemma_within_apart(rd[a], d[w], k, x);
                    }
                }
                assert forall|i: int|
                    0 <= i < rr.len() implies exists|j: int| 0 <= j < res.len() && kept(res[j], r) == Some(#[trigger] rr[i]) by {
                    if i < rd.len() {
                        let w = choose|w: int| 0 <= w < d.len() && kept(d[w], r) == Some(rd[i]);
                        assert(res[w] == d[w]);
                    } else {
                        assert(kept(res[res.len() - 1], r) == Some(rr[i]));
                    }
                }
            },
            None => {
                assert(rr == rd);
                assert forall|i: int|
                    0 <= i < rr.len() implies exists|j: int| 0 <= j < res.len() && kept(res[j], r) == Some(#[trigger] rr[i]) by {
                    let w = choose|w: int| 0 <= w < d.len() && kept(d[w], r) == Some(rd[i]);
                    assert(res[w] == d[w]);
                }
            },
        }
    }
}

proof fn lemma_splits(res: Seq<StyledRange>, r: StyledRange)
    requires
        all_apart(res),
        all_well_formed(res),
        well_formed(r),
    ensures
        all_apart(splits(res, r)),
        all_well_formed(splits(res, r)),
        forall|i: int|
            0 <= i < splits(res, r).len() ==> exists|j: int|
                0 <= j < res.len() && split_of(res[j], r) == Some(#[trigger] splits(res, r)[i]),
        forall|i: int| 0 <= i < splits(res, r).len() ==> apart(#[trigger] splits(res, r)[i], r),
    decreases res.len(),
{
    if res.len() > 0 {
        let d = res.drop_last();
        let x = res.last();
        assert forall|i: int, j: int| 0 <= i < d.len() && 0 <= j < d.len() && i != j implies apart(#[trigger] d[i], #[trigger] d[j]) by {
            assert(d[i] == res[i] && d[j] == res[j]);
        }
        lemma_splits(d, r);
        lemma_cut(x, r);
        let sd = splits(d, r);
        let ss = splits(res, r);
        match split_of(x, r) {
            Some(p) => {
                assert(ss == sd.push(p));
                assert forall|i: int, j: int| 0 <= i < ss.len() && 0 <= j < ss.len() && i != j implies apart(
                    #[trigger] ss[i],
                    #[trigger] ss[j],
                ) by {
                    if i < sd.len() && j < sd.len() {
                        assert(ss[i] == sd[i] && ss[j] == sd[j]);
                    } else {
                        let a = if i < sd.len() { i } else { j };
                        let w = choose|w: int| 0 <= w < d.len() && split_of(d[w], r) == Some(sd[a]);
                        lemma_cut(d[w], r);
                        assert(apart(res[w], res[res.len() - 1]));
                        lemma_within_apart(sd[a], d[w], p, x);
                    }
                }
                assert forall|i: int|
                    0 <= i < ss.len() implies exists|j: int| 0 <= j < res.len() && split_of(res[j], r) == Some(#[trigger] ss[i]) by {
                    if i < sd.len() {
                        let w = choose|w: int| 0 <= w < d.len() && split_of(d[w], r) == Some(sd[i]);
                        assert(res[w] == d[w]);
                    } else {
                        assert(split_of(res[res.len() - 1], r) == Some(ss[i]));
                    }
                }
            },
            None => {
                assert(ss == sd);
                assert forall|i: int|
                    0 <= i < ss.len() implies exists|j: int| 0 <= j < res.len() && split_of(res[j], r) == Some(#[trigger] ss[i]) by {
                    let w = choose|w: int| 0 <= w < d.len() && split_of(d[w], r) == Some(sd[i]);
                    assert(res[w] == d[w]);
                }
            },
        }
    }
}

proof fn lemma_step(res: Seq<StyledRange>, r: StyledRange)
    requires
        all_apart(res),
        all_well_formed(res),
        well_formed(r),
    ensures
        all_apart(step(res, r)),
        all_well_formed(step(res, r)),
{
    lemma_retained(res, r);
    lemma_splits(res, r);
    let rt = retained(res, r);
    let sp = splits(res, r);
    let m = merged_range(res, r);
    let s = step(res, r);
    assert(m.start == r.start && m.end == r.end);
    let n = rt.len();
    assert forall|i: int| 0 <= i < s.len() implies well_formed(#[trigger] s[i]) by {
        if i < n {
            assert(s[i] == rt[i]);
        } else if i > n {
            assert(s[i] == sp[i - n - 1]);
        }
    }
    assert forall|i: int, j: int| 0 <= i < s.len() && 0 <= j < s.len() && i != j implies apart(#[trigger] s[i], #[trigger] s[j]) by {
        if i < n && j < n {
            assert(s[i] == rt[i] && s[j] == rt[j]);
        } else if i > n && j > n {
            assert(s[i] == sp[i - n - 1] && s[j] == sp[j - n - 1]);
        } else if i == n || j == n {
            if i == n {
                if j < n {
                    assert(apart(rt[j], r));
                } else {
                    assert(apart(sp[j - n - 1], r));
                }
            } else {
                if i < n {
                    assert(apart(rt[i], r));
                } else {
                    assert(apart(sp[i - n - 1], r));
                }
            }
        } else {
            let (a, b) = if i < n { (i, j - n - 1) } else { (j, i - n - 1) };
            let w1 = choose|w: int| 0 <= w < res.len() && kept(res[w], r) == Some(rt[a]);
            let w2 = choose|w: int| 0 <= w < res.len() && split_of(res[w], r) == Some(sp[b]);
            lemma_cut(res[w1], r);
            lemma_cut(res[w2], r);
            if w1 != w2 {
                lemma_within_apart(rt[a], res[w1], sp[b], res[w2]);
            }
        }
    }
}

proof fn lemma_layered(ranges: Seq<StyledRange>)
    requires
        all_well_formed(ranges),
    ensures
        all_apart(layered(ranges)),
        all_well_formed(layered(ranges)),
    decreases ranges.len(),
{
    if ranges.len() > 0 {
        let d = ranges.drop_last();
        assert forall|i: int| 0 <= i < d.len() implies well_formed(#[trigger] d[i]) by {
            assert(d[i] == ranges[i]);
        }
        lemma_layered(d);
        assert(well_formed(ranges[ranges.len() - 1]));
        lemma_step(layered(d), ranges.last());
    }
}

/// The segments of well-formed ranges share no position and are ordered by start.
pub proof fn lemma_segments_apart_and_sorted(ranges: Seq<StyledRange>)
    requires
        all_well_formed(ranges),
        layered(ranges).len() <= usize::MAX,
    ensures
        all_apart(segments_of(ranges)),
        all_well_formed(segments_of(ranges)),
        forall|i: int, j: int|
            0 <= i < j < segments_of(ranges).len() ==> (#[trigger] segments_of(ranges)[i]).start
                <= (#[trigger] segments_of(ranges)[j]).start,
{
    broadcast use vstd::seq_lib::group_to_multiset_ensures;
    lemma_layered(ranges);
    let s = layered(ranges);
    let keys = start_keys(s);
    let order = sort_stable(keys, false);
    let out = segments_of(ranges);
    lemma_start_order(s);
    lemma_sort_stable_props(keys, false);
    assert(keys.no_duplicates()) by {
        assert forall|i: int, j: int| 0 <= i < keys.len() && 0 <= j < keys.len() && i != j implies keys[i] != keys[j] by {
            assert(keys[i].1 == i as usize && keys[j].1 == j as usize);
        }
    }
    keys.lemma_multiset_has_no_duplicates();
    assert(order.no_duplicates()) by {
        assert forall|x: (usize, usize)| order.to_multiset().contains(x) implies order.to_multiset().count(x) == 1 by {
            assert(order.to_multiset() == keys.to_multiset());
        }
        order.lemma_multiset_has_no_duplicates_conv();
    }
    assert forall|i: int| 0 <= i < out.len() implies well_formed(#[trigger] out[i]) by {
        assert(out[i] == s[order[i].1 as int]);
    }
    assert forall|i: int, j: int| 0 <= i < out.len() && 0 <= j < out.len() && i != j implies apart(#[trigger] out[i], #[trigger] out[j]) by {
        assert(out[i] == s[order[i].1 as int] && out[j] == s[order[j].1 as int]);
        assert(order[i] != order[j]);
        assert(order[i].0 == s[order[i].1 as int].start && order[j].0 == s[order[j].1 as int].start);
        if order[i].1 == order[j].1 {
            assert(order[i] == order[j]);
        }
    }
    assert forall|i: int, j: int| 0 <= i < j < out.len() implies (#[trigger] out[i]).start <= (#[trigger] out[j]).start by {
        assert(crate::sorting::in_order(order[i].0, order[j].0, false));
        assert(out[i] == s[order[i].1 as int] && out[j] == s[order[j].1 as int]);
    }
}


/// The range covers position `p`.
pub open spec fn covers(r: StyledRange, p: int) -> bool {
    r.start <= p < r.end
}

/// The position of the last range that covers `p`, if any.
pub open spec fn last_cover(ranges: Seq<StyledRange>, p: int) -> Option<int>
    decreases ranges.len(),
{
    if ranges.len() == 0 {
        None
    } else if covers(ranges.last(), p) {
        Some(ranges.len() - 1)
    } else {
        last_cover(ranges.drop_last(), p)
    }
}

/// The style position `p` gets: that of the last range covering it, as that range was
/// laid over the ones before it (taking their background when it has none; see
/// `merged_range`).
pub open spec fn style_at(ranges: Seq<StyledRange>, p: int) -> Option<PatternStyle> {
    match last_cover(ranges, p) {
        Some(k) => Some(merged_range(layered(ranges.take(k)), ranges[k]).style),
        None => None,
    }
}

proof fn lemma_cut_covers(x: StyledRange, r: StyledRange, p: int)
    requires
        well_formed(x),
        well_formed(r),
        !covers(r, p),
    ensures
        covers(x, p) <==> ((kept(x, r) matches Some(k) && covers(k, p)) || (split_of(x, r) matches Some(q) && covers(q, p))),
        kept(x, r) matches Some(k) ==> k.style == x.style,
        split_of(x, r) matches Some(q) ==> q.style == x.style,
{
}

proof fn lemma_retained_has(res: Seq<StyledRange>, r: StyledRange, j: int)
    requires
        0 <= j < res.len(),
        kept(res[j], r) is Some,
    ensures
        retained(res, r).contains(kept(res[j], r)->0),
    decreases res.len(),
{
    let d = res.drop_last();
    if j < res.len() - 1 {
        assert(d[j] == res[j]);
        lemma_retained_has(d, r, j);
        let k = choose|k: int| 0 <= k < retained(d, r).len() && retained(d, r)[k] == kept(res[j], r)->0;
        match kept(res.last(), r) {
            Some(x) => assert(retained(res, r)[k] == retained(d, r)[k]),
            None => {},
        }
    } else {
        assert(retained(res, r) == retained(d, r).push(kept(res[j], r)->0));
        assert(retained(res, r)[retained(d, r).len() as int] == kept(res[j], r)->0);
    }
}

proof fn lemma_splits_has(res: Seq<StyledRange>, r: StyledRange, j: int)
    requires
        0 <= j < res.len(),
        split_of(res[j], r) is Some,
    ensures
        splits(res, r).contains(split_of(res[j], r)->0),
    decreases res.len(),
{
    let d = res.drop_last();
    if j < res.len() - 1 {
        assert(d[j] == res[j]);
        lemma_splits_has(d, r, j);
        let k = choose|k: int| 0 <= k < splits(d, r).len() && splits(d, r)[k] == split_of(res[j], r)->0;
        match split_of(res.last(), r) {
            Some(x) => assert(splits(res, r)[k] == splits(d, r)[k]),
            None => {},
        }
    } else {
        assert(splits(res, r) == splits(d, r).push(split_of(res[j], r)->0));
        assert(splits(res, r)[splits(d, r).len() as int] == split_of(res[j], r)->0);
    }
}

/// Over the layered ranges, a position is covered exactly when some range covers it, and
/// every segment that covers it has the style `style_at` gives.
proof fn lemma_layered_covers(ranges: Seq<StyledRange>, p: int)
    requires
        all_well_formed(ranges),
    ensures
        (exists|i: int| 0 <= i < layered(ranges).len() && covers(#[trigger] layered(ranges)[i], p)) <==> last_cover(
            ranges,
            p,
        ) is Some,
        forall|i: int|
            0 <= i < layered(ranges).len() && covers(#[trigger] layered(ranges)[i], p) ==> style_at(ranges, p) == Some(
                layered(ranges)[i].style,
            ),
    decreases ranges.len(),
{
    if ranges.len() > 0 {
        let d = ranges.drop_last();
        let r = ranges.last();
        assert forall|i: int| 0 <= i < d.len() implies well_formed(#[trigger] d[i]) by {
            assert(d[i] == ranges[i]);
        }
        assert(well_formed(ranges[ranges.len() - 1]));
        lemma_layered_covers(d, p);
        lemma_layered(d);
        let res = layered(d);
        lemma_retained(res, r);
        lemma_splits(res, r);
        let rt = retained(res, r);
        let sp = splits(res, r);
        let m = merged_range(res, r);
        let l = layered(ranges);
        let n = rt.len() as int;
        assert(l == step(res, r));
        assert(m.start == r.start && m.end == r.end);
        assert(ranges.take(ranges.len() - 1) =~= d);
        if covers(r, p) {
            assert(l[n] == m);
            assert(covers(l[n], p));
            assert forall|i: int| 0 <= i < l.len() && covers(#[trigger] l[i], p) implies style_at(ranges, p) == Some(
                l[i].style,
            ) by {
                if i < n {
                    assert(l[i] == rt[i]);
                    assert(apart(rt[i], r));
                } else if i > n {
                    assert(l[i] == sp[i - n - 1]);
                    assert(apart(sp[i - n - 1], r));
                }
            }
        } else {
            assert(last_cover(ranges, p) == last_cover(d, p));
            if let Some(k) = last_cover(d, p) {
                assert(0 <= k < d.len()) by {
                    lemma_last_cover_range(d, p);
                }
                assert(ranges.take(k) =~= d.take(k));
                assert(ranges[k] == d[k]);
            }
            assert(style_at(ranges, p) == style_at(d, p));
            assert forall|i: int| 0 <= i < l.len() && covers(#[trigger] l[i], p) implies style_at(ranges, p) == Some(
                l[i].style,
            ) && exists|j: int| 0 <= j < res.len() && covers(#[trigger] res[j], p) by {
                if i < n {
                    assert(l[i] == rt[i]);
                    let w = choose|w: int| 0 <= w < res.len() && kept(res[w], r) == Some(rt[i]);
                    lemma_cut(res[w], r);
                    lemma_cut_covers(res[w], r, p);
                    assert(covers(res[w], p));
                } else if i > n {
                    assert(l[i] == sp[i - n - 1]);
                    let w = choose|w: int| 0 <= w < res.len() && split_of(res[w], r) == Some(sp[i - n - 1]);
                    lemma_cut(res[w], r);
                    lemma_cut_covers(res[w], r, p);
                    assert(covers(res[w], p));
                }
            }
            if exists|j: int| 0 <= j < res.len() && covers(#[trigger] res[j], p) {
                let j = choose|j: int| 0 <= j < res.len() && covers(#[trigger] res[j], p);
                assert(well_formed(res[j]));
                lemma_cut_covers(res[j], r, p);
                if kept(res[j], r) is Some && covers(kept(res[j], r)->0, p) {
                    let k = kept(res[j], r)->0;
                    lemma_retained_has(res, r, j);
                    let q = choose|q: int| 0 <= q < rt.len() && rt[q] == k;
                    assert(l[q] == rt[q]);
                    assert(covers(l[q], p));
                } else {
                    let k = split_of(res[j], r)->0;
                    lemma_splits_has(res, r, j);
                    let q = choose|q: int| 0 <= q < sp.len() && sp[q] == k;
                    assert(l[n + 1 + q] == sp[q]);
                    assert(covers(l[n + 1 + q], p));
                }
            }
        }
    }
}

proof fn lemma_last_cover_range(ranges: Seq<StyledRange>, p: int)
    ensures
        last_cover(ranges, p) matches Some(k) ==> 0 <= k < ranges.len() && covers(ranges[k], p),
    decreases ranges.len(),
{
    if ranges.len() > 0 {
        lemma_last_cover_range(ranges.drop_last(), p);
        if let Some(k) = last_cover(ranges.drop_last(), p) {
            assert(ranges.drop_last()[k] == ranges[k]);
        }
    }
}

/// Resolving well-formed ranges into segments covers exactly the positions some range
/// covers: each such position lies in exactly one segment, whose style is that of the last
/// range covering it as that range was laid over the ones before it (`style_at`); no
/// other position lies in a segment.
pub proof fn lemma_segments_cover(ranges: Seq<StyledRange>, p: int)
    requires
        all_well_formed(ranges),
        layered(ranges).len() <= usize::MAX,
    ensures
        (exists|i: int| 0 <= i < segments_of(ranges).len() && covers(#[trigger] segments_of(ranges)[i], p))
            <==> last_cover(ranges, p) is Some,
        forall|i: int|
            0 <= i < segments_of(ranges).len() && covers(#[trigger] segments_of(ranges)[i], p) ==> style_at(ranges, p)
                == Some(segments_of(ranges)[i].style),
        forall|i: int, j: int|
            0 <= i < segments_of(ranges).len() && 0 <= j < segments_of(ranges).len() && covers(
                #[trigger] segments_of(ranges)[i],
                p,
            ) && covers(#[trigger] segments_of(ranges)[j], p) ==> i == j,
{
    broadcast use vstd::seq_lib::group_to_multiset_ensures;
    lemma_segments_apart_and_sorted(ranges);
    lemma_layered_covers(ranges, p);
    let s = layered(ranges);
    let keys = start_keys(s);
    let order = sort_stable(keys, false);
    let out = segments_of(ranges);
    lemma_start_order(s);
    lemma_sort_stable_props(keys, false);
    assert forall|i: int| 0 <= i < out.len() && covers(#[trigger] out[i], p) implies style_at(ranges, p) == Some(
        out[i].style,
    ) && exists|j: int| 0 <= j < s.len() && covers(#[trigger] s[j], p) by {
        assert(out[i] == s[order[i].1 as int]);
    }
    if exists|j: int| 0 <= j < s.len() && covers(#[trigger] s[j], p) {
        let j = choose|j: int| 0 <= j < s.len() && covers(#[trigger] s[j], p);
        assert(keys[j] == (s[j].start, j as usize));
        assert(keys.to_multiset().count(keys[j]) > 0);
        assert(order.contains(keys[j]));
        let t = choose|t: int| 0 <= t < order.len() && order[t] == keys[j];
        assert(out[t] == s[j]);
        assert(covers(out[t], p));
    }
}

proof fn lemma_first_event_from(events: Seq<HighlightPattern>, text: Seq<char>, k: int)
    requires
        0 <= k,
    ensures
        first_event_from(events, text, k) matches Some(j) ==> k <= j < events.len() && matcher_matches(
            events[j].matcher,
            text,
        ) && forall|i: int| k <= i < j ==> !matcher_matches(#[trigger] events[i].matcher, text),
        first_event_from(events, text, k) is None ==> forall|i: int|
            k <= i < events.len() ==> !matcher_matches(#[trigger] events[i].matcher, text),
    decreases events.len() - k,
{
    if k < events.len() {
        lemma_first_event_from(events, text, k + 1);
    }
}

/// A line takes the style of an event pattern that matches it and that no earlier
/// matching event pattern precedes; a line no event pattern matches takes no line style.
pub proof fn law_line_style_first_event(events: Seq<HighlightPattern>, text: Seq<char>)
    ensures
        match line_style(events, text) {
            Some(s) => exists|j: int|
                0 <= j < events.len() && matcher_matches(#[trigger] events[j].matcher, text) && s == events[j].style
                    && forall|i: int| 0 <= i < j ==> !matcher_matches(#[trigger] events[i].matcher, text),
            None => forall|i: int| 0 <= i < events.len() ==> !matcher_matches(#[trigger] events[i].matcher, text),
        },
{
    lemma_first_event_from(events, text, 0);
}

} // verus!
