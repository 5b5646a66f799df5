//! Plain-text and regular-expression pattern matching.
use vstd::prelude::*;
use regex::Regex;
use vstd::utf8::is_char_boundary;
use crate::utils::{
    contains_ignore_case, contains_spec, contains_ignore_case_spec, matches_at, matches_at_ignore_case,
    text_contains, text_matches, utf8, window_matches,
};

verus! {

/// A compiled regular expression from the `regex` crate.
#[verifier::external_type_specification]
#[verifier::external_body]
pub struct ExRegex(Regex);

/// Whether `regex::Regex::new` accepts the pattern.
pub uninterp spec fn regex_compiles(pattern: Seq<char>) -> bool;

/// What `regex::Regex::is_match` returns for the pattern on the text.
pub uninterp spec fn regex_is_match(pattern: Seq<char>, text: Seq<char>) -> bool;

/// The byte ranges that `regex::Regex::find_iter` yields for the pattern on the text.
pub uninterp spec fn regex_find_all(pattern: Seq<char>, text: Seq<char>) -> Seq<(usize, usize)>;

/// The byte range that `regex::Regex::find` returns for the pattern on the text.
pub uninterp spec fn regex_find_first(pattern: Seq<char>, text: Seq<char>) -> Option<(usize, usize)>;

/// The byte ranges of the capture groups that `regex::Regex::captures` gives for the
/// pattern on the text (group 0 is the whole match), or none when it does not match.
pub uninterp spec fn regex_captures(pattern: Seq<char>, text: Seq<char>) -> Option<Seq<Option<(usize, usize)>>>;

/// The text that `regex::Regex::replace_all` with an empty replacement returns.
pub uninterp spec fn regex_remove_all(pattern: Seq<char>, text: Seq<char>) -> Seq<char>;

/// A regular expression together with the pattern it was compiled from.
#[derive(Debug)]
pub struct RegexMatcher {
    pattern: String,
    compiled: Regex,
}

impl RegexMatcher {
    /// The pattern the regular expression was compiled from.
    pub closed spec fn source(&self) -> Seq<char> {
        self.pattern@
    }

    /// Compiles a pattern with `regex::Regex::new`; `None` when the crate rejects it.
    #[verifier::external_body]
    pub(crate) fn compile(pattern: &str) -> (r: Option<Self>)
        ensures
            r is Some <==> regex_compiles(pattern@),
            r matches Some(m) ==> m.source() == pattern@,
    {
        match Regex::new(pattern) {
            Ok(compiled) => Some(RegexMatcher { pattern: pattern.to_string(), compiled }),
            Err(_) => None,
        }
    }

    /// `regex::Regex::is_match`: whether the expression matches anywhere in the text.
    #[verifier::external_body]
    pub(crate) fn is_match(&self, text: &str) -> (r: bool)
        ensures
            r == regex_is_match(self.source(), text@),
    {
        self.compiled.is_match(text)
    }

    /// `regex::Regex::find_iter`: the byte ranges of the successive non-overlapping
    /// matches, in order (each ends before or where the next starts), each within the text
    /// and on character boundaries.
    #[verifier::external_body]
    pub(crate) fn find_all(&self, text: &str) -> (r: Vec<(usize, usize)>)
        ensures
            r@ == regex_find_all(self.source(), text@),
            forall|i: int| 0 <= i < r@.len() ==> (#[trigger] r@[i]).0 <= r@[i].1 <= utf8(text@).len(),
            forall|i: int, j: int| 0 <= i < j < r@.len() ==> (#[trigger] r@[i]).1 <= (#[trigger] r@[j]).0,
            forall|i: int|
                0 <= i < r@.len() ==> is_char_boundary(utf8(text@), (#[trigger] r@[i]).0 as int) && is_char_boundary(
                    utf8(text@),
                    r@[i].1 as int,
                ),
    {
        self.compiled.find_iter(text).map(|m| (m.start(), m.end())).collect()
    }

    /// `regex::Regex::find`: the byte range of the first match, within the text and on
    /// character boundaries.
    #[verifier::external_body]
    pub(crate) fn find_first(&self, text: &str) -> (r: Option<(usize, usize)>)
        ensures
            r == regex_find_first(self.source(), text@),
            r matches Some(m) ==> m.0 <= m.1 <= utf8(text@).len() && is_char_boundary(utf8(text@), m.0 as int)
                && is_char_boundary(utf8(text@), m.1 as int),
    {
        self.compiled.find(text).map(|m| (m.start(), m.end()))
    }

    /// `regex::Regex::captures`: the byte range of each capture group (none for a group
    /// that did not take part), each within the text and on character boundaries.
    #[verifier::external_body]
    pub(crate) fn captures(&self, text: &str) -> (r: Option<Vec<Option<(usize, usize)>>>)
        ensures
            match r {
                Some(v) => regex_captures(self.source(), text@) == Some(v@),
                None => regex_captures(self.source(), text@) is None,
            },
            r matches Some(v) ==> forall|i: int|
                0 <= i < v@.len() ==> ((#[trigger] v@[i]) matches Some(m) ==> m.0 <= m.1 <= utf8(text@).len()
                    && is_char_boundary(utf8(text@), m.0 as int) && is_char_boundary(utf8(text@), m.1 as int)),
    {
        match self.compiled.captures(text) {
            Some(caps) => Some(caps.iter().map(|g| g.map(|m| (m.start(), m.end()))).collect()),
            None => None,
        }
    }

    /// `regex::Regex::replace_all` with an empty replacement: the text with every match
    /// removed.
    #[verifier::external_body]
    pub(crate) fn remove_all(&self, text: &str) -> (r: String)
        ensures
            r@ == regex_remove_all(self.source(), text@),
    {
        self.compiled.replace_all(text, "").to_string()
    }
}

/// Type of pattern matching to use.
#[derive(Debug)]
pub enum PatternMatchType {
    /// Plain text, with the given case sensitivity.
    Plain(bool),
    /// A regular expression.
    Regex,
}

/// The non-overlapping occurrences of `n` in `h` scanning left to right from byte `pos`,
/// as `str::match_indices` finds them for a non-empty pattern.
pub open spec fn occurrences_from(h: Seq<u8>, n: Seq<u8>, pos: int) -> Seq<(usize, usize)>
    decreases h.len() - pos,
{
    if n.len() == 0 || pos < 0 || pos + n.len() > h.len() {
        Seq::empty()
    } else if matches_at(h, n, pos) {
        seq![(pos as usize, (pos + n.len()) as usize)] + occurrences_from(h, n, pos + n.len())
    } else {
        occurrences_from(h, n, pos + 1)
    }
}

/// Every position, overlapping or not, where `n` occurs in `h` ignoring ASCII case,
/// starting from byte `pos`; an empty pattern occurs nowhere.
pub open spec fn occurrences_ignore_case_from(h: Seq<u8>, n: Seq<u8>, pos: int) -> Seq<(usize, usize)>
    decreases h.len() - pos,
{
    if n.len() == 0 || pos < 0 || pos + n.len() > h.len() {
        Seq::empty()
    } else if matches_at_ignore_case(h, n, pos) {
        seq![(pos as usize, (pos + n.len()) as usize)] + occurrences_ignore_case_from(h, n, pos + 1)
    } else {
        occurrences_ignore_case_from(h, n, pos + 1)
    }
}

/// Byte `i` of `h` starts a character (it is not a UTF-8 continuation byte).
pub open spec fn starts_char(h: Seq<u8>, i: int) -> bool {
    (h[i] & 0xC0) != 0x80
}

/// The empty ranges at every character boundary from byte `pos` on, the end included,
/// as `str::match_indices` finds them for an empty pattern.
pub open spec fn boundaries_from(h: Seq<u8>, pos: int) -> Seq<(usize, usize)>
    decreases h.len() - pos,
{
    if pos < 0 || pos > h.len() {
        Seq::empty()
    } else if pos == h.len() {
        seq![(pos as usize, pos as usize)]
    } else if starts_char(h, pos) {
        seq![(pos as usize, pos as usize)] + boundaries_from(h, pos + 1)
    } else {
        boundaries_from(h, pos + 1)
    }
}

/// Plain text pattern matcher with optional case sensitivity.
#[derive(Debug, Clone)]
pub struct PlainMatch {
    /// The plain text pattern to match
    pub pattern: String,
    /// Whether matching should be case-sensitive
    pub case_sensitive: bool,
}

/// The ranges a plain match finds in a text.
pub open spec fn plain_find_spec(pattern: Seq<char>, case_sensitive: bool, text: Seq<char>) -> Seq<(usize, usize)> {
    if case_sensitive {
        if pattern.len() == 0 {
            boundaries_from(utf8(text), 0)
        } else {
            occurrences_from(utf8(text), utf8(pattern), 0)
        }
    } else {
        occurrences_ignore_case_from(utf8(text), utf8(pattern), 0)
    }
}

proof fn lemma_utf8_empty(s: Seq<char>)
    ensures
        (utf8(s).len() == 0) == (s.len() == 0),
{
    crate::utils::lemma_utf8_injective(s, Seq::empty());
    assert(utf8(Seq::<char>::empty()) =~= Seq::<u8>::empty()) by {
        reveal_with_fuel(vstd::utf8::encode_utf8, 1);
    }
}

impl PlainMatch {
    /// Returns true if the pattern occurs anywhere in the haystack.
    pub fn is_match(&self, haystack: &str) -> (r: bool)
        ensures
            r == text_matches(haystack@, self.pattern@, self.case_sensitive),
    {
        text_contains(haystack, self.pattern.as_str(), self.case_sensitive)
    }

    /// Finds the occurrences of the pattern as byte ranges: non-overlapping ones when
    /// case-sensitive, every one when not.
    pub fn find(&self, haystack: &str) -> (r: Vec<(usize, usize)>)
        ensures
            r@ == plain_find_spec(self.pattern@, self.case_sensitive, haystack@),
            forall|i: int| 0 <= i < r@.len() ==> (#[trigger] r@[i]).0 <= r@[i].1,
    {
        let h = haystack.as_bytes();
        let n = self.pattern.as_str().as_bytes();
        proof {
            lemma_utf8_empty(self.pattern@);
        }
        if self.case_sensitive {
            if n.len() == 0 {
                find_boundaries(h)
            } else {
                find_exact(h, n)
            }
        } else {
            find_ignore_case(h, n)
        }
    }
}

fn find_exact(h: &[u8], n: &[u8]) -> (r: Vec<(usize, usize)>)
    requires
        n@.len() > 0,
    ensures
        forall|i: int| 0 <= i < r@.len() ==> (#[trigger] r@[i]).0 <= r@[i].1,
        r@ == occurrences_from(h@, n@, 0),
{
    let mut out: Vec<(usize, usize)> = Vec::new();
    let mut pos: usize = 0;
    while n.len() <= h.len() - pos
        invariant
            forall|i: int| 0 <= i < out@.len() ==> (#[trigger] out@[i]).0 <= out@[i].1,
            n@.len() > 0,
            pos <= h@.len(),
            h@.len() == h.len(),
            n@.len() == n.len(),
            out@ + occurrences_from(h@, n@, pos as int) == occurrences_from(h@, n@, 0),
        decreases h@.len() - pos,
    {
        if window_matches(h, n, pos, false) {
            proof {
                assert(occurrences_from(h@, n@, pos as int) == seq![(pos, (pos + n@.len()) as usize)]
                    + occurrences_from(h@, n@, pos + n@.len()));
                assert(out@.push((pos, (pos + n@.len()) as usize)) + occurrences_from(h@, n@, pos + n@.len())
                    =~= out@ + occurrences_from(h@, n@, pos as int));
            }
            out.push((pos, pos + n.len()));
            pos = pos + n.len();
        } else {
            pos = pos + 1;
        }
    }
    proof {
        assert(occurrences_from(h@, n@, pos as int) == Seq::<(usize, usize)>::empty());
        assert(out@ + Seq::<(usize, usize)>::empty() =~= out@);
    }
    out
}

fn find_ignore_case(h: &[u8], n: &[u8]) -> (r: Vec<(usize, usize)>)
    ensures
        forall|i: int| 0 <= i < r@.len() ==> (#[trigger] r@[i]).0 <= r@[i].1,
        r@ == occurrences_ignore_case_from(h@, n@, 0),
{
    let mut out: Vec<(usize, usize)> = Vec::new();
    if n.len() == 0 || n.len() > h.len() {
        return out;
    }
    let mut pos: usize = 0;
    while n.len() <= h.len() - pos
        invariant
            forall|i: int| 0 <= i < out@.len() ==> (#[trigger] out@[i]).0 <= out@[i].1,
            n@.len() > 0,
            pos <= h@.len(),
            h@.len() == h.len(),
            n@.len() == n.len(),
            out@ + occurrences_ignore_case_from(h@, n@, pos as int) == occurrences_ignore_case_from(h@, n@, 0),
        decreases h@.len() - pos,
    {
        if window_matches(h, n, pos, true) {
            proof {
                assert(out@.push((pos, (pos + n@.len()) as usize)) + occurrences_ignore_case_from(h@, n@, pos + 1)
                    =~= out@ + occurrences_ignore_case_from(h@, n@, pos as int));
            }
            out.push((pos, pos + n.len()));
        }
        pos = pos + 1;
    }
    proof {
        assert(out@ + Seq::<(usize, usize)>::empty() =~= out@);
    }
    out
}

fn find_boundaries(h: &[u8]) -> (r: Vec<(usize, usize)>)
    ensures
        forall|i: int| 0 <= i < r@.len() ==> (#[trigger] r@[i]).0 <= r@[i].1,
        r@ == boundaries_from(h@, 0),
{
    let mut out: Vec<(usize, usize)> = Vec::new();
    let mut pos: usize = 0;
    while pos < h.len()
        invariant
            forall|i: int| 0 <= i < out@.len() ==> (#[trigger] out@[i]).0 <= out@[i].1,
            pos <= h@.len(),
            h@.len() == h.len(),
            out@ + boundaries_from(h@, pos as int) == boundaries_from(h@, 0),
        decreases h@.len() - pos,
    {
        if (h[pos] & 0xC0) != 0x80 {
            proof {
                assert(out@.push((pos, pos)) + boundaries_from(h@, pos + 1)
                    =~= out@ + boundaries_from(h@, pos as int));
            }
            out.push((pos, pos));
        }
        pos = pos + 1;
    }
    proof {
        assert(out@.push((pos, pos)) =~= out@ + boundaries_from(h@, pos as int));
    }
    out.push((pos, pos));
    out
}

/// Pattern matching strategy for text highlighting and events.
#[derive(Debug)]
pub enum PatternMatcher {
    /// Plain string matching with runtime case sensitivity.
    Plain(PlainMatch),
    /// Regular expression matching.
    Regex(RegexMatcher),
}

/// Whether a matcher matches a text.
pub open spec fn matcher_matches(m: PatternMatcher, text: Seq<char>) -> bool {
    match m {
        PatternMatcher::Plain(p) => text_matches(text, p.pattern@, p.case_sensitive),
        PatternMatcher::Regex(r) => regex_is_match(r.source(), text),
    }
}

/// The byte ranges a matcher finds in a text.
pub open spec fn matcher_find_all(m: PatternMatcher, text: Seq<char>) -> Seq<(usize, usize)> {
    match m {
        PatternMatcher::Plain(p) => plain_find_spec(p.pattern@, p.case_sensitive, text),
        PatternMatcher::Regex(r) => regex_find_all(r.source(), text),
    }
}

impl PatternMatcher {
    /// Checks if the pattern matches the given text.
    pub fn matches(&self, text: &str) -> (r: bool)
        ensures
            r == matcher_matches(*self, text@),
    {
        match self {
            PatternMatcher::Plain(s) => s.is_match(text),
            PatternMatcher::Regex(r) => r.is_match(text),
        }
    }

    /// Finds all occurrences of the pattern in the text, as byte ranges.
    pub fn find_all(&self, text: &str) -> (r: Vec<(usize, usize)>)
        ensures
            r@ == matcher_find_all(*self, text@),
            forall|i: int| 0 <= i < r@.len() ==> (#[trigger] r@[i]).0 <= r@[i].1,
    {
        match self {
            PatternMatcher::Plain(p) => p.find(text),
            PatternMatcher::Regex(r) => r.find_all(text),
        }
    }
}

} // verus!
