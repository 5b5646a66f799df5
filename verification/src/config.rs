//! The configuration: highlights, events and predefined filters, and how they become
//! patterns, styles and colors.
use vstd::prelude::*;
use vstd::string::StringExecFns;
use crate::filter::{ActiveFilterMode, FilterPattern, FilterSpec};
use crate::highlighter::{Color, HighlightPattern, PatternStyle};
use crate::log_event::EventPattern;
use crate::matcher::{regex_compiles, PatternMatchType, PatternMatcher, PlainMatch, RegexMatcher};
use crate::utils::{str_eq, utf8};

verus! {

/// The configuration.
#[derive(Debug)]
pub struct Config {
    /// The path the configuration was loaded from.
    pub path: Option<String>,
    /// Inline patterns to highlight.
    pub highlights: Vec<HighlightConfig>,
    /// Event patterns for coloring and tracking.
    pub events: Vec<EventConfig>,
    /// Predefined filters.
    pub filters: Vec<FilterConfig>,
    pub default_event_fg_color_index: Option<u8>,
    pub default_event_bg_color_index: Option<u8>,
}

/// A file of predefined filters.
#[derive(Debug)]
pub struct Filters {
    /// Predefined filters.
    pub filters: Vec<FilterConfig>,
}

/// A style as written in the configuration.
#[derive(Debug, Clone)]
pub struct StyleConfig {
    /// Foreground color.
    pub fg: Option<String>,
    /// Background color.
    pub bg: Option<String>,
    /// Bold text.
    pub bold: bool,
}

/// A highlight as written in the configuration.
#[derive(Debug, Clone)]
pub struct HighlightConfig {
    /// Match pattern. Can be a substring or regex.
    pub pattern: String,
    /// Whether the pattern is a regex or a simple substring.
    pub regex: bool,
    /// Whether the pattern matching is case-sensitive.
    pub case_sensitive: bool,
    /// Style to use for highlighting. If None, a style will be generated.
    pub style: Option<StyleConfig>,
}

/// An event as written in the configuration.
#[derive(Debug, Clone)]
pub struct EventConfig {
    /// Name of the event.
    pub name: String,
    /// Match pattern. Can be a substring or regex.
    pub pattern: String,
    /// Whether the pattern is a regex or a simple substring.
    pub regex: bool,
    /// Style to use for the whole line. If None, default style is applied.
    pub style: Option<StyleConfig>,
}

/// A filter as written in the configuration.
#[derive(Debug, Clone)]
pub struct FilterConfig {
    /// Match pattern.
    pub pattern: String,
    /// Filter mode: "include" or "exclude".
    pub mode: String,
    /// Whether the pattern matching is case-sensitive.
    pub case_sensitive: bool,
    /// Whether this filter is enabled by default.
    pub enabled: bool,
}

/// What reading the configuration file gave.
#[derive(Debug)]
pub enum ConfigSource {
    /// There is no file at the path.
    Missing,
    /// The file could not be read; the error's text.
    ReadFailed(String),
    /// The file is not a valid configuration; the error's text.
    ParseFailed(String),
    /// The configuration the file holds.
    Parsed(Config),
}

/// The lower-case mapping of a text, as `str::to_lowercase` gives it.
pub uninterp spec fn lowercase(s: Seq<char>) -> Seq<char>;

/// `str::to_lowercase`.
#[verifier::external_body]
fn to_lower(s: &str) -> (r: String)
    ensures
        r@ == lowercase(s@),
{
    s.to_lowercase()
}

/// The mode a filter configuration asks for: exclude when its mode reads "exclude" in
/// any case, include otherwise.
pub open spec fn mode_of(mode: Seq<char>) -> ActiveFilterMode {
    if lowercase(mode) == "exclude"@ {
        ActiveFilterMode::Exclude
    } else {
        ActiveFilterMode::Include
    }
}

/// The filter a filter configuration gives.
pub open spec fn filter_of(fc: FilterConfig) -> FilterSpec {
    FilterSpec { pattern: fc.pattern@, mode: mode_of(fc.mode@), case_sensitive: fc.case_sensitive, enabled: fc.enabled }
}

/// The color a lower-case name stands for.
pub open spec fn color_named(s: Seq<char>) -> Option<Color> {
    if s == "red"@ {
        Some(Color::Red)
    } else if s == "green"@ {
        Some(Color::Green)
    } else if s == "yellow"@ {
        Some(Color::Yellow)
    } else if s == "blue"@ {
        Some(Color::Blue)
    } else if s == "magenta"@ {
        Some(Color::Magenta)
    } else if s == "cyan"@ {
        Some(Color::Cyan)
    } else if s == "white"@ {
        Some(Color::White)
    } else if s == "black"@ {
        Some(Color::Black)
    } else if s == "gray"@ {
        Some(Color::Gray)
    } else if s == "darkgray"@ {
        Some(Color::DarkGray)
    } else if s == "lightred"@ {
        Some(Color::LightRed)
    } else if s == "lightgreen"@ {
        Some(Color::LightGreen)
    } else if s == "lightyellow"@ {
        Some(Color::LightYellow)
    } else if s == "lightblue"@ {
        Some(Color::LightBlue)
    } else if s == "lightmagenta"@ {
        Some(Color::LightMagenta)
    } else if s == "lightcyan"@ {
        Some(Color::LightCyan)
    } else {
        None
    }
}

/// The djb2 hash of bytes on 32 bits: start from 5381, then for each byte multiply by 33
/// and add the byte, wrapping.
pub open spec fn djb2(bytes: Seq<u8>) -> u32
    decreases bytes.len(),
{
    if bytes.len() == 0 {
        5381
    } else {
        ((djb2(bytes.drop_last()) as int * 33 + bytes.last() as int) % 0x1_0000_0000) as u32
    }
}

/// The first color of each bright band of the 256-color palette.
pub open spec fn bright_band(i: int) -> u8 {
    seq![82u8, 118, 154, 190, 196, 202, 208, 214, 220, 226][i]
}

/// The palette color a pattern is given: a band chosen by its hash modulo 10, and a color
/// within the band by its hash modulo 6.
pub open spec fn color_for(pattern: Seq<char>) -> Color {
    let h = djb2(utf8(pattern));
    Color::Indexed((bright_band((h % 10) as int) + h % 6) as u8)
}

/// The style a style configuration gives.
pub open spec fn style_of(sc: StyleConfig) -> PatternStyle {
    PatternStyle {
        fg_color: match sc.fg {
            Some(c) => color_named(lowercase(c@)),
            None => None,
        },
        bg_color: match sc.bg {
            Some(c) => color_named(lowercase(c@)),
            None => None,
        },
        bold: sc.bold,
    }
}

/// A filter configuration as the filter pattern it gives.
fn filter_from_config(filter_config: &FilterConfig) -> (r: FilterPattern)
    ensures
        r@ == filter_of(*filter_config),
{
    let lower = to_lower(filter_config.mode.as_str());
    proof {
        reveal_strlit("exclude");
    }
    let mode = if str_eq(lower.as_str(), "exclude") {
        ActiveFilterMode::Exclude
    } else {
        ActiveFilterMode::Include
    };
    FilterPattern {
        pattern: filter_config.pattern.clone(),
        mode,
        case_sensitive: filter_config.case_sensitive,
        enabled: filter_config.enabled,
    }
}

fn filters_from_configs(configs: &Vec<FilterConfig>) -> (r: Vec<FilterPattern>)
    ensures
        r@.len() == configs@.len(),
        forall|i: int| 0 <= i < r@.len() ==> (#[trigger] r@[i])@ == filter_of(configs@[i]),
{
    let mut out: Vec<FilterPattern> = Vec::new();
    let mut i: usize = 0;
    while i < configs.len()
        invariant
            i <= configs@.len(),
            out@.len() == i,
            forall|k: int| 0 <= k < i ==> (#[trigger] out@[k])@ == filter_of(configs@[k]),
        decreases configs@.len() - i,
    {
        out.push(filter_from_config(&configs[i]));
        i += 1;
    }
    out
}

impl Filters {
    /// The filter patterns of the file, in order.
    pub fn parse_filter_patterns(&self) -> (r: Vec<FilterPattern>)
        ensures
            r@.len() == self.filters@.len(),
            forall|i: int| 0 <= i < r@.len() ==> (#[trigger] r@[i])@ == filter_of(self.filters@[i]),
    {
        filters_from_configs(&self.filters)
    }
}

impl Default for Filters {
    fn default() -> (r: Self)
        ensures
            r.filters@.len() == 0,
    {
        Filters { filters: Vec::new() }
    }
}

impl Default for Config {
    fn default() -> (r: Self)
        ensures
            r.path() is None,
            r.highlights@.len() == 0,
            r.events@.len() == 0,
            r.filters@.len() == 0,
            r.default_event_fg_color_index is None,
            r.default_event_bg_color_index is None,
    {
        Config {
            path: None,
            highlights: Vec::new(),
            events: Vec::new(),
            filters: Vec::new(),
            default_event_fg_color_index: None,
            default_event_bg_color_index: None,
        }
    }
}

/// The error text for a configuration file that could not be read.
pub open spec fn read_error_text(path: Seq<char>, err: Seq<char>) -> Seq<char> {
    "Failed to read config file '"@ + path + "': "@ + err
}

/// The error text for a configuration file that could not be parsed.
pub open spec fn parse_error_text(path: Seq<char>, err: Seq<char>) -> Seq<char> {
    "Failed to parse config file '"@ + path + "': "@ + err
}

impl Config {
    /// The path the configuration was loaded from.
    pub closed spec fn path(&self) -> Option<Seq<char>> {
        match self.path {
            Some(p) => Some(p@),
            None => None,
        }
    }

    /// A configuration from what reading the file at `config_path` gave: the default one
    /// when there is no file, an error text when it could not be read or parsed, and
    /// otherwise the parsed one, remembering its path.
    pub fn load(config_path: &str, source: ConfigSource) -> (r: Result<Self, String>)
        ensures
            match source {
                ConfigSource::Missing => r matches Ok(c) && c.path() is None && c.highlights@.len() == 0
                    && c.events@.len() == 0 && c.filters@.len() == 0 && c.default_event_fg_color_index is None
                    && c.default_event_bg_color_index is None,
                ConfigSource::ReadFailed(e) => r matches Err(m) && m@ == read_error_text(config_path@, e@),
                ConfigSource::ParseFailed(e) => r matches Err(m) && m@ == parse_error_text(config_path@, e@),
                ConfigSource::Parsed(c) => r matches Ok(d) && d.path() == Some(config_path@) && d.highlights
                    == c.highlights && d.events == c.events && d.filters == c.filters
                    && d.default_event_fg_color_index == c.default_event_fg_color_index
                    && d.default_event_bg_color_index == c.default_event_bg_color_index,
            },
    {
        match source {
            ConfigSource::Missing => Ok(Self::default()),
            ConfigSource::ReadFailed(e) => {
                let m = String::from_str("Failed to read config file '").concat(config_path).concat("': ").concat(
                    e.as_str(),
                );
                Err(m)
            },
            ConfigSource::ParseFailed(e) => {
                let m = String::from_str("Failed to parse config file '").concat(config_path).concat("': ").concat(
                    e.as_str(),
                );
                Err(m)
            },
            ConfigSource::Parsed(mut config) => {
                config.path = Some(String::from_str(config_path));
                Ok(config)
            },
        }
    }

    /// The path of the configuration file, if it was loaded from one.
    pub fn get_path(&self) -> (r: Option<&String>)
        ensures
            match r {
                Some(p) => self.path() == Some(p@),
                None => self.path() is None,
            },
    {
        self.path.as_ref()
    }

    /// The filter patterns of the configuration, in order.
    pub fn parse_filter_patterns(&self) -> (r: Vec<FilterPattern>)
        ensures
            r@.len() == self.filters@.len(),
            forall|i: int| 0 <= i < r@.len() ==> (#[trigger] r@[i])@ == filter_of(self.filters@[i]),
    {
        filters_from_configs(&self.filters)
    }

    /// Parses a color name, in any case; none for an unknown name.
    pub fn parse_color(color_str: &str) -> (r: Option<Color>)
        ensures
            r == color_named(lowercase(color_str@)),
    {
        let lower = to_lower(color_str);
        let s = lower.as_str();
        proof {
            reveal_strlit("red");
            reveal_strlit("green");
            reveal_strlit("yellow");
            reveal_strlit("blue");
            reveal_strlit("magenta");
            reveal_strlit("cyan");
            reveal_strlit("white");
            reveal_strlit("black");
            reveal_strlit("gray");
            reveal_strlit("darkgray");
            reveal_strlit("lightred");
            reveal_strlit("lightgreen");
            reveal_strlit("lightyellow");
            reveal_strlit("lightblue");
            reveal_strlit("lightmagenta");
            reveal_strlit("lightcyan");
        }
        if str_eq(s, "red") {
            Some(Color::Red)
        } else if str_eq(s, "green") {
            Some(Color::Green)
        } else if str_eq(s, "yellow") {
            Some(Color::Yellow)
        } else if str_eq(s, "blue") {
            Some(Color::Blue)
        } else if str_eq(s, "magenta") {
            Some(Color::Magenta)
        } else if str_eq(s, "cyan") {
            Some(Color::Cyan)
        } else if str_eq(s, "white") {
            Some(Color::White)
        } else if str_eq(s, "black") {
            Some(Color::Black)
        } else if str_eq(s, "gray") {
            Some(Color::Gray)
        } else if str_eq(s, "darkgray") {
            Some(Color::DarkGray)
        } else if str_eq(s, "lightred") {
            Some(Color::LightRed)
        } else if str_eq(s, "lightgreen") {
            Some(Color::LightGreen)
        } else if str_eq(s, "lightyellow") {
            Some(Color::LightYellow)
        } else if str_eq(s, "lightblue") {
            Some(Color::LightBlue)
        } else if str_eq(s, "lightmagenta") {
            Some(Color::LightMagenta)
        } else if str_eq(s, "lightcyan") {
            Some(Color::LightCyan)
        } else {
            None
        }
    }

    /// Generates a deterministic color from a pattern using the djb2 hash.
    pub fn hash_to_color(pattern: &str) -> (r: Color)
        ensures
            r == color_for(pattern@),
    {
        let bytes = pattern.as_bytes();
        let mut hash: u32 = 5381;
        let mut i: usize = 0;
        while i < bytes.len()
            invariant
                i <= bytes@.len(),
                bytes@ == utf8(pattern@),
                hash == djb2(bytes@.take(i as int)),
            decreases bytes@.len() - i,
        {
            proof {
                assert(bytes@.take(i + 1).drop_last() =~= bytes@.take(i as int));
                assert(bytes@.take(i + 1).last() == bytes@[i as int]);
            }
            hash = ((hash as u64 * 33 + bytes[i] as u64) % 0x1_0000_0000) as u32;
            i += 1;
        }
        proof {
            assert(bytes@.take(i as int) =~= bytes@);
        }
        let bright_ranges: [u8; 10] = [82, 118, 154, 190, 196, 202, 208, 214, 220, 226];
        let band = (hash % 10) as usize;
        let range_start = bright_ranges[band];
        proof {
            assert(bright_ranges@ =~= seq![82u8, 118, 154, 190, 196, 202, 208, 214, 220, 226]);
            assert(range_start <= 226);
        }
        let color_index = range_start + (hash % 6) as u8;
        Color::Indexed(color_index)
    }

    fn parse_style_config(style_config: &StyleConfig) -> (r: PatternStyle)
        ensures
            r == style_of(*style_config),
    {
        let fg_color = match &style_config.fg {
            Some(c) => Self::parse_color(c.as_str()),
            None => None,
        };
        let bg_color = match &style_config.bg {
            Some(c) => Self::parse_color(c.as_str()),
            None => None,
        };
        PatternStyle { fg_color, bg_color, bold: style_config.bold }
    }
}

/// The highlight pattern for a pattern text, match type and style: none for a regular
/// expression that does not compile.
pub open spec fn pattern_made(pattern: Seq<char>, match_type: PatternMatchType, h: Option<HighlightPattern>, style: PatternStyle) -> bool {
    match match_type {
        PatternMatchType::Regex => if regex_compiles(pattern) {
            match h {
                Some(x) => x.name is None && x.style == style && (match x.matcher {
                    PatternMatcher::Regex(m) => m.source() == pattern,
                    PatternMatcher::Plain(_) => false,
                }),
                None => false,
            }
        } else {
            h is None
        },
        PatternMatchType::Plain(cs) => match h {
            Some(x) => x.name is None && x.style == style && (match x.matcher {
                PatternMatcher::Plain(p) => p.pattern@ == pattern && p.case_sensitive == cs,
                PatternMatcher::Regex(_) => false,
            }),
            None => false,
        },
    }
}

fn make_pattern(pattern: &str, match_type: PatternMatchType, style: PatternStyle) -> (r: Option<HighlightPattern>)
    ensures
        pattern_made(pattern@, match_type, r, style),
{
    let matcher = match match_type {
        PatternMatchType::Regex => match RegexMatcher::compile(pattern) {
            Some(m) => PatternMatcher::Regex(m),
            None => {
                return None;
            },
        },
        PatternMatchType::Plain(case_sensitive) => PatternMatcher::Plain(
            PlainMatch { pattern: String::from_str(pattern), case_sensitive },
        ),
    };
    Some(HighlightPattern { name: None, matcher, style })
}

/// The style a highlight configuration gives: its own, or a generated foreground color.
pub open spec fn highlight_style(hc: HighlightConfig) -> PatternStyle {
    match hc.style {
        Some(sc) => style_of(sc),
        None => PatternStyle { fg_color: Some(color_for(hc.pattern@)), bg_color: None, bold: false },
    }
}

/// The style an event configuration gives: its own, else the default palette colors when
/// some are set, else no colors.
pub open spec fn event_style(c: Config, ec: EventConfig) -> PatternStyle {
    match ec.style {
        Some(sc) => style_of(sc),
        None => if c.default_event_fg_color_index is Some || c.default_event_bg_color_index is Some {
            PatternStyle {
                fg_color: match c.default_event_fg_color_index {
                    Some(i) => Some(Color::Indexed(i)),
                    None => None,
                },
                bg_color: match c.default_event_bg_color_index {
                    Some(i) => Some(Color::Indexed(i)),
                    None => None,
                },
                bold: false,
            }
        } else {
            PatternStyle { fg_color: None, bg_color: None, bold: false }
        },
    }
}

/// How many of the highlight configurations give a pattern: all but the regular
/// expressions that do not compile.
pub open spec fn kept_highlights(hs: Seq<HighlightConfig>) -> Seq<HighlightConfig>
    decreases hs.len(),
{
    if hs.len() == 0 {
        Seq::empty()
    } else {
        let rest = kept_highlights(hs.drop_last());
        if hs.last().regex && !regex_compiles(hs.last().pattern@) {
            rest
        } else {
            rest.push(hs.last())
        }
    }
}

/// The event configurations that give a pattern: all but the regular expressions that do
/// not compile.
pub open spec fn kept_events(es: Seq<EventConfig>) -> Seq<EventConfig>
    decreases es.len(),
{
    if es.len() == 0 {
        Seq::empty()
    } else {
        let rest = kept_events(es.drop_last());
        if es.last().regex && !regex_compiles(es.last().pattern@) {
            rest
        } else {
            rest.push(es.last())
        }
    }
}

/// The event pattern that a configured event gives: its name, enabled and uncounted,
/// neither critical nor custom, matching its pattern as a regular expression or as
/// case-sensitive plain text.
pub open spec fn event_pattern_from(p: EventPattern, ec: EventConfig) -> bool {
    &&& p.name@ == ec.name@
    &&& p.enabled
    &&& p.count == 0
    &&& !p.critical
    &&& !p.is_custom
    &&& if ec.regex {
        p.matcher matches PatternMatcher::Regex(m) && m.source() == ec.pattern@
    } else {
        p.matcher matches PatternMatcher::Plain(m) && m.pattern@ == ec.pattern@ && m.case_sensitive
    }
}

impl Config {
    /// The highlight patterns of the configuration, skipping regular expressions that do
    /// not compile.
    pub fn parse_highlight_patterns(&self) -> (r: Vec<HighlightPattern>)
        ensures
            r@.len() == kept_highlights(self.highlights@).len(),
            forall|i: int|
                0 <= i < r@.len() ==> {
                    let hc = kept_highlights(self.highlights@)[i];
                    pattern_made(
                        hc.pattern@,
                        if hc.regex {
                            PatternMatchType::Regex
                        } else {
                            PatternMatchType::Plain(hc.case_sensitive)
                        },
                        Some(#[trigger] r@[i]),
                        highlight_style(hc),
                    )
                },
    {
        let mut out: Vec<HighlightPattern> = Vec::new();
        let mut i: usize = 0;
        while i < self.highlights.len()
            invariant
                i <= self.highlights@.len(),
                out@.len() == kept_highlights(self.highlights@.take(i as int)).len(),
                forall|k: int|
                    0 <= k < out@.len() ==> {
                        let hc = kept_highlights(self.highlights@.take(i as int))[k];
                        pattern_made(
                            hc.pattern@,
                            if hc.regex {
                                PatternMatchType::Regex
                            } else {
                                PatternMatchType::Plain(hc.case_sensitive)
                            },
                            Some(#[trigger] out@[k]),
                            highlight_style(hc),
                        )
                    },
            decreases self.highlights@.len() - i,
        {
            proof {
                assert(self.highlights@.take(i + 1).drop_last() =~= self.highlights@.take(i as int));
                assert(self.highlights@.take(i + 1).last() == self.highlights@[i as int]);
            }
            let hl_config = &self.highlights[i];
            let style = match &hl_config.style {
                Some(style_config) => Self::parse_style_config(style_config),
                None => PatternStyle { fg_color: Some(Self::hash_to_color(hl_config.pattern.as_str())), bg_color: None, bold: false },
            };
            let match_type = if hl_config.regex {
                PatternMatchType::Regex
            } else {
                PatternMatchType::Plain(hl_config.case_sensitive)
            };
            match make_pattern(hl_config.pattern.as_str(), match_type, style) {
                Some(p) => {
                    out.push(p);
                },
                None => {},
            }
            i += 1;
        }
        proof {
            assert(self.highlights@.take(i as int) =~= self.highlights@);
        }
        out
    }

    /// The event patterns for line coloring, skipping regular expressions that do not
    /// compile; plain ones are case-sensitive.
    pub fn parse_highlight_event_patterns(&self) -> (r: Vec<HighlightPattern>)
        ensures
            r@.len() == kept_events(self.events@).len(),
            forall|i: int|
                0 <= i < r@.len() ==> {
                    let ec = kept_events(self.events@)[i];
                    pattern_made(
                        ec.pattern@,
                        if ec.regex {
                            PatternMatchType::Regex
                        } else {
                            PatternMatchType::Plain(true)
                        },
                        Some(#[trigger] r@[i]),
                        event_style(*self, ec),
                    )
                },
    {
        let mut out: Vec<HighlightPattern> = Vec::new();
        let mut i: usize = 0;
        while i < self.events.len()
            invariant
                i <= self.events@.len(),
                out@.len() == kept_events(self.events@.take(i as int)).len(),
                forall|k: int|
                    0 <= k < out@.len() ==> {
                        let ec = kept_events(self.events@.take(i as int))[k];
                        pattern_made(
                            ec.pattern@,
                            if ec.regex {
                                PatternMatchType::Regex
                            } else {
                                PatternMatchType::Plain(true)
                            },
                            Some(#[trigger] out@[k]),
                            event_style(*self, ec),
                        )
                    },
            decreases self.events@.len() - i,
        {
            proof {
                assert(self.events@.take(i + 1).drop_last() =~= self.events@.take(i as int));
                assert(self.events@.take(i + 1).last() == self.events@[i as int]);
            }
            let ev_config = &self.events[i];
            let style = match &ev_config.style {
                Some(style_config) => Self::parse_style_config(style_config),
                None => {
                    if self.default_event_fg_color_index.is_some() || self.default_event_bg_color_index.is_some() {
                        PatternStyle {
                            fg_color: match self.default_event_fg_color_index {
                                Some(i) => Some(Color::Indexed(i)),
                                None => None,
                            },
                            bg_color: match self.default_event_bg_color_index {
                                Some(i) => Some(Color::Indexed(i)),
                                None => None,
                            },
                            bold: false,
                        }
                    } else {
                        PatternStyle::default()
                    }
                },
            };
            let match_type = if ev_config.regex {
                PatternMatchType::Regex
            } else {
                PatternMatchType::Plain(true)
            };
            match make_pattern(ev_config.pattern.as_str(), match_type, style) {
                Some(p) => {
                    out.push(p);
                },
                None => {},
            }
            i += 1;
        }
        proof {
            assert(self.events@.take(i as int) =~= self.events@);
        }
        out
    }

    /// The event patterns for the event tracker, enabled and uncounted, skipping regular
    /// expressions that do not compile; plain ones are case-sensitive.
    pub fn parse_log_event_patterns(&self) -> (r: Vec<EventPattern>)
        ensures
            r@.len() == kept_events(self.events@).len(),
            forall|i: int|
                0 <= i < r@.len() ==> event_pattern_from(#[trigger] r@[i], kept_events(self.events@)[i]),
    {
        let mut out: Vec<EventPattern> = Vec::new();
        let mut i: usize = 0;
        while i < self.events.len()
            invariant
                i <= self.events@.len(),
                out@.len() == kept_events(self.events@.take(i as int)).len(),
                forall|k: int|
                    0 <= k < out@.len() ==> event_pattern_from(#[trigger] out@[k], kept_events(self.events@.take(i as int))[k]),
            decreases self.events@.len() - i,
        {
            proof {
                assert(self.events@.take(i + 1).drop_last() =~= self.events@.take(i as int));
                assert(self.events@.take(i + 1).last() == self.events@[i as int]);
            }
            let ev_config = &self.events[i];
            let matcher = if ev_config.regex {
                match RegexMatcher::compile(ev_config.pattern.as_str()) {
                    Some(m) => Some(PatternMatcher::Regex(m)),
                    None => None,
                }
            } else {
                Some(PatternMatcher::Plain(PlainMatch { pattern: ev_config.pattern.clone(), case_sensitive: true }))
            };
            match matcher {
                Some(m) => {
                    out.push(
                        EventPattern {
                            name: ev_config.name.clone(),
                            matcher: m,
                            enabled: true,
                            count: 0,
                            critical: false,
                            is_custom: false,
                        },
                    );
                },
                None => {},
            }
            i += 1;
        }
        proof {
            assert(self.events@.take(i as int) =~= self.events@);
        }
        out
    }
}

} // verus!
