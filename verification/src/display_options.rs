//! Display options: patterns hidden from shown lines, and simple toggles.
use vstd::prelude::*;
use vstd::string::StringExecFns;
use crate::matcher::{regex_compiles, regex_remove_all, RegexMatcher};
use crate::utils::str_eq;

verus! {

/// Type of display option.
#[derive(Debug)]
pub enum DisplayOptionType {
    /// Hides text matching the regex pattern from display.
    HidePattern(RegexMatcher),
    /// Simple toggle option (e.g., disable colors).
    Toggle,
}

/// A single display option with its configuration.
#[derive(Debug)]
pub struct DisplayOption {
    /// Display name of the option.
    pub name: String,
    /// Whether this option is currently enabled.
    pub enabled: bool,
    /// The type and behavior of this option.
    pub option_type: DisplayOptionType,
}

impl DisplayOption {
    /// Creates a disabled option that hides the text the regular expression matches.
    pub fn new_hide_pattern(name: &str, pattern: &str) -> (r: Self)
        requires
            regex_compiles(pattern@),
        ensures
            r.name@ == name@,
            !r.enabled,
            r.option_type matches DisplayOptionType::HidePattern(m) && m.source() == pattern@,
    {
        let m = match RegexMatcher::compile(pattern) {
            Some(m) => m,
            None => {
                assert(false);
                return DisplayOption::new_toggle(name);
            },
        };
        Self { name: String::from_str(name), enabled: false, option_type: DisplayOptionType::HidePattern(m) }
    }

    /// Creates a disabled option that hides the text the regular expression matches, or
    /// none when the pattern does not compile.
    pub fn try_hide_pattern(name: &str, pattern: &str) -> (r: Option<Self>)
        ensures
            r is Some <==> regex_compiles(pattern@),
            r matches Some(o) ==> o.name@ == name@ && !o.enabled && (o.option_type matches DisplayOptionType::HidePattern(
                m,
            ) && m.source() == pattern@),
    {
        match RegexMatcher::compile(pattern) {
            Some(_) => Some(DisplayOption::new_hide_pattern(name, pattern)),
            None => None,
        }
    }

    /// Creates a disabled toggle option.
    pub fn new_toggle(name: &str) -> (r: Self)
        ensures
            r.name@ == name@,
            !r.enabled,
            r.option_type is Toggle,
    {
        Self { name: String::from_str(name), enabled: false, option_type: DisplayOptionType::Toggle }
    }
}

/// Manages display options for customizing log line rendering.
#[derive(Debug)]
pub struct DisplayOptions {
    /// All available display options.
    pub options: Vec<DisplayOption>,
    /// Index of the currently selected option.
    pub selected_index: usize,
}

/// A line with the text of each enabled hide pattern removed, in order.
pub open spec fn hidden_applied(ops: Seq<DisplayOption>, line: Seq<char>) -> Seq<char>
    decreases ops.len(),
{
    if ops.len() == 0 {
        line
    } else {
        let prev = hidden_applied(ops.drop_last(), line);
        let o = ops.last();
        if o.enabled {
            match o.option_type {
                DisplayOptionType::HidePattern(m) => regex_remove_all(m.source(), prev),
                DisplayOptionType::Toggle => prev,
            }
        } else {
            prev
        }
    }
}

/// The first option with the given name, at or after position `k`.
pub open spec fn named_option_from(ops: Seq<DisplayOption>, name: Seq<char>, k: int) -> Option<int>
    decreases ops.len() - k,
{
    if k < 0 || k >= ops.len() {
        None
    } else if ops[k].name@ == name {
        Some(k)
    } else {
        named_option_from(ops, name, k + 1)
    }
}

/// The pattern of a leading syslog date, time and host.
pub open spec fn syslog_prefix_pattern() -> Seq<char> {
    "^\\w{3}\\s+\\d{2}\\s+\\d{2}:\\d{2}:\\d{2}\\s+\\S+\\s+"@
}

/// The pattern of a leading ISO 8601 timestamp.
pub open spec fn iso_prefix_pattern() -> Seq<char> {
    "^\\d{4}-\\d{2}-\\d{2}T\\d{2}:\\d{2}:\\d{2}\\.\\d+[+-]\\d{4}\\s+"@
}

fn hide_or_toggle(name: &str, pattern: &str) -> (r: DisplayOption)
    ensures
        r.name@ == name@,
        !r.enabled,
        regex_compiles(pattern@) ==> (r.option_type matches DisplayOptionType::HidePattern(m) && m.source() == pattern@),
{
    match DisplayOption::try_hide_pattern(name, pattern) {
        Some(o) => o,
        None => DisplayOption::new_toggle(name),
    }
}

impl Default for DisplayOptions {
    fn default() -> (r: Self)
        ensures
            r.options@.len() == 3,
            r.options@[0].name@ == "Hide Date, Time & Hostname"@,
            regex_compiles(syslog_prefix_pattern()) ==> (r.options@[0].option_type matches DisplayOptionType::HidePattern(m)
                && m.source() == syslog_prefix_pattern()),
            r.options@[1].name@ == "Hide ISO8601 Timestamp"@,
            regex_compiles(iso_prefix_pattern()) ==> (r.options@[1].option_type matches DisplayOptionType::HidePattern(m)
                && m.source() == iso_prefix_pattern()),
            r.options@[2].name@ == "Disable Colors"@,
            r.options@[2].option_type is Toggle,
            forall|i: int| 0 <= i < 3 ==> !(#[trigger] r.options@[i]).enabled,
            r.selected_index == 0,
    {
        let mut options: Vec<DisplayOption> = Vec::new();
        options.push(hide_or_toggle("Hide Date, Time & Hostname", "^\\w{3}\\s+\\d{2}\\s+\\d{2}:\\d{2}:\\d{2}\\s+\\S+\\s+"));
        options.push(
            hide_or_toggle("Hide ISO8601 Timestamp", "^\\d{4}-\\d{2}-\\d{2}T\\d{2}:\\d{2}:\\d{2}\\.\\d+[+-]\\d{4}\\s+"),
        );
        options.push(DisplayOption::new_toggle("Disable Colors"));
        Self { options, selected_index: 0 }
    }
}

impl DisplayOptions {
    /// Moves the selection to the previous option, wrapping to the end.
    pub fn move_selection_up(&mut self)
        ensures
            final(self).options@ == old(self).options@,
            final(self).selected_index == if old(self).options@.len() == 0 {
                old(self).selected_index as int
            } else if old(self).selected_index == 0 {
                old(self).options@.len() - 1
            } else {
                old(self).selected_index - 1
            },
    {
        if self.options.len() > 0 {
            self.selected_index = if self.selected_index == 0 {
                self.options.len() - 1
            } else {
                self.selected_index - 1
            };
        }
    }

    /// Moves the selection to the next option, wrapping to the beginning.
    pub fn move_selection_down(&mut self)
        requires
            old(self).selected_index < usize::MAX,
        ensures
            final(self).options@ == old(self).options@,
            final(self).selected_index == if old(self).options@.len() == 0 {
                old(self).selected_index as int
            } else {
                (old(self).selected_index + 1) % (old(self).options@.len() as int)
            },
    {
        if self.options.len() > 0 {
            self.selected_index = (self.selected_index + 1) % self.options.len();
        }
    }

    /// Toggles the enabled state of the currently selected option.
    pub fn toggle_selected_option(&mut self)
        ensures
            final(self).selected_index == old(self).selected_index,
            old(self).selected_index < old(self).options@.len() ==> final(self).options@ == old(self).options@.update(
                old(self).selected_index as int,
                DisplayOption {
                    enabled: !old(self).options@[old(self).selected_index as int].enabled,
                    ..old(self).options@[old(self).selected_index as int]
                },
            ),
            old(self).selected_index >= old(self).options@.len() ==> final(self).options@ == old(self).options@,
    {
        if self.selected_index < self.options.len() {
            let i = self.selected_index;
            let e = self.options[i].enabled;
            self.options[i].enabled = !e;
            proof {
                assert(self.options@ =~= old(self).options@.update(
                    i as int,
                    DisplayOption { enabled: !e, ..old(self).options@[i as int] },
                ));
            }
        }
    }

    /// Applies all enabled hide-pattern options to a line, returning the modified text.
    pub fn apply_to_line(&self, line: &str) -> (r: String)
        ensures
            r@ == hidden_applied(self.options@, line@),
    {
        let mut result = String::from_str(line);
        let mut i: usize = 0;
        while i < self.options.len()
            invariant
                i <= self.options@.len(),
                result@ == hidden_applied(self.options@.take(i as int), line@),
            decreases self.options@.len() - i,
        {
            proof {
                assert(self.options@.take(i + 1).drop_last() =~= self.options@.take(i as int));
            }
            let option = &self.options[i];
            if option.enabled {
                match &option.option_type {
                    DisplayOptionType::HidePattern(pattern) => {
                        result = pattern.remove_all(result.as_str());
                    },
                    DisplayOptionType::Toggle => {},
                }
            }
            i += 1;
        }
        proof {
            assert(self.options@.take(i as int) =~= self.options@);
        }
        result
    }

    /// Whether the first option with the given name is enabled; false when there is none.
    pub fn is_enabled(&self, option_name: &str) -> (r: bool)
        ensures
            r == match named_option_from(self.options@, option_name@, 0) {
                Some(k) => self.options@[k].enabled,
                None => false,
            },
    {
        let mut k: usize = 0;
        while k < self.options.len()
            invariant
                k <= self.options@.len(),
                named_option_from(self.options@, option_name@, 0) == named_option_from(self.options@, option_name@, k as int),
            decreases self.options@.len() - k,
        {
            if str_eq(self.options[k].name.as_str(), option_name) {
                return self.options[k].enabled;
            }
            k += 1;
        }
        false
    }
}

} // verus!
