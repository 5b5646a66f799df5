//! Application options: toggles, and one that strips a line's leading timestamp.
use vstd::prelude::*;
use vstd::string::StringSliceAdditionalSpecFns;
use vstd::utf8::decode_utf8;
use crate::matcher::{regex_compiles, regex_find_first, RegexMatcher};
use crate::utils::utf8;

verus! {

/// The options of the application.
#[derive(Debug, Clone, Copy, PartialEq, Eq, Structural)]
pub enum AppOption {
    HideTimestamp,
    DisableColors,
    SearchDisableJumping,
    AlwaysShowMarkedLines,
    AlwaysShowCriticalEvents,
}

/// What an option does when enabled.
#[derive(Debug)]
pub enum OptionAction {
    /// Strips the part of the line the regular expression matches at its start.
    LineTransform(RegexMatcher),
    /// Only switches a behaviour on or off.
    Toggle,
}

/// The definition and state of one option.
#[derive(Debug)]
pub struct AppOptionDef {
    pub option: AppOption,
    pub description: &'static str,
    pub action: OptionAction,
    pub enabled: bool,
}

/// The regular expression an action strips with, if any.
pub open spec fn action_source(a: OptionAction) -> Option<Seq<char>> {
    match a {
        OptionAction::LineTransform(m) => Some(m.source()),
        OptionAction::Toggle => None,
    }
}

impl AppOptionDef {
    /// A disabled option with the given action.
    pub fn new(option: AppOption, description: &'static str, action: OptionAction) -> (r: Self)
        ensures
            r.option == option,
            r.description@ == description@,
            r.action == action,
            !r.enabled,
    {
        AppOptionDef { option, description, action, enabled: false }
    }

    /// A disabled toggle option.
    pub fn new_toggle(option: AppOption, description: &'static str) -> (r: Self)
        ensures
            r.option == option,
            r.description@ == description@,
            r.action is Toggle,
            !r.enabled,
    {
        AppOptionDef { option, description, action: OptionAction::Toggle, enabled: false }
    }

    /// The option's description.
    pub fn get_description(&self) -> (r: &'static str)
        ensures
            r@ == self.description@,
    {
        self.description
    }
}

/// The first option of the kind, at or after position `k`.
pub open spec fn option_position_from(ops: Seq<AppOptionDef>, option: AppOption, k: int) -> Option<int>
    decreases ops.len() - k,
{
    if k < 0 || k >= ops.len() {
        None
    } else if ops[k].option == option {
        Some(k)
    } else {
        option_position_from(ops, option, k + 1)
    }
}

/// The first enabled option that strips lines, at or after position `k`.
pub open spec fn first_transform_from(ops: Seq<AppOptionDef>, k: int) -> Option<int>
    decreases ops.len() - k,
{
    if k < 0 || k >= ops.len() {
        None
    } else if ops[k].enabled && ops[k].action is LineTransform {
        Some(k)
    } else {
        first_transform_from(ops, k + 1)
    }
}

/// How many leading bytes of a line the regular expression strips: up to the end of its
/// first match, when that match starts the line; otherwise none.
pub open spec fn strip_len(source: Seq<char>, line: Seq<char>) -> int {
    match regex_find_first(source, line) {
        Some(m) => if m.0 == 0 {
            m.1 as int
        } else {
            0
        },
        None => 0,
    }
}

/// The options after each `(option, enabled)` entry in turn set the first option of that
/// kind.
pub open spec fn restored_options(ops: Seq<AppOptionDef>, saved: Seq<(AppOption, bool)>) -> Seq<AppOptionDef>
    decreases saved.len(),
{
    if saved.len() == 0 {
        ops
    } else {
        let prev = restored_options(ops, saved.drop_last());
        match option_position_from(prev, saved.last().0, 0) {
            Some(k) => prev.update(k, AppOptionDef { enabled: saved.last().1, ..prev[k] }),
            None => prev,
        }
    }
}

/// Manages app options.
#[derive(Debug)]
pub struct AppOptions {
    /// Vector of option definitions.
    options: Vec<AppOptionDef>,
}

/// The pattern that finds a leading syslog date, time and host, or an ISO 8601
/// timestamp.
pub open spec fn timestamp_prefix_pattern() -> Seq<char> {
    "^(?:\\w{3}\\s+\\d{2}\\s+\\d{2}:\\d{2}:\\d{2}\\s+\\S+\\s+|\\d{4}-\\d{2}-\\d{2}T\\d{2}:\\d{2}:\\d{2}\\.\\d+[+-]\\d{4}\\s+)"@
}

impl Default for AppOptions {
    fn default() -> (r: Self)
        ensures
            r.defs().len() == 5,
            r.defs()[0].option == AppOption::HideTimestamp,
            r.defs()[0].description@ == "Hide Timestamp & Hostname"@,
            regex_compiles(timestamp_prefix_pattern()) ==> action_source(r.defs()[0].action) == Some(
                timestamp_prefix_pattern(),
            ),
            r.defs()[1].option == AppOption::DisableColors && r.defs()[1].description@ == "Disable Colors"@,
            r.defs()[2].option == AppOption::SearchDisableJumping && r.defs()[2].description@
                == "Search: Disable jumping to match"@,
            r.defs()[3].option == AppOption::AlwaysShowMarkedLines && r.defs()[3].description@
                == "Always show marked lines"@,
            r.defs()[4].option == AppOption::AlwaysShowCriticalEvents && r.defs()[4].description@
                == "Always show critical events"@,
            forall|i: int| 1 <= i < 5 ==> (#[trigger] r.defs()[i]).action is Toggle,
            forall|i: int| 0 <= i < 5 ==> !(#[trigger] r.defs()[i]).enabled,
    {
        let pattern = "^(?:\\w{3}\\s+\\d{2}\\s+\\d{2}:\\d{2}:\\d{2}\\s+\\S+\\s+|\\d{4}-\\d{2}-\\d{2}T\\d{2}:\\d{2}:\\d{2}\\.\\d+[+-]\\d{4}\\s+)";
        let action = match RegexMatcher::compile(pattern) {
            Some(m) => OptionAction::LineTransform(m),
            None => OptionAction::Toggle,
        };
        let mut options: Vec<AppOptionDef> = Vec::new();
        options.push(AppOptionDef::new(AppOption::HideTimestamp, "Hide Timestamp & Hostname", action));
        options.push(AppOptionDef::new_toggle(AppOption::DisableColors, "Disable Colors"));
        options.push(AppOptionDef::new_toggle(AppOption::SearchDisableJumping, "Search: Disable jumping to match"));
        options.push(AppOptionDef::new_toggle(AppOption::AlwaysShowMarkedLines, "Always show marked lines"));
        options.push(AppOptionDef::new_toggle(AppOption::AlwaysShowCriticalEvents, "Always show critical events"));
        AppOptions { options }
    }
}

impl AppOptions {
    /// The option definitions, in order.
    pub closed spec fn defs(&self) -> Seq<AppOptionDef> {
        self.options@
    }

    /// Number of options.
    pub fn count(&self) -> (r: usize)
        ensures
            r == self.defs().len(),
    {
        self.options.len()
    }

    /// Whether there are no options.
    pub fn is_empty(&self) -> (r: bool)
        ensures
            r == (self.defs().len() == 0),
    {
        self.options.len() == 0
    }

    /// The options, in order.
    pub fn iter(&self) -> (r: std::slice::Iter<'_, AppOptionDef>)
        ensures
            vstd::std_specs::slice::into_iter_elts(r) == self.defs(),
    {
        broadcast use vstd::std_specs::slice::axiom_spec_slice_iter;
        let r = self.options.as_slice().iter();
        proof {
            assert(vstd::std_specs::iter::IteratorSpec::remaining(&r).unref() =~= self.defs());
        }
        r
    }

    fn position(&self, option: AppOption) -> (r: Option<usize>)
        ensures
            r matches Some(k) ==> option_position_from(self.defs(), option, 0) == Some(k as int) && k < self.defs().len(),
            r is None ==> option_position_from(self.defs(), option, 0) is None,
    {
        let mut k: usize = 0;
        while k < self.options.len()
            invariant
                k <= self.options@.len(),
                option_position_from(self.defs(), option, 0) == option_position_from(self.defs(), option, k as int),
            decreases self.options@.len() - k,
        {
            if self.options[k].option == option {
                return Some(k);
            }
            k += 1;
        }
        None
    }

    /// Whether the first option of the kind is enabled; false when there is none.
    pub fn is_enabled(&self, option: AppOption) -> (r: bool)
        ensures
            r == match option_position_from(self.defs(), option, 0) {
                Some(k) => self.defs()[k].enabled,
                None => false,
            },
    {
        match self.position(option) {
            Some(k) => self.options[k].enabled,
            None => false,
        }
    }

    /// The negation of `is_enabled`.
    pub fn is_disabled(&self, option: AppOption) -> (r: bool)
        ensures
            r == !match option_position_from(self.defs(), option, 0) {
                Some(k) => self.defs()[k].enabled,
                None => false,
            },
    {
        !self.is_enabled(option)
    }

    /// Enables the first option of the kind.
    pub fn enable(&mut self, option: AppOption)
        ensures
            final(self).defs() == match option_position_from(old(self).defs(), option, 0) {
                Some(k) => old(self).defs().update(k, AppOptionDef { enabled: true, ..old(self).defs()[k] }),
                None => old(self).defs(),
            },
    {
        match self.position(option) {
            Some(k) => {
                self.options[k].enabled = true;
                proof {
                    assert(self.defs() =~= old(self).defs().update(
                        k as int,
                        AppOptionDef { enabled: true, ..old(self).defs()[k as int] },
                    ));
                }
            },
            None => {},
        }
    }

    /// Strips a line as the first enabled line-stripping option says; returns the line
    /// unchanged when there is no such option.
    pub fn apply_to_line<'a>(&self, line: &'a str) -> (r: &'a str)
        ensures
            utf8(r@) == match first_transform_from(self.defs(), 0) {
                Some(k) => utf8(line@).subrange(
                    strip_len(action_source(self.defs()[k].action)->0, line@),
                    utf8(line@).len() as int,
                ),
                None => utf8(line@),
            },
    {
        let mut k: usize = 0;
        while k < self.options.len()
            invariant
                k <= self.options@.len(),
                first_transform_from(self.defs(), 0) == first_transform_from(self.defs(), k as int),
            decreases self.options@.len() - k,
        {
            let opt = &self.options[k];
            if opt.enabled {
                match &opt.action {
                    OptionAction::LineTransform(pattern) => {
                        let offset = match pattern.find_first(line) {
                            Some(m) => if m.0 == 0 {
                                m.1
                            } else {
                                0
                            },
                            None => 0,
                        };
                        proof {
                            vstd::utf8::encode_utf8_valid_utf8(line@);
                            vstd::utf8::is_char_boundary_start_end_of_seq(utf8(line@));
                        }
                        let (_, rest) = line.split_at(offset);
                        return rest;
                    },
                    OptionAction::Toggle => {},
                }
            }
            k += 1;
        }
        line
    }

    /// Toggles the option at the given position, if there is one.
    pub fn toggle_option(&mut self, index: usize)
        ensures
            index < old(self).defs().len() ==> final(self).defs() == old(self).defs().update(
                index as int,
                AppOptionDef { enabled: !old(self).defs()[index as int].enabled, ..old(self).defs()[index as int] },
            ),
            index >= old(self).defs().len() ==> final(self).defs() == old(self).defs(),
    {
        if index < self.options.len() {
            let e = self.options[index].enabled;
            self.options[index].enabled = !e;
            proof {
                assert(self.defs() =~= old(self).defs().update(
                    index as int,
                    AppOptionDef { enabled: !e, ..old(self).defs()[index as int] },
                ));
            }
        }
    }

    /// Enables the option at the given position, if there is one.
    pub fn enable_option(&mut self, index: usize)
        ensures
            index < old(self).defs().len() ==> final(self).defs() == old(self).defs().update(
                index as int,
                AppOptionDef { enabled: true, ..old(self).defs()[index as int] },
            ),
            index >= old(self).defs().len() ==> final(self).defs() == old(self).defs(),
    {
        if index < self.options.len() {
            self.options[index].enabled = true;
            proof {
                assert(self.defs() =~= old(self).defs().update(
                    index as int,
                    AppOptionDef { enabled: true, ..old(self).defs()[index as int] },
                ));
            }
        }
    }

    /// The option at the given position.
    pub fn get(&self, index: usize) -> (r: Option<&AppOptionDef>)
        ensures
            index < self.defs().len() ==> r == Some(&self.defs()[index as int]),
            index >= self.defs().len() ==> r is None,
    {
        if index < self.options.len() {
            Some(&self.options[index])
        } else {
            None
        }
    }

    /// Restores enabled states: each `(option, enabled)` entry in turn sets the first
    /// option of that kind.
    pub fn restore(&mut self, saved_options: &[(AppOption, bool)])
        ensures
            final(self).defs() == restored_options(old(self).defs(), saved_options@),
    {
        let mut i: usize = 0;
        while i < saved_options.len()
            invariant
                i <= saved_options@.len(),
                self.defs() == restored_options(old(self).defs(), saved_options@.take(i as int)),
            decreases saved_options@.len() - i,
        {
            let (option, enabled) = saved_options[i];
            proof {
                assert(saved_options@.take(i + 1).drop_last() =~= saved_options@.take(i as int));
            }
            match self.position(option) {
                Some(k) => {
                    let ghost prev = self.defs();
                    self.options[k].enabled = enabled;
                    proof {
                        assert(self.defs() =~= prev.update(k as int, AppOptionDef { enabled, ..prev[k as int] }));
                    }
                },
                None => {},
            }
            i += 1;
        }
        proof {
            assert(saved_options@.take(i as int) =~= saved_options@);
        }
    }
}

} // verus!
