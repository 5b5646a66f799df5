//! The key bindings of each view and overlay, the command a key runs, and how keys are
//! written in the help.
use vstd::prelude::*;
use vstd::string::StringExecFns;
use crate::app::{overlay_view, Overlay, OverlayKind, ViewState};
use crate::command::Command;

verus! {

/// A key, as the terminal reports it.
#[derive(Debug, Clone, Copy, PartialEq, Eq, Structural, Hash)]
pub enum KeyCode {
    Backspace,
    Enter,
    Left,
    Right,
    Up,
    Down,
    Home,
    End,
    PageUp,
    PageDown,
    Tab,
    BackTab,
    Delete,
    Insert,
    F(u8),
    Char(char),
    Null,
    Esc,
    CapsLock,
    ScrollLock,
    NumLock,
    PrintScreen,
    Pause,
    Menu,
    KeypadBegin,
    /// Any other key (media and lone modifier keys).
    Other,
}

/// The modifier keys held with a key, one bit each: shift, control, alt, super, hyper
/// and meta, from the lowest bit up.
#[derive(Debug, Clone, Copy, PartialEq, Eq, Structural, Hash)]
pub struct KeyModifiers {
    pub bits: u8,
}

impl KeyModifiers {
    /// No modifier.
    pub fn empty() -> (r: Self)
        ensures
            r.bits == 0,
    {
        KeyModifiers { bits: 0 }
    }

    /// Shift alone.
    pub fn shift() -> (r: Self)
        ensures
            r.bits == 1,
    {
        KeyModifiers { bits: 1 }
    }

    /// Control alone.
    pub fn control() -> (r: Self)
        ensures
            r.bits == 2,
    {
        KeyModifiers { bits: 2 }
    }

    /// Alt alone.
    pub fn alt() -> (r: Self)
        ensures
            r.bits == 4,
    {
        KeyModifiers { bits: 4 }
    }
}

/// A key with the modifiers held.
#[derive(Debug, Clone, Copy, PartialEq, Eq, Structural, Hash)]
pub struct KeyEvent {
    pub code: KeyCode,
    pub modifiers: KeyModifiers,
}

/// Represents the context for a keybinding.
#[derive(Debug, Clone, PartialEq, Eq, Hash)]
pub enum KeybindingContext {
    View(ViewState),
    Overlay(Overlay),
}

/// A context without the text of a message or an error.
#[derive(Debug, Clone, Copy, PartialEq, Eq, Structural, Hash)]
pub enum ContextKind {
    View(ViewState),
    Overlay(OverlayKind),
}

/// A context as its kind and the text it carries.
pub open spec fn context_view(c: KeybindingContext) -> (ContextKind, Seq<char>) {
    match c {
        KeybindingContext::View(v) => (ContextKind::View(v), Seq::empty()),
        KeybindingContext::Overlay(o) => (ContextKind::Overlay(overlay_view(o).0), overlay_view(o).1),
    }
}

/// A binding as its context, key, modifiers and command.
pub type BindingView = ((ContextKind, Seq<char>), KeyCode, KeyModifiers, Command);

/// A binding in a context that carries no text.
pub open spec fn entry(ctx: ContextKind, code: KeyCode, bits: u8, cmd: Command) -> BindingView {
    ((ctx, Seq::empty()), code, KeyModifiers { bits }, cmd)
}

impl KeybindingContext {
    fn duplicate(&self) -> (r: Self)
        ensures
            context_view(r) == context_view(*self),
    {
        match self {
            KeybindingContext::View(v) => KeybindingContext::View(*v),
            KeybindingContext::Overlay(o) => KeybindingContext::Overlay(
                match o {
                    Overlay::EditFilter => Overlay::EditFilter,
                    Overlay::EventsFilter => Overlay::EventsFilter,
                    Overlay::MarkName => Overlay::MarkName,
                    Overlay::SaveToFile => Overlay::SaveToFile,
                    Overlay::AddCustomEvent => Overlay::AddCustomEvent,
                    Overlay::EditTimeFilter => Overlay::EditTimeFilter,
                    Overlay::Message(s) => Overlay::Message(s.clone()),
                    Overlay::Error(s) => Overlay::Error(s.clone()),
                },
            ),
        }
    }

    fn kind(&self) -> (r: ContextKind)
        ensures
            r == context_view(*self).0,
    {
        match self {
            KeybindingContext::View(v) => ContextKind::View(*v),
            KeybindingContext::Overlay(o) => ContextKind::Overlay(o.kind()),
        }
    }

    fn text(&self) -> (r: &str)
        ensures
            r@ == context_view(*self).1,
    {
        match self {
            KeybindingContext::View(_) => {
                let e = "";
                proof {
                    reveal_strlit("");
                }
                e
            },
            KeybindingContext::Overlay(o) => o.text(),
        }
    }
}

/// A binding's view.
pub open spec fn binding_view(b: ((KeybindingContext, KeyCode, KeyModifiers), Command)) -> BindingView {
    (context_view(b.0.0), b.0.1, b.0.2, b.1)
}

/// The bindings every view and overlay has.
pub open spec fn global_table(ctx: ContextKind) -> Seq<BindingView> {
    seq![
        entry(ctx, KeyCode::Char('c'), 2, Command::Quit),
        entry(ctx, KeyCode::Esc, 0, Command::Cancel),
        entry(ctx, KeyCode::Enter, 0, Command::Confirm),
        entry(ctx, KeyCode::F(1), 0, Command::ToggleHelp)
    ]
}

/// The bindings of `LogView`.
pub open spec fn log_view_bindings_table() -> Seq<BindingView> {
    seq![
        entry(ContextKind::View(ViewState::LogView), KeyCode::Char('q'), 0, Command::Quit),
        entry(ContextKind::View(ViewState::LogView), KeyCode::Up, 0, Command::MoveUp),
        entry(ContextKind::View(ViewState::LogView), KeyCode::Down, 0, Command::MoveDown),
        entry(ContextKind::View(ViewState::LogView), KeyCode::Char('k'), 0, Command::MoveUp),
        entry(ContextKind::View(ViewState::LogView), KeyCode::Char('j'), 0, Command::MoveDown),
        entry(ContextKind::View(ViewState::LogView), KeyCode::PageUp, 0, Command::PageUp),
        entry(ContextKind::View(ViewState::LogView), KeyCode::PageDown, 0, Command::PageDown),
        entry(ContextKind::View(ViewState::LogView), KeyCode::Char('g'), 0, Command::GotoTop),
        entry(ContextKind::View(ViewState::LogView), KeyCode::Char('G'), 1, Command::GotoBottom),
        entry(ContextKind::View(ViewState::LogView), KeyCode::Char('z'), 0, Command::CenterSelected),
        entry(ContextKind::View(ViewState::LogView), KeyCode::Left, 0, Command::ScrollLeft),
        entry(ContextKind::View(ViewState::LogView), KeyCode::Right, 0, Command::ScrollRight),
        entry(ContextKind::View(ViewState::LogView), KeyCode::Char('h'), 0, Command::ScrollLeft),
        entry(ContextKind::View(ViewState::LogView), KeyCode::Char('l'), 0, Command::ScrollRight),
        entry(ContextKind::View(ViewState::LogView), KeyCode::Char('0'), 0, Command::ResetHorizontal),
        entry(ContextKind::View(ViewState::LogView), KeyCode::Char('/'), 0, Command::ActivateActiveSearchMode),
        entry(ContextKind::View(ViewState::LogView), KeyCode::Char('f'), 2, Command::ActivateActiveSearchMode),
        entry(ContextKind::View(ViewState::LogView), KeyCode::Char('n'), 0, Command::SearchNext),
        entry(ContextKind::View(ViewState::LogView), KeyCode::Char('N'), 1, Command::SearchPrevious),
        entry(ContextKind::View(ViewState::LogView), KeyCode::Char('f'), 0, Command::ActivateActiveFilterMode),
        entry(ContextKind::View(ViewState::LogView), KeyCode::Char('F'), 1, Command::ActivateFilterView),
        entry(ContextKind::View(ViewState::LogView), KeyCode::Char(':'), 0, Command::ActivateGotoLineMode),
        entry(ContextKind::View(ViewState::LogView), KeyCode::Char('o'), 0, Command::ActivateOptionsView),
        entry(ContextKind::View(ViewState::LogView), KeyCode::Char('e'), 0, Command::ActivateEventsView),
        entry(ContextKind::View(ViewState::LogView), KeyCode::Char(' '), 0, Command::ToggleMark),
        entry(ContextKind::View(ViewState::LogView), KeyCode::Char('m'), 0, Command::ActivateMarksView),
        entry(ContextKind::View(ViewState::LogView), KeyCode::Char('i'), 0, Command::ActivateFilesView),
        entry(ContextKind::View(ViewState::LogView), KeyCode::Char(']'), 0, Command::MarkNext),
        entry(ContextKind::View(ViewState::LogView), KeyCode::Char('['), 0, Command::MarkPrevious),
        entry(ContextKind::View(ViewState::LogView), KeyCode::Char('}'), 0, Command::EventNext),
        entry(ContextKind::View(ViewState::LogView), KeyCode::Char('{'), 0, Command::EventPrevious),
        entry(ContextKind::View(ViewState::LogView), KeyCode::Char('x'), 0, Command::ToggleExpansion),
        entry(ContextKind::View(ViewState::LogView), KeyCode::Char('X'), 1, Command::CollapseAll),
        entry(ContextKind::View(ViewState::LogView), KeyCode::Char('c'), 0, Command::ToggleCenterCursorMode),
        entry(ContextKind::View(ViewState::LogView), KeyCode::Char('t'), 0, Command::ToggleFollowMode),
        entry(ContextKind::View(ViewState::LogView), KeyCode::Char('p'), 0, Command::TogglePauseMode),
        entry(ContextKind::View(ViewState::LogView), KeyCode::Char('l'), 2, Command::ClearLogBuffer),
        entry(ContextKind::View(ViewState::LogView), KeyCode::Char('s'), 2, Command::ActivateSaveToFileMode),
        entry(ContextKind::View(ViewState::LogView), KeyCode::Char('o'), 2, Command::HistoryBack),
        entry(ContextKind::View(ViewState::LogView), KeyCode::Tab, 0, Command::HistoryForward),
        entry(ContextKind::View(ViewState::LogView), KeyCode::Char('V'), 1, Command::StartSelection)
    ]
}

/// The bindings of `SelectionMode`.
pub open spec fn selection_mode_bindings_table() -> Seq<BindingView> {
    seq![
        entry(ContextKind::View(ViewState::SelectionMode), KeyCode::Char('q'), 0, Command::Quit),
        entry(ContextKind::View(ViewState::SelectionMode), KeyCode::Up, 0, Command::MoveUp),
        entry(ContextKind::View(ViewState::SelectionMode), KeyCode::Down, 0, Command::MoveDown),
        entry(ContextKind::View(ViewState::SelectionMode), KeyCode::Char('k'), 0, Command::MoveUp),
        entry(ContextKind::View(ViewState::SelectionMode), KeyCode::Char('j'), 0, Command::MoveDown),
        entry(ContextKind::View(ViewState::SelectionMode), KeyCode::PageUp, 0, Command::PageUp),
        entry(ContextKind::View(ViewState::SelectionMode), KeyCode::PageDown, 0, Command::PageDown),
        entry(ContextKind::View(ViewState::SelectionMode), KeyCode::Char('g'), 0, Command::GotoTop),
        entry(ContextKind::View(ViewState::SelectionMode), KeyCode::Char('G'), 1, Command::GotoBottom),
        entry(ContextKind::View(ViewState::SelectionMode), KeyCode::Char('y'), 0, Command::CopySelection),
        entry(ContextKind::View(ViewState::SelectionMode), KeyCode::Char(' '), 0, Command::ToggleMark)
    ]
}

/// The bindings of `ActiveSearchMode`.
pub open spec fn search_mode_bindings_table() -> Seq<BindingView> {
    seq![
        entry(ContextKind::View(ViewState::ActiveSearchMode), KeyCode::Tab, 0, Command::TabCompletion),
        entry(ContextKind::View(ViewState::ActiveSearchMode), KeyCode::Char('a'), 4, Command::ToggleCaseSearch),
        entry(ContextKind::View(ViewState::ActiveSearchMode), KeyCode::Up, 0, Command::SearchHistoryPrevious),
        entry(ContextKind::View(ViewState::ActiveSearchMode), KeyCode::Down, 0, Command::SearchHistoryNext)
    ]
}

/// The bindings of `ActiveFilterMode`.
pub open spec fn filter_mode_bindings_table() -> Seq<BindingView> {
    seq![
        entry(ContextKind::View(ViewState::ActiveFilterMode), KeyCode::Tab, 0, Command::TabCompletion),
        entry(ContextKind::View(ViewState::ActiveFilterMode), KeyCode::Char('a'), 4, Command::ToggleCaseFilter),
        entry(ContextKind::View(ViewState::ActiveFilterMode), KeyCode::Char('e'), 4, Command::ToggleActiveFilterModeInOut),
        entry(ContextKind::View(ViewState::ActiveFilterMode), KeyCode::Up, 0, Command::FilterHistoryPrevious),
        entry(ContextKind::View(ViewState::ActiveFilterMode), KeyCode::Down, 0, Command::FilterHistoryNext)
    ]
}

/// The bindings of `FilterView`.
pub open spec fn filter_list_bindings_table() -> Seq<BindingView> {
    seq![
        entry(ContextKind::View(ViewState::FilterView), KeyCode::Char('q'), 0, Command::Quit),
        entry(ContextKind::View(ViewState::FilterView), KeyCode::Up, 0, Command::MoveUp),
        entry(ContextKind::View(ViewState::FilterView), KeyCode::Down, 0, Command::MoveDown),
        entry(ContextKind::View(ViewState::FilterView), KeyCode::Char('k'), 0, Command::MoveUp),
        entry(ContextKind::View(ViewState::FilterView), KeyCode::Char('j'), 0, Command::MoveDown),
        entry(ContextKind::View(ViewState::FilterView), KeyCode::Char(' '), 0, Command::ToggleFilterPattern),
        entry(ContextKind::View(ViewState::FilterView), KeyCode::Delete, 0, Command::RemoveFilterPattern),
        entry(ContextKind::View(ViewState::FilterView), KeyCode::Char('d'), 0, Command::RemoveFilterPattern),
        entry(ContextKind::View(ViewState::FilterView), KeyCode::Char('e'), 0, Command::ActivateEditActiveFilterMode),
        entry(ContextKind::View(ViewState::FilterView), KeyCode::Char('f'), 0, Command::ActivateActiveFilterMode),
        entry(ContextKind::View(ViewState::FilterView), KeyCode::Char('a'), 0, Command::ToggleAllFilterPatterns),
        entry(ContextKind::View(ViewState::FilterView), KeyCode::Char('a'), 4, Command::ToggleFilterPatternCaseSensitive),
        entry(ContextKind::View(ViewState::FilterView), KeyCode::Char('e'), 4, Command::ToggleFilterPatternMode)
    ]
}

/// The bindings of `OptionsView`.
pub open spec fn options_view_bindings_table() -> Seq<BindingView> {
    seq![
        entry(ContextKind::View(ViewState::OptionsView), KeyCode::Char('q'), 0, Command::Quit),
        entry(ContextKind::View(ViewState::OptionsView), KeyCode::Up, 0, Command::MoveUp),
        entry(ContextKind::View(ViewState::OptionsView), KeyCode::Down, 0, Command::MoveDown),
        entry(ContextKind::View(ViewState::OptionsView), KeyCode::Char('k'), 0, Command::MoveUp),
        entry(ContextKind::View(ViewState::OptionsView), KeyCode::Char('j'), 0, Command::MoveDown),
        entry(ContextKind::View(ViewState::OptionsView), KeyCode::Char(' '), 0, Command::ToggleOption)
    ]
}

/// The bindings of `EventsView`.
pub open spec fn events_view_bindings_table() -> Seq<BindingView> {
    seq![
        entry(ContextKind::View(ViewState::EventsView), KeyCode::Char('q'), 0, Command::Quit),
        entry(ContextKind::View(ViewState::EventsView), KeyCode::Char('F'), 1, Command::ActivateEventFilterView),
        entry(ContextKind::View(ViewState::EventsView), KeyCode::Char('M'), 1, Command::ToggleEventsShowMarks),
        entry(ContextKind::View(ViewState::EventsView), KeyCode::Up, 0, Command::MoveUp),
        entry(ContextKind::View(ViewState::EventsView), KeyCode::Down, 0, Command::MoveDown),
        entry(ContextKind::View(ViewState::EventsView), KeyCode::Char('k'), 0, Command::MoveUp),
        entry(ContextKind::View(ViewState::EventsView), KeyCode::Char('j'), 0, Command::MoveDown),
        entry(ContextKind::View(ViewState::EventsView), KeyCode::PageUp, 0, Command::PageUp),
        entry(ContextKind::View(ViewState::EventsView), KeyCode::PageDown, 0, Command::PageDown),
        entry(ContextKind::View(ViewState::EventsView), KeyCode::Char(' '), 0, Command::GotoSelectedEvent),
        entry(ContextKind::View(ViewState::EventsView), KeyCode::Char('e'), 0, Command::ActivateMarkNameMode)
    ]
}

/// The bindings of `EventsFilter`.
pub open spec fn event_filter_view_bindings_table() -> Seq<BindingView> {
    seq![
        entry(ContextKind::Overlay(OverlayKind::EventsFilter), KeyCode::Char('q'), 0, Command::Quit),
        entry(ContextKind::Overlay(OverlayKind::EventsFilter), KeyCode::Up, 0, Command::MoveUp),
        entry(ContextKind::Overlay(OverlayKind::EventsFilter), KeyCode::Down, 0, Command::MoveDown),
        entry(ContextKind::Overlay(OverlayKind::EventsFilter), KeyCode::Char('k'), 0, Command::MoveUp),
        entry(ContextKind::Overlay(OverlayKind::EventsFilter), KeyCode::Char('j'), 0, Command::MoveDown),
        entry(ContextKind::Overlay(OverlayKind::EventsFilter), KeyCode::PageUp, 0, Command::PageUp),
        entry(ContextKind::Overlay(OverlayKind::EventsFilter), KeyCode::PageDown, 0, Command::PageDown),
        entry(ContextKind::Overlay(OverlayKind::EventsFilter), KeyCode::Char(' '), 0, Command::ToggleEventFilter),
        entry(ContextKind::Overlay(OverlayKind::EventsFilter), KeyCode::Char('a'), 0, Command::ToggleAllEventFilters)
    ]
}

/// The bindings of `MarksView`.
pub open spec fn marks_view_bindings_table() -> Seq<BindingView> {
    seq![
        entry(ContextKind::View(ViewState::MarksView), KeyCode::Char('q'), 0, Command::Quit),
        entry(ContextKind::View(ViewState::MarksView), KeyCode::Up, 0, Command::MoveUp),
        entry(ContextKind::View(ViewState::MarksView), KeyCode::Down, 0, Command::MoveDown),
        entry(ContextKind::View(ViewState::MarksView), KeyCode::Char('k'), 0, Command::MoveUp),
        entry(ContextKind::View(ViewState::MarksView), KeyCode::Char('j'), 0, Command::MoveDown),
        entry(ContextKind::View(ViewState::MarksView), KeyCode::PageUp, 0, Command::PageUp),
        entry(ContextKind::View(ViewState::MarksView), KeyCode::PageDown, 0, Command::PageDown),
        entry(ContextKind::View(ViewState::MarksView), KeyCode::Char(' '), 0, Command::GotoSelectedMark),
        entry(ContextKind::View(ViewState::MarksView), KeyCode::Delete, 0, Command::UnmarkSelected),
        entry(ContextKind::View(ViewState::MarksView), KeyCode::Char('d'), 0, Command::UnmarkSelected),
        entry(ContextKind::View(ViewState::MarksView), KeyCode::Char('e'), 0, Command::ActivateMarkNameMode),
        entry(ContextKind::View(ViewState::MarksView), KeyCode::Char('c'), 0, Command::ClearAllMarks),
        entry(ContextKind::View(ViewState::MarksView), KeyCode::Char('F'), 1, Command::ToggleShowMarkedOnly)
    ]
}

/// The bindings of `FilesView`.
pub open spec fn files_view_bindings_table() -> Seq<BindingView> {
    seq![
        entry(ContextKind::View(ViewState::FilesView), KeyCode::Char('q'), 0, Command::Quit),
        entry(ContextKind::View(ViewState::FilesView), KeyCode::Up, 0, Command::MoveUp),
        entry(ContextKind::View(ViewState::FilesView), KeyCode::Down, 0, Command::MoveDown),
        entry(ContextKind::View(ViewState::FilesView), KeyCode::Char('k'), 0, Command::MoveUp),
        entry(ContextKind::View(ViewState::FilesView), KeyCode::Char('j'), 0, Command::MoveDown),
        entry(ContextKind::View(ViewState::FilesView), KeyCode::PageUp, 0, Command::PageUp),
        entry(ContextKind::View(ViewState::FilesView), KeyCode::PageDown, 0, Command::PageDown),
        entry(ContextKind::View(ViewState::FilesView), KeyCode::Char(' '), 0, Command::ToggleFile)
    ]
}

/// The bindings of `Message`.
pub open spec fn message_state_bindings_table() -> Seq<BindingView> {
    seq![
        entry(ContextKind::Overlay(OverlayKind::Message), KeyCode::Char('q'), 0, Command::Quit)
    ]
}

/// The bindings of `Error`.
pub open spec fn error_state_bindings_table() -> Seq<BindingView> {
    seq![
        entry(ContextKind::Overlay(OverlayKind::Error), KeyCode::Char('q'), 0, Command::Quit)
    ]
}

/// The modifiers hold every bit of `bit`.
pub open spec fn mods_contains(m: KeyModifiers, bit: u8) -> bool {
    m.bits & bit == bit
}

/// The decimal digit `d` as a character.
pub open spec fn digit_char(d: int) -> char {
    ((48 + d) as u8) as char
}

/// The decimal writing of a byte.
pub open spec fn decimal(n: u8) -> Seq<char> {
    if n < 10 {
        seq![digit_char(n as int)]
    } else if n < 100 {
        seq![digit_char((n / 10) as int), digit_char((n % 10) as int)]
    } else {
        seq![digit_char((n / 100) as int), digit_char(((n / 10) % 10) as int), digit_char((n % 10) as int)]
    }
}

/// The upper-case mapping of a character, as `char::to_uppercase` gives it.
pub uninterp spec fn uppercase(c: char) -> Seq<char>;

/// The name of a key in the help.
pub open spec fn key_text(code: KeyCode) -> Seq<char> {
    match code {
        KeyCode::Char(c) => if c == ' ' {
            "Space"@
        } else {
            seq![c]
        },
        KeyCode::Up => "Up"@,
        KeyCode::Down => "Down"@,
        KeyCode::Left => "Left"@,
        KeyCode::Right => "Right"@,
        KeyCode::PageUp => "PageUp"@,
        KeyCode::PageDown => "PageDown"@,
        KeyCode::Enter => "Enter"@,
        KeyCode::Esc => "Esc"@,
        KeyCode::Backspace => "Backspace"@,
        KeyCode::Delete => "Delete"@,
        KeyCode::Tab => "Tab"@,
        KeyCode::F(n) => "F("@ + decimal(n) + ")"@,
        KeyCode::Home => "Home"@,
        KeyCode::End => "End"@,
        KeyCode::BackTab => "BackTab"@,
        KeyCode::Insert => "Insert"@,
        KeyCode::Null => "Null"@,
        KeyCode::CapsLock => "CapsLock"@,
        KeyCode::ScrollLock => "ScrollLock"@,
        KeyCode::NumLock => "NumLock"@,
        KeyCode::PrintScreen => "PrintScreen"@,
        KeyCode::Pause => "Pause"@,
        KeyCode::Menu => "Menu"@,
        KeyCode::KeypadBegin => "KeypadBegin"@,
        KeyCode::Other => "Other"@,
    }
}

/// The names of the super, hyper and meta modifiers held, joined by " | ".
pub open spec fn extra_modifier_names(m: KeyModifiers) -> Seq<char> {
    let names = seq!["SUPER"@, "HYPER"@, "META"@];
    let held = seq![mods_contains(m, 8), mods_contains(m, 16), mods_contains(m, 32)];
    let a = if held[0] { seq![names[0]] } else { Seq::empty() };
    let b = if held[1] { a.push(names[1]) } else { a };
    let c = if held[2] { b.push(names[2]) } else { b };
    join_names(c)
}

/// Names joined by " | ".
pub open spec fn join_names(s: Seq<Seq<char>>) -> Seq<char>
    decreases s.len(),
{
    if s.len() == 0 {
        Seq::empty()
    } else if s.len() == 1 {
        s[0]
    } else {
        join_names(s.drop_last()) + " | "@ + s.last()
    }
}

/// How a key with modifiers is written in the help.
pub open spec fn format_key_spec(code: KeyCode, m: KeyModifiers) -> Seq<char> {
    let k = key_text(code);
    if mods_contains(m, 2) {
        "Ctrl+"@ + k
    } else if mods_contains(m, 1) {
        match code {
            KeyCode::Char(c) => uppercase(c),
            _ => "Shift+"@ + k,
        }
    } else if mods_contains(m, 4) {
        "Alt+"@ + k
    } else if m.bits == 0 {
        k
    } else {
        "KeyModifiers("@ + extra_modifier_names(m) + ")+"@ + k
    }
}

/// The command of the first binding, from position `k` on, for the context, key and
/// modifiers.
pub open spec fn first_binding_from(
    bs: Seq<BindingView>,
    ctx: (ContextKind, Seq<char>),
    code: KeyCode,
    mods: KeyModifiers,
    k: nat,
) -> Option<Command>
    decreases bs.len() - k,
{
    if k >= bs.len() {
        None
    } else if bs[k as int].0 == ctx && bs[k as int].1 == code && bs[k as int].2 == mods {
        Some(bs[k as int].3)
    } else {
        first_binding_from(bs, ctx, code, mods, k + 1)
    }
}

/// The context a lookup searches: the overlay's kind when one is shown, else the view.
pub open spec fn lookup_context(view_state: ViewState, overlay: Option<Overlay>) -> (ContextKind, Seq<char>) {
    match overlay {
        Some(o) => (ContextKind::Overlay(overlay_view(o).0), Seq::empty()),
        None => (ContextKind::View(view_state), Seq::empty()),
    }
}

/// The bindings of a context, as key text and command, in order.
pub open spec fn context_bindings(bs: Seq<BindingView>, ctx: (ContextKind, Seq<char>)) -> Seq<(Seq<char>, Command)>
    decreases bs.len(),
{
    if bs.len() == 0 {
        Seq::empty()
    } else {
        let rest = context_bindings(bs.drop_last(), ctx);
        let b = bs.last();
        if b.0 == ctx {
            rest.push((format_key_spec(b.1, b.2), b.3))
        } else {
            rest
        }
    }
}

/// `char::to_uppercase`, collected into a string.
#[verifier::external_body]
fn upper_case_of(c: char) -> (r: String)
    ensures
        r@ == uppercase(c),
{
    c.to_uppercase().to_string()
}

fn decimal_text(n: u8) -> (r: String)
    ensures
        r@ == decimal(n),
{
    let mut s = String::new();
    if n >= 100 {
        crate::utils::push_char(&mut s, (48u8 + n / 100) as char);
    }
    if n >= 10 {
        crate::utils::push_char(&mut s, (48u8 + (n / 10) % 10) as char);
    }
    crate::utils::push_char(&mut s, (48u8 + n % 10) as char);
    proof {
        assert(s@ =~= decimal(n));
    }
    s
}

fn literal(s: &str) -> (r: String)
    ensures
        r@ == s@,
{
    String::from_str(s)
}

fn key_name(code: KeyCode) -> (r: String)
    ensures
        r@ == key_text(code),
{
    match code {
        KeyCode::Char(c) => {
            if c == ' ' {
                literal("Space")
            } else {
                let mut s = String::new();
                crate::utils::push_char(&mut s, c);
                proof {
                    assert(s@ =~= seq![c]);
                }
                s
            }
        },
        KeyCode::Up => literal("Up"),
        KeyCode::Down => literal("Down"),
        KeyCode::Left => literal("Left"),
        KeyCode::Right => literal("Right"),
        KeyCode::PageUp => literal("PageUp"),
        KeyCode::PageDown => literal("PageDown"),
        KeyCode::Enter => literal("Enter"),
        KeyCode::Esc => literal("Esc"),
        KeyCode::Backspace => literal("Backspace"),
        KeyCode::Delete => literal("Delete"),
        KeyCode::Tab => literal("Tab"),
        KeyCode::F(n) => literal("F(").concat(decimal_text(n).as_str()).concat(")"),
        KeyCode::Home => literal("Home"),
        KeyCode::End => literal("End"),
        KeyCode::BackTab => literal("BackTab"),
        KeyCode::Insert => literal("Insert"),
        KeyCode::Null => literal("Null"),
        KeyCode::CapsLock => literal("CapsLock"),
        KeyCode::ScrollLock => literal("ScrollLock"),
        KeyCode::NumLock => literal("NumLock"),
        KeyCode::PrintScreen => literal("PrintScreen"),
        KeyCode::Pause => literal("Pause"),
        KeyCode::Menu => literal("Menu"),
        KeyCode::KeypadBegin => literal("KeypadBegin"),
        KeyCode::Other => literal("Other"),
    }
}

fn extra_names(m: KeyModifiers) -> (r: String)
    ensures
        r@ == extra_modifier_names(m),
{
    let mut out = String::new();
    let mut any = false;
    let ghost mut names: Seq<Seq<char>> = Seq::empty();
    if m.bits & 8 == 8 {
        out = out.concat("SUPER");
        any = true;
        proof {
            names = names.push("SUPER"@);
            assert(out@ =~= join_names(names));
        }
    }
    if m.bits & 16 == 16 {
        if any {
            out = out.concat(" | ");
        }
        out = out.concat("HYPER");
        any = true;
        proof {
            let prev = names;
            names = names.push("HYPER"@);
            assert(names.drop_last() =~= prev);
            assert(out@ =~= join_names(names));
        }
    }
    if m.bits & 32 == 32 {
        if any {
            out = out.concat(" | ");
        }
        out = out.concat("META");
        proof {
            let prev = names;
            names = names.push("META"@);
            assert(names.drop_last() =~= prev);
            assert(out@ =~= join_names(names));
        }
    }
    proof {
        let held = seq![mods_contains(m, 8), mods_contains(m, 16), mods_contains(m, 32)];
        assert(names =~= {
            let nm = seq!["SUPER"@, "HYPER"@, "META"@];
            let a = if held[0] { seq![nm[0]] } else { Seq::empty() };
            let b = if held[1] { a.push(nm[1]) } else { a };
            if held[2] { b.push(nm[2]) } else { b }
        });
    }
    out
}

/// Writes a key with its modifiers as the help shows it.
fn format_key(keycode: KeyCode, modifiers: KeyModifiers) -> (r: String)
    ensures
        r@ == format_key_spec(keycode, modifiers),
{
    let key_str = key_name(keycode);
    if modifiers.bits & 2 == 2 {
        literal("Ctrl+").concat(key_str.as_str())
    } else if modifiers.bits & 1 == 1 {
        match keycode {
            KeyCode::Char(c) => upper_case_of(c),
            _ => literal("Shift+").concat(key_str.as_str()),
        }
    } else if modifiers.bits & 4 == 4 {
        literal("Alt+").concat(key_str.as_str())
    } else if modifiers.bits == 0 {
        key_str
    } else {
        literal("KeyModifiers(").concat(extra_names(modifiers).as_str()).concat(")+").concat(key_str.as_str())
    }
}

/// Registry of all keybindings mapped to commands.
#[derive(Debug)]
pub struct KeybindingRegistry {
    bindings: Vec<((KeybindingContext, KeyCode, KeyModifiers), Command)>,
}

/// Every binding of the registry, in the order they are registered.
pub open spec fn default_table() -> Seq<BindingView> {
    log_view_bindings_table() + selection_mode_bindings_table() + search_mode_bindings_table()
        + filter_mode_bindings_table() + filter_list_bindings_table() + options_view_bindings_table()
        + events_view_bindings_table() + event_filter_view_bindings_table() + marks_view_bindings_table()
        + files_view_bindings_table() + message_state_bindings_table() + error_state_bindings_table()
        + global_table(ContextKind::View(ViewState::LogView))
        + global_table(ContextKind::View(ViewState::SelectionMode))
        + global_table(ContextKind::View(ViewState::ActiveSearchMode))
        + global_table(ContextKind::View(ViewState::ActiveFilterMode))
        + global_table(ContextKind::View(ViewState::FilterView))
        + global_table(ContextKind::View(ViewState::OptionsView))
        + global_table(ContextKind::View(ViewState::EventsView))
        + global_table(ContextKind::View(ViewState::MarksView))
        + global_table(ContextKind::View(ViewState::FilesView))
        + global_table(ContextKind::View(ViewState::GotoLineMode))
        + global_table(ContextKind::Overlay(OverlayKind::EditFilter))
        + global_table(ContextKind::Overlay(OverlayKind::EventsFilter))
        + global_table(ContextKind::Overlay(OverlayKind::MarkName))
        + global_table(ContextKind::Overlay(OverlayKind::SaveToFile))
        + global_table(ContextKind::Overlay(OverlayKind::Message))
        + global_table(ContextKind::Overlay(OverlayKind::Error))
}

impl Default for KeybindingRegistry {
    fn default() -> (r: Self)
        ensures
            r.bindings() == Seq::<BindingView>::empty(),
    {
        let r = KeybindingRegistry { bindings: Vec::new() };
        assert(r.bindings() =~= Seq::<BindingView>::empty());
        r
    }
}

impl KeybindingRegistry {
    /// The bindings, in order.
    pub closed spec fn bindings(&self) -> Seq<BindingView> {
        self.bindings@.map_values(|b: ((KeybindingContext, KeyCode, KeyModifiers), Command)| binding_view(b))
    }

    /// Creates a registry with all default bindings.
    pub fn new() -> (r: Self)
        ensures
            r.bindings() == default_table(),
    {
        let mut registry = Self::default();
        registry.register_log_view_bindings();
        registry.register_selection_mode_bindings();
        registry.register_search_mode_bindings();
        registry.register_filter_mode_bindings();
        registry.register_filter_list_bindings();
        registry.register_options_view_bindings();
        registry.register_events_view_bindings();
        registry.register_event_filter_view_bindings();
        registry.register_marks_view_bindings();
        registry.register_files_view_bindings();
        registry.register_message_state_bindings();
        registry.register_error_state_bindings();

        registry.register_global_bindings(KeybindingContext::View(ViewState::LogView));
        registry.register_global_bindings(KeybindingContext::View(ViewState::SelectionMode));
        registry.register_global_bindings(KeybindingContext::View(ViewState::ActiveSearchMode));
        registry.register_global_bindings(KeybindingContext::View(ViewState::ActiveFilterMode));
        registry.register_global_bindings(KeybindingContext::View(ViewState::FilterView));
        registry.register_global_bindings(KeybindingContext::View(ViewState::OptionsView));
        registry.register_global_bindings(KeybindingContext::View(ViewState::EventsView));
        registry.register_global_bindings(KeybindingContext::View(ViewState::MarksView));
        registry.register_global_bindings(KeybindingContext::View(ViewState::FilesView));
        registry.register_global_bindings(KeybindingContext::View(ViewState::GotoLineMode));

        registry.register_global_bindings(KeybindingContext::Overlay(Overlay::EditFilter));
        registry.register_global_bindings(KeybindingContext::Overlay(Overlay::EventsFilter));
        registry.register_global_bindings(KeybindingContext::Overlay(Overlay::MarkName));
        registry.register_global_bindings(KeybindingContext::Overlay(Overlay::SaveToFile));
        registry.register_global_bindings(KeybindingContext::Overlay(Overlay::Message(String::new())));
        registry.register_global_bindings(KeybindingContext::Overlay(Overlay::Error(String::new())));
        proof {
            assert(registry.bindings() =~= default_table());
        }
        registry
    }

    fn find_cmd(&self, kind: ContextKind, text: &str, key_event: KeyEvent) -> (r: Option<Command>)
        ensures
            r == first_binding_from(self.bindings(), (kind, text@), key_event.code, key_event.modifiers, 0),
    {
        let mut k: usize = 0;
        while k < self.bindings.len()
            invariant
                k <= self.bindings@.len(),
                first_binding_from(self.bindings(), (kind, text@), key_event.code, key_event.modifiers, 0)
                    == first_binding_from(self.bindings(), (kind, text@), key_event.code, key_event.modifiers, k as nat),
            decreases self.bindings@.len() - k,
        {
            let b = &self.bindings[k];
            proof {
                assert(self.bindings()[k as int] == binding_view(self.bindings@[k as int]));
            }
            if b.0.0.kind() == kind && crate::utils::str_eq(b.0.0.text(), text) && b.0.1 == key_event.code
                && b.0.2 == key_event.modifiers {
                return Some(b.1);
            }
            k += 1;
        }
        None
    }

    /// The command bound to a key in the current overlay, or in the view when no overlay
    /// is shown.
    pub fn lookup(&self, view_state: &ViewState, overlay: &Option<Overlay>, key_event: KeyEvent) -> (r: Option<Command>)
        ensures
            r == first_binding_from(
                self.bindings(),
                lookup_context(*view_state, *overlay),
                key_event.code,
                key_event.modifiers,
                0,
            ),
    {
        let e = "";
        proof {
            reveal_strlit("");
        }
        assert(e@ =~= Seq::<char>::empty());
        match overlay {
            Some(ov) => {
                let k = ov.kind();
                assert(lookup_context(*view_state, *overlay) == (ContextKind::Overlay(k), e@));
                self.find_cmd(ContextKind::Overlay(k), e, key_event)
            },
            None => self.find_cmd(ContextKind::View(*view_state), e, key_event),
        }
    }

    /// Returns the bindings of a context, each as the key's text and the command.
    pub fn get_keybindings_for_context(&self, target_context: &KeybindingContext) -> (r: Vec<(String, Command)>)
        ensures
            r@.len() == context_bindings(self.bindings(), context_view(*target_context)).len(),
            forall|i: int|
                0 <= i < r@.len() ==> (#[trigger] r@[i]).0@ == context_bindings(
                    self.bindings(),
                    context_view(*target_context),
                )[i].0 && r@[i].1 == context_bindings(self.bindings(), context_view(*target_context))[i].1,
    {
        let ghost ctx = context_view(*target_context);
        let kind = target_context.kind();
        let text = target_context.text();
        let mut out: Vec<(String, Command)> = Vec::new();
        let mut k: usize = 0;
        while k < self.bindings.len()
            invariant
                k <= self.bindings@.len(),
                ctx == (kind, text@),
                out@.len() == context_bindings(self.bindings().take(k as int), ctx).len(),
                forall|i: int|
                    0 <= i < out@.len() ==> (#[trigger] out@[i]).0@ == context_bindings(self.bindings().take(k as int), ctx)[i].0
                        && out@[i].1 == context_bindings(self.bindings().take(k as int), ctx)[i].1,
            decreases self.bindings@.len() - k,
        {
            let b = &self.bindings[k];
            proof {
                assert(self.bindings().take(k + 1).drop_last() =~= self.bindings().take(k as int));
                assert(self.bindings().take(k + 1).last() == binding_view(self.bindings@[k as int]));
            }
            if b.0.0.kind() == kind && crate::utils::str_eq(b.0.0.text(), text) {
                let s = format_key(b.0.1, b.0.2);
                out.push((s, b.1));
            }
            k += 1;
        }
        proof {
            assert(self.bindings().take(k as int) =~= self.bindings());
        }
        out
    }

    fn bind(&mut self, context: KeybindingContext, keycode: KeyCode, modifiers: KeyModifiers, command: Command)
        ensures
            final(self).bindings() == old(self).bindings().push((context_view(context), keycode, modifiers, command)),
    {
        let ghost b = ((context, keycode, modifiers), command);
        self.bindings.push(((context, keycode, modifiers), command));
        proof {
            assert(self.bindings() =~= old(self).bindings().push(binding_view(b)));
        }
    }

    fn bind_simple(&mut self, context: KeybindingContext, keycode: KeyCode, command: Command)
        ensures
            final(self).bindings() == old(self).bindings().push((context_view(context), keycode, KeyModifiers { bits: 0 }, command)),
    {
        self.bind(context, keycode, KeyModifiers::empty(), command);
    }

    fn bind_shift(&mut self, context: KeybindingContext, c: char, command: Command)
        ensures
            final(self).bindings() == old(self).bindings().push((context_view(context), KeyCode::Char(c), KeyModifiers { bits: 1 }, command)),
    {
        self.bind(context, KeyCode::Char(c), KeyModifiers::shift(), command);
    }

    /// Registers the bindings that work in every view and overlay.
    fn register_global_bindings(&mut self, context: KeybindingContext)
        requires
            context_view(context).1 == Seq::<char>::empty(),
        ensures
            final(self).bindings() == old(self).bindings() + global_table(context_view(context).0),
    {
        let ghost start = self.bindings();
        self.bind(context.duplicate(), KeyCode::Char('c'), KeyModifiers::control(), Command::Quit);
        self.bind_simple(context.duplicate(), KeyCode::Esc, Command::Cancel);
        self.bind_simple(context.duplicate(), KeyCode::Enter, Command::Confirm);
        self.bind_simple(context.duplicate(), KeyCode::F(1), Command::ToggleHelp);
        proof {
            assert(self.bindings() =~= start + global_table(context_view(context).0));
        }
    }

    #[verifier::rlimit(80)]
    fn register_log_view_bindings(&mut self)
        ensures
            final(self).bindings() == old(self).bindings() + log_view_bindings_table(),
    {
        let ghost start = self.bindings();
        let context = KeybindingContext::View(ViewState::LogView);
        self.bind_simple(context.duplicate(), KeyCode::Char('q'), Command::Quit);
        self.bind_simple(context.duplicate(), KeyCode::Up, Command::MoveUp);
        self.bind_simple(context.duplicate(), KeyCode::Down, Command::MoveDown);
        self.bind_simple(context.duplicate(), KeyCode::Char('k'), Command::MoveUp);
        self.bind_simple(context.duplicate(), KeyCode::Char('j'), Command::MoveDown);
        self.bind_simple(context.duplicate(), KeyCode::PageUp, Command::PageUp);
        self.bind_simple(context.duplicate(), KeyCode::PageDown, Command::PageDown);
        self.bind_simple(context.duplicate(), KeyCode::Char('g'), Command::GotoTop);
        self.bind_shift(context.duplicate(), 'G', Command::GotoBottom);
        self.bind_simple(context.duplicate(), KeyCode::Char('z'), Command::CenterSelected);
        self.bind_simple(context.duplicate(), KeyCode::Left, Command::ScrollLeft);
        self.bind_simple(context.duplicate(), KeyCode::Right, Command::ScrollRight);
        self.bind_simple(context.duplicate(), KeyCode::Char('h'), Command::ScrollLeft);
        self.bind_simple(context.duplicate(), KeyCode::Char('l'), Command::ScrollRight);
        self.bind_simple(context.duplicate(), KeyCode::Char('0'), Command::ResetHorizontal);
        self.bind_simple(context.duplicate(), KeyCode::Char('/'), Command::ActivateActiveSearchMode);
        self.bind(context.duplicate(), KeyCode::Char('f'), KeyModifiers::control(), Command::ActivateActiveSearchMode);
        self.bind_simple(context.duplicate(), KeyCode::Char('n'), Command::SearchNext);
        self.bind_shift(context.duplicate(), 'N', Command::SearchPrevious);
        self.bind_simple(context.duplicate(), KeyCode::Char('f'), Command::ActivateActiveFilterMode);
        self.bind_shift(context.duplicate(), 'F', Command::ActivateFilterView);
        self.bind_simple(context.duplicate(), KeyCode::Char(':'), Command::ActivateGotoLineMode);
        self.bind_simple(context.duplicate(), KeyCode::Char('o'), Command::ActivateOptionsView);
        self.bind_simple(context.duplicate(), KeyCode::Char('e'), Command::ActivateEventsView);
        self.bind_simple(context.duplicate(), KeyCode::Char(' '), Command::ToggleMark);
        self.bind_simple(context.duplicate(), KeyCode::Char('m'), Command::ActivateMarksView);
        self.bind_simple(context.duplicate(), KeyCode::Char('i'), Command::ActivateFilesView);
        self.bind_simple(context.duplicate(), KeyCode::Char(']'), Command::MarkNext);
        self.bind_simple(context.duplicate(), KeyCode::Char('['), Command::MarkPrevious);
        self.bind_simple(context.duplicate(), KeyCode::Char('}'), Command::EventNext);
        self.bind_simple(context.duplicate(), KeyCode::Char('{'), Command::EventPrevious);
        self.bind_simple(context.duplicate(), KeyCode::Char('x'), Command::ToggleExpansion);
        self.bind_shift(context.duplicate(), 'X', Command::CollapseAll);
        self.bind_simple(context.duplicate(), KeyCode::Char('c'), Command::ToggleCenterCursorMode);
        self.bind_simple(context.duplicate(), KeyCode::Char('t'), Command::ToggleFollowMode);
        self.bind_simple(context.duplicate(), KeyCode::Char('p'), Command::TogglePauseMode);
        self.bind(context.duplicate(), KeyCode::Char('l'), KeyModifiers::control(), Command::ClearLogBuffer);
        self.bind(context.duplicate(), KeyCode::Char('s'), KeyModifiers::control(), Command::ActivateSaveToFileMode);
        self.bind(context.duplicate(), KeyCode::Char('o'), KeyModifiers::control(), Command::HistoryBack);
        self.bind_simple(context.duplicate(), KeyCode::Tab, Command::HistoryForward);
        self.bind_shift(context.duplicate(), 'V', Command::StartSelection);
        proof {
            assert(self.bindings() =~= start + log_view_bindings_table());
        }
    }

    fn register_selection_mode_bindings(&mut self)
        ensures
            final(self).bindings() == old(self).bindings() + selection_mode_bindings_table(),
    {
        let ghost start = self.bindings();
        let context = KeybindingContext::View(ViewState::SelectionMode);
        self.bind_simple(context.duplicate(), KeyCode::Char('q'), Command::Quit);
        self.bind_simple(context.duplicate(), KeyCode::Up, Command::MoveUp);
        self.bind_simple(context.duplicate(), KeyCode::Down, Command::MoveDown);
        self.bind_simple(context.duplicate(), KeyCode::Char('k'), Command::MoveUp);
        self.bind_simple(context.duplicate(), KeyCode::Char('j'), Command::MoveDown);
        self.bind_simple(context.duplicate(), KeyCode::PageUp, Command::PageUp);
        self.bind_simple(context.duplicate(), KeyCode::PageDown, Command::PageDown);
        self.bind_simple(context.duplicate(), KeyCode::Char('g'), Command::GotoTop);
        self.bind_shift(context.duplicate(), 'G', Command::GotoBottom);
        self.bind_simple(context.duplicate(), KeyCode::Char('y'), Command::CopySelection);
        self.bind_simple(context.duplicate(), KeyCode::Char(' '), Command::ToggleMark);
        proof {
            assert(self.bindings() =~= start + selection_mode_bindings_table());
        }
    }

    fn register_search_mode_bindings(&mut self)
        ensures
            final(self).bindings() == old(self).bindings() + search_mode_bindings_table(),
    {
        let ghost start = self.bindings();
        let context = KeybindingContext::View(ViewState::ActiveSearchMode);
        self.bind_simple(context.duplicate(), KeyCode::Tab, Command::TabCompletion);
        self.bind(context.duplicate(), KeyCode::Char('a'), KeyModifiers::alt(), Command::ToggleCaseSearch);
        self.bind_simple(context.duplicate(), KeyCode::Up, Command::SearchHistoryPrevious);
        self.bind_simple(context.duplicate(), KeyCode::Down, Command::SearchHistoryNext);
        proof {
            assert(self.bindings() =~= start + search_mode_bindings_table());
        }
    }

    fn register_filter_mode_bindings(&mut self)
        ensures
            final(self).bindings() == old(self).bindings() + filter_mode_bindings_table(),
    {
        let ghost start = self.bindings();
        let context = KeybindingContext::View(ViewState::ActiveFilterMode);
        self.bind_simple(context.duplicate(), KeyCode::Tab, Command::TabCompletion);
        self.bind(context.duplicate(), KeyCode::Char('a'), KeyModifiers::alt(), Command::ToggleCaseFilter);
        self.bind(context.duplicate(), KeyCode::Char('e'), KeyModifiers::alt(), Command::ToggleActiveFilterModeInOut);
        self.bind_simple(context.duplicate(), KeyCode::Up, Command::FilterHistoryPrevious);
        self.bind_simple(context.duplicate(), KeyCode::Down, Command::FilterHistoryNext);
        proof {
            assert(self.bindings() =~= start + filter_mode_bindings_table());
        }
    }

    fn register_filter_list_bindings(&mut self)
        ensures
            final(self).bindings() == old(self).bindings() + filter_list_bindings_table(),
    {
        let ghost start = self.bindings();
        let context = KeybindingContext::View(ViewState::FilterView);
        self.bind_simple(context.duplicate(), KeyCode::Char('q'), Command::Quit);
        self.bind_simple(context.duplicate(), KeyCode::Up, Command::MoveUp);
        self.bind_simple(context.duplicate(), KeyCode::Down, Command::MoveDown);
        self.bind_simple(context.duplicate(), KeyCode::Char('k'), Command::MoveUp);
        self.bind_simple(context.duplicate(), KeyCode::Char('j'), Command::MoveDown);
        self.bind_simple(context.duplicate(), KeyCode::Char(' '), Command::ToggleFilterPattern);
        self.bind_simple(context.duplicate(), KeyCode::Delete, Command::RemoveFilterPattern);
        self.bind_simple(context.duplicate(), KeyCode::Char('d'), Command::RemoveFilterPattern);
        self.bind_simple(context.duplicate(), KeyCode::Char('e'), Command::ActivateEditActiveFilterMode);
        self.bind_simple(context.duplicate(), KeyCode::Char('f'), Command::ActivateActiveFilterMode);
        self.bind_simple(context.duplicate(), KeyCode::Char('a'), Command::ToggleAllFilterPatterns);
        self.bind(context.duplicate(), KeyCode::Char('a'), KeyModifiers::alt(), Command::ToggleFilterPatternCaseSensitive);
        self.bind(context.duplicate(), KeyCode::Char('e'), KeyModifiers::alt(), Command::ToggleFilterPatternMode);
        proof {
            assert(self.bindings() =~= start + filter_list_bindings_table());
        }
    }

    fn register_options_view_bindings(&mut self)
        ensures
            final(self).bindings() == old(self).bindings() + options_view_bindings_table(),
    {
        let ghost start = self.bindings();
        let context = KeybindingContext::View(ViewState::OptionsView);
        self.bind_simple(context.duplicate(), KeyCode::Char('q'), Command::Quit);
        self.bind_simple(context.duplicate(), KeyCode::Up, Command::MoveUp);
        self.bind_simple(context.duplicate(), KeyCode::Down, Command::MoveDown);
        self.bind_simple(context.duplicate(), KeyCode::Char('k'), Command::MoveUp);
        self.bind_simple(context.duplicate(), KeyCode::Char('j'), Command::MoveDown);
        self.bind_simple(context.duplicate(), KeyCode::Char(' '), Command::ToggleOption);
        proof {
            assert(self.bindings() =~= start + options_view_bindings_table());
        }
    }

    fn register_events_view_bindings(&mut self)
        ensures
            final(self).bindings() == old(self).bindings() + events_view_bindings_table(),
    {
        let ghost start = self.bindings();
        let context = KeybindingContext::View(ViewState::EventsView);
        self.bind_simple(context.duplicate(), KeyCode::Char('q'), Command::Quit);
        self.bind_shift(context.duplicate(), 'F', Command::ActivateEventFilterView);
        self.bind_shift(context.duplicate(), 'M', Command::ToggleEventsShowMarks);
        self.bind_simple(context.duplicate(), KeyCode::Up, Command::MoveUp);
        self.bind_simple(context.duplicate(), KeyCode::Down, Command::MoveDown);
        self.bind_simple(context.duplicate(), KeyCode::Char('k'), Command::MoveUp);
        self.bind_simple(context.duplicate(), KeyCode::Char('j'), Command::MoveDown);
        self.bind_simple(context.duplicate(), KeyCode::PageUp, Command::PageUp);
        self.bind_simple(context.duplicate(), KeyCode::PageDown, Command::PageDown);
        self.bind_simple(context.duplicate(), KeyCode::Char(' '), Command::GotoSelectedEvent);
        self.bind_simple(context.duplicate(), KeyCode::Char('e'), Command::ActivateMarkNameMode);
        proof {
            assert(self.bindings() =~= start + events_view_bindings_table());
        }
    }

    fn register_event_filter_view_bindings(&mut self)
        ensures
            final(self).bindings() == old(self).bindings() + event_filter_view_bindings_table(),
    {
        let ghost start = self.bindings();
        let context = KeybindingContext::Overlay(Overlay::EventsFilter);
        self.bind_simple(context.duplicate(), KeyCode::Char('q'), Command::Quit);
        self.bind_simple(context.duplicate(), KeyCode::Up, Command::MoveUp);
        self.bind_simple(context.duplicate(), KeyCode::Down, Command::MoveDown);
        self.bind_simple(context.duplicate(), KeyCode::Char('k'), Command::MoveUp);
        self.bind_simple(context.duplicate(), KeyCode::Char('j'), Command::MoveDown);
        self.bind_simple(context.duplicate(), KeyCode::PageUp, Command::PageUp);
        self.bind_simple(context.duplicate(), KeyCode::PageDown, Command::PageDown);
        self.bind_simple(context.duplicate(), KeyCode::Char(' '), Command::ToggleEventFilter);
        self.bind_simple(context.duplicate(), KeyCode::Char('a'), Command::ToggleAllEventFilters);
        proof {
            assert(self.bindings() =~= start + event_filter_view_bindings_table());
        }
    }

    fn register_marks_view_bindings(&mut self)
        ensures
            final(self).bindings() == old(self).bindings() + marks_view_bindings_table(),
    {
        let ghost start = self.bindings();
        let context = KeybindingContext::View(ViewState::MarksView);
        self.bind_simple(context.duplicate(), KeyCode::Char('q'), Command::Quit);
        self.bind_simple(context.duplicate(), KeyCode::Up, Command::MoveUp);
        self.bind_simple(context.duplicate(), KeyCode::Down, Command::MoveDown);
        self.bind_simple(context.duplicate(), KeyCode::Char('k'), Command::MoveUp);
        self.bind_simple(context.duplicate(), KeyCode::Char('j'), Command::MoveDown);
        self.bind_simple(context.duplicate(), KeyCode::PageUp, Command::PageUp);
        self.bind_simple(context.duplicate(), KeyCode::PageDown, Command::PageDown);
        self.bind_simple(context.duplicate(), KeyCode::Char(' '), Command::GotoSelectedMark);
        self.bind_simple(context.duplicate(), KeyCode::Delete, Command::UnmarkSelected);
        self.bind_simple(context.duplicate(), KeyCode::Char('d'), Command::UnmarkSelected);
        self.bind_simple(context.duplicate(), KeyCode::Char('e'), Command::ActivateMarkNameMode);
        self.bind_simple(context.duplicate(), KeyCode::Char('c'), Command::ClearAllMarks);
        self.bind_shift(context.duplicate(), 'F', Command::ToggleShowMarkedOnly);
        proof {
            assert(self.bindings() =~= start + marks_view_bindings_table());
        }
    }

    fn register_files_view_bindings(&mut self)
        ensures
            final(self).bindings() == old(self).bindings() + files_view_bindings_table(),
    {
        let ghost start = self.bindings();
        let context = KeybindingContext::View(ViewState::FilesView);
        self.bind_simple(context.duplicate(), KeyCode::Char('q'), Command::Quit);
        self.bind_simple(context.duplicate(), KeyCode::Up, Command::MoveUp);
        self.bind_simple(context.duplicate(), KeyCode::Down, Command::MoveDown);
        self.bind_simple(context.duplicate(), KeyCode::Char('k'), Command::MoveUp);
        self.bind_simple(context.duplicate(), KeyCode::Char('j'), Command::MoveDown);
        self.bind_simple(context.duplicate(), KeyCode::PageUp, Command::PageUp);
        self.bind_simple(context.duplicate(), KeyCode::PageDown, Command::PageDown);
        self.bind_simple(context.duplicate(), KeyCode::Char(' '), Command::ToggleFile);
        proof {
            assert(self.bindings() =~= start + files_view_bindings_table());
        }
    }

    fn register_message_state_bindings(&mut self)
        ensures
            final(self).bindings() == old(self).bindings() + message_state_bindings_table(),
    {
        let ghost start = self.bindings();
        let context = KeybindingContext::Overlay(Overlay::Message(String::new()));
        self.bind_simple(context.duplicate(), KeyCode::Char('q'), Command::Quit);
        proof {
            assert(self.bindings() =~= start + message_state_bindings_table());
        }
    }

    fn register_error_state_bindings(&mut self)
        ensures
            final(self).bindings() == old(self).bindings() + error_state_bindings_table(),
    {
        let ghost start = self.bindings();
        let context = KeybindingContext::Overlay(Overlay::Error(String::new()));
        self.bind_simple(context.duplicate(), KeyCode::Char('q'), Command::Quit);
        proof {
            assert(self.bindings() =~= start + error_state_bindings_table());
        }
    }
}

} // verus!
