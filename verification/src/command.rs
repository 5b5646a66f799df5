//! The commands that keys are bound to, and their descriptions.
use vstd::prelude::*;

verus! {

/// Represents actions that can be performed in the application.
#[derive(Debug, Clone, Copy, PartialEq, Eq, Structural, Hash)]
pub enum Command {
    // Navigation
    MoveUp,
    MoveDown,
    PageUp,
    PageDown,
    GotoTop,
    GotoBottom,
    CenterSelected,
    ScrollLeft,
    ScrollRight,
    ResetHorizontal,
    HistoryBack,
    HistoryForward,

    // Application Control
    Quit,
    ToggleHelp,
    ClearLogBuffer,
    Cancel,
    Confirm,

    // Search
    ActivateActiveSearchMode,
    SearchNext,
    SearchPrevious,
    ToggleCaseSearch,
    SearchHistoryPrevious,
    SearchHistoryNext,
    TabCompletion,

    // Filter
    ActivateActiveFilterMode,
    ActivateFilterView,
    ActivateEditActiveFilterMode,
    ToggleFilterPattern,
    RemoveFilterPattern,
    ToggleAllFilterPatterns,
    ToggleFilterPatternCaseSensitive,
    ToggleFilterPatternMode,
    ToggleCaseFilter,
    ToggleActiveFilterModeInOut,
    FilterHistoryPrevious,
    FilterHistoryNext,

    // Goto Line
    ActivateGotoLineMode,

    // Display Options
    ActivateOptionsView,
    ToggleDisplayOption,
    /// Switches the selected display option on or off. The keybindings bind it; its
    /// description text is this library's own.
    ToggleOption,

    // Events
    ActivateEventsView,
    ActivateEventFilterView,
    GotoSelectedEvent,
    ToggleEventFilter,
    ToggleAllEventFilters,
    ToggleEventsShowMarks,
    EventNext,
    EventPrevious,

    // Marks
    ToggleMark,
    ActivateMarksView,
    GotoSelectedMark,
    ActivateMarkNameMode,
    UnmarkSelected,
    ClearAllMarks,
    MarkNext,
    MarkPrevious,
    ToggleShowMarkedOnly,
    /// Shows or hides the lines filtered out around the selected one. The keybindings bind
    /// it; its description text is this library's own.
    ToggleExpansion,
    /// Hides all lines shown by expansions. The keybindings bind it; its description text
    /// is this library's own.
    CollapseAll,

    // Files
    /// Opens the list of files of a multi-file session. The keybindings bind it; its
    /// description text is this library's own.
    ActivateFilesView,
    /// Shows or hides the lines of the selected file. The keybindings bind it; its
    /// description text is this library's own.
    ToggleFile,

    // Streaming
    ToggleFollowMode,
    TogglePauseMode,
    ToggleCenterCursorMode,
    ActivateSaveToFileMode,

    // Selection
    StartSelection,
    CopySelection,
}

/// The human-readable description of a command.
pub open spec fn command_text(c: Command) -> Seq<char> {
    match c {
        Command::MoveUp => "Move up"@,
        Command::MoveDown => "Move down"@,
        Command::PageUp => "Page up"@,
        Command::PageDown => "Page down"@,
        Command::GotoTop => "Go to start"@,
        Command::GotoBottom => "Go to end"@,
        Command::CenterSelected => "Center selected line"@,
        Command::ScrollLeft => "Scroll left"@,
        Command::ScrollRight => "Scroll right"@,
        Command::ResetHorizontal => "Reset horizontal scroll"@,
        Command::HistoryBack => "Go back in history"@,
        Command::HistoryForward => "Go forward in history"@,
        Command::Quit => "Quit"@,
        Command::ToggleHelp => "Toggle help"@,
        Command::ClearLogBuffer => "Clear buffer (stdin)"@,
        Command::Cancel => "Cancel/Exit mode"@,
        Command::Confirm => "Confirm"@,
        Command::ActivateActiveSearchMode => "Start search"@,
        Command::SearchNext => "Next match"@,
        Command::SearchPrevious => "Previous match"@,
        Command::ToggleCaseSearch => "Toggle case sensitivity"@,
        Command::SearchHistoryPrevious => "Previous search from history"@,
        Command::SearchHistoryNext => "Next search from history"@,
        Command::TabCompletion => "Tab completion"@,
        Command::ActivateActiveFilterMode => "Start filter"@,
        Command::ActivateFilterView => "View filter list"@,
        Command::ActivateEditActiveFilterMode => "Edit selected filter"@,
        Command::ToggleFilterPattern => "Toggle filter on/off"@,
        Command::RemoveFilterPattern => "Remove selected filter"@,
        Command::ToggleAllFilterPatterns => "Toggle all filters"@,
        Command::ToggleFilterPatternCaseSensitive => "Toggle case sensitive"@,
        Command::ToggleFilterPatternMode => "Toggle include/exclude"@,
        Command::ToggleCaseFilter => "Toggle case sensitivity"@,
        Command::ToggleActiveFilterModeInOut => "Toggle include/exclude"@,
        Command::FilterHistoryPrevious => "Previous filter from history"@,
        Command::FilterHistoryNext => "Next filter from history"@,
        Command::ActivateGotoLineMode => "Go to line"@,
        Command::ActivateOptionsView => "Display options"@,
        Command::ToggleDisplayOption => "Toggle option on/off"@,
        Command::ActivateEventsView => "View log events"@,
        Command::ActivateEventFilterView => "Filter events"@,
        Command::GotoSelectedEvent => "Go to selected event"@,
        Command::ToggleEventFilter => "Toggle event filter"@,
        Command::ToggleAllEventFilters => "Toggle all event filters"@,
        Command::ToggleEventsShowMarks => "Toggle showing marks in events view"@,
        Command::EventNext => "Go to next event"@,
        Command::EventPrevious => "Go to previous event"@,
        Command::ToggleMark => "Toggle mark on line"@,
        Command::ActivateMarksView => "View marked lines"@,
        Command::GotoSelectedMark => "Go to selected mark"@,
        Command::ActivateMarkNameMode => "Name the mark"@,
        Command::UnmarkSelected => "Remove selected mark"@,
        Command::ClearAllMarks => "Clear all marks"@,
        Command::MarkNext => "Go to next mark"@,
        Command::MarkPrevious => "Go to previous mark"@,
        Command::ToggleShowMarkedOnly => "Show marked lines only on/off"@,
        Command::ToggleExpansion => "Expand/collapse hidden lines"@,
        Command::CollapseAll => "Collapse all expansions"@,
        Command::ActivateFilesView => "View opened files"@,
        Command::ToggleFile => "Toggle file on/off"@,
        Command::ToggleOption => "Toggle option on/off"@,
        Command::ToggleFollowMode => "Toggle follow mode (stdin)"@,
        Command::TogglePauseMode => "Toggle pause mode (stdin)"@,
        Command::ToggleCenterCursorMode => "Toggle center cursor mode"@,
        Command::ActivateSaveToFileMode => "Save to file (stdin)"@,
        Command::StartSelection => "Start visual selection"@,
        Command::CopySelection => "Copy selection to clipboard"@,
    }
}

impl Command {
    /// Returns a human-readable description of this command.
    pub fn description(&self) -> (r: &'static str)
        ensures
            r@ == command_text(*self),
    {
        match self {
            Command::MoveUp => "Move up",
            Command::MoveDown => "Move down",
            Command::PageUp => "Page up",
            Command::PageDown => "Page down",
            Command::GotoTop => "Go to start",
            Command::GotoBottom => "Go to end",
            Command::CenterSelected => "Center selected line",
            Command::ScrollLeft => "Scroll left",
            Command::ScrollRight => "Scroll right",
            Command::ResetHorizontal => "Reset horizontal scroll",
            Command::HistoryBack => "Go back in history",
            Command::HistoryForward => "Go forward in history",
            Command::Quit => "Quit",
            Command::ToggleHelp => "Toggle help",
            Command::ClearLogBuffer => "Clear buffer (stdin)",
            Command::Cancel => "Cancel/Exit mode",
            Command::Confirm => "Confirm",
            Command::ActivateActiveSearchMode => "Start search",
            Command::SearchNext => "Next match",
            Command::SearchPrevious => "Previous match",
            Command::ToggleCaseSearch => "Toggle case sensitivity",
            Command::SearchHistoryPrevious => "Previous search from history",
            Command::SearchHistoryNext => "Next search from history",
            Command::TabCompletion => "Tab completion",
            Command::ActivateActiveFilterMode => "Start filter",
            Command::ActivateFilterView => "View filter list",
            Command::ActivateEditActiveFilterMode => "Edit selected filter",
            Command::ToggleFilterPattern => "Toggle filter on/off",
            Command::RemoveFilterPattern => "Remove selected filter",
            Command::ToggleAllFilterPatterns => "Toggle all filters",
            Command::ToggleFilterPatternCaseSensitive => "Toggle case sensitive",
            Command::ToggleFilterPatternMode => "Toggle include/exclude",
            Command::ToggleCaseFilter => "Toggle case sensitivity",
            Command::ToggleActiveFilterModeInOut => "Toggle include/exclude",
            Command::FilterHistoryPrevious => "Previous filter from history",
            Command::FilterHistoryNext => "Next filter from history",
            Command::ActivateGotoLineMode => "Go to line",
            Command::ActivateOptionsView => "Display options",
            Command::ToggleDisplayOption => "Toggle option on/off",
            Command::ActivateEventsView => "View log events",
            Command::ActivateEventFilterView => "Filter events",
            Command::GotoSelectedEvent => "Go to selected event",
            Command::ToggleEventFilter => "Toggle event filter",
            Command::ToggleAllEventFilters => "Toggle all event filters",
            Command::ToggleEventsShowMarks => "Toggle showing marks in events view",
            Command::EventNext => "Go to next event",
            Command::EventPrevious => "Go to previous event",
            Command::ToggleMark => "Toggle mark on line",
            Command::ActivateMarksView => "View marked lines",
            Command::GotoSelectedMark => "Go to selected mark",
            Command::ActivateMarkNameMode => "Name the mark",
            Command::UnmarkSelected => "Remove selected mark",
            Command::ClearAllMarks => "Clear all marks",
            Command::MarkNext => "Go to next mark",
            Command::MarkPrevious => "Go to previous mark",
            Command::ToggleShowMarkedOnly => "Show marked lines only on/off",
            Command::ToggleExpansion => "Expand/collapse hidden lines",
            Command::CollapseAll => "Collapse all expansions",
            Command::ActivateFilesView => "View opened files",
            Command::ToggleFile => "Toggle file on/off",
            Command::ToggleOption => "Toggle option on/off",
            Command::ToggleFollowMode => "Toggle follow mode (stdin)",
            Command::TogglePauseMode => "Toggle pause mode (stdin)",
            Command::ToggleCenterCursorMode => "Toggle center cursor mode",
            Command::ActivateSaveToFileMode => "Save to file (stdin)",
            Command::StartSelection => "Start visual selection",
            Command::CopySelection => "Copy selection to clipboard",
        }
    }
}

} // verus!
