use lazylog::app::{Overlay, ViewState};
use lazylog::command::Command;
use lazylog::help::{Help, HelpItem, HelpItemType};
use lazylog::keybindings::{KeyCode, KeyEvent, KeyModifiers, KeybindingContext, KeybindingRegistry};

fn key(code: KeyCode, bits: u8) -> KeyEvent {
    KeyEvent { code, modifiers: KeyModifiers { bits } }
}

#[test]
fn lookup_in_views_and_overlays() {
    let registry = KeybindingRegistry::new();
    assert_eq!(registry.lookup(&ViewState::LogView, &None, key(KeyCode::Char('j'), 0)), Some(Command::MoveDown));
    assert_eq!(registry.lookup(&ViewState::LogView, &None, key(KeyCode::Char('G'), 1)), Some(Command::GotoBottom));
    assert_eq!(registry.lookup(&ViewState::LogView, &None, key(KeyCode::Char('c'), 2)), Some(Command::Quit));
    assert_eq!(registry.lookup(&ViewState::LogView, &None, key(KeyCode::F(1), 0)), Some(Command::ToggleHelp));
    assert_eq!(registry.lookup(&ViewState::ActiveSearchMode, &None, key(KeyCode::Tab, 0)), Some(Command::TabCompletion));
    assert_eq!(registry.lookup(&ViewState::ActiveSearchMode, &None, key(KeyCode::Char('j'), 0)), None);
    let message = Some(Overlay::Message("hello".to_string()));
    assert_eq!(registry.lookup(&ViewState::LogView, &message, key(KeyCode::Char('q'), 0)), Some(Command::Quit));
    assert_eq!(registry.lookup(&ViewState::LogView, &message, key(KeyCode::Char('j'), 0)), None);
    assert_eq!(registry.lookup(&ViewState::LogView, &Some(Overlay::EventsFilter), key(KeyCode::Char(' '), 0)), Some(Command::ToggleEventFilter));
}

#[test]
fn bindings_are_written_for_help() {
    let registry = KeybindingRegistry::new();
    let search = registry.get_keybindings_for_context(&KeybindingContext::View(ViewState::ActiveSearchMode));
    let keys: Vec<String> = search.iter().map(|(k, _)| k.clone()).collect();
    assert_eq!(keys, vec!["Tab", "Alt+a", "Up", "Down", "Ctrl+c", "Esc", "Enter", "F(1)"]);
    let log = registry.get_keybindings_for_context(&KeybindingContext::View(ViewState::LogView));
    assert!(log.iter().any(|(k, c)| k == "Space" && *c == Command::ToggleMark));
    assert!(log.iter().any(|(k, c)| k == "G" && *c == Command::GotoBottom));
    assert!(log.iter().any(|(k, c)| k == "Ctrl+f" && *c == Command::ActivateActiveSearchMode));
}

#[test]
fn command_descriptions() {
    assert_eq!(Command::MoveUp.description(), "Move up");
    assert_eq!(Command::ClearLogBuffer.description(), "Clear buffer (stdin)");
    assert_eq!(Command::CopySelection.description(), "Copy selection to clipboard");
}

#[test]
fn text_input_views_and_overlays() {
    assert!(ViewState::ActiveSearchMode.has_text_input());
    assert!(ViewState::GotoLineMode.has_text_input());
    assert!(!ViewState::LogView.has_text_input());
    assert!(Overlay::MarkName.has_text_input());
    assert!(!Overlay::Message("x".to_string()).has_text_input());
    assert!(!Overlay::EditTimeFilter.has_text_input());
}

#[test]
fn help_is_built_and_navigated() {
    let registry = KeybindingRegistry::new();
    let mut help = Help::new();
    help.build_from_registry(&registry);
    assert!(!help.is_visible());
    help.toggle_visibility();
    assert!(help.is_visible());
    help.set_viewport_height(5);
    help.move_down();
    help.move_down();
    help.move_down();
    help.move_down();
    help.move_down();
    assert!(help.viewport_offset() > 0);
    help.move_up();
    help.reset();
    help.show_for_state(&KeybindingContext::View(ViewState::MarksView));
    assert!(help.is_visible());
}

#[test]
fn help_items() {
    let item = HelpItem::new("q", "Quit", HelpItemType::Keybind);
    assert!(item.is_selectable());
    assert!(!item.is_header());
    let header = HelpItem::new_header("Global", None);
    assert!(header.is_header());
    assert!(!header.is_selectable());
    let empty = HelpItem::new_empty();
    assert_eq!(empty.item_type, HelpItemType::Empty);
    assert_eq!(empty.key, "");
}
