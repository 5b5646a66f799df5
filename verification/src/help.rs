//! The help popup: the key bindings of each view, and a selection that moves over them.
use vstd::prelude::*;
use vstd::string::StringExecFns;
use crate::app::{Overlay, OverlayKind, ViewState};
use crate::command::{command_text, Command};
use crate::keybindings::{context_bindings, context_view, default_table, ContextKind, KeybindingContext, KeybindingRegistry};

verus! {

/// Type of help item.
#[derive(Debug, Clone, Copy, PartialEq, Eq, Structural)]
pub enum HelpItemType {
    /// A keybinding with key and description.
    Keybind,
    /// A section header.
    Header,
    /// An empty line for spacing.
    Empty,
}

impl Default for HelpItemType {
    fn default() -> (r: Self)
        ensures
            r == HelpItemType::Keybind,
    {
        HelpItemType::Keybind
    }
}

/// A single help item entry.
#[derive(Debug)]
pub struct HelpItem {
    /// The key or header text.
    pub key: String,
    /// Description of what the key does.
    pub description: String,
    /// Type of this help item.
    pub item_type: HelpItemType,
    /// The context this header stands for (only for headers).
    pub state: Option<KeybindingContext>,
}

/// A help item as its key, description, type and context.
pub type ItemView = (Seq<char>, Seq<char>, HelpItemType, Option<(ContextKind, Seq<char>)>);

/// A help item's view.
pub open spec fn item_view(i: HelpItem) -> ItemView {
    (
        i.key@,
        i.description@,
        i.item_type,
        match i.state {
            Some(c) => Some(context_view(c)),
            None => None,
        },
    )
}

/// A keybinding item.
pub open spec fn key_item(key: Seq<char>, description: Seq<char>) -> ItemView {
    (key, description, HelpItemType::Keybind, None)
}

/// A section header.
pub open spec fn header_item(key: Seq<char>, state: Option<(ContextKind, Seq<char>)>) -> ItemView {
    (key, Seq::empty(), HelpItemType::Header, state)
}

/// An empty line.
pub open spec fn empty_item() -> ItemView {
    (Seq::empty(), Seq::empty(), HelpItemType::Empty, None)
}

/// The commands left out of the help: moving, quitting, confirming, cancelling and the
/// help itself.
pub open spec fn hidden_in_help(c: Command) -> bool {
    c == Command::Quit || c == Command::Confirm || c == Command::Cancel || c == Command::ToggleHelp
        || c == Command::PageUp || c == Command::PageDown || c == Command::MoveUp || c == Command::MoveDown
}

/// The help items of a context's bindings, without the hidden commands.
pub open spec fn binding_items(bindings: Seq<(Seq<char>, Command)>) -> Seq<ItemView>
    decreases bindings.len(),
{
    if bindings.len() == 0 {
        Seq::empty()
    } else {
        let rest = binding_items(bindings.drop_last());
        let (key, cmd) = bindings.last();
        if hidden_in_help(cmd) {
            rest
        } else {
            rest.push(key_item(key, command_text(cmd)))
        }
    }
}

/// The help items of a context.
pub open spec fn state_items(bs: Seq<crate::keybindings::BindingView>, ctx: (ContextKind, Seq<char>)) -> Seq<ItemView> {
    binding_items(context_bindings(bs, ctx))
}

/// All help items built from the bindings.
pub open spec fn help_table(bs: Seq<crate::keybindings::BindingView>) -> Seq<ItemView> {
    seq![header_item("Global"@, None), key_item("Ctrl+c/q"@, "Quit"@), key_item("Esc"@, "Cancel/Exit mode"@), key_item("Enter"@, "Confirm"@), key_item("Ctrl+l"@, "Clear buffer (stdin)"@), key_item("Ctrl+s"@, "Save to file (stdin)"@), key_item("h"@, "Show help"@)]
        + seq![empty_item(), header_item("LogView"@, None)]
        + state_items(bs, (ContextKind::View(ViewState::LogView), Seq::empty()))
        + seq![key_item("y"@, command_text(Command::CopySelection))]
        + seq![empty_item(), header_item("Search"@, Some((ContextKind::View(ViewState::ActiveSearchMode), Seq::empty())))]
        + state_items(bs, (ContextKind::View(ViewState::ActiveSearchMode), Seq::empty()))
        + seq![empty_item(), header_item("Filter"@, Some((ContextKind::View(ViewState::ActiveFilterMode), Seq::empty())))]
        + state_items(bs, (ContextKind::View(ViewState::ActiveFilterMode), Seq::empty()))
        + seq![empty_item(), header_item("Filter List"@, Some((ContextKind::View(ViewState::FilterView), Seq::empty())))]
        + state_items(bs, (ContextKind::View(ViewState::FilterView), Seq::empty()))
        + seq![empty_item(), header_item("Events View"@, Some((ContextKind::View(ViewState::EventsView), Seq::empty())))]
        + state_items(bs, (ContextKind::View(ViewState::EventsView), Seq::empty()))
        + seq![empty_item(), header_item("Event Filters"@, Some((ContextKind::Overlay(OverlayKind::EventsFilter), Seq::empty())))]
        + state_items(bs, (ContextKind::Overlay(OverlayKind::EventsFilter), Seq::empty()))
        + seq![empty_item(), header_item("Display Options"@, Some((ContextKind::View(ViewState::OptionsView), Seq::empty())))]
        + state_items(bs, (ContextKind::View(ViewState::OptionsView), Seq::empty()))
        + seq![empty_item(), header_item("Marks View"@, Some((ContextKind::View(ViewState::MarksView), Seq::empty())))]
        + state_items(bs, (ContextKind::View(ViewState::MarksView), Seq::empty()))
}

/// The viewport offset that shows the selected item in a window of `height` rows over
/// `count` items, starting from `offset`.
pub open spec fn help_offset_after(selected: int, offset: int, count: int, height: int) -> int {
    if count == 0 {
        0
    } else {
        let up = if selected < offset {
            selected
        } else {
            offset
        };
        let bottom = up + if height > 0 {
            height - 1
        } else {
            0
        };
        let down = if selected > bottom {
            selected + 1 - height
        } else {
            up
        };
        let max_offset = if count > height {
            count - height
        } else {
            0
        };
        if down <= max_offset {
            down
        } else {
            max_offset
        }
    }
}

/// The first selectable item at or after position `k`.
pub open spec fn next_selectable_from(items: Seq<ItemView>, k: int) -> Option<int>
    decreases items.len() - k,
{
    if k < 0 || k >= items.len() {
        None
    } else if items[k].2 == HelpItemType::Keybind {
        Some(k)
    } else {
        next_selectable_from(items, k + 1)
    }
}

/// The last selectable item at or before position `k`.
pub open spec fn prev_selectable_from(items: Seq<ItemView>, k: int) -> Option<int>
    decreases k + 1,
{
    if k < 0 || k >= items.len() {
        None
    } else if items[k].2 == HelpItemType::Keybind {
        Some(k)
    } else {
        prev_selectable_from(items, k - 1)
    }
}

/// The first header for the context.
pub open spec fn header_for(items: Seq<ItemView>, ctx: (ContextKind, Seq<char>), k: int) -> Option<int>
    decreases items.len() - k,
{
    if k < 0 || k >= items.len() {
        None
    } else if items[k].2 == HelpItemType::Header && items[k].3 == Some(ctx) {
        Some(k)
    } else {
        header_for(items, ctx, k + 1)
    }
}

impl HelpItem {
    /// Creates a new help item.
    pub fn new(key: &str, description: &str, item_type: HelpItemType) -> (r: Self)
        ensures
            item_view(r) == (key@, description@, item_type, None::<(ContextKind, Seq<char>)>),
    {
        Self { key: String::from_str(key), description: String::from_str(description), item_type, state: None }
    }

    /// Creates a new header help item.
    pub fn new_header(key: &str, state: Option<KeybindingContext>) -> (r: Self)
        ensures
            item_view(r) == header_item(
                key@,
                match state {
                    Some(c) => Some(context_view(c)),
                    None => None,
                },
            ),
    {
        Self { key: String::from_str(key), description: String::new(), item_type: HelpItemType::Header, state }
    }

    /// Creates a new empty help item (an empty line).
    pub fn new_empty() -> (r: Self)
        ensures
            item_view(r) == empty_item(),
    {
        Self { key: String::new(), description: String::new(), item_type: HelpItemType::Empty, state: None }
    }

    /// Returns whether this item can be selected (only keybindings are selectable).
    pub fn is_selectable(&self) -> (r: bool)
        ensures
            r == (self.item_type == HelpItemType::Keybind),
    {
        self.item_type == HelpItemType::Keybind
    }

    /// Returns whether this item is a header.
    pub fn is_header(&self) -> (r: bool)
        ensures
            r == (self.item_type == HelpItemType::Header),
    {
        self.item_type == HelpItemType::Header
    }
}

impl Default for HelpItem {
    fn default() -> (r: Self)
        ensures
            item_view(r) == key_item(Seq::empty(), Seq::empty()),
    {
        Self { key: String::new(), description: String::new(), item_type: HelpItemType::Keybind, state: None }
    }
}

/// Manages the help popup display with keybindings and navigation.
#[derive(Debug)]
pub struct Help {
    selected_index: usize,
    help_items: Vec<HelpItem>,
    visible: bool,
    /// Viewport offset for scrolling the list
    viewport_offset: usize,
    /// Last rendered viewport height.
    viewport_height: usize,
}

impl Default for Help {
    fn default() -> (r: Self)
        ensures
            r.items() == Seq::<ItemView>::empty(),
            r.selected() == 0,
            r.offset() == 0,
            r.height() == 0,
            !r.shown(),
    {
        let r = Help { selected_index: 0, help_items: Vec::new(), visible: false, viewport_offset: 0, viewport_height: 0 };
        assert(r.items() =~= Seq::<ItemView>::empty());
        r
    }
}

impl Help {
    /// The items, in order.
    pub closed spec fn items(&self) -> Seq<ItemView> {
        self.help_items@.map_values(|i: HelpItem| item_view(i))
    }

    /// The selected position.
    pub closed spec fn selected(&self) -> int {
        self.selected_index as int
    }

    /// The first shown position.
    pub closed spec fn offset(&self) -> int {
        self.viewport_offset as int
    }

    /// The number of rows shown.
    pub closed spec fn height(&self) -> int {
        self.viewport_height as int
    }

    /// Whether the popup is shown.
    pub closed spec fn shown(&self) -> bool {
        self.visible
    }

    /// The position `reset` selects: the first selectable item, or 0.
    pub open spec fn first_selectable(items: Seq<ItemView>) -> int {
        match next_selectable_from(items, 0) {
            Some(k) => k,
            None => 0,
        }
    }

    /// Creates a new, hidden help holding the documentation of all the default
    /// keybindings, with the first keybinding selected.
    pub fn new() -> (r: Self)
        ensures
            r.items() == help_table(default_table()),
            r.items().len() > 0,
            r.selected() == 1,
            r.items()[r.selected()].2 == HelpItemType::Keybind,
            r.offset() == 0,
            r.height() == 0,
            !r.shown(),
    {
        let registry = KeybindingRegistry::new();
        let mut help = Self::default();
        help.build_from_registry(&registry);
        proof {
            let items = help_table(default_table());
            reveal_strlit("Global");
            reveal_strlit("Ctrl+c/q");
            reveal_strlit("Quit");
            assert(items[0].2 == HelpItemType::Header);
            assert(items[1].2 == HelpItemType::Keybind);
            assert(next_selectable_from(items, 1) == Some(1int));
            assert(next_selectable_from(items, 0) == Some(1int));
        }
        help
    }

    fn add_state_bindings(&self, help_items: &mut Vec<HelpItem>, registry: &KeybindingRegistry, state: &KeybindingContext)
        ensures
            final(help_items)@.map_values(|i: HelpItem| item_view(i)) == old(help_items)@.map_values(
                |i: HelpItem| item_view(i),
            ) + state_items(registry.bindings(), context_view(*state)),
    {
        let bindings = registry.get_keybindings_for_context(state);
        let ghost cb = context_bindings(registry.bindings(), context_view(*state));
        let ghost start = help_items@.map_values(|i: HelpItem| item_view(i));
        let mut k: usize = 0;
        while k < bindings.len()
            invariant
                k <= bindings@.len(),
                bindings@.len() == cb.len(),
                forall|i: int| 0 <= i < bindings@.len() ==> (#[trigger] bindings@[i]).0@ == cb[i].0 && bindings@[i].1 == cb[i].1,
                help_items@.map_values(|i: HelpItem| item_view(i)) == start + binding_items(cb.take(k as int)),
            decreases bindings@.len() - k,
        {
            let (key, command) = &bindings[k];
            proof {
                assert(cb.take(k + 1).drop_last() =~= cb.take(k as int));
                assert(cb.take(k + 1).last() == cb[k as int]);
            }
            let ghost before = help_items@;
            let hidden = match command {
                Command::Quit | Command::Confirm | Command::Cancel | Command::ToggleHelp | Command::PageUp
                | Command::PageDown | Command::MoveUp | Command::MoveDown => true,
                _ => false,
            };
            if !hidden {
                let item = HelpItem::new(key.as_str(), command.description(), HelpItemType::Keybind);
                push_item(help_items, item);
            }
            k += 1;
        }
        proof {
            assert(cb.take(k as int) =~= cb);
        }
    }

    /// Builds the help items from the keybinding registry and selects the first
    /// selectable one.
    #[verifier::rlimit(60)]
    pub fn build_from_registry(&mut self, registry: &KeybindingRegistry)
        ensures
            final(self).items() == help_table(registry.bindings()),
            final(self).selected() == Self::first_selectable(final(self).items()),
            final(self).offset() == old(self).offset(),
            final(self).height() == old(self).height(),
            final(self).shown() == old(self).shown(),
    {
        let mut help_items: Vec<HelpItem> = Vec::new();
        push_item(&mut help_items, HelpItem::new_header("Global", None));
        push_item(&mut help_items, HelpItem::new("Ctrl+c/q", "Quit", HelpItemType::Keybind));
        push_item(&mut help_items, HelpItem::new("Esc", "Cancel/Exit mode", HelpItemType::Keybind));
        push_item(&mut help_items, HelpItem::new("Enter", "Confirm", HelpItemType::Keybind));
        push_item(&mut help_items, HelpItem::new("Ctrl+l", "Clear buffer (stdin)", HelpItemType::Keybind));
        push_item(&mut help_items, HelpItem::new("Ctrl+s", "Save to file (stdin)", HelpItemType::Keybind));
        push_item(&mut help_items, HelpItem::new("h", "Show help", HelpItemType::Keybind));
        proof {
            reveal_strlit("Global");
        }
        push_item(&mut help_items, HelpItem::new_empty());
        push_item(&mut help_items, HelpItem::new_header("LogView", None));
        self.add_state_bindings(&mut help_items, registry, &KeybindingContext::View(ViewState::LogView));
        push_item(&mut help_items, HelpItem::new("y", Command::CopySelection.description(), HelpItemType::Keybind));
        push_item(&mut help_items, HelpItem::new_empty());
        push_item(&mut help_items, HelpItem::new_header("Search", Some(KeybindingContext::View(ViewState::ActiveSearchMode))));
        self.add_state_bindings(&mut help_items, registry, &KeybindingContext::View(ViewState::ActiveSearchMode));
        push_item(&mut help_items, HelpItem::new_empty());
        push_item(&mut help_items, HelpItem::new_header("Filter", Some(KeybindingContext::View(ViewState::ActiveFilterMode))));
        self.add_state_bindings(&mut help_items, registry, &KeybindingContext::View(ViewState::ActiveFilterMode));
        push_item(&mut help_items, HelpItem::new_empty());
        push_item(&mut help_items, HelpItem::new_header("Filter List", Some(KeybindingContext::View(ViewState::FilterView))));
        self.add_state_bindings(&mut help_items, registry, &KeybindingContext::View(ViewState::FilterView));
        push_item(&mut help_items, HelpItem::new_empty());
        push_item(&mut help_items, HelpItem::new_header("Events View", Some(KeybindingContext::View(ViewState::EventsView))));
        self.add_state_bindings(&mut help_items, registry, &KeybindingContext::View(ViewState::EventsView));
        push_item(&mut help_items, HelpItem::new_empty());
        push_item(&mut help_items, HelpItem::new_header("Event Filters", Some(KeybindingContext::Overlay(Overlay::EventsFilter))));
        self.add_state_bindings(&mut help_items, registry, &KeybindingContext::Overlay(Overlay::EventsFilter));
        push_item(&mut help_items, HelpItem::new_empty());
        push_item(&mut help_items, HelpItem::new_header("Display Options", Some(KeybindingContext::View(ViewState::OptionsView))));
        self.add_state_bindings(&mut help_items, registry, &KeybindingContext::View(ViewState::OptionsView));
        push_item(&mut help_items, HelpItem::new_empty());
        push_item(&mut help_items, HelpItem::new_header("Marks View", Some(KeybindingContext::View(ViewState::MarksView))));
        self.add_state_bindings(&mut help_items, registry, &KeybindingContext::View(ViewState::MarksView));
        proof {
            assert(help_items@.map_values(|i: HelpItem| item_view(i)) =~= help_table(registry.bindings()));
        }
        self.help_items = help_items;
        self.reset();
    }

    /// Toggles help visibility and resets selection.
    pub fn toggle_visibility(&mut self)
        ensures
            final(self).shown() == !old(self).shown(),
            final(self).items() == old(self).items(),
            final(self).selected() == Self::first_selectable(old(self).items()),
            final(self).offset() == old(self).offset(),
            final(self).height() == old(self).height(),
    {
        self.visible = !self.visible;
        self.reset();
    }

    /// Shows help and jumps to the section header for the context; selects the first
    /// selectable item when there is no such header.
    pub fn show_for_state(&mut self, state: &KeybindingContext)
        ensures
            final(self).shown(),
            final(self).items() == old(self).items(),
            final(self).height() == old(self).height(),
            match header_for(old(self).items(), context_view(*state), 0) {
                Some(k) => final(self).selected() == k && final(self).offset() == if k <= sat(
                    old(self).items().len() - old(self).height(),
                ) {
                    k
                } else {
                    sat(old(self).items().len() - old(self).height())
                },
                None => final(self).selected() == Self::first_selectable(old(self).items()) && final(self).offset()
                    == old(self).offset(),
            },
    {
        self.visible = true;
        self.jump_to_state(state);
    }

    fn jump_to_state(&mut self, target_state: &KeybindingContext)
        ensures
            final(self).shown() == old(self).shown(),
            final(self).items() == old(self).items(),
            final(self).height() == old(self).height(),
            match header_for(old(self).items(), context_view(*target_state), 0) {
                Some(k) => final(self).selected() == k && final(self).offset() == if k <= sat(
                    old(self).items().len() - old(self).height(),
                ) {
                    k
                } else {
                    sat(old(self).items().len() - old(self).height())
                },
                None => final(self).selected() == Self::first_selectable(old(self).items()) && final(self).offset()
                    == old(self).offset(),
            },
    {
        let ghost ctx = context_view(*target_state);
        let mut index: usize = 0;
        while index < self.help_items.len()
            invariant
                index <= self.help_items@.len(),
                header_for(self.items(), ctx, 0) == header_for(self.items(), ctx, index as int),
                ctx == context_view(*target_state),
                self.items() == old(self).items(),
                self == old(self),
            decreases self.help_items@.len() - index,
        {
            let item = &self.help_items[index];
            proof {
                assert(self.items()[index as int] == item_view(self.help_items@[index as int]));
            }
            let found = match &item.state {
                Some(s) => item.item_type == HelpItemType::Header && same_context(s, target_state),
                None => false,
            };
            proof {
                let iv = self.items()[index as int];
                assert(iv == item_view(*item));
                match &item.state {
                    Some(c) => {
                        assert(iv.3 == Some(context_view(*c)));
                        assert(found == (iv.2 == HelpItemType::Header && context_view(*c) == ctx));
                    },
                    None => {
                        assert(iv.3 is None);
                    },
                }
                assert(found == (iv.2 == HelpItemType::Header && iv.3 == Some(ctx)));
            }
            if found {
                let max_offset = if self.help_items.len() > self.viewport_height {
                    self.help_items.len() - self.viewport_height
                } else {
                    0
                };
                self.selected_index = index;
                self.viewport_offset = if index <= max_offset { index } else { max_offset };
                return;
            }
            index += 1;
        }
        self.reset();
    }

    /// The number of items.
    pub fn item_count(&self) -> (r: usize)
        ensures
            r == self.items().len(),
    {
        self.help_items.len()
    }

    /// The position of the selected item.
    pub fn selected_index(&self) -> (r: usize)
        ensures
            r == self.selected(),
    {
        self.selected_index
    }

    /// The item at a position, if there is one.
    pub fn item(&self, index: usize) -> (r: Option<&HelpItem>)
        ensures
            index < self.items().len() ==> (r matches Some(i) && item_view(*i) == self.items()[index as int]),
            index >= self.items().len() ==> r is None,
    {
        if index < self.help_items.len() {
            Some(&self.help_items[index])
        } else {
            None
        }
    }

    /// Returns whether the help popup is currently visible.
    pub fn is_visible(&self) -> (r: bool)
        ensures
            r == self.shown(),
    {
        self.visible
    }

    /// Gets the current viewport offset.
    pub fn viewport_offset(&self) -> (r: usize)
        ensures
            r == self.offset(),
    {
        self.viewport_offset
    }

    /// Sets the viewport height (set when the popup is drawn).
    pub fn set_viewport_height(&mut self, height: usize)
        ensures
            final(self).height() == height,
            final(self).items() == old(self).items(),
            final(self).selected() == old(self).selected(),
            final(self).offset() == old(self).offset(),
            final(self).shown() == old(self).shown(),
    {
        self.viewport_height = height;
    }

    fn adjust_viewport(&mut self)
        requires
            old(self).selected() < old(self).items().len(),
        ensures
            final(self).offset() == help_offset_after(
                old(self).selected(),
                old(self).offset(),
                old(self).items().len() as int,
                old(self).height(),
            ),
            final(self).items() == old(self).items(),
            final(self).selected() == old(self).selected(),
            final(self).height() == old(self).height(),
            final(self).shown() == old(self).shown(),
    {
        if self.help_items.len() == 0 {
            self.viewport_offset = 0;
            return;
        }
        let viewport_height = self.viewport_height;
        if self.selected_index < self.viewport_offset {
            self.viewport_offset = self.selected_index;
        }
        let below = if viewport_height > 0 { viewport_height - 1 } else { 0 };
        if self.selected_index - self.viewport_offset > below {
            self.viewport_offset = self.selected_index + 1 - viewport_height;
        }
        let max_offset = if self.help_items.len() > viewport_height {
            self.help_items.len() - viewport_height
        } else {
            0
        };
        if self.viewport_offset > max_offset {
            self.viewport_offset = max_offset;
        }
    }

    /// Moves the selection to the previous selectable item, if there is one.
    pub fn move_up(&mut self)
        requires
            old(self).selected() < old(self).items().len() || old(self).items().len() == 0,
        ensures
            final(self).items() == old(self).items(),
            final(self).height() == old(self).height(),
            final(self).shown() == old(self).shown(),
            match prev_selectable_from(old(self).items(), old(self).selected() - 1) {
                Some(k) => final(self).selected() == k && final(self).offset() == help_offset_after(
                    k,
                    old(self).offset(),
                    old(self).items().len() as int,
                    old(self).height(),
                ),
                None => final(self).selected() == old(self).selected() && final(self).offset() == old(self).offset(),
            },
    {
        if self.selected_index == 0 || self.help_items.len() == 0 {
            return;
        }
        let mut k: usize = self.selected_index;
        while k > 0
            invariant
                k <= old(self).selected(),
                k <= self.help_items@.len(),
                self == old(self),
                prev_selectable_from(self.items(), old(self).selected() - 1) == prev_selectable_from(self.items(), k - 1),
            decreases k,
        {
            proof {
                assert(self.items()[k - 1] == item_view(self.help_items@[k - 1]));
            }
            if self.help_items[k - 1].is_selectable() {
                self.selected_index = k - 1;
                self.adjust_viewport();
                return;
            }
            k -= 1;
        }
    }

    /// Moves the selection to the next selectable item, if there is one.
    pub fn move_down(&mut self)
        requires
            old(self).selected() < old(self).items().len() || old(self).items().len() == 0,
        ensures
            final(self).items() == old(self).items(),
            final(self).height() == old(self).height(),
            final(self).shown() == old(self).shown(),
            match next_selectable_from(old(self).items(), old(self).selected() + 1) {
                Some(k) => final(self).selected() == k && final(self).offset() == help_offset_after(
                    k,
                    old(self).offset(),
                    old(self).items().len() as int,
                    old(self).height(),
                ),
                None => final(self).selected() == old(self).selected() && final(self).offset() == old(self).offset(),
            },
    {
        if self.selected_index >= self.help_items.len() {
            return;
        }
        let mut k: usize = self.selected_index + 1;
        while k < self.help_items.len()
            invariant
                old(self).selected() + 1 <= k <= self.help_items@.len(),
                self == old(self),
                next_selectable_from(self.items(), old(self).selected() + 1) == next_selectable_from(self.items(), k as int),
            decreases self.help_items@.len() - k,
        {
            proof {
                assert(self.items()[k as int] == item_view(self.help_items@[k as int]));
            }
            if self.help_items[k].is_selectable() {
                self.selected_index = k;
                self.adjust_viewport();
                return;
            }
            k += 1;
        }
    }

    /// Selects the first selectable item, or position 0 when there is none.
    pub fn reset(&mut self)
        ensures
            final(self).selected() == Self::first_selectable(old(self).items()),
            final(self).items() == old(self).items(),
            final(self).offset() == old(self).offset(),
            final(self).height() == old(self).height(),
            final(self).shown() == old(self).shown(),
    {
        let mut i: usize = 0;
        while i < self.help_items.len()
            invariant
                i <= self.help_items@.len(),
                self == old(self),
                next_selectable_from(self.items(), 0) == next_selectable_from(self.items(), i as int),
            decreases self.help_items@.len() - i,
        {
            proof {
                assert(self.items()[i as int] == item_view(self.help_items@[i as int]));
            }
            if self.help_items[i].is_selectable() {
                self.selected_index = i;
                return;
            }
            i += 1;
        }
        self.selected_index = 0;
    }
}

fn push_item(items: &mut Vec<HelpItem>, item: HelpItem)
    ensures
        final(items)@.map_values(|i: HelpItem| item_view(i)) == old(items)@.map_values(|i: HelpItem| item_view(i)).push(
            item_view(item),
        ),
{
    let ghost v = item_view(item);
    items.push(item);
    proof {
        assert(items@.map_values(|i: HelpItem| item_view(i)) =~= old(items)@.map_values(|i: HelpItem| item_view(i)).push(v));
    }
}

/// `x`, or 0 when it is negative.
pub open spec fn sat(x: int) -> int {
    if x > 0 {
        x
    } else {
        0
    }
}

fn same_context(a: &KeybindingContext, b: &KeybindingContext) -> (r: bool)
    ensures
        r == (context_view(*a) == context_view(*b)),
{
    let ka = match a {
        KeybindingContext::View(v) => ContextKind::View(*v),
        KeybindingContext::Overlay(o) => ContextKind::Overlay(o.kind()),
    };
    let kb = match b {
        KeybindingContext::View(v) => ContextKind::View(*v),
        KeybindingContext::Overlay(o) => ContextKind::Overlay(o.kind()),
    };
    if ka != kb {
        return false;
    }
    let ta = match a {
        KeybindingContext::View(_) => None,
        KeybindingContext::Overlay(o) => Some(o.text()),
    };
    let tb = match b {
        KeybindingContext::View(_) => None,
        KeybindingContext::Overlay(o) => Some(o.text()),
    };
    match (ta, tb) {
        (Some(x), Some(y)) => crate::utils::str_eq(x, y),
        _ => true,
    }
}

/// After a move, the selected item is within the rows shown, whenever rows are shown.
pub proof fn lemma_selection_shown(selected: int, offset: int, count: int, height: int)
    requires
        0 <= selected < count,
        0 <= offset,
        height > 0,
    ensures
        help_offset_after(selected, offset, count, height) <= selected < help_offset_after(selected, offset, count, height)
            + height,
        0 <= help_offset_after(selected, offset, count, height),
{
}

} // verus!
