//! What a tray shows: its icon, its tooltip and its menu.

use vstd::prelude::*;

verus! {

/// Identifies a command of the application.
#[derive(Clone, Copy, Debug, PartialEq, Eq, Hash, Structural)]
pub struct CommandId(pub u64);

/// A menu entry that runs a command.
#[derive(Debug)]
pub struct TrayCommandItem {
    pub id: CommandId,
    pub label: String,
    pub enabled: bool,
    pub checked: bool,
}

/// A menu entry that opens another menu.
#[derive(Debug)]
pub struct TraySubmenu {
    pub label: String,
    pub items: Vec<TrayMenuItem>,
}

/// One entry of a menu.
#[derive(Debug)]
pub enum TrayMenuItem {
    Separator,
    Command(TrayCommandItem),
    Submenu(TraySubmenu),
}

/// The menu of a tray.
#[derive(Debug)]
pub struct TrayMenuModel {
    pub items: Vec<TrayMenuItem>,
}

/// The icon of a tray.
#[derive(Debug)]
pub enum TrayIcon {
    /// The bytes of a PNG file.
    Png { bytes: Vec<u8> },
}

/// Everything that a tray shows.
#[derive(Debug)]
pub struct TrayModel {
    pub icon: TrayIcon,
    pub tooltip: Option<String>,
    pub menu: TrayMenuModel,
}

/// A command entry, with its label as a sequence of characters.
pub struct CommandView {
    pub id: CommandId,
    pub label: Seq<char>,
    pub enabled: bool,
    pub checked: bool,
}

/// A menu entry, with its label and its entries as sequences.
pub enum ItemView {
    Separator,
    Command(CommandView),
    Submenu { label: Seq<char>, items: Seq<ItemView> },
}

/// What a menu entry stands for.
pub open spec fn item_view(item: TrayMenuItem) -> ItemView
    decreases item,
{
    match item {
        TrayMenuItem::Separator => ItemView::Separator,
        TrayMenuItem::Command(command) => ItemView::Command(command@),
        TrayMenuItem::Submenu(sub) => ItemView::Submenu {
            label: sub.label@,
            items: Seq::new(
                sub.items@.len(),
                |i: int|
                    if 0 <= i < sub.items@.len() {
                        item_view(sub.items@[i])
                    } else {
                        ItemView::Separator
                    },
            ),
        },
    }
}

/// What a list of menu entries stands for.
pub open spec fn items_view(items: Seq<TrayMenuItem>) -> Seq<ItemView> {
    Seq::new(items.len(), |i: int| item_view(items[i]))
}

impl View for TrayCommandItem {
    type V = CommandView;

    open spec fn view(&self) -> CommandView {
        CommandView {
            id: self.id,
            label: self.label@,
            enabled: self.enabled,
            checked: self.checked,
        }
    }
}

impl View for TrayMenuItem {
    type V = ItemView;

    open spec fn view(&self) -> ItemView {
        item_view(*self)
    }
}

impl View for TrayMenuModel {
    type V = Seq<ItemView>;

    open spec fn view(&self) -> Seq<ItemView> {
        items_view(self.items@)
    }
}

impl Clone for TrayCommandItem {
    fn clone(&self) -> (copy: Self)
        ensures
            copy@ == self@,
    {
        TrayCommandItem {
            id: self.id,
            label: self.label.clone(),
            enabled: self.enabled,
            checked: self.checked,
        }
    }
}

/// What a submenu stands for, in terms of what its entries stand for.
pub(crate) proof fn lemma_submenu_view(sub: TraySubmenu)
    ensures
        item_view(TrayMenuItem::Submenu(sub)) == (ItemView::Submenu {
            label: sub.label@,
            items: items_view(sub.items@),
        }),
{
    assert(item_view(TrayMenuItem::Submenu(sub))->items =~= items_view(sub.items@));
}

/// Copies a list of menu entries, entry by entry.
fn clone_items(items: &Vec<TrayMenuItem>) -> (copy: Vec<TrayMenuItem>)
    ensures
        items_view(copy@) == items_view(items@),
    decreases items,
{
    let mut copy: Vec<TrayMenuItem> = Vec::new();
    let mut i: usize = 0;
    while i < items.len()
        invariant
            i <= items.len(),
            copy.len() == i,
            forall|j: int| 0 <= j < i ==> item_view(#[trigger] copy@[j]) == item_view(items@[j]),
        decreases items.len() - i,
    {
        let item = match &items[i] {
            TrayMenuItem::Separator => TrayMenuItem::Separator,
            TrayMenuItem::Command(command) => TrayMenuItem::Command(command.clone()),
            TrayMenuItem::Submenu(sub) => {
                let inner = clone_items(&sub.items);
                let copied = TraySubmenu { label: sub.label.clone(), items: inner };
                proof {
                    lemma_submenu_view(copied);
                    lemma_submenu_view(*sub);
                }
                TrayMenuItem::Submenu(copied)
            },
        };
        assert(item_view(item) == item_view(items@[i as int]));
        copy.push(item);
        i = i + 1;
    }
    copy
}

impl Clone for TrayMenuModel {
    fn clone(&self) -> (copy: Self)
        ensures
            copy@ == self@,
    {
        TrayMenuModel { items: clone_items(&self.items) }
    }
}

/// What is said of a menu is said of its own entries: each stands at its place, a
/// command with its number, label and marks, a submenu with its label and, again,
/// its own entries.
pub proof fn law_entries_keep_their_fields(items: Seq<TrayMenuItem>, place: int)
    requires
        0 <= place < items.len(),
    ensures
        items_view(items).len() == items.len(),
        match items[place] {
            TrayMenuItem::Separator => items_view(items)[place] is Separator,
            TrayMenuItem::Command(command) => items_view(items)[place] matches ItemView::Command(
                shown,
            ) && shown.id == command.id && shown.label == command.label@ && shown.enabled
                == command.enabled && shown.checked == command.checked,
            TrayMenuItem::Submenu(sub) => items_view(items)[place] matches ItemView::Submenu {
                label,
                items: inner,
            } && label == sub.label@ && inner == items_view(sub.items@),
        },
{
    if let TrayMenuItem::Submenu(sub) = items[place] {
        lemma_submenu_view(sub);
    }
}

/// What is said of a menu model is said of its entries, and what is said of a
/// command of its own fields.
pub proof fn law_models_keep_their_fields(menu: TrayMenuModel, command: TrayCommandItem)
    ensures
        menu@ == items_view(menu.items@),
        command@.id == command.id,
        command@.label == command.label@,
        command@.enabled == command.enabled,
        command@.checked == command.checked,
{
}

} // verus!
