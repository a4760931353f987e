use vstd::prelude::*;

verus! {

/// Identifier of the "check for updates" menu item.
pub open spec fn check_for_updates_id() -> Seq<char> {
    "check_for_updates"@
}

/// Identifier of the "toggle developer tools" menu item.
pub open spec fn toggle_devtools_id() -> Seq<char> {
    "toggle_devtools"@
}

/// A menu item of the application: identifier, label and optional accelerator.
#[derive(Clone, Debug, PartialEq, Eq)]
pub struct MenuItemDef {
    pub id: String,
    pub label: String,
    pub accelerator: Option<String>,
}

/// One entry of a submenu: an item of the application or a platform entry.
#[derive(Clone, Debug, PartialEq, Eq)]
pub enum MenuEntry {
    Item(MenuItemDef),
    Separator,
    About,
    Services,
    Hide,
    HideOthers,
    ShowAll,
    Quit,
}

/// A titled submenu with its entries in display order.
#[derive(Clone, Debug, PartialEq, Eq)]
pub struct SubmenuDef {
    pub title: String,
    pub entries: Vec<MenuEntry>,
}

/// The "check for updates" item.
pub fn check_for_updates_item() -> (r: MenuItemDef)
    ensures
        is_check_for_updates_item(r),
{
    MenuItemDef {
        id: String::from_str("check_for_updates"),
        label: String::from_str("Check for Updates..."),
        accelerator: None,
    }
}

/// The "toggle developer tools" item, bound to Cmd/Ctrl+Shift+I.
pub fn toggle_devtools_item() -> (r: MenuItemDef)
    ensures
        is_toggle_devtools_item(r),
{
    MenuItemDef {
        id: String::from_str("toggle_devtools"),
        label: String::from_str("Toggle DevTools"),
        accelerator: Some(String::from_str("CmdOrCtrl+Shift+I")),
    }
}

/// Whether `d` is the "check for updates" item.
pub open spec fn is_check_for_updates_item(d: MenuItemDef) -> bool {
    &&& d.id@ == check_for_updates_id()
    &&& d.label@ == "Check for Updates..."@
    &&& d.accelerator.is_none()
}

/// Whether `d` is the "toggle developer tools" item.
pub open spec fn is_toggle_devtools_item(d: MenuItemDef) -> bool {
    &&& d.id@ == toggle_devtools_id()
    &&& d.label@ == "Toggle DevTools"@
    &&& d.accelerator matches Some(a) && a@ == "CmdOrCtrl+Shift+I"@
}

/// The application menu: the application submenu, then the view submenu.
pub fn build_menu() -> (r: Vec<SubmenuDef>)
    ensures
        r@.len() == 2,
        r@[0].title@ == "HC3 QuickApp Manager"@,
        r@[0].entries@.len() == 10,
        r@[0].entries@[0] == MenuEntry::About,
        r@[0].entries@[1] matches MenuEntry::Item(d) && is_check_for_updates_item(d),
        r@[0].entries@[2] == MenuEntry::Separator,
        r@[0].entries@[3] == MenuEntry::Services,
        r@[0].entries@[4] == MenuEntry::Separator,
        r@[0].entries@[5] == MenuEntry::Hide,
        r@[0].entries@[6] == MenuEntry::HideOthers,
        r@[0].entries@[7] == MenuEntry::ShowAll,
        r@[0].entries@[8] == MenuEntry::Separator,
        r@[0].entries@[9] == MenuEntry::Quit,
        r@[1].title@ == "View"@,
        r@[1].entries@.len() == 1,
        r@[1].entries@[0] matches MenuEntry::Item(d) && is_toggle_devtools_item(d),
{
    let mut app_entries: Vec<MenuEntry> = Vec::new();
    app_entries.push(MenuEntry::About);
    app_entries.push(MenuEntry::Item(check_for_updates_item()));
    app_entries.push(MenuEntry::Separator);
    app_entries.push(MenuEntry::Services);
    app_entries.push(MenuEntry::Separator);
    app_entries.push(MenuEntry::Hide);
    app_entries.push(MenuEntry::HideOthers);
    app_entries.push(MenuEntry::ShowAll);
    app_entries.push(MenuEntry::Separator);
    app_entries.push(MenuEntry::Quit);
    let mut view_entries: Vec<MenuEntry> = Vec::new();
    view_entries.push(MenuEntry::Item(toggle_devtools_item()));
    let mut r: Vec<SubmenuDef> = Vec::new();
    r.push(SubmenuDef { title: String::from_str("HC3 QuickApp Manager"), entries: app_entries });
    r.push(SubmenuDef { title: String::from_str("View"), entries: view_entries });
    r
}

/// An action that a menu event asks for.
#[derive(Clone, Copy, Debug, PartialEq, Eq, Structural)]
pub enum MenuAction {
    CheckForUpdates,
    ToggleDevtools,
    Unrecognized,
}

/// The action bound to the menu identifier `id`.
pub open spec fn action_spec(id: Seq<char>) -> MenuAction {
    if id == check_for_updates_id() {
        MenuAction::CheckForUpdates
    } else if id == toggle_devtools_id() {
        MenuAction::ToggleDevtools
    } else {
        MenuAction::Unrecognized
    }
}

/// The action bound to the menu identifier `id`.
pub fn action_for_id(id: &str) -> (r: MenuAction)
    ensures
        r == action_spec(id@),
{
    let s: String = id.to_owned();
    if s == String::from_str("check_for_updates") {
        MenuAction::CheckForUpdates
    } else if s == String::from_str("toggle_devtools") {
        MenuAction::ToggleDevtools
    } else {
        MenuAction::Unrecognized
    }
}

} // verus!
