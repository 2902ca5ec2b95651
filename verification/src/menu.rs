//! The menu synchronizer: a pure function from the current configuration to
//! the declarative menu description the toolkit renders.  It must run after
//! every mutation that changes the website list or the auto-paste flag,
//! because menu item identifiers double as the command-dispatch keys.

use vstd::prelude::*;

use crate::dispatch::is_fixed_id;
use crate::settings::{has_id, AppSettings, AppSettingsView, Website, WebsiteView};

verus! {

/// An edit or application action forwarded verbatim to the focused
/// surface's native capability; no custom logic is attached.
pub enum NativeItem {
    Undo,
    Redo,
    Cut,
    Copy,
    Paste,
    SelectAll,
    Quit,
}

/// One entry of a submenu.
pub enum MenuEntry {
    /// A custom item: its `id` is the command-dispatch key.
    Action { id: String, label: String, accelerator: Option<String> },
    /// A custom checkbox item.
    Checkbox { id: String, label: String, accelerator: Option<String>, checked: bool },
    /// A predefined toolkit item.
    Native { item: NativeItem, label: String },
    Separator,
}

pub struct SubmenuDesc {
    pub title: String,
    pub entries: Vec<MenuEntry>,
}

/// The whole menu bar: the app-control group, the edit-actions group, the
/// dynamic tabs group, and the view group.
pub struct MenuDesc {
    pub app: SubmenuDesc,
    pub edit: SubmenuDesc,
    pub tabs: SubmenuDesc,
    pub view: SubmenuDesc,
}

/// The view of an optional string.
pub open spec fn opt_view(a: Option<String>) -> Option<Seq<char>> {
    match a {
        Some(s) => Some(s@),
        None => None,
    }
}

/// The entry is the action with this id, label and accelerator.
pub open spec fn action_is(e: MenuEntry, id: Seq<char>, label: Seq<char>, accel: Seq<char>) -> bool {
    e matches MenuEntry::Action { id: i, label: l, accelerator: a } && i@ == id && l@ == label
        && opt_view(a) == Some(accel)
}

/// The entry is the predefined item of this kind with this label.
pub open spec fn native_is(e: MenuEntry, item: NativeItem, label: Seq<char>) -> bool {
    e matches MenuEntry::Native { item: it, label: l } && it == item && l@ == label
}

/// The accelerator bound to a tab by its ordinal position: one for each of
/// the first nine tabs, none beyond.
pub open spec fn spec_tab_accel(i: int) -> Option<Seq<char>> {
    if i == 0 {
        Some("CmdOrCtrl+1"@)
    } else if i == 1 {
        Some("CmdOrCtrl+2"@)
    } else if i == 2 {
        Some("CmdOrCtrl+3"@)
    } else if i == 3 {
        Some("CmdOrCtrl+4"@)
    } else if i == 4 {
        Some("CmdOrCtrl+5"@)
    } else if i == 5 {
        Some("CmdOrCtrl+6"@)
    } else if i == 6 {
        Some("CmdOrCtrl+7"@)
    } else if i == 7 {
        Some("CmdOrCtrl+8"@)
    } else if i == 8 {
        Some("CmdOrCtrl+9"@)
    } else {
        None
    }
}

/// The dynamic tab entry for website `w` at position `i`: its id is the
/// website id (the dispatch key), its label the emoji and the name.
pub open spec fn tab_entry_is(e: MenuEntry, w: WebsiteView, i: int) -> bool {
    e matches MenuEntry::Action { id, label, accelerator } && id@ == w.id && label@ == w.emoji
        + " "@ + w.name && opt_view(accelerator) == spec_tab_accel(i)
}

/// Everything the rendered menu must hold, given the configuration.
pub open spec fn menu_matches(m: MenuDesc, s: AppSettingsView) -> bool {
    &&& m.app.title@ == "Peko"@
    &&& m.app.entries@.len() == 3
    &&& action_is(m.app.entries@[0], "settings"@, "Settings..."@, "CmdOrCtrl+Comma"@)
    &&& m.app.entries@[1] is Separator
    &&& native_is(m.app.entries@[2], NativeItem::Quit, "Quit Peko"@)
    &&& m.edit.title@ == "Edit"@
    &&& m.edit.entries@.len() == 7
    &&& native_is(m.edit.entries@[0], NativeItem::Undo, "Undo"@)
    &&& native_is(m.edit.entries@[1], NativeItem::Redo, "Redo"@)
    &&& m.edit.entries@[2] is Separator
    &&& native_is(m.edit.entries@[3], NativeItem::Cut, "Cut"@)
    &&& native_is(m.edit.entries@[4], NativeItem::Copy, "Copy"@)
    &&& native_is(m.edit.entries@[5], NativeItem::Paste, "Paste"@)
    &&& native_is(m.edit.entries@[6], NativeItem::SelectAll, "Select All"@)
    &&& m.tabs.title@ == "Tabs"@
    &&& m.tabs.entries@.len() == s.websites.len()
    &&& forall|i: int|
        0 <= i < s.websites.len() ==> tab_entry_is(#[trigger] m.tabs.entries@[i], s.websites[i], i)
    &&& m.view.title@ == "View"@
    &&& m.view.entries@.len() == 9
    &&& action_is(m.view.entries@[0], "go_back"@, "Back"@, "CmdOrCtrl+["@)
    &&& action_is(m.view.entries@[1], "go_forward"@, "Forward"@, "CmdOrCtrl+]"@)
    &&& m.view.entries@[2] is Separator
    &&& action_is(m.view.entries@[3], "toggle_notes"@, "Toggle Notes"@, "CmdOrCtrl+N"@)
    &&& action_is(
        m.view.entries@[4],
        "show_tab_switcher"@,
        "Show Tab Switcher"@,
        "CmdOrCtrl+\\"@,
    )
    &&& m.view.entries@[5] is Separator
    &&& action_is(m.view.entries@[6], "cycle_tab"@, "Next Tab"@, "CmdOrCtrl+Tab"@)
    &&& m.view.entries@[7] is Separator
    &&& (m.view.entries@[8] matches MenuEntry::Checkbox { id, label, accelerator, checked }
        && id@ == "auto_paste"@ && label@ == "Auto-Paste on Focus"@ && opt_view(accelerator)
        == Some("CmdOrCtrl+Shift+V"@) && checked == s.auto_paste_on_focus)
}

/// An identifier the dispatcher will not silently drop against this
/// configuration: a fixed command key, or a current website id.
pub open spec fn is_live_key(id: Seq<char>, s: AppSettingsView) -> bool {
    is_fixed_id(id) || has_id(s.websites, id)
}

/// Menu identifiers double as the command-dispatch keys, so a menu built
/// from the current configuration carries only live ones: every custom item
/// of a matching menu — each fixed entry and each dynamic tab — holds an
/// identifier the router resolves against that same configuration.
pub proof fn lemma_menu_ids_route(m: MenuDesc, s: AppSettingsView)
    requires
        menu_matches(m, s),
    ensures
        forall|i: int|
            0 <= i < m.tabs.entries@.len() ==> (#[trigger] m.tabs.entries@[i] matches
                MenuEntry::Action { id, .. } && is_live_key(id@, s)),
        m.app.entries@[0] matches MenuEntry::Action { id, .. } && is_live_key(id@, s),
        m.view.entries@[0] matches MenuEntry::Action { id, .. } && is_live_key(id@, s),
        m.view.entries@[1] matches MenuEntry::Action { id, .. } && is_live_key(id@, s),
        m.view.entries@[3] matches MenuEntry::Action { id, .. } && is_live_key(id@, s),
        m.view.entries@[4] matches MenuEntry::Action { id, .. } && is_live_key(id@, s),
        m.view.entries@[6] matches MenuEntry::Action { id, .. } && is_live_key(id@, s),
        m.view.entries@[8] matches MenuEntry::Checkbox { id, .. } && is_live_key(id@, s),
{
    assert forall|i: int|
        0 <= i < m.tabs.entries@.len() implies (#[trigger] m.tabs.entries@[i] matches
            MenuEntry::Action { id, .. } && is_live_key(id@, s)) by {
        assert(tab_entry_is(m.tabs.entries@[i], s.websites[i], i));
        match m.tabs.entries@[i] {
            MenuEntry::Action { id, .. } => {
                assert(s.websites[i].id == id@);
                assert(has_id(s.websites, id@));
            },
            _ => {
                assert(false);
            },
        }
    }
}

fn action(id: &str, label: &str, accel: &str) -> (e: MenuEntry)
    ensures
        action_is(e, id@, label@, accel@),
{
    MenuEntry::Action {
        id: id.to_owned(),
        label: label.to_owned(),
        accelerator: Some(accel.to_owned()),
    }
}

fn native(item: NativeItem, label: &str) -> (e: MenuEntry)
    ensures
        native_is(e, item, label@),
{
    MenuEntry::Native { item, label: label.to_owned() }
}

/// The accelerator for the tab at position `i`.
fn tab_accelerator(i: usize) -> (r: Option<String>)
    ensures
        opt_view(r) == spec_tab_accel(i as int),
{
    if i == 0 {
        Some(String::from_str("CmdOrCtrl+1"))
    } else if i == 1 {
        Some(String::from_str("CmdOrCtrl+2"))
    } else if i == 2 {
        Some(String::from_str("CmdOrCtrl+3"))
    } else if i == 3 {
        Some(String::from_str("CmdOrCtrl+4"))
    } else if i == 4 {
        Some(String::from_str("CmdOrCtrl+5"))
    } else if i == 5 {
        Some(String::from_str("CmdOrCtrl+6"))
    } else if i == 6 {
        Some(String::from_str("CmdOrCtrl+7"))
    } else if i == 7 {
        Some(String::from_str("CmdOrCtrl+8"))
    } else if i == 8 {
        Some(String::from_str("CmdOrCtrl+9"))
    } else {
        None
    }
}

/// Derive the full menu description from the configuration.
pub fn build_menu(settings: &AppSettings) -> (m: MenuDesc)
    ensures
        menu_matches(m, settings@),
{
    let mut app_entries: Vec<MenuEntry> = Vec::new();
    app_entries.push(action("settings", "Settings...", "CmdOrCtrl+Comma"));
    app_entries.push(MenuEntry::Separator);
    app_entries.push(native(NativeItem::Quit, "Quit Peko"));

    let mut edit_entries: Vec<MenuEntry> = Vec::new();
    edit_entries.push(native(NativeItem::Undo, "Undo"));
    edit_entries.push(native(NativeItem::Redo, "Redo"));
    edit_entries.push(MenuEntry::Separator);
    edit_entries.push(native(NativeItem::Cut, "Cut"));
    edit_entries.push(native(NativeItem::Copy, "Copy"));
    edit_entries.push(native(NativeItem::Paste, "Paste"));
    edit_entries.push(native(NativeItem::SelectAll, "Select All"));

    let mut tab_entries: Vec<MenuEntry> = Vec::new();
    let mut i: usize = 0;
    while i < settings.websites.len()
        invariant
            0 <= i <= settings.websites.len(),
            tab_entries@.len() == i,
            forall|j: int|
                0 <= j < i ==> tab_entry_is(
                    #[trigger] tab_entries@[j],
                    settings@.websites[j],
                    j,
                ),
        decreases settings.websites.len() - i,
    {
        let w = &settings.websites[i];
        let mut label = w.emoji.clone();
        label.append(" ");
        label.append(w.name.as_str());
        proof {
            assert(label@ =~= settings@.websites[i as int].emoji + " "@
                + settings@.websites[i as int].name);
        }
        let entry = MenuEntry::Action {
            id: w.id.clone(),
            label,
            accelerator: tab_accelerator(i),
        };
        tab_entries.push(entry);
        i = i + 1;
    }

    let mut view_entries: Vec<MenuEntry> = Vec::new();
    view_entries.push(action("go_back", "Back", "CmdOrCtrl+["));
    view_entries.push(action("go_forward", "Forward", "CmdOrCtrl+]"));
    view_entries.push(MenuEntry::Separator);
    view_entries.push(action("toggle_notes", "Toggle Notes", "CmdOrCtrl+N"));
    view_entries.push(action("show_tab_switcher", "Show Tab Switcher", "CmdOrCtrl+\\"));
    view_entries.push(MenuEntry::Separator);
    view_entries.push(action("cycle_tab", "Next Tab", "CmdOrCtrl+Tab"));
    view_entries.push(MenuEntry::Separator);
    view_entries.push(MenuEntry::Checkbox {
        id: String::from_str("auto_paste"),
        label: String::from_str("Auto-Paste on Focus"),
        accelerator: Some(String::from_str("CmdOrCtrl+Shift+V")),
        checked: settings.auto_paste_on_focus,
    });

    MenuDesc {
        app: SubmenuDesc { title: String::from_str("Peko"), entries: app_entries },
        edit: SubmenuDesc { title: String::from_str("Edit"), entries: edit_entries },
        tabs: SubmenuDesc { title: String::from_str("Tabs"), entries: tab_entries },
        view: SubmenuDesc { title: String::from_str("View"), entries: view_entries },
    }
}

} // verus!
