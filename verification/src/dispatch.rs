//! Command routing: the single function that maps an incoming symbolic
//! command identifier (a menu item id, an accelerator, a UI call) to a
//! closed command.  Fixed identifiers route to fixed commands; any other
//! identifier that matches a website id activates that tab; everything else
//! is silently dropped.  Menu items and dynamic tabs share this identifier
//! space, which is why a stale menu is a correctness bug.

use vstd::prelude::*;

use crate::settings::{has_id, Website};
use crate::registry::contains_id;
use crate::text::str_eq;

verus! {

broadcast use vstd::string::group_string_axioms;

/// A routed command.
pub enum Command {
    OpenSettings,
    CycleTab,
    ToggleAutoPaste,
    GoBack,
    GoForward,
    ToggleNotes,
    ShowTabSwitcher,
    /// The fallback: the identifier named a website, so activate its tab.
    ActivateTab { id: String },
}

/// The identifiers that route to fixed commands.
pub open spec fn is_fixed_id(id: Seq<char>) -> bool {
    ||| id == "settings"@
    ||| id == "cycle_tab"@
    ||| id == "auto_paste"@
    ||| id == "go_back"@
    ||| id == "go_forward"@
    ||| id == "toggle_notes"@
    ||| id == "show_tab_switcher"@
}

/// Route a symbolic identifier against the current website list.
pub fn route(id: &str, websites: &Vec<Website>) -> (r: Option<Command>)
    ensures
        id@ == "settings"@ ==> r matches Some(Command::OpenSettings),
        id@ == "cycle_tab"@ ==> r matches Some(Command::CycleTab),
        id@ == "auto_paste"@ ==> r matches Some(Command::ToggleAutoPaste),
        id@ == "go_back"@ ==> r matches Some(Command::GoBack),
        id@ == "go_forward"@ ==> r matches Some(Command::GoForward),
        id@ == "toggle_notes"@ ==> r matches Some(Command::ToggleNotes),
        id@ == "show_tab_switcher"@ ==> r matches Some(Command::ShowTabSwitcher),
        !is_fixed_id(id@) && has_id(websites@.map_values(|w: Website| w@), id@) ==> (r matches Some(
            Command::ActivateTab { id: t },
        ) && t@ == id@),
        !is_fixed_id(id@) && !has_id(websites@.map_values(|w: Website| w@), id@) ==> r is None,
        (r is Some) == (is_fixed_id(id@) || has_id(websites@.map_values(|w: Website| w@), id@)),
{
    proof {
        reveal_strlit("settings");
        reveal_strlit("cycle_tab");
        reveal_strlit("auto_paste");
        reveal_strlit("go_back");
        reveal_strlit("go_forward");
        reveal_strlit("toggle_notes");
        reveal_strlit("show_tab_switcher");
        assert("settings"@.len() == 8);
        assert("cycle_tab"@.len() == 9);
        assert("auto_paste"@.len() == 10);
        assert("go_back"@.len() == 7);
        assert("go_forward"@.len() == 10);
        assert("toggle_notes"@.len() == 12);
        assert("show_tab_switcher"@.len() == 17);
        assert("auto_paste"@[0] == 'a');
        assert("go_forward"@[0] == 'g');
    }
    if str_eq(id, "settings") {
        Some(Command::OpenSettings)
    } else if str_eq(id, "cycle_tab") {
        Some(Command::CycleTab)
    } else if str_eq(id, "auto_paste") {
        Some(Command::ToggleAutoPaste)
    } else if str_eq(id, "go_back") {
        Some(Command::GoBack)
    } else if str_eq(id, "go_forward") {
        Some(Command::GoForward)
    } else if str_eq(id, "toggle_notes") {
        Some(Command::ToggleNotes)
    } else if str_eq(id, "show_tab_switcher") {
        Some(Command::ShowTabSwitcher)
    } else if contains_id(websites, id) {
        Some(Command::ActivateTab { id: id.to_owned() })
    } else {
        None
    }
}

} // verus!
