use peko::autopaste::{AutoPasteTrigger, PASTE_DELAY_MS};
use peko::dispatch::{route, Command};
use peko::menu::{build_menu, MenuEntry};
use peko::notes::{notes_entry_action, tab_switcher_position, NotesAction, SurfaceRect,
    NOTES_WINDOW_HEIGHT, NOTES_WINDOW_WIDTH, SIDEBAR_WIDTH, TAB_SWITCHER_HEIGHT,
    TAB_SWITCHER_WIDTH};
use peko::registry::{activate_plan, reconcile, startup_plan};
use peko::settings::{AppSettings, Website};

fn site(id: &str) -> Website {
    Website {
        id: id.to_string(),
        name: format!("Site {}", id),
        url: format!("https://{}.example.com", id),
        emoji: "*".to_string(),
    }
}

#[test]
fn test_reconcile_creates_and_closes_exactly_once() {
    let old = vec![site("A"), site("B")];
    let new = vec![site("B"), site("C")];
    let plan = reconcile(&old, &new);
    assert_eq!(plan.closes, vec!["A".to_string()]);
    assert_eq!(plan.creates.len(), 1);
    assert_eq!(plan.creates[0].id, "C");
}

#[test]
fn test_reconcile_identical_lists_touch_nothing() {
    let old = vec![site("A"), site("B")];
    let new = vec![site("A"), site("B")];
    let plan = reconcile(&old, &new);
    assert!(plan.closes.is_empty());
    assert!(plan.creates.is_empty());
}

#[test]
fn test_reconcile_from_empty_creates_all() {
    let old: Vec<Website> = Vec::new();
    let new = vec![site("A"), site("B")];
    let plan = reconcile(&old, &new);
    assert!(plan.closes.is_empty());
    assert_eq!(plan.creates.len(), 2);
    assert_eq!(plan.creates[0].id, "A");
    assert_eq!(plan.creates[1].id, "B");
}

#[test]
fn test_activate_plan_shows_one_hides_rest() {
    let websites = vec![site("a"), site("b"), site("c")];
    let plan = activate_plan(&websites, "b");
    assert_eq!(plan.len(), 3);
    assert_eq!(plan[0].id, "a");
    assert!(!plan[0].show);
    assert_eq!(plan[1].id, "b");
    assert!(plan[1].show);
    assert_eq!(plan[2].id, "c");
    assert!(!plan[2].show);
}

#[test]
fn test_route_fixed_identifiers() {
    let websites = vec![site("a")];
    assert!(matches!(route("settings", &websites), Some(Command::OpenSettings)));
    assert!(matches!(route("cycle_tab", &websites), Some(Command::CycleTab)));
    assert!(matches!(route("auto_paste", &websites), Some(Command::ToggleAutoPaste)));
    assert!(matches!(route("go_back", &websites), Some(Command::GoBack)));
    assert!(matches!(route("go_forward", &websites), Some(Command::GoForward)));
    assert!(matches!(route("toggle_notes", &websites), Some(Command::ToggleNotes)));
    assert!(matches!(route("show_tab_switcher", &websites), Some(Command::ShowTabSwitcher)));
}

#[test]
fn test_route_website_id_activates_tab() {
    let websites = vec![site("a"), site("b")];
    match route("b", &websites) {
        Some(Command::ActivateTab { id }) => assert_eq!(id, "b"),
        other => panic!("unexpected routing: {:?}", other.is_some()),
    }
}

#[test]
fn test_route_unknown_identifier_dropped() {
    let websites = vec![site("a")];
    assert!(route("nonsense", &websites).is_none());
}

#[test]
fn test_menu_mirrors_configuration() {
    let mut settings = AppSettings {
        websites: vec![site("a"), site("b")],
        active_tab: "a".to_string(),
        default_website: None,
        auto_paste_on_focus: true,
        notes_content: String::new(),
        notes_mode: "hidden".to_string(),
    };
    settings.websites[0].emoji = "e".to_string();
    settings.websites[0].name = "Alpha".to_string();
    let menu = build_menu(&settings);

    assert_eq!(menu.app.title, "Peko");
    assert_eq!(menu.edit.title, "Edit");
    assert_eq!(menu.tabs.title, "Tabs");
    assert_eq!(menu.view.title, "View");

    assert_eq!(menu.tabs.entries.len(), 2);
    match &menu.tabs.entries[0] {
        MenuEntry::Action { id, label, accelerator } => {
            assert_eq!(id, "a");
            assert_eq!(label, "e Alpha");
            assert_eq!(accelerator.as_deref(), Some("CmdOrCtrl+1"));
        },
        _ => panic!("first tab entry is not an action"),
    }
    match &menu.tabs.entries[1] {
        MenuEntry::Action { id, accelerator, .. } => {
            assert_eq!(id, "b");
            assert_eq!(accelerator.as_deref(), Some("CmdOrCtrl+2"));
        },
        _ => panic!("second tab entry is not an action"),
    }

    match &menu.view.entries[8] {
        MenuEntry::Checkbox { id, checked, .. } => {
            assert_eq!(id, "auto_paste");
            assert!(*checked);
        },
        _ => panic!("auto-paste checkbox missing"),
    }
}

#[test]
fn test_menu_checkbox_tracks_flag_off() {
    let settings = AppSettings {
        websites: Vec::new(),
        active_tab: String::new(),
        default_website: None,
        auto_paste_on_focus: false,
        notes_content: String::new(),
        notes_mode: "hidden".to_string(),
    };
    let menu = build_menu(&settings);
    assert_eq!(menu.tabs.entries.len(), 0);
    match &menu.view.entries[8] {
        MenuEntry::Checkbox { checked, .. } => assert!(!*checked),
        _ => panic!("auto-paste checkbox missing"),
    }
}

#[test]
fn test_notes_entry_actions() {
    let rect = SurfaceRect { x: 100, y: 50, width: 1200, height: 800 };

    assert_eq!(notes_entry_action("hidden", Some(rect)), NotesAction::Hide);

    assert_eq!(
        notes_entry_action("sidebar", Some(rect)),
        NotesAction::Sidebar { x: 1300, y: 50, width: SIDEBAR_WIDTH, height: 800 },
    );
    assert_eq!(notes_entry_action("sidebar", None), NotesAction::NoOp);

    assert_eq!(
        notes_entry_action("window", Some(rect)),
        NotesAction::Window { width: NOTES_WINDOW_WIDTH, height: NOTES_WINDOW_HEIGHT },
    );
    assert_eq!(NOTES_WINDOW_WIDTH, 400);
    assert_eq!(NOTES_WINDOW_HEIGHT, 600);
    assert_eq!(SIDEBAR_WIDTH, 350);

    assert_eq!(notes_entry_action("garbled", Some(rect)), NotesAction::NoOp);
}

#[test]
fn test_tab_switcher_position() {
    let rect = SurfaceRect { x: 100, y: 50, width: 1200, height: 800 };
    assert_eq!(tab_switcher_position(Some(rect)), (100 + 600 - 250, 70));
    assert_eq!(tab_switcher_position(None), (400, 100));
    assert_eq!(TAB_SWITCHER_WIDTH, 500);
    assert_eq!(TAB_SWITCHER_HEIGHT, 120);
}

#[test]
fn test_startup_plan_prefers_default_website() {
    let settings = AppSettings {
        websites: vec![site("a"), site("b")],
        active_tab: "a".to_string(),
        default_website: Some("b".to_string()),
        auto_paste_on_focus: false,
        notes_content: String::new(),
        notes_mode: "hidden".to_string(),
    };
    let plan = startup_plan(&settings);
    assert_eq!(plan.len(), 2);
    assert!(!plan[0].show);
    assert!(plan[1].show);

    let without_default = AppSettings { default_website: None, ..settings };
    let plan = startup_plan(&without_default);
    assert!(plan[0].show);
    assert!(!plan[1].show);
}

#[test]
fn test_disabling_auto_paste_keeps_scheduled_paste() {
    let mut trigger = AutoPasteTrigger::new(true);
    assert!(trigger.on_focus("gemini"));
    trigger.set_enabled(false);
    assert!(!trigger.is_enabled());
    let due = trigger.take_due().expect("the scheduled paste must survive the toggle");
    assert_eq!(due.target, "gemini");
    assert_eq!(due.delay_ms, PASTE_DELAY_MS);
    assert_eq!(PASTE_DELAY_MS, 150);
    assert!(trigger.take_due().is_none());
}

#[test]
fn test_auto_paste_skips_settings_surface_and_disabled_flag() {
    let mut trigger = AutoPasteTrigger::new(true);
    assert!(!trigger.on_focus("settings"));
    assert!(trigger.take_due().is_none());

    let mut off = AutoPasteTrigger::new(false);
    assert!(!off.on_focus("gemini"));
    assert!(off.take_due().is_none());
}

#[test]
fn test_rapid_refocus_schedules_independent_pastes() {
    let mut trigger = AutoPasteTrigger::new(true);
    assert!(trigger.on_focus("a"));
    assert!(trigger.on_focus("a"));
    assert!(trigger.on_focus("b"));
    assert_eq!(trigger.take_due().unwrap().target, "a");
    assert_eq!(trigger.take_due().unwrap().target, "a");
    assert_eq!(trigger.take_due().unwrap().target, "b");
    assert!(trigger.take_due().is_none());
}
