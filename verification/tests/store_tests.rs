use peko::notes::next_notes_mode;
use peko::settings::{AppSettings, Website};
use peko::store::SettingsStore;

fn site(id: &str) -> Website {
    Website {
        id: id.to_string(),
        name: format!("Site {}", id),
        url: format!("https://{}.example.com", id),
        emoji: "*".to_string(),
    }
}

fn store_with(ids: &[&str], active: &str) -> SettingsStore {
    let settings = AppSettings {
        websites: ids.iter().map(|id| site(id)).collect(),
        active_tab: active.to_string(),
        default_website: None,
        auto_paste_on_focus: false,
        notes_content: String::new(),
        notes_mode: "hidden".to_string(),
    };
    SettingsStore::new(settings)
}

#[test]
fn test_notes_mode_cycle() {
    let modes = ["hidden", "sidebar", "window", "hidden"];

    for i in 0..modes.len() - 1 {
        let current = modes[i];
        let expected_next = modes[i + 1];

        let next = next_notes_mode(current);

        assert_eq!(next, expected_next, "Mode cycle failed from {}", current);
    }
}

#[test]
fn test_save_websites_rejects_six_entries() {
    let mut store = store_with(&["a", "b"], "a");
    let six: Vec<Website> = ["1", "2", "3", "4", "5", "6"].iter().map(|id| site(id)).collect();
    let r = store.save_websites(six);
    assert_eq!(r, Err("Maximum 5 websites allowed".to_string()));
    let s = store.get_settings();
    assert_eq!(s.websites.len(), 2);
    assert_eq!(s.websites[0].id, "a");
    assert_eq!(s.websites[1].id, "b");
    assert_eq!(s.active_tab, "a");
}

#[test]
fn test_save_websites_replaces_and_heals_active() {
    let mut store = store_with(&["a", "b"], "a");
    let new: Vec<Website> = vec![site("b"), site("c")];
    assert!(store.save_websites(new).is_ok());
    let s = store.get_settings();
    assert_eq!(s.websites.len(), 2);
    assert_eq!(s.websites[0].id, "b");
    assert_eq!(s.websites[1].id, "c");
    assert_eq!(s.active_tab, "b");
}

#[test]
fn test_save_websites_keeps_valid_active() {
    let mut store = store_with(&["a", "b"], "b");
    assert!(store.save_websites(vec![site("b"), site("c")]).is_ok());
    assert_eq!(store.get_settings().active_tab, "b");
}

#[test]
fn test_switch_tab_known_id() {
    let mut store = store_with(&["a", "b"], "a");
    assert!(store.switch_tab("b"));
    assert_eq!(store.get_settings().active_tab, "b");
}

#[test]
fn test_switch_tab_unknown_id_is_noop() {
    let mut store = store_with(&["a", "b"], "a");
    let before = store.get_settings();
    assert!(!store.switch_tab("X"));
    let after = store.get_settings();
    assert_eq!(after.active_tab, before.active_tab);
    assert_eq!(after.websites.len(), before.websites.len());
    assert_eq!(after.notes_mode, before.notes_mode);
}

#[test]
fn test_cycle_tab_wraps_around() {
    let store = store_with(&["a", "b", "c"], "b");
    assert_eq!(store.cycle_tab(), Some("c".to_string()));
    let store = store_with(&["a", "b", "c"], "c");
    assert_eq!(store.cycle_tab(), Some("a".to_string()));
}

#[test]
fn test_cycle_tab_stale_active_counts_as_first() {
    let store = store_with(&["a", "b", "c"], "nope");
    assert_eq!(store.cycle_tab(), Some("b".to_string()));
}

#[test]
fn test_cycle_tab_empty_list() {
    let store = store_with(&[], "a");
    assert_eq!(store.cycle_tab(), None);
}

#[test]
fn test_toggle_auto_paste_flips() {
    let mut store = store_with(&["a"], "a");
    assert!(store.toggle_auto_paste());
    assert!(store.get_settings().auto_paste_on_focus);
    assert!(!store.toggle_auto_paste());
    assert!(!store.get_settings().auto_paste_on_focus);
}

#[test]
fn test_toggle_notes_cycles_and_returns_to_hidden() {
    let mut store = store_with(&["a"], "a");
    let visited = [
        store.toggle_notes(),
        store.toggle_notes(),
        store.toggle_notes(),
        store.toggle_notes(),
    ];
    assert_eq!(visited[0], "sidebar");
    assert_eq!(visited[1], "window");
    assert_eq!(visited[2], "hidden");
    assert_eq!(visited[3], "sidebar");
}

#[test]
fn test_toggle_notes_unknown_mode_falls_back_to_hidden() {
    let mut store = SettingsStore::new(AppSettings {
        websites: vec![site("a")],
        active_tab: "a".to_string(),
        default_website: None,
        auto_paste_on_focus: false,
        notes_content: String::new(),
        notes_mode: "garbled".to_string(),
    });
    assert_eq!(store.toggle_notes(), "hidden");
}

#[test]
fn test_save_and_get_notes() {
    let mut store = store_with(&["a"], "a");
    assert_eq!(store.get_notes(), "");
    store.save_notes("remember this".to_string());
    assert_eq!(store.get_notes(), "remember this");
    assert_eq!(store.get_settings().notes_content, "remember this");
}

#[test]
fn test_save_default_website() {
    let mut store = store_with(&["a", "b"], "a");
    store.save_default_website("b".to_string());
    assert_eq!(store.get_settings().default_website, Some("b".to_string()));
}

#[test]
fn test_active_tab_getter() {
    let store = store_with(&["a", "b"], "b");
    assert_eq!(store.active_tab(), "b");
}
