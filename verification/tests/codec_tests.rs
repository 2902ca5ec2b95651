use peko::codec::{load_settings, settings_from_json, settings_to_json, website_from_json,
    website_to_json};
use peko::settings::{AppSettings, Website};

fn site(id: &str, name: &str, url: &str, emoji: &str) -> Website {
    Website {
        id: id.to_string(),
        name: name.to_string(),
        url: url.to_string(),
        emoji: emoji.to_string(),
    }
}

#[test]
fn test_website_serialization_roundtrip() {
    let website = Website {
        id: "serial_test".to_string(),
        name: "Serialization Test".to_string(),
        url: "https://serial.example.com".to_string(),
        emoji: "\u{f8ff}\u{fc}\u{ee}\u{d1}".to_string(),
    };

    let json = website_to_json(&website);
    let deserialized: Website = website_from_json(&json).expect("Failed to deserialize");

    assert_eq!(website.id, deserialized.id);
    assert_eq!(website.name, deserialized.name);
    assert_eq!(website.url, deserialized.url);
    assert_eq!(website.emoji, deserialized.emoji);
}

#[test]
fn test_app_settings_serialization_roundtrip() {
    let settings = AppSettings {
        websites: vec![
            Website {
                id: "test1".to_string(),
                name: "Test One".to_string(),
                url: "https://one.example.com".to_string(),
                emoji: "1\u{d4}\u{220f}\u{e8}\u{201a}\u{c9}\u{a3}".to_string(),
            },
        ],
        active_tab: "test1".to_string(),
        default_website: Some("test1".to_string()),
        auto_paste_on_focus: true,
        notes_content: "Test notes content".to_string(),
        notes_mode: "sidebar".to_string(),
    };

    let json = settings_to_json(&settings);
    let deserialized: AppSettings = settings_from_json(&json).expect("Failed to deserialize");

    assert_eq!(settings.websites.len(), deserialized.websites.len());
    assert_eq!(settings.active_tab, deserialized.active_tab);
    assert_eq!(settings.default_website, deserialized.default_website);
    assert_eq!(settings.auto_paste_on_focus, deserialized.auto_paste_on_focus);
    assert_eq!(settings.notes_content, deserialized.notes_content);
    assert_eq!(settings.notes_mode, deserialized.notes_mode);
}

#[test]
fn test_settings_deserialize_with_missing_optional_fields() {
    let json = r#"{
            "websites": [],
            "active_tab": "gemini"
        }"#;

    let settings: AppSettings = settings_from_json(json).expect("Failed to deserialize");

    assert!(settings.default_website.is_none());
    assert!(!settings.auto_paste_on_focus);
    assert!(settings.notes_content.is_empty());
    assert_eq!(settings.notes_mode, "hidden");
}

#[test]
fn test_serialized_document_exact_text() {
    let settings = AppSettings {
        websites: vec![site("a", "A", "https://a.example", "*")],
        active_tab: "a".to_string(),
        default_website: None,
        auto_paste_on_focus: false,
        notes_content: String::new(),
        notes_mode: "hidden".to_string(),
    };
    let json = settings_to_json(&settings);
    let expected = "{\"websites\":[{\"id\":\"a\",\"name\":\"A\",\"url\":\"https://a.example\",\"emoji\":\"*\"}],\"active_tab\":\"a\",\"default_website\":null,\"auto_paste_on_focus\":false,\"notes_content\":\"\",\"notes_mode\":\"hidden\"}";
    assert_eq!(json, expected);
}

#[test]
fn test_roundtrip_with_escapes_and_unicode() {
    let settings = AppSettings {
        websites: vec![site(
            "q\"uote",
            "back\\slash",
            "https://x.example/?a=1&b=2",
            "\u{1f310}\u{2728}",
        )],
        active_tab: "q\"uote".to_string(),
        default_website: Some("q\"uote".to_string()),
        auto_paste_on_focus: true,
        notes_content: "line one\nline two\ttabbed\r\n\u{8}\u{c}\u{1}\u{1f}".to_string(),
        notes_mode: "window".to_string(),
    };
    let json = settings_to_json(&settings);
    let back = settings_from_json(&json).expect("roundtrip failed");
    assert_eq!(back.websites[0].id, settings.websites[0].id);
    assert_eq!(back.websites[0].name, settings.websites[0].name);
    assert_eq!(back.websites[0].url, settings.websites[0].url);
    assert_eq!(back.websites[0].emoji, settings.websites[0].emoji);
    assert_eq!(back.active_tab, settings.active_tab);
    assert_eq!(back.default_website, settings.default_website);
    assert_eq!(back.auto_paste_on_focus, settings.auto_paste_on_focus);
    assert_eq!(back.notes_content, settings.notes_content);
    assert_eq!(back.notes_mode, settings.notes_mode);
}

#[test]
fn test_each_optional_field_defaults_alone() {
    let full = "{\"websites\":[],\"active_tab\":\"t\",\"default_website\":\"t\",\"auto_paste_on_focus\":true,\"notes_content\":\"n\",\"notes_mode\":\"sidebar\"}";
    let all = settings_from_json(full).expect("full document");
    assert_eq!(all.default_website, Some("t".to_string()));
    assert!(all.auto_paste_on_focus);
    assert_eq!(all.notes_content, "n");
    assert_eq!(all.notes_mode, "sidebar");

    let without_default = "{\"websites\":[],\"active_tab\":\"t\",\"auto_paste_on_focus\":true,\"notes_content\":\"n\",\"notes_mode\":\"sidebar\"}";
    let s = settings_from_json(without_default).expect("no default_website");
    assert_eq!(s.default_website, None);
    assert!(s.auto_paste_on_focus);
    assert_eq!(s.notes_content, "n");
    assert_eq!(s.notes_mode, "sidebar");

    let without_paste = "{\"websites\":[],\"active_tab\":\"t\",\"default_website\":\"t\",\"notes_content\":\"n\",\"notes_mode\":\"sidebar\"}";
    let s = settings_from_json(without_paste).expect("no auto_paste_on_focus");
    assert_eq!(s.default_website, Some("t".to_string()));
    assert!(!s.auto_paste_on_focus);
    assert_eq!(s.notes_content, "n");
    assert_eq!(s.notes_mode, "sidebar");

    let without_notes = "{\"websites\":[],\"active_tab\":\"t\",\"default_website\":\"t\",\"auto_paste_on_focus\":true,\"notes_mode\":\"sidebar\"}";
    let s = settings_from_json(without_notes).expect("no notes_content");
    assert_eq!(s.notes_content, "");
    assert_eq!(s.notes_mode, "sidebar");

    let without_mode = "{\"websites\":[],\"active_tab\":\"t\",\"default_website\":\"t\",\"auto_paste_on_focus\":true,\"notes_content\":\"n\"}";
    let s = settings_from_json(without_mode).expect("no notes_mode");
    assert_eq!(s.notes_content, "n");
    assert_eq!(s.notes_mode, "hidden");
}

#[test]
fn test_members_accepted_in_any_order() {
    let json = "{\"notes_mode\":\"window\",\"active_tab\":\"x\",\"auto_paste_on_focus\":true,\"websites\":[{\"emoji\":\"e\",\"url\":\"u\",\"name\":\"n\",\"id\":\"x\"}]}";
    let s = settings_from_json(json).expect("reordered members");
    assert_eq!(s.active_tab, "x");
    assert_eq!(s.notes_mode, "window");
    assert!(s.auto_paste_on_focus);
    assert_eq!(s.websites.len(), 1);
    assert_eq!(s.websites[0].id, "x");
    assert_eq!(s.websites[0].name, "n");
    assert_eq!(s.websites[0].url, "u");
    assert_eq!(s.websites[0].emoji, "e");
}

#[test]
fn test_invalid_documents_rejected() {
    assert!(settings_from_json("").is_none());
    assert!(settings_from_json("   ").is_none());
    assert!(settings_from_json("{}").is_none());
    assert!(settings_from_json("{\"websites\":[]}").is_none());
    assert!(settings_from_json("{\"active_tab\":\"a\"}").is_none());
    assert!(settings_from_json("not json").is_none());
    assert!(settings_from_json("{\"websites\":[],\"active_tab\":\"a\"} trailing").is_none());
    assert!(settings_from_json("{\"websites\":[],\"active_tab\":\"a\",\"unknown\":1}").is_none());
    assert!(
        settings_from_json("{\"websites\":[],\"active_tab\":\"a\",\"active_tab\":\"b\"}").is_none()
    );
    assert!(settings_from_json("{\"websites\":[],\"active_tab\":\"a\\q\"}").is_none());
    assert!(settings_from_json("{\"websites\":[{\"id\":\"a\"}],\"active_tab\":\"a\"}").is_none());
}

#[test]
fn test_load_settings_falls_back_to_defaults() {
    let from_nothing = load_settings(None);
    assert_eq!(from_nothing.websites.len(), 2);
    assert_eq!(from_nothing.active_tab, "gemini");

    let from_garbage = load_settings(Some("{{{{"));
    assert_eq!(from_garbage.websites.len(), 2);
    assert_eq!(from_garbage.active_tab, "gemini");
    assert_eq!(from_garbage.notes_mode, "hidden");

    let from_valid = load_settings(Some("{\"websites\":[],\"active_tab\":\"z\"}"));
    assert_eq!(from_valid.websites.len(), 0);
    assert_eq!(from_valid.active_tab, "z");
}

#[test]
fn test_load_settings_reads_pretty_printed_documents() {
    let pretty = "{\n  \"websites\": [\n    {\n      \"id\": \"gemini\",\n      \"name\": \"Gemini\",\n      \"url\": \"https://gemini.google.com/app\",\n      \"emoji\": \"g\"\n    }\n  ],\n  \"active_tab\": \"gemini\",\n  \"default_website\": null,\n  \"auto_paste_on_focus\": true,\n  \"notes_content\": \"hi\",\n  \"notes_mode\": \"sidebar\"\n}\n";
    let s = load_settings(Some(pretty));
    assert_eq!(s.websites.len(), 1);
    assert_eq!(s.websites[0].id, "gemini");
    assert_eq!(s.default_website, None);
    assert!(s.auto_paste_on_focus);
    assert_eq!(s.notes_content, "hi");
    assert_eq!(s.notes_mode, "sidebar");
}

#[test]
fn test_unicode_escapes_decoded() {
    let json = "{\"websites\":[],\"active_tab\":\"a\\u0009b\\u001fc\\\"d\\\\e\\/f\"}";
    let s = settings_from_json(json).expect("escapes");
    assert_eq!(s.active_tab, "a\tb\u{1f}c\"d\\e/f");
}
