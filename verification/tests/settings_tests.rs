use peko::settings::{default_notes_mode, AppSettings, Website, MAX_WEBSITES};

#[test]
fn test_website_creation() {
    let website = Website {
        id: "test_id".to_string(),
        name: "Test Site".to_string(),
        url: "https://example.com".to_string(),
        emoji: "\u{f8ff}\u{fc}\u{e5}\u{ea}".to_string(),
    };

    assert_eq!(website.id, "test_id");
    assert_eq!(website.name, "Test Site");
    assert_eq!(website.url, "https://example.com");
    assert_eq!(website.emoji, "\u{f8ff}\u{fc}\u{e5}\u{ea}");
}

#[test]
fn test_website_clone() {
    let original = Website {
        id: "clone_test".to_string(),
        name: "Clone Test".to_string(),
        url: "https://clone.example.com".to_string(),
        emoji: "\u{f8ff}\u{fc}\u{ec}\u{e3}".to_string(),
    };

    let cloned = original.clone();

    assert_eq!(original.id, cloned.id);
    assert_eq!(original.name, cloned.name);
    assert_eq!(original.url, cloned.url);
    assert_eq!(original.emoji, cloned.emoji);
}

#[test]
fn test_app_settings_default() {
    let settings = AppSettings::default();

    assert_eq!(settings.websites.len(), 2);

    assert_eq!(settings.websites[0].id, "gemini");
    assert_eq!(settings.websites[0].name, "Gemini");
    assert_eq!(settings.websites[0].url, "https://gemini.google.com/app");

    assert_eq!(settings.websites[1].id, "notebooklm");
    assert_eq!(settings.websites[1].name, "NotebookLM");

    assert_eq!(settings.active_tab, "gemini");
    assert_eq!(settings.default_website, Some("gemini".to_string()));
    assert!(!settings.auto_paste_on_focus);
    assert!(settings.notes_content.is_empty());
    assert_eq!(settings.notes_mode, "hidden");
}

#[test]
fn test_default_notes_mode() {
    assert_eq!(default_notes_mode(), "hidden");
}

#[test]
fn test_website_limit_constant() {
    let max_websites = 5;

    let mut websites = Vec::new();
    for i in 0..max_websites {
        websites.push(Website {
            id: format!("site_{}", i),
            name: format!("Site {}", i),
            url: format!("https://site{}.example.com", i),
            emoji: "\u{f8ff}\u{fc}\u{e5}\u{ea}".to_string(),
        });
    }

    assert_eq!(websites.len(), 5);
    assert_eq!(MAX_WEBSITES, 5);
}
