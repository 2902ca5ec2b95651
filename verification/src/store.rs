//! The settings store: the process-wide configuration record and every
//! command that mutates it.  The caller keeps one store behind its
//! mutual-exclusion lock, persists the record after each mutation, and
//! rebuilds the menu; a persistence failure leaves the in-memory state
//! authoritative.

use vstd::prelude::*;

use crate::notes::{next_notes_mode, spec_next_mode};
use crate::registry::{contains_id, find_first};
use crate::settings::{
    first_index_of, has_id, lemma_first_index_of_found, AppSettings, AppSettingsView, Website,
    WebsiteView, MAX_WEBSITES,
};

verus! {

/// The configuration record under exclusive access.
pub struct SettingsStore {
    settings: AppSettings,
}

impl View for SettingsStore {
    type V = AppSettingsView;

    closed spec fn view(&self) -> AppSettingsView {
        self.settings@
    }
}

/// The active tab after the website list is replaced: kept when it still
/// names a website (or the list is empty), healed to the first website
/// otherwise.
pub open spec fn healed_active(active: Seq<char>, ws: Seq<WebsiteView>) -> Seq<char> {
    if !has_id(ws, active) && ws.len() > 0 {
        ws[0].id
    } else {
        active
    }
}

/// The index cycling starts from: the first website matching the active
/// tab, or the first website when the reference is stale.
pub open spec fn cycle_start(s: AppSettingsView) -> int {
    if has_id(s.websites, s.active_tab) {
        first_index_of(s.websites, s.active_tab)
    } else {
        0
    }
}

impl SettingsStore {
    pub fn new(settings: AppSettings) -> (s: Self)
        ensures
            s@ == settings@,
    {
        SettingsStore { settings }
    }

    /// A deep copy of the whole record: the read-only snapshot handed out
    /// to callers.
    pub fn get_settings(&self) -> (r: AppSettings)
        ensures
            r@ == self@,
    {
        self.settings.clone()
    }

    /// Replace the website list.  More than [`MAX_WEBSITES`] entries are
    /// rejected wholesale: the record is untouched and an error is
    /// returned.  Otherwise the list is replaced and a stale active tab is
    /// healed to the first new website.
    pub fn save_websites(&mut self, websites: Vec<Website>) -> (r: Result<(), String>)
        ensures
            websites@.len() > MAX_WEBSITES ==> (r matches Err(m) && m@
                == "Maximum 5 websites allowed"@) && final(self)@ == old(self)@,
            websites@.len() <= MAX_WEBSITES ==> r is Ok && final(self)@ == (AppSettingsView {
                websites: websites@.map_values(|w: Website| w@),
                active_tab: healed_active(
                    old(self)@.active_tab,
                    websites@.map_values(|w: Website| w@),
                ),
                ..old(self)@
            }),
            old(self)@.wf() ==> final(self)@.wf(),
    {
        if websites.len() > MAX_WEBSITES {
            return Err(String::from_str("Maximum 5 websites allowed"));
        }
        let ghost target = AppSettingsView {
            websites: websites@.map_values(|w: Website| w@),
            active_tab: healed_active(old(self)@.active_tab, websites@.map_values(|w: Website| w@)),
            ..old(self)@
        };
        let heal = !contains_id(&websites, self.settings.active_tab.as_str())
            && websites.len() > 0;
        self.settings.websites = websites;
        if heal {
            self.settings.active_tab = self.settings.websites[0].id.clone();
        }
        proof {
            assert(self@ =~= target);
        }
        Ok(())
    }

    /// Point the configuration at a tab.  An identifier that names no
    /// website is a no-op: the record, and so every surface's visibility,
    /// is left unchanged.
    pub fn switch_tab(&mut self, tab_id: &str) -> (switched: bool)
        ensures
            switched == has_id(old(self)@.websites, tab_id@),
            switched ==> final(self)@ == (AppSettingsView {
                active_tab: tab_id@,
                ..old(self)@
            }),
            !switched ==> final(self)@ == old(self)@,
    {
        if contains_id(&self.settings.websites, tab_id) {
            self.settings.active_tab = tab_id.to_owned();
            proof {
                assert(self@ =~= (AppSettingsView { active_tab: tab_id@, ..old(self)@ }));
            }
            true
        } else {
            false
        }
    }

    /// The identifier of the tab after the active one, wrapping around;
    /// a stale active reference counts as the first website.  `None` when
    /// no website exists.  The record is not touched: the caller switches
    /// to the returned tab.
    pub fn cycle_tab(&self) -> (r: Option<String>)
        ensures
            (r is None) == (self@.websites.len() == 0),
            r matches Some(id) ==> id@ == self@.websites[(cycle_start(self@) + 1) % (
            self@.websites.len() as int)].id,
    {
        if self.settings.websites.len() == 0 {
            return None;
        }
        let cur: usize = match find_first(
            &self.settings.websites,
            self.settings.active_tab.as_str(),
        ) {
            Some(i) => {
                proof {
                    lemma_first_index_of_found(self@.websites, self@.active_tab, i as int);
                }
                i
            },
            None => 0,
        };
        proof {
            assert(cur as int == cycle_start(self@));
        }
        let next = (cur + 1) % self.settings.websites.len();
        Some(self.settings.websites[next].id.clone())
    }

    /// Flip auto-paste-on-focus; the caller mirrors the returned value into
    /// the lock-free trigger flag and rebuilds the menu checkbox.
    pub fn toggle_auto_paste(&mut self) -> (enabled: bool)
        ensures
            enabled == !old(self)@.auto_paste_on_focus,
            final(self)@ == (AppSettingsView {
                auto_paste_on_focus: !old(self)@.auto_paste_on_focus,
                ..old(self)@
            }),
    {
        self.settings.auto_paste_on_focus = !self.settings.auto_paste_on_focus;
        proof {
            assert(self@ =~= (AppSettingsView {
                auto_paste_on_focus: !old(self)@.auto_paste_on_focus,
                ..old(self)@
            }));
        }
        self.settings.auto_paste_on_focus
    }

    /// Record the website shown at startup.
    pub fn save_default_website(&mut self, website_id: String)
        ensures
            final(self)@ == (AppSettingsView {
                default_website: Some(website_id@),
                ..old(self)@
            }),
    {
        let ghost target = AppSettingsView { default_website: Some(website_id@), ..old(self)@ };
        self.settings.default_website = Some(website_id);
        proof {
            assert(self@ =~= target);
        }
    }

    /// Advance the notes mode by one toggle and return the new mode.
    pub fn toggle_notes(&mut self) -> (new_mode: String)
        ensures
            new_mode@ == spec_next_mode(old(self)@.notes_mode),
            final(self)@ == (AppSettingsView {
                notes_mode: spec_next_mode(old(self)@.notes_mode),
                ..old(self)@
            }),
    {
        let m = next_notes_mode(self.settings.notes_mode.as_str());
        self.settings.notes_mode = m.clone();
        proof {
            assert(self@ =~= (AppSettingsView {
                notes_mode: spec_next_mode(old(self)@.notes_mode),
                ..old(self)@
            }));
        }
        m
    }

    /// Replace the notes text.
    pub fn save_notes(&mut self, content: String)
        ensures
            final(self)@ == (AppSettingsView { notes_content: content@, ..old(self)@ }),
    {
        let ghost target = AppSettingsView { notes_content: content@, ..old(self)@ };
        self.settings.notes_content = content;
        proof {
            assert(self@ =~= target);
        }
    }

    pub fn get_notes(&self) -> (r: String)
        ensures
            r@ == self@.notes_content,
    {
        self.settings.notes_content.clone()
    }

    /// The identifier the navigation commands address: the active tab.
    pub fn active_tab(&self) -> (r: String)
        ensures
            r@ == self@.active_tab,
    {
        self.settings.active_tab.clone()
    }
}

} // verus!
