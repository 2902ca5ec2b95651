//! The configuration record: the website list, the active tab, and the
//! notes-panel state.  One value of [`AppSettings`] is the single source of
//! truth for the whole shell.

use vstd::prelude::*;

verus! {

/// Most websites the configuration may hold at once.
pub const MAX_WEBSITES: usize = 5;

/// One hosted web application: a "tab" of the shell.  `id` is the stable
/// window identifier; `url` and `emoji` are free-form and validated only by
/// downstream consumers.
pub struct Website {
    pub id: String,
    pub name: String,
    pub url: String,
    pub emoji: String,
}

/// Mathematical image of a [`Website`]: each field as its characters.
#[verifier::ext_equal]
pub struct WebsiteView {
    pub id: Seq<char>,
    pub name: Seq<char>,
    pub url: Seq<char>,
    pub emoji: Seq<char>,
}

impl View for Website {
    type V = WebsiteView;

    open spec fn view(&self) -> WebsiteView {
        WebsiteView { id: self.id@, name: self.name@, url: self.url@, emoji: self.emoji@ }
    }
}

impl Clone for Website {
    fn clone(&self) -> (res: Self)
        ensures
            res == *self,
    {
        Website {
            id: self.id.clone(),
            name: self.name.clone(),
            url: self.url.clone(),
            emoji: self.emoji.clone(),
        }
    }
}

/// The persisted aggregate.  `active_tab` and `default_website` are soft
/// references into `websites`: they may go stale, and commands that look one
/// up fall back to the first website.
pub struct AppSettings {
    pub websites: Vec<Website>,
    pub active_tab: String,
    pub default_website: Option<String>,
    pub auto_paste_on_focus: bool,
    pub notes_content: String,
    pub notes_mode: String,
}

/// Mathematical image of [`AppSettings`].
#[verifier::ext_equal]
pub struct AppSettingsView {
    pub websites: Seq<WebsiteView>,
    pub active_tab: Seq<char>,
    pub default_website: Option<Seq<char>>,
    pub auto_paste_on_focus: bool,
    pub notes_content: Seq<char>,
    pub notes_mode: Seq<char>,
}

impl View for AppSettings {
    type V = AppSettingsView;

    open spec fn view(&self) -> AppSettingsView {
        AppSettingsView {
            websites: self.websites@.map_values(|w: Website| w@),
            active_tab: self.active_tab@,
            default_website: match self.default_website {
                Some(s) => Some(s@),
                None => None,
            },
            auto_paste_on_focus: self.auto_paste_on_focus,
            notes_content: self.notes_content@,
            notes_mode: self.notes_mode@,
        }
    }
}

impl Clone for AppSettings {
    fn clone(&self) -> (res: Self)
        ensures
            res@ == self@,
    {
        let default_website = match &self.default_website {
            Some(s) => Some(s.clone()),
            None => None,
        };
        let mut websites: Vec<Website> = Vec::new();
        let mut i: usize = 0;
        while i < self.websites.len()
            invariant
                0 <= i <= self.websites.len(),
                websites@ == self.websites@.subrange(0, i as int),
            decreases self.websites.len() - i,
        {
            websites.push(self.websites[i].clone());
            proof {
                assert(websites@ =~= self.websites@.subrange(0, i + 1 as int));
            }
            i = i + 1;
        }
        proof {
            assert(self.websites@.subrange(0, self.websites@.len() as int) =~= self.websites@);
        }
        let res = AppSettings {
            websites,
            active_tab: self.active_tab.clone(),
            default_website,
            auto_paste_on_focus: self.auto_paste_on_focus,
            notes_content: self.notes_content.clone(),
            notes_mode: self.notes_mode.clone(),
        };
        proof {
            assert(res@ =~= self@);
        }
        res
    }
}

impl AppSettingsView {
    /// The configuration invariant: the website list never exceeds the cap.
    pub open spec fn wf(self) -> bool {
        self.websites.len() <= MAX_WEBSITES
    }
}

/// The identifiers of a website sequence, in order.
pub open spec fn ids_of(ws: Seq<WebsiteView>) -> Seq<Seq<char>> {
    ws.map_values(|w: WebsiteView| w.id)
}

/// Whether some website in the sequence carries this identifier.
pub open spec fn has_id(ws: Seq<WebsiteView>, id: Seq<char>) -> bool {
    exists|i: int| 0 <= i < ws.len() && ws[i].id == id
}

/// The position of the first website carrying this identifier, or the
/// sequence length when none does.
pub open spec fn first_index_of(ws: Seq<WebsiteView>, id: Seq<char>) -> int
    decreases ws.len(),
{
    if ws.len() == 0 {
        0
    } else if ws[0].id == id {
        0
    } else {
        1 + first_index_of(ws.drop_first(), id)
    }
}

/// `first_index_of` names the first match: any position that matches with
/// no earlier match is it.
pub proof fn lemma_first_index_of_found(ws: Seq<WebsiteView>, id: Seq<char>, i: int)
    requires
        0 <= i < ws.len(),
        ws[i].id == id,
        forall|j: int| 0 <= j < i ==> ws[j].id != id,
    ensures
        first_index_of(ws, id) == i,
    decreases i,
{
    if i > 0 {
        assert(ws[0].id != id);
        assert(forall|j: int| 0 <= j < i - 1 ==> ws.drop_first()[j].id != id);
        lemma_first_index_of_found(ws.drop_first(), id, i - 1);
    }
}

/// The notes mode written for a document that does not mention one.
pub fn default_notes_mode() -> (r: String)
    ensures
        r@ == "hidden"@,
{
    String::from_str("hidden")
}

/// The configuration the shell starts from when no valid document exists on
/// disk: the two stock websites, the first one active and default, the notes
/// panel hidden.
pub open spec fn spec_default_settings() -> AppSettingsView {
    AppSettingsView {
        websites: seq![
            WebsiteView {
                id: "gemini"@,
                name: "Gemini"@,
                url: "https://gemini.google.com/app"@,
                emoji: "\u{201a}\u{fa}\u{ae}"@,
            },
            WebsiteView {
                id: "notebooklm"@,
                name: "NotebookLM"@,
                url: "https://notebooklm.google.com/"@,
                emoji: "\u{f8ff}\u{fc}\u{ec}\u{ec}"@,
            },
        ],
        active_tab: "gemini"@,
        default_website: Some("gemini"@),
        auto_paste_on_focus: false,
        notes_content: Seq::empty(),
        notes_mode: "hidden"@,
    }
}

impl Default for AppSettings {
    fn default() -> (r: Self)
        ensures
            r@ == spec_default_settings(),
    {
        let mut websites: Vec<Website> = Vec::new();
        websites.push(Website {
            id: String::from_str("gemini"),
            name: String::from_str("Gemini"),
            url: String::from_str("https://gemini.google.com/app"),
            emoji: String::from_str("\u{201a}\u{fa}\u{ae}"),
        });
        websites.push(Website {
            id: String::from_str("notebooklm"),
            name: String::from_str("NotebookLM"),
            url: String::from_str("https://notebooklm.google.com/"),
            emoji: String::from_str("\u{f8ff}\u{fc}\u{ec}\u{ec}"),
        });
        let r = AppSettings {
            websites,
            active_tab: String::from_str("gemini"),
            default_website: Some(String::from_str("gemini")),
            auto_paste_on_focus: false,
            notes_content: String::new(),
            notes_mode: String::from_str("hidden"),
        };
        proof {
            assert(r@.websites =~= spec_default_settings().websites);
            assert(r@ =~= spec_default_settings());
        }
        r
    }
}

} // verus!
