//! The settings document codec: how an [`AppSettings`] value is written as
//! its on-disk JSON document and read back.  The document is one object;
//! `websites` and `active_tab` are required, the remaining members are
//! optional and default when absent (an older on-disk schema keeps
//! working).  Members may come in any order; an unknown or repeated member
//! is rejected.  Reading tolerates insignificant whitespace, so documents
//! written pretty-printed by earlier versions of the shell load unchanged.

use vstd::prelude::*;

use crate::json::{esc, jstr, parse_string, skip_ws, push_json_string, scan_string, scan_ws};
use crate::settings::{AppSettings, AppSettingsView, Website, WebsiteView};
use crate::text::{chars_eq_str, chars_to_string, str_chars};

verus! {

broadcast use vstd::string::group_string_axioms;

// ---------------------------------------------------------------------
// The document text.
// ---------------------------------------------------------------------

/// Which optional members a document carries; `websites` and `active_tab`
/// are always present.
pub struct FieldFlags {
    pub default_website: bool,
    pub auto_paste_on_focus: bool,
    pub notes_content: bool,
    pub notes_mode: bool,
}

/// The full document: every member present.
pub open spec fn all_fields() -> FieldFlags {
    FieldFlags {
        default_website: true,
        auto_paste_on_focus: true,
        notes_content: true,
        notes_mode: true,
    }
}

/// A boolean value's text.
pub open spec fn bool_text(b: bool) -> Seq<char> {
    if b {
        "true"@
    } else {
        "false"@
    }
}

/// An optional string value's text: the string, or `null`.
pub open spec fn optstr_text(d: Option<Seq<char>>) -> Seq<char> {
    match d {
        Some(s) => jstr(s),
        None => "null"@,
    }
}

/// One website as an object with its four members, in fixed order.
pub open spec fn json_of_website(w: WebsiteView) -> Seq<char> {
    seq!['{'] + jstr("id"@) + seq![':'] + jstr(w.id) + seq![','] + jstr("name"@) + seq![':']
        + jstr(w.name) + seq![','] + jstr("url"@) + seq![':'] + jstr(w.url) + seq![','] + jstr(
        "emoji"@,
    ) + seq![':'] + jstr(w.emoji) + seq!['}']
}

/// The websites joined by commas.
pub open spec fn items_text(ws: Seq<WebsiteView>) -> Seq<char>
    decreases ws.len(),
{
    if ws.len() == 0 {
        Seq::empty()
    } else if ws.len() == 1 {
        json_of_website(ws[0])
    } else {
        json_of_website(ws[0]) + seq![','] + items_text(ws.drop_first())
    }
}

/// The website array.
pub open spec fn array_text(ws: Seq<WebsiteView>) -> Seq<char> {
    seq!['['] + items_text(ws) + seq![']']
}

/// Whether the optional member at this position is present.
pub open spec fn opt_present(f: FieldFlags, idx: int) -> bool {
    if idx == 0 {
        f.default_website
    } else if idx == 1 {
        f.auto_paste_on_focus
    } else if idx == 2 {
        f.notes_content
    } else {
        f.notes_mode
    }
}

/// The text of the optional member at this position.
pub open spec fn opt_member_text(s: AppSettingsView, idx: int) -> Seq<char> {
    if idx == 0 {
        jstr("default_website"@) + seq![':'] + optstr_text(s.default_website)
    } else if idx == 1 {
        jstr("auto_paste_on_focus"@) + seq![':'] + bool_text(s.auto_paste_on_focus)
    } else if idx == 2 {
        jstr("notes_content"@) + seq![':'] + jstr(s.notes_content)
    } else {
        jstr("notes_mode"@) + seq![':'] + jstr(s.notes_mode)
    }
}

/// The optional members from position `idx` on, each with its leading
/// comma.
pub open spec fn opt_members_text(s: AppSettingsView, f: FieldFlags, idx: int) -> Seq<char>
    decreases 4 - idx,
{
    if idx >= 4 {
        Seq::empty()
    } else {
        (if opt_present(f, idx) {
            seq![','] + opt_member_text(s, idx)
        } else {
            Seq::empty()
        }) + opt_members_text(s, f, idx + 1)
    }
}

/// The whole document with the chosen optional members.
pub open spec fn json_doc(s: AppSettingsView, f: FieldFlags) -> Seq<char> {
    seq!['{'] + jstr("websites"@) + seq![':'] + array_text(s.websites) + seq![','] + jstr(
        "active_tab"@,
    ) + seq![':'] + jstr(s.active_tab) + opt_members_text(s, f, 0) + seq!['}']
}

/// The document the serializer writes: every member present.
pub open spec fn json_of_settings(s: AppSettingsView) -> Seq<char> {
    json_doc(s, all_fields())
}

// ---------------------------------------------------------------------
// The parser, over character sequences.
// ---------------------------------------------------------------------

/// A boolean value: the literal `true` or `false`.
pub open spec fn parse_bool(t: Seq<char>) -> Option<(bool, Seq<char>)> {
    if t.len() >= 4 && t.subrange(0, 4) == "true"@ {
        Some((true, t.skip(4)))
    } else if t.len() >= 5 && t.subrange(0, 5) == "false"@ {
        Some((false, t.skip(5)))
    } else {
        None
    }
}

/// An optional string value: the literal `null`, or a string.
pub open spec fn parse_null_or_string(t: Seq<char>) -> Option<(Option<Seq<char>>, Seq<char>)> {
    if t.len() >= 4 && t.subrange(0, 4) == "null"@ {
        Some((None, t.skip(4)))
    } else {
        match parse_string(t) {
            Some(p) => Some((Some(p.0), p.1)),
            None => None,
        }
    }
}

/// The members of a website object seen so far.
#[verifier::ext_equal]
pub struct WebsiteAcc {
    pub id: Option<Seq<char>>,
    pub name: Option<Seq<char>>,
    pub url: Option<Seq<char>>,
    pub emoji: Option<Seq<char>>,
}

pub open spec fn wacc_empty() -> WebsiteAcc {
    WebsiteAcc { id: None, name: None, url: None, emoji: None }
}

/// The members of a website object, entered at a key; every key must be one
/// of the four fields, not yet seen.
pub open spec fn parse_website_members(t: Seq<char>, acc: WebsiteAcc) -> Option<
    (WebsiteAcc, Seq<char>),
>
    decreases t.len(), 1int,
{
    match parse_string(t) {
        None => None,
        Some(kp) => {
            let r1 = skip_ws(kp.1);
            if r1.len() == 0 || r1[0] != ':' {
                None
            } else {
                let r2 = skip_ws(r1.drop_first());
                let stepped: Option<(WebsiteAcc, Seq<char>)> = if kp.0 == "id"@ {
                    if acc.id is None {
                        match parse_string(r2) {
                            Some(vp) => Some((WebsiteAcc { id: Some(vp.0), ..acc }, vp.1)),
                            None => None,
                        }
                    } else {
                        None
                    }
                } else if kp.0 == "name"@ {
                    if acc.name is None {
                        match parse_string(r2) {
                            Some(vp) => Some((WebsiteAcc { name: Some(vp.0), ..acc }, vp.1)),
                            None => None,
                        }
                    } else {
                        None
                    }
                } else if kp.0 == "url"@ {
                    if acc.url is None {
                        match parse_string(r2) {
                            Some(vp) => Some((WebsiteAcc { url: Some(vp.0), ..acc }, vp.1)),
                            None => None,
                        }
                    } else {
                        None
                    }
                } else if kp.0 == "emoji"@ {
                    if acc.emoji is None {
                        match parse_string(r2) {
                            Some(vp) => Some((WebsiteAcc { emoji: Some(vp.0), ..acc }, vp.1)),
                            None => None,
                        }
                    } else {
                        None
                    }
                } else {
                    None
                };
                match stepped {
                    None => None,
                    Some(sp) => if sp.1.len() < t.len() {
                        parse_wafter_value(sp.1, sp.0)
                    } else {
                        None
                    },
                }
            }
        },
    }
}

/// After a website member's value: a comma brings the next member, a brace
/// closes the object.
pub open spec fn parse_wafter_value(t: Seq<char>, acc: WebsiteAcc) -> Option<
    (WebsiteAcc, Seq<char>),
>
    decreases t.len(), 0int,
{
    let r = skip_ws(t);
    if r.len() == 0 {
        None
    } else if r[0] == '}' {
        Some((acc, r.drop_first()))
    } else if r[0] == ',' {
        let r2 = skip_ws(r.drop_first());
        if r2.len() < t.len() {
            parse_website_members(r2, acc)
        } else {
            None
        }
    } else {
        None
    }
}

/// A website object; all four fields are required.
pub open spec fn parse_website(t: Seq<char>) -> Option<(WebsiteView, Seq<char>)> {
    if t.len() == 0 || t[0] != '{' {
        None
    } else {
        let r1 = skip_ws(t.drop_first());
        if r1.len() > 0 && r1[0] == '}' {
            None
        } else {
            match parse_website_members(r1, wacc_empty()) {
                None => None,
                Some(p) => match (p.0.id, p.0.name, p.0.url, p.0.emoji) {
                    (Some(id), Some(name), Some(url), Some(emoji)) => Some(
                        (WebsiteView { id, name, url, emoji }, p.1),
                    ),
                    _ => None,
                },
            }
        }
    }
}

/// The elements of a website array, entered at an element.
pub open spec fn parse_website_items(t: Seq<char>, acc: Seq<WebsiteView>) -> Option<
    (Seq<WebsiteView>, Seq<char>),
>
    decreases t.len(),
{
    match parse_website(t) {
        None => None,
        Some(p) => {
            let r = skip_ws(p.1);
            if r.len() == 0 {
                None
            } else if r[0] == ']' {
                Some((acc.push(p.0), r.drop_first()))
            } else if r[0] == ',' {
                let r2 = skip_ws(r.drop_first());
                if r2.len() < t.len() {
                    parse_website_items(r2, acc.push(p.0))
                } else {
                    None
                }
            } else {
                None
            }
        },
    }
}

/// A website array.
pub open spec fn parse_website_array(t: Seq<char>) -> Option<(Seq<WebsiteView>, Seq<char>)> {
    if t.len() == 0 || t[0] != '[' {
        None
    } else {
        let r1 = skip_ws(t.drop_first());
        if r1.len() > 0 && r1[0] == ']' {
            Some((Seq::empty(), r1.drop_first()))
        } else {
            parse_website_items(r1, Seq::empty())
        }
    }
}

/// The members of the settings object seen so far.
#[verifier::ext_equal]
pub struct SettingsAcc {
    pub websites: Option<Seq<WebsiteView>>,
    pub active_tab: Option<Seq<char>>,
    pub default_website: Option<Option<Seq<char>>>,
    pub auto_paste_on_focus: Option<bool>,
    pub notes_content: Option<Seq<char>>,
    pub notes_mode: Option<Seq<char>>,
}

pub open spec fn sacc_empty() -> SettingsAcc {
    SettingsAcc {
        websites: None,
        active_tab: None,
        default_website: None,
        auto_paste_on_focus: None,
        notes_content: None,
        notes_mode: None,
    }
}

/// The members of the settings object, entered at a key; every key must be
/// one of the six fields, not yet seen.
pub open spec fn parse_settings_members(t: Seq<char>, acc: SettingsAcc) -> Option<
    (SettingsAcc, Seq<char>),
>
    decreases t.len(), 1int,
{
    match parse_string(t) {
        None => None,
        Some(kp) => {
            let r1 = skip_ws(kp.1);
            if r1.len() == 0 || r1[0] != ':' {
                None
            } else {
                let r2 = skip_ws(r1.drop_first());
                let stepped: Option<(SettingsAcc, Seq<char>)> = if kp.0 == "websites"@ {
                    if acc.websites is None {
                        match parse_website_array(r2) {
                            Some(vp) => Some((SettingsAcc { websites: Some(vp.0), ..acc }, vp.1)),
                            None => None,
                        }
                    } else {
                        None
                    }
                } else if kp.0 == "active_tab"@ {
                    if acc.active_tab is None {
                        match parse_string(r2) {
                            Some(vp) => Some((SettingsAcc { active_tab: Some(vp.0), ..acc }, vp.1)),
                            None => None,
                        }
                    } else {
                        None
                    }
                } else if kp.0 == "default_website"@ {
                    if acc.default_website is None {
                        match parse_null_or_string(r2) {
                            Some(vp) => Some(
                                (SettingsAcc { default_website: Some(vp.0), ..acc }, vp.1),
                            ),
                            None => None,
                        }
                    } else {
                        None
                    }
                } else if kp.0 == "auto_paste_on_focus"@ {
                    if acc.auto_paste_on_focus is None {
                        match parse_bool(r2) {
                            Some(vp) => Some(
                                (SettingsAcc { auto_paste_on_focus: Some(vp.0), ..acc }, vp.1),
                            ),
                            None => None,
                        }
                    } else {
                        None
                    }
                } else if kp.0 == "notes_content"@ {
                    if acc.notes_content is None {
                        match parse_string(r2) {
                            Some(vp) => Some(
                                (SettingsAcc { notes_content: Some(vp.0), ..acc }, vp.1),
                            ),
                            None => None,
                        }
                    } else {
                        None
                    }
                } else if kp.0 == "notes_mode"@ {
                    if acc.notes_mode is None {
                        match parse_string(r2) {
                            Some(vp) => Some((SettingsAcc { notes_mode: Some(vp.0), ..acc }, vp.1)),
                            None => None,
                        }
                    } else {
                        None
                    }
                } else {
                    None
                };
                match stepped {
                    None => None,
                    Some(sp) => if sp.1.len() < t.len() {
                        parse_safter_value(sp.1, sp.0)
                    } else {
                        None
                    },
                }
            }
        },
    }
}

/// After a settings member's value: a comma brings the next member, a brace
/// closes the object.
pub open spec fn parse_safter_value(t: Seq<char>, acc: SettingsAcc) -> Option<
    (SettingsAcc, Seq<char>),
>
    decreases t.len(), 0int,
{
    let r = skip_ws(t);
    if r.len() == 0 {
        None
    } else if r[0] == '}' {
        Some((acc, r.drop_first()))
    } else if r[0] == ',' {
        let r2 = skip_ws(r.drop_first());
        if r2.len() < t.len() {
            parse_settings_members(r2, acc)
        } else {
            None
        }
    } else {
        None
    }
}

/// The record a finished member set denotes: `websites` and `active_tab`
/// must be present; each absent optional member takes its documented
/// default.
pub open spec fn finalize_settings(acc: SettingsAcc) -> Option<AppSettingsView> {
    match (acc.websites, acc.active_tab) {
        (Some(ws), Some(at)) => Some(
            AppSettingsView {
                websites: ws,
                active_tab: at,
                default_website: match acc.default_website {
                    Some(d) => d,
                    None => None,
                },
                auto_paste_on_focus: match acc.auto_paste_on_focus {
                    Some(b) => b,
                    None => false,
                },
                notes_content: match acc.notes_content {
                    Some(s) => s,
                    None => Seq::empty(),
                },
                notes_mode: match acc.notes_mode {
                    Some(m) => m,
                    None => "hidden"@,
                },
            },
        ),
        _ => None,
    }
}

/// A whole settings document: one object and nothing but whitespace around
/// it.
pub open spec fn parse_settings_doc(t: Seq<char>) -> Option<AppSettingsView> {
    let r0 = skip_ws(t);
    if r0.len() == 0 || r0[0] != '{' {
        None
    } else {
        let r1 = skip_ws(r0.drop_first());
        if r1.len() > 0 && r1[0] == '}' {
            None
        } else {
            match parse_settings_members(r1, sacc_empty()) {
                None => None,
                Some(p) => if skip_ws(p.1).len() == 0 {
                    finalize_settings(p.0)
                } else {
                    None
                },
            }
        }
    }
}

/// A whole single-website document.
pub open spec fn parse_website_doc(t: Seq<char>) -> Option<WebsiteView> {
    match parse_website(skip_ws(t)) {
        Some(p) => if skip_ws(p.1).len() == 0 {
            Some(p.0)
        } else {
            None
        },
        None => None,
    }
}

// ---------------------------------------------------------------------
// The round trip: parsing a written document yields the value back.
// ---------------------------------------------------------------------

/// A written string value parses to itself.
proof fn lemma_jstr_value(val: Seq<char>, rest: Seq<char>)
    ensures
        parse_string(jstr(val) + rest) == Some((val, rest)),
{
    let t = jstr(val) + rest;
    assert(t[0] == '"');
    assert(t.drop_first() =~= esc(val) + seq!['"'] + rest);
    crate::json::lemma_parse_esc(val, rest);
}

/// A written boolean value parses to itself.
proof fn lemma_bool_value(b: bool, rest: Seq<char>)
    ensures
        parse_bool(bool_text(b) + rest) == Some((b, rest)),
{
    reveal_strlit("true");
    reveal_strlit("false");
    let t = bool_text(b) + rest;
    if b {
        assert(t.subrange(0, 4) =~= "true"@);
        assert(t.skip(4) =~= rest);
    } else {
        assert(t.subrange(0, 5) =~= "false"@);
        if t.len() >= 4 && t.subrange(0, 4) == "true"@ {
            assert(t.subrange(0, 4)[0] == 't');
            assert(t[0] == 'f');
            assert(false);
        }
        assert(t.skip(5) =~= rest);
    }
}

/// A written optional string value parses to itself.
proof fn lemma_optstr_value(d: Option<Seq<char>>, rest: Seq<char>)
    ensures
        parse_null_or_string(optstr_text(d) + rest) == Some((d, rest)),
{
    reveal_strlit("null");
    let t = optstr_text(d) + rest;
    match d {
        None => {
            assert(t.subrange(0, 4) =~= "null"@);
            assert(t.skip(4) =~= rest);
        },
        Some(s) => {
            assert(t =~= jstr(s) + rest);
            assert(t[0] == '"');
            if t.len() >= 4 && t.subrange(0, 4) == "null"@ {
                assert(t.subrange(0, 4)[0] == 'n');
                assert(false);
            }
            lemma_jstr_value(s, rest);
        },
    }
}

/// The four website keys are pairwise distinct.
proof fn lemma_website_keys_distinct()
    ensures
        "id"@ != "name"@,
        "id"@ != "url"@,
        "id"@ != "emoji"@,
        "name"@ != "url"@,
        "name"@ != "emoji"@,
        "url"@ != "emoji"@,
{
    reveal_strlit("id");
    reveal_strlit("name");
    reveal_strlit("url");
    reveal_strlit("emoji");
    assert("id"@.len() == 2);
    assert("name"@.len() == 4);
    assert("url"@.len() == 3);
    assert("emoji"@.len() == 5);
}

/// The six settings keys are pairwise distinct.
proof fn lemma_settings_keys_distinct()
    ensures
        "websites"@ != "active_tab"@,
        "websites"@ != "default_website"@,
        "websites"@ != "auto_paste_on_focus"@,
        "websites"@ != "notes_content"@,
        "websites"@ != "notes_mode"@,
        "active_tab"@ != "default_website"@,
        "active_tab"@ != "auto_paste_on_focus"@,
        "active_tab"@ != "notes_content"@,
        "active_tab"@ != "notes_mode"@,
        "default_website"@ != "auto_paste_on_focus"@,
        "default_website"@ != "notes_content"@,
        "default_website"@ != "notes_mode"@,
        "auto_paste_on_focus"@ != "notes_content"@,
        "auto_paste_on_focus"@ != "notes_mode"@,
        "notes_content"@ != "notes_mode"@,
{
    reveal_strlit("websites");
    reveal_strlit("active_tab");
    reveal_strlit("default_website");
    reveal_strlit("auto_paste_on_focus");
    reveal_strlit("notes_content");
    reveal_strlit("notes_mode");
    assert("websites"@.len() == 8);
    assert("active_tab"@.len() == 10);
    assert("default_website"@.len() == 15);
    assert("auto_paste_on_focus"@.len() == 19);
    assert("notes_content"@.len() == 13);
    assert("notes_mode"@.len() == 10);
    assert("active_tab"@[0] == 'a');
    assert("notes_mode"@[0] == 'n');
}

/// One written website member, inside the object.
proof fn lemma_wmember(which: int, w: WebsiteView, tail: Seq<char>, acc: WebsiteAcc)
    requires
        0 <= which < 4,
        which == 0 ==> acc.id is None,
        which == 1 ==> acc.name is None,
        which == 2 ==> acc.url is None,
        which == 3 ==> acc.emoji is None,
    ensures
        parse_website_members(wmember_text(w, which) + tail, acc) == parse_wafter_value(
            tail,
            wacc_set(acc, w, which),
        ),
{
    lemma_website_keys_distinct();
    let key = wmember_key(which);
    let val = wmember_val(w, which);
    let t = wmember_text(w, which) + tail;
    assert(t =~= jstr(key) + (seq![':'] + (jstr(val) + tail)));
    lemma_jstr_value(key, seq![':'] + (jstr(val) + tail));
    let r1 = seq![':'] + (jstr(val) + tail);
    assert(!crate::json::is_ws_char(r1[0]));
    crate::json::lemma_skip_ws_noop(r1);
    assert(r1[0] == ':');
    assert(r1.drop_first() =~= jstr(val) + tail);
    let r2 = jstr(val) + tail;
    assert(r2[0] == '"');
    crate::json::lemma_skip_ws_noop(r2);
    lemma_jstr_value(val, tail);
    assert(tail.len() < t.len());
}

/// The key of the website member at this position.
pub open spec fn wmember_key(which: int) -> Seq<char> {
    if which == 0 {
        "id"@
    } else if which == 1 {
        "name"@
    } else if which == 2 {
        "url"@
    } else {
        "emoji"@
    }
}

/// The value of the website member at this position.
pub open spec fn wmember_val(w: WebsiteView, which: int) -> Seq<char> {
    if which == 0 {
        w.id
    } else if which == 1 {
        w.name
    } else if which == 2 {
        w.url
    } else {
        w.emoji
    }
}

/// The text of the website member at this position.
pub open spec fn wmember_text(w: WebsiteView, which: int) -> Seq<char> {
    jstr(wmember_key(which)) + seq![':'] + jstr(wmember_val(w, which))
}

/// The accumulator with the website member at this position filled in.
pub open spec fn wacc_set(acc: WebsiteAcc, w: WebsiteView, which: int) -> WebsiteAcc {
    if which == 0 {
        WebsiteAcc { id: Some(w.id), ..acc }
    } else if which == 1 {
        WebsiteAcc { name: Some(w.name), ..acc }
    } else if which == 2 {
        WebsiteAcc { url: Some(w.url), ..acc }
    } else {
        WebsiteAcc { emoji: Some(w.emoji), ..acc }
    }
}

/// A written website object parses to itself.
#[verifier::rlimit(100)]
#[verifier::spinoff_prover]
proof fn lemma_website_rt(w: WebsiteView, rest: Seq<char>)
    ensures
        parse_website(json_of_website(w) + rest) == Some((w, rest)),
{
    let t = json_of_website(w) + rest;
    let m0 = wmember_text(w, 0);
    let m1 = wmember_text(w, 1);
    let m2 = wmember_text(w, 2);
    let m3 = wmember_text(w, 3);
    let a3 = seq!['}'] + rest;
    let a2 = seq![','] + (m3 + a3);
    let a1 = seq![','] + (m2 + a2);
    let a0 = seq![','] + (m1 + a1);
    assert(t[0] == '{');
    assert(t.drop_first() =~= m0 + a0);
    let entry = m0 + a0;
    assert(entry[0] == '"');
    crate::json::lemma_skip_ws_noop(entry);
    let acc0 = wacc_empty();
    lemma_wmember(0, w, a0, acc0);
    let acc1 = wacc_set(acc0, w, 0);
    assert(a0[0] == ',');
    crate::json::lemma_skip_ws_noop(a0);
    assert(a0.drop_first() =~= m1 + a1);
    assert((m1 + a1)[0] == '"');
    crate::json::lemma_skip_ws_noop(m1 + a1);
    assert((m1 + a1).len() < a0.len());
    assert(parse_wafter_value(a0, acc1) == parse_website_members(m1 + a1, acc1));
    lemma_wmember(1, w, a1, acc1);
    let acc2 = wacc_set(acc1, w, 1);
    assert(a1[0] == ',');
    crate::json::lemma_skip_ws_noop(a1);
    assert(a1.drop_first() =~= m2 + a2);
    assert((m2 + a2)[0] == '"');
    crate::json::lemma_skip_ws_noop(m2 + a2);
    assert((m2 + a2).len() < a1.len());
    assert(parse_wafter_value(a1, acc2) == parse_website_members(m2 + a2, acc2));
    lemma_wmember(2, w, a2, acc2);
    let acc3 = wacc_set(acc2, w, 2);
    assert(a2[0] == ',');
    crate::json::lemma_skip_ws_noop(a2);
    assert(a2.drop_first() =~= m3 + a3);
    assert((m3 + a3)[0] == '"');
    crate::json::lemma_skip_ws_noop(m3 + a3);
    assert((m3 + a3).len() < a2.len());
    assert(parse_wafter_value(a2, acc3) == parse_website_members(m3 + a3, acc3));
    lemma_wmember(3, w, a3, acc3);
    let acc4 = wacc_set(acc3, w, 3);
    assert(a3[0] == '}');
    crate::json::lemma_skip_ws_noop(a3);
    assert(a3.drop_first() =~= rest);
    assert(parse_wafter_value(a3, acc4) == Some((acc4, rest)));
    assert(parse_website_members(entry, acc0) == Some((acc4, rest)));
    match (acc4.id, acc4.name, acc4.url, acc4.emoji) {
        (Some(id), Some(name), Some(url), Some(emoji)) => {
            assert((WebsiteView { id, name, url, emoji }) =~= w);
        },
        _ => {
            assert(false);
        },
    }
}

/// Written array elements parse to themselves.
#[verifier::rlimit(100)]
#[verifier::spinoff_prover]
proof fn lemma_items_rt(ws: Seq<WebsiteView>, acc: Seq<WebsiteView>, rest: Seq<char>)
    requires
        ws.len() >= 1,
    ensures
        parse_website_items(items_text(ws) + seq![']'] + rest, acc) == Some((acc + ws, rest)),
    decreases ws.len(),
{
    let t = items_text(ws) + seq![']'] + rest;
    if ws.len() == 1 {
        assert(t =~= json_of_website(ws[0]) + (seq![']'] + rest));
        lemma_website_rt(ws[0], seq![']'] + rest);
        let a = seq![']'] + rest;
        assert(a[0] == ']');
        crate::json::lemma_skip_ws_noop(a);
        assert(a.drop_first() =~= rest);
        assert(acc.push(ws[0]) =~= acc + ws);
    } else {
        let more = items_text(ws.drop_first()) + seq![']'] + rest;
        let a = seq![','] + more;
        assert(t =~= json_of_website(ws[0]) + a);
        lemma_website_rt(ws[0], a);
        assert(a[0] == ',');
        crate::json::lemma_skip_ws_noop(a);
        assert(a.drop_first() =~= more);
        assert(items_text(ws.drop_first())[0] == '{');
        assert(more[0] == '{');
        crate::json::lemma_skip_ws_noop(more);
        assert(more.len() < t.len());
        lemma_items_rt(ws.drop_first(), acc.push(ws[0]), rest);
        assert(acc.push(ws[0]) + ws.drop_first() =~= acc + ws);
    }
}

/// A written website array parses to itself.
proof fn lemma_array_rt(ws: Seq<WebsiteView>, rest: Seq<char>)
    ensures
        parse_website_array(array_text(ws) + rest) == Some((ws, rest)),
{
    let t = array_text(ws) + rest;
    assert(t[0] == '[');
    if ws.len() == 0 {
        assert(t.drop_first() =~= seq![']'] + rest);
        let r1 = seq![']'] + rest;
        crate::json::lemma_skip_ws_noop(r1);
        assert(r1[0] == ']');
        assert(r1.drop_first() =~= rest);
        assert(Seq::<WebsiteView>::empty() =~= ws);
    } else {
        let body = items_text(ws) + seq![']'] + rest;
        assert(t.drop_first() =~= body);
        assert(items_text(ws)[0] == '{');
        assert(body[0] == '{');
        crate::json::lemma_skip_ws_noop(body);
        lemma_items_rt(ws, Seq::empty(), rest);
        assert(Seq::<WebsiteView>::empty() + ws =~= ws);
    }
}

/// The accumulator with the optional member at this position filled in.
pub open spec fn sacc_set_opt(acc: SettingsAcc, s: AppSettingsView, idx: int) -> SettingsAcc {
    if idx == 0 {
        SettingsAcc { default_website: Some(s.default_website), ..acc }
    } else if idx == 1 {
        SettingsAcc { auto_paste_on_focus: Some(s.auto_paste_on_focus), ..acc }
    } else if idx == 2 {
        SettingsAcc { notes_content: Some(s.notes_content), ..acc }
    } else {
        SettingsAcc { notes_mode: Some(s.notes_mode), ..acc }
    }
}

/// The accumulator after the optional members from `idx` on: present ones
/// filled in, absent ones left empty.
pub open spec fn sacc_filled(acc: SettingsAcc, s: AppSettingsView, f: FieldFlags, idx: int)
    -> SettingsAcc
    decreases 4 - idx,
{
    if idx >= 4 {
        acc
    } else {
        sacc_filled(
            if opt_present(f, idx) {
                sacc_set_opt(acc, s, idx)
            } else {
                acc
            },
            s,
            f,
            idx + 1,
        )
    }
}

/// The optional slots from `idx` on are still empty.
pub open spec fn sacc_opt_free(acc: SettingsAcc, idx: int) -> bool {
    &&& idx <= 0 ==> acc.default_website is None
    &&& idx <= 1 ==> acc.auto_paste_on_focus is None
    &&& idx <= 2 ==> acc.notes_content is None
    &&& idx <= 3 ==> acc.notes_mode is None
}

/// One written optional settings member, inside the object.
#[verifier::rlimit(100)]
proof fn lemma_smember_opt(idx: int, s: AppSettingsView, tail: Seq<char>, acc: SettingsAcc)
    requires
        0 <= idx < 4,
        idx == 0 ==> acc.default_website is None,
        idx == 1 ==> acc.auto_paste_on_focus is None,
        idx == 2 ==> acc.notes_content is None,
        idx == 3 ==> acc.notes_mode is None,
    ensures
        parse_settings_members(opt_member_text(s, idx) + tail, acc) == parse_safter_value(
            tail,
            sacc_set_opt(acc, s, idx),
        ),
{
    lemma_settings_keys_distinct();
    let key = if idx == 0 {
        "default_website"@
    } else if idx == 1 {
        "auto_paste_on_focus"@
    } else if idx == 2 {
        "notes_content"@
    } else {
        "notes_mode"@
    };
    let vtext = if idx == 0 {
        optstr_text(s.default_website)
    } else if idx == 1 {
        bool_text(s.auto_paste_on_focus)
    } else if idx == 2 {
        jstr(s.notes_content)
    } else {
        jstr(s.notes_mode)
    };
    let t = opt_member_text(s, idx) + tail;
    assert(t =~= jstr(key) + (seq![':'] + (vtext + tail)));
    lemma_jstr_value(key, seq![':'] + (vtext + tail));
    let r1 = seq![':'] + (vtext + tail);
    crate::json::lemma_skip_ws_noop(r1);
    assert(r1.drop_first() =~= vtext + tail);
    let r2 = vtext + tail;
    reveal_strlit("null");
    reveal_strlit("true");
    reveal_strlit("false");
    assert(!crate::json::is_ws_char(r2[0]));
    crate::json::lemma_skip_ws_noop(r2);
    if idx == 0 {
        lemma_optstr_value(s.default_website, tail);
    } else if idx == 1 {
        lemma_bool_value(s.auto_paste_on_focus, tail);
    } else if idx == 2 {
        lemma_jstr_value(s.notes_content, tail);
    } else {
        lemma_jstr_value(s.notes_mode, tail);
    }
    assert(tail.len() < t.len());
}

/// The written optional members from `idx` on, followed by the closing
/// brace, finish the object with exactly the present members filled in.
proof fn lemma_opt_members_rt(s: AppSettingsView, f: FieldFlags, idx: int, acc: SettingsAcc, rest: Seq<char>)
    requires
        0 <= idx <= 4,
        sacc_opt_free(acc, idx),
    ensures
        parse_safter_value(opt_members_text(s, f, idx) + seq!['}'] + rest, acc) == Some(
            (sacc_filled(acc, s, f, idx), rest),
        ),
    decreases 4 - idx,
{
    let t = opt_members_text(s, f, idx) + seq!['}'] + rest;
    if idx == 4 {
        assert(t =~= seq!['}'] + rest);
        crate::json::lemma_skip_ws_noop(t);
        assert(t[0] == '}');
        assert(t.drop_first() =~= rest);
    } else if !opt_present(f, idx) {
        assert(opt_members_text(s, f, idx) =~= opt_members_text(s, f, idx + 1));
        lemma_opt_members_rt(s, f, idx + 1, acc, rest);
    } else {
        let member = opt_member_text(s, idx);
        let tail = opt_members_text(s, f, idx + 1) + seq!['}'] + rest;
        assert(t =~= seq![','] + (member + tail));
        crate::json::lemma_skip_ws_noop(t);
        assert(t[0] == ',');
        assert(t.drop_first() =~= member + tail);
        assert((member + tail)[0] == '"');
        crate::json::lemma_skip_ws_noop(member + tail);
        assert((member + tail).len() < t.len());
        lemma_smember_opt(idx, s, tail, acc);
        let acc2 = sacc_set_opt(acc, s, idx);
        assert(sacc_opt_free(acc2, idx + 1));
        lemma_opt_members_rt(s, f, idx + 1, acc2, rest);
        assert(sacc_filled(acc, s, f, idx) == sacc_filled(acc2, s, f, idx + 1));
    }
}

/// Deserializing a document with the chosen optional members yields the
/// written value with every absent member at its documented default and
/// every present member preserved.
#[verifier::rlimit(100)]
#[verifier::spinoff_prover]
pub proof fn lemma_doc_roundtrip(s: AppSettingsView, f: FieldFlags)
    ensures
        parse_settings_doc(json_doc(s, f)) == Some(defaulted(s, f)),
{
    lemma_settings_keys_distinct();
    let t = json_doc(s, f);
    let opts = opt_members_text(s, f, 0) + seq!['}'];
    let m_a = jstr("active_tab"@) + seq![':'] + jstr(s.active_tab);
    let a0 = seq![','] + (m_a + opts);
    let m_w = jstr("websites"@) + seq![':'] + array_text(s.websites);
    assert(t[0] == '{');
    crate::json::lemma_skip_ws_noop(t);
    assert(t.drop_first() =~= m_w + a0);
    let entry = m_w + a0;
    assert(entry[0] == '"');
    crate::json::lemma_skip_ws_noop(entry);

    // the websites member
    assert(entry =~= jstr("websites"@) + (seq![':'] + (array_text(s.websites) + a0)));
    lemma_jstr_value("websites"@, seq![':'] + (array_text(s.websites) + a0));
    let r1 = seq![':'] + (array_text(s.websites) + a0);
    crate::json::lemma_skip_ws_noop(r1);
    assert(r1.drop_first() =~= array_text(s.websites) + a0);
    assert((array_text(s.websites) + a0)[0] == '[');
    crate::json::lemma_skip_ws_noop(array_text(s.websites) + a0);
    lemma_array_rt(s.websites, a0);
    let acc1 = SettingsAcc { websites: Some(s.websites), ..sacc_empty() };
    assert(a0.len() < entry.len());
    assert(parse_settings_members(entry, sacc_empty()) == parse_safter_value(a0, acc1));

    // the active_tab member
    crate::json::lemma_skip_ws_noop(a0);
    assert(a0[0] == ',');
    assert(a0.drop_first() =~= m_a + opts);
    assert((m_a + opts)[0] == '"');
    crate::json::lemma_skip_ws_noop(m_a + opts);
    assert((m_a + opts).len() < a0.len());
    assert(parse_safter_value(a0, acc1) == parse_settings_members(m_a + opts, acc1));
    assert(m_a + opts =~= jstr("active_tab"@) + (seq![':'] + (jstr(s.active_tab) + opts)));
    lemma_jstr_value("active_tab"@, seq![':'] + (jstr(s.active_tab) + opts));
    let r2 = seq![':'] + (jstr(s.active_tab) + opts);
    crate::json::lemma_skip_ws_noop(r2);
    assert(r2.drop_first() =~= jstr(s.active_tab) + opts);
    assert((jstr(s.active_tab) + opts)[0] == '"');
    crate::json::lemma_skip_ws_noop(jstr(s.active_tab) + opts);
    lemma_jstr_value(s.active_tab, opts);
    let acc2 = SettingsAcc { active_tab: Some(s.active_tab), ..acc1 };
    assert(opts.len() < (m_a + opts).len());
    assert(parse_settings_members(m_a + opts, acc1) == parse_safter_value(opts, acc2));

    // the optional members and the closing brace
    assert(opts + Seq::<char>::empty() =~= opts);
    assert(opts =~= opt_members_text(s, f, 0) + seq!['}'] + Seq::<char>::empty());
    lemma_opt_members_rt(s, f, 0, acc2, Seq::empty());
    let accf = sacc_filled(acc2, s, f, 0);
    assert(parse_safter_value(opts, acc2) == Some((accf, Seq::<char>::empty())));
    crate::json::lemma_skip_ws_noop(Seq::<char>::empty());

    let acc3 = if f.default_website {
        sacc_set_opt(acc2, s, 0)
    } else {
        acc2
    };
    let acc4 = if f.auto_paste_on_focus {
        sacc_set_opt(acc3, s, 1)
    } else {
        acc3
    };
    let acc5 = if f.notes_content {
        sacc_set_opt(acc4, s, 2)
    } else {
        acc4
    };
    let acc6 = if f.notes_mode {
        sacc_set_opt(acc5, s, 3)
    } else {
        acc5
    };
    assert(sacc_filled(acc2, s, f, 0) == sacc_filled(acc3, s, f, 1));
    assert(sacc_filled(acc3, s, f, 1) == sacc_filled(acc4, s, f, 2));
    assert(sacc_filled(acc4, s, f, 2) == sacc_filled(acc5, s, f, 3));
    assert(sacc_filled(acc5, s, f, 3) == sacc_filled(acc6, s, f, 4));
    assert(accf == acc6);
    assert(finalize_settings(accf) matches Some(fv) && fv =~= defaulted(s, f));
}

/// The record a document missing some optional members denotes: the present
/// fields as written, the absent ones at their documented defaults.
pub open spec fn defaulted(s: AppSettingsView, f: FieldFlags) -> AppSettingsView {
    AppSettingsView {
        websites: s.websites,
        active_tab: s.active_tab,
        default_website: if f.default_website {
            s.default_website
        } else {
            None
        },
        auto_paste_on_focus: if f.auto_paste_on_focus {
            s.auto_paste_on_focus
        } else {
            false
        },
        notes_content: if f.notes_content {
            s.notes_content
        } else {
            Seq::empty()
        },
        notes_mode: if f.notes_mode {
            s.notes_mode
        } else {
            "hidden"@
        },
    }
}

/// Serialize→deserialize reproduces an equal record, field for field: the
/// full document of any settings value parses back to exactly that value.
pub proof fn lemma_settings_roundtrip(s: AppSettingsView)
    ensures
        parse_settings_doc(json_of_settings(s)) == Some(s),
{
    lemma_doc_roundtrip(s, all_fields());
    assert(defaulted(s, all_fields()) =~= s);
}

/// A written website document parses back to exactly that website.
pub proof fn lemma_website_roundtrip(w: WebsiteView)
    ensures
        parse_website_doc(json_of_website(w)) == Some(w),
{
    assert(json_of_website(w)[0] == '{');
    crate::json::lemma_skip_ws_noop(json_of_website(w));
    assert(json_of_website(w) + Seq::<char>::empty() =~= json_of_website(w));
    lemma_website_rt(w, Seq::empty());
    crate::json::lemma_skip_ws_noop(Seq::<char>::empty());
}

// ---------------------------------------------------------------------
// The executable parser.
// ---------------------------------------------------------------------

/// The view of an optional string value.
pub open spec fn opt_str_view(o: Option<String>) -> Option<Seq<char>> {
    match o {
        Some(s) => Some(s@),
        None => None,
    }
}


/// The accumulated website members as the parser's accumulator.
pub open spec fn wacc_of(
    id: Option<String>,
    name: Option<String>,
    url: Option<String>,
    emoji: Option<String>,
) -> WebsiteAcc {
    WebsiteAcc {
        id: opt_str_view(id),
        name: opt_str_view(name),
        url: opt_str_view(url),
        emoji: opt_str_view(emoji),
    }
}

/// The accumulated settings members as the parser's accumulator.
pub open spec fn sacc_of(
    websites: Option<Vec<Website>>,
    active_tab: Option<String>,
    default_website: Option<Option<String>>,
    auto_paste_on_focus: Option<bool>,
    notes_content: Option<String>,
    notes_mode: Option<String>,
) -> SettingsAcc {
    SettingsAcc {
        websites: match websites {
            Some(ws) => Some(ws@.map_values(|w: Website| w@)),
            None => None,
        },
        active_tab: opt_str_view(active_tab),
        default_website: match default_website {
            Some(d) => Some(opt_str_view(d)),
            None => None,
        },
        auto_paste_on_focus,
        notes_content: opt_str_view(notes_content),
        notes_mode: opt_str_view(notes_mode),
    }
}

/// Scan a boolean literal.
fn scan_bool(v: &Vec<char>, i: usize) -> (r: Option<(bool, usize)>)
    requires
        i <= v.len(),
    ensures
        match r {
            None => parse_bool(v@.skip(i as int)) is None,
            Some(p) => i < p.1 <= v@.len() && parse_bool(v@.skip(i as int)) == Some(
                (p.0, v@.skip(p.1 as int)),
            ),
        },
{
    proof {
        reveal_strlit("true");
        reveal_strlit("false");
    }
    let ghost t = v@.skip(i as int);
    if v.len() - i >= 4 && v[i] == 't' && v[i + 1] == 'r' && v[i + 2] == 'u' && v[i + 3] == 'e' {
        proof {
            assert(t.subrange(0, 4) =~= "true"@);
            assert(t.skip(4) =~= v@.skip(i + 4 as int));
        }
        Some((true, i + 4))
    } else if v.len() - i >= 5 && v[i] == 'f' && v[i + 1] == 'a' && v[i + 2] == 'l' && v[i + 3]
        == 's' && v[i + 4] == 'e' {
        proof {
            assert(t.subrange(0, 5) =~= "false"@);
            if t.len() >= 4 && t.subrange(0, 4) == "true"@ {
                assert(t.subrange(0, 4)[0] == 't');
                assert(false);
            }
            assert(t.skip(5) =~= v@.skip(i + 5 as int));
        }
        Some((false, i + 5))
    } else {
        proof {
            if t.len() >= 4 && t.subrange(0, 4) == "true"@ {
                assert(v@[i as int] == t.subrange(0, 4)[0]);
                assert(v@[i + 1] == t.subrange(0, 4)[1]);
                assert(v@[i + 2] == t.subrange(0, 4)[2]);
                assert(v@[i + 3] == t.subrange(0, 4)[3]);
                assert(false);
            }
            if t.len() >= 5 && t.subrange(0, 5) == "false"@ {
                assert(v@[i as int] == t.subrange(0, 5)[0]);
                assert(v@[i + 1] == t.subrange(0, 5)[1]);
                assert(v@[i + 2] == t.subrange(0, 5)[2]);
                assert(v@[i + 3] == t.subrange(0, 5)[3]);
                assert(v@[i + 4] == t.subrange(0, 5)[4]);
                assert(false);
            }
        }
        None
    }
}

/// Scan a `null` literal or a string.
fn scan_null_or_string(v: &Vec<char>, i: usize) -> (r: Option<(Option<String>, usize)>)
    requires
        i <= v.len(),
    ensures
        match r {
            None => parse_null_or_string(v@.skip(i as int)) is None,
            Some(p) => i < p.1 <= v@.len() && parse_null_or_string(v@.skip(i as int)) == Some(
                (opt_str_view(p.0), v@.skip(p.1 as int)),
            ),
        },
{
    proof {
        reveal_strlit("null");
    }
    let ghost t = v@.skip(i as int);
    if v.len() - i >= 4 && v[i] == 'n' && v[i + 1] == 'u' && v[i + 2] == 'l' && v[i + 3] == 'l' {
        proof {
            assert(t.subrange(0, 4) =~= "null"@);
            assert(t.skip(4) =~= v@.skip(i + 4 as int));
        }
        Some((None, i + 4))
    } else {
        proof {
            if t.len() >= 4 && t.subrange(0, 4) == "null"@ {
                assert(v@[i as int] == t.subrange(0, 4)[0]);
                assert(v@[i + 1] == t.subrange(0, 4)[1]);
                assert(v@[i + 2] == t.subrange(0, 4)[2]);
                assert(v@[i + 3] == t.subrange(0, 4)[3]);
                assert(false);
            }
        }
        match scan_string(v, i) {
            Some((chars, j)) => {
                let s = chars_to_string(&chars);
                Some((Some(s), j))
            },
            None => None,
        }
    }
}

/// Scan one website object.
#[verifier::loop_isolation(false)]
fn scan_website(v: &Vec<char>, start: usize) -> (r: Option<(Website, usize)>)
    requires
        start <= v.len(),
    ensures
        match r {
            None => parse_website(v@.skip(start as int)) is None,
            Some(p) => start < p.1 <= v@.len() && parse_website(v@.skip(start as int)) == Some(
                (p.0@, v@.skip(p.1 as int)),
            ),
        },
{
    let ghost t = v@.skip(start as int);
    if start >= v.len() || v[start] != '{' {
        proof {
            if start < v.len() {
                assert(t[0] == v@[start as int]);
            }
        }
        return None;
    }
    proof {
        assert(t[0] == v@[start as int]);
        assert(t.drop_first() =~= v@.skip(start + 1 as int));
    }
    let i1 = scan_ws(v, start + 1);
    if i1 < v.len() && v[i1] == '}' {
        proof {
            assert(v@.skip(i1 as int)[0] == v@[i1 as int]);
        }
        return None;
    }
    let ghost entry = v@.skip(i1 as int);
    let mut j = i1;
    let mut id: Option<String> = None;
    let mut name: Option<String> = None;
    let mut url: Option<String> = None;
    let mut emoji: Option<String> = None;
    loop
        invariant
            i1 <= j <= v.len(),
            entry == v@.skip(i1 as int),
            entry.len() > 0 ==> entry[0] != '}',
            i1 < v.len() ==> entry[0] == v@[i1 as int],
            parse_website_members(entry, wacc_empty()) == parse_website_members(
                v@.skip(j as int),
                wacc_of(id, name, url, emoji),
            ),
        decreases v.len() - j,
    {
        let ghost acc0 = wacc_of(id, name, url, emoji);
        let (key, j1) = match scan_string(v, j) {
            Some(p) => p,
            None => {
                return None;
            },
        };
        let j2 = scan_ws(v, j1);
        if j2 >= v.len() || v[j2] != ':' {
            proof {
                if j2 < v.len() {
                    assert(v@.skip(j2 as int)[0] == v@[j2 as int]);
                }
            }
            return None;
        }
        proof {
            assert(v@.skip(j2 as int)[0] == v@[j2 as int]);
            assert(v@.skip(j2 as int).drop_first() =~= v@.skip(j2 + 1 as int));
        }
        let j3 = scan_ws(v, j2 + 1);
        let j4: usize;
        if chars_eq_str(&key, "id") {
            if id.is_some() {
                return None;
            }
            match scan_string(v, j3) {
                Some((vc, jj)) => {
                    id = Some(chars_to_string(&vc));
                    j4 = jj;
                },
                None => {
                    return None;
                },
            }
        } else if chars_eq_str(&key, "name") {
            if name.is_some() {
                return None;
            }
            match scan_string(v, j3) {
                Some((vc, jj)) => {
                    name = Some(chars_to_string(&vc));
                    j4 = jj;
                },
                None => {
                    return None;
                },
            }
        } else if chars_eq_str(&key, "url") {
            if url.is_some() {
                return None;
            }
            match scan_string(v, j3) {
                Some((vc, jj)) => {
                    url = Some(chars_to_string(&vc));
                    j4 = jj;
                },
                None => {
                    return None;
                },
            }
        } else if chars_eq_str(&key, "emoji") {
            if emoji.is_some() {
                return None;
            }
            match scan_string(v, j3) {
                Some((vc, jj)) => {
                    emoji = Some(chars_to_string(&vc));
                    j4 = jj;
                },
                None => {
                    return None;
                },
            }
        } else {
            return None;
        }
        let ghost acc2 = wacc_of(id, name, url, emoji);
        proof {
            assert(v@.skip(j4 as int).len() < v@.skip(j as int).len());
            assert(parse_website_members(v@.skip(j as int), acc0) == parse_wafter_value(
                v@.skip(j4 as int),
                acc2,
            ));
        }
        let j5 = scan_ws(v, j4);
        if j5 >= v.len() {
            return None;
        }
        proof {
            assert(v@.skip(j5 as int)[0] == v@[j5 as int]);
            assert(v@.skip(j5 as int).drop_first() =~= v@.skip(j5 + 1 as int));
        }
        if v[j5] == '}' {
            match (id, name, url, emoji) {
                (Some(idv), Some(namev), Some(urlv), Some(emojiv)) => {
                    let w = Website { id: idv, name: namev, url: urlv, emoji: emojiv };
                    proof {
                        assert(parse_wafter_value(v@.skip(j4 as int), acc2) == Some(
                            (acc2, v@.skip(j5 + 1 as int)),
                        ));
                        assert(parse_website(t) == Some((w@, v@.skip(j5 + 1 as int))));
                    }
                    return Some((w, j5 + 1));
                },
                _ => {
                    return None;
                },
            }
        } else if v[j5] == ',' {
            let j6 = scan_ws(v, j5 + 1);
            proof {
                assert(v@.skip(j6 as int).len() < v@.skip(j4 as int).len());
                assert(parse_wafter_value(v@.skip(j4 as int), acc2) == parse_website_members(
                    v@.skip(j6 as int),
                    acc2,
                ));
            }
            j = j6;
        } else {
            return None;
        }
    }
}

/// Scan a website array.
#[verifier::loop_isolation(false)]
fn scan_website_array(v: &Vec<char>, start: usize) -> (r: Option<(Vec<Website>, usize)>)
    requires
        start <= v.len(),
    ensures
        match r {
            None => parse_website_array(v@.skip(start as int)) is None,
            Some(p) => start < p.1 <= v@.len() && parse_website_array(v@.skip(start as int))
                == Some((p.0@.map_values(|w: Website| w@), v@.skip(p.1 as int))),
        },
{
    let ghost t = v@.skip(start as int);
    if start >= v.len() || v[start] != '[' {
        proof {
            if start < v.len() {
                assert(t[0] == v@[start as int]);
            }
        }
        return None;
    }
    proof {
        assert(t[0] == v@[start as int]);
        assert(t.drop_first() =~= v@.skip(start + 1 as int));
    }
    let i1 = scan_ws(v, start + 1);
    if i1 < v.len() && v[i1] == ']' {
        let out: Vec<Website> = Vec::new();
        proof {
            assert(v@.skip(i1 as int)[0] == v@[i1 as int]);
            assert(v@.skip(i1 as int).drop_first() =~= v@.skip(i1 + 1 as int));
            assert(out@.map_values(|w: Website| w@) =~= Seq::<WebsiteView>::empty());
        }
        return Some((out, i1 + 1));
    }
    let ghost entry = v@.skip(i1 as int);
    proof {
        if i1 < v.len() {
            assert(entry[0] == v@[i1 as int]);
        }
    }
    let mut j = i1;
    let mut out: Vec<Website> = Vec::new();
    proof {
        assert(out@.map_values(|w: Website| w@) =~= Seq::<WebsiteView>::empty());
    }
    loop
        invariant
            i1 <= j <= v.len(),
            entry == v@.skip(i1 as int),
            !(entry.len() > 0 && entry[0] == ']'),
            parse_website_items(entry, Seq::empty()) == parse_website_items(
                v@.skip(j as int),
                out@.map_values(|w: Website| w@),
            ),
        decreases v.len() - j,
    {
        let ghost acc0 = out@.map_values(|w: Website| w@);
        let (w, j1) = match scan_website(v, j) {
            Some(p) => p,
            None => {
                return None;
            },
        };
        let j2 = scan_ws(v, j1);
        if j2 >= v.len() {
            return None;
        }
        proof {
            assert(v@.skip(j2 as int)[0] == v@[j2 as int]);
            assert(v@.skip(j2 as int).drop_first() =~= v@.skip(j2 + 1 as int));
        }
        let ghost wv = w@;
        out.push(w);
        proof {
            assert(out@.map_values(|x: Website| x@) =~= acc0.push(wv));
        }
        if v[j2] == ']' {
            proof {
                assert(parse_website_items(v@.skip(j as int), acc0) == Some(
                    (acc0.push(wv), v@.skip(j2 + 1 as int)),
                ));
            }
            return Some((out, j2 + 1));
        } else if v[j2] == ',' {
            let j3 = scan_ws(v, j2 + 1);
            proof {
                assert(v@.skip(j3 as int).len() < v@.skip(j as int).len());
                assert(parse_website_items(v@.skip(j as int), acc0) == parse_website_items(
                    v@.skip(j3 as int),
                    acc0.push(wv),
                ));
            }
            j = j3;
        } else {
            return None;
        }
    }
}

/// Read a settings document.  `None` exactly when the text is not a valid
/// document.
#[verifier::loop_isolation(false)]
#[verifier::rlimit(100)]
#[verifier::spinoff_prover]
pub fn settings_from_json(s: &str) -> (r: Option<AppSettings>)
    ensures
        match r {
            Some(st) => parse_settings_doc(s@) == Some(st@),
            None => parse_settings_doc(s@) is None,
        },
{
    let v = str_chars(s);
    proof {
        assert(v@.skip(0) =~= s@);
    }
    let i0 = scan_ws(&v, 0);
    if i0 >= v.len() || v[i0] != '{' {
        proof {
            if i0 < v.len() {
                assert(v@.skip(i0 as int)[0] == v@[i0 as int]);
            }
        }
        return None;
    }
    proof {
        assert(v@.skip(i0 as int)[0] == v@[i0 as int]);
        assert(v@.skip(i0 as int).drop_first() =~= v@.skip(i0 + 1 as int));
    }
    let i1 = scan_ws(&v, i0 + 1);
    if i1 < v.len() && v[i1] == '}' {
        proof {
            assert(v@.skip(i1 as int)[0] == v@[i1 as int]);
        }
        return None;
    }
    let ghost entry = v@.skip(i1 as int);
    proof {
        if i1 < v.len() {
            assert(entry[0] == v@[i1 as int]);
        }
    }
    let mut j = i1;
    let mut websites: Option<Vec<Website>> = None;
    let mut active_tab: Option<String> = None;
    let mut default_website: Option<Option<String>> = None;
    let mut auto_paste_on_focus: Option<bool> = None;
    let mut notes_content: Option<String> = None;
    let mut notes_mode: Option<String> = None;
    loop
        invariant
            i1 <= j <= v.len(),
            entry == v@.skip(i1 as int),
            !(entry.len() > 0 && entry[0] == '}'),
            skip_ws(s@) == v@.skip(i0 as int),
            v@.skip(i0 as int).len() > 0 && v@.skip(i0 as int)[0] == '{',
            skip_ws(v@.skip(i0 + 1 as int)) == entry,
            parse_settings_members(entry, sacc_empty()) == parse_settings_members(
                v@.skip(j as int),
                sacc_of(
                    websites,
                    active_tab,
                    default_website,
                    auto_paste_on_focus,
                    notes_content,
                    notes_mode,
                ),
            ),
        decreases v.len() - j,
    {
        let ghost acc0 = sacc_of(
            websites,
            active_tab,
            default_website,
            auto_paste_on_focus,
            notes_content,
            notes_mode,
        );
        let (key, j1) = match scan_string(&v, j) {
            Some(p) => p,
            None => {
                return None;
            },
        };
        let j2 = scan_ws(&v, j1);
        if j2 >= v.len() || v[j2] != ':' {
            proof {
                if j2 < v.len() {
                    assert(v@.skip(j2 as int)[0] == v@[j2 as int]);
                }
            }
            return None;
        }
        proof {
            assert(v@.skip(j2 as int)[0] == v@[j2 as int]);
            assert(v@.skip(j2 as int).drop_first() =~= v@.skip(j2 + 1 as int));
        }
        let j3 = scan_ws(&v, j2 + 1);
        let j4: usize;
        if chars_eq_str(&key, "websites") {
            if websites.is_some() {
                return None;
            }
            match scan_website_array(&v, j3) {
                Some((ws, jj)) => {
                    websites = Some(ws);
                    j4 = jj;
                },
                None => {
                    return None;
                },
            }
        } else if chars_eq_str(&key, "active_tab") {
            if active_tab.is_some() {
                return None;
            }
            match scan_string(&v, j3) {
                Some((vc, jj)) => {
                    active_tab = Some(chars_to_string(&vc));
                    j4 = jj;
                },
                None => {
                    return None;
                },
            }
        } else if chars_eq_str(&key, "default_website") {
            if default_website.is_some() {
                return None;
            }
            match scan_null_or_string(&v, j3) {
                Some((d, jj)) => {
                    default_website = Some(d);
                    j4 = jj;
                },
                None => {
                    return None;
                },
            }
        } else if chars_eq_str(&key, "auto_paste_on_focus") {
            if auto_paste_on_focus.is_some() {
                return None;
            }
            match scan_bool(&v, j3) {
                Some((b, jj)) => {
                    auto_paste_on_focus = Some(b);
                    j4 = jj;
                },
                None => {
                    return None;
                },
            }
        } else if chars_eq_str(&key, "notes_content") {
            if notes_content.is_some() {
                return None;
            }
            match scan_string(&v, j3) {
                Some((vc, jj)) => {
                    notes_content = Some(chars_to_string(&vc));
                    j4 = jj;
                },
                None => {
                    return None;
                },
            }
        } else if chars_eq_str(&key, "notes_mode") {
            if notes_mode.is_some() {
                return None;
            }
            match scan_string(&v, j3) {
                Some((vc, jj)) => {
                    notes_mode = Some(chars_to_string(&vc));
                    j4 = jj;
                },
                None => {
                    return None;
                },
            }
        } else {
            return None;
        }
        let ghost acc2 = sacc_of(
            websites,
            active_tab,
            default_website,
            auto_paste_on_focus,
            notes_content,
            notes_mode,
        );
        proof {
            assert(v@.skip(j4 as int).len() < v@.skip(j as int).len());
            assert(parse_settings_members(v@.skip(j as int), acc0) == parse_safter_value(
                v@.skip(j4 as int),
                acc2,
            ));
        }
        let j5 = scan_ws(&v, j4);
        if j5 >= v.len() {
            return None;
        }
        proof {
            assert(v@.skip(j5 as int)[0] == v@[j5 as int]);
            assert(v@.skip(j5 as int).drop_first() =~= v@.skip(j5 + 1 as int));
        }
        if v[j5] == '}' {
            proof {
                assert(parse_safter_value(v@.skip(j4 as int), acc2) == Some(
                    (acc2, v@.skip(j5 + 1 as int)),
                ));
            }
            let j6 = scan_ws(&v, j5 + 1);
            if j6 < v.len() {
                proof {
                    assert(skip_ws(v@.skip(j5 + 1 as int)).len() > 0);
                }
                return None;
            }
            proof {
                assert(skip_ws(v@.skip(j5 + 1 as int)).len() == 0);
            }
            let ws = match websites {
                Some(ws) => ws,
                None => {
                    return None;
                },
            };
            let at = match active_tab {
                Some(at) => at,
                None => {
                    return None;
                },
            };
            let st = AppSettings {
                websites: ws,
                active_tab: at,
                default_website: match default_website {
                    Some(d) => d,
                    None => None,
                },
                auto_paste_on_focus: match auto_paste_on_focus {
                    Some(b) => b,
                    None => false,
                },
                notes_content: match notes_content {
                    Some(c) => c,
                    None => String::new(),
                },
                notes_mode: match notes_mode {
                    Some(m) => m,
                    None => crate::settings::default_notes_mode(),
                },
            };
            proof {
                assert(finalize_settings(acc2) matches Some(fv) && fv =~= st@);
            }
            return Some(st);
        } else if v[j5] == ',' {
            let j6 = scan_ws(&v, j5 + 1);
            proof {
                assert(v@.skip(j6 as int).len() < v@.skip(j4 as int).len());
                assert(parse_safter_value(v@.skip(j4 as int), acc2) == parse_settings_members(
                    v@.skip(j6 as int),
                    acc2,
                ));
            }
            j = j6;
        } else {
            return None;
        }
    }
}

/// Read a single-website document.
pub fn website_from_json(s: &str) -> (r: Option<Website>)
    ensures
        match r {
            Some(w) => parse_website_doc(s@) == Some(w@),
            None => parse_website_doc(s@) is None,
        },
{
    let v = str_chars(s);
    proof {
        assert(v@.skip(0) =~= s@);
    }
    let i0 = scan_ws(&v, 0);
    match scan_website(&v, i0) {
        Some((w, j)) => {
            let j1 = scan_ws(&v, j);
            if j1 >= v.len() {
                proof {
                    assert(skip_ws(v@.skip(j as int)).len() == 0);
                }
                Some(w)
            } else {
                proof {
                    assert(skip_ws(v@.skip(j as int)).len() > 0);
                }
                None
            }
        },
        None => None,
    }
}

// ---------------------------------------------------------------------
// The executable serializer.
// ---------------------------------------------------------------------

/// Write one website object.
fn push_website_json(out: &mut Vec<char>, w: &Website)
    ensures
        final(out)@ == old(out)@ + json_of_website(w@),
{
    out.push('{');
    push_json_string(out, "id");
    out.push(':');
    push_json_string(out, w.id.as_str());
    out.push(',');
    push_json_string(out, "name");
    out.push(':');
    push_json_string(out, w.name.as_str());
    out.push(',');
    push_json_string(out, "url");
    out.push(':');
    push_json_string(out, w.url.as_str());
    out.push(',');
    push_json_string(out, "emoji");
    out.push(':');
    push_json_string(out, w.emoji.as_str());
    out.push('}');
    proof {
        assert(out@ =~= old(out)@ + json_of_website(w@));
    }
}

/// Appending one more website to the joined items.
proof fn lemma_items_text_push(ws: Seq<WebsiteView>, w: WebsiteView)
    ensures
        items_text(ws.push(w)) == if ws.len() == 0 {
            json_of_website(w)
        } else {
            items_text(ws) + seq![','] + json_of_website(w)
        },
    decreases ws.len(),
{
    if ws.len() == 0 {
        assert(ws.push(w).len() == 1);
        assert(ws.push(w)[0] == w);
    } else {
        assert(ws.push(w).drop_first() =~= ws.drop_first().push(w));
        lemma_items_text_push(ws.drop_first(), w);
        if ws.len() == 1 {
            assert(items_text(ws.push(w)) =~= json_of_website(ws[0]) + seq![',']
                + json_of_website(w));
            assert(items_text(ws) =~= json_of_website(ws[0]));
        } else {
            assert(items_text(ws.push(w)) =~= items_text(ws) + seq![','] + json_of_website(w));
        }
    }
}

/// Write the settings document, every member present, in canonical order
/// and without insignificant whitespace.
/// Write the four optional members, each with its leading comma.
#[verifier::rlimit(100)]
#[verifier::spinoff_prover]
fn push_opt_members(out: &mut Vec<char>, settings: &AppSettings)
    ensures
        final(out)@ == old(out)@ + opt_members_text(settings@, all_fields(), 0),
{
    let ghost sv = settings@;
    let ghost base = out@;
    out.push(',');
    push_json_string(out, "default_website");
    out.push(':');
    match &settings.default_website {
        Some(d) => push_json_string(out, d.as_str()),
        None => crate::json::push_str_chars(out, "null"),
    }
    let ghost c0 = base + (seq![','] + opt_member_text(sv, 0));
    proof {
        assert(out@ =~= c0);
    }
    out.push(',');
    push_json_string(out, "auto_paste_on_focus");
    out.push(':');
    if settings.auto_paste_on_focus {
        crate::json::push_str_chars(out, "true");
    } else {
        crate::json::push_str_chars(out, "false");
    }
    let ghost c1 = c0 + (seq![','] + opt_member_text(sv, 1));
    proof {
        assert(out@ =~= c1);
    }
    out.push(',');
    push_json_string(out, "notes_content");
    out.push(':');
    push_json_string(out, settings.notes_content.as_str());
    let ghost c2 = c1 + (seq![','] + opt_member_text(sv, 2));
    proof {
        assert(out@ =~= c2);
    }
    out.push(',');
    push_json_string(out, "notes_mode");
    out.push(':');
    push_json_string(out, settings.notes_mode.as_str());
    let ghost c3 = c2 + (seq![','] + opt_member_text(sv, 3));
    proof {
        assert(out@ =~= c3);
        let f = all_fields();
        assert(opt_members_text(sv, f, 4) =~= Seq::<char>::empty());
        assert(opt_members_text(sv, f, 3) =~= seq![','] + opt_member_text(sv, 3));
        assert(opt_members_text(sv, f, 2) =~= seq![','] + opt_member_text(sv, 2)
            + opt_members_text(sv, f, 3));
        assert(opt_members_text(sv, f, 1) =~= seq![','] + opt_member_text(sv, 1)
            + opt_members_text(sv, f, 2));
        assert(opt_members_text(sv, f, 0) =~= seq![','] + opt_member_text(sv, 0)
            + opt_members_text(sv, f, 1));
        assert(out@ =~= base + opt_members_text(sv, f, 0));
    }
}

#[verifier::rlimit(100)]
#[verifier::spinoff_prover]
pub fn settings_to_json(settings: &AppSettings) -> (r: String)
    ensures
        r@ == json_of_settings(settings@),
{
    let mut out: Vec<char> = Vec::new();
    out.push('{');
    push_json_string(&mut out, "websites");
    out.push(':');
    out.push('[');
    let ghost head = seq!['{'] + jstr("websites"@) + seq![':'] + seq!['['];
    proof {
        assert(out@ =~= head + items_text(Seq::<WebsiteView>::empty()));
    }
    let mut i: usize = 0;
    while i < settings.websites.len()
        invariant
            0 <= i <= settings.websites.len(),
            out@ == head + items_text(settings@.websites.subrange(0, i as int)),
        decreases settings.websites.len() - i,
    {
        let ghost prefix = settings@.websites.subrange(0, i as int);
        if i > 0 {
            out.push(',');
        }
        push_website_json(&mut out, &settings.websites[i]);
        proof {
            lemma_items_text_push(prefix, settings@.websites[i as int]);
            assert(settings@.websites.subrange(0, i + 1 as int) =~= prefix.push(
                settings@.websites[i as int],
            ));
            assert(out@ =~= head + items_text(settings@.websites.subrange(0, i + 1 as int)));
        }
        i = i + 1;
    }
    proof {
        assert(settings@.websites.subrange(0, settings@.websites.len() as int)
            =~= settings@.websites);
    }
    out.push(']');
    out.push(',');
    push_json_string(&mut out, "active_tab");
    out.push(':');
    push_json_string(&mut out, settings.active_tab.as_str());
    let ghost mid = seq!['{'] + jstr("websites"@) + seq![':'] + array_text(settings@.websites)
        + seq![','] + jstr("active_tab"@) + seq![':'] + jstr(settings@.active_tab);
    proof {
        assert(out@ =~= mid);
    }
    push_opt_members(&mut out, settings);
    out.push('}');
    proof {
        assert(out@ =~= json_of_settings(settings@));
    }
    chars_to_string(&out)
}

/// Write one website as its own document.
pub fn website_to_json(w: &Website) -> (r: String)
    ensures
        r@ == json_of_website(w@),
{
    let mut out: Vec<char> = Vec::new();
    push_website_json(&mut out, w);
    proof {
        assert(out@ =~= json_of_website(w@));
    }
    chars_to_string(&out)
}

/// Build the configuration from what the settings file held, if anything:
/// a missing file or an invalid document falls back to the stock defaults,
/// never to a failure.
pub fn load_settings(content: Option<&str>) -> (r: AppSettings)
    ensures
        match content {
            Some(c) => match parse_settings_doc(c@) {
                Some(sv) => r@ == sv,
                None => r@ == crate::settings::spec_default_settings(),
            },
            None => r@ == crate::settings::spec_default_settings(),
        },
{
    match content {
        Some(c) => match settings_from_json(c) {
            Some(st) => st,
            None => AppSettings::default(),
        },
        None => AppSettings::default(),
    }
}

} // verus!
