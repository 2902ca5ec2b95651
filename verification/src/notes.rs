//! The notes-panel state machine.  A single toggle input advances the
//! display mode Hidden → Sidebar → Window → Hidden; entering a mode carries
//! one surface action with it, computed here and executed by the caller.

use vstd::prelude::*;

use crate::text::str_eq;

verus! {

broadcast use vstd::string::group_string_axioms;

/// Width of the notes surface when docked as a sidebar.
pub const SIDEBAR_WIDTH: i64 = 350;

/// Size of the notes surface in standalone window mode.
pub const NOTES_WINDOW_WIDTH: i64 = 400;

pub const NOTES_WINDOW_HEIGHT: i64 = 600;

/// The mode a toggle advances to.  Any unrecognised mode string falls back
/// to hidden.
pub open spec fn spec_next_mode(m: Seq<char>) -> Seq<char> {
    if m == "hidden"@ {
        "sidebar"@
    } else if m == "sidebar"@ {
        "window"@
    } else {
        "hidden"@
    }
}

/// Advance the display mode by one toggle.
pub fn next_notes_mode(mode: &str) -> (r: String)
    ensures
        r@ == spec_next_mode(mode@),
{
    if str_eq(mode, "hidden") {
        String::from_str("sidebar")
    } else if str_eq(mode, "sidebar") {
        String::from_str("window")
    } else {
        String::from_str("hidden")
    }
}

/// Outer geometry of a content surface, as the toolkit reports it.
#[derive(Clone, Copy, PartialEq, Eq, Debug, Structural)]
pub struct SurfaceRect {
    pub x: i64,
    pub y: i64,
    pub width: i64,
    pub height: i64,
}

/// The surface action that entering a notes mode carries.
#[derive(Clone, Copy, PartialEq, Eq, Debug, Structural)]
pub enum NotesAction {
    /// Hide the notes surface if one exists; re-focus the active website
    /// surface.
    Hide,
    /// Dock the notes surface (created borderless if absent, otherwise
    /// repositioned and resized) at the right edge of the active surface,
    /// then show it.
    Sidebar { x: i64, y: i64, width: i64, height: i64 },
    /// Restore window chrome, center on screen at the fixed standalone
    /// size, show and focus.  Created if absent.
    Window { width: i64, height: i64 },
    /// Nothing to do: sidebar mode with no active surface to dock to, or an
    /// unrecognised mode.
    NoOp,
}

/// The action for entering `mode`, next to an active surface of geometry
/// `active`, if one exists.  The sidebar tracks that geometry only at
/// transition time.
pub open spec fn spec_notes_action(mode: Seq<char>, active: Option<SurfaceRect>) -> NotesAction {
    if mode == "hidden"@ {
        NotesAction::Hide
    } else if mode == "sidebar"@ {
        match active {
            Some(r) => NotesAction::Sidebar {
                x: (r.x + r.width) as i64,
                y: r.y,
                width: SIDEBAR_WIDTH,
                height: r.height,
            },
            None => NotesAction::NoOp,
        }
    } else if mode == "window"@ {
        NotesAction::Window { width: NOTES_WINDOW_WIDTH, height: NOTES_WINDOW_HEIGHT }
    } else {
        NotesAction::NoOp
    }
}

/// Compute the surface action for entering a notes mode.
pub fn notes_entry_action(mode: &str, active: Option<SurfaceRect>) -> (r: NotesAction)
    requires
        active matches Some(rect) ==> i64::MIN <= rect.x + rect.width <= i64::MAX,
    ensures
        r == spec_notes_action(mode@, active),
{
    if str_eq(mode, "hidden") {
        NotesAction::Hide
    } else if str_eq(mode, "sidebar") {
        match active {
            Some(rect) => NotesAction::Sidebar {
                x: rect.x + rect.width,
                y: rect.y,
                width: SIDEBAR_WIDTH,
                height: rect.height,
            },
            None => NotesAction::NoOp,
        }
    } else if str_eq(mode, "window") {
        NotesAction::Window { width: NOTES_WINDOW_WIDTH, height: NOTES_WINDOW_HEIGHT }
    } else {
        NotesAction::NoOp
    }
}

/// Size of the tab-switcher overlay.
pub const TAB_SWITCHER_WIDTH: i64 = 500;

pub const TAB_SWITCHER_HEIGHT: i64 = 120;

/// Where the tab-switcher overlay goes: horizontally centered over the
/// active surface, just below its top edge; at a fixed fallback position
/// when no active surface exists.
pub open spec fn spec_tab_switcher_position(active: Option<SurfaceRect>) -> (int, int) {
    match active {
        Some(r) => (r.x + r.width / 2 - TAB_SWITCHER_WIDTH / 2, r.y + 20),
        None => (400int, 100int),
    }
}

/// Compute the tab-switcher overlay position.
pub fn tab_switcher_position(active: Option<SurfaceRect>) -> (p: (i64, i64))
    requires
        active matches Some(rect) ==> rect.width >= 0 && i64::MIN + 250 <= rect.x + rect.width / 2
            <= i64::MAX && rect.y + 20 <= i64::MAX,
    ensures
        (p.0 as int, p.1 as int) == spec_tab_switcher_position(active),
{
    match active {
        Some(rect) => (rect.x + rect.width / 2 - TAB_SWITCHER_WIDTH / 2, rect.y + 20),
        None => (400, 100),
    }
}

/// The mode reached from `m` after `n` toggles.
pub open spec fn mode_after(m: Seq<char>, n: nat) -> Seq<char>
    decreases n,
{
    if n == 0 {
        m
    } else {
        spec_next_mode(mode_after(m, (n - 1) as nat))
    }
}

/// The cycle of modes a toggle walks through, starting after Hidden.
pub open spec fn mode_cycle() -> Seq<Seq<char>> {
    seq!["sidebar"@, "window"@, "hidden"@]
}

/// Starting from Hidden, the modes visited are exactly the cycle
/// [sidebar, window, hidden], repeating: the `n`-th toggle (counting from
/// one) lands on `mode_cycle()[(n - 1) % 3]`, so every third toggle returns
/// to Hidden.
pub proof fn lemma_toggle_cycle_from_hidden(n: nat)
    requires
        n >= 1,
    ensures
        mode_after("hidden"@, n) == mode_cycle()[((n - 1) % 3) as int],
        n % 3 == 0 ==> mode_after("hidden"@, n) == "hidden"@,
    decreases n,
{
    reveal_strlit("hidden");
    reveal_strlit("sidebar");
    reveal_strlit("window");
    assert("hidden"@.len() == 6);
    assert("sidebar"@.len() == 7);
    assert("hidden"@[0] == 'h');
    assert("window"@[0] == 'w');
    assert("hidden"@ != "sidebar"@);
    assert("sidebar"@ != "window"@);
    assert("window"@ != "hidden"@);
    if n == 1 {
        assert(mode_after("hidden"@, 0) == "hidden"@);
        assert(mode_after("hidden"@, 1) == spec_next_mode("hidden"@));
    } else {
        lemma_toggle_cycle_from_hidden((n - 1) as nat);
        assert((n - 1) % 3 == ((n - 2) % 3 + 1) % 3) by (nonlinear_arith)
            requires
                n >= 2,
        ;
    }
    if n % 3 == 0 {
        assert((n - 1) % 3 == 2) by (nonlinear_arith)
            requires
                n >= 1 && n % 3 == 0,
        ;
    }
}

} // verus!
