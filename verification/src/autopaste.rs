//! The focus auto-paste trigger: a process-wide flag mirroring
//! `auto_paste_on_focus`, checked lock-free on every surface focus
//! transition, plus the queue of delayed pastes it has scheduled.  Scheduled
//! pastes are never cancelled: disabling the flag only stops new ones.

use vstd::prelude::*;

use crate::text::str_eq;

verus! {

/// Delay between a surface gaining focus and the paste being issued,
/// absorbing focus-transition jitter.
pub const PASTE_DELAY_MS: u64 = 150;

/// One delayed paste, due `delay_ms` after it was scheduled, into the
/// surface named `target` if that surface is still resolvable then.
pub struct PendingPaste {
    pub target: String,
    pub delay_ms: u64,
}

/// Mathematical image of a [`PendingPaste`].
#[verifier::ext_equal]
pub struct PendingPasteView {
    pub target: Seq<char>,
    pub delay_ms: u64,
}

impl View for PendingPaste {
    type V = PendingPasteView;

    open spec fn view(&self) -> PendingPasteView {
        PendingPasteView { target: self.target@, delay_ms: self.delay_ms }
    }
}

/// Mathematical image of the trigger: the mirrored flag and the pastes
/// scheduled but not yet fired, oldest first.
#[verifier::ext_equal]
pub struct TriggerView {
    pub enabled: bool,
    pub pending: Seq<PendingPasteView>,
}

/// The trigger state.  `enabled` deliberately duplicates the store's
/// `auto_paste_on_focus` so the focus hot path reads it without the
/// settings lock; [`AutoPasteTrigger::set_enabled`] is the one place it is
/// written.
pub struct AutoPasteTrigger {
    enabled: bool,
    pending: Vec<PendingPaste>,
}

impl View for AutoPasteTrigger {
    type V = TriggerView;

    closed spec fn view(&self) -> TriggerView {
        TriggerView { enabled: self.enabled, pending: self.pending@.map_values(|p: PendingPaste| p@) }
    }
}

/// The trigger state after a focus event: a paste into `label` joins the
/// queue exactly when the flag is on and the surface is not the settings
/// surface.
pub open spec fn spec_on_focus(t: TriggerView, label: Seq<char>) -> TriggerView {
    if t.enabled && label != "settings"@ {
        TriggerView {
            enabled: t.enabled,
            pending: t.pending.push(PendingPasteView { target: label, delay_ms: PASTE_DELAY_MS }),
        }
    } else {
        t
    }
}

/// The trigger state after the flag is rewritten: the queue is untouched.
pub open spec fn spec_set_enabled(t: TriggerView, on: bool) -> TriggerView {
    TriggerView { enabled: on, pending: t.pending }
}

impl AutoPasteTrigger {
    pub fn new(enabled: bool) -> (t: Self)
        ensures
            t@ == (TriggerView { enabled, pending: Seq::<PendingPasteView>::empty() }),
    {
        let t = AutoPasteTrigger { enabled, pending: Vec::new() };
        proof {
            assert(t@.pending =~= Seq::<PendingPasteView>::empty());
            assert(t@ =~= TriggerView { enabled, pending: Seq::<PendingPasteView>::empty() });
        }
        t
    }

    /// Read the mirrored flag (the lock-free hot-path check).
    pub fn is_enabled(&self) -> (r: bool)
        ensures
            r == self@.enabled,
    {
        self.enabled
    }

    /// Rewrite the mirrored flag.  Pastes already scheduled stay scheduled.
    pub fn set_enabled(&mut self, on: bool)
        ensures
            final(self)@ == spec_set_enabled(old(self)@, on),
    {
        self.enabled = on;
        proof {
            assert(self@ =~= spec_set_enabled(old(self)@, on));
        }
    }

    /// A surface gained focus: schedule a delayed paste into it when the
    /// flag is on and it is not the settings surface.  Rapid refocusing
    /// schedules multiple independent pastes; nothing is de-duplicated.
    pub fn on_focus(&mut self, label: &str) -> (scheduled: bool)
        ensures
            final(self)@ == spec_on_focus(old(self)@, label@),
            scheduled == (old(self)@.enabled && label@ != "settings"@),
    {
        if self.enabled && !str_eq(label, "settings") {
            self.pending.push(PendingPaste { target: label.to_owned(), delay_ms: PASTE_DELAY_MS });
            proof {
                assert(self@.pending =~= spec_on_focus(old(self)@, label@).pending);
                assert(self@ =~= spec_on_focus(old(self)@, label@));
            }
            true
        } else {
            false
        }
    }

    /// Hand out the oldest scheduled paste for firing.  Whether the flag is
    /// still on plays no part: a paste in the queue fires regardless.
    pub fn take_due(&mut self) -> (r: Option<PendingPaste>)
        ensures
            old(self)@.pending.len() == 0 ==> r is None && final(self)@ == old(self)@,
            old(self)@.pending.len() > 0 ==> (r matches Some(p) && p@ == old(self)@.pending[0]
                && final(self)@.pending == old(self)@.pending.drop_first() && final(self)@.enabled
                == old(self)@.enabled),
    {
        if self.pending.len() == 0 {
            proof {
                assert(self@ =~= old(self)@);
            }
            None
        } else {
            let p = self.pending.remove(0);
            proof {
                assert(self@.pending =~= old(self)@.pending.drop_first());
            }
            Some(p)
        }
    }
}

/// Toggling auto-paste off before a scheduled delayed paste fires does not
/// cancel it: disabling the flag after a focus event that scheduled a paste
/// leaves that paste in the queue, due for its target with the fixed delay.
pub proof fn lemma_disable_does_not_cancel(t: TriggerView, label: Seq<char>)
    requires
        t.enabled,
        label != "settings"@,
    ensures
        ({
            let after = spec_set_enabled(spec_on_focus(t, label), false);
            &&& after.pending.len() == t.pending.len() + 1
            &&& after.pending.last() == (PendingPasteView {
                target: label,
                delay_ms: PASTE_DELAY_MS,
            })
            &&& !after.enabled
        }),
{
}

} // verus!
