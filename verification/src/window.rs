use vstd::prelude::*;

verus! {

/// How long after the flyout hid itself a click on the tray icon does not
/// bring it back (the click that took the focus away is the same click).
pub const REOPEN_GRACE_MS: u128 = 400;

/// The flyout window as the tray host knows it: the handle of the window once
/// it exists, and whether an opening has been claimed and is under way.
pub struct FlyoutSlot {
    flyout: Option<isize>,
    opening: bool,
}

/// The slot's state: the window's handle, if any, and the opening flag.
pub type SlotState = (Option<isize>, bool);

impl View for FlyoutSlot {
    type V = SlotState;

    closed spec fn view(&self) -> SlotState {
        (self.flyout, self.opening)
    }
}

/// What a click on the tray icon does to the flyout.
#[derive(Clone, Copy, Debug, PartialEq, Eq, Structural)]
pub enum ToggleAction {
    /// Slide the visible flyout away.
    Hide(isize),
    /// Show the hidden flyout again.
    Show(isize),
    /// Open a new flyout window (this click claimed the opening).
    Open,
    /// Nothing: the flyout just hid itself, or an opening is under way.
    Nothing,
}

/// The window with this handle now exists; no opening is under way.
pub open spec fn after_publish(s: SlotState, raw: isize) -> SlotState {
    (Some(raw), false)
}

/// Claiming the opening succeeds only when none is under way, and leaves one
/// under way.
pub open spec fn after_claim(s: SlotState) -> (SlotState, bool) {
    ((s.0, true), !s.1)
}

/// The window with this handle is gone: the slot forgets it if it is the one
/// it holds, and no opening is under way.
pub open spec fn after_retire(s: SlotState, raw: isize) -> SlotState {
    (if s.0 == Some(raw) { None } else { s.0 }, false)
}

/// A click on the tray icon, given whether the held window is visible and
/// whether it hid itself within the grace period.
pub open spec fn after_toggle(s: SlotState, visible: bool, hidden_recently: bool) -> (SlotState, ToggleAction) {
    match s.0 {
        Some(h) => (
            s,
            if visible {
                ToggleAction::Hide(h)
            } else if hidden_recently {
                ToggleAction::Nothing
            } else {
                ToggleAction::Show(h)
            },
        ),
        None => {
            let (next, claimed) = after_claim(s);
            (next, if claimed { ToggleAction::Open } else { ToggleAction::Nothing })
        },
    }
}

impl FlyoutSlot {
    pub fn new() -> (slot: Self)
        ensures
            slot@ == (None::<isize>, false),
    {
        FlyoutSlot { flyout: None, opening: false }
    }

    /// The handle of the flyout window, if it exists.
    pub fn flyout_hwnd(&self) -> (h: Option<isize>)
        ensures
            h == self@.0,
    {
        self.flyout
    }

    pub fn publish_flyout(&mut self, raw: isize)
        ensures
            final(self)@ == after_publish(old(self)@, raw),
    {
        self.flyout = Some(raw);
        self.opening = false;
    }

    /// Claims the opening of the flyout; true when this caller got it.
    pub fn claim_flyout_open(&mut self) -> (claimed: bool)
        ensures
            (final(self)@, claimed) == after_claim(old(self)@),
    {
        let was = self.opening;
        self.opening = true;
        !was
    }

    pub fn retire_flyout(&mut self, raw: isize)
        ensures
            final(self)@ == after_retire(old(self)@, raw),
    {
        if self.flyout == Some(raw) {
            self.flyout = None;
        }
        self.opening = false;
    }

    /// Decides what a click on the tray icon does. `visible` and
    /// `hidden_recently` speak of the held window and matter only when there is
    /// one; without one the click claims the opening.
    pub fn toggle_flyout(&mut self, visible: bool, hidden_recently: bool) -> (action: ToggleAction)
        ensures
            (final(self)@, action) == after_toggle(old(self)@, visible, hidden_recently),
    {
        match self.flyout {
            Some(h) => {
                if visible {
                    ToggleAction::Hide(h)
                } else if hidden_recently {
                    ToggleAction::Nothing
                } else {
                    ToggleAction::Show(h)
                }
            },
            None => {
                if self.claim_flyout_open() {
                    ToggleAction::Open
                } else {
                    ToggleAction::Nothing
                }
            },
        }
    }
}

/// Whether the flyout hid itself less than `grace_ms` ago; `hidden_for_ms` is
/// the time since it last hid, if it ever did.
pub fn flyout_hidden_within(hidden_for_ms: Option<u128>, grace_ms: u128) -> (res: bool)
    ensures
        res == (match hidden_for_ms {
            Some(ms) => ms < grace_ms,
            None => false,
        }),
{
    match hidden_for_ms {
        Some(ms) => ms < grace_ms,
        None => false,
    }
}

/// Only one opening can be claimed at a time: of two claims in a row, the
/// second fails.
pub proof fn law_claim_is_exclusive(s: SlotState)
    ensures
        !after_claim(after_claim(s).0).1,
{
}

/// Publishing a window and then retiring that same window leaves the slot empty
/// and free for a new opening.
pub proof fn law_publish_then_retire(s: SlotState, raw: isize)
    ensures
        after_retire(after_publish(s, raw), raw) == (None::<isize>, false),
        after_claim(after_retire(after_publish(s, raw), raw)).1,
{
}

/// Retiring a window other than the held one keeps the held one.
pub proof fn law_retire_other_keeps(s: SlotState, raw: isize, other: isize)
    requires
        raw != other,
    ensures
        after_retire(after_publish(s, raw), other).0 == Some(raw),
{
}

/// Two clicks while no window exists open it once: the first click opens, the
/// second does nothing until the window is published or retired.
pub proof fn law_toggle_opens_once(s: SlotState, v1: bool, r1: bool, v2: bool, r2: bool)
    requires
        s.0 is None,
    ensures
        after_toggle(after_toggle(s, v1, r1).0, v2, r2).1 == ToggleAction::Nothing,
        after_toggle(s, v1, r1).1 == ToggleAction::Open <==> !s.1,
{
}

/// A click never changes which window the slot holds.
pub proof fn law_toggle_keeps_window(s: SlotState, visible: bool, hidden_recently: bool)
    ensures
        after_toggle(s, visible, hidden_recently).0.0 == s.0,
{
}

} // verus!
