use lumitray::window::{flyout_hidden_within, FlyoutSlot, ToggleAction, REOPEN_GRACE_MS};

#[test]
fn opening_is_claimed_once() {
    let mut slot = FlyoutSlot::new();
    assert!(slot.claim_flyout_open());
    assert!(!slot.claim_flyout_open());
    slot.publish_flyout(42);
    assert_eq!(slot.flyout_hwnd(), Some(42));
    assert!(slot.claim_flyout_open());
}

#[test]
fn retire_clears_only_the_held_window() {
    let mut slot = FlyoutSlot::new();
    slot.publish_flyout(7);
    slot.retire_flyout(8);
    assert_eq!(slot.flyout_hwnd(), Some(7));
    slot.retire_flyout(7);
    assert_eq!(slot.flyout_hwnd(), None);
    assert!(slot.claim_flyout_open());
}

#[test]
fn clicks_toggle_the_flyout() {
    let mut slot = FlyoutSlot::new();
    assert_eq!(slot.toggle_flyout(false, false), ToggleAction::Open);
    assert_eq!(slot.toggle_flyout(false, false), ToggleAction::Nothing);
    slot.publish_flyout(5);
    assert_eq!(slot.toggle_flyout(true, false), ToggleAction::Hide(5));
    assert_eq!(slot.toggle_flyout(false, true), ToggleAction::Nothing);
    assert_eq!(slot.toggle_flyout(false, false), ToggleAction::Show(5));
    assert_eq!(slot.flyout_hwnd(), Some(5));
}

#[test]
fn reopen_grace() {
    assert!(flyout_hidden_within(Some(399), REOPEN_GRACE_MS));
    assert!(!flyout_hidden_within(Some(400), REOPEN_GRACE_MS));
    assert!(!flyout_hidden_within(None, REOPEN_GRACE_MS));
}
