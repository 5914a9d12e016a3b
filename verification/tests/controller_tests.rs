//! Pad register reads after presses and releases.

use ps_core::controller::{Controller, PadButton};

#[test]
fn test_controller_initial_state_active_low() {
    let ctrl = Controller::new();
    assert_eq!(ctrl.button_state, 0xFFFF);
    assert_eq!(ctrl.read16(0x1F80_1040), 0xFFFF);
    assert_eq!(ctrl.read8(0x1F80_1040), 0xFF);
    assert_eq!(ctrl.read8(0x1F80_1041), 0xFF);
}

#[test]
fn test_controller_button_press_and_release() {
    let mut ctrl = Controller::new();
    ctrl.set_button(PadButton::Cross, true);
    assert_eq!(ctrl.read16(0x1F80_1040) & (1 << 14), 0);

    ctrl.set_button(PadButton::Start, true);
    assert_eq!(ctrl.read16(0x1F80_1040) & (1 << 3), 0);

    ctrl.set_button(PadButton::Cross, false);
    assert_eq!(ctrl.read16(0x1F80_1040) & (1 << 14), 1 << 14);
    assert_eq!(ctrl.read16(0x1F80_1040) & (1 << 3), 0);
}
