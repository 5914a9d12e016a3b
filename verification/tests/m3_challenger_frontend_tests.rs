//! Controller active-low bit manipulation across all 16 pad buttons, and the pad's I/O
//! register at 0x1F80_1040 read as byte, halfword and word.

use ps_core::bus::Bus;
use ps_core::controller::{Controller, PadButton};
use ps_core::headless::{next_batch_cycles, run_finished, summarize, HeadlessSummary};
use ps_core::system::PS1System;

// ============================================================================
// 1. Controller Active-Low Bit Manipulation Across All 16 PadButton Variants
// ============================================================================

#[test]
fn test_controller_all_16_pad_buttons_individual_bit_masks() {
    let buttons = [
        (PadButton::Select, 0, 1u16 << 0),
        (PadButton::L3, 1, 1u16 << 1),
        (PadButton::R3, 2, 1u16 << 2),
        (PadButton::Start, 3, 1u16 << 3),
        (PadButton::Up, 4, 1u16 << 4),
        (PadButton::Right, 5, 1u16 << 5),
        (PadButton::Down, 6, 1u16 << 6),
        (PadButton::Left, 7, 1u16 << 7),
        (PadButton::L2, 8, 1u16 << 8),
        (PadButton::R2, 9, 1u16 << 9),
        (PadButton::L1, 10, 1u16 << 10),
        (PadButton::R1, 11, 1u16 << 11),
        (PadButton::Triangle, 12, 1u16 << 12),
        (PadButton::Circle, 13, 1u16 << 13),
        (PadButton::Cross, 14, 1u16 << 14),
        (PadButton::Square, 15, 1u16 << 15),
    ];

    assert_eq!(buttons.len(), 16, "Must cover all 16 PadButton variants");

    for (button, bit_idx, expected_mask) in buttons {
        // 1. Verify bit_mask() calculation
        let mask = button.bit_mask();
        assert_eq!(
            mask, expected_mask,
            "PadButton {button:?} bit_mask must be 1 << {bit_idx}"
        );

        // 2. Initial state must be 0xFFFF (active low, released)
        let mut ctrl = Controller::new();
        assert_eq!(ctrl.button_state, 0xFFFF);

        // 3. Press button -> bit cleared (active low 0)
        ctrl.set_button(button, true);
        assert_eq!(
            ctrl.button_state & mask,
            0,
            "Bit {bit_idx} for {button:?} must be 0 when pressed"
        );
        assert_eq!(
            ctrl.button_state, !mask,
            "Only bit {bit_idx} for {button:?} should be cleared when pressed"
        );

        // 4. Release button -> bit set back to 1
        ctrl.set_button(button, false);
        assert_eq!(
            ctrl.button_state, 0xFFFF,
            "Button state must return to 0xFFFF after release of {button:?}"
        );
    }
}

#[test]
fn test_controller_multi_button_simultaneous_presses() {
    let mut ctrl = Controller::new();

    // Press D-Pad Up (bit 4) + Right (bit 5) + Action Cross (bit 14) + Triangle (bit 12) + Start (bit 3)
    let combo = [
        PadButton::Up,
        PadButton::Right,
        PadButton::Cross,
        PadButton::Triangle,
        PadButton::Start,
    ];

    let mut combined_mask: u16 = 0;
    for &btn in &combo {
        ctrl.set_button(btn, true);
        combined_mask |= btn.bit_mask();
    }

    let expected_state = !combined_mask;
    assert_eq!(
        ctrl.button_state, expected_state,
        "Multi-button press state 0x{:04X} does not match expected 0x{:04X}",
        ctrl.button_state, expected_state
    );

    // Press ALL 16 buttons simultaneously
    let all_buttons = [
        PadButton::Select,
        PadButton::L3,
        PadButton::R3,
        PadButton::Start,
        PadButton::Up,
        PadButton::Right,
        PadButton::Down,
        PadButton::Left,
        PadButton::L2,
        PadButton::R2,
        PadButton::L1,
        PadButton::R1,
        PadButton::Triangle,
        PadButton::Circle,
        PadButton::Cross,
        PadButton::Square,
    ];

    for &btn in &all_buttons {
        ctrl.set_button(btn, true);
    }
    assert_eq!(
        ctrl.button_state, 0x0000,
        "All 16 buttons pressed simultaneously must yield 0x0000"
    );

    // Release half of the buttons (Select, Start, Up, Down, L1, R1, Triangle, Cross)
    let release_half = [
        PadButton::Select,
        PadButton::Start,
        PadButton::Up,
        PadButton::Down,
        PadButton::L1,
        PadButton::R1,
        PadButton::Triangle,
        PadButton::Cross,
    ];

    for &btn in &release_half {
        ctrl.set_button(btn, false);
    }

    let mut released_mask: u16 = 0;
    for &btn in &release_half {
        released_mask |= btn.bit_mask();
    }
    assert_eq!(
        ctrl.button_state, released_mask,
        "Partial release state 0x{:04X} does not match expected 0x{:04X}",
        ctrl.button_state, released_mask
    );
}

#[test]
fn test_controller_bitwise_or_and_mask_operations() {
    let mut ctrl = Controller::new();

    // Verify bitwise OR mask combinations
    let mask_l1 = PadButton::L1.bit_mask();
    let mask_r1 = PadButton::R1.bit_mask();
    let mask_l2 = PadButton::L2.bit_mask();
    let mask_r2 = PadButton::R2.bit_mask();

    let shoulder_mask = mask_l1 | mask_r1 | mask_l2 | mask_r2;

    // Press all 4 shoulder buttons
    ctrl.set_button(PadButton::L1, true);
    ctrl.set_button(PadButton::R1, true);
    ctrl.set_button(PadButton::L2, true);
    ctrl.set_button(PadButton::R2, true);

    assert_eq!(ctrl.button_state & shoulder_mask, 0);
    assert_eq!(ctrl.button_state, !shoulder_mask);

    // Release L1 and R2 using bitwise mask assertions
    ctrl.set_button(PadButton::L1, false);
    ctrl.set_button(PadButton::R2, false);

    assert_eq!(ctrl.button_state & mask_l1, mask_l1, "L1 must be released");
    assert_eq!(ctrl.button_state & mask_r2, mask_r2, "R2 must be released");
    assert_eq!(ctrl.button_state & mask_r1, 0, "R1 must remain pressed");
    assert_eq!(ctrl.button_state & mask_l2, 0, "L2 must remain pressed");
}

#[test]
fn test_controller_button_toggles_rapid_cycles() {
    let mut ctrl = Controller::new();

    let toggle_buttons = [
        PadButton::Cross,
        PadButton::Square,
        PadButton::Circle,
        PadButton::Triangle,
        PadButton::Up,
        PadButton::Down,
        PadButton::Left,
        PadButton::Right,
    ];

    // Rapid toggle loop 100 iterations of press & release
    for _ in 0..100 {
        for &btn in &toggle_buttons {
            ctrl.set_button(btn, true);
            assert_eq!(
                ctrl.button_state & btn.bit_mask(),
                0,
                "Button {btn:?} should be pressed (active-low bit 0)"
            );
            ctrl.set_button(btn, false);
            assert_eq!(
                ctrl.button_state & btn.bit_mask(),
                btn.bit_mask(),
                "Button {btn:?} should be released (bit 1)"
            );
        }
    }

    assert_eq!(
        ctrl.button_state, 0xFFFF,
        "Final button state after toggles must be 0xFFFF"
    );
}

// ============================================================================
// 2. IO Register 0x1F80_1040 Reads (read8, read16, read32) & Address Aliasing
// ============================================================================

#[test]
fn test_io_register_0x1f80_1040_read8_read16_read32_active_combinations() {
    let mut system = PS1System::new();

    // Default status: 0xFFFF for 16-bit, 0xFF for lower/upper 8-bit, 0x0000_FFFF for 32-bit
    assert_eq!(system.bus.read8(0x1F80_1040), 0xFF);
    assert_eq!(system.bus.read8(0x1F80_1041), 0xFF);
    assert_eq!(system.bus.read16(0x1F80_1040), 0xFFFF);
    assert_eq!(system.bus.read32(0x1F80_1040), 0x0000_FFFF);

    // Test KSEG0 (0x9F80_1040) and KSEG1 (0xBF80_1040) aliased reads
    assert_eq!(system.bus.read16(0x9F80_1040), 0xFFFF);
    assert_eq!(system.bus.read32(0xBF80_1040), 0x0000_FFFF);

    // Press Up (bit 4, lower byte) and Triangle (bit 12, upper byte) and Square (bit 15, upper byte)
    system.bus.controller.set_button(PadButton::Up, true);
    system.bus.controller.set_button(PadButton::Triangle, true);
    system.bus.controller.set_button(PadButton::Square, true);

    // Lower byte (0x1F80_1040): 0xFF & !(1 << 4) = 0xEF
    // Upper byte (0x1F80_1041): 0xFF & !((1 << 12 | 1 << 15) >> 8) = 0xFF & !(0x10 | 0x80) = 0xFF & !0x90 = 0x6F
    // 16-bit word (0x1F80_1040): 0x6FEF
    // 32-bit dword (0x1F80_1040): 0x0000_6FEF

    let read_b0 = system.bus.read8(0x1F80_1040);
    let read_b1 = system.bus.read8(0x1F80_1041);
    let read_w = system.bus.read16(0x1F80_1040);
    let read_dw = system.bus.read32(0x1F80_1040);

    assert_eq!(read_b0, 0xEF, "read8(0x1F80_1040) must be 0xEF");
    assert_eq!(read_b1, 0x6F, "read8(0x1F80_1041) must be 0x6F");
    assert_eq!(read_w, 0x6FEF, "read16(0x1F80_1040) must be 0x6FEF");
    assert_eq!(
        read_dw, 0x0000_6FEF,
        "read32(0x1F80_1040) must be 0x0000_6FEF"
    );

    // KSEG0/KSEG1 virtual address bus reads
    assert_eq!(system.bus.read16(0x9F80_1040), 0x6FEF);
    assert_eq!(system.bus.read32(0xBF80_1040), 0x0000_6FEF);

    // Release Up button
    system.bus.controller.set_button(PadButton::Up, false);
    assert_eq!(system.bus.read8(0x1F80_1040), 0xFF);
    assert_eq!(system.bus.read16(0x1F80_1040), 0x6FFF);
    assert_eq!(system.bus.read32(0x1F80_1040), 0x0000_6FFF);
}

#[test]
fn test_io_register_0x1f80_1044_joy_stat_reads() {
    let mut system = PS1System::new();

    // JOY_STAT (0x1F80_1044) returns 0x05 (RX FIFO Not Empty / TX Ready)
    assert_eq!(system.bus.read8(0x1F80_1044), 0x05);
    assert_eq!(system.bus.read16(0x1F80_1044), 0x0005);
    assert_eq!(system.bus.read32(0x1F80_1044), 0x0000_0005);

    // KSEG0 and KSEG1 aliased reads
    assert_eq!(system.bus.read16(0x9F80_1044), 0x0005);
    assert_eq!(system.bus.read32(0xBF80_1044), 0x0000_0005);
}

// ============================================================================
// 3. Headless execution: cycle limits
// ============================================================================

/// Runs a fresh system headless up to `max_cycles`, in the batches and with the stop test
/// that the library decides.
fn run_headless(max_cycles: Option<u64>) -> HeadlessSummary {
    let mut system = PS1System::new();
    let limit = max_cycles.unwrap_or(u64::MAX);
    while system.total_cycles < limit {
        let cycles_to_run = next_batch_cycles(system.total_cycles, limit);
        system.step_batch(cycles_to_run);
        if run_finished(&system.bus.tty_output, system.cpu.pc, system.cpu.next_pc) {
            break;
        }
    }
    summarize(&system)
}

#[test]
fn test_headless_runner_cycle_limit_precision() {
    // Case 1: max_cycles = Some(15_000)
    let summary = run_headless(Some(15_000));
    assert!(
        summary.total_cycles >= 15_000 && summary.total_cycles <= 15_000 + 10_000,
        "Total cycles ({}) must stop precisely within batch step boundary of 15,000",
        summary.total_cycles
    );

    // Case 2: max_cycles = Some(50_000)
    let summary2 = run_headless(Some(50_000));
    assert!(
        summary2.total_cycles >= 50_000 && summary2.total_cycles <= 50_000 + 10_000,
        "Total cycles ({}) must stop precisely within batch step boundary of 50,000",
        summary2.total_cycles
    );

    // Case 3: max_cycles = Some(0)
    let summary0 = run_headless(Some(0));
    assert_eq!(
        summary0.total_cycles, 0,
        "max_cycles = 0 must execute 0 cycles"
    );
}
