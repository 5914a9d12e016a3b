//! Concrete checks of the run decisions, the key handling and the bus and system laws.

use ps_core::bus::memory_bus::MemoryBus;
use ps_core::bus::Bus;
use ps_core::controller::Controller;
use ps_core::dma::DmaController;
use ps_core::gpu::Gpu;
use ps_core::intc::InterruptController;
use ps_core::ram::Ram;
use ps_core::frontend::{handle_key, window_size, KEY_ESCAPE};
use ps_core::gpu::vram::{bgr555_to_rgb888, rgb888_to_bgr555};
use ps_core::headless::{next_batch_cycles, reports_pass, run_finished, summarize};
use ps_core::system::PS1System;

#[test]
fn test_next_batch_cycles_limits() {
    assert_eq!(next_batch_cycles(0, 15_000), 10_000);
    assert_eq!(next_batch_cycles(10_000, 15_000), 5_000);
    assert_eq!(next_batch_cycles(0, u64::MAX), 10_000);
    // What is left is taken modulo 2^32, as the batch counter is 32 bits wide.
    assert_eq!(next_batch_cycles(1, 1 + (1u64 << 32)), 0);
    assert_eq!(next_batch_cycles(0, (1u64 << 32) + 7), 7);
}

#[test]
fn test_run_finished_markers() {
    assert!(run_finished(b"boot\nDone\n", 0, 4));
    assert!(run_finished(b"Done\r\n", 0, 4));
    assert!(run_finished(b"Done.\n", 0, 4));
    assert!(run_finished(b"x Done.\r\n", 0, 4));
    assert!(run_finished(b"All tests done: 00000000\n", 0, 4));
    assert!(run_finished(b"All tests done: 00000000\r\n", 0, 4));
    assert!(!run_finished(b"Done", 0, 4));
    assert!(!run_finished(b"All tests done: 00000001\n", 0, 4));
    assert!(!run_finished(b"", 0, 4));
    assert!(run_finished(b"", 0x8000_0000, 0x8000_0000));
}

#[test]
fn test_reports_pass_texts() {
    assert!(reports_pass(b"CPU: PASS"));
    assert!(reports_pass(b"101/101 FAIL"));
    assert!(reports_pass(b"All tests done: 00000000"));
    assert!(reports_pass(b"nothing to see"));
    assert!(reports_pass(b""));
    assert!(!reports_pass(b"add FAIL"));
    assert!(!reports_pass(b"error @ 0x80010000"));
}

#[test]
fn test_window_size_modes() {
    assert_eq!(window_size("vram_debug"), (1024, 512));
    assert_eq!(window_size("windowed"), (640, 480));
    assert_eq!(window_size(""), (640, 480));
}

#[test]
fn test_handle_key_press_release_and_quit() {
    let mut pad = Controller::new();
    assert!(handle_key(&mut pad, KEY_ESCAPE, true));
    assert_eq!(pad.button_state, 0xFFFF);
    assert!(!handle_key(&mut pad, KEY_ESCAPE, false));
    assert!(!handle_key(&mut pad, 0x7A, true)); // 'z' presses Cross (bit 14)
    assert_eq!(pad.button_state, 0xFFFF & !(1 << 14));
    assert!(!handle_key(&mut pad, 0x4000_003A, true)); // F1 is not mapped
    assert_eq!(pad.button_state, 0xFFFF & !(1 << 14));
    assert!(!handle_key(&mut pad, 0x7A, false));
    assert_eq!(pad.button_state, 0xFFFF);
}

#[test]
fn test_summary_of_fresh_system() {
    let mut sys = PS1System::new();
    let s = summarize(&sys);
    assert_eq!(s.total_cycles, 0);
    assert_eq!(s.instruction_count, 0);
    assert_eq!(s.tty_output, "");
    sys.bus.log_tty_char(b'o');
    sys.bus.log_tty_char(b'k');
    sys.total_cycles = 12;
    let s = summarize(&sys);
    assert_eq!(s.tty_output, "ok");
    assert_eq!(s.instruction_count, 12);
}

#[test]
fn test_tty_invalid_utf8_is_replaced() {
    let mut bus = MemoryBus::default_bus();
    bus.log_tty_char(b'A');
    bus.log_tty_char(0xFF);
    bus.log_tty_char(b'B');
    assert_eq!(bus.get_tty_string(), "A\u{FFFD}B");
}

#[test]
fn test_ram_write_reads_back_through_aliases_and_mirrors() {
    let mut bus = MemoryBus::default_bus();
    bus.write32(0x8000_1000, 0xDEAD_BEEF);
    assert_eq!(bus.read32(0x0000_1000), 0xDEAD_BEEF);
    assert_eq!(bus.read32(0xA000_1000), 0xDEAD_BEEF);
    assert_eq!(bus.read32(0x8060_1000), 0xDEAD_BEEF);
    assert_eq!(bus.read32(0x8000_1004), 0);
    assert_eq!(bus.read32(0x8000_0FFC), 0);
}

#[test]
fn test_rom_ignores_writes() {
    let mut bus = MemoryBus::default_bus();
    let before = bus.read32(0xBFC0_0000);
    bus.write32(0xBFC0_0000, 0x1234_5678);
    bus.write16(0xBFC0_0004, 0x1234);
    bus.write8(0xBFC0_0008, 0x12);
    assert_eq!(bus.read32(0xBFC0_0000), before);
    assert_eq!(bus.read16(0xBFC0_0004), 0);
    assert_eq!(bus.read8(0xBFC0_0008), 0);
}

#[test]
fn test_scratchpad_write_reads_back() {
    let mut bus = MemoryBus::default_bus();
    bus.write32(0x1F80_0010, 0x0102_0304);
    assert_eq!(bus.read32(0x9F80_0010), 0x0102_0304);
    assert_eq!(bus.read8(0x1F80_0010), 0x04);
}

#[test]
fn test_bios_image_too_large_message() {
    let mut sys = PS1System::new();
    let image = vec![0u8; 0x80001];
    assert_eq!(
        sys.load_bios_bytes(&image),
        Err("BIOS image too large: 524289 bytes (max 512KB)".to_string())
    );
    let image = vec![0xAAu8; 0x10];
    assert_eq!(sys.load_bios_bytes(&image), Ok(()));
    assert_eq!(sys.bus.bios.data[0xF], 0xAA);
    assert_eq!(sys.bus.bios.data[0x10], 0);
}

#[test]
fn test_color_round_trip() {
    let c = rgb888_to_bgr555(0xF8, 0x80, 0x08);
    assert_eq!(bgr555_to_rgb888(c), (0xF8, 0x80, 0x08));
    let c = rgb888_to_bgr555(0xFF, 0x7F, 0x01);
    assert_eq!(bgr555_to_rgb888(c), (0xF8, 0x78, 0x00));
    assert_eq!(rgb888_to_bgr555(bgr555_to_rgb888(0x7FFF).0, 0xF8, 0xF8), 0x7FFF);
}

#[test]
fn test_step_then_batch_counts_cycles() {
    let mut sys = PS1System::new();
    sys.step_batch(3);
    sys.step_batch(4);
    assert_eq!(sys.total_cycles, 7);
}

#[test]
fn test_uart_writes_go_to_tty() {
    let mut bus = MemoryBus::default_bus();
    bus.write8(0x1F80_1050, b'H');
    bus.write8(0xBF80_1050, b'i');
    bus.write32(0x1F80_1050, 0x0000_0A21);
    bus.write16(0x9F80_1050, 0x0A);
    assert_eq!(bus.get_tty_string(), "Hi!\n");
    bus.write8(0x1F80_1051, b'x');
    assert_eq!(bus.tty_output.len(), 4);
}

#[test]
fn test_dma_step_per_channel_completion() {
    let mut dma = DmaController::new();
    let mut ram = Ram::new();
    let mut gpu = Gpu::new();
    let mut intc = InterruptController::new();
    dma.dpcr |= (1 << (2 * 4 + 3)) | (1 << (6 * 4 + 3));
    dma.channels[2].madr = 0x1000;
    dma.channels[2].bcr = 2;
    dma.channels[2].chcr = (1 << 24) | 1;
    dma.channels[6].madr = 0x2000;
    dma.channels[6].bcr = 3;
    dma.channels[6].chcr = (1 << 24) | 2;
    dma.channels[0].chcr = 1 << 24; // not enabled in DPCR
    let dpcr = dma.dpcr;
    assert!(dma.step_dma(&mut ram, &mut gpu, &mut intc));
    assert_eq!(dma.channels[2].chcr, 1);
    assert_eq!(dma.channels[6].chcr, 2);
    assert_eq!(dma.channels[2].bcr, 2);
    assert_eq!(dma.channels[0].chcr, 1 << 24);
    assert_ne!(dma.dicr & (1 << 26), 0);
    assert_ne!(dma.dicr & (1 << 30), 0);
    assert_eq!(dma.dicr & (1 << 24), 0);
    assert_eq!(dma.dpcr, dpcr);
    assert!(!dma.has_active_transfer());
}
