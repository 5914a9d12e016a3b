//! DMA block, linked-list and ordering-table transfers.

use ps_core::dma::DmaController;
use ps_core::gpu::Gpu;
use ps_core::intc::InterruptController;
use ps_core::ram::Ram;

#[test]
fn test_dma_mode0_single_block() {
    let mut dma = DmaController::new();
    let mut ram = Ram::new();
    let mut gpu = Gpu::new();
    let mut intc = InterruptController::new();

    // Enable Ch2 (GPU) in DPCR
    dma.dpcr |= 1 << (2 * 4 + 3);

    // Setup Ch2 MADR = 0x1000, BCR = 4 words, CHCR = 0x01000200 (Mode 0, Trigger, RAM->GPU)
    dma.channels[2].madr = 0x1000;
    dma.channels[2].bcr = 4;
    dma.channels[2].chcr = (1 << 24) | 1; // Trigger bit + SyncMode 0 + From RAM

    let executed = dma.step_dma(&mut ram, &mut gpu, &mut intc);
    assert!(executed);
    assert_eq!(dma.channels[2].madr, 0x1010);
    assert!(!dma.channels[2].is_trigger_set());
}

#[test]
fn test_dma_ch2_linked_list() {
    let mut dma = DmaController::new();
    let mut ram = Ram::new();
    let mut gpu = Gpu::new();
    let mut intc = InterruptController::new();

    // Enable Ch2 in DPCR
    dma.dpcr |= 1 << (2 * 4 + 3);

    // Write linked list into RAM:
    // Header at 0x1000: 2 words payload, next = 0x2000 => (2 << 24) | 0x2000
    // Words at 0x1004, 0x1008
    // Header at 0x2000: 1 word payload, next = 0x00FFFFFF (end)
    // Word at 0x2004
    ram.write32(0x1000, (2 << 24) | 0x2000);
    ram.write32(0x1004, 0xE1000000); // GP0 Command: Draw Mode
    ram.write32(0x1008, 0xE2000000); // GP0 Command: Texture Window
    ram.write32(0x2000, (1 << 24) | 0x00FF_FFFF);
    ram.write32(0x2004, 0xE3000000); // GP0 Command: Drawing Area Top-Left

    dma.channels[2].madr = 0x1000;
    dma.channels[2].chcr = (1 << 24) | (2 << 9); // Trigger + SyncMode 2 (Linked List)

    let executed = dma.step_dma(&mut ram, &mut gpu, &mut intc);
    assert!(executed);
    assert_eq!(dma.channels[2].madr, 0x00FF_FFFF);
}

#[test]
fn test_dma_ch5_otc_clear() {
    let mut dma = DmaController::new();
    let mut ram = Ram::new();
    let mut gpu = Gpu::new();
    let mut intc = InterruptController::new();

    // Enable Ch 6 (OTC) in DPCR
    dma.dpcr |= 1 << (6 * 4 + 3);

    // Setup OTC: MADR = 0x1000, BCR = 4 words
    dma.channels[6].madr = 0x1000;
    dma.channels[6].bcr = 4;
    dma.channels[6].chcr = 1 << 24; // Trigger

    dma.step_dma(&mut ram, &mut gpu, &mut intc);

    // 0x1000 points to 0x0FFC
    assert_eq!(ram.read32(0x1000), 0x0FFC);
    // 0x0FFC points to 0x0FF8
    assert_eq!(ram.read32(0x0FFC), 0x0FF8);
    // 0x0FF8 points to 0x0FF4
    assert_eq!(ram.read32(0x0FF8), 0x0FF4);
    // 0x0FF4 points to end marker 0x00FFFFFF
    assert_eq!(ram.read32(0x0FF4), 0x00FF_FFFF);
}
