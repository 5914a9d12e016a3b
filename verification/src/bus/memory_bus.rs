//! The system bus: RAM, scratchpad and BIOS ROM, and the I/O ports of the interrupt
//! controller, DMA, timers, GPU and pad.
use super::map::{
    bios_window, io_window, mask_address, physical, ram_window, scratchpad_window, BIOS_BASE,
    BIOS_END, IO_BASE, IO_END, RAM_MASK, RAM_WINDOW_END, SCRATCHPAD_BASE, SCRATCHPAD_END,
};
use super::Bus;
use crate::bios::{blank_rom_byte, Bios, BIOS_BYTES};
use crate::bytes::{le16, le32, lemma_le32_put32, lemma_le32_put32_other, put16, put32};
use crate::controller::Controller;
use crate::dma::{dma_world, DmaController, DmaWorld};
use crate::gpu::{Gpu, GpuView};
use crate::intc::{InterruptController, IRQ_GPU, IRQ_VBLANK};
use crate::ram::{Ram, RAM_BYTES};
use crate::scratchpad::{Scratchpad, SCRATCHPAD_BYTES};
use crate::dma::channel::DmaChannel;
use crate::gpu::gp0::gp0_reset_view;
use crate::gpu::gp1::gp1_reset_state;
use crate::gpu::vram::VRAM_TOTAL_PIXELS;
use crate::timers::timer::Timer;
use crate::timers::Timers;
use crate::bits::lemma_and_le;
use vstd::prelude::*;

verus! {

pub struct MemoryBus {
    pub ram: Ram,
    pub bios: Bios,
    pub scratchpad: Scratchpad,
    pub intc: InterruptController,
    pub timers: Timers,
    pub dma: DmaController,
    pub gpu: Gpu,
    pub controller: Controller,
    pub tty_output: Vec<u8>,
}

/// The serial port's data register: characters written there go to the TTY log.
pub const UART_DATA: u32 = 0x1F80_1050;

/// The bus with its memories and the TTY log as sequences.
pub ghost struct MemoryBusView {
    pub ram: Seq<u8>,
    pub bios: Seq<u8>,
    pub scratchpad: Seq<u8>,
    pub intc: InterruptController,
    pub timers: Timers,
    pub dma: DmaController,
    pub gpu: GpuView,
    pub controller: Controller,
    pub tty: Seq<u8>,
}

impl View for MemoryBus {
    type V = MemoryBusView;

    open spec fn view(&self) -> MemoryBusView {
        MemoryBusView {
            ram: self.ram.data@,
            bios: self.bios.data@,
            scratchpad: self.scratchpad.data@,
            intc: self.intc,
            timers: self.timers,
            dma: self.dma,
            gpu: self.gpu@,
            controller: self.controller,
            tty: self.tty_output@,
        }
    }
}

/// Byte `k` (0..3) of a word.
pub open spec fn word_byte(w: u32, p: u32) -> u8 {
    (w >> ((p & 3) * 8)) as u8
}

/// The text that `String::from_utf8_lossy` makes of a byte sequence.
pub uninterp spec fn lossy_text(bytes: Seq<u8>) -> Seq<char>;

/// `String::from_utf8_lossy`: the contract names its text; ASCII bytes decode to
/// themselves, as UTF-8 encodes them as single bytes.
#[verifier::external_body]
fn utf8_lossy(bytes: &[u8]) -> (s: String)
    ensures
        s@ == lossy_text(bytes@),
        (forall|i: int| 0 <= i < bytes@.len() ==> bytes@[i] < 0x80) ==> s@ == Seq::new(
            bytes@.len(),
            |i: int| bytes@[i] as char,
        ),
{
    String::from_utf8_lossy(bytes).into_owned()
}

impl MemoryBusView {
    /// The memories have their sizes and the GPU is consistent.
    pub open spec fn wf(self) -> bool {
        &&& self.ram.len() == RAM_BYTES
        &&& self.bios.len() == BIOS_BYTES
        &&& self.scratchpad.len() == SCRATCHPAD_BYTES
        &&& self.gpu.wf()
    }

    /// The I/O devices as the bus creates them: no interrupt pending or enabled, timers
    /// counting from 0, DMA idle with its reset priorities, black VRAM and a reset GPU, no
    /// pad button pressed, and an empty TTY log.
    pub open spec fn devices_at_reset(self) -> bool {
        let t = Timer { val: 0, mode: 0x0400, target: 0, accum: 0, irq_fired_once: false };
        &&& self.intc.istat == 0 && self.intc.imask == 0
        &&& self.timers == Timers { timer0: t, timer1: t, timer2: t }
        &&& self.dma.dpcr == 0x0765_4321 && self.dma.dicr == 0
        &&& forall|i: int| 0 <= i < 7 ==> #[trigger] self.dma.channels[i] == (DmaChannel { madr: 0, bcr: 0, chcr: 0 })
        &&& forall|i: int| 0 <= i < VRAM_TOTAL_PIXELS ==> #[trigger] self.gpu.vram[i] == 0
        &&& self.gpu.vram.len() == VRAM_TOTAL_PIXELS
        &&& self.gpu.gp0 == gp0_reset_view()
        &&& self.gpu.gp1 == gp1_reset_state()
        &&& self.gpu.cycles_accum == 0 && self.gpu.scanline == 0
        &&& self.controller.button_state == 0xFFFF
        &&& self.tty.len() == 0
    }

    /// GPUREAD (0) or GPUSTAT, by the word address.
    pub open spec fn gpu_port(self, p: u32) -> u32 {
        if p == 0x1F80_1810 {
            0
        } else {
            self.gpu.gp1.status()
        }
    }

    /// A byte read from an I/O port, and the state after it (timer mode reads clear flags).
    pub open spec fn io_read8(self, p: u32) -> (u8, MemoryBusView) {
        if 0x1F80_1040 <= p <= 0x1F80_104F {
            (self.controller.byte_value(p), self)
        } else if 0x1F80_1070 <= p <= 0x1F80_1077 {
            (word_byte(self.intc.reg_value(p & !3u32), p), self)
        } else if 0x1F80_1080 <= p <= 0x1F80_10F7 {
            (word_byte(self.dma.reg_value(p & !3u32), p), self)
        } else if 0x1F80_1100 <= p <= 0x1F80_112F {
            let (v, t) = self.timers.byte_read(p);
            (v, MemoryBusView { timers: t, ..self })
        } else if 0x1F80_1810 <= p <= 0x1F80_1817 {
            (word_byte(self.gpu_port(p & !3u32), p), self)
        } else {
            (0, self)
        }
    }

    /// A halfword read from an I/O port, and the state after it.
    pub open spec fn io_read16(self, p: u32) -> (u16, MemoryBusView) {
        if 0x1F80_1040 <= p <= 0x1F80_104F {
            (self.controller.half_value(p), self)
        } else if 0x1F80_1070 <= p <= 0x1F80_1076 {
            (self.intc.half_value(p), self)
        } else if 0x1F80_1080 <= p <= 0x1F80_10F6 {
            ((self.dma.reg_value(p & !3u32) >> ((p & 2) * 8)) as u16, self)
        } else if 0x1F80_1100 <= p <= 0x1F80_112C {
            let (v, t) = self.timers.half_read(p);
            (v, MemoryBusView { timers: t, ..self })
        } else if p == 0x1F80_1810 || p == 0x1F80_1814 {
            (self.gpu_port(p) as u16, self)
        } else {
            (0, self)
        }
    }

    /// A word read from an I/O port, and the state after it.
    pub open spec fn io_read32(self, p: u32) -> (u32, MemoryBusView) {
        if 0x1F80_1040 <= p <= 0x1F80_104F {
            (self.controller.half_value(p) as u32, self)
        } else if p == 0x1F80_1070 || p == 0x1F80_1074 {
            (self.intc.reg_value(p), self)
        } else if 0x1F80_1080 <= p <= 0x1F80_10F4 {
            (self.dma.reg_value(p), self)
        } else if 0x1F80_1100 <= p <= 0x1F80_112C {
            let (v, t) = self.timers.half_read(p);
            (v as u32, MemoryBusView { timers: t, ..self })
        } else if p == 0x1F80_1810 || p == 0x1F80_1814 {
            (self.gpu_port(p), self)
        } else {
            (0, self)
        }
    }

    /// The state after a byte write to an I/O port: a byte written to the serial port's
    /// data register goes to the TTY log; the pad ignores writes.
    pub open spec fn io_written8(self, p: u32, v: u8) -> MemoryBusView {
        if p == UART_DATA {
            MemoryBusView { tty: self.tty.push(v), ..self }
        } else if 0x1F80_1070 <= p <= 0x1F80_1077 {
            MemoryBusView { intc: self.intc.byte_written(p, v), ..self }
        } else if 0x1F80_1100 <= p <= 0x1F80_112F {
            MemoryBusView { timers: self.timers.byte_written(p, v), ..self }
        } else {
            self
        }
    }

    /// The state after a halfword write to an I/O port; GP0 and GP1 take the zero-extended
    /// halfword, the serial port's data register its low byte.
    pub open spec fn io_written16(self, p: u32, v: u16) -> MemoryBusView {
        if 0x1F80_1040 <= p <= 0x1F80_104F {
            self
        } else if p == UART_DATA {
            MemoryBusView { tty: self.tty.push(v as u8), ..self }
        } else if 0x1F80_1070 <= p <= 0x1F80_1076 {
            MemoryBusView { intc: self.intc.half_written(p, v), ..self }
        } else if 0x1F80_1100 <= p <= 0x1F80_112C {
            MemoryBusView { timers: self.timers.half_written(p, v), ..self }
        } else if p == 0x1F80_1810 {
            MemoryBusView { gpu: self.gpu.gp0_written(v as u32), ..self }
        } else if p == 0x1F80_1814 {
            MemoryBusView { gpu: self.gpu.gp1_written(v as u32), ..self }
        } else {
            self
        }
    }

    /// The state after a word write to an I/O port; the serial port's data register takes
    /// the low byte.
    pub open spec fn io_written32(self, p: u32, v: u32) -> MemoryBusView {
        if 0x1F80_1040 <= p <= 0x1F80_104F {
            self
        } else if p == UART_DATA {
            MemoryBusView { tty: self.tty.push(v as u8), ..self }
        } else if p == 0x1F80_1070 || p == 0x1F80_1074 {
            MemoryBusView { intc: self.intc.word_written(p, v), ..self }
        } else if 0x1F80_1080 <= p <= 0x1F80_10F4 {
            let (d, i) = self.dma.reg_written(p, v, self.intc);
            MemoryBusView { dma: d, intc: i, ..self }
        } else if 0x1F80_1100 <= p <= 0x1F80_112C {
            MemoryBusView { timers: self.timers.half_written(p, v as u16), ..self }
        } else if p == 0x1F80_1810 {
            MemoryBusView { gpu: self.gpu.gp0_written(v), ..self }
        } else if p == 0x1F80_1814 {
            MemoryBusView { gpu: self.gpu.gp1_written(v), ..self }
        } else {
            self
        }
    }

    /// Whether an access of `n` bytes at physical `p` stays inside the memory it lands in.
    pub open spec fn fits(p: u32, n: u32) -> bool {
        &&& ram_window(p) ==> (p & RAM_MASK) + n <= RAM_BYTES
        &&& scratchpad_window(p) ==> p - SCRATCHPAD_BASE + n <= SCRATCHPAD_BYTES
        &&& bios_window(p) ==> p - BIOS_BASE + n <= BIOS_BYTES
    }

    /// After the timers and GPU have advanced: the INTC with the lines they raised, and the
    /// DMA world before transfers run.
    pub open spec fn clocked(self, cycles: u32) -> (Timers, DmaWorld) {
        let (t, irqs) = self.timers.after_cycles(cycles);
        let i1 = if irqs != 0 {
            InterruptController { istat: self.intc.istat | irqs, ..self.intc }
        } else {
            self.intc
        };
        let (g, gpu_irq, vblank) = self.gpu.stepped(cycles);
        let i2 = if gpu_irq {
            InterruptController { istat: i1.istat | (1u32 << IRQ_GPU), ..i1 }
        } else {
            i1
        };
        let i3 = if vblank {
            InterruptController { istat: i2.istat | (1u32 << IRQ_VBLANK), ..i2 }
        } else {
            i2
        };
        (t, dma_world(self.dma, self.ram, g, i3))
    }
}

impl Bus for MemoryBus {
    open spec fn inv(m: MemoryBusView) -> bool {
        m.wf()
    }

    open spec fn can_read16(m: MemoryBusView, addr: u32) -> bool {
        MemoryBusView::fits(physical(addr), 2)
    }

    open spec fn can_read32(m: MemoryBusView, addr: u32) -> bool {
        MemoryBusView::fits(physical(addr), 4)
    }

    open spec fn can_write16(m: MemoryBusView, addr: u32) -> bool {
        MemoryBusView::fits(physical(addr), 2)
    }

    open spec fn can_write32(m: MemoryBusView, addr: u32) -> bool {
        MemoryBusView::fits(physical(addr), 4)
    }

    /// The timer prescaler and the GPU cycle accumulator stay in range, and every DMA
    /// transfer that starts is defined.
    open spec fn can_step(m: MemoryBusView, cycles: u32) -> bool {
        let (t, w) = m.clocked(cycles);
        &&& m.timers.can_step(cycles)
        &&& m.gpu.cycles_accum + cycles <= u32::MAX
        &&& w.dma.any_active() ==> w.channels_ok_from(0)
    }

    open spec fn read8_result(m: MemoryBusView, addr: u32) -> (u8, MemoryBusView) {
        let p = physical(addr);
        if ram_window(p) {
            (m.ram[(p & RAM_MASK) as int], m)
        } else if scratchpad_window(p) {
            (m.scratchpad[(p - SCRATCHPAD_BASE) as int], m)
        } else if bios_window(p) {
            (m.bios[(p - BIOS_BASE) as int], m)
        } else if io_window(p) {
            m.io_read8(p)
        } else {
            (0, m)
        }
    }

    open spec fn read16_result(m: MemoryBusView, addr: u32) -> (u16, MemoryBusView) {
        let p = physical(addr);
        if ram_window(p) {
            (le16(m.ram, (p & RAM_MASK) as int), m)
        } else if scratchpad_window(p) {
            (le16(m.scratchpad, (p - SCRATCHPAD_BASE) as int), m)
        } else if bios_window(p) {
            (le16(m.bios, (p - BIOS_BASE) as int), m)
        } else if io_window(p) {
            m.io_read16(p)
        } else {
            (0, m)
        }
    }

    open spec fn read32_result(m: MemoryBusView, addr: u32) -> (u32, MemoryBusView) {
        let p = physical(addr);
        if ram_window(p) {
            (le32(m.ram, (p & RAM_MASK) as int), m)
        } else if scratchpad_window(p) {
            (le32(m.scratchpad, (p - SCRATCHPAD_BASE) as int), m)
        } else if bios_window(p) {
            (le32(m.bios, (p - BIOS_BASE) as int), m)
        } else if io_window(p) {
            m.io_read32(p)
        } else {
            (0, m)
        }
    }

    open spec fn written8(m: MemoryBusView, addr: u32, val: u8) -> MemoryBusView {
        let p = physical(addr);
        if ram_window(p) {
            MemoryBusView { ram: m.ram.update((p & RAM_MASK) as int, val), ..m }
        } else if scratchpad_window(p) {
            MemoryBusView { scratchpad: m.scratchpad.update((p - SCRATCHPAD_BASE) as int, val), ..m }
        } else if bios_window(p) {
            m
        } else if io_window(p) {
            m.io_written8(p, val)
        } else {
            m
        }
    }

    open spec fn written16(m: MemoryBusView, addr: u32, val: u16) -> MemoryBusView {
        let p = physical(addr);
        if ram_window(p) {
            MemoryBusView { ram: put16(m.ram, (p & RAM_MASK) as int, val), ..m }
        } else if scratchpad_window(p) {
            MemoryBusView { scratchpad: put16(m.scratchpad, (p - SCRATCHPAD_BASE) as int, val), ..m }
        } else if bios_window(p) {
            m
        } else if io_window(p) {
            m.io_written16(p, val)
        } else {
            m
        }
    }

    open spec fn written32(m: MemoryBusView, addr: u32, val: u32) -> MemoryBusView {
        let p = physical(addr);
        if ram_window(p) {
            MemoryBusView { ram: put32(m.ram, (p & RAM_MASK) as int, val), ..m }
        } else if scratchpad_window(p) {
            MemoryBusView { scratchpad: put32(m.scratchpad, (p - SCRATCHPAD_BASE) as int, val), ..m }
        } else if bios_window(p) {
            m
        } else if io_window(p) {
            m.io_written32(p, val)
        } else {
            m
        }
    }

    /// Timers, then GPU (raising their interrupt lines), then the pending DMA transfers.
    open spec fn stepped(m: MemoryBusView, cycles: u32) -> MemoryBusView {
        let (t, w) = m.clocked(cycles);
        let w2 = if w.dma.any_active() {
            w.channels_ran_from(0)
        } else {
            w
        };
        MemoryBusView { timers: t, dma: w2.dma, ram: w2.ram, gpu: w2.gpu, intc: w2.intc, ..m }
    }

    open spec fn tty_logged(m: MemoryBusView, ch: u8) -> MemoryBusView {
        MemoryBusView { tty: m.tty.push(ch), ..m }
    }

    fn read8(&mut self, vaddr: u32) -> (r: u8) {
        let paddr = mask_address(vaddr);
        if paddr <= RAM_WINDOW_END {
            proof {
                lemma_mask_below(paddr);
            }
            self.ram.read8(paddr & RAM_MASK)
        } else if SCRATCHPAD_BASE <= paddr && paddr <= SCRATCHPAD_END {
            self.scratchpad.read8(paddr - SCRATCHPAD_BASE)
        } else if BIOS_BASE <= paddr && paddr <= BIOS_END {
            self.bios.read8(paddr - BIOS_BASE)
        } else if IO_BASE <= paddr && paddr <= IO_END {
            self.read_io8(paddr)
        } else {
            0
        }
    }

    fn read16(&mut self, vaddr: u32) -> (r: u16) {
        let paddr = mask_address(vaddr);
        if paddr <= RAM_WINDOW_END {
            self.ram.read16(paddr & RAM_MASK)
        } else if SCRATCHPAD_BASE <= paddr && paddr <= SCRATCHPAD_END {
            self.scratchpad.read16(paddr - SCRATCHPAD_BASE)
        } else if BIOS_BASE <= paddr && paddr <= BIOS_END {
            self.bios.read16(paddr - BIOS_BASE)
        } else if IO_BASE <= paddr && paddr <= IO_END {
            self.read_io16(paddr)
        } else {
            0
        }
    }

    fn read32(&mut self, vaddr: u32) -> (r: u32) {
        let paddr = mask_address(vaddr);
        if paddr <= RAM_WINDOW_END {
            self.ram.read32(paddr & RAM_MASK)
        } else if SCRATCHPAD_BASE <= paddr && paddr <= SCRATCHPAD_END {
            self.scratchpad.read32(paddr - SCRATCHPAD_BASE)
        } else if BIOS_BASE <= paddr && paddr <= BIOS_END {
            self.bios.read32(paddr - BIOS_BASE)
        } else if IO_BASE <= paddr && paddr <= IO_END {
            self.read_io32(paddr)
        } else {
            0
        }
    }

    fn write8(&mut self, vaddr: u32, val: u8) {
        let paddr = mask_address(vaddr);
        if paddr <= RAM_WINDOW_END {
            proof {
                lemma_mask_below(paddr);
            }
            self.ram.write8(paddr & RAM_MASK, val);
        } else if SCRATCHPAD_BASE <= paddr && paddr <= SCRATCHPAD_END {
            self.scratchpad.write8(paddr - SCRATCHPAD_BASE, val);
        } else if BIOS_BASE <= paddr && paddr <= BIOS_END {
        } else if IO_BASE <= paddr && paddr <= IO_END {
            self.write_io8(paddr, val);
        }
    }

    fn write16(&mut self, vaddr: u32, val: u16) {
        let paddr = mask_address(vaddr);
        if paddr <= RAM_WINDOW_END {
            self.ram.write16(paddr & RAM_MASK, val);
        } else if SCRATCHPAD_BASE <= paddr && paddr <= SCRATCHPAD_END {
            self.scratchpad.write16(paddr - SCRATCHPAD_BASE, val);
        } else if BIOS_BASE <= paddr && paddr <= BIOS_END {
        } else if IO_BASE <= paddr && paddr <= IO_END {
            self.write_io16(paddr, val);
        }
    }

    fn write32(&mut self, vaddr: u32, val: u32) {
        let paddr = mask_address(vaddr);
        if paddr <= RAM_WINDOW_END {
            self.ram.write32(paddr & RAM_MASK, val);
        } else if SCRATCHPAD_BASE <= paddr && paddr <= SCRATCHPAD_END {
            self.scratchpad.write32(paddr - SCRATCHPAD_BASE, val);
        } else if BIOS_BASE <= paddr && paddr <= BIOS_END {
        } else if IO_BASE <= paddr && paddr <= IO_END {
            self.write_io32(paddr, val);
        }
    }

    fn step(&mut self, cycles: u32) {
        let timer_irqs = self.timers.step(cycles);
        if timer_irqs != 0 {
            self.intc.istat = self.intc.istat | timer_irqs;
        }
        let (gpu_irq, vblank_irq) = self.gpu.step(cycles);
        if gpu_irq {
            self.intc.trigger(IRQ_GPU);
        }
        if vblank_irq {
            self.intc.trigger(IRQ_VBLANK);
        }
        if self.dma.has_active_transfer() {
            self.dma.step_dma(&mut self.ram, &mut self.gpu, &mut self.intc);
        }
    }

    fn log_tty_char(&mut self, ch: u8) {
        self.tty_output.push(ch);
    }
}

impl MemoryBus {
    /// A bus over the given memories, with the I/O devices at reset and an empty TTY log.
    pub fn new(ram: Ram, bios: Bios, scratchpad: Scratchpad) -> (r: Self)
        ensures
            r.ram == ram,
            r.bios == bios,
            r.scratchpad == scratchpad,
            r@.devices_at_reset(),
            ram.wf() && bios.wf() && scratchpad.wf() ==> r@.wf(),
    {
        MemoryBus {
            ram,
            bios,
            scratchpad,
            intc: InterruptController::new(),
            timers: Timers::new(),
            dma: DmaController::new(),
            gpu: Gpu::new(),
            controller: Controller::new(),
            tty_output: Vec::new(),
        }
    }
}

impl MemoryBus {
    /// Zeroed RAM and scratchpad, an empty ROM.
    pub fn default_bus() -> (r: Self)
        ensures
            r@.wf(),
            r@.devices_at_reset(),
            forall|i: int| 0 <= i < RAM_BYTES ==> #[trigger] r@.ram[i] == 0,
            forall|i: int| 0 <= i < SCRATCHPAD_BYTES ==> #[trigger] r@.scratchpad[i] == 0,
            forall|i: int| 0 <= i < BIOS_BYTES ==> #[trigger] r@.bios[i] == blank_rom_byte(i),
    {
        Self::new(Ram::new(), Bios::new(), Scratchpad::new())
    }

    /// Appends one character to the TTY log.
    pub fn log_tty_char(&mut self, ch: u8)
        ensures
            final(self)@ == (MemoryBusView { tty: old(self)@.tty.push(ch), ..old(self)@ }),
    {
        self.tty_output.push(ch);
    }

    /// The TTY log as text (invalid UTF-8 replaced, as `String::from_utf8_lossy` does).
    pub fn get_tty_string(&self) -> (s: String)
        ensures
            s@ == lossy_text(self.tty_output@),
            (forall|i: int| 0 <= i < self.tty_output@.len() ==> self.tty_output@[i] < 0x80) ==> s@
                == Seq::new(self.tty_output@.len(), |i: int| self.tty_output@[i] as char),
    {
        utf8_lossy(self.tty_output.as_slice())
    }

    fn read_io8(&mut self, paddr: u32) -> (r: u8)
        ensures
            (r, final(self)@) == old(self)@.io_read8(paddr),
    {
        proof {
            lemma_and_le(paddr, 3);
        }
        let shift = (paddr & 3) * 8;
        if 0x1F80_1040 <= paddr && paddr <= 0x1F80_104F {
            self.controller.read8(paddr)
        } else if 0x1F80_1070 <= paddr && paddr <= 0x1F80_1077 {
            self.intc.read8(paddr)
        } else if 0x1F80_1080 <= paddr && paddr <= 0x1F80_10F7 {
            let val32 = self.dma.read32(paddr & !3u32);
            (val32 >> shift) as u8
        } else if 0x1F80_1100 <= paddr && paddr <= 0x1F80_112F {
            self.timers.read8(paddr)
        } else if 0x1F80_1810 <= paddr && paddr <= 0x1F80_1817 {
            let val32 = self.read_io32(paddr & !3u32);
            assert(0x1F80_1810 <= paddr <= 0x1F80_1817 ==> (paddr & !3u32 == 0x1F80_1810 || paddr
                & !3u32 == 0x1F80_1814)) by (bit_vector);
            (val32 >> shift) as u8
        } else {
            0
        }
    }

    fn read_io16(&mut self, paddr: u32) -> (r: u16)
        ensures
            (r, final(self)@) == old(self)@.io_read16(paddr),
    {
        if 0x1F80_1040 <= paddr && paddr <= 0x1F80_104F {
            self.controller.read16(paddr)
        } else if 0x1F80_1070 <= paddr && paddr <= 0x1F80_1076 {
            self.intc.read16(paddr)
        } else if 0x1F80_1080 <= paddr && paddr <= 0x1F80_10F6 {
            let val32 = self.dma.read32(paddr & !3u32);
            proof {
                lemma_and_le(paddr, 2);
            }
            let shift = (paddr & 2) * 8;
            (val32 >> shift) as u16
        } else if 0x1F80_1100 <= paddr && paddr <= 0x1F80_112C {
            self.timers.read16(paddr)
        } else if paddr == 0x1F80_1810 {
            self.gpu.read_gpuread() as u16
        } else if paddr == 0x1F80_1814 {
            self.gpu.read_gpu_stat() as u16
        } else {
            0
        }
    }

    fn read_io32(&mut self, paddr: u32) -> (r: u32)
        ensures
            (r, final(self)@) == old(self)@.io_read32(paddr),
    {
        if 0x1F80_1040 <= paddr && paddr <= 0x1F80_104F {
            self.controller.read32(paddr)
        } else if paddr == 0x1F80_1070 || paddr == 0x1F80_1074 {
            self.intc.read32(paddr)
        } else if 0x1F80_1080 <= paddr && paddr <= 0x1F80_10F4 {
            self.dma.read32(paddr)
        } else if 0x1F80_1100 <= paddr && paddr <= 0x1F80_112C {
            self.timers.read32(paddr)
        } else if paddr == 0x1F80_1810 {
            self.gpu.read_gpuread()
        } else if paddr == 0x1F80_1814 {
            self.gpu.read_gpu_stat()
        } else {
            0
        }
    }

    fn write_io8(&mut self, paddr: u32, val: u8)
        ensures
            final(self)@ == old(self)@.io_written8(paddr, val),
    {
        if paddr == UART_DATA {
            self.tty_output.push(val);
        } else if 0x1F80_1040 <= paddr && paddr <= 0x1F80_104F {
            self.controller.write8(paddr, val);
        } else if 0x1F80_1070 <= paddr && paddr <= 0x1F80_1077 {
            self.intc.write8(paddr, val);
        } else if 0x1F80_1100 <= paddr && paddr <= 0x1F80_112F {
            self.timers.write8(paddr, val);
        }
    }

    fn write_io16(&mut self, paddr: u32, val: u16)
        requires
            old(self)@.gpu.wf(),
        ensures
            final(self)@ == old(self)@.io_written16(paddr, val),
            final(self)@.gpu.wf(),
    {
        if 0x1F80_1040 <= paddr && paddr <= 0x1F80_104F {
            self.controller.write16(paddr, val);
        } else if paddr == UART_DATA {
            self.tty_output.push(val as u8);
        } else if 0x1F80_1070 <= paddr && paddr <= 0x1F80_1076 {
            self.intc.write16(paddr, val);
        } else if 0x1F80_1100 <= paddr && paddr <= 0x1F80_112C {
            self.timers.write16(paddr, val);
        } else if paddr == 0x1F80_1810 {
            self.gpu.write_gp0(val as u32);
        } else if paddr == 0x1F80_1814 {
            self.gpu.write_gp1(val as u32);
        }
    }

    fn write_io32(&mut self, paddr: u32, val: u32)
        requires
            old(self)@.gpu.wf(),
        ensures
            final(self)@ == old(self)@.io_written32(paddr, val),
            final(self)@.gpu.wf(),
    {
        if 0x1F80_1040 <= paddr && paddr <= 0x1F80_104F {
            self.controller.write32(paddr, val);
        } else if paddr == UART_DATA {
            self.tty_output.push(val as u8);
        } else if paddr == 0x1F80_1070 || paddr == 0x1F80_1074 {
            self.intc.write32(paddr, val);
        } else if 0x1F80_1080 <= paddr && paddr <= 0x1F80_10F4 {
            self.dma.write32(paddr, val, &mut self.intc);
        } else if 0x1F80_1100 <= paddr && paddr <= 0x1F80_112C {
            self.timers.write32(paddr, val);
        } else if paddr == 0x1F80_1810 {
            self.gpu.write_gp0(val);
        } else if paddr == 0x1F80_1814 {
            self.gpu.write_gp1(val);
        }
    }
}

impl Default for MemoryBus {
    fn default() -> (r: Self)
        ensures
            r@.wf(),
            r@.devices_at_reset(),
            forall|i: int| 0 <= i < RAM_BYTES ==> #[trigger] r@.ram[i] == 0,
            forall|i: int| 0 <= i < SCRATCHPAD_BYTES ==> #[trigger] r@.scratchpad[i] == 0,
            forall|i: int| 0 <= i < BIOS_BYTES ==> #[trigger] r@.bios[i] == blank_rom_byte(i),
    {
        Self::default_bus()
    }
}

/// A word written to RAM reads back through every alias of its address: the KUSEG, KSEG0
/// and KSEG1 segments and the four 2MB mirrors of the RAM window.
pub proof fn lemma_ram_read_after_write(m: MemoryBusView, a: u32, b: u32, v: u32)
    requires
        m.wf(),
        ram_window(physical(a)),
        ram_window(physical(b)),
        physical(a) & RAM_MASK == physical(b) & RAM_MASK,
        MemoryBusView::fits(physical(a), 4),
    ensures
        MemoryBus::read32_result(MemoryBus::written32(m, a, v), b).0 == v,
{
    lemma_le32_put32(m.ram, (physical(a) & RAM_MASK) as int, v);
}

/// A word written to RAM leaves every RAM word that it does not overlap as it was.
pub proof fn lemma_ram_write_keeps_others(m: MemoryBusView, a: u32, b: u32, v: u32)
    requires
        m.wf(),
        ram_window(physical(a)),
        ram_window(physical(b)),
        MemoryBusView::fits(physical(a), 4),
        MemoryBusView::fits(physical(b), 4),
        (physical(b) & RAM_MASK) + 4 <= (physical(a) & RAM_MASK) || (physical(a) & RAM_MASK) + 4
            <= (physical(b) & RAM_MASK),
    ensures
        MemoryBus::read32_result(MemoryBus::written32(m, a, v), b).0 == MemoryBus::read32_result(
            m,
            b,
        ).0,
{
    lemma_le32_put32_other(
        m.ram,
        (physical(a) & RAM_MASK) as int,
        v,
        (physical(b) & RAM_MASK) as int,
    );
}

/// A word written to the scratchpad reads back, through each segment alias.
pub proof fn lemma_scratchpad_read_after_write(m: MemoryBusView, a: u32, b: u32, v: u32)
    requires
        m.wf(),
        scratchpad_window(physical(a)),
        physical(b) == physical(a),
        MemoryBusView::fits(physical(a), 4),
    ensures
        MemoryBus::read32_result(MemoryBus::written32(m, a, v), b).0 == v,
{
    lemma_le32_put32(m.scratchpad, (physical(a) - SCRATCHPAD_BASE) as int, v);
}

/// The BIOS ROM ignores writes of every width.
pub proof fn lemma_rom_ignores_writes(m: MemoryBusView, a: u32, v: u32)
    requires
        bios_window(physical(a)),
    ensures
        MemoryBus::written8(m, a, v as u8) == m,
        MemoryBus::written16(m, a, v as u16) == m,
        MemoryBus::written32(m, a, v) == m,
{
}

/// Reads change nothing but the timers (a read of a timer's mode clears its reached
/// flags): memory, the interrupt controller, DMA, the GPU, the pad and the TTY log stay.
pub proof fn lemma_reads_keep_state(m: MemoryBusView, a: u32)
    ensures
        MemoryBus::read8_result(m, a).1 == (MemoryBusView { timers: MemoryBus::read8_result(m, a).1.timers, ..m }),
        MemoryBus::read16_result(m, a).1 == (MemoryBusView { timers: MemoryBus::read16_result(m, a).1.timers, ..m }),
        MemoryBus::read32_result(m, a).1 == (MemoryBusView { timers: MemoryBus::read32_result(m, a).1.timers, ..m }),
{
}

/// A character written to the serial port's data register, at any width and through any
/// segment alias, is appended to the TTY log (the low byte of a wider write); nothing else
/// changes.
pub proof fn lemma_uart_write_logs(m: MemoryBusView, a: u32, v: u32)
    requires
        physical(a) == UART_DATA,
    ensures
        MemoryBus::written8(m, a, v as u8) == (MemoryBusView { tty: m.tty.push(v as u8), ..m }),
        MemoryBus::written16(m, a, v as u16) == (MemoryBusView { tty: m.tty.push((v as u16) as u8), ..m }),
        MemoryBus::written32(m, a, v) == (MemoryBusView { tty: m.tty.push(v as u8), ..m }),
{
}

/// Masked offsets lie inside RAM.
proof fn lemma_mask_below(p: u32)
    ensures
        p & RAM_MASK < RAM_BYTES,
{
    lemma_and_le(p, RAM_MASK);
}

} // verus!
