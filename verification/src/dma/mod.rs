//! Seven-channel DMA controller: ordering-table clear (channel 6), GPU transfers in block
//! and linked-list mode (channel 2), and address-only block transfers on the other channels.
pub mod channel;

use crate::bytes::{le32, lemma_le32_put32, lemma_le32_put32_other, put32};
use crate::cpu::semantics::{wrap_add, wrap_sub};
use crate::gpu::{Gpu, GpuView};
use crate::intc::{InterruptController, IRQ_DMA};
use crate::ram::{Ram, RAM_BYTES};
use channel::{lemma_finish_clears, DmaChannel};
use vstd::array::spec_array_update;
use crate::bits::lemma_and_le;
use vstd::prelude::*;

verus! {

pub const DMA_MDEC_IN: usize = 0;
pub const DMA_MDEC_OUT: usize = 1;
pub const DMA_GPU: usize = 2;
pub const DMA_CDROM: usize = 3;
pub const DMA_SPU: usize = 4;
pub const DMA_PIO: usize = 5;
pub const DMA_OTC: usize = 6;

/// The end-of-list marker of ordering tables and GPU linked lists.
pub const END_MARKER: u32 = 0x00FF_FFFF;

#[derive(Debug, Clone, Copy, PartialEq, Eq)]
pub struct DmaController {
    pub channels: [DmaChannel; 7],
    pub dpcr: u32,
    pub dicr: u32,
}

/// Everything a DMA step reads or changes.
pub ghost struct DmaWorld {
    pub dma: DmaController,
    pub ram: Seq<u8>,
    pub gpu: GpuView,
    pub intc: InterruptController,
}

/// The RAM offset of a bus address.
pub open spec fn ram_off(a: u32) -> u32 {
    a & 0x001F_FFFFu32
}

/// Whether a word access at RAM offset `o` stays inside RAM.
pub open spec fn word_fits(o: u32) -> bool {
    o + 4 <= RAM_BYTES
}

/// The GPU after the words `ws` are written to GP0 in order.
pub open spec fn fed(g: GpuView, ws: Seq<u32>) -> GpuView
    decreases ws.len(),
{
    if ws.len() == 0 {
        g
    } else {
        fed(g, ws.drop_last()).gp0_written(ws.last())
    }
}

/// Feeding two runs of words is feeding their concatenation.
pub proof fn lemma_fed_concat(g: GpuView, a: Seq<u32>, b: Seq<u32>)
    ensures
        fed(fed(g, a), b) == fed(g, a + b),
    decreases b.len(),
{
    if b.len() == 0 {
        assert(a + b =~= a);
    } else {
        lemma_fed_concat(g, a, b.drop_last());
        assert((a + b).drop_last() =~= a + b.drop_last());
    }
}

/// Words transferred by a block or multi-block transfer: BCR's block size, times the block
/// count in multi-block mode; 0 means 0x10000.
pub open spec fn block_count(c: DmaChannel) -> nat {
    let n = if c.mode() == 1 {
        (c.bcr & 0xFFFF) * ((c.bcr >> 16u32) & 0xFFFF)
    } else {
        (c.bcr & 0xFFFF) as int
    };
    if n == 0 {
        0x10000
    } else {
        n as nat
    }
}

/// The next block address: four bytes on, forward or backward, kept to 24 bits.
pub open spec fn step_addr(a: u32, back: bool) -> u32 {
    (if back {
        wrap_sub(a, 4)
    } else {
        wrap_add(a, 4)
    }) & 0x00FF_FFFFu32
}

/// Whether the first address step of a block transfer stays inside the signed 32-bit range
/// the step is computed in (later addresses are 24-bit).
pub open spec fn first_step_ok(a: u32, back: bool) -> bool {
    if back {
        !(0x8000_0000u32 <= a && a < 0x8000_0004u32)
    } else {
        !(0x7FFF_FFFCu32 <= a && a <= 0x7FFF_FFFFu32)
    }
}

/// The address of word `k` of a block transfer starting at `start`.
pub open spec fn block_addr(start: u32, back: bool, k: nat) -> u32
    decreases k,
{
    if k == 0 {
        start
    } else {
        step_addr(block_addr(start, back, (k - 1) as nat), back)
    }
}

/// The words a block transfer reads from RAM.
pub open spec fn block_words(ram: Seq<u8>, start: u32, back: bool, n: nat) -> Seq<u32> {
    Seq::new(n, |k: int| le32(ram, ram_off(block_addr(start, back, k as nat)) as int))
}

/// Whether every word of a block transfer lies inside RAM.
pub open spec fn block_fits(start: u32, back: bool, n: nat) -> bool {
    forall|k: nat| k < n ==> word_fits(ram_off(#[trigger] block_addr(start, back, k)))
}

/// RAM after a GPU-to-RAM block transfer (GPUREAD yields 0 for every word).
pub open spec fn block_zeroed(ram: Seq<u8>, start: u32, back: bool, n: nat) -> Seq<u8>
    decreases n,
{
    if n == 0 {
        ram
    } else {
        put32(
            block_zeroed(ram, start, back, (n - 1) as nat),
            ram_off(block_addr(start, back, (n - 1) as nat)) as int,
            0,
        )
    }
}

/// The entry before `a` in an ordering table: four bytes back, modulo 2^24.
pub open spec fn prev24(a: u32) -> u32 {
    if a >= 4 {
        (a - 4) as u32
    } else {
        (a + 0x100_0000 - 4) as u32
    }
}

/// Address of entry `k` of an ordering table cleared from `start` downward.
pub open spec fn otc_addr(start: u32, k: nat) -> u32
    decreases k,
{
    if k == 0 {
        start & 0x00FF_FFFFu32
    } else {
        prev24(otc_addr(start, (k - 1) as nat))
    }
}

/// RAM after the first `k` entries of an ordering table are linked, each to the entry
/// below it.
pub open spec fn otc_linked(ram: Seq<u8>, start: u32, k: nat) -> Seq<u8>
    decreases k,
{
    if k == 0 {
        ram
    } else {
        put32(
            otc_linked(ram, start, (k - 1) as nat),
            ram_off(otc_addr(start, (k - 1) as nat)) as int,
            otc_addr(start, k),
        )
    }
}

/// Number of entries of an ordering table clear: BCR bits 15..0, 0 meaning 0x10000.
pub open spec fn otc_count(bcr: u32) -> nat {
    if bcr & 0xFFFF == 0 {
        0x10000
    } else {
        (bcr & 0xFFFF) as nat
    }
}

/// Whether every entry of an ordering table lies inside RAM.
pub open spec fn otc_fits(start: u32, n: nat) -> bool {
    forall|k: nat| k < n ==> word_fits(ram_off(#[trigger] otc_addr(start, k)))
}

/// The payload of the linked-list packet at RAM offset `h`: the header's top byte counts
/// the words that follow it.
pub open spec fn packet_words(ram: Seq<u8>, h: u32) -> Seq<u32> {
    let n = le32(ram, h as int) >> 24u32;
    Seq::new(n as nat, |i: int| le32(ram, ram_off((h + 4 * (i + 1)) as u32) as int))
}

/// Whether the header and payload of the packet at `h` lie inside RAM.
pub open spec fn packet_fits(ram: Seq<u8>, h: u32) -> bool {
    &&& word_fits(h)
    &&& forall|i: int|
        0 <= i < (le32(ram, h as int) >> 24u32) ==> word_fits(#[trigger] ram_off((h + 4 * (i + 1)) as u32))
}

/// A linked-list walk from the packet at RAM offset `h` with at most `fuel` packets: the GP0
/// words of all packets in order. `None` when the list does not end within `fuel` packets
/// or a packet leaves RAM.
pub open spec fn list_words(ram: Seq<u8>, h: u32, fuel: nat) -> Option<Seq<u32>>
    decreases fuel,
{
    if fuel == 0 || h >= RAM_BYTES || !packet_fits(ram, h) {
        None
    } else {
        let next = le32(ram, h as int) & 0x00FF_FFFFu32;
        if next == END_MARKER {
            Some(packet_words(ram, h))
        } else {
            match list_words(ram, ram_off(next), (fuel - 1) as nat) {
                Some(rest) => Some(packet_words(ram, h) + rest),
                None => None,
            }
        }
    }
}

/// Whether the linked list at `h` ends, inside RAM.
pub open spec fn list_ends(ram: Seq<u8>, h: u32) -> bool {
    exists|f: nat| (#[trigger] list_words(ram, h, f)) is Some
}

/// The GP0 words of the linked list at `h`.
pub open spec fn list_result(ram: Seq<u8>, h: u32) -> Seq<u32> {
    list_words(ram, h, choose|f: nat| (#[trigger] list_words(ram, h, f)) is Some)->Some_0
}

/// More fuel does not change a walk that already ended.
pub proof fn lemma_list_fuel(ram: Seq<u8>, h: u32, f1: nat, f2: nat)
    requires
        list_words(ram, h, f1) is Some,
        f1 <= f2,
    ensures
        list_words(ram, h, f2) == list_words(ram, h, f1),
    decreases f1,
{
    let next = le32(ram, h as int) & 0x00FF_FFFFu32;
    if next != END_MARKER {
        lemma_list_fuel(ram, ram_off(next), (f1 - 1) as nat, (f2 - 1) as nat);
    }
}

/// Bit `24 + ch` of DICR: channel `ch` has completed.
pub open spec fn channel_flag(ch: int) -> u32 {
    1u32 << ((24 + ch) as u32)
}

/// Whether DICR asks for an interrupt: forced (bit 15), or enabled (bit 23) with a channel
/// flag (bits 30..24) that is also enabled (bits 22..16).
pub open spec fn dicr_irq(dicr: u32) -> bool {
    dicr & 0x8000u32 != 0 || (dicr & 0x0080_0000u32 != 0 && ((dicr >> 24u32) & 0x7F) & ((dicr
        >> 16u32) & 0x7F) != 0)
}

impl DmaController {
    /// DPCR enables channel `ch` (bit 4*ch + 3).
    pub open spec fn enabled(self, ch: int) -> bool {
        self.dpcr & (1u32 << ((ch * 4 + 3) as u32)) != 0
    }

    /// Whether channel `ch` is enabled and started or busy.
    pub open spec fn active(self, ch: int) -> bool {
        self.enabled(ch) && (self.channels[ch].triggered() || self.channels[ch].busy())
    }

    /// Whether any channel is active.
    pub open spec fn any_active(self) -> bool {
        exists|i: int| 0 <= i < 7 && #[trigger] self.active(i)
    }

    /// DICR bit 31 and the INTC after DICR is re-evaluated: bit 31 follows `dicr_irq`, and
    /// the DMA line is raised when it is set.
    pub open spec fn dicr_updated(self, intc: InterruptController) -> (DmaController, InterruptController) {
        if dicr_irq(self.dicr) {
            (
                DmaController { dicr: self.dicr | 0x8000_0000u32, ..self },
                InterruptController { istat: intc.istat | (1u32 << IRQ_DMA), ..intc },
            )
        } else {
            (DmaController { dicr: self.dicr & !0x8000_0000u32, ..self }, intc)
        }
    }

    /// The register at a DMA address: channel registers below offset 0xF0, then DPCR and
    /// DICR.
    pub open spec fn reg_value(self, paddr: u32) -> u32 {
        let off = paddr & 0xFF;
        if off < 0xF0 {
            let ch = (if off >= 0x80 { off - 0x80 } else { 0 }) / 16;
            if ch < 7 {
                self.channels[ch as int].reg_value(off & 0xF)
            } else {
                0
            }
        } else if off == 0xF0 {
            self.dpcr
        } else if off == 0xF4 {
            self.dicr
        } else {
            0
        }
    }
}

impl DmaController {
    /// The DMA registers and the INTC after a 32-bit register write. Channel registers are
    /// written as `DmaChannel::reg_written` says; DPCR takes the value; a DICR write keeps
    /// the value's low 24 bits, clears the channel flags written as 1 and re-evaluates DICR.
    pub open spec fn reg_written(self, paddr: u32, val: u32, intc: InterruptController) -> (
        DmaController,
        InterruptController,
    ) {
        let off = paddr & 0xFF;
        if off < 0xF0 {
            let ch = (if off >= 0x80 { off - 0x80 } else { 0 }) / 16;
            if ch < 7 {
                (
                    DmaController {
                        channels: spec_array_update(
                            self.channels,
                            ch as int,
                            self.channels[ch as int].reg_written(off & 0xF, val),
                        ),
                        ..self
                    },
                    intc,
                )
            } else {
                (self, intc)
            }
        } else if off == 0xF0 {
            (DmaController { dpcr: val, ..self }, intc)
        } else if off == 0xF4 {
            let flags = ((self.dicr >> 24u32) & 0x7F) & !((val >> 24u32) & 0x7F);
            DmaController { dicr: (val & 0x00FF_FFFF) | (flags << 24u32), ..self }.dicr_updated(intc)
        } else {
            (self, intc)
        }
    }
}

impl DmaWorld {
    /// The world after channel `ch` ran its transfer (if it was active).
    pub open spec fn channel_ran(self, ch: int) -> DmaWorld {
        let d = self.dma;
        if !d.active(ch) {
            self
        } else {
            let c = d.channels[ch];
            let back = c.backward();
            let (madr, ram, gpu) = if ch == 6 {
                let n = otc_count(c.bcr);
                let start = c.madr;
                (
                    otc_addr(start, (n - 1) as nat),
                    put32(
                        otc_linked(self.ram, start, (n - 1) as nat),
                        ram_off(otc_addr(start, (n - 1) as nat)) as int,
                        END_MARKER,
                    ),
                    self.gpu,
                )
            } else if ch == 2 && c.mode() == 2 {
                (END_MARKER, self.ram, fed(self.gpu, list_result(self.ram, ram_off(c.madr))))
            } else if ch == 2 && c.from_ram() {
                let n = block_count(c);
                (
                    block_addr(c.madr, back, n),
                    self.ram,
                    fed(self.gpu, block_words(self.ram, c.madr, back, n)),
                )
            } else if ch == 2 {
                let n = block_count(c);
                (block_addr(c.madr, back, n), block_zeroed(self.ram, c.madr, back, n), self.gpu)
            } else {
                (block_addr(c.madr, back, block_count(c)), self.ram, self.gpu)
            };
            let c2 = DmaChannel { madr, chcr: (c.chcr | 0x1000_0000u32) & !0x1100_0000u32, ..c };
            let d2 = DmaController {
                channels: spec_array_update(d.channels, ch, c2),
                dicr: d.dicr | channel_flag(ch),
                ..d
            };
            let (d3, intc) = d2.dicr_updated(self.intc);
            DmaWorld { dma: d3, ram, gpu, intc }
        }
    }

    /// Whether channel `ch`'s transfer is defined: every RAM word it touches is inside RAM
    /// and a linked list ends.
    pub open spec fn channel_ok(self, ch: int) -> bool {
        let c = self.dma.channels[ch];
        self.dma.active(ch) ==> if ch == 6 {
            otc_fits(c.madr, otc_count(c.bcr))
        } else if ch == 2 && c.mode() == 2 {
            list_ends(self.ram, ram_off(c.madr))
        } else if ch == 2 {
            first_step_ok(c.madr, c.backward()) && block_fits(c.madr, c.backward(), block_count(c))
        } else {
            first_step_ok(c.madr, c.backward())
        }
    }

    /// The world after channels `k..7` ran in order.
    pub open spec fn channels_ran_from(self, k: int) -> DmaWorld
        decreases 7 - k,
    {
        if k >= 7 {
            self
        } else {
            self.channel_ran(k).channels_ran_from(k + 1)
        }
    }

    /// Whether the transfers of channels `k..7` are all defined.
    pub open spec fn channels_ok_from(self, k: int) -> bool
        decreases 7 - k,
    {
        if k >= 7 {
            true
        } else {
            self.channel_ok(k) && self.channel_ran(k).channels_ok_from(k + 1)
        }
    }
}


impl DmaController {
    /// All channels idle and zeroed, DPCR at its reset priorities 0x0765_4321, DICR 0.
    pub fn new() -> (r: Self)
        ensures
            r.dpcr == 0x0765_4321,
            r.dicr == 0,
            forall|i: int| 0 <= i < 7 ==> #[trigger] r.channels[i] == (DmaChannel { madr: 0, bcr: 0, chcr: 0 }),
    {
        DmaController {
            channels: [
                DmaChannel::new(),
                DmaChannel::new(),
                DmaChannel::new(),
                DmaChannel::new(),
                DmaChannel::new(),
                DmaChannel::new(),
                DmaChannel::new(),
            ],
            dpcr: 0x0765_4321,
            dicr: 0,
        }
    }

    pub fn is_channel_enabled(&self, ch: usize) -> (r: bool)
        requires
            ch < 8,
        ensures
            r == self.enabled(ch as int),
    {
        let shift: u32 = (ch as u32) * 4 + 3;
        (self.dpcr & (1u32 << shift)) != 0
    }

    /// Re-evaluates DICR bit 31 and raises the DMA interrupt when it is set.
    pub fn update_dicr(&mut self, intc: &mut InterruptController)
        ensures
            (*final(self), *final(intc)) == old(self).dicr_updated(*old(intc)),
    {
        let force_irq = (self.dicr & 0x8000u32) != 0;
        let master_enable = (self.dicr & 0x0080_0000u32) != 0;
        let irq_enable_mask = (self.dicr >> 16u32) & 0x7F;
        let irq_flags = (self.dicr >> 24u32) & 0x7F;
        let master_flag = force_irq || (master_enable && ((irq_flags & irq_enable_mask) != 0));
        if master_flag {
            self.dicr = self.dicr | 0x8000_0000u32;
            intc.trigger(IRQ_DMA);
        } else {
            self.dicr = self.dicr & !0x8000_0000u32;
        }
    }

    /// Flags channel `ch` as completed in DICR and re-evaluates DICR; channels above 6 are
    /// ignored.
    pub fn set_channel_irq(&mut self, ch: usize, intc: &mut InterruptController)
        ensures
            ch <= 6 ==> (*final(self), *final(intc)) == (DmaController {
                dicr: old(self).dicr | channel_flag(ch as int),
                ..*old(self)
            }).dicr_updated(*old(intc)),
            ch > 6 ==> *final(self) == *old(self) && *final(intc) == *old(intc),
    {
        if ch <= 6 {
            let shift: u32 = 24 + ch as u32;
            self.dicr = self.dicr | (1u32 << shift);
            self.update_dicr(intc);
        }
    }

    pub fn has_active_transfer(&self) -> (r: bool)
        ensures
            r == self.any_active(),
    {
        let mut i: usize = 0;
        while i < 7
            invariant
                i <= 7,
                forall|k: int| 0 <= k < i ==> !#[trigger] self.active(k),
            decreases 7 - i,
        {
            let c = self.channels[i];
            if (c.is_trigger_set() || c.is_busy()) && self.is_channel_enabled(i) {
                assert(self.active(i as int));
                return true;
            }
            i = i + 1;
        }
        false
    }

    pub fn read32(&self, paddr: u32) -> (r: u32)
        ensures
            r == self.reg_value(paddr),
    {
        let offset = paddr & 0xFF;
        if offset < 0xF0 {
            let ch = (offset.saturating_sub(0x80) >> 4u32) as usize;
            let reg = offset & 0xF;
            assert(offset.saturating_sub(0x80) >> 4u32 == (if offset >= 0x80 { offset - 0x80 } else { 0 }) / 16) by (bit_vector);
            if ch < 7 {
                self.channels[ch].read32(reg)
            } else {
                0
            }
        } else {
            match offset {
                0xF0 => self.dpcr,
                0xF4 => self.dicr,
                _ => 0,
            }
        }
    }

    pub fn write32(&mut self, paddr: u32, val: u32, intc: &mut InterruptController)
        ensures
            (*final(self), *final(intc)) == old(self).reg_written(paddr, val, *old(intc)),
    {
        let offset = paddr & 0xFF;
        if offset < 0xF0 {
            let ch = (offset.saturating_sub(0x80) >> 4u32) as usize;
            let reg = offset & 0xF;
            assert(offset.saturating_sub(0x80) >> 4u32 == (if offset >= 0x80 { offset - 0x80 } else { 0 }) / 16) by (bit_vector);
            if ch < 7 {
                self.channels[ch].write32(reg, val);
            }
        } else {
            match offset {
                0xF0 => self.dpcr = val,
                0xF4 => {
                    let low24 = val & 0x00FF_FFFF;
                    let clear_flags = (val >> 24u32) & 0x7F;
                    let cur_flags = (self.dicr >> 24u32) & 0x7F;
                    let new_flags = cur_flags & !clear_flags;
                    self.dicr = low24 | (new_flags << 24u32);
                    self.update_dicr(intc);
                },
                _ => {},
            }
        }
    }
}


impl Default for DmaController {
    fn default() -> (r: Self)
        ensures
            r.dpcr == 0x0765_4321,
            r.dicr == 0,
            forall|i: int| 0 <= i < 7 ==> #[trigger] r.channels[i] == (DmaChannel { madr: 0, bcr: 0, chcr: 0 }),
    {
        Self::new()
    }
}

/// The DMA's view of the machine.
pub open spec fn dma_world(dma: DmaController, ram: Seq<u8>, gpu: GpuView, intc: InterruptController) -> DmaWorld {
    DmaWorld { dma, ram, gpu, intc }
}

/// Ordering-table addresses stay 24-bit.
proof fn lemma_otc_addr_24(start: u32, k: nat)
    ensures
        otc_addr(start, k) < 0x100_0000,
    decreases k,
{
    if k == 0 {
        lemma_and_le(start, 0x00FF_FFFFu32);
    } else {
        lemma_otc_addr_24(start, (k - 1) as nat);
    }
}

/// Writes an ordering table of `otc_count(bcr)` entries downward from `madr`: each entry
/// links to the one below it, the last holds the end marker. Returns the last entry's
/// address.
fn otc_clear(ram: &mut Ram, madr: u32, bcr: u32) -> (end: u32)
    requires
        old(ram).wf(),
        otc_fits(madr, otc_count(bcr)),
    ensures
        final(ram).wf(),
        end == otc_addr(madr, (otc_count(bcr) - 1) as nat),
        final(ram).data@ == put32(
            otc_linked(old(ram).data@, madr, (otc_count(bcr) - 1) as nat),
            ram_off(end) as int,
            END_MARKER,
        ),
{
    let ghost r0 = ram.data@;
    let mut count = bcr & 0xFFFF;
    if count == 0 {
        count = 0x10000;
    }
    let mut addr = madr & 0x00FF_FFFF;
    let mut i: u32 = 1;
    while i < count
        invariant
            1 <= i <= count,
            count == otc_count(bcr),
            ram.wf(),
            otc_fits(madr, otc_count(bcr)),
            addr == otc_addr(madr, (i - 1) as nat),
            ram.data@ == otc_linked(r0, madr, (i - 1) as nat),
        decreases count - i,
    {
        proof {
            lemma_otc_addr_24(madr, (i - 1) as nat);
        }
        assert(word_fits(ram_off(otc_addr(madr, (i - 1) as nat))));
        let next = if addr >= 4 {
            addr - 4
        } else {
            addr + 0x00FF_FFFC
        };
        ram.write32(addr & 0x001F_FFFF, next);
        addr = next;
        i = i + 1;
    }
    assert(word_fits(ram_off(otc_addr(madr, (i - 1) as nat))));
    ram.write32(addr & 0x001F_FFFF, END_MARKER);
    addr
}

/// Words of a block transfer, as `block_count` says.
fn block_len(c: &DmaChannel) -> (n: u32)
    ensures
        n == block_count(*c),
{
    let n = if c.sync_mode() == 1 {
        let bc = c.bcr & 0xFFFF;
        let ba = (c.bcr >> 16u32) & 0xFFFF;
        let b = c.bcr;
        proof {
            lemma_and_le(b, 0xFFFF);
            lemma_and_le(b >> 16u32, 0xFFFF);
        }
        assert(bc * ba <= 0xFFFF * 0xFFFF) by (nonlinear_arith)
            requires
                bc <= 0xFFFF,
                ba <= 0xFFFF,
        ;
        bc * ba
    } else {
        c.bcr & 0xFFFF
    };
    if n == 0 {
        0x10000
    } else {
        n
    }
}

fn block_step(addr: u32, back: bool) -> (r: u32)
    ensures
        r == step_addr(addr, back),
{
    if back {
        addr.wrapping_sub(4) & 0x00FF_FFFF
    } else {
        addr.wrapping_add(4) & 0x00FF_FFFF
    }
}

/// RAM to GP0: `n` words from `madr` on. Returns the address after the last word.
fn block_to_gpu(ram: &Ram, gpu: &mut Gpu, madr: u32, back: bool, n: u32) -> (end: u32)
    requires
        ram.wf(),
        old(gpu)@.wf(),
        block_fits(madr, back, n as nat),
    ensures
        final(gpu)@.wf(),
        end == block_addr(madr, back, n as nat),
        final(gpu)@ == fed(old(gpu)@, block_words(ram.data@, madr, back, n as nat)),
{
    let ghost g0 = gpu@;
    let mut addr = madr;
    let mut k: u32 = 0;
    while k < n
        invariant
            k <= n,
            ram.wf(),
            gpu@.wf(),
            block_fits(madr, back, n as nat),
            addr == block_addr(madr, back, k as nat),
            gpu@ == fed(g0, block_words(ram.data@, madr, back, k as nat)),
        decreases n - k,
    {
        assert(word_fits(ram_off(block_addr(madr, back, k as nat))));
        let val = ram.read32(addr & 0x001F_FFFF);
        gpu.write_gp0(val);
        assert(block_words(ram.data@, madr, back, (k + 1) as nat).drop_last() =~= block_words(
            ram.data@,
            madr,
            back,
            k as nat,
        ));
        addr = block_step(addr, back);
        k = k + 1;
    }
    addr
}

/// GPUREAD to RAM: `n` words stored from `madr` on. Returns the address after the last word.
fn block_from_gpu(ram: &mut Ram, gpu: &Gpu, madr: u32, back: bool, n: u32) -> (end: u32)
    requires
        old(ram).wf(),
        block_fits(madr, back, n as nat),
    ensures
        final(ram).wf(),
        end == block_addr(madr, back, n as nat),
        final(ram).data@ == block_zeroed(old(ram).data@, madr, back, n as nat),
{
    let ghost r0 = ram.data@;
    let mut addr = madr;
    let mut k: u32 = 0;
    while k < n
        invariant
            k <= n,
            ram.wf(),
            block_fits(madr, back, n as nat),
            addr == block_addr(madr, back, k as nat),
            ram.data@ == block_zeroed(r0, madr, back, k as nat),
        decreases n - k,
    {
        assert(word_fits(ram_off(block_addr(madr, back, k as nat))));
        let val = gpu.read_gpuread();
        ram.write32(addr & 0x001F_FFFF, val);
        addr = block_step(addr, back);
        k = k + 1;
    }
    addr
}

/// A block transfer with no device behind it: only the address advances.
fn block_skip(madr: u32, back: bool, n: u32) -> (end: u32)
    ensures
        end == block_addr(madr, back, n as nat),
{
    let mut addr = madr;
    let mut k: u32 = 0;
    while k < n
        invariant
            k <= n,
            addr == block_addr(madr, back, k as nat),
        decreases n - k,
    {
        addr = block_step(addr, back);
        k = k + 1;
    }
    addr
}

/// Walks the GPU linked list at `madr`, feeding every packet's payload to GP0.
fn linked_list_to_gpu(ram: &Ram, gpu: &mut Gpu, madr: u32)
    requires
        ram.wf(),
        old(gpu)@.wf(),
        list_ends(ram.data@, ram_off(madr)),
    ensures
        final(gpu)@.wf(),
        final(gpu)@ == fed(old(gpu)@, list_result(ram.data@, ram_off(madr))),
{
    let ghost r = ram.data@;
    let ghost h0 = ram_off(madr);
    let ghost mut fuel: nat = choose|f: nat| (#[trigger] list_words(r, h0, f)) is Some;
    let ghost target = fed(gpu@, list_result(r, h0));
    let mut header_addr = madr & 0x001F_FFFF;
    loop
        invariant_except_break
            fed(gpu@, list_words(r, header_addr, fuel)->Some_0) == target,
        invariant
            ram.wf(),
            ram.data@ == r,
            gpu@.wf(),
            list_words(r, header_addr, fuel) is Some,
        ensures
            gpu@ == target,
            gpu@.wf(),
        decreases fuel,
    {
        let ghost h = header_addr;
        let header = ram.read32(header_addr);
        let count = header >> 24u32;
        let next_ptr = header & 0x00FF_FFFF;
        let ghost g1 = gpu@;
        assert(header_addr < RAM_BYTES);
        assert(header >> 24u32 < 256) by (bit_vector);
        let mut i: u32 = 0;
        while i < count
            invariant
                i <= count,
                ram.wf(),
                ram.data@ == r,
                h == header_addr,
                header_addr < RAM_BYTES,
                count == le32(r, h as int) >> 24u32,
                count < 256,
                packet_fits(r, h),
                gpu@.wf(),
                gpu@ == fed(g1, packet_words(r, h).take(i as int)),
            decreases count - i,
        {
            assert(word_fits(ram_off((h + 4 * (i + 1)) as u32)));
            let word_addr = (header_addr + (i + 1) * 4) & 0x001F_FFFF;
            let val = ram.read32(word_addr);
            gpu.write_gp0(val);
            assert(packet_words(r, h).take(i + 1).drop_last() =~= packet_words(r, h).take(i as int));
            i = i + 1;
        }
        assert(packet_words(r, h).take(count as int) =~= packet_words(r, h));
        if next_ptr == 0x00FF_FFFF {
            break;
        }
        proof {
            let rest = list_words(r, ram_off(next_ptr), (fuel - 1) as nat)->Some_0;
            lemma_fed_concat(g1, packet_words(r, h), rest);
            fuel = (fuel - 1) as nat;
        }
        header_addr = next_ptr & 0x001F_FFFF;
    }
}


/// Running channel `j` leaves DPCR and every other channel as they were.
proof fn lemma_ran_keeps_others(w: DmaWorld, j: int, k: int)
    requires
        0 <= j < 7,
        0 <= k < 7,
        k != j,
    ensures
        w.channel_ran(j).dma.dpcr == w.dma.dpcr,
        w.channel_ran(j).dma.channels[k] == w.dma.channels[k],
{
}

impl DmaController {
    /// Runs the transfer of active channel `ch` to completion.
    fn run_channel(&mut self, ch: usize, ram: &mut Ram, gpu: &mut Gpu, intc: &mut InterruptController)
        requires
            ch < 7,
            old(ram).wf(),
            old(gpu)@.wf(),
            old(self).active(ch as int),
            dma_world(*old(self), old(ram).data@, old(gpu)@, *old(intc)).channel_ok(ch as int),
        ensures
            final(ram).wf(),
            final(gpu)@.wf(),
            dma_world(*final(self), final(ram).data@, final(gpu)@, *final(intc)) == dma_world(
                *old(self),
                old(ram).data@,
                old(gpu)@,
                *old(intc),
            ).channel_ran(ch as int),
    {
        let c0 = self.channels[ch];
        let mut c = c0;
        c.start_transfer();
        if ch == 6 {
            c.madr = otc_clear(ram, c0.madr, c0.bcr);
        } else if ch == 2 && c0.sync_mode() == 2 {
            linked_list_to_gpu(ram, gpu, c0.madr);
            c.madr = END_MARKER;
        } else {
            let n = block_len(&c0);
            let back = c0.step_backward();
            if ch == 2 && c0.direction_from_ram() {
                c.madr = block_to_gpu(ram, gpu, c0.madr, back, n);
            } else if ch == 2 {
                c.madr = block_from_gpu(ram, gpu, c0.madr, back, n);
            } else {
                c.madr = block_skip(c0.madr, back, n);
            }
        }
        c.finish_transfer();
        self.channels[ch] = c;
        self.set_channel_irq(ch, intc);
    }

    /// Runs, in channel order, the transfer of every enabled channel that is started or
    /// busy; returns whether any ran.
    pub fn step_dma(&mut self, ram: &mut Ram, gpu: &mut Gpu, intc: &mut InterruptController) -> (executed: bool)
        requires
            old(ram).wf(),
            old(gpu)@.wf(),
            dma_world(*old(self), old(ram).data@, old(gpu)@, *old(intc)).channels_ok_from(0),
        ensures
            final(ram).wf(),
            final(gpu)@.wf(),
            dma_world(*final(self), final(ram).data@, final(gpu)@, *final(intc)) == dma_world(
                *old(self),
                old(ram).data@,
                old(gpu)@,
                *old(intc),
            ).channels_ran_from(0),
            executed == old(self).any_active(),
    {
        let ghost d0 = *self;
        let ghost target = dma_world(*self, ram.data@, gpu@, *intc).channels_ran_from(0);
        let mut executed = false;
        let mut ch: usize = 0;
        while ch < 7
            invariant
                ch <= 7,
                ram.wf(),
                gpu@.wf(),
                dma_world(*self, ram.data@, gpu@, *intc).channels_ran_from(ch as int) == target,
                dma_world(*self, ram.data@, gpu@, *intc).channels_ok_from(ch as int),
                self.dpcr == d0.dpcr,
                forall|k: int| ch <= k < 7 ==> #[trigger] self.channels[k] == d0.channels[k],
                executed == exists|i: int| 0 <= i < ch && #[trigger] d0.active(i),
            decreases 7 - ch,
        {
            let ghost w = dma_world(*self, ram.data@, gpu@, *intc);
            assert(self.active(ch as int) == d0.active(ch as int));
            if self.is_channel_enabled(ch) && (self.channels[ch].is_trigger_set()
                || self.channels[ch].is_busy()) {
                self.run_channel(ch, ram, gpu, intc);
                executed = true;
                proof {
                    assert forall|k: int| ch + 1 <= k < 7 implies #[trigger] self.channels[k]
                        == d0.channels[k] by {
                        lemma_ran_keeps_others(w, ch as int, k);
                    }
                    lemma_ran_keeps_others(w, ch as int, (ch + 1) % 7);
                }
            }
            ch = ch + 1;
        }
        executed
    }
}

/// RAM offsets of consecutive ordering-table entries: four bytes down, modulo 2MB.
proof fn lemma_prev24_offset(x: u32)
    by (bit_vector)
    requires
        x < 0x100_0000,
    ensures
        x >= 4 ==> ((x - 4) as u32) & 0x001F_FFFFu32 == if x & 0x001F_FFFFu32 >= 4 {
            ((x & 0x001F_FFFFu32) - 4) as u32
        } else {
            ((x & 0x001F_FFFFu32) + 0x1F_FFFC) as u32
        },
        x < 4 ==> ((x + 0xFF_FFFC) as u32) & 0x001F_FFFFu32 == ((x & 0x001F_FFFFu32)
            + 0x1F_FFFC) as u32,
{
}

/// The RAM offset of entry `k` of an ordering table.
spec fn otc_off(start: u32, k: nat) -> int {
    ram_off(otc_addr(start, k)) as int
}

/// Entry `j` lies `4 * (k - j)` bytes above entry `k`, modulo 2MB.
proof fn lemma_otc_distance(start: u32, j: nat, k: nat)
    requires
        j <= k,
        k - j < 0x10000,
    ensures
        otc_off(start, j) == otc_off(start, k) + 4 * (k - j) || otc_off(start, j) == otc_off(
            start,
            k,
        ) + 4 * (k - j) - 0x20_0000,
    decreases k - j,
{
    lemma_and_le(otc_addr(start, j), 0x001F_FFFFu32);
    lemma_and_le(otc_addr(start, k), 0x001F_FFFFu32);
    if j < k {
        let k1 = (k - 1) as nat;
        lemma_otc_distance(start, j, k1);
        lemma_otc_addr_24(start, k1);
        lemma_prev24_offset(otc_addr(start, k1));
        lemma_and_le(otc_addr(start, k1), 0x001F_FFFFu32);
    }
}

/// Distinct entries of one ordering table never share a byte.
proof fn lemma_otc_disjoint(start: u32, n: nat, j: nat, k: nat)
    requires
        n <= 0x10000,
        j < k < n,
        otc_fits(start, n),
    ensures
        otc_off(start, k) + 4 <= otc_off(start, j) || otc_off(start, j) + 4 <= otc_off(start, k),
{
    lemma_otc_distance(start, j, k);
    assert(word_fits(ram_off(otc_addr(start, j))));
    assert(word_fits(ram_off(otc_addr(start, k))));
}

/// While an ordering table is being linked, every entry written so far holds the address
/// of the entry below it.
proof fn lemma_otc_linked_read(ram: Seq<u8>, start: u32, n: nat, i: nat, k: nat)
    requires
        ram.len() == RAM_BYTES,
        n <= 0x10000,
        otc_fits(start, n),
        k < i < n,
    ensures
        otc_linked(ram, start, i).len() == RAM_BYTES,
        le32(otc_linked(ram, start, i), otc_off(start, k)) == otc_addr(start, k + 1),
    decreases i,
{
    let i1 = (i - 1) as nat;
    assert(word_fits(ram_off(otc_addr(start, i1))));
    lemma_otc_linked_len(ram, start, n, i1);
    if i1 == k {
        lemma_le32_put32(otc_linked(ram, start, i1), otc_off(start, k), otc_addr(start, i));
    } else {
        lemma_otc_linked_read(ram, start, n, i1, k);
        assert(word_fits(ram_off(otc_addr(start, k))));
        lemma_otc_disjoint(start, n, k, i1);
        lemma_le32_put32_other(
            otc_linked(ram, start, i1),
            otc_off(start, i1),
            otc_addr(start, i),
            otc_off(start, k),
        );
    }
}

/// Linking keeps the size of RAM.
proof fn lemma_otc_linked_len(ram: Seq<u8>, start: u32, n: nat, i: nat)
    requires
        ram.len() == RAM_BYTES,
        otc_fits(start, n),
        i < n,
    ensures
        otc_linked(ram, start, i).len() == RAM_BYTES,
    decreases i,
{
    if i > 0 {
        let i1 = (i - 1) as nat;
        lemma_otc_linked_len(ram, start, n, i1);
        assert(word_fits(ram_off(otc_addr(start, i1))));
    }
}

/// An ordering-table clear on channel 6 leaves a backward-linked list in RAM: each of its
/// entries holds the address of the entry four bytes below it, and the last one holds the
/// end marker.
pub proof fn lemma_otc_clear_links(w: DmaWorld, k: nat)
    requires
        w.ram.len() == RAM_BYTES,
        w.dma.active(6),
        w.channel_ok(6),
        k < otc_count(w.dma.channels[6].bcr),
    ensures
        ({
            let c = w.dma.channels[6];
            let n = otc_count(c.bcr);
            le32(w.channel_ran(6).ram, ram_off(otc_addr(c.madr, k)) as int) == if k + 1 < n {
                otc_addr(c.madr, k + 1)
            } else {
                END_MARKER
            }
        }),
{
    let c = w.dma.channels[6];
    let n = otc_count(c.bcr);
    let last = (n - 1) as nat;
    lemma_and_le(c.bcr, 0xFFFF);
    assert(word_fits(ram_off(otc_addr(c.madr, last))));
    lemma_otc_linked_len(w.ram, c.madr, n, last);
    if k == last {
        lemma_le32_put32(otc_linked(w.ram, c.madr, last), otc_off(c.madr, last), END_MARKER);
    } else {
        lemma_otc_linked_read(w.ram, c.madr, n, last, k);
        assert(word_fits(ram_off(otc_addr(c.madr, k))));
        lemma_otc_disjoint(c.madr, n, k, last);
        lemma_le32_put32_other(
            otc_linked(w.ram, c.madr, last),
            otc_off(c.madr, last),
            END_MARKER,
            otc_off(c.madr, k),
        );
    }
}

/// The DICR bits that a write leaves, whether bit 31 then goes up or down.
proof fn lemma_dicr_bits(cur: u32, val: u32)
    by (bit_vector)
    ensures
        ({
            let nd = (val & 0x00FF_FFFF) | ((((cur >> 24u32) & 0x7F) & !((val >> 24u32) & 0x7F))
                << 24u32);
            &&& ((nd | 0x8000_0000u32) >> 24u32) & 0x7F == ((cur >> 24u32) & 0x7F) & !((val
                >> 24u32) & 0x7F)
            &&& ((nd & !0x8000_0000u32) >> 24u32) & 0x7F == ((cur >> 24u32) & 0x7F) & !((val
                >> 24u32) & 0x7F)
            &&& (nd | 0x8000_0000u32) & 0x00FF_FFFF == val & 0x00FF_FFFF
            &&& (nd & !0x8000_0000u32) & 0x00FF_FFFF == val & 0x00FF_FFFF
        }),
{
}

/// A DICR write acknowledges exactly the channel flags (bits 30..24) written as 1 and
/// takes bits 23..0 from the value.
pub proof fn lemma_dicr_acknowledge(d: DmaController, intc: InterruptController, val: u32)
    ensures
        ((d.reg_written(0x1F80_10F4, val, intc).0.dicr >> 24u32) & 0x7F) == ((d.dicr >> 24u32)
            & 0x7F) & !((val >> 24u32) & 0x7F),
        d.reg_written(0x1F80_10F4, val, intc).0.dicr & 0x00FF_FFFF == val & 0x00FF_FFFF,
{
    assert(0x1F80_10F4u32 & 0xFF == 0xF4) by (bit_vector);
    lemma_dicr_bits(d.dicr, val);
}

/// Running channel `ch` leaves it inactive.
proof fn lemma_ran_channel_idle(w: DmaWorld, ch: int)
    requires
        0 <= ch < 7,
    ensures
        !w.channel_ran(ch).dma.active(ch),
{
    if w.dma.active(ch) {
        let chcr = w.dma.channels[ch].chcr | 0x1000_0000u32;
        lemma_finish_clears(chcr);
    }
}

/// Running channels `k..7` leaves each of them inactive, and DPCR and channels `0..k` as
/// they were.
proof fn lemma_ran_from_idle(w: DmaWorld, k: int, j: int)
    requires
        0 <= k <= 7,
        0 <= j < 7,
    ensures
        w.channels_ran_from(k).dma.dpcr == w.dma.dpcr,
        j < k ==> w.channels_ran_from(k).dma.channels[j] == w.dma.channels[j],
        k <= j ==> !w.channels_ran_from(k).dma.active(j),
    decreases 7 - k,
{
    if k < 7 {
        let w1 = w.channel_ran(k);
        lemma_ran_from_idle(w1, k + 1, j);
        if j != k {
            lemma_ran_keeps_others(w, k, j);
        } else {
            lemma_ran_channel_idle(w, k);
        }
    }
}

/// A DMA step completes every transfer it starts: afterwards no channel is active.
pub proof fn lemma_step_leaves_no_transfer(w: DmaWorld)
    ensures
        !w.channels_ran_from(0).dma.any_active(),
{
    assert forall|j: int| 0 <= j < 7 implies !#[trigger] w.channels_ran_from(0).dma.active(j) by {
        lemma_ran_from_idle(w, 0, j);
    }
}

/// DICR bit arithmetic of a completed transfer: setting a channel flag, then raising or
/// lowering bit 31, keeps every channel flag already set.
proof fn lemma_flag_bits(x: u32, s: u32, t: u32)
    by (bit_vector)
    requires
        24 <= s < 31,
        24 <= t < 31,
    ensures
        ((x | (1u32 << s)) | 0x8000_0000u32) & (1u32 << s) != 0,
        ((x | (1u32 << s)) & !0x8000_0000u32) & (1u32 << s) != 0,
        x & (1u32 << t) != 0 ==> ((x | (1u32 << s)) | 0x8000_0000u32) & (1u32 << t) != 0,
        x & (1u32 << t) != 0 ==> ((x | (1u32 << s)) & !0x8000_0000u32) & (1u32 << t) != 0,
        (x | 0x1000_0000u32) & !0x1100_0000u32 == x & !0x1100_0000u32,
{
}

/// Running channel `k` sets its completion flag when it is active, and keeps every flag
/// already set.
proof fn lemma_ran_flags(w: DmaWorld, k: int, j: int)
    requires
        0 <= k < 7,
        0 <= j < 7,
    ensures
        w.dma.active(k) ==> w.channel_ran(k).dma.dicr & channel_flag(k) != 0,
        w.dma.dicr & channel_flag(j) != 0 ==> w.channel_ran(k).dma.dicr & channel_flag(j) != 0,
        w.dma.active(k) ==> w.channel_ran(k).dma.channels[k].chcr == w.dma.channels[k].chcr
            & !0x1100_0000u32,
{
    lemma_flag_bits(w.dma.dicr, (24 + k) as u32, (24 + j) as u32);
    lemma_flag_bits(w.dma.channels[k].chcr, 24, 24);
}

/// What running channels `k..7` does to each channel: channels before `k` and inactive
/// ones keep their registers; an active one ends with start and busy clear, its other CHCR
/// bits and BCR kept, MADR at the end marker after a linked list, and its DICR flag set;
/// flags already set stay set, and DPCR is unchanged.
proof fn lemma_ran_from_channel(w: DmaWorld, k: int, j: int)
    requires
        0 <= k <= 7,
        0 <= j < 7,
    ensures
        w.channels_ran_from(k).dma.dpcr == w.dma.dpcr,
        j < k ==> w.channels_ran_from(k).dma.channels[j] == w.dma.channels[j],
        k <= j && !w.dma.active(j) ==> w.channels_ran_from(k).dma.channels[j] == w.dma.channels[j],
        k <= j && w.dma.active(j) ==> {
            let c = w.dma.channels[j];
            let c2 = w.channels_ran_from(k).dma.channels[j];
            &&& c2.chcr == c.chcr & !0x1100_0000u32
            &&& c2.bcr == c.bcr
            &&& (j == 2 && c.mode() == 2 ==> c2.madr == END_MARKER)
            &&& w.channels_ran_from(k).dma.dicr & channel_flag(j) != 0
        },
        w.dma.dicr & channel_flag(j) != 0 ==> w.channels_ran_from(k).dma.dicr & channel_flag(j)
            != 0,
    decreases 7 - k,
{
    if k < 7 {
        let w1 = w.channel_ran(k);
        lemma_ran_from_channel(w1, k + 1, j);
        lemma_ran_flags(w, k, j);
        if j != k {
            lemma_ran_keeps_others(w, k, j);
        } else {
            lemma_ran_from_channel(w1, k + 1, k);
        }
    }
}

/// Per channel, a DMA step runs exactly the active channels: each active channel ends with
/// its start and busy bits clear (its other CHCR bits and BCR kept, and MADR at the end
/// marker after a linked list) and its DICR completion flag set; every inactive channel
/// and DPCR stay as they were.
pub proof fn lemma_step_per_channel(w: DmaWorld, j: int)
    requires
        0 <= j < 7,
    ensures
        w.channels_ran_from(0).dma.dpcr == w.dma.dpcr,
        !w.dma.active(j) ==> w.channels_ran_from(0).dma.channels[j] == w.dma.channels[j],
        w.dma.active(j) ==> {
            let c = w.dma.channels[j];
            let c2 = w.channels_ran_from(0).dma.channels[j];
            &&& !c2.triggered() && !c2.busy()
            &&& c2.chcr == c.chcr & !0x1100_0000u32
            &&& c2.bcr == c.bcr
            &&& (j == 2 && c.mode() == 2 ==> c2.madr == END_MARKER)
            &&& w.channels_ran_from(0).dma.dicr & channel_flag(j) != 0
        },
{
    lemma_ran_from_channel(w, 0, j);
    lemma_finish_clears(w.dma.channels[j].chcr);
}

/// A forward block address moves four bytes per word, modulo 16MB.
proof fn lemma_block_addr_forward(start: u32, k: nat)
    requires
        k >= 1,
    ensures
        block_addr(start, false, k) as int == (start + 4 * k) % 0x100_0000,
    decreases k,
{
    let a = block_addr(start, false, (k - 1) as nat);
    if k > 1 {
        lemma_block_addr_forward(start, (k - 1) as nat);
    }
    let b = wrap_add(a, 4);
    assert(b & 0x00FF_FFFFu32 == b % 0x100_0000) by (bit_vector);
    if a + 4 > u32::MAX {
        assert((a + 4 - 0x1_0000_0000) % 0x100_0000 == (a + 4) % 0x100_0000);
    }
    if k > 1 {
        assert((((start + 4 * (k - 1)) % 0x100_0000) + 4) % 0x100_0000 == (start + 4 * k)
            % 0x100_0000) by (nonlinear_arith);
    }
}

/// A block transfer from RAM to the GPU on channel 2 moves exactly BCR's block size words
/// (bits 15..0) in sync mode 0, and block size times block count (bits 31..16) in sync mode
/// 1, a product of 0 meaning 0x10000: GP0 receives that many words, read from MADR on, RAM
/// is not written, and MADR ends that many words further on (forward: 4 bytes per word,
/// modulo 16MB).
pub proof fn lemma_block_transfer_words(w: DmaWorld)
    requires
        w.dma.active(2),
        w.dma.channels[2].mode() != 2,
        w.dma.channels[2].from_ram(),
    ensures
        ({
            let c = w.dma.channels[2];
            let size = c.bcr & 0xFFFF;
            let count = c.bcr >> 16u32;
            let n: int = if c.mode() == 1 { size * count } else { size as int };
            let words: nat = if n == 0 { 0x10000 } else { n as nat };
            let r = w.channel_ran(2);
            &&& block_words(w.ram, c.madr, c.backward(), words).len() == words
            &&& r.gpu == fed(w.gpu, block_words(w.ram, c.madr, c.backward(), words))
            &&& r.ram == w.ram
            &&& r.dma.channels[2].madr == block_addr(c.madr, c.backward(), words)
            &&& !c.backward() ==> r.dma.channels[2].madr as int == (c.madr + 4 * words)
                % 0x100_0000
        }),
{
    let c = w.dma.channels[2];
    let b = c.bcr;
    assert((b >> 16u32) & 0xFFFF == b >> 16u32) by (bit_vector);
    let n = block_count(c);
    if !c.backward() {
        lemma_block_addr_forward(c.madr, n);
    }
}

} // verus!
