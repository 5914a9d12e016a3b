//! Interrupt controller: I_STAT (0x1F80_1070) and I_MASK (0x1F80_1074) over IRQ lines 0..10.
use crate::bits::lemma_and_le;
use vstd::prelude::*;

verus! {

pub const IRQ_VBLANK: u32 = 0;
pub const IRQ_GPU: u32 = 1;
pub const IRQ_CDROM: u32 = 2;
pub const IRQ_DMA: u32 = 3;
pub const IRQ_TIMER0: u32 = 4;
pub const IRQ_TIMER1: u32 = 5;
pub const IRQ_TIMER2: u32 = 6;
pub const IRQ_CONTROLLER: u32 = 7;
pub const IRQ_SIO: u32 = 8;
pub const IRQ_SPU: u32 = 9;
pub const IRQ_PIO: u32 = 10;

#[derive(Debug, Clone, Copy, PartialEq, Eq)]
pub struct InterruptController {
    pub istat: u32,
    pub imask: u32,
}

impl InterruptController {
    /// The word at a register address: I_STAT, I_MASK, else 0.
    pub open spec fn reg_value(self, paddr: u32) -> u32 {
        if paddr == 0x1F80_1070 {
            self.istat
        } else if paddr == 0x1F80_1074 {
            self.imask
        } else {
            0
        }
    }

    /// After a 32-bit write: writing 1s to I_STAT acknowledges those lines; I_MASK keeps
    /// the 11 line bits of the value.
    pub open spec fn word_written(self, paddr: u32, val: u32) -> Self {
        if paddr == 0x1F80_1070 {
            InterruptController { istat: self.istat & !val, ..self }
        } else if paddr == 0x1F80_1074 {
            InterruptController { imask: val & 0x7FF, ..self }
        } else {
            self
        }
    }

    /// The halfword at a register address (the two halves of I_STAT and I_MASK).
    pub open spec fn half_value(self, paddr: u32) -> u16 {
        if paddr == 0x1F80_1070 {
            self.istat as u16
        } else if paddr == 0x1F80_1072 {
            (self.istat >> 16u32) as u16
        } else if paddr == 0x1F80_1074 {
            self.imask as u16
        } else if paddr == 0x1F80_1076 {
            (self.imask >> 16u32) as u16
        } else {
            0
        }
    }

    /// After a 16-bit write to one half of a register.
    pub open spec fn half_written(self, paddr: u32, val: u16) -> Self {
        if paddr == 0x1F80_1070 {
            InterruptController { istat: self.istat & !(val as u32), ..self }
        } else if paddr == 0x1F80_1072 {
            InterruptController { istat: self.istat & !((val as u32) << 16u32), ..self }
        } else if paddr == 0x1F80_1074 {
            InterruptController { imask: ((self.imask & 0xFFFF_0000u32) | (val as u32)) & 0x7FF, ..self }
        } else if paddr == 0x1F80_1076 {
            InterruptController {
                imask: ((self.imask & 0x0000_FFFFu32) | ((val as u32) << 16u32)) & 0x7FF,
                ..self
            }
        } else {
            self
        }
    }

    /// After an 8-bit write to one byte of a register.
    pub open spec fn byte_written(self, paddr: u32, val: u8) -> Self {
        let shift = (paddr & 3) * 8;
        let base = paddr & !3u32;
        if base == 0x1F80_1070 {
            InterruptController { istat: self.istat & !((val as u32) << shift), ..self }
        } else if base == 0x1F80_1074 {
            InterruptController {
                imask: ((self.imask & !(0xFFu32 << shift)) | ((val as u32) << shift)) & 0x7FF,
                ..self
            }
        } else {
            self
        }
    }

    /// Whether the CPU interrupt line is asserted: a pending line that is not masked.
    pub open spec fn irq_asserted(self) -> bool {
        self.istat & self.imask & 0x7FF != 0
    }

    /// No line pending, all masked.
    pub fn new() -> (r: Self)
        ensures
            r.istat == 0 && r.imask == 0,
    {
        InterruptController { istat: 0, imask: 0 }
    }

    /// Raises line `irq` (lines above 10 do not exist and are ignored).
    pub fn trigger(&mut self, irq: u32)
        ensures
            final(self).imask == old(self).imask,
            final(self).istat == if irq <= 10 {
                old(self).istat | (1u32 << irq)
            } else {
                old(self).istat
            },
    {
        if irq <= 10 {
            self.istat = self.istat | (1u32 << irq);
        }
    }

    pub fn is_cpu_irq_asserted(&self) -> (r: bool)
        ensures
            r == self.irq_asserted(),
    {
        (self.istat & self.imask & 0x7FF) != 0
    }

    pub fn read32(&self, paddr: u32) -> (r: u32)
        ensures
            r == self.reg_value(paddr),
    {
        match paddr {
            0x1F80_1070 => self.istat,
            0x1F80_1074 => self.imask,
            _ => 0,
        }
    }

    pub fn read16(&self, paddr: u32) -> (r: u16)
        ensures
            r == self.half_value(paddr),
    {
        match paddr {
            0x1F80_1070 => self.istat as u16,
            0x1F80_1072 => (self.istat >> 16u32) as u16,
            0x1F80_1074 => self.imask as u16,
            0x1F80_1076 => (self.imask >> 16u32) as u16,
            _ => 0,
        }
    }

    /// A byte of the register word that holds `paddr`.
    pub fn read8(&self, paddr: u32) -> (r: u8)
        ensures
            r == (self.reg_value(paddr & !3u32) >> ((paddr & 3) * 8)) as u8,
    {
        let off = paddr & 3;
        proof {
            lemma_and_le(paddr, 3);
        }
        let shift = off * 8;
        (self.read32(paddr & !3u32) >> shift) as u8
    }

    pub fn write32(&mut self, paddr: u32, val: u32)
        ensures
            *final(self) == old(self).word_written(paddr, val),
    {
        match paddr {
            0x1F80_1070 => self.istat = self.istat & !val,
            0x1F80_1074 => self.imask = val & 0x7FF,
            _ => {},
        }
    }

    pub fn write16(&mut self, paddr: u32, val: u16)
        ensures
            *final(self) == old(self).half_written(paddr, val),
    {
        match paddr {
            0x1F80_1070 => self.istat = self.istat & !(val as u32),
            0x1F80_1072 => self.istat = self.istat & !((val as u32) << 16u32),
            0x1F80_1074 => {
                let mask = (self.imask & 0xFFFF_0000u32) | (val as u32);
                self.imask = mask & 0x7FF;
            },
            0x1F80_1076 => {
                let mask = (self.imask & 0x0000_FFFFu32) | ((val as u32) << 16u32);
                self.imask = mask & 0x7FF;
            },
            _ => {},
        }
    }

    pub fn write8(&mut self, paddr: u32, val: u8)
        ensures
            *final(self) == old(self).byte_written(paddr, val),
    {
        let off = paddr & 3;
        proof {
            lemma_and_le(paddr, 3);
        }
        let shift = off * 8;
        let base = paddr & !3u32;
        if base == 0x1F80_1070 {
            self.istat = self.istat & !((val as u32) << shift);
        } else if base == 0x1F80_1074 {
            let mut cur = self.imask;
            let byte_mask = !(0xFFu32 << shift);
            cur = (cur & byte_mask) | ((val as u32) << shift);
            self.imask = cur & 0x7FF;
        }
    }
}

/// Writing a line's bit to I_STAT acknowledges that line and leaves the others pending.
pub proof fn lemma_acknowledge(intc: InterruptController, line: u32, other: u32)
    requires
        line <= 10,
        other <= 10,
        other != line,
    ensures
        intc.word_written(0x1F80_1070, 1u32 << line).istat & (1u32 << line) == 0,
        intc.word_written(0x1F80_1070, 1u32 << line).istat & (1u32 << other) == intc.istat & (1u32
            << other),
{
    let s = intc.istat;
    assert((s & !(1u32 << line)) & (1u32 << line) == 0) by (bit_vector)
        requires
            line <= 10,
    ;
    assert((s & !(1u32 << line)) & (1u32 << other) == s & (1u32 << other)) by (bit_vector)
        requires
            line <= 10,
            other <= 10,
            other != line,
    ;
}

/// A raised line asserts the CPU interrupt exactly when it is unmasked (no other line
/// pending).
pub proof fn lemma_trigger_asserts(line: u32, imask: u32)
    requires
        line <= 10,
    ensures
        (InterruptController { istat: 1u32 << line, imask }).irq_asserted() <==> imask & (1u32
            << line) != 0,
{
    assert((((1u32 << line) & imask & 0x7FF) != 0) <==> (imask & (1u32 << line) != 0))
        by (bit_vector)
        requires
            line <= 10,
    ;
}

impl Default for InterruptController {
    fn default() -> (r: Self)
        ensures
            r.istat == 0 && r.imask == 0,
    {
        Self::new()
    }
}

} // verus!
