//! One DMA channel: MADR, BCR and CHCR.
use crate::bits::lemma_and_le;
use vstd::prelude::*;

verus! {

#[derive(Debug, Clone, Copy, PartialEq, Eq)]
pub struct DmaChannel {
    pub madr: u32,
    pub bcr: u32,
    pub chcr: u32,
}

impl DmaChannel {
    /// CHCR bit 0: transfer from RAM.
    pub open spec fn from_ram(self) -> bool {
        self.chcr & 1 != 0
    }

    /// CHCR bit 1: the address steps backward.
    pub open spec fn backward(self) -> bool {
        self.chcr & 2 != 0
    }

    /// CHCR bits 10..9: sync mode.
    pub open spec fn mode(self) -> u32 {
        (self.chcr >> 9u32) & 3
    }

    /// CHCR bit 24: start/trigger.
    pub open spec fn triggered(self) -> bool {
        self.chcr & 0x0100_0000u32 != 0
    }

    /// CHCR bit 28: busy.
    pub open spec fn busy(self) -> bool {
        self.chcr & 0x1000_0000u32 != 0
    }

    /// The register at `offset` (0 MADR, 4 BCR, 8 CHCR).
    pub open spec fn reg_value(self, offset: u32) -> u32 {
        if offset == 0 {
            self.madr
        } else if offset == 4 {
            self.bcr
        } else if offset == 8 {
            self.chcr
        } else {
            0
        }
    }

    /// After a register write; MADR keeps 24 address bits.
    pub open spec fn reg_written(self, offset: u32, val: u32) -> DmaChannel {
        if offset == 0 {
            DmaChannel { madr: val & 0x00FF_FFFF, ..self }
        } else if offset == 4 {
            DmaChannel { bcr: val, ..self }
        } else if offset == 8 {
            DmaChannel { chcr: val, ..self }
        } else {
            self
        }
    }

    pub fn new() -> (r: Self)
        ensures
            r == (DmaChannel { madr: 0, bcr: 0, chcr: 0 }),
    {
        DmaChannel { madr: 0, bcr: 0, chcr: 0 }
    }

    pub fn direction_from_ram(&self) -> (r: bool)
        ensures
            r == self.from_ram(),
    {
        (self.chcr & 1) != 0
    }

    pub fn step_backward(&self) -> (r: bool)
        ensures
            r == self.backward(),
    {
        (self.chcr & 2) != 0
    }

    pub fn sync_mode(&self) -> (r: u32)
        ensures
            r == self.mode(),
            r < 4,
    {
        let c = self.chcr;
        proof {
            lemma_and_le(c >> 9u32, 3);
        }
        (c >> 9u32) & 3
    }

    pub fn is_trigger_set(&self) -> (r: bool)
        ensures
            r == self.triggered(),
    {
        (self.chcr & 0x0100_0000u32) != 0
    }

    pub fn is_busy(&self) -> (r: bool)
        ensures
            r == self.busy(),
    {
        (self.chcr & 0x1000_0000u32) != 0
    }

    /// Marks the channel busy.
    pub fn start_transfer(&mut self)
        ensures
            *final(self) == (DmaChannel { chcr: old(self).chcr | 0x1000_0000u32, ..*old(self) }),
    {
        self.chcr = self.chcr | 0x1000_0000u32;
    }

    /// Clears the trigger and busy bits.
    pub fn finish_transfer(&mut self)
        ensures
            *final(self) == (DmaChannel { chcr: old(self).chcr & !0x1100_0000u32, ..*old(self) }),
    {
        let c = self.chcr;
        assert((c & !0x0100_0000u32) & !0x1000_0000u32 == c & !0x1100_0000u32) by (bit_vector);
        self.chcr = self.chcr & !0x0100_0000u32;
        self.chcr = self.chcr & !0x1000_0000u32;
    }

    pub fn read32(&self, offset: u32) -> (r: u32)
        ensures
            r == self.reg_value(offset),
    {
        match offset {
            0x0 => self.madr,
            0x4 => self.bcr,
            0x8 => self.chcr,
            _ => 0,
        }
    }

    pub fn write32(&mut self, offset: u32, val: u32)
        ensures
            *final(self) == old(self).reg_written(offset, val),
    {
        match offset {
            0x0 => self.madr = val & 0x00FF_FFFF,
            0x4 => self.bcr = val,
            0x8 => self.chcr = val,
            _ => {},
        }
    }
}

/// A finished transfer is neither triggered nor busy, and keeps the other CHCR bits.
pub proof fn lemma_finish_clears(chcr: u32)
    by (bit_vector)
    ensures
        (chcr & !0x1100_0000u32) & 0x0100_0000u32 == 0,
        (chcr & !0x1100_0000u32) & 0x1000_0000u32 == 0,
        (chcr & !0x1100_0000u32) & 0x0000_0603u32 == chcr & 0x0000_0603u32,
{
}

impl Default for DmaChannel {
    fn default() -> (r: Self)
        ensures
            r == (DmaChannel { madr: 0, bcr: 0, chcr: 0 }),
    {
        Self::new()
    }
}

} // verus!
