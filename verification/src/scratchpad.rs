//! 1KB scratchpad (the CPU data cache used as fast RAM).
use crate::bytes::{le16, le32, put16, put32};
use vstd::prelude::*;

verus! {

/// Size of the scratchpad in bytes.
pub const SCRATCHPAD_BYTES: usize = 0x400;

/// 1KB scratchpad RAM, byte addressed.
pub struct Scratchpad {
    pub data: Vec<u8>,
}

impl Scratchpad {
    /// The scratchpad holds exactly 1KB.
    pub open spec fn wf(&self) -> bool {
        self.data@.len() == SCRATCHPAD_BYTES
    }

    /// Zero-filled scratchpad.
    pub fn new() -> (r: Self)
        ensures
            r.wf(),
            forall|i: int| 0 <= i < SCRATCHPAD_BYTES ==> r.data@[i] == 0,
    {
        Scratchpad { data: vec![0u8; SCRATCHPAD_BYTES] }
    }

    pub fn read8(&self, offset: u32) -> (r: u8)
        requires
            self.wf(),
            offset < SCRATCHPAD_BYTES,
        ensures
            r == self.data@[offset as int],
    {
        self.data[offset as usize]
    }

    pub fn read16(&self, offset: u32) -> (r: u16)
        requires
            self.wf(),
            offset + 2 <= SCRATCHPAD_BYTES,
        ensures
            r == le16(self.data@, offset as int),
    {
        let o = offset as usize;
        (self.data[o] as u16) | ((self.data[o + 1] as u16) << 8u16)
    }

    pub fn read32(&self, offset: u32) -> (r: u32)
        requires
            self.wf(),
            offset + 4 <= SCRATCHPAD_BYTES,
        ensures
            r == le32(self.data@, offset as int),
    {
        let o = offset as usize;
        (self.data[o] as u32) | ((self.data[o + 1] as u32) << 8u32) | ((self.data[o + 2] as u32)
            << 16u32) | ((self.data[o + 3] as u32) << 24u32)
    }

    pub fn write8(&mut self, offset: u32, val: u8)
        requires
            old(self).wf(),
            offset < SCRATCHPAD_BYTES,
        ensures
            final(self).data@ == old(self).data@.update(offset as int, val),
            final(self).wf(),
    {
        self.data[offset as usize] = val;
    }

    pub fn write16(&mut self, offset: u32, val: u16)
        requires
            old(self).wf(),
            offset + 2 <= SCRATCHPAD_BYTES,
        ensures
            final(self).data@ == put16(old(self).data@, offset as int, val),
            final(self).wf(),
    {
        let o = offset as usize;
        self.data[o] = (val & 0xFF) as u8;
        self.data[o + 1] = (val >> 8u16) as u8;
    }

    pub fn write32(&mut self, offset: u32, val: u32)
        requires
            old(self).wf(),
            offset + 4 <= SCRATCHPAD_BYTES,
        ensures
            final(self).data@ == put32(old(self).data@, offset as int, val),
            final(self).wf(),
    {
        let o = offset as usize;
        self.data[o] = (val & 0xFF) as u8;
        self.data[o + 1] = ((val >> 8u32) & 0xFF) as u8;
        self.data[o + 2] = ((val >> 16u32) & 0xFF) as u8;
        self.data[o + 3] = (val >> 24u32) as u8;
    }
}

} // verus!

verus! {

impl Default for Scratchpad {
    fn default() -> (r: Self)
        ensures
            r.wf(),
            forall|i: int| 0 <= i < SCRATCHPAD_BYTES ==> r.data@[i] == 0,
    {
        Self::new()
    }
}

} // verus!
