//! 2MB main RAM.
use crate::bytes::{le16, le32, put16, put32};
use vstd::prelude::*;

verus! {

/// Size of main RAM in bytes.
pub const RAM_BYTES: usize = 0x200000;

/// 2MB PlayStation 1 main RAM, byte addressed.
pub struct Ram {
    pub data: Vec<u8>,
}

impl Ram {
    /// The RAM holds exactly 2MB.
    pub open spec fn wf(&self) -> bool {
        self.data@.len() == RAM_BYTES
    }

    /// Zero-filled RAM.
    pub fn new() -> (r: Self)
        ensures
            r.wf(),
            forall|i: int| 0 <= i < RAM_BYTES ==> r.data@[i] == 0,
    {
        Ram { data: vec![0u8; RAM_BYTES] }
    }

    pub fn read8(&self, offset: u32) -> (r: u8)
        requires
            self.wf(),
            offset < RAM_BYTES,
        ensures
            r == self.data@[offset as int],
    {
        self.data[offset as usize]
    }

    pub fn read16(&self, offset: u32) -> (r: u16)
        requires
            self.wf(),
            offset + 2 <= RAM_BYTES,
        ensures
            r == le16(self.data@, offset as int),
    {
        let o = offset as usize;
        (self.data[o] as u16) | ((self.data[o + 1] as u16) << 8u16)
    }

    pub fn read32(&self, offset: u32) -> (r: u32)
        requires
            self.wf(),
            offset + 4 <= RAM_BYTES,
        ensures
            r == le32(self.data@, offset as int),
    {
        let o = offset as usize;
        (self.data[o] as u32) | ((self.data[o + 1] as u32) << 8u32) | ((self.data[o + 2] as u32)
            << 16u32) | ((self.data[o + 3] as u32) << 24u32)
    }

    pub fn write8(&mut self, offset: u32, val: u8)
        requires
            old(self).wf(),
            offset < RAM_BYTES,
        ensures
            final(self).data@ == old(self).data@.update(offset as int, val),
            final(self).wf(),
    {
        self.data[offset as usize] = val;
    }

    pub fn write16(&mut self, offset: u32, val: u16)
        requires
            old(self).wf(),
            offset + 2 <= RAM_BYTES,
        ensures
            final(self).data@ == put16(old(self).data@, offset as int, val),
            final(self).wf(),
    {
        let o = offset as usize;
        self.data[o] = (val & 0xFF) as u8;
        self.data[o + 1] = (val >> 8u16) as u8;
    }

    pub fn write32(&mut self, offset: u32, val: u32)
        requires
            old(self).wf(),
            offset + 4 <= RAM_BYTES,
        ensures
            final(self).data@ == put32(old(self).data@, offset as int, val),
            final(self).wf(),
    {
        let o = offset as usize;
        self.data[o] = (val & 0xFF) as u8;
        self.data[o + 1] = ((val >> 8u32) & 0xFF) as u8;
        self.data[o + 2] = ((val >> 16u32) & 0xFF) as u8;
        self.data[o + 3] = (val >> 24u32) as u8;
    }
}

} // verus!

verus! {

impl Default for Ram {
    fn default() -> (r: Self)
        ensures
            r.wf(),
            forall|i: int| 0 <= i < RAM_BYTES ==> r.data@[i] == 0,
    {
        Self::new()
    }
}

} // verus!
