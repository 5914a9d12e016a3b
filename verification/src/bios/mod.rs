//! 512KB BIOS ROM.
use crate::bytes::{le16, le32};
use crate::cpu::tty::dec_digits;
use vstd::prelude::*;

verus! {

/// Size of the BIOS ROM in bytes.
pub const BIOS_BYTES: usize = 0x80000;

/// Offset of the marker byte that an empty ROM carries.
pub const BIOS_MARKER_OFFSET: usize = 0x7FF52;

/// 512KB PlayStation 1 BIOS ROM.
pub struct Bios {
    pub data: Vec<u8>,
}

/// The contents of an empty ROM: zeros, but for an `'E'` at the marker offset.
pub open spec fn blank_rom_byte(i: int) -> u8 {
    if i == BIOS_MARKER_OFFSET as int {
        0x45u8
    } else {
        0u8
    }
}

/// Text of the error that an oversized image gives: "BIOS image too large: ", the image's
/// length in decimal, and " bytes (max 512KB)".
pub open spec fn oversize_text(len: usize) -> Seq<char> {
    "BIOS image too large: "@ + dec_digits(len as nat).map_values(|b: u8| b as char)
        + " bytes (max 512KB)"@
}

/// Formats the message that rejects an image of `len` bytes with std's `format!`, which
/// writes an unsigned integer as its decimal digits.
#[verifier::external_body]
fn oversize_message(len: usize) -> (s: String)
    ensures
        s@ == oversize_text(len),
{
    format!("BIOS image too large: {} bytes (max 512KB)", len)
}

impl Bios {
    /// The ROM holds exactly 512KB.
    pub open spec fn wf(&self) -> bool {
        self.data@.len() == BIOS_BYTES
    }

    /// An empty ROM.
    pub fn new() -> (r: Self)
        ensures
            r.wf(),
            forall|i: int| 0 <= i < BIOS_BYTES ==> r.data@[i] == blank_rom_byte(i),
    {
        let mut data = vec![0u8; BIOS_BYTES];
        data[BIOS_MARKER_OFFSET] = 0x45u8;
        Bios { data }
    }

    /// A ROM whose first bytes are `bytes`, the rest as in an empty ROM; an image larger
    /// than 512KB is refused.
    pub fn from_bytes(bytes: &[u8]) -> (r: Result<Self, String>)
        ensures
            bytes@.len() > BIOS_BYTES <==> r is Err,
            r is Err ==> r->Err_0@ == oversize_text(bytes@.len() as usize),
            r is Ok ==> r->Ok_0.wf() && forall|i: int|
                0 <= i < BIOS_BYTES ==> r->Ok_0.data@[i] == if i < bytes@.len() {
                    bytes@[i]
                } else {
                    blank_rom_byte(i)
                },
    {
        let mut bios = Self::new();
        if bytes.len() > BIOS_BYTES {
            return Err(oversize_message(bytes.len()));
        }
        let mut i: usize = 0;
        while i < bytes.len()
            invariant
                bytes@.len() <= BIOS_BYTES,
                0 <= i <= bytes@.len(),
                bios.wf(),
                forall|j: int|
                    0 <= j < BIOS_BYTES ==> bios.data@[j] == if j < i {
                        bytes@[j]
                    } else {
                        blank_rom_byte(j)
                    },
            decreases bytes@.len() - i,
        {
            bios.data[i] = bytes[i];
            i = i + 1;
        }
        Ok(bios)
    }

    pub fn read8(&self, offset: u32) -> (r: u8)
        requires
            self.wf(),
            offset < BIOS_BYTES,
        ensures
            r == self.data@[offset as int],
    {
        self.data[offset as usize]
    }

    pub fn read16(&self, offset: u32) -> (r: u16)
        requires
            self.wf(),
            offset + 2 <= BIOS_BYTES,
        ensures
            r == le16(self.data@, offset as int),
    {
        let o = offset as usize;
        (self.data[o] as u16) | ((self.data[o + 1] as u16) << 8u16)
    }

    pub fn read32(&self, offset: u32) -> (r: u32)
        requires
            self.wf(),
            offset + 4 <= BIOS_BYTES,
        ensures
            r == le32(self.data@, offset as int),
    {
        let o = offset as usize;
        (self.data[o] as u32) | ((self.data[o + 1] as u32) << 8u32) | ((self.data[o + 2] as u32)
            << 16u32) | ((self.data[o + 3] as u32) << 24u32)
    }
}

impl Default for Bios {
    fn default() -> (r: Self)
        ensures
            r.wf(),
            forall|i: int| 0 <= i < BIOS_BYTES ==> r.data@[i] == blank_rom_byte(i),
    {
        Self::new()
    }
}

} // verus!
