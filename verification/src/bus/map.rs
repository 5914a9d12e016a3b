use vstd::prelude::*;

verus! {

pub const RAM_WINDOW_BASE: u32 = 0x0000_0000;
pub const RAM_WINDOW_END: u32 = 0x007F_FFFF;
/// 2MB of RAM.
pub const RAM_SIZE: u32 = 0x0020_0000;
/// RAM is mirrored every 2MB across its window.
pub const RAM_MASK: u32 = 0x001F_FFFF;

pub const SCRATCHPAD_BASE: u32 = 0x1F80_0000;
pub const SCRATCHPAD_END: u32 = 0x1F80_03FF;
/// 1KB of scratchpad.
pub const SCRATCHPAD_SIZE: u32 = 0x0000_0400;

pub const BIOS_BASE: u32 = 0x1FC0_0000;
pub const BIOS_END: u32 = 0x1FC7_FFFF;
/// 512KB of BIOS ROM.
pub const BIOS_SIZE: u32 = 0x0008_0000;

pub const IO_BASE: u32 = 0x1F80_1000;
pub const IO_END: u32 = 0x1F80_2000;

/// Physical addresses of the RAM window.
pub open spec fn ram_window(p: u32) -> bool {
    p <= RAM_WINDOW_END
}

/// Physical addresses of the scratchpad.
pub open spec fn scratchpad_window(p: u32) -> bool {
    SCRATCHPAD_BASE <= p <= SCRATCHPAD_END
}

/// Physical addresses of the BIOS ROM.
pub open spec fn bios_window(p: u32) -> bool {
    BIOS_BASE <= p <= BIOS_END
}

/// Physical addresses of the I/O ports.
pub open spec fn io_window(p: u32) -> bool {
    IO_BASE <= p <= IO_END
}

/// Physical address that a MIPS virtual address designates: KUSEG, KSEG0 and KSEG1 all
/// alias the low 512MB of the physical address space.
pub open spec fn physical(vaddr: u32) -> u32 {
    (vaddr % 0x2000_0000) as u32
}

/// Strips the segment bits of a virtual address.
pub fn mask_address(vaddr: u32) -> (paddr: u32)
    ensures
        paddr == physical(vaddr),
{
    let r = vaddr & 0x1FFF_FFFF;
    assert(vaddr & 0x1FFF_FFFF == vaddr % 0x2000_0000) by (bit_vector);
    r
}

} // verus!
