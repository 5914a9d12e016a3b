//! A bus of plain RAM and ROM that records every write, for CPU unit tests.
use super::Bus;
use crate::bytes::{le16, le32, put16, put32};
use crate::bits::lemma_and_le;
use vstd::prelude::*;

verus! {

/// Physical address (the low 29 bits of a virtual address).
pub open spec fn phys(addr: u32) -> u32 {
    addr & 0x1FFF_FFFFu32
}

/// Whether `addr` lands in the 8MB RAM window (2MB mirrored four times).
pub open spec fn in_ram_window(addr: u32) -> bool {
    phys(addr) < 0x0080_0000u32
}

/// Offset in RAM of an address in the RAM window.
pub open spec fn ram_offset(addr: u32) -> u32 {
    phys(addr) & 0x001F_FFFFu32
}

/// Whether `addr` lands in the 512KB BIOS ROM.
pub open spec fn in_bios(addr: u32) -> bool {
    0x1FC0_0000u32 <= phys(addr) < 0x1FC8_0000u32
}

/// Offsets masked into RAM lie inside it.
pub proof fn lemma_ram_mask(x: u32)
    ensures
        x & 0x001F_FFFFu32 < 0x200000,
{
    lemma_and_le(x, 0x001F_FFFFu32);
}

/// Lightweight bus of 2MB RAM (mirrored over 8MB) and 512KB ROM; every write is logged.
pub struct MockBus {
    pub ram: Vec<u8>,
    pub bios: Vec<u8>,
    pub cycles: u64,
    pub write_log: Vec<(u32, u32, u8)>,
}

impl MockBus {
    /// Zeroed RAM and ROM, no cycles, an empty write log.
    pub fn new() -> (r: Self)
        ensures
            Self::inv(r@),
            forall|i: int| 0 <= i < 0x200000 ==> r.ram@[i] == 0,
            forall|i: int| 0 <= i < 0x80000 ==> r.bios@[i] == 0,
            r.cycles == 0,
            r.write_log@.len() == 0,
    {
        MockBus {
            ram: vec![0u8; 0x200000],
            bios: vec![0u8; 0x80000],
            cycles: 0,
            write_log: Vec::new(),
        }
    }

    /// Copies `code` into RAM at the physical offset of `addr` when it fits; otherwise RAM
    /// is left as it was.
    pub fn load_code(&mut self, addr: u32, code: &[u8])
        requires
            Self::inv(old(self)@),
        ensures
            Self::inv(final(self)@),
            final(self).bios == old(self).bios,
            final(self).cycles == old(self).cycles,
            final(self).write_log == old(self).write_log,
            ({
                let p = (addr & 0x001F_FFFFu32) as int;
                if p + code@.len() <= 0x200000 {
                    final(self).ram@ == old(self).ram@.subrange(0, p) + code@ + old(self).ram@.subrange(
                        p + code@.len(),
                        0x200000,
                    )
                } else {
                    final(self).ram@ == old(self).ram@
                }
            }),
    {
        let phys = (addr & 0x001F_FFFFu32) as usize;
        proof {
            lemma_ram_mask(addr);
        }
        if code.len() <= self.ram.len() - phys {
            let mut i: usize = 0;
            while i < code.len()
                invariant
                    Self::inv(self@),
                    phys + code@.len() <= 0x200000,
                    0 <= i <= code@.len(),
                    self.bios == old(self).bios,
                    self.cycles == old(self).cycles,
                    self.write_log == old(self).write_log,
                    forall|j: int|
                        0 <= j < 0x200000 ==> self.ram@[j] == if phys <= j < phys + i {
                            code@[j - phys]
                        } else {
                            old(self).ram@[j]
                        },
                decreases code@.len() - i,
            {
                self.ram[phys + i] = code[i];
                i = i + 1;
            }
            assert(self.ram@ =~= old(self).ram@.subrange(0, phys as int) + code@
                + old(self).ram@.subrange(phys + code@.len(), 0x200000));
        }
    }
}

impl Default for MockBus {
    fn default() -> (r: Self)
        ensures
            Self::inv(r@),
            forall|i: int| 0 <= i < 0x200000 ==> r.ram@[i] == 0,
            forall|i: int| 0 <= i < 0x80000 ==> r.bios@[i] == 0,
            r.cycles == 0,
            r.write_log@.len() == 0,
    {
        Self::new()
    }
}

/// The contents of a `MockBus`: RAM and ROM bytes, the cycle count and the write log.
pub ghost struct MockBusView {
    pub ram: Seq<u8>,
    pub bios: Seq<u8>,
    pub cycles: u64,
    pub write_log: Seq<(u32, u32, u8)>,
}

impl View for MockBus {
    type V = MockBusView;

    open spec fn view(&self) -> MockBusView {
        MockBusView {
            ram: self.ram@,
            bios: self.bios@,
            cycles: self.cycles,
            write_log: self.write_log@,
        }
    }
}

impl Bus for MockBus {
    open spec fn inv(m: MockBusView) -> bool {
        m.ram.len() == 0x200000 && m.bios.len() == 0x80000
    }

    open spec fn can_read16(m: MockBusView, addr: u32) -> bool {
        in_ram_window(addr) ==> ram_offset(addr) + 2 <= 0x200000
    }

    open spec fn can_read32(m: MockBusView, addr: u32) -> bool {
        &&& (in_ram_window(addr) ==> ram_offset(addr) + 4 <= 0x200000)
        &&& (in_bios(addr) ==> phys(addr) - 0x1FC0_0000u32 + 4 <= 0x80000)
    }

    open spec fn can_write16(m: MockBusView, addr: u32) -> bool {
        in_ram_window(addr) ==> ram_offset(addr) + 2 <= 0x200000
    }

    open spec fn can_write32(m: MockBusView, addr: u32) -> bool {
        in_ram_window(addr) ==> ram_offset(addr) + 4 <= 0x200000
    }

    open spec fn can_step(m: MockBusView, cycles: u32) -> bool {
        m.cycles + cycles <= u64::MAX
    }

    open spec fn read8_result(m: MockBusView, addr: u32) -> (u8, MockBusView) {
        (if in_ram_window(addr) {
            m.ram[ram_offset(addr) as int]
        } else {
            0
        }, m)
    }

    open spec fn read16_result(m: MockBusView, addr: u32) -> (u16, MockBusView) {
        (if in_ram_window(addr) {
            le16(m.ram, ram_offset(addr) as int)
        } else {
            0
        }, m)
    }

    open spec fn read32_result(m: MockBusView, addr: u32) -> (u32, MockBusView) {
        (if in_ram_window(addr) {
            le32(m.ram, ram_offset(addr) as int)
        } else if in_bios(addr) {
            le32(m.bios, phys(addr) - 0x1FC0_0000u32)
        } else {
            0
        }, m)
    }

    open spec fn written8(m: MockBusView, addr: u32, val: u8) -> MockBusView {
        MockBusView {
            ram: if in_ram_window(addr) {
                m.ram.update(ram_offset(addr) as int, val)
            } else {
                m.ram
            },
            write_log: m.write_log.push((addr, val as u32, 1u8)),
            ..m
        }
    }

    open spec fn written16(m: MockBusView, addr: u32, val: u16) -> MockBusView {
        MockBusView {
            ram: if in_ram_window(addr) {
                put16(m.ram, ram_offset(addr) as int, val)
            } else {
                m.ram
            },
            write_log: m.write_log.push((addr, val as u32, 2u8)),
            ..m
        }
    }

    open spec fn written32(m: MockBusView, addr: u32, val: u32) -> MockBusView {
        MockBusView {
            ram: if in_ram_window(addr) {
                put32(m.ram, ram_offset(addr) as int, val)
            } else {
                m.ram
            },
            write_log: m.write_log.push((addr, val, 4u8)),
            ..m
        }
    }

    open spec fn stepped(m: MockBusView, cycles: u32) -> MockBusView {
        MockBusView { cycles: (m.cycles + cycles) as u64, ..m }
    }

    open spec fn tty_logged(m: MockBusView, ch: u8) -> MockBusView {
        m
    }

    fn read8(&mut self, addr: u32) -> (r: u8) {
        let phys = addr & 0x1FFF_FFFFu32;
        if phys < 0x0080_0000u32 {
            let offset = (phys & 0x001F_FFFFu32) as usize;
            proof {
                lemma_ram_mask(phys);
            }
            self.ram[offset]
        } else {
            0
        }
    }

    fn read16(&mut self, addr: u32) -> (r: u16) {
        let phys = addr & 0x1FFF_FFFFu32;
        if phys < 0x0080_0000u32 {
            let o = (phys & 0x001F_FFFFu32) as usize;
            proof {
                lemma_ram_mask(phys);
            }
            (self.ram[o] as u16) | ((self.ram[o + 1] as u16) << 8u16)
        } else {
            0
        }
    }

    fn read32(&mut self, addr: u32) -> (r: u32) {
        let phys = addr & 0x1FFF_FFFFu32;
        if phys < 0x0080_0000u32 {
            let o = (phys & 0x001F_FFFFu32) as usize;
            proof {
                lemma_ram_mask(phys);
            }
            (self.ram[o] as u32) | ((self.ram[o + 1] as u32) << 8u32) | ((self.ram[o + 2] as u32)
                << 16u32) | ((self.ram[o + 3] as u32) << 24u32)
        } else if 0x1FC0_0000u32 <= phys && phys < 0x1FC8_0000u32 {
            let o = (phys - 0x1FC0_0000u32) as usize;
            (self.bios[o] as u32) | ((self.bios[o + 1] as u32) << 8u32) | ((self.bios[o + 2] as u32)
                << 16u32) | ((self.bios[o + 3] as u32) << 24u32)
        } else {
            0
        }
    }

    fn write8(&mut self, addr: u32, val: u8) {
        let phys = addr & 0x1FFF_FFFFu32;
        self.write_log.push((addr, val as u32, 1u8));
        if phys < 0x0080_0000u32 {
            let offset = (phys & 0x001F_FFFFu32) as usize;
            proof {
                lemma_ram_mask(phys);
            }
            self.ram[offset] = val;
        }
    }

    fn write16(&mut self, addr: u32, val: u16) {
        let phys = addr & 0x1FFF_FFFFu32;
        self.write_log.push((addr, val as u32, 2u8));
        if phys < 0x0080_0000u32 {
            let o = (phys & 0x001F_FFFFu32) as usize;
            proof {
                lemma_ram_mask(phys);
            }
            self.ram[o] = (val & 0xFF) as u8;
            self.ram[o + 1] = (val >> 8u16) as u8;
        }
    }

    fn write32(&mut self, addr: u32, val: u32) {
        let phys = addr & 0x1FFF_FFFFu32;
        self.write_log.push((addr, val, 4u8));
        if phys < 0x0080_0000u32 {
            let o = (phys & 0x001F_FFFFu32) as usize;
            proof {
                lemma_ram_mask(phys);
            }
            self.ram[o] = (val & 0xFF) as u8;
            self.ram[o + 1] = ((val >> 8u32) & 0xFF) as u8;
            self.ram[o + 2] = ((val >> 16u32) & 0xFF) as u8;
            self.ram[o + 3] = (val >> 24u32) as u8;
        }
    }

    fn step(&mut self, cycles: u32) {
        self.cycles = self.cycles + cycles as u64;
    }

    fn log_tty_char(&mut self, ch: u8) {
    }
}

} // verus!
