//! A plain MIPS register file: 32 general purpose registers, HI/LO and the PC.
use vstd::prelude::*;

verus! {

#[derive(Debug, Clone, PartialEq, Eq)]
pub struct RegisterFile {
    pub gpr: [u32; 32],
    pub hi: u32,
    pub lo: u32,
    pub pc: u32,
}

impl RegisterFile {
    /// All registers clear, PC at the BIOS reset vector.
    pub fn new() -> (r: Self)
        ensures
            forall|i: int| 0 <= i < 32 ==> r.gpr[i] == 0,
            r.hi == 0,
            r.lo == 0,
            r.pc == 0xBFC0_0000,
    {
        RegisterFile { gpr: [0u32; 32], hi: 0, lo: 0, pc: 0xBFC0_0000 }
    }

    /// Register `reg`; `$zero` always reads 0.
    pub fn read(&self, reg: usize) -> (r: u32)
        requires
            reg < 32,
        ensures
            r == if reg == 0 {
                0
            } else {
                self.gpr[reg as int]
            },
    {
        if reg == 0 {
            0
        } else {
            self.gpr[reg]
        }
    }

    /// Writes register `reg`; a write to `$zero` is discarded.
    pub fn write(&mut self, reg: usize, val: u32)
        requires
            reg < 32,
        ensures
            final(self).gpr@ == if reg == 0 {
                old(self).gpr@
            } else {
                old(self).gpr@.update(reg as int, val)
            },
            final(self).hi == old(self).hi,
            final(self).lo == old(self).lo,
            final(self).pc == old(self).pc,
    {
        if reg != 0 {
            self.gpr[reg] = val;
        }
    }
}

/// A write to a register is seen by the next read of it, and `$zero` stays 0.
pub proof fn lemma_register_read_after_write(rf: RegisterFile, reg: usize, val: u32, other: usize)
    requires
        reg < 32,
        other < 32,
    ensures
        ({
            let g = if reg == 0 {
                rf.gpr@
            } else {
                rf.gpr@.update(reg as int, val)
            };
            &&& (reg != 0 ==> g[reg as int] == val)
            &&& (other != reg ==> g[other as int] == rf.gpr@[other as int])
        }),
{
}

impl Default for RegisterFile {
    fn default() -> (r: Self)
        ensures
            forall|i: int| 0 <= i < 32 ==> r.gpr[i] == 0,
            r.hi == 0,
            r.lo == 0,
            r.pc == 0xBFC0_0000,
    {
        Self::new()
    }
}

} // verus!
