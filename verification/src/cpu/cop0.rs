//! System control coprocessor (COP0): exception state and the KU/IE mode stack.
use vstd::prelude::*;

verus! {

/// Exceptions that the CPU raises, each with its Cause.ExcCode.
#[derive(Debug, Clone, Copy, PartialEq, Eq)]
pub enum Exception {
    Interrupt,
    AddressErrorLoad,
    AddressErrorStore,
    Syscall,
    Break,
    ReservedInstruction,
    CoprocessorUnusable,
    Overflow,
}

pub type ExceptionCode = Exception;

/// The ExcCode that the hardware records for an exception.
pub open spec fn exc_code(e: Exception) -> u32 {
    match e {
        Exception::Interrupt => 0x00,
        Exception::AddressErrorLoad => 0x04,
        Exception::AddressErrorStore => 0x05,
        Exception::Syscall => 0x08,
        Exception::Break => 0x09,
        Exception::ReservedInstruction => 0x0A,
        Exception::CoprocessorUnusable => 0x0B,
        Exception::Overflow => 0x0C,
    }
}

impl Exception {
    /// The exception's ExcCode (the value written to Cause bits 6..2).
    pub fn code(self) -> (r: u32)
        ensures
            r == exc_code(self),
    {
        match self {
            Exception::Interrupt => 0x00,
            Exception::AddressErrorLoad => 0x04,
            Exception::AddressErrorStore => 0x05,
            Exception::Syscall => 0x08,
            Exception::Break => 0x09,
            Exception::ReservedInstruction => 0x0A,
            Exception::CoprocessorUnusable => 0x0B,
            Exception::Overflow => 0x0C,
        }
    }
}

/// Status after an exception: the KU/IE stack (bits 5..0) is pushed by two bits, the
/// current pair becoming kernel mode with interrupts off; the other bits are kept.
pub open spec fn pushed_status(status: u32) -> u32 {
    (status & !0x3Fu32) | (((status & 0x3Fu32) << 2u32) & 0x3Fu32)
}

/// Status after RFE: bits 5..2 of the KU/IE stack move down to bits 3..0; bits 5..4 and
/// every bit above the stack are kept.
pub open spec fn popped_status(status: u32) -> u32 {
    (status & !0x0Fu32) | (((status & 0x3Fu32) >> 2u32) & 0x0Fu32)
}

/// Cause after an exception: ExcCode replaced, BD set exactly when the faulting instruction
/// sat in a branch delay slot, every other bit kept.
pub open spec fn cause_after(cause: u32, e: Exception, in_delay_slot: bool) -> u32 {
    let c = (cause & !0x7Cu32) | ((exc_code(e) & 0x1Fu32) << 2u32);
    if in_delay_slot {
        c | 0x8000_0000u32
    } else {
        c & !0x8000_0000u32
    }
}

/// The exception vector selected by the BEV bit (bit 22) of Status.
pub open spec fn vector_for(status: u32) -> u32 {
    if status & 0x0040_0000u32 != 0 {
        0xBFC0_0180u32
    } else {
        0x8000_0080u32
    }
}

/// The address of the instruction that EPC names: the branch for an instruction in a
/// delay slot, the instruction itself otherwise.
pub open spec fn epc_for(pc: u32, in_delay_slot: bool) -> u32 {
    if in_delay_slot {
        (if pc >= 4 {
            pc - 4
        } else {
            pc + 0x1_0000_0000 - 4
        }) as u32
    } else {
        pc
    }
}

/// Bit 22 of Status (BEV) does not move when the mode stack is pushed.
pub proof fn lemma_push_keeps_bev(status: u32)
    ensures
        vector_for(pushed_status(status)) == vector_for(status),
{
    assert((((status & !0x3Fu32) | (((status & 0x3Fu32) << 2u32) & 0x3Fu32)) & 0x0040_0000u32)
        == (status & 0x0040_0000u32)) by (bit_vector);
}

#[derive(Debug, Clone, PartialEq, Eq)]
pub struct Cop0 {
    pub badvaddr: u32,
    pub status: u32,
    pub cause: u32,
    pub epc: u32,
    pub prid: u32,
}

impl Cop0 {
    /// COP0 state after an exception of kind `e` raised by the instruction at `pc`.
    pub open spec fn entered(self, e: Exception, in_delay_slot: bool, pc: u32) -> Cop0 {
        Cop0 {
            status: pushed_status(self.status),
            cause: cause_after(self.cause, e, in_delay_slot),
            epc: epc_for(pc, in_delay_slot),
            ..self
        }
    }

    /// The value that `read_reg(reg)` gives.
    pub open spec fn reg_value(self, reg: usize) -> u32 {
        if reg == 8 {
            self.badvaddr
        } else if reg == 12 {
            self.status
        } else if reg == 13 {
            self.cause
        } else if reg == 14 {
            self.epc
        } else if reg == 15 {
            2
        } else {
            0
        }
    }

    /// COP0 after `write_reg(reg, val)`: BadVAddr, Status, Cause and EPC are writable,
    /// everything else ignores the write.
    pub open spec fn reg_written(self, reg: usize, val: u32) -> Cop0 {
        if reg == 8 {
            Cop0 { badvaddr: val, ..self }
        } else if reg == 12 {
            Cop0 { status: val, ..self }
        } else if reg == 13 {
            Cop0 { cause: val, ..self }
        } else if reg == 14 {
            Cop0 { epc: val, ..self }
        } else {
            self
        }
    }

    /// Whether coprocessor `n` may be used: COP0 always, COP2 when Status bit 30 is set,
    /// the others never.
    pub open spec fn usable(self, n: u32) -> bool {
        if n == 0 {
            true
        } else if n == 2 {
            self.status & 0x4000_0000u32 != 0
        } else {
            false
        }
    }

    /// Reset state: BEV set, everything else clear, PRId 2.
    pub fn new() -> (r: Self)
        ensures
            r == (Cop0 { badvaddr: 0, status: 0x0040_0000, cause: 0, epc: 0, prid: 2 }),
    {
        Cop0 { badvaddr: 0, status: 0x0040_0000, cause: 0, epc: 0, prid: 0x0000_0002 }
    }

    /// The ExcCode field of Cause.
    pub fn cause_exc_code(&self) -> (r: u32)
        ensures
            r == (self.cause >> 2u32) & 0x1F,
    {
        (self.cause >> 2u32) & 0x1F
    }

    pub fn read_reg(&self, reg: usize) -> (r: u32)
        ensures
            r == self.reg_value(reg),
    {
        match reg {
            8 => self.badvaddr,
            12 => self.status,
            13 => self.cause,
            14 => self.epc,
            15 => 0x0000_0002,
            _ => 0,
        }
    }

    pub fn write_reg(&mut self, reg: usize, val: u32)
        ensures
            *final(self) == old(self).reg_written(reg, val),
    {
        match reg {
            8 => self.badvaddr = val,
            12 => self.status = val,
            13 => self.cause = val,
            14 => self.epc = val,
            _ => {},
        }
    }

    /// Records exception `exc` raised by the instruction at `pc` and returns the vector to
    /// continue at.
    pub fn trigger_exception(&mut self, exc: Exception, in_delay_slot: bool, pc: u32) -> (r: u32)
        ensures
            *final(self) == old(self).entered(exc, in_delay_slot, pc),
            r == vector_for(old(self).status),
    {
        let mode = self.status & 0x3F;
        let shifted_mode = (mode << 2u32) & 0x3F;
        self.status = (self.status & !0x3Fu32) | shifted_mode;
        self.cause = (self.cause & !0x7Cu32) | ((exc.code() & 0x1F) << 2u32);
        if in_delay_slot {
            self.cause = self.cause | 0x8000_0000u32;
            self.epc = pc.wrapping_sub(4);
        } else {
            self.cause = self.cause & !0x8000_0000u32;
            self.epc = pc;
        }
        proof {
            lemma_push_keeps_bev(old(self).status);
        }
        if (self.status & 0x0040_0000u32) != 0 {
            0xBFC0_0180
        } else {
            0x8000_0080
        }
    }

    pub fn is_cop_usable(&self, cop_num: u32) -> (r: bool)
        ensures
            r == self.usable(cop_num),
    {
        match cop_num {
            0 => true,
            2 => (self.status & 0x4000_0000u32) != 0,
            _ => false,
        }
    }

    /// Raises Coprocessor Unusable for coprocessor `cop_num`, recording the coprocessor
    /// number in Cause bits 29..28, and returns the vector.
    pub fn trigger_cop_unusable_exception(&mut self, cop_num: u32, in_delay_slot: bool, pc: u32)
        -> (r: u32)
        ensures
            *final(self) == (Cop0 {
                cause: (old(self).entered(Exception::CoprocessorUnusable, in_delay_slot, pc).cause
                    & !0x3000_0000u32) | ((cop_num & 3) << 28u32),
                ..old(self).entered(Exception::CoprocessorUnusable, in_delay_slot, pc)
            }),
            r == vector_for(old(self).status),
    {
        let target = self.trigger_exception(Exception::CoprocessorUnusable, in_delay_slot, pc);
        self.cause = (self.cause & !0x3000_0000u32) | ((cop_num & 3) << 28u32);
        target
    }

    /// Restore From Exception: pops the KU/IE mode stack.
    pub fn rfe(&mut self)
        ensures
            *final(self) == (Cop0 { status: popped_status(old(self).status), ..*old(self) }),
    {
        let mode = self.status & 0x3F;
        let shifted_mode = (mode >> 2u32) & 0x0F;
        self.status = (self.status & !0x0Fu32) | shifted_mode;
    }
}

/// RFE undoes an exception entry on the current and previous KU/IE pairs, and neither
/// touches the bits above the mode stack.
pub proof fn lemma_rfe_undoes_exception(status: u32)
    ensures
        popped_status(pushed_status(status)) & 0x0F == status & 0x0F,
        popped_status(pushed_status(status)) & !0x3Fu32 == status & !0x3Fu32,
{
    assert(((((status & !0x3Fu32) | (((status & 0x3Fu32) << 2u32) & 0x3Fu32)) & !0x0Fu32) | (
    ((((status & !0x3Fu32) | (((status & 0x3Fu32) << 2u32) & 0x3Fu32)) & 0x3Fu32) >> 2u32)
        & 0x0Fu32)) & 0x0F == status & 0x0F) by (bit_vector);
    assert(((((status & !0x3Fu32) | (((status & 0x3Fu32) << 2u32) & 0x3Fu32)) & !0x0Fu32) | (
    ((((status & !0x3Fu32) | (((status & 0x3Fu32) << 2u32) & 0x3Fu32)) & 0x3Fu32) >> 2u32)
        & 0x0Fu32)) & !0x3Fu32 == status & !0x3Fu32) by (bit_vector);
}

impl Default for Cop0 {
    fn default() -> (r: Self)
        ensures
            r == (Cop0 { badvaddr: 0, status: 0x0040_0000, cause: 0, epc: 0, prid: 2 }),
    {
        Self::new()
    }
}

} // verus!
