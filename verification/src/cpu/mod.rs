//! MIPS R3000A interpreter: register file, branch delay slot, two-stage load delay, COP0
//! exceptions and interception of the BIOS TTY calls.
pub mod cop0;
pub mod decoder;
pub mod execute;
pub mod registers;
pub mod semantics;
pub mod tty;

use crate::bus::Bus;
pub use cop0::{Cop0, Exception, ExceptionCode};
pub use decoder::{decode, Instruction};
use semantics::{is_bios_vector, wrap_add};
use vstd::prelude::*;

verus! {

#[derive(Debug, Clone, PartialEq, Eq)]
pub struct Cpu {
    pub gpr: [u32; 32],
    pub hi: u32,
    pub lo: u32,
    pub pc: u32,
    pub next_pc: u32,
    pub cop0: Cop0,
    pub cop_regs: [[u32; 32]; 4],
    pub in_delay_slot: bool,
    pub next_in_delay_slot: bool,
    pub load_delay_current_reg: usize,
    pub load_delay_current_val: u32,
    pub load_delay_pending_reg: usize,
    pub load_delay_pending_val: u32,
    pub load_delay_applied_reg: usize,
    pub load_delay_old_val: u32,
}

impl Cpu {
    /// Register numbers held in the load pipeline name real registers.
    pub open spec fn wf(&self) -> bool {
        &&& self.load_delay_current_reg < 32
        &&& self.load_delay_pending_reg < 32
        &&& self.load_delay_applied_reg < 32
    }

    /// Reset state: registers clear, PC at the BIOS reset vector, COP0 at reset, no
    /// branch or load in flight.
    pub open spec fn is_reset(self) -> bool {
        &&& forall|i: int| 0 <= i < 32 ==> #[trigger] self.gpr[i] == 0
        &&& forall|c: int, i: int|
            0 <= c < 4 && 0 <= i < 32 ==> #[trigger] self.cop_regs[c][i] == 0
        &&& self.hi == 0
        &&& self.lo == 0
        &&& self.pc == 0xBFC0_0000
        &&& self.next_pc == 0xBFC0_0004
        &&& self.cop0 == (Cop0 { badvaddr: 0, status: 0x0040_0000, cause: 0, epc: 0, prid: 2 })
        &&& !self.in_delay_slot
        &&& !self.next_in_delay_slot
        &&& self.load_delay_current_reg == 0
        &&& self.load_delay_current_val == 0
        &&& self.load_delay_pending_reg == 0
        &&& self.load_delay_pending_val == 0
        &&& self.load_delay_applied_reg == 0
        &&& self.load_delay_old_val == 0
    }

    pub fn new() -> (r: Self)
        ensures
            r.is_reset(),
            r.wf(),
    {
        Cpu {
            gpr: [0u32; 32],
            hi: 0,
            lo: 0,
            pc: 0xBFC0_0000,
            next_pc: 0xBFC0_0004,
            cop0: Cop0::new(),
            cop_regs: [[0u32; 32]; 4],
            in_delay_slot: false,
            next_in_delay_slot: false,
            load_delay_current_reg: 0,
            load_delay_current_val: 0,
            load_delay_pending_reg: 0,
            load_delay_pending_val: 0,
            load_delay_applied_reg: 0,
            load_delay_old_val: 0,
        }
    }

    /// The value of `reg` as the instruction in a load delay slot sees it: the value from
    /// before the load that was just committed, for that register.
    pub fn get_gpr_branch(&self, reg: usize) -> (r: u32)
        requires
            reg < 32,
        ensures
            r == if reg != 0 && reg == self.load_delay_applied_reg {
                self.load_delay_old_val
            } else {
                self.gpr[reg as int]
            },
    {
        if reg != 0 && reg == self.load_delay_applied_reg {
            self.load_delay_old_val
        } else {
            self.gpr[reg]
        }
    }

    /// Writes `reg` at once (ignoring `$zero`); a load already in flight to it is dropped.
    pub fn set_gpr(&mut self, reg: usize, val: u32)
        requires
            reg < 32,
        ensures
            *final(self) == old(self).with_gpr(reg, val),
    {
        if reg != 0 {
            self.gpr[reg] = val;
            if self.load_delay_current_reg == reg {
                self.load_delay_current_reg = 0;
            }
        }
    }

    /// Schedules a delayed load of `val` into `reg` (ignoring `$zero`).
    pub fn schedule_load(&mut self, reg: usize, val: u32)
        requires
            reg < 32,
        ensures
            *final(self) == old(self).with_load(reg, val),
    {
        if reg != 0 {
            self.load_delay_pending_reg = reg;
            self.load_delay_pending_val = val;
            if self.load_delay_current_reg == reg {
                self.load_delay_current_reg = 0;
            }
        }
    }

    /// Branches to `target` after the delay slot.
    pub fn branch(&mut self, target: u32)
        ensures
            *final(self) == old(self).with_branch(target),
    {
        self.next_pc = target;
        self.next_in_delay_slot = true;
    }
}

impl Cpu {
    /// Executes one instruction (or one intercepted BIOS TTY call).
    pub fn step<B: Bus>(&mut self, bus: &mut B)
        requires
            old(self).wf(),
            B::inv(old(bus)@),
            old(self).step_ok::<B>(old(bus)@),
        ensures
            final(self).wf(),
            B::inv(final(bus)@),
            (*final(self), final(bus)@) == old(self).step_result::<B>(old(bus)@),
    {
        let ghost c0 = *self;
        if self.load_delay_current_reg != 0 {
            self.load_delay_applied_reg = self.load_delay_current_reg;
            self.load_delay_old_val = self.gpr[self.load_delay_current_reg];
            self.gpr[self.load_delay_current_reg] = self.load_delay_current_val;
        } else {
            self.load_delay_applied_reg = 0;
            self.load_delay_old_val = 0;
        }
        self.gpr[0] = 0;
        self.load_delay_current_reg = self.load_delay_pending_reg;
        self.load_delay_current_val = self.load_delay_pending_val;
        self.load_delay_pending_reg = 0;
        self.load_delay_pending_val = 0;

        let current_pc = self.pc;
        self.in_delay_slot = self.next_in_delay_slot;
        self.next_in_delay_slot = false;
        let is_current_delay_slot = self.in_delay_slot;
        if !is_current_delay_slot && self.next_pc != self.pc.wrapping_add(4) {
            self.next_pc = self.pc.wrapping_add(4);
        }
        self.pc = self.next_pc;
        self.next_pc = self.pc.wrapping_add(4);
        assert(*self == c0.step_prologue());

        let paddr_pc = current_pc & 0x1FFF_FFFF;
        if paddr_pc == 0x0000_00A0 || paddr_pc == 0x0000_00B0 || paddr_pc == 0x0000_00C0 {
            self.handle_bios_call(bus);
            if self.gpr[31] != 0 {
                self.pc = self.gpr[31];
                self.next_pc = self.gpr[31].wrapping_add(4);
                return;
            }
        }
        if current_pc % 4 != 0 {
            self.cop0.badvaddr = current_pc;
            let target = self.cop0.trigger_exception(
                Exception::AddressErrorLoad,
                is_current_delay_slot,
                current_pc,
            );
            self.pc = target;
            self.next_pc = target.wrapping_add(4);
            self.in_delay_slot = false;
            self.next_in_delay_slot = false;
            return;
        }
        let inst_word = bus.read32(current_pc);
        bus.step(1);
        let inst = decode(inst_word);
        self.execute_inst(bus, inst, is_current_delay_slot, current_pc);
    }
}

impl Default for Cpu {
    fn default() -> (r: Self)
        ensures
            r.is_reset(),
            r.wf(),
    {
        Self::new()
    }
}

} // verus!
