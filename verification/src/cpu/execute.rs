//! Execution of decoded instructions.
use super::cop0::Exception;
use super::decoder::{fields_in_range, Instruction};
use super::semantics::{
    accesses_memory,
    abs,
    lemma_product_halves, lemma_sign_extend64, lemma_signed_division, lemma_sint_cast, sext16, sext8, sint, wrap_add, wrap_sub,
};
use super::Cpu;
use crate::bus::Bus;
use crate::bits::lemma_and_le;
use vstd::prelude::*;

verus! {

/// Sign-extends a 16-bit immediate.
fn sign_ext(imm16: u16) -> (r: u32)
    ensures
        r == sext16(imm16),
{
    if imm16 < 0x8000 {
        imm16 as u32
    } else {
        imm16 as u32 + 0xFFFF_0000u32
    }
}

/// Sign-extends a byte.
fn sign_ext8(b: u8) -> (r: u32)
    ensures
        r == sext8(b),
{
    if b < 0x80 {
        b as u32
    } else {
        b as u32 + 0xFFFF_FF00u32
    }
}

/// The low five bits of a register, used as a variable shift amount.
fn shift_amount(x: u32) -> (r: u32)
    ensures
        r == x & 0x1F,
        r < 32,
{
    let r = x & 0x1F;
    proof {
        lemma_and_le(x, 0x1F);
    }
    r
}

pub open spec fn is_arith(i: Instruction) -> bool {
    match i {
        Instruction::Add { .. } | Instruction::Addu { .. } | Instruction::Sub { .. }
        | Instruction::Subu { .. } | Instruction::And { .. } | Instruction::Or { .. }
        | Instruction::Xor { .. } | Instruction::Nor { .. } | Instruction::Slt { .. }
        | Instruction::Sltu { .. } | Instruction::Sll { .. } | Instruction::Srl { .. }
        | Instruction::Sra { .. } | Instruction::Sllv { .. } | Instruction::Srlv { .. }
        | Instruction::Srav { .. } => true,
        _ => false,
    }
}

pub open spec fn is_muldiv(i: Instruction) -> bool {
    match i {
        Instruction::Mult { .. } | Instruction::Multu { .. } | Instruction::Div { .. }
        | Instruction::Divu { .. } | Instruction::Mfhi { .. } | Instruction::Mthi { .. }
        | Instruction::Mflo { .. } | Instruction::Mtlo { .. } => true,
        _ => false,
    }
}

pub open spec fn is_immediate(i: Instruction) -> bool {
    match i {
        Instruction::Addi { .. } | Instruction::Addiu { .. } | Instruction::Slti { .. }
        | Instruction::Sltiu { .. } | Instruction::Andi { .. } | Instruction::Ori { .. }
        | Instruction::Xori { .. } | Instruction::Lui { .. } => true,
        _ => false,
    }
}

pub open spec fn is_jump(i: Instruction) -> bool {
    match i {
        Instruction::J { .. } | Instruction::Jal { .. } | Instruction::Jr { .. }
        | Instruction::Jalr { .. } | Instruction::Beq { .. } | Instruction::Bne { .. }
        | Instruction::Blez { .. } | Instruction::Bgtz { .. } | Instruction::Bltz { .. }
        | Instruction::Bgez { .. } | Instruction::Bltzal { .. } | Instruction::Bgezal { .. } => true,
        _ => false,
    }
}

impl Cpu {
    /// Raises exception `e` for the instruction at `pc`.
    fn raise(&mut self, e: Exception, ds: bool, pc: u32)
        ensures
            *final(self) == old(self).raised(e, ds, pc),
    {
        let target = self.cop0.trigger_exception(e, ds, pc);
        self.pc = target;
        self.next_pc = target.wrapping_add(4);
        self.in_delay_slot = false;
        self.next_in_delay_slot = false;
    }

    /// Register-register ALU operations and shifts.
    fn exec_arith(&mut self, inst: Instruction, ds: bool, pc: u32)
        requires
            old(self).wf(),
            is_arith(inst),
            fields_in_range(inst),
        ensures
            *final(self) == old(self).executed_plain(inst, ds, pc),
            final(self).wf(),
    {
        match inst {
            Instruction::Add { rs, rt, rd } => {
                let a = self.gpr[rs];
                let b = self.gpr[rt];
                proof {
                    lemma_sint_cast(a);
                    lemma_sint_cast(b);
                }
                if (a as i32).checked_add(b as i32).is_none() {
                    self.raise(Exception::Overflow, ds, pc);
                } else {
                    self.set_gpr(rd, a.wrapping_add(b));
                }
            },
            Instruction::Addu { rs, rt, rd } => {
                let v = self.gpr[rs].wrapping_add(self.gpr[rt]);
                self.set_gpr(rd, v);
            },
            Instruction::Sub { rs, rt, rd } => {
                let a = self.gpr[rs];
                let b = self.gpr[rt];
                proof {
                    lemma_sint_cast(a);
                    lemma_sint_cast(b);
                }
                if (a as i32).checked_sub(b as i32).is_none() {
                    self.raise(Exception::Overflow, ds, pc);
                } else {
                    self.set_gpr(rd, a.wrapping_sub(b));
                }
            },
            Instruction::Subu { rs, rt, rd } => {
                let v = self.gpr[rs].wrapping_sub(self.gpr[rt]);
                self.set_gpr(rd, v);
            },
            Instruction::And { rs, rt, rd } => {
                let v = self.gpr[rs] & self.gpr[rt];
                self.set_gpr(rd, v);
            },
            Instruction::Or { rs, rt, rd } => {
                let v = self.gpr[rs] | self.gpr[rt];
                self.set_gpr(rd, v);
            },
            Instruction::Xor { rs, rt, rd } => {
                let v = self.gpr[rs] ^ self.gpr[rt];
                self.set_gpr(rd, v);
            },
            Instruction::Nor { rs, rt, rd } => {
                let v = !(self.gpr[rs] | self.gpr[rt]);
                self.set_gpr(rd, v);
            },
            Instruction::Slt { rs, rt, rd } => {
                let a = self.gpr[rs];
                let b = self.gpr[rt];
                proof {
                    lemma_sint_cast(a);
                    lemma_sint_cast(b);
                }
                let v = if (a as i32) < (b as i32) {
                    1
                } else {
                    0
                };
                self.set_gpr(rd, v);
            },
            Instruction::Sltu { rs, rt, rd } => {
                let v = if self.gpr[rs] < self.gpr[rt] {
                    1
                } else {
                    0
                };
                self.set_gpr(rd, v);
            },
            Instruction::Sll { rt, rd, shamt } => {
                let v = self.gpr[rt] << shamt;
                self.set_gpr(rd, v);
            },
            Instruction::Srl { rt, rd, shamt } => {
                let v = self.gpr[rt] >> shamt;
                self.set_gpr(rd, v);
            },
            Instruction::Sra { rt, rd, shamt } => {
                let v = ((self.gpr[rt] as i32) >> shamt) as u32;
                self.set_gpr(rd, v);
            },
            Instruction::Sllv { rs, rt, rd } => {
                let v = self.gpr[rt] << shift_amount(self.gpr[rs]);
                self.set_gpr(rd, v);
            },
            Instruction::Srlv { rs, rt, rd } => {
                let v = self.gpr[rt] >> shift_amount(self.gpr[rs]);
                self.set_gpr(rd, v);
            },
            Instruction::Srav { rs, rt, rd } => {
                let v = ((self.gpr[rt] as i32) >> shift_amount(self.gpr[rs])) as u32;
                self.set_gpr(rd, v);
            },
            _ => {},
        }
    }

    /// Multiply, divide and HI/LO moves.
    fn exec_muldiv(&mut self, inst: Instruction)
        requires
            old(self).wf(),
            is_muldiv(inst),
            fields_in_range(inst),
        ensures
            *final(self) == old(self).executed_plain(inst, false, 0),
            final(self).wf(),
    {
        match inst {
            Instruction::Mult { rs, rt } => {
                let a = self.gpr[rs];
                let b = self.gpr[rt];
                let sa: u64 = if a >= 0x8000_0000 {
                    (a as u64) | 0xFFFF_FFFF_0000_0000u64
                } else {
                    a as u64
                };
                let sb: u64 = if b >= 0x8000_0000 {
                    (b as u64) | 0xFFFF_FFFF_0000_0000u64
                } else {
                    b as u64
                };
                let prod = sa.wrapping_mul(sb);
                proof {
                    lemma_sign_extend64(a, sa);
                    lemma_sign_extend64(b, sb);
                    vstd::arithmetic::div_mod::lemma_mul_mod_noop(
                        sint(a),
                        sint(b),
                        0x1_0000_0000_0000_0000,
                    );
                    lemma_product_halves(sint(a) * sint(b), prod);
                }
                self.hi = (prod >> 32u64) as u32;
                self.lo = (prod & 0xFFFF_FFFFu64) as u32;
            },
            Instruction::Multu { rs, rt } => {
                let a = self.gpr[rs];
                let b = self.gpr[rt];
                assert(a as int * b as int <= 0xFFFF_FFFE_0000_0001) by (nonlinear_arith)
                    requires
                        a <= 0xFFFF_FFFFu32,
                        b <= 0xFFFF_FFFFu32,
                ;
                assert(0 <= a as int * b as int) by (nonlinear_arith);
                let prod = (a as u64) * (b as u64);
                proof {
                    lemma_product_halves(a as int * b as int, prod);
                }
                self.hi = (prod >> 32u64) as u32;
                self.lo = (prod & 0xFFFF_FFFFu64) as u32;
            },
            Instruction::Div { rs, rt } => {
                let num = self.gpr[rs];
                let denom = self.gpr[rt];
                proof {
                    lemma_sint_cast(num);
                }
                if denom == 0 {
                    self.hi = num;
                    self.lo = if (num as i32) < 0 {
                        1
                    } else {
                        0xFFFF_FFFF
                    };
                } else if num == 0x8000_0000 && denom == 0xFFFF_FFFF {
                    assert(abs(sint(num)) / abs(sint(denom)) == 0x8000_0000);
                    assert(abs(sint(num)) % abs(sint(denom)) == 0);
                    self.hi = 0;
                    self.lo = 0x8000_0000;
                } else {
                    let nneg = num >= 0x8000_0000;
                    let dneg = denom >= 0x8000_0000;
                    let un = if nneg {
                        0u32.wrapping_sub(num)
                    } else {
                        num
                    };
                    let ud = if dneg {
                        0u32.wrapping_sub(denom)
                    } else {
                        denom
                    };
                    proof {
                        lemma_signed_division(num, denom, un, ud);
                    }
                    let q = un / ud;
                    let r = un % ud;
                    self.lo = if nneg != dneg {
                        0u32.wrapping_sub(q)
                    } else {
                        q
                    };
                    self.hi = if nneg {
                        0u32.wrapping_sub(r)
                    } else {
                        r
                    };
                }
            },
            Instruction::Divu { rs, rt } => {
                let num = self.gpr[rs];
                let denom = self.gpr[rt];
                if denom == 0 {
                    self.hi = num;
                    self.lo = 0xFFFF_FFFF;
                } else {
                    self.lo = num / denom;
                    self.hi = num % denom;
                }
            },
            Instruction::Mfhi { rd } => {
                let v = self.hi;
                self.set_gpr(rd, v);
            },
            Instruction::Mthi { rs } => {
                self.hi = self.gpr[rs];
            },
            Instruction::Mflo { rd } => {
                let v = self.lo;
                self.set_gpr(rd, v);
            },
            Instruction::Mtlo { rs } => {
                self.lo = self.gpr[rs];
            },
            _ => {},
        }
    }

    /// ALU operations with a 16-bit immediate.
    fn exec_immediate(&mut self, inst: Instruction, ds: bool, pc: u32)
        requires
            old(self).wf(),
            is_immediate(inst),
            fields_in_range(inst),
        ensures
            *final(self) == old(self).executed_plain(inst, ds, pc),
            final(self).wf(),
    {
        match inst {
            Instruction::Addi { rs, rt, imm16 } => {
                let a = self.gpr[rs];
                let b = sign_ext(imm16);
                proof {
                    lemma_sint_cast(a);
                    lemma_sint_cast(b);
                }
                if (a as i32).checked_add(b as i32).is_none() {
                    self.raise(Exception::Overflow, ds, pc);
                } else {
                    self.set_gpr(rt, a.wrapping_add(b));
                }
            },
            Instruction::Addiu { rs, rt, imm16 } => {
                let v = self.gpr[rs].wrapping_add(sign_ext(imm16));
                self.set_gpr(rt, v);
            },
            Instruction::Slti { rs, rt, imm16 } => {
                let a = self.gpr[rs];
                let b = sign_ext(imm16);
                proof {
                    lemma_sint_cast(a);
                    lemma_sint_cast(b);
                }
                let v = if (a as i32) < (b as i32) {
                    1
                } else {
                    0
                };
                self.set_gpr(rt, v);
            },
            Instruction::Sltiu { rs, rt, imm16 } => {
                let v = if self.gpr[rs] < sign_ext(imm16) {
                    1
                } else {
                    0
                };
                self.set_gpr(rt, v);
            },
            Instruction::Andi { rs, rt, imm16 } => {
                let v = self.gpr[rs] & (imm16 as u32);
                self.set_gpr(rt, v);
            },
            Instruction::Ori { rs, rt, imm16 } => {
                let v = self.gpr[rs] | (imm16 as u32);
                self.set_gpr(rt, v);
            },
            Instruction::Xori { rs, rt, imm16 } => {
                let v = self.gpr[rs] ^ (imm16 as u32);
                self.set_gpr(rt, v);
            },
            Instruction::Lui { rt, imm16 } => {
                self.set_gpr(rt, (imm16 as u32) << 16u32);
            },
            _ => {},
        }
    }

    /// Jumps and branches.
    fn exec_jump(&mut self, inst: Instruction, pc: u32)
        requires
            old(self).wf(),
            is_jump(inst),
            fields_in_range(inst),
        ensures
            *final(self) == old(self).executed_plain(inst, false, pc),
            final(self).wf(),
    {
        match inst {
            Instruction::J { target26 } => {
                self.branch((pc & 0xF000_0000u32) | (target26 << 2u32));
            },
            Instruction::Jal { target26 } => {
                self.set_gpr(31, pc.wrapping_add(8));
                self.branch((pc & 0xF000_0000u32) | (target26 << 2u32));
            },
            Instruction::Jr { rs } => {
                let target = self.gpr[rs];
                self.branch(target);
            },
            Instruction::Jalr { rs, rd } => {
                let target = self.gpr[rs];
                self.set_gpr(rd, pc.wrapping_add(8));
                self.branch(target);
            },
            Instruction::Beq { rs, rt, imm16 } => {
                if self.gpr[rs] == self.gpr[rt] {
                    self.branch(pc.wrapping_add(4).wrapping_add(sign_ext(imm16) << 2u32));
                }
            },
            Instruction::Bne { rs, rt, imm16 } => {
                if self.gpr[rs] != self.gpr[rt] {
                    self.branch(pc.wrapping_add(4).wrapping_add(sign_ext(imm16) << 2u32));
                }
            },
            Instruction::Blez { rs, imm16 } => {
                proof {
                    lemma_sint_cast(self.gpr[rs as int]);
                }
                if (self.gpr[rs] as i32) <= 0 {
                    self.branch(pc.wrapping_add(4).wrapping_add(sign_ext(imm16) << 2u32));
                }
            },
            Instruction::Bgtz { rs, imm16 } => {
                proof {
                    lemma_sint_cast(self.gpr[rs as int]);
                }
                if (self.gpr[rs] as i32) > 0 {
                    self.branch(pc.wrapping_add(4).wrapping_add(sign_ext(imm16) << 2u32));
                }
            },
            Instruction::Bltz { rs, imm16 } => {
                proof {
                    lemma_sint_cast(self.gpr[rs as int]);
                }
                if (self.gpr[rs] as i32) < 0 {
                    self.branch(pc.wrapping_add(4).wrapping_add(sign_ext(imm16) << 2u32));
                }
            },
            Instruction::Bgez { rs, imm16 } => {
                proof {
                    lemma_sint_cast(self.gpr[rs as int]);
                }
                if (self.gpr[rs] as i32) >= 0 {
                    self.branch(pc.wrapping_add(4).wrapping_add(sign_ext(imm16) << 2u32));
                }
            },
            Instruction::Bltzal { rs, imm16 } => {
                proof {
                    lemma_sint_cast(self.gpr[rs as int]);
                }
                let cond = (self.gpr[rs] as i32) < 0;
                self.set_gpr(31, pc.wrapping_add(8));
                if cond {
                    self.branch(pc.wrapping_add(4).wrapping_add(sign_ext(imm16) << 2u32));
                }
            },
            Instruction::Bgezal { rs, imm16 } => {
                proof {
                    lemma_sint_cast(self.gpr[rs as int]);
                }
                let cond = (self.gpr[rs] as i32) >= 0;
                self.set_gpr(31, pc.wrapping_add(8));
                if cond {
                    self.branch(pc.wrapping_add(4).wrapping_add(sign_ext(imm16) << 2u32));
                }
            },
            _ => {},
        }
    }

    /// COP0 moves, RFE, SYSCALL, BREAK, coprocessor opcodes and reserved encodings.
    fn exec_system(&mut self, inst: Instruction, ds: bool, pc: u32)
        requires
            old(self).wf(),
            !is_arith(inst) && !is_muldiv(inst) && !is_immediate(inst) && !is_jump(inst)
                && !accesses_memory(inst),
            fields_in_range(inst),
        ensures
            *final(self) == old(self).executed_plain(inst, ds, pc),
            final(self).wf(),
    {
        match inst {
            Instruction::Mfc0 { rt, rd } => {
                let val = self.cop0.read_reg(rd);
                self.schedule_load(rt, val);
            },
            Instruction::Mtc0 { rt, rd } => {
                let val = self.gpr[rt];
                self.cop0.write_reg(rd, val);
            },
            Instruction::Rfe => {
                self.cop0.rfe();
            },
            Instruction::Syscall => {
                self.raise(Exception::Syscall, ds, pc);
            },
            Instruction::Break => {
                self.raise(Exception::Break, ds, pc);
            },
            Instruction::CopUnusable { cop_num } => {
                if !self.cop0.is_cop_usable(cop_num) {
                    self.raise_unusable(cop_num, ds, pc);
                }
            },
            Instruction::Reserved => {
                self.raise(Exception::ReservedInstruction, ds, pc);
            },
            _ => {},
        }
    }

    /// Raises Coprocessor Unusable for coprocessor `cop_num`.
    fn raise_unusable(&mut self, cop_num: u32, ds: bool, pc: u32)
        ensures
            *final(self) == old(self).unusable_fault(cop_num, ds, pc),
    {
        let target = self.cop0.trigger_cop_unusable_exception(cop_num, ds, pc);
        self.pc = target;
        self.next_pc = target.wrapping_add(4);
        self.in_delay_slot = false;
        self.next_in_delay_slot = false;
    }

    /// Raises address error `e` for an access at `addr`.
    fn raise_address_error(&mut self, e: Exception, addr: u32, ds: bool, pc: u32)
        ensures
            *final(self) == old(self).address_fault(e, addr, ds, pc),
    {
        self.cop0.badvaddr = addr;
        self.raise(e, ds, pc);
    }

    /// Loads from memory into general purpose registers, through the load delay.
    fn exec_load<B: Bus>(&mut self, bus: &mut B, inst: Instruction, ds: bool, pc: u32)
        requires
            old(self).wf(),
            B::inv(old(bus)@),
            old(self).memory_ok::<B>(old(bus)@, inst),
            fields_in_range(inst),
            matches!(inst, Instruction::Lb { .. } | Instruction::Lbu { .. } | Instruction::Lh { .. }
                | Instruction::Lhu { .. } | Instruction::Lw { .. } | Instruction::Lwl { .. }
                | Instruction::Lwr { .. }),
        ensures
            (*final(self), final(bus)@) == old(self).executed_memory::<B>(old(bus)@, inst, ds, pc),
            final(self).wf(),
            B::inv(final(bus)@),
    {
        match inst {
            Instruction::Lb { rs, rt, imm16 } => {
                let addr = self.gpr[rs].wrapping_add(sign_ext(imm16));
                let v = bus.read8(addr);
                self.schedule_load(rt, sign_ext8(v));
            },
            Instruction::Lbu { rs, rt, imm16 } => {
                let addr = self.gpr[rs].wrapping_add(sign_ext(imm16));
                let v = bus.read8(addr);
                self.schedule_load(rt, v as u32);
            },
            Instruction::Lh { rs, rt, imm16 } => {
                let addr = self.gpr[rs].wrapping_add(sign_ext(imm16));
                if addr % 2 != 0 {
                    self.raise_address_error(Exception::AddressErrorLoad, addr, ds, pc);
                } else {
                    let v = bus.read16(addr);
                    self.schedule_load(rt, sign_ext(v));
                }
            },
            Instruction::Lhu { rs, rt, imm16 } => {
                let addr = self.gpr[rs].wrapping_add(sign_ext(imm16));
                if addr % 2 != 0 {
                    self.raise_address_error(Exception::AddressErrorLoad, addr, ds, pc);
                } else {
                    let v = bus.read16(addr);
                    self.schedule_load(rt, v as u32);
                }
            },
            Instruction::Lw { rs, rt, imm16 } => {
                let addr = self.gpr[rs].wrapping_add(sign_ext(imm16));
                if addr % 4 != 0 {
                    self.raise_address_error(Exception::AddressErrorLoad, addr, ds, pc);
                } else {
                    let v = bus.read32(addr);
                    self.schedule_load(rt, v);
                }
            },
            Instruction::Lwl { rs, rt, imm16 } => {
                let addr = self.gpr[rs].wrapping_add(sign_ext(imm16));
                let mem_word = bus.read32(addr & !3u32);
                let off = addr & 3;
                proof {
                    lemma_and_le(addr, 3);
                }
                let shift = off * 8;
                let mask = 0x00FF_FFFFu32 >> shift;
                let cur_val = if self.load_delay_current_reg == rt && rt != 0 {
                    self.load_delay_current_val
                } else {
                    self.gpr[rt]
                };
                let val = (cur_val & mask) | (mem_word << (24 - shift));
                self.schedule_load(rt, val);
            },
            Instruction::Lwr { rs, rt, imm16 } => {
                let addr = self.gpr[rs].wrapping_add(sign_ext(imm16));
                let mem_word = bus.read32(addr & !3u32);
                let off = addr & 3;
                proof {
                    lemma_and_le(addr, 3);
                }
                let shift = off * 8;
                let mask = if shift == 0 {
                    0
                } else {
                    0xFFFF_FFFFu32 << (32 - shift)
                };
                let cur_val = if self.load_delay_current_reg == rt && rt != 0 {
                    self.load_delay_current_val
                } else {
                    self.gpr[rt]
                };
                let val = (cur_val & mask) | (mem_word >> shift);
                self.schedule_load(rt, val);
            },
            _ => {},
        }
    }

    /// Stores of general purpose registers to memory.
    fn exec_store<B: Bus>(&mut self, bus: &mut B, inst: Instruction, ds: bool, pc: u32)
        requires
            old(self).wf(),
            B::inv(old(bus)@),
            old(self).memory_ok::<B>(old(bus)@, inst),
            fields_in_range(inst),
            matches!(inst, Instruction::Sb { .. } | Instruction::Sh { .. } | Instruction::Sw { .. }
                | Instruction::Swl { .. } | Instruction::Swr { .. }),
        ensures
            (*final(self), final(bus)@) == old(self).executed_memory::<B>(old(bus)@, inst, ds, pc),
            final(self).wf(),
            B::inv(final(bus)@),
    {
        match inst {
            Instruction::Sb { rs, rt, imm16 } => {
                let addr = self.gpr[rs].wrapping_add(sign_ext(imm16));
                bus.write8(addr, self.gpr[rt] as u8);
            },
            Instruction::Sh { rs, rt, imm16 } => {
                let addr = self.gpr[rs].wrapping_add(sign_ext(imm16));
                if addr % 2 != 0 {
                    self.raise_address_error(Exception::AddressErrorStore, addr, ds, pc);
                } else {
                    bus.write16(addr, self.gpr[rt] as u16);
                }
            },
            Instruction::Sw { rs, rt, imm16 } => {
                let addr = self.gpr[rs].wrapping_add(sign_ext(imm16));
                if addr % 4 != 0 {
                    self.raise_address_error(Exception::AddressErrorStore, addr, ds, pc);
                } else {
                    bus.write32(addr, self.gpr[rt]);
                }
            },
            Instruction::Swl { rs, rt, imm16 } => {
                let addr = self.gpr[rs].wrapping_add(sign_ext(imm16));
                let aligned_addr = addr & !3u32;
                let mem_word = bus.read32(aligned_addr);
                let off = addr & 3;
                proof {
                    lemma_and_le(addr, 3);
                }
                let shift = off * 8;
                let mask = if shift == 24 {
                    0
                } else {
                    0xFFFF_FF00u32 << shift
                };
                let val = (mem_word & mask) | (self.gpr[rt] >> (24 - shift));
                bus.write32(aligned_addr, val);
            },
            Instruction::Swr { rs, rt, imm16 } => {
                let addr = self.gpr[rs].wrapping_add(sign_ext(imm16));
                let aligned_addr = addr & !3u32;
                let mem_word = bus.read32(aligned_addr);
                let off = addr & 3;
                proof {
                    lemma_and_le(addr, 3);
                }
                let shift = off * 8;
                let mask = 0x00FF_FFFFu32 >> (24 - shift);
                let val = (mem_word & mask) | (self.gpr[rt] << shift);
                bus.write32(aligned_addr, val);
            },
            _ => {},
        }
    }

    /// Coprocessor loads and stores (LWCz, LDCz, SWCz, SDCz).
    fn exec_cop_memory<B: Bus>(&mut self, bus: &mut B, inst: Instruction, ds: bool, pc: u32)
        requires
            old(self).wf(),
            B::inv(old(bus)@),
            old(self).memory_ok::<B>(old(bus)@, inst),
            fields_in_range(inst),
            matches!(inst, Instruction::Lwc { .. } | Instruction::Ldc { .. } | Instruction::Swc { .. }
                | Instruction::Sdc { .. }),
        ensures
            (*final(self), final(bus)@) == old(self).executed_memory::<B>(old(bus)@, inst, ds, pc),
            final(self).wf(),
            B::inv(final(bus)@),
    {
        match inst {
            Instruction::Lwc { cop_num, rs, rt, imm16 } => {
                if !self.cop0.is_cop_usable(cop_num) {
                    self.raise_unusable(cop_num, ds, pc);
                } else {
                    let addr = self.gpr[rs].wrapping_add(sign_ext(imm16));
                    let val = bus.read32(addr);
                    self.cop_regs[cop_num as usize][rt] = val;
                }
            },
            Instruction::Ldc { cop_num, rs, rt, imm16 } => {
                if !self.cop0.is_cop_usable(cop_num) {
                    self.raise_unusable(cop_num, ds, pc);
                } else {
                    let addr = self.gpr[rs].wrapping_add(sign_ext(imm16));
                    let val_lo = bus.read32(addr);
                    let val_hi = bus.read32(addr.wrapping_add(4));
                    let r1 = rt + 1;
                    let next = r1 & 31;
                    assert(next == r1 % 32) by (bit_vector)
                        requires
                            next == r1 & 31usize,
                    ;
                    self.cop_regs[cop_num as usize][rt] = val_lo;
                    self.cop_regs[cop_num as usize][next] = val_hi;
                }
            },
            Instruction::Swc { cop_num, rs, rt, imm16 } => {
                if !self.cop0.is_cop_usable(cop_num) {
                    self.raise_unusable(cop_num, ds, pc);
                } else {
                    let addr = self.gpr[rs].wrapping_add(sign_ext(imm16));
                    let val = self.cop_regs[cop_num as usize][rt];
                    bus.write32(addr, val);
                }
            },
            Instruction::Sdc { cop_num, rs, rt, imm16 } => {
                if !self.cop0.is_cop_usable(cop_num) {
                    self.raise_unusable(cop_num, ds, pc);
                } else {
                    let addr = self.gpr[rs].wrapping_add(sign_ext(imm16));
                    let r1 = rt + 1;
                    let next = r1 & 31;
                    assert(next == r1 % 32) by (bit_vector)
                        requires
                            next == r1 & 31usize,
                    ;
                    let val_lo = self.cop_regs[cop_num as usize][rt];
                    let val_hi = self.cop_regs[cop_num as usize][next];
                    bus.write32(addr, val_lo);
                    bus.write32(addr.wrapping_add(4), val_hi);
                }
            },
            _ => {},
        }
    }

    /// Executes a decoded instruction fetched from `current_pc`.
    pub fn execute_inst<B: Bus>(
        &mut self,
        bus: &mut B,
        inst: Instruction,
        is_current_delay_slot: bool,
        current_pc: u32,
    )
        requires
            old(self).wf(),
            B::inv(old(bus)@),
            old(self).memory_ok::<B>(old(bus)@, inst),
            fields_in_range(inst),
        ensures
            (*final(self), final(bus)@) == old(self).executed::<B>(
                old(bus)@,
                inst,
                is_current_delay_slot,
                current_pc,
            ),
            final(self).wf(),
            B::inv(final(bus)@),
    {
        match inst {
            Instruction::Add { .. } | Instruction::Addu { .. } | Instruction::Sub { .. }
            | Instruction::Subu { .. } | Instruction::And { .. } | Instruction::Or { .. }
            | Instruction::Xor { .. } | Instruction::Nor { .. } | Instruction::Slt { .. }
            | Instruction::Sltu { .. } | Instruction::Sll { .. } | Instruction::Srl { .. }
            | Instruction::Sra { .. } | Instruction::Sllv { .. } | Instruction::Srlv { .. }
            | Instruction::Srav { .. } => self.exec_arith(inst, is_current_delay_slot, current_pc),
            Instruction::Mult { .. } | Instruction::Multu { .. } | Instruction::Div { .. }
            | Instruction::Divu { .. } | Instruction::Mfhi { .. } | Instruction::Mthi { .. }
            | Instruction::Mflo { .. } | Instruction::Mtlo { .. } => self.exec_muldiv(inst),
            Instruction::Addi { .. } | Instruction::Addiu { .. } | Instruction::Slti { .. }
            | Instruction::Sltiu { .. } | Instruction::Andi { .. } | Instruction::Ori { .. }
            | Instruction::Xori { .. } | Instruction::Lui { .. } => self.exec_immediate(
                inst,
                is_current_delay_slot,
                current_pc,
            ),
            Instruction::J { .. } | Instruction::Jal { .. } | Instruction::Jr { .. }
            | Instruction::Jalr { .. } | Instruction::Beq { .. } | Instruction::Bne { .. }
            | Instruction::Blez { .. } | Instruction::Bgtz { .. } | Instruction::Bltz { .. }
            | Instruction::Bgez { .. } | Instruction::Bltzal { .. } | Instruction::Bgezal { .. } =>
                self.exec_jump(inst, current_pc),
            Instruction::Lb { .. } | Instruction::Lbu { .. } | Instruction::Lh { .. }
            | Instruction::Lhu { .. } | Instruction::Lw { .. } | Instruction::Lwl { .. }
            | Instruction::Lwr { .. } => self.exec_load(bus, inst, is_current_delay_slot, current_pc),
            Instruction::Sb { .. } | Instruction::Sh { .. } | Instruction::Sw { .. }
            | Instruction::Swl { .. } | Instruction::Swr { .. } => self.exec_store(
                bus,
                inst,
                is_current_delay_slot,
                current_pc,
            ),
            Instruction::Lwc { .. } | Instruction::Ldc { .. } | Instruction::Swc { .. }
            | Instruction::Sdc { .. } => self.exec_cop_memory(
                bus,
                inst,
                is_current_delay_slot,
                current_pc,
            ),
            _ => self.exec_system(inst, is_current_delay_slot, current_pc),
        }
    }
}

} // verus!
