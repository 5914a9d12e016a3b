//! The meaning of each instruction and of one CPU step, over the CPU state and the view
//! of the bus.
use super::cop0::{vector_for, Cop0, Exception};
use super::tty;
use super::decoder::{decoded, fields_in_range, lemma_decoded_fields, Instruction};
use super::Cpu;
use crate::bus::Bus;
use vstd::array::spec_array_update;
use vstd::prelude::*;

verus! {

/// `a + b` modulo 2^32.
pub open spec fn wrap_add(a: u32, b: u32) -> u32 {
    if a + b > u32::MAX {
        (a + b - 0x1_0000_0000) as u32
    } else {
        (a + b) as u32
    }
}

/// `a - b` modulo 2^32.
pub open spec fn wrap_sub(a: u32, b: u32) -> u32 {
    if a - b < 0 {
        (a - b + 0x1_0000_0000) as u32
    } else {
        (a - b) as u32
    }
}

/// The two's complement value of a 32-bit word.
pub open spec fn sint(x: u32) -> int {
    if x < 0x8000_0000 {
        x as int
    } else {
        x as int - 0x1_0000_0000
    }
}

/// A 16-bit immediate sign-extended to 32 bits.
pub open spec fn sext16(imm: u16) -> u32 {
    if imm < 0x8000 {
        imm as u32
    } else {
        (imm as u32 + 0xFFFF_0000u32) as u32
    }
}

/// A byte sign-extended to 32 bits.
pub open spec fn sext8(b: u8) -> u32 {
    if b < 0x80 {
        b as u32
    } else {
        (b as u32 + 0xFFFF_FF00u32) as u32
    }
}

/// An integer taken modulo 2^32.
pub open spec fn wrap32(v: int) -> u32 {
    (v % 0x1_0000_0000) as u32
}

pub open spec fn abs(x: int) -> int {
    if x < 0 {
        -x
    } else {
        x
    }
}

/// Division rounding toward zero, as MIPS DIV computes it.
pub open spec fn tdiv(x: int, y: int) -> int {
    let q = abs(x) / abs(y);
    if (x < 0) != (y < 0) {
        -q
    } else {
        q
    }
}

/// The remainder of `tdiv`: the magnitude of `|x| mod |y|` with the sign of the dividend.
pub open spec fn trem(x: int, y: int) -> int {
    let r = abs(x) % abs(y);
    if x < 0 {
        -r
    } else {
        r
    }
}

/// HI of a 64-bit product: bits 63..32 of the product taken modulo 2^64.
pub open spec fn product_hi(p: int) -> u32 {
    ((p % 0x1_0000_0000_0000_0000) / 0x1_0000_0000) as u32
}

/// LO of a 64-bit product: bits 31..0.
pub open spec fn product_lo(p: int) -> u32 {
    (p % 0x1_0000_0000) as u32
}

/// LWL: the bytes of the aligned word `mem` from the addressed byte down to its least
/// significant byte, placed at the top of the register; the register keeps its lower bytes.
pub open spec fn lwl_merge(cur: u32, mem: u32, off: u32) -> u32 {
    let shift = off * 8;
    (cur & (0x00FF_FFFFu32 >> shift)) | (mem << ((24 - shift) as u32))
}

/// LWR: the bytes of `mem` from the addressed byte up to its most significant byte, placed
/// at the bottom of the register; the register keeps its upper bytes.
pub open spec fn lwr_merge(cur: u32, mem: u32, off: u32) -> u32 {
    let shift = off * 8;
    let mask = if shift == 0 {
        0u32
    } else {
        0xFFFF_FFFFu32 << ((32 - shift) as u32)
    };
    (cur & mask) | (mem >> shift)
}

/// SWL: the upper bytes of the register stored into the aligned word, ending at the
/// addressed byte; the other bytes of memory are kept.
pub open spec fn swl_merge(mem: u32, reg: u32, off: u32) -> u32 {
    let shift = off * 8;
    let mask = if shift == 24 {
        0u32
    } else {
        0xFFFF_FF00u32 << shift
    };
    (mem & mask) | (reg >> ((24 - shift) as u32))
}

/// SWR: the lower bytes of the register stored into the aligned word, starting at the
/// addressed byte; the other bytes of memory are kept.
pub open spec fn swr_merge(mem: u32, reg: u32, off: u32) -> u32 {
    let shift = off * 8;
    (mem & (0x00FF_FFFFu32 >> ((24 - shift) as u32))) | (reg << shift)
}

/// Target of a PC-relative branch at `pc`.
pub open spec fn branch_target(pc: u32, imm: u16) -> u32 {
    wrap_add(wrap_add(pc, 4), sext16(imm) << 2u32)
}

/// Target of J/JAL at `pc`: the upper four bits of the PC with the shifted 26-bit target.
pub open spec fn jump_target(pc: u32, target26: u32) -> u32 {
    (pc & 0xF000_0000u32) | (target26 << 2u32)
}

/// Whether the instruction reaches the bus.
pub open spec fn accesses_memory(i: Instruction) -> bool {
    match i {
        Instruction::Lb { .. } | Instruction::Lbu { .. } | Instruction::Lh { .. }
        | Instruction::Lhu { .. } | Instruction::Lw { .. } | Instruction::Lwl { .. }
        | Instruction::Lwr { .. } | Instruction::Sb { .. } | Instruction::Sh { .. }
        | Instruction::Sw { .. } | Instruction::Swl { .. } | Instruction::Swr { .. }
        | Instruction::Lwc { .. } | Instruction::Ldc { .. } | Instruction::Swc { .. }
        | Instruction::Sdc { .. } => true,
        _ => false,
    }
}

/// A word read as a signed `i32` has the two's complement value.
pub proof fn lemma_sint_cast(x: u32)
    ensures
        (x as i32) as int == sint(x),
{
    if x >= 0x8000_0000 {
        assert(((x as i32) as i64) == (x as i64) - 0x1_0000_0000i64) by (bit_vector)
            requires
                x >= 0x8000_0000u32,
        ;
    }
}

/// The sign extension of a word to 64 bits is its two's complement value modulo 2^64.
pub proof fn lemma_sign_extend64(a: u32, sa: u64)
    requires
        sa == if a >= 0x8000_0000 {
            (a as u64) | 0xFFFF_FFFF_0000_0000u64
        } else {
            a as u64
        },
    ensures
        sa as int == sint(a) % 0x1_0000_0000_0000_0000,
{
    if a >= 0x8000_0000 {
        assert((a as u64) | 0xFFFF_FFFF_0000_0000u64 == (a as u64) + 0xFFFF_FFFF_0000_0000u64)
            by (bit_vector)
            requires
                a >= 0x8000_0000u32,
        ;
    }
}

/// Splitting a 64-bit product into HI and LO.
pub proof fn lemma_product_halves(p: int, prod: u64)
    requires
        prod as int == p % 0x1_0000_0000_0000_0000,
    ensures
        (prod >> 32u64) as u32 == product_hi(p),
        (prod & 0xFFFF_FFFFu64) as u32 == product_lo(p),
{
    assert((prod >> 32u64) as u32 == (prod / 0x1_0000_0000u64) as u32) by (bit_vector);
    assert((prod & 0xFFFF_FFFFu64) as u32 == (prod % 0x1_0000_0000u64) as u32) by (bit_vector);
    vstd::arithmetic::div_mod::lemma_mod_mod(p, 0x1_0000_0000, 0x1_0000_0000);
}

/// The magnitude arithmetic that computes signed division agrees with `tdiv`/`trem`.
pub proof fn lemma_signed_division(n: u32, d: u32, un: u32, ud: u32)
    requires
        d != 0,
        un == if n >= 0x8000_0000 { wrap_sub(0, n) } else { n },
        ud == if d >= 0x8000_0000 { wrap_sub(0, d) } else { d },
    ensures
        ud != 0,
        wrap32(tdiv(sint(n), sint(d))) == if (n >= 0x8000_0000) != (d >= 0x8000_0000) {
            wrap_sub(0, un / ud)
        } else {
            un / ud
        },
        wrap32(trem(sint(n), sint(d))) == if n >= 0x8000_0000 {
            wrap_sub(0, un % ud)
        } else {
            un % ud
        },
{
    assert(un as int == abs(sint(n)));
    assert(ud as int == abs(sint(d)));
    let q = un / ud;
    let r = un % ud;
    assert(q <= un) by (nonlinear_arith)
        requires
            q == un / ud,
            ud > 0,
    ;
    assert(r < ud);
}

impl Cpu {
    /// General purpose register `r`.
    pub open spec fn reg(self, r: usize) -> u32 {
        self.gpr[r as int]
    }

    /// The state after exception `e`, raised by the instruction at `pc`: COP0 records it,
    /// execution continues at the vector, and no branch is pending.
    pub open spec fn raised(self, e: Exception, ds: bool, pc: u32) -> Cpu {
        let v = vector_for(self.cop0.status);
        Cpu {
            cop0: self.cop0.entered(e, ds, pc),
            pc: v,
            next_pc: wrap_add(v, 4),
            in_delay_slot: false,
            next_in_delay_slot: false,
            ..self
        }
    }

    /// An address error at `addr`: BadVAddr holds the address, then `e` is raised.
    pub open spec fn address_fault(self, e: Exception, addr: u32, ds: bool, pc: u32) -> Cpu {
        Cpu { cop0: Cop0 { badvaddr: addr, ..self.cop0 }, ..self }.raised(e, ds, pc)
    }

    /// Coprocessor Unusable for coprocessor `n`, its number recorded in Cause bits 29..28.
    pub open spec fn unusable_fault(self, n: u32, ds: bool, pc: u32) -> Cpu {
        let c = self.raised(Exception::CoprocessorUnusable, ds, pc);
        Cpu { cop0: Cop0 { cause: (c.cop0.cause & !0x3000_0000u32) | ((n & 3) << 28u32), ..c.cop0 }, ..c }
    }

    /// Coprocessor register `r` of coprocessor `n` set to `v`.
    pub open spec fn with_cop_reg(self, n: u32, r: usize, v: u32) -> Cpu {
        Cpu {
            cop_regs: spec_array_update(
                self.cop_regs,
                n as int,
                spec_array_update(self.cop_regs[n as int], r as int, v),
            ),
            ..self
        }
    }

    /// The effect of an instruction that does not reach the bus, executed at `pc`
    /// (`ds`: it sits in a branch delay slot).
    pub open spec fn executed_plain(self, i: Instruction, ds: bool, pc: u32) -> Cpu {
        match i {
            Instruction::Add { rs, rt, rd } => {
                let s = sint(self.reg(rs)) + sint(self.reg(rt));
                if s < -0x8000_0000 || s > 0x7FFF_FFFF {
                    self.raised(Exception::Overflow, ds, pc)
                } else {
                    self.with_gpr(rd, wrap_add(self.reg(rs), self.reg(rt)))
                }
            },
            Instruction::Addu { rs, rt, rd } => self.with_gpr(rd, wrap_add(self.reg(rs), self.reg(rt))),
            Instruction::Sub { rs, rt, rd } => {
                let s = sint(self.reg(rs)) - sint(self.reg(rt));
                if s < -0x8000_0000 || s > 0x7FFF_FFFF {
                    self.raised(Exception::Overflow, ds, pc)
                } else {
                    self.with_gpr(rd, wrap_sub(self.reg(rs), self.reg(rt)))
                }
            },
            Instruction::Subu { rs, rt, rd } => self.with_gpr(rd, wrap_sub(self.reg(rs), self.reg(rt))),
            Instruction::And { rs, rt, rd } => self.with_gpr(rd, self.reg(rs) & self.reg(rt)),
            Instruction::Or { rs, rt, rd } => self.with_gpr(rd, self.reg(rs) | self.reg(rt)),
            Instruction::Xor { rs, rt, rd } => self.with_gpr(rd, self.reg(rs) ^ self.reg(rt)),
            Instruction::Nor { rs, rt, rd } => self.with_gpr(rd, !(self.reg(rs) | self.reg(rt))),
            Instruction::Slt { rs, rt, rd } => self.with_gpr(
                rd,
                if sint(self.reg(rs)) < sint(self.reg(rt)) { 1 } else { 0 },
            ),
            Instruction::Sltu { rs, rt, rd } => self.with_gpr(
                rd,
                if self.reg(rs) < self.reg(rt) { 1 } else { 0 },
            ),
            Instruction::Sll { rt, rd, shamt } => self.with_gpr(rd, self.reg(rt) << shamt),
            Instruction::Srl { rt, rd, shamt } => self.with_gpr(rd, self.reg(rt) >> shamt),
            Instruction::Sra { rt, rd, shamt } => self.with_gpr(
                rd,
                ((self.reg(rt) as i32) >> shamt) as u32,
            ),
            Instruction::Sllv { rs, rt, rd } => self.with_gpr(rd, self.reg(rt) << (self.reg(rs) & 0x1F)),
            Instruction::Srlv { rs, rt, rd } => self.with_gpr(rd, self.reg(rt) >> (self.reg(rs) & 0x1F)),
            Instruction::Srav { rs, rt, rd } => self.with_gpr(
                rd,
                ((self.reg(rt) as i32) >> (self.reg(rs) & 0x1F)) as u32,
            ),
            Instruction::Mult { rs, rt } => {
                let p = sint(self.reg(rs)) * sint(self.reg(rt));
                Cpu { hi: product_hi(p), lo: product_lo(p), ..self }
            },
            Instruction::Multu { rs, rt } => {
                let p = self.reg(rs) as int * self.reg(rt) as int;
                Cpu { hi: product_hi(p), lo: product_lo(p), ..self }
            },
            Instruction::Div { rs, rt } => {
                let n = self.reg(rs);
                let d = self.reg(rt);
                if d == 0 {
                    Cpu { hi: n, lo: if sint(n) < 0 { 1 } else { 0xFFFF_FFFF }, ..self }
                } else {
                    Cpu { hi: wrap32(trem(sint(n), sint(d))), lo: wrap32(tdiv(sint(n), sint(d))), ..self }
                }
            },
            Instruction::Divu { rs, rt } => {
                let n = self.reg(rs);
                let d = self.reg(rt);
                if d == 0 {
                    Cpu { hi: n, lo: 0xFFFF_FFFF, ..self }
                } else {
                    Cpu { hi: n % d, lo: n / d, ..self }
                }
            },
            Instruction::Mfhi { rd } => self.with_gpr(rd, self.hi),
            Instruction::Mthi { rs } => Cpu { hi: self.reg(rs), ..self },
            Instruction::Mflo { rd } => self.with_gpr(rd, self.lo),
            Instruction::Mtlo { rs } => Cpu { lo: self.reg(rs), ..self },
            Instruction::Addi { rs, rt, imm16 } => {
                let s = sint(self.reg(rs)) + sint(sext16(imm16));
                if s < -0x8000_0000 || s > 0x7FFF_FFFF {
                    self.raised(Exception::Overflow, ds, pc)
                } else {
                    self.with_gpr(rt, wrap_add(self.reg(rs), sext16(imm16)))
                }
            },
            Instruction::Addiu { rs, rt, imm16 } => self.with_gpr(rt, wrap_add(self.reg(rs), sext16(imm16))),
            Instruction::Slti { rs, rt, imm16 } => self.with_gpr(
                rt,
                if sint(self.reg(rs)) < sint(sext16(imm16)) { 1 } else { 0 },
            ),
            Instruction::Sltiu { rs, rt, imm16 } => self.with_gpr(
                rt,
                if self.reg(rs) < sext16(imm16) { 1 } else { 0 },
            ),
            Instruction::Andi { rs, rt, imm16 } => self.with_gpr(rt, self.reg(rs) & (imm16 as u32)),
            Instruction::Ori { rs, rt, imm16 } => self.with_gpr(rt, self.reg(rs) | (imm16 as u32)),
            Instruction::Xori { rs, rt, imm16 } => self.with_gpr(rt, self.reg(rs) ^ (imm16 as u32)),
            Instruction::Lui { rt, imm16 } => self.with_gpr(rt, (imm16 as u32) << 16u32),
            Instruction::J { target26 } => self.with_branch(jump_target(pc, target26)),
            Instruction::Jal { target26 } => self.with_gpr(31, wrap_add(pc, 8)).with_branch(
                jump_target(pc, target26),
            ),
            Instruction::Jr { rs } => self.with_branch(self.reg(rs)),
            Instruction::Jalr { rs, rd } => self.with_gpr(rd, wrap_add(pc, 8)).with_branch(self.reg(rs)),
            Instruction::Beq { rs, rt, imm16 } => if self.reg(rs) == self.reg(rt) {
                self.with_branch(branch_target(pc, imm16))
            } else {
                self
            },
            Instruction::Bne { rs, rt, imm16 } => if self.reg(rs) != self.reg(rt) {
                self.with_branch(branch_target(pc, imm16))
            } else {
                self
            },
            Instruction::Blez { rs, imm16 } => if sint(self.reg(rs)) <= 0 {
                self.with_branch(branch_target(pc, imm16))
            } else {
                self
            },
            Instruction::Bgtz { rs, imm16 } => if sint(self.reg(rs)) > 0 {
                self.with_branch(branch_target(pc, imm16))
            } else {
                self
            },
            Instruction::Bltz { rs, imm16 } => if sint(self.reg(rs)) < 0 {
                self.with_branch(branch_target(pc, imm16))
            } else {
                self
            },
            Instruction::Bgez { rs, imm16 } => if sint(self.reg(rs)) >= 0 {
                self.with_branch(branch_target(pc, imm16))
            } else {
                self
            },
            Instruction::Bltzal { rs, imm16 } => {
                let c = self.with_gpr(31, wrap_add(pc, 8));
                if sint(self.reg(rs)) < 0 {
                    c.with_branch(branch_target(pc, imm16))
                } else {
                    c
                }
            },
            Instruction::Bgezal { rs, imm16 } => {
                let c = self.with_gpr(31, wrap_add(pc, 8));
                if sint(self.reg(rs)) >= 0 {
                    c.with_branch(branch_target(pc, imm16))
                } else {
                    c
                }
            },
            Instruction::Mfc0 { rt, rd } => self.with_load(rt, self.cop0.reg_value(rd)),
            Instruction::Mtc0 { rt, rd } => Cpu { cop0: self.cop0.reg_written(rd, self.reg(rt)), ..self },
            Instruction::Rfe => Cpu { cop0: Cop0 { status: super::cop0::popped_status(self.cop0.status), ..self.cop0 }, ..self },
            Instruction::Syscall => self.raised(Exception::Syscall, ds, pc),
            Instruction::Break => self.raised(Exception::Break, ds, pc),
            Instruction::CopUnusable { cop_num } => if self.cop0.usable(cop_num) {
                self
            } else {
                self.unusable_fault(cop_num, ds, pc)
            },
            Instruction::Reserved => self.raised(Exception::ReservedInstruction, ds, pc),
            _ => self,
        }
    }

    /// The effective address of a load or store: base register plus signed offset.
    pub open spec fn eff_addr(self, rs: usize, imm: u16) -> u32 {
        wrap_add(self.reg(rs), sext16(imm))
    }

    /// The register value that LWL/LWR merge into: the value of a load still in flight to
    /// `rt`, else the register.
    pub open spec fn merge_base(self, rt: usize) -> u32 {
        if self.load_delay_current_reg == rt && rt != 0 {
            self.load_delay_current_val
        } else {
            self.reg(rt)
        }
    }

    /// The effect of a load or store on the CPU and on the view of the bus.
    pub open spec fn executed_memory<B: Bus>(self, m: B::V, i: Instruction, ds: bool, pc: u32) -> (Cpu, B::V) {
        match i {
            Instruction::Lb { rs, rt, imm16 } => {
                let (v, m2) = B::read8_result(m, self.eff_addr(rs, imm16));
                (self.with_load(rt, sext8(v)), m2)
            },
            Instruction::Lbu { rs, rt, imm16 } => {
                let (v, m2) = B::read8_result(m, self.eff_addr(rs, imm16));
                (self.with_load(rt, v as u32), m2)
            },
            Instruction::Lh { rs, rt, imm16 } => {
                let a = self.eff_addr(rs, imm16);
                if a % 2 != 0 {
                    (self.address_fault(Exception::AddressErrorLoad, a, ds, pc), m)
                } else {
                    let (v, m2) = B::read16_result(m, a);
                    (self.with_load(rt, sext16(v)), m2)
                }
            },
            Instruction::Lhu { rs, rt, imm16 } => {
                let a = self.eff_addr(rs, imm16);
                if a % 2 != 0 {
                    (self.address_fault(Exception::AddressErrorLoad, a, ds, pc), m)
                } else {
                    let (v, m2) = B::read16_result(m, a);
                    (self.with_load(rt, v as u32), m2)
                }
            },
            Instruction::Lw { rs, rt, imm16 } => {
                let a = self.eff_addr(rs, imm16);
                if a % 4 != 0 {
                    (self.address_fault(Exception::AddressErrorLoad, a, ds, pc), m)
                } else {
                    let (v, m2) = B::read32_result(m, a);
                    (self.with_load(rt, v), m2)
                }
            },
            Instruction::Lwl { rs, rt, imm16 } => {
                let a = self.eff_addr(rs, imm16);
                let (w, m2) = B::read32_result(m, a & !3u32);
                (self.with_load(rt, lwl_merge(self.merge_base(rt), w, a & 3)), m2)
            },
            Instruction::Lwr { rs, rt, imm16 } => {
                let a = self.eff_addr(rs, imm16);
                let (w, m2) = B::read32_result(m, a & !3u32);
                (self.with_load(rt, lwr_merge(self.merge_base(rt), w, a & 3)), m2)
            },
            Instruction::Sb { rs, rt, imm16 } => (self, B::written8(m, self.eff_addr(rs, imm16), self.reg(rt) as u8)),
            Instruction::Sh { rs, rt, imm16 } => {
                let a = self.eff_addr(rs, imm16);
                if a % 2 != 0 {
                    (self.address_fault(Exception::AddressErrorStore, a, ds, pc), m)
                } else {
                    (self, B::written16(m, a, self.reg(rt) as u16))
                }
            },
            Instruction::Sw { rs, rt, imm16 } => {
                let a = self.eff_addr(rs, imm16);
                if a % 4 != 0 {
                    (self.address_fault(Exception::AddressErrorStore, a, ds, pc), m)
                } else {
                    (self, B::written32(m, a, self.reg(rt)))
                }
            },
            Instruction::Swl { rs, rt, imm16 } => {
                let a = self.eff_addr(rs, imm16);
                let (w, m2) = B::read32_result(m, a & !3u32);
                (self, B::written32(m2, a & !3u32, swl_merge(w, self.reg(rt), a & 3)))
            },
            Instruction::Swr { rs, rt, imm16 } => {
                let a = self.eff_addr(rs, imm16);
                let (w, m2) = B::read32_result(m, a & !3u32);
                (self, B::written32(m2, a & !3u32, swr_merge(w, self.reg(rt), a & 3)))
            },
            Instruction::Lwc { cop_num, rs, rt, imm16 } => if !self.cop0.usable(cop_num) {
                (self.unusable_fault(cop_num, ds, pc), m)
            } else {
                let (v, m2) = B::read32_result(m, self.eff_addr(rs, imm16));
                (self.with_cop_reg(cop_num, rt, v), m2)
            },
            Instruction::Ldc { cop_num, rs, rt, imm16 } => if !self.cop0.usable(cop_num) {
                (self.unusable_fault(cop_num, ds, pc), m)
            } else {
                let a = self.eff_addr(rs, imm16);
                let (lo, m2) = B::read32_result(m, a);
                let (hi, m3) = B::read32_result(m2, wrap_add(a, 4));
                (self.with_cop_reg(cop_num, rt, lo).with_cop_reg(cop_num, ((rt + 1) % 32) as usize, hi), m3)
            },
            Instruction::Swc { cop_num, rs, rt, imm16 } => if !self.cop0.usable(cop_num) {
                (self.unusable_fault(cop_num, ds, pc), m)
            } else {
                (self, B::written32(m, self.eff_addr(rs, imm16), self.cop_regs[cop_num as int][rt as int]))
            },
            Instruction::Sdc { cop_num, rs, rt, imm16 } => if !self.cop0.usable(cop_num) {
                (self.unusable_fault(cop_num, ds, pc), m)
            } else {
                let a = self.eff_addr(rs, imm16);
                let m2 = B::written32(m, a, self.cop_regs[cop_num as int][rt as int]);
                (self, B::written32(m2, wrap_add(a, 4), self.cop_regs[cop_num as int][((rt + 1) % 32) as int]))
            },
            _ => (self, m),
        }
    }

    /// Whether every bus access of a load or store stays inside the memory it lands in.
    pub open spec fn memory_ok<B: Bus>(self, m: B::V, i: Instruction) -> bool {
        match i {
            Instruction::Lh { rs, imm16, .. } | Instruction::Lhu { rs, imm16, .. } => {
                let a = self.eff_addr(rs, imm16);
                a % 2 == 0 ==> B::can_read16(m, a)
            },
            Instruction::Lw { rs, imm16, .. } => {
                let a = self.eff_addr(rs, imm16);
                a % 4 == 0 ==> B::can_read32(m, a)
            },
            Instruction::Lwl { rs, imm16, .. } | Instruction::Lwr { rs, imm16, .. } => B::can_read32(
                m,
                self.eff_addr(rs, imm16) & !3u32,
            ),
            Instruction::Sh { rs, imm16, .. } => {
                let a = self.eff_addr(rs, imm16);
                a % 2 == 0 ==> B::can_write16(m, a)
            },
            Instruction::Sw { rs, imm16, .. } => {
                let a = self.eff_addr(rs, imm16);
                a % 4 == 0 ==> B::can_write32(m, a)
            },
            Instruction::Swl { rs, imm16, .. } | Instruction::Swr { rs, imm16, .. } => {
                let a = self.eff_addr(rs, imm16) & !3u32;
                B::can_read32(m, a) && B::can_write32(B::read32_result(m, a).1, a)
            },
            Instruction::Lwc { cop_num, rs, imm16, .. } => self.cop0.usable(cop_num) ==> B::can_read32(
                m,
                self.eff_addr(rs, imm16),
            ),
            Instruction::Ldc { cop_num, rs, imm16, .. } => {
                let a = self.eff_addr(rs, imm16);
                self.cop0.usable(cop_num) ==> B::can_read32(m, a) && B::can_read32(
                    B::read32_result(m, a).1,
                    wrap_add(a, 4),
                )
            },
            Instruction::Swc { cop_num, rs, imm16, .. } => self.cop0.usable(cop_num) ==> B::can_write32(
                m,
                self.eff_addr(rs, imm16),
            ),
            Instruction::Sdc { cop_num, rs, rt, imm16 } => {
                let a = self.eff_addr(rs, imm16);
                self.cop0.usable(cop_num) ==> B::can_write32(m, a) && B::can_write32(
                    B::written32(m, a, self.cop_regs[cop_num as int][rt as int]),
                    wrap_add(a, 4),
                )
            },
            _ => true,
        }
    }

    /// The effect of executing `i` at `pc` on the CPU and the view of the bus.
    pub open spec fn executed<B: Bus>(self, m: B::V, i: Instruction, ds: bool, pc: u32) -> (Cpu, B::V) {
        if accesses_memory(i) {
            self.executed_memory::<B>(m, i, ds, pc)
        } else {
            (self.executed_plain(i, ds, pc), m)
        }
    }

    /// `reg` written at once, a load in flight to it dropped; `$zero` ignores writes.
    pub open spec fn with_gpr(self, reg: usize, val: u32) -> Cpu {
        if reg == 0 {
            self
        } else {
            Cpu {
                gpr: spec_array_update(self.gpr, reg as int, val),
                load_delay_current_reg: if self.load_delay_current_reg == reg {
                    0
                } else {
                    self.load_delay_current_reg
                },
                ..self
            }
        }
    }

    /// A load of `val` into `reg` scheduled for after the delay slot.
    pub open spec fn with_load(self, reg: usize, val: u32) -> Cpu {
        if reg == 0 {
            self
        } else {
            Cpu {
                load_delay_pending_reg: reg,
                load_delay_pending_val: val,
                load_delay_current_reg: if self.load_delay_current_reg == reg {
                    0
                } else {
                    self.load_delay_current_reg
                },
                ..self
            }
        }
    }

    /// A branch to `target` taken after the delay slot.
    pub open spec fn with_branch(self, target: u32) -> Cpu {
        Cpu { next_pc: target, next_in_delay_slot: true, ..self }
    }
}

/// Whether a fetch from `pc` lands on one of the BIOS function vectors A0h, B0h, C0h.
pub open spec fn is_bios_vector(pc: u32) -> bool {
    let p = pc & 0x1FFF_FFFFu32;
    p == 0xA0 || p == 0xB0 || p == 0xC0
}

impl Cpu {
    /// The start of a step: the load in the second pipeline stage is committed (the old
    /// value kept for the delay slot), `$zero` is forced to 0, the pipeline advances, the
    /// delay slot flag moves on, and the PC advances (to the branch target after a delay
    /// slot, else to the next word).
    pub open spec fn step_prologue(self) -> Cpu {
        let cur = self.load_delay_current_reg;
        let g = if cur != 0 {
            spec_array_update(self.gpr, cur as int, self.load_delay_current_val)
        } else {
            self.gpr
        };
        let ds = self.next_in_delay_slot;
        let npc = if !ds && self.next_pc != wrap_add(self.pc, 4) {
            wrap_add(self.pc, 4)
        } else {
            self.next_pc
        };
        Cpu {
            gpr: spec_array_update(g, 0, 0),
            load_delay_applied_reg: cur,
            load_delay_old_val: if cur != 0 {
                self.gpr[cur as int]
            } else {
                0
            },
            load_delay_current_reg: self.load_delay_pending_reg,
            load_delay_current_val: self.load_delay_pending_val,
            load_delay_pending_reg: 0,
            load_delay_pending_val: 0,
            in_delay_slot: ds,
            next_in_delay_slot: false,
            pc: npc,
            next_pc: wrap_add(npc, 4),
            ..self
        }
    }

    /// One CPU step on the CPU and the view of the bus: the prologue; at a BIOS vector the
    /// TTY call, returning to `$ra` when it is set; an address error for a misaligned PC;
    /// otherwise fetch, one bus cycle, decode and execute.
    pub open spec fn step_result<B: Bus>(self, m: B::V) -> (Cpu, B::V) {
        let pc = self.pc;
        let ds = self.next_in_delay_slot;
        let c = self.step_prologue();
        let m1 = if is_bios_vector(pc) {
            c.bios_call_output::<B>(m)->Some_0
        } else {
            m
        };
        if is_bios_vector(pc) && c.gpr[31] != 0 {
            (Cpu { pc: c.gpr[31], next_pc: wrap_add(c.gpr[31], 4), ..c }, m1)
        } else if pc % 4 != 0 {
            (c.address_fault(Exception::AddressErrorLoad, pc, ds, pc), m1)
        } else {
            let (w, m2) = B::read32_result(m1, pc);
            let m3 = B::stepped(m2, 1);
            c.executed::<B>(m3, decoded(w), ds, pc)
        }
    }

    /// Whether every bus access of the step stays inside memory and every TTY call is
    /// defined; the step panics otherwise.
    pub open spec fn step_ok<B: Bus>(self, m: B::V) -> bool {
        let pc = self.pc;
        let c = self.step_prologue();
        let m1 = if is_bios_vector(pc) {
            c.bios_call_output::<B>(m)->Some_0
        } else {
            m
        };
        &&& (is_bios_vector(pc) ==> c.bios_call_output::<B>(m) is Some)
        &&& (!(is_bios_vector(pc) && c.gpr[31] != 0) && pc % 4 == 0 ==> {
            let (w, m2) = B::read32_result(m1, pc);
            &&& B::can_read32(m1, pc)
            &&& B::can_step(m2, 1)
            &&& c.memory_ok::<B>(B::stepped(m2, 1), decoded(w))
        })
    }
}

} // verus!

verus! {

/// No instruction with in-range fields writes `$zero`.
proof fn lemma_executed_keeps_zero<B: Bus>(x: Cpu, m: B::V, i: Instruction, ds: bool, pc: u32)
    requires
        x.gpr[0] == 0,
        fields_in_range(i),
    ensures
        x.executed::<B>(m, i, ds, pc).0.gpr[0] == 0,
{
}

/// `$zero` reads 0 after every step, whatever the instruction and whatever the bus.
pub proof fn lemma_zero_register_after_step<B: Bus>(c: Cpu, m: B::V)
    ensures
        c.step_result::<B>(m).0.gpr[0] == 0,
{
    let p = c.step_prologue();
    assert(p.gpr[0] == 0);
    let pc = c.pc;
    let m1 = if is_bios_vector(pc) {
        p.bios_call_output::<B>(m)->Some_0
    } else {
        m
    };
    if !(is_bios_vector(pc) && p.gpr[31] != 0) && pc % 4 == 0 {
        let (w, m2) = B::read32_result(m1, pc);
        lemma_decoded_fields(w);
        lemma_executed_keeps_zero::<B>(p, B::stepped(m2, 1), decoded(w), c.next_in_delay_slot, pc);
    }
}

/// A load leaves the register file as it is in its own step: the loaded word waits in the
/// first stage of the load pipeline.
pub proof fn lemma_load_is_delayed<B: Bus>(x: Cpu, m: B::V, rs: usize, rt: usize, imm16: u16, ds: bool, pc: u32)
    requires
        rt != 0,
        x.eff_addr(rs, imm16) % 4 == 0,
    ensures
        ({
            let (y, m2) = x.executed::<B>(m, Instruction::Lw { rs, rt, imm16 }, ds, pc);
            let (v, m3) = B::read32_result(m, x.eff_addr(rs, imm16));
            &&& y.gpr == x.gpr
            &&& y.load_delay_pending_reg == rt
            &&& y.load_delay_pending_val == v
            &&& m2 == m3
        }),
{
}

/// The start of a step moves the load pipeline on by one stage: the value in the second
/// stage reaches its register (unless that is `$zero`) and the first stage moves to the
/// second.
pub proof fn lemma_load_pipeline_advances(x: Cpu)
    requires
        x.wf(),
    ensures
        x.load_delay_current_reg != 0 ==> x.step_prologue().gpr[x.load_delay_current_reg as int]
            == x.load_delay_current_val,
        x.step_prologue().load_delay_current_reg == x.load_delay_pending_reg,
        x.step_prologue().load_delay_current_val == x.load_delay_pending_val,
        x.step_prologue().load_delay_pending_reg == 0,
{
}

/// SLT (opcode 0, function 0x2A) compares its source registers as signed 32-bit integers:
/// `rd` becomes 1 exactly when `rs` is less than `rt` as an `i32`, else 0, and the bus is
/// not touched.
pub proof fn lemma_slt_is_signed<B: Bus>(x: Cpu, m: B::V, w: u32, ds: bool, pc: u32)
    requires
        (w >> 26u32) & 0x3F == 0,
        w & 0x3F == 0x2A,
        (w >> 11u32) & 0x1F != 0,
    ensures
        ({
            let rs = ((w >> 21u32) & 0x1F) as int;
            let rt = ((w >> 16u32) & 0x1F) as int;
            let rd = ((w >> 11u32) & 0x1F) as int;
            let (y, m2) = x.executed::<B>(m, decoded(w), ds, pc);
            &&& y.gpr[rd] == if (x.gpr[rs] as i32) < (x.gpr[rt] as i32) { 1u32 } else { 0u32 }
            &&& m2 == m
        }),
{
    lemma_decoded_fields(w);
    let rs = ((w >> 21u32) & 0x1F);
    let rt = ((w >> 16u32) & 0x1F);
    lemma_sint_cast(x.gpr[rs as int]);
    lemma_sint_cast(x.gpr[rt as int]);
}

/// A 16-bit immediate read as a signed `i16`: its sign extension's two's complement value.
proof fn lemma_imm_signed(imm: u16)
    ensures
        (imm as i16) as int == sint(sext16(imm)),
        sext16(imm) as int == ((imm as i16) as int) % 0x1_0000_0000,
{
    if imm >= 0x8000 {
        assert(((imm as i16) as i32) == (imm as i32) - 0x10000i32) by (bit_vector)
            requires
                imm >= 0x8000u16,
        ;
    }
}

/// ADDU, SUBU and ADDIU add or subtract modulo 2^32 (ADDIU with its immediate read as an
/// `i16`), and LUI moves the immediate into the upper half of the register.
pub proof fn lemma_add_sub_results<B: Bus>(x: Cpu, m: B::V, rs: usize, rt: usize, rd: usize, imm16: u16, ds: bool, pc: u32)
    requires
        rs < 32,
        rt < 32,
        0 < rd < 32,
    ensures
        x.executed::<B>(m, Instruction::Addu { rs, rt, rd }, ds, pc).0.gpr[rd as int] as int == (
        x.gpr[rs as int] + x.gpr[rt as int]) % 0x1_0000_0000,
        x.executed::<B>(m, Instruction::Subu { rs, rt, rd }, ds, pc).0.gpr[rd as int] as int == (
        x.gpr[rs as int] - x.gpr[rt as int]) % 0x1_0000_0000,
        x.executed::<B>(m, Instruction::Addiu { rs, rt: rd, imm16 }, ds, pc).0.gpr[rd as int] as int
            == (x.gpr[rs as int] + (imm16 as i16) as int) % 0x1_0000_0000,
        x.executed::<B>(m, Instruction::Lui { rt: rd, imm16 }, ds, pc).0.gpr[rd as int] as int
            == imm16 * 0x1_0000,
{
    lemma_imm_signed(imm16);
    assert((imm16 as u32) << 16u32 == (imm16 as u32) * 0x1_0000) by (bit_vector);
}

/// SLTU and SLTIU compare as unsigned words (SLTIU against its sign-extended immediate),
/// SLTI as signed `i32`s against its immediate read as an `i16`.
pub proof fn lemma_compare_results<B: Bus>(x: Cpu, m: B::V, rs: usize, rt: usize, rd: usize, imm16: u16, ds: bool, pc: u32)
    requires
        rs < 32,
        rt < 32,
        0 < rd < 32,
    ensures
        x.executed::<B>(m, Instruction::Sltu { rs, rt, rd }, ds, pc).0.gpr[rd as int] == if x.gpr[rs as int]
            < x.gpr[rt as int] { 1u32 } else { 0u32 },
        x.executed::<B>(m, Instruction::Slti { rs, rt: rd, imm16 }, ds, pc).0.gpr[rd as int] == if (
        x.gpr[rs as int] as i32) < (imm16 as i16) { 1u32 } else { 0u32 },
        x.executed::<B>(m, Instruction::Sltiu { rs, rt: rd, imm16 }, ds, pc).0.gpr[rd as int] == if (
        x.gpr[rs as int] as int) < ((imm16 as i16) as int) % 0x1_0000_0000 { 1u32 } else { 0u32 },
{
    lemma_imm_signed(imm16);
    lemma_sint_cast(x.gpr[rs as int]);
}

/// MULTU and MULT leave the 64-bit product in HI:LO (MULT's signed product in two's
/// complement), and DIVU by a nonzero divisor leaves the quotient in LO and the remainder
/// in HI.
pub proof fn lemma_multiply_divide_results<B: Bus>(x: Cpu, m: B::V, rs: usize, rt: usize, ds: bool, pc: u32)
    requires
        rs < 32,
        rt < 32,
    ensures
        ({
            let y = x.executed::<B>(m, Instruction::Multu { rs, rt }, ds, pc).0;
            y.hi * 0x1_0000_0000 + y.lo == x.gpr[rs as int] * x.gpr[rt as int]
        }),
        ({
            let y = x.executed::<B>(m, Instruction::Mult { rs, rt }, ds, pc).0;
            y.hi * 0x1_0000_0000 + y.lo == ((x.gpr[rs as int] as i32) * (x.gpr[rt as int] as i32))
                % 0x1_0000_0000_0000_0000
        }),
        x.gpr[rt as int] != 0 ==> ({
            let y = x.executed::<B>(m, Instruction::Divu { rs, rt }, ds, pc).0;
            y.lo == x.gpr[rs as int] / x.gpr[rt as int] && y.hi == x.gpr[rs as int] % x.gpr[rt as int]
        }),
{
    let a = x.gpr[rs as int];
    let b = x.gpr[rt as int];
    lemma_sint_cast(a);
    lemma_sint_cast(b);
    let p = a as int * b as int;
    assert(0 <= p < 0x1_0000_0000_0000_0000) by (nonlinear_arith)
        requires
            p == a as int * b as int,
    ;
    lemma_split_product(p);
    lemma_split_product(sint(a) * sint(b));
}

/// HI and LO as `product_hi`/`product_lo` give back the product modulo 2^64.
proof fn lemma_split_product(p: int)
    ensures
        product_hi(p) * 0x1_0000_0000 + product_lo(p) == p % 0x1_0000_0000_0000_0000,
{
    let q = p % 0x1_0000_0000_0000_0000;
    vstd::arithmetic::div_mod::lemma_mod_mod(p, 0x1_0000_0000, 0x1_0000_0000);
    assert((q / 0x1_0000_0000) * 0x1_0000_0000 + q % 0x1_0000_0000 == q);
    assert(q / 0x1_0000_0000 < 0x1_0000_0000);
}

/// ADD raises Overflow, and leaves the registers as they were, exactly when the signed sum
/// of its sources leaves the `i32` range; otherwise it writes the sum modulo 2^32.
pub proof fn lemma_add_overflow<B: Bus>(x: Cpu, m: B::V, rs: usize, rt: usize, rd: usize, ds: bool, pc: u32)
    requires
        rs < 32,
        rt < 32,
        0 < rd < 32,
    ensures
        ({
            let sum = (x.gpr[rs as int] as i32) + (x.gpr[rt as int] as i32);
            let y = x.executed::<B>(m, Instruction::Add { rs, rt, rd }, ds, pc).0;
            &&& (sum < i32::MIN || sum > i32::MAX) ==> y == x.raised(Exception::Overflow, ds, pc)
                && y.gpr == x.gpr
            &&& (i32::MIN <= sum <= i32::MAX) ==> y.gpr[rd as int] as int == (x.gpr[rs as int]
                + x.gpr[rt as int]) % 0x1_0000_0000
        }),
{
    lemma_sint_cast(x.gpr[rs as int]);
    lemma_sint_cast(x.gpr[rt as int]);
}

} // verus!
