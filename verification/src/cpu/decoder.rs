//! Instruction word decoding into the R-, I- and J-type instruction forms.
use crate::bits::lemma_and_le;
use vstd::prelude::*;

verus! {

/// A decoded MIPS R3000A instruction with its register, immediate and target fields.
#[derive(Debug, Clone, Copy, PartialEq, Eq)]
pub enum Instruction {
    Add { rs: usize, rt: usize, rd: usize },
    Addu { rs: usize, rt: usize, rd: usize },
    Sub { rs: usize, rt: usize, rd: usize },
    Subu { rs: usize, rt: usize, rd: usize },
    And { rs: usize, rt: usize, rd: usize },
    Or { rs: usize, rt: usize, rd: usize },
    Xor { rs: usize, rt: usize, rd: usize },
    Nor { rs: usize, rt: usize, rd: usize },
    Slt { rs: usize, rt: usize, rd: usize },
    Sltu { rs: usize, rt: usize, rd: usize },
    Sll { rt: usize, rd: usize, shamt: u32 },
    Srl { rt: usize, rd: usize, shamt: u32 },
    Sra { rt: usize, rd: usize, shamt: u32 },
    Sllv { rs: usize, rt: usize, rd: usize },
    Srlv { rs: usize, rt: usize, rd: usize },
    Srav { rs: usize, rt: usize, rd: usize },
    Mult { rs: usize, rt: usize },
    Multu { rs: usize, rt: usize },
    Div { rs: usize, rt: usize },
    Divu { rs: usize, rt: usize },
    Mfhi { rd: usize },
    Mthi { rs: usize },
    Mflo { rd: usize },
    Mtlo { rs: usize },
    Addi { rs: usize, rt: usize, imm16: u16 },
    Addiu { rs: usize, rt: usize, imm16: u16 },
    Slti { rs: usize, rt: usize, imm16: u16 },
    Sltiu { rs: usize, rt: usize, imm16: u16 },
    Andi { rs: usize, rt: usize, imm16: u16 },
    Ori { rs: usize, rt: usize, imm16: u16 },
    Xori { rs: usize, rt: usize, imm16: u16 },
    Lui { rt: usize, imm16: u16 },
    J { target26: u32 },
    Jal { target26: u32 },
    Jr { rs: usize },
    Jalr { rs: usize, rd: usize },
    Beq { rs: usize, rt: usize, imm16: u16 },
    Bne { rs: usize, rt: usize, imm16: u16 },
    Blez { rs: usize, imm16: u16 },
    Bgtz { rs: usize, imm16: u16 },
    Bltz { rs: usize, imm16: u16 },
    Bgez { rs: usize, imm16: u16 },
    Bltzal { rs: usize, imm16: u16 },
    Bgezal { rs: usize, imm16: u16 },
    Lb { rs: usize, rt: usize, imm16: u16 },
    Lbu { rs: usize, rt: usize, imm16: u16 },
    Lh { rs: usize, rt: usize, imm16: u16 },
    Lhu { rs: usize, rt: usize, imm16: u16 },
    Lw { rs: usize, rt: usize, imm16: u16 },
    Lwl { rs: usize, rt: usize, imm16: u16 },
    Lwr { rs: usize, rt: usize, imm16: u16 },
    Sb { rs: usize, rt: usize, imm16: u16 },
    Sh { rs: usize, rt: usize, imm16: u16 },
    Sw { rs: usize, rt: usize, imm16: u16 },
    Swl { rs: usize, rt: usize, imm16: u16 },
    Swr { rs: usize, rt: usize, imm16: u16 },
    Mfc0 { rt: usize, rd: usize },
    Mtc0 { rt: usize, rd: usize },
    Rfe,
    Syscall,
    Break,
    CopUnusable { cop_num: u32 },
    Lwc { cop_num: u32, rs: usize, rt: usize, imm16: u16 },
    Ldc { cop_num: u32, rs: usize, rt: usize, imm16: u16 },
    Swc { cop_num: u32, rs: usize, rt: usize, imm16: u16 },
    Sdc { cop_num: u32, rs: usize, rt: usize, imm16: u16 },
    Reserved,
}

/// Bits 31..26: the primary opcode.
pub open spec fn op_field(w: u32) -> u32 {
    (w >> 26u32) & 0x3F
}

/// Bits 25..21: the `rs` register.
pub open spec fn rs_field(w: u32) -> usize {
    ((w >> 21u32) & 0x1F) as usize
}

/// Bits 20..16: the `rt` register.
pub open spec fn rt_field(w: u32) -> usize {
    ((w >> 16u32) & 0x1F) as usize
}

/// Bits 15..11: the `rd` register.
pub open spec fn rd_field(w: u32) -> usize {
    ((w >> 11u32) & 0x1F) as usize
}

/// Bits 10..6: the shift amount.
pub open spec fn shamt_field(w: u32) -> u32 {
    (w >> 6u32) & 0x1F
}

/// Bits 5..0: the function code of SPECIAL instructions.
pub open spec fn funct_field(w: u32) -> u32 {
    w & 0x3F
}

/// Bits 15..0: the immediate.
pub open spec fn imm_field(w: u32) -> u16 {
    (w & 0xFFFF) as u16
}

/// Bits 25..0: the jump target.
pub open spec fn target_field(w: u32) -> u32 {
    w & 0x03FF_FFFF
}

/// The instruction that word `w` encodes, by the R3000A opcode map; an unused encoding
/// is `Reserved`.
pub open spec fn decoded(w: u32) -> Instruction {
    let op = op_field(w);
    let rs = rs_field(w);
    let rt = rt_field(w);
    let rd = rd_field(w);
    let shamt = shamt_field(w);
    let funct = funct_field(w);
    let imm16 = imm_field(w);
    let target26 = target_field(w);
    match op {
        0x00u32 => match funct {
            0x00u32 => Instruction::Sll { rt, rd, shamt },
            0x02u32 => Instruction::Srl { rt, rd, shamt },
            0x03u32 => Instruction::Sra { rt, rd, shamt },
            0x04u32 => Instruction::Sllv { rs, rt, rd },
            0x06u32 => Instruction::Srlv { rs, rt, rd },
            0x07u32 => Instruction::Srav { rs, rt, rd },
            0x08u32 => Instruction::Jr { rs },
            0x09u32 => Instruction::Jalr { rs, rd },
            0x0Cu32 => Instruction::Syscall,
            0x0Du32 => Instruction::Break,
            0x10u32 => Instruction::Mfhi { rd },
            0x11u32 => Instruction::Mthi { rs },
            0x12u32 => Instruction::Mflo { rd },
            0x13u32 => Instruction::Mtlo { rs },
            0x18u32 => Instruction::Mult { rs, rt },
            0x19u32 => Instruction::Multu { rs, rt },
            0x1Au32 => Instruction::Div { rs, rt },
            0x1Bu32 => Instruction::Divu { rs, rt },
            0x20u32 => Instruction::Add { rs, rt, rd },
            0x21u32 => Instruction::Addu { rs, rt, rd },
            0x22u32 => Instruction::Sub { rs, rt, rd },
            0x23u32 => Instruction::Subu { rs, rt, rd },
            0x24u32 => Instruction::And { rs, rt, rd },
            0x25u32 => Instruction::Or { rs, rt, rd },
            0x26u32 => Instruction::Xor { rs, rt, rd },
            0x27u32 => Instruction::Nor { rs, rt, rd },
            0x2Au32 => Instruction::Slt { rs, rt, rd },
            0x2Bu32 => Instruction::Sltu { rs, rt, rd },
            _ => Instruction::Reserved,
        },
        0x01u32 => match rt {
            0x00usize => Instruction::Bltz { rs, imm16 },
            0x01usize => Instruction::Bgez { rs, imm16 },
            0x10usize => Instruction::Bltzal { rs, imm16 },
            0x11usize => Instruction::Bgezal { rs, imm16 },
            _ => Instruction::Reserved,
        },
        0x02u32 => Instruction::J { target26 },
        0x03u32 => Instruction::Jal { target26 },
        0x04u32 => Instruction::Beq { rs, rt, imm16 },
        0x05u32 => Instruction::Bne { rs, rt, imm16 },
        0x06u32 => Instruction::Blez { rs, imm16 },
        0x07u32 => Instruction::Bgtz { rs, imm16 },
        0x08u32 => Instruction::Addi { rs, rt, imm16 },
        0x09u32 => Instruction::Addiu { rs, rt, imm16 },
        0x0Au32 => Instruction::Slti { rs, rt, imm16 },
        0x0Bu32 => Instruction::Sltiu { rs, rt, imm16 },
        0x0Cu32 => Instruction::Andi { rs, rt, imm16 },
        0x0Du32 => Instruction::Ori { rs, rt, imm16 },
        0x0Eu32 => Instruction::Xori { rs, rt, imm16 },
        0x0Fu32 => Instruction::Lui { rt, imm16 },
        0x10u32 => match rs {
            0x00usize => Instruction::Mfc0 { rt, rd },
            0x04usize => Instruction::Mtc0 { rt, rd },
            0x10usize => if funct == 0x10u32 {
                Instruction::Rfe
            } else {
                Instruction::Reserved
            },
            _ => Instruction::Reserved,
        },
        0x11u32 | 0x15u32 | 0x19u32 | 0x1Du32 => Instruction::CopUnusable { cop_num: 1 },
        0x12u32 | 0x16u32 | 0x1Au32 | 0x1Eu32 => Instruction::CopUnusable { cop_num: 2 },
        0x13u32 | 0x17u32 | 0x1Bu32 | 0x1Fu32 => Instruction::CopUnusable { cop_num: 3 },
        0x14u32 | 0x18u32 | 0x1Cu32 => Instruction::CopUnusable { cop_num: 0 },
        0x20u32 => Instruction::Lb { rs, rt, imm16 },
        0x21u32 => Instruction::Lh { rs, rt, imm16 },
        0x22u32 => Instruction::Lwl { rs, rt, imm16 },
        0x23u32 => Instruction::Lw { rs, rt, imm16 },
        0x24u32 => Instruction::Lbu { rs, rt, imm16 },
        0x25u32 => Instruction::Lhu { rs, rt, imm16 },
        0x26u32 => Instruction::Lwr { rs, rt, imm16 },
        0x28u32 => Instruction::Sb { rs, rt, imm16 },
        0x29u32 => Instruction::Sh { rs, rt, imm16 },
        0x2Au32 => Instruction::Swl { rs, rt, imm16 },
        0x2Bu32 => Instruction::Sw { rs, rt, imm16 },
        0x2Eu32 => Instruction::Swr { rs, rt, imm16 },
        0x30u32 => Instruction::Lwc { cop_num: 0, rs, rt, imm16 },
        0x31u32 => Instruction::Lwc { cop_num: 1, rs, rt, imm16 },
        0x32u32 => Instruction::Lwc { cop_num: 2, rs, rt, imm16 },
        0x33u32 => Instruction::Lwc { cop_num: 3, rs, rt, imm16 },
        0x38u32 => Instruction::Swc { cop_num: 0, rs, rt, imm16 },
        0x39u32 => Instruction::Swc { cop_num: 1, rs, rt, imm16 },
        0x3Au32 => Instruction::Swc { cop_num: 2, rs, rt, imm16 },
        0x3Bu32 => Instruction::Swc { cop_num: 3, rs, rt, imm16 },
        _ => Instruction::Reserved,
    }
}

/// Every register field of a decoded instruction names one of the 32 registers, and the
/// shift amount is below 32.
pub open spec fn fields_in_range(i: Instruction) -> bool {
    match i {
        Instruction::Add { rs, rt, rd } | Instruction::Addu { rs, rt, rd }
        | Instruction::Sub { rs, rt, rd } | Instruction::Subu { rs, rt, rd }
        | Instruction::And { rs, rt, rd } | Instruction::Or { rs, rt, rd }
        | Instruction::Xor { rs, rt, rd } | Instruction::Nor { rs, rt, rd }
        | Instruction::Slt { rs, rt, rd } | Instruction::Sltu { rs, rt, rd }
        | Instruction::Sllv { rs, rt, rd } | Instruction::Srlv { rs, rt, rd }
        | Instruction::Srav { rs, rt, rd } => rs < 32 && rt < 32 && rd < 32,
        Instruction::Sll { rt, rd, shamt } | Instruction::Srl { rt, rd, shamt }
        | Instruction::Sra { rt, rd, shamt } => rt < 32 && rd < 32 && shamt < 32,
        Instruction::Mult { rs, rt } | Instruction::Multu { rs, rt }
        | Instruction::Div { rs, rt } | Instruction::Divu { rs, rt } => rs < 32 && rt < 32,
        Instruction::Mfhi { rd } | Instruction::Mflo { rd } => rd < 32,
        Instruction::Mthi { rs } | Instruction::Mtlo { rs } | Instruction::Jr { rs } => rs < 32,
        Instruction::Jalr { rs, rd } => rs < 32 && rd < 32,
        Instruction::Addi { rs, rt, .. } | Instruction::Addiu { rs, rt, .. }
        | Instruction::Slti { rs, rt, .. } | Instruction::Sltiu { rs, rt, .. }
        | Instruction::Andi { rs, rt, .. } | Instruction::Ori { rs, rt, .. }
        | Instruction::Xori { rs, rt, .. } | Instruction::Beq { rs, rt, .. }
        | Instruction::Bne { rs, rt, .. } | Instruction::Lb { rs, rt, .. }
        | Instruction::Lbu { rs, rt, .. } | Instruction::Lh { rs, rt, .. }
        | Instruction::Lhu { rs, rt, .. } | Instruction::Lw { rs, rt, .. }
        | Instruction::Lwl { rs, rt, .. } | Instruction::Lwr { rs, rt, .. }
        | Instruction::Sb { rs, rt, .. } | Instruction::Sh { rs, rt, .. }
        | Instruction::Sw { rs, rt, .. } | Instruction::Swl { rs, rt, .. }
        | Instruction::Swr { rs, rt, .. } => rs < 32 && rt < 32,
        Instruction::Lui { rt, .. } => rt < 32,
        Instruction::Blez { rs, .. } | Instruction::Bgtz { rs, .. }
        | Instruction::Bltz { rs, .. } | Instruction::Bgez { rs, .. }
        | Instruction::Bltzal { rs, .. } | Instruction::Bgezal { rs, .. } => rs < 32,
        Instruction::Mfc0 { rt, rd } | Instruction::Mtc0 { rt, rd } => rt < 32 && rd < 32,
        Instruction::Lwc { cop_num, rs, rt, .. } | Instruction::Ldc { cop_num, rs, rt, .. }
        | Instruction::Swc { cop_num, rs, rt, .. } | Instruction::Sdc { cop_num, rs, rt, .. } =>
            cop_num < 4 && rs < 32 && rt < 32,
        Instruction::CopUnusable { cop_num } => cop_num < 4,
        _ => true,
    }
}

/// The register fields of any decoded word are in range.
pub proof fn lemma_decoded_fields(w: u32)
    ensures
        fields_in_range(decoded(w)),
{
    lemma_and_le(w >> 21u32, 0x1F);
    lemma_and_le(w >> 16u32, 0x1F);
    lemma_and_le(w >> 11u32, 0x1F);
    lemma_and_le(w >> 6u32, 0x1F);
}

/// Decodes an instruction word.
pub fn decode(word: u32) -> (r: Instruction)
    ensures
        r == decoded(word),
        fields_in_range(r),
{
    let opcode = (word >> 26u32) & 0x3F;
    let rs = ((word >> 21u32) & 0x1F) as usize;
    let rt = ((word >> 16u32) & 0x1F) as usize;
    let rd = ((word >> 11u32) & 0x1F) as usize;
    let shamt = (word >> 6u32) & 0x1F;
    let funct = word & 0x3F;
    let imm16 = (word & 0xFFFF) as u16;
    let target26 = word & 0x03FF_FFFF;
    proof {
        lemma_and_le(word >> 21u32, 0x1F);
        lemma_and_le(word >> 16u32, 0x1F);
        lemma_and_le(word >> 11u32, 0x1F);
        lemma_and_le(word >> 6u32, 0x1F);
    }
    let op = opcode;
    match op {
        0x00u32 => match funct {
            0x00u32 => Instruction::Sll { rt, rd, shamt },
            0x02u32 => Instruction::Srl { rt, rd, shamt },
            0x03u32 => Instruction::Sra { rt, rd, shamt },
            0x04u32 => Instruction::Sllv { rs, rt, rd },
            0x06u32 => Instruction::Srlv { rs, rt, rd },
            0x07u32 => Instruction::Srav { rs, rt, rd },
            0x08u32 => Instruction::Jr { rs },
            0x09u32 => Instruction::Jalr { rs, rd },
            0x0Cu32 => Instruction::Syscall,
            0x0Du32 => Instruction::Break,
            0x10u32 => Instruction::Mfhi { rd },
            0x11u32 => Instruction::Mthi { rs },
            0x12u32 => Instruction::Mflo { rd },
            0x13u32 => Instruction::Mtlo { rs },
            0x18u32 => Instruction::Mult { rs, rt },
            0x19u32 => Instruction::Multu { rs, rt },
            0x1Au32 => Instruction::Div { rs, rt },
            0x1Bu32 => Instruction::Divu { rs, rt },
            0x20u32 => Instruction::Add { rs, rt, rd },
            0x21u32 => Instruction::Addu { rs, rt, rd },
            0x22u32 => Instruction::Sub { rs, rt, rd },
            0x23u32 => Instruction::Subu { rs, rt, rd },
            0x24u32 => Instruction::And { rs, rt, rd },
            0x25u32 => Instruction::Or { rs, rt, rd },
            0x26u32 => Instruction::Xor { rs, rt, rd },
            0x27u32 => Instruction::Nor { rs, rt, rd },
            0x2Au32 => Instruction::Slt { rs, rt, rd },
            0x2Bu32 => Instruction::Sltu { rs, rt, rd },
            _ => Instruction::Reserved,
        },
        0x01u32 => match rt {
            0x00usize => Instruction::Bltz { rs, imm16 },
            0x01usize => Instruction::Bgez { rs, imm16 },
            0x10usize => Instruction::Bltzal { rs, imm16 },
            0x11usize => Instruction::Bgezal { rs, imm16 },
            _ => Instruction::Reserved,
        },
        0x02u32 => Instruction::J { target26 },
        0x03u32 => Instruction::Jal { target26 },
        0x04u32 => Instruction::Beq { rs, rt, imm16 },
        0x05u32 => Instruction::Bne { rs, rt, imm16 },
        0x06u32 => Instruction::Blez { rs, imm16 },
        0x07u32 => Instruction::Bgtz { rs, imm16 },
        0x08u32 => Instruction::Addi { rs, rt, imm16 },
        0x09u32 => Instruction::Addiu { rs, rt, imm16 },
        0x0Au32 => Instruction::Slti { rs, rt, imm16 },
        0x0Bu32 => Instruction::Sltiu { rs, rt, imm16 },
        0x0Cu32 => Instruction::Andi { rs, rt, imm16 },
        0x0Du32 => Instruction::Ori { rs, rt, imm16 },
        0x0Eu32 => Instruction::Xori { rs, rt, imm16 },
        0x0Fu32 => Instruction::Lui { rt, imm16 },
        0x10u32 => match rs {
            0x00usize => Instruction::Mfc0 { rt, rd },
            0x04usize => Instruction::Mtc0 { rt, rd },
            0x10usize => if funct == 0x10u32 {
                Instruction::Rfe
            } else {
                Instruction::Reserved
            },
            _ => Instruction::Reserved,
        },
        0x11u32 | 0x15u32 | 0x19u32 | 0x1Du32 => Instruction::CopUnusable { cop_num: 1 },
        0x12u32 | 0x16u32 | 0x1Au32 | 0x1Eu32 => Instruction::CopUnusable { cop_num: 2 },
        0x13u32 | 0x17u32 | 0x1Bu32 | 0x1Fu32 => Instruction::CopUnusable { cop_num: 3 },
        0x14u32 | 0x18u32 | 0x1Cu32 => Instruction::CopUnusable { cop_num: 0 },
        0x20u32 => Instruction::Lb { rs, rt, imm16 },
        0x21u32 => Instruction::Lh { rs, rt, imm16 },
        0x22u32 => Instruction::Lwl { rs, rt, imm16 },
        0x23u32 => Instruction::Lw { rs, rt, imm16 },
        0x24u32 => Instruction::Lbu { rs, rt, imm16 },
        0x25u32 => Instruction::Lhu { rs, rt, imm16 },
        0x26u32 => Instruction::Lwr { rs, rt, imm16 },
        0x28u32 => Instruction::Sb { rs, rt, imm16 },
        0x29u32 => Instruction::Sh { rs, rt, imm16 },
        0x2Au32 => Instruction::Swl { rs, rt, imm16 },
        0x2Bu32 => Instruction::Sw { rs, rt, imm16 },
        0x2Eu32 => Instruction::Swr { rs, rt, imm16 },
        0x30u32 => Instruction::Lwc { cop_num: 0, rs, rt, imm16 },
        0x31u32 => Instruction::Lwc { cop_num: 1, rs, rt, imm16 },
        0x32u32 => Instruction::Lwc { cop_num: 2, rs, rt, imm16 },
        0x33u32 => Instruction::Lwc { cop_num: 3, rs, rt, imm16 },
        0x38u32 => Instruction::Swc { cop_num: 0, rs, rt, imm16 },
        0x39u32 => Instruction::Swc { cop_num: 1, rs, rt, imm16 },
        0x3Au32 => Instruction::Swc { cop_num: 2, rs, rt, imm16 },
        0x3Bu32 => Instruction::Swc { cop_num: 3, rs, rt, imm16 },
        _ => Instruction::Reserved,
    }
}

} // verus!
