//! Reading PVM instructions back from their bytes: the operand layout of
//! each instruction format, as a PVM reads it.
use super::instruction::{
    imm_bytes, imm_len, imm_roundtrip, le_u32_bytes, le_u64_bytes, le_value, lemma_le_u32_value, lemma_le_value_4,
    nibbles, sign_extended_value, three_reg_bytes, two_reg_bytes, two_reg_off_bytes, uimm_bytes, uimm_roundtrip,
    Instruction, reg_imm_off_bytes,
};
use super::opcode::{lemma_opcode_byte_injective, Opcode};
use vstd::prelude::*;

verus! {

/// The opcode whose byte is `byte`, if any.
pub open spec fn opcode_of(byte: u8) -> Option<Opcode> {
    if exists|op: Opcode| op.byte() == byte {
        Some(choose|op: Opcode| op.byte() == byte)
    } else {
        None
    }
}

/// The register in the low nibble of a register byte.
pub open spec fn low_nibble(byte: u8) -> u8 {
    byte & 0x0F
}

/// The register (or immediate length) in the high nibble of a register byte.
pub open spec fn high_nibble(byte: u8) -> u8 {
    byte >> 4
}

/// The compact signed immediate in bytes `start..end`, sign-extended from its last byte.
pub open spec fn imm_from(b: Seq<u8>, start: int, end: int) -> i32 {
    sign_extended_value(b.subrange(start, end)) as i32
}

/// The 32-bit little-endian offset in bytes `start..start + 4`.
pub open spec fn offset_at(b: Seq<u8>, start: int) -> i32 {
    (le_value(b.subrange(start, start + 4)) as u32) as i32
}

/// The instruction that the bytes `b` of one instruction encode: the opcode
/// byte, then the operands in the opcode's format. A register byte holds two
/// registers (or a register and an immediate's length), one per nibble; a
/// three-register operation reads `src1` from the low nibble, `src2` from the
/// high one and `dst` from the third byte; a two-register branch reads `reg1`
/// from the high nibble and `reg2` from the low one; compact immediates run to
/// the end of the instruction (or for the length in the high nibble), and jump
/// offsets are four little-endian bytes. `None` for an opcode the compiler
/// does not emit.
pub open spec fn decode(b: Seq<u8>) -> Option<Instruction> {
    if b.len() == 0 {
        None
    } else {
        match opcode_of(b[0]) {
            None => None,
            Some(op) => match op {
                Opcode::Trap => Some(Instruction::Trap),
                Opcode::Fallthrough => Some(Instruction::Fallthrough),
                Opcode::LoadImm64 => Some(Instruction::LoadImm64 { reg: low_nibble(b[1]), value: le_value(b.subrange(2, 10)) as u64 }),
                Opcode::LoadImm => Some(Instruction::LoadImm { reg: low_nibble(b[1]), value: imm_from(b, 2, b.len() as int) }),
                Opcode::Add32 => Some(Instruction::Add32 { dst: b[2] & 0x0F, src1: low_nibble(b[1]), src2: high_nibble(b[1]) }),
                Opcode::Sub32 => Some(Instruction::Sub32 { dst: b[2] & 0x0F, src1: low_nibble(b[1]), src2: high_nibble(b[1]) }),
                Opcode::Mul32 => Some(Instruction::Mul32 { dst: b[2] & 0x0F, src1: low_nibble(b[1]), src2: high_nibble(b[1]) }),
                Opcode::DivU32 => Some(Instruction::DivU32 { dst: b[2] & 0x0F, src1: low_nibble(b[1]), src2: high_nibble(b[1]) }),
                Opcode::DivS32 => Some(Instruction::DivS32 { dst: b[2] & 0x0F, src1: low_nibble(b[1]), src2: high_nibble(b[1]) }),
                Opcode::RemU32 => Some(Instruction::RemU32 { dst: b[2] & 0x0F, src1: low_nibble(b[1]), src2: high_nibble(b[1]) }),
                Opcode::RemS32 => Some(Instruction::RemS32 { dst: b[2] & 0x0F, src1: low_nibble(b[1]), src2: high_nibble(b[1]) }),
                Opcode::Add64 => Some(Instruction::Add64 { dst: b[2] & 0x0F, src1: low_nibble(b[1]), src2: high_nibble(b[1]) }),
                Opcode::Sub64 => Some(Instruction::Sub64 { dst: b[2] & 0x0F, src1: low_nibble(b[1]), src2: high_nibble(b[1]) }),
                Opcode::Mul64 => Some(Instruction::Mul64 { dst: b[2] & 0x0F, src1: low_nibble(b[1]), src2: high_nibble(b[1]) }),
                Opcode::DivU64 => Some(Instruction::DivU64 { dst: b[2] & 0x0F, src1: low_nibble(b[1]), src2: high_nibble(b[1]) }),
                Opcode::DivS64 => Some(Instruction::DivS64 { dst: b[2] & 0x0F, src1: low_nibble(b[1]), src2: high_nibble(b[1]) }),
                Opcode::RemU64 => Some(Instruction::RemU64 { dst: b[2] & 0x0F, src1: low_nibble(b[1]), src2: high_nibble(b[1]) }),
                Opcode::RemS64 => Some(Instruction::RemS64 { dst: b[2] & 0x0F, src1: low_nibble(b[1]), src2: high_nibble(b[1]) }),
                Opcode::ShloL64 => Some(Instruction::ShloL64 { dst: b[2] & 0x0F, src1: low_nibble(b[1]), src2: high_nibble(b[1]) }),
                Opcode::ShloR64 => Some(Instruction::ShloR64 { dst: b[2] & 0x0F, src1: low_nibble(b[1]), src2: high_nibble(b[1]) }),
                Opcode::SharR64 => Some(Instruction::SharR64 { dst: b[2] & 0x0F, src1: low_nibble(b[1]), src2: high_nibble(b[1]) }),
                Opcode::AddImm32 => Some(Instruction::AddImm32 { dst: low_nibble(b[1]), src: high_nibble(b[1]), value: imm_from(b, 2, b.len() as int) }),
                Opcode::AddImm64 => Some(Instruction::AddImm64 { dst: low_nibble(b[1]), src: high_nibble(b[1]), value: imm_from(b, 2, b.len() as int) }),
                Opcode::Jump => Some(Instruction::Jump { offset: offset_at(b, 1) }),
                Opcode::LoadImmJump => Some(Instruction::LoadImmJump { reg: low_nibble(b[1]), value: imm_from(b, 2, 2 + high_nibble(b[1])), offset: offset_at(b, 2 + high_nibble(b[1])) }),
                Opcode::JumpInd => Some(Instruction::JumpInd { reg: low_nibble(b[1]), offset: imm_from(b, 2, b.len() as int) }),
                Opcode::LoadIndU32 => Some(Instruction::LoadIndU32 { dst: low_nibble(b[1]), base: high_nibble(b[1]), offset: imm_from(b, 2, b.len() as int) }),
                Opcode::StoreIndU32 => Some(Instruction::StoreIndU32 { src: low_nibble(b[1]), base: high_nibble(b[1]), offset: imm_from(b, 2, b.len() as int) }),
                Opcode::LoadIndU64 => Some(Instruction::LoadIndU64 { dst: low_nibble(b[1]), base: high_nibble(b[1]), offset: imm_from(b, 2, b.len() as int) }),
                Opcode::StoreIndU64 => Some(Instruction::StoreIndU64 { src: low_nibble(b[1]), base: high_nibble(b[1]), offset: imm_from(b, 2, b.len() as int) }),
                Opcode::BranchNeImm => Some(Instruction::BranchNeImm { reg: low_nibble(b[1]), value: imm_from(b, 2, 2 + high_nibble(b[1])), offset: offset_at(b, 2 + high_nibble(b[1])) }),
                Opcode::BranchEqImm => Some(Instruction::BranchEqImm { reg: low_nibble(b[1]), value: imm_from(b, 2, 2 + high_nibble(b[1])), offset: offset_at(b, 2 + high_nibble(b[1])) }),
                Opcode::BranchGeSImm => Some(Instruction::BranchGeSImm { reg: low_nibble(b[1]), value: imm_from(b, 2, 2 + high_nibble(b[1])), offset: offset_at(b, 2 + high_nibble(b[1])) }),
                Opcode::BranchLtUImm => Some(Instruction::BranchLtUImm { reg: low_nibble(b[1]), value: imm_from(b, 2, 2 + high_nibble(b[1])), offset: offset_at(b, 2 + high_nibble(b[1])) }),
                Opcode::BranchLeUImm => Some(Instruction::BranchLeUImm { reg: low_nibble(b[1]), value: imm_from(b, 2, 2 + high_nibble(b[1])), offset: offset_at(b, 2 + high_nibble(b[1])) }),
                Opcode::BranchGeUImm => Some(Instruction::BranchGeUImm { reg: low_nibble(b[1]), value: imm_from(b, 2, 2 + high_nibble(b[1])), offset: offset_at(b, 2 + high_nibble(b[1])) }),
                Opcode::BranchGtUImm => Some(Instruction::BranchGtUImm { reg: low_nibble(b[1]), value: imm_from(b, 2, 2 + high_nibble(b[1])), offset: offset_at(b, 2 + high_nibble(b[1])) }),
                Opcode::BranchLtSImm => Some(Instruction::BranchLtSImm { reg: low_nibble(b[1]), value: imm_from(b, 2, 2 + high_nibble(b[1])), offset: offset_at(b, 2 + high_nibble(b[1])) }),
                Opcode::BranchLeSImm => Some(Instruction::BranchLeSImm { reg: low_nibble(b[1]), value: imm_from(b, 2, 2 + high_nibble(b[1])), offset: offset_at(b, 2 + high_nibble(b[1])) }),
                Opcode::BranchGtSImm => Some(Instruction::BranchGtSImm { reg: low_nibble(b[1]), value: imm_from(b, 2, 2 + high_nibble(b[1])), offset: offset_at(b, 2 + high_nibble(b[1])) }),
                Opcode::MoveReg => Some(Instruction::MoveReg { dst: low_nibble(b[1]), src: high_nibble(b[1]) }),
                Opcode::BranchEq => Some(Instruction::BranchEq { reg1: high_nibble(b[1]), reg2: low_nibble(b[1]), offset: offset_at(b, 2) }),
                Opcode::BranchNe => Some(Instruction::BranchNe { reg1: high_nibble(b[1]), reg2: low_nibble(b[1]), offset: offset_at(b, 2) }),
                Opcode::BranchGeU => Some(Instruction::BranchGeU { reg1: high_nibble(b[1]), reg2: low_nibble(b[1]), offset: offset_at(b, 2) }),
                Opcode::BranchLtU => Some(Instruction::BranchLtU { reg1: high_nibble(b[1]), reg2: low_nibble(b[1]), offset: offset_at(b, 2) }),
                Opcode::BranchLtS => Some(Instruction::BranchLtS { reg1: high_nibble(b[1]), reg2: low_nibble(b[1]), offset: offset_at(b, 2) }),
                Opcode::BranchGeS => Some(Instruction::BranchGeS { reg1: high_nibble(b[1]), reg2: low_nibble(b[1]), offset: offset_at(b, 2) }),
                Opcode::SetLtU => Some(Instruction::SetLtU { dst: b[2] & 0x0F, src1: low_nibble(b[1]), src2: high_nibble(b[1]) }),
                Opcode::SetLtS => Some(Instruction::SetLtS { dst: b[2] & 0x0F, src1: low_nibble(b[1]), src2: high_nibble(b[1]) }),
                Opcode::And => Some(Instruction::And { dst: b[2] & 0x0F, src1: low_nibble(b[1]), src2: high_nibble(b[1]) }),
                Opcode::Xor => Some(Instruction::Xor { dst: b[2] & 0x0F, src1: low_nibble(b[1]), src2: high_nibble(b[1]) }),
                Opcode::Or => Some(Instruction::Or { dst: b[2] & 0x0F, src1: low_nibble(b[1]), src2: high_nibble(b[1]) }),
                Opcode::SetLtUImm => Some(Instruction::SetLtUImm { dst: low_nibble(b[1]), src: high_nibble(b[1]), value: imm_from(b, 2, b.len() as int) }),
                Opcode::SetLtSImm => Some(Instruction::SetLtSImm { dst: low_nibble(b[1]), src: high_nibble(b[1]), value: imm_from(b, 2, b.len() as int) }),
                Opcode::ShloL32 => Some(Instruction::ShloL32 { dst: b[2] & 0x0F, src1: low_nibble(b[1]), src2: high_nibble(b[1]) }),
                Opcode::ShloR32 => Some(Instruction::ShloR32 { dst: b[2] & 0x0F, src1: low_nibble(b[1]), src2: high_nibble(b[1]) }),
                Opcode::SharR32 => Some(Instruction::SharR32 { dst: b[2] & 0x0F, src1: low_nibble(b[1]), src2: high_nibble(b[1]) }),
                Opcode::Sbrk => Some(Instruction::Sbrk { dst: low_nibble(b[1]), src: high_nibble(b[1]) }),
                Opcode::CountSetBits64 => Some(Instruction::CountSetBits64 { dst: low_nibble(b[1]), src: high_nibble(b[1]) }),
                Opcode::CountSetBits32 => Some(Instruction::CountSetBits32 { dst: low_nibble(b[1]), src: high_nibble(b[1]) }),
                Opcode::LeadingZeroBits64 => Some(Instruction::LeadingZeroBits64 { dst: low_nibble(b[1]), src: high_nibble(b[1]) }),
                Opcode::LeadingZeroBits32 => Some(Instruction::LeadingZeroBits32 { dst: low_nibble(b[1]), src: high_nibble(b[1]) }),
                Opcode::TrailingZeroBits64 => Some(Instruction::TrailingZeroBits64 { dst: low_nibble(b[1]), src: high_nibble(b[1]) }),
                Opcode::TrailingZeroBits32 => Some(Instruction::TrailingZeroBits32 { dst: low_nibble(b[1]), src: high_nibble(b[1]) }),
                Opcode::SignExtend8 => Some(Instruction::SignExtend8 { dst: low_nibble(b[1]), src: high_nibble(b[1]) }),
                Opcode::SignExtend16 => Some(Instruction::SignExtend16 { dst: low_nibble(b[1]), src: high_nibble(b[1]) }),
                Opcode::ZeroExtend16 => Some(Instruction::ZeroExtend16 { dst: low_nibble(b[1]), src: high_nibble(b[1]) }),
                Opcode::LoadIndU8 => Some(Instruction::LoadIndU8 { dst: low_nibble(b[1]), base: high_nibble(b[1]), offset: imm_from(b, 2, b.len() as int) }),
                Opcode::LoadIndI8 => Some(Instruction::LoadIndI8 { dst: low_nibble(b[1]), base: high_nibble(b[1]), offset: imm_from(b, 2, b.len() as int) }),
                Opcode::StoreIndU8 => Some(Instruction::StoreIndU8 { src: low_nibble(b[1]), base: high_nibble(b[1]), offset: imm_from(b, 2, b.len() as int) }),
                Opcode::LoadIndU16 => Some(Instruction::LoadIndU16 { dst: low_nibble(b[1]), base: high_nibble(b[1]), offset: imm_from(b, 2, b.len() as int) }),
                Opcode::LoadIndI16 => Some(Instruction::LoadIndI16 { dst: low_nibble(b[1]), base: high_nibble(b[1]), offset: imm_from(b, 2, b.len() as int) }),
                Opcode::StoreIndU16 => Some(Instruction::StoreIndU16 { src: low_nibble(b[1]), base: high_nibble(b[1]), offset: imm_from(b, 2, b.len() as int) }),
                Opcode::CmovIzImm => Some(Instruction::CmovIzImm { dst: low_nibble(b[1]), cond: high_nibble(b[1]), value: imm_from(b, 2, b.len() as int) }),
                Opcode::CmovNzImm => Some(Instruction::CmovNzImm { dst: low_nibble(b[1]), cond: high_nibble(b[1]), value: imm_from(b, 2, b.len() as int) }),
                Opcode::Ecalli => Some(Instruction::Ecalli { index: le_value(b.subrange(1, b.len() as int)) as u32 }),
                _ => None,
            },
        }
    }
}

/// Every register of the instruction fits in a nibble.
pub open spec fn registers_fit(i: Instruction) -> bool {
    match i {
        Instruction::LoadImm64 { reg, .. } => reg < 16,
        Instruction::LoadImm { reg, .. } => reg < 16,
        Instruction::Add32 { dst, src1, src2, .. } => dst < 16 && src1 < 16 && src2 < 16,
        Instruction::Sub32 { dst, src1, src2, .. } => dst < 16 && src1 < 16 && src2 < 16,
        Instruction::Mul32 { dst, src1, src2, .. } => dst < 16 && src1 < 16 && src2 < 16,
        Instruction::DivU32 { dst, src1, src2, .. } => dst < 16 && src1 < 16 && src2 < 16,
        Instruction::DivS32 { dst, src1, src2, .. } => dst < 16 && src1 < 16 && src2 < 16,
        Instruction::RemU32 { dst, src1, src2, .. } => dst < 16 && src1 < 16 && src2 < 16,
        Instruction::RemS32 { dst, src1, src2, .. } => dst < 16 && src1 < 16 && src2 < 16,
        Instruction::Add64 { dst, src1, src2, .. } => dst < 16 && src1 < 16 && src2 < 16,
        Instruction::Sub64 { dst, src1, src2, .. } => dst < 16 && src1 < 16 && src2 < 16,
        Instruction::Mul64 { dst, src1, src2, .. } => dst < 16 && src1 < 16 && src2 < 16,
        Instruction::DivU64 { dst, src1, src2, .. } => dst < 16 && src1 < 16 && src2 < 16,
        Instruction::DivS64 { dst, src1, src2, .. } => dst < 16 && src1 < 16 && src2 < 16,
        Instruction::RemU64 { dst, src1, src2, .. } => dst < 16 && src1 < 16 && src2 < 16,
        Instruction::RemS64 { dst, src1, src2, .. } => dst < 16 && src1 < 16 && src2 < 16,
        Instruction::ShloL64 { dst, src1, src2, .. } => dst < 16 && src1 < 16 && src2 < 16,
        Instruction::ShloR64 { dst, src1, src2, .. } => dst < 16 && src1 < 16 && src2 < 16,
        Instruction::SharR64 { dst, src1, src2, .. } => dst < 16 && src1 < 16 && src2 < 16,
        Instruction::AddImm32 { dst, src, .. } => dst < 16 && src < 16,
        Instruction::AddImm64 { dst, src, .. } => dst < 16 && src < 16,
        Instruction::LoadImmJump { reg, .. } => reg < 16,
        Instruction::JumpInd { reg, .. } => reg < 16,
        Instruction::LoadIndU32 { dst, base, .. } => dst < 16 && base < 16,
        Instruction::StoreIndU32 { base, src, .. } => base < 16 && src < 16,
        Instruction::LoadIndU64 { dst, base, .. } => dst < 16 && base < 16,
        Instruction::StoreIndU64 { base, src, .. } => base < 16 && src < 16,
        Instruction::BranchNeImm { reg, .. } => reg < 16,
        Instruction::BranchEqImm { reg, .. } => reg < 16,
        Instruction::BranchGeSImm { reg, .. } => reg < 16,
        Instruction::BranchLtUImm { reg, .. } => reg < 16,
        Instruction::BranchLeUImm { reg, .. } => reg < 16,
        Instruction::BranchGeUImm { reg, .. } => reg < 16,
        Instruction::BranchGtUImm { reg, .. } => reg < 16,
        Instruction::BranchLtSImm { reg, .. } => reg < 16,
        Instruction::BranchLeSImm { reg, .. } => reg < 16,
        Instruction::BranchGtSImm { reg, .. } => reg < 16,
        Instruction::MoveReg { dst, src, .. } => dst < 16 && src < 16,
        Instruction::BranchEq { reg1, reg2, .. } => reg1 < 16 && reg2 < 16,
        Instruction::BranchNe { reg1, reg2, .. } => reg1 < 16 && reg2 < 16,
        Instruction::BranchGeU { reg1, reg2, .. } => reg1 < 16 && reg2 < 16,
        Instruction::BranchLtU { reg1, reg2, .. } => reg1 < 16 && reg2 < 16,
        Instruction::BranchLtS { reg1, reg2, .. } => reg1 < 16 && reg2 < 16,
        Instruction::BranchGeS { reg1, reg2, .. } => reg1 < 16 && reg2 < 16,
        Instruction::SetLtU { dst, src1, src2, .. } => dst < 16 && src1 < 16 && src2 < 16,
        Instruction::SetLtS { dst, src1, src2, .. } => dst < 16 && src1 < 16 && src2 < 16,
        Instruction::And { dst, src1, src2, .. } => dst < 16 && src1 < 16 && src2 < 16,
        Instruction::Xor { dst, src1, src2, .. } => dst < 16 && src1 < 16 && src2 < 16,
        Instruction::Or { dst, src1, src2, .. } => dst < 16 && src1 < 16 && src2 < 16,
        Instruction::SetLtUImm { dst, src, .. } => dst < 16 && src < 16,
        Instruction::SetLtSImm { dst, src, .. } => dst < 16 && src < 16,
        Instruction::ShloL32 { dst, src1, src2, .. } => dst < 16 && src1 < 16 && src2 < 16,
        Instruction::ShloR32 { dst, src1, src2, .. } => dst < 16 && src1 < 16 && src2 < 16,
        Instruction::SharR32 { dst, src1, src2, .. } => dst < 16 && src1 < 16 && src2 < 16,
        Instruction::Sbrk { dst, src, .. } => dst < 16 && src < 16,
        Instruction::CountSetBits64 { dst, src, .. } => dst < 16 && src < 16,
        Instruction::CountSetBits32 { dst, src, .. } => dst < 16 && src < 16,
        Instruction::LeadingZeroBits64 { dst, src, .. } => dst < 16 && src < 16,
        Instruction::LeadingZeroBits32 { dst, src, .. } => dst < 16 && src < 16,
        Instruction::TrailingZeroBits64 { dst, src, .. } => dst < 16 && src < 16,
        Instruction::TrailingZeroBits32 { dst, src, .. } => dst < 16 && src < 16,
        Instruction::SignExtend8 { dst, src, .. } => dst < 16 && src < 16,
        Instruction::SignExtend16 { dst, src, .. } => dst < 16 && src < 16,
        Instruction::ZeroExtend16 { dst, src, .. } => dst < 16 && src < 16,
        Instruction::LoadIndU8 { dst, base, .. } => dst < 16 && base < 16,
        Instruction::LoadIndI8 { dst, base, .. } => dst < 16 && base < 16,
        Instruction::StoreIndU8 { base, src, .. } => base < 16 && src < 16,
        Instruction::LoadIndU16 { dst, base, .. } => dst < 16 && base < 16,
        Instruction::LoadIndI16 { dst, base, .. } => dst < 16 && base < 16,
        Instruction::StoreIndU16 { base, src, .. } => base < 16 && src < 16,
        Instruction::CmovIzImm { dst, cond, .. } => dst < 16 && cond < 16,
        Instruction::CmovNzImm { dst, cond, .. } => dst < 16 && cond < 16,
        _ => true,
    }
}

proof fn lemma_opcode_of(op: Opcode)
    ensures
        opcode_of(op.byte()) == Some(op),
{
    assert(exists|o: Opcode| o.byte() == op.byte());
    let c = choose|o: Opcode| o.byte() == op.byte();
    lemma_opcode_byte_injective(c, op);
}

proof fn lemma_nibbles(lo: u8, hi: u8)
    requires
        lo < 16,
        hi < 16,
    ensures
        low_nibble(nibbles(lo, hi)) == lo,
        high_nibble(nibbles(lo, hi)) == hi,
{
    assert(lo < 16 && hi < 16 ==> ((hi & 0x0F) << 4 | (lo & 0x0F)) & 0x0F == lo && ((hi & 0x0F) << 4 | (lo
        & 0x0F)) >> 4 == hi) by (bit_vector);
}

proof fn lemma_imm_len(v: i32)
    ensures
        imm_bytes(v).len() == imm_len(v),
        imm_len(v) <= 4,
{
}

proof fn lemma_offset(o: i32)
    ensures
        (le_value(le_u32_bytes(o as u32)) as u32) as i32 == o,
{
    lemma_le_u32_value(o as u32);
    assert(((o as u32) as i32) == o) by (bit_vector);
}

proof fn lemma_three_reg_format(op: Opcode, dst: u8, src1: u8, src2: u8)
    requires
        dst < 16,
        src1 < 16,
        src2 < 16,
    ensures
        ({
            let b = three_reg_bytes(op, dst, src1, src2);
            &&& b.len() == 3 && b[0] == op.byte()
            &&& b[2] & 0x0F == dst && low_nibble(b[1]) == src1 && high_nibble(b[1]) == src2
        }),
{
    lemma_nibbles(src1, src2);
    assert(dst < 16 ==> dst & 0x0F & 0x0F == dst) by (bit_vector);
}

proof fn lemma_two_reg_format(op: Opcode, lo: u8, hi: u8)
    requires
        lo < 16,
        hi < 16,
    ensures
        ({
            let b = two_reg_bytes(op, lo, hi);
            &&& b.len() == 2 && b[0] == op.byte()
            &&& low_nibble(b[1]) == lo && high_nibble(b[1]) == hi
        }),
{
    lemma_nibbles(lo, hi);
}

proof fn lemma_two_reg_imm_format(op: Opcode, lo: u8, hi: u8, v: i32)
    requires
        lo < 16,
        hi < 16,
    ensures
        ({
            let b = two_reg_bytes(op, lo, hi) + imm_bytes(v);
            &&& b.len() >= 2 && b[0] == op.byte()
            &&& low_nibble(b[1]) == lo && high_nibble(b[1]) == hi
            &&& imm_from(b, 2, b.len() as int) == v
        }),
{
    lemma_nibbles(lo, hi);
    let b = two_reg_bytes(op, lo, hi) + imm_bytes(v);
    assert(b.subrange(2, b.len() as int) =~= imm_bytes(v));
    imm_roundtrip(v);
}

proof fn lemma_reg_imm_format(op: Opcode, reg: u8, v: i32)
    requires
        reg < 16,
    ensures
        ({
            let b = seq![op.byte(), reg & 0x0F] + imm_bytes(v);
            &&& b.len() >= 2 && b[0] == op.byte()
            &&& low_nibble(b[1]) == reg
            &&& imm_from(b, 2, b.len() as int) == v
        }),
{
    assert(reg < 16 ==> reg & 0x0F & 0x0F == reg) by (bit_vector);
    let b = seq![op.byte(), reg & 0x0F] + imm_bytes(v);
    assert(b.subrange(2, b.len() as int) =~= imm_bytes(v));
    imm_roundtrip(v);
}

proof fn lemma_reg_imm_off_format(op: Opcode, reg: u8, v: i32, o: i32)
    requires
        reg < 16,
    ensures
        ({
            let b = reg_imm_off_bytes(op, reg, v, o);
            &&& b.len() >= 2 && b[0] == op.byte()
            &&& low_nibble(b[1]) == reg
            &&& imm_from(b, 2, 2 + high_nibble(b[1])) == v
            &&& offset_at(b, 2 + high_nibble(b[1])) == o
        }),
{
    lemma_imm_len(v);
    let l = imm_len(v) as u8;
    assert(l < 16 && reg < 16 ==> (l << 4 | (reg & 0x0F)) & 0x0F == reg && (l << 4 | (reg & 0x0F)) >> 4 == l)
        by (bit_vector);
    let b = reg_imm_off_bytes(op, reg, v, o);
    assert(b.subrange(2, 2 + l) =~= imm_bytes(v));
    assert(b.subrange(2 + l, 2 + l + 4) =~= le_u32_bytes(o as u32));
    imm_roundtrip(v);
    lemma_offset(o);
}

proof fn lemma_two_reg_off_format(op: Opcode, reg1: u8, reg2: u8, o: i32)
    requires
        reg1 < 16,
        reg2 < 16,
    ensures
        ({
            let b = two_reg_off_bytes(op, reg1, reg2, o);
            &&& b.len() == 6 && b[0] == op.byte()
            &&& high_nibble(b[1]) == reg1 && low_nibble(b[1]) == reg2
            &&& offset_at(b, 2) == o
        }),
{
    lemma_nibbles(reg2, reg1);
    let b = two_reg_off_bytes(op, reg1, reg2, o);
    assert(b.subrange(2, 6) =~= le_u32_bytes(o as u32));
    lemma_offset(o);
}

proof fn lemma_jump_format(o: i32)
    ensures
        ({
            let b = seq![Opcode::Jump.byte()] + le_u32_bytes(o as u32);
            offset_at(b, 1) == o
        }),
{
    let b = seq![Opcode::Jump.byte()] + le_u32_bytes(o as u32);
    assert(b.subrange(1, 5) =~= le_u32_bytes(o as u32));
    lemma_offset(o);
}

proof fn lemma_ecalli_format(index: u32)
    ensures
        ({
            let b = seq![Opcode::Ecalli.byte()] + uimm_bytes(index);
            le_value(b.subrange(1, b.len() as int)) == index
        }),
{
    let b = seq![Opcode::Ecalli.byte()] + uimm_bytes(index);
    assert(b.subrange(1, b.len() as int) =~= uimm_bytes(index));
    uimm_roundtrip(index);
}

proof fn lemma_load_imm64_format(reg: u8, v: u64)
    requires
        reg < 16,
    ensures
        ({
            let b = seq![Opcode::LoadImm64.byte(), reg & 0x0F] + le_u64_bytes(v);
            &&& low_nibble(b[1]) == reg
            &&& le_value(b.subrange(2, 10)) == v
        }),
{
    assert(reg < 16 ==> reg & 0x0F & 0x0F == reg) by (bit_vector);
    let b = seq![Opcode::LoadImm64.byte(), reg & 0x0F] + le_u64_bytes(v);
    let w = le_u64_bytes(v);
    assert(b.subrange(2, 10) =~= w);
    let lo = w.take(4);
    let hi = w.skip(4);
    lemma_le_value_split(w, 4);
    lemma_le_value_4(lo);
    lemma_le_value_4(hi);
    assert((v as u8 == v & 0xff)
        && ((v >> 8) as u8 == (v >> 8) & 0xff)
        && ((v >> 16) as u8 == (v >> 16) & 0xff)
        && ((v >> 24) as u8 == (v >> 24) & 0xff)
        && ((v >> 32) as u8 == (v >> 32) & 0xff)
        && ((v >> 40) as u8 == (v >> 40) & 0xff)
        && ((v >> 48) as u8 == (v >> 48) & 0xff)
        && ((v >> 56) as u8 == (v >> 56) & 0xff)) by (bit_vector);
    reveal_with_fuel(pow256, 5);
    assert(lo =~= seq![v as u8, (v >> 8) as u8, (v >> 16) as u8, (v >> 24) as u8]);
    assert(hi =~= seq![(v >> 32) as u8, (v >> 40) as u8, (v >> 48) as u8, (v >> 56) as u8]);
    assert((v & 0xff) + 256 * ((v >> 8) & 0xff) + 65536 * ((v >> 16) & 0xff) + 16777216 * ((v >> 24) & 0xff)
        + 4294967296 * (((v >> 32) & 0xff) + 256 * ((v >> 40) & 0xff) + 65536 * ((v >> 48) & 0xff) + 16777216 * (
        (v >> 56) & 0xff)) == v) by (bit_vector);
}

/// The value of bytes `b` is that of its first `k` bytes plus 256^k times
/// that of the rest.
proof fn lemma_le_value_split(b: Seq<u8>, k: int)
    requires
        0 <= k <= b.len(),
    ensures
        le_value(b) == le_value(b.take(k)) + pow256(k as nat) * le_value(b.skip(k)),
    decreases k,
{
    if k == 0 {
        assert(b.skip(0) =~= b);
        assert(b.take(0) =~= Seq::<u8>::empty());
        assert(le_value(b.take(0)) == 0);
        assert(pow256(0) == 1);
        let r = le_value(b.skip(k));
        assert(pow256(k as nat) * r == r) by (nonlinear_arith)
            requires
                pow256(k as nat) == 1,
        ;
    } else {
        let t = b.drop_first();
        lemma_le_value_split(t, k - 1);
        assert(t.take(k - 1) =~= b.take(k).drop_first());
        assert(t.skip(k - 1) =~= b.skip(k));
        assert(b.take(k)[0] == b[0]);
        let x = le_value(t.take(k - 1));
        let r = le_value(b.skip(k));
        let p = pow256((k - 1) as nat);
        assert(le_value(b) == b[0] + 256 * le_value(t));
        assert(le_value(t) == x + p * r);
        assert(le_value(b.take(k)) == b[0] + 256 * x);
        assert(pow256(k as nat) == 256 * p);
        assert(256 * (x + p * r) == 256 * x + (256 * p) * r) by (nonlinear_arith);
    }
}

/// 256^n.
pub open spec fn pow256(n: nat) -> nat
    decreases n,
{
    if n == 0 {
        1
    } else {
        256 * pow256((n - 1) as nat)
    }
}

#[verifier::spinoff_prover]
#[verifier::rlimit(60)]
proof fn roundtrip_special(i: Instruction)
    requires
        registers_fit(i),
        match i {
            Instruction::Trap
            | Instruction::Fallthrough
            | Instruction::LoadImm64 { .. }
            | Instruction::LoadImm { .. }
            | Instruction::Jump { .. }
            | Instruction::JumpInd { .. }
            | Instruction::Ecalli { .. } => true,
            _ => false,
        },
    ensures
        decode(i.encoding()) == Some(i),
{
    match i {
        Instruction::Trap => {
            lemma_opcode_of(Opcode::Trap);
        },
        Instruction::Fallthrough => {
            lemma_opcode_of(Opcode::Fallthrough);
        },
        Instruction::LoadImm64 { reg, value } => {
            lemma_opcode_of(Opcode::LoadImm64);
            lemma_load_imm64_format(reg, value);
        },
        Instruction::LoadImm { reg, value } => {
            lemma_opcode_of(Opcode::LoadImm);
            lemma_reg_imm_format(Opcode::LoadImm, reg, value);
        },
        Instruction::Jump { offset } => {
            lemma_opcode_of(Opcode::Jump);
            lemma_jump_format(offset);
        },
        Instruction::JumpInd { reg, offset } => {
            lemma_opcode_of(Opcode::JumpInd);
            lemma_reg_imm_format(Opcode::JumpInd, reg, offset);
        },
        Instruction::Ecalli { index } => {
            lemma_opcode_of(Opcode::Ecalli);
            lemma_ecalli_format(index);
        },
        _ => {},
    }
}

#[verifier::spinoff_prover]
#[verifier::rlimit(60)]
proof fn roundtrip_three_reg(i: Instruction)
    requires
        registers_fit(i),
        match i {
            Instruction::Add32 { .. }
            | Instruction::Sub32 { .. }
            | Instruction::Mul32 { .. }
            | Instruction::DivU32 { .. }
            | Instruction::DivS32 { .. }
            | Instruction::RemU32 { .. }
            | Instruction::RemS32 { .. }
            | Instruction::Add64 { .. }
            | Instruction::Sub64 { .. }
            | Instruction::Mul64 { .. }
            | Instruction::DivU64 { .. }
            | Instruction::DivS64 { .. }
            | Instruction::RemU64 { .. }
            | Instruction::RemS64 { .. }
            | Instruction::ShloL64 { .. }
            | Instruction::ShloR64 { .. }
            | Instruction::SharR64 { .. }
            | Instruction::SetLtU { .. }
            | Instruction::SetLtS { .. }
            | Instruction::And { .. }
            | Instruction::Xor { .. }
            | Instruction::Or { .. }
            | Instruction::ShloL32 { .. }
            | Instruction::ShloR32 { .. }
            | Instruction::SharR32 { .. } => true,
            _ => false,
        },
    ensures
        decode(i.encoding()) == Some(i),
{
    match i {
        Instruction::Add32 { dst, src1, src2 } => {
            lemma_opcode_of(Opcode::Add32);
            lemma_three_reg_format(Opcode::Add32, dst, src1, src2);
        },
        Instruction::Sub32 { dst, src1, src2 } => {
            lemma_opcode_of(Opcode::Sub32);
            lemma_three_reg_format(Opcode::Sub32, dst, src1, src2);
        },
        Instruction::Mul32 { dst, src1, src2 } => {
            lemma_opcode_of(Opcode::Mul32);
            lemma_three_reg_format(Opcode::Mul32, dst, src1, src2);
        },
        Instruction::DivU32 { dst, src1, src2 } => {
            lemma_opcode_of(Opcode::DivU32);
            lemma_three_reg_format(Opcode::DivU32, dst, src1, src2);
        },
        Instruction::DivS32 { dst, src1, src2 } => {
            lemma_opcode_of(Opcode::DivS32);
            lemma_three_reg_format(Opcode::DivS32, dst, src1, src2);
        },
        Instruction::RemU32 { dst, src1, src2 } => {
            lemma_opcode_of(Opcode::RemU32);
            lemma_three_reg_format(Opcode::RemU32, dst, src1, src2);
        },
        Instruction::RemS32 { dst, src1, src2 } => {
            lemma_opcode_of(Opcode::RemS32);
            lemma_three_reg_format(Opcode::RemS32, dst, src1, src2);
        },
        Instruction::Add64 { dst, src1, src2 } => {
            lemma_opcode_of(Opcode::Add64);
            lemma_three_reg_format(Opcode::Add64, dst, src1, src2);
        },
        Instruction::Sub64 { dst, src1, src2 } => {
            lemma_opcode_of(Opcode::Sub64);
            lemma_three_reg_format(Opcode::Sub64, dst, src1, src2);
        },
        Instruction::Mul64 { dst, src1, src2 } => {
            lemma_opcode_of(Opcode::Mul64);
            lemma_three_reg_format(Opcode::Mul64, dst, src1, src2);
        },
        Instruction::DivU64 { dst, src1, src2 } => {
            lemma_opcode_of(Opcode::DivU64);
            lemma_three_reg_format(Opcode::DivU64, dst, src1, src2);
        },
        Instruction::DivS64 { dst, src1, src2 } => {
            lemma_opcode_of(Opcode::DivS64);
            lemma_three_reg_format(Opcode::DivS64, dst, src1, src2);
        },
        Instruction::RemU64 { dst, src1, src2 } => {
            lemma_opcode_of(Opcode::RemU64);
            lemma_three_reg_format(Opcode::RemU64, dst, src1, src2);
        },
        Instruction::RemS64 { dst, src1, src2 } => {
            lemma_opcode_of(Opcode::RemS64);
            lemma_three_reg_format(Opcode::RemS64, dst, src1, src2);
        },
        Instruction::ShloL64 { dst, src1, src2 } => {
            lemma_opcode_of(Opcode::ShloL64);
            lemma_three_reg_format(Opcode::ShloL64, dst, src1, src2);
        },
        Instruction::ShloR64 { dst, src1, src2 } => {
            lemma_opcode_of(Opcode::ShloR64);
            lemma_three_reg_format(Opcode::ShloR64, dst, src1, src2);
        },
        Instruction::SharR64 { dst, src1, src2 } => {
            lemma_opcode_of(Opcode::SharR64);
            lemma_three_reg_format(Opcode::SharR64, dst, src1, src2);
        },
        Instruction::SetLtU { dst, src1, src2 } => {
            lemma_opcode_of(Opcode::SetLtU);
            lemma_three_reg_format(Opcode::SetLtU, dst, src1, src2);
        },
        Instruction::SetLtS { dst, src1, src2 } => {
            lemma_opcode_of(Opcode::SetLtS);
            lemma_three_reg_format(Opcode::SetLtS, dst, src1, src2);
        },
        Instruction::And { dst, src1, src2 } => {
            lemma_opcode_of(Opcode::And);
            lemma_three_reg_format(Opcode::And, dst, src1, src2);
        },
        Instruction::Xor { dst, src1, src2 } => {
            lemma_opcode_of(Opcode::Xor);
            lemma_three_reg_format(Opcode::Xor, dst, src1, src2);
        },
        Instruction::Or { dst, src1, src2 } => {
            lemma_opcode_of(Opcode::Or);
            lemma_three_reg_format(Opcode::Or, dst, src1, src2);
        },
        Instruction::ShloL32 { dst, src1, src2 } => {
            lemma_opcode_of(Opcode::ShloL32);
            lemma_three_reg_format(Opcode::ShloL32, dst, src1, src2);
        },
        Instruction::ShloR32 { dst, src1, src2 } => {
            lemma_opcode_of(Opcode::ShloR32);
            lemma_three_reg_format(Opcode::ShloR32, dst, src1, src2);
        },
        Instruction::SharR32 { dst, src1, src2 } => {
            lemma_opcode_of(Opcode::SharR32);
            lemma_three_reg_format(Opcode::SharR32, dst, src1, src2);
        },
        _ => {},
    }
}

#[verifier::spinoff_prover]
#[verifier::rlimit(60)]
proof fn roundtrip_two_reg_imm(i: Instruction)
    requires
        registers_fit(i),
        match i {
            Instruction::AddImm32 { .. }
            | Instruction::AddImm64 { .. }
            | Instruction::LoadIndU32 { .. }
            | Instruction::StoreIndU32 { .. }
            | Instruction::LoadIndU64 { .. }
            | Instruction::StoreIndU64 { .. }
            | Instruction::SetLtUImm { .. }
            | Instruction::SetLtSImm { .. }
            | Instruction::LoadIndU8 { .. }
            | Instruction::LoadIndI8 { .. }
            | Instruction::StoreIndU8 { .. }
            | Instruction::LoadIndU16 { .. }
            | Instruction::LoadIndI16 { .. }
            | Instruction::StoreIndU16 { .. }
            | Instruction::CmovIzImm { .. }
            | Instruction::CmovNzImm { .. } => true,
            _ => false,
        },
    ensures
        decode(i.encoding()) == Some(i),
{
    match i {
        Instruction::AddImm32 { dst, src, value } => {
            lemma_opcode_of(Opcode::AddImm32);
            lemma_two_reg_imm_format(Opcode::AddImm32, dst, src, value);
        },
        Instruction::AddImm64 { dst, src, value } => {
            lemma_opcode_of(Opcode::AddImm64);
            lemma_two_reg_imm_format(Opcode::AddImm64, dst, src, value);
        },
        Instruction::LoadIndU32 { dst, base, offset } => {
            lemma_opcode_of(Opcode::LoadIndU32);
            lemma_two_reg_imm_format(Opcode::LoadIndU32, dst, base, offset);
        },
        Instruction::StoreIndU32 { base, src, offset } => {
            lemma_opcode_of(Opcode::StoreIndU32);
            lemma_two_reg_imm_format(Opcode::StoreIndU32, src, base, offset);
        },
        Instruction::LoadIndU64 { dst, base, offset } => {
            lemma_opcode_of(Opcode::LoadIndU64);
            lemma_two_reg_imm_format(Opcode::LoadIndU64, dst, base, offset);
        },
        Instruction::StoreIndU64 { base, src, offset } => {
            lemma_opcode_of(Opcode::StoreIndU64);
            lemma_two_reg_imm_format(Opcode::StoreIndU64, src, base, offset);
        },
        Instruction::SetLtUImm { dst, src, value } => {
            lemma_opcode_of(Opcode::SetLtUImm);
            lemma_two_reg_imm_format(Opcode::SetLtUImm, dst, src, value);
        },
        Instruction::SetLtSImm { dst, src, value } => {
            lemma_opcode_of(Opcode::SetLtSImm);
            lemma_two_reg_imm_format(Opcode::SetLtSImm, dst, src, value);
        },
        Instruction::LoadIndU8 { dst, base, offset } => {
            lemma_opcode_of(Opcode::LoadIndU8);
            lemma_two_reg_imm_format(Opcode::LoadIndU8, dst, base, offset);
        },
        Instruction::LoadIndI8 { dst, base, offset } => {
            lemma_opcode_of(Opcode::LoadIndI8);
            lemma_two_reg_imm_format(Opcode::LoadIndI8, dst, base, offset);
        },
        Instruction::StoreIndU8 { base, src, offset } => {
            lemma_opcode_of(Opcode::StoreIndU8);
            lemma_two_reg_imm_format(Opcode::StoreIndU8, src, base, offset);
        },
        Instruction::LoadIndU16 { dst, base, offset } => {
            lemma_opcode_of(Opcode::LoadIndU16);
            lemma_two_reg_imm_format(Opcode::LoadIndU16, dst, base, offset);
        },
        Instruction::LoadIndI16 { dst, base, offset } => {
            lemma_opcode_of(Opcode::LoadIndI16);
            lemma_two_reg_imm_format(Opcode::LoadIndI16, dst, base, offset);
        },
        Instruction::StoreIndU16 { base, src, offset } => {
            lemma_opcode_of(Opcode::StoreIndU16);
            lemma_two_reg_imm_format(Opcode::StoreIndU16, src, base, offset);
        },
        Instruction::CmovIzImm { dst, cond, value } => {
            lemma_opcode_of(Opcode::CmovIzImm);
            lemma_two_reg_imm_format(Opcode::CmovIzImm, dst, cond, value);
        },
        Instruction::CmovNzImm { dst, cond, value } => {
            lemma_opcode_of(Opcode::CmovNzImm);
            lemma_two_reg_imm_format(Opcode::CmovNzImm, dst, cond, value);
        },
        _ => {},
    }
}

#[verifier::spinoff_prover]
#[verifier::rlimit(60)]
proof fn roundtrip_reg_imm_off(i: Instruction)
    requires
        registers_fit(i),
        match i {
            Instruction::LoadImmJump { .. }
            | Instruction::BranchNeImm { .. }
            | Instruction::BranchEqImm { .. }
            | Instruction::BranchGeSImm { .. }
            | Instruction::BranchLtUImm { .. }
            | Instruction::BranchLeUImm { .. }
            | Instruction::BranchGeUImm { .. }
            | Instruction::BranchGtUImm { .. }
            | Instruction::BranchLtSImm { .. }
            | Instruction::BranchLeSImm { .. }
            | Instruction::BranchGtSImm { .. } => true,
            _ => false,
        },
    ensures
        decode(i.encoding()) == Some(i),
{
    match i {
        Instruction::LoadImmJump { reg, value, offset } => {
            lemma_opcode_of(Opcode::LoadImmJump);
            lemma_reg_imm_off_format(Opcode::LoadImmJump, reg, value, offset);
        },
        Instruction::BranchNeImm { reg, value, offset } => {
            lemma_opcode_of(Opcode::BranchNeImm);
            lemma_reg_imm_off_format(Opcode::BranchNeImm, reg, value, offset);
        },
        Instruction::BranchEqImm { reg, value, offset } => {
            lemma_opcode_of(Opcode::BranchEqImm);
            lemma_reg_imm_off_format(Opcode::BranchEqImm, reg, value, offset);
        },
        Instruction::BranchGeSImm { reg, value, offset } => {
            lemma_opcode_of(Opcode::BranchGeSImm);
            lemma_reg_imm_off_format(Opcode::BranchGeSImm, reg, value, offset);
        },
        Instruction::BranchLtUImm { reg, value, offset } => {
            lemma_opcode_of(Opcode::BranchLtUImm);
            lemma_reg_imm_off_format(Opcode::BranchLtUImm, reg, value, offset);
        },
        Instruction::BranchLeUImm { reg, value, offset } => {
            lemma_opcode_of(Opcode::BranchLeUImm);
            lemma_reg_imm_off_format(Opcode::BranchLeUImm, reg, value, offset);
        },
        Instruction::BranchGeUImm { reg, value, offset } => {
            lemma_opcode_of(Opcode::BranchGeUImm);
            lemma_reg_imm_off_format(Opcode::BranchGeUImm, reg, value, offset);
        },
        Instruction::BranchGtUImm { reg, value, offset } => {
            lemma_opcode_of(Opcode::BranchGtUImm);
            lemma_reg_imm_off_format(Opcode::BranchGtUImm, reg, value, offset);
        },
        Instruction::BranchLtSImm { reg, value, offset } => {
            lemma_opcode_of(Opcode::BranchLtSImm);
            lemma_reg_imm_off_format(Opcode::BranchLtSImm, reg, value, offset);
        },
        Instruction::BranchLeSImm { reg, value, offset } => {
            lemma_opcode_of(Opcode::BranchLeSImm);
            lemma_reg_imm_off_format(Opcode::BranchLeSImm, reg, value, offset);
        },
        Instruction::BranchGtSImm { reg, value, offset } => {
            lemma_opcode_of(Opcode::BranchGtSImm);
            lemma_reg_imm_off_format(Opcode::BranchGtSImm, reg, value, offset);
        },
        _ => {},
    }
}

#[verifier::spinoff_prover]
#[verifier::rlimit(60)]
proof fn roundtrip_two_reg(i: Instruction)
    requires
        registers_fit(i),
        match i {
            Instruction::MoveReg { .. }
            | Instruction::Sbrk { .. }
            | Instruction::CountSetBits64 { .. }
            | Instruction::CountSetBits32 { .. }
            | Instruction::LeadingZeroBits64 { .. }
            | Instruction::LeadingZeroBits32 { .. }
            | Instruction::TrailingZeroBits64 { .. }
            | Instruction::TrailingZeroBits32 { .. }
            | Instruction::SignExtend8 { .. }
            | Instruction::SignExtend16 { .. }
            | Instruction::ZeroExtend16 { .. } => true,
            _ => false,
        },
    ensures
        decode(i.encoding()) == Some(i),
{
    match i {
        Instruction::MoveReg { dst, src } => {
            lemma_opcode_of(Opcode::MoveReg);
            lemma_two_reg_format(Opcode::MoveReg, dst, src);
        },
        Instruction::Sbrk { dst, src } => {
            lemma_opcode_of(Opcode::Sbrk);
            lemma_two_reg_format(Opcode::Sbrk, dst, src);
        },
        Instruction::CountSetBits64 { dst, src } => {
            lemma_opcode_of(Opcode::CountSetBits64);
            lemma_two_reg_format(Opcode::CountSetBits64, dst, src);
        },
        Instruction::CountSetBits32 { dst, src } => {
            lemma_opcode_of(Opcode::CountSetBits32);
            lemma_two_reg_format(Opcode::CountSetBits32, dst, src);
        },
        Instruction::LeadingZeroBits64 { dst, src } => {
            lemma_opcode_of(Opcode::LeadingZeroBits64);
            lemma_two_reg_format(Opcode::LeadingZeroBits64, dst, src);
        },
        Instruction::LeadingZeroBits32 { dst, src } => {
            lemma_opcode_of(Opcode::LeadingZeroBits32);
            lemma_two_reg_format(Opcode::LeadingZeroBits32, dst, src);
        },
        Instruction::TrailingZeroBits64 { dst, src } => {
            lemma_opcode_of(Opcode::TrailingZeroBits64);
            lemma_two_reg_format(Opcode::TrailingZeroBits64, dst, src);
        },
        Instruction::TrailingZeroBits32 { dst, src } => {
            lemma_opcode_of(Opcode::TrailingZeroBits32);
            lemma_two_reg_format(Opcode::TrailingZeroBits32, dst, src);
        },
        Instruction::SignExtend8 { dst, src } => {
            lemma_opcode_of(Opcode::SignExtend8);
            lemma_two_reg_format(Opcode::SignExtend8, dst, src);
        },
        Instruction::SignExtend16 { dst, src } => {
            lemma_opcode_of(Opcode::SignExtend16);
            lemma_two_reg_format(Opcode::SignExtend16, dst, src);
        },
        Instruction::ZeroExtend16 { dst, src } => {
            lemma_opcode_of(Opcode::ZeroExtend16);
            lemma_two_reg_format(Opcode::ZeroExtend16, dst, src);
        },
        _ => {},
    }
}

#[verifier::spinoff_prover]
#[verifier::rlimit(60)]
proof fn roundtrip_two_reg_off(i: Instruction)
    requires
        registers_fit(i),
        match i {
            Instruction::BranchEq { .. }
            | Instruction::BranchNe { .. }
            | Instruction::BranchGeU { .. }
            | Instruction::BranchLtU { .. }
            | Instruction::BranchLtS { .. }
            | Instruction::BranchGeS { .. } => true,
            _ => false,
        },
    ensures
        decode(i.encoding()) == Some(i),
{
    match i {
        Instruction::BranchEq { reg1, reg2, offset } => {
            lemma_opcode_of(Opcode::BranchEq);
            lemma_two_reg_off_format(Opcode::BranchEq, reg1, reg2, offset);
        },
        Instruction::BranchNe { reg1, reg2, offset } => {
            lemma_opcode_of(Opcode::BranchNe);
            lemma_two_reg_off_format(Opcode::BranchNe, reg1, reg2, offset);
        },
        Instruction::BranchGeU { reg1, reg2, offset } => {
            lemma_opcode_of(Opcode::BranchGeU);
            lemma_two_reg_off_format(Opcode::BranchGeU, reg1, reg2, offset);
        },
        Instruction::BranchLtU { reg1, reg2, offset } => {
            lemma_opcode_of(Opcode::BranchLtU);
            lemma_two_reg_off_format(Opcode::BranchLtU, reg1, reg2, offset);
        },
        Instruction::BranchLtS { reg1, reg2, offset } => {
            lemma_opcode_of(Opcode::BranchLtS);
            lemma_two_reg_off_format(Opcode::BranchLtS, reg1, reg2, offset);
        },
        Instruction::BranchGeS { reg1, reg2, offset } => {
            lemma_opcode_of(Opcode::BranchGeS);
            lemma_two_reg_off_format(Opcode::BranchGeS, reg1, reg2, offset);
        },
        _ => {},
    }
}

/// Reading an instruction back from its bytes gives the instruction: the
/// encoding keeps every operand where the PVM format puts it.
pub proof fn decode_encode_roundtrip(i: Instruction)
    requires
        i.spec_opcode() is Some,
        registers_fit(i),
    ensures
        decode(i.encoding()) == Some(i),
{
    match i {
        Instruction::Trap
        | Instruction::Fallthrough
        | Instruction::LoadImm64 { .. }
        | Instruction::LoadImm { .. }
        | Instruction::Jump { .. }
        | Instruction::JumpInd { .. }
        | Instruction::Ecalli { .. } => roundtrip_special(i),
        Instruction::Add32 { .. }
        | Instruction::Sub32 { .. }
        | Instruction::Mul32 { .. }
        | Instruction::DivU32 { .. }
        | Instruction::DivS32 { .. }
        | Instruction::RemU32 { .. }
        | Instruction::RemS32 { .. }
        | Instruction::Add64 { .. }
        | Instruction::Sub64 { .. }
        | Instruction::Mul64 { .. }
        | Instruction::DivU64 { .. }
        | Instruction::DivS64 { .. }
        | Instruction::RemU64 { .. }
        | Instruction::RemS64 { .. }
        | Instruction::ShloL64 { .. }
        | Instruction::ShloR64 { .. }
        | Instruction::SharR64 { .. }
        | Instruction::SetLtU { .. }
        | Instruction::SetLtS { .. }
        | Instruction::And { .. }
        | Instruction::Xor { .. }
        | Instruction::Or { .. }
        | Instruction::ShloL32 { .. }
        | Instruction::ShloR32 { .. }
        | Instruction::SharR32 { .. } => roundtrip_three_reg(i),
        Instruction::AddImm32 { .. }
        | Instruction::AddImm64 { .. }
        | Instruction::LoadIndU32 { .. }
        | Instruction::StoreIndU32 { .. }
        | Instruction::LoadIndU64 { .. }
        | Instruction::StoreIndU64 { .. }
        | Instruction::SetLtUImm { .. }
        | Instruction::SetLtSImm { .. }
        | Instruction::LoadIndU8 { .. }
        | Instruction::LoadIndI8 { .. }
        | Instruction::StoreIndU8 { .. }
        | Instruction::LoadIndU16 { .. }
        | Instruction::LoadIndI16 { .. }
        | Instruction::StoreIndU16 { .. }
        | Instruction::CmovIzImm { .. }
        | Instruction::CmovNzImm { .. } => roundtrip_two_reg_imm(i),
        Instruction::LoadImmJump { .. }
        | Instruction::BranchNeImm { .. }
        | Instruction::BranchEqImm { .. }
        | Instruction::BranchGeSImm { .. }
        | Instruction::BranchLtUImm { .. }
        | Instruction::BranchLeUImm { .. }
        | Instruction::BranchGeUImm { .. }
        | Instruction::BranchGtUImm { .. }
        | Instruction::BranchLtSImm { .. }
        | Instruction::BranchLeSImm { .. }
        | Instruction::BranchGtSImm { .. } => roundtrip_reg_imm_off(i),
        Instruction::MoveReg { .. }
        | Instruction::Sbrk { .. }
        | Instruction::CountSetBits64 { .. }
        | Instruction::CountSetBits32 { .. }
        | Instruction::LeadingZeroBits64 { .. }
        | Instruction::LeadingZeroBits32 { .. }
        | Instruction::TrailingZeroBits64 { .. }
        | Instruction::TrailingZeroBits32 { .. }
        | Instruction::SignExtend8 { .. }
        | Instruction::SignExtend16 { .. }
        | Instruction::ZeroExtend16 { .. } => roundtrip_two_reg(i),
        Instruction::BranchEq { .. }
        | Instruction::BranchNe { .. }
        | Instruction::BranchGeU { .. }
        | Instruction::BranchLtU { .. }
        | Instruction::BranchLtS { .. }
        | Instruction::BranchGeS { .. } => roundtrip_two_reg_off(i),
        Instruction::Unknown { .. } => {},
    }
}

} // verus!
