use super::opcode::Opcode;
use vstd::prelude::*;

verus! {

/// Little-endian bytes of a 32-bit value.
pub open spec fn le_u32_bytes(v: u32) -> Seq<u8> {
    seq![v as u8, (v >> 8) as u8, (v >> 16) as u8, (v >> 24) as u8]
}

/// Little-endian bytes of a 64-bit value.
pub open spec fn le_u64_bytes(v: u64) -> Seq<u8> {
    seq![
        v as u8,
        (v >> 8) as u8,
        (v >> 16) as u8,
        (v >> 24) as u8,
        (v >> 32) as u8,
        (v >> 40) as u8,
        (v >> 48) as u8,
        (v >> 56) as u8,
    ]
}

/// Number of bytes in the compact encoding of a signed immediate: the fewest
/// little-endian bytes whose sign extension gives the value back (none for zero).
pub open spec fn imm_len(v: i32) -> nat {
    if v == 0 {
        0
    } else if -128 <= v <= 127 {
        1
    } else if -32768 <= v <= 32767 {
        2
    } else if -8388608 <= v <= 8388607 {
        3
    } else {
        4
    }
}

/// Compact encoding of a signed immediate: its low `imm_len(v)` little-endian bytes.
pub open spec fn imm_bytes(v: i32) -> Seq<u8> {
    le_u32_bytes(v as u32).take(imm_len(v) as int)
}

/// Number of bytes in the compact encoding of an unsigned immediate: the fewest
/// little-endian bytes whose zero extension gives the value back (none for zero).
pub open spec fn uimm_len(v: u32) -> nat {
    if v == 0 {
        0
    } else if v <= 0xFF {
        1
    } else if v <= 0xFFFF {
        2
    } else if v <= 0xFF_FFFF {
        3
    } else {
        4
    }
}

/// Compact encoding of an unsigned immediate: its low `uimm_len(v)` little-endian bytes.
pub open spec fn uimm_bytes(v: u32) -> Seq<u8> {
    le_u32_bytes(v).take(uimm_len(v) as int)
}

/// A register byte holding `hi` in the high nibble and `lo` in the low nibble.
pub open spec fn nibbles(lo: u8, hi: u8) -> u8 {
    (hi & 0x0F) << 4 | (lo & 0x0F)
}

/// Two-register form: opcode, then `hi` (high nibble) and `lo` (low nibble) in one byte.
pub open spec fn two_reg_bytes(op: Opcode, lo: u8, hi: u8) -> Seq<u8> {
    seq![op.byte(), nibbles(lo, hi)]
}

/// Three-register form `[opcode, src2 << 4 | src1, dst]`: `reg[dst] = reg[src1] OP reg[src2]`.
pub open spec fn three_reg_bytes(op: Opcode, dst: u8, src1: u8, src2: u8) -> Seq<u8> {
    seq![op.byte(), nibbles(src1, src2), dst & 0x0F]
}

/// One register, one immediate, one offset: opcode, `imm_len << 4 | reg`, the
/// compact immediate, then the offset as four little-endian bytes.
pub open spec fn reg_imm_off_bytes(op: Opcode, reg: u8, imm: i32, offset: i32) -> Seq<u8> {
    seq![op.byte(), (imm_len(imm) as u8) << 4 | (reg & 0x0F)] + imm_bytes(imm) + le_u32_bytes(
        offset as u32,
    )
}

/// Two registers and an offset: opcode, `reg1 << 4 | reg2`, then the offset as
/// four little-endian bytes.
pub open spec fn two_reg_off_bytes(op: Opcode, reg1: u8, reg2: u8, offset: i32) -> Seq<u8> {
    two_reg_bytes(op, reg2, reg1) + le_u32_bytes(offset as u32)
}

/// A PVM instruction as the compiler emits it.
#[derive(Debug, Clone)]
#[allow(inconsistent_fields)]
pub enum Instruction {
    Trap,
    Fallthrough,
    LoadImm64 {
        reg: u8,
        value: u64,
    },
    LoadImm {
        reg: u8,
        value: i32,
    },
    Add32 {
        dst: u8,
        src1: u8,
        src2: u8,
    },
    Sub32 {
        dst: u8,
        src1: u8,
        src2: u8,
    },
    Mul32 {
        dst: u8,
        src1: u8,
        src2: u8,
    },
    DivU32 {
        dst: u8,
        src1: u8,
        src2: u8,
    },
    DivS32 {
        dst: u8,
        src1: u8,
        src2: u8,
    },
    RemU32 {
        dst: u8,
        src1: u8,
        src2: u8,
    },
    RemS32 {
        dst: u8,
        src1: u8,
        src2: u8,
    },
    Add64 {
        dst: u8,
        src1: u8,
        src2: u8,
    },
    Sub64 {
        dst: u8,
        src1: u8,
        src2: u8,
    },
    Mul64 {
        dst: u8,
        src1: u8,
        src2: u8,
    },
    DivU64 {
        dst: u8,
        src1: u8,
        src2: u8,
    },
    DivS64 {
        dst: u8,
        src1: u8,
        src2: u8,
    },
    RemU64 {
        dst: u8,
        src1: u8,
        src2: u8,
    },
    RemS64 {
        dst: u8,
        src1: u8,
        src2: u8,
    },
    ShloL64 {
        dst: u8,
        src1: u8,
        src2: u8,
    },
    ShloR64 {
        dst: u8,
        src1: u8,
        src2: u8,
    },
    SharR64 {
        dst: u8,
        src1: u8,
        src2: u8,
    },
    AddImm32 {
        dst: u8,
        src: u8,
        value: i32,
    },
    AddImm64 {
        dst: u8,
        src: u8,
        value: i32,
    },
    Jump {
        offset: i32,
    },
    /// Combined load-immediate + jump: `reg = sign_extend(value); goto(PC + offset)`
    LoadImmJump {
        reg: u8,
        value: i32,
        offset: i32,
    },
    JumpInd {
        reg: u8,
        offset: i32,
    },
    LoadIndU32 {
        dst: u8,
        base: u8,
        offset: i32,
    },
    StoreIndU32 {
        base: u8,
        src: u8,
        offset: i32,
    },
    LoadIndU64 {
        dst: u8,
        base: u8,
        offset: i32,
    },
    StoreIndU64 {
        base: u8,
        src: u8,
        offset: i32,
    },
    BranchNeImm {
        reg: u8,
        value: i32,
        offset: i32,
    },
    BranchEqImm {
        reg: u8,
        value: i32,
        offset: i32,
    },
    BranchGeSImm {
        reg: u8,
        value: i32,
        offset: i32,
    },
    BranchLtUImm {
        reg: u8,
        value: i32,
        offset: i32,
    },
    BranchLeUImm {
        reg: u8,
        value: i32,
        offset: i32,
    },
    BranchGeUImm {
        reg: u8,
        value: i32,
        offset: i32,
    },
    BranchGtUImm {
        reg: u8,
        value: i32,
        offset: i32,
    },
    BranchLtSImm {
        reg: u8,
        value: i32,
        offset: i32,
    },
    BranchLeSImm {
        reg: u8,
        value: i32,
        offset: i32,
    },
    BranchGtSImm {
        reg: u8,
        value: i32,
        offset: i32,
    },
    MoveReg {
        dst: u8,
        src: u8,
    },
    BranchEq {
        reg1: u8,
        reg2: u8,
        offset: i32,
    },
    BranchNe {
        reg1: u8,
        reg2: u8,
        offset: i32,
    },
    BranchGeU {
        reg1: u8,
        reg2: u8,
        offset: i32,
    },
    BranchLtU {
        reg1: u8,
        reg2: u8,
        offset: i32,
    },
    BranchLtS {
        reg1: u8,
        reg2: u8,
        offset: i32,
    },
    BranchGeS {
        reg1: u8,
        reg2: u8,
        offset: i32,
    },
    SetLtU {
        dst: u8,
        src1: u8,
        src2: u8,
    },
    SetLtS {
        dst: u8,
        src1: u8,
        src2: u8,
    },
    And {
        dst: u8,
        src1: u8,
        src2: u8,
    },
    Xor {
        dst: u8,
        src1: u8,
        src2: u8,
    },
    Or {
        dst: u8,
        src1: u8,
        src2: u8,
    },
    SetLtUImm {
        dst: u8,
        src: u8,
        value: i32,
    },
    SetLtSImm {
        dst: u8,
        src: u8,
        value: i32,
    },
    ShloL32 {
        dst: u8,
        src1: u8,
        src2: u8,
    },
    ShloR32 {
        dst: u8,
        src1: u8,
        src2: u8,
    },
    SharR32 {
        dst: u8,
        src1: u8,
        src2: u8,
    },
    Sbrk {
        dst: u8,
        src: u8,
    },
    CountSetBits64 {
        dst: u8,
        src: u8,
    },
    CountSetBits32 {
        dst: u8,
        src: u8,
    },
    LeadingZeroBits64 {
        dst: u8,
        src: u8,
    },
    LeadingZeroBits32 {
        dst: u8,
        src: u8,
    },
    TrailingZeroBits64 {
        dst: u8,
        src: u8,
    },
    TrailingZeroBits32 {
        dst: u8,
        src: u8,
    },
    SignExtend8 {
        dst: u8,
        src: u8,
    },
    SignExtend16 {
        dst: u8,
        src: u8,
    },
    ZeroExtend16 {
        dst: u8,
        src: u8,
    },
    LoadIndU8 {
        dst: u8,
        base: u8,
        offset: i32,
    },
    LoadIndI8 {
        dst: u8,
        base: u8,
        offset: i32,
    },
    StoreIndU8 {
        base: u8,
        src: u8,
        offset: i32,
    },
    LoadIndU16 {
        dst: u8,
        base: u8,
        offset: i32,
    },
    LoadIndI16 {
        dst: u8,
        base: u8,
        offset: i32,
    },
    StoreIndU16 {
        base: u8,
        src: u8,
        offset: i32,
    },
    /// Conditional move if zero with immediate: if reg[cond] == 0 then reg[dst] = `sign_extend(value)`
    CmovIzImm {
        dst: u8,
        cond: u8,
        value: i32,
    },
    /// Conditional move if non-zero with immediate: if reg[cond] != 0 then reg[dst] = `sign_extend(value)`
    CmovNzImm {
        dst: u8,
        cond: u8,
        value: i32,
    },
    Ecalli {
        index: u32,
    },
    Unknown {
        opcode: u8,
        raw_bytes: Vec<u8>,
    },
}

impl Instruction {
    /// The bytes that encode this instruction: the opcode byte, then its operands.
    pub open spec fn encoding(self) -> Seq<u8> {
        match self {
            Instruction::Trap => seq![Opcode::Trap.byte()],
            Instruction::Fallthrough => seq![Opcode::Fallthrough.byte()],
            Instruction::LoadImm64 { reg, value } => seq![Opcode::LoadImm64.byte(), reg & 0x0F] + le_u64_bytes(value),
            Instruction::LoadImm { reg, value } => seq![Opcode::LoadImm.byte(), reg & 0x0F] + imm_bytes(value),
            Instruction::Add32 { dst, src1, src2 } => three_reg_bytes(Opcode::Add32, dst, src1, src2),
            Instruction::Sub32 { dst, src1, src2 } => three_reg_bytes(Opcode::Sub32, dst, src1, src2),
            Instruction::Mul32 { dst, src1, src2 } => three_reg_bytes(Opcode::Mul32, dst, src1, src2),
            Instruction::DivU32 { dst, src1, src2 } => three_reg_bytes(Opcode::DivU32, dst, src1, src2),
            Instruction::DivS32 { dst, src1, src2 } => three_reg_bytes(Opcode::DivS32, dst, src1, src2),
            Instruction::RemU32 { dst, src1, src2 } => three_reg_bytes(Opcode::RemU32, dst, src1, src2),
            Instruction::RemS32 { dst, src1, src2 } => three_reg_bytes(Opcode::RemS32, dst, src1, src2),
            Instruction::Add64 { dst, src1, src2 } => three_reg_bytes(Opcode::Add64, dst, src1, src2),
            Instruction::Sub64 { dst, src1, src2 } => three_reg_bytes(Opcode::Sub64, dst, src1, src2),
            Instruction::Mul64 { dst, src1, src2 } => three_reg_bytes(Opcode::Mul64, dst, src1, src2),
            Instruction::DivU64 { dst, src1, src2 } => three_reg_bytes(Opcode::DivU64, dst, src1, src2),
            Instruction::DivS64 { dst, src1, src2 } => three_reg_bytes(Opcode::DivS64, dst, src1, src2),
            Instruction::RemU64 { dst, src1, src2 } => three_reg_bytes(Opcode::RemU64, dst, src1, src2),
            Instruction::RemS64 { dst, src1, src2 } => three_reg_bytes(Opcode::RemS64, dst, src1, src2),
            Instruction::ShloL64 { dst, src1, src2 } => three_reg_bytes(Opcode::ShloL64, dst, src1, src2),
            Instruction::ShloR64 { dst, src1, src2 } => three_reg_bytes(Opcode::ShloR64, dst, src1, src2),
            Instruction::SharR64 { dst, src1, src2 } => three_reg_bytes(Opcode::SharR64, dst, src1, src2),
            Instruction::AddImm32 { dst, src, value } => two_reg_bytes(Opcode::AddImm32, dst, src) + imm_bytes(value),
            Instruction::AddImm64 { dst, src, value } => two_reg_bytes(Opcode::AddImm64, dst, src) + imm_bytes(value),
            Instruction::Jump { offset } => seq![Opcode::Jump.byte()] + le_u32_bytes(offset as u32),
            Instruction::LoadImmJump { reg, value, offset } => reg_imm_off_bytes(Opcode::LoadImmJump, reg, value, offset),
            Instruction::JumpInd { reg, offset } => seq![Opcode::JumpInd.byte(), reg & 0x0F] + imm_bytes(offset),
            Instruction::LoadIndU32 { dst, base, offset } => two_reg_bytes(Opcode::LoadIndU32, dst, base) + imm_bytes(offset),
            Instruction::StoreIndU32 { base, src, offset } => two_reg_bytes(Opcode::StoreIndU32, src, base) + imm_bytes(offset),
            Instruction::LoadIndU64 { dst, base, offset } => two_reg_bytes(Opcode::LoadIndU64, dst, base) + imm_bytes(offset),
            Instruction::StoreIndU64 { base, src, offset } => two_reg_bytes(Opcode::StoreIndU64, src, base) + imm_bytes(offset),
            Instruction::BranchNeImm { reg, value, offset } => reg_imm_off_bytes(Opcode::BranchNeImm, reg, value, offset),
            Instruction::BranchEqImm { reg, value, offset } => reg_imm_off_bytes(Opcode::BranchEqImm, reg, value, offset),
            Instruction::BranchGeSImm { reg, value, offset } => reg_imm_off_bytes(Opcode::BranchGeSImm, reg, value, offset),
            Instruction::BranchLtUImm { reg, value, offset } => reg_imm_off_bytes(Opcode::BranchLtUImm, reg, value, offset),
            Instruction::BranchLeUImm { reg, value, offset } => reg_imm_off_bytes(Opcode::BranchLeUImm, reg, value, offset),
            Instruction::BranchGeUImm { reg, value, offset } => reg_imm_off_bytes(Opcode::BranchGeUImm, reg, value, offset),
            Instruction::BranchGtUImm { reg, value, offset } => reg_imm_off_bytes(Opcode::BranchGtUImm, reg, value, offset),
            Instruction::BranchLtSImm { reg, value, offset } => reg_imm_off_bytes(Opcode::BranchLtSImm, reg, value, offset),
            Instruction::BranchLeSImm { reg, value, offset } => reg_imm_off_bytes(Opcode::BranchLeSImm, reg, value, offset),
            Instruction::BranchGtSImm { reg, value, offset } => reg_imm_off_bytes(Opcode::BranchGtSImm, reg, value, offset),
            Instruction::MoveReg { dst, src } => two_reg_bytes(Opcode::MoveReg, dst, src),
            Instruction::BranchEq { reg1, reg2, offset } => two_reg_off_bytes(Opcode::BranchEq, reg1, reg2, offset),
            Instruction::BranchNe { reg1, reg2, offset } => two_reg_off_bytes(Opcode::BranchNe, reg1, reg2, offset),
            Instruction::BranchGeU { reg1, reg2, offset } => two_reg_off_bytes(Opcode::BranchGeU, reg1, reg2, offset),
            Instruction::BranchLtU { reg1, reg2, offset } => two_reg_off_bytes(Opcode::BranchLtU, reg1, reg2, offset),
            Instruction::BranchLtS { reg1, reg2, offset } => two_reg_off_bytes(Opcode::BranchLtS, reg1, reg2, offset),
            Instruction::BranchGeS { reg1, reg2, offset } => two_reg_off_bytes(Opcode::BranchGeS, reg1, reg2, offset),
            Instruction::SetLtU { dst, src1, src2 } => three_reg_bytes(Opcode::SetLtU, dst, src1, src2),
            Instruction::SetLtS { dst, src1, src2 } => three_reg_bytes(Opcode::SetLtS, dst, src1, src2),
            Instruction::And { dst, src1, src2 } => three_reg_bytes(Opcode::And, dst, src1, src2),
            Instruction::Xor { dst, src1, src2 } => three_reg_bytes(Opcode::Xor, dst, src1, src2),
            Instruction::Or { dst, src1, src2 } => three_reg_bytes(Opcode::Or, dst, src1, src2),
            Instruction::SetLtUImm { dst, src, value } => two_reg_bytes(Opcode::SetLtUImm, dst, src) + imm_bytes(value),
            Instruction::SetLtSImm { dst, src, value } => two_reg_bytes(Opcode::SetLtSImm, dst, src) + imm_bytes(value),
            Instruction::ShloL32 { dst, src1, src2 } => three_reg_bytes(Opcode::ShloL32, dst, src1, src2),
            Instruction::ShloR32 { dst, src1, src2 } => three_reg_bytes(Opcode::ShloR32, dst, src1, src2),
            Instruction::SharR32 { dst, src1, src2 } => three_reg_bytes(Opcode::SharR32, dst, src1, src2),
            Instruction::Sbrk { dst, src } => two_reg_bytes(Opcode::Sbrk, dst, src),
            Instruction::CountSetBits64 { dst, src } => two_reg_bytes(Opcode::CountSetBits64, dst, src),
            Instruction::CountSetBits32 { dst, src } => two_reg_bytes(Opcode::CountSetBits32, dst, src),
            Instruction::LeadingZeroBits64 { dst, src } => two_reg_bytes(Opcode::LeadingZeroBits64, dst, src),
            Instruction::LeadingZeroBits32 { dst, src } => two_reg_bytes(Opcode::LeadingZeroBits32, dst, src),
            Instruction::TrailingZeroBits64 { dst, src } => two_reg_bytes(Opcode::TrailingZeroBits64, dst, src),
            Instruction::TrailingZeroBits32 { dst, src } => two_reg_bytes(Opcode::TrailingZeroBits32, dst, src),
            Instruction::SignExtend8 { dst, src } => two_reg_bytes(Opcode::SignExtend8, dst, src),
            Instruction::SignExtend16 { dst, src } => two_reg_bytes(Opcode::SignExtend16, dst, src),
            Instruction::ZeroExtend16 { dst, src } => two_reg_bytes(Opcode::ZeroExtend16, dst, src),
            Instruction::LoadIndU8 { dst, base, offset } => two_reg_bytes(Opcode::LoadIndU8, dst, base) + imm_bytes(offset),
            Instruction::LoadIndI8 { dst, base, offset } => two_reg_bytes(Opcode::LoadIndI8, dst, base) + imm_bytes(offset),
            Instruction::StoreIndU8 { base, src, offset } => two_reg_bytes(Opcode::StoreIndU8, src, base) + imm_bytes(offset),
            Instruction::LoadIndU16 { dst, base, offset } => two_reg_bytes(Opcode::LoadIndU16, dst, base) + imm_bytes(offset),
            Instruction::LoadIndI16 { dst, base, offset } => two_reg_bytes(Opcode::LoadIndI16, dst, base) + imm_bytes(offset),
            Instruction::StoreIndU16 { base, src, offset } => two_reg_bytes(Opcode::StoreIndU16, src, base) + imm_bytes(offset),
            Instruction::CmovIzImm { dst, cond, value } => two_reg_bytes(Opcode::CmovIzImm, dst, cond) + imm_bytes(value),
            Instruction::CmovNzImm { dst, cond, value } => two_reg_bytes(Opcode::CmovNzImm, dst, cond) + imm_bytes(value),
            Instruction::Ecalli { index } => seq![Opcode::Ecalli.byte()] + uimm_bytes(index),
            Instruction::Unknown { opcode, raw_bytes } => raw_bytes@,
        }
    }

    /// The opcode of the instruction; `None` for raw, undecoded bytes.
    pub open spec fn spec_opcode(self) -> Option<Opcode> {
        match self {
            Instruction::Unknown { .. } => None,
            Instruction::Trap { .. } => Some(Opcode::Trap),
            Instruction::Fallthrough { .. } => Some(Opcode::Fallthrough),
            Instruction::LoadImm64 { .. } => Some(Opcode::LoadImm64),
            Instruction::LoadImm { .. } => Some(Opcode::LoadImm),
            Instruction::Add32 { .. } => Some(Opcode::Add32),
            Instruction::Sub32 { .. } => Some(Opcode::Sub32),
            Instruction::Mul32 { .. } => Some(Opcode::Mul32),
            Instruction::DivU32 { .. } => Some(Opcode::DivU32),
            Instruction::DivS32 { .. } => Some(Opcode::DivS32),
            Instruction::RemU32 { .. } => Some(Opcode::RemU32),
            Instruction::RemS32 { .. } => Some(Opcode::RemS32),
            Instruction::Add64 { .. } => Some(Opcode::Add64),
            Instruction::Sub64 { .. } => Some(Opcode::Sub64),
            Instruction::Mul64 { .. } => Some(Opcode::Mul64),
            Instruction::DivU64 { .. } => Some(Opcode::DivU64),
            Instruction::DivS64 { .. } => Some(Opcode::DivS64),
            Instruction::RemU64 { .. } => Some(Opcode::RemU64),
            Instruction::RemS64 { .. } => Some(Opcode::RemS64),
            Instruction::ShloL64 { .. } => Some(Opcode::ShloL64),
            Instruction::ShloR64 { .. } => Some(Opcode::ShloR64),
            Instruction::SharR64 { .. } => Some(Opcode::SharR64),
            Instruction::AddImm32 { .. } => Some(Opcode::AddImm32),
            Instruction::AddImm64 { .. } => Some(Opcode::AddImm64),
            Instruction::Jump { .. } => Some(Opcode::Jump),
            Instruction::LoadImmJump { .. } => Some(Opcode::LoadImmJump),
            Instruction::JumpInd { .. } => Some(Opcode::JumpInd),
            Instruction::LoadIndU32 { .. } => Some(Opcode::LoadIndU32),
            Instruction::StoreIndU32 { .. } => Some(Opcode::StoreIndU32),
            Instruction::LoadIndU64 { .. } => Some(Opcode::LoadIndU64),
            Instruction::StoreIndU64 { .. } => Some(Opcode::StoreIndU64),
            Instruction::BranchNeImm { .. } => Some(Opcode::BranchNeImm),
            Instruction::BranchEqImm { .. } => Some(Opcode::BranchEqImm),
            Instruction::BranchGeSImm { .. } => Some(Opcode::BranchGeSImm),
            Instruction::BranchLtUImm { .. } => Some(Opcode::BranchLtUImm),
            Instruction::BranchLeUImm { .. } => Some(Opcode::BranchLeUImm),
            Instruction::BranchGeUImm { .. } => Some(Opcode::BranchGeUImm),
            Instruction::BranchGtUImm { .. } => Some(Opcode::BranchGtUImm),
            Instruction::BranchLtSImm { .. } => Some(Opcode::BranchLtSImm),
            Instruction::BranchLeSImm { .. } => Some(Opcode::BranchLeSImm),
            Instruction::BranchGtSImm { .. } => Some(Opcode::BranchGtSImm),
            Instruction::MoveReg { .. } => Some(Opcode::MoveReg),
            Instruction::BranchEq { .. } => Some(Opcode::BranchEq),
            Instruction::BranchNe { .. } => Some(Opcode::BranchNe),
            Instruction::BranchGeU { .. } => Some(Opcode::BranchGeU),
            Instruction::BranchLtU { .. } => Some(Opcode::BranchLtU),
            Instruction::BranchLtS { .. } => Some(Opcode::BranchLtS),
            Instruction::BranchGeS { .. } => Some(Opcode::BranchGeS),
            Instruction::SetLtU { .. } => Some(Opcode::SetLtU),
            Instruction::SetLtS { .. } => Some(Opcode::SetLtS),
            Instruction::And { .. } => Some(Opcode::And),
            Instruction::Xor { .. } => Some(Opcode::Xor),
            Instruction::Or { .. } => Some(Opcode::Or),
            Instruction::SetLtUImm { .. } => Some(Opcode::SetLtUImm),
            Instruction::SetLtSImm { .. } => Some(Opcode::SetLtSImm),
            Instruction::ShloL32 { .. } => Some(Opcode::ShloL32),
            Instruction::ShloR32 { .. } => Some(Opcode::ShloR32),
            Instruction::SharR32 { .. } => Some(Opcode::SharR32),
            Instruction::Sbrk { .. } => Some(Opcode::Sbrk),
            Instruction::CountSetBits64 { .. } => Some(Opcode::CountSetBits64),
            Instruction::CountSetBits32 { .. } => Some(Opcode::CountSetBits32),
            Instruction::LeadingZeroBits64 { .. } => Some(Opcode::LeadingZeroBits64),
            Instruction::LeadingZeroBits32 { .. } => Some(Opcode::LeadingZeroBits32),
            Instruction::TrailingZeroBits64 { .. } => Some(Opcode::TrailingZeroBits64),
            Instruction::TrailingZeroBits32 { .. } => Some(Opcode::TrailingZeroBits32),
            Instruction::SignExtend8 { .. } => Some(Opcode::SignExtend8),
            Instruction::SignExtend16 { .. } => Some(Opcode::SignExtend16),
            Instruction::ZeroExtend16 { .. } => Some(Opcode::ZeroExtend16),
            Instruction::LoadIndU8 { .. } => Some(Opcode::LoadIndU8),
            Instruction::LoadIndI8 { .. } => Some(Opcode::LoadIndI8),
            Instruction::StoreIndU8 { .. } => Some(Opcode::StoreIndU8),
            Instruction::LoadIndU16 { .. } => Some(Opcode::LoadIndU16),
            Instruction::LoadIndI16 { .. } => Some(Opcode::LoadIndI16),
            Instruction::StoreIndU16 { .. } => Some(Opcode::StoreIndU16),
            Instruction::CmovIzImm { .. } => Some(Opcode::CmovIzImm),
            Instruction::CmovNzImm { .. } => Some(Opcode::CmovNzImm),
            Instruction::Ecalli { .. } => Some(Opcode::Ecalli),
        }
    }

    /// The register the instruction writes, if any.
    pub open spec fn dest(self) -> Option<u8> {
        match self {
            Instruction::Trap => None,
            Instruction::Fallthrough => None,
            Instruction::LoadImm64 { reg, value } => Some(reg),
            Instruction::LoadImm { reg, value } => Some(reg),
            Instruction::Add32 { dst, src1, src2 } => Some(dst),
            Instruction::Sub32 { dst, src1, src2 } => Some(dst),
            Instruction::Mul32 { dst, src1, src2 } => Some(dst),
            Instruction::DivU32 { dst, src1, src2 } => Some(dst),
            Instruction::DivS32 { dst, src1, src2 } => Some(dst),
            Instruction::RemU32 { dst, src1, src2 } => Some(dst),
            Instruction::RemS32 { dst, src1, src2 } => Some(dst),
            Instruction::Add64 { dst, src1, src2 } => Some(dst),
            Instruction::Sub64 { dst, src1, src2 } => Some(dst),
            Instruction::Mul64 { dst, src1, src2 } => Some(dst),
            Instruction::DivU64 { dst, src1, src2 } => Some(dst),
            Instruction::DivS64 { dst, src1, src2 } => Some(dst),
            Instruction::RemU64 { dst, src1, src2 } => Some(dst),
            Instruction::RemS64 { dst, src1, src2 } => Some(dst),
            Instruction::ShloL64 { dst, src1, src2 } => Some(dst),
            Instruction::ShloR64 { dst, src1, src2 } => Some(dst),
            Instruction::SharR64 { dst, src1, src2 } => Some(dst),
            Instruction::AddImm32 { dst, src, value } => Some(dst),
            Instruction::AddImm64 { dst, src, value } => Some(dst),
            Instruction::Jump { offset } => None,
            Instruction::LoadImmJump { reg, value, offset } => Some(reg),
            Instruction::JumpInd { reg, offset } => None,
            Instruction::LoadIndU32 { dst, base, offset } => Some(dst),
            Instruction::StoreIndU32 { base, src, offset } => None,
            Instruction::LoadIndU64 { dst, base, offset } => Some(dst),
            Instruction::StoreIndU64 { base, src, offset } => None,
            Instruction::BranchNeImm { reg, value, offset } => None,
            Instruction::BranchEqImm { reg, value, offset } => None,
            Instruction::BranchGeSImm { reg, value, offset } => None,
            Instruction::BranchLtUImm { reg, value, offset } => None,
            Instruction::BranchLeUImm { reg, value, offset } => None,
            Instruction::BranchGeUImm { reg, value, offset } => None,
            Instruction::BranchGtUImm { reg, value, offset } => None,
            Instruction::BranchLtSImm { reg, value, offset } => None,
            Instruction::BranchLeSImm { reg, value, offset } => None,
            Instruction::BranchGtSImm { reg, value, offset } => None,
            Instruction::MoveReg { dst, src } => Some(dst),
            Instruction::BranchEq { reg1, reg2, offset } => None,
            Instruction::BranchNe { reg1, reg2, offset } => None,
            Instruction::BranchGeU { reg1, reg2, offset } => None,
            Instruction::BranchLtU { reg1, reg2, offset } => None,
            Instruction::BranchLtS { reg1, reg2, offset } => None,
            Instruction::BranchGeS { reg1, reg2, offset } => None,
            Instruction::SetLtU { dst, src1, src2 } => Some(dst),
            Instruction::SetLtS { dst, src1, src2 } => Some(dst),
            Instruction::And { dst, src1, src2 } => Some(dst),
            Instruction::Xor { dst, src1, src2 } => Some(dst),
            Instruction::Or { dst, src1, src2 } => Some(dst),
            Instruction::SetLtUImm { dst, src, value } => Some(dst),
            Instruction::SetLtSImm { dst, src, value } => Some(dst),
            Instruction::ShloL32 { dst, src1, src2 } => Some(dst),
            Instruction::ShloR32 { dst, src1, src2 } => Some(dst),
            Instruction::SharR32 { dst, src1, src2 } => Some(dst),
            Instruction::Sbrk { dst, src } => Some(dst),
            Instruction::CountSetBits64 { dst, src } => Some(dst),
            Instruction::CountSetBits32 { dst, src } => Some(dst),
            Instruction::LeadingZeroBits64 { dst, src } => Some(dst),
            Instruction::LeadingZeroBits32 { dst, src } => Some(dst),
            Instruction::TrailingZeroBits64 { dst, src } => Some(dst),
            Instruction::TrailingZeroBits32 { dst, src } => Some(dst),
            Instruction::SignExtend8 { dst, src } => Some(dst),
            Instruction::SignExtend16 { dst, src } => Some(dst),
            Instruction::ZeroExtend16 { dst, src } => Some(dst),
            Instruction::LoadIndU8 { dst, base, offset } => Some(dst),
            Instruction::LoadIndI8 { dst, base, offset } => Some(dst),
            Instruction::StoreIndU8 { base, src, offset } => None,
            Instruction::LoadIndU16 { dst, base, offset } => Some(dst),
            Instruction::LoadIndI16 { dst, base, offset } => Some(dst),
            Instruction::StoreIndU16 { base, src, offset } => None,
            Instruction::CmovIzImm { dst, cond, value } => Some(dst),
            Instruction::CmovNzImm { dst, cond, value } => Some(dst),
            Instruction::Ecalli { index } => None,
            Instruction::Unknown { opcode, raw_bytes } => None,
        }
    }

    /// The registers the instruction reads, in operand order, padded with
    /// `None` to three entries (a conditional move also reads its
    /// destination, kept when the condition fails).
    pub open spec fn sources(self) -> Seq<Option<u8>> {
        match self {
            Instruction::Trap => seq![None, None, None],
            Instruction::Fallthrough => seq![None, None, None],
            Instruction::LoadImm64 { reg, value } => seq![None, None, None],
            Instruction::LoadImm { reg, value } => seq![None, None, None],
            Instruction::Add32 { dst, src1, src2 } => seq![Some(src1), Some(src2), None],
            Instruction::Sub32 { dst, src1, src2 } => seq![Some(src1), Some(src2), None],
            Instruction::Mul32 { dst, src1, src2 } => seq![Some(src1), Some(src2), None],
            Instruction::DivU32 { dst, src1, src2 } => seq![Some(src1), Some(src2), None],
            Instruction::DivS32 { dst, src1, src2 } => seq![Some(src1), Some(src2), None],
            Instruction::RemU32 { dst, src1, src2 } => seq![Some(src1), Some(src2), None],
            Instruction::RemS32 { dst, src1, src2 } => seq![Some(src1), Some(src2), None],
            Instruction::Add64 { dst, src1, src2 } => seq![Some(src1), Some(src2), None],
            Instruction::Sub64 { dst, src1, src2 } => seq![Some(src1), Some(src2), None],
            Instruction::Mul64 { dst, src1, src2 } => seq![Some(src1), Some(src2), None],
            Instruction::DivU64 { dst, src1, src2 } => seq![Some(src1), Some(src2), None],
            Instruction::DivS64 { dst, src1, src2 } => seq![Some(src1), Some(src2), None],
            Instruction::RemU64 { dst, src1, src2 } => seq![Some(src1), Some(src2), None],
            Instruction::RemS64 { dst, src1, src2 } => seq![Some(src1), Some(src2), None],
            Instruction::ShloL64 { dst, src1, src2 } => seq![Some(src1), Some(src2), None],
            Instruction::ShloR64 { dst, src1, src2 } => seq![Some(src1), Some(src2), None],
            Instruction::SharR64 { dst, src1, src2 } => seq![Some(src1), Some(src2), None],
            Instruction::AddImm32 { dst, src, value } => seq![Some(src), None, None],
            Instruction::AddImm64 { dst, src, value } => seq![Some(src), None, None],
            Instruction::Jump { offset } => seq![None, None, None],
            Instruction::LoadImmJump { reg, value, offset } => seq![None, None, None],
            Instruction::JumpInd { reg, offset } => seq![Some(reg), None, None],
            Instruction::LoadIndU32 { dst, base, offset } => seq![Some(base), None, None],
            Instruction::StoreIndU32 { base, src, offset } => seq![Some(base), Some(src), None],
            Instruction::LoadIndU64 { dst, base, offset } => seq![Some(base), None, None],
            Instruction::StoreIndU64 { base, src, offset } => seq![Some(base), Some(src), None],
            Instruction::BranchNeImm { reg, value, offset } => seq![Some(reg), None, None],
            Instruction::BranchEqImm { reg, value, offset } => seq![Some(reg), None, None],
            Instruction::BranchGeSImm { reg, value, offset } => seq![Some(reg), None, None],
            Instruction::BranchLtUImm { reg, value, offset } => seq![Some(reg), None, None],
            Instruction::BranchLeUImm { reg, value, offset } => seq![Some(reg), None, None],
            Instruction::BranchGeUImm { reg, value, offset } => seq![Some(reg), None, None],
            Instruction::BranchGtUImm { reg, value, offset } => seq![Some(reg), None, None],
            Instruction::BranchLtSImm { reg, value, offset } => seq![Some(reg), None, None],
            Instruction::BranchLeSImm { reg, value, offset } => seq![Some(reg), None, None],
            Instruction::BranchGtSImm { reg, value, offset } => seq![Some(reg), None, None],
            Instruction::MoveReg { dst, src } => seq![Some(src), None, None],
            Instruction::BranchEq { reg1, reg2, offset } => seq![Some(reg1), Some(reg2), None],
            Instruction::BranchNe { reg1, reg2, offset } => seq![Some(reg1), Some(reg2), None],
            Instruction::BranchGeU { reg1, reg2, offset } => seq![Some(reg1), Some(reg2), None],
            Instruction::BranchLtU { reg1, reg2, offset } => seq![Some(reg1), Some(reg2), None],
            Instruction::BranchLtS { reg1, reg2, offset } => seq![Some(reg1), Some(reg2), None],
            Instruction::BranchGeS { reg1, reg2, offset } => seq![Some(reg1), Some(reg2), None],
            Instruction::SetLtU { dst, src1, src2 } => seq![Some(src1), Some(src2), None],
            Instruction::SetLtS { dst, src1, src2 } => seq![Some(src1), Some(src2), None],
            Instruction::And { dst, src1, src2 } => seq![Some(src1), Some(src2), None],
            Instruction::Xor { dst, src1, src2 } => seq![Some(src1), Some(src2), None],
            Instruction::Or { dst, src1, src2 } => seq![Some(src1), Some(src2), None],
            Instruction::SetLtUImm { dst, src, value } => seq![Some(src), None, None],
            Instruction::SetLtSImm { dst, src, value } => seq![Some(src), None, None],
            Instruction::ShloL32 { dst, src1, src2 } => seq![Some(src1), Some(src2), None],
            Instruction::ShloR32 { dst, src1, src2 } => seq![Some(src1), Some(src2), None],
            Instruction::SharR32 { dst, src1, src2 } => seq![Some(src1), Some(src2), None],
            Instruction::Sbrk { dst, src } => seq![Some(src), None, None],
            Instruction::CountSetBits64 { dst, src } => seq![Some(src), None, None],
            Instruction::CountSetBits32 { dst, src } => seq![Some(src), None, None],
            Instruction::LeadingZeroBits64 { dst, src } => seq![Some(src), None, None],
            Instruction::LeadingZeroBits32 { dst, src } => seq![Some(src), None, None],
            Instruction::TrailingZeroBits64 { dst, src } => seq![Some(src), None, None],
            Instruction::TrailingZeroBits32 { dst, src } => seq![Some(src), None, None],
            Instruction::SignExtend8 { dst, src } => seq![Some(src), None, None],
            Instruction::SignExtend16 { dst, src } => seq![Some(src), None, None],
            Instruction::ZeroExtend16 { dst, src } => seq![Some(src), None, None],
            Instruction::LoadIndU8 { dst, base, offset } => seq![Some(base), None, None],
            Instruction::LoadIndI8 { dst, base, offset } => seq![Some(base), None, None],
            Instruction::StoreIndU8 { base, src, offset } => seq![Some(base), Some(src), None],
            Instruction::LoadIndU16 { dst, base, offset } => seq![Some(base), None, None],
            Instruction::LoadIndI16 { dst, base, offset } => seq![Some(base), None, None],
            Instruction::StoreIndU16 { base, src, offset } => seq![Some(base), Some(src), None],
            Instruction::CmovIzImm { dst, cond, value } => seq![Some(cond), Some(dst), None],
            Instruction::CmovNzImm { dst, cond, value } => seq![Some(cond), Some(dst), None],
            Instruction::Ecalli { index } => seq![None, None, None],
            Instruction::Unknown { opcode, raw_bytes } => seq![None, None, None],
        }
    }

    /// Whether the instruction ends a basic block: traps, fallthroughs, jumps and branches.
    pub open spec fn terminates(self) -> bool {
        match self {
            Instruction::Trap
            | Instruction::Fallthrough
            | Instruction::Jump { .. }
            | Instruction::LoadImmJump { .. }
            | Instruction::JumpInd { .. }
            | Instruction::BranchNeImm { .. }
            | Instruction::BranchEqImm { .. }
            | Instruction::BranchGeSImm { .. }
            | Instruction::BranchLtUImm { .. }
            | Instruction::BranchLeUImm { .. }
            | Instruction::BranchGeUImm { .. }
            | Instruction::BranchGtUImm { .. }
            | Instruction::BranchLtSImm { .. }
            | Instruction::BranchLeSImm { .. }
            | Instruction::BranchGtSImm { .. }
            | Instruction::BranchEq { .. }
            | Instruction::BranchNe { .. }
            | Instruction::BranchGeU { .. }
            | Instruction::BranchLtU { .. }
            | Instruction::BranchLtS { .. }
            | Instruction::BranchGeS { .. } => true,
            _ => false,
        }
    }

    /// Encodes the instruction into its byte form.
    pub fn encode(&self) -> (r: Vec<u8>)
        ensures
            r@ == self.encoding(),
    {
        match self {
            Self::Trap => single_byte(Opcode::Trap),
            Self::Fallthrough => single_byte(Opcode::Fallthrough),
            Self::LoadImm64 { reg, value } => { let mut bytes = reg_byte(Opcode::LoadImm64, *reg); push_le_u64(&mut bytes, *value); bytes },
            Self::LoadImm { reg, value } => { let mut bytes = reg_byte(Opcode::LoadImm, *reg); append_imm(&mut bytes, *value); bytes },
            Self::Add32 { dst, src1, src2 } => encode_three_reg(Opcode::Add32, *dst, *src1, *src2),
            Self::Sub32 { dst, src1, src2 } => encode_three_reg(Opcode::Sub32, *dst, *src1, *src2),
            Self::Mul32 { dst, src1, src2 } => encode_three_reg(Opcode::Mul32, *dst, *src1, *src2),
            Self::DivU32 { dst, src1, src2 } => encode_three_reg(Opcode::DivU32, *dst, *src1, *src2),
            Self::DivS32 { dst, src1, src2 } => encode_three_reg(Opcode::DivS32, *dst, *src1, *src2),
            Self::RemU32 { dst, src1, src2 } => encode_three_reg(Opcode::RemU32, *dst, *src1, *src2),
            Self::RemS32 { dst, src1, src2 } => encode_three_reg(Opcode::RemS32, *dst, *src1, *src2),
            Self::Add64 { dst, src1, src2 } => encode_three_reg(Opcode::Add64, *dst, *src1, *src2),
            Self::Sub64 { dst, src1, src2 } => encode_three_reg(Opcode::Sub64, *dst, *src1, *src2),
            Self::Mul64 { dst, src1, src2 } => encode_three_reg(Opcode::Mul64, *dst, *src1, *src2),
            Self::DivU64 { dst, src1, src2 } => encode_three_reg(Opcode::DivU64, *dst, *src1, *src2),
            Self::DivS64 { dst, src1, src2 } => encode_three_reg(Opcode::DivS64, *dst, *src1, *src2),
            Self::RemU64 { dst, src1, src2 } => encode_three_reg(Opcode::RemU64, *dst, *src1, *src2),
            Self::RemS64 { dst, src1, src2 } => encode_three_reg(Opcode::RemS64, *dst, *src1, *src2),
            Self::ShloL64 { dst, src1, src2 } => encode_three_reg(Opcode::ShloL64, *dst, *src1, *src2),
            Self::ShloR64 { dst, src1, src2 } => encode_three_reg(Opcode::ShloR64, *dst, *src1, *src2),
            Self::SharR64 { dst, src1, src2 } => encode_three_reg(Opcode::SharR64, *dst, *src1, *src2),
            Self::AddImm32 { dst, src, value } => { let mut bytes = encode_two_reg(Opcode::AddImm32, *dst, *src); append_imm(&mut bytes, *value); bytes },
            Self::AddImm64 { dst, src, value } => { let mut bytes = encode_two_reg(Opcode::AddImm64, *dst, *src); append_imm(&mut bytes, *value); bytes },
            Self::Jump { offset } => { let mut bytes = single_byte(Opcode::Jump); push_le_u32(&mut bytes, *offset as u32); bytes },
            Self::LoadImmJump { reg, value, offset } => encode_one_reg_one_imm_one_off(Opcode::LoadImmJump, *reg, *value, *offset),
            Self::JumpInd { reg, offset } => { let mut bytes = reg_byte(Opcode::JumpInd, *reg); append_imm(&mut bytes, *offset); bytes },
            Self::LoadIndU32 { dst, base, offset } => { let mut bytes = encode_two_reg(Opcode::LoadIndU32, *dst, *base); append_imm(&mut bytes, *offset); bytes },
            Self::StoreIndU32 { base, src, offset } => { let mut bytes = encode_two_reg(Opcode::StoreIndU32, *src, *base); append_imm(&mut bytes, *offset); bytes },
            Self::LoadIndU64 { dst, base, offset } => { let mut bytes = encode_two_reg(Opcode::LoadIndU64, *dst, *base); append_imm(&mut bytes, *offset); bytes },
            Self::StoreIndU64 { base, src, offset } => { let mut bytes = encode_two_reg(Opcode::StoreIndU64, *src, *base); append_imm(&mut bytes, *offset); bytes },
            Self::BranchNeImm { reg, value, offset } => encode_one_reg_one_imm_one_off(Opcode::BranchNeImm, *reg, *value, *offset),
            Self::BranchEqImm { reg, value, offset } => encode_one_reg_one_imm_one_off(Opcode::BranchEqImm, *reg, *value, *offset),
            Self::BranchGeSImm { reg, value, offset } => encode_one_reg_one_imm_one_off(Opcode::BranchGeSImm, *reg, *value, *offset),
            Self::BranchLtUImm { reg, value, offset } => encode_one_reg_one_imm_one_off(Opcode::BranchLtUImm, *reg, *value, *offset),
            Self::BranchLeUImm { reg, value, offset } => encode_one_reg_one_imm_one_off(Opcode::BranchLeUImm, *reg, *value, *offset),
            Self::BranchGeUImm { reg, value, offset } => encode_one_reg_one_imm_one_off(Opcode::BranchGeUImm, *reg, *value, *offset),
            Self::BranchGtUImm { reg, value, offset } => encode_one_reg_one_imm_one_off(Opcode::BranchGtUImm, *reg, *value, *offset),
            Self::BranchLtSImm { reg, value, offset } => encode_one_reg_one_imm_one_off(Opcode::BranchLtSImm, *reg, *value, *offset),
            Self::BranchLeSImm { reg, value, offset } => encode_one_reg_one_imm_one_off(Opcode::BranchLeSImm, *reg, *value, *offset),
            Self::BranchGtSImm { reg, value, offset } => encode_one_reg_one_imm_one_off(Opcode::BranchGtSImm, *reg, *value, *offset),
            Self::MoveReg { dst, src } => encode_two_reg(Opcode::MoveReg, *dst, *src),
            Self::BranchEq { reg1, reg2, offset } => encode_two_reg_one_off(Opcode::BranchEq, *reg1, *reg2, *offset),
            Self::BranchNe { reg1, reg2, offset } => encode_two_reg_one_off(Opcode::BranchNe, *reg1, *reg2, *offset),
            Self::BranchGeU { reg1, reg2, offset } => encode_two_reg_one_off(Opcode::BranchGeU, *reg1, *reg2, *offset),
            Self::BranchLtU { reg1, reg2, offset } => encode_two_reg_one_off(Opcode::BranchLtU, *reg1, *reg2, *offset),
            Self::BranchLtS { reg1, reg2, offset } => encode_two_reg_one_off(Opcode::BranchLtS, *reg1, *reg2, *offset),
            Self::BranchGeS { reg1, reg2, offset } => encode_two_reg_one_off(Opcode::BranchGeS, *reg1, *reg2, *offset),
            Self::SetLtU { dst, src1, src2 } => encode_three_reg(Opcode::SetLtU, *dst, *src1, *src2),
            Self::SetLtS { dst, src1, src2 } => encode_three_reg(Opcode::SetLtS, *dst, *src1, *src2),
            Self::And { dst, src1, src2 } => encode_three_reg(Opcode::And, *dst, *src1, *src2),
            Self::Xor { dst, src1, src2 } => encode_three_reg(Opcode::Xor, *dst, *src1, *src2),
            Self::Or { dst, src1, src2 } => encode_three_reg(Opcode::Or, *dst, *src1, *src2),
            Self::SetLtUImm { dst, src, value } => { let mut bytes = encode_two_reg(Opcode::SetLtUImm, *dst, *src); append_imm(&mut bytes, *value); bytes },
            Self::SetLtSImm { dst, src, value } => { let mut bytes = encode_two_reg(Opcode::SetLtSImm, *dst, *src); append_imm(&mut bytes, *value); bytes },
            Self::ShloL32 { dst, src1, src2 } => encode_three_reg(Opcode::ShloL32, *dst, *src1, *src2),
            Self::ShloR32 { dst, src1, src2 } => encode_three_reg(Opcode::ShloR32, *dst, *src1, *src2),
            Self::SharR32 { dst, src1, src2 } => encode_three_reg(Opcode::SharR32, *dst, *src1, *src2),
            Self::Sbrk { dst, src } => encode_two_reg(Opcode::Sbrk, *dst, *src),
            Self::CountSetBits64 { dst, src } => encode_two_reg(Opcode::CountSetBits64, *dst, *src),
            Self::CountSetBits32 { dst, src } => encode_two_reg(Opcode::CountSetBits32, *dst, *src),
            Self::LeadingZeroBits64 { dst, src } => encode_two_reg(Opcode::LeadingZeroBits64, *dst, *src),
            Self::LeadingZeroBits32 { dst, src } => encode_two_reg(Opcode::LeadingZeroBits32, *dst, *src),
            Self::TrailingZeroBits64 { dst, src } => encode_two_reg(Opcode::TrailingZeroBits64, *dst, *src),
            Self::TrailingZeroBits32 { dst, src } => encode_two_reg(Opcode::TrailingZeroBits32, *dst, *src),
            Self::SignExtend8 { dst, src } => encode_two_reg(Opcode::SignExtend8, *dst, *src),
            Self::SignExtend16 { dst, src } => encode_two_reg(Opcode::SignExtend16, *dst, *src),
            Self::ZeroExtend16 { dst, src } => encode_two_reg(Opcode::ZeroExtend16, *dst, *src),
            Self::LoadIndU8 { dst, base, offset } => { let mut bytes = encode_two_reg(Opcode::LoadIndU8, *dst, *base); append_imm(&mut bytes, *offset); bytes },
            Self::LoadIndI8 { dst, base, offset } => { let mut bytes = encode_two_reg(Opcode::LoadIndI8, *dst, *base); append_imm(&mut bytes, *offset); bytes },
            Self::StoreIndU8 { base, src, offset } => { let mut bytes = encode_two_reg(Opcode::StoreIndU8, *src, *base); append_imm(&mut bytes, *offset); bytes },
            Self::LoadIndU16 { dst, base, offset } => { let mut bytes = encode_two_reg(Opcode::LoadIndU16, *dst, *base); append_imm(&mut bytes, *offset); bytes },
            Self::LoadIndI16 { dst, base, offset } => { let mut bytes = encode_two_reg(Opcode::LoadIndI16, *dst, *base); append_imm(&mut bytes, *offset); bytes },
            Self::StoreIndU16 { base, src, offset } => { let mut bytes = encode_two_reg(Opcode::StoreIndU16, *src, *base); append_imm(&mut bytes, *offset); bytes },
            Self::CmovIzImm { dst, cond, value } => { let mut bytes = encode_two_reg(Opcode::CmovIzImm, *dst, *cond); append_imm(&mut bytes, *value); bytes },
            Self::CmovNzImm { dst, cond, value } => { let mut bytes = encode_two_reg(Opcode::CmovNzImm, *dst, *cond); append_imm(&mut bytes, *value); bytes },
            Self::Ecalli { index } => { let mut bytes = single_byte(Opcode::Ecalli); append_uimm(&mut bytes, *index); bytes },
            Self::Unknown { opcode, raw_bytes } => copy_bytes(raw_bytes),
        }
    }

    /// The opcode of the instruction; `None` for `Unknown`.
    pub fn opcode(&self) -> (r: Option<Opcode>)
        ensures
            r == self.spec_opcode(),
    {
        match self {
            Self::Unknown { .. } => None,
            Self::Trap => Some(Opcode::Trap),
            Self::Fallthrough => Some(Opcode::Fallthrough),
            Self::LoadImm64 { .. } => Some(Opcode::LoadImm64),
            Self::LoadImm { .. } => Some(Opcode::LoadImm),
            Self::Add32 { .. } => Some(Opcode::Add32),
            Self::Sub32 { .. } => Some(Opcode::Sub32),
            Self::Mul32 { .. } => Some(Opcode::Mul32),
            Self::DivU32 { .. } => Some(Opcode::DivU32),
            Self::DivS32 { .. } => Some(Opcode::DivS32),
            Self::RemU32 { .. } => Some(Opcode::RemU32),
            Self::RemS32 { .. } => Some(Opcode::RemS32),
            Self::Add64 { .. } => Some(Opcode::Add64),
            Self::Sub64 { .. } => Some(Opcode::Sub64),
            Self::Mul64 { .. } => Some(Opcode::Mul64),
            Self::DivU64 { .. } => Some(Opcode::DivU64),
            Self::DivS64 { .. } => Some(Opcode::DivS64),
            Self::RemU64 { .. } => Some(Opcode::RemU64),
            Self::RemS64 { .. } => Some(Opcode::RemS64),
            Self::ShloL64 { .. } => Some(Opcode::ShloL64),
            Self::ShloR64 { .. } => Some(Opcode::ShloR64),
            Self::SharR64 { .. } => Some(Opcode::SharR64),
            Self::AddImm32 { .. } => Some(Opcode::AddImm32),
            Self::AddImm64 { .. } => Some(Opcode::AddImm64),
            Self::Jump { .. } => Some(Opcode::Jump),
            Self::LoadImmJump { .. } => Some(Opcode::LoadImmJump),
            Self::JumpInd { .. } => Some(Opcode::JumpInd),
            Self::LoadIndU32 { .. } => Some(Opcode::LoadIndU32),
            Self::StoreIndU32 { .. } => Some(Opcode::StoreIndU32),
            Self::LoadIndU64 { .. } => Some(Opcode::LoadIndU64),
            Self::StoreIndU64 { .. } => Some(Opcode::StoreIndU64),
            Self::BranchNeImm { .. } => Some(Opcode::BranchNeImm),
            Self::BranchEqImm { .. } => Some(Opcode::BranchEqImm),
            Self::BranchGeSImm { .. } => Some(Opcode::BranchGeSImm),
            Self::BranchLtUImm { .. } => Some(Opcode::BranchLtUImm),
            Self::BranchLeUImm { .. } => Some(Opcode::BranchLeUImm),
            Self::BranchGeUImm { .. } => Some(Opcode::BranchGeUImm),
            Self::BranchGtUImm { .. } => Some(Opcode::BranchGtUImm),
            Self::BranchLtSImm { .. } => Some(Opcode::BranchLtSImm),
            Self::BranchLeSImm { .. } => Some(Opcode::BranchLeSImm),
            Self::BranchGtSImm { .. } => Some(Opcode::BranchGtSImm),
            Self::MoveReg { .. } => Some(Opcode::MoveReg),
            Self::BranchEq { .. } => Some(Opcode::BranchEq),
            Self::BranchNe { .. } => Some(Opcode::BranchNe),
            Self::BranchGeU { .. } => Some(Opcode::BranchGeU),
            Self::BranchLtU { .. } => Some(Opcode::BranchLtU),
            Self::BranchLtS { .. } => Some(Opcode::BranchLtS),
            Self::BranchGeS { .. } => Some(Opcode::BranchGeS),
            Self::SetLtU { .. } => Some(Opcode::SetLtU),
            Self::SetLtS { .. } => Some(Opcode::SetLtS),
            Self::And { .. } => Some(Opcode::And),
            Self::Xor { .. } => Some(Opcode::Xor),
            Self::Or { .. } => Some(Opcode::Or),
            Self::SetLtUImm { .. } => Some(Opcode::SetLtUImm),
            Self::SetLtSImm { .. } => Some(Opcode::SetLtSImm),
            Self::ShloL32 { .. } => Some(Opcode::ShloL32),
            Self::ShloR32 { .. } => Some(Opcode::ShloR32),
            Self::SharR32 { .. } => Some(Opcode::SharR32),
            Self::Sbrk { .. } => Some(Opcode::Sbrk),
            Self::CountSetBits64 { .. } => Some(Opcode::CountSetBits64),
            Self::CountSetBits32 { .. } => Some(Opcode::CountSetBits32),
            Self::LeadingZeroBits64 { .. } => Some(Opcode::LeadingZeroBits64),
            Self::LeadingZeroBits32 { .. } => Some(Opcode::LeadingZeroBits32),
            Self::TrailingZeroBits64 { .. } => Some(Opcode::TrailingZeroBits64),
            Self::TrailingZeroBits32 { .. } => Some(Opcode::TrailingZeroBits32),
            Self::SignExtend8 { .. } => Some(Opcode::SignExtend8),
            Self::SignExtend16 { .. } => Some(Opcode::SignExtend16),
            Self::ZeroExtend16 { .. } => Some(Opcode::ZeroExtend16),
            Self::LoadIndU8 { .. } => Some(Opcode::LoadIndU8),
            Self::LoadIndI8 { .. } => Some(Opcode::LoadIndI8),
            Self::StoreIndU8 { .. } => Some(Opcode::StoreIndU8),
            Self::LoadIndU16 { .. } => Some(Opcode::LoadIndU16),
            Self::LoadIndI16 { .. } => Some(Opcode::LoadIndI16),
            Self::StoreIndU16 { .. } => Some(Opcode::StoreIndU16),
            Self::CmovIzImm { .. } => Some(Opcode::CmovIzImm),
            Self::CmovNzImm { .. } => Some(Opcode::CmovNzImm),
            Self::Ecalli { .. } => Some(Opcode::Ecalli),
        }
    }

    /// Returns the destination register written by this instruction, if any.
    pub fn dest_reg(&self) -> (r: Option<u8>)
        ensures
            r == self.dest(),
    {
        match self {
            Self::Trap => None,
            Self::Fallthrough => None,
            Self::LoadImm64 { reg, value } => Some(*reg),
            Self::LoadImm { reg, value } => Some(*reg),
            Self::Add32 { dst, src1, src2 } => Some(*dst),
            Self::Sub32 { dst, src1, src2 } => Some(*dst),
            Self::Mul32 { dst, src1, src2 } => Some(*dst),
            Self::DivU32 { dst, src1, src2 } => Some(*dst),
            Self::DivS32 { dst, src1, src2 } => Some(*dst),
            Self::RemU32 { dst, src1, src2 } => Some(*dst),
            Self::RemS32 { dst, src1, src2 } => Some(*dst),
            Self::Add64 { dst, src1, src2 } => Some(*dst),
            Self::Sub64 { dst, src1, src2 } => Some(*dst),
            Self::Mul64 { dst, src1, src2 } => Some(*dst),
            Self::DivU64 { dst, src1, src2 } => Some(*dst),
            Self::DivS64 { dst, src1, src2 } => Some(*dst),
            Self::RemU64 { dst, src1, src2 } => Some(*dst),
            Self::RemS64 { dst, src1, src2 } => Some(*dst),
            Self::ShloL64 { dst, src1, src2 } => Some(*dst),
            Self::ShloR64 { dst, src1, src2 } => Some(*dst),
            Self::SharR64 { dst, src1, src2 } => Some(*dst),
            Self::AddImm32 { dst, src, value } => Some(*dst),
            Self::AddImm64 { dst, src, value } => Some(*dst),
            Self::Jump { offset } => None,
            Self::LoadImmJump { reg, value, offset } => Some(*reg),
            Self::JumpInd { reg, offset } => None,
            Self::LoadIndU32 { dst, base, offset } => Some(*dst),
            Self::StoreIndU32 { base, src, offset } => None,
            Self::LoadIndU64 { dst, base, offset } => Some(*dst),
            Self::StoreIndU64 { base, src, offset } => None,
            Self::BranchNeImm { reg, value, offset } => None,
            Self::BranchEqImm { reg, value, offset } => None,
            Self::BranchGeSImm { reg, value, offset } => None,
            Self::BranchLtUImm { reg, value, offset } => None,
            Self::BranchLeUImm { reg, value, offset } => None,
            Self::BranchGeUImm { reg, value, offset } => None,
            Self::BranchGtUImm { reg, value, offset } => None,
            Self::BranchLtSImm { reg, value, offset } => None,
            Self::BranchLeSImm { reg, value, offset } => None,
            Self::BranchGtSImm { reg, value, offset } => None,
            Self::MoveReg { dst, src } => Some(*dst),
            Self::BranchEq { reg1, reg2, offset } => None,
            Self::BranchNe { reg1, reg2, offset } => None,
            Self::BranchGeU { reg1, reg2, offset } => None,
            Self::BranchLtU { reg1, reg2, offset } => None,
            Self::BranchLtS { reg1, reg2, offset } => None,
            Self::BranchGeS { reg1, reg2, offset } => None,
            Self::SetLtU { dst, src1, src2 } => Some(*dst),
            Self::SetLtS { dst, src1, src2 } => Some(*dst),
            Self::And { dst, src1, src2 } => Some(*dst),
            Self::Xor { dst, src1, src2 } => Some(*dst),
            Self::Or { dst, src1, src2 } => Some(*dst),
            Self::SetLtUImm { dst, src, value } => Some(*dst),
            Self::SetLtSImm { dst, src, value } => Some(*dst),
            Self::ShloL32 { dst, src1, src2 } => Some(*dst),
            Self::ShloR32 { dst, src1, src2 } => Some(*dst),
            Self::SharR32 { dst, src1, src2 } => Some(*dst),
            Self::Sbrk { dst, src } => Some(*dst),
            Self::CountSetBits64 { dst, src } => Some(*dst),
            Self::CountSetBits32 { dst, src } => Some(*dst),
            Self::LeadingZeroBits64 { dst, src } => Some(*dst),
            Self::LeadingZeroBits32 { dst, src } => Some(*dst),
            Self::TrailingZeroBits64 { dst, src } => Some(*dst),
            Self::TrailingZeroBits32 { dst, src } => Some(*dst),
            Self::SignExtend8 { dst, src } => Some(*dst),
            Self::SignExtend16 { dst, src } => Some(*dst),
            Self::ZeroExtend16 { dst, src } => Some(*dst),
            Self::LoadIndU8 { dst, base, offset } => Some(*dst),
            Self::LoadIndI8 { dst, base, offset } => Some(*dst),
            Self::StoreIndU8 { base, src, offset } => None,
            Self::LoadIndU16 { dst, base, offset } => Some(*dst),
            Self::LoadIndI16 { dst, base, offset } => Some(*dst),
            Self::StoreIndU16 { base, src, offset } => None,
            Self::CmovIzImm { dst, cond, value } => Some(*dst),
            Self::CmovNzImm { dst, cond, value } => Some(*dst),
            Self::Ecalli { index } => None,
            Self::Unknown { opcode, raw_bytes } => None,
        }
    }

    /// Whether this instruction ends a basic block.
    pub fn is_terminating(&self) -> (r: bool)
        ensures
            r == self.terminates(),
    {
        matches!(
            self,
            Self::Trap
                | Self::Fallthrough
                | Self::Jump { .. }
                | Self::LoadImmJump { .. }
                | Self::JumpInd { .. }
                | Self::BranchNeImm { .. }
                | Self::BranchEqImm { .. }
                | Self::BranchGeSImm { .. }
                | Self::BranchLtUImm { .. }
                | Self::BranchLeUImm { .. }
                | Self::BranchGeUImm { .. }
                | Self::BranchGtUImm { .. }
                | Self::BranchLtSImm { .. }
                | Self::BranchLeSImm { .. }
                | Self::BranchGtSImm { .. }
                | Self::BranchEq { .. }
                | Self::BranchNe { .. }
                | Self::BranchGeU { .. }
                | Self::BranchLtU { .. }
                | Self::BranchLtS { .. }
                | Self::BranchGeS { .. }
        )
    }

    /// Returns the source registers read by this instruction.
    /// Used by dead code elimination to determine liveness.
    pub fn src_regs(&self) -> (r: [Option<u8>; 3])
        ensures
            r@ == self.sources(),
    {
        let r = match self {
            Self::Trap => [None, None, None],
            Self::Fallthrough => [None, None, None],
            Self::LoadImm64 { reg, value } => [None, None, None],
            Self::LoadImm { reg, value } => [None, None, None],
            Self::Add32 { dst, src1, src2 } => [Some(*src1), Some(*src2), None],
            Self::Sub32 { dst, src1, src2 } => [Some(*src1), Some(*src2), None],
            Self::Mul32 { dst, src1, src2 } => [Some(*src1), Some(*src2), None],
            Self::DivU32 { dst, src1, src2 } => [Some(*src1), Some(*src2), None],
            Self::DivS32 { dst, src1, src2 } => [Some(*src1), Some(*src2), None],
            Self::RemU32 { dst, src1, src2 } => [Some(*src1), Some(*src2), None],
            Self::RemS32 { dst, src1, src2 } => [Some(*src1), Some(*src2), None],
            Self::Add64 { dst, src1, src2 } => [Some(*src1), Some(*src2), None],
            Self::Sub64 { dst, src1, src2 } => [Some(*src1), Some(*src2), None],
            Self::Mul64 { dst, src1, src2 } => [Some(*src1), Some(*src2), None],
            Self::DivU64 { dst, src1, src2 } => [Some(*src1), Some(*src2), None],
            Self::DivS64 { dst, src1, src2 } => [Some(*src1), Some(*src2), None],
            Self::RemU64 { dst, src1, src2 } => [Some(*src1), Some(*src2), None],
            Self::RemS64 { dst, src1, src2 } => [Some(*src1), Some(*src2), None],
            Self::ShloL64 { dst, src1, src2 } => [Some(*src1), Some(*src2), None],
            Self::ShloR64 { dst, src1, src2 } => [Some(*src1), Some(*src2), None],
            Self::SharR64 { dst, src1, src2 } => [Some(*src1), Some(*src2), None],
            Self::AddImm32 { dst, src, value } => [Some(*src), None, None],
            Self::AddImm64 { dst, src, value } => [Some(*src), None, None],
            Self::Jump { offset } => [None, None, None],
            Self::LoadImmJump { reg, value, offset } => [None, None, None],
            Self::JumpInd { reg, offset } => [Some(*reg), None, None],
            Self::LoadIndU32 { dst, base, offset } => [Some(*base), None, None],
            Self::StoreIndU32 { base, src, offset } => [Some(*base), Some(*src), None],
            Self::LoadIndU64 { dst, base, offset } => [Some(*base), None, None],
            Self::StoreIndU64 { base, src, offset } => [Some(*base), Some(*src), None],
            Self::BranchNeImm { reg, value, offset } => [Some(*reg), None, None],
            Self::BranchEqImm { reg, value, offset } => [Some(*reg), None, None],
            Self::BranchGeSImm { reg, value, offset } => [Some(*reg), None, None],
            Self::BranchLtUImm { reg, value, offset } => [Some(*reg), None, None],
            Self::BranchLeUImm { reg, value, offset } => [Some(*reg), None, None],
            Self::BranchGeUImm { reg, value, offset } => [Some(*reg), None, None],
            Self::BranchGtUImm { reg, value, offset } => [Some(*reg), None, None],
            Self::BranchLtSImm { reg, value, offset } => [Some(*reg), None, None],
            Self::BranchLeSImm { reg, value, offset } => [Some(*reg), None, None],
            Self::BranchGtSImm { reg, value, offset } => [Some(*reg), None, None],
            Self::MoveReg { dst, src } => [Some(*src), None, None],
            Self::BranchEq { reg1, reg2, offset } => [Some(*reg1), Some(*reg2), None],
            Self::BranchNe { reg1, reg2, offset } => [Some(*reg1), Some(*reg2), None],
            Self::BranchGeU { reg1, reg2, offset } => [Some(*reg1), Some(*reg2), None],
            Self::BranchLtU { reg1, reg2, offset } => [Some(*reg1), Some(*reg2), None],
            Self::BranchLtS { reg1, reg2, offset } => [Some(*reg1), Some(*reg2), None],
            Self::BranchGeS { reg1, reg2, offset } => [Some(*reg1), Some(*reg2), None],
            Self::SetLtU { dst, src1, src2 } => [Some(*src1), Some(*src2), None],
            Self::SetLtS { dst, src1, src2 } => [Some(*src1), Some(*src2), None],
            Self::And { dst, src1, src2 } => [Some(*src1), Some(*src2), None],
            Self::Xor { dst, src1, src2 } => [Some(*src1), Some(*src2), None],
            Self::Or { dst, src1, src2 } => [Some(*src1), Some(*src2), None],
            Self::SetLtUImm { dst, src, value } => [Some(*src), None, None],
            Self::SetLtSImm { dst, src, value } => [Some(*src), None, None],
            Self::ShloL32 { dst, src1, src2 } => [Some(*src1), Some(*src2), None],
            Self::ShloR32 { dst, src1, src2 } => [Some(*src1), Some(*src2), None],
            Self::SharR32 { dst, src1, src2 } => [Some(*src1), Some(*src2), None],
            Self::Sbrk { dst, src } => [Some(*src), None, None],
            Self::CountSetBits64 { dst, src } => [Some(*src), None, None],
            Self::CountSetBits32 { dst, src } => [Some(*src), None, None],
            Self::LeadingZeroBits64 { dst, src } => [Some(*src), None, None],
            Self::LeadingZeroBits32 { dst, src } => [Some(*src), None, None],
            Self::TrailingZeroBits64 { dst, src } => [Some(*src), None, None],
            Self::TrailingZeroBits32 { dst, src } => [Some(*src), None, None],
            Self::SignExtend8 { dst, src } => [Some(*src), None, None],
            Self::SignExtend16 { dst, src } => [Some(*src), None, None],
            Self::ZeroExtend16 { dst, src } => [Some(*src), None, None],
            Self::LoadIndU8 { dst, base, offset } => [Some(*base), None, None],
            Self::LoadIndI8 { dst, base, offset } => [Some(*base), None, None],
            Self::StoreIndU8 { base, src, offset } => [Some(*base), Some(*src), None],
            Self::LoadIndU16 { dst, base, offset } => [Some(*base), None, None],
            Self::LoadIndI16 { dst, base, offset } => [Some(*base), None, None],
            Self::StoreIndU16 { base, src, offset } => [Some(*base), Some(*src), None],
            // A conditional move reads its condition, and its destination,
            // which keeps its old value when the condition fails.
            Self::CmovIzImm { dst, cond, value } => [Some(*cond), Some(*dst), None],
            Self::CmovNzImm { dst, cond, value } => [Some(*cond), Some(*dst), None],
            Self::Ecalli { index } => [None, None, None],
            Self::Unknown { opcode, raw_bytes } => [None, None, None],
        };
        assert(r@ =~= self.sources());
        r
    }
}

fn single_byte(op: Opcode) -> (r: Vec<u8>)
    ensures
        r@ == seq![op.byte()],
{
    let mut bytes = Vec::new();
    bytes.push(op.to_u8());
    assert(bytes@ =~= seq![op.byte()]);
    bytes
}

fn reg_byte(op: Opcode, reg: u8) -> (r: Vec<u8>)
    ensures
        r@ == seq![op.byte(), reg & 0x0F],
{
    let mut bytes = Vec::new();
    bytes.push(op.to_u8());
    bytes.push(reg & 0x0F);
    assert(bytes@ =~= seq![op.byte(), reg & 0x0F]);
    bytes
}

fn copy_bytes(src: &Vec<u8>) -> (r: Vec<u8>)
    ensures
        r@ == src@,
{
    let mut out = Vec::new();
    let mut i: usize = 0;
    while i < src.len()
        invariant
            i <= src.len(),
            out@ == src@.take(i as int),
        decreases src.len() - i,
    {
        out.push(src[i]);
        i += 1;
        assert(out@ =~= src@.take(i as int));
    }
    assert(src@.take(src.len() as int) =~= src@);
    out
}

/// Appends the four little-endian bytes of `v`.
fn push_le_u32(bytes: &mut Vec<u8>, v: u32)
    ensures
        final(bytes)@ == old(bytes)@ + le_u32_bytes(v),
{
    bytes.push(v as u8);
    bytes.push((v >> 8) as u8);
    bytes.push((v >> 16) as u8);
    bytes.push((v >> 24) as u8);
    assert(bytes@ =~= old(bytes)@ + le_u32_bytes(v));
}

/// Appends the eight little-endian bytes of `v`.
fn push_le_u64(bytes: &mut Vec<u8>, v: u64)
    ensures
        final(bytes)@ == old(bytes)@ + le_u64_bytes(v),
{
    bytes.push(v as u8);
    bytes.push((v >> 8) as u8);
    bytes.push((v >> 16) as u8);
    bytes.push((v >> 24) as u8);
    bytes.push((v >> 32) as u8);
    bytes.push((v >> 40) as u8);
    bytes.push((v >> 48) as u8);
    bytes.push((v >> 56) as u8);
    assert(bytes@ =~= old(bytes)@ + le_u64_bytes(v));
}

/// Appends the first `len` little-endian bytes of `v`.
fn push_le_prefix(bytes: &mut Vec<u8>, v: u32, len: usize)
    requires
        len <= 4,
    ensures
        final(bytes)@ == old(bytes)@ + le_u32_bytes(v).take(len as int),
{
    if len >= 1 {
        bytes.push(v as u8);
    }
    if len >= 2 {
        bytes.push((v >> 8) as u8);
    }
    if len >= 3 {
        bytes.push((v >> 16) as u8);
    }
    if len >= 4 {
        bytes.push((v >> 24) as u8);
    }
    assert(bytes@ =~= old(bytes)@ + le_u32_bytes(v).take(len as int));
}

/// Three-register encoding `[opcode, src2 << 4 | src1, dst]`.
pub fn encode_three_reg(opcode: Opcode, dst: u8, src1: u8, src2: u8) -> (r: Vec<u8>)
    ensures
        r@ == three_reg_bytes(opcode, dst, src1, src2),
{
    let mut bytes = Vec::new();
    bytes.push(opcode.to_u8());
    bytes.push((src2 & 0x0F) << 4 | (src1 & 0x0F));
    bytes.push(dst & 0x0F);
    assert(bytes@ =~= three_reg_bytes(opcode, dst, src1, src2));
    bytes
}

/// Two-register encoding `[opcode, src << 4 | dst]`.
pub fn encode_two_reg(opcode: Opcode, dst: u8, src: u8) -> (r: Vec<u8>)
    ensures
        r@ == two_reg_bytes(opcode, dst, src),
{
    let mut bytes = Vec::new();
    bytes.push(opcode.to_u8());
    bytes.push((src & 0x0F) << 4 | (dst & 0x0F));
    assert(bytes@ =~= two_reg_bytes(opcode, dst, src));
    bytes
}

/// One register, one compact immediate and a 32-bit offset.
pub fn encode_one_reg_one_imm_one_off(opcode: Opcode, reg: u8, imm: i32, offset: i32) -> (r: Vec<
    u8,
>)
    ensures
        r@ == reg_imm_off_bytes(opcode, reg, imm, offset),
{
    let mut imm_enc = encode_imm(imm);
    let imm_len = imm_enc.len() as u8;
    let mut bytes = Vec::new();
    bytes.push(opcode.to_u8());
    bytes.push((imm_len << 4) | (reg & 0x0F));
    bytes.append(&mut imm_enc);
    push_le_u32(&mut bytes, offset as u32);
    bytes
}

/// Two registers and a 32-bit offset: `[opcode, reg1 << 4 | reg2, offset (4 bytes)]`.
pub fn encode_two_reg_one_off(opcode: Opcode, reg1: u8, reg2: u8, offset: i32) -> (r: Vec<u8>)
    ensures
        r@ == two_reg_off_bytes(opcode, reg1, reg2, offset),
{
    let mut bytes = Vec::new();
    bytes.push(opcode.to_u8());
    bytes.push((reg1 & 0x0F) << 4 | (reg2 & 0x0F));
    push_le_u32(&mut bytes, offset as u32);
    bytes
}

/// Compact unsigned immediate: the fewest little-endian bytes that hold `value`.
pub fn encode_uimm(value: u32) -> (r: Vec<u8>)
    ensures
        r@ == uimm_bytes(value),
{
    let len: usize = if value == 0 {
        0
    } else if value <= 0xFF {
        1
    } else if value <= 0xFFFF {
        2
    } else if value <= 0xFF_FFFF {
        3
    } else {
        4
    };
    let mut bytes = Vec::new();
    push_le_prefix(&mut bytes, value, len);
    assert(bytes@ =~= uimm_bytes(value));
    bytes
}

/// Compact signed immediate: the fewest little-endian bytes whose sign
/// extension gives back `value`.
pub fn encode_imm(value: i32) -> (r: Vec<u8>)
    ensures
        r@ == imm_bytes(value),
{
    let len: usize = if value == 0 {
        0
    } else if -128 <= value && value <= 127 {
        1
    } else if -32768 <= value && value <= 32767 {
        2
    } else if -8_388_608 <= value && value <= 8_388_607 {
        3
    } else {
        4
    };
    let mut bytes = Vec::new();
    push_le_prefix(&mut bytes, value as u32, len);
    assert(bytes@ =~= imm_bytes(value));
    bytes
}

fn append_imm(bytes: &mut Vec<u8>, value: i32)
    ensures
        final(bytes)@ == old(bytes)@ + imm_bytes(value),
{
    let mut enc = encode_imm(value);
    bytes.append(&mut enc);
}

fn append_uimm(bytes: &mut Vec<u8>, value: u32)
    ensures
        final(bytes)@ == old(bytes)@ + uimm_bytes(value),
{
    let mut enc = encode_uimm(value);
    bytes.append(&mut enc);
}

/// Unsigned value of a little-endian byte sequence.
pub open spec fn le_value(b: Seq<u8>) -> nat
    decreases b.len(),
{
    if b.len() == 0 {
        0
    } else {
        b[0] as nat + 256 * le_value(b.drop_first())
    }
}

/// `256^n`: one more than the largest value `n` bytes hold.
pub open spec fn byte_range(n: nat) -> nat
    decreases n,
{
    if n == 0 {
        1
    } else {
        256 * byte_range((n - 1) as nat)
    }
}

/// Value of a compact signed immediate: its little-endian bytes, sign-extended
/// from the top bit of the last byte.
pub open spec fn sign_extended_value(b: Seq<u8>) -> int {
    if b.len() == 0 {
        0
    } else if b.last() >= 128 {
        le_value(b) - byte_range(b.len())
    } else {
        le_value(b) as int
    }
}

pub(crate) proof fn lemma_le_value_4(b: Seq<u8>)
    requires
        b.len() <= 4,
    ensures
        b.len() == 0 ==> le_value(b) == 0,
        b.len() == 1 ==> le_value(b) == b[0],
        b.len() == 2 ==> le_value(b) == b[0] + 256 * b[1],
        b.len() == 3 ==> le_value(b) == b[0] + 256 * b[1] + 65536 * b[2],
        b.len() == 4 ==> le_value(b) == b[0] + 256 * b[1] + 65536 * b[2] + 16777216 * b[3],
{
    reveal_with_fuel(le_value, 5);
    if b.len() >= 1 {
        let t1 = b.drop_first();
        if t1.len() >= 1 {
            let t2 = t1.drop_first();
            if t2.len() >= 1 {
                let t3 = t2.drop_first();
                if t3.len() >= 1 {
                    assert(t3.drop_first().len() == 0);
                }
            }
        }
    }
}

/// Four little-endian bytes of `v` spell `v`; their first three spell `v`
/// modulo 2^24.
pub(crate) proof fn lemma_le_u32_value(v: u32)
    ensures
        le_value(le_u32_bytes(v)) == v,
        le_value(le_u32_bytes(v).take(3)) == v % 0x100_0000,
{
    let b = le_u32_bytes(v);
    lemma_le_value_4(b);
    lemma_le_value_4(b.take(3));
    assert((v as u8 == v & 0xff)
        && ((v >> 8) as u8 == (v >> 8) & 0xff)
        && ((v >> 16) as u8 == (v >> 16) & 0xff)
        && ((v >> 24) as u8 == (v >> 24) & 0xff)
        && ((v & 0xff) + 256 * ((v >> 8) & 0xff) + 65536 * ((v >> 16) & 0xff) + 16777216 * ((v >> 24) & 0xff) == v)
        && ((v & 0xff) + 256 * ((v >> 8) & 0xff) + 65536 * ((v >> 16) & 0xff) == v % 0x100_0000)) by (bit_vector);
}

/// The compact signed immediate decodes, by sign extension, to the value it encodes.
pub proof fn imm_roundtrip(v: i32)
    ensures
        sign_extended_value(imm_bytes(v)) == v,
{
    let b = imm_bytes(v);
    lemma_le_value_4(b);
    reveal_with_fuel(byte_range, 5);
    let u = v as u32;
    let b0 = u as u8;
    let b1 = (u >> 8) as u8;
    let b2 = (u >> 16) as u8;
    let b3 = (u >> 24) as u8;
    if v == 0 {
    } else if -128 <= v <= 127 {
        assert(b[0] == b0);
        assert(-128 <= v <= 127 ==> (if ((v as u32) as u8) >= 128 {
            ((v as u32) as u8) - 256
        } else {
            ((v as u32) as u8) as int
        }) == v) by (bit_vector);
    } else if -32768 <= v <= 32767 {
        assert(b[0] == b0 && b[1] == b1);
        assert(-32768 <= v <= 32767 ==> (if (((v as u32) >> 8) as u8) >= 128 {
            ((v as u32) as u8) + 256 * (((v as u32) >> 8) as u8) - 65536
        } else {
            ((v as u32) as u8) + 256 * (((v as u32) >> 8) as u8)
        }) == v) by (bit_vector);
    } else if -8388608 <= v <= 8388607 {
        assert(b[0] == b0 && b[1] == b1 && b[2] == b2);
        assert(-8388608 <= v <= 8388607 ==> (if (((v as u32) >> 16) as u8) >= 128 {
            ((v as u32) as u8) + 256 * (((v as u32) >> 8) as u8) + 65536 * (((v as u32)
                >> 16) as u8) - 16777216
        } else {
            ((v as u32) as u8) + 256 * (((v as u32) >> 8) as u8) + 65536 * (((v as u32)
                >> 16) as u8)
        }) == v) by (bit_vector);
    } else {
        assert(b[0] == b0 && b[1] == b1 && b[2] == b2 && b[3] == b3);
        assert((if (((v as u32) >> 24) as u8) >= 128 {
            ((v as u32) as u8) + 256 * (((v as u32) >> 8) as u8) + 65536 * (((v as u32)
                >> 16) as u8) + 16777216 * (((v as u32) >> 24) as u8) - 4294967296
        } else {
            ((v as u32) as u8) + 256 * (((v as u32) >> 8) as u8) + 65536 * (((v as u32)
                >> 16) as u8) + 16777216 * (((v as u32) >> 24) as u8)
        }) == v) by (bit_vector);
    }
}

/// The compact unsigned immediate decodes, by zero extension, to the value it encodes.
pub proof fn uimm_roundtrip(v: u32)
    ensures
        le_value(uimm_bytes(v)) == v,
{
    let b = uimm_bytes(v);
    lemma_le_value_4(b);
    if v == 0 {
    } else if v <= 0xFF {
        assert(b[0] == v as u8);
        assert(v <= 0xFF ==> (v as u8) == v) by (bit_vector);
    } else if v <= 0xFFFF {
        assert(b[0] == v as u8 && b[1] == (v >> 8) as u8);
        assert(v <= 0xFFFF ==> (v as u8) + 256 * ((v >> 8) as u8) == v) by (bit_vector);
    } else if v <= 0xFF_FFFF {
        assert(b[0] == v as u8 && b[1] == (v >> 8) as u8 && b[2] == (v >> 16) as u8);
        assert(v <= 0xFF_FFFF ==> (v as u8) + 256 * ((v >> 8) as u8) + 65536 * ((v >> 16) as u8)
            == v) by (bit_vector);
    } else {
        assert(b[0] == v as u8 && b[1] == (v >> 8) as u8 && b[2] == (v >> 16) as u8 && b[3] == (v
            >> 24) as u8);
        assert((v as u8) + 256 * ((v >> 8) as u8) + 65536 * ((v >> 16) as u8) + 16777216 * ((v
            >> 24) as u8) == v) by (bit_vector);
    }
}

/// Every modelled instruction's encoding starts with the byte of its opcode, and
/// an instruction ends a basic block exactly when its opcode does.
pub proof fn encoding_starts_with_opcode(instr: Instruction)
    requires
        instr.spec_opcode() is Some,
    ensures
        instr.encoding().len() >= 1,
        instr.encoding()[0] == instr.spec_opcode().unwrap().byte(),
        instr.terminates() == instr.spec_opcode().unwrap().terminates(),
{
}


} // verus!
