//! Helpers for tests that compile WebAssembly and inspect the PVM code.
use crate::error::{Error, Result};
use crate::pvm::opcode::Opcode;
use crate::pvm::Instruction;
use crate::spi::SpiProgram;
use crate::wat_parse::{parse_wat, wat_binary, wat_error_text};
use vstd::prelude::*;
use vstd::string::*;

verus! {

/// Parse WAT (WebAssembly Text) format to WASM binary.
pub fn wat_to_wasm(wat: &str) -> (r: Result<Vec<u8>>)
    ensures
        match r {
            Ok(bytes) => wat_binary(wat@) == Some(bytes@),
            Err(Error::Internal(msg)) => wat_binary(wat@) is None && msg@.take(17)
                == "WAT parse error: "@,
            Err(_) => false,
        },
{
    match parse_wat(wat) {
        Ok(bytes) => Ok(bytes),
        Err(e) => {
            let text = wat_error_text(&e);
            let msg = String::from_str("WAT parse error: ").concat(text.as_str());
            proof {
                reveal_strlit("WAT parse error: ");
                assert(msg@.take(17) =~= "WAT parse error: "@);
            }
            Err(Error::Internal(msg))
        },
    }
}

/// A field-by-field copy of an instruction: the same instruction, with the
/// raw bytes of an unknown opcode copied into a new vector.
fn copy_instruction(instr: &Instruction) -> (r: Instruction)
    ensures
        r.encoding() == instr.encoding(),
        r.spec_opcode() == instr.spec_opcode(),
        !(instr is Unknown) ==> r == *instr,
        instr is Unknown ==> r is Unknown && r->Unknown_opcode == instr->Unknown_opcode
            && r->Unknown_raw_bytes@ == instr->Unknown_raw_bytes@,
{
    match instr {
            Instruction::Trap => Instruction::Trap,
            Instruction::Fallthrough => Instruction::Fallthrough,
            Instruction::LoadImm64 { reg, value } => Instruction::LoadImm64 { reg: *reg, value: *value },
            Instruction::LoadImm { reg, value } => Instruction::LoadImm { reg: *reg, value: *value },
            Instruction::Add32 { dst, src1, src2 } => Instruction::Add32 { dst: *dst, src1: *src1, src2: *src2 },
            Instruction::Sub32 { dst, src1, src2 } => Instruction::Sub32 { dst: *dst, src1: *src1, src2: *src2 },
            Instruction::Mul32 { dst, src1, src2 } => Instruction::Mul32 { dst: *dst, src1: *src1, src2: *src2 },
            Instruction::DivU32 { dst, src1, src2 } => Instruction::DivU32 { dst: *dst, src1: *src1, src2: *src2 },
            Instruction::DivS32 { dst, src1, src2 } => Instruction::DivS32 { dst: *dst, src1: *src1, src2: *src2 },
            Instruction::RemU32 { dst, src1, src2 } => Instruction::RemU32 { dst: *dst, src1: *src1, src2: *src2 },
            Instruction::RemS32 { dst, src1, src2 } => Instruction::RemS32 { dst: *dst, src1: *src1, src2: *src2 },
            Instruction::Add64 { dst, src1, src2 } => Instruction::Add64 { dst: *dst, src1: *src1, src2: *src2 },
            Instruction::Sub64 { dst, src1, src2 } => Instruction::Sub64 { dst: *dst, src1: *src1, src2: *src2 },
            Instruction::Mul64 { dst, src1, src2 } => Instruction::Mul64 { dst: *dst, src1: *src1, src2: *src2 },
            Instruction::DivU64 { dst, src1, src2 } => Instruction::DivU64 { dst: *dst, src1: *src1, src2: *src2 },
            Instruction::DivS64 { dst, src1, src2 } => Instruction::DivS64 { dst: *dst, src1: *src1, src2: *src2 },
            Instruction::RemU64 { dst, src1, src2 } => Instruction::RemU64 { dst: *dst, src1: *src1, src2: *src2 },
            Instruction::RemS64 { dst, src1, src2 } => Instruction::RemS64 { dst: *dst, src1: *src1, src2: *src2 },
            Instruction::ShloL64 { dst, src1, src2 } => Instruction::ShloL64 { dst: *dst, src1: *src1, src2: *src2 },
            Instruction::ShloR64 { dst, src1, src2 } => Instruction::ShloR64 { dst: *dst, src1: *src1, src2: *src2 },
            Instruction::SharR64 { dst, src1, src2 } => Instruction::SharR64 { dst: *dst, src1: *src1, src2: *src2 },
            Instruction::AddImm32 { dst, src, value } => Instruction::AddImm32 { dst: *dst, src: *src, value: *value },
            Instruction::AddImm64 { dst, src, value } => Instruction::AddImm64 { dst: *dst, src: *src, value: *value },
            Instruction::Jump { offset } => Instruction::Jump { offset: *offset },
            Instruction::LoadImmJump { reg, value, offset } => Instruction::LoadImmJump { reg: *reg, value: *value, offset: *offset },
            Instruction::JumpInd { reg, offset } => Instruction::JumpInd { reg: *reg, offset: *offset },
            Instruction::LoadIndU32 { dst, base, offset } => Instruction::LoadIndU32 { dst: *dst, base: *base, offset: *offset },
            Instruction::StoreIndU32 { base, src, offset } => Instruction::StoreIndU32 { base: *base, src: *src, offset: *offset },
            Instruction::LoadIndU64 { dst, base, offset } => Instruction::LoadIndU64 { dst: *dst, base: *base, offset: *offset },
            Instruction::StoreIndU64 { base, src, offset } => Instruction::StoreIndU64 { base: *base, src: *src, offset: *offset },
            Instruction::BranchNeImm { reg, value, offset } => Instruction::BranchNeImm { reg: *reg, value: *value, offset: *offset },
            Instruction::BranchEqImm { reg, value, offset } => Instruction::BranchEqImm { reg: *reg, value: *value, offset: *offset },
            Instruction::BranchGeSImm { reg, value, offset } => Instruction::BranchGeSImm { reg: *reg, value: *value, offset: *offset },
            Instruction::BranchLtUImm { reg, value, offset } => Instruction::BranchLtUImm { reg: *reg, value: *value, offset: *offset },
            Instruction::BranchLeUImm { reg, value, offset } => Instruction::BranchLeUImm { reg: *reg, value: *value, offset: *offset },
            Instruction::BranchGeUImm { reg, value, offset } => Instruction::BranchGeUImm { reg: *reg, value: *value, offset: *offset },
            Instruction::BranchGtUImm { reg, value, offset } => Instruction::BranchGtUImm { reg: *reg, value: *value, offset: *offset },
            Instruction::BranchLtSImm { reg, value, offset } => Instruction::BranchLtSImm { reg: *reg, value: *value, offset: *offset },
            Instruction::BranchLeSImm { reg, value, offset } => Instruction::BranchLeSImm { reg: *reg, value: *value, offset: *offset },
            Instruction::BranchGtSImm { reg, value, offset } => Instruction::BranchGtSImm { reg: *reg, value: *value, offset: *offset },
            Instruction::MoveReg { dst, src } => Instruction::MoveReg { dst: *dst, src: *src },
            Instruction::BranchEq { reg1, reg2, offset } => Instruction::BranchEq { reg1: *reg1, reg2: *reg2, offset: *offset },
            Instruction::BranchNe { reg1, reg2, offset } => Instruction::BranchNe { reg1: *reg1, reg2: *reg2, offset: *offset },
            Instruction::BranchGeU { reg1, reg2, offset } => Instruction::BranchGeU { reg1: *reg1, reg2: *reg2, offset: *offset },
            Instruction::BranchLtU { reg1, reg2, offset } => Instruction::BranchLtU { reg1: *reg1, reg2: *reg2, offset: *offset },
            Instruction::BranchLtS { reg1, reg2, offset } => Instruction::BranchLtS { reg1: *reg1, reg2: *reg2, offset: *offset },
            Instruction::BranchGeS { reg1, reg2, offset } => Instruction::BranchGeS { reg1: *reg1, reg2: *reg2, offset: *offset },
            Instruction::SetLtU { dst, src1, src2 } => Instruction::SetLtU { dst: *dst, src1: *src1, src2: *src2 },
            Instruction::SetLtS { dst, src1, src2 } => Instruction::SetLtS { dst: *dst, src1: *src1, src2: *src2 },
            Instruction::And { dst, src1, src2 } => Instruction::And { dst: *dst, src1: *src1, src2: *src2 },
            Instruction::Xor { dst, src1, src2 } => Instruction::Xor { dst: *dst, src1: *src1, src2: *src2 },
            Instruction::Or { dst, src1, src2 } => Instruction::Or { dst: *dst, src1: *src1, src2: *src2 },
            Instruction::SetLtUImm { dst, src, value } => Instruction::SetLtUImm { dst: *dst, src: *src, value: *value },
            Instruction::SetLtSImm { dst, src, value } => Instruction::SetLtSImm { dst: *dst, src: *src, value: *value },
            Instruction::ShloL32 { dst, src1, src2 } => Instruction::ShloL32 { dst: *dst, src1: *src1, src2: *src2 },
            Instruction::ShloR32 { dst, src1, src2 } => Instruction::ShloR32 { dst: *dst, src1: *src1, src2: *src2 },
            Instruction::SharR32 { dst, src1, src2 } => Instruction::SharR32 { dst: *dst, src1: *src1, src2: *src2 },
            Instruction::Sbrk { dst, src } => Instruction::Sbrk { dst: *dst, src: *src },
            Instruction::CountSetBits64 { dst, src } => Instruction::CountSetBits64 { dst: *dst, src: *src },
            Instruction::CountSetBits32 { dst, src } => Instruction::CountSetBits32 { dst: *dst, src: *src },
            Instruction::LeadingZeroBits64 { dst, src } => Instruction::LeadingZeroBits64 { dst: *dst, src: *src },
            Instruction::LeadingZeroBits32 { dst, src } => Instruction::LeadingZeroBits32 { dst: *dst, src: *src },
            Instruction::TrailingZeroBits64 { dst, src } => Instruction::TrailingZeroBits64 { dst: *dst, src: *src },
            Instruction::TrailingZeroBits32 { dst, src } => Instruction::TrailingZeroBits32 { dst: *dst, src: *src },
            Instruction::SignExtend8 { dst, src } => Instruction::SignExtend8 { dst: *dst, src: *src },
            Instruction::SignExtend16 { dst, src } => Instruction::SignExtend16 { dst: *dst, src: *src },
            Instruction::ZeroExtend16 { dst, src } => Instruction::ZeroExtend16 { dst: *dst, src: *src },
            Instruction::LoadIndU8 { dst, base, offset } => Instruction::LoadIndU8 { dst: *dst, base: *base, offset: *offset },
            Instruction::LoadIndI8 { dst, base, offset } => Instruction::LoadIndI8 { dst: *dst, base: *base, offset: *offset },
            Instruction::StoreIndU8 { base, src, offset } => Instruction::StoreIndU8 { base: *base, src: *src, offset: *offset },
            Instruction::LoadIndU16 { dst, base, offset } => Instruction::LoadIndU16 { dst: *dst, base: *base, offset: *offset },
            Instruction::LoadIndI16 { dst, base, offset } => Instruction::LoadIndI16 { dst: *dst, base: *base, offset: *offset },
            Instruction::StoreIndU16 { base, src, offset } => Instruction::StoreIndU16 { base: *base, src: *src, offset: *offset },
            Instruction::CmovIzImm { dst, cond, value } => Instruction::CmovIzImm { dst: *dst, cond: *cond, value: *value },
            Instruction::CmovNzImm { dst, cond, value } => Instruction::CmovNzImm { dst: *dst, cond: *cond, value: *value },
            Instruction::Ecalli { index } => Instruction::Ecalli { index: *index },
            Instruction::Unknown { opcode, raw_bytes } => {
                let mut bytes: Vec<u8> = Vec::new();
                let mut k: usize = 0;
                while k < raw_bytes.len()
                    invariant
                        k <= raw_bytes@.len(),
                        bytes@ == raw_bytes@.take(k as int),
                    decreases raw_bytes@.len() - k,
                {
                    bytes.push(raw_bytes[k]);
                    proof {
                        assert(raw_bytes@.take(k + 1) =~= raw_bytes@.take(k as int).push(raw_bytes@[k as int]));
                    }
                    k += 1;
                }
                proof {
                    assert(raw_bytes@.take(raw_bytes@.len() as int) =~= raw_bytes@);
                }
                Instruction::Unknown { opcode: *opcode, raw_bytes: bytes }
            },
    }
}

/// Extract the instruction sequence from a SPI program.
pub fn extract_instructions(program: &SpiProgram) -> (r: Vec<Instruction>)
    ensures
        r@.len() == program.spec_code().instrs().len(),
        forall|i: int|
            0 <= i < r@.len() ==> (#[trigger] r@[i]).encoding() == program.spec_code().instrs()[i].encoding()
                && (!(program.spec_code().instrs()[i] is Unknown) ==> r@[i] == program.spec_code().instrs()[i])
                && (program.spec_code().instrs()[i] is Unknown ==> r@[i] is Unknown && r@[i]->Unknown_opcode
                == program.spec_code().instrs()[i]->Unknown_opcode && r@[i]->Unknown_raw_bytes@
                == program.spec_code().instrs()[i]->Unknown_raw_bytes@),
{
    let instrs = program.code().instructions();
    let mut out: Vec<Instruction> = Vec::new();
    let mut i: usize = 0;
    while i < instrs.len()
        invariant
            i <= instrs@.len(),
            out@.len() == i,
            forall|j: int|
                0 <= j < i ==> (#[trigger] out@[j]).encoding() == instrs@[j].encoding() && (!(
                instrs@[j] is Unknown) ==> out@[j] == instrs@[j]) && (instrs@[j] is Unknown ==> out@[j] is Unknown
                && out@[j]->Unknown_opcode == instrs@[j]->Unknown_opcode && out@[j]->Unknown_raw_bytes@
                == instrs@[j]->Unknown_raw_bytes@),
        decreases instrs@.len() - i,
    {
        out.push(copy_instruction(&instrs[i]));
        i += 1;
    }
    out
}

/// The number of instructions in `instrs` whose opcode is `opcode`.
pub open spec fn opcode_count(instrs: Seq<Instruction>, opcode: Opcode) -> nat
    decreases instrs.len(),
{
    if instrs.len() == 0 {
        0
    } else {
        opcode_count(instrs.drop_last(), opcode) + if instrs.last().spec_opcode() == Some(opcode) {
            1nat
        } else {
            0nat
        }
    }
}

/// Count instructions with a specific opcode.
pub fn count_opcode(instructions: &[Instruction], opcode: Opcode) -> (r: usize)
    ensures
        r == opcode_count(instructions@, opcode),
{
    let mut count: usize = 0;
    let mut i: usize = 0;
    while i < instructions.len()
        invariant
            i <= instructions@.len(),
            count == opcode_count(instructions@.take(i as int), opcode),
            count <= i,
        decreases instructions@.len() - i,
    {
        proof {
            assert(instructions@.take(i + 1).drop_last() =~= instructions@.take(i as int));
        }
        if instructions[i].opcode() == Some(opcode) {
            count += 1;
        }
        i += 1;
    }
    proof {
        assert(instructions@.take(instructions@.len() as int) =~= instructions@);
    }
    count
}

/// Check if an instruction sequence contains a specific opcode.
pub fn has_opcode(instructions: &[Instruction], opcode: Opcode) -> (r: bool)
    ensures
        r <==> exists|i: int|
            0 <= i < instructions@.len() && #[trigger] instructions@[i].spec_opcode() == Some(opcode),
{
    let mut i: usize = 0;
    while i < instructions.len()
        invariant
            i <= instructions@.len(),
            forall|j: int| 0 <= j < i ==> #[trigger] instructions@[j].spec_opcode() != Some(opcode),
        decreases instructions@.len() - i,
    {
        if instructions[i].opcode() == Some(opcode) {
            return true;
        }
        i += 1;
    }
    false
}

/// Filter instructions by opcode, keeping their order.
pub fn filter_by_opcode(instructions: &[Instruction], opcode: Opcode) -> (r: Vec<&Instruction>)
    ensures
        r@.map_values(|x: &Instruction| *x) == instructions@.filter(
            |x: Instruction| x.spec_opcode() == Some(opcode),
        ),
{
    let mut out: Vec<&Instruction> = Vec::new();
    let mut i: usize = 0;
    while i < instructions.len()
        invariant
            i <= instructions@.len(),
            out@.map_values(|x: &Instruction| *x) == instructions@.take(i as int).filter(
                |x: Instruction| x.spec_opcode() == Some(opcode),
            ),
        decreases instructions@.len() - i,
    {
        proof {
            reveal(Seq::filter);
            assert(instructions@.take(i + 1).drop_last() =~= instructions@.take(i as int));
        }
        if instructions[i].opcode() == Some(opcode) {
            out.push(&instructions[i]);
        }
        proof {
            assert(out@.map_values(|x: &Instruction| *x) =~= instructions@.take(i + 1).filter(
                |x: Instruction| x.spec_opcode() == Some(opcode),
            ));
        }
        i += 1;
    }
    proof {
        assert(instructions@.take(instructions@.len() as int) =~= instructions@);
    }
    out
}

} // verus!
