//! Building the IR of one function body: the body's locals and operators
//! are read with `wasmparser`, and each operator is mapped to one IR
//! instruction (a plain one-to-one mapping, with no stack simulation).
use super::instruction::{ir_text, targets_text, IrInstruction};
use crate::error::{Error, Result};
use crate::text::{dec_digits, push_dec, signed_dec};
use vstd::prelude::*;
use vstd::string::*;
use wasmparser::{BinaryReader, BinaryReaderError, BlockType, FunctionBody, Operator};

verus! {

/// The type of a block: empty, one value type, or a function type by index.
#[derive(Debug, Clone, Copy, PartialEq, Eq)]
pub enum WasmBlockType {
    Empty,
    Value,
    Func(u32),
}

/// A WebAssembly operator, as the IR builder sees it: the operators it maps
/// carry the immediates it uses; any other operator carries its description.
#[derive(Debug, Clone, PartialEq, Eq)]
pub enum WasmOp {
    I32Const(i32),
    I64Const(i64),
    LocalGet(u32),
    LocalSet(u32),
    LocalTee(u32),
    GlobalGet(u32),
    GlobalSet(u32),
    Br(u32),
    BrIf(u32),
    Call(u32),
    /// Carries the memory argument's offset.
    I32Load(u64),
    I64Load(u64),
    I32Load8U(u64),
    I32Load8S(u64),
    I32Load16U(u64),
    I32Load16S(u64),
    I64Load8U(u64),
    I64Load8S(u64),
    I64Load16U(u64),
    I64Load16S(u64),
    I64Load32U(u64),
    I64Load32S(u64),
    I32Store(u64),
    I64Store(u64),
    I32Store8(u64),
    I32Store16(u64),
    I64Store8(u64),
    I64Store16(u64),
    I64Store32(u64),
    /// Carries the memory index.
    MemorySize(u32),
    MemoryGrow(u32),
    MemoryFill(u32),
    /// Carries the destination and source memory indices.
    MemoryCopy(u32, u32),
    /// Carries the block type.
    Block(WasmBlockType),
    Loop,
    If(WasmBlockType),
    /// Carries the branch targets and the default target.
    BrTable(Vec<u32>, u32),
    /// Carries the type index and the table index.
    CallIndirect(u32, u32),
    I32Add,
    I32Sub,
    I32Mul,
    I32DivU,
    I32DivS,
    I32RemU,
    I32RemS,
    I64Add,
    I64Sub,
    I64Mul,
    I64DivU,
    I64DivS,
    I64RemU,
    I64RemS,
    I32And,
    I32Or,
    I32Xor,
    I64And,
    I64Or,
    I64Xor,
    I32Shl,
    I32ShrU,
    I32ShrS,
    I64Shl,
    I64ShrU,
    I64ShrS,
    I32Rotl,
    I32Rotr,
    I64Rotl,
    I64Rotr,
    I32Clz,
    I32Ctz,
    I32Popcnt,
    I64Clz,
    I64Ctz,
    I64Popcnt,
    I32Eqz,
    I32Eq,
    I32Ne,
    I32LtU,
    I32LtS,
    I32GtU,
    I32GtS,
    I32LeU,
    I32LeS,
    I32GeU,
    I32GeS,
    I64Eqz,
    I64Eq,
    I64Ne,
    I64LtU,
    I64LtS,
    I64GtU,
    I64GtS,
    I64LeU,
    I64LeS,
    I64GeU,
    I64GeS,
    Else,
    End,
    Return,
    Drop,
    Select,
    Unreachable,
    Nop,
    I32WrapI64,
    I64ExtendI32S,
    I64ExtendI32U,
    I32Extend8S,
    I32Extend16S,
    I64Extend8S,
    I64Extend16S,
    I64Extend32S,
    I32TruncSatF64U,
    I32TruncSatF64S,
    I32TruncSatF32U,
    I32TruncSatF32S,
    I64TruncSatF64U,
    I64TruncSatF64S,
    I64TruncSatF32U,
    I64TruncSatF32S,
    /// Any other operator, with its description.
    Other(String),
}

/// The IR instruction of an operator, `None` for one the IR does not support:
/// an operator outside the IR's set, or a memory operation on a memory other
/// than memory 0.
pub open spec fn ir_of_op(op: WasmOp) -> Option<IrInstruction> {
    match op {
        WasmOp::I32Const(v) => Some(IrInstruction::I32Const(v)),
        WasmOp::I64Const(v) => Some(IrInstruction::I64Const(v)),
        WasmOp::LocalGet(v) => Some(IrInstruction::LocalGet(v)),
        WasmOp::LocalSet(v) => Some(IrInstruction::LocalSet(v)),
        WasmOp::LocalTee(v) => Some(IrInstruction::LocalTee(v)),
        WasmOp::GlobalGet(v) => Some(IrInstruction::GlobalGet(v)),
        WasmOp::GlobalSet(v) => Some(IrInstruction::GlobalSet(v)),
        WasmOp::Br(v) => Some(IrInstruction::Br(v)),
        WasmOp::BrIf(v) => Some(IrInstruction::BrIf(v)),
        WasmOp::Call(v) => Some(IrInstruction::Call(v)),
        WasmOp::I32Load(offset) => Some(IrInstruction::I32Load { offset }),
        WasmOp::I64Load(offset) => Some(IrInstruction::I64Load { offset }),
        WasmOp::I32Load8U(offset) => Some(IrInstruction::I32Load8U { offset }),
        WasmOp::I32Load8S(offset) => Some(IrInstruction::I32Load8S { offset }),
        WasmOp::I32Load16U(offset) => Some(IrInstruction::I32Load16U { offset }),
        WasmOp::I32Load16S(offset) => Some(IrInstruction::I32Load16S { offset }),
        WasmOp::I64Load8U(offset) => Some(IrInstruction::I64Load8U { offset }),
        WasmOp::I64Load8S(offset) => Some(IrInstruction::I64Load8S { offset }),
        WasmOp::I64Load16U(offset) => Some(IrInstruction::I64Load16U { offset }),
        WasmOp::I64Load16S(offset) => Some(IrInstruction::I64Load16S { offset }),
        WasmOp::I64Load32U(offset) => Some(IrInstruction::I64Load32U { offset }),
        WasmOp::I64Load32S(offset) => Some(IrInstruction::I64Load32S { offset }),
        WasmOp::I32Store(offset) => Some(IrInstruction::I32Store { offset }),
        WasmOp::I64Store(offset) => Some(IrInstruction::I64Store { offset }),
        WasmOp::I32Store8(offset) => Some(IrInstruction::I32Store8 { offset }),
        WasmOp::I32Store16(offset) => Some(IrInstruction::I32Store16 { offset }),
        WasmOp::I64Store8(offset) => Some(IrInstruction::I64Store8 { offset }),
        WasmOp::I64Store16(offset) => Some(IrInstruction::I64Store16 { offset }),
        WasmOp::I64Store32(offset) => Some(IrInstruction::I64Store32 { offset }),
        WasmOp::MemorySize(mem) => if mem == 0 { Some(IrInstruction::MemorySize) } else { None },
        WasmOp::MemoryGrow(mem) => if mem == 0 { Some(IrInstruction::MemoryGrow) } else { None },
        WasmOp::MemoryFill(mem) => if mem == 0 { Some(IrInstruction::MemoryFill) } else { None },
        WasmOp::MemoryCopy(d, s) => if d == 0 && s == 0 { Some(IrInstruction::MemoryCopy) } else { None },
        WasmOp::Block(bt) => Some(IrInstruction::Block { has_result: !(bt is Empty) }),
        WasmOp::Loop => Some(IrInstruction::Loop),
        WasmOp::If(bt) => Some(IrInstruction::If { has_result: !(bt is Empty) }),
        WasmOp::BrTable(targets, default) => Some(IrInstruction::BrTable { targets, default }),
        WasmOp::CallIndirect(t, tb) => Some(IrInstruction::CallIndirect { type_idx: t, table_idx: tb }),
        WasmOp::I32Add => Some(IrInstruction::I32Add),
        WasmOp::I32Sub => Some(IrInstruction::I32Sub),
        WasmOp::I32Mul => Some(IrInstruction::I32Mul),
        WasmOp::I32DivU => Some(IrInstruction::I32DivU),
        WasmOp::I32DivS => Some(IrInstruction::I32DivS),
        WasmOp::I32RemU => Some(IrInstruction::I32RemU),
        WasmOp::I32RemS => Some(IrInstruction::I32RemS),
        WasmOp::I64Add => Some(IrInstruction::I64Add),
        WasmOp::I64Sub => Some(IrInstruction::I64Sub),
        WasmOp::I64Mul => Some(IrInstruction::I64Mul),
        WasmOp::I64DivU => Some(IrInstruction::I64DivU),
        WasmOp::I64DivS => Some(IrInstruction::I64DivS),
        WasmOp::I64RemU => Some(IrInstruction::I64RemU),
        WasmOp::I64RemS => Some(IrInstruction::I64RemS),
        WasmOp::I32And => Some(IrInstruction::I32And),
        WasmOp::I32Or => Some(IrInstruction::I32Or),
        WasmOp::I32Xor => Some(IrInstruction::I32Xor),
        WasmOp::I64And => Some(IrInstruction::I64And),
        WasmOp::I64Or => Some(IrInstruction::I64Or),
        WasmOp::I64Xor => Some(IrInstruction::I64Xor),
        WasmOp::I32Shl => Some(IrInstruction::I32Shl),
        WasmOp::I32ShrU => Some(IrInstruction::I32ShrU),
        WasmOp::I32ShrS => Some(IrInstruction::I32ShrS),
        WasmOp::I64Shl => Some(IrInstruction::I64Shl),
        WasmOp::I64ShrU => Some(IrInstruction::I64ShrU),
        WasmOp::I64ShrS => Some(IrInstruction::I64ShrS),
        WasmOp::I32Rotl => Some(IrInstruction::I32Rotl),
        WasmOp::I32Rotr => Some(IrInstruction::I32Rotr),
        WasmOp::I64Rotl => Some(IrInstruction::I64Rotl),
        WasmOp::I64Rotr => Some(IrInstruction::I64Rotr),
        WasmOp::I32Clz => Some(IrInstruction::I32Clz),
        WasmOp::I32Ctz => Some(IrInstruction::I32Ctz),
        WasmOp::I32Popcnt => Some(IrInstruction::I32Popcnt),
        WasmOp::I64Clz => Some(IrInstruction::I64Clz),
        WasmOp::I64Ctz => Some(IrInstruction::I64Ctz),
        WasmOp::I64Popcnt => Some(IrInstruction::I64Popcnt),
        WasmOp::I32Eqz => Some(IrInstruction::I32Eqz),
        WasmOp::I32Eq => Some(IrInstruction::I32Eq),
        WasmOp::I32Ne => Some(IrInstruction::I32Ne),
        WasmOp::I32LtU => Some(IrInstruction::I32LtU),
        WasmOp::I32LtS => Some(IrInstruction::I32LtS),
        WasmOp::I32GtU => Some(IrInstruction::I32GtU),
        WasmOp::I32GtS => Some(IrInstruction::I32GtS),
        WasmOp::I32LeU => Some(IrInstruction::I32LeU),
        WasmOp::I32LeS => Some(IrInstruction::I32LeS),
        WasmOp::I32GeU => Some(IrInstruction::I32GeU),
        WasmOp::I32GeS => Some(IrInstruction::I32GeS),
        WasmOp::I64Eqz => Some(IrInstruction::I64Eqz),
        WasmOp::I64Eq => Some(IrInstruction::I64Eq),
        WasmOp::I64Ne => Some(IrInstruction::I64Ne),
        WasmOp::I64LtU => Some(IrInstruction::I64LtU),
        WasmOp::I64LtS => Some(IrInstruction::I64LtS),
        WasmOp::I64GtU => Some(IrInstruction::I64GtU),
        WasmOp::I64GtS => Some(IrInstruction::I64GtS),
        WasmOp::I64LeU => Some(IrInstruction::I64LeU),
        WasmOp::I64LeS => Some(IrInstruction::I64LeS),
        WasmOp::I64GeU => Some(IrInstruction::I64GeU),
        WasmOp::I64GeS => Some(IrInstruction::I64GeS),
        WasmOp::Else => Some(IrInstruction::Else),
        WasmOp::End => Some(IrInstruction::End),
        WasmOp::Return => Some(IrInstruction::Return),
        WasmOp::Drop => Some(IrInstruction::Drop),
        WasmOp::Select => Some(IrInstruction::Select),
        WasmOp::Unreachable => Some(IrInstruction::Unreachable),
        WasmOp::Nop => Some(IrInstruction::Nop),
        WasmOp::I32WrapI64 => Some(IrInstruction::I32WrapI64),
        WasmOp::I64ExtendI32S => Some(IrInstruction::I64ExtendI32S),
        WasmOp::I64ExtendI32U => Some(IrInstruction::I64ExtendI32U),
        WasmOp::I32Extend8S => Some(IrInstruction::I32Extend8S),
        WasmOp::I32Extend16S => Some(IrInstruction::I32Extend16S),
        WasmOp::I64Extend8S => Some(IrInstruction::I64Extend8S),
        WasmOp::I64Extend16S => Some(IrInstruction::I64Extend16S),
        WasmOp::I64Extend32S => Some(IrInstruction::I64Extend32S),
        WasmOp::I32TruncSatF64U => Some(IrInstruction::I32TruncSatF64U),
        WasmOp::I32TruncSatF64S => Some(IrInstruction::I32TruncSatF64S),
        WasmOp::I32TruncSatF32U => Some(IrInstruction::I32TruncSatF32U),
        WasmOp::I32TruncSatF32S => Some(IrInstruction::I32TruncSatF32S),
        WasmOp::I64TruncSatF64U => Some(IrInstruction::I64TruncSatF64U),
        WasmOp::I64TruncSatF64S => Some(IrInstruction::I64TruncSatF64S),
        WasmOp::I64TruncSatF32U => Some(IrInstruction::I64TruncSatF32U),
        WasmOp::I64TruncSatF32S => Some(IrInstruction::I64TruncSatF32S),
        WasmOp::Other(_) => None,
    }
}

/// The WebAssembly text form of an operator, with its immediates: memory
/// accesses write their offset out (`offset=0` too), memory operations name
/// a memory other than memory 0, and a block or `if` shows whether it yields
/// a value (or its function type). An operator outside the set shows its
/// description.
pub open spec fn wasm_text(op: WasmOp) -> Seq<char> {
    match op {
        WasmOp::I32Const(v) => "i32.const "@ + signed_dec(v as int),
        WasmOp::I64Const(v) => "i64.const "@ + signed_dec(v as int),
        WasmOp::LocalGet(v) => "local.get "@ + dec_digits(v as nat),
        WasmOp::LocalSet(v) => "local.set "@ + dec_digits(v as nat),
        WasmOp::LocalTee(v) => "local.tee "@ + dec_digits(v as nat),
        WasmOp::GlobalGet(v) => "global.get "@ + dec_digits(v as nat),
        WasmOp::GlobalSet(v) => "global.set "@ + dec_digits(v as nat),
        WasmOp::Br(v) => "br "@ + dec_digits(v as nat),
        WasmOp::BrIf(v) => "br_if "@ + dec_digits(v as nat),
        WasmOp::Call(v) => "call "@ + dec_digits(v as nat),
        WasmOp::I32Load(offset) => "i32.load offset="@ + dec_digits(offset as nat),
        WasmOp::I64Load(offset) => "i64.load offset="@ + dec_digits(offset as nat),
        WasmOp::I32Load8U(offset) => "i32.load8_u offset="@ + dec_digits(offset as nat),
        WasmOp::I32Load8S(offset) => "i32.load8_s offset="@ + dec_digits(offset as nat),
        WasmOp::I32Load16U(offset) => "i32.load16_u offset="@ + dec_digits(offset as nat),
        WasmOp::I32Load16S(offset) => "i32.load16_s offset="@ + dec_digits(offset as nat),
        WasmOp::I64Load8U(offset) => "i64.load8_u offset="@ + dec_digits(offset as nat),
        WasmOp::I64Load8S(offset) => "i64.load8_s offset="@ + dec_digits(offset as nat),
        WasmOp::I64Load16U(offset) => "i64.load16_u offset="@ + dec_digits(offset as nat),
        WasmOp::I64Load16S(offset) => "i64.load16_s offset="@ + dec_digits(offset as nat),
        WasmOp::I64Load32U(offset) => "i64.load32_u offset="@ + dec_digits(offset as nat),
        WasmOp::I64Load32S(offset) => "i64.load32_s offset="@ + dec_digits(offset as nat),
        WasmOp::I32Store(offset) => "i32.store offset="@ + dec_digits(offset as nat),
        WasmOp::I64Store(offset) => "i64.store offset="@ + dec_digits(offset as nat),
        WasmOp::I32Store8(offset) => "i32.store8 offset="@ + dec_digits(offset as nat),
        WasmOp::I32Store16(offset) => "i32.store16 offset="@ + dec_digits(offset as nat),
        WasmOp::I64Store8(offset) => "i64.store8 offset="@ + dec_digits(offset as nat),
        WasmOp::I64Store16(offset) => "i64.store16 offset="@ + dec_digits(offset as nat),
        WasmOp::I64Store32(offset) => "i64.store32 offset="@ + dec_digits(offset as nat),
        WasmOp::MemorySize(m) => "memory.size"@ + memory_index_text(m),
        WasmOp::MemoryGrow(m) => "memory.grow"@ + memory_index_text(m),
        WasmOp::MemoryFill(m) => "memory.fill"@ + memory_index_text(m),
        WasmOp::MemoryCopy(d, s) => "memory.copy"@ + (if d == 0 && s == 0 {
            Seq::empty()
        } else {
            " "@ + dec_digits(d as nat) + " "@ + dec_digits(s as nat)
        }),
        WasmOp::Block(bt) => "block"@ + block_type_text(bt),
        WasmOp::If(bt) => "if"@ + block_type_text(bt),
        WasmOp::BrTable(targets, default) => "br_table"@ + targets_text(targets@) + " "@ + dec_digits(
            default as nat,
        ),
        WasmOp::CallIndirect(t, tb) => "call_indirect (type "@ + dec_digits(t as nat) + ") (table "@
            + dec_digits(tb as nat) + ")"@,
        WasmOp::Loop => "loop"@,
        WasmOp::I32Add => "i32.add"@,
        WasmOp::I32Sub => "i32.sub"@,
        WasmOp::I32Mul => "i32.mul"@,
        WasmOp::I32DivU => "i32.div_u"@,
        WasmOp::I32DivS => "i32.div_s"@,
        WasmOp::I32RemU => "i32.rem_u"@,
        WasmOp::I32RemS => "i32.rem_s"@,
        WasmOp::I64Add => "i64.add"@,
        WasmOp::I64Sub => "i64.sub"@,
        WasmOp::I64Mul => "i64.mul"@,
        WasmOp::I64DivU => "i64.div_u"@,
        WasmOp::I64DivS => "i64.div_s"@,
        WasmOp::I64RemU => "i64.rem_u"@,
        WasmOp::I64RemS => "i64.rem_s"@,
        WasmOp::I32And => "i32.and"@,
        WasmOp::I32Or => "i32.or"@,
        WasmOp::I32Xor => "i32.xor"@,
        WasmOp::I64And => "i64.and"@,
        WasmOp::I64Or => "i64.or"@,
        WasmOp::I64Xor => "i64.xor"@,
        WasmOp::I32Shl => "i32.shl"@,
        WasmOp::I32ShrU => "i32.shr_u"@,
        WasmOp::I32ShrS => "i32.shr_s"@,
        WasmOp::I64Shl => "i64.shl"@,
        WasmOp::I64ShrU => "i64.shr_u"@,
        WasmOp::I64ShrS => "i64.shr_s"@,
        WasmOp::I32Rotl => "i32.rotl"@,
        WasmOp::I32Rotr => "i32.rotr"@,
        WasmOp::I64Rotl => "i64.rotl"@,
        WasmOp::I64Rotr => "i64.rotr"@,
        WasmOp::I32Clz => "i32.clz"@,
        WasmOp::I32Ctz => "i32.ctz"@,
        WasmOp::I32Popcnt => "i32.popcnt"@,
        WasmOp::I64Clz => "i64.clz"@,
        WasmOp::I64Ctz => "i64.ctz"@,
        WasmOp::I64Popcnt => "i64.popcnt"@,
        WasmOp::I32Eqz => "i32.eqz"@,
        WasmOp::I32Eq => "i32.eq"@,
        WasmOp::I32Ne => "i32.ne"@,
        WasmOp::I32LtU => "i32.lt_u"@,
        WasmOp::I32LtS => "i32.lt_s"@,
        WasmOp::I32GtU => "i32.gt_u"@,
        WasmOp::I32GtS => "i32.gt_s"@,
        WasmOp::I32LeU => "i32.le_u"@,
        WasmOp::I32LeS => "i32.le_s"@,
        WasmOp::I32GeU => "i32.ge_u"@,
        WasmOp::I32GeS => "i32.ge_s"@,
        WasmOp::I64Eqz => "i64.eqz"@,
        WasmOp::I64Eq => "i64.eq"@,
        WasmOp::I64Ne => "i64.ne"@,
        WasmOp::I64LtU => "i64.lt_u"@,
        WasmOp::I64LtS => "i64.lt_s"@,
        WasmOp::I64GtU => "i64.gt_u"@,
        WasmOp::I64GtS => "i64.gt_s"@,
        WasmOp::I64LeU => "i64.le_u"@,
        WasmOp::I64LeS => "i64.le_s"@,
        WasmOp::I64GeU => "i64.ge_u"@,
        WasmOp::I64GeS => "i64.ge_s"@,
        WasmOp::Else => "else"@,
        WasmOp::End => "end"@,
        WasmOp::Return => "return"@,
        WasmOp::Drop => "drop"@,
        WasmOp::Select => "select"@,
        WasmOp::Unreachable => "unreachable"@,
        WasmOp::Nop => "nop"@,
        WasmOp::I32WrapI64 => "i32.wrap_i64"@,
        WasmOp::I64ExtendI32S => "i64.extend_i32_s"@,
        WasmOp::I64ExtendI32U => "i64.extend_i32_u"@,
        WasmOp::I32Extend8S => "i32.extend8_s"@,
        WasmOp::I32Extend16S => "i32.extend16_s"@,
        WasmOp::I64Extend8S => "i64.extend8_s"@,
        WasmOp::I64Extend16S => "i64.extend16_s"@,
        WasmOp::I64Extend32S => "i64.extend32_s"@,
        WasmOp::I32TruncSatF64U => "i32.trunc_sat_f64_u"@,
        WasmOp::I32TruncSatF64S => "i32.trunc_sat_f64_s"@,
        WasmOp::I32TruncSatF32U => "i32.trunc_sat_f32_u"@,
        WasmOp::I32TruncSatF32S => "i32.trunc_sat_f32_s"@,
        WasmOp::I64TruncSatF64U => "i64.trunc_sat_f64_u"@,
        WasmOp::I64TruncSatF64S => "i64.trunc_sat_f64_s"@,
        WasmOp::I64TruncSatF32U => "i64.trunc_sat_f32_u"@,
        WasmOp::I64TruncSatF32S => "i64.trunc_sat_f32_s"@,
        WasmOp::Other(text) => text@,
    }
}

/// A memory index in the text form: nothing for memory 0.
pub open spec fn memory_index_text(m: u32) -> Seq<char> {
    if m == 0 {
        Seq::empty()
    } else {
        " "@ + dec_digits(m as nat)
    }
}

/// A block type in the text form: nothing when empty, ` (result)` for one
/// value, ` (type i)` for function type `i`.
pub open spec fn block_type_text(bt: WasmBlockType) -> Seq<char> {
    match bt {
        WasmBlockType::Empty => Seq::empty(),
        WasmBlockType::Value => " (result)"@,
        WasmBlockType::Func(i) => " (type "@ + dec_digits(i as nat) + ")"@,
    }
}

/// Translation keeps the operator: the IR instruction of a supported
/// operator prints exactly as the operator's WebAssembly text (same name,
/// same immediates). A block or `if` with a function type yields a value
/// in the IR, as a one-value block does.
pub proof fn translation_keeps_operator(op: WasmOp)
    requires
        ir_of_op(op) is Some,
    ensures
        !(op matches WasmOp::Block(WasmBlockType::Func(_)) || op matches WasmOp::If(WasmBlockType::Func(_)))
            ==> ir_text(ir_of_op(op).unwrap()) == wasm_text(op),
        op matches WasmOp::Block(WasmBlockType::Func(i)) ==> ir_text(ir_of_op(op).unwrap()) == wasm_text(
            WasmOp::Block(WasmBlockType::Value),
        ),
        op matches WasmOp::If(WasmBlockType::Func(i)) ==> ir_text(ir_of_op(op).unwrap()) == wasm_text(
            WasmOp::If(WasmBlockType::Value),
        ),
{
    match op {
        WasmOp::MemorySize(m) => {
            assert("memory.size"@ + Seq::<char>::empty() =~= "memory.size"@);
        },
        WasmOp::MemoryGrow(m) => {
            assert("memory.grow"@ + Seq::<char>::empty() =~= "memory.grow"@);
        },
        WasmOp::MemoryFill(m) => {
            assert("memory.fill"@ + Seq::<char>::empty() =~= "memory.fill"@);
        },
        WasmOp::MemoryCopy(d, s) => {
            assert("memory.copy"@ + Seq::<char>::empty() =~= "memory.copy"@);
        },
        WasmOp::Block(bt) => {
            reveal_strlit("block");
            reveal_strlit(" (result)");
            reveal_strlit("block (result)");
            assert("block"@ + Seq::<char>::empty() =~= "block"@);
            assert("block"@ + " (result)"@ =~= "block (result)"@);
        },
        WasmOp::If(bt) => {
            reveal_strlit("if");
            reveal_strlit(" (result)");
            reveal_strlit("if (result)");
            assert("if"@ + Seq::<char>::empty() =~= "if"@);
            assert("if"@ + " (result)"@ =~= "if (result)"@);
        },
        _ => {},
    }
}

/// The description of an unsupported operator, as the operator's debug form
/// gives it (`MemorySize { mem: 1 }` for a memory operation on memory 1).
pub open spec fn op_description(op: WasmOp) -> Seq<char> {
    match op {
        WasmOp::MemorySize(m) => "MemorySize { mem: "@ + dec_digits(m as nat) + " }"@,
        WasmOp::MemoryGrow(m) => "MemoryGrow { mem: "@ + dec_digits(m as nat) + " }"@,
        WasmOp::MemoryFill(m) => "MemoryFill { mem: "@ + dec_digits(m as nat) + " }"@,
        WasmOp::MemoryCopy(d, s) => "MemoryCopy { dst_mem: "@ + dec_digits(d as nat) + ", src_mem: "@
            + dec_digits(s as nat) + " }"@,
        WasmOp::Other(text) => text@,
        _ => Seq::empty(),
    }
}

/// `"<name> { <field>: <n> }"`, the debug form of a memory operation.
fn memory_op_text(name: &str, field: &str, n: u32) -> (r: String)
    ensures
        r@ == name@ + " { "@ + field@ + ": "@ + dec_digits(n as nat) + " }"@,
{
    let mut s = String::from_str(name);
    s.append(" { ");
    s.append(field);
    s.append(": ");
    push_dec(&mut s, n as u64);
    s.append(" }");
    proof {
        reveal_strlit(" { ");
        reveal_strlit(": ");
        reveal_strlit(" }");
    }
    s
}

/// Map one operator to its IR instruction; an operator the IR does not
/// support is refused with its description.
pub fn translate_operator(op: WasmOp) -> (r: Result<IrInstruction>)
    ensures
        match ir_of_op(op) {
            Some(x) => r == Ok::<IrInstruction, Error>(x),
            None => r matches Err(Error::Unsupported(m)) && m@ == op_description(op),
        },
{
    match op {
        WasmOp::I32Const(v) => Ok(IrInstruction::I32Const(v)),
        WasmOp::I64Const(v) => Ok(IrInstruction::I64Const(v)),
        WasmOp::LocalGet(v) => Ok(IrInstruction::LocalGet(v)),
        WasmOp::LocalSet(v) => Ok(IrInstruction::LocalSet(v)),
        WasmOp::LocalTee(v) => Ok(IrInstruction::LocalTee(v)),
        WasmOp::GlobalGet(v) => Ok(IrInstruction::GlobalGet(v)),
        WasmOp::GlobalSet(v) => Ok(IrInstruction::GlobalSet(v)),
        WasmOp::Br(v) => Ok(IrInstruction::Br(v)),
        WasmOp::BrIf(v) => Ok(IrInstruction::BrIf(v)),
        WasmOp::Call(v) => Ok(IrInstruction::Call(v)),
        WasmOp::I32Load(offset) => Ok(IrInstruction::I32Load { offset }),
        WasmOp::I64Load(offset) => Ok(IrInstruction::I64Load { offset }),
        WasmOp::I32Load8U(offset) => Ok(IrInstruction::I32Load8U { offset }),
        WasmOp::I32Load8S(offset) => Ok(IrInstruction::I32Load8S { offset }),
        WasmOp::I32Load16U(offset) => Ok(IrInstruction::I32Load16U { offset }),
        WasmOp::I32Load16S(offset) => Ok(IrInstruction::I32Load16S { offset }),
        WasmOp::I64Load8U(offset) => Ok(IrInstruction::I64Load8U { offset }),
        WasmOp::I64Load8S(offset) => Ok(IrInstruction::I64Load8S { offset }),
        WasmOp::I64Load16U(offset) => Ok(IrInstruction::I64Load16U { offset }),
        WasmOp::I64Load16S(offset) => Ok(IrInstruction::I64Load16S { offset }),
        WasmOp::I64Load32U(offset) => Ok(IrInstruction::I64Load32U { offset }),
        WasmOp::I64Load32S(offset) => Ok(IrInstruction::I64Load32S { offset }),
        WasmOp::I32Store(offset) => Ok(IrInstruction::I32Store { offset }),
        WasmOp::I64Store(offset) => Ok(IrInstruction::I64Store { offset }),
        WasmOp::I32Store8(offset) => Ok(IrInstruction::I32Store8 { offset }),
        WasmOp::I32Store16(offset) => Ok(IrInstruction::I32Store16 { offset }),
        WasmOp::I64Store8(offset) => Ok(IrInstruction::I64Store8 { offset }),
        WasmOp::I64Store16(offset) => Ok(IrInstruction::I64Store16 { offset }),
        WasmOp::I64Store32(offset) => Ok(IrInstruction::I64Store32 { offset }),
        WasmOp::MemorySize(mem) => if mem == 0 {
            Ok(IrInstruction::MemorySize)
        } else {
            let t = memory_op_text("MemorySize", "mem", mem);
            proof {
                reveal_strlit("MemorySize");
                reveal_strlit("mem");
                reveal_strlit("MemorySize { mem: ");
                reveal_strlit(" { ");
                reveal_strlit(": ");
                assert(t@ =~= op_description(op));
            }
            Err(Error::Unsupported(t))
        },
        WasmOp::MemoryGrow(mem) => if mem == 0 {
            Ok(IrInstruction::MemoryGrow)
        } else {
            let t = memory_op_text("MemoryGrow", "mem", mem);
            proof {
                reveal_strlit("MemoryGrow");
                reveal_strlit("mem");
                reveal_strlit("MemoryGrow { mem: ");
                reveal_strlit(" { ");
                reveal_strlit(": ");
                assert(t@ =~= op_description(op));
            }
            Err(Error::Unsupported(t))
        },
        WasmOp::MemoryFill(mem) => if mem == 0 {
            Ok(IrInstruction::MemoryFill)
        } else {
            let t = memory_op_text("MemoryFill", "mem", mem);
            proof {
                reveal_strlit("MemoryFill");
                reveal_strlit("mem");
                reveal_strlit("MemoryFill { mem: ");
                reveal_strlit(" { ");
                reveal_strlit(": ");
                assert(t@ =~= op_description(op));
            }
            Err(Error::Unsupported(t))
        },
        WasmOp::MemoryCopy(d, s) => if d == 0 && s == 0 {
            Ok(IrInstruction::MemoryCopy)
        } else {
            let mut t = String::from_str("MemoryCopy { dst_mem: ");
            push_dec(&mut t, d as u64);
            t.append(", src_mem: ");
            push_dec(&mut t, s as u64);
            t.append(" }");
            proof {
                reveal_strlit("MemoryCopy { dst_mem: ");
                reveal_strlit(", src_mem: ");
                reveal_strlit(" }");
                assert(t@ =~= op_description(op));
            }
            Err(Error::Unsupported(t))
        },
        WasmOp::Block(bt) => Ok(IrInstruction::Block { has_result: !matches!(bt, WasmBlockType::Empty) }),
        WasmOp::Loop => Ok(IrInstruction::Loop),
        WasmOp::If(bt) => Ok(IrInstruction::If { has_result: !matches!(bt, WasmBlockType::Empty) }),
        WasmOp::BrTable(targets, default) => Ok(IrInstruction::BrTable { targets, default }),
        WasmOp::CallIndirect(t, tb) => Ok(IrInstruction::CallIndirect { type_idx: t, table_idx: tb }),
        WasmOp::I32Add => Ok(IrInstruction::I32Add),
        WasmOp::I32Sub => Ok(IrInstruction::I32Sub),
        WasmOp::I32Mul => Ok(IrInstruction::I32Mul),
        WasmOp::I32DivU => Ok(IrInstruction::I32DivU),
        WasmOp::I32DivS => Ok(IrInstruction::I32DivS),
        WasmOp::I32RemU => Ok(IrInstruction::I32RemU),
        WasmOp::I32RemS => Ok(IrInstruction::I32RemS),
        WasmOp::I64Add => Ok(IrInstruction::I64Add),
        WasmOp::I64Sub => Ok(IrInstruction::I64Sub),
        WasmOp::I64Mul => Ok(IrInstruction::I64Mul),
        WasmOp::I64DivU => Ok(IrInstruction::I64DivU),
        WasmOp::I64DivS => Ok(IrInstruction::I64DivS),
        WasmOp::I64RemU => Ok(IrInstruction::I64RemU),
        WasmOp::I64RemS => Ok(IrInstruction::I64RemS),
        WasmOp::I32And => Ok(IrInstruction::I32And),
        WasmOp::I32Or => Ok(IrInstruction::I32Or),
        WasmOp::I32Xor => Ok(IrInstruction::I32Xor),
        WasmOp::I64And => Ok(IrInstruction::I64And),
        WasmOp::I64Or => Ok(IrInstruction::I64Or),
        WasmOp::I64Xor => Ok(IrInstruction::I64Xor),
        WasmOp::I32Shl => Ok(IrInstruction::I32Shl),
        WasmOp::I32ShrU => Ok(IrInstruction::I32ShrU),
        WasmOp::I32ShrS => Ok(IrInstruction::I32ShrS),
        WasmOp::I64Shl => Ok(IrInstruction::I64Shl),
        WasmOp::I64ShrU => Ok(IrInstruction::I64ShrU),
        WasmOp::I64ShrS => Ok(IrInstruction::I64ShrS),
        WasmOp::I32Rotl => Ok(IrInstruction::I32Rotl),
        WasmOp::I32Rotr => Ok(IrInstruction::I32Rotr),
        WasmOp::I64Rotl => Ok(IrInstruction::I64Rotl),
        WasmOp::I64Rotr => Ok(IrInstruction::I64Rotr),
        WasmOp::I32Clz => Ok(IrInstruction::I32Clz),
        WasmOp::I32Ctz => Ok(IrInstruction::I32Ctz),
        WasmOp::I32Popcnt => Ok(IrInstruction::I32Popcnt),
        WasmOp::I64Clz => Ok(IrInstruction::I64Clz),
        WasmOp::I64Ctz => Ok(IrInstruction::I64Ctz),
        WasmOp::I64Popcnt => Ok(IrInstruction::I64Popcnt),
        WasmOp::I32Eqz => Ok(IrInstruction::I32Eqz),
        WasmOp::I32Eq => Ok(IrInstruction::I32Eq),
        WasmOp::I32Ne => Ok(IrInstruction::I32Ne),
        WasmOp::I32LtU => Ok(IrInstruction::I32LtU),
        WasmOp::I32LtS => Ok(IrInstruction::I32LtS),
        WasmOp::I32GtU => Ok(IrInstruction::I32GtU),
        WasmOp::I32GtS => Ok(IrInstruction::I32GtS),
        WasmOp::I32LeU => Ok(IrInstruction::I32LeU),
        WasmOp::I32LeS => Ok(IrInstruction::I32LeS),
        WasmOp::I32GeU => Ok(IrInstruction::I32GeU),
        WasmOp::I32GeS => Ok(IrInstruction::I32GeS),
        WasmOp::I64Eqz => Ok(IrInstruction::I64Eqz),
        WasmOp::I64Eq => Ok(IrInstruction::I64Eq),
        WasmOp::I64Ne => Ok(IrInstruction::I64Ne),
        WasmOp::I64LtU => Ok(IrInstruction::I64LtU),
        WasmOp::I64LtS => Ok(IrInstruction::I64LtS),
        WasmOp::I64GtU => Ok(IrInstruction::I64GtU),
        WasmOp::I64GtS => Ok(IrInstruction::I64GtS),
        WasmOp::I64LeU => Ok(IrInstruction::I64LeU),
        WasmOp::I64LeS => Ok(IrInstruction::I64LeS),
        WasmOp::I64GeU => Ok(IrInstruction::I64GeU),
        WasmOp::I64GeS => Ok(IrInstruction::I64GeS),
        WasmOp::Else => Ok(IrInstruction::Else),
        WasmOp::End => Ok(IrInstruction::End),
        WasmOp::Return => Ok(IrInstruction::Return),
        WasmOp::Drop => Ok(IrInstruction::Drop),
        WasmOp::Select => Ok(IrInstruction::Select),
        WasmOp::Unreachable => Ok(IrInstruction::Unreachable),
        WasmOp::Nop => Ok(IrInstruction::Nop),
        WasmOp::I32WrapI64 => Ok(IrInstruction::I32WrapI64),
        WasmOp::I64ExtendI32S => Ok(IrInstruction::I64ExtendI32S),
        WasmOp::I64ExtendI32U => Ok(IrInstruction::I64ExtendI32U),
        WasmOp::I32Extend8S => Ok(IrInstruction::I32Extend8S),
        WasmOp::I32Extend16S => Ok(IrInstruction::I32Extend16S),
        WasmOp::I64Extend8S => Ok(IrInstruction::I64Extend8S),
        WasmOp::I64Extend16S => Ok(IrInstruction::I64Extend16S),
        WasmOp::I64Extend32S => Ok(IrInstruction::I64Extend32S),
        WasmOp::I32TruncSatF64U => Ok(IrInstruction::I32TruncSatF64U),
        WasmOp::I32TruncSatF64S => Ok(IrInstruction::I32TruncSatF64S),
        WasmOp::I32TruncSatF32U => Ok(IrInstruction::I32TruncSatF32U),
        WasmOp::I32TruncSatF32S => Ok(IrInstruction::I32TruncSatF32S),
        WasmOp::I64TruncSatF64U => Ok(IrInstruction::I64TruncSatF64U),
        WasmOp::I64TruncSatF64S => Ok(IrInstruction::I64TruncSatF64S),
        WasmOp::I64TruncSatF32U => Ok(IrInstruction::I64TruncSatF32U),
        WasmOp::I64TruncSatF32S => Ok(IrInstruction::I64TruncSatF32S),
        WasmOp::Other(text) => Err(Error::Unsupported(text)),
    }
}

// ── Reading a body with wasmparser ──

/// `wasmparser::BinaryReaderError`, the error of reading a WebAssembly binary.
#[verifier::external_type_specification]
#[verifier::external_body]
pub struct ExBinaryReaderError(BinaryReaderError);

/// `wasmparser::Operator`, one operator of a function body.
#[verifier::external_type_specification]
#[verifier::external_body]
pub struct ExOperator<'a>(Operator<'a>);

/// The local counts that `wasmparser` reads from a function body's locals
/// declarations (`None` when it cannot read them).
pub uninterp spec fn body_locals(body: Seq<u8>) -> Option<Seq<u32>>;

/// The operators that `wasmparser` reads from a function body after its
/// locals, each converted to its `WasmOp` (`None` when the reader fails on
/// one of them, or on the targets of a `br_table`).
pub uninterp spec fn body_ops(body: Seq<u8>) -> Option<Seq<WasmOp>>;

/// The sum of the local counts.
pub open spec fn locals_total(counts: Seq<u32>) -> nat
    decreases counts.len(),
{
    if counts.len() == 0 {
        0
    } else {
        locals_total(counts.drop_last()) + counts.last() as nat
    }
}

/// The local counts of the body's declarations, through
/// `wasmparser::FunctionBody::get_locals_reader`. Its reader keeps the total
/// in a `u32` and fails when it would overflow, so the total fits in one.
#[verifier::external_body]
fn read_locals(body: &[u8]) -> (r: core::result::Result<Vec<u32>, BinaryReaderError>)
    ensures
        r is Ok <==> body_locals(body@) is Some,
        r matches Ok(v) ==> body_locals(body@) == Some(v@) && locals_total(v@) <= u32::MAX,
{
    let body = FunctionBody::new(BinaryReader::new(body, 0));
    body.get_locals_reader()?.into_iter().map(|l| l.map(|(count, _)| count)).collect()
}

/// The body's operators, read by `wasmparser::FunctionBody::get_operators_reader`
/// and converted one by one by `convert_operator`; the reader's first error
/// ends the reading.
#[verifier::external_body]
fn read_body_ops(body: &[u8]) -> (r: core::result::Result<Vec<WasmOp>, BinaryReaderError>)
    ensures
        r is Ok <==> body_ops(body@) is Some,
        r matches Ok(v) ==> body_ops(body@) == Some(v@),
{
    let body = FunctionBody::new(BinaryReader::new(body, 0));
    body.get_operators_reader()?.into_iter().map(|op| op.and_then(|o| convert_operator(&o))).collect()
}

/// The `WasmOp` of a `block` or `if` operator, with its block type variant
/// for variant (the value type of a one-value block is dropped); `None` for
/// another operator. Nothing is stated of the result: the operator is not a
/// plain value.
#[verifier::external_body]
fn wasm_op_block(op: &Operator) -> Option<WasmOp> {
    match op {
        Operator::Block { blockty } => Some(WasmOp::Block(match blockty {
            BlockType::Empty => WasmBlockType::Empty,
            BlockType::Type(_) => WasmBlockType::Value,
            BlockType::FuncType(i) => WasmBlockType::Func(*i),
        })),
        Operator::If { blockty } => Some(WasmOp::If(match blockty {
            BlockType::Empty => WasmBlockType::Empty,
            BlockType::Type(_) => WasmBlockType::Value,
            BlockType::FuncType(i) => WasmBlockType::Func(*i),
        })),
        _ => None,
    }
}

/// The message of a reader error (its `Display` form); nothing is stated of it.
#[verifier::external_body]
fn reader_error_text(e: &BinaryReaderError) -> String {
    e.to_string()
}

/// The debug form of an operator (`format!("{:?}")`); nothing is stated of it.
#[verifier::external_body]
fn operator_text(op: &Operator) -> String {
    format!("{op:?}")
}

/// The targets and default target of a `br_table` operator, through
/// `wasmparser::BrTable::targets` and `default`; `None` for another operator.
/// Nothing is stated of the result: the operator is not a plain value.
#[verifier::external_body]
fn wasm_op_br_table(op: &Operator) -> Option<core::result::Result<WasmOp, BinaryReaderError>> {
    match op {
        Operator::BrTable { targets } => match targets.targets().collect() {
            Ok(t) => Some(Ok(WasmOp::BrTable(t, targets.default()))),
            Err(e) => Some(Err(e)),
        },
        _ => None,
    }
}

/// The `WasmOp` of one group of `wasmparser::Operator` variants (operators with immediates),
/// moving each variant's fields over one for one; `None` for an operator
/// outside the group. Nothing is stated of the result: the operator is not
/// a plain value.
#[verifier::external_body]
fn wasm_op_group_1(op: &Operator) -> Option<WasmOp> {
    match op {
        Operator::I32Const { value } => Some(WasmOp::I32Const(*value)),
        Operator::I64Const { value } => Some(WasmOp::I64Const(*value)),
        Operator::LocalGet { local_index } => Some(WasmOp::LocalGet(*local_index)),
        Operator::LocalSet { local_index } => Some(WasmOp::LocalSet(*local_index)),
        Operator::LocalTee { local_index } => Some(WasmOp::LocalTee(*local_index)),
        Operator::GlobalGet { global_index } => Some(WasmOp::GlobalGet(*global_index)),
        Operator::GlobalSet { global_index } => Some(WasmOp::GlobalSet(*global_index)),
        Operator::Br { relative_depth } => Some(WasmOp::Br(*relative_depth)),
        _ => None,
    }
}

/// The `WasmOp` of one group of `wasmparser::Operator` variants (operators with immediates),
/// moving each variant's fields over one for one; `None` for an operator
/// outside the group. Nothing is stated of the result: the operator is not
/// a plain value.
#[verifier::external_body]
fn wasm_op_group_2(op: &Operator) -> Option<WasmOp> {
    match op {
        Operator::BrIf { relative_depth } => Some(WasmOp::BrIf(*relative_depth)),
        Operator::Call { function_index } => Some(WasmOp::Call(*function_index)),
        Operator::I32Load { memarg } => Some(WasmOp::I32Load(memarg.offset)),
        Operator::I64Load { memarg } => Some(WasmOp::I64Load(memarg.offset)),
        Operator::I32Load8U { memarg } => Some(WasmOp::I32Load8U(memarg.offset)),
        Operator::I32Load8S { memarg } => Some(WasmOp::I32Load8S(memarg.offset)),
        Operator::I32Load16U { memarg } => Some(WasmOp::I32Load16U(memarg.offset)),
        Operator::I32Load16S { memarg } => Some(WasmOp::I32Load16S(memarg.offset)),
        _ => None,
    }
}

/// The `WasmOp` of one group of `wasmparser::Operator` variants (operators with immediates),
/// moving each variant's fields over one for one; `None` for an operator
/// outside the group. Nothing is stated of the result: the operator is not
/// a plain value.
#[verifier::external_body]
fn wasm_op_group_3(op: &Operator) -> Option<WasmOp> {
    match op {
        Operator::I64Load8U { memarg } => Some(WasmOp::I64Load8U(memarg.offset)),
        Operator::I64Load8S { memarg } => Some(WasmOp::I64Load8S(memarg.offset)),
        Operator::I64Load16U { memarg } => Some(WasmOp::I64Load16U(memarg.offset)),
        Operator::I64Load16S { memarg } => Some(WasmOp::I64Load16S(memarg.offset)),
        Operator::I64Load32U { memarg } => Some(WasmOp::I64Load32U(memarg.offset)),
        Operator::I64Load32S { memarg } => Some(WasmOp::I64Load32S(memarg.offset)),
        Operator::I32Store { memarg } => Some(WasmOp::I32Store(memarg.offset)),
        Operator::I64Store { memarg } => Some(WasmOp::I64Store(memarg.offset)),
        _ => None,
    }
}

/// The `WasmOp` of one group of `wasmparser::Operator` variants (operators with immediates),
/// moving each variant's fields over one for one; `None` for an operator
/// outside the group. Nothing is stated of the result: the operator is not
/// a plain value.
#[verifier::external_body]
fn wasm_op_group_4(op: &Operator) -> Option<WasmOp> {
    match op {
        Operator::I32Store8 { memarg } => Some(WasmOp::I32Store8(memarg.offset)),
        Operator::I32Store16 { memarg } => Some(WasmOp::I32Store16(memarg.offset)),
        Operator::I64Store8 { memarg } => Some(WasmOp::I64Store8(memarg.offset)),
        Operator::I64Store16 { memarg } => Some(WasmOp::I64Store16(memarg.offset)),
        Operator::I64Store32 { memarg } => Some(WasmOp::I64Store32(memarg.offset)),
        Operator::MemorySize { mem } => Some(WasmOp::MemorySize(*mem)),
        Operator::MemoryGrow { mem } => Some(WasmOp::MemoryGrow(*mem)),
        Operator::MemoryFill { mem } => Some(WasmOp::MemoryFill(*mem)),
        _ => None,
    }
}

/// The `WasmOp` of one group of `wasmparser::Operator` variants (operators with immediates),
/// moving each variant's fields over one for one; `None` for an operator
/// outside the group. Nothing is stated of the result: the operator is not
/// a plain value.
#[verifier::external_body]
fn wasm_op_group_5(op: &Operator) -> Option<WasmOp> {
    match op {
        Operator::MemoryCopy { dst_mem, src_mem } => Some(WasmOp::MemoryCopy(*dst_mem, *src_mem)),
        Operator::Loop { .. } => Some(WasmOp::Loop),
        Operator::CallIndirect { type_index, table_index } => {
            Some(WasmOp::CallIndirect(*type_index, *table_index))
        },
        _ => None,
    }
}

/// The `WasmOp` of one group of `wasmparser::Operator` variants (operators without immediates),
/// moving each variant's fields over one for one; `None` for an operator
/// outside the group. Nothing is stated of the result: the operator is not
/// a plain value.
#[verifier::external_body]
fn wasm_op_group_6(op: &Operator) -> Option<WasmOp> {
    match op {
        Operator::I32Add => Some(WasmOp::I32Add),
        Operator::I32Sub => Some(WasmOp::I32Sub),
        Operator::I32Mul => Some(WasmOp::I32Mul),
        Operator::I32DivU => Some(WasmOp::I32DivU),
        Operator::I32DivS => Some(WasmOp::I32DivS),
        Operator::I32RemU => Some(WasmOp::I32RemU),
        Operator::I32RemS => Some(WasmOp::I32RemS),
        Operator::I64Add => Some(WasmOp::I64Add),
        Operator::I64Sub => Some(WasmOp::I64Sub),
        Operator::I64Mul => Some(WasmOp::I64Mul),
        Operator::I64DivU => Some(WasmOp::I64DivU),
        Operator::I64DivS => Some(WasmOp::I64DivS),
        _ => None,
    }
}

/// The `WasmOp` of one group of `wasmparser::Operator` variants (operators without immediates),
/// moving each variant's fields over one for one; `None` for an operator
/// outside the group. Nothing is stated of the result: the operator is not
/// a plain value.
#[verifier::external_body]
fn wasm_op_group_7(op: &Operator) -> Option<WasmOp> {
    match op {
        Operator::I64RemU => Some(WasmOp::I64RemU),
        Operator::I64RemS => Some(WasmOp::I64RemS),
        Operator::I32And => Some(WasmOp::I32And),
        Operator::I32Or => Some(WasmOp::I32Or),
        Operator::I32Xor => Some(WasmOp::I32Xor),
        Operator::I64And => Some(WasmOp::I64And),
        Operator::I64Or => Some(WasmOp::I64Or),
        Operator::I64Xor => Some(WasmOp::I64Xor),
        Operator::I32Shl => Some(WasmOp::I32Shl),
        Operator::I32ShrU => Some(WasmOp::I32ShrU),
        Operator::I32ShrS => Some(WasmOp::I32ShrS),
        Operator::I64Shl => Some(WasmOp::I64Shl),
        _ => None,
    }
}

/// The `WasmOp` of one group of `wasmparser::Operator` variants (operators without immediates),
/// moving each variant's fields over one for one; `None` for an operator
/// outside the group. Nothing is stated of the result: the operator is not
/// a plain value.
#[verifier::external_body]
fn wasm_op_group_8(op: &Operator) -> Option<WasmOp> {
    match op {
        Operator::I64ShrU => Some(WasmOp::I64ShrU),
        Operator::I64ShrS => Some(WasmOp::I64ShrS),
        Operator::I32Rotl => Some(WasmOp::I32Rotl),
        Operator::I32Rotr => Some(WasmOp::I32Rotr),
        Operator::I64Rotl => Some(WasmOp::I64Rotl),
        Operator::I64Rotr => Some(WasmOp::I64Rotr),
        Operator::I32Clz => Some(WasmOp::I32Clz),
        Operator::I32Ctz => Some(WasmOp::I32Ctz),
        Operator::I32Popcnt => Some(WasmOp::I32Popcnt),
        Operator::I64Clz => Some(WasmOp::I64Clz),
        Operator::I64Ctz => Some(WasmOp::I64Ctz),
        Operator::I64Popcnt => Some(WasmOp::I64Popcnt),
        _ => None,
    }
}

/// The `WasmOp` of one group of `wasmparser::Operator` variants (operators without immediates),
/// moving each variant's fields over one for one; `None` for an operator
/// outside the group. Nothing is stated of the result: the operator is not
/// a plain value.
#[verifier::external_body]
fn wasm_op_group_9(op: &Operator) -> Option<WasmOp> {
    match op {
        Operator::I32Eqz => Some(WasmOp::I32Eqz),
        Operator::I32Eq => Some(WasmOp::I32Eq),
        Operator::I32Ne => Some(WasmOp::I32Ne),
        Operator::I32LtU => Some(WasmOp::I32LtU),
        Operator::I32LtS => Some(WasmOp::I32LtS),
        Operator::I32GtU => Some(WasmOp::I32GtU),
        Operator::I32GtS => Some(WasmOp::I32GtS),
        Operator::I32LeU => Some(WasmOp::I32LeU),
        Operator::I32LeS => Some(WasmOp::I32LeS),
        Operator::I32GeU => Some(WasmOp::I32GeU),
        Operator::I32GeS => Some(WasmOp::I32GeS),
        Operator::I64Eqz => Some(WasmOp::I64Eqz),
        _ => None,
    }
}

/// The `WasmOp` of one group of `wasmparser::Operator` variants (operators without immediates),
/// moving each variant's fields over one for one; `None` for an operator
/// outside the group. Nothing is stated of the result: the operator is not
/// a plain value.
#[verifier::external_body]
fn wasm_op_group_10(op: &Operator) -> Option<WasmOp> {
    match op {
        Operator::I64Eq => Some(WasmOp::I64Eq),
        Operator::I64Ne => Some(WasmOp::I64Ne),
        Operator::I64LtU => Some(WasmOp::I64LtU),
        Operator::I64LtS => Some(WasmOp::I64LtS),
        Operator::I64GtU => Some(WasmOp::I64GtU),
        Operator::I64GtS => Some(WasmOp::I64GtS),
        Operator::I64LeU => Some(WasmOp::I64LeU),
        Operator::I64LeS => Some(WasmOp::I64LeS),
        Operator::I64GeU => Some(WasmOp::I64GeU),
        Operator::I64GeS => Some(WasmOp::I64GeS),
        Operator::Else => Some(WasmOp::Else),
        Operator::End => Some(WasmOp::End),
        _ => None,
    }
}

/// The `WasmOp` of one group of `wasmparser::Operator` variants (operators without immediates),
/// moving each variant's fields over one for one; `None` for an operator
/// outside the group. Nothing is stated of the result: the operator is not
/// a plain value.
#[verifier::external_body]
fn wasm_op_group_11(op: &Operator) -> Option<WasmOp> {
    match op {
        Operator::Return => Some(WasmOp::Return),
        Operator::Drop => Some(WasmOp::Drop),
        Operator::Select => Some(WasmOp::Select),
        Operator::Unreachable => Some(WasmOp::Unreachable),
        Operator::Nop => Some(WasmOp::Nop),
        Operator::I32WrapI64 => Some(WasmOp::I32WrapI64),
        Operator::I64ExtendI32S => Some(WasmOp::I64ExtendI32S),
        Operator::I64ExtendI32U => Some(WasmOp::I64ExtendI32U),
        Operator::I32Extend8S => Some(WasmOp::I32Extend8S),
        Operator::I32Extend16S => Some(WasmOp::I32Extend16S),
        Operator::I64Extend8S => Some(WasmOp::I64Extend8S),
        Operator::I64Extend16S => Some(WasmOp::I64Extend16S),
        _ => None,
    }
}

/// The `WasmOp` of one group of `wasmparser::Operator` variants (operators without immediates),
/// moving each variant's fields over one for one; `None` for an operator
/// outside the group. Nothing is stated of the result: the operator is not
/// a plain value.
#[verifier::external_body]
fn wasm_op_group_12(op: &Operator) -> Option<WasmOp> {
    match op {
        Operator::I64Extend32S => Some(WasmOp::I64Extend32S),
        Operator::I32TruncSatF64U => Some(WasmOp::I32TruncSatF64U),
        Operator::I32TruncSatF64S => Some(WasmOp::I32TruncSatF64S),
        Operator::I32TruncSatF32U => Some(WasmOp::I32TruncSatF32U),
        Operator::I32TruncSatF32S => Some(WasmOp::I32TruncSatF32S),
        Operator::I64TruncSatF64U => Some(WasmOp::I64TruncSatF64U),
        Operator::I64TruncSatF64S => Some(WasmOp::I64TruncSatF64S),
        Operator::I64TruncSatF32U => Some(WasmOp::I64TruncSatF32U),
        Operator::I64TruncSatF32S => Some(WasmOp::I64TruncSatF32S),
        _ => None,
    }
}

/// The `WasmOp` of an operator: the mapped operators with their immediates,
/// any other with its debug form.
fn convert_operator(op: &Operator) -> core::result::Result<WasmOp, BinaryReaderError> {
    if let Some(w) = wasm_op_group_1(op) {
        return Ok(w);
    }
    if let Some(w) = wasm_op_group_2(op) {
        return Ok(w);
    }
    if let Some(w) = wasm_op_group_3(op) {
        return Ok(w);
    }
    if let Some(w) = wasm_op_group_4(op) {
        return Ok(w);
    }
    if let Some(w) = wasm_op_group_5(op) {
        return Ok(w);
    }
    if let Some(w) = wasm_op_group_6(op) {
        return Ok(w);
    }
    if let Some(w) = wasm_op_group_7(op) {
        return Ok(w);
    }
    if let Some(w) = wasm_op_group_8(op) {
        return Ok(w);
    }
    if let Some(w) = wasm_op_group_9(op) {
        return Ok(w);
    }
    if let Some(w) = wasm_op_group_10(op) {
        return Ok(w);
    }
    if let Some(w) = wasm_op_group_11(op) {
        return Ok(w);
    }
    if let Some(w) = wasm_op_group_12(op) {
        return Ok(w);
    }
    if let Some(w) = wasm_op_block(op) {
        return Ok(w);
    }
    if let Some(w) = wasm_op_br_table(op) {
        return w;
    }
    Ok(WasmOp::Other(operator_text(op)))
}

/// The IR of a body with local counts `locals` and operators `ops`: the total
/// number of locals and the IR instruction of each operator in order, when
/// every operator is supported.
pub open spec fn ir_of(locals: Seq<u32>, ops: Seq<WasmOp>) -> Option<(nat, Seq<IrInstruction>)> {
    if forall|k: int| 0 <= k < ops.len() ==> (#[trigger] ir_of_op(ops[k])) is Some {
        Some((locals_total(locals), Seq::new(ops.len(), |k: int| ir_of_op(ops[k]).unwrap())))
    } else {
        None
    }
}

/// The position of the first unsupported operator at or after `k`.
pub open spec fn first_unsupported(ops: Seq<WasmOp>, k: int) -> int
    decreases ops.len() - k,
{
    if 0 <= k < ops.len() && ir_of_op(ops[k]) is Some {
        first_unsupported(ops, k + 1)
    } else {
        k
    }
}

proof fn lemma_first_unsupported(ops: Seq<WasmOp>, k: int)
    requires
        0 <= k <= ops.len(),
    ensures
        k <= first_unsupported(ops, k) <= ops.len(),
        forall|j: int| k <= j < first_unsupported(ops, k) ==> (#[trigger] ir_of_op(ops[j])) is Some,
        first_unsupported(ops, k) < ops.len() ==> ir_of_op(ops[first_unsupported(ops, k)]) is None,
    decreases ops.len() - k,
{
    if k < ops.len() && ir_of_op(ops[k]) is Some {
        lemma_first_unsupported(ops, k + 1);
    }
}

/// Translate a body's operators to IR: the total number of locals, and each
/// operator's IR instruction in order; the first unsupported operator is
/// refused with its description.
pub fn translate_ops(locals: &[u32], ops: Vec<WasmOp>) -> (r: Result<(usize, Vec<IrInstruction>)>)
    requires
        locals_total(locals@) <= usize::MAX,
    ensures
        match ir_of(locals@, ops@) {
            Some(res) => r matches Ok((n, ir)) && n == res.0 && ir@ == res.1,
            None => r matches Err(Error::Unsupported(m)) && m@ == op_description(
                ops@[first_unsupported(ops@, 0)],
            ),
        },
{
    let ghost all = ops@;
    let op_count = ops.len();
    let mut total: usize = 0;
    let mut i: usize = 0;
    while i < locals.len()
        invariant
            i <= locals@.len(),
            locals_total(locals@) <= usize::MAX,
            total == locals_total(locals@.take(i as int)),
            ops@ == all,
        decreases locals@.len() - i,
    {
        proof {
            assert(locals@.take(i + 1).drop_last() =~= locals@.take(i as int));
            lemma_locals_total_prefix(locals@, i + 1);
        }
        total = total + locals[i] as usize;
        i += 1;
    }
    assert(locals@.take(locals@.len() as int) =~= locals@);
    // Take the operators out in order.
    let mut rest = ops;
    let mut reversed: Vec<WasmOp> = Vec::new();
    while rest.len() > 0
        invariant
            rest@.len() + reversed@.len() == all.len(),
            ops@ == all,
            rest@ == all.take(rest@.len() as int),
            forall|j: int| 0 <= j < reversed@.len() ==> reversed@[j] == all[all.len() - 1 - j],
        decreases rest@.len(),
    {
        let x = rest.pop().unwrap();
        reversed.push(x);
    }
    proof {
        lemma_first_unsupported(all, 0);
    }
    assert(all.len() == op_count);
    let mut ir: Vec<IrInstruction> = Vec::new();
    let mut k: usize = 0;
    while reversed.len() > 0
        invariant
            reversed@.len() + k == all.len(),
            ops@ == all,
            all.len() <= usize::MAX,
            total == locals_total(locals@),
            forall|j: int| 0 <= j < reversed@.len() ==> reversed@[j] == all[all.len() - 1 - j],
            k <= first_unsupported(all, 0),
            first_unsupported(all, 0) <= all.len(),
            forall|j: int| 0 <= j < first_unsupported(all, 0) ==> (#[trigger] ir_of_op(all[j])) is Some,
            first_unsupported(all, 0) < all.len() ==> ir_of_op(all[first_unsupported(all, 0)]) is None,
            ir@.len() == k,
            forall|j: int| 0 <= j < k ==> ir@[j] == ir_of_op(all[j]).unwrap(),
        decreases reversed@.len(),
    {
        let x = reversed.pop().unwrap();
        assert(x == all[k as int]);
        let t = translate_operator(x);
        match t {
            Ok(instr) => {
                ir.push(instr);
            },
            Err(e) => {
                proof {
                    assert(ir_of_op(x) is None);
                    assert(first_unsupported(all, 0) == k) by {
                        if k < first_unsupported(all, 0) {
                            assert(ir_of_op(all[k as int]) is Some);
                        }
                    }
                    assert(ir_of_op(all[k as int]) is None);
                    assert(ir_of(locals@, all) is None);
                    assert(t matches Err(Error::Unsupported(m)) && m@ == op_description(x));
                    assert(e matches Error::Unsupported(m) && m@ == op_description(all[first_unsupported(all, 0)]));
                    assert(ops@ == all);
                }
                return Err(e);
            },
        }
        k += 1;
    }
    proof {
        assert(first_unsupported(all, 0) == all.len());
        assert(ir@ =~= Seq::new(all.len(), |j: int| ir_of_op(all[j]).unwrap()));
        assert(ir_of(locals@, all) is Some);
    }
    Ok((total, ir))
}

proof fn lemma_locals_total_prefix(s: Seq<u32>, i: int)
    requires
        0 <= i <= s.len(),
    ensures
        locals_total(s.take(i)) <= locals_total(s),
    decreases s.len() - i,
{
    if i < s.len() {
        lemma_locals_total_prefix(s, i + 1);
        assert(s.take(i + 1).drop_last() =~= s.take(i));
    } else {
        assert(s.take(i) =~= s);
    }
}

/// Build the IR of one function body: read its locals and operators with
/// `wasmparser`, then translate them (see `translate_ops`). A body
/// `wasmparser` cannot read is refused with its reader's message.
pub fn build_ir(body: &[u8]) -> (r: Result<(usize, Vec<IrInstruction>)>)
    ensures
        match (body_locals(body@), body_ops(body@)) {
            (Some(l), Some(o)) => match ir_of(l, o) {
                Some(res) => r matches Ok((n, ir)) && n == res.0 && ir@ == res.1,
                None => r matches Err(Error::Unsupported(m)) && m@ == op_description(
                    o[first_unsupported(o, 0)],
                ),
            },
            _ => r matches Err(Error::WasmParse(_)),
        },
{
    let locals = match read_locals(body) {
        Ok(v) => v,
        Err(e) => return Err(Error::WasmParse(reader_error_text(&e))),
    };
    let ops = match read_body_ops(body) {
        Ok(v) => v,
        Err(e) => return Err(Error::WasmParse(reader_error_text(&e))),
    };
    translate_ops(locals.as_slice(), ops)
}

} // verus!
