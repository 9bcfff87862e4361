//! The IR instruction set: one variant per WebAssembly operator the compiler
//! supports, decoupled from the parser's own types.
use crate::text::{dec_digits, push_dec, push_signed_dec, signed_dec};
use vstd::prelude::*;
use vstd::string::*;

verus! {


#[derive(Debug, Clone, PartialEq)]
pub enum IrInstruction {
    // === Constants ===
    I32Const(i32),
    I64Const(i64),

    // === Locals / Globals ===
    LocalGet(u32),
    LocalSet(u32),
    LocalTee(u32),
    GlobalGet(u32),
    GlobalSet(u32),

    // === Arithmetic i32 ===
    I32Add,
    I32Sub,
    I32Mul,
    I32DivU,
    I32DivS,
    I32RemU,
    I32RemS,

    // === Arithmetic i64 ===
    I64Add,
    I64Sub,
    I64Mul,
    I64DivU,
    I64DivS,
    I64RemU,
    I64RemS,

    // === Bitwise ===
    I32And,
    I32Or,
    I32Xor,
    I64And,
    I64Or,
    I64Xor,

    // === Shifts ===
    I32Shl,
    I32ShrU,
    I32ShrS,
    I64Shl,
    I64ShrU,
    I64ShrS,

    // === Rotations ===
    I32Rotl,
    I32Rotr,
    I64Rotl,
    I64Rotr,

    // === Bit counting ===
    I32Clz,
    I32Ctz,
    I32Popcnt,
    I64Clz,
    I64Ctz,
    I64Popcnt,

    // === Comparisons ===
    I32Eqz,
    I32Eq,
    I32Ne,
    I32LtU,
    I32LtS,
    I32GtU,
    I32GtS,
    I32LeU,
    I32LeS,
    I32GeU,
    I32GeS,
    I64Eqz,
    I64Eq,
    I64Ne,
    I64LtU,
    I64LtS,
    I64GtU,
    I64GtS,
    I64LeU,
    I64LeS,
    I64GeU,
    I64GeS,

    // === Memory loads ===
    I32Load { offset: u64 },
    I64Load { offset: u64 },
    I32Load8U { offset: u64 },
    I32Load8S { offset: u64 },
    I32Load16U { offset: u64 },
    I32Load16S { offset: u64 },
    I64Load8U { offset: u64 },
    I64Load8S { offset: u64 },
    I64Load16U { offset: u64 },
    I64Load16S { offset: u64 },
    I64Load32U { offset: u64 },
    I64Load32S { offset: u64 },

    // === Memory stores ===
    I32Store { offset: u64 },
    I64Store { offset: u64 },
    I32Store8 { offset: u64 },
    I32Store16 { offset: u64 },
    I64Store8 { offset: u64 },
    I64Store16 { offset: u64 },
    I64Store32 { offset: u64 },

    // === Memory management ===
    MemorySize,
    MemoryGrow,
    MemoryFill,
    MemoryCopy,

    // === Control flow ===
    Block { has_result: bool },
    Loop,
    If { has_result: bool },
    Else,
    End,
    Br(u32),
    BrIf(u32),
    BrTable { targets: Vec<u32>, default: u32 },
    Return,

    // === Calls ===
    Call(u32),
    CallIndirect { type_idx: u32, table_idx: u32 },

    // === Stack manipulation ===
    Drop,
    Select,

    // === Misc ===
    Unreachable,
    Nop,

    // === Conversions ===
    I32WrapI64,
    I64ExtendI32S,
    I64ExtendI32U,
    I32Extend8S,
    I32Extend16S,
    I64Extend8S,
    I64Extend16S,
    I64Extend32S,

    // === Float truncation stubs ===
    I32TruncSatF64U,
    I32TruncSatF64S,
    I32TruncSatF32U,
    I32TruncSatF32S,
    I64TruncSatF64U,
    I64TruncSatF64S,
    I64TruncSatF32U,
    I64TruncSatF32S,
}


/// The branch targets of a `br_table`, each after a space.
pub open spec fn targets_text(targets: Seq<u32>) -> Seq<char>
    decreases targets.len(),
{
    if targets.len() == 0 {
        Seq::empty()
    } else {
        targets_text(targets.drop_last()) + " "@ + dec_digits(targets.last() as nat)
    }
}

/// The text form of an instruction, in WebAssembly text syntax.
pub open spec fn ir_text(instr: IrInstruction) -> Seq<char> {
    match instr {

        IrInstruction::I32Const(v) => "i32.const "@ + signed_dec(v as int),
        IrInstruction::I64Const(v) => "i64.const "@ + signed_dec(v as int),
        IrInstruction::LocalGet(v) => "local.get "@ + dec_digits(v as nat),
        IrInstruction::LocalSet(v) => "local.set "@ + dec_digits(v as nat),
        IrInstruction::LocalTee(v) => "local.tee "@ + dec_digits(v as nat),
        IrInstruction::GlobalGet(v) => "global.get "@ + dec_digits(v as nat),
        IrInstruction::GlobalSet(v) => "global.set "@ + dec_digits(v as nat),
        IrInstruction::I32Add => "i32.add"@,
        IrInstruction::I32Sub => "i32.sub"@,
        IrInstruction::I32Mul => "i32.mul"@,
        IrInstruction::I32DivU => "i32.div_u"@,
        IrInstruction::I32DivS => "i32.div_s"@,
        IrInstruction::I32RemU => "i32.rem_u"@,
        IrInstruction::I32RemS => "i32.rem_s"@,
        IrInstruction::I64Add => "i64.add"@,
        IrInstruction::I64Sub => "i64.sub"@,
        IrInstruction::I64Mul => "i64.mul"@,
        IrInstruction::I64DivU => "i64.div_u"@,
        IrInstruction::I64DivS => "i64.div_s"@,
        IrInstruction::I64RemU => "i64.rem_u"@,
        IrInstruction::I64RemS => "i64.rem_s"@,
        IrInstruction::I32And => "i32.and"@,
        IrInstruction::I32Or => "i32.or"@,
        IrInstruction::I32Xor => "i32.xor"@,
        IrInstruction::I64And => "i64.and"@,
        IrInstruction::I64Or => "i64.or"@,
        IrInstruction::I64Xor => "i64.xor"@,
        IrInstruction::I32Shl => "i32.shl"@,
        IrInstruction::I32ShrU => "i32.shr_u"@,
        IrInstruction::I32ShrS => "i32.shr_s"@,
        IrInstruction::I64Shl => "i64.shl"@,
        IrInstruction::I64ShrU => "i64.shr_u"@,
        IrInstruction::I64ShrS => "i64.shr_s"@,
        IrInstruction::I32Rotl => "i32.rotl"@,
        IrInstruction::I32Rotr => "i32.rotr"@,
        IrInstruction::I64Rotl => "i64.rotl"@,
        IrInstruction::I64Rotr => "i64.rotr"@,
        IrInstruction::I32Clz => "i32.clz"@,
        IrInstruction::I32Ctz => "i32.ctz"@,
        IrInstruction::I32Popcnt => "i32.popcnt"@,
        IrInstruction::I64Clz => "i64.clz"@,
        IrInstruction::I64Ctz => "i64.ctz"@,
        IrInstruction::I64Popcnt => "i64.popcnt"@,
        IrInstruction::I32Eqz => "i32.eqz"@,
        IrInstruction::I32Eq => "i32.eq"@,
        IrInstruction::I32Ne => "i32.ne"@,
        IrInstruction::I32LtU => "i32.lt_u"@,
        IrInstruction::I32LtS => "i32.lt_s"@,
        IrInstruction::I32GtU => "i32.gt_u"@,
        IrInstruction::I32GtS => "i32.gt_s"@,
        IrInstruction::I32LeU => "i32.le_u"@,
        IrInstruction::I32LeS => "i32.le_s"@,
        IrInstruction::I32GeU => "i32.ge_u"@,
        IrInstruction::I32GeS => "i32.ge_s"@,
        IrInstruction::I64Eqz => "i64.eqz"@,
        IrInstruction::I64Eq => "i64.eq"@,
        IrInstruction::I64Ne => "i64.ne"@,
        IrInstruction::I64LtU => "i64.lt_u"@,
        IrInstruction::I64LtS => "i64.lt_s"@,
        IrInstruction::I64GtU => "i64.gt_u"@,
        IrInstruction::I64GtS => "i64.gt_s"@,
        IrInstruction::I64LeU => "i64.le_u"@,
        IrInstruction::I64LeS => "i64.le_s"@,
        IrInstruction::I64GeU => "i64.ge_u"@,
        IrInstruction::I64GeS => "i64.ge_s"@,
        IrInstruction::I32Load { offset } => "i32.load offset="@ + dec_digits(offset as nat),
        IrInstruction::I64Load { offset } => "i64.load offset="@ + dec_digits(offset as nat),
        IrInstruction::I32Load8U { offset } => "i32.load8_u offset="@ + dec_digits(offset as nat),
        IrInstruction::I32Load8S { offset } => "i32.load8_s offset="@ + dec_digits(offset as nat),
        IrInstruction::I32Load16U { offset } => "i32.load16_u offset="@ + dec_digits(offset as nat),
        IrInstruction::I32Load16S { offset } => "i32.load16_s offset="@ + dec_digits(offset as nat),
        IrInstruction::I64Load8U { offset } => "i64.load8_u offset="@ + dec_digits(offset as nat),
        IrInstruction::I64Load8S { offset } => "i64.load8_s offset="@ + dec_digits(offset as nat),
        IrInstruction::I64Load16U { offset } => "i64.load16_u offset="@ + dec_digits(offset as nat),
        IrInstruction::I64Load16S { offset } => "i64.load16_s offset="@ + dec_digits(offset as nat),
        IrInstruction::I64Load32U { offset } => "i64.load32_u offset="@ + dec_digits(offset as nat),
        IrInstruction::I64Load32S { offset } => "i64.load32_s offset="@ + dec_digits(offset as nat),
        IrInstruction::I32Store { offset } => "i32.store offset="@ + dec_digits(offset as nat),
        IrInstruction::I64Store { offset } => "i64.store offset="@ + dec_digits(offset as nat),
        IrInstruction::I32Store8 { offset } => "i32.store8 offset="@ + dec_digits(offset as nat),
        IrInstruction::I32Store16 { offset } => "i32.store16 offset="@ + dec_digits(offset as nat),
        IrInstruction::I64Store8 { offset } => "i64.store8 offset="@ + dec_digits(offset as nat),
        IrInstruction::I64Store16 { offset } => "i64.store16 offset="@ + dec_digits(offset as nat),
        IrInstruction::I64Store32 { offset } => "i64.store32 offset="@ + dec_digits(offset as nat),
        IrInstruction::MemorySize => "memory.size"@,
        IrInstruction::MemoryGrow => "memory.grow"@,
        IrInstruction::MemoryFill => "memory.fill"@,
        IrInstruction::MemoryCopy => "memory.copy"@,
        IrInstruction::Block { has_result } => if has_result {
            "block (result)"@
        } else {
            "block"@
        },
        IrInstruction::Loop => "loop"@,
        IrInstruction::If { has_result } => if has_result {
            "if (result)"@
        } else {
            "if"@
        },
        IrInstruction::Else => "else"@,
        IrInstruction::End => "end"@,
        IrInstruction::Br(v) => "br "@ + dec_digits(v as nat),
        IrInstruction::BrIf(v) => "br_if "@ + dec_digits(v as nat),
        IrInstruction::BrTable { targets, default } => "br_table"@ + targets_text(targets@) + " "@
            + dec_digits(default as nat),
        IrInstruction::Return => "return"@,
        IrInstruction::Call(v) => "call "@ + dec_digits(v as nat),
        IrInstruction::CallIndirect { type_idx, table_idx } => "call_indirect (type "@ + dec_digits(
            type_idx as nat,
        ) + ") (table "@ + dec_digits(table_idx as nat) + ")"@,
        IrInstruction::Drop => "drop"@,
        IrInstruction::Select => "select"@,
        IrInstruction::Unreachable => "unreachable"@,
        IrInstruction::Nop => "nop"@,
        IrInstruction::I32WrapI64 => "i32.wrap_i64"@,
        IrInstruction::I64ExtendI32S => "i64.extend_i32_s"@,
        IrInstruction::I64ExtendI32U => "i64.extend_i32_u"@,
        IrInstruction::I32Extend8S => "i32.extend8_s"@,
        IrInstruction::I32Extend16S => "i32.extend16_s"@,
        IrInstruction::I64Extend8S => "i64.extend8_s"@,
        IrInstruction::I64Extend16S => "i64.extend16_s"@,
        IrInstruction::I64Extend32S => "i64.extend32_s"@,
        IrInstruction::I32TruncSatF64U => "i32.trunc_sat_f64_u"@,
        IrInstruction::I32TruncSatF64S => "i32.trunc_sat_f64_s"@,
        IrInstruction::I32TruncSatF32U => "i32.trunc_sat_f32_u"@,
        IrInstruction::I32TruncSatF32S => "i32.trunc_sat_f32_s"@,
        IrInstruction::I64TruncSatF64U => "i64.trunc_sat_f64_u"@,
        IrInstruction::I64TruncSatF64S => "i64.trunc_sat_f64_s"@,
        IrInstruction::I64TruncSatF32U => "i64.trunc_sat_f32_u"@,
        IrInstruction::I64TruncSatF32S => "i64.trunc_sat_f32_s"@,
    }
}

impl IrInstruction {
    /// The text form of this instruction, in WebAssembly text syntax
    /// (`i32.add`, `local.get 3`, `br_table 0 1 2`).
    pub fn text(&self) -> (r: String)
        ensures
            r@ == ir_text(*self),
    {
        match self {

            IrInstruction::I32Const(v) => {
                let mut s = String::from_str("i32.const ");
                push_signed_dec(&mut s, *v as i64);
                s
            },
            IrInstruction::I64Const(v) => {
                let mut s = String::from_str("i64.const ");
                push_signed_dec(&mut s, *v as i64);
                s
            },
            IrInstruction::LocalGet(v) => {
                let mut s = String::from_str("local.get ");
                push_dec(&mut s, *v as u64);
                s
            },
            IrInstruction::LocalSet(v) => {
                let mut s = String::from_str("local.set ");
                push_dec(&mut s, *v as u64);
                s
            },
            IrInstruction::LocalTee(v) => {
                let mut s = String::from_str("local.tee ");
                push_dec(&mut s, *v as u64);
                s
            },
            IrInstruction::GlobalGet(v) => {
                let mut s = String::from_str("global.get ");
                push_dec(&mut s, *v as u64);
                s
            },
            IrInstruction::GlobalSet(v) => {
                let mut s = String::from_str("global.set ");
                push_dec(&mut s, *v as u64);
                s
            },
            IrInstruction::I32Add => String::from_str("i32.add"),
            IrInstruction::I32Sub => String::from_str("i32.sub"),
            IrInstruction::I32Mul => String::from_str("i32.mul"),
            IrInstruction::I32DivU => String::from_str("i32.div_u"),
            IrInstruction::I32DivS => String::from_str("i32.div_s"),
            IrInstruction::I32RemU => String::from_str("i32.rem_u"),
            IrInstruction::I32RemS => String::from_str("i32.rem_s"),
            IrInstruction::I64Add => String::from_str("i64.add"),
            IrInstruction::I64Sub => String::from_str("i64.sub"),
            IrInstruction::I64Mul => String::from_str("i64.mul"),
            IrInstruction::I64DivU => String::from_str("i64.div_u"),
            IrInstruction::I64DivS => String::from_str("i64.div_s"),
            IrInstruction::I64RemU => String::from_str("i64.rem_u"),
            IrInstruction::I64RemS => String::from_str("i64.rem_s"),
            IrInstruction::I32And => String::from_str("i32.and"),
            IrInstruction::I32Or => String::from_str("i32.or"),
            IrInstruction::I32Xor => String::from_str("i32.xor"),
            IrInstruction::I64And => String::from_str("i64.and"),
            IrInstruction::I64Or => String::from_str("i64.or"),
            IrInstruction::I64Xor => String::from_str("i64.xor"),
            IrInstruction::I32Shl => String::from_str("i32.shl"),
            IrInstruction::I32ShrU => String::from_str("i32.shr_u"),
            IrInstruction::I32ShrS => String::from_str("i32.shr_s"),
            IrInstruction::I64Shl => String::from_str("i64.shl"),
            IrInstruction::I64ShrU => String::from_str("i64.shr_u"),
            IrInstruction::I64ShrS => String::from_str("i64.shr_s"),
            IrInstruction::I32Rotl => String::from_str("i32.rotl"),
            IrInstruction::I32Rotr => String::from_str("i32.rotr"),
            IrInstruction::I64Rotl => String::from_str("i64.rotl"),
            IrInstruction::I64Rotr => String::from_str("i64.rotr"),
            IrInstruction::I32Clz => String::from_str("i32.clz"),
            IrInstruction::I32Ctz => String::from_str("i32.ctz"),
            IrInstruction::I32Popcnt => String::from_str("i32.popcnt"),
            IrInstruction::I64Clz => String::from_str("i64.clz"),
            IrInstruction::I64Ctz => String::from_str("i64.ctz"),
            IrInstruction::I64Popcnt => String::from_str("i64.popcnt"),
            IrInstruction::I32Eqz => String::from_str("i32.eqz"),
            IrInstruction::I32Eq => String::from_str("i32.eq"),
            IrInstruction::I32Ne => String::from_str("i32.ne"),
            IrInstruction::I32LtU => String::from_str("i32.lt_u"),
            IrInstruction::I32LtS => String::from_str("i32.lt_s"),
            IrInstruction::I32GtU => String::from_str("i32.gt_u"),
            IrInstruction::I32GtS => String::from_str("i32.gt_s"),
            IrInstruction::I32LeU => String::from_str("i32.le_u"),
            IrInstruction::I32LeS => String::from_str("i32.le_s"),
            IrInstruction::I32GeU => String::from_str("i32.ge_u"),
            IrInstruction::I32GeS => String::from_str("i32.ge_s"),
            IrInstruction::I64Eqz => String::from_str("i64.eqz"),
            IrInstruction::I64Eq => String::from_str("i64.eq"),
            IrInstruction::I64Ne => String::from_str("i64.ne"),
            IrInstruction::I64LtU => String::from_str("i64.lt_u"),
            IrInstruction::I64LtS => String::from_str("i64.lt_s"),
            IrInstruction::I64GtU => String::from_str("i64.gt_u"),
            IrInstruction::I64GtS => String::from_str("i64.gt_s"),
            IrInstruction::I64LeU => String::from_str("i64.le_u"),
            IrInstruction::I64LeS => String::from_str("i64.le_s"),
            IrInstruction::I64GeU => String::from_str("i64.ge_u"),
            IrInstruction::I64GeS => String::from_str("i64.ge_s"),
            IrInstruction::I32Load { offset } => {
                let mut s = String::from_str("i32.load offset=");
                push_dec(&mut s, *offset);
                s
            },
            IrInstruction::I64Load { offset } => {
                let mut s = String::from_str("i64.load offset=");
                push_dec(&mut s, *offset);
                s
            },
            IrInstruction::I32Load8U { offset } => {
                let mut s = String::from_str("i32.load8_u offset=");
                push_dec(&mut s, *offset);
                s
            },
            IrInstruction::I32Load8S { offset } => {
                let mut s = String::from_str("i32.load8_s offset=");
                push_dec(&mut s, *offset);
                s
            },
            IrInstruction::I32Load16U { offset } => {
                let mut s = String::from_str("i32.load16_u offset=");
                push_dec(&mut s, *offset);
                s
            },
            IrInstruction::I32Load16S { offset } => {
                let mut s = String::from_str("i32.load16_s offset=");
                push_dec(&mut s, *offset);
                s
            },
            IrInstruction::I64Load8U { offset } => {
                let mut s = String::from_str("i64.load8_u offset=");
                push_dec(&mut s, *offset);
                s
            },
            IrInstruction::I64Load8S { offset } => {
                let mut s = String::from_str("i64.load8_s offset=");
                push_dec(&mut s, *offset);
                s
            },
            IrInstruction::I64Load16U { offset } => {
                let mut s = String::from_str("i64.load16_u offset=");
                push_dec(&mut s, *offset);
                s
            },
            IrInstruction::I64Load16S { offset } => {
                let mut s = String::from_str("i64.load16_s offset=");
                push_dec(&mut s, *offset);
                s
            },
            IrInstruction::I64Load32U { offset } => {
                let mut s = String::from_str("i64.load32_u offset=");
                push_dec(&mut s, *offset);
                s
            },
            IrInstruction::I64Load32S { offset } => {
                let mut s = String::from_str("i64.load32_s offset=");
                push_dec(&mut s, *offset);
                s
            },
            IrInstruction::I32Store { offset } => {
                let mut s = String::from_str("i32.store offset=");
                push_dec(&mut s, *offset);
                s
            },
            IrInstruction::I64Store { offset } => {
                let mut s = String::from_str("i64.store offset=");
                push_dec(&mut s, *offset);
                s
            },
            IrInstruction::I32Store8 { offset } => {
                let mut s = String::from_str("i32.store8 offset=");
                push_dec(&mut s, *offset);
                s
            },
            IrInstruction::I32Store16 { offset } => {
                let mut s = String::from_str("i32.store16 offset=");
                push_dec(&mut s, *offset);
                s
            },
            IrInstruction::I64Store8 { offset } => {
                let mut s = String::from_str("i64.store8 offset=");
                push_dec(&mut s, *offset);
                s
            },
            IrInstruction::I64Store16 { offset } => {
                let mut s = String::from_str("i64.store16 offset=");
                push_dec(&mut s, *offset);
                s
            },
            IrInstruction::I64Store32 { offset } => {
                let mut s = String::from_str("i64.store32 offset=");
                push_dec(&mut s, *offset);
                s
            },
            IrInstruction::MemorySize => String::from_str("memory.size"),
            IrInstruction::MemoryGrow => String::from_str("memory.grow"),
            IrInstruction::MemoryFill => String::from_str("memory.fill"),
            IrInstruction::MemoryCopy => String::from_str("memory.copy"),
            IrInstruction::Block { has_result } => if *has_result {
                String::from_str("block (result)")
            } else {
                String::from_str("block")
            },
            IrInstruction::Loop => String::from_str("loop"),
            IrInstruction::If { has_result } => if *has_result {
                String::from_str("if (result)")
            } else {
                String::from_str("if")
            },
            IrInstruction::Else => String::from_str("else"),
            IrInstruction::End => String::from_str("end"),
            IrInstruction::Br(v) => {
                let mut s = String::from_str("br ");
                push_dec(&mut s, *v as u64);
                s
            },
            IrInstruction::BrIf(v) => {
                let mut s = String::from_str("br_if ");
                push_dec(&mut s, *v as u64);
                s
            },
            IrInstruction::BrTable { targets, default } => {
                let mut s = String::from_str("br_table");
                let mut k: usize = 0;
                while k < targets.len()
                    invariant
                        k <= targets@.len(),
                        s@ == "br_table"@ + targets_text(targets@.take(k as int)),
                    decreases targets@.len() - k,
                {
                    s.append(" ");
                    push_dec(&mut s, targets[k] as u64);
                    proof {
                        assert(targets@.take(k + 1).drop_last() =~= targets@.take(k as int));
                    }
                    k += 1;
                }
                proof {
                    assert(targets@.take(targets@.len() as int) =~= targets@);
                }
                s.append(" ");
                push_dec(&mut s, *default as u64);
                s
            },
            IrInstruction::Return => String::from_str("return"),
            IrInstruction::Call(v) => {
                let mut s = String::from_str("call ");
                push_dec(&mut s, *v as u64);
                s
            },
            IrInstruction::CallIndirect { type_idx, table_idx } => {
                let mut s = String::from_str("call_indirect (type ");
                push_dec(&mut s, *type_idx as u64);
                s.append(") (table ");
                push_dec(&mut s, *table_idx as u64);
                s.append(")");
                s
            },
            IrInstruction::Drop => String::from_str("drop"),
            IrInstruction::Select => String::from_str("select"),
            IrInstruction::Unreachable => String::from_str("unreachable"),
            IrInstruction::Nop => String::from_str("nop"),
            IrInstruction::I32WrapI64 => String::from_str("i32.wrap_i64"),
            IrInstruction::I64ExtendI32S => String::from_str("i64.extend_i32_s"),
            IrInstruction::I64ExtendI32U => String::from_str("i64.extend_i32_u"),
            IrInstruction::I32Extend8S => String::from_str("i32.extend8_s"),
            IrInstruction::I32Extend16S => String::from_str("i32.extend16_s"),
            IrInstruction::I64Extend8S => String::from_str("i64.extend8_s"),
            IrInstruction::I64Extend16S => String::from_str("i64.extend16_s"),
            IrInstruction::I64Extend32S => String::from_str("i64.extend32_s"),
            IrInstruction::I32TruncSatF64U => String::from_str("i32.trunc_sat_f64_u"),
            IrInstruction::I32TruncSatF64S => String::from_str("i32.trunc_sat_f64_s"),
            IrInstruction::I32TruncSatF32U => String::from_str("i32.trunc_sat_f32_u"),
            IrInstruction::I32TruncSatF32S => String::from_str("i32.trunc_sat_f32_s"),
            IrInstruction::I64TruncSatF64U => String::from_str("i64.trunc_sat_f64_u"),
            IrInstruction::I64TruncSatF64S => String::from_str("i64.trunc_sat_f64_s"),
            IrInstruction::I64TruncSatF32U => String::from_str("i64.trunc_sat_f32_u"),
            IrInstruction::I64TruncSatF32S => String::from_str("i64.trunc_sat_f32_s"),
        }
    }
}

} // verus!
