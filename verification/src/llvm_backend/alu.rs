//! Integer comparisons, and the trap guards emitted around integer division:
//! a trap on a zero divisor and a trap on the one signed quotient that
//! overflows (`MIN / -1`).
use super::control_flow::{
    cache_holds, code_since, keeps_cache, lemma_emit_keeps_cache, lemma_keeps_cache_concat, lemma_keeps_cache_empty,
    lemma_keeps_cache_intro, lemma_run_concat, lemma_run_one, reg_op, run_slots, slot_step, store_keeps_cache,
    SlotState,
};
use super::emitter::{
    const_load, operand_code, slots_after_load, FusedCompare, IntPred, Operand, PvmEmitter,
};
use super::slot_store_code;
use crate::abi::{SCRATCH1, TEMP1, TEMP2, TEMP_RESULT};
use crate::error::Result;
use crate::pvm::semantics::{signed64, wrap64};
use crate::pvm::instruction::Instruction;
use vstd::prelude::*;

verus! {

/// Emit a WASM-style trap if the divisor is zero: a branch on a non-zero
/// divisor over a `Trap`, to a fresh label defined right after the trap.
pub fn emit_wasm_div_zero_trap(e: &mut PvmEmitter, rhs_reg: u8)
    requires
        old(e).wf(),
        old(e).byte_offset + 16 <= usize::MAX,
    ensures
        final(e).wf(),
        final(e).instructions@ == old(e).instructions@ + seq![
            Instruction::BranchNeImm { reg: rhs_reg, value: 0, offset: 0 },
            Instruction::Trap,
        ],
        final(e).fixups@ == old(e).fixups@.push(
            (old(e).instructions@.len() as usize, old(e).labels@.len() as usize),
        ),
        final(e).labels@ == old(e).labels@.push(Some(final(e).byte_offset)),
        final(e).cache_empty(),
        final(e).same_body(old(e)),
        final(e).byte_offset <= old(e).byte_offset + 16,
{
    let ghost start = *e;
    let ok_label = e.alloc_label();
    e.emit_branch_ne_imm_to_label(rhs_reg, 0, ok_label);
    assert(Instruction::Trap.encoding().len() == 1);
    e.emit(Instruction::Trap);
    e.define_label(ok_label);
    proof {
        assert(e.instructions@ =~= start.instructions@ + seq![
            Instruction::BranchNeImm { reg: rhs_reg, value: 0, offset: 0 },
            Instruction::Trap,
        ]);
        assert(e.labels@ =~= start.labels@.push(Some(e.byte_offset)));
    }
}

/// The guard against signed division overflow (`MIN / -1`): a trap reached
/// only when the divisor is -1 and the dividend is the smallest signed value.
/// For 32-bit operations both operands are first sign-extended from 32 bits
/// (into `TEMP_RESULT` and `SCRATCH1`). For 64-bit operations the dividend is
/// compared with `i64::MIN` through `TEMP_RESULT` (whose load is dropped when
/// constant propagation knows `TEMP_RESULT` already holds it).
pub open spec fn overflow_guard_code(e: PvmEmitter, lhs_reg: u8, rhs_reg: u8, is_32bit: bool) -> Seq<
    Instruction,
> {
    overflow_guard_seq(
        lhs_reg,
        rhs_reg,
        is_32bit,
        e.emit_skips(Instruction::LoadImm64 { reg: TEMP_RESULT, value: 0x8000_0000_0000_0000 }),
    )
}

/// The overflow guard, with the load of `i64::MIN` left out when `skip_min`.
pub open spec fn overflow_guard_seq(lhs_reg: u8, rhs_reg: u8, is_32bit: bool, skip_min: bool) -> Seq<
    Instruction,
> {
    if is_32bit {
        seq![
            Instruction::AddImm32 { dst: TEMP_RESULT, src: lhs_reg, value: 0 },
            Instruction::AddImm32 { dst: SCRATCH1, src: rhs_reg, value: 0 },
            Instruction::BranchNeImm { reg: SCRATCH1, value: -1i32, offset: 0 },
            Instruction::BranchNeImm { reg: TEMP_RESULT, value: i32::MIN, offset: 0 },
            Instruction::Trap,
        ]
    } else {
        let min_load = Instruction::LoadImm64 { reg: TEMP_RESULT, value: 0x8000_0000_0000_0000 };
        seq![Instruction::BranchNeImm { reg: rhs_reg, value: -1i32, offset: 0 }] + (if skip_min {
            Seq::empty()
        } else {
            seq![min_load]
        }) + seq![
            Instruction::Xor { dst: TEMP_RESULT, src1: lhs_reg, src2: TEMP_RESULT },
            Instruction::BranchNeImm { reg: TEMP_RESULT, value: 0, offset: 0 },
            Instruction::Trap,
        ]
    }
}

/// Emit a WASM-style trap for signed overflow (`INT_MIN` / -1).
/// For 32-bit operations, operands are first sign-extended from 32 to 64 bits
/// because operands are loaded with unsigned loads, which zero-extend. Both
/// branches go to a fresh label defined right after the trap.
pub fn emit_wasm_signed_overflow_trap(e: &mut PvmEmitter, lhs_reg: u8, rhs_reg: u8, is_32bit: bool)
    requires
        old(e).wf(),
        old(e).byte_offset + 64 <= usize::MAX,
    ensures
        final(e).wf(),
        final(e).instructions@ == old(e).instructions@ + overflow_guard_code(
            *old(e),
            lhs_reg,
            rhs_reg,
            is_32bit,
        ),
        ({
            let n = old(e).instructions@.len();
            let label = old(e).labels@.len() as usize;
            let code = overflow_guard_code(*old(e), lhs_reg, rhs_reg, is_32bit);
            final(e).fixups@ == old(e).fixups@ + (if is_32bit {
                seq![((n + 2) as usize, label), ((n + 3) as usize, label)]
            } else {
                seq![(n as usize, label), ((n + code.len() - 2) as usize, label)]
            })
        }),
        final(e).labels@ == old(e).labels@.push(Some(final(e).byte_offset)),
        final(e).cache_empty(),
        final(e).same_body(old(e)),
        final(e).byte_offset <= old(e).byte_offset + 64,
{
    let ghost start = *e;
    let ok_label = e.alloc_label();

    // For 32-bit operands, we need to sign-extend them first because
    // operands are loaded with LoadIndU64, which zero-extends.
    let lhs = if is_32bit {
        // Sign-extend lhs from 32 to 64 bits
        let ext = Instruction::AddImm32 { dst: TEMP_RESULT, src: lhs_reg, value: 0 };
        assert(ext.encoding().len() <= 6);
        e.emit(ext);
        TEMP_RESULT
    } else {
        lhs_reg
    };

    let rhs = if is_32bit {
        // Sign-extend rhs from 32 to 64 bits into SCRATCH1
        let ext = Instruction::AddImm32 { dst: SCRATCH1, src: rhs_reg, value: 0 };
        assert(ext.encoding().len() <= 6);
        e.emit(ext);
        SCRATCH1
    } else {
        rhs_reg
    };
    let ghost before_checks = *e;

    // 1. Check rhs != -1
    e.emit_branch_ne_imm_to_label(rhs, -1, ok_label);

    // 2. Check lhs == INT_MIN
    if is_32bit {
        // INT_MIN_32 = -2147483648 (already sign-extended in 64-bit register)
        e.emit_branch_ne_imm_to_label(lhs, i32::MIN, ok_label);
    } else {
        // INT_MIN_64 = 0x8000000000000000
        // Load INT_MIN_64 to TEMP_RESULT
        let min_load = Instruction::LoadImm64 { reg: TEMP_RESULT, value: 0x8000_0000_0000_0000 };
        assert(min_load.encoding().len() == 10);
        e.emit(min_load);
        // Check if lhs != TEMP_RESULT
        // Xor lhs, TEMP_RESULT -> TEMP_RESULT (clobbers TEMP_RESULT)
        let xor = Instruction::Xor { dst: TEMP_RESULT, src1: lhs, src2: TEMP_RESULT };
        assert(xor.encoding().len() == 3);
        e.emit(xor);
        // If result != 0, then lhs != INT_MIN
        e.emit_branch_ne_imm_to_label(TEMP_RESULT, 0, ok_label);
    }

    // 3. Trap if we are here (rhs == -1 AND lhs == INT_MIN)
    assert(Instruction::Trap.encoding().len() == 1);
    e.emit(Instruction::Trap);
    e.define_label(ok_label);
    proof {
        let code = overflow_guard_code(start, lhs_reg, rhs_reg, is_32bit);
        assert(e.instructions@ =~= start.instructions@ + code);
        assert(e.labels@ =~= start.labels@.push(Some(e.byte_offset)));
        let n = start.instructions@.len();
        let label = start.labels@.len() as usize;
        if is_32bit {
            assert(e.fixups@ =~= start.fixups@ + seq![
                ((n + 2) as usize, label),
                ((n + 3) as usize, label),
            ]);
        } else {
            assert(e.fixups@ =~= start.fixups@ + seq![
                (n as usize, label),
                ((n + code.len() - 2) as usize, label),
            ]);
        }
    }
}

/// The 32-bit immediate form of a constant, when it fits.
pub open spec fn imm32_of(c: i64) -> Option<i32> {
    if i32::MIN <= c <= i32::MAX {
        Some(c as i32)
    } else {
        None
    }
}

fn imm32(c: i64) -> (r: Option<i32>)
    ensures
        r == imm32_of(c),
{
    if c >= i32::MIN as i64 && c <= i32::MAX as i64 {
        Some(c as i32)
    } else {
        None
    }
}

/// The one-instruction form of an unsigned or signed less-than against a
/// constant that fits in 32 bits, writing `TEMP_RESULT` from `TEMP1`.
pub open spec fn immediate_compare(pred: IntPred, rhs: Operand) -> Option<Instruction> {
    match rhs {
        Operand::Const(c) => match imm32_of(c) {
            Some(v) => match pred {
                IntPred::ULT => Some(Instruction::SetLtUImm { dst: TEMP_RESULT, src: TEMP1, value: v }),
                IntPred::SLT => Some(Instruction::SetLtSImm { dst: TEMP_RESULT, src: TEMP1, value: v }),
                _ => None,
            },
            None => None,
        },
        _ => None,
    }
}

/// The comparison of `TEMP1` with `TEMP2` under `pred`, leaving 1 or 0 in
/// `TEMP_RESULT`: a greater-than swaps the operands of a less-than, and a
/// non-strict comparison negates the opposite strict one (`x < 1`). Equality
/// tests the exclusive or for zero; inequality compares zero (in `SCRATCH1`,
/// whose load is dropped when the register already holds zero) with it.
pub open spec fn register_compare(e: PvmEmitter, pred: IntPred) -> Seq<Instruction> {
    let not = Instruction::SetLtUImm { dst: TEMP_RESULT, src: TEMP_RESULT, value: 1 };
    let xor = Instruction::Xor { dst: TEMP_RESULT, src1: TEMP1, src2: TEMP2 };
    let zero = Instruction::LoadImm { reg: SCRATCH1, value: 0 };
    match pred {
        IntPred::EQ => seq![xor, not],
        IntPred::NE => seq![xor] + (if e.emit_skips(zero) {
            Seq::empty()
        } else {
            seq![zero]
        }) + seq![Instruction::SetLtU { dst: TEMP_RESULT, src1: SCRATCH1, src2: TEMP_RESULT }],
        IntPred::ULT => seq![Instruction::SetLtU { dst: TEMP_RESULT, src1: TEMP1, src2: TEMP2 }],
        IntPred::SLT => seq![Instruction::SetLtS { dst: TEMP_RESULT, src1: TEMP1, src2: TEMP2 }],
        IntPred::UGT => seq![Instruction::SetLtU { dst: TEMP_RESULT, src1: TEMP2, src2: TEMP1 }],
        IntPred::SGT => seq![Instruction::SetLtS { dst: TEMP_RESULT, src1: TEMP2, src2: TEMP1 }],
        IntPred::ULE => seq![Instruction::SetLtU { dst: TEMP_RESULT, src1: TEMP2, src2: TEMP1 }, not],
        IntPred::SLE => seq![Instruction::SetLtS { dst: TEMP_RESULT, src1: TEMP2, src2: TEMP1 }, not],
        IntPred::UGE => seq![Instruction::SetLtU { dst: TEMP_RESULT, src1: TEMP1, src2: TEMP2 }, not],
        IntPred::SGE => seq![Instruction::SetLtS { dst: TEMP_RESULT, src1: TEMP1, src2: TEMP2 }, not],
    }
}

/// Whether `pred` holds of the 64-bit values `a` and `b`; the signed
/// predicates read them as two's complement (`signed64`).
pub open spec fn int_pred_holds(pred: IntPred, a: u64, b: u64) -> bool {
    match pred {
        IntPred::EQ => a == b,
        IntPred::NE => a != b,
        IntPred::UGT => a > b,
        IntPred::UGE => a >= b,
        IntPred::ULT => a < b,
        IntPred::ULE => a <= b,
        IntPred::SGT => signed64(a) > signed64(b),
        IntPred::SGE => signed64(a) >= signed64(b),
        IntPred::SLT => signed64(a) < signed64(b),
        IntPred::SLE => signed64(a) <= signed64(b),
    }
}

/// 1 when `holds`, 0 otherwise.
pub open spec fn flag(holds: bool) -> u64 {
    if holds {
        1
    } else {
        0
    }
}

proof fn lemma_run_two(st: SlotState, a: Instruction, b: Instruction)
    ensures
        run_slots(st, seq![a, b]) == (match slot_step(st, a) {
            Some(s) => slot_step(s, b),
            None => None,
        }),
{
    lemma_run_concat(st, seq![a], seq![b]);
    assert(seq![a] + seq![b] =~= seq![a, b]);
    lemma_run_one(st, a);
    if let Some(s) = slot_step(st, a) {
        lemma_run_one(s, b);
    }
}

proof fn lemma_run_three(st: SlotState, a: Instruction, b: Instruction, c: Instruction)
    ensures
        run_slots(st, seq![a, b, c]) == (match slot_step(st, a) {
            Some(s) => match slot_step(s, b) {
                Some(t) => slot_step(t, c),
                None => None,
            },
            None => None,
        }),
{
    lemma_run_concat(st, seq![a, b], seq![c]);
    assert(seq![a, b] + seq![c] =~= seq![a, b, c]);
    lemma_run_two(st, a, b);
    if let Some(s) = slot_step(st, a) {
        if let Some(t) = slot_step(s, b) {
            lemma_run_one(t, c);
        }
    }
}

/// The register comparison decides its predicate: run from any state in
/// which the emitter's register cache is truthful, it leaves in
/// `TEMP_RESULT` 1 when `pred` holds of `TEMP1` and `TEMP2`, and 0 otherwise.
pub proof fn register_compare_decides(e: PvmEmitter, pred: IntPred, st: SlotState)
    requires
        cache_holds(e, st),
    ensures
        run_slots(st, register_compare(e, pred)) is Some,
        (run_slots(st, register_compare(e, pred)).unwrap().0)(TEMP_RESULT) == flag(
            int_pred_holds(pred, (st.0)(TEMP1), (st.0)(TEMP2)),
        ),
{
    let a = (st.0)(TEMP1);
    let b = (st.0)(TEMP2);
    let not = Instruction::SetLtUImm { dst: TEMP_RESULT, src: TEMP_RESULT, value: 1 };
    let xor = Instruction::Xor { dst: TEMP_RESULT, src1: TEMP1, src2: TEMP2 };
    let zero = Instruction::LoadImm { reg: SCRATCH1, value: 0 };
    assert((a ^ b == 0) == (a == b)) by (bit_vector);
    match pred {
        IntPred::EQ => {
            lemma_run_two(st, xor, not);
        },
        IntPred::NE => {
            let lt = Instruction::SetLtU { dst: TEMP_RESULT, src1: SCRATCH1, src2: TEMP_RESULT };
            if e.emit_skips(zero) {
                assert(e.reg_const(SCRATCH1 as int) == Some(0u64));
                assert((st.0)(SCRATCH1) == 0);
                assert(register_compare(e, pred) =~= seq![xor, lt]);
                lemma_run_two(st, xor, lt);
            } else {
                assert(register_compare(e, pred) =~= seq![xor, zero, lt]);
                lemma_run_three(st, xor, zero, lt);
            }
        },
        IntPred::ULT | IntPred::SLT | IntPred::UGT | IntPred::SGT => {
            let i = register_compare(e, pred)[0];
            assert(register_compare(e, pred) =~= seq![i]);
            lemma_run_one(st, i);
        },
        _ => {
            let i = register_compare(e, pred)[0];
            assert(register_compare(e, pred) =~= seq![i, not]);
            lemma_run_two(st, i, not);
        },
    }
}

/// The immediate comparison decides its predicate: it leaves in
/// `TEMP_RESULT` 1 when `pred` holds of `TEMP1` and the constant operand, and
/// 0 otherwise.
pub proof fn immediate_compare_decides(pred: IntPred, c: i64, st: SlotState)
    requires
        immediate_compare(pred, Operand::Const(c)) is Some,
    ensures
        slot_step(st, immediate_compare(pred, Operand::Const(c)).unwrap()) is Some,
        (slot_step(st, immediate_compare(pred, Operand::Const(c)).unwrap()).unwrap().0)(TEMP_RESULT) == flag(
            int_pred_holds(pred, (st.0)(TEMP1), wrap64(c as int)),
        ),
{
    let v = imm32_of(c).unwrap();
    assert(v == c);
    assert(signed64(wrap64(c as int)) == c);
}

/// The code of a comparison computed into stack slot `slot`: `lhs` loaded
/// into `TEMP1`, then either the immediate form against a small constant, or
/// `rhs` loaded into `TEMP2` (seeing the register cache as the first load
/// left it) and the register comparison; then the store of `TEMP_RESULT`.
/// `None` when an operand that is needed has neither a register nor a slot.
#[verifier::opaque]
pub open spec fn comparison_code(e: PvmEmitter, pred: IntPred, lhs: Operand, rhs: Operand, slot: i32) -> Option<
    Seq<Instruction>,
> {
    let m0 = e.slot_map();
    match operand_code(e, m0, lhs, TEMP1) {
        None => None,
        Some(lc) => match immediate_compare(pred, rhs) {
            Some(c) => Some(lc + seq![c] + slot_store_code(e, slot, TEMP_RESULT)),
            None => {
                let m1 = slots_after_load(e, m0, e.reg_slot(TEMP1 as int), lhs, TEMP1);
                match operand_code(e, m1, rhs, TEMP2) {
                    None => None,
                    Some(rc) => Some(
                        lc + rc + register_compare(e, pred) + slot_store_code(e, slot, TEMP_RESULT),
                    ),
                }
            },
        },
    }
}

/// Lower an integer comparison whose result goes to stack slot `slot`.
/// With compare-and-branch fusion on, a comparison used only by one branch
/// is not computed: it is left pending for that branch. Fails, as loading
/// does, when an operand has neither a register nor a stack slot.
pub fn lower_icmp(
    e: &mut PvmEmitter,
    pred: IntPred,
    lhs: Operand,
    rhs: Operand,
    slot: i32,
    single_use_by_branch: bool,
) -> (r: Result<()>)
    requires
        old(e).wf(),
        old(e).byte_offset + 64 <= usize::MAX,
    ensures
        final(e).wf(),
        final(e).labels@ == old(e).labels@,
        final(e).fixups@ == old(e).fixups@,
        final(e).config == old(e).config,
        if old(e).config.icmp_fusion_enabled && single_use_by_branch {
            &&& r is Ok
            &&& final(e).pending_compare == Some(FusedCompare { predicate: pred, lhs, rhs })
            &&& final(e).instructions@ == old(e).instructions@
        } else {
            &&& (r is Ok <==> comparison_code(*old(e), pred, lhs, rhs, slot) is Some)
            &&& r is Ok ==> final(e).instructions@ == old(e).instructions@ + comparison_code(
                *old(e),
                pred,
                lhs,
                rhs,
                slot,
            ).unwrap()
            &&& final(e).pending_compare == old(e).pending_compare
        },
        // A truthful register cache stays truthful (see `store_keeps_cache`).
        r is Ok && store_keeps_cache(*old(e), slot) ==> keeps_cache(*old(e), *final(e), code_since(*old(e), *final(e))),
{
    let ghost e0 = *e;
    // A comparison used only by a single branch is deferred: the branch
    // emits one fused compare-and-branch instead.
    if e.config.icmp_fusion_enabled && single_use_by_branch {
        e.pending_compare = Some(FusedCompare { predicate: pred, lhs, rhs });
        proof {
            reveal(keeps_cache);
            assert(code_since(e0, *e) =~= Seq::<Instruction>::empty());
            assert(e.slot_map() == e0.slot_map());
            assert forall|r: int| 0 <= r < 13 implies #[trigger] e.reg_const(r) == e0.reg_const(r) by {}
        }
        return Ok(());
    }
    lower_compare_now(e, pred, lhs, rhs, slot)
}

/// Emit the register comparison of `TEMP1` with `TEMP2` into `TEMP_RESULT`.
fn emit_register_compare(e: &mut PvmEmitter, pred: IntPred)
    requires
        old(e).wf(),
        old(e).byte_offset + 16 <= usize::MAX,
    ensures
        final(e).wf(),
        final(e).same_frame(old(e)),
        final(e).byte_offset <= old(e).byte_offset + 16,
        final(e).instructions@ == old(e).instructions@ + register_compare(*old(e), pred),
        keeps_cache(*old(e), *final(e), register_compare(*old(e), pred)),
{
    let ghost e0 = *e;
    let ghost mut p: Seq<Instruction> = Seq::empty();
    proof {
        lemma_keeps_cache_empty(e0);
    }
    assert(e.instructions@ =~= e0.instructions@ + p);
    let not = Instruction::SetLtUImm { dst: TEMP_RESULT, src: TEMP_RESULT, value: 1 };
    assert(not.encoding().len() == 3);
    match pred {
        IntPred::EQ | IntPred::NE => {
            let xor = Instruction::Xor { dst: TEMP_RESULT, src1: TEMP1, src2: TEMP2 };
            assert(xor.encoding().len() == 3);
            let ghost prev = *e;
            e.emit(xor);
            proof {
                assert(reg_op(xor));
                let q = p.push(xor);
                lemma_emit_keeps_cache(e0, prev, *e, p, q, xor);
                p = q;
            }
            let ghost e1 = *e;
            if let IntPred::EQ = pred {
                let ghost prev = *e;
                e.emit(not);
                proof {
                    assert(reg_op(not));
                    let q = p.push(not);
                    lemma_emit_keeps_cache(e0, prev, *e, p, q, not);
                    p = q;
                }
                assert(e.instructions@ =~= e0.instructions@ + register_compare(e0, pred));
                assert(p =~= register_compare(e0, pred));
            } else {
                let zero = Instruction::LoadImm { reg: SCRATCH1, value: 0 };
                assert(zero.encoding().len() == 2);
                let ghost prev = *e;
                e.emit(zero);
                proof {
                    let q = if prev.emit_skips(zero) { p } else { p.push(zero) };
                    lemma_emit_keeps_cache(e0, prev, *e, p, q, zero);
                    p = q;
                }
                let lt = Instruction::SetLtU { dst: TEMP_RESULT, src1: SCRATCH1, src2: TEMP_RESULT };
                assert(lt.encoding().len() == 3);
                let ghost prev = *e;
                e.emit(lt);
                proof {
                    assert(reg_op(lt));
                    let q = p.push(lt);
                    lemma_emit_keeps_cache(e0, prev, *e, p, q, lt);
                    p = q;
                }
                proof {
                    assert(e1.reg_const(5) == e0.reg_const(5));
                    assert(e1.emit_skips(zero) == e0.emit_skips(zero));
                    if e0.emit_skips(zero) {
                        assert(e.instructions@ =~= e0.instructions@ + register_compare(e0, pred));
                        assert(p =~= register_compare(e0, pred));
                    } else {
                        assert(e.instructions@ =~= e0.instructions@ + register_compare(e0, pred));
                        assert(p =~= register_compare(e0, pred));
                    }
                }
            }
        },
        _ => {
            let first = match pred {
                IntPred::ULT | IntPred::UGE => Instruction::SetLtU { dst: TEMP_RESULT, src1: TEMP1, src2: TEMP2 },
                IntPred::SLT | IntPred::SGE => Instruction::SetLtS { dst: TEMP_RESULT, src1: TEMP1, src2: TEMP2 },
                IntPred::UGT | IntPred::ULE => Instruction::SetLtU { dst: TEMP_RESULT, src1: TEMP2, src2: TEMP1 },
                _ => Instruction::SetLtS { dst: TEMP_RESULT, src1: TEMP2, src2: TEMP1 },
            };
            assert(first.encoding().len() == 3);
            let ghost prev = *e;
            e.emit(first);
            proof {
                assert(reg_op(first));
                let q = p.push(first);
                lemma_emit_keeps_cache(e0, prev, *e, p, q, first);
                p = q;
            }
            match pred {
                IntPred::ULE | IntPred::SLE | IntPred::UGE | IntPred::SGE => {
                    let ghost prev = *e;
                    e.emit(not);
                    proof {
                        assert(reg_op(not));
                        let q = p.push(not);
                        lemma_emit_keeps_cache(e0, prev, *e, p, q, not);
                        p = q;
                    }
                },
                _ => {},
            }
            assert(e.instructions@ =~= e0.instructions@ + register_compare(e0, pred));
            assert(p =~= register_compare(e0, pred));
        },
    }
}

/// What loading an operand emits depends on the emitter only through its
/// register allocation, slots, configuration and the constant the target
/// register holds.
pub(crate) proof fn lemma_operand_code_frame(a: PvmEmitter, b: PvmEmitter, m: Map<i32, u8>, op: Operand, reg: u8)
    requires
        a.regalloc == b.regalloc,
        a.slots() == b.slots(),
        a.config == b.config,
        a.reg_const(reg as int) == b.reg_const(reg as int),
    ensures
        operand_code(a, m, op, reg) == operand_code(b, m, op, reg),
{
}

/// The register comparison depends on the emitter only through its
/// configuration and the constant `SCRATCH1` holds.
proof fn lemma_register_compare_frame(a: PvmEmitter, b: PvmEmitter, pred: IntPred)
    requires
        a.config == b.config,
        a.reg_const(5) == b.reg_const(5),
    ensures
        register_compare(a, pred) == register_compare(b, pred),
{
}

/// Emit `c` and store `TEMP_RESULT` into `slot`.
fn finish_immediate(e: &mut PvmEmitter, c: Instruction, slot: i32)
    requires
        old(e).wf(),
        old(e).byte_offset + 16 <= usize::MAX,
        c.encoding().len() <= 6,
        c.dest() == Some(TEMP_RESULT),
        const_load(c) is None,
        reg_op(c),
    ensures
        final(e).wf(),
        final(e).same_frame(old(e)),
        final(e).instructions@ == old(e).instructions@ + seq![c] + slot_store_code(
            *old(e),
            slot,
            TEMP_RESULT,
        ),
        // A truthful register cache stays truthful (see `store_keeps_cache`).
        store_keeps_cache(*old(e), slot) ==> keeps_cache(
            *old(e),
            *final(e),
            final(e).instructions@.skip(old(e).instructions@.len() as int),
        ),
{
    let ghost e0 = *e;
    e.emit(c);
    let ghost e1 = *e;
    e.store_to_slot(slot, TEMP_RESULT);
    assert(e.instructions@ =~= e0.instructions@ + seq![c] + slot_store_code(e0, slot, TEMP_RESULT));
    proof {
        if store_keeps_cache(e0, slot) {
            let ghost empty = Seq::<Instruction>::empty();
            lemma_keeps_cache_empty(e0);
            assert(empty.push(c) =~= seq![c]);
            lemma_emit_keeps_cache(e0, e0, e1, empty, seq![c], c);
            let sc = e.instructions@.skip(e1.instructions@.len() as int);
            lemma_keeps_cache_intro(e1, *e, sc);
            lemma_keeps_cache_concat(e0, e1, *e, seq![c], sc);
            assert(e.instructions@.skip(e0.instructions@.len() as int) =~= seq![c] + sc);
        }
    }
}

/// Load `rhs` into `TEMP2`, compare `TEMP1` with it and store the result.
fn finish_registers(e: &mut PvmEmitter, pred: IntPred, rhs: Operand, slot: i32) -> (r: Result<()>)
    requires
        old(e).wf(),
        old(e).byte_offset + 40 <= usize::MAX,
    ensures
        final(e).wf(),
        final(e).same_frame(old(e)),
        r is Ok <==> operand_code(*old(e), old(e).slot_map(), rhs, TEMP2) is Some,
        r is Ok ==> final(e).instructions@ == old(e).instructions@ + operand_code(
            *old(e),
            old(e).slot_map(),
            rhs,
            TEMP2,
        ).unwrap() + register_compare(*old(e), pred) + slot_store_code(*old(e), slot, TEMP_RESULT),
        // A truthful register cache stays truthful (see `store_keeps_cache`).
        r is Ok && store_keeps_cache(*old(e), slot) ==> keeps_cache(
            *old(e),
            *final(e),
            final(e).instructions@.skip(old(e).instructions@.len() as int),
        ),
{
    let ghost e0 = *e;
    let rr = e.load_operand(rhs, TEMP2);
    if rr.is_err() {
        return rr;
    }
    let ghost e1 = *e;
    emit_register_compare(e, pred);
    let ghost e2 = *e;
    e.store_to_slot(slot, TEMP_RESULT);
    proof {
        if store_keeps_cache(e0, slot) {
            let lc = operand_code(e0, e0.slot_map(), rhs, TEMP2).unwrap();
            let cc = register_compare(e1, pred);
            let sc = e.instructions@.skip(e2.instructions@.len() as int);
            assert(e2.instructions@ =~= e0.instructions@ + lc + cc);
            assert(e.instructions@.skip(e0.instructions@.len() as int) =~= lc + cc + sc);
            assert(keeps_cache(e0, e1, lc));
            assert(keeps_cache(e1, e2, cc));
            lemma_keeps_cache_intro(e2, *e, sc);
            lemma_keeps_cache_concat(e0, e1, e2, lc, cc);
            lemma_keeps_cache_concat(e0, e2, *e, lc + cc, sc);
        }
    }
    proof {
        assert(e1.reg_const(5) == e0.reg_const(5));
        lemma_register_compare_frame(e1, e0, pred);
        assert(e.instructions@ =~= e0.instructions@ + operand_code(e0, e0.slot_map(), rhs, TEMP2).unwrap()
            + register_compare(e0, pred) + slot_store_code(e0, slot, TEMP_RESULT));
    }
    Ok(())
}

/// The comparison code, piece by piece.
proof fn lemma_comparison_code(e: PvmEmitter, pred: IntPred, lhs: Operand, rhs: Operand, slot: i32)
    ensures
        operand_code(e, e.slot_map(), lhs, TEMP1) is None ==> comparison_code(e, pred, lhs, rhs, slot) is None,
        operand_code(e, e.slot_map(), lhs, TEMP1) matches Some(lc) ==> match immediate_compare(pred, rhs) {
            Some(c) => comparison_code(e, pred, lhs, rhs, slot) == Some(
                lc + seq![c] + slot_store_code(e, slot, TEMP_RESULT),
            ),
            None => {
                let m1 = slots_after_load(e, e.slot_map(), e.reg_slot(TEMP1 as int), lhs, TEMP1);
                &&& (comparison_code(e, pred, lhs, rhs, slot) is Some <==> operand_code(e, m1, rhs, TEMP2) is Some)
                &&& operand_code(e, m1, rhs, TEMP2) matches Some(rc) ==> comparison_code(e, pred, lhs, rhs, slot)
                    == Some(lc + rc + register_compare(e, pred) + slot_store_code(e, slot, TEMP_RESULT))
            },
        },
{
    reveal(comparison_code);
}

/// Lower a comparison into stack slot `slot` now (no fusion).
#[verifier::spinoff_prover]
#[verifier::rlimit(50)]
fn lower_compare_now(e: &mut PvmEmitter, pred: IntPred, lhs: Operand, rhs: Operand, slot: i32) -> (r:
    Result<()>)
    requires
        old(e).wf(),
        old(e).byte_offset + 64 <= usize::MAX,
    ensures
        final(e).wf(),
        final(e).same_frame(old(e)),
        r is Ok <==> comparison_code(*old(e), pred, lhs, rhs, slot) is Some,
        r is Ok ==> final(e).instructions@ == old(e).instructions@ + comparison_code(
            *old(e),
            pred,
            lhs,
            rhs,
            slot,
        ).unwrap(),
        // A truthful register cache stays truthful (see `store_keeps_cache`).
        r is Ok && store_keeps_cache(*old(e), slot) ==> keeps_cache(
            *old(e),
            *final(e),
            final(e).instructions@.skip(old(e).instructions@.len() as int),
        ),
{
    let ghost e0 = *e;
    proof {
        lemma_comparison_code(e0, pred, lhs, rhs, slot);
    }
    let imm = match rhs {
        Operand::Const(c) => imm32(c),
        _ => None,
    };
    let imm_instr = match imm {
        Some(v) => match pred {
            IntPred::ULT => Some(Instruction::SetLtUImm { dst: TEMP_RESULT, src: TEMP1, value: v }),
            IntPred::SLT => Some(Instruction::SetLtSImm { dst: TEMP_RESULT, src: TEMP1, value: v }),
            _ => None,
        },
        None => None,
    };
    assert(imm_instr == immediate_compare(pred, rhs));
    let lr = e.load_operand(lhs, TEMP1);
    if lr.is_err() {
        return lr;
    }
    let ghost e1 = *e;
    let ghost lc = operand_code(e0, e0.slot_map(), lhs, TEMP1).unwrap();
    if let Some(c) = imm_instr {
        assert(c.encoding().len() <= 6);
        assert(reg_op(c));
        finish_immediate(e, c, slot);
        proof {
            if store_keeps_cache(e0, slot) {
                let rest = e.instructions@.skip(e1.instructions@.len() as int);
                assert(keeps_cache(e0, e1, lc));
                assert(keeps_cache(e1, *e, rest));
                lemma_keeps_cache_concat(e0, e1, *e, lc, rest);
                assert(e.instructions@.skip(e0.instructions@.len() as int) =~= lc + rest);
            }
        }
        proof {
            assert(slot_store_code(e1, slot, TEMP_RESULT) == slot_store_code(e0, slot, TEMP_RESULT));
            assert(e.instructions@ =~= e0.instructions@ + (lc + seq![c] + slot_store_code(
                e0,
                slot,
                TEMP_RESULT,
            )));
        }
        return Ok(());
    }
    proof {
        assert(e1.reg_const(3) == e0.reg_const(3));
        lemma_operand_code_frame(e1, e0, e1.slot_map(), rhs, TEMP2);
        lemma_register_compare_frame(e1, e0, pred);
        assert(e1.reg_const(5) == e0.reg_const(5));
        assert(slot_store_code(e1, slot, TEMP_RESULT) == slot_store_code(e0, slot, TEMP_RESULT));
    }
    let rr = finish_registers(e, pred, rhs, slot);
    proof {
        if rr is Ok {
            let rc = operand_code(e0, e1.slot_map(), rhs, TEMP2).unwrap();
            assert(e.instructions@ =~= e0.instructions@ + (lc + rc + register_compare(e0, pred)
                + slot_store_code(e0, slot, TEMP_RESULT)));
            if store_keeps_cache(e0, slot) {
                let rest = e.instructions@.skip(e1.instructions@.len() as int);
                assert(keeps_cache(e0, e1, lc));
                assert(keeps_cache(e1, *e, rest));
                lemma_keeps_cache_concat(e0, e1, *e, lc, rest);
                assert(e.instructions@.skip(e0.instructions@.len() as int) =~= lc + rest);
            }
        }
    }
    rr
}


/// A two-operand integer operation.
#[derive(Debug, Clone, Copy, PartialEq, Eq)]
pub enum BinaryOp {
    Add,
    Sub,
    Mul,
    UDiv,
    SDiv,
    URem,
    SRem,
    And,
    Or,
    Xor,
    Shl,
    LShr,
    AShr,
}

/// The instruction computing `op` of `TEMP1` and `TEMP2` into `TEMP_RESULT`,
/// in its 32-bit form when `is32` (the bitwise operations have one form).
pub open spec fn binary_instr(op: BinaryOp, is32: bool) -> Instruction {
    let (d, a, b) = (TEMP_RESULT, TEMP1, TEMP2);
    match op {
        BinaryOp::Add => if is32 { Instruction::Add32 { dst: d, src1: a, src2: b } } else { Instruction::Add64 { dst: d, src1: a, src2: b } },
        BinaryOp::Sub => if is32 { Instruction::Sub32 { dst: d, src1: a, src2: b } } else { Instruction::Sub64 { dst: d, src1: a, src2: b } },
        BinaryOp::Mul => if is32 { Instruction::Mul32 { dst: d, src1: a, src2: b } } else { Instruction::Mul64 { dst: d, src1: a, src2: b } },
        BinaryOp::UDiv => if is32 { Instruction::DivU32 { dst: d, src1: a, src2: b } } else { Instruction::DivU64 { dst: d, src1: a, src2: b } },
        BinaryOp::SDiv => if is32 { Instruction::DivS32 { dst: d, src1: a, src2: b } } else { Instruction::DivS64 { dst: d, src1: a, src2: b } },
        BinaryOp::URem => if is32 { Instruction::RemU32 { dst: d, src1: a, src2: b } } else { Instruction::RemU64 { dst: d, src1: a, src2: b } },
        BinaryOp::SRem => if is32 { Instruction::RemS32 { dst: d, src1: a, src2: b } } else { Instruction::RemS64 { dst: d, src1: a, src2: b } },
        BinaryOp::And => Instruction::And { dst: d, src1: a, src2: b },
        BinaryOp::Or => Instruction::Or { dst: d, src1: a, src2: b },
        BinaryOp::Xor => Instruction::Xor { dst: d, src1: a, src2: b },
        BinaryOp::Shl => if is32 { Instruction::ShloL32 { dst: d, src1: a, src2: b } } else { Instruction::ShloL64 { dst: d, src1: a, src2: b } },
        BinaryOp::LShr => if is32 { Instruction::ShloR32 { dst: d, src1: a, src2: b } } else { Instruction::ShloR64 { dst: d, src1: a, src2: b } },
        BinaryOp::AShr => if is32 { Instruction::SharR32 { dst: d, src1: a, src2: b } } else { Instruction::SharR64 { dst: d, src1: a, src2: b } },
    }
}

/// Division and remainder, which trap on a zero divisor.
pub open spec fn is_division(op: BinaryOp) -> bool {
    op is UDiv || op is SDiv || op is URem || op is SRem
}

/// The guards before `op`: a division traps on a zero divisor in `TEMP2`,
/// and a signed division also on `MIN / -1` (the register cache is empty
/// after the first guard, so the guard loads `i64::MIN` in full). A signed
/// remainder of `MIN` by -1 is 0 and gets no overflow guard.
pub open spec fn binary_guard(op: BinaryOp, is32: bool) -> Seq<Instruction> {
    if is_division(op) {
        seq![Instruction::BranchNeImm { reg: TEMP2, value: 0, offset: 0 }, Instruction::Trap] + (if op is SDiv {
            overflow_guard_seq(TEMP1, TEMP2, is32, false)
        } else {
            Seq::empty()
        })
    } else {
        Seq::empty()
    }
}

/// The immediate that an addition or subtraction of the constant `rhs`
/// adds, when it fits in 32 bits (for a subtraction, when its negation does).
pub open spec fn add_immediate(op: BinaryOp, rhs: Operand) -> Option<i32> {
    match rhs {
        Operand::Const(c) => match op {
            BinaryOp::Add => imm32_of(c),
            BinaryOp::Sub => if i32::MIN < c <= i32::MAX {
                Some((-c) as i32)
            } else {
                None
            },
            _ => None,
        },
        _ => None,
    }
}

/// The immediate add of `v` to `TEMP1` into `TEMP_RESULT`.
pub open spec fn add_imm_instr(v: i32, is32: bool) -> Instruction {
    if is32 {
        Instruction::AddImm32 { dst: TEMP_RESULT, src: TEMP1, value: v }
    } else {
        Instruction::AddImm64 { dst: TEMP_RESULT, src: TEMP1, value: v }
    }
}

/// The code of a binary operation computed into stack slot `slot`: `lhs`
/// loaded into `TEMP1`, then either one immediate add (an addition or
/// subtraction of a small constant), or `rhs` loaded into `TEMP2`, the
/// guards and the operation; then the store of `TEMP_RESULT`. `None` when
/// an operand that is needed has neither a register nor a slot.
#[verifier::opaque]
pub open spec fn binary_code(e: PvmEmitter, op: BinaryOp, lhs: Operand, rhs: Operand, slot: i32, is32: bool) -> Option<
    Seq<Instruction>,
> {
    let m0 = e.slot_map();
    match operand_code(e, m0, lhs, TEMP1) {
        None => None,
        Some(lc) => match add_immediate(op, rhs) {
            Some(v) => Some(lc + seq![add_imm_instr(v, is32)] + slot_store_code(e, slot, TEMP_RESULT)),
            None => {
                let m1 = slots_after_load(e, m0, e.reg_slot(TEMP1 as int), lhs, TEMP1);
                match operand_code(e, m1, rhs, TEMP2) {
                    None => None,
                    Some(rc) => Some(
                        lc + rc + binary_guard(op, is32) + seq![binary_instr(op, is32)]
                            + slot_store_code(e, slot, TEMP_RESULT),
                    ),
                }
            },
        },
    }
}

proof fn lemma_binary_code(e: PvmEmitter, op: BinaryOp, lhs: Operand, rhs: Operand, slot: i32, is32: bool)
    ensures
        operand_code(e, e.slot_map(), lhs, TEMP1) is None ==> binary_code(e, op, lhs, rhs, slot, is32) is None,
        operand_code(e, e.slot_map(), lhs, TEMP1) matches Some(lc) ==> match add_immediate(op, rhs) {
            Some(v) => binary_code(e, op, lhs, rhs, slot, is32) == Some(
                lc + seq![add_imm_instr(v, is32)] + slot_store_code(e, slot, TEMP_RESULT),
            ),
            None => {
                let m1 = slots_after_load(e, e.slot_map(), e.reg_slot(TEMP1 as int), lhs, TEMP1);
                &&& (binary_code(e, op, lhs, rhs, slot, is32) is Some <==> operand_code(e, m1, rhs, TEMP2) is Some)
                &&& operand_code(e, m1, rhs, TEMP2) matches Some(rc) ==> binary_code(e, op, lhs, rhs, slot, is32)
                    == Some(lc + rc + binary_guard(op, is32) + seq![binary_instr(op, is32)]
                        + slot_store_code(e, slot, TEMP_RESULT))
            },
        },
{
    reveal(binary_code);
}

fn add_imm(op: BinaryOp, rhs: Operand) -> (r: Option<i32>)
    ensures
        r == add_immediate(op, rhs),
{
    match rhs {
        Operand::Const(c) => match op {
            BinaryOp::Add => imm32(c),
            BinaryOp::Sub => if c > i32::MIN as i64 && c <= i32::MAX as i64 {
                Some((-c) as i32)
            } else {
                None
            },
            _ => None,
        },
        _ => None,
    }
}

/// Emit the guards and the operation on `TEMP1` and `TEMP2`.
#[verifier::spinoff_prover]
fn emit_binary_body(e: &mut PvmEmitter, op: BinaryOp, is32: bool)
    requires
        old(e).wf(),
        old(e).byte_offset + 96 <= usize::MAX,
    ensures
        final(e).wf(),
        final(e).same_body(old(e)),
        final(e).byte_offset <= old(e).byte_offset + 96,
        final(e).instructions@ == old(e).instructions@ + binary_guard(op, is32) + seq![binary_instr(op, is32)],
        final(e).labels@.len() == old(e).labels@.len() + (if is_division(op) { 1int } else { 0int }) + (if op is SDiv { 1int } else { 0int }),
        final(e).fixups@.len() == old(e).fixups@.len() + (if is_division(op) { 1int } else { 0int }) + (if op is SDiv { 2int } else { 0int }),
        final(e).labels@.take(old(e).labels@.len() as int) == old(e).labels@,
        final(e).fixups@.take(old(e).fixups@.len() as int) == old(e).fixups@,
{
    let ghost e0 = *e;
    let division = match op {
        BinaryOp::UDiv | BinaryOp::SDiv | BinaryOp::URem | BinaryOp::SRem => true,
        _ => false,
    };
    if division {
        emit_wasm_div_zero_trap(e, TEMP2);
        if let BinaryOp::SDiv = op {
            let ghost e1 = *e;
            emit_wasm_signed_overflow_trap(e, TEMP1, TEMP2, is32);
            proof {
                assert(e1.reg_const(4) is None);
                assert(overflow_guard_code(e1, TEMP1, TEMP2, is32) == overflow_guard_seq(TEMP1, TEMP2, is32, false));
            }
        }
    }
    let ghost e2 = *e;
    let instr = match op {
        BinaryOp::Add => if is32 { Instruction::Add32 { dst: TEMP_RESULT, src1: TEMP1, src2: TEMP2 } } else { Instruction::Add64 { dst: TEMP_RESULT, src1: TEMP1, src2: TEMP2 } },
        BinaryOp::Sub => if is32 { Instruction::Sub32 { dst: TEMP_RESULT, src1: TEMP1, src2: TEMP2 } } else { Instruction::Sub64 { dst: TEMP_RESULT, src1: TEMP1, src2: TEMP2 } },
        BinaryOp::Mul => if is32 { Instruction::Mul32 { dst: TEMP_RESULT, src1: TEMP1, src2: TEMP2 } } else { Instruction::Mul64 { dst: TEMP_RESULT, src1: TEMP1, src2: TEMP2 } },
        BinaryOp::UDiv => if is32 { Instruction::DivU32 { dst: TEMP_RESULT, src1: TEMP1, src2: TEMP2 } } else { Instruction::DivU64 { dst: TEMP_RESULT, src1: TEMP1, src2: TEMP2 } },
        BinaryOp::SDiv => if is32 { Instruction::DivS32 { dst: TEMP_RESULT, src1: TEMP1, src2: TEMP2 } } else { Instruction::DivS64 { dst: TEMP_RESULT, src1: TEMP1, src2: TEMP2 } },
        BinaryOp::URem => if is32 { Instruction::RemU32 { dst: TEMP_RESULT, src1: TEMP1, src2: TEMP2 } } else { Instruction::RemU64 { dst: TEMP_RESULT, src1: TEMP1, src2: TEMP2 } },
        BinaryOp::SRem => if is32 { Instruction::RemS32 { dst: TEMP_RESULT, src1: TEMP1, src2: TEMP2 } } else { Instruction::RemS64 { dst: TEMP_RESULT, src1: TEMP1, src2: TEMP2 } },
        BinaryOp::And => Instruction::And { dst: TEMP_RESULT, src1: TEMP1, src2: TEMP2 },
        BinaryOp::Or => Instruction::Or { dst: TEMP_RESULT, src1: TEMP1, src2: TEMP2 },
        BinaryOp::Xor => Instruction::Xor { dst: TEMP_RESULT, src1: TEMP1, src2: TEMP2 },
        BinaryOp::Shl => if is32 { Instruction::ShloL32 { dst: TEMP_RESULT, src1: TEMP1, src2: TEMP2 } } else { Instruction::ShloL64 { dst: TEMP_RESULT, src1: TEMP1, src2: TEMP2 } },
        BinaryOp::LShr => if is32 { Instruction::ShloR32 { dst: TEMP_RESULT, src1: TEMP1, src2: TEMP2 } } else { Instruction::ShloR64 { dst: TEMP_RESULT, src1: TEMP1, src2: TEMP2 } },
        BinaryOp::AShr => if is32 { Instruction::SharR32 { dst: TEMP_RESULT, src1: TEMP1, src2: TEMP2 } } else { Instruction::SharR64 { dst: TEMP_RESULT, src1: TEMP1, src2: TEMP2 } },
    };
    assert(instr == binary_instr(op, is32));
    assert(instr.encoding().len() == 3);
    e.emit(instr);
    proof {
        assert(e.instructions@ =~= e0.instructions@ + binary_guard(op, is32) + seq![binary_instr(op, is32)]);
        assert(e.labels@.take(e0.labels@.len() as int) =~= e0.labels@);
        assert(e.fixups@.take(e0.fixups@.len() as int) =~= e0.fixups@);
    }
}

/// Load `rhs` into `TEMP2`, emit the guards and `op`, and store the result.
fn finish_binary(e: &mut PvmEmitter, op: BinaryOp, rhs: Operand, slot: i32, is32: bool) -> (r: Result<()>)
    requires
        old(e).wf(),
        old(e).byte_offset + 120 <= usize::MAX,
    ensures
        final(e).wf(),
        final(e).same_body(old(e)),
        final(e).labels@.take(old(e).labels@.len() as int) == old(e).labels@,
        final(e).fixups@.take(old(e).fixups@.len() as int) == old(e).fixups@,
        r is Ok <==> operand_code(*old(e), old(e).slot_map(), rhs, TEMP2) is Some,
        r is Ok ==> final(e).instructions@ == old(e).instructions@ + operand_code(
            *old(e),
            old(e).slot_map(),
            rhs,
            TEMP2,
        ).unwrap() + binary_guard(op, is32) + seq![binary_instr(op, is32)] + slot_store_code(
            *old(e),
            slot,
            TEMP_RESULT,
        ),
{
    let ghost e0 = *e;
    let rr = e.load_operand(rhs, TEMP2);
    if rr.is_err() {
        assert(e.labels@.take(e0.labels@.len() as int) =~= e0.labels@);
        assert(e.fixups@.take(e0.fixups@.len() as int) =~= e0.fixups@);
        return rr;
    }
    let ghost e1 = *e;
    emit_binary_body(e, op, is32);
    let ghost e2 = *e;
    e.store_to_slot(slot, TEMP_RESULT);
    proof {
        assert(e1.labels@ == e0.labels@);
        assert(e1.fixups@ == e0.fixups@);
        assert(e.labels@ == e2.labels@);
        assert(e.fixups@ == e2.fixups@);
        assert(e.instructions@ =~= e0.instructions@ + operand_code(e0, e0.slot_map(), rhs, TEMP2).unwrap()
            + binary_guard(op, is32) + seq![binary_instr(op, is32)] + slot_store_code(e0, slot, TEMP_RESULT));
    }
    Ok(())
}

/// Lower a binary integer operation of `bits` bits whose result goes to
/// stack slot `slot`. An addition or subtraction of a constant that fits in
/// 32 bits becomes one immediate add; a division or remainder is guarded by
/// a trap on a zero divisor, and a signed division also by a trap on
/// `MIN / -1`. Fails when an operand has neither a register nor a slot.
#[verifier::spinoff_prover]
#[verifier::rlimit(60)]
pub fn lower_binary_arith(
    e: &mut PvmEmitter,
    op: BinaryOp,
    lhs: Operand,
    rhs: Operand,
    slot: i32,
    bits: u32,
) -> (r: Result<()>)
    requires
        old(e).wf(),
        old(e).byte_offset + 160 <= usize::MAX,
    ensures
        final(e).wf(),
        final(e).same_body(old(e)),
        final(e).labels@.take(old(e).labels@.len() as int) == old(e).labels@,
        final(e).fixups@.take(old(e).fixups@.len() as int) == old(e).fixups@,
        r is Ok <==> binary_code(*old(e), op, lhs, rhs, slot, bits <= 32) is Some,
        r is Ok ==> final(e).instructions@ == old(e).instructions@ + binary_code(
            *old(e),
            op,
            lhs,
            rhs,
            slot,
            bits <= 32,
        ).unwrap(),
{
    let ghost e0 = *e;
    let is32 = bits <= 32;
    proof {
        lemma_binary_code(e0, op, lhs, rhs, slot, is32);
    }
    let imm = add_imm(op, rhs);
    let lr = e.load_operand(lhs, TEMP1);
    if lr.is_err() {
        assert(e.labels@.take(e0.labels@.len() as int) =~= e0.labels@);
        assert(e.fixups@.take(e0.fixups@.len() as int) =~= e0.fixups@);
        return lr;
    }
    let ghost e1 = *e;
    let ghost lc = operand_code(e0, e0.slot_map(), lhs, TEMP1).unwrap();
    if let Some(v) = imm {
        let c = if is32 {
            Instruction::AddImm32 { dst: TEMP_RESULT, src: TEMP1, value: v }
        } else {
            Instruction::AddImm64 { dst: TEMP_RESULT, src: TEMP1, value: v }
        };
        assert(c == add_imm_instr(v, is32));
        assert(c.encoding().len() <= 6);
        finish_immediate(e, c, slot);
        proof {
            assert(slot_store_code(e1, slot, TEMP_RESULT) == slot_store_code(e0, slot, TEMP_RESULT));
            assert(e.instructions@ =~= e0.instructions@ + (lc + seq![c] + slot_store_code(
                e0,
                slot,
                TEMP_RESULT,
            )));
            assert(e.labels@.take(e0.labels@.len() as int) =~= e0.labels@);
            assert(e.fixups@.take(e0.fixups@.len() as int) =~= e0.fixups@);
        }
        return Ok(());
    }
    proof {
        assert(e1.reg_const(3) == e0.reg_const(3));
        lemma_operand_code_frame(e1, e0, e1.slot_map(), rhs, TEMP2);
        assert(slot_store_code(e1, slot, TEMP_RESULT) == slot_store_code(e0, slot, TEMP_RESULT));
    }
    let rr = finish_binary(e, op, rhs, slot, is32);
    proof {
        assert(e1.labels@ == e0.labels@);
        assert(e1.fixups@ == e0.fixups@);
        if rr is Ok {
            let rc = operand_code(e0, e1.slot_map(), rhs, TEMP2).unwrap();
            assert(e.instructions@ =~= e0.instructions@ + (lc + rc + binary_guard(op, is32) + seq![
                binary_instr(op, is32),
            ] + slot_store_code(e0, slot, TEMP_RESULT)));
        }
    }
    rr
}

/// A constant load into `TEMP2`, dropped when `TEMP2` already holds it.
pub open spec fn temp2_const(e: PvmEmitter, value: i32) -> Seq<Instruction> {
    let i = Instruction::LoadImm { reg: TEMP2, value };
    if e.emit_skips(i) {
        Seq::empty()
    } else {
        seq![i]
    }
}

/// Zero extension of the `from_bits`-bit value in `TEMP1`: a 32-bit value
/// has its upper half cleared by shifting left then right by 32; a 1-bit
/// value and any other width are left as they are.
pub open spec fn zext_code(e: PvmEmitter, from_bits: u32) -> Seq<Instruction> {
    if from_bits == 32 {
        temp2_const(e, 32) + seq![
            Instruction::ShloL64 { dst: TEMP1, src1: TEMP1, src2: TEMP2 },
            Instruction::ShloR64 { dst: TEMP1, src1: TEMP1, src2: TEMP2 },
        ]
    } else {
        Seq::empty()
    }
}

/// Sign extension of the `from_bits`-bit value in `TEMP1`: a 1-bit value is
/// negated (0 - v), 8 and 16 bits use the sign-extension instructions, 32
/// bits an immediate add of 0; any other width is left as it is.
pub open spec fn sext_code(e: PvmEmitter, from_bits: u32) -> Seq<Instruction> {
    if from_bits == 1 {
        temp2_const(e, 0) + seq![Instruction::Sub64 { dst: TEMP1, src1: TEMP2, src2: TEMP1 }]
    } else if from_bits == 8 {
        seq![Instruction::SignExtend8 { dst: TEMP1, src: TEMP1 }]
    } else if from_bits == 16 {
        seq![Instruction::SignExtend16 { dst: TEMP1, src: TEMP1 }]
    } else if from_bits == 32 {
        seq![Instruction::AddImm32 { dst: TEMP1, src: TEMP1, value: 0 }]
    } else {
        Seq::empty()
    }
}

/// Truncation of the value in `TEMP1` to `result_bits` bits: to one bit by
/// masking with 1, to at most 32 bits by an immediate add of 0 (which keeps
/// the sign-extended low half); a 64-bit result is left as it is.
pub open spec fn trunc_code(e: PvmEmitter, result_bits: u32) -> Seq<Instruction> {
    if result_bits == 1 {
        temp2_const(e, 1) + seq![Instruction::And { dst: TEMP1, src1: TEMP1, src2: TEMP2 }]
    } else if result_bits <= 32 {
        seq![Instruction::AddImm32 { dst: TEMP1, src: TEMP1, value: 0 }]
    } else {
        Seq::empty()
    }
}

/// Which conversion a width change is.
#[derive(Debug, Clone, Copy, PartialEq, Eq)]
pub enum WidthChange {
    ZeroExtend,
    SignExtend,
    Truncate,
}

/// The code of a width change of the value in `TEMP1` (`bits` is the source
/// width of an extension, the result width of a truncation).
pub open spec fn width_change_code(e: PvmEmitter, kind: WidthChange, bits: u32) -> Seq<Instruction> {
    match kind {
        WidthChange::ZeroExtend => zext_code(e, bits),
        WidthChange::SignExtend => sext_code(e, bits),
        WidthChange::Truncate => trunc_code(e, bits),
    }
}

/// Emit the width change of the value in `TEMP1`.
fn emit_width_change(e: &mut PvmEmitter, kind: WidthChange, bits: u32)
    requires
        old(e).wf(),
        old(e).byte_offset + 16 <= usize::MAX,
    ensures
        final(e).wf(),
        final(e).same_frame(old(e)),
        final(e).byte_offset <= old(e).byte_offset + 16,
        final(e).instructions@ == old(e).instructions@ + width_change_code(*old(e), kind, bits),
        // A truthful register cache stays truthful.
        keeps_cache(*old(e), *final(e), width_change_code(*old(e), kind, bits)),
{
    let ghost e0 = *e;
    let ghost mut p: Seq<Instruction> = Seq::empty();
    let (konst, first, second): (Option<i32>, Option<Instruction>, Option<Instruction>) = match kind {
        WidthChange::ZeroExtend => if bits == 32 {
            (
                Some(32),
                Some(Instruction::ShloL64 { dst: TEMP1, src1: TEMP1, src2: TEMP2 }),
                Some(Instruction::ShloR64 { dst: TEMP1, src1: TEMP1, src2: TEMP2 }),
            )
        } else {
            (None, None, None)
        },
        WidthChange::SignExtend => if bits == 1 {
            (Some(0), Some(Instruction::Sub64 { dst: TEMP1, src1: TEMP2, src2: TEMP1 }), None)
        } else if bits == 8 {
            (None, Some(Instruction::SignExtend8 { dst: TEMP1, src: TEMP1 }), None)
        } else if bits == 16 {
            (None, Some(Instruction::SignExtend16 { dst: TEMP1, src: TEMP1 }), None)
        } else if bits == 32 {
            (None, Some(Instruction::AddImm32 { dst: TEMP1, src: TEMP1, value: 0 }), None)
        } else {
            (None, None, None)
        },
        WidthChange::Truncate => if bits == 1 {
            (Some(1), Some(Instruction::And { dst: TEMP1, src1: TEMP1, src2: TEMP2 }), None)
        } else if bits <= 32 {
            (None, Some(Instruction::AddImm32 { dst: TEMP1, src: TEMP1, value: 0 }), None)
        } else {
            (None, None, None)
        },
    };
    proof {
        lemma_keeps_cache_empty(e0);
    }
    assert(e.instructions@ =~= e0.instructions@ + p);
    if let Some(v) = konst {
        let ld = Instruction::LoadImm { reg: TEMP2, value: v };
        assert(ld.encoding().len() <= 6);
        let ghost prev = *e;
        e.emit(ld);
        proof {
            let q = if prev.emit_skips(ld) { p } else { p.push(ld) };
            lemma_emit_keeps_cache(e0, prev, *e, p, q, ld);
            p = q;
        }
        assert(e.instructions@ =~= e0.instructions@ + p);
    }
    let ghost e1 = *e;
    if let Some(i) = first {
        assert(i.encoding().len() <= 3);
        let ghost prev = *e;
        e.emit(i);
        proof {
            assert(reg_op(i));
            let q = if prev.emit_skips(i) { p } else { p.push(i) };
            lemma_emit_keeps_cache(e0, prev, *e, p, q, i);
            p = q;
        }
        assert(e.instructions@ =~= e0.instructions@ + p);
    }
    if let Some(i) = second {
        assert(i.encoding().len() <= 3);
        let ghost prev = *e;
        e.emit(i);
        proof {
            assert(reg_op(i));
            let q = if prev.emit_skips(i) { p } else { p.push(i) };
            lemma_emit_keeps_cache(e0, prev, *e, p, q, i);
            p = q;
        }
        assert(e.instructions@ =~= e0.instructions@ + p);
    }
    assert(e.instructions@ =~= e0.instructions@ + width_change_code(e0, kind, bits));
    assert(p =~= (e0.instructions@ + p).skip(e0.instructions@.len() as int));
    assert(p =~= width_change_code(e0, kind, bits)) by {
        assert(width_change_code(e0, kind, bits) =~= (e0.instructions@ + width_change_code(e0, kind, bits)).skip(
            e0.instructions@.len() as int,
        ));
    }
}

/// Lower a width change (zero or sign extension, or truncation) of `src`
/// into stack slot `slot`: load it into `TEMP1`, convert, store `TEMP1`.
/// Fails when `src` has neither a register nor a stack slot.
#[verifier::spinoff_prover]
#[verifier::rlimit(50)]
pub fn lower_width_change(e: &mut PvmEmitter, kind: WidthChange, src: Operand, slot: i32, bits: u32) -> (r:
    Result<()>)
    requires
        old(e).wf(),
        old(e).byte_offset + 40 <= usize::MAX,
    ensures
        final(e).wf(),
        final(e).same_frame(old(e)),
        r is Ok <==> operand_code(*old(e), old(e).slot_map(), src, TEMP1) is Some,
        r is Ok ==> final(e).instructions@ == old(e).instructions@ + operand_code(
            *old(e),
            old(e).slot_map(),
            src,
            TEMP1,
        ).unwrap() + width_change_code(*old(e), kind, bits) + slot_store_code(*old(e), slot, TEMP1),
        // A truthful register cache stays truthful (see `store_keeps_cache`).
        r is Ok && store_keeps_cache(*old(e), slot) ==> keeps_cache(*old(e), *final(e), code_since(*old(e), *final(e))),
{
    let ghost e0 = *e;
    let lr = e.load_operand(src, TEMP1);
    if lr.is_err() {
        return lr;
    }
    let ghost e1 = *e;
    emit_width_change(e, kind, bits);
    let ghost e2 = *e;
    e.store_to_slot(slot, TEMP1);
    proof {
        assert(e1.reg_const(3) == e0.reg_const(3));
        assert(width_change_code(e1, kind, bits) == width_change_code(e0, kind, bits));
        assert(e.instructions@ =~= e0.instructions@ + operand_code(e0, e0.slot_map(), src, TEMP1).unwrap()
            + width_change_code(e0, kind, bits) + slot_store_code(e0, slot, TEMP1));
        if store_keeps_cache(e0, slot) {
            let lc = operand_code(e0, e0.slot_map(), src, TEMP1).unwrap();
            let wc = width_change_code(e1, kind, bits);
            let sc = e.instructions@.skip(e2.instructions@.len() as int);
            assert(e2.instructions@ =~= e0.instructions@ + lc + wc);
            assert(e.instructions@.skip(e0.instructions@.len() as int) =~= lc + wc + sc);
            assert(keeps_cache(e0, e1, lc));
            assert(keeps_cache(e1, e2, wc));
            lemma_keeps_cache_intro(e2, *e, sc);
            lemma_keeps_cache_concat(e0, e1, e2, lc, wc);
            lemma_keeps_cache_concat(e0, e2, *e, lc + wc, sc);
        }
    }
    Ok(())
}

/// Lower `zext` from `from_bits` bits (see `zext_code`).
pub fn lower_zext(e: &mut PvmEmitter, src: Operand, slot: i32, from_bits: u32) -> (r: Result<()>)
    requires
        old(e).wf(),
        old(e).byte_offset + 40 <= usize::MAX,
    ensures
        final(e).wf(),
        final(e).same_frame(old(e)),
        r is Ok <==> operand_code(*old(e), old(e).slot_map(), src, TEMP1) is Some,
        r is Ok ==> final(e).instructions@ == old(e).instructions@ + operand_code(
            *old(e),
            old(e).slot_map(),
            src,
            TEMP1,
        ).unwrap() + zext_code(*old(e), from_bits) + slot_store_code(*old(e), slot, TEMP1),
        // A truthful register cache stays truthful (see `store_keeps_cache`).
        r is Ok && store_keeps_cache(*old(e), slot) ==> keeps_cache(*old(e), *final(e), code_since(*old(e), *final(e))),
{
    lower_width_change(e, WidthChange::ZeroExtend, src, slot, from_bits)
}

/// Lower `sext` from `from_bits` bits (see `sext_code`).
pub fn lower_sext(e: &mut PvmEmitter, src: Operand, slot: i32, from_bits: u32) -> (r: Result<()>)
    requires
        old(e).wf(),
        old(e).byte_offset + 40 <= usize::MAX,
    ensures
        final(e).wf(),
        final(e).same_frame(old(e)),
        r is Ok <==> operand_code(*old(e), old(e).slot_map(), src, TEMP1) is Some,
        r is Ok ==> final(e).instructions@ == old(e).instructions@ + operand_code(
            *old(e),
            old(e).slot_map(),
            src,
            TEMP1,
        ).unwrap() + sext_code(*old(e), from_bits) + slot_store_code(*old(e), slot, TEMP1),
        // A truthful register cache stays truthful (see `store_keeps_cache`).
        r is Ok && store_keeps_cache(*old(e), slot) ==> keeps_cache(*old(e), *final(e), code_since(*old(e), *final(e))),
{
    lower_width_change(e, WidthChange::SignExtend, src, slot, from_bits)
}

/// Lower `trunc` to `result_bits` bits (see `trunc_code`).
pub fn lower_trunc(e: &mut PvmEmitter, src: Operand, slot: i32, result_bits: u32) -> (r: Result<()>)
    requires
        old(e).wf(),
        old(e).byte_offset + 40 <= usize::MAX,
    ensures
        final(e).wf(),
        final(e).same_frame(old(e)),
        r is Ok <==> operand_code(*old(e), old(e).slot_map(), src, TEMP1) is Some,
        r is Ok ==> final(e).instructions@ == old(e).instructions@ + operand_code(
            *old(e),
            old(e).slot_map(),
            src,
            TEMP1,
        ).unwrap() + trunc_code(*old(e), result_bits) + slot_store_code(*old(e), slot, TEMP1),
        // A truthful register cache stays truthful (see `store_keeps_cache`).
        r is Ok && store_keeps_cache(*old(e), slot) ==> keeps_cache(*old(e), *final(e), code_since(*old(e), *final(e))),
{
    lower_width_change(e, WidthChange::Truncate, src, slot, result_bits)
}

} // verus!
