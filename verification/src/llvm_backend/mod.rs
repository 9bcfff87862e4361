//! The LLVM-IR-to-PVM backend, on operands given as plain values (constants,
//! value keys, undefined values): the code emitter and its register cache,
//! operand loading, register allocation, the function prologue and epilogue,
//! parallel-move resolution for phi copies, integer comparisons and binary
//! arithmetic with the trap guards around division, and `memory.copy`.

pub mod alu;
pub mod control_flow;
pub mod emitter;
pub mod memory;
pub mod regalloc;

pub use emitter::{LlvmCallFixup, LlvmIndirectCallFixup};

use crate::abi::{
    ARGS_LEN_REG, ARGS_PTR_REG, FIRST_LOCAL_REG, MAX_LOCAL_REGS, RETURN_ADDR_REG, STACK_PTR_REG,
    TEMP1, TEMP2,
};
use crate::error::{Error, Result};
use crate::memory_layout::stack_limit;
use crate::pvm::blob::code_bytes;
use crate::pvm::instruction::Instruction;
use crate::text::{dec_digits, push_dec};
use control_flow::{epilogue_code, lemma_run_concat, restore_code, run_slots, SlotState};
use emitter::{const_after, PvmEmitter, ValKey};
use vstd::prelude::*;

verus! {

/// The stores that save the callee-saved registers r9.. into their save
/// slots, for the first `n` of them, in register order (a register with no
/// save slot is not saved).
pub open spec fn save_code(offsets: Seq<Option<i32>>, n: int) -> Seq<Instruction>
    decreases n,
{
    if n <= 0 {
        Seq::empty()
    } else {
        save_code(offsets, n - 1) + match offsets[n - 1] {
            Some(off) => seq![
                Instruction::StoreIndU64 {
                    base: STACK_PTR_REG,
                    src: (FIRST_LOCAL_REG + n - 1) as u8,
                    offset: off,
                },
            ],
            None => Seq::empty(),
        }
    }
}

/// What storing register `src` into stack slot `slot` emits into `e`: a copy
/// into the slot's allocated register when it has one other than `src`, then
/// the store.
pub open spec fn slot_store_code(e: PvmEmitter, slot: i32, src: u8) -> Seq<Instruction> {
    (if e.regalloc.slot_to_reg@.contains_key(slot) && e.regalloc.slot_to_reg@[slot] != src {
        seq![Instruction::MoveReg { dst: e.regalloc.slot_to_reg@[slot], src }]
    } else {
        Seq::empty()
    }) + seq![Instruction::StoreIndU64 { base: STACK_PTR_REG, src, offset: slot }]
}

/// The code that copies parameter `i` into its stack slot `slot`. The entry
/// function gets the arguments pointer in r7 (moved down by the WASM memory
/// base) and the arguments length in r8, and ignores further parameters;
/// another function gets its first four parameters in r9-r12 and the rest in
/// the parameter overflow area, 8 bytes each from `overflow_base`.
pub open spec fn param_code(e: PvmEmitter, i: int, slot: i32, is_main: bool, overflow_base: i32) -> Seq<
    Instruction,
> {
    if is_main {
        if i == 0 {
            seq![
                Instruction::AddImm64 {
                    dst: ARGS_PTR_REG,
                    src: ARGS_PTR_REG,
                    value: (-e.config.wasm_memory_base) as i32,
                },
            ] + slot_store_code(e, slot, ARGS_PTR_REG)
        } else if i == 1 {
            slot_store_code(e, slot, ARGS_LEN_REG)
        } else {
            Seq::empty()
        }
    } else if i < MAX_LOCAL_REGS {
        slot_store_code(e, slot, (FIRST_LOCAL_REG + i) as u8)
    } else {
        seq![
            Instruction::LoadImm { reg: TEMP1, value: (overflow_base + (i - MAX_LOCAL_REGS) * 8) as i32 },
            Instruction::LoadIndU64 { dst: TEMP1, base: TEMP1, offset: 0 },
        ] + slot_store_code(e, slot, TEMP1)
    }
}

/// The parameter copies of the first `n` parameters.
pub open spec fn params_code(
    e: PvmEmitter,
    keys: Seq<ValKey>,
    n: int,
    is_main: bool,
    overflow_base: i32,
) -> Seq<Instruction>
    decreases n,
{
    if n <= 0 {
        Seq::empty()
    } else {
        params_code(e, keys, n - 1, is_main, overflow_base) + param_code(
            e,
            n - 1,
            e.slots()[keys[n - 1].0],
            is_main,
            overflow_base,
        )
    }
}

/// The stack-overflow guard of a function: load the stack limit (dropped
/// when constant propagation knows `TEMP1` holds it), compute the new stack
/// pointer, branch past a trap when it is at or above the limit.
pub open spec fn overflow_guard(e: PvmEmitter, limit: i32) -> Seq<Instruction> {
    let limit_load = Instruction::LoadImm64 { reg: TEMP1, value: (limit as u32) as u64 };
    (if e.emit_skips(limit_load) {
        Seq::empty()
    } else {
        seq![limit_load]
    }) + seq![
        Instruction::AddImm64 { dst: TEMP2, src: STACK_PTR_REG, value: (-e.frame_size) as i32 },
        Instruction::BranchGeU { reg1: TEMP1, reg2: TEMP2, offset: 0 },
        Instruction::Trap,
    ]
}

/// The prologue before the parameter copies: the entry function only
/// allocates its frame; another function first checks for stack overflow,
/// then allocates its frame, saves the return address when it makes calls,
/// and saves the callee-saved registers that have save slots.
pub open spec fn prologue_head(e: PvmEmitter, limit: i32, is_main: bool) -> Seq<Instruction> {
    let alloc = Instruction::AddImm64 {
        dst: STACK_PTR_REG,
        src: STACK_PTR_REG,
        value: (-e.frame_size) as i32,
    };
    if is_main {
        seq![alloc]
    } else {
        overflow_guard(e, limit) + seq![alloc] + (if e.has_calls {
            seq![Instruction::StoreIndU64 { base: STACK_PTR_REG, src: RETURN_ADDR_REG, offset: 0 }]
        } else {
            Seq::empty()
        }) + save_code(e.callee_save_offsets@, 4)
    }
}

/// The message for a parameter that has no stack slot.
pub open spec fn unslotted_message(i: nat, key: nat) -> Seq<char> {
    "no slot for parameter "@ + dec_digits(i) + " (key ValKey("@ + dec_digits(key) + "))"@
}

/// The stack limit for a stack of `stack_size` bytes.
pub open spec fn stack_limit_of(stack_size: u32) -> i32 {
    vstd::wrapping::u32_specs::wrapping_sub(0xFEFE_0000u32, stack_size) as i32
}

/// Emit the stack-overflow guard: branch past a trap, to a fresh label
/// defined right after it, when the new stack pointer is at or above the
/// stack limit.
fn emit_stack_guard(e: &mut PvmEmitter, stack_size: u32)
    requires
        old(e).wf(),
        old(e).frame_size != i32::MIN,
        old(e).byte_offset + 25 <= usize::MAX,
    ensures
        final(e).wf(),
        final(e).same_body(old(e)),
        final(e).instructions@ == old(e).instructions@ + overflow_guard(*old(e), stack_limit_of(stack_size)),
        final(e).labels@ == old(e).labels@.push(
            Some(code_bytes(old(e).instructions@ + overflow_guard(*old(e), stack_limit_of(stack_size))).len() as usize),
        ),
        final(e).fixups@ == old(e).fixups@.push(
            (
                (old(e).instructions@.len() + overflow_guard(*old(e), stack_limit_of(stack_size)).len() - 2) as usize,
                old(e).labels@.len() as usize,
            ),
        ),
        final(e).cache_empty(),
        final(e).byte_offset <= old(e).byte_offset + 25,
{
    let ghost e0 = *e;
    let ghost start = e.instructions@;
    let limit = stack_limit(stack_size);
    let continue_label = e.alloc_label();

    // Must use LoadImm64 (not LoadImm) because the limit is in the 0xFExx_xxxx
    // range which is negative as i32. LoadImm sign-extends to i64, producing
    // 0xFFFFFFFF_FExx_xxxx which breaks unsigned comparison.
    let limit_load = Instruction::LoadImm64 { reg: TEMP1, value: (limit as u32) as u64 };
    assert(limit_load.encoding().len() == 10);
    e.emit(limit_load);
    let new_sp = Instruction::AddImm64 { dst: TEMP2, src: STACK_PTR_REG, value: -e.frame_size };
    assert(new_sp.encoding().len() <= 6);
    e.emit(new_sp);
    // Branch to continue if new_sp >= limit.
    // BranchGeU { reg1, reg2 } branches if reg2 >= reg1.
    let fixup_idx = e.instructions.len();
    e.fixups.push((fixup_idx, continue_label));
    let branch = Instruction::BranchGeU { reg1: TEMP1, reg2: TEMP2, offset: 0 };
    assert(branch.encoding().len() <= 7);
    e.emit(branch);
    assert(Instruction::Trap.encoding().len() == 1);
    e.emit(Instruction::Trap);
    proof {
        assert(e.instructions@ =~= start + overflow_guard(e0, stack_limit_of(stack_size)));
    }
    e.define_label(continue_label);
    proof {
        assert(e.labels@ =~= e0.labels@.push(
            Some(code_bytes(start + overflow_guard(e0, stack_limit_of(stack_size))).len() as usize),
        ));
    }
}

/// Allocate the stack frame; outside the entry function also save the
/// return address (when the function makes calls) and the callee-saved
/// registers that have save slots.
fn emit_frame_setup(e: &mut PvmEmitter, is_main: bool)
    requires
        old(e).wf(),
        old(e).frame_size != i32::MIN,
        old(e).byte_offset + 36 <= usize::MAX,
    ensures
        final(e).wf(),
        final(e).same_body(old(e)),
        final(e).labels@ == old(e).labels@,
        final(e).fixups@ == old(e).fixups@,
        final(e).instructions@ == old(e).instructions@ + seq![
            Instruction::AddImm64 {
                dst: STACK_PTR_REG,
                src: STACK_PTR_REG,
                value: (-old(e).frame_size) as i32,
            },
        ] + (if is_main {
            Seq::empty()
        } else {
            (if old(e).has_calls {
                seq![Instruction::StoreIndU64 { base: STACK_PTR_REG, src: RETURN_ADDR_REG, offset: 0 }]
            } else {
                Seq::empty()
            }) + save_code(old(e).callee_save_offsets@, 4)
        }),
        final(e).byte_offset <= old(e).byte_offset + 36,
        old(e).reg_const(TEMP1 as int) is None ==> final(e).reg_const(TEMP1 as int) is None,
{
    let ghost e0 = *e;
    let ghost start = e.instructions@;
    // Allocate stack frame (needed for SSA slot storage in all functions).
    let alloc = Instruction::AddImm64 { dst: STACK_PTR_REG, src: STACK_PTR_REG, value: -e.frame_size };
    assert(alloc.encoding().len() <= 6);
    e.emit(alloc);
    proof {
        assert(e.reg_const(TEMP1 as int) == const_after_alloc(e0, alloc));
    }
    let ghost after_alloc = e.instructions@;
    if !is_main {
        // Save return address (only if function makes calls).
        if e.has_calls {
            let save_ra = Instruction::StoreIndU64 { base: STACK_PTR_REG, src: RETURN_ADDR_REG, offset: 0 };
            assert(save_ra.encoding().len() <= 6);
            let ghost before = *e;
            e.emit(save_ra);
            proof {
                assert(e.reg_const(TEMP1 as int) == before.reg_const(TEMP1 as int));
            }
        }
        // Save callee-saved registers r9-r12 (only those actually used).
        let ghost saves_start = e.instructions@;
        let ghost t1 = e.reg_const(TEMP1 as int);
        let mut i: usize = 0;
        while i < MAX_LOCAL_REGS
            invariant
                i <= 4,
                e.wf(),
                e.same_body(&e0),
                e.labels@ == e0.labels@,
                e.fixups@ == e0.fixups@,
                e0.byte_offset + 36 <= usize::MAX,
                e.byte_offset <= e0.byte_offset + 12 + 6 * i,
                e.instructions@ == saves_start + save_code(e0.callee_save_offsets@, i as int),
                e.reg_const(TEMP1 as int) == t1,
            decreases 4 - i,
        {
            if let Some(offset) = e.callee_save_offsets[i] {
                let save = Instruction::StoreIndU64 {
                    base: STACK_PTR_REG,
                    src: FIRST_LOCAL_REG + i as u8,
                    offset,
                };
                assert(save.encoding().len() <= 6);
                let ghost before = *e;
                e.emit(save);
                proof {
                    assert(e.reg_const(TEMP1 as int) == before.reg_const(TEMP1 as int));
                }
            }
            proof {
                assert(e.instructions@ =~= saves_start + save_code(e0.callee_save_offsets@, i + 1));
            }
            i += 1;
        }
    }
    proof {
        assert(e.instructions@ =~= start + seq![alloc] + (if is_main {
            Seq::empty()
        } else {
            (if e0.has_calls {
                seq![Instruction::StoreIndU64 { base: STACK_PTR_REG, src: RETURN_ADDR_REG, offset: 0 }]
            } else {
                Seq::empty()
            }) + save_code(e0.callee_save_offsets@, 4)
        }));
    }
}

/// The constant `TEMP1` is known to hold after the frame allocation.
spec fn const_after_alloc(e: PvmEmitter, alloc: Instruction) -> Option<u64> {
    emitter::const_after(e.reg_const(TEMP1 as int), e.config.constant_propagation_enabled, alloc, TEMP1 as int)
}

/// Copy parameter `i` into its stack slot `slot`.
fn emit_param_copy(e: &mut PvmEmitter, i: usize, slot: i32, param_overflow_base: i32, is_main: bool)
    requires
        old(e).wf(),
        old(e).config.wasm_memory_base != i32::MIN,
        old(e).byte_offset + 32 <= usize::MAX,
        0 <= param_overflow_base,
        param_overflow_base + 8 * i + 8 <= i32::MAX,
        !is_main ==> old(e).reg_const(TEMP1 as int) is None,
    ensures
        final(e).wf(),
        final(e).same_body(old(e)),
        final(e).labels@ == old(e).labels@,
        final(e).fixups@ == old(e).fixups@,
        final(e).byte_offset <= old(e).byte_offset + 32,
        !is_main ==> final(e).reg_const(TEMP1 as int) is None,
        final(e).instructions@ == old(e).instructions@ + param_code(
            *old(e),
            i as int,
            slot,
            is_main,
            param_overflow_base,
        ),
{
    let ghost e0 = *e;
    let ghost start = e.instructions@;
    if is_main {
        // For main, SPI passes r7=args_ptr, r8=args_len.
        // Adjust args_ptr by subtracting wasm_memory_base.
        if i == 0 {
            let adjust = Instruction::AddImm64 {
                dst: ARGS_PTR_REG,
                src: ARGS_PTR_REG,
                value: -e.config.wasm_memory_base,
            };
            assert(adjust.encoding().len() <= 6);
            e.emit(adjust);
            e.store_to_slot(slot, ARGS_PTR_REG);
        } else if i == 1 {
            e.store_to_slot(slot, ARGS_LEN_REG);
        }
    } else if i < MAX_LOCAL_REGS {
        // First 4 params come in r9-r12.
        e.store_to_slot(slot, FIRST_LOCAL_REG + i as u8);
    } else {
        // Overflow params from the parameter overflow area.
        let overflow_offset = param_overflow_base + ((i - MAX_LOCAL_REGS) * 8) as i32;
        let load_addr = Instruction::LoadImm { reg: TEMP1, value: overflow_offset };
        assert(load_addr.encoding().len() <= 6);
        e.emit(load_addr);
        let load = Instruction::LoadIndU64 { dst: TEMP1, base: TEMP1, offset: 0 };
        assert(load.encoding().len() <= 6);
        let ghost mid = *e;
        e.emit(load);
        proof {
            assert(e.reg_const(TEMP1 as int) == const_after(
                mid.reg_const(TEMP1 as int),
                mid.config.constant_propagation_enabled,
                load,
                TEMP1 as int,
            ));
        }
        e.store_to_slot(slot, TEMP1);
    }
    proof {
        assert(e.instructions@ =~= start + param_code(e0, i as int, slot, is_main, param_overflow_base));
    }
}

/// Copy the parameters from their argument registers (or the parameter
/// overflow area) into their stack slots; an error for the first parameter
/// without a slot.
fn emit_param_copies(
    e: &mut PvmEmitter,
    param_keys: &[ValKey],
    param_overflow_base: i32,
    is_main: bool,
) -> (r: Result<()>)
    requires
        old(e).wf(),
        old(e).config.wasm_memory_base != i32::MIN,
        old(e).byte_offset + 32 * param_keys@.len() <= usize::MAX,
        0 <= param_overflow_base,
        param_overflow_base + 8 * param_keys@.len() <= i32::MAX,
        !is_main ==> old(e).reg_const(TEMP1 as int) is None,
    ensures
        final(e).wf(),
        final(e).labels@ == old(e).labels@,
        final(e).fixups@ == old(e).fixups@,
        match r {
            Ok(()) => {
                &&& forall|i: int|
                    0 <= i < param_keys@.len() ==> old(e).slots().contains_key(#[trigger] param_keys@[i].0)
                &&& final(e).instructions@ == old(e).instructions@ + params_code(
                    *old(e),
                    param_keys@,
                    param_keys@.len() as int,
                    is_main,
                    param_overflow_base,
                )
            },
            Err(err) => exists|i: int|
                #![trigger param_keys@[i]]
                {
                    &&& 0 <= i < param_keys@.len()
                    &&& !old(e).slots().contains_key(param_keys@[i].0)
                    &&& forall|j: int|
                        0 <= j < i ==> old(e).slots().contains_key(#[trigger] param_keys@[j].0)
                    &&& (err matches Error::Internal(m) && m@ == unslotted_message(
                        i as nat,
                        param_keys@[i].0 as nat,
                    ))
                    &&& final(e).instructions@ == old(e).instructions@ + params_code(
                        *old(e),
                        param_keys@,
                        i,
                        is_main,
                        param_overflow_base,
                    )
                },
        },
{
    let ghost e0 = *e;
    let ghost start = e.instructions@;
    let ghost n = param_keys@.len() as int;
    proof {
        assert(params_code(e0, param_keys@, 0, is_main, param_overflow_base) =~= Seq::<Instruction>::empty());
        assert(start + Seq::<Instruction>::empty() =~= start);
    }
    let mut i: usize = 0;
    while i < param_keys.len()
        invariant
            i <= n,
            n == param_keys@.len(),
            e0 == *old(e),
            start == e0.instructions@,
            e.wf(),
            e.same_body(&e0),
            e.labels@ == e0.labels@,
            e.fixups@ == e0.fixups@,
            e0.byte_offset + 32 * n <= usize::MAX,
            e0.config.wasm_memory_base != i32::MIN,
            0 <= param_overflow_base,
            param_overflow_base + 8 * n <= i32::MAX,
            !is_main ==> e.reg_const(TEMP1 as int) is None,
            e.byte_offset <= e0.byte_offset + 32 * i,
            forall|j: int| 0 <= j < i ==> e0.slots().contains_key(#[trigger] param_keys@[j].0),
            e.instructions@ == start + params_code(e0, param_keys@, i as int, is_main, param_overflow_base),
        decreases n - i,
    {
        let key = param_keys[i];
        let found = e.get_slot(key);
        if found.is_none() {
            let mut msg = String::from_str("no slot for parameter ");
            push_dec(&mut msg, i as u64);
            msg.append(" (key ValKey(");
            push_dec(&mut msg, key.0 as u64);
            msg.append("))");
            proof {
                assert(msg@ == unslotted_message(i as nat, param_keys@[i as int].0 as nat));
                assert(!e0.slots().contains_key(param_keys@[i as int].0));
                assert(param_keys@[i as int] == key);
            }
            return Err(Error::Internal(msg));
        }
        let slot = found.unwrap();
        let ghost before = e.instructions@;
        emit_param_copy(e, i, slot, param_overflow_base, is_main);
        proof {
            assert(e.instructions@ =~= start + params_code(
                e0,
                param_keys@,
                i + 1,
                is_main,
                param_overflow_base,
            ));
        }
        i += 1;
    }
    Ok(())
}

/// Emit function prologue. `param_keys` are the keys of the function's
/// parameters in order, `param_overflow_base` the address of the parameter
/// overflow area, and `stack_size` the module's stack size.
pub fn emit_prologue(
    e: &mut PvmEmitter,
    param_keys: &[ValKey],
    param_overflow_base: i32,
    stack_size: u32,
    is_main: bool,
) -> (r: Result<()>)
    requires
        old(e).wf(),
        old(e).frame_size != i32::MIN,
        old(e).config.wasm_memory_base != i32::MIN,
        old(e).byte_offset + 64 + 32 * param_keys@.len() <= usize::MAX,
        0 <= param_overflow_base,
        param_overflow_base + 8 * param_keys@.len() <= i32::MAX,
    ensures
        final(e).wf(),
        ({
            let head = prologue_head(*old(e), stack_limit_of(stack_size), is_main);
            let n = param_keys@.len() as int;
            match r {
                Ok(()) => {
                    &&& forall|i: int| 0 <= i < n ==> old(e).slots().contains_key(#[trigger] param_keys@[i].0)
                    &&& final(e).instructions@ == old(e).instructions@ + head + params_code(
                        *old(e),
                        param_keys@,
                        n,
                        is_main,
                        param_overflow_base,
                    )
                },
                Err(err) => exists|i: int|
                    #![trigger param_keys@[i]]
                    {
                        &&& 0 <= i < n
                        &&& !old(e).slots().contains_key(param_keys@[i].0)
                        &&& forall|j: int|
                            0 <= j < i ==> old(e).slots().contains_key(#[trigger] param_keys@[j].0)
                        &&& (err matches Error::Internal(m) && m@ == unslotted_message(
                            i as nat,
                            param_keys@[i].0 as nat,
                        ))
                        &&& final(e).instructions@ == old(e).instructions@ + head + params_code(
                            *old(e),
                            param_keys@,
                            i,
                            is_main,
                            param_overflow_base,
                        )
                    },
            }
        }),
        is_main ==> final(e).labels@ == old(e).labels@ && final(e).fixups@ == old(e).fixups@,
        !is_main ==> {
            let guard = overflow_guard(*old(e), stack_limit_of(stack_size));
            &&& final(e).labels@ == old(e).labels@.push(
                Some(code_bytes(old(e).instructions@ + guard).len() as usize),
            )
            &&& final(e).fixups@ == old(e).fixups@.push(
                ((old(e).instructions@.len() + guard.len() - 2) as usize, old(e).labels@.len() as usize),
            )
        },
{
    let ghost e0 = *e;
    let ghost start = e.instructions@;
    if !is_main {
        // Stack overflow check: verify SP - frame_size >= stack_limit.
        emit_stack_guard(e, stack_size);
    }
    let ghost e1 = *e;
    proof {
        if !is_main {
            assert(e1.reg_slot(TEMP1 as int) is None);
        }
    }
    emit_frame_setup(e, is_main);
    let ghost e2 = *e;
    proof {
        assert(e.instructions@ =~= start + prologue_head(e0, stack_limit_of(stack_size), is_main));
    }
    let r = emit_param_copies(e, param_keys, param_overflow_base, is_main);
    proof {
        assert(e2.slots() == e0.slots());
        assert(e2.regalloc == e0.regalloc && e2.config == e0.config);
        assert forall|k: int| k <= param_keys@.len() implies #[trigger] params_code(
            e2,
            param_keys@,
            k,
            is_main,
            param_overflow_base,
        ) == params_code(e0, param_keys@, k, is_main, param_overflow_base) by {
            lemma_params_code_frame(e2, e0, param_keys@, k, is_main, param_overflow_base);
        }
        match r {
            Ok(()) => {
                assert(e.instructions@ =~= start + prologue_head(e0, stack_limit_of(stack_size), is_main)
                    + params_code(e0, param_keys@, param_keys@.len() as int, is_main, param_overflow_base));
            },
            Err(_) => {
                let i = choose|i: int|
                    #![trigger param_keys@[i]]
                    0 <= i < param_keys@.len() && !e2.slots().contains_key(param_keys@[i].0) && (forall|j: int|
                        0 <= j < i ==> e2.slots().contains_key(#[trigger] param_keys@[j].0)) && e.instructions@
                        == e2.instructions@ + params_code(e2, param_keys@, i, is_main, param_overflow_base);
                assert(e.instructions@ =~= start + prologue_head(e0, stack_limit_of(stack_size), is_main)
                    + params_code(e0, param_keys@, i, is_main, param_overflow_base));
            },
        }
    }
    r
}

/// The parameter copies depend only on the configuration, the slots and
/// the register allocation.
proof fn lemma_params_code_frame(
    a: PvmEmitter,
    b: PvmEmitter,
    keys: Seq<ValKey>,
    k: int,
    is_main: bool,
    base: i32,
)
    requires
        a.slots() == b.slots(),
        a.regalloc == b.regalloc,
        a.config == b.config,
    ensures
        params_code(a, keys, k, is_main, base) == params_code(b, keys, k, is_main, base),
    decreases k,
{
    if k > 0 {
        lemma_params_code_frame(a, b, keys, k - 1, is_main, base);
    }
}

} // verus!

verus! {

/// The save slots of the callee-saved registers are distinct.
pub open spec fn save_slots_distinct(offsets: Seq<Option<i32>>) -> bool {
    forall|a: int, b: int|
        0 <= a < b < offsets.len() && offsets[a] is Some && offsets[b] is Some ==> #[trigger] offsets[a]
            != #[trigger] offsets[b]
}

proof fn lemma_saves(st: SlotState, offsets: Seq<Option<i32>>, n: int)
    requires
        0 <= n <= offsets.len() <= 4,
        save_slots_distinct(offsets),
    ensures
        run_slots(st, save_code(offsets, n)) is Some,
        ({
            let s1 = run_slots(st, save_code(offsets, n)).unwrap();
            &&& s1.0 == st.0
            &&& forall|k: int|
                0 <= k < n && #[trigger] offsets[k] is Some ==> (s1.1)(offsets[k].unwrap()) == (st.0)(
                    (FIRST_LOCAL_REG + k) as u8,
                )
        }),
    decreases n,
{
    if n > 0 {
        lemma_saves(st, offsets, n - 1);
        let prev = save_code(offsets, n - 1);
        let s0 = run_slots(st, prev).unwrap();
        match offsets[n - 1] {
            Some(off) => {
                let store = Instruction::StoreIndU64 {
                    base: STACK_PTR_REG,
                    src: (FIRST_LOCAL_REG + n - 1) as u8,
                    offset: off,
                };
                assert(save_code(offsets, n) == prev.push(store));
                assert(prev.push(store).drop_last() =~= prev);
                let s1 = run_slots(st, save_code(offsets, n)).unwrap();
                assert forall|k: int| 0 <= k < n && #[trigger] offsets[k] is Some implies (s1.1)(
                    offsets[k].unwrap(),
                ) == (st.0)((FIRST_LOCAL_REG + k) as u8) by {
                    if k < n - 1 {
                        assert(offsets[k] != offsets[n - 1]);
                    }
                }
            },
            None => {
                assert(save_code(offsets, n) =~= prev);
            },
        }
    }
}

proof fn lemma_restores(st: SlotState, s1: SlotState, offsets: Seq<Option<i32>>, n: int)
    requires
        0 <= n <= offsets.len() <= 4,
        s1.0 == st.0,
        forall|k: int|
            0 <= k < offsets.len() && #[trigger] offsets[k] is Some ==> (s1.1)(offsets[k].unwrap()) == (
            st.0)((FIRST_LOCAL_REG + k) as u8),
    ensures
        run_slots(s1, restore_code(offsets, n)) is Some,
        run_slots(s1, restore_code(offsets, n)).unwrap().1 == s1.1,
        forall|r: u8| #[trigger] (run_slots(s1, restore_code(offsets, n)).unwrap().0)(r) == (st.0)(r),
    decreases n,
{
    if n > 0 {
        lemma_restores(st, s1, offsets, n - 1);
        let prev = restore_code(offsets, n - 1);
        match offsets[n - 1] {
            Some(off) => {
                let load = Instruction::LoadIndU64 {
                    dst: (FIRST_LOCAL_REG + n - 1) as u8,
                    base: STACK_PTR_REG,
                    offset: off,
                };
                assert(restore_code(offsets, n) == prev.push(load));
                assert(prev.push(load).drop_last() =~= prev);
            },
            None => {
                assert(restore_code(offsets, n) =~= prev);
            },
        }
    }
}

/// Callee-saved registers survive a function: storing them to their save
/// slots in the prologue and loading them back in the epilogue gives every
/// register its value from before (given distinct save slots).
pub proof fn epilogue_restores_saved_registers(offsets: Seq<Option<i32>>, st: SlotState)
    requires
        offsets.len() == 4,
        save_slots_distinct(offsets),
    ensures
        run_slots(st, save_code(offsets, 4) + restore_code(offsets, 4)) is Some,
        forall|r: u8|
            #[trigger] (run_slots(st, save_code(offsets, 4) + restore_code(offsets, 4)).unwrap().0)(r)
                == (st.0)(r),
{
    lemma_saves(st, offsets, 4);
    let s1 = run_slots(st, save_code(offsets, 4)).unwrap();
    lemma_restores(st, s1, offsets, 4);
    lemma_run_concat(st, save_code(offsets, 4), restore_code(offsets, 4));
}

/// The epilogue frees exactly the frame the prologue allocates, and restores
/// the callee-saved registers from the slots the prologue saves them to.
pub proof fn epilogue_matches_prologue(e: PvmEmitter, limit: i32)
    ensures
        prologue_head(e, limit, false).contains(
            Instruction::AddImm64 { dst: STACK_PTR_REG, src: STACK_PTR_REG, value: (-e.frame_size) as i32 },
        ),
        epilogue_code(e, false).contains(
            Instruction::AddImm64 { dst: STACK_PTR_REG, src: STACK_PTR_REG, value: e.frame_size },
        ),
        save_code(e.callee_save_offsets@, 4).is_suffix_of(prologue_head(e, limit, false)),
        restore_code(e.callee_save_offsets@, 4).is_prefix_of(epilogue_code(e, false)),
{
    let alloc = Instruction::AddImm64 {
        dst: STACK_PTR_REG,
        src: STACK_PTR_REG,
        value: (-e.frame_size) as i32,
    };
    let g = overflow_guard(e, limit);
    let ra = if e.has_calls {
        seq![Instruction::StoreIndU64 { base: STACK_PTR_REG, src: RETURN_ADDR_REG, offset: 0 }]
    } else {
        Seq::empty()
    };
    let saves = save_code(e.callee_save_offsets@, 4);
    let head = prologue_head(e, limit, false);
    assert(head == g + seq![alloc] + ra + saves);
    assert(head[g.len() as int] == alloc);
    assert(head.subrange(head.len() - saves.len(), head.len() as int) =~= saves);
    let restores = restore_code(e.callee_save_offsets@, 4);
    let ra2 = if e.has_calls {
        seq![Instruction::LoadIndU64 { dst: RETURN_ADDR_REG, base: STACK_PTR_REG, offset: 0 }]
    } else {
        Seq::empty()
    };
    let free = Instruction::AddImm64 { dst: STACK_PTR_REG, src: STACK_PTR_REG, value: e.frame_size };
    let epi = epilogue_code(e, false);
    assert(epi == restores + ra2 + seq![free, Instruction::JumpInd { reg: RETURN_ADDR_REG, offset: 0 }]);
    assert(epi[(restores.len() + ra2.len()) as int] == free);
    assert(epi.subrange(0, restores.len() as int) =~= restores);
}

} // verus!
