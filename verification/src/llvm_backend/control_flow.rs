//! Control-flow code around blocks: the function epilogue, and the
//! resolution of parallel stack-slot moves (phi copies): copies whose
//! destination no other copy still reads are emitted first, and what is left
//! falls apart into cycles, each resolved through a saved register. A model
//! of what stack loads, stores and register moves do to registers and slots
//! states what the emitted moves achieve and that the register cache stays
//! truthful.
use super::emitter::{const_after, const_load, sext64, PvmEmitter};
use crate::abi::{FIRST_LOCAL_REG, MAX_LOCAL_REGS, RETURN_ADDR_REG, STACK_PTR_REG, TEMP1, TEMP2};
use crate::memory_layout::EXIT_ADDRESS;
use crate::pvm::instruction::Instruction;
use crate::pvm::semantics::alu_value;
use std::collections::BTreeMap;
use vstd::prelude::*;

verus! {

broadcast use vstd::std_specs::btree::group_btree_axioms;

// ── Function epilogue ──

/// The loads that restore the callee-saved registers r9.. from their save
/// slots, for the first `n` of them, in register order (a register with no
/// save slot is not restored).
pub open spec fn restore_code(offsets: Seq<Option<i32>>, n: int) -> Seq<Instruction>
    decreases n,
{
    if n <= 0 {
        Seq::empty()
    } else {
        restore_code(offsets, n - 1) + match offsets[n - 1] {
            Some(off) => seq![
                Instruction::LoadIndU64 {
                    dst: (FIRST_LOCAL_REG + n - 1) as u8,
                    base: STACK_PTR_REG,
                    offset: off,
                },
            ],
            None => Seq::empty(),
        }
    }
}

/// The epilogue of a function emitted into `e`. The entry function jumps to
/// the exit address (its load of that address is dropped when constant
/// propagation knows `TEMP1` already holds it). Any other function restores
/// its saved callee-saved registers, the return address when it makes calls,
/// frees its frame and returns.
pub open spec fn epilogue_code(e: PvmEmitter, is_main: bool) -> Seq<Instruction> {
    if is_main {
        let load = Instruction::LoadImm { reg: TEMP1, value: EXIT_ADDRESS };
        (if e.emit_skips(load) {
            Seq::empty()
        } else {
            seq![load]
        }) + seq![Instruction::JumpInd { reg: TEMP1, offset: 0 }]
    } else {
        restore_code(e.callee_save_offsets@, 4) + (if e.has_calls {
            seq![Instruction::LoadIndU64 { dst: RETURN_ADDR_REG, base: STACK_PTR_REG, offset: 0 }]
        } else {
            Seq::empty()
        }) + seq![
            Instruction::AddImm64 { dst: STACK_PTR_REG, src: STACK_PTR_REG, value: e.frame_size },
            Instruction::JumpInd { reg: RETURN_ADDR_REG, offset: 0 },
        ]
    }
}

/// Emit function epilogue.
pub fn emit_epilogue(e: &mut PvmEmitter, is_main: bool)
    requires
        old(e).wf(),
        old(e).byte_offset + 64 <= usize::MAX,
    ensures
        final(e).wf(),
        final(e).same_frame(old(e)),
        final(e).instructions@ == old(e).instructions@ + epilogue_code(*old(e), is_main),
        final(e).byte_offset <= old(e).byte_offset + 64,
{
    let ghost e0 = *e;
    let ghost start = e.instructions@;
    if is_main {
        // For main, jump to exit address.
        let load = Instruction::LoadImm { reg: TEMP1, value: EXIT_ADDRESS };
        let jump = Instruction::JumpInd { reg: TEMP1, offset: 0 };
        assert(load.encoding().len() <= 6 && jump.encoding().len() <= 6);
        e.emit(load);
        e.emit(jump);
        proof {
            assert(e.instructions@ =~= start + epilogue_code(e0, is_main));
        }
    } else {
        // Restore callee-saved registers r9-r12 (only those actually saved).
        let mut i: usize = 0;
        while i < MAX_LOCAL_REGS
            invariant
                i <= 4,
                e.wf(),
                e.same_frame(&e0),
                e0.byte_offset + 64 <= usize::MAX,
                e.byte_offset <= e0.byte_offset + 6 * i,
                e.instructions@ == start + restore_code(e0.callee_save_offsets@, i as int),
            decreases 4 - i,
        {
            let ghost prev = e.instructions@;
            if let Some(offset) = e.callee_save_offsets[i] {
                let reg = FIRST_LOCAL_REG + i as u8;
                proof {
                    lemma_slot_access_len(reg, offset);
                }
                e.emit(Instruction::LoadIndU64 { dst: reg, base: STACK_PTR_REG, offset });
            }
            proof {
                assert(e.instructions@ =~= start + restore_code(e0.callee_save_offsets@, i + 1));
            }
            i += 1;
        }
        // Restore return address (only if function makes calls).
        let ghost restored = e.instructions@;
        if e.has_calls {
            proof {
                lemma_slot_access_len(RETURN_ADDR_REG, 0);
            }
            e.emit(Instruction::LoadIndU64 { dst: RETURN_ADDR_REG, base: STACK_PTR_REG, offset: 0 });
        }
        // Deallocate frame.
        let free = Instruction::AddImm64 {
            dst: STACK_PTR_REG,
            src: STACK_PTR_REG,
            value: e.frame_size,
        };
        let ret = Instruction::JumpInd { reg: RETURN_ADDR_REG, offset: 0 };
        assert(free.encoding().len() <= 6 && ret.encoding().len() <= 6);
        e.emit(free);
        // Return.
        e.emit(ret);
        proof {
            assert(e.instructions@ =~= start + epilogue_code(e0, is_main));
        }
    }
}

// ── What the moves do ──

/// Registers and stack slots as slot moves see them: the 64-bit value of each
/// register, and the 64-bit value of the stack slot at each offset from the
/// stack pointer (slots are 8 bytes apart, so each offset is its own cell).
pub type SlotState = (spec_fn(u8) -> u64, spec_fn(i32) -> u64);

/// The effect of one instruction on a `SlotState`: a 64-bit load from a stack
/// slot into a register other than the stack pointer, a 64-bit store of a
/// register into a stack slot, a register move or a constant load into a
/// register other than the stack pointer. Any other instruction is outside
/// this model (`None`).
pub open spec fn slot_step(st: SlotState, instr: Instruction) -> Option<SlotState> {
    match instr {
        Instruction::MoveReg { dst, src } => if dst != STACK_PTR_REG {
            Some((|r: u8| if r == dst { (st.0)(src) } else { (st.0)(r) }, st.1))
        } else {
            None
        },
        Instruction::LoadIndU64 { dst, base, offset } => if base == STACK_PTR_REG && dst
            != STACK_PTR_REG {
            Some((|r: u8| if r == dst { (st.1)(offset) } else { (st.0)(r) }, st.1))
        } else {
            None
        },
        Instruction::StoreIndU64 { base, src, offset } => if base == STACK_PTR_REG {
            Some((st.0, |s: i32| if s == offset { (st.0)(src) } else { (st.1)(s) }))
        } else {
            None
        },
        Instruction::LoadImm { reg, value } => if reg != STACK_PTR_REG {
            Some((|r: u8| if r == reg { sext64(value) } else { (st.0)(r) }, st.1))
        } else {
            None
        },
        Instruction::LoadImm64 { reg, value } => if reg != STACK_PTR_REG {
            Some((|r: u8| if r == reg { value } else { (st.0)(r) }, st.1))
        } else {
            None
        },
        _ => match (reg_op_value(instr, st.0), instr.dest()) {
            (Some(v), Some(d)) => if d != STACK_PTR_REG {
                Some((|r: u8| if r == d { v } else { (st.0)(r) }, st.1))
            } else {
                None
            },
            _ => None,
        },
    }
}

/// The value that a register operation of the width changes and comparisons
/// writes into its destination, as `alu_value` gives it (`None` for another
/// instruction): the 64-bit shifts, subtraction, and, exclusive or and
/// immediate add, the sign extensions, the 32-bit immediate add, and the
/// less-than comparisons.
pub open spec fn reg_op_value(instr: Instruction, regs: spec_fn(u8) -> u64) -> Option<u64> {
    match instr {
        Instruction::ShloL64 { .. }
        | Instruction::ShloR64 { .. }
        | Instruction::Sub64 { .. }
        | Instruction::And { .. }
        | Instruction::SignExtend8 { .. }
        | Instruction::SignExtend16 { .. }
        | Instruction::AddImm32 { .. }
        | Instruction::AddImm64 { .. }
        | Instruction::Xor { .. }
        | Instruction::SetLtU { .. }
        | Instruction::SetLtS { .. }
        | Instruction::SetLtUImm { .. }
        | Instruction::SetLtSImm { .. } => alu_value(instr, regs),
        _ => None,
    }
}

/// Running `code` from any state in which `a`'s register cache is truthful
/// stays inside the model and ends in a state in which `b`'s is.
#[verifier::opaque]
pub open spec fn keeps_cache(a: PvmEmitter, b: PvmEmitter, code: Seq<Instruction>) -> bool {
    forall|st: SlotState|
        cache_holds(a, st) ==> #[trigger] run_slots(st, code) is Some && cache_holds(b, run_slots(st, code).unwrap())
}

/// A store of the result into `slot` keeps the register cache truthful: the
/// cache is on, and the slot's allocated register, if any, is not the stack
/// pointer.
pub open spec fn store_keeps_cache(e: PvmEmitter, slot: i32) -> bool {
    &&& e.config.register_cache_enabled
    &&& !(e.regalloc.slot_to_reg@.contains_key(slot) && e.regalloc.slot_to_reg@[slot] == STACK_PTR_REG)
}

/// The code emitted from `a` to `b`.
pub open spec fn code_since(a: PvmEmitter, b: PvmEmitter) -> Seq<Instruction> {
    b.instructions@.skip(a.instructions@.len() as int)
}

/// No code keeps the cache truthful.
pub(crate) proof fn lemma_keeps_cache_empty(a: PvmEmitter)
    ensures
        keeps_cache(a, a, Seq::empty()),
{
    reveal(keeps_cache);
}

/// `keeps_cache`, from its statement.
pub(crate) proof fn lemma_keeps_cache_intro(a: PvmEmitter, b: PvmEmitter, code: Seq<Instruction>)
    requires
        forall|st: SlotState|
            cache_holds(a, st) ==> #[trigger] run_slots(st, code) is Some && cache_holds(b, run_slots(st, code).unwrap()),
    ensures
        keeps_cache(a, b, code),
{
    reveal(keeps_cache);
}

/// Code that keeps the cache truthful, followed by more such code.
pub(crate) proof fn lemma_keeps_cache_concat(
    a: PvmEmitter,
    b: PvmEmitter,
    c: PvmEmitter,
    p: Seq<Instruction>,
    q: Seq<Instruction>,
)
    requires
        keeps_cache(a, b, p),
        keeps_cache(b, c, q),
    ensures
        keeps_cache(a, c, p + q),
{
    reveal(keeps_cache);
    assert forall|st: SlotState| cache_holds(a, st) implies #[trigger] run_slots(st, p + q) is Some && cache_holds(
        c,
        run_slots(st, p + q).unwrap(),
    ) by {
        assert(run_slots(st, p) is Some);
        let s1 = run_slots(st, p).unwrap();
        assert(cache_holds(b, s1));
        assert(run_slots(s1, q) is Some);
        lemma_run_concat(st, p, q);
    }
}

/// A register operation of the width changes or comparisons writing a
/// register other than the stack pointer.
pub open spec fn reg_op(instr: Instruction) -> bool {
    &&& reg_op_value(instr, |r: u8| 0u64) is Some
    &&& instr.dest() matches Some(d) && d < 13 && d != STACK_PTR_REG
}

/// A register operation steps: it writes its destination and nothing else.
pub(crate) proof fn lemma_reg_op_step(st: SlotState, instr: Instruction)
    requires
        reg_op(instr),
    ensures
        const_load(instr) is None,
        slot_step(st, instr) is Some,
        slot_step(st, instr).unwrap().1 == st.1,
        forall|r: u8| r != instr.dest().unwrap() ==> #[trigger] (slot_step(st, instr).unwrap().0)(r) == (st.0)(r),
{
}

/// Running `code` from `st`, one instruction after the other (`None` when an
/// instruction is outside the model).
pub open spec fn run_slots(st: SlotState, code: Seq<Instruction>) -> Option<SlotState>
    decreases code.len(),
{
    if code.len() == 0 {
        Some(st)
    } else {
        match run_slots(st, code.drop_last()) {
            Some(s) => slot_step(s, code.last()),
            None => None,
        }
    }
}

/// Running a single instruction is one step.
pub(crate) proof fn lemma_run_one(st: SlotState, instr: Instruction)
    ensures
        run_slots(st, seq![instr]) == slot_step(st, instr),
{
    reveal_with_fuel(run_slots, 2);
    assert(seq![instr].drop_last() =~= Seq::<Instruction>::empty());
    assert(seq![instr].last() == instr);
}

/// Emitting a constant load or a register operation after a run of code that
/// keeps a truthful cache truthful gives a longer such run.
pub(crate) proof fn lemma_emit_keeps_cache(
    e0: PvmEmitter,
    prev: PvmEmitter,
    next: PvmEmitter,
    p: Seq<Instruction>,
    q: Seq<Instruction>,
    instr: Instruction,
)
    requires
        prev.wf(),
        PvmEmitter::emitted(&prev, &next, instr),
        reg_op(instr) || (const_load(instr) matches Some(c) && c.0 < 13 && c.0 != STACK_PTR_REG),
        q == (if prev.emit_skips(instr) { p } else { p.push(instr) }),
        keeps_cache(e0, prev, p),
    ensures
        keeps_cache(e0, next, q),
{
    reveal(keeps_cache);
    assert forall|st: SlotState| cache_holds(e0, st) implies #[trigger] run_slots(st, q) is Some && cache_holds(
        next,
        run_slots(st, q).unwrap(),
    ) by {
        assert(run_slots(st, p) is Some);
        if !prev.emit_skips(instr) {
            let s1 = run_slots(st, p).unwrap();
            lemma_run_concat(st, p, seq![instr]);
            lemma_run_one(s1, instr);
            assert(p.push(instr) =~= p + seq![instr]);
            if reg_op(instr) {
                lemma_reg_op_step(s1, instr);
                lemma_reg_write_keeps_cache(prev, next, instr, instr.dest().unwrap(), s1);
            } else {
                lemma_const_load_keeps_cache(prev, next, instr, s1);
            }
        }
    }
}

/// The two instructions that copy slot `src` into slot `dst` through `stage`.
pub open spec fn move_code(dst: i32, src: i32, stage: u8) -> Seq<Instruction> {
    seq![
        Instruction::LoadIndU64 { dst: stage, base: STACK_PTR_REG, offset: src },
        Instruction::StoreIndU64 { base: STACK_PTR_REG, src: stage, offset: dst },
    ]
}

/// The copies of `copies`, one after the other, each through `stage`.
pub open spec fn moves_code(copies: Seq<(i32, i32)>, stage: u8) -> Seq<Instruction>
    decreases copies.len(),
{
    if copies.len() == 0 {
        Seq::empty()
    } else {
        moves_code(copies.drop_last(), stage) + move_code(copies.last().0, copies.last().1, stage)
    }
}

/// The code for a chain of copies: a single copy is a plain move; a closed
/// chain of two or more saves its head slot in `TEMP1`, moves all but the
/// last copy through `TEMP2`, and stores the saved value last; a chain that
/// does not close is a series of plain moves.
pub open spec fn cycle_code(chain: Seq<(i32, i32)>) -> Seq<Instruction> {
    if chain.len() == 0 {
        Seq::empty()
    } else if chain.len() == 1 {
        move_code(chain[0].0, chain[0].1, TEMP1)
    } else if chain.last().1 == chain[0].0 {
        seq![Instruction::LoadIndU64 { dst: TEMP1, base: STACK_PTR_REG, offset: chain[0].0 }]
            + moves_code(chain.drop_last(), TEMP2) + seq![
            Instruction::StoreIndU64 { base: STACK_PTR_REG, src: TEMP1, offset: chain.last().0 },
        ]
    } else {
        moves_code(chain, TEMP1)
    }
}

/// `after` is `before` with the copies done at once: each destination holds
/// what its source held before, and every slot that no copy writes is as it
/// was.
pub open spec fn copies_done(
    copies: Seq<(i32, i32)>,
    before: spec_fn(i32) -> u64,
    after: spec_fn(i32) -> u64,
) -> bool {
    &&& forall|k: int| 0 <= k < copies.len() ==> after(#[trigger] copies[k].0) == before(copies[k].1)
    &&& forall|x: i32|
        #![trigger after(x)]
        (forall|k: int| 0 <= k < copies.len() ==> #[trigger] copies[k].0 != x) ==> after(x) == before(
            x,
        )
}

/// No two copies write the same slot.
pub open spec fn dsts_distinct(s: Seq<(i32, i32)>) -> bool {
    forall|i: int, j: int| 0 <= i < j < s.len() ==> #[trigger] s[i].0 != #[trigger] s[j].0
}

/// No two copies read the same slot.
pub open spec fn srcs_distinct(s: Seq<(i32, i32)>) -> bool {
    forall|i: int, j: int| 0 <= i < j < s.len() ==> #[trigger] s[i].1 != #[trigger] s[j].1
}

/// How many copies of `s` read slot `x`.
pub open spec fn src_count(s: Seq<(i32, i32)>, x: i32) -> nat
    decreases s.len(),
{
    if s.len() == 0 {
        0
    } else {
        src_count(s.drop_last(), x) + if s.last().1 == x {
            1nat
        } else {
            0nat
        }
    }
}

/// The count a map keeps for `x` (no entry counts as zero).
pub open spec fn count_of(m: Map<i32, usize>, x: i32) -> nat {
    if m.contains_key(x) {
        m[x] as nat
    } else {
        0
    }
}

pub(crate) proof fn lemma_run_concat(st: SlotState, a: Seq<Instruction>, b: Seq<Instruction>)
    ensures
        run_slots(st, a + b) == (match run_slots(st, a) {
            Some(m) => run_slots(m, b),
            None => None,
        }),
    decreases b.len(),
{
    if b.len() == 0 {
        assert(a + b =~= a);
    } else {
        assert((a + b).drop_last() =~= a + b.drop_last());
        assert((a + b).last() == b.last());
        lemma_run_concat(st, a, b.drop_last());
    }
}

/// A move through `stage` copies the source slot into the destination slot and
/// into `stage`, and changes nothing else.
proof fn lemma_move_run(st: SlotState, dst: i32, src: i32, stage: u8)
    requires
        stage != STACK_PTR_REG,
    ensures
        run_slots(st, move_code(dst, src, stage)) is Some,
        ({
            let fin = run_slots(st, move_code(dst, src, stage)).unwrap();
            &&& (fin.1)(dst) == (st.1)(src)
            &&& forall|x: i32| x != dst ==> #[trigger] (fin.1)(x) == (st.1)(x)
            &&& (fin.0)(stage) == (st.1)(src)
            &&& forall|r: u8| r != stage ==> #[trigger] (fin.0)(r) == (st.0)(r)
        }),
{
    let code = move_code(dst, src, stage);
    assert(code.drop_last() =~= seq![code[0]]);
    assert(seq![code[0]].drop_last() =~= Seq::<Instruction>::empty());
    reveal_with_fuel(run_slots, 3);
}

/// No copy reads a slot that an earlier copy of `s` writes.
pub open spec fn reads_before_writes(s: Seq<(i32, i32)>) -> bool {
    forall|i: int, j: int| 0 <= i < j < s.len() ==> #[trigger] s[j].1 != #[trigger] s[i].0
}

/// A series of moves through `stage` leaves every other register alone, and
/// when no two copies write the same slot and none reads a slot written
/// before it, it does the copies at once.
proof fn lemma_moves_run(st: SlotState, p: Seq<(i32, i32)>, stage: u8)
    requires
        stage != STACK_PTR_REG,
    ensures
        run_slots(st, moves_code(p, stage)) is Some,
        forall|r: u8|
            r != stage ==> #[trigger] (run_slots(st, moves_code(p, stage)).unwrap().0)(r) == (st.0)(
                r,
            ),
        dsts_distinct(p) && reads_before_writes(p) ==> copies_done(
            p,
            st.1,
            run_slots(st, moves_code(p, stage)).unwrap().1,
        ),
    decreases p.len(),
{
    if p.len() == 0 {
        assert(moves_code(p, stage) =~= Seq::<Instruction>::empty());
    } else {
        let q = p.drop_last();
        let c = p.last();
        lemma_moves_run(st, q, stage);
        let mid = run_slots(st, moves_code(q, stage)).unwrap();
        lemma_run_concat(st, moves_code(q, stage), move_code(c.0, c.1, stage));
        lemma_move_run(mid, c.0, c.1, stage);
        let fin = run_slots(st, moves_code(p, stage)).unwrap();
        assert(fin == run_slots(mid, move_code(c.0, c.1, stage)).unwrap());
        if dsts_distinct(p) && reads_before_writes(p) {
            assert(dsts_distinct(q));
            assert(reads_before_writes(q));
            assert forall|k: int| 0 <= k < q.len() implies #[trigger] q[k].0 != c.1 by {
                assert(p[k] == q[k]);
                assert(p[p.len() - 1].1 != p[k].0);
            }
            assert forall|k: int| 0 <= k < p.len() implies (fin.1)(#[trigger] p[k].0) == (st.1)(
                p[k].1,
            ) by {
                if k < p.len() - 1 {
                    assert(p[k] == q[k]);
                    assert(p[k].0 != p[p.len() - 1].0);
                }
            }
            assert forall|x: i32|
                #![trigger (fin.1)(x)]
                (forall|k: int| 0 <= k < p.len() ==> #[trigger] p[k].0 != x) implies (fin.1)(x)
                == (st.1)(x) by {
                assert(p[p.len() - 1].0 != x);
                assert forall|k: int| 0 <= k < q.len() implies #[trigger] q[k].0 != x by {
                    assert(p[k] == q[k]);
                }
            }
        }
    }
}

/// A closed chain whose copies write distinct slots, each copy reading the
/// slot the next one writes, does all its copies at once.
proof fn lemma_cycle_run(st: SlotState, chain: Seq<(i32, i32)>)
    requires
        chain.len() >= 1,
        forall|k: int| 1 <= k < chain.len() ==> #[trigger] chain[k].0 == chain[k - 1].1,
        chain.last().1 == chain[0].0,
        dsts_distinct(chain),
    ensures
        run_slots(st, cycle_code(chain)) is Some,
        copies_done(chain, st.1, run_slots(st, cycle_code(chain)).unwrap().1),
{
    let n = chain.len();
    if n == 1 {
        lemma_move_run(st, chain[0].0, chain[0].1, TEMP1);
        let fin = run_slots(st, cycle_code(chain)).unwrap();
        assert forall|x: i32|
            #![trigger (fin.1)(x)]
            (forall|k: int| 0 <= k < chain.len() ==> #[trigger] chain[k].0 != x) implies (fin.1)(x)
                == (st.1)(x) by {
            assert(chain[0].0 != x);
        }
    } else {
        let head = chain[0].0;
        let load = Instruction::LoadIndU64 { dst: TEMP1, base: STACK_PTR_REG, offset: head };
        let store = Instruction::StoreIndU64 {
            base: STACK_PTR_REG,
            src: TEMP1,
            offset: chain.last().0,
        };
        let p = chain.drop_last();
        let body = moves_code(p, TEMP2);
        assert(cycle_code(chain) == seq![load] + body + seq![store]);
        lemma_run_concat(st, seq![load], body);
        lemma_run_concat(st, seq![load] + body, seq![store]);
        assert(seq![load].drop_last() =~= Seq::<Instruction>::empty());
        reveal_with_fuel(run_slots, 2);
        let s1 = run_slots(st, seq![load]).unwrap();
        assert((s1.0)(TEMP1) == (st.1)(head));
        assert(s1.1 == st.1);
        assert(dsts_distinct(p));
        assert(reads_before_writes(p)) by {
            assert forall|i: int, j: int| 0 <= i < j < p.len() implies #[trigger] p[j].1
                != #[trigger] p[i].0 by {
                assert(p[j].1 == chain[j + 1].0);
            }
        }
        lemma_moves_run(s1, p, TEMP2);
        let s2 = run_slots(s1, body).unwrap();
        assert(seq![store].drop_last() =~= Seq::<Instruction>::empty());
        let fin = run_slots(st, cycle_code(chain)).unwrap();
        assert(fin == slot_step(s2, store).unwrap());
        assert((s2.0)(TEMP1) == (st.1)(head));
        assert forall|k: int| 0 <= k < n implies (fin.1)(#[trigger] chain[k].0) == (st.1)(
            chain[k].1,
        ) by {
            if k < n - 1 {
                assert(p[k] == chain[k]);
                assert(chain[k].0 != chain[n - 1].0);
            }
        }
        assert forall|x: i32|
            #![trigger (fin.1)(x)]
            (forall|k: int| 0 <= k < chain.len() ==> #[trigger] chain[k].0 != x) implies (fin.1)(x)
                == (st.1)(x) by {
            assert(chain[n - 1].0 != x);
            assert forall|k: int| 0 <= k < p.len() implies #[trigger] p[k].0 != x by {
                assert(p[k] == chain[k]);
            }
        }
    }
}

/// The code for any chain is made of slot loads and stores only.
proof fn lemma_cycle_some(st: SlotState, chain: Seq<(i32, i32)>)
    ensures
        run_slots(st, cycle_code(chain)) is Some,
{
    if chain.len() == 1 {
        lemma_move_run(st, chain[0].0, chain[0].1, TEMP1);
    } else if chain.len() >= 2 {
        if chain.last().1 == chain[0].0 {
            let load = Instruction::LoadIndU64 { dst: TEMP1, base: STACK_PTR_REG, offset: chain[0].0 };
            let store = Instruction::StoreIndU64 {
                base: STACK_PTR_REG,
                src: TEMP1,
                offset: chain.last().0,
            };
            let body = moves_code(chain.drop_last(), TEMP2);
            lemma_run_concat(st, seq![load], body);
            lemma_run_concat(st, seq![load] + body, seq![store]);
            assert(seq![load].drop_last() =~= Seq::<Instruction>::empty());
            assert(seq![store].drop_last() =~= Seq::<Instruction>::empty());
            reveal_with_fuel(run_slots, 2);
            lemma_moves_run(run_slots(st, seq![load]).unwrap(), chain.drop_last(), TEMP2);
        } else {
            lemma_moves_run(st, chain, TEMP1);
        }
    }
}

/// Copies done so far, followed by a step whose copies read no slot written
/// so far and write slots not written so far, add up to all of them done.
proof fn lemma_extend_done(
    a: spec_fn(i32) -> u64,
    b: spec_fn(i32) -> u64,
    c: spec_fn(i32) -> u64,
    done: Seq<(i32, i32)>,
    step: Seq<(i32, i32)>,
)
    requires
        copies_done(done, a, b),
        copies_done(step, b, c),
        forall|j: int, k: int|
            0 <= j < step.len() && 0 <= k < done.len() ==> #[trigger] step[j].1 != #[trigger] done[k].0,
        forall|j: int, k: int|
            0 <= j < step.len() && 0 <= k < done.len() ==> #[trigger] step[j].0 != #[trigger] done[k].0,
    ensures
        copies_done(done + step, a, c),
{
    let all = done + step;
    assert forall|k: int| 0 <= k < all.len() implies c(#[trigger] all[k].0) == a(all[k].1) by {
        if k < done.len() {
            assert(all[k] == done[k]);
            assert forall|j: int| 0 <= j < step.len() implies #[trigger] step[j].0 != done[k].0 by {
                assert(step[j].0 != done[k].0);
            }
        } else {
            let j = k - done.len();
            assert(all[k] == step[j]);
            assert forall|i: int| 0 <= i < done.len() implies #[trigger] done[i].0 != step[j].1 by {
                assert(step[j].1 != done[i].0);
            }
        }
    }
    assert forall|x: i32|
        #![trigger c(x)]
        (forall|k: int| 0 <= k < all.len() ==> #[trigger] all[k].0 != x) implies c(x) == a(x) by {
        assert forall|k: int| 0 <= k < done.len() implies #[trigger] done[k].0 != x by {
            assert(all[k] == done[k]);
        }
        assert forall|j: int| 0 <= j < step.len() implies #[trigger] step[j].0 != x by {
            assert(all[done.len() + j] == step[j]);
        }
    }
}

/// `s` with entry `i` removed by moving the last entry into its place.
pub open spec fn swap_remove_spec(s: Seq<(i32, i32)>, i: int) -> Seq<(i32, i32)> {
    s.update(i, s.last()).drop_last()
}

/// Index of the first copy in `s` whose destination is `dst`, if any.
pub open spec fn first_with_dst(s: Seq<(i32, i32)>, dst: i32) -> Option<int>
    decreases s.len(),
{
    if s.len() == 0 {
        None
    } else {
        match first_with_dst(s.drop_last(), dst) {
            Some(i) => Some(i),
            None => if s.last().0 == dst {
                Some(s.len() - 1)
            } else {
                None
            },
        }
    }
}

/// Following copies from `cur`: take the first remaining copy whose
/// destination is `cur`, continue from its source, and stop when the source
/// is `head` or no copy writes `cur`. Gives the copies left over and the
/// chain taken.
pub open spec fn walk_cycle(rem: Seq<(i32, i32)>, head: i32, cur: i32) -> (
    Seq<(i32, i32)>,
    Seq<(i32, i32)>,
)
    decreases rem.len(),
{
    if cur == head {
        (rem, Seq::empty())
    } else {
        match first_with_dst(rem, cur) {
            Some(i) => {
                if 0 <= i < rem.len() {
                    let copy = rem[i];
                    let next = walk_cycle(swap_remove_spec(rem, i), head, copy.1);
                    (next.0, seq![copy] + next.1)
                } else {
                    (rem, Seq::empty())
                }
            },
            None => (rem, Seq::empty()),
        }
    }
}

proof fn lemma_first_with_dst(s: Seq<(i32, i32)>, dst: i32)
    ensures
        match first_with_dst(s, dst) {
            Some(i) => 0 <= i < s.len() && s[i].0 == dst && forall|j: int|
                0 <= j < i ==> #[trigger] s[j].0 != dst,
            None => forall|j: int| 0 <= j < s.len() ==> #[trigger] s[j].0 != dst,
        },
    decreases s.len(),
{
    if s.len() > 0 {
        lemma_first_with_dst(s.drop_last(), dst);
        match first_with_dst(s.drop_last(), dst) {
            Some(i) => {
                assert forall|j: int| 0 <= j < i implies #[trigger] s[j].0 != dst by {
                    assert(s[j] == s.drop_last()[j]);
                }
            },
            None => {
                assert forall|j: int| 0 <= j < s.len() - 1 implies #[trigger] s[j].0 != dst by {
                    assert(s[j] == s.drop_last()[j]);
                }
            },
        }
    }
}

/// Extract one cycle from `remaining`, returning the chain of copies.
///
/// Starts from the first remaining copy and walks forward following "next
/// destination is the previous source" links until the loop closes. For a
/// true permutation the chain always closes; on malformed input (a broken
/// cycle) the function returns the path it walked.
pub fn extract_cycle(remaining: &mut Vec<(i32, i32)>) -> (chain: Vec<(i32, i32)>)
    requires
        old(remaining)@.len() > 0,
    ensures
        ({
            let first = old(remaining)@[0];
            let w = walk_cycle(swap_remove_spec(old(remaining)@, 0), first.0, first.1);
            &&& final(remaining)@ == w.0
            &&& chain@ == seq![first] + w.1
        }),
{
    let ghost orig = remaining@;
    // Pick the first remaining copy as the start.
    let first = remaining.swap_remove(0);
    proof {
        assert(remaining@ =~= swap_remove_spec(orig, 0));
    }
    let head_dst = first.0;
    let mut chain: Vec<(i32, i32)> = Vec::new();
    chain.push(first);
    let mut current_src = chain[0].1;
    let ghost w0 = walk_cycle(remaining@, head_dst, current_src);

    loop
        invariant
            walk_cycle(remaining@, head_dst, current_src).0 == w0.0,
            chain@ + walk_cycle(remaining@, head_dst, current_src).1 == seq![first] + w0.1,
        ensures
            remaining@ == w0.0,
            chain@ == seq![first] + w0.1,
        decreases remaining@.len(),
    {
        if current_src == head_dst {
            proof {
                assert(chain@ + Seq::<(i32, i32)>::empty() =~= chain@);
            }
            break;
        }
        let mut idx: usize = 0;
        let mut found = false;
        while idx < remaining.len() && !found
            invariant
                idx <= remaining@.len(),
                forall|j: int| 0 <= j < idx ==> #[trigger] remaining@[j].0 != current_src,
                found ==> idx < remaining@.len() && remaining@[idx as int].0 == current_src,
            decreases remaining@.len() - idx + if found {
                0int
            } else {
                1int
            },
        {
            if remaining[idx].0 == current_src {
                found = true;
            } else {
                idx += 1;
            }
        }
        proof {
            lemma_first_with_dst(remaining@, current_src);
        }
        if !found {
            // Not a clean permutation: stop with the path walked so far.
            proof {
                assert(first_with_dst(remaining@, current_src) is None);
                assert(chain@ + Seq::<(i32, i32)>::empty() =~= chain@);
            }
            break;
        }
        proof {
            assert(first_with_dst(remaining@, current_src) == Some(idx as int));
        }
        let ghost before = remaining@;
        let copy = remaining.swap_remove(idx);
        proof {
            assert(remaining@ =~= swap_remove_spec(before, idx as int));
        }
        let ghost prev_chain = chain@;
        current_src = copy.1;
        chain.push(copy);
        proof {
            assert(chain@ =~= prev_chain + seq![copy]);
            let rest = walk_cycle(remaining@, head_dst, current_src).1;
            assert(prev_chain + (seq![copy] + rest) =~= chain@ + rest);
        }
    }
    chain
}

/// Some copy of `s` writes slot `x`.
pub open spec fn writes_slot(s: Seq<(i32, i32)>, x: i32) -> bool {
    exists|j: int| 0 <= j < s.len() && #[trigger] s[j].0 == x
}

/// Some copy of `s` reads slot `x`.
pub open spec fn reads_slot(s: Seq<(i32, i32)>, x: i32) -> bool {
    exists|j: int| 0 <= j < s.len() && #[trigger] s[j].1 == x
}

proof fn lemma_swap_remove(s: Seq<(i32, i32)>, i: int)
    requires
        0 <= i < s.len(),
    ensures
        swap_remove_spec(s, i).len() == s.len() - 1,
        forall|j: int|
            0 <= j < s.len() - 1 ==> #[trigger] swap_remove_spec(s, i)[j] == (if j == i {
                s.last()
            } else {
                s[j]
            }),
        forall|x: (i32, i32)| #[trigger] swap_remove_spec(s, i).contains(x) ==> s.contains(x),
        forall|x: (i32, i32)| #[trigger] s.contains(x) ==> x == s[i] || swap_remove_spec(s, i).contains(x),
        forall|x: i32| #[trigger] writes_slot(s, x) ==> s[i].0 == x || writes_slot(swap_remove_spec(s, i), x),
        dsts_distinct(s) ==> dsts_distinct(swap_remove_spec(s, i)) && forall|j: int|
            0 <= j < s.len() - 1 ==> #[trigger] swap_remove_spec(s, i)[j].0 != s[i].0,
        srcs_distinct(s) ==> srcs_distinct(swap_remove_spec(s, i)) && forall|j: int|
            0 <= j < s.len() - 1 ==> #[trigger] swap_remove_spec(s, i)[j].1 != s[i].1,
{
    let r = swap_remove_spec(s, i);
    let n = s.len();
    assert forall|x: (i32, i32)| #[trigger] r.contains(x) implies s.contains(x) by {
        let j = choose|j: int| 0 <= j < r.len() && r[j] == x;
        if j == i {
            assert(s[n - 1] == x);
        } else {
            assert(s[j] == x);
        }
    }
    assert forall|x: (i32, i32)| #[trigger] s.contains(x) implies x == s[i] || r.contains(x) by {
        let k = choose|k: int| 0 <= k < n && s[k] == x;
        if k != i {
            if k == n - 1 {
                assert(r[i] == x);
            } else {
                assert(r[k] == x);
            }
        }
    }
    assert forall|x: i32| #[trigger] writes_slot(s, x) implies s[i].0 == x || writes_slot(r, x) by {
        let k = choose|k: int| 0 <= k < n && #[trigger] s[k].0 == x;
        if k != i {
            if k == n - 1 {
                assert(r[i].0 == x);
            } else {
                assert(r[k].0 == x);
            }
        }
    }
    if dsts_distinct(s) {
        assert forall|a: int, b: int| 0 <= a < b < r.len() implies #[trigger] r[a].0
            != #[trigger] r[b].0 by {
            let a2 = if a == i { n - 1 } else { a };
            let b2 = if b == i { n - 1 } else { b };
            assert(r[a] == s[a2] && r[b] == s[b2]);
            if a2 < b2 {
                assert(s[a2].0 != s[b2].0);
            } else {
                assert(s[b2].0 != s[a2].0);
            }
        }
        assert forall|j: int| 0 <= j < n - 1 implies #[trigger] r[j].0 != s[i].0 by {
            let j2 = if j == i { n - 1 } else { j };
            assert(r[j] == s[j2]);
            if j2 < i {
                assert(s[j2].0 != s[i].0);
            } else {
                assert(s[i].0 != s[j2].0);
            }
        }
    }
    if srcs_distinct(s) {
        assert forall|a: int, b: int| 0 <= a < b < r.len() implies #[trigger] r[a].1
            != #[trigger] r[b].1 by {
            let a2 = if a == i { n - 1 } else { a };
            let b2 = if b == i { n - 1 } else { b };
            assert(r[a] == s[a2] && r[b] == s[b2]);
            if a2 < b2 {
                assert(s[a2].1 != s[b2].1);
            } else {
                assert(s[b2].1 != s[a2].1);
            }
        }
        assert forall|j: int| 0 <= j < n - 1 implies #[trigger] r[j].1 != s[i].1 by {
            let j2 = if j == i { n - 1 } else { j };
            assert(r[j] == s[j2]);
            if j2 < i {
                assert(s[j2].1 != s[i].1);
            } else {
                assert(s[i].1 != s[j2].1);
            }
        }
    }
}

/// Walking from a chain `c` (which starts at `head`, links each copy's source
/// to the next copy's destination, and ends reading `cur`) through copies
/// that, together with `c`, write distinct slots, read distinct slots and read
/// only slots that some copy writes, closes the cycle at `head`. What is left
/// over keeps those properties on its own, and shares no slot with the cycle.
#[verifier::spinoff_prover]
#[verifier::rlimit(40)]
proof fn lemma_walk_closes(r: Seq<(i32, i32)>, head: i32, cur: i32, c: Seq<(i32, i32)>)
    requires
        c.len() >= 1,
        c[0].0 == head,
        c.last().1 == cur,
        forall|k: int| 1 <= k < c.len() ==> #[trigger] c[k].0 == c[k - 1].1,
        dsts_distinct(c),
        srcs_distinct(c),
        dsts_distinct(r),
        srcs_distinct(r),
        forall|j: int, k: int|
            #![trigger r[j], c[k]]
            0 <= j < r.len() && 0 <= k < c.len() ==> r[j].0 != c[k].0 && r[j].1 != c[k].1,
        forall|j: int| 0 <= j < r.len() ==> writes_slot(r, #[trigger] r[j].1) || writes_slot(c, r[j].1),
        forall|k: int| 0 <= k < c.len() ==> writes_slot(r, #[trigger] c[k].1) || writes_slot(c, c[k].1),
    ensures
        ({
            let w = walk_cycle(r, head, cur);
            let full = c + w.1;
            &&& forall|k: int| 1 <= k < full.len() ==> #[trigger] full[k].0 == full[k - 1].1
            &&& full.last().1 == head
            &&& dsts_distinct(full)
            &&& srcs_distinct(full)
            &&& dsts_distinct(w.0)
            &&& srcs_distinct(w.0)
            &&& forall|j: int, k: int|
                #![trigger w.0[j], full[k]]
                0 <= j < w.0.len() && 0 <= k < full.len() ==> w.0[j].0 != full[k].0 && w.0[j].1
                    != full[k].1
            &&& forall|j: int| 0 <= j < w.0.len() ==> writes_slot(w.0, #[trigger] w.0[j].1)
        }),
    decreases r.len(),
{
    lemma_first_with_dst(r, cur);
    let last = c.len() - 1;
    if cur == head {
        assert(c + Seq::<(i32, i32)>::empty() =~= c);
        assert forall|j: int| 0 <= j < r.len() implies writes_slot(r, #[trigger] r[j].1) by {
            if !writes_slot(r, r[j].1) {
                let k = choose|k: int| 0 <= k < c.len() && #[trigger] c[k].0 == r[j].1;
                if k == 0 {
                    assert(r[j].1 != c[last].1);
                } else {
                    assert(r[j].1 != c[k - 1].1);
                }
            }
        }
    } else {
        assert(writes_slot(r, cur)) by {
            if !writes_slot(r, cur) {
                assert(writes_slot(r, c[last].1) || writes_slot(c, c[last].1));
                let k = choose|k: int| 0 <= k < c.len() && #[trigger] c[k].0 == cur;
                if k > 0 {
                    assert(c[k].0 == c[k - 1].1);
                    if k - 1 < last {
                        assert(c[k - 1].1 != c[last].1);
                    }
                }
            }
        }
        let i = first_with_dst(r, cur).unwrap();
        let y = r[i];
        let r2 = swap_remove_spec(r, i);
        let c2 = c.push(y);
        lemma_swap_remove(r, i);
        assert forall|k: int| 1 <= k < c2.len() implies #[trigger] c2[k].0 == c2[k - 1].1 by {
            if k < c.len() {
                assert(c2[k] == c[k] && c2[k - 1] == c[k - 1]);
            }
        }
        assert(dsts_distinct(c2)) by {
            assert forall|a: int, b: int| 0 <= a < b < c2.len() implies #[trigger] c2[a].0
                != #[trigger] c2[b].0 by {
                if b == c.len() {
                    assert(r[i].0 != c[a].0);
                } else {
                    assert(c[a].0 != c[b].0);
                }
            }
        }
        assert(srcs_distinct(c2)) by {
            assert forall|a: int, b: int| 0 <= a < b < c2.len() implies #[trigger] c2[a].1
                != #[trigger] c2[b].1 by {
                if b == c.len() {
                    assert(r[i].1 != c[a].1);
                } else {
                    assert(c[a].1 != c[b].1);
                }
            }
        }
        assert forall|j: int, k: int|
            #![trigger r2[j], c2[k]]
            0 <= j < r2.len() && 0 <= k < c2.len() implies r2[j].0 != c2[k].0 && r2[j].1 != c2[k].1 by {
            let j2 = if j == i { r.len() - 1 } else { j };
            assert(r2[j] == r[j2]);
            if k < c.len() {
                assert(c2[k] == c[k]);
                assert(r[j2].0 != c[k].0 && r[j2].1 != c[k].1);
            }
        }
        assert forall|x: i32| writes_slot(r, x) || writes_slot(c, x) implies writes_slot(r2, x)
            || writes_slot(c2, x) by {
            if writes_slot(c, x) {
                let k = choose|k: int| 0 <= k < c.len() && #[trigger] c[k].0 == x;
                assert(c2[k].0 == x);
            } else if !writes_slot(r2, x) {
                assert(r[i].0 == x);
                assert(c2[c.len() as int].0 == x);
            }
        }
        assert forall|j: int| 0 <= j < r2.len() implies writes_slot(r2, #[trigger] r2[j].1)
            || writes_slot(c2, r2[j].1) by {
            let j2 = if j == i { r.len() - 1 } else { j };
            assert(r2[j] == r[j2]);
            assert(writes_slot(r, r[j2].1) || writes_slot(c, r[j2].1));
        }
        assert forall|k: int| 0 <= k < c2.len() implies writes_slot(r2, #[trigger] c2[k].1)
            || writes_slot(c2, c2[k].1) by {
            if k < c.len() {
                assert(c2[k] == c[k]);
                assert(writes_slot(r, c[k].1) || writes_slot(c, c[k].1));
            } else {
                assert(c2[k] == r[i]);
                assert(writes_slot(r, r[i].1) || writes_slot(c, r[i].1));
            }
        }
        lemma_walk_closes(r2, head, y.1, c2);
        let w2 = walk_cycle(r2, head, y.1);
        assert(walk_cycle(r, head, cur) == (w2.0, seq![y] + w2.1));
        assert(c + (seq![y] + w2.1) =~= c2 + w2.1);
    }
}

/// When no two copies write the same slot and every written slot is read by
/// some copy, the copies read distinct slots and every read slot is written
/// by some copy: the copies permute their slots.
proof fn lemma_copies_permute(s: Seq<(i32, i32)>)
    requires
        dsts_distinct(s),
        forall|j: int| 0 <= j < s.len() ==> reads_slot(s, #[trigger] s[j].0),
    ensures
        srcs_distinct(s),
        forall|j: int| 0 <= j < s.len() ==> writes_slot(s, #[trigger] s[j].1),
{
    broadcast use vstd::seq_lib::seq_to_set_is_finite;

    let d = Seq::new(s.len(), |j: int| s[j].0);
    let r = Seq::new(s.len(), |j: int| s[j].1);
    assert(d.no_duplicates()) by {
        assert forall|a: int, b: int| 0 <= a < d.len() && 0 <= b < d.len() && a != b implies d[a]
            != d[b] by {
            if a < b {
                assert(s[a].0 != s[b].0);
            } else {
                assert(s[b].0 != s[a].0);
            }
        }
    }
    d.unique_seq_to_set();
    assert(d.to_set().subset_of(r.to_set())) by {
        assert forall|x: i32| d.to_set().contains(x) implies r.to_set().contains(x) by {
            let j = choose|j: int| 0 <= j < d.len() && d[j] == x;
            assert(reads_slot(s, s[j].0));
            let l = choose|l: int| 0 <= l < s.len() && #[trigger] s[l].1 == s[j].0;
            assert(r[l] == x);
        }
    }
    r.lemma_cardinality_of_set();
    vstd::set_lib::lemma_len_subset(d.to_set(), r.to_set());
    r.lemma_no_dup_set_cardinality();
    vstd::set_lib::lemma_subset_equality(d.to_set(), r.to_set());
    assert forall|a: int, b: int| 0 <= a < b < s.len() implies #[trigger] s[a].1 != #[trigger] s[b].1 by {
        assert(r[a] != r[b]);
    }
    assert forall|j: int| 0 <= j < s.len() implies writes_slot(s, #[trigger] s[j].1) by {
        assert(r.to_set().contains(r[j]));
        assert(d.to_set().contains(r[j]));
        let k = choose|k: int| 0 <= k < d.len() && d[k] == r[j];
        assert(s[k].0 == s[j].1);
    }
}

proof fn lemma_src_count(s: Seq<(i32, i32)>, x: i32)
    ensures
        src_count(s, x) <= s.len(),
        src_count(s, x) == 0 <==> !reads_slot(s, x),
    decreases s.len(),
{
    if s.len() > 0 {
        let q = s.drop_last();
        lemma_src_count(q, x);
        if reads_slot(q, x) {
            let j = choose|j: int| 0 <= j < q.len() && #[trigger] q[j].1 == x;
            assert(s[j].1 == x);
        }
        if reads_slot(s, x) && s.last().1 != x {
            let j = choose|j: int| 0 <= j < s.len() && #[trigger] s[j].1 == x;
            assert(q[j].1 == x);
        }
    }
}

proof fn lemma_src_count_update(s: Seq<(i32, i32)>, i: int, v: (i32, i32), x: i32)
    requires
        0 <= i < s.len(),
    ensures
        src_count(s.update(i, v), x) + (if s[i].1 == x {
            1int
        } else {
            0int
        }) == src_count(s, x) + (if v.1 == x {
            1int
        } else {
            0int
        }),
    decreases s.len(),
{
    let u = s.update(i, v);
    if i < s.len() - 1 {
        assert(u.drop_last() =~= s.drop_last().update(i, v));
        lemma_src_count_update(s.drop_last(), i, v, x);
    } else {
        assert(u.drop_last() =~= s.drop_last());
    }
}

proof fn lemma_src_count_swap_remove(s: Seq<(i32, i32)>, i: int, x: i32)
    requires
        0 <= i < s.len(),
    ensures
        src_count(swap_remove_spec(s, i), x) + (if s[i].1 == x {
            1int
        } else {
            0int
        }) == src_count(s, x),
{
    lemma_src_count_update(s, i, s.last(), x);
    assert(s.update(i, s.last()).last() == s.last());
}

/// Keys of type `i32` are ordered as the integers are.
pub open spec fn i32_keys_ordered() -> bool {
    vstd::laws_cmp::obeys_cmp::<i32>()
}

proof fn lemma_i32_keys_ordered()
    ensures
        i32_keys_ordered(),
{
    broadcast use vstd::laws_cmp::group_laws_cmp;
}

/// Copies done for a list that holds exactly the copies of `all` are the
/// copies of `all` done.
proof fn lemma_done_covers(
    all: Seq<(i32, i32)>,
    done: Seq<(i32, i32)>,
    a: spec_fn(i32) -> u64,
    b: spec_fn(i32) -> u64,
)
    requires
        copies_done(done, a, b),
        forall|x: (i32, i32)| #[trigger] done.contains(x) ==> all.contains(x),
        forall|k: int| 0 <= k < all.len() ==> done.contains(#[trigger] all[k]),
    ensures
        copies_done(all, a, b),
{
    assert forall|k: int| 0 <= k < all.len() implies b(#[trigger] all[k].0) == a(all[k].1) by {
        assert(done.contains(all[k]));
        let j = choose|j: int| 0 <= j < done.len() && done[j] == all[k];
        assert(b(done[j].0) == a(done[j].1));
    }
    assert forall|x: i32|
        #![trigger b(x)]
        (forall|k: int| 0 <= k < all.len() ==> #[trigger] all[k].0 != x) implies b(x) == a(x) by {
        assert forall|j: int| 0 <= j < done.len() implies #[trigger] done[j].0 != x by {
            assert(done.contains(done[j]));
            assert(all.contains(done[j]));
            let k = choose|k: int| 0 <= k < all.len() && all[k] == done[j];
            assert(all[k].0 != x);
        }
    }
}

/// Loads and stores of 64 bits between a register and the stack encode to at
/// most six bytes; the load writes its register and the store none.
proof fn lemma_slot_access_len(reg: u8, offset: i32)
    ensures
        (Instruction::LoadIndU64 { dst: reg, base: STACK_PTR_REG, offset }).encoding().len() <= 6,
        (Instruction::LoadIndU64 { dst: reg, base: STACK_PTR_REG, offset }).dest() == Some(reg),
        (Instruction::StoreIndU64 { base: STACK_PTR_REG, src: reg, offset }).encoding().len() <= 6,
        (Instruction::StoreIndU64 { base: STACK_PTR_REG, src: reg, offset }).dest() is None,
{
}

/// The register cache tells the truth about `st`: each register it maps to a
/// stack slot holds that slot's value, and each constant it records is in
/// its register.
pub open spec fn cache_holds(e: PvmEmitter, st: SlotState) -> bool {
    &&& forall|s: i32| #[trigger]
        e.slot_map().contains_key(s) ==> (st.0)(e.slot_map()[s]) == (st.1)(s)
    &&& forall|r: int|
        0 <= r < 13 && #[trigger] e.reg_const(r) is Some ==> (st.0)(r as u8) == e.reg_const(r).unwrap()
}

/// A constant load that is not dropped keeps a truthful cache truthful: the
/// register now holds the constant, and the emitter forgets its slot.
pub(crate) proof fn lemma_const_load_keeps_cache(old: PvmEmitter, new: PvmEmitter, instr: Instruction, st: SlotState)
    requires
        old.wf(),
        const_load(instr) matches Some(c) && c.0 < 13 && c.0 != STACK_PTR_REG,
        !old.emit_skips(instr),
        PvmEmitter::emitted(&old, &new, instr),
        cache_holds(old, st),
    ensures
        slot_step(st, instr) is Some,
        cache_holds(new, slot_step(st, instr).unwrap()),
{
    let d = const_load(instr).unwrap().0;
    let st2 = slot_step(st, instr).unwrap();
    assert(instr.dest() == Some(d));
    assert forall|s: i32| #[trigger] new.slot_map().contains_key(s) implies (st2.0)(new.slot_map()[s])
        == (st2.1)(s) by {
        assert(old.slot_map().contains_key(s));
        let r = old.slot_map()[s];
        assert(old.reg_to_slot@[r as int] == Some(s));
        if r == d {
            assert(old.reg_slot(d as int) == Some(s));
        }
    }
    assert forall|r: int| 0 <= r < 13 && #[trigger] new.reg_const(r) is Some implies (st2.0)(r as u8)
        == new.reg_const(r).unwrap() by {
        assert(new.reg_const(r) == const_after(
            old.reg_const(r),
            old.config.constant_propagation_enabled,
            instr,
            r,
        ));
    }
}

/// An instruction that writes only register `d` (and is no constant load)
/// keeps a truthful cache truthful: the emitter forgets what `d` held.
pub(crate) proof fn lemma_reg_write_keeps_cache(
    old: PvmEmitter,
    new: PvmEmitter,
    instr: Instruction,
    d: u8,
    st: SlotState,
)
    requires
        old.wf(),
        d < 13,
        instr.dest() == Some(d),
        const_load(instr) is None,
        PvmEmitter::emitted(&old, &new, instr),
        slot_step(st, instr) is Some,
        slot_step(st, instr).unwrap().1 == st.1,
        forall|r: u8| r != d ==> #[trigger] (slot_step(st, instr).unwrap().0)(r) == (st.0)(r),
        cache_holds(old, st),
    ensures
        cache_holds(new, slot_step(st, instr).unwrap()),
{
    let st2 = slot_step(st, instr).unwrap();
    assert forall|s: i32| #[trigger] new.slot_map().contains_key(s) implies (st2.0)(new.slot_map()[s])
        == (st2.1)(s) by {
        assert(old.slot_map().contains_key(s));
        let r = old.slot_map()[s];
        assert(old.reg_to_slot@[r as int] == Some(s));
        if r == d {
            assert(old.reg_slot(d as int) == Some(s));
        }
    }
    assert forall|r: int| 0 <= r < 13 && #[trigger] new.reg_const(r) is Some implies (st2.0)(r as u8)
        == new.reg_const(r).unwrap() by {
        assert(new.reg_const(r) == const_after(
            old.reg_const(r),
            old.config.constant_propagation_enabled,
            instr,
            r,
        ));
    }
}

/// A load from the stack into `dst` keeps a truthful cache truthful: the
/// emitter forgets what `dst` held.
pub(crate) proof fn lemma_load_keeps_cache(old: PvmEmitter, new: PvmEmitter, dst: u8, src: i32, st: SlotState)
    requires
        old.wf(),
        dst < 13,
        dst != STACK_PTR_REG,
        PvmEmitter::emitted(&old, &new, Instruction::LoadIndU64 { dst, base: STACK_PTR_REG, offset: src }),
        cache_holds(old, st),
    ensures
        cache_holds(
            new,
            slot_step(st, Instruction::LoadIndU64 { dst, base: STACK_PTR_REG, offset: src }).unwrap(),
        ),
{
    lemma_reg_write_keeps_cache(
        old,
        new,
        Instruction::LoadIndU64 { dst, base: STACK_PTR_REG, offset: src },
        dst,
        st,
    );
}

/// A store into slot `d` followed by forgetting the register cached for `d`
/// keeps a truthful cache truthful.
proof fn lemma_store_keeps_cache(
    old: PvmEmitter,
    mid: PvmEmitter,
    new: PvmEmitter,
    src: u8,
    d: i32,
    st: SlotState,
)
    requires
        old.wf(),
        PvmEmitter::emitted(&old, &mid, Instruction::StoreIndU64 { base: STACK_PTR_REG, src, offset: d }),
        new.slot_map() == mid.slot_map().remove(d),
        new.reg_to_const@ == mid.reg_to_const@,
        cache_holds(old, st),
    ensures
        cache_holds(
            new,
            slot_step(st, Instruction::StoreIndU64 { base: STACK_PTR_REG, src, offset: d }).unwrap(),
        ),
{
    let store = Instruction::StoreIndU64 { base: STACK_PTR_REG, src, offset: d };
    assert forall|r: int| 0 <= r < 13 && #[trigger] new.reg_const(r) is Some implies (st.0)(r as u8)
        == new.reg_const(r).unwrap() by {
        assert(new.reg_const(r) == mid.reg_const(r));
        assert(mid.reg_const(r) == const_after(
            old.reg_const(r),
            old.config.constant_propagation_enabled,
            store,
            r,
        ));
    }
}

/// Emit a slot-to-slot move using `stage` as the staging register.
fn emit_slot_move(e: &mut PvmEmitter, dst: i32, src: i32, stage: u8)
    requires
        old(e).wf(),
        stage < 13,
        stage != STACK_PTR_REG,
        old(e).byte_offset + 12 <= usize::MAX,
    ensures
        final(e).wf(),
        final(e).same_frame(old(e)),
        final(e).instructions@ == old(e).instructions@ + move_code(dst, src, stage),
        final(e).byte_offset <= old(e).byte_offset + 12,
        forall|st: SlotState|
            cache_holds(*old(e), st) ==> cache_holds(
                *final(e),
                #[trigger] run_slots(st, move_code(dst, src, stage)).unwrap(),
            ),
{
    proof {
        lemma_slot_access_len(stage, src);
        lemma_slot_access_len(stage, dst);
    }
    let ghost start = e.instructions@;
    let ghost e_a = *e;
    let load = Instruction::LoadIndU64 { dst: stage, base: STACK_PTR_REG, offset: src };
    let store = Instruction::StoreIndU64 { base: STACK_PTR_REG, src: stage, offset: dst };
    e.emit(load);
    let ghost e_b = *e;
    e.emit(store);
    let ghost e_c = *e;
    e.invalidate_cache_for_slot(dst);
    proof {
        assert(e.instructions@ =~= start + move_code(dst, src, stage));
        let code = move_code(dst, src, stage);
        assert(code.drop_last() =~= seq![load]);
        assert(seq![load].drop_last() =~= Seq::<Instruction>::empty());
        assert forall|st: SlotState| cache_holds(e_a, st) implies cache_holds(
            *e,
            #[trigger] run_slots(st, move_code(dst, src, stage)).unwrap(),
        ) by {
            reveal_with_fuel(run_slots, 3);
            lemma_load_keeps_cache(e_a, e_b, stage, src, st);
            let st1 = slot_step(st, load).unwrap();
            lemma_store_keeps_cache(e_b, e_c, *e, stage, dst, st1);
        }
    }
}

/// Emit a chain of copies. A closed chain
/// `[(d_0, s_0), ..., (d_{k-1}, s_{k-1})]` (each `s_i` is `d_{i+1}`, and
/// `s_{k-1}` is `d_0`) saves `d_0` in `TEMP1`, moves all but the last copy
/// through `TEMP2`, and stores the saved value into `d_{k-1}`. A chain that
/// does not close is emitted copy by copy.
fn emit_slot_cycle(e: &mut PvmEmitter, chain: &[(i32, i32)])
    requires
        old(e).wf(),
        old(e).byte_offset + 12 * chain@.len() <= usize::MAX,
    ensures
        final(e).wf(),
        final(e).same_frame(old(e)),
        final(e).instructions@ == old(e).instructions@ + cycle_code(chain@),
        final(e).byte_offset <= old(e).byte_offset + 12 * chain@.len(),
        forall|st: SlotState|
            cache_holds(*old(e), st) ==> cache_holds(
                *final(e),
                #[trigger] run_slots(st, cycle_code(chain@)).unwrap(),
            ),
{
    let ghost e0 = *e;
    let ghost start = e.instructions@;
    let n = chain.len();
    if n == 0 {
        proof {
            assert(start + cycle_code(chain@) =~= start);
        }
        return;
    }
    if n == 1 {
        let (dst, src) = chain[0];
        emit_slot_move(e, dst, src, TEMP1);
        return;
    }
    let head_dst = chain[0].0;
    let last_src = chain[n - 1].1;
    let closed = last_src == head_dst;
    if closed {
        // Save the head slot's value before it is overwritten (`last_src` == `head_dst`).
        proof {
            lemma_slot_access_len(TEMP1, head_dst);
        }
        let load = Instruction::LoadIndU64 { dst: TEMP1, base: STACK_PTR_REG, offset: head_dst };
        e.emit(load);
        let ghost after_load = e.instructions@;
        let ghost e1 = *e;
        proof {
            assert(seq![load].drop_last() =~= Seq::<Instruction>::empty());
            assert forall|st: SlotState| cache_holds(e0, st) implies cache_holds(
                e1,
                #[trigger] run_slots(st, seq![load]).unwrap(),
            ) by {
                reveal_with_fuel(run_slots, 2);
                lemma_load_keeps_cache(e0, e1, TEMP1, head_dst, st);
            }
        }
        // Emit all but the last copy via TEMP2.
        let mut i: usize = 0;
        while i < n - 1
            invariant
                n == chain@.len(),
                n >= 2,
                i <= n - 1,
                e.wf(),
                e.same_frame(&e0),
                e0.byte_offset + 12 * n <= usize::MAX,
                e.byte_offset <= e0.byte_offset + 6 + 12 * i,
                e.instructions@ == after_load + moves_code(chain@.take(i as int), TEMP2),
                load == (Instruction::LoadIndU64 { dst: TEMP1, base: STACK_PTR_REG, offset: head_dst }),
                forall|st: SlotState|
                    cache_holds(e0, st) ==> cache_holds(
                        *e,
                        #[trigger] run_slots(st, seq![load] + moves_code(chain@.take(i as int), TEMP2)).unwrap(),
                    ),
            decreases n - 1 - i,
        {
            let (dst, src) = chain[i];
            let ghost prev = *e;
            emit_slot_move(e, dst, src, TEMP2);
            proof {
                let t = chain@.take(i + 1);
                let before = seq![load] + moves_code(chain@.take(i as int), TEMP2);
                assert(t.drop_last() =~= chain@.take(i as int));
                assert(t.last() == chain@[i as int]);
                assert(e.instructions@ =~= after_load + moves_code(t, TEMP2));
                assert(seq![load] + moves_code(t, TEMP2) =~= before + move_code(dst, src, TEMP2));
                assert forall|st: SlotState| cache_holds(e0, st) implies cache_holds(
                    *e,
                    #[trigger] run_slots(st, seq![load] + moves_code(t, TEMP2)).unwrap(),
                ) by {
                    lemma_run_concat(st, seq![load], moves_code(chain@.take(i as int), TEMP2));
                    assert(seq![load].drop_last() =~= Seq::<Instruction>::empty());
                    reveal_with_fuel(run_slots, 2);
                    lemma_moves_run(
                        run_slots(st, seq![load]).unwrap(),
                        chain@.take(i as int),
                        TEMP2,
                    );
                    assert(run_slots(st, before) is Some);
                    let st2 = run_slots(st, before).unwrap();
                    assert(cache_holds(prev, st2));
                    lemma_run_concat(st, before, move_code(dst, src, TEMP2));
                    assert(run_slots(st, seq![load] + moves_code(t, TEMP2)) == run_slots(
                        st2,
                        move_code(dst, src, TEMP2),
                    ));
                    assert(cache_holds(*e, run_slots(st2, move_code(dst, src, TEMP2)).unwrap()));
                }
            }
            i += 1;
        }
        // Final copy reads from saved TEMP1 (slot was overwritten by the first
        // step, so it can no longer be read from the stack).
        let last_dst = chain[n - 1].0;
        proof {
            lemma_slot_access_len(TEMP1, last_dst);
        }
        let ghost e_m = *e;
        let store = Instruction::StoreIndU64 { base: STACK_PTR_REG, src: TEMP1, offset: last_dst };
        e.emit(store);
        let ghost e_s = *e;
        e.invalidate_cache_for_slot(last_dst);
        proof {
            assert(chain@.take(n - 1) =~= chain@.drop_last());
            assert(e.instructions@ =~= start + cycle_code(chain@));
            let body = seq![load] + moves_code(chain@.drop_last(), TEMP2);
            assert(cycle_code(chain@) == body + seq![store]);
            assert((body + seq![store]).drop_last() =~= body);
            assert forall|st: SlotState| cache_holds(e0, st) implies cache_holds(
                *e,
                #[trigger] run_slots(st, cycle_code(chain@)).unwrap(),
            ) by {
                lemma_cycle_some(st, chain@);
                lemma_store_keeps_cache(e_m, e_s, *e, TEMP1, last_dst, run_slots(st, body).unwrap());
            }
        }
    } else {
        // The chain did not close: emit each copy directly.
        let mut i: usize = 0;
        proof {
            assert(moves_code(chain@.take(0), TEMP1) =~= Seq::<Instruction>::empty());
        }
        while i < n
            invariant
                n == chain@.len(),
                n >= 2,
                i <= n,
                chain@.last().1 != chain@[0].0,
                e.wf(),
                e.same_frame(&e0),
                e0.byte_offset + 12 * n <= usize::MAX,
                e.byte_offset <= e0.byte_offset + 12 * i,
                e.instructions@ == start + moves_code(chain@.take(i as int), TEMP1),
                forall|st: SlotState|
                    cache_holds(e0, st) ==> cache_holds(
                        *e,
                        #[trigger] run_slots(st, moves_code(chain@.take(i as int), TEMP1)).unwrap(),
                    ),
            decreases n - i,
        {
            let (dst, src) = chain[i];
            emit_slot_move(e, dst, src, TEMP1);
            proof {
                let t = chain@.take(i + 1);
                assert(t.drop_last() =~= chain@.take(i as int));
                assert(t.last() == chain@[i as int]);
                assert(e.instructions@ =~= start + moves_code(t, TEMP1));
                assert forall|st: SlotState| cache_holds(e0, st) implies cache_holds(
                    *e,
                    #[trigger] run_slots(st, moves_code(t, TEMP1)).unwrap(),
                ) by {
                    lemma_moves_run(st, chain@.take(i as int), TEMP1);
                    lemma_run_concat(st, moves_code(chain@.take(i as int), TEMP1), move_code(dst, src, TEMP1));
                }
            }
            i += 1;
        }
        proof {
            assert(chain@.take(n as int) =~= chain@);
        }
    }
}

/// Resolve a parallel move on stack slots.
///
/// `slot_copies` lists `(dst, src)` pairs that happen at once (for each pair,
/// `slot[dst] := slot[src]`); the emitted code does them one after the other
/// with the same effect. A topological pass first emits every copy whose
/// destination no unfinished copy still reads; what is left forms cycles,
/// each broken by saving its head in `TEMP1`.
pub fn resolve_slot_parallel_move(e: &mut PvmEmitter, slot_copies: &[(i32, i32)])
    requires
        old(e).wf(),
        old(e).byte_offset + 12 * slot_copies@.len() <= usize::MAX,
    ensures
        final(e).wf(),
        final(e).same_frame(old(e)),
        final(e).instructions@.len() >= old(e).instructions@.len(),
        final(e).instructions@.take(old(e).instructions@.len() as int) == old(e).instructions@,
        final(e).byte_offset <= old(e).byte_offset + 12 * slot_copies@.len(),
        forall|st: SlotState|
            #[trigger] run_slots(st, final(e).instructions@.skip(old(e).instructions@.len() as int))
                is Some,
        dsts_distinct(slot_copies@) ==> forall|st: SlotState|
            copies_done(
                slot_copies@,
                st.1,
                #[trigger] run_slots(
                    st,
                    final(e).instructions@.skip(old(e).instructions@.len() as int),
                ).unwrap().1,
            ),
        forall|st: SlotState|
            cache_holds(*old(e), st) ==> cache_holds(
                *final(e),
                #[trigger] run_slots(
                    st,
                    final(e).instructions@.skip(old(e).instructions@.len() as int),
                ).unwrap(),
            ),
{
    let ghost e0 = *e;
    let ghost n0 = e.instructions@.len() as int;
    let ghost ok = dsts_distinct(slot_copies@);
    proof {
        assert(e.instructions@.skip(n0) =~= Seq::<Instruction>::empty());
        assert(e.instructions@.take(n0) =~= e0.instructions@);
    }
    if slot_copies.len() == 0 {
        return;
    }
    proof {
        lemma_i32_keys_ordered();
    }
    // Track how many remaining copies still use each slot as a source.
    // Once a slot is no longer anyone's source, any copy writing it is "free".
    let mut src_use_count: BTreeMap<i32, usize> = BTreeMap::new();
    let mut remaining: Vec<(i32, i32)> = Vec::new();
    let mut i: usize = 0;
    while i < slot_copies.len()
        invariant
            i <= slot_copies@.len(),
            remaining@ == slot_copies@.take(i as int),
            i32_keys_ordered(),
            forall|x: i32| #[trigger] count_of(src_use_count@, x) == src_count(remaining@, x),
        decreases slot_copies@.len() - i,
    {
        let copy = slot_copies[i];
        let src = copy.1;
        let used: usize = match src_use_count.get(&src) {
            Some(c) => *c,
            None => 0,
        };
        proof {
            lemma_src_count(remaining@, src);
            assert(used == count_of(src_use_count@, src));
            assert(remaining@.len() == i);
            assert(used <= i);
        }
        let ghost prev_map = src_use_count@;
        let ghost prev = remaining@;
        src_use_count.insert(src, used + 1);
        remaining.push(copy);
        proof {
            assert(remaining@.drop_last() =~= prev);
            assert(remaining@ =~= slot_copies@.take(i + 1));
            assert forall|x: i32| #[trigger] count_of(src_use_count@, x) == src_count(
                remaining@,
                x,
            ) by {
                if x != src {
                    assert(count_of(prev_map, x) == src_count(prev, x));
                }
            }
        }
        i += 1;
    }
    proof {
        assert(remaining@ =~= slot_copies@);
    }
    let ghost mut done: Seq<(i32, i32)> = Seq::empty();

    // Phase 1: emit any copy whose destination slot isn't a source of an
    // unfinished copy. Repeat until no more such copies exist.
    loop
        invariant
            i32_keys_ordered(),
            e.wf(),
            e.same_frame(&e0),
            n0 == e0.instructions@.len(),
            e.instructions@.len() >= n0,
            e.instructions@.take(n0) == e0.instructions@,
            e0.byte_offset + 12 * slot_copies@.len() <= usize::MAX,
            remaining@.len() <= slot_copies@.len(),
            e.byte_offset <= e0.byte_offset + 12 * (slot_copies@.len() - remaining@.len()),
            forall|x: i32| #[trigger] count_of(src_use_count@, x) == src_count(remaining@, x),
            forall|x: (i32, i32)| #[trigger] done.contains(x) ==> slot_copies@.contains(x),
            forall|x: (i32, i32)| #[trigger] remaining@.contains(x) ==> slot_copies@.contains(x),
            forall|k: int|
                0 <= k < slot_copies@.len() ==> done.contains(#[trigger] slot_copies@[k])
                    || remaining@.contains(slot_copies@[k]),
            ok == dsts_distinct(slot_copies@),
            ok ==> dsts_distinct(remaining@),
            ok ==> forall|j: int, k: int|
                #![trigger remaining@[j], done[k]]
                0 <= j < remaining@.len() && 0 <= k < done.len() ==> remaining@[j].0 != done[k].0
                    && remaining@[j].1 != done[k].0,
            forall|st: SlotState| #[trigger] run_slots(st, e.instructions@.skip(n0)) is Some,
            forall|st: SlotState|
                cache_holds(e0, st) ==> cache_holds(
                    *e,
                    #[trigger] run_slots(st, e.instructions@.skip(n0)).unwrap(),
                ),
            ok ==> forall|st: SlotState|
                copies_done(done, st.1, #[trigger] run_slots(st, e.instructions@.skip(n0)).unwrap().1),
        ensures
            forall|j: int|
                0 <= j < remaining@.len() ==> count_of(src_use_count@, #[trigger] remaining@[j].0)
                    != 0,
        decreases remaining@.len(),
    {
        let mut idx: usize = 0;
        let mut found = false;
        while idx < remaining.len() && !found
            invariant
                i32_keys_ordered(),
                idx <= remaining@.len(),
                forall|j: int|
                    0 <= j < idx ==> count_of(src_use_count@, #[trigger] remaining@[j].0) != 0,
                found ==> idx < remaining@.len() && count_of(
                    src_use_count@,
                    remaining@[idx as int].0,
                ) == 0,
            decreases remaining@.len() - idx + if found {
                0int
            } else {
                1int
            },
        {
            let d = remaining[idx].0;
            let leaf = match src_use_count.get(&d) {
                Some(c) => *c == 0,
                None => true,
            };
            if leaf {
                found = true;
            } else {
                idx += 1;
            }
        }
        if !found {
            break;
        }
        let ghost before = remaining@;
        let ghost code_before = e.instructions@.skip(n0);
        let ghost instrs_before = e.instructions@;
        let (dst, src) = remaining.swap_remove(idx);
        proof {
            assert(remaining@ =~= swap_remove_spec(before, idx as int));
            lemma_swap_remove(before, idx as int);
            lemma_src_count(before, dst);
            lemma_src_count(before, src);
            assert(before[idx as int].1 == src);
            assert(reads_slot(before, src));
            assert(src_count(before, src) > 0);
            assert(count_of(src_use_count@, src) > 0);
        }
        let ghost e_prev = *e;
        emit_slot_move(e, dst, src, TEMP1);
        proof {
            assert(e.instructions@.skip(n0) =~= code_before + move_code(dst, src, TEMP1));
            assert forall|st: SlotState| cache_holds(e0, st) implies cache_holds(
                *e,
                #[trigger] run_slots(st, e.instructions@.skip(n0)).unwrap(),
            ) by {
                assert(run_slots(st, code_before) is Some);
                let cur = run_slots(st, code_before).unwrap();
                assert(cache_holds(e_prev, cur));
                lemma_run_concat(st, code_before, move_code(dst, src, TEMP1));
                assert(run_slots(st, e.instructions@.skip(n0)) == run_slots(
                    cur,
                    move_code(dst, src, TEMP1),
                ));
                assert(cache_holds(*e, run_slots(cur, move_code(dst, src, TEMP1)).unwrap()));
            }
        }
        let ghost map_before = src_use_count@;
        let got: Option<usize> = match src_use_count.get(&src) {
            Some(c) => Some(*c),
            None => None,
        };
        if let Some(c) = got {
            src_use_count.insert(src, c - 1);
        }
        proof {
            let y = before[idx as int];
            let step = seq![y];
            assert forall|x: i32| #[trigger] count_of(src_use_count@, x) == src_count(
                remaining@,
                x,
            ) by {
                lemma_src_count_swap_remove(before, idx as int, x);
                assert(count_of(map_before, x) == src_count(before, x));
            }
            assert(e.instructions@.skip(n0) =~= code_before + move_code(dst, src, TEMP1));
            assert(e.instructions@.take(n0) =~= instrs_before.take(n0));
            // No unfinished copy reads `dst`.
            assert forall|j: int| 0 <= j < remaining@.len() implies #[trigger] remaining@[j].1
                != dst by {
                assert(remaining@[j] == before[if j == idx { before.len() - 1 } else { j }]);
            }
            assert forall|st: SlotState| #[trigger]
                run_slots(st, e.instructions@.skip(n0)) is Some && (ok ==> copies_done(
                    done + step,
                    st.1,
                    run_slots(st, e.instructions@.skip(n0)).unwrap().1,
                )) by {
                lemma_run_concat(st, code_before, move_code(dst, src, TEMP1));
                assert(run_slots(st, code_before) is Some);
                let cur = run_slots(st, code_before).unwrap();
                lemma_move_run(cur, dst, src, TEMP1);
                let fin = run_slots(st, e.instructions@.skip(n0)).unwrap();
                if ok {
                    assert(copies_done(done, st.1, cur.1));
                    assert(copies_done(step, cur.1, fin.1)) by {
                        assert forall|x: i32|
                            #![trigger (fin.1)(x)]
                            (forall|k: int| 0 <= k < step.len() ==> #[trigger] step[k].0 != x)
                                implies (fin.1)(x) == (cur.1)(x) by {
                            assert(step[0].0 != x);
                        }
                    }
                    assert forall|j: int, k: int|
                        0 <= j < step.len() && 0 <= k < done.len() implies #[trigger] step[j].1
                        != #[trigger] done[k].0 && step[j].0 != done[k].0 by {
                        assert(before[idx as int] == step[j]);
                    }
                    lemma_extend_done(st.1, cur.1, fin.1, done, step);
                }
            }
            let new_done = done + step;
            assert forall|x: (i32, i32)| #[trigger] new_done.contains(x) implies slot_copies@.contains(
                x,
            ) by {
                let j = choose|j: int| 0 <= j < new_done.len() && new_done[j] == x;
                if j < done.len() {
                    assert(done[j] == x);
                    assert(done.contains(x));
                } else {
                    assert(before.contains(y));
                }
            }
            assert forall|k: int| 0 <= k < slot_copies@.len() implies new_done.contains(
                #[trigger] slot_copies@[k],
            ) || remaining@.contains(slot_copies@[k]) by {
                let x = slot_copies@[k];
                if done.contains(x) {
                    let j = choose|j: int| 0 <= j < done.len() && done[j] == x;
                    assert(new_done[j] == x);
                } else if x == y {
                    assert(new_done[done.len() as int] == x);
                }
            }
            if ok {
                assert forall|j: int, k: int|
                    #![trigger remaining@[j], new_done[k]]
                    0 <= j < remaining@.len() && 0 <= k < new_done.len() implies remaining@[j].0
                    != new_done[k].0 && remaining@[j].1 != new_done[k].0 by {
                    let j2 = if j == idx { before.len() - 1 } else { j };
                    assert(remaining@[j] == before[j2]);
                    if k < done.len() {
                        assert(new_done[k] == done[k]);
                    } else {
                        assert(new_done[k] == y);
                    }
                }
            }
            done = new_done;
        }
    }

    // Phase 2: anything left forms one or more cycles. Resolve each.
    proof {
        if ok {
            assert forall|j: int| 0 <= j < remaining@.len() implies reads_slot(
                remaining@,
                #[trigger] remaining@[j].0,
            ) by {
                lemma_src_count(remaining@, remaining@[j].0);
            }
            lemma_copies_permute(remaining@);
        }
    }
    while remaining.len() > 0
        invariant
            e.wf(),
            e.same_frame(&e0),
            n0 == e0.instructions@.len(),
            e.instructions@.len() >= n0,
            e.instructions@.take(n0) == e0.instructions@,
            e0.byte_offset + 12 * slot_copies@.len() <= usize::MAX,
            remaining@.len() <= slot_copies@.len(),
            e.byte_offset <= e0.byte_offset + 12 * (slot_copies@.len() - remaining@.len()),
            forall|x: (i32, i32)| #[trigger] done.contains(x) ==> slot_copies@.contains(x),
            forall|x: (i32, i32)| #[trigger] remaining@.contains(x) ==> slot_copies@.contains(x),
            forall|k: int|
                0 <= k < slot_copies@.len() ==> done.contains(#[trigger] slot_copies@[k])
                    || remaining@.contains(slot_copies@[k]),
            ok == dsts_distinct(slot_copies@),
            ok ==> dsts_distinct(remaining@),
            ok ==> srcs_distinct(remaining@),
            ok ==> forall|j: int|
                0 <= j < remaining@.len() ==> writes_slot(remaining@, #[trigger] remaining@[j].1),
            ok ==> forall|j: int, k: int|
                #![trigger remaining@[j], done[k]]
                0 <= j < remaining@.len() && 0 <= k < done.len() ==> remaining@[j].0 != done[k].0
                    && remaining@[j].1 != done[k].0,
            forall|st: SlotState| #[trigger] run_slots(st, e.instructions@.skip(n0)) is Some,
            forall|st: SlotState|
                cache_holds(e0, st) ==> cache_holds(
                    *e,
                    #[trigger] run_slots(st, e.instructions@.skip(n0)).unwrap(),
                ),
            ok ==> forall|st: SlotState|
                copies_done(done, st.1, #[trigger] run_slots(st, e.instructions@.skip(n0)).unwrap().1),
        decreases remaining@.len(),
    {
        let ghost before = remaining@;
        let ghost code_before = e.instructions@.skip(n0);
        let ghost instrs_before = e.instructions@;
        let cycle = extract_cycle(&mut remaining);
        let ghost first = before[0];
        let ghost r = swap_remove_spec(before, 0);
        let ghost w = walk_cycle(r, first.0, first.1);
        proof {
            broadcast use vstd::seq_lib::group_to_multiset_ensures;

            lemma_swap_remove(before, 0);
            walk_cycle_conserves(r, first.0, first.1);
            assert(w.0.to_multiset().add(w.1.to_multiset()).len() == r.to_multiset().len());
            assert(remaining@.len() + cycle@.len() == before.len());
        }
        let ghost e_prev = *e;
        emit_slot_cycle(e, cycle.as_slice());
        proof {
            assert(e.instructions@.skip(n0) =~= code_before + cycle_code(cycle@));
            assert forall|st: SlotState| cache_holds(e0, st) implies cache_holds(
                *e,
                #[trigger] run_slots(st, e.instructions@.skip(n0)).unwrap(),
            ) by {
                assert(run_slots(st, code_before) is Some);
                let cur = run_slots(st, code_before).unwrap();
                assert(cache_holds(e_prev, cur));
                lemma_run_concat(st, code_before, cycle_code(cycle@));
                assert(run_slots(st, e.instructions@.skip(n0)) == run_slots(cur, cycle_code(cycle@)));
                assert(cache_holds(*e, run_slots(cur, cycle_code(cycle@)).unwrap()));
            }
        }
        proof {
            broadcast use vstd::seq_lib::group_to_multiset_ensures;

            let chain = cycle@;
            assert(e.instructions@.skip(n0) =~= code_before + cycle_code(chain));
            assert(e.instructions@.take(n0) =~= instrs_before.take(n0));
            // Where the copies went.
            assert forall|x: (i32, i32)| #[trigger] chain.contains(x) implies before.contains(x) by {
                let j = choose|j: int| 0 <= j < chain.len() && chain[j] == x;
                if j > 0 {
                    assert(w.1[j - 1] == x);
                    assert(w.1.to_multiset().count(x) > 0);
                    assert(r.to_multiset().count(x) > 0);
                }
            }
            assert forall|x: (i32, i32)| #[trigger] remaining@.contains(x) implies before.contains(
                x,
            ) by {
                assert(w.0.to_multiset().count(x) > 0);
                assert(r.to_multiset().count(x) > 0);
            }
            assert forall|x: (i32, i32)| #[trigger] before.contains(x) implies chain.contains(x)
                || remaining@.contains(x) by {
                if x == first {
                    assert(chain[0] == x);
                } else {
                    assert(r.contains(x));
                    assert(r.to_multiset().count(x) > 0);
                    if w.1.to_multiset().count(x) > 0 {
                        let j = choose|j: int| 0 <= j < w.1.len() && w.1[j] == x;
                        assert(chain[j + 1] == x);
                    }
                }
            }
            if ok {
                assert(writes_slot(before, first.1));
                assert(writes_slot(r, first.1) || first.0 == first.1);
                let c0 = seq![first];
                assert forall|j: int| 0 <= j < r.len() implies writes_slot(r, #[trigger] r[j].1)
                    || writes_slot(c0, r[j].1) by {
                    let j2 = if j == 0 { before.len() - 1 } else { j };
                    assert(r[j] == before[j2]);
                    assert(writes_slot(before, before[j2].1));
                    if !writes_slot(r, r[j].1) {
                        assert(c0[0].0 == r[j].1);
                    }
                }
                assert forall|k: int| 0 <= k < c0.len() implies writes_slot(r, #[trigger] c0[k].1)
                    || writes_slot(c0, c0[k].1) by {
                    if !writes_slot(r, first.1) {
                        assert(c0[0].0 == first.1);
                    }
                }
                assert forall|j: int, k: int|
                    #![trigger r[j], c0[k]]
                    0 <= j < r.len() && 0 <= k < c0.len() implies r[j].0 != c0[k].0 && r[j].1
                    != c0[k].1 by {
                    assert(c0[k] == before[0]);
                }
                lemma_walk_closes(r, first.0, first.1, c0);
                assert(c0 + w.1 =~= chain);
            }
            assert forall|st: SlotState| #[trigger]
                run_slots(st, e.instructions@.skip(n0)) is Some && (ok ==> copies_done(
                    done + chain,
                    st.1,
                    run_slots(st, e.instructions@.skip(n0)).unwrap().1,
                )) by {
                lemma_run_concat(st, code_before, cycle_code(chain));
                assert(run_slots(st, code_before) is Some);
                let cur = run_slots(st, code_before).unwrap();
                if ok {
                    lemma_cycle_run(cur, chain);
                    let fin = run_slots(st, e.instructions@.skip(n0)).unwrap();
                    assert(copies_done(done, st.1, cur.1));
                    assert forall|j: int, k: int|
                        0 <= j < chain.len() && 0 <= k < done.len() implies #[trigger] chain[j].1
                        != #[trigger] done[k].0 && chain[j].0 != done[k].0 by {
                        assert(chain.contains(chain[j]));
                        let b = choose|b: int| 0 <= b < before.len() && before[b] == chain[j];
                        assert(before[b].0 != done[k].0 && before[b].1 != done[k].0);
                    }
                    lemma_extend_done(st.1, cur.1, fin.1, done, chain);
                } else {
                    lemma_cycle_some(cur, chain);
                }
            }
            let new_done = done + chain;
            assert forall|x: (i32, i32)| #[trigger] new_done.contains(x) implies slot_copies@.contains(
                x,
            ) by {
                let j = choose|j: int| 0 <= j < new_done.len() && new_done[j] == x;
                if j < done.len() {
                    assert(done[j] == x);
                    assert(done.contains(x));
                } else {
                    assert(chain[j - done.len()] == x);
                    assert(chain.contains(x));
                }
            }
            assert forall|k: int| 0 <= k < slot_copies@.len() implies new_done.contains(
                #[trigger] slot_copies@[k],
            ) || remaining@.contains(slot_copies@[k]) by {
                let x = slot_copies@[k];
                if done.contains(x) {
                    let j = choose|j: int| 0 <= j < done.len() && done[j] == x;
                    assert(new_done[j] == x);
                } else if chain.contains(x) {
                    let j = choose|j: int| 0 <= j < chain.len() && chain[j] == x;
                    assert(new_done[done.len() + j] == x);
                }
            }
            if ok {
                assert forall|j: int, k: int|
                    #![trigger remaining@[j], new_done[k]]
                    0 <= j < remaining@.len() && 0 <= k < new_done.len() implies remaining@[j].0
                    != new_done[k].0 && remaining@[j].1 != new_done[k].0 by {
                    if k < done.len() {
                        assert(new_done[k] == done[k]);
                        assert(remaining@.contains(remaining@[j]));
                        let b = choose|b: int| 0 <= b < before.len() && before[b] == remaining@[j];
                        assert(before[b].0 != done[k].0 && before[b].1 != done[k].0);
                    } else {
                        let m = k - done.len();
                        assert(new_done[k] == chain[m]);
                        assert(remaining@[j].0 != chain[m].0);
                        if m == 0 {
                            assert(remaining@[j].1 != chain[chain.len() - 1].1);
                        } else {
                            assert(chain[m].0 == chain[m - 1].1);
                            assert(remaining@[j].1 != chain[m - 1].1);
                        }
                    }
                }
            }
            done = new_done;
        }
    }
    proof {
        assert forall|k: int| 0 <= k < slot_copies@.len() implies done.contains(
            #[trigger] slot_copies@[k],
        ) by {
            assert(!remaining@.contains(slot_copies@[k]));
        }
        if ok {
            assert forall|st: SlotState|
                copies_done(
                    slot_copies@,
                    st.1,
                    #[trigger] run_slots(st, e.instructions@.skip(n0)).unwrap().1,
                ) by {
                lemma_done_covers(
                    slot_copies@,
                    done,
                    st.1,
                    run_slots(st, e.instructions@.skip(n0)).unwrap().1,
                );
            }
        }
    }
}

// ── Laws ──

/// Consecutive copies of a walked chain are linked: each copy writes the
/// slot the previous one reads.
pub proof fn walk_cycle_links(rem: Seq<(i32, i32)>, head: i32, cur: i32, k: int)
    requires
        0 <= k < walk_cycle(rem, head, cur).1.len(),
    ensures
        walk_cycle(rem, head, cur).1[k].0 == (if k == 0 {
            cur
        } else {
            walk_cycle(rem, head, cur).1[k - 1].1
        }),
    decreases rem.len(),
{
    lemma_first_with_dst(rem, cur);
    if cur != head {
        match first_with_dst(rem, cur) {
            Some(i) => {
                if k > 0 {
                    walk_cycle_links(swap_remove_spec(rem, i), head, rem[i].1, k - 1);
                }
            },
            None => {},
        }
    }
}

/// Walking a chain moves copies from the remaining set into the chain and
/// loses none: together they hold the same copies as before.
pub proof fn walk_cycle_conserves(rem: Seq<(i32, i32)>, head: i32, cur: i32)
    ensures
        walk_cycle(rem, head, cur).0.to_multiset().add(walk_cycle(rem, head, cur).1.to_multiset())
            == rem.to_multiset(),
    decreases rem.len(),
{
    broadcast use vstd::seq_lib::group_to_multiset_ensures;

    lemma_first_with_dst(rem, cur);
    if cur == head {
        assert(Seq::<(i32, i32)>::empty().to_multiset() =~= vstd::multiset::Multiset::empty());
        assert(rem.to_multiset().add(vstd::multiset::Multiset::empty()) =~= rem.to_multiset());
    } else {
        match first_with_dst(rem, cur) {
            Some(i) => {
                let copy = rem[i];
                let r2 = swap_remove_spec(rem, i);
                walk_cycle_conserves(r2, head, copy.1);
                lemma_swap_remove_multiset(rem, i);
                let w = walk_cycle(r2, head, copy.1);
                assert((seq![copy] + w.1).to_multiset() =~= w.1.to_multiset().insert(copy)) by {
                    vstd::seq_lib::lemma_multiset_commutative(seq![copy], w.1);
                    assert(seq![copy].to_multiset() =~= vstd::multiset::Multiset::singleton(copy)) by {
                        assert(seq![copy] =~= Seq::<(i32, i32)>::empty().push(copy));
                    }
                }
                assert(w.0.to_multiset().add(w.1.to_multiset().insert(copy)) =~= w.0.to_multiset().add(
                    w.1.to_multiset(),
                ).insert(copy));
            },
            None => {
                assert(Seq::<(i32, i32)>::empty().to_multiset() =~= vstd::multiset::Multiset::empty());
                assert(rem.to_multiset().add(vstd::multiset::Multiset::empty()) =~= rem.to_multiset());
            },
        }
    }
}

proof fn lemma_swap_remove_multiset(s: Seq<(i32, i32)>, i: int)
    requires
        0 <= i < s.len(),
    ensures
        swap_remove_spec(s, i).to_multiset().insert(s[i]) == s.to_multiset(),
{
    broadcast use vstd::seq_lib::group_to_multiset_ensures;
    broadcast use vstd::multiset::group_multiset_properties;
    broadcast use vstd::multiset::group_multiset_axioms;

    let last = s.last();
    let t = s.drop_last();
    assert(s =~= t.push(last));
    if i == s.len() - 1 {
        assert(swap_remove_spec(s, i) =~= t);
    } else {
        // `t` with entry `i` replaced by `last`.
        let u = swap_remove_spec(s, i);
        assert(u =~= t.update(i, last));
        vstd::seq_lib::to_multiset_update(t, i, last);
        assert(t.to_multiset().count(t[i]) > 0);
        assert(u.to_multiset().insert(s[i]) =~= t.to_multiset().insert(last));
    }
}

} // verus!
