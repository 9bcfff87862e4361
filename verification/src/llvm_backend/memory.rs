//! Bulk memory operations on the WebAssembly memory: `memory.copy`, with
//! memmove semantics (word by word forward, byte by byte backward), and
//! `memory.fill` (word by word, then byte by byte).
use super::emitter::{operand_code, slots_after_load, LoweringContext, Operand, PvmEmitter};
use super::slot_store_code;
use crate::abi::{SCRATCH1, SCRATCH2, TEMP1, TEMP2, TEMP_RESULT};
use crate::error::Result;
use crate::pvm::instruction::Instruction;
use crate::pvm::blob::code_bytes;
use crate::pvm::peephole::offset_of;
use vstd::prelude::*;

verus! {

/// The copy loops after the three operands are loaded (destination in
/// `TEMP1`, source in `TEMP2`, length in `TEMP_RESULT`). Both addresses are
/// moved up by the memory base. A zero length jumps to the end; a
/// destination above the source copies backward, byte by byte from the last
/// byte; otherwise eight-byte words are copied forward, then the remaining
/// `len & 7` bytes. The load of the shift amount 3 is dropped when `skip3`
/// (the register already holds it); the `Fallthrough` enters the backward
/// loop's block.
pub open spec fn memory_copy_body(base: i32, skip3: bool) -> Seq<Instruction> {
    seq![
        Instruction::AddImm32 { dst: TEMP1, src: TEMP1, value: base },
        Instruction::AddImm32 { dst: TEMP2, src: TEMP2, value: base },
        Instruction::BranchEqImm { reg: TEMP_RESULT, value: 0, offset: 0 },
        Instruction::BranchLtU { reg1: TEMP1, reg2: TEMP2, offset: 0 },
    ] + (if skip3 {
        Seq::empty()
    } else {
        seq![Instruction::LoadImm { reg: SCRATCH2, value: 3 }]
    }) + seq![
        Instruction::ShloR64 { dst: SCRATCH2, src1: TEMP_RESULT, src2: SCRATCH2 },
        Instruction::BranchEqImm { reg: SCRATCH2, value: 0, offset: 0 },
        // forward word loop
        Instruction::LoadIndU64 { dst: SCRATCH1, base: TEMP2, offset: 0 },
        Instruction::StoreIndU64 { base: TEMP1, src: SCRATCH1, offset: 0 },
        Instruction::AddImm64 { dst: TEMP1, src: TEMP1, value: 8 },
        Instruction::AddImm64 { dst: TEMP2, src: TEMP2, value: 8 },
        Instruction::AddImm64 { dst: SCRATCH2, src: SCRATCH2, value: -1i32 },
        Instruction::BranchNeImm { reg: SCRATCH2, value: 0, offset: 0 },
        // forward byte tail
        Instruction::LoadImm { reg: SCRATCH2, value: 7 },
        Instruction::And { dst: TEMP_RESULT, src1: TEMP_RESULT, src2: SCRATCH2 },
        Instruction::BranchEqImm { reg: TEMP_RESULT, value: 0, offset: 0 },
        Instruction::LoadIndU8 { dst: SCRATCH1, base: TEMP2, offset: 0 },
        Instruction::StoreIndU8 { base: TEMP1, src: SCRATCH1, offset: 0 },
        Instruction::AddImm64 { dst: TEMP1, src: TEMP1, value: 1 },
        Instruction::AddImm64 { dst: TEMP2, src: TEMP2, value: 1 },
        Instruction::AddImm64 { dst: TEMP_RESULT, src: TEMP_RESULT, value: -1i32 },
        Instruction::BranchNeImm { reg: TEMP_RESULT, value: 0, offset: 0 },
        Instruction::Jump { offset: 0 },
        // backward byte loop
        Instruction::AddImm64 { dst: SCRATCH2, src: TEMP_RESULT, value: -1i32 },
        Instruction::Add64 { dst: TEMP1, src1: TEMP1, src2: SCRATCH2 },
        Instruction::Add64 { dst: TEMP2, src1: TEMP2, src2: SCRATCH2 },
        Instruction::Fallthrough,
        Instruction::LoadIndU8 { dst: SCRATCH1, base: TEMP2, offset: 0 },
        Instruction::StoreIndU8 { base: TEMP1, src: SCRATCH1, offset: 0 },
        Instruction::AddImm64 { dst: TEMP1, src: TEMP1, value: -1i32 },
        Instruction::AddImm64 { dst: TEMP2, src: TEMP2, value: -1i32 },
        Instruction::AddImm64 { dst: TEMP_RESULT, src: TEMP_RESULT, value: -1i32 },
        Instruction::BranchNeImm { reg: TEMP_RESULT, value: 0, offset: 0 },
    ]
}

/// The jump fixups of the copy loops, for a body starting at instruction `n`
/// whose six labels are `l` (backward copy), `l + 1` (forward byte loop),
/// `l + 2` (end), `l + 3` (forward word loop), `l + 4` (byte tail) and
/// `l + 5` (backward loop); `s` is 1 when the load of 3 is emitted, else 0.
pub open spec fn memory_copy_fixups(n: int, l: int, s: int) -> Seq<(usize, usize)> {
    seq![
        ((n + 2) as usize, (l + 2) as usize),
        ((n + 3) as usize, l as usize),
        ((n + 5 + s) as usize, (l + 4) as usize),
        ((n + 11 + s) as usize, (l + 3) as usize),
        ((n + 14 + s) as usize, (l + 2) as usize),
        ((n + 20 + s) as usize, (l + 1) as usize),
        ((n + 21 + s) as usize, (l + 2) as usize),
        ((n + 31 + s) as usize, (l + 5) as usize),
    ]
}

/// The six labels of the copy loops, in allocation order, as the byte
/// offsets of the instructions they mark in the final stream `code` (the
/// body starts at instruction `n`).
pub open spec fn memory_copy_labels(code: Seq<Instruction>, n: int, s: int) -> Seq<Option<usize>> {
    seq![
        Some(offset_of(code, n + 22 + s) as usize),
        Some(offset_of(code, n + 15 + s) as usize),
        Some(offset_of(code, n + 32 + s) as usize),
        Some(offset_of(code, n + 6 + s) as usize),
        Some(offset_of(code, n + 12 + s) as usize),
        Some(offset_of(code, n + 26 + s) as usize),
    ]
}

/// A prefix of a stream keeps the byte offsets of its instructions.
proof fn lemma_offset_prefix(a: Seq<Instruction>, b: Seq<Instruction>, k: int)
    requires
        0 <= k <= a.len(),
    ensures
        offset_of(a + b, k) == offset_of(a, k),
{
    assert((a + b).take(k) =~= a.take(k));
}

/// The offset of the end of a stream is its byte length.
proof fn lemma_offset_end(a: Seq<Instruction>)
    ensures
        offset_of(a, a.len() as int) == code_bytes(a).len(),
{
    assert(a.take(a.len() as int) =~= a);
}

/// Move both addresses up by the memory base; skip everything for a zero
/// length; copy backward when the destination is above the source.
fn emit_copy_head(e: &mut PvmEmitter, base: i32) -> (ids: (usize, usize, usize))
    requires
        old(e).wf(),
        old(e).byte_offset + 40 <= usize::MAX,
        old(e).labels@.len() + 6 <= usize::MAX,
    ensures
        final(e).wf(),
        final(e).same_body(old(e)),
        final(e).byte_offset <= old(e).byte_offset + 40,
        final(e).reg_const(6) == old(e).reg_const(6),
        ids == (old(e).labels@.len() as usize, (old(e).labels@.len() + 1) as usize, (old(e).labels@.len() + 2) as usize),
        final(e).instructions@ == old(e).instructions@ + memory_copy_body(base, true).take(4),
        final(e).fixups@ == old(e).fixups@ + memory_copy_fixups(
            old(e).instructions@.len() as int,
            old(e).labels@.len() as int,
            0,
        ).take(2),
        final(e).labels@ == old(e).labels@ + seq![None, None, None],
{
    let ghost e0 = *e;
    let a1 = Instruction::AddImm32 { dst: TEMP1, src: TEMP1, value: base };
    let a2 = Instruction::AddImm32 { dst: TEMP2, src: TEMP2, value: base };
    assert(a1.encoding().len() <= 6);
    assert(a2.encoding().len() <= 6);
    e.emit(a1);
    assert(e.reg_const(6) == e0.reg_const(6));
    let ghost e1 = *e;
    e.emit(a2);
    assert(e.reg_const(6) == e1.reg_const(6));
    let backward_label = e.alloc_label();
    let forward_label = e.alloc_label();
    let loop_end = e.alloc_label();
    e.emit_branch_eq_imm_to_label(TEMP_RESULT, 0, loop_end);
    e.emit_branch_lt_u_to_label(TEMP1, TEMP2, backward_label);
    proof {
        assert(e.instructions@ =~= e0.instructions@ + memory_copy_body(base, true).take(4));
        assert(e.fixups@ =~= e0.fixups@ + memory_copy_fixups(
            e0.instructions@.len() as int,
            e0.labels@.len() as int,
            0,
        ).take(2));
        assert(e.labels@ =~= e0.labels@ + seq![None, None, None]);
    }
    (backward_label, forward_label, loop_end)
}

/// Copy eight-byte words forward while at least one is left.
fn emit_copy_words(e: &mut PvmEmitter) -> (ids: (usize, usize))
    requires
        old(e).wf(),
        old(e).byte_offset + 60 <= usize::MAX,
        old(e).labels@.len() + 2 <= usize::MAX,
    ensures
        final(e).wf(),
        final(e).same_body(old(e)),
        final(e).byte_offset <= old(e).byte_offset + 60,
        ({
            let skip3 = old(e).emit_skips(Instruction::LoadImm { reg: SCRATCH2, value: 3 });
            let s = if skip3 { 0int } else { 1int };
            let n = old(e).instructions@.len() as int;
            let l = old(e).labels@.len() as int;
            &&& ids == (l as usize, (l + 1) as usize)
            &&& final(e).instructions@ == old(e).instructions@ + (if skip3 {
                Seq::empty()
            } else {
                seq![Instruction::LoadImm { reg: SCRATCH2, value: 3 }]
            }) + seq![
                Instruction::ShloR64 { dst: SCRATCH2, src1: TEMP_RESULT, src2: SCRATCH2 },
                Instruction::BranchEqImm { reg: SCRATCH2, value: 0, offset: 0 },
                Instruction::LoadIndU64 { dst: SCRATCH1, base: TEMP2, offset: 0 },
                Instruction::StoreIndU64 { base: TEMP1, src: SCRATCH1, offset: 0 },
                Instruction::AddImm64 { dst: TEMP1, src: TEMP1, value: 8 },
                Instruction::AddImm64 { dst: TEMP2, src: TEMP2, value: 8 },
                Instruction::AddImm64 { dst: SCRATCH2, src: SCRATCH2, value: -1i32 },
                Instruction::BranchNeImm { reg: SCRATCH2, value: 0, offset: 0 },
            ]
            &&& final(e).fixups@ == old(e).fixups@ + seq![
                ((n + 1 + s) as usize, (l + 1) as usize),
                ((n + 7 + s) as usize, l as usize),
            ]
            &&& final(e).labels@ == old(e).labels@ + seq![
                Some(offset_of(final(e).instructions@, n + 2 + s) as usize),
                None,
            ]
        }),
{
    let ghost e0 = *e;
    let three = Instruction::LoadImm { reg: SCRATCH2, value: 3 };
    assert(three.encoding().len() == 3);
    e.emit(three);
    let shr = Instruction::ShloR64 { dst: SCRATCH2, src1: TEMP_RESULT, src2: SCRATCH2 };
    assert(shr.encoding().len() == 3);
    e.emit(shr);
    let fwd_word_loop = e.alloc_label();
    let fwd_byte_tail = e.alloc_label();
    e.emit_branch_eq_imm_to_label(SCRATCH2, 0, fwd_byte_tail);
    e.define_label(fwd_word_loop);
    let ghost at_word = *e;
    let i1 = Instruction::LoadIndU64 { dst: SCRATCH1, base: TEMP2, offset: 0 };
    let i2 = Instruction::StoreIndU64 { base: TEMP1, src: SCRATCH1, offset: 0 };
    let i3 = Instruction::AddImm64 { dst: TEMP1, src: TEMP1, value: 8 };
    let i4 = Instruction::AddImm64 { dst: TEMP2, src: TEMP2, value: 8 };
    let i5 = Instruction::AddImm64 { dst: SCRATCH2, src: SCRATCH2, value: -1 };
    assert(i1.encoding().len() == 2);
    assert(i2.encoding().len() == 2);
    assert(i3.encoding().len() == 3);
    assert(i4.encoding().len() == 3);
    assert(i5.encoding().len() == 3);
    e.emit(i1);
    e.emit(i2);
    e.emit(i3);
    e.emit(i4);
    e.emit(i5);
    e.emit_branch_ne_imm_to_label(SCRATCH2, 0, fwd_word_loop);
    proof {
        let skip3 = e0.emit_skips(three);
        let s = if skip3 { 0int } else { 1int };
        let n = e0.instructions@.len() as int;
        let fin = e.instructions@;
        let tail = seq![
            Instruction::ShloR64 { dst: SCRATCH2, src1: TEMP_RESULT, src2: SCRATCH2 },
            Instruction::BranchEqImm { reg: SCRATCH2, value: 0, offset: 0 },
            Instruction::LoadIndU64 { dst: SCRATCH1, base: TEMP2, offset: 0 },
            Instruction::StoreIndU64 { base: TEMP1, src: SCRATCH1, offset: 0 },
            Instruction::AddImm64 { dst: TEMP1, src: TEMP1, value: 8 },
            Instruction::AddImm64 { dst: TEMP2, src: TEMP2, value: 8 },
            Instruction::AddImm64 { dst: SCRATCH2, src: SCRATCH2, value: -1i32 },
            Instruction::BranchNeImm { reg: SCRATCH2, value: 0, offset: 0 },
        ];
        if skip3 {
            assert(fin =~= e0.instructions@ + Seq::<Instruction>::empty() + tail);
        } else {
            assert(fin =~= e0.instructions@ + seq![three] + tail);
        }
        assert(at_word.instructions@.len() == n + 2 + s);
        assert(fin.take(n + 2 + s) =~= at_word.instructions@);
        lemma_offset_end(at_word.instructions@);
        assert(e.labels@ =~= e0.labels@ + seq![Some(offset_of(fin, n + 2 + s) as usize), None]);
        assert(e.fixups@ =~= e0.fixups@ + seq![
            ((n + 1 + s) as usize, (e0.labels@.len() + 1) as usize),
            ((n + 7 + s) as usize, e0.labels@.len() as usize),
        ]);
    }
    (fwd_word_loop, fwd_byte_tail)
}

/// The forward byte loop over the last `len & 7` bytes, then a jump to the end.
fn emit_copy_tail(e: &mut PvmEmitter, tail: usize, forward: usize, loop_end: usize)
    requires
        old(e).wf(),
        old(e).byte_offset + 60 <= usize::MAX,
        tail < old(e).labels@.len(),
        forward < old(e).labels@.len(),
        loop_end < old(e).labels@.len(),
        tail != forward,
        old(e).instructions@.len() > 0,
        old(e).instructions@.last().terminates(),
    ensures
        final(e).wf(),
        final(e).same_body(old(e)),
        final(e).byte_offset <= old(e).byte_offset + 60,
        ({
            let n = old(e).instructions@.len() as int;
            let fin = final(e).instructions@;
            &&& fin == old(e).instructions@ + seq![
                Instruction::LoadImm { reg: SCRATCH2, value: 7 },
                Instruction::And { dst: TEMP_RESULT, src1: TEMP_RESULT, src2: SCRATCH2 },
                Instruction::BranchEqImm { reg: TEMP_RESULT, value: 0, offset: 0 },
                Instruction::LoadIndU8 { dst: SCRATCH1, base: TEMP2, offset: 0 },
                Instruction::StoreIndU8 { base: TEMP1, src: SCRATCH1, offset: 0 },
                Instruction::AddImm64 { dst: TEMP1, src: TEMP1, value: 1 },
                Instruction::AddImm64 { dst: TEMP2, src: TEMP2, value: 1 },
                Instruction::AddImm64 { dst: TEMP_RESULT, src: TEMP_RESULT, value: -1i32 },
                Instruction::BranchNeImm { reg: TEMP_RESULT, value: 0, offset: 0 },
                Instruction::Jump { offset: 0 },
            ]
            &&& final(e).fixups@ == old(e).fixups@ + seq![
                ((n + 2) as usize, loop_end),
                ((n + 8) as usize, forward),
                ((n + 9) as usize, loop_end),
            ]
            &&& final(e).labels@ == old(e).labels@.update(tail as int, Some(offset_of(fin, n) as usize)).update(
                forward as int,
                Some(offset_of(fin, n + 3) as usize),
            )
        }),
{
    let ghost e0 = *e;
    e.define_label(tail);
    let ghost at_tail = *e;
    let seven = Instruction::LoadImm { reg: SCRATCH2, value: 7 };
    let and7 = Instruction::And { dst: TEMP_RESULT, src1: TEMP_RESULT, src2: SCRATCH2 };
    assert(seven.encoding().len() == 3);
    assert(and7.encoding().len() == 3);
    assert(at_tail.reg_slot(6) is None);
    assert(at_tail.reg_const(6) is None);
    e.emit(seven);
    e.emit(and7);
    e.emit_branch_eq_imm_to_label(TEMP_RESULT, 0, loop_end);
    e.define_label(forward);
    let ghost at_forward = *e;
    let b1 = Instruction::LoadIndU8 { dst: SCRATCH1, base: TEMP2, offset: 0 };
    let b2 = Instruction::StoreIndU8 { base: TEMP1, src: SCRATCH1, offset: 0 };
    let b3 = Instruction::AddImm64 { dst: TEMP1, src: TEMP1, value: 1 };
    let b4 = Instruction::AddImm64 { dst: TEMP2, src: TEMP2, value: 1 };
    let b5 = Instruction::AddImm64 { dst: TEMP_RESULT, src: TEMP_RESULT, value: -1 };
    assert(b1.encoding().len() == 2);
    assert(b2.encoding().len() == 2);
    assert(b3.encoding().len() == 3);
    assert(b4.encoding().len() == 3);
    assert(b5.encoding().len() == 3);
    e.emit(b1);
    e.emit(b2);
    e.emit(b3);
    e.emit(b4);
    e.emit(b5);
    e.emit_branch_ne_imm_to_label(TEMP_RESULT, 0, forward);
    e.emit_jump_to_label(loop_end);
    proof {
        let n = e0.instructions@.len() as int;
        let fin = e.instructions@;
        assert(fin =~= e0.instructions@ + seq![
            seven, and7, Instruction::BranchEqImm { reg: TEMP_RESULT, value: 0, offset: 0 },
            b1, b2, b3, b4, b5,
            Instruction::BranchNeImm { reg: TEMP_RESULT, value: 0, offset: 0 },
            Instruction::Jump { offset: 0 },
        ]);
        assert(at_tail.instructions@ == e0.instructions@);
        assert(fin.take(n) =~= at_tail.instructions@);
        lemma_offset_end(at_tail.instructions@);
        assert(at_forward.instructions@.len() == n + 3);
        assert(fin.take(n + 3) =~= at_forward.instructions@);
        lemma_offset_end(at_forward.instructions@);
        assert(e.labels@ =~= e0.labels@.update(tail as int, Some(offset_of(fin, n) as usize)).update(
            forward as int,
            Some(offset_of(fin, n + 3) as usize),
        ));
        assert(e.fixups@ =~= e0.fixups@ + seq![
            ((n + 2) as usize, loop_end),
            ((n + 8) as usize, forward),
            ((n + 9) as usize, loop_end),
        ]);
    }
}

/// The backward byte loop, from the last byte down, then the end label.
fn emit_copy_backward(e: &mut PvmEmitter, backward: usize, loop_end: usize)
    requires
        old(e).wf(),
        old(e).byte_offset + 60 <= usize::MAX,
        old(e).labels@.len() + 1 <= usize::MAX,
        backward < old(e).labels@.len(),
        loop_end < old(e).labels@.len(),
        backward != loop_end,
        old(e).instructions@.len() > 0,
        old(e).instructions@.last().terminates(),
    ensures
        final(e).wf(),
        final(e).same_body(old(e)),
        final(e).byte_offset <= old(e).byte_offset + 60,
        ({
            let n = old(e).instructions@.len() as int;
            let l = old(e).labels@.len() as int;
            let fin = final(e).instructions@;
            &&& fin == old(e).instructions@ + seq![
                Instruction::AddImm64 { dst: SCRATCH2, src: TEMP_RESULT, value: -1i32 },
                Instruction::Add64 { dst: TEMP1, src1: TEMP1, src2: SCRATCH2 },
                Instruction::Add64 { dst: TEMP2, src1: TEMP2, src2: SCRATCH2 },
                Instruction::Fallthrough,
                Instruction::LoadIndU8 { dst: SCRATCH1, base: TEMP2, offset: 0 },
                Instruction::StoreIndU8 { base: TEMP1, src: SCRATCH1, offset: 0 },
                Instruction::AddImm64 { dst: TEMP1, src: TEMP1, value: -1i32 },
                Instruction::AddImm64 { dst: TEMP2, src: TEMP2, value: -1i32 },
                Instruction::AddImm64 { dst: TEMP_RESULT, src: TEMP_RESULT, value: -1i32 },
                Instruction::BranchNeImm { reg: TEMP_RESULT, value: 0, offset: 0 },
            ]
            &&& final(e).fixups@ == old(e).fixups@ + seq![((n + 9) as usize, l as usize)]
            &&& final(e).labels@ == old(e).labels@.update(backward as int, Some(offset_of(fin, n) as usize)).update(
                loop_end as int,
                Some(offset_of(fin, n + 10) as usize),
            ).push(Some(offset_of(fin, n + 4) as usize))
        }),
{
    let ghost e0 = *e;
    e.define_label(backward);
    let ghost at_backward = *e;
    let c1 = Instruction::AddImm64 { dst: SCRATCH2, src: TEMP_RESULT, value: -1 };
    let c2 = Instruction::Add64 { dst: TEMP1, src1: TEMP1, src2: SCRATCH2 };
    let c3 = Instruction::Add64 { dst: TEMP2, src1: TEMP2, src2: SCRATCH2 };
    assert(c1.encoding().len() == 3);
    assert(c2.encoding().len() == 3);
    assert(c3.encoding().len() == 3);
    e.emit(c1);
    e.emit(c2);
    e.emit(c3);
    let backward_loop = e.alloc_label();
    e.define_label(backward_loop);
    let ghost at_loop = *e;
    let d1 = Instruction::LoadIndU8 { dst: SCRATCH1, base: TEMP2, offset: 0 };
    let d2 = Instruction::StoreIndU8 { base: TEMP1, src: SCRATCH1, offset: 0 };
    let d3 = Instruction::AddImm64 { dst: TEMP1, src: TEMP1, value: -1 };
    let d4 = Instruction::AddImm64 { dst: TEMP2, src: TEMP2, value: -1 };
    let d5 = Instruction::AddImm64 { dst: TEMP_RESULT, src: TEMP_RESULT, value: -1 };
    assert(d1.encoding().len() == 2);
    assert(d2.encoding().len() == 2);
    assert(d3.encoding().len() == 3);
    assert(d4.encoding().len() == 3);
    assert(d5.encoding().len() == 3);
    e.emit(d1);
    e.emit(d2);
    e.emit(d3);
    e.emit(d4);
    e.emit(d5);
    e.emit_branch_ne_imm_to_label(TEMP_RESULT, 0, backward_loop);
    e.define_label(loop_end);
    proof {
        let n = e0.instructions@.len() as int;
        let fin = e.instructions@;
        assert(fin =~= e0.instructions@ + seq![
            c1, c2, c3, Instruction::Fallthrough, d1, d2, d3, d4, d5,
            Instruction::BranchNeImm { reg: TEMP_RESULT, value: 0, offset: 0 },
        ]);
        assert(at_backward.instructions@ == e0.instructions@);
        assert(fin.take(n) =~= at_backward.instructions@);
        lemma_offset_end(at_backward.instructions@);
        assert(at_loop.instructions@.len() == n + 4);
        assert(fin.take(n + 4) =~= at_loop.instructions@);
        lemma_offset_end(at_loop.instructions@);
        assert(fin.take(n + 10) =~= fin);
        lemma_offset_end(fin);
        assert(e.labels@ =~= e0.labels@.update(backward as int, Some(offset_of(fin, n) as usize)).update(
            loop_end as int,
            Some(offset_of(fin, n + 10) as usize),
        ).push(Some(offset_of(fin, n + 4) as usize)));
        assert(e.fixups@ =~= e0.fixups@ + seq![((n + 9) as usize, e0.labels@.len() as usize)]);
    }
}

/// Emit the copy loops (see `memory_copy_body`).
#[verifier::spinoff_prover]
#[verifier::rlimit(60)]
fn emit_copy_loops(e: &mut PvmEmitter, base: i32)
    requires
        old(e).wf(),
        old(e).byte_offset + 240 <= usize::MAX,
        old(e).labels@.len() + 6 <= usize::MAX,
    ensures
        final(e).wf(),
        final(e).same_body(old(e)),
        final(e).byte_offset <= old(e).byte_offset + 240,
        ({
            let skip3 = old(e).emit_skips(Instruction::LoadImm { reg: SCRATCH2, value: 3 });
            let n = old(e).instructions@.len() as int;
            let s = if skip3 { 0int } else { 1int };
            &&& final(e).instructions@ == old(e).instructions@ + memory_copy_body(base, skip3)
            &&& final(e).fixups@ == old(e).fixups@ + memory_copy_fixups(n, old(e).labels@.len() as int, s)
            &&& final(e).labels@ == old(e).labels@ + memory_copy_labels(final(e).instructions@, n, s)
        }),
{
    let ghost e0 = *e;
    let ids = emit_copy_head(e, base);
    let backward = ids.0;
    let forward = ids.1;
    let loop_end = ids.2;
    let ghost ea = *e;
    let words = emit_copy_words(e);
    let tail = words.1;
    let ghost eb = *e;
    emit_copy_tail(e, tail, forward, loop_end);
    let ghost ec = *e;
    emit_copy_backward(e, backward, loop_end);
    proof {
        let skip3 = e0.emit_skips(Instruction::LoadImm { reg: SCRATCH2, value: 3 });
        assert(ea.emit_skips(Instruction::LoadImm { reg: SCRATCH2, value: 3 }) == skip3);
        let n = e0.instructions@.len() as int;
        let l = e0.labels@.len() as int;
        let s = if skip3 { 0int } else { 1int };
        let fin = e.instructions@;
        assert(fin =~= e0.instructions@ + memory_copy_body(base, skip3));
        assert(e.fixups@ =~= e0.fixups@ + memory_copy_fixups(n, l, s));
        let fb = eb.instructions@;
        let fc = ec.instructions@;
        assert(fb.len() == n + 12 + s);
        assert(fc.len() == n + 22 + s);
        assert(fin =~= fb + fin.skip(fb.len() as int));
        assert(fin =~= fc + fin.skip(fc.len() as int));
        lemma_offset_prefix(fb, fin.skip(fb.len() as int), n + 6 + s);
        lemma_offset_prefix(fc, fin.skip(fc.len() as int), n + 12 + s);
        lemma_offset_prefix(fc, fin.skip(fc.len() as int), n + 15 + s);
        assert(e.labels@ =~= e0.labels@ + memory_copy_labels(fin, n, s));
    }
}

/// Emit `memory.copy` with memmove semantics: load the destination, source
/// and length operands into `TEMP1`, `TEMP2` and `TEMP_RESULT`, then the
/// copy loops (see `memory_copy_body`), which copy backward when the
/// destination lies above the source so that overlapping bytes are read
/// before they are overwritten. Fails, emitting the loads before it, when an
/// operand has neither a register nor a stack slot.
pub fn emit_pvm_memory_copy(
    e: &mut PvmEmitter,
    dst: Operand,
    src: Operand,
    len: Operand,
    ctx: &LoweringContext,
) -> (r: Result<()>)
    requires
        old(e).wf(),
        old(e).byte_offset + 280 <= usize::MAX,
        old(e).labels@.len() + 6 <= usize::MAX,
    ensures
        final(e).wf(),
        final(e).same_body(old(e)),
        ({
            let e0 = *old(e);
            let m0 = e0.slot_map();
            let m1 = slots_after_load(e0, m0, e0.reg_slot(2), dst, TEMP1);
            let m2 = slots_after_load(e0, m1, e0.reg_slot(3), src, TEMP2);
            let c1 = operand_code(e0, m0, dst, TEMP1);
            let c2 = operand_code(e0, m1, src, TEMP2);
            let c3 = operand_code(e0, m2, len, TEMP_RESULT);
            let skip3 = e0.emit_skips(Instruction::LoadImm { reg: SCRATCH2, value: 3 });
            let s = if skip3 { 0int } else { 1int };
            &&& (r is Ok <==> c1 is Some && c2 is Some && c3 is Some)
            &&& r is Ok ==> {
                let loads = c1.unwrap() + c2.unwrap() + c3.unwrap();
                let n = (e0.instructions@.len() + loads.len()) as int;
                &&& final(e).instructions@ == e0.instructions@ + loads + memory_copy_body(
                    ctx.wasm_memory_base,
                    skip3,
                )
                &&& final(e).fixups@ == e0.fixups@ + memory_copy_fixups(n, e0.labels@.len() as int, s)
                &&& final(e).labels@ == e0.labels@ + memory_copy_labels(final(e).instructions@, n, s)
            }
        }),
{
    let ghost e0 = *e;
    let r1 = e.load_operand(dst, TEMP1);
    if r1.is_err() {
        return r1;
    }
    let ghost e1 = *e;
    proof {
        assert(e1.reg_const(3) == e0.reg_const(3));
        assert(e1.reg_slot(3) == e0.reg_slot(3));
        super::alu::lemma_operand_code_frame(e1, e0, e1.slot_map(), src, TEMP2);
    }
    let r2 = e.load_operand(src, TEMP2);
    if r2.is_err() {
        return r2;
    }
    let ghost e2 = *e;
    proof {
        assert(e2.reg_const(4) == e1.reg_const(4));
        assert(e1.reg_const(4) == e0.reg_const(4));
        super::alu::lemma_operand_code_frame(e2, e0, e2.slot_map(), len, TEMP_RESULT);
    }
    let r3 = e.load_operand(len, TEMP_RESULT);
    if r3.is_err() {
        return r3;
    }
    let ghost e3 = *e;
    proof {
        assert(e3.reg_const(6) == e2.reg_const(6));
        assert(e2.reg_const(6) == e1.reg_const(6));
        assert(e1.reg_const(6) == e0.reg_const(6));
    }
    emit_copy_loops(e, ctx.wasm_memory_base);
    proof {
        let loads = operand_code(e0, e0.slot_map(), dst, TEMP1).unwrap() + operand_code(
            e0,
            e1.slot_map(),
            src,
            TEMP2,
        ).unwrap() + operand_code(e0, e2.slot_map(), len, TEMP_RESULT).unwrap();
        assert(e3.instructions@ =~= e0.instructions@ + loads);
        let skip3 = e0.emit_skips(Instruction::LoadImm { reg: SCRATCH2, value: 3 });
        assert(e.instructions@ =~= e0.instructions@ + loads + memory_copy_body(ctx.wasm_memory_base, skip3));
    }
    Ok(())
}

/// The byte pattern multiplier that spreads one byte over eight.
pub open spec fn fill_spread() -> u64 {
    0x0101_0101_0101_0101
}

/// The fill loops after the three operands are loaded (destination in
/// `TEMP1`, fill value in `TEMP2`, length in `TEMP_RESULT`): the destination
/// is moved up by the memory base; a zero length jumps to the end; the low
/// byte of the value is spread over a word in `SCRATCH1`; `len >> 3` words
/// are stored, then the remaining `len & 7` bytes. The loads of the byte
/// mask and of the spreading multiplier are dropped when `skip_mask` and
/// `skip_spread` (their registers already hold them).
pub open spec fn memory_fill_body(base: i32, skip_mask: bool, skip_spread: bool) -> Seq<Instruction> {
    seq![
        Instruction::AddImm32 { dst: TEMP1, src: TEMP1, value: base },
        Instruction::BranchEqImm { reg: TEMP_RESULT, value: 0, offset: 0 },
    ] + (if skip_mask {
        Seq::empty()
    } else {
        seq![Instruction::LoadImm { reg: SCRATCH1, value: 0xFF }]
    }) + seq![Instruction::And { dst: SCRATCH1, src1: TEMP2, src2: SCRATCH1 }] + (if skip_spread {
        Seq::empty()
    } else {
        seq![Instruction::LoadImm64 { reg: SCRATCH2, value: fill_spread() }]
    }) + seq![
        Instruction::Mul64 { dst: SCRATCH1, src1: SCRATCH1, src2: SCRATCH2 },
        Instruction::LoadImm { reg: SCRATCH2, value: 3 },
        Instruction::ShloR64 { dst: SCRATCH2, src1: TEMP_RESULT, src2: SCRATCH2 },
        Instruction::BranchEqImm { reg: SCRATCH2, value: 0, offset: 0 },
        // word loop
        Instruction::StoreIndU64 { base: TEMP1, src: SCRATCH1, offset: 0 },
        Instruction::AddImm64 { dst: TEMP1, src: TEMP1, value: 8 },
        Instruction::AddImm64 { dst: SCRATCH2, src: SCRATCH2, value: -1i32 },
        Instruction::BranchNeImm { reg: SCRATCH2, value: 0, offset: 0 },
        // byte tail
        Instruction::LoadImm { reg: SCRATCH2, value: 7 },
        Instruction::And { dst: TEMP_RESULT, src1: TEMP_RESULT, src2: SCRATCH2 },
        Instruction::BranchEqImm { reg: TEMP_RESULT, value: 0, offset: 0 },
        Instruction::StoreIndU8 { base: TEMP1, src: TEMP2, offset: 0 },
        Instruction::AddImm64 { dst: TEMP1, src: TEMP1, value: 1 },
        Instruction::AddImm64 { dst: TEMP_RESULT, src: TEMP_RESULT, value: -1i32 },
        Instruction::BranchNeImm { reg: TEMP_RESULT, value: 0, offset: 0 },
    ]
}

/// The jump fixups of the fill loops, for a body starting at instruction `n`
/// whose labels are `l` (word loop), `l + 1` (byte tail), `l + 2` (end) and
/// `l + 3` (byte loop); `t` counts the constant loads emitted (0 to 2).
pub open spec fn memory_fill_fixups(n: int, l: int, t: int) -> Seq<(usize, usize)> {
    seq![
        ((n + 1) as usize, (l + 2) as usize),
        ((n + 6 + t) as usize, (l + 1) as usize),
        ((n + 10 + t) as usize, l as usize),
        ((n + 13 + t) as usize, (l + 2) as usize),
        ((n + 17 + t) as usize, (l + 3) as usize),
    ]
}

/// The four labels of the fill loops, in allocation order, as byte offsets
/// in the final stream `code`.
pub open spec fn memory_fill_labels(code: Seq<Instruction>, n: int, t: int) -> Seq<Option<usize>> {
    seq![
        Some(offset_of(code, n + 7 + t) as usize),
        Some(offset_of(code, n + 11 + t) as usize),
        Some(offset_of(code, n + 18 + t) as usize),
        Some(offset_of(code, n + 14 + t) as usize),
    ]
}

/// The fill head: base, zero-length exit, the spread pattern and the word count.
#[verifier::spinoff_prover]
#[verifier::rlimit(40)]
fn emit_fill_head(e: &mut PvmEmitter, base: i32) -> (ids: (usize, usize, usize))
    requires
        old(e).wf(),
        old(e).byte_offset + 80 <= usize::MAX,
        old(e).labels@.len() + 6 <= usize::MAX,
    ensures
        final(e).wf(),
        final(e).same_body(old(e)),
        final(e).byte_offset <= old(e).byte_offset + 80,
        ({
            let skip_mask = old(e).emit_skips(Instruction::LoadImm { reg: SCRATCH1, value: 0xFF });
            let skip_spread = old(e).emit_skips(Instruction::LoadImm64 { reg: SCRATCH2, value: fill_spread() });
            let t = (if skip_mask { 0int } else { 1int }) + (if skip_spread { 0int } else { 1int });
            let n = old(e).instructions@.len() as int;
            let l = old(e).labels@.len() as int;
            &&& ids == (l as usize, (l + 1) as usize, (l + 2) as usize)
            &&& final(e).instructions@ == old(e).instructions@ + memory_fill_body(base, skip_mask, skip_spread).take(7 + t)
            &&& final(e).fixups@ == old(e).fixups@ + memory_fill_fixups(n, l, t).take(2)
            &&& final(e).labels@ == old(e).labels@ + seq![None, None, None]
        }),
{
    let ghost e0 = *e;
    let a1 = Instruction::AddImm32 { dst: TEMP1, src: TEMP1, value: base };
    assert(a1.encoding().len() <= 6);
    e.emit(a1);
    let ghost e1 = *e;
    assert(e1.reg_const(5) == e0.reg_const(5));
    assert(e1.reg_const(6) == e0.reg_const(6));
    let word_loop = e.alloc_label();
    let byte_loop = e.alloc_label();
    let end_label = e.alloc_label();
    e.emit_branch_eq_imm_to_label(TEMP_RESULT, 0, end_label);
    let ghost e2 = *e;
    let mask = Instruction::LoadImm { reg: SCRATCH1, value: 0xFF };
    assert(mask.encoding().len() <= 6);
    e.emit(mask);
    let and_ = Instruction::And { dst: SCRATCH1, src1: TEMP2, src2: SCRATCH1 };
    assert(and_.encoding().len() == 3);
    e.emit(and_);
    let ghost e3 = *e;
    assert(e3.reg_const(6) == e2.reg_const(6)) by {
        assert(e2.reg_const(6) == e2.reg_const(6));
    }
    let spread = Instruction::LoadImm64 { reg: SCRATCH2, value: 0x0101_0101_0101_0101 };
    assert(spread.encoding().len() == 10);
    e.emit(spread);
    let mul = Instruction::Mul64 { dst: SCRATCH1, src1: SCRATCH1, src2: SCRATCH2 };
    assert(mul.encoding().len() == 3);
    e.emit(mul);
    let ghost e4 = *e;
    let three = Instruction::LoadImm { reg: SCRATCH2, value: 3 };
    assert(three.encoding().len() == 3);
    proof {
        assert(e4.reg_const(6) == e4.reg_const(6));
        assert(!e4.emit_skips(three));
    }
    e.emit(three);
    let shr = Instruction::ShloR64 { dst: SCRATCH2, src1: TEMP_RESULT, src2: SCRATCH2 };
    assert(shr.encoding().len() == 3);
    e.emit(shr);
    e.emit_branch_eq_imm_to_label(SCRATCH2, 0, byte_loop);
    proof {
        let skip_mask = e0.emit_skips(mask);
        let skip_spread = e0.emit_skips(spread);
        assert(e2.emit_skips(mask) == skip_mask);
        assert(e3.emit_skips(spread) == skip_spread);
        let t = (if skip_mask { 0int } else { 1int }) + (if skip_spread { 0int } else { 1int });
        assert(e.instructions@ =~= e0.instructions@ + memory_fill_body(base, skip_mask, skip_spread).take(7 + t));
        assert(e.fixups@ =~= e0.fixups@ + memory_fill_fixups(
            e0.instructions@.len() as int,
            e0.labels@.len() as int,
            t,
        ).take(2));
        assert(e.labels@ =~= e0.labels@ + seq![None, None, None]);
    }
    (word_loop, byte_loop, end_label)
}

/// The fill loops: words, then the byte tail, then the end label.
#[verifier::spinoff_prover]
#[verifier::rlimit(40)]
fn emit_fill_loops(e: &mut PvmEmitter, word_loop: usize, byte_loop: usize, end_label: usize)
    requires
        old(e).wf(),
        old(e).byte_offset + 60 <= usize::MAX,
        old(e).labels@.len() + 1 <= usize::MAX,
        word_loop < old(e).labels@.len(),
        byte_loop < old(e).labels@.len(),
        end_label < old(e).labels@.len(),
        word_loop != byte_loop,
        word_loop != end_label,
        byte_loop != end_label,
        old(e).instructions@.len() > 0,
        old(e).instructions@.last().terminates(),
    ensures
        final(e).wf(),
        final(e).same_body(old(e)),
        final(e).byte_offset <= old(e).byte_offset + 60,
        ({
            let n = old(e).instructions@.len() as int;
            let l = old(e).labels@.len() as int;
            let fin = final(e).instructions@;
            &&& fin == old(e).instructions@ + seq![
                Instruction::StoreIndU64 { base: TEMP1, src: SCRATCH1, offset: 0 },
                Instruction::AddImm64 { dst: TEMP1, src: TEMP1, value: 8 },
                Instruction::AddImm64 { dst: SCRATCH2, src: SCRATCH2, value: -1i32 },
                Instruction::BranchNeImm { reg: SCRATCH2, value: 0, offset: 0 },
                Instruction::LoadImm { reg: SCRATCH2, value: 7 },
                Instruction::And { dst: TEMP_RESULT, src1: TEMP_RESULT, src2: SCRATCH2 },
                Instruction::BranchEqImm { reg: TEMP_RESULT, value: 0, offset: 0 },
                Instruction::StoreIndU8 { base: TEMP1, src: TEMP2, offset: 0 },
                Instruction::AddImm64 { dst: TEMP1, src: TEMP1, value: 1 },
                Instruction::AddImm64 { dst: TEMP_RESULT, src: TEMP_RESULT, value: -1i32 },
                Instruction::BranchNeImm { reg: TEMP_RESULT, value: 0, offset: 0 },
            ]
            &&& final(e).fixups@ == old(e).fixups@ + seq![
                ((n + 3) as usize, word_loop),
                ((n + 6) as usize, end_label),
                ((n + 10) as usize, l as usize),
            ]
            &&& final(e).labels@ == old(e).labels@.update(word_loop as int, Some(offset_of(fin, n) as usize)).update(
                byte_loop as int,
                Some(offset_of(fin, n + 4) as usize),
            ).update(end_label as int, Some(offset_of(fin, n + 11) as usize)).push(
                Some(offset_of(fin, n + 7) as usize),
            )
        }),
{
    let ghost e0 = *e;
    e.define_label(word_loop);
    let ghost at_word = *e;
    let w1 = Instruction::StoreIndU64 { base: TEMP1, src: SCRATCH1, offset: 0 };
    let w2 = Instruction::AddImm64 { dst: TEMP1, src: TEMP1, value: 8 };
    let w3 = Instruction::AddImm64 { dst: SCRATCH2, src: SCRATCH2, value: -1 };
    assert(w1.encoding().len() == 2);
    assert(w2.encoding().len() == 3);
    assert(w3.encoding().len() == 3);
    e.emit(w1);
    e.emit(w2);
    e.emit(w3);
    e.emit_branch_ne_imm_to_label(SCRATCH2, 0, word_loop);
    e.define_label(byte_loop);
    let ghost at_byte = *e;
    let seven = Instruction::LoadImm { reg: SCRATCH2, value: 7 };
    let and7 = Instruction::And { dst: TEMP_RESULT, src1: TEMP_RESULT, src2: SCRATCH2 };
    assert(seven.encoding().len() == 3);
    assert(and7.encoding().len() == 3);
    assert(at_byte.reg_slot(6) is None);
    assert(at_byte.reg_const(6) is None);
    e.emit(seven);
    e.emit(and7);
    e.emit_branch_eq_imm_to_label(TEMP_RESULT, 0, end_label);
    let byte_loop_body = e.alloc_label();
    e.define_label(byte_loop_body);
    let ghost at_body = *e;
    let b1 = Instruction::StoreIndU8 { base: TEMP1, src: TEMP2, offset: 0 };
    let b2 = Instruction::AddImm64 { dst: TEMP1, src: TEMP1, value: 1 };
    let b3 = Instruction::AddImm64 { dst: TEMP_RESULT, src: TEMP_RESULT, value: -1 };
    assert(b1.encoding().len() == 2);
    assert(b2.encoding().len() == 3);
    assert(b3.encoding().len() == 3);
    e.emit(b1);
    e.emit(b2);
    e.emit(b3);
    e.emit_branch_ne_imm_to_label(TEMP_RESULT, 0, byte_loop_body);
    e.define_label(end_label);
    proof {
        let n = e0.instructions@.len() as int;
        let fin = e.instructions@;
        assert(fin =~= e0.instructions@ + seq![
            w1, w2, w3, Instruction::BranchNeImm { reg: SCRATCH2, value: 0, offset: 0 },
            seven, and7, Instruction::BranchEqImm { reg: TEMP_RESULT, value: 0, offset: 0 },
            b1, b2, b3, Instruction::BranchNeImm { reg: TEMP_RESULT, value: 0, offset: 0 },
        ]);
        assert(at_word.instructions@ == e0.instructions@);
        assert(fin.take(n) =~= at_word.instructions@);
        lemma_offset_end(at_word.instructions@);
        assert(at_byte.instructions@.len() == n + 4);
        assert(fin.take(n + 4) =~= at_byte.instructions@);
        lemma_offset_end(at_byte.instructions@);
        assert(at_body.instructions@.len() == n + 7);
        assert(fin.take(n + 7) =~= at_body.instructions@);
        lemma_offset_end(at_body.instructions@);
        assert(fin.take(n + 11) =~= fin);
        lemma_offset_end(fin);
        assert(e.labels@ =~= e0.labels@.update(word_loop as int, Some(offset_of(fin, n) as usize)).update(
            byte_loop as int,
            Some(offset_of(fin, n + 4) as usize),
        ).update(end_label as int, Some(offset_of(fin, n + 11) as usize)).push(
            Some(offset_of(fin, n + 7) as usize),
        ));
        assert(e.fixups@ =~= e0.fixups@ + seq![
            ((n + 3) as usize, word_loop),
            ((n + 6) as usize, end_label),
            ((n + 10) as usize, e0.labels@.len() as usize),
        ]);
    }
}

/// Emit the fill loops (see `memory_fill_body`).
#[verifier::spinoff_prover]
#[verifier::rlimit(60)]
fn emit_fill_all(e: &mut PvmEmitter, base: i32)
    requires
        old(e).wf(),
        old(e).byte_offset + 160 <= usize::MAX,
        old(e).labels@.len() + 6 <= usize::MAX,
    ensures
        final(e).wf(),
        final(e).same_body(old(e)),
        final(e).byte_offset <= old(e).byte_offset + 160,
        ({
            let skip_mask = old(e).emit_skips(Instruction::LoadImm { reg: SCRATCH1, value: 0xFF });
            let skip_spread = old(e).emit_skips(Instruction::LoadImm64 { reg: SCRATCH2, value: fill_spread() });
            let t = (if skip_mask { 0int } else { 1int }) + (if skip_spread { 0int } else { 1int });
            let n = old(e).instructions@.len() as int;
            &&& final(e).instructions@ == old(e).instructions@ + memory_fill_body(base, skip_mask, skip_spread)
            &&& final(e).fixups@ == old(e).fixups@ + memory_fill_fixups(n, old(e).labels@.len() as int, t)
            &&& final(e).labels@ == old(e).labels@ + memory_fill_labels(final(e).instructions@, n, t)
        }),
{
    let ghost e0 = *e;
    let ids = emit_fill_head(e, base);
    emit_fill_loops(e, ids.0, ids.1, ids.2);
    proof {
        let skip_mask = e0.emit_skips(Instruction::LoadImm { reg: SCRATCH1, value: 0xFF });
        let skip_spread = e0.emit_skips(Instruction::LoadImm64 { reg: SCRATCH2, value: fill_spread() });
        let t = (if skip_mask { 0int } else { 1int }) + (if skip_spread { 0int } else { 1int });
        let n = e0.instructions@.len() as int;
        let l = e0.labels@.len() as int;
        let body = memory_fill_body(base, skip_mask, skip_spread);
        assert(e.instructions@ =~= e0.instructions@ + body);
        assert(e.fixups@ =~= e0.fixups@ + memory_fill_fixups(n, l, t));
        assert(e.labels@ =~= e0.labels@ + memory_fill_labels(e.instructions@, n, t));
    }
}

/// Emit `memory.fill`: load the destination, fill value and length into
/// `TEMP1`, `TEMP2` and `TEMP_RESULT`, then the fill loops (see
/// `memory_fill_body`), which store the value's low byte spread over words
/// eight bytes at a time, then byte by byte. Fails, emitting the loads
/// before it, when an operand has neither a register nor a stack slot.
pub fn emit_pvm_memory_fill(
    e: &mut PvmEmitter,
    dst: Operand,
    val: Operand,
    len: Operand,
    ctx: &LoweringContext,
) -> (r: Result<()>)
    requires
        old(e).wf(),
        old(e).byte_offset + 200 <= usize::MAX,
        old(e).labels@.len() + 6 <= usize::MAX,
    ensures
        final(e).wf(),
        final(e).same_body(old(e)),
        ({
            let e0 = *old(e);
            let m0 = e0.slot_map();
            let m1 = slots_after_load(e0, m0, e0.reg_slot(2), dst, TEMP1);
            let m2 = slots_after_load(e0, m1, e0.reg_slot(3), val, TEMP2);
            let c1 = operand_code(e0, m0, dst, TEMP1);
            let c2 = operand_code(e0, m1, val, TEMP2);
            let c3 = operand_code(e0, m2, len, TEMP_RESULT);
            let skip_mask = e0.emit_skips(Instruction::LoadImm { reg: SCRATCH1, value: 0xFF });
            let skip_spread = e0.emit_skips(Instruction::LoadImm64 { reg: SCRATCH2, value: fill_spread() });
            let t = (if skip_mask { 0int } else { 1int }) + (if skip_spread { 0int } else { 1int });
            &&& (r is Ok <==> c1 is Some && c2 is Some && c3 is Some)
            &&& r is Ok ==> {
                let loads = c1.unwrap() + c2.unwrap() + c3.unwrap();
                let n = (e0.instructions@.len() + loads.len()) as int;
                &&& final(e).instructions@ == e0.instructions@ + loads + memory_fill_body(
                    ctx.wasm_memory_base,
                    skip_mask,
                    skip_spread,
                )
                &&& final(e).fixups@ == e0.fixups@ + memory_fill_fixups(n, e0.labels@.len() as int, t)
                &&& final(e).labels@ == e0.labels@ + memory_fill_labels(final(e).instructions@, n, t)
            }
        }),
{
    let ghost e0 = *e;
    let r1 = e.load_operand(dst, TEMP1);
    if r1.is_err() {
        return r1;
    }
    let ghost e1 = *e;
    proof {
        assert(e1.reg_const(3) == e0.reg_const(3));
        assert(e1.reg_slot(3) == e0.reg_slot(3));
        super::alu::lemma_operand_code_frame(e1, e0, e1.slot_map(), val, TEMP2);
    }
    let r2 = e.load_operand(val, TEMP2);
    if r2.is_err() {
        return r2;
    }
    let ghost e2 = *e;
    proof {
        assert(e2.reg_const(4) == e1.reg_const(4));
        assert(e1.reg_const(4) == e0.reg_const(4));
        super::alu::lemma_operand_code_frame(e2, e0, e2.slot_map(), len, TEMP_RESULT);
    }
    let r3 = e.load_operand(len, TEMP_RESULT);
    if r3.is_err() {
        return r3;
    }
    let ghost e3 = *e;
    proof {
        assert(e3.reg_const(5) == e2.reg_const(5));
        assert(e2.reg_const(5) == e1.reg_const(5));
        assert(e1.reg_const(5) == e0.reg_const(5));
        assert(e3.reg_const(6) == e2.reg_const(6));
        assert(e2.reg_const(6) == e1.reg_const(6));
        assert(e1.reg_const(6) == e0.reg_const(6));
    }
    emit_fill_all(e, ctx.wasm_memory_base);
    proof {
        let loads = operand_code(e0, e0.slot_map(), dst, TEMP1).unwrap() + operand_code(
            e0,
            e1.slot_map(),
            val,
            TEMP2,
        ).unwrap() + operand_code(e0, e2.slot_map(), len, TEMP_RESULT).unwrap();
        assert(e3.instructions@ =~= e0.instructions@ + loads);
        let skip_mask = e0.emit_skips(Instruction::LoadImm { reg: SCRATCH1, value: 0xFF });
        let skip_spread = e0.emit_skips(Instruction::LoadImm64 { reg: SCRATCH2, value: fill_spread() });
        assert(e.instructions@ =~= e0.instructions@ + loads + memory_fill_body(
            ctx.wasm_memory_base,
            skip_mask,
            skip_spread,
        ));
    }
    Ok(())
}

/// Kinds of PVM load operations.
#[derive(Debug, Clone, Copy, PartialEq, Eq)]
pub enum PvmLoadKind {
    U8,
    I8,
    U16,
    I16,
    U32,
    I32S,
    U64,
}

/// The load of `kind` from `TEMP1 + offset` into `TEMP_RESULT`; a signed
/// 32-bit load is an unsigned one followed by a sign extension.
pub open spec fn load_kind_code(kind: PvmLoadKind, offset: i32) -> Seq<Instruction> {
    let (d, b) = (TEMP_RESULT, TEMP1);
    match kind {
        PvmLoadKind::U8 => seq![Instruction::LoadIndU8 { dst: d, base: b, offset }],
        PvmLoadKind::I8 => seq![Instruction::LoadIndI8 { dst: d, base: b, offset }],
        PvmLoadKind::U16 => seq![Instruction::LoadIndU16 { dst: d, base: b, offset }],
        PvmLoadKind::I16 => seq![Instruction::LoadIndI16 { dst: d, base: b, offset }],
        PvmLoadKind::U32 => seq![Instruction::LoadIndU32 { dst: d, base: b, offset }],
        PvmLoadKind::I32S => seq![
            Instruction::LoadIndU32 { dst: d, base: b, offset },
            Instruction::AddImm32 { dst: d, src: d, value: 0 },
        ],
        PvmLoadKind::U64 => seq![Instruction::LoadIndU64 { dst: d, base: b, offset }],
    }
}

/// Emit a PVM load of `kind` from the WebAssembly address `addr` into stack
/// slot `slot`: the address is loaded into `TEMP1`, the load reads at
/// `TEMP1 + wasm_memory_base`, and `TEMP_RESULT` is stored. Fails when the
/// address has neither a register nor a stack slot.
pub fn emit_pvm_load(e: &mut PvmEmitter, addr: Operand, slot: i32, ctx: &LoweringContext, kind: PvmLoadKind) -> (r:
    Result<()>)
    requires
        old(e).wf(),
        old(e).byte_offset + 40 <= usize::MAX,
    ensures
        final(e).wf(),
        final(e).same_frame(old(e)),
        r is Ok <==> operand_code(*old(e), old(e).slot_map(), addr, TEMP1) is Some,
        r is Ok ==> final(e).instructions@ == old(e).instructions@ + operand_code(
            *old(e),
            old(e).slot_map(),
            addr,
            TEMP1,
        ).unwrap() + load_kind_code(kind, ctx.wasm_memory_base) + slot_store_code(*old(e), slot, TEMP_RESULT),
{
    let ghost e0 = *e;
    let lr = e.load_operand(addr, TEMP1);
    if lr.is_err() {
        return lr;
    }
    let ghost e1 = *e;
    let offset = ctx.wasm_memory_base;
    let (first, second) = match kind {
        PvmLoadKind::U8 => (Instruction::LoadIndU8 { dst: TEMP_RESULT, base: TEMP1, offset }, false),
        PvmLoadKind::I8 => (Instruction::LoadIndI8 { dst: TEMP_RESULT, base: TEMP1, offset }, false),
        PvmLoadKind::U16 => (Instruction::LoadIndU16 { dst: TEMP_RESULT, base: TEMP1, offset }, false),
        PvmLoadKind::I16 => (Instruction::LoadIndI16 { dst: TEMP_RESULT, base: TEMP1, offset }, false),
        PvmLoadKind::U32 => (Instruction::LoadIndU32 { dst: TEMP_RESULT, base: TEMP1, offset }, false),
        PvmLoadKind::I32S => (Instruction::LoadIndU32 { dst: TEMP_RESULT, base: TEMP1, offset }, true),
        PvmLoadKind::U64 => (Instruction::LoadIndU64 { dst: TEMP_RESULT, base: TEMP1, offset }, false),
    };
    assert(first.encoding().len() <= 6);
    e.emit(first);
    if second {
        let ext = Instruction::AddImm32 { dst: TEMP_RESULT, src: TEMP_RESULT, value: 0 };
        assert(ext.encoding().len() <= 6);
        e.emit(ext);
    }
    let ghost e2 = *e;
    e.store_to_slot(slot, TEMP_RESULT);
    proof {
        assert(e2.regalloc == e0.regalloc);
        assert(e.instructions@ =~= e0.instructions@ + operand_code(e0, e0.slot_map(), addr, TEMP1).unwrap()
            + load_kind_code(kind, ctx.wasm_memory_base) + slot_store_code(e0, slot, TEMP_RESULT));
    }
    Ok(())
}

} // verus!
