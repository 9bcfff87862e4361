//! Peephole optimizer for PVM instructions.
//!
//! Runs before fixup resolution to remove redundant instructions, and keeps
//! fixup indices and label byte offsets in step with the shortened stream.
use super::blob::code_bytes;
use super::instruction::Instruction;
use super::semantics::{
    alu_value, div_trunc, lemma_leading_zeros_bound, lemma_ones_bound, lemma_sext32_idempotent, lemma_sext32_small,
    lemma_trailing_zeros_bound, leading_zeros, ones, rem_trunc, sext16, sext32, sext8, signed32, trailing_zeros, wrap64,
};
use crate::abi::STACK_PTR_REG;
use crate::llvm_backend::{LlvmCallFixup, LlvmIndirectCallFixup};
use std::collections::HashMap;
use std::collections::HashSet;
use vstd::prelude::*;

verus! {

broadcast use vstd::std_specs::hash::group_hash_axioms;

/// Byte offset of instruction `i`: the total length of the encodings before it.
pub open spec fn offset_of(instrs: Seq<Instruction>, i: int) -> nat {
    code_bytes(instrs.take(i)).len()
}

/// Number of kept entries among the first `i` flags.
pub open spec fn kept_before(keep: Seq<bool>, i: int) -> nat
    decreases i,
{
    if i <= 0 {
        0
    } else {
        kept_before(keep, i - 1) + if keep[i - 1] {
            1nat
        } else {
            0nat
        }
    }
}

/// Whether the flags drop any of the first `n` entries.
pub open spec fn removes_any(keep: Seq<bool>, n: int) -> bool {
    kept_before(keep, n) < n
}

/// The entries of `s` whose flag is set, in order.
pub open spec fn filter_kept<T>(s: Seq<T>, keep: Seq<bool>) -> Seq<T>
    decreases s.len(),
{
    if s.len() == 0 {
        Seq::empty()
    } else {
        let rest = filter_kept(s.drop_last(), keep);
        if keep[s.len() - 1] {
            rest.push(s.last())
        } else {
            rest
        }
    }
}

/// First instruction index at or after `from` (up to and including the end
/// position `instrs.len()`) whose byte offset is `off`; `instrs.len() + 1` if none.
pub open spec fn scan_offset(instrs: Seq<Instruction>, off: nat, from: int) -> int
    decreases instrs.len() + 1 - from,
{
    if from > instrs.len() || from < 0 {
        instrs.len() + 1int
    } else if offset_of(instrs, from) == off {
        from
    } else {
        scan_offset(instrs, off, from + 1)
    }
}

/// Index of the first instruction boundary at byte offset `off`
/// (`instrs.len() + 1` when no boundary lies there).
pub open spec fn first_at(instrs: Seq<Instruction>, off: nat) -> int {
    scan_offset(instrs, off, 0)
}

/// The new index of instruction `i` once the dropped entries are gone.
pub open spec fn remap_index(keep: Seq<bool>, i: usize) -> usize {
    kept_before(keep, i as int) as usize
}

/// A label after compaction: a label at an instruction boundary moves to the
/// new byte offset of that boundary; other labels stay as they are.
pub open spec fn remap_label(
    instrs: Seq<Instruction>,
    keep: Seq<bool>,
    label: Option<usize>,
) -> Option<usize> {
    match label {
        Some(off) => {
            let idx = first_at(instrs, off as nat);
            if idx <= instrs.len() {
                Some(offset_of(filter_kept(instrs, keep), kept_before(keep, idx) as int) as usize)
            } else {
                label
            }
        },
        None => None,
    }
}

/// The effect of compacting with flags `keep` on the instructions.
pub open spec fn compacted_instrs(instrs: Seq<Instruction>, keep: Seq<bool>) -> Seq<Instruction> {
    if removes_any(keep, instrs.len() as int) {
        filter_kept(instrs, keep)
    } else {
        instrs
    }
}

/// The effect of compacting on a jump fixup `(instruction, label)`.
pub open spec fn compacted_fixup(n: int, keep: Seq<bool>, f: (usize, usize)) -> (usize, usize) {
    if removes_any(keep, n) {
        (remap_index(keep, f.0), f.1)
    } else {
        f
    }
}

/// The effect of compacting on a direct call fixup.
pub open spec fn compacted_call(n: int, keep: Seq<bool>, f: LlvmCallFixup) -> LlvmCallFixup {
    if removes_any(keep, n) {
        LlvmCallFixup {
            return_addr_instr: remap_index(keep, f.return_addr_instr),
            jump_instr: remap_index(keep, f.jump_instr),
            target_func: f.target_func,
        }
    } else {
        f
    }
}

/// The effect of compacting on an indirect call fixup.
pub open spec fn compacted_indirect(
    n: int,
    keep: Seq<bool>,
    f: LlvmIndirectCallFixup,
) -> LlvmIndirectCallFixup {
    if removes_any(keep, n) {
        LlvmIndirectCallFixup {
            return_addr_instr: remap_index(keep, f.return_addr_instr),
            jump_ind_instr: remap_index(keep, f.jump_ind_instr),
        }
    } else {
        f
    }
}

/// The effect of compacting on a label.
pub open spec fn compacted_label(
    instrs: Seq<Instruction>,
    keep: Seq<bool>,
    label: Option<usize>,
) -> Option<usize> {
    if removes_any(keep, instrs.len() as int) {
        remap_label(instrs, keep, label)
    } else {
        label
    }
}

/// Every fixup names an instruction position up to the end of the stream.
pub open spec fn fixups_in_range(
    n: int,
    fixups: Seq<(usize, usize)>,
    calls: Seq<LlvmCallFixup>,
    indirect: Seq<LlvmIndirectCallFixup>,
) -> bool {
    &&& forall|j: int| 0 <= j < fixups.len() ==> fixups[j].0 <= n
    &&& forall|j: int|
        0 <= j < calls.len() ==> calls[j].return_addr_instr <= n && calls[j].jump_instr <= n
    &&& forall|j: int|
        0 <= j < indirect.len() ==> indirect[j].return_addr_instr <= n
            && indirect[j].jump_ind_instr <= n
}

/// The state after compacting with flags `keep`: instructions filtered and
/// every fixup and label moved along (all unchanged when nothing is dropped).
pub open spec fn compaction_result(
    instrs: Seq<Instruction>,
    keep: Seq<bool>,
    fixups: Seq<(usize, usize)>,
    calls: Seq<LlvmCallFixup>,
    indirect: Seq<LlvmIndirectCallFixup>,
    labels: Seq<Option<usize>>,
    new_instrs: Seq<Instruction>,
    new_fixups: Seq<(usize, usize)>,
    new_calls: Seq<LlvmCallFixup>,
    new_indirect: Seq<LlvmIndirectCallFixup>,
    new_labels: Seq<Option<usize>>,
) -> bool {
    let n = instrs.len() as int;
    &&& new_instrs == compacted_instrs(instrs, keep)
    &&& new_fixups.len() == fixups.len()
    &&& forall|j: int|
        0 <= j < fixups.len() ==> new_fixups[j] == compacted_fixup(n, keep, fixups[j])
    &&& new_calls.len() == calls.len()
    &&& forall|j: int| 0 <= j < calls.len() ==> new_calls[j] == compacted_call(n, keep, calls[j])
    &&& new_indirect.len() == indirect.len()
    &&& forall|j: int|
        0 <= j < indirect.len() ==> new_indirect[j] == compacted_indirect(n, keep, indirect[j])
    &&& new_labels.len() == labels.len()
    &&& forall|j: int|
        0 <= j < labels.len() ==> new_labels[j] == compacted_label(instrs, keep, labels[j])
}

// ── Lemmas on compaction ──

pub(crate) proof fn lemma_offset_step(instrs: Seq<Instruction>, i: int)
    requires
        0 <= i < instrs.len(),
    ensures
        offset_of(instrs, i + 1) == offset_of(instrs, i) + instrs[i].encoding().len(),
{
    assert(instrs.take(i + 1).drop_last() =~= instrs.take(i));
}

pub(crate) proof fn lemma_offset_mono(instrs: Seq<Instruction>, i: int, j: int)
    requires
        0 <= i <= j <= instrs.len(),
    ensures
        offset_of(instrs, i) <= offset_of(instrs, j),
    decreases j - i,
{
    if i < j {
        lemma_offset_step(instrs, j - 1);
        lemma_offset_mono(instrs, i, j - 1);
    }
}

pub(crate) proof fn lemma_offset_total(instrs: Seq<Instruction>)
    ensures
        offset_of(instrs, instrs.len() as int) == code_bytes(instrs).len(),
{
    assert(instrs.take(instrs.len() as int) =~= instrs);
}

proof fn lemma_kept_before_bounds(keep: Seq<bool>, i: int, j: int)
    requires
        0 <= i <= j,
    ensures
        kept_before(keep, i) <= kept_before(keep, j),
        kept_before(keep, j) - kept_before(keep, i) <= j - i,
    decreases j - i,
{
    if i < j {
        lemma_kept_before_bounds(keep, i, j - 1);
    }
}

proof fn lemma_filter_len<T>(s: Seq<T>, keep: Seq<bool>)
    ensures
        filter_kept(s, keep).len() == kept_before(keep, s.len() as int),
    decreases s.len(),
{
    if s.len() > 0 {
        lemma_filter_len(s.drop_last(), keep);
    }
}

proof fn lemma_filter_prefix<T>(s: Seq<T>, keep: Seq<bool>, i: int)
    requires
        0 <= i <= s.len(),
    ensures
        filter_kept(s.take(i), keep) == filter_kept(s, keep).take(kept_before(keep, i) as int),
    decreases s.len(),
{
    lemma_filter_len(s, keep);
    if i == s.len() {
        assert(s.take(i) =~= s);
        assert(filter_kept(s, keep).take(kept_before(keep, i) as int) =~= filter_kept(s, keep));
    } else {
        lemma_filter_prefix(s.drop_last(), keep, i);
        assert(s.drop_last().take(i) =~= s.take(i));
        lemma_filter_len(s.drop_last(), keep);
        lemma_kept_before_bounds(keep, i, s.len() - 1);
        assert(filter_kept(s.drop_last(), keep).take(kept_before(keep, i) as int) =~= filter_kept(
            s,
            keep,
        ).take(kept_before(keep, i) as int));
    }
}

/// A kept instruction sits, after compaction, at its remapped index.
proof fn lemma_filter_index<T>(s: Seq<T>, keep: Seq<bool>, i: int)
    requires
        0 <= i < s.len(),
        keep[i],
    ensures
        kept_before(keep, i) < filter_kept(s, keep).len(),
        filter_kept(s, keep)[kept_before(keep, i) as int] == s[i],
    decreases s.len(),
{
    lemma_filter_len(s, keep);
    lemma_kept_before_bounds(keep, i + 1, s.len() as int);
    if i == s.len() - 1 {
        lemma_filter_len(s.drop_last(), keep);
    } else {
        lemma_filter_index(s.drop_last(), keep, i);
    }
}

proof fn lemma_all_kept<T>(s: Seq<T>, keep: Seq<bool>)
    requires
        keep.len() == s.len(),
        !removes_any(keep, s.len() as int),
    ensures
        filter_kept(s, keep) == s,
        forall|i: int| 0 <= i <= s.len() ==> kept_before(keep, i) == i,
{
    assert forall|i: int| 0 <= i <= s.len() implies kept_before(keep, i) == i by {
        lemma_kept_before_bounds(keep, 0, i);
        lemma_kept_before_bounds(keep, i, s.len() as int);
    }
    lemma_filter_all(s, keep, s.len() as int);
    assert(s.take(s.len() as int) =~= s);
}

proof fn lemma_filter_all<T>(s: Seq<T>, keep: Seq<bool>, n: int)
    requires
        0 <= n <= s.len(),
        forall|i: int| 0 <= i <= n ==> kept_before(keep, i) == i,
    ensures
        filter_kept(s.take(n), keep) == s.take(n),
    decreases n,
{
    if n > 0 {
        lemma_filter_all(s, keep, n - 1);
        assert(s.take(n).drop_last() =~= s.take(n - 1));
        assert(kept_before(keep, n) == kept_before(keep, n - 1) + 1);
        assert(keep[n - 1]);
        assert(s.take(n - 1).push(s[n - 1]) =~= s.take(n));
    }
}

/// Compaction never moves an instruction later in the byte stream.
proof fn lemma_filter_offset_le(instrs: Seq<Instruction>, keep: Seq<bool>, i: int)
    requires
        0 <= i <= instrs.len(),
    ensures
        offset_of(filter_kept(instrs, keep), kept_before(keep, i) as int) <= offset_of(instrs, i),
        offset_of(filter_kept(instrs, keep), kept_before(keep, i) as int) == code_bytes(
            filter_kept(instrs.take(i), keep),
        ).len(),
    decreases i,
{
    let f = filter_kept(instrs, keep);
    lemma_filter_prefix(instrs, keep, i);
    if i > 0 {
        lemma_filter_offset_le(instrs, keep, i - 1);
        lemma_offset_step(instrs, i - 1);
        lemma_filter_len(instrs, keep);
        lemma_kept_before_bounds(keep, i, instrs.len() as int);
        if keep[i - 1] {
            lemma_filter_index(instrs, keep, i - 1);
            lemma_offset_step(f, kept_before(keep, i - 1) as int);
        }
    }
}

proof fn lemma_scan(instrs: Seq<Instruction>, off: nat, from: int)
    requires
        0 <= from <= instrs.len() + 1,
    ensures
        ({
            let r = scan_offset(instrs, off, from);
            &&& from <= r <= instrs.len() + 1
            &&& r <= instrs.len() ==> offset_of(instrs, r) == off
            &&& forall|j: int| from <= j < r && j <= instrs.len() ==> offset_of(instrs, j) != off
        }),
    decreases instrs.len() + 1 - from,
{
    if from <= instrs.len() && offset_of(instrs, from) != off {
        lemma_scan(instrs, off, from + 1);
    }
}

/// Removes the instructions whose `keep` flag is clear, and updates fixup
/// indices and label byte offsets to match the shortened stream.
/// Leaves everything as it was when no flag is clear.
#[verifier::loop_isolation(false)]
fn compact_instructions(
    instructions: &mut Vec<Instruction>,
    keep: &[bool],
    fixups: &mut [(usize, usize)],
    call_fixups: &mut [LlvmCallFixup],
    indirect_call_fixups: &mut [LlvmIndirectCallFixup],
    labels: &mut [Option<usize>],
)
    requires
        keep@.len() == old(instructions)@.len(),
        code_bytes(old(instructions)@).len() <= usize::MAX,
        removes_any(keep@, keep@.len() as int) ==> fixups_in_range(
            keep@.len() as int,
            old(fixups)@,
            old(call_fixups)@,
            old(indirect_call_fixups)@,
        ),
    ensures
        (
            final(instructions)@,
            final(fixups)@,
            final(call_fixups)@,
            final(indirect_call_fixups)@,
            final(labels)@,
        ) == compact_all(
            old(instructions)@,
            keep@,
            old(fixups)@,
            old(call_fixups)@,
            old(indirect_call_fixups)@,
            old(labels)@,
        ),
{
    let ghost instrs = instructions@;
    let len = keep.len();

    // Cache encoded length per instruction.
    let mut encoded_lengths: Vec<usize> = Vec::new();
    let mut i: usize = 0;
    while i < len
        invariant
            len == instrs.len(),
            instructions@ == instrs,
            i <= len,
            encoded_lengths@.len() == i,
            forall|j: int| 0 <= j < i ==> encoded_lengths@[j] == instrs[j].encoding().len(),
        decreases len - i,
    {
        encoded_lengths.push(instructions[i].encode().len());
        i += 1;
    }

    // Byte offset of each instruction before compaction.
    let mut byte_offsets: Vec<usize> = Vec::new();
    let mut running: usize = 0;
    proof {
        lemma_offset_total(instrs);
    }
    i = 0;
    while i < len
        invariant
            len == instrs.len(),
            i <= len,
            encoded_lengths@.len() == len,
            forall|j: int| 0 <= j < len ==> encoded_lengths@[j] == instrs[j].encoding().len(),
            code_bytes(instrs).len() <= usize::MAX,
            offset_of(instrs, len as int) == code_bytes(instrs).len(),
            running == offset_of(instrs, i as int),
            byte_offsets@.len() == i,
            forall|j: int| 0 <= j < i ==> byte_offsets@[j] == offset_of(instrs, j),
        decreases len - i,
    {
        byte_offsets.push(running);
        proof {
            lemma_offset_step(instrs, i as int);
            lemma_offset_mono(instrs, i + 1, len as int);
        }
        running = running + encoded_lengths[i];
        i += 1;
    }
    byte_offsets.push(running);

    // Reverse map: byte offset → first instruction index at that offset.
    let mut byte_to_idx: HashMap<usize, usize> = HashMap::new();
    let total = byte_offsets.len();
    proof {
        assert forall|o: usize| #![trigger first_at(instrs, o as nat)] first_at(instrs, o as nat) >= 0 by {
            lemma_scan(instrs, o as nat, 0);
        }
    }
    let mut idx: usize = 0;
    while idx < total
        invariant
            len == instrs.len(),
            total == len + 1,
            idx <= total,
            byte_offsets@.len() == len + 1,
            forall|j: int| 0 <= j <= len ==> byte_offsets@[j] == offset_of(instrs, j),
            forall|o: usize|
                #![trigger byte_to_idx@.contains_key(o)]
                byte_to_idx@.contains_key(o) == (first_at(instrs, o as nat) < idx),
            forall|o: usize|
                #![trigger byte_to_idx@.contains_key(o)]
                byte_to_idx@.contains_key(o) ==> byte_to_idx@[o] == first_at(instrs, o as nat),
        decreases total - idx,
    {
        let off = byte_offsets[idx];
        let ghost before = byte_to_idx@;
        proof {
            lemma_scan(instrs, off as nat, 0);
            assert(offset_of(instrs, idx as int) == off as nat);
            assert(first_at(instrs, off as nat) <= idx);
        }
        if !byte_to_idx.contains_key(&off) {
            byte_to_idx.insert(off, idx);
        }
        proof {
            assert forall|o: usize|
                #![trigger byte_to_idx@.contains_key(o)]
                byte_to_idx@.contains_key(o) == (first_at(instrs, o as nat) < idx + 1) && (
                byte_to_idx@.contains_key(o) ==> byte_to_idx@[o] == first_at(instrs, o as nat)) by {
                lemma_scan(instrs, o as nat, 0);
                if o != off {
                    assert(byte_to_idx@.contains_key(o) == before.contains_key(o));
                    if first_at(instrs, o as nat) == idx {
                        assert(offset_of(instrs, idx as int) == o);
                    }
                }
            }
        }
        idx += 1;
    }

    // Old → new index remap.
    let mut remap: Vec<usize> = Vec::new();
    let mut new_idx: usize = 0;
    i = 0;
    while i < len
        invariant
            len == keep@.len(),
            i <= len,
            remap@.len() == i,
            new_idx == kept_before(keep@, i as int),
            forall|j: int| 0 <= j < i ==> remap@[j] == kept_before(keep@, j),
        decreases len - i,
    {
        proof {
            lemma_kept_before_bounds(keep@, 0, i as int);
        }
        remap.push(new_idx);
        if keep[i] {
            new_idx += 1;
        }
        i += 1;
    }
    remap.push(new_idx);

    // Nothing removed: leave everything unchanged.
    if new_idx == len {
        proof {
            assert(compaction_result(
                old(instructions)@,
                keep@,
                old(fixups)@,
                old(call_fixups)@,
                old(indirect_call_fixups)@,
                old(labels)@,
                instructions@,
                fixups@,
                call_fixups@,
                indirect_call_fixups@,
                labels@,
            ));
            lemma_compaction_all(
                old(instructions)@,
                keep@,
                old(fixups)@,
                old(call_fixups)@,
                old(indirect_call_fixups)@,
                old(labels)@,
                instructions@,
                fixups@,
                call_fixups@,
                indirect_call_fixups@,
                labels@,
            );
        }
        return;
    }
    proof {
        lemma_kept_before_bounds(keep@, 0, len as int);
    }
    assert(removes_any(keep@, len as int));

    // Compact the instruction stream: move every instruction out (in reverse),
    // then move the kept ones back in order.
    let mut reversed: Vec<Instruction> = Vec::new();
    while instructions.len() > 0
        invariant
            instructions@.len() + reversed@.len() == instrs.len(),
            instructions@ == instrs.take(instructions@.len() as int),
            forall|j: int|
                0 <= j < reversed@.len() ==> reversed@[j] == instrs[instrs.len() - 1 - j],
        decreases instructions@.len(),
    {
        let x = instructions.pop().unwrap();
        reversed.push(x);
    }
    i = 0;
    while i < len
        invariant
            len == instrs.len(),
            len == keep@.len(),
            i <= len,
            reversed@.len() == len - i,
            forall|j: int| 0 <= j < reversed@.len() ==> reversed@[j] == instrs[len - 1 - j],
            instructions@ == filter_kept(instrs.take(i as int), keep@),
        decreases len - i,
    {
        let x = reversed.pop().unwrap();
        if keep[i] {
            instructions.push(x);
        }
        proof {
            assert(instrs.take(i + 1).drop_last() =~= instrs.take(i as int));
        }
        i += 1;
    }
    proof {
        assert(instrs.take(len as int) =~= instrs);
        lemma_filter_len(instrs, keep@);
    }

    // Byte offsets of the compacted stream.
    let ghost filtered = filter_kept(instrs, keep@);
    let mut new_byte_offsets: Vec<usize> = Vec::new();
    let mut new_running: usize = 0;
    let mut old_idx: usize = 0;
    while old_idx < len
        invariant
            len == instrs.len(),
            len == keep@.len(),
            old_idx <= len,
            filtered == filter_kept(instrs, keep@),
            encoded_lengths@.len() == len,
            forall|j: int| 0 <= j < len ==> encoded_lengths@[j] == instrs[j].encoding().len(),
            offset_of(instrs, len as int) <= usize::MAX,
            new_byte_offsets@.len() == kept_before(keep@, old_idx as int),
            forall|m: int|
                0 <= m < new_byte_offsets@.len() ==> new_byte_offsets@[m] == offset_of(
                    filtered,
                    m,
                ),
            new_running == offset_of(filtered, kept_before(keep@, old_idx as int) as int),
        decreases len - old_idx,
    {
        proof {
            lemma_filter_offset_le(instrs, keep@, old_idx + 1);
            lemma_offset_mono(instrs, old_idx + 1, len as int);
            lemma_filter_len(instrs, keep@);
            lemma_kept_before_bounds(keep@, old_idx + 1, len as int);
        }
        if keep[old_idx] {
            new_byte_offsets.push(new_running);
            proof {
                lemma_filter_index(instrs, keep@, old_idx as int);
                lemma_offset_step(filtered, kept_before(keep@, old_idx as int) as int);
            }
            new_running = new_running + encoded_lengths[old_idx];
        }
        old_idx += 1;
    }
    new_byte_offsets.push(new_running);
    proof {
        lemma_filter_len(instrs, keep@);
    }

    // Labels: old byte offset → old index → new index → new byte offset.
    let mut j: usize = 0;
    while j < labels.len()
        invariant
            len == instrs.len(),
            len == keep@.len(),
            j <= labels@.len(),
            labels@.len() == old(labels)@.len(),
            instructions@ == filtered,
            filtered == filter_kept(instrs, keep@),
            filtered.len() == kept_before(keep@, len as int),
            removes_any(keep@, len as int),
            remap@.len() == len + 1,
            forall|k: int| 0 <= k <= len ==> remap@[k] == kept_before(keep@, k),
            new_byte_offsets@.len() == filtered.len() + 1,
            forall|m: int|
                0 <= m <= filtered.len() ==> new_byte_offsets@[m] == offset_of(filtered, m),
            forall|o: usize|
                #![trigger byte_to_idx@.contains_key(o)]
                byte_to_idx@.contains_key(o) == (first_at(instrs, o as nat) < len + 1),
            forall|o: usize|
                #![trigger byte_to_idx@.contains_key(o)]
                byte_to_idx@.contains_key(o) ==> byte_to_idx@[o] == first_at(instrs, o as nat),
            forall|k: int|
                j <= k < labels@.len() ==> labels@[k] == old(labels)@[k],
            forall|k: int|
                0 <= k < j ==> labels@[k] == compacted_label(instrs, keep@, old(labels)@[k]),
        decreases labels@.len() - j,
    {
        if let Some(label) = labels[j] {
            match byte_to_idx.get(&label) {
                Some(old_i) => {
                    let oi = *old_i;
                    let clamped = if oi < len {
                        oi
                    } else {
                        len
                    };
                    let new_i = remap[clamped];
                    proof {
                        lemma_kept_before_bounds(keep@, 0, clamped as int);
                        lemma_kept_before_bounds(keep@, clamped as int, len as int);
                    }
                    let bounded = if new_i < instructions.len() {
                        new_i
                    } else {
                        instructions.len()
                    };
                    labels[j] = Some(new_byte_offsets[bounded]);
                },
                None => {},
            }
        }
        j += 1;
    }

    // Remap all fixup indices.
    j = 0;
    while j < fixups.len()
        invariant
            len == keep@.len(),
            j <= fixups@.len(),
            fixups@.len() == old(fixups)@.len(),
            removes_any(keep@, len as int),
            fixups_in_range(len as int, old(fixups)@, old(call_fixups)@, old(indirect_call_fixups)@),
            remap@.len() == len + 1,
            forall|k: int| 0 <= k <= len ==> remap@[k] == kept_before(keep@, k),
            forall|k: int| j <= k < fixups@.len() ==> fixups@[k] == old(fixups)@[k],
            forall|k: int|
                0 <= k < j ==> fixups@[k] == compacted_fixup(len as int, keep@, old(fixups)@[k]),
        decreases fixups@.len() - j,
    {
        let (instr_idx, label) = fixups[j];
        proof {
            lemma_kept_before_bounds(keep@, instr_idx as int, len as int);
        }
        fixups[j] = (remap[instr_idx], label);
        j += 1;
    }
    j = 0;
    while j < call_fixups.len()
        invariant
            len == keep@.len(),
            j <= call_fixups@.len(),
            call_fixups@.len() == old(call_fixups)@.len(),
            removes_any(keep@, len as int),
            fixups_in_range(len as int, old(fixups)@, old(call_fixups)@, old(indirect_call_fixups)@),
            remap@.len() == len + 1,
            forall|k: int| 0 <= k <= len ==> remap@[k] == kept_before(keep@, k),
            forall|k: int| j <= k < call_fixups@.len() ==> call_fixups@[k] == old(call_fixups)@[k],
            forall|k: int|
                0 <= k < j ==> call_fixups@[k] == compacted_call(
                    len as int,
                    keep@,
                    old(call_fixups)@[k],
                ),
        decreases call_fixups@.len() - j,
    {
        let ra = call_fixups[j].return_addr_instr;
        let ji = call_fixups[j].jump_instr;
        let target = call_fixups[j].target_func;
        proof {
            lemma_kept_before_bounds(keep@, ra as int, len as int);
            lemma_kept_before_bounds(keep@, ji as int, len as int);
        }
        call_fixups[j] = LlvmCallFixup {
            return_addr_instr: remap[ra],
            jump_instr: remap[ji],
            target_func: target,
        };
        j += 1;
    }
    j = 0;
    while j < indirect_call_fixups.len()
        invariant
            len == keep@.len(),
            j <= indirect_call_fixups@.len(),
            indirect_call_fixups@.len() == old(indirect_call_fixups)@.len(),
            removes_any(keep@, len as int),
            fixups_in_range(len as int, old(fixups)@, old(call_fixups)@, old(indirect_call_fixups)@),
            remap@.len() == len + 1,
            forall|k: int| 0 <= k <= len ==> remap@[k] == kept_before(keep@, k),
            forall|k: int|
                j <= k < indirect_call_fixups@.len() ==> indirect_call_fixups@[k] == old(
                    indirect_call_fixups,
                )@[k],
            forall|k: int|
                0 <= k < j ==> indirect_call_fixups@[k] == compacted_indirect(
                    len as int,
                    keep@,
                    old(indirect_call_fixups)@[k],
                ),
        decreases indirect_call_fixups@.len() - j,
    {
        let ra = indirect_call_fixups[j].return_addr_instr;
        let ji = indirect_call_fixups[j].jump_ind_instr;
        proof {
            lemma_kept_before_bounds(keep@, ra as int, len as int);
            lemma_kept_before_bounds(keep@, ji as int, len as int);
        }
        indirect_call_fixups[j] = LlvmIndirectCallFixup {
            return_addr_instr: remap[ra],
            jump_ind_instr: remap[ji],
        };
        j += 1;
    }
    proof {
        assert(compaction_result(
            old(instructions)@,
            keep@,
            old(fixups)@,
            old(call_fixups)@,
            old(indirect_call_fixups)@,
            old(labels)@,
            instructions@,
            fixups@,
            call_fixups@,
            indirect_call_fixups@,
            labels@,
        ));
        lemma_compaction_all(
            old(instructions)@,
            keep@,
            old(fixups)@,
            old(call_fixups)@,
            old(indirect_call_fixups)@,
            old(labels)@,
            instructions@,
            fixups@,
            call_fixups@,
            indirect_call_fixups@,
            labels@,
        );
    }
}

/// A load from a stack-pointer-relative slot at byte offset `off`
/// (the unsigned 8-, 16-, 32- and 64-bit loads).
pub open spec fn is_sp_load_of(instr: Instruction, off: i32) -> bool {
    match instr {
        Instruction::LoadIndU64 { base, offset, .. }
        | Instruction::LoadIndU32 { base, offset, .. }
        | Instruction::LoadIndU8 { base, offset, .. }
        | Instruction::LoadIndI8 { base, offset, .. }
        | Instruction::LoadIndU16 { base, offset, .. }
        | Instruction::LoadIndI16 { base, offset, .. } => base == STACK_PTR_REG && offset == off,
        _ => false,
    }
}

/// A 64-bit store to a stack-pointer-relative slot that no load in `instrs` reads.
pub open spec fn is_dead_sp_store(instrs: Seq<Instruction>, instr: Instruction) -> bool {
    match instr {
        Instruction::StoreIndU64 { base, offset, .. } => base == STACK_PTR_REG && !exists|j: int|
            0 <= j < instrs.len() && #[trigger] is_sp_load_of(instrs[j], offset),
        _ => false,
    }
}

/// Dead store elimination keeps every instruction but the dead stack-slot stores.
pub open spec fn dse_keep(instrs: Seq<Instruction>) -> Seq<bool> {
    Seq::new(instrs.len(), |i: int| !is_dead_sp_store(instrs, instrs[i]))
}

/// Eliminate dead SP-relative stores.
///
/// A `StoreIndU64` with `base == STACK_PTR_REG` is dead if no instruction in the
/// function loads from the same SP-relative offset. Only `StoreIndU64` is targeted
/// because the compiler always uses it for stack slot writes.
///
/// Must be called **before** fixups are resolved.
pub fn eliminate_dead_stores(
    instructions: &mut Vec<Instruction>,
    fixups: &mut [(usize, usize)],
    call_fixups: &mut [LlvmCallFixup],
    indirect_call_fixups: &mut [LlvmIndirectCallFixup],
    labels: &mut [Option<usize>],
)
    requires
        code_bytes(old(instructions)@).len() <= usize::MAX,
        removes_any(dse_keep(old(instructions)@), old(instructions)@.len() as int)
            ==> fixups_in_range(
            old(instructions)@.len() as int,
            old(fixups)@,
            old(call_fixups)@,
            old(indirect_call_fixups)@,
        ),
    ensures
        (
            final(instructions)@,
            final(fixups)@,
            final(call_fixups)@,
            final(indirect_call_fixups)@,
            final(labels)@,
        ) == compact_all(
            old(instructions)@,
            dse_keep(old(instructions)@),
            old(fixups)@,
            old(call_fixups)@,
            old(indirect_call_fixups)@,
            old(labels)@,
        ),
{
    let ghost instrs = instructions@;
    let len = instructions.len();
    if len == 0 {
        proof {
            lemma_compact_nothing(instrs, dse_keep(instrs), fixups@, call_fixups@, indirect_call_fixups@, labels@);
        }
        return;
    }

    // Pass 1: collect all SP-relative load offsets (the "read" set).
    let mut read_offsets: HashSet<i32> = HashSet::new();
    let mut i: usize = 0;
    while i < len
        invariant
            instructions@ == instrs,
            len == instrs.len(),
            i <= len,
            forall|off: i32|
                #![trigger read_offsets@.contains(off)]
                read_offsets@.contains(off) <==> exists|j: int|
                    0 <= j < i && #[trigger] is_sp_load_of(instrs[j], off),
        decreases len - i,
    {
        let ghost before = read_offsets@;
        match &instructions[i] {
            Instruction::LoadIndU64 { base, offset, .. }
            | Instruction::LoadIndU32 { base, offset, .. }
            | Instruction::LoadIndU8 { base, offset, .. }
            | Instruction::LoadIndI8 { base, offset, .. }
            | Instruction::LoadIndU16 { base, offset, .. }
            | Instruction::LoadIndI16 { base, offset, .. } => {
                if *base == STACK_PTR_REG {
                    read_offsets.insert(*offset);
                }
            },
            _ => {},
        }
        proof {
            assert forall|off: i32|
                #![trigger read_offsets@.contains(off)]
                read_offsets@.contains(off) <==> exists|j: int|
                    0 <= j < i + 1 && #[trigger] is_sp_load_of(instrs[j], off) by {
                if read_offsets@.contains(off) && !before.contains(off) {
                    assert(is_sp_load_of(instrs[i as int], off));
                }
                if exists|j: int| 0 <= j < i + 1 && #[trigger] is_sp_load_of(instrs[j], off) {
                    let j = choose|j: int| 0 <= j < i + 1 && #[trigger] is_sp_load_of(instrs[j], off);
                    if j < i {
                        assert(before.contains(off));
                    }
                }
            }
        }
        i += 1;
    }

    // Pass 2: mark SP-relative StoreIndU64 to unread offsets for removal.
    let mut keep: Vec<bool> = Vec::new();
    i = 0;
    while i < len
        invariant
            instructions@ == instrs,
            len == instrs.len(),
            i <= len,
            keep@.len() == i,
            forall|off: i32|
                #![trigger read_offsets@.contains(off)]
                read_offsets@.contains(off) <==> exists|j: int|
                    0 <= j < len && #[trigger] is_sp_load_of(instrs[j], off),
            forall|j: int| 0 <= j < i ==> keep@[j] == dse_keep(instrs)[j],
        decreases len - i,
    {
        let dead = match &instructions[i] {
            Instruction::StoreIndU64 { base, offset, .. } => *base == STACK_PTR_REG
                && !read_offsets.contains(offset),
            _ => false,
        };
        keep.push(!dead);
        i += 1;
    }
    proof {
        assert(keep@ =~= dse_keep(instrs));
    }

    compact_instructions(
        instructions,
        keep.as_slice(),
        fixups,
        call_fixups,
        indirect_call_fixups,
        labels,
    );
}

/// Number of registers the PVM has.
pub open spec fn num_regs() -> int {
    13
}

/// Every register an instruction names (written or read) is a PVM register.
pub open spec fn regs_valid(instr: Instruction) -> bool {
    let srcs = instr.sources();
    &&& reg_ok(instr.dest())
    &&& reg_ok(srcs[0])
    &&& reg_ok(srcs[1])
    &&& reg_ok(srcs[2])
}

/// An optional register operand that, when present, is a PVM register.
pub open spec fn reg_ok(r: Option<u8>) -> bool {
    r matches Some(x) ==> x < 13
}

/// The set of byte offsets that some label points to.
pub open spec fn label_set(labels: Seq<Option<usize>>) -> Set<usize> {
    Set::new(|o: usize| exists|j: int| 0 <= j < labels.len() && labels[j] == Some(o))
}

/// Liveness with every register needed.
pub open spec fn all_needed() -> Seq<bool> {
    Seq::new(13, |r: int| true)
}

/// `needed` with every register the instruction reads marked as needed.
pub open spec fn mark_sources(needed: Seq<bool>, srcs: Seq<Option<u8>>) -> Seq<bool> {
    Seq::new(
        13,
        |r: int|
            needed[r] || srcs[0] == Some(r as u8) || srcs[1] == Some(r as u8) || srcs[2] == Some(
                r as u8,
            ),
    )
}

/// `needed` with the host-call argument registers (r7-r11) marked as
/// needed before a host call, which reads its arguments from them.
pub open spec fn mark_host_args(needed: Seq<bool>, instr: Instruction) -> Seq<bool> {
    if instr is Ecalli {
        Seq::new(13, |r: int| needed[r] || (7 <= r <= 11))
    } else {
        needed
    }
}

/// Instructions kept for their effect on memory, the host or control.
pub open spec fn has_side_effect(instr: Instruction) -> bool {
    match instr {
        Instruction::StoreIndU8 { .. }
        | Instruction::StoreIndU16 { .. }
        | Instruction::StoreIndU32 { .. }
        | Instruction::StoreIndU64 { .. }
        | Instruction::Ecalli { .. }
        | Instruction::Trap
        | Instruction::Sbrk { .. } => true,
        _ => false,
    }
}

/// Liveness just before the backward scan reaches instruction `i`, after a
/// reset to "all needed" if a label points at it.
pub open spec fn live_at(instrs: Seq<Instruction>, labels: Set<usize>, i: int) -> Seq<bool>
    decreases instrs.len() - i, 0int,
{
    let after = if i + 1 >= instrs.len() || i < 0 {
        all_needed()
    } else {
        live_after_step(instrs, labels, i + 1)
    };
    if labels.contains(offset_of(instrs, i) as usize) {
        all_needed()
    } else {
        after
    }
}

/// Liveness once the backward scan has processed instruction `i`.
pub open spec fn live_after_step(instrs: Seq<Instruction>, labels: Set<usize>, i: int) -> Seq<
    bool,
>
    decreases instrs.len() - i, 1int,
{
    if i < 0 || i >= instrs.len() {
        all_needed()
    } else {
        let s = live_at(instrs, labels, i);
        let instr = instrs[i];
        if instr.terminates() {
            mark_sources(all_needed(), instr.sources())
        } else if has_side_effect(instr) {
            mark_host_args(mark_sources(s, instr.sources()), instr)
        } else {
            match instr.dest() {
                Some(d) => if !s[d as int] {
                    s
                } else {
                    mark_sources(s.update(d as int, false), instr.sources())
                },
                None => mark_sources(s, instr.sources()),
            }
        }
    }
}

/// Whether dead code elimination drops instruction `i`: it only writes a
/// register that nothing later reads before overwriting it.
pub open spec fn dce_removes(instrs: Seq<Instruction>, labels: Set<usize>, i: int) -> bool {
    let instr = instrs[i];
    &&& !instr.terminates()
    &&& !has_side_effect(instr)
    &&& instr.dest() matches Some(d) && !live_at(instrs, labels, i)[d as int]
}

/// Dead code elimination keeps every instruction it does not remove.
pub open spec fn dce_keep(instrs: Seq<Instruction>, labels: Seq<Option<usize>>) -> Seq<bool> {
    Seq::new(instrs.len(), |i: int| !dce_removes(instrs, label_set(labels), i))
}

proof fn lemma_live_len(instrs: Seq<Instruction>, labels: Set<usize>, i: int)
    ensures
        live_at(instrs, labels, i).len() == 13,
        live_after_step(instrs, labels, i).len() == 13,
    decreases instrs.len() - i,
{
    if 0 <= i && i + 1 < instrs.len() {
        lemma_live_len(instrs, labels, i + 1);
    }
}

fn has_side_effect_exec(instr: &Instruction) -> (r: bool)
    ensures
        r == has_side_effect(*instr),
{
    match instr {
        Instruction::StoreIndU8 { .. }
        | Instruction::StoreIndU16 { .. }
        | Instruction::StoreIndU32 { .. }
        | Instruction::StoreIndU64 { .. }
        | Instruction::Ecalli { .. }
        | Instruction::Trap
        | Instruction::Sbrk { .. } => true,
        _ => false,
    }
}

/// Collects the byte offsets the labels point to.
fn collect_label_offsets(labels: &[Option<usize>]) -> (r: HashSet<usize>)
    ensures
        r@ == label_set(labels@),
{
    let mut set: HashSet<usize> = HashSet::new();
    let mut j: usize = 0;
    while j < labels.len()
        invariant
            j <= labels@.len(),
            forall|o: usize|
                #![trigger set@.contains(o)]
                set@.contains(o) <==> exists|k: int| 0 <= k < j && labels@[k] == Some(o),
        decreases labels@.len() - j,
    {
        let ghost before = set@;
        if let Some(l) = labels[j] {
            set.insert(l);
        }
        proof {
            assert forall|o: usize|
                #![trigger set@.contains(o)]
                set@.contains(o) <==> exists|k: int| 0 <= k < j + 1 && labels@[k] == Some(o) by {
                if exists|k: int| 0 <= k < j + 1 && labels@[k] == Some(o) {
                    let k = choose|k: int| 0 <= k < j + 1 && labels@[k] == Some(o);
                    if k < j {
                        assert(before.contains(o));
                    }
                }
            }
        }
        j += 1;
    }
    assert(set@ =~= label_set(labels@));
    set
}

/// Byte offset of every instruction.
pub(crate) fn instruction_offsets(instructions: &Vec<Instruction>) -> (r: Vec<usize>)
    requires
        code_bytes(instructions@).len() <= usize::MAX,
    ensures
        r@.len() == instructions@.len(),
        forall|j: int| 0 <= j < r@.len() ==> r@[j] == offset_of(instructions@, j),
{
    let ghost instrs = instructions@;
    proof {
        lemma_offset_total(instrs);
    }
    let mut offsets: Vec<usize> = Vec::new();
    let mut running: usize = 0;
    let mut i: usize = 0;
    while i < instructions.len()
        invariant
            instructions@ == instrs,
            i <= instrs.len(),
            offset_of(instrs, instrs.len() as int) <= usize::MAX,
            running == offset_of(instrs, i as int),
            offsets@.len() == i,
            forall|j: int| 0 <= j < i ==> offsets@[j] == offset_of(instrs, j),
        decreases instrs.len() - i,
    {
        offsets.push(running);
        proof {
            lemma_offset_step(instrs, i as int);
            lemma_offset_mono(instrs, i + 1, instrs.len() as int);
        }
        running = running + instructions[i].encode().len();
        i += 1;
    }
    offsets
}

/// Byte offset of every instruction boundary, the end of the stream included.
fn boundary_offsets(instructions: &Vec<Instruction>) -> (r: Vec<usize>)
    requires
        code_bytes(instructions@).len() <= usize::MAX,
    ensures
        r@.len() == instructions@.len() + 1,
        forall|j: int| 0 <= j < r@.len() ==> r@[j] == offset_of(instructions@, j),
{
    let ghost instrs = instructions@;
    let mut r = instruction_offsets(instructions);
    let n = instructions.len();
    proof {
        lemma_offset_total(instrs);
    }
    if n == 0 {
        r.push(0);
        proof {
            assert(instrs.take(0) =~= Seq::<Instruction>::empty());
            assert(code_bytes(instrs.take(0)).len() == 0) by {
                lemma_offset_total(instrs);
            }
        }
    } else {
        proof {
            lemma_offset_step(instrs, n - 1);
        }
        let last = r[n - 1] + instructions[n - 1].encode().len();
        r.push(last);
    }
    r
}

/// Moves every label that sits on an instruction boundary of `before` to the
/// byte offset of the same boundary in `instructions`, a rewrite of `before`
/// with as many instructions; `before_offsets` holds the boundaries of `before`.
fn relocate_labels(
    Ghost(before): Ghost<Seq<Instruction>>,
    before_offsets: &Vec<usize>,
    instructions: &Vec<Instruction>,
    labels: &mut [Option<usize>],
)
    requires
        before.len() == instructions@.len(),
        before_offsets@.len() == before.len() + 1,
        forall|j: int| 0 <= j < before_offsets@.len() ==> before_offsets@[j] == offset_of(before, j),
        code_bytes(instructions@).len() <= usize::MAX,
    ensures
        final(labels)@ == relocated_labels(before, instructions@, old(labels)@),
{
    let after = boundary_offsets(instructions);
    let total = before_offsets.len();
    let mut li: usize = 0;
    while li < labels.len()
        invariant
            total == before.len() + 1,
            before_offsets@.len() == total,
            forall|j: int| 0 <= j < total ==> before_offsets@[j] == offset_of(before, j),
            after@.len() == total,
            forall|j: int| 0 <= j < total ==> after@[j] == offset_of(instructions@, j),
            li <= labels@.len(),
            labels@.len() == old(labels)@.len(),
            forall|k: int| li <= k < labels@.len() ==> labels@[k] == old(labels)@[k],
            forall|k: int|
                0 <= k < li ==> labels@[k] == relocated_label(
                    before,
                    instructions@,
                    old(labels)@[k],
                ),
        decreases labels@.len() - li,
    {
        if let Some(off) = labels[li] {
            let mut k: usize = 0;
            while k < total && before_offsets[k] != off
                invariant
                    total == before.len() + 1,
                    before_offsets@.len() == total,
                    k <= total,
                    forall|j: int| 0 <= j < k ==> before_offsets@[j] != off,
                decreases total - k,
            {
                k += 1;
            }
            proof {
                lemma_scan(before, off as nat, 0);
                let r = first_at(before, off as nat);
                if k < total {
                    assert(offset_of(before, k as int) == off as nat);
                    if r < k {
                        assert(before_offsets@[r] != off);
                    }
                    assert(r == k);
                } else {
                    if r <= before.len() {
                        assert(before_offsets@[r] != off);
                    }
                }
            }
            if k < total {
                labels[li] = Some(after[k]);
            }
        }
        li += 1;
    }
    assert(labels@ =~= relocated_labels(before, instructions@, old(labels)@));
}

/// Eliminate dead code: instructions whose only effect is writing a register
/// that is overwritten before any read.
///
/// Scans backwards tracking which registers are still needed; every register
/// counts as needed at labels and at block-ending instructions.
/// Must be called **before** fixups are resolved.
#[verifier::spinoff_prover]
pub fn eliminate_dead_code(
    instructions: &mut Vec<Instruction>,
    fixups: &mut [(usize, usize)],
    call_fixups: &mut [LlvmCallFixup],
    indirect_call_fixups: &mut [LlvmIndirectCallFixup],
    labels: &mut [Option<usize>],
)
    requires
        code_bytes(old(instructions)@).len() <= usize::MAX,
        forall|i: int| 0 <= i < old(instructions)@.len() ==> regs_valid(old(instructions)@[i]),
        removes_any(dce_keep(old(instructions)@, old(labels)@), old(instructions)@.len() as int)
            ==> fixups_in_range(
            old(instructions)@.len() as int,
            old(fixups)@,
            old(call_fixups)@,
            old(indirect_call_fixups)@,
        ),
    ensures
        (
            final(instructions)@,
            final(fixups)@,
            final(call_fixups)@,
            final(indirect_call_fixups)@,
            final(labels)@,
        ) == compact_all(
            old(instructions)@,
            dce_keep(old(instructions)@, old(labels)@),
            old(fixups)@,
            old(call_fixups)@,
            old(indirect_call_fixups)@,
            old(labels)@,
        ),
{
    let ghost instrs = instructions@;
    let ghost ls = label_set(labels@);
    let len = instructions.len();
    if len == 0 {
        proof {
            lemma_compact_nothing(instrs, dce_keep(instrs, labels@), fixups@, call_fixups@, indirect_call_fixups@, labels@);
        }
        return;
    }

    let offsets = instruction_offsets(instructions);
    let label_offsets = collect_label_offsets(labels);

    let mut keep: Vec<bool> = Vec::new();
    let mut k: usize = 0;
    while k < len
        invariant
            k <= len,
            keep@.len() == k,
            forall|j: int| 0 <= j < k ==> keep@[j],
        decreases len - k,
    {
        keep.push(true);
        k += 1;
    }

    let mut needed_regs: Vec<bool> = Vec::new();
    k = 0;
    while k < 13
        invariant
            k <= 13,
            needed_regs@ =~= Seq::new(k as nat, |r: int| true),
        decreases 13 - k,
    {
        needed_regs.push(true);
        k += 1;
    }

    let mut i: usize = len;
    while i > 0
        invariant
            instructions@ == instrs,
            len == instrs.len(),
            i <= len,
            offsets@.len() == len,
            forall|j: int| 0 <= j < len ==> offsets@[j] == offset_of(instrs, j),
            label_offsets@ == ls,
            ls == label_set(labels@),
            forall|j: int| 0 <= j < len ==> regs_valid(instrs[j]),
            needed_regs@ == (if i == len {
                all_needed()
            } else {
                live_after_step(instrs, ls, i as int)
            }),
            keep@.len() == len,
            forall|j: int| 0 <= j < i ==> keep@[j],
            forall|j: int| i <= j < len ==> keep@[j] == dce_keep(instrs, labels@)[j],
        decreases i,
    {
        i -= 1;
        proof {
            assert(needed_regs@ == (if i + 1 >= len {
                all_needed()
            } else {
                live_after_step(instrs, ls, i + 1)
            }));
        }
        proof {
            lemma_live_len(instrs, ls, i as int);
        }
        if label_offsets.contains(&offsets[i]) {
            needed_regs = reset_needed();
        }
        assert(needed_regs@ == live_at(instrs, ls, i as int));

        let instr = &instructions[i];
        let mut remove = false;

        if instr.is_terminating() {
            needed_regs = reset_needed();
        } else if has_side_effect_exec(instr) {
        } else {
            if let Some(dst) = instr.dest_reg() {
                if !needed_regs[dst as usize] {
                    remove = true;
                } else {
                    needed_regs.set(dst as usize, false);
                }
            }
        }

        if remove {
            keep.set(i, false);
        } else {
            let srcs = instr.src_regs();
            let mut s: usize = 0;
            let ghost before = needed_regs@;
            while s < 3
                invariant
                    s <= 3,
                    srcs@ == instr.sources(),
                    regs_valid(*instr),
                    needed_regs@.len() == 13,
                    before.len() == 13,
                    forall|r: int|
                        0 <= r < 13 ==> needed_regs@[r] == (before[r] || (0 < s && srcs@[0]
                            == Some(r as u8)) || (1 < s && srcs@[1] == Some(r as u8)) || (2 < s
                            && srcs@[2] == Some(r as u8))),
                decreases 3 - s,
            {
                let ghost prev = needed_regs@;
                let cur = srcs[s];
                assert(cur == srcs@[s as int]);
                if let Some(reg) = cur {
                    assert(reg_ok(instr.sources()[s as int]));
                    needed_regs.set(reg as usize, true);
                }
                assert forall|r: int| 0 <= r < 13 implies #[trigger] needed_regs@[r] == (prev[r] || Some(r as u8) == cur) by {
                    if Some(r as u8) == cur {
                        assert(r == (r as u8) as int);
                    }
                }
                s += 1;
            }
            proof {
                assert(s == 3);
                assert forall|r: int| 0 <= r < 13 implies #[trigger] needed_regs@[r] == mark_sources(before, srcs@)[r] by {
                    assert(needed_regs@[r] == (before[r] || srcs@[0] == Some(r as u8) || srcs@[1] == Some(r as u8) || srcs@[2] == Some(r as u8)));
                }
                assert(needed_regs@ =~= mark_sources(before, srcs@));
            }
            // A host call reads its arguments from r7-r11.
            if let Instruction::Ecalli { .. } = instr {
                let ghost marked = needed_regs@;
                let mut r: usize = 7;
                while r < 12
                    invariant
                        7 <= r <= 12,
                        marked.len() == 13,
                        needed_regs@.len() == 13,
                        forall|q: int| 0 <= q < 13 ==> needed_regs@[q] == (marked[q] || (7 <= q < r)),
                    decreases 12 - r,
                {
                    needed_regs.set(r, true);
                    r += 1;
                }
                proof {
                    assert(needed_regs@ =~= mark_host_args(marked, *instr));
                }
            }
        }
        assert(needed_regs@ =~= live_after_step(instrs, ls, i as int));
        assert(keep@[i as int] == dce_keep(instrs, labels@)[i as int]);
    }
    proof {
        assert(keep@ =~= dce_keep(instrs, labels@));
    }

    compact_instructions(
        instructions,
        keep.as_slice(),
        fixups,
        call_fixups,
        indirect_call_fixups,
        labels,
    );
}

fn reset_needed() -> (r: Vec<bool>)
    ensures
        r@ == all_needed(),
{
    let mut v: Vec<bool> = Vec::new();
    let mut k: usize = 0;
    while k < 13
        invariant
            k <= 13,
            v@ =~= Seq::new(k as nat, |r: int| true),
        decreases 13 - k,
    {
        v.push(true);
        k += 1;
    }
    v
}


/// Address tracking: entry `r` is `Some((b, k))` when register `r` is known
/// to hold the value of register `b` plus `k`.
pub open spec fn no_tracking() -> Seq<Option<(u8, i32)>> {
    Seq::new(13, |r: int| None)
}

/// The register whose tracked value the rewrite looks up: the base of a
/// load or store, the target of an indirect jump, the source of an immediate
/// add or a register move.
pub open spec fn tracked_operand(instr: Instruction) -> Option<u8> {
    match instr {
        Instruction::LoadIndU8 { base, .. } => Some(base),
        Instruction::LoadIndI8 { base, .. } => Some(base),
        Instruction::LoadIndU16 { base, .. } => Some(base),
        Instruction::LoadIndI16 { base, .. } => Some(base),
        Instruction::LoadIndU32 { base, .. } => Some(base),
        Instruction::LoadIndU64 { base, .. } => Some(base),
        Instruction::StoreIndU8 { base, .. } => Some(base),
        Instruction::StoreIndU16 { base, .. } => Some(base),
        Instruction::StoreIndU32 { base, .. } => Some(base),
        Instruction::StoreIndU64 { base, .. } => Some(base),
        Instruction::JumpInd { reg, .. } => Some(reg),
        Instruction::AddImm32 { src, .. } | Instruction::AddImm64 { src, .. } | Instruction::MoveReg { src, .. } => Some(src),
        _ => None,
    }
}

/// The registers that address tracking indexes its table with are PVM registers.
pub open spec fn addr_regs_ok(instr: Instruction) -> bool {
    &&& (instr.dest() matches Some(d) ==> d < 13)
    &&& (tracked_operand(instr) matches Some(r) ==> r < 13)
}

/// `reg + off` rewritten as `base + (k + off)` when `reg` is tracked as
/// `base + k` and the new offset fits in an `i32`.
pub open spec fn fold_offset(state: Seq<Option<(u8, i32)>>, reg: u8, off: i32) -> Option<(u8, i32)> {
    match state[reg as int] {
        Some((b, k)) => if i32::MIN <= off + k <= i32::MAX {
            Some((b, (off + k) as i32))
        } else {
            None
        },
        None => None,
    }
}

/// An instruction with its tracked base register folded into its offset.
pub open spec fn rewrite_addr(instr: Instruction, state: Seq<Option<(u8, i32)>>) -> Instruction {
    match instr {
        Instruction::LoadIndU8 { dst, base, offset } => match fold_offset(state, base, offset) {
            Some((b, o)) => Instruction::LoadIndU8 { dst, base: b, offset: o },
            None => instr,
        },
        Instruction::LoadIndI8 { dst, base, offset } => match fold_offset(state, base, offset) {
            Some((b, o)) => Instruction::LoadIndI8 { dst, base: b, offset: o },
            None => instr,
        },
        Instruction::LoadIndU16 { dst, base, offset } => match fold_offset(state, base, offset) {
            Some((b, o)) => Instruction::LoadIndU16 { dst, base: b, offset: o },
            None => instr,
        },
        Instruction::LoadIndI16 { dst, base, offset } => match fold_offset(state, base, offset) {
            Some((b, o)) => Instruction::LoadIndI16 { dst, base: b, offset: o },
            None => instr,
        },
        Instruction::LoadIndU32 { dst, base, offset } => match fold_offset(state, base, offset) {
            Some((b, o)) => Instruction::LoadIndU32 { dst, base: b, offset: o },
            None => instr,
        },
        Instruction::LoadIndU64 { dst, base, offset } => match fold_offset(state, base, offset) {
            Some((b, o)) => Instruction::LoadIndU64 { dst, base: b, offset: o },
            None => instr,
        },
        Instruction::StoreIndU8 { base, src, offset } => match fold_offset(state, base, offset) {
            Some((b, o)) => Instruction::StoreIndU8 { base: b, src, offset: o },
            None => instr,
        },
        Instruction::StoreIndU16 { base, src, offset } => match fold_offset(state, base, offset) {
            Some((b, o)) => Instruction::StoreIndU16 { base: b, src, offset: o },
            None => instr,
        },
        Instruction::StoreIndU32 { base, src, offset } => match fold_offset(state, base, offset) {
            Some((b, o)) => Instruction::StoreIndU32 { base: b, src, offset: o },
            None => instr,
        },
        Instruction::StoreIndU64 { base, src, offset } => match fold_offset(state, base, offset) {
            Some((b, o)) => Instruction::StoreIndU64 { base: b, src, offset: o },
            None => instr,
        },
        Instruction::JumpInd { reg, offset } => match fold_offset(state, reg, offset) {
            Some((b, o)) => Instruction::JumpInd { reg: b, offset: o },
            None => instr,
        },
        Instruction::AddImm32 { dst, src, value } => match fold_offset(state, src, value) {
            Some((b, o)) => Instruction::AddImm32 { dst, src: b, value: o },
            None => instr,
        },
        Instruction::AddImm64 { dst, src, value } => match fold_offset(state, src, value) {
            Some((b, o)) => Instruction::AddImm64 { dst, src: b, value: o },
            None => instr,
        },
        _ => instr,
    }
}

/// Forget every entry based on register `d`.
pub open spec fn forget_base(state: Seq<Option<(u8, i32)>>, d: u8) -> Seq<Option<(u8, i32)>> {
    Seq::new(
        13,
        |r: int|
            match state[r] {
                Some((b, k)) => if b == d {
                    None
                } else {
                    state[r]
                },
                None => None,
            },
    )
}

/// The tracking state after a (rewritten) instruction executes.
pub open spec fn addr_step(instr: Instruction, state: Seq<Option<(u8, i32)>>) -> Seq<Option<(u8, i32)>> {
    let s = match instr.dest() {
        Some(d) => forget_base(state, d),
        None => state,
    };
    match instr {
        Instruction::MoveReg { dst, src } => if dst != src {
            s.update(
                dst as int,
                match s[src as int] {
                    Some(p) => Some(p),
                    None => Some((src, 0i32)),
                },
            )
        } else {
            s.update(dst as int, None)
        },
        Instruction::AddImm32 { dst, src, value } | Instruction::AddImm64 { dst, src, value } =>
            if dst != src {
            s.update(dst as int, Some((src, value)))
        } else {
            s.update(dst as int, None)
        },
        _ => match instr.dest() {
            Some(d) => s.update(d as int, Some((d, 0i32))),
            None => s,
        },
    }
}

/// Tracking state when the pass reaches instruction `i`: the state carried
/// from the previous instruction, cleared when a label points at `i`.
pub open spec fn addr_state_at(instrs: Seq<Instruction>, labels: Set<usize>, i: int) -> Seq<
    Option<(u8, i32)>,
>
    decreases i, 1int,
{
    if labels.contains(offset_of(instrs, i) as usize) {
        no_tracking()
    } else {
        addr_state_carried(instrs, labels, i)
    }
}

/// Tracking state left behind by instruction `i - 1` (none before the first,
/// and none after a branch or jump).
pub open spec fn addr_state_carried(instrs: Seq<Instruction>, labels: Set<usize>, i: int) -> Seq<
    Option<(u8, i32)>,
>
    decreases i, 0int,
{
    if i <= 0 {
        no_tracking()
    } else {
        let s = addr_state_at(instrs, labels, i - 1);
        if instrs[i - 1].terminates() {
            // A branch or jump ends the block: nothing is known after it.
            no_tracking()
        } else {
            addr_step(rewrite_addr(instrs[i - 1], s), s)
        }
    }
}

/// The instruction stream after address-calculation folding.
pub open spec fn addr_optimized(instrs: Seq<Instruction>, labels: Seq<Option<usize>>) -> Seq<
    Instruction,
> {
    Seq::new(
        instrs.len(),
        |i: int| rewrite_addr(instrs[i], addr_state_at(instrs, label_set(labels), i)),
    )
}

/// Every tracked entry names a PVM register as its base.
pub open spec fn tracking_ok(state: Seq<Option<(u8, i32)>>) -> bool {
    &&& state.len() == 13
    &&& forall|r: int| 0 <= r < 13 ==> (#[trigger] state[r] matches Some((b, k)) ==> b < 13)
}

fn fold_offset_exec(state: &Vec<Option<(u8, i32)>>, reg: u8, off: i32) -> (r: Option<(u8, i32)>)
    requires
        state@.len() == 13,
        reg < 13,
    ensures
        r == fold_offset(state@, reg, off),
{
    match state[reg as usize] {
        Some((b, k)) => match off.checked_add(k) {
            Some(o) => Some((b, o)),
            None => None,
        },
        None => None,
    }
}

fn rewrite_addr_exec(instr: Instruction, state: &Vec<Option<(u8, i32)>>) -> (r: Instruction)
    requires
        state@.len() == 13,
        addr_regs_ok(instr),
    ensures
        r == rewrite_addr(instr, state@),
{
    match instr {
        Instruction::LoadIndU8 { dst, base, offset } => match fold_offset_exec(state, base, offset) {
            Some((b, o)) => Instruction::LoadIndU8 { dst, base: b, offset: o },
            None => Instruction::LoadIndU8 { dst, base, offset },
        },
        Instruction::LoadIndI8 { dst, base, offset } => match fold_offset_exec(state, base, offset) {
            Some((b, o)) => Instruction::LoadIndI8 { dst, base: b, offset: o },
            None => Instruction::LoadIndI8 { dst, base, offset },
        },
        Instruction::LoadIndU16 { dst, base, offset } => match fold_offset_exec(state, base, offset) {
            Some((b, o)) => Instruction::LoadIndU16 { dst, base: b, offset: o },
            None => Instruction::LoadIndU16 { dst, base, offset },
        },
        Instruction::LoadIndI16 { dst, base, offset } => match fold_offset_exec(state, base, offset) {
            Some((b, o)) => Instruction::LoadIndI16 { dst, base: b, offset: o },
            None => Instruction::LoadIndI16 { dst, base, offset },
        },
        Instruction::LoadIndU32 { dst, base, offset } => match fold_offset_exec(state, base, offset) {
            Some((b, o)) => Instruction::LoadIndU32 { dst, base: b, offset: o },
            None => Instruction::LoadIndU32 { dst, base, offset },
        },
        Instruction::LoadIndU64 { dst, base, offset } => match fold_offset_exec(state, base, offset) {
            Some((b, o)) => Instruction::LoadIndU64 { dst, base: b, offset: o },
            None => Instruction::LoadIndU64 { dst, base, offset },
        },
        Instruction::StoreIndU8 { base, src, offset } => match fold_offset_exec(state, base, offset) {
            Some((b, o)) => Instruction::StoreIndU8 { base: b, src, offset: o },
            None => Instruction::StoreIndU8 { base, src, offset },
        },
        Instruction::StoreIndU16 { base, src, offset } => match fold_offset_exec(state, base, offset) {
            Some((b, o)) => Instruction::StoreIndU16 { base: b, src, offset: o },
            None => Instruction::StoreIndU16 { base, src, offset },
        },
        Instruction::StoreIndU32 { base, src, offset } => match fold_offset_exec(state, base, offset) {
            Some((b, o)) => Instruction::StoreIndU32 { base: b, src, offset: o },
            None => Instruction::StoreIndU32 { base, src, offset },
        },
        Instruction::StoreIndU64 { base, src, offset } => match fold_offset_exec(state, base, offset) {
            Some((b, o)) => Instruction::StoreIndU64 { base: b, src, offset: o },
            None => Instruction::StoreIndU64 { base, src, offset },
        },
        Instruction::JumpInd { reg, offset } => match fold_offset_exec(state, reg, offset) {
            Some((b, o)) => Instruction::JumpInd { reg: b, offset: o },
            None => Instruction::JumpInd { reg, offset },
        },
        Instruction::AddImm32 { dst, src, value } => match fold_offset_exec(state, src, value) {
            Some((b, o)) => Instruction::AddImm32 { dst, src: b, value: o },
            None => Instruction::AddImm32 { dst, src, value },
        },
        Instruction::AddImm64 { dst, src, value } => match fold_offset_exec(state, src, value) {
            Some((b, o)) => Instruction::AddImm64 { dst, src: b, value: o },
            None => Instruction::AddImm64 { dst, src, value },
        },
        other => other,
    }
}

proof fn lemma_rewrite_ok(instr: Instruction, state: Seq<Option<(u8, i32)>>)
    requires
        addr_regs_ok(instr),
        tracking_ok(state),
    ensures
        addr_regs_ok(rewrite_addr(instr, state)),
        rewrite_addr(instr, state).dest() == instr.dest(),
{
    match tracked_operand(instr) {
        Some(r) => {
            assert(state[r as int] matches Some((b, k)) ==> b < 13);
        },
        None => {},
    }
}

proof fn lemma_step_ok(instr: Instruction, state: Seq<Option<(u8, i32)>>)
    requires
        addr_regs_ok(instr),
        tracking_ok(state),
    ensures
        tracking_ok(addr_step(instr, state)),
{
    let s = match instr.dest() {
        Some(d) => forget_base(state, d),
        None => state,
    };
    assert(tracking_ok(s)) by {
        assert forall|r: int| 0 <= r < 13 implies (#[trigger] s[r] matches Some((b, k)) ==> b < 13) by {
            assert(state[r] matches Some((b, k)) ==> b < 13);
        }
    }
    let t = addr_step(instr, state);
    assert forall|r: int| 0 <= r < 13 implies (#[trigger] t[r] matches Some((b, k)) ==> b < 13) by {
        assert(s[r] matches Some((b, k)) ==> b < 13);
        match instr {
            Instruction::MoveReg { dst, src } => {
                assert(s[src as int] matches Some((b, k)) ==> b < 13);
            },
            _ => {},
        }
    }
}

fn no_tracking_exec() -> (r: Vec<Option<(u8, i32)>>)
    ensures
        r@ == no_tracking(),
{
    let mut v: Vec<Option<(u8, i32)>> = Vec::new();
    let mut k: usize = 0;
    while k < 13
        invariant
            k <= 13,
            v@ =~= Seq::new(k as nat, |r: int| None::<(u8, i32)>),
        decreases 13 - k,
    {
        v.push(None);
        k += 1;
    }
    v
}

fn addr_step_exec(instr: &Instruction, state: &mut Vec<Option<(u8, i32)>>)
    requires
        tracking_ok(old(state)@),
        addr_regs_ok(*instr),
    ensures
        final(state)@ == addr_step(*instr, old(state)@),
{
    let ghost start = state@;
    let dest = instr.dest_reg();
    if let Some(d) = dest {
        let mut r: usize = 0;
        while r < 13
            invariant
                state@.len() == 13,
                start.len() == 13,
                r <= 13,
                forall|q: int| 0 <= q < r ==> state@[q] == forget_base(start, d)[q],
                forall|q: int| r <= q < 13 ==> state@[q] == start[q],
            decreases 13 - r,
        {
            if let Some((b, _)) = state[r] {
                if b == d {
                    state.set(r, None);
                }
            }
            r += 1;
        }
        assert(state@ =~= forget_base(start, d));
    }
    let ghost s = state@;
    match instr {
        Instruction::MoveReg { dst, src } => {
            if *dst != *src {
                let v = match state[*src as usize] {
                    Some(p) => Some(p),
                    None => Some((*src, 0i32)),
                };
                state.set(*dst as usize, v);
            } else {
                state.set(*dst as usize, None);
            }
        },
        Instruction::AddImm32 { dst, src, value } | Instruction::AddImm64 { dst, src, value } => {
            if *dst != *src {
                state.set(*dst as usize, Some((*src, *value)));
            } else {
                state.set(*dst as usize, None);
            }
        },
        _ => {
            if let Some(d) = dest {
                state.set(d as usize, Some((d, 0i32)));
            }
        },
    }
    assert(state@ =~= addr_step(*instr, start));
}

/// Fold address calculations: a register known to hold `base + k` (from an
/// immediate add or a register move earlier in the block) is replaced by
/// `base` in a later load, store, indirect jump or immediate add, with `k`
/// added to the offset when the sum fits in an `i32`.
///
/// Tracking starts afresh at every label target; the rewrite is in place and
/// removes nothing, so fixups stay valid.
pub fn optimize_address_calculation(instructions: &mut Vec<Instruction>, labels: &[Option<usize>])
    requires
        code_bytes(old(instructions)@).len() <= usize::MAX,
        forall|i: int|
            0 <= i < old(instructions)@.len() ==> addr_regs_ok(#[trigger] old(instructions)@[i]),
    ensures
        final(instructions)@ == addr_optimized(old(instructions)@, labels@),
{
    let ghost instrs = instructions@;
    let ghost ls = label_set(labels@);
    let len = instructions.len();
    let offsets = instruction_offsets(instructions);
    let label_offsets = collect_label_offsets(labels);
    let mut state = no_tracking_exec();

    let mut reversed: Vec<Instruction> = Vec::new();
    while instructions.len() > 0
        invariant
            instructions@.len() + reversed@.len() == instrs.len(),
            instructions@ == instrs.take(instructions@.len() as int),
            forall|j: int|
                0 <= j < reversed@.len() ==> reversed@[j] == instrs[instrs.len() - 1 - j],
        decreases instructions@.len(),
    {
        let x = instructions.pop().unwrap();
        reversed.push(x);
    }

    let mut i: usize = 0;
    while i < len
        invariant
            len == instrs.len(),
            i <= len,
            offsets@.len() == len,
            forall|j: int| 0 <= j < len ==> offsets@[j] == offset_of(instrs, j),
            label_offsets@ == ls,
            forall|j: int| 0 <= j < len ==> addr_regs_ok(#[trigger] instrs[j]),
            reversed@.len() == len - i,
            forall|j: int| 0 <= j < reversed@.len() ==> reversed@[j] == instrs[len - 1 - j],
            instructions@.len() == i,
            forall|j: int|
                0 <= j < i ==> instructions@[j] == rewrite_addr(
                    instrs[j],
                    addr_state_at(instrs, ls, j),
                ),
            state@ == addr_state_carried(instrs, ls, i as int),
            tracking_ok(state@),
        decreases len - i,
    {
        if label_offsets.contains(&offsets[i]) {
            state = no_tracking_exec();
        }
        assert(state@ == addr_state_at(instrs, ls, i as int));
        assert(tracking_ok(state@));
        let x = reversed.pop().unwrap();
        assert(x == instrs[i as int]);
        let ends_block = x.is_terminating();
        let y = rewrite_addr_exec(x, &state);
        proof {
            lemma_rewrite_ok(x, state@);
            lemma_step_ok(y, state@);
        }
        addr_step_exec(&y, &mut state);
        // Tracking is reset at branches, as at labels.
        if ends_block {
            state = no_tracking_exec();
        }
        instructions.push(y);
        i += 1;
    }
    assert(instructions@ =~= addr_optimized(instrs, labels@));
}


/// A 32-bit operation that writes the sign extension of its 32-bit result,
/// so that a following `AddImm32(x, x, 0)` truncation changes nothing.
pub open spec fn sign_extends_32(instr: Instruction) -> bool {
    match instr {
        Instruction::Add32 { .. }
        | Instruction::Sub32 { .. }
        | Instruction::Mul32 { .. }
        | Instruction::DivU32 { .. }
        | Instruction::DivS32 { .. }
        | Instruction::RemU32 { .. }
        | Instruction::RemS32 { .. }
        | Instruction::ShloL32 { .. }
        | Instruction::ShloR32 { .. }
        | Instruction::SharR32 { .. }
        | Instruction::AddImm32 { .. }
        | Instruction::CountSetBits32 { .. }
        | Instruction::LeadingZeroBits32 { .. }
        | Instruction::TrailingZeroBits32 { .. }
        | Instruction::SignExtend8 { .. }
        | Instruction::SignExtend16 { .. } => true,
        _ => false,
    }
}

/// Every sign-extending producer writes, whatever its sources hold, a value
/// that is the sign extension of its own low 32 bits, so that a following
/// `AddImm32(d, d, 0)` truncation of its destination changes nothing.
pub proof fn sign_extending_producers_write_sign_extended(instr: Instruction, regs: spec_fn(u8) -> u64)
    requires
        sign_extends_32(instr),
    ensures
        alu_value(instr, regs) is Some,
        sext32(alu_value(instr, regs).unwrap()) == alu_value(instr, regs).unwrap(),
{
    match instr {
        Instruction::DivU32 { dst, src1, src2 } => {
            let a = regs(src1) % 0x1_0000_0000;
            let b = regs(src2) % 0x1_0000_0000;
            if b == 0 {
                assert(sext32(u64::MAX) == u64::MAX) by (bit_vector);
            } else {
                lemma_sext32_idempotent(a / b);
            }
        },
        Instruction::DivS32 { dst, src1, src2 } => {
            let a = signed32(regs(src1));
            let b = signed32(regs(src2));
            if b == 0 {
                assert(sext32(u64::MAX) == u64::MAX) by (bit_vector);
            } else if a == -0x8000_0000 && b == -1 {
                lemma_sext32_idempotent(wrap64(a));
            } else {
                lemma_sext32_idempotent(wrap64(div_trunc(a, b)));
            }
        },
        Instruction::RemU32 { dst, src1, src2 } => {
            let a = regs(src1) % 0x1_0000_0000;
            let b = regs(src2) % 0x1_0000_0000;
            if b == 0 {
                lemma_sext32_idempotent(a);
            } else {
                lemma_sext32_idempotent(a % b);
            }
        },
        Instruction::RemS32 { dst, src1, src2 } => {
            let a = signed32(regs(src1));
            let b = signed32(regs(src2));
            if b == 0 {
                lemma_sext32_idempotent(wrap64(a));
            } else if a == -0x8000_0000 && b == -1 {
                lemma_sext32_small(0);
            } else {
                lemma_sext32_idempotent(wrap64(rem_trunc(a, b)));
            }
        },
        Instruction::Add32 { dst, src1, src2 } => lemma_sext32_idempotent(wrap64(regs(src1) + regs(src2))),
        Instruction::Sub32 { dst, src1, src2 } => lemma_sext32_idempotent(wrap64(regs(src1) - regs(src2))),
        Instruction::Mul32 { dst, src1, src2 } => lemma_sext32_idempotent(wrap64(regs(src1) * regs(src2))),
        Instruction::ShloL32 { dst, src1, src2 } => lemma_sext32_idempotent(regs(src1) << (regs(src2) % 32)),
        Instruction::ShloR32 { dst, src1, src2 } => lemma_sext32_idempotent(
            (regs(src1) & 0xFFFF_FFFF) >> (regs(src2) % 32),
        ),
        Instruction::SharR32 { dst, src1, src2 } => lemma_sext32_idempotent(
            wrap64(signed32(regs(src1)) / vstd::arithmetic::power2::pow2((regs(src2) % 32) as nat) as int),
        ),
        Instruction::AddImm32 { dst, src, value } => lemma_sext32_idempotent(wrap64(regs(src) + value)),
        Instruction::CountSetBits32 { dst, src } => {
            lemma_ones_bound(regs(src), 32);
            lemma_sext32_small(ones(regs(src), 32) as u64);
        },
        Instruction::LeadingZeroBits32 { dst, src } => {
            lemma_leading_zeros_bound(regs(src), 32);
            lemma_sext32_small(leading_zeros(regs(src), 32) as u64);
        },
        Instruction::TrailingZeroBits32 { dst, src } => {
            lemma_trailing_zeros_bound(regs(src), 32);
            lemma_sext32_small(trailing_zeros(regs(src), 32) as u64);
        },
        Instruction::SignExtend8 { dst, src } => {
            let v = regs(src);
            assert(sext32(sext8(v)) == sext8(v)) by (bit_vector);
        },
        Instruction::SignExtend16 { dst, src } => {
            let v = regs(src);
            assert(sext32(sext16(v)) == sext16(v)) by (bit_vector);
        },
        _ => {},
    }
}

/// Returns true if the instruction is a 32-bit producer that sign-extends its result.
fn is_32bit_sign_extending_producer(instr: &Instruction) -> (r: bool)
    ensures
        r == sign_extends_32(*instr),
{
    match instr {
        Instruction::Add32 { .. }
        | Instruction::Sub32 { .. }
        | Instruction::Mul32 { .. }
        | Instruction::DivU32 { .. }
        | Instruction::DivS32 { .. }
        | Instruction::RemU32 { .. }
        | Instruction::RemS32 { .. }
        | Instruction::ShloL32 { .. }
        | Instruction::ShloR32 { .. }
        | Instruction::SharR32 { .. }
        | Instruction::AddImm32 { .. }
        | Instruction::CountSetBits32 { .. }
        | Instruction::LeadingZeroBits32 { .. }
        | Instruction::TrailingZeroBits32 { .. }
        | Instruction::SignExtend8 { .. }
        | Instruction::SignExtend16 { .. } => true,
        _ => false,
    }
}

/// `next` truncates to 32 bits the register that `prev` just wrote with a
/// sign-extended 32-bit result: `AddImm32(d, d, 0)` after a producer into `d`.
pub open spec fn is_redundant_trunc(prev: Instruction, next: Instruction) -> bool {
    &&& sign_extends_32(prev)
    &&& prev.dest() matches Some(d)
    &&& next == Instruction::AddImm32 { dst: d, src: d, value: 0 }
}

/// Instruction `i` is a redundant truncation removed by the scan (the scan
/// skips an instruction already removed, so a truncation right after a
/// removed one stays).
pub open spec fn removed_trunc(instrs: Seq<Instruction>, i: int) -> bool
    decreases i,
{
    if i <= 0 || i >= instrs.len() {
        false
    } else {
        !removed_trunc(instrs, i - 1) && is_redundant_trunc(instrs[i - 1], instrs[i])
    }
}

/// Instruction `i` is a `Fallthrough` directly followed by another
/// `Fallthrough`, a `Jump` or a `Trap`.
pub open spec fn redundant_fallthrough(instrs: Seq<Instruction>, i: int) -> bool {
    &&& 0 <= i < instrs.len() - 1
    &&& instrs[i] is Fallthrough
    &&& (instrs[i + 1] is Fallthrough || instrs[i + 1] is Jump || instrs[i + 1] is Trap)
}

/// The flags of the pattern pass: drop redundant fallthroughs and truncations.
pub open spec fn pattern_keep(instrs: Seq<Instruction>) -> Seq<bool> {
    Seq::new(
        instrs.len(),
        |i: int| !(removed_trunc(instrs, i) || redundant_fallthrough(instrs, i)),
    )
}

/// Compacting a stream keeps its code within the byte length it had before.
proof fn lemma_filter_code_len(instrs: Seq<Instruction>, keep: Seq<bool>)
    requires
        keep.len() == instrs.len(),
    ensures
        code_bytes(filter_kept(instrs, keep)).len() <= code_bytes(instrs).len(),
{
    lemma_filter_offset_le(instrs, keep, instrs.len() as int);
    lemma_filter_len(instrs, keep);
    assert(instrs.take(instrs.len() as int) =~= instrs);
    let f = filter_kept(instrs, keep);
    assert(f.take(f.len() as int) =~= f);
}

/// The stream, fixups and labels after compacting with flags `keep`.
#[verifier::opaque]
pub open spec fn compact_all(
    instrs: Seq<Instruction>,
    keep: Seq<bool>,
    fixups: Seq<(usize, usize)>,
    calls: Seq<LlvmCallFixup>,
    indirect: Seq<LlvmIndirectCallFixup>,
    labels: Seq<Option<usize>>,
) -> (
    Seq<Instruction>,
    Seq<(usize, usize)>,
    Seq<LlvmCallFixup>,
    Seq<LlvmIndirectCallFixup>,
    Seq<Option<usize>>,
) {
    let n = instrs.len() as int;
    (
        compacted_instrs(instrs, keep),
        fixups.map_values(|f: (usize, usize)| compacted_fixup(n, keep, f)),
        calls.map_values(|f: LlvmCallFixup| compacted_call(n, keep, f)),
        indirect.map_values(|f: LlvmIndirectCallFixup| compacted_indirect(n, keep, f)),
        labels.map_values(|l: Option<usize>| compacted_label(instrs, keep, l)),
    )
}

/// A label after an in-place rewrite that may change instruction lengths: a
/// label at an instruction boundary of `before` moves to the byte offset of
/// the same boundary in `after`; other labels stay as they are.
pub open spec fn relocated_label(
    before: Seq<Instruction>,
    after: Seq<Instruction>,
    label: Option<usize>,
) -> Option<usize> {
    match label {
        Some(off) => {
            let idx = first_at(before, off as nat);
            if idx <= before.len() {
                Some(offset_of(after, idx) as usize)
            } else {
                label
            }
        },
        None => None,
    }
}

/// Every label relocated from `before` to `after`.
pub open spec fn relocated_labels(
    before: Seq<Instruction>,
    after: Seq<Instruction>,
    labels: Seq<Option<usize>>,
) -> Seq<Option<usize>> {
    labels.map_values(|l: Option<usize>| relocated_label(before, after, l))
}

/// The labels once address folding has rewritten the stream.
pub open spec fn folded_labels(instrs: Seq<Instruction>, labels: Seq<Option<usize>>) -> Seq<
    Option<usize>,
> {
    relocated_labels(instrs, addr_optimized(instrs, labels), labels)
}

/// The state after the first two peephole stages: address folding, then
/// dead code elimination.
pub open spec fn folded_and_dce(
    instrs: Seq<Instruction>,
    fixups: Seq<(usize, usize)>,
    calls: Seq<LlvmCallFixup>,
    indirect: Seq<LlvmIndirectCallFixup>,
    labels: Seq<Option<usize>>,
) -> (
    Seq<Instruction>,
    Seq<(usize, usize)>,
    Seq<LlvmCallFixup>,
    Seq<LlvmIndirectCallFixup>,
    Seq<Option<usize>>,
) {
    let a = addr_optimized(instrs, labels);
    let l = folded_labels(instrs, labels);
    compact_all(a, dce_keep(a, l), fixups, calls, indirect, l)
}

/// The full effect of `optimize`: address folding, dead code elimination,
/// then the fallthrough and truncation patterns.
pub open spec fn peephole_result(
    instrs: Seq<Instruction>,
    fixups: Seq<(usize, usize)>,
    calls: Seq<LlvmCallFixup>,
    indirect: Seq<LlvmIndirectCallFixup>,
    labels: Seq<Option<usize>>,
) -> (
    Seq<Instruction>,
    Seq<(usize, usize)>,
    Seq<LlvmCallFixup>,
    Seq<LlvmIndirectCallFixup>,
    Seq<Option<usize>>,
) {
    let m = folded_and_dce(instrs, fixups, calls, indirect, labels);
    compact_all(m.0, pattern_keep(m.0), m.1, m.2, m.3, m.4)
}

/// Whether some stage of `optimize` removes an instruction.
pub open spec fn peephole_removes(
    instrs: Seq<Instruction>,
    fixups: Seq<(usize, usize)>,
    calls: Seq<LlvmCallFixup>,
    indirect: Seq<LlvmIndirectCallFixup>,
    labels: Seq<Option<usize>>,
) -> bool {
    let a = addr_optimized(instrs, labels);
    let m = folded_and_dce(instrs, fixups, calls, indirect, labels);
    removes_any(dce_keep(a, folded_labels(instrs, labels)), instrs.len() as int) || removes_any(
        pattern_keep(m.0),
        m.0.len() as int,
    )
}

/// Compacting an empty stream changes nothing.
proof fn lemma_compact_nothing(
    instrs: Seq<Instruction>,
    keep: Seq<bool>,
    fixups: Seq<(usize, usize)>,
    calls: Seq<LlvmCallFixup>,
    indirect: Seq<LlvmIndirectCallFixup>,
    labels: Seq<Option<usize>>,
)
    requires
        instrs.len() == 0,
    ensures
        compact_all(instrs, keep, fixups, calls, indirect, labels) == (
            instrs,
            fixups,
            calls,
            indirect,
            labels,
        ),
{
    reveal(compact_all);
    assert(!removes_any(keep, 0));
    let c = compact_all(instrs, keep, fixups, calls, indirect, labels);
    assert(c.1 =~= fixups);
    assert(c.2 =~= calls);
    assert(c.3 =~= indirect);
    assert(c.4 =~= labels);
}

proof fn lemma_compaction_all(
    instrs: Seq<Instruction>,
    keep: Seq<bool>,
    fixups: Seq<(usize, usize)>,
    calls: Seq<LlvmCallFixup>,
    indirect: Seq<LlvmIndirectCallFixup>,
    labels: Seq<Option<usize>>,
    new_instrs: Seq<Instruction>,
    new_fixups: Seq<(usize, usize)>,
    new_calls: Seq<LlvmCallFixup>,
    new_indirect: Seq<LlvmIndirectCallFixup>,
    new_labels: Seq<Option<usize>>,
)
    requires
        compaction_result(
            instrs,
            keep,
            fixups,
            calls,
            indirect,
            labels,
            new_instrs,
            new_fixups,
            new_calls,
            new_indirect,
            new_labels,
        ),
    ensures
        (new_instrs, new_fixups, new_calls, new_indirect, new_labels) == compact_all(
            instrs,
            keep,
            fixups,
            calls,
            indirect,
            labels,
        ),
{
    reveal(compact_all);
    let c = compact_all(instrs, keep, fixups, calls, indirect, labels);
    assert(new_fixups =~= c.1);
    assert(new_calls =~= c.2);
    assert(new_indirect =~= c.3);
    assert(new_labels =~= c.4);
}

/// Compacting keeps every fixup in range of the shortened stream.
proof fn lemma_compaction_in_range(
    instrs: Seq<Instruction>,
    keep: Seq<bool>,
    fixups: Seq<(usize, usize)>,
    calls: Seq<LlvmCallFixup>,
    indirect: Seq<LlvmIndirectCallFixup>,
    labels: Seq<Option<usize>>,
)
    requires
        keep.len() == instrs.len(),
    ensures
        fixups_in_range(instrs.len() as int, fixups, calls, indirect) ==> ({
            let c = compact_all(instrs, keep, fixups, calls, indirect, labels);
            fixups_in_range(c.0.len() as int, c.1, c.2, c.3)
        }),
        code_bytes(compact_all(instrs, keep, fixups, calls, indirect, labels).0).len()
            <= code_bytes(instrs).len(),
{
    reveal(compact_all);
    let n = instrs.len() as int;
    let c = compact_all(instrs, keep, fixups, calls, indirect, labels);
    if removes_any(keep, n) {
        lemma_filter_code_len(instrs, keep);
    }
    if fixups_in_range(n, fixups, calls, indirect) {
        lemma_in_range_after(instrs, keep, fixups, calls, indirect, labels);
    }
}

proof fn lemma_in_range_after(
    instrs: Seq<Instruction>,
    keep: Seq<bool>,
    fixups: Seq<(usize, usize)>,
    calls: Seq<LlvmCallFixup>,
    indirect: Seq<LlvmIndirectCallFixup>,
    labels: Seq<Option<usize>>,
)
    requires
        keep.len() == instrs.len(),
        fixups_in_range(instrs.len() as int, fixups, calls, indirect),
    ensures
        ({
            let c = compact_all(instrs, keep, fixups, calls, indirect, labels);
            fixups_in_range(c.0.len() as int, c.1, c.2, c.3)
        }),
{
    reveal(compact_all);
    let n = instrs.len() as int;
    let c = compact_all(instrs, keep, fixups, calls, indirect, labels);
    lemma_filter_len(instrs, keep);
    assert forall|j: int| 0 <= j < fixups.len() implies c.1[j].0 <= c.0.len() by {
        lemma_kept_before_bounds(keep, fixups[j].0 as int, n);
    }
    assert forall|j: int| 0 <= j < calls.len() implies c.2[j].return_addr_instr <= c.0.len()
        && c.2[j].jump_instr <= c.0.len() by {
        lemma_kept_before_bounds(keep, calls[j].return_addr_instr as int, n);
        lemma_kept_before_bounds(keep, calls[j].jump_instr as int, n);
    }
    assert forall|j: int| 0 <= j < indirect.len() implies c.3[j].return_addr_instr <= c.0.len()
        && c.3[j].jump_ind_instr <= c.0.len() by {
        lemma_kept_before_bounds(keep, indirect[j].return_addr_instr as int, n);
        lemma_kept_before_bounds(keep, indirect[j].jump_ind_instr as int, n);
    }
}

/// Valid registers are in particular valid for address tracking.
proof fn lemma_regs_valid_addr(instr: Instruction)
    requires
        regs_valid(instr),
    ensures
        addr_regs_ok(instr),
{
    match instr {
        Instruction::LoadIndU8 { .. } => {},
        Instruction::LoadIndI8 { .. } => {},
        Instruction::LoadIndU16 { .. } => {},
        Instruction::LoadIndI16 { .. } => {},
        Instruction::LoadIndU32 { .. } => {},
        Instruction::LoadIndU64 { .. } => {},
        Instruction::StoreIndU8 { .. } => {},
        Instruction::StoreIndU16 { .. } => {},
        Instruction::StoreIndU32 { .. } => {},
        Instruction::StoreIndU64 { .. } => {},
        Instruction::JumpInd { .. } => {},
        Instruction::AddImm32 { .. } => {},
        Instruction::AddImm64 { .. } => {},
        Instruction::MoveReg { .. } => {},
        _ => {},
    }
}

#[verifier::spinoff_prover]
proof fn lemma_rewrite_regs_valid(instr: Instruction, state: Seq<Option<(u8, i32)>>)
    requires
        regs_valid(instr),
        tracking_ok(state),
    ensures
        regs_valid(rewrite_addr(instr, state)),
        addr_regs_ok(instr),
{
    match instr {
        Instruction::LoadIndU8 { base, .. } => {
            assert(state[base as int] matches Some((b, k)) ==> b < 13);
        },
        Instruction::LoadIndI8 { base, .. } => {
            assert(state[base as int] matches Some((b, k)) ==> b < 13);
        },
        Instruction::LoadIndU16 { base, .. } => {
            assert(state[base as int] matches Some((b, k)) ==> b < 13);
        },
        Instruction::LoadIndI16 { base, .. } => {
            assert(state[base as int] matches Some((b, k)) ==> b < 13);
        },
        Instruction::LoadIndU32 { base, .. } => {
            assert(state[base as int] matches Some((b, k)) ==> b < 13);
        },
        Instruction::LoadIndU64 { base, .. } => {
            assert(state[base as int] matches Some((b, k)) ==> b < 13);
        },
        Instruction::StoreIndU8 { base, .. } => {
            assert(state[base as int] matches Some((b, k)) ==> b < 13);
        },
        Instruction::StoreIndU16 { base, .. } => {
            assert(state[base as int] matches Some((b, k)) ==> b < 13);
        },
        Instruction::StoreIndU32 { base, .. } => {
            assert(state[base as int] matches Some((b, k)) ==> b < 13);
        },
        Instruction::StoreIndU64 { base, .. } => {
            assert(state[base as int] matches Some((b, k)) ==> b < 13);
        },
        Instruction::JumpInd { reg, .. } => {
            assert(state[reg as int] matches Some((b, k)) ==> b < 13);
        },
        Instruction::AddImm32 { src, .. } => {
            assert(state[src as int] matches Some((b, k)) ==> b < 13);
        },
        Instruction::AddImm64 { src, .. } => {
            assert(state[src as int] matches Some((b, k)) ==> b < 13);
        },
        _ => {},
    }
}

/// Run peephole optimizations on a function's instruction stream: address
/// folding, dead code elimination, then removal of redundant fallthroughs
/// (before another fallthrough, a jump or a trap) and of redundant 32-bit
/// truncations.
///
/// Must be called **before** fixups are resolved, since it removes
/// instructions and moves every fixup index and label byte offset along.
/// A label on an instruction boundary follows that boundary through every
/// stage, also where address folding changes an instruction's length.
#[verifier::spinoff_prover]
#[verifier::rlimit(50)]
pub fn optimize(
    instructions: &mut Vec<Instruction>,
    fixups: &mut [(usize, usize)],
    call_fixups: &mut [LlvmCallFixup],
    indirect_call_fixups: &mut [LlvmIndirectCallFixup],
    labels: &mut [Option<usize>],
)
    requires
        code_bytes(old(instructions)@).len() <= usize::MAX,
        code_bytes(addr_optimized(old(instructions)@, old(labels)@)).len() <= usize::MAX,
        forall|i: int| 0 <= i < old(instructions)@.len() ==> regs_valid(#[trigger] old(instructions)@[i]),
        peephole_removes(
            old(instructions)@,
            old(fixups)@,
            old(call_fixups)@,
            old(indirect_call_fixups)@,
            old(labels)@,
        ) ==> fixups_in_range(
            old(instructions)@.len() as int,
            old(fixups)@,
            old(call_fixups)@,
            old(indirect_call_fixups)@,
        ),
    ensures
        (
            final(instructions)@,
            final(fixups)@,
            final(call_fixups)@,
            final(indirect_call_fixups)@,
            final(labels)@,
        ) == peephole_result(
            old(instructions)@,
            old(fixups)@,
            old(call_fixups)@,
            old(indirect_call_fixups)@,
            old(labels)@,
        ),
{
    let ghost instrs = instructions@;
    let ghost f0 = fixups@;
    let ghost c0 = call_fixups@;
    let ghost d0 = indirect_call_fixups@;
    let ghost l0 = labels@;
    let ghost n = instrs.len() as int;
    let len = instructions.len();
    if len == 0 {
        proof {
            lemma_optimize_empty(instrs, f0, c0, d0, l0);
        }
        return;
    }

    // 1. Fold address calculations (in place; nothing is removed).
    proof {
        assert forall|i: int| 0 <= i < instrs.len() implies addr_regs_ok(#[trigger] instrs[i]) by {
            lemma_regs_valid_addr(instrs[i]);
        }
    }
    let before_offsets = boundary_offsets(instructions);
    optimize_address_calculation(instructions, labels);
    let ghost a = instructions@;
    proof {
        lemma_addr_regs_valid(instrs, l0);
    }
    // Folding may change instruction lengths: labels follow their boundary.
    relocate_labels(Ghost(instrs), &before_offsets, instructions, labels);
    let ghost l1 = labels@;
    assert(l1 == folded_labels(instrs, l0));

    // 2. Eliminate dead code.
    eliminate_dead_code(instructions, fixups, call_fixups, indirect_call_fixups, labels);
    let ghost m = folded_and_dce(instrs, f0, c0, d0, l0);
    proof {
        lemma_compaction_in_range(a, dce_keep(a, l1), f0, c0, d0, l1);
    }

    // 3. Redundant fallthroughs and truncations.
    let ghost s = instructions@;
    let keep = pattern_flags(instructions);

    compact_instructions(
        instructions,
        keep.as_slice(),
        fixups,
        call_fixups,
        indirect_call_fixups,
        labels,
    );
}


/// Flags of the pattern pass over `instructions`.
fn pattern_flags(instructions: &Vec<Instruction>) -> (keep: Vec<bool>)
    ensures
        keep@ == pattern_keep(instructions@),
{
    let ghost s = instructions@;
    let len = instructions.len();
    let mut keep: Vec<bool> = Vec::new();
    let mut k: usize = 0;
    while k < len
        invariant
            k <= len,
            keep@.len() == k,
            forall|j: int| 0 <= j < k ==> keep@[j],
        decreases len - k,
    {
        keep.push(true);
        k += 1;
    }
    let mut i: usize = 0;
    while i < len
        invariant
            instructions@ == s,
            len == s.len(),
            i <= len,
            keep@.len() == len,
            forall|j: int| 0 <= j < i ==> keep@[j] == pattern_keep(s)[j],
            i < len ==> keep@[i as int] == !removed_trunc(s, i as int),
            forall|j: int| i < j < len ==> keep@[j],
        decreases len - i,
    {
        if keep[i] {
            // Consecutive fallthroughs, or a fallthrough before a jump or trap.
            if i + 1 < len {
                if let Instruction::Fallthrough = &instructions[i] {
                    match &instructions[i + 1] {
                        Instruction::Fallthrough | Instruction::Jump { .. } | Instruction::Trap => {
                            keep.set(i, false);
                        },
                        _ => {},
                    }
                }
            }
            // A truncation of a register that a 32-bit producer just wrote.
            if i + 1 < len && is_32bit_sign_extending_producer(&instructions[i]) {
                if let Instruction::AddImm32 { dst, src, value } = &instructions[i + 1] {
                    if let Some(prod_dst) = instructions[i].dest_reg() {
                        if *value == 0 && *dst == prod_dst && *src == prod_dst {
                            keep.set(i + 1, false);
                        }
                    }
                }
            }
        }
        proof {
            assert(keep@[i as int] == pattern_keep(s)[i as int]);
            if i + 1 < len {
                assert(keep@[i + 1] == !removed_trunc(s, i + 1));
            }
        }
        i += 1;
    }
    proof {
        assert(keep@ =~= pattern_keep(s));
    }
    keep

}


proof fn lemma_optimize_empty(
    instrs: Seq<Instruction>,
    f0: Seq<(usize, usize)>,
    c0: Seq<LlvmCallFixup>,
    d0: Seq<LlvmIndirectCallFixup>,
    l0: Seq<Option<usize>>,
)
    requires
        instrs.len() == 0,
    ensures
        peephole_result(instrs, f0, c0, d0, l0) == (instrs, f0, c0, d0, l0),
{
    reveal(compact_all);
            let a = addr_optimized(instrs, l0);
            assert(a =~= instrs);
            assert forall|j: int| 0 <= j < l0.len() implies #[trigger] relocated_label(instrs, a, l0[j]) == l0[j] by {
                if let Some(off) = l0[j] {
                    lemma_scan(instrs, off as nat, 0);
                }
            }
            assert(folded_labels(instrs, l0) =~= l0);
            assert(!removes_any(dce_keep(a, l0), 0));
            assert(!removes_any(pattern_keep(a), 0));
            assert(f0.map_values(|f: (usize, usize)| compacted_fixup(0, dce_keep(a, l0), f)) =~= f0);
            assert(c0.map_values(|f: LlvmCallFixup| compacted_call(0, dce_keep(a, l0), f)) =~= c0);
            assert(d0.map_values(|f: LlvmIndirectCallFixup| compacted_indirect(0, dce_keep(a, l0), f)) =~= d0);
            assert(l0.map_values(|l: Option<usize>| compacted_label(a, dce_keep(a, l0), l)) =~= l0);
            let m = folded_and_dce(instrs, f0, c0, d0, l0);
            assert(m.1.map_values(|f: (usize, usize)| compacted_fixup(0, pattern_keep(m.0), f)) =~= m.1);
            assert(m.2.map_values(|f: LlvmCallFixup| compacted_call(0, pattern_keep(m.0), f)) =~= m.2);
            assert(m.3.map_values(|f: LlvmIndirectCallFixup| compacted_indirect(0, pattern_keep(m.0), f)) =~= m.3);
            assert(m.4.map_values(|l: Option<usize>| compacted_label(m.0, pattern_keep(m.0), l)) =~= m.4);
        }

proof fn lemma_addr_regs_valid(instrs: Seq<Instruction>, labels: Seq<Option<usize>>)
    requires
        forall|j: int| 0 <= j < instrs.len() ==> regs_valid(#[trigger] instrs[j]),
    ensures
        forall|j: int| 0 <= j < instrs.len() ==> regs_valid(#[trigger] addr_optimized(instrs, labels)[j]),
{
    assert forall|i: int| 0 <= i < instrs.len() implies regs_valid(#[trigger] addr_optimized(instrs, labels)[i]) by {
        lemma_state_ok(instrs, label_set(labels), i);
        lemma_rewrite_regs_valid(instrs[i], addr_state_at(instrs, label_set(labels), i));
    }
}

proof fn lemma_state_ok(instrs: Seq<Instruction>, labels: Set<usize>, i: int)
    requires
        forall|j: int| 0 <= j < instrs.len() ==> regs_valid(#[trigger] instrs[j]),
        i <= instrs.len(),
    ensures
        tracking_ok(addr_state_at(instrs, labels, i)),
        tracking_ok(addr_state_carried(instrs, labels, i)),
    decreases i,
{
    if i > 0 {
        lemma_state_ok(instrs, labels, i - 1);
        let s = addr_state_at(instrs, labels, i - 1);
        lemma_rewrite_regs_valid(instrs[i - 1], s);
        lemma_rewrite_ok(instrs[i - 1], s);
        lemma_step_ok(rewrite_addr(instrs[i - 1], s), s);
    }
}


// ── Laws ──

/// After compaction a jump fixup whose instruction is kept still names that
/// same instruction, and the compacted stream holds exactly the kept
/// instructions.
pub proof fn compaction_fixup_follows_instruction(
    instrs: Seq<Instruction>,
    keep: Seq<bool>,
    fixups: Seq<(usize, usize)>,
    calls: Seq<LlvmCallFixup>,
    indirect: Seq<LlvmIndirectCallFixup>,
    labels: Seq<Option<usize>>,
    j: int,
)
    requires
        keep.len() == instrs.len(),
        0 <= j < fixups.len(),
        fixups[j].0 < instrs.len(),
        keep[fixups[j].0 as int],
    ensures
        ({
            let c = compact_all(instrs, keep, fixups, calls, indirect, labels);
            &&& c.0.len() == kept_before(keep, instrs.len() as int)
            &&& c.1[j].0 < c.0.len()
            &&& c.0[c.1[j].0 as int] == instrs[fixups[j].0 as int]
            &&& c.1[j].1 == fixups[j].1
        }),
{
    reveal(compact_all);
    let i = fixups[j].0 as int;
    lemma_filter_len(instrs, keep);
    lemma_filter_index(instrs, keep, i);
    lemma_kept_before_bounds(keep, i, instrs.len() as int);
    lemma_kept_before_bounds(keep, 0, i);
    let c = compact_all(instrs, keep, fixups, calls, indirect, labels);
    if !removes_any(keep, instrs.len() as int) {
        lemma_all_kept(instrs, keep);
    } else {
        assert(c.1[j].0 == kept_before(keep, i) as usize);
        assert(kept_before(keep, i) as usize == kept_before(keep, i));
    }
}

/// Compaction drops exactly the unflagged instructions: the stream never
/// grows, and it keeps its length when every flag is set.
pub proof fn compaction_length(instrs: Seq<Instruction>, keep: Seq<bool>)
    requires
        keep.len() == instrs.len(),
    ensures
        compacted_instrs(instrs, keep).len() == kept_before(keep, instrs.len() as int),
        kept_before(keep, instrs.len() as int) <= instrs.len(),
        (forall|i: int| 0 <= i < keep.len() ==> keep[i]) ==> compacted_instrs(instrs, keep)
            == instrs,
{
    lemma_filter_len(instrs, keep);
    lemma_kept_before_bounds(keep, 0, instrs.len() as int);
    if forall|i: int| 0 <= i < keep.len() ==> keep[i] {
        lemma_all_true_kept(keep, instrs.len() as int);
    }
}

proof fn lemma_all_true_kept(keep: Seq<bool>, n: int)
    requires
        0 <= n <= keep.len(),
        forall|i: int| 0 <= i < keep.len() ==> keep[i],
    ensures
        kept_before(keep, n) == n,
    decreases n,
{
    if n > 0 {
        lemma_all_true_kept(keep, n - 1);
    }
}

/// Address folding rewrites in place: the stream keeps its length, and every
/// instruction keeps its opcode and destination register.
pub proof fn address_folding_keeps_shape(instrs: Seq<Instruction>, labels: Seq<Option<usize>>, i: int)
    requires
        0 <= i < instrs.len(),
    ensures
        addr_optimized(instrs, labels).len() == instrs.len(),
        addr_optimized(instrs, labels)[i].spec_opcode() == instrs[i].spec_opcode(),
        addr_optimized(instrs, labels)[i].dest() == instrs[i].dest(),
{
    lemma_rewrite_shape(instrs[i], addr_state_at(instrs, label_set(labels), i));
}

/// Dead code elimination never removes an instruction that ends a block, has
/// a side effect, or writes no register.
pub proof fn dce_keeps_effects(instrs: Seq<Instruction>, labels: Seq<Option<usize>>, i: int)
    requires
        0 <= i < instrs.len(),
        instrs[i].terminates() || has_side_effect(instrs[i]) || instrs[i].dest() is None,
    ensures
        dce_keep(instrs, labels)[i],
{
}

/// Dead store elimination never removes a store whose stack slot some load reads.
pub proof fn dse_keeps_read_slots(instrs: Seq<Instruction>, i: int, j: int)
    requires
        0 <= i < instrs.len(),
        0 <= j < instrs.len(),
        instrs[i] matches Instruction::StoreIndU64 { offset, .. } && is_sp_load_of(instrs[j], offset),
    ensures
        dse_keep(instrs)[i],
{
}

/// `optimize` never lengthens the instruction stream, and keeps the number
/// of fixups and labels.
pub proof fn optimize_never_grows(
    instrs: Seq<Instruction>,
    fixups: Seq<(usize, usize)>,
    calls: Seq<LlvmCallFixup>,
    indirect: Seq<LlvmIndirectCallFixup>,
    labels: Seq<Option<usize>>,
)
    ensures
        ({
            let r = peephole_result(instrs, fixups, calls, indirect, labels);
            &&& r.0.len() <= instrs.len()
            &&& r.1.len() == fixups.len()
            &&& r.2.len() == calls.len()
            &&& r.3.len() == indirect.len()
            &&& r.4.len() == labels.len()
        }),
{
    reveal(compact_all);
    let a = addr_optimized(instrs, labels);
    let k1 = dce_keep(a, folded_labels(instrs, labels));
    let m = folded_and_dce(instrs, fixups, calls, indirect, labels);
    lemma_filter_len(a, k1);
    lemma_kept_before_bounds(k1, 0, a.len() as int);
    lemma_filter_len(m.0, pattern_keep(m.0));
    lemma_kept_before_bounds(pattern_keep(m.0), 0, m.0.len() as int);
}

#[verifier::spinoff_prover]
proof fn lemma_rewrite_shape(instr: Instruction, state: Seq<Option<(u8, i32)>>)
    ensures
        rewrite_addr(instr, state).spec_opcode() == instr.spec_opcode(),
        rewrite_addr(instr, state).dest() == instr.dest(),
{
    match instr {
        Instruction::LoadIndU8 { .. } => {},
        Instruction::LoadIndI8 { .. } => {},
        Instruction::LoadIndU16 { .. } => {},
        Instruction::LoadIndI16 { .. } => {},
        Instruction::LoadIndU32 { .. } => {},
        Instruction::LoadIndU64 { .. } => {},
        Instruction::StoreIndU8 { .. } => {},
        Instruction::StoreIndU16 { .. } => {},
        Instruction::StoreIndU32 { .. } => {},
        Instruction::StoreIndU64 { .. } => {},
        Instruction::JumpInd { .. } => {},
        Instruction::AddImm32 { .. } => {},
        Instruction::AddImm64 { .. } => {},
        _ => {},
    }
}

} // verus!
