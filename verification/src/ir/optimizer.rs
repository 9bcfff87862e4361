//! Peephole optimizations on the IR.
use super::instruction::IrInstruction;
use vstd::prelude::*;

verus! {

/// `a` stores local `x` and `b` reads the same local back.
pub open spec fn is_set_get_pair(a: IrInstruction, b: IrInstruction) -> bool {
    a matches IrInstruction::LocalSet(x) && b matches IrInstruction::LocalGet(y) && x == y
}

/// The IR with every `local.set $x; local.get $x` pair, taken from left to
/// right, replaced by `local.tee $x`.
pub open spec fn fuse_tee(ir: Seq<IrInstruction>) -> Seq<IrInstruction>
    decreases ir.len(),
{
    if ir.len() < 2 {
        ir
    } else if is_set_get_pair(ir[0], ir[1]) {
        seq![IrInstruction::LocalTee(ir[0]->LocalSet_0)] + fuse_tee(ir.skip(2))
    } else {
        seq![ir[0]] + fuse_tee(ir.skip(1))
    }
}

/// Perform peephole optimizations on the IR.
///
/// Replaces `local.set $x; local.get $x` with `local.tee $x`, which keeps the
/// value on the stack instead of popping and pushing it again.
pub fn optimize(ir: &mut Vec<IrInstruction>)
    ensures
        final(ir)@ == fuse_tee(old(ir)@),
{
    let ghost orig = ir@;
    let mut i: usize = 0;
    proof {
        assert(ir@.skip(0) =~= ir@);
        assert(ir@.take(0) + fuse_tee(ir@) =~= fuse_tee(ir@));
    }
    while i < ir.len().saturating_sub(1)
        invariant
            i <= ir@.len(),
            fuse_tee(orig) == ir@.take(i as int) + fuse_tee(ir@.skip(i as int)),
        decreases ir@.len() - i,
    {
        let ghost before = ir@;
        let fused = match (&ir[i], &ir[i + 1]) {
            (IrInstruction::LocalSet(set_idx), IrInstruction::LocalGet(get_idx)) => if *set_idx
                == *get_idx {
                Some(*set_idx)
            } else {
                None
            },
            _ => None,
        };
        match fused {
            Some(x) => {
                // Replace `local.set $x; local.get $x` with `local.tee $x`,
                // then look at the new instruction again.
                ir.set(i, IrInstruction::LocalTee(x));
                ir.remove(i + 1);
                proof {
                    assert(is_set_get_pair(before[i as int], before[i + 1]));
                    assert(before.skip(i as int).skip(2) =~= before.skip(i + 2));
                    assert(ir@.take(i as int) =~= before.take(i as int));
                    assert(ir@.skip(i as int) =~= seq![IrInstruction::LocalTee(x)] + before.skip(
                        i + 2,
                    ));
                    let t = ir@.skip(i as int);
                    if t.len() >= 2 {
                        assert(!is_set_get_pair(t[0], t[1]));
                        assert(t.skip(1) =~= before.skip(i + 2));
                    } else {
                        assert(before.skip(i + 2).len() == 0);
                        assert(fuse_tee(before.skip(i + 2)) =~= before.skip(i + 2));
                    }
                }
            },
            None => {
                proof {
                    assert(!is_set_get_pair(before[i as int], before[i + 1]));
                    let t = before.skip(i as int);
                    assert(t.skip(1) =~= before.skip(i + 1));
                    assert(before.take(i + 1) =~= before.take(i as int) + seq![before[i as int]]);
                }
                i += 1;
            },
        }
    }
    proof {
        let t = ir@.skip(i as int);
        assert(t.len() < 2);
        assert(ir@.take(i as int) + t =~= ir@);
    }
}

// ── Laws ──

/// No `local.set $x; local.get $x` pair survives the optimization.
pub proof fn fuse_tee_leaves_no_pair(ir: Seq<IrInstruction>, k: int)
    requires
        0 <= k < fuse_tee(ir).len() - 1,
    ensures
        !is_set_get_pair(fuse_tee(ir)[k], fuse_tee(ir)[k + 1]),
    decreases ir.len(),
{
    if ir.len() >= 2 {
        let r = fuse_tee(ir);
        if is_set_get_pair(ir[0], ir[1]) {
            if k >= 1 {
                fuse_tee_leaves_no_pair(ir.skip(2), k - 1);
            }
        } else {
            if k >= 1 {
                fuse_tee_leaves_no_pair(ir.skip(1), k - 1);
            } else {
                lemma_fuse_first(ir.skip(1));
            }
        }
    }
}

/// The first instruction after fusing is the first instruction, or the tee
/// that replaced it.
proof fn lemma_fuse_first(ir: Seq<IrInstruction>)
    requires
        ir.len() >= 1,
    ensures
        fuse_tee(ir).len() >= 1,
        fuse_tee(ir)[0] == ir[0] || (is_set_get_pair(ir[0], ir[1]) && fuse_tee(ir)[0]
            == IrInstruction::LocalTee(ir[0]->LocalSet_0)),
{
}

/// Fusing never lengthens the IR, and running it twice changes nothing more.
pub proof fn fuse_tee_idempotent(ir: Seq<IrInstruction>)
    ensures
        fuse_tee(ir).len() <= ir.len(),
        fuse_tee(fuse_tee(ir)) == fuse_tee(ir),
{
    lemma_fuse_tee_len(ir);
    let r = fuse_tee(ir);
    assert forall|k: int| 0 <= k < r.len() - 1 implies !is_set_get_pair(#[trigger] r[k], r[k + 1]) by {
        fuse_tee_leaves_no_pair(ir, k);
    }
    lemma_fuse_tee_no_pair_fixed(r);
}

proof fn lemma_fuse_tee_len(ir: Seq<IrInstruction>)
    ensures
        fuse_tee(ir).len() <= ir.len(),
    decreases ir.len(),
{
    if ir.len() >= 2 {
        lemma_fuse_tee_len(ir.skip(1));
        lemma_fuse_tee_len(ir.skip(2));
    }
}

/// IR without any set/get pair is left as it is.
proof fn lemma_fuse_tee_no_pair_fixed(ir: Seq<IrInstruction>)
    requires
        forall|k: int| 0 <= k < ir.len() - 1 ==> !is_set_get_pair(#[trigger] ir[k], ir[k + 1]),
    ensures
        fuse_tee(ir) == ir,
    decreases ir.len(),
{
    if ir.len() >= 2 {
        let t = ir.skip(1);
        assert forall|k: int| 0 <= k < t.len() - 1 implies !is_set_get_pair(#[trigger] t[k], t[k + 1]) by {
            assert(t[k] == ir[k + 1]);
        }
        lemma_fuse_tee_no_pair_fixed(t);
        assert(!is_set_get_pair(ir[0], ir[1]));
        assert(seq![ir[0]] + t =~= ir);
    }
}

/// For each instruction of `fuse_tee(ir)`, whether it is a `local.tee` that
/// fusing created (rather than one that `ir` already held).
pub open spec fn created_tees(ir: Seq<IrInstruction>) -> Seq<bool>
    decreases ir.len(),
{
    if ir.len() < 2 {
        Seq::new(ir.len(), |i: int| false)
    } else if is_set_get_pair(ir[0], ir[1]) {
        seq![true] + created_tees(ir.skip(2))
    } else {
        seq![false] + created_tees(ir.skip(1))
    }
}

/// `r` with each marked `local.tee $x` expanded back into
/// `local.set $x; local.get $x`.
pub open spec fn expand_tees(r: Seq<IrInstruction>, marks: Seq<bool>) -> Seq<IrInstruction>
    decreases r.len(),
{
    if r.len() == 0 {
        Seq::empty()
    } else if marks[0] && r[0] is LocalTee {
        seq![IrInstruction::LocalSet(r[0]->LocalTee_0), IrInstruction::LocalGet(r[0]->LocalTee_0)]
            + expand_tees(r.skip(1), marks.skip(1))
    } else {
        seq![r[0]] + expand_tees(r.skip(1), marks.skip(1))
    }
}

/// The number of set flags.
pub open spec fn count_set(marks: Seq<bool>) -> nat
    decreases marks.len(),
{
    if marks.len() == 0 {
        0
    } else {
        (if marks[0] {
            1nat
        } else {
            0nat
        }) + count_set(marks.skip(1))
    }
}

/// Fusing only replaces pairs by tees: expanding the tees it created gives
/// the input back, and the IR shrinks by exactly one instruction per tee created.
pub proof fn fuse_tee_expands_back(ir: Seq<IrInstruction>)
    ensures
        created_tees(ir).len() == fuse_tee(ir).len(),
        forall|k: int| 0 <= k < fuse_tee(ir).len() && #[trigger] created_tees(ir)[k] ==> fuse_tee(ir)[k] is LocalTee,
        expand_tees(fuse_tee(ir), created_tees(ir)) == ir,
        ir.len() == fuse_tee(ir).len() + count_set(created_tees(ir)),
    decreases ir.len(),
{
    let r = fuse_tee(ir);
    let m = created_tees(ir);
    if ir.len() < 2 {
        if ir.len() == 1 {
            assert(r.skip(1) =~= Seq::<IrInstruction>::empty());
            assert(m.skip(1) =~= Seq::<bool>::empty());
            assert(!m[0]);
            assert(expand_tees(r.skip(1), m.skip(1)) =~= Seq::<IrInstruction>::empty());
            assert(count_set(m.skip(1)) == 0);
            assert(expand_tees(r, m) =~= ir);
        } else {
            assert(expand_tees(r, m) =~= ir);
        }
    } else if is_set_get_pair(ir[0], ir[1]) {
        let rest = ir.skip(2);
        fuse_tee_expands_back(rest);
        assert(r.skip(1) =~= fuse_tee(rest));
        assert(m.skip(1) =~= created_tees(rest));
        assert(ir =~= seq![ir[0], ir[1]] + rest);
        assert(expand_tees(r, m) =~= ir);
    } else {
        let rest = ir.skip(1);
        fuse_tee_expands_back(rest);
        assert(r.skip(1) =~= fuse_tee(rest));
        assert(m.skip(1) =~= created_tees(rest));
        assert(ir =~= seq![ir[0]] + rest);
        assert(expand_tees(r, m) =~= ir);
    }
}

} // verus!
