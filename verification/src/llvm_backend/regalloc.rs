//! Linear-scan register allocation over live intervals, its results, and the
//! call-spanning count used to weigh intervals.
use super::emitter::ValKey;
use crate::abi::{ARGS_LEN_REG, FIRST_LOCAL_REG, MAX_LOCAL_REGS, RETURN_VALUE_REG, SCRATCH1, SCRATCH2};
use std::collections::{BTreeSet, HashMap};
use vstd::prelude::*;
use vstd::std_specs::btree::spec_btree_keys_iter;
use vstd::std_specs::iter::IteratorSpec;

verus! {

broadcast use {vstd::std_specs::btree::group_btree_axioms, vstd::std_specs::hash::group_hash_axioms};

/// Result of register allocation for one function.
#[derive(Debug, Clone)]
pub struct RegAllocResult {
    /// For each value (by the number of its key), the allocated physical
    /// register.
    pub val_to_reg: HashMap<usize, u8>,
    /// For each stack slot offset, the allocated physical register.
    pub slot_to_reg: HashMap<i32, u8>,
    /// Reverse: physical register → stack slot offset (for spill/reload).
    pub reg_to_slot: HashMap<u8, i32>,
    /// Instrumentation stats for this function's allocation run.
    pub stats: RegAllocStats,
}

/// Instrumentation counters for register allocation.
#[derive(Debug, Clone)]
pub struct RegAllocStats {
    /// Count of stack-slotted values seen by the allocator.
    pub total_values: usize,
    /// Number of candidate live intervals after filtering.
    pub total_intervals: usize,
    /// Whether a back-edge loop was detected.
    pub has_loops: bool,
    /// Number of physical registers made available to linear scan.
    pub allocatable_regs: usize,
    /// Maximum number of direct call arguments used by the function.
    pub max_call_args: usize,
    /// Number of values that received a final register assignment.
    pub allocated_values: usize,
    /// Why allocation was skipped, if it was.
    pub skipped_reason: Option<&'static str>,
}

impl Default for RegAllocStats {
    fn default() -> (r: Self)
        ensures
            r.total_values == 0,
            r.total_intervals == 0,
            !r.has_loops,
            r.allocatable_regs == 0,
            r.max_call_args == 0,
            r.allocated_values == 0,
            r.skipped_reason is None,
    {
        RegAllocStats {
            total_values: 0,
            total_intervals: 0,
            has_loops: false,
            allocatable_regs: 0,
            max_call_args: 0,
            allocated_values: 0,
            skipped_reason: None,
        }
    }
}

impl Default for RegAllocResult {
    /// No value allocated to any register.
    fn default() -> (r: Self)
        ensures
            r.val_to_reg@ == Map::<usize, u8>::empty(),
            r.slot_to_reg@ == Map::<i32, u8>::empty(),
            r.reg_to_slot@ == Map::<u8, i32>::empty(),
            r.stats.total_values == 0,
            r.stats.total_intervals == 0,
            !r.stats.has_loops,
            r.stats.allocatable_regs == 0,
            r.stats.max_call_args == 0,
            r.stats.allocated_values == 0,
            r.stats.skipped_reason is None,
    {
        RegAllocResult {
            val_to_reg: HashMap::new(),
            slot_to_reg: HashMap::new(),
            reg_to_slot: HashMap::new(),
            stats: RegAllocStats::default(),
        }
    }
}

/// A live interval for an SSA value.
///
/// The spill weight is an integer by which intervals are ordered: higher
/// weight → more expensive to spill (the value is used frequently in hot code).
#[derive(Debug, Clone, Copy)]
pub struct LiveInterval {
    pub val_key: ValKey,
    pub slot: i32,
    /// Start position (linearized instruction index).
    pub start: usize,
    /// End position (last use, inclusive).
    pub end: usize,
    /// Expiration point used for linear scan active set expiration.
    /// For loop phi destinations, this is the actual last use before loop
    /// extension (so the register becomes available earlier when the value
    /// is no longer truly live). For all other values, equals `end`.
    pub expiration: usize,
    /// Spill weight: loop-depth-weighted uses, less a penalty per spanned call.
    pub spill_weight: i64,
    /// Preferred register hint. If set, the allocator tries to assign this
    /// register first (e.g., r7 for call return values to avoid `MoveReg`).
    pub preferred_reg: Option<u8>,
    /// Whether this interval's live range contains at least one real call.
    pub spans_calls: bool,
}

/// `a` is processed before `b`: it starts earlier, or at the same point with
/// a higher spill weight.
pub open spec fn goes_before(a: LiveInterval, b: LiveInterval) -> bool {
    a.start < b.start || (a.start == b.start && a.spill_weight > b.spill_weight)
}

/// The intervals are in processing order: by start point, then by spill
/// weight, highest first.
pub open spec fn in_scan_order(s: Seq<LiveInterval>) -> bool {
    forall|i: int, j: int| 0 <= i < j < s.len() ==> !goes_before(#[trigger] s[j], #[trigger] s[i])
}

/// `perm` lists, for each entry of `sorted`, the distinct position in
/// `orig` it comes from, so `sorted` holds the entries of `orig` reordered.
pub open spec fn reorders(sorted: Seq<LiveInterval>, orig: Seq<LiveInterval>, perm: Seq<int>) -> bool {
    &&& sorted.len() == orig.len()
    &&& perm.len() == sorted.len()
    &&& forall|k: int| 0 <= k < perm.len() ==> 0 <= #[trigger] perm[k] < orig.len() && sorted[k] == orig[perm[k]]
    &&& forall|k1: int, k2: int| 0 <= k1 < k2 < perm.len() ==> #[trigger] perm[k1] != #[trigger] perm[k2]
    &&& forall|a: int| 0 <= a < orig.len() ==> #[trigger] taken(perm, a)
}

/// Some entry of `perm` is `a`.
pub open spec fn taken(perm: Seq<int>, a: int) -> bool {
    exists|k: int| 0 <= k < perm.len() && #[trigger] perm[k] == a
}

fn goes_before_exec(a: &LiveInterval, b: &LiveInterval) -> (r: bool)
    ensures
        r == goes_before(*a, *b),
{
    a.start < b.start || (a.start == b.start && a.spill_weight > b.spill_weight)
}

/// Where `x` goes among the first `j` entries of `sorted`: after every entry
/// it does not go before.
pub open spec fn sorted_insert_pos(sorted: Seq<LiveInterval>, x: LiveInterval, j: int) -> int
    decreases j,
{
    if j > 0 && goes_before(x, sorted[j - 1]) {
        sorted_insert_pos(sorted, x, j - 1)
    } else {
        j
    }
}

/// The intervals in scan order: sorted by start point, then by spill weight
/// (highest first), intervals that tie keeping their order.
pub open spec fn scan_sorted(s: Seq<LiveInterval>) -> Seq<LiveInterval>
    decreases s.len(),
{
    if s.len() == 0 {
        Seq::empty()
    } else {
        let r = scan_sorted(s.drop_last());
        r.insert(sorted_insert_pos(r, s.last(), r.len() as int), s.last())
    }
}

/// Sort by start point (ascending), then by spill weight descending (prefer
/// allocating high-weight values when two intervals start at the same
/// point); intervals that tie keep their order.
fn sort_for_scan(v: &Vec<LiveInterval>) -> (r: (Vec<LiveInterval>, Ghost<Seq<int>>))
    ensures
        in_scan_order(r.0@),
        reorders(r.0@, v@, r.1@),
        r.0@ == scan_sorted(v@),
{
    let mut sorted: Vec<LiveInterval> = Vec::new();
    let ghost mut perm: Seq<int> = Seq::empty();
    let mut i: usize = 0;
    while i < v.len()
        invariant
            i <= v@.len(),
            sorted@.len() == i,
            perm.len() == i,
            forall|k: int| 0 <= k < i ==> 0 <= #[trigger] perm[k] < i && sorted@[k] == v@[perm[k]],
            forall|k1: int, k2: int| 0 <= k1 < k2 < i ==> #[trigger] perm[k1] != #[trigger] perm[k2],
            forall|a: int| 0 <= a < i ==> #[trigger] taken(perm, a),
            in_scan_order(sorted@),
            sorted@ == scan_sorted(v@.take(i as int)),
        decreases v@.len() - i,
    {
        let x = v[i];
        let mut j: usize = sorted.len();
        proof {
            assert(v@.take(i + 1).drop_last() =~= v@.take(i as int));
            assert(v@.take(i + 1).last() == x);
        }
        while j > 0 && goes_before_exec(&x, &sorted[j - 1])
            invariant
                j <= sorted@.len(),
                forall|k: int| j <= k < sorted@.len() ==> goes_before(x, #[trigger] sorted@[k]),
                sorted_insert_pos(sorted@, x, sorted@.len() as int) == sorted_insert_pos(sorted@, x, j as int),
            decreases j,
        {
            j -= 1;
        }
        let ghost old_sorted = sorted@;
        let ghost old_perm = perm;
        sorted.insert(j, x);
        proof {
            assert(sorted@ == scan_sorted(v@.take(i + 1)));
            perm = perm.insert(j as int, i as int);
            old_sorted.insert_ensures(j as int, x);
            old_perm.insert_ensures(j as int, i as int);
            assert forall|k: int| 0 <= k <= i implies 0 <= #[trigger] perm[k] < i + 1 && sorted@[k]
                == v@[perm[k]] by {
                if k > j {
                    assert(perm[k] == old_perm[k - 1]);
                    assert(sorted@[k] == old_sorted[k - 1]);
                }
            }
            assert forall|a: int| 0 <= a < i + 1 implies #[trigger] taken(perm, a) by {
                if a == i {
                    assert(perm[j as int] == a);
                } else {
                    assert(taken(old_perm, a));
                    let k = choose|k: int| 0 <= k < i && #[trigger] old_perm[k] == a;
                    if k < j {
                        assert(perm[k] == a);
                    } else {
                        assert(perm[k + 1] == old_perm[k]);
                    }
                }
            }
            assert forall|k1: int, k2: int| 0 <= k1 < k2 <= i implies #[trigger] perm[k1]
                != #[trigger] perm[k2] by {
                if k1 < j && k2 > j {
                    assert(perm[k2] == old_perm[k2 - 1]);
                } else if k1 > j {
                    assert(perm[k1] == old_perm[k1 - 1]);
                    assert(perm[k2] == old_perm[k2 - 1]);
                }
            }
            assert forall|a: int, b: int| 0 <= a < b < sorted@.len() implies !goes_before(
                #[trigger] sorted@[b],
                #[trigger] sorted@[a],
            ) by {
                let a0 = if a < j { a } else if a == j { -1 } else { a - 1 };
                let b0 = if b < j { b } else if b == j { -1 } else { b - 1 };
                if a0 >= 0 && b0 >= 0 {
                    assert(sorted@[a] == old_sorted[a0] && sorted@[b] == old_sorted[b0]);
                    assert(!goes_before(old_sorted[b0], old_sorted[a0]));
                } else if a == j {
                    assert(sorted@[b] == old_sorted[b - 1]);
                    assert(goes_before(x, old_sorted[b - 1]));
                } else {
                    // b == j, a < j: x goes no earlier than the entry before it.
                    assert(j > 0);
                    assert(!goes_before(x, old_sorted[j - 1]));
                    assert(sorted@[a] == old_sorted[a]);
                    if a < j - 1 {
                        assert(!goes_before(old_sorted[j - 1], old_sorted[a]));
                    }
                }
            }
        }
        i += 1;
    }
    assert(v@.take(v@.len() as int) =~= v@);
    (sorted, Ghost(perm))
}

/// Pairs of `usize` are ordered lexicographically, as integers.
pub open spec fn pair_keys_ordered() -> bool {
    vstd::laws_cmp::obeys_cmp::<(usize, usize)>()
}

proof fn lemma_pair_keys_ordered()
    ensures
        pair_keys_ordered(),
{
    broadcast use vstd::laws_cmp::group_laws_cmp;

}

/// `a` comes before `b` in the lexicographic order of pairs.
pub open spec fn pair_before(a: (usize, usize), b: (usize, usize)) -> bool {
    a.0 < b.0 || (a.0 == b.0 && a.1 < b.1)
}

/// A set's iteration sequence of pairs ascends lexicographically.
proof fn lemma_pairs_ascend(elems: Seq<&(usize, usize)>)
    requires
        pair_keys_ordered(),
        vstd::std_specs::btree::increasing_seq(elems),
    ensures
        forall|i: int, j: int|
            0 <= i < j < elems.len() ==> pair_before(#[trigger] elems.unref()[i], #[trigger] elems.unref()[j]),
{
    broadcast use vstd::laws_cmp::group_laws_cmp;

    assert forall|i: int, j: int| 0 <= i < j < elems.len() implies pair_before(
        #[trigger] elems.unref()[i],
        #[trigger] elems.unref()[j],
    ) by {
        assert(vstd::std_specs::cmp::OrdSpec::cmp_spec(&elems[i], &elems[j]) is Less);
    }
}

/// The active entries `(expiration, index)` that expire before `start`,
/// taken in the set's order up to the first one that does not. As the set is
/// ordered by expiration first, these are all the active entries that expire
/// before `start`, in ascending order.
fn collect_expired(active: &BTreeSet<(usize, usize)>, start: usize) -> (r: Vec<(usize, usize)>)
    requires
        pair_keys_ordered(),
    ensures
        forall|x: (usize, usize)| #[trigger] r@.contains(x) <==> active@.contains(x) && x.0 < start,
        forall|i: int, j: int| 0 <= i < j < r@.len() ==> pair_before(#[trigger] r@[i], #[trigger] r@[j]),
{
    let ghost elems = spec_btree_keys_iter(active).remaining();
    proof {
        assert(elems.unref().to_set() == active@);
        lemma_pairs_ascend(elems);
    }
    let mut out: Vec<(usize, usize)> = Vec::new();
    let mut stop = false;
    let ghost mut b: int = 0;
    for x in it: active.iter()
        invariant
            it.seq() == elems,
            elems.unref().to_set() == active@,
            forall|i: int, j: int|
                0 <= i < j < elems.len() ==> pair_before(#[trigger] elems.unref()[i], #[trigger] elems.unref()[j]),
            0 <= b <= it.index(),
            out@ == elems.unref().take(b),
            forall|k: int| 0 <= k < b ==> #[trigger] elems.unref()[k].0 < start,
            !stop ==> b == it.index(),
            stop ==> b < elems.len() && elems.unref()[b].0 >= start,
    {
        proof {
            assert(elems.unref()[it.index() as int] == *x);
        }
        if !stop {
            if x.0 >= start {
                stop = true;
            } else {
                out.push(*x);
                proof {
                    b = b + 1;
                    assert(out@ =~= elems.unref().take(b));
                }
            }
        }
    }
    proof {
        let u = elems.unref();
        assert(out@ == u.take(b));
        assert(!stop ==> b == u.len());
        assert forall|x: (usize, usize)| #[trigger] out@.contains(x) <==> active@.contains(x) && x.0 < start by {
            if out@.contains(x) {
                let k = choose|k: int| 0 <= k < out@.len() && out@[k] == x;
                assert(u[k] == x);
                assert(u.contains(x));
                assert(u.to_set().contains(x));
            }
            if active@.contains(x) && x.0 < start {
                assert(u.to_set().contains(x));
                let k = choose|k: int| 0 <= k < u.len() && u[k] == x;
                if k >= b {
                    assert(stop);
                    if k > b {
                        assert(pair_before(u[b], u[k]));
                    }
                }
                assert(out@[k] == x);
            }
        }
        assert forall|i: int, j: int| 0 <= i < j < out@.len() implies pair_before(
            #[trigger] out@[i],
            #[trigger] out@[j],
        ) by {
            assert(out@[i] == u[i] && out@[j] == u[j]);
        }
    }
    out
}

/// The active entry `(expiration, index)` whose interval has the lowest
/// spill weight (the first such entry in the set's order), with that weight.
fn lowest_weight_active(active: &BTreeSet<(usize, usize)>, intervals: &Vec<LiveInterval>) -> (r:
    Option<(usize, usize, i64)>)
    requires
        pair_keys_ordered(),
        forall|x: (usize, usize)| #[trigger] active@.contains(x) ==> x.1 < intervals@.len(),
    ensures
        r is None ==> active@ == Set::<(usize, usize)>::empty(),
        r matches Some(c) ==> {
            &&& active@.contains((c.1, c.0))
            &&& c.2 == intervals@[c.0 as int].spill_weight
            &&& forall|x: (usize, usize)|
                #[trigger] active@.contains(x) ==> c.2 <= intervals@[x.1 as int].spill_weight
            &&& forall|x: (usize, usize)|
                #[trigger] active@.contains(x) && pair_before(x, (c.1, c.0)) ==> c.2
                    < intervals@[x.1 as int].spill_weight
        },
{
    let ghost elems = spec_btree_keys_iter(active).remaining();
    proof {
        assert(elems.unref().to_set() == active@);
        lemma_pairs_ascend(elems);
    }
    let mut best: Option<(usize, usize, i64)> = None;
    let ghost mut bi: int = 0;
    for x in it: active.iter()
        invariant
            it.seq() == elems,
            elems.unref().to_set() == active@,
            forall|i: int, j: int|
                0 <= i < j < elems.len() ==> pair_before(#[trigger] elems.unref()[i], #[trigger] elems.unref()[j]),
            forall|x: (usize, usize)| #[trigger] active@.contains(x) ==> x.1 < intervals@.len(),
            best is None <==> it.index() == 0,
            best matches Some(c) ==> {
                &&& active@.contains((c.1, c.0))
                &&& c.2 == intervals@[c.0 as int].spill_weight
                &&& forall|k: int|
                    0 <= k < it.index() ==> c.2 <= intervals@[elems.unref()[k].1 as int].spill_weight
                &&& 0 <= bi < it.index()
                &&& elems.unref()[bi] == (c.1, c.0)
                &&& forall|k: int| 0 <= k < bi ==> c.2 < intervals@[elems.unref()[k].1 as int].spill_weight
            },
    {
        proof {
            assert(elems.unref()[it.index() as int] == *x);
            assert(elems.unref().contains(*x));
            assert(elems.unref().to_set().contains(*x));
            assert(active@.contains(*x));
        }
        let (exp, idx) = *x;
        let w = intervals[idx].spill_weight;
        let replace = match best {
            None => true,
            Some(c) => w < c.2,
        };
        if replace {
            best = Some((idx, exp, w));
            proof {
                bi = it.index() as int;
            }
        }
    }
    proof {
        if best is None {
            assert(elems.len() == 0);
            assert(active@ =~= Set::<(usize, usize)>::empty()) by {
                assert forall|x: (usize, usize)| !active@.contains(x) by {
                    if active@.contains(x) {
                        assert(elems.unref().contains(x));
                    }
                }
            }
        }
        if let Some(c) = best {
            assert forall|x: (usize, usize)| #[trigger] active@.contains(x) implies c.2
                <= intervals@[x.1 as int].spill_weight by {
                assert(elems.unref().to_set().contains(x));
                let k = choose|k: int| 0 <= k < elems.unref().len() && elems.unref()[k] == x;
            }
            assert forall|x: (usize, usize)| #[trigger] active@.contains(x) && pair_before(x, (c.1, c.0))
                implies c.2 < intervals@[x.1 as int].spill_weight by {
                assert(elems.unref().to_set().contains(x));
                let k = choose|k: int| 0 <= k < elems.unref().len() && elems.unref()[k] == x;
                if k > bi {
                    assert(pair_before(elems.unref()[bi], elems.unref()[k]));
                }
            }
        }
    }
    best
}

/// A callee-saved register (r9-r12), which survives calls.
pub open spec fn is_callee_saved(r: u8) -> bool {
    FIRST_LOCAL_REG <= r < FIRST_LOCAL_REG + MAX_LOCAL_REGS
}

/// A caller-saved register that the allocator may hand out (r5-r8).
pub open spec fn is_caller_saved(r: u8) -> bool {
    r == SCRATCH1 || r == SCRATCH2 || r == RETURN_VALUE_REG || r == ARGS_LEN_REG
}

/// The register class an interval prefers: callee-saved when it spans calls
/// in a function that makes calls, caller-saved when it does not; none in a
/// leaf function.
pub open spec fn in_preferred_class(r: u8, spans_calls: bool, is_leaf: bool) -> bool {
    !is_leaf && (if spans_calls {
        is_callee_saved(r)
    } else {
        is_caller_saved(r)
    })
}

/// `r` is `target` (`exact`), or else in the interval's preferred class.
pub open spec fn reg_matches(r: u8, exact: bool, target: u8, spans_calls: bool, is_leaf: bool) -> bool {
    if exact {
        r == target
    } else {
        in_preferred_class(r, spans_calls, is_leaf)
    }
}

/// The first position at or after `j` of a matching register (`s.len()` if none).
pub open spec fn first_where(s: Seq<u8>, exact: bool, target: u8, spans_calls: bool, is_leaf: bool, j: int) -> int
    decreases s.len() - j,
{
    if 0 <= j < s.len() && !reg_matches(s[j], exact, target, spans_calls, is_leaf) {
        first_where(s, exact, target, spans_calls, is_leaf, j + 1)
    } else {
        j
    }
}

/// The register the scan gives `x` from the free list `free`, with the free
/// list after taking it: the hinted register if it is free; otherwise the
/// first free register of the preferred class; otherwise the last free one
/// (`None` when none is free).
pub open spec fn pick_register(free: Seq<u8>, x: LiveInterval, is_leaf: bool) -> Option<(u8, Seq<u8>)> {
    if free.len() == 0 {
        None
    } else {
        let p = match x.preferred_reg {
            Some(pf) => first_where(free, true, pf, x.spans_calls, is_leaf, 0),
            None => first_where(free, false, 0, x.spans_calls, is_leaf, 0),
        };
        if p < free.len() {
            Some((free[p], swap_removed(free, p)))
        } else {
            Some((free.last(), free.drop_last()))
        }
    }
}

/// Position of the first register of `regs` that is `target`
/// (`exact`), or else of the first in the preferred class.
fn find_register(regs: &Vec<u8>, exact: bool, target: u8, spans_calls: bool, is_leaf: bool) -> (r:
    Option<usize>)
    ensures
        match r {
            Some(p) => p < regs@.len() && (if exact {
                regs@[p as int] == target
            } else {
                in_preferred_class(regs@[p as int], spans_calls, is_leaf)
            }) && forall|q: int| 0 <= q < p ==> !(if exact {
                #[trigger] regs@[q] == target
            } else {
                in_preferred_class(regs@[q], spans_calls, is_leaf)
            }),
            None => forall|q: int| 0 <= q < regs@.len() ==> !(if exact {
                #[trigger] regs@[q] == target
            } else {
                in_preferred_class(regs@[q], spans_calls, is_leaf)
            }),
        },
        match r {
            Some(p) => p == first_where(regs@, exact, target, spans_calls, is_leaf, 0),
            None => first_where(regs@, exact, target, spans_calls, is_leaf, 0) == regs@.len(),
        },
{
    let mut i: usize = 0;
    while i < regs.len()
        invariant
            i <= regs@.len(),
            first_where(regs@, exact, target, spans_calls, is_leaf, 0) == first_where(
                regs@,
                exact,
                target,
                spans_calls,
                is_leaf,
                i as int,
            ),
            forall|q: int| 0 <= q < i ==> !(if exact {
                #[trigger] regs@[q] == target
            } else {
                in_preferred_class(regs@[q], spans_calls, is_leaf)
            }),
        decreases regs@.len() - i,
    {
        let r = regs[i];
        let hit = if exact {
            r == target
        } else if is_leaf {
            false
        } else if spans_calls {
            r >= FIRST_LOCAL_REG && r < FIRST_LOCAL_REG + MAX_LOCAL_REGS as u8
        } else {
            r == SCRATCH1 || r == SCRATCH2 || r == RETURN_VALUE_REG || r == ARGS_LEN_REG
        };
        if hit {
            return Some(i);
        }
        i += 1;
    }
    None
}

/// `s` with entry `p` removed by moving the last entry into its place.
pub open spec fn swap_removed(s: Seq<u8>, p: int) -> Seq<u8> {
    s.update(p, s.last()).drop_last()
}

/// The interval's hinted register is among the free ones.
pub open spec fn hint_is_free(interval: LiveInterval, free: Seq<u8>) -> bool {
    match interval.preferred_reg {
        Some(pf) => free.contains(pf),
        None => false,
    }
}

/// The interval has no hint and a register of its preferred class is free.
pub open spec fn class_is_free(interval: LiveInterval, free: Seq<u8>, is_leaf: bool) -> bool {
    &&& interval.preferred_reg is None
    &&& exists|q: int|
        0 <= q < free.len() && in_preferred_class(#[trigger] free[q], interval.spans_calls, is_leaf)
}

/// Take a free register for `interval`: the hinted register if it is free
/// (e.g. r7 for call return values); otherwise, in a function that makes
/// calls, the first free register of the preferred class (callee-saved for a
/// call-spanning interval, caller-saved otherwise); otherwise the last free
/// register. `None` when no register is free.
fn take_free_register(free_regs: &mut Vec<u8>, interval: &LiveInterval, is_leaf: bool) -> (r:
    Option<u8>)
    ensures
        r is None <==> old(free_regs)@.len() == 0,
        r is None ==> final(free_regs)@ == old(free_regs)@,
        r matches Some(reg) ==> exists|p: int|
            #![trigger old(free_regs)@[p]]
            0 <= p < old(free_regs)@.len() && old(free_regs)@[p] == reg && final(free_regs)@
                == swap_removed(old(free_regs)@, p),
        hint_is_free(*interval, old(free_regs)@) ==> r == interval.preferred_reg,
        class_is_free(*interval, old(free_regs)@, is_leaf) ==> (r matches Some(reg)
            && in_preferred_class(reg, interval.spans_calls, is_leaf)),
        old(free_regs)@.len() > 0 && !hint_is_free(*interval, old(free_regs)@) && !class_is_free(
            *interval,
            old(free_regs)@,
            is_leaf,
        ) ==> r == Some(old(free_regs)@.last()),
        r == (match pick_register(old(free_regs)@, *interval, is_leaf) {
            Some(pk) => Some(pk.0),
            None => None,
        }),
        pick_register(old(free_regs)@, *interval, is_leaf) matches Some(pk) ==> final(free_regs)@ == pk.1,
{
    let ghost start = free_regs@;
    let pos = match interval.preferred_reg {
        Some(pref) => find_register(free_regs, true, pref, interval.spans_calls, is_leaf),
        None => find_register(free_regs, false, 0, interval.spans_calls, is_leaf),
    };
    proof {
        if let Some(pf) = interval.preferred_reg {
            if start.contains(pf) {
                let q = choose|q: int| 0 <= q < start.len() && start[q] == pf;
                assert(pos is Some);
            }
        }
    }
    match pos {
        Some(p) => {
            let reg = free_regs.swap_remove(p);
            proof {
                assert(free_regs@ =~= swap_removed(start, p as int));
            }
            Some(reg)
        },
        None => {
            let popped = free_regs.pop();
            proof {
                if start.len() == 0 {
                    assert(free_regs@ =~= start);
                }
                if start.len() > 0 {
                    assert(free_regs@ =~= swap_removed(start, start.len() - 1));
                }
            }
            popped
        },
    }
}

/// No two intervals belong to the same value.
pub open spec fn keys_distinct(s: Seq<LiveInterval>) -> bool {
    forall|a: int, b: int| 0 <= a < b < s.len() ==> #[trigger] s[a].val_key.0 != #[trigger] s[b].val_key.0
}

/// No two intervals share a stack slot.
pub open spec fn slots_distinct(s: Seq<LiveInterval>) -> bool {
    forall|a: int, b: int| 0 <= a < b < s.len() ==> #[trigger] s[a].slot != #[trigger] s[b].slot
}

/// The two intervals are not live at the same time: one expires before the
/// other starts.
pub open spec fn disjoint_in_time(a: LiveInterval, b: LiveInterval) -> bool {
    a.expiration < b.start || b.expiration < a.start
}

/// `order` lists each entry of `m` once.
pub open spec fn lists_assignments(order: Seq<(usize, u8)>, m: Map<usize, u8>) -> bool {
    &&& order.no_duplicates()
    &&& forall|t: int| 0 <= t < order.len() ==> m.contains_key(#[trigger] order[t].0) && m[order[t].0] == order[t].1
    &&& forall|k: usize| #[trigger] m.contains_key(k) ==> order.contains((k, m[k]))
}

/// The entries of an interval → register map, in the map's iteration order.
fn assignment_entries(m: &HashMap<usize, u8>) -> (r: Vec<(usize, u8)>)
    ensures
        lists_assignments(r@, m@),
{
    let mut out: Vec<(usize, u8)> = Vec::new();
    for kv in it: m.iter()
        invariant
            out@.len() == it.index(),
            forall|i: int| 0 <= i < it.index() ==> #[trigger] out@[i] == (*it.seq()[i].0, *it.seq()[i].1),
    {
        out.push((*kv.0, *kv.1));
    }
    proof {
        let v = vstd::std_specs::hash::spec_hash_map_iter(m).remaining();
        assert forall|k: usize| #[trigger] m@.contains_key(k) implies out@.contains((k, m@[k])) by {
            assert(v.contains((&k, &m@[k])));
            let i = choose|i: int| 0 <= i < v.len() && v[i] == (&k, &m@[k]);
            assert(out@[i] == (k, m@[k]));
        }
        assert forall|t: int| 0 <= t < out@.len() implies m@.contains_key(#[trigger] out@[t].0)
            && m@[out@[t].0] == out@[t].1 by {
            assert(v[t] == (&out@[t].0, &out@[t].1));
        }
        assert(out@.no_duplicates()) by {
            assert forall|a: int, b: int| 0 <= a < out@.len() && 0 <= b < out@.len() && a != b
                implies out@[a] != out@[b] by {
                assert(v.no_duplicates());
                assert(v[a] != v[b]);
            }
        }
    }
    out
}

proof fn lemma_swap_removed(s: Seq<u8>, p: int)
    requires
        0 <= p < s.len(),
        s.no_duplicates(),
    ensures
        swap_removed(s, p).no_duplicates(),
        forall|x: u8| #[trigger] swap_removed(s, p).contains(x) <==> s.contains(x) && x != s[p],
{
    let r = swap_removed(s, p);
    let n = s.len();
    assert forall|a: int, b: int| 0 <= a < r.len() && 0 <= b < r.len() && a != b implies r[a]
        != r[b] by {
        let a2 = if a == p { n - 1 } else { a };
        let b2 = if b == p { n - 1 } else { b };
        assert(r[a] == s[a2] && r[b] == s[b2]);
    }
    assert forall|x: u8| #[trigger] r.contains(x) <==> s.contains(x) && x != s[p] by {
        if r.contains(x) {
            let j = choose|j: int| 0 <= j < r.len() && r[j] == x;
            let j2 = if j == p { n - 1 } else { j };
            assert(r[j] == s[j2]);
        }
        if s.contains(x) && x != s[p] {
            let k = choose|k: int| 0 <= k < n && s[k] == x;
            if k == n - 1 {
                assert(r[p] == x);
            } else {
                assert(r[k] == x);
            }
        }
    }
}

// ── The scan, as a function of the sorted intervals ──

/// The entries ascend strictly in the order of pairs.
pub open spec fn ascending(s: Seq<(usize, usize)>) -> bool {
    forall|i: int, j: int| 0 <= i < j < s.len() ==> pair_before(#[trigger] s[i], #[trigger] s[j])
}

/// How many leading entries expire before `start`.
pub open spec fn expired_count(s: Seq<(usize, usize)>, start: usize) -> nat
    decreases s.len(),
{
    if s.len() > 0 && s[0].0 < start {
        1 + expired_count(s.skip(1), start)
    } else {
        0
    }
}

/// The first position at or after `j` whose entry comes after `e`
/// (`s.len()` if none).
pub open spec fn insert_pos(s: Seq<(usize, usize)>, e: (usize, usize), j: int) -> int
    decreases s.len() - j,
{
    if 0 <= j < s.len() && !pair_before(e, s[j]) {
        insert_pos(s, e, j + 1)
    } else {
        j
    }
}

/// `e` put into the ascending `s` at its place.
pub open spec fn sorted_insert(s: Seq<(usize, usize)>, e: (usize, usize)) -> Seq<(usize, usize)> {
    s.insert(insert_pos(s, e, 0), e)
}

/// Entry `p` of the active entries `s` belongs to an interval of the lowest
/// spill weight, and every earlier entry to a heavier one.
pub open spec fn is_lightest(s: Seq<(usize, usize)>, iv: Seq<LiveInterval>, p: int) -> bool {
    &&& 0 <= p < s.len()
    &&& forall|j: int| 0 <= j < s.len() ==> iv[s[p].1 as int].spill_weight <= #[trigger] iv[s[j].1 as int].spill_weight
    &&& forall|j: int| 0 <= j < p ==> iv[s[p].1 as int].spill_weight < #[trigger] iv[s[j].1 as int].spill_weight
}

/// The position of the first active entry of the lowest spill weight.
pub open spec fn lightest(s: Seq<(usize, usize)>, iv: Seq<LiveInterval>) -> int {
    choose|p: int| is_lightest(s, iv, p)
}

/// The scan's state: the active entries `(expiration, index)` in ascending
/// order, the free registers, the register of each active interval, and the
/// register of each interval that holds one for good.
pub type ScanState = (Seq<(usize, usize)>, Seq<u8>, Map<usize, u8>, Map<usize, u8>);

/// The registers of the active entries `s`, in order.
pub open spec fn regs_of(s: Seq<(usize, usize)>, regs: Map<usize, u8>) -> Seq<u8> {
    Seq::new(s.len(), |j: int| regs[s[j].1])
}

/// The interval indices of the entries `s`.
pub open spec fn indices_of(s: Seq<(usize, usize)>) -> Set<usize> {
    Set::new(|k: usize| exists|j: int| 0 <= j < s.len() && s[j].1 == k)
}

/// One step of the scan, for interval `i` of the sorted intervals `iv`:
/// - the active intervals that expire before it starts give their registers
///   back, in order of expiration;
/// - it takes a free register (see `pick_register`);
/// - if none is free, the lightest active interval (the first among equals)
///   loses its register to it, but only when it is strictly heavier; the
///   evicted interval keeps no register.
pub open spec fn scan_step(st: ScanState, iv: Seq<LiveInterval>, i: int, is_leaf: bool) -> ScanState {
    let x = iv[i];
    let k = expired_count(st.0, x.start) as int;
    let gone = st.0.take(k);
    let free1 = st.1 + regs_of(gone, st.2);
    let regs1 = st.2.remove_keys(indices_of(gone));
    let active1 = st.0.skip(k);
    let entry = (x.expiration, i as usize);
    match pick_register(free1, x, is_leaf) {
        Some(pk) => (
            sorted_insert(active1, entry),
            pk.1,
            regs1.insert(i as usize, pk.0),
            st.3.insert(i as usize, pk.0),
        ),
        None => {
            let p = lightest(active1, iv);
            if active1.len() > 0 && x.spill_weight > iv[active1[p].1 as int].spill_weight {
                let e = active1[p].1;
                let r = regs1[e];
                (
                    sorted_insert(active1.remove(p), entry),
                    free1,
                    regs1.remove(e).insert(i as usize, r),
                    st.3.remove(e).insert(i as usize, r),
                )
            } else {
                (active1, free1, regs1, st.3)
            }
        },
    }
}

/// The scan's state after the first `i` sorted intervals, starting with every
/// register of `regs` free.
pub open spec fn scan_run(iv: Seq<LiveInterval>, i: int, regs: Seq<u8>, is_leaf: bool) -> ScanState
    decreases i,
{
    if i <= 0 {
        (Seq::empty(), regs, Map::empty(), Map::empty())
    } else {
        scan_step(scan_run(iv, i - 1, regs, is_leaf), iv, i - 1, is_leaf)
    }
}

/// The registers the scan leaves to the intervals, by position in scan order.
pub open spec fn scan_assignment(intervals: Seq<LiveInterval>, regs: Seq<u8>, is_leaf: bool) -> Map<usize, u8> {
    scan_run(scan_sorted(intervals), intervals.len() as int, regs, is_leaf).3
}

proof fn lemma_ascending_unique(a: Seq<(usize, usize)>, b: Seq<(usize, usize)>)
    requires
        ascending(a),
        ascending(b),
        forall|x: (usize, usize)| a.contains(x) <==> b.contains(x),
    ensures
        a == b,
    decreases a.len(),
{
    if a.len() == 0 {
        if b.len() > 0 {
            assert(b.contains(b[0]));
        }
        assert(a =~= b);
    } else if b.len() == 0 {
        assert(a.contains(a[0]));
    } else {
        if a[0] != b[0] {
            assert(a.contains(b[0]));
            assert(b.contains(a[0]));
            let i = choose|i: int| 0 <= i < a.len() && a[i] == b[0];
            let j = choose|j: int| 0 <= j < b.len() && b[j] == a[0];
            assert(pair_before(a[0], a[i]));
            assert(pair_before(b[0], b[j]));
        }
        let a1 = a.skip(1);
        let b1 = b.skip(1);
        assert forall|x: (usize, usize)| a1.contains(x) <==> b1.contains(x) by {
            if a1.contains(x) {
                let i = choose|i: int| 0 <= i < a1.len() && a1[i] == x;
                assert(a[i + 1] == x);
                assert(pair_before(a[0], a[i + 1]));
                assert(b.contains(x));
                let j = choose|j: int| 0 <= j < b.len() && b[j] == x;
                assert(j != 0);
                assert(b1[j - 1] == x);
            }
            if b1.contains(x) {
                let j = choose|j: int| 0 <= j < b1.len() && b1[j] == x;
                assert(b[j + 1] == x);
                assert(pair_before(b[0], b[j + 1]));
                assert(a.contains(x));
                let i = choose|i: int| 0 <= i < a.len() && a[i] == x;
                assert(i != 0);
                assert(a1[i - 1] == x);
            }
        }
        lemma_ascending_unique(a1, b1);
        assert(a =~= seq![a[0]] + a1);
        assert(b =~= seq![b[0]] + b1);
    }
}

proof fn lemma_expired_count(s: Seq<(usize, usize)>, start: usize)
    requires
        ascending(s),
    ensures
        expired_count(s, start) <= s.len(),
        forall|j: int| 0 <= j < expired_count(s, start) ==> (#[trigger] s[j]).0 < start,
        forall|j: int| expired_count(s, start) <= j < s.len() ==> (#[trigger] s[j]).0 >= start,
    decreases s.len(),
{
    if s.len() > 0 && s[0].0 < start {
        let t = s.skip(1);
        assert(ascending(t)) by {
            assert forall|i: int, j: int| 0 <= i < j < t.len() implies pair_before(#[trigger] t[i], #[trigger] t[j]) by {
                assert(t[i] == s[i + 1] && t[j] == s[j + 1]);
            }
        }
        lemma_expired_count(t, start);
        assert forall|j: int| 0 <= j < expired_count(s, start) implies (#[trigger] s[j]).0 < start by {
            if j > 0 {
                assert(s[j] == t[j - 1]);
            }
        }
        assert forall|j: int| expired_count(s, start) <= j < s.len() implies (#[trigger] s[j]).0 >= start by {
            assert(s[j] == t[j - 1]);
        }
    } else if s.len() > 0 {
        assert forall|j: int| 0 <= j < s.len() implies (#[trigger] s[j]).0 >= start by {
            if j > 0 {
                assert(pair_before(s[0], s[j]));
            }
        }
    }
}

proof fn lemma_insert_pos(s: Seq<(usize, usize)>, e: (usize, usize), j: int)
    requires
        0 <= j <= s.len(),
    ensures
        j <= insert_pos(s, e, j) <= s.len(),
        forall|k: int| j <= k < insert_pos(s, e, j) ==> !pair_before(e, #[trigger] s[k]),
        insert_pos(s, e, j) < s.len() ==> pair_before(e, s[insert_pos(s, e, j)]),
    decreases s.len() - j,
{
    if j < s.len() && !pair_before(e, s[j]) {
        lemma_insert_pos(s, e, j + 1);
    }
}

proof fn lemma_sorted_insert(s: Seq<(usize, usize)>, e: (usize, usize))
    requires
        ascending(s),
        !s.contains(e),
    ensures
        ascending(sorted_insert(s, e)),
        forall|x: (usize, usize)| #[trigger] sorted_insert(s, e).contains(x) <==> s.contains(x) || x == e,
        sorted_insert(s, e).to_set() == s.to_set().insert(e),
{
    lemma_insert_pos(s, e, 0);
    let p = insert_pos(s, e, 0);
    let r = sorted_insert(s, e);
    assert(r.len() == s.len() + 1);
    assert forall|k: int| 0 <= k < r.len() implies #[trigger] r[k] == (if k < p { s[k] } else if k == p { e } else { s[k - 1] }) by {}
    assert forall|a: int, b: int| 0 <= a < b < r.len() implies pair_before(#[trigger] r[a], #[trigger] r[b]) by {
        if a < p && b == p {
            assert(!pair_before(e, s[a]));
            assert(s[a] != e);
        } else if a == p && b > p {
            if b - 1 > p {
                assert(pair_before(s[p], s[b - 1]));
            }
        } else if a < p && b > p {
            assert(pair_before(s[a], s[b - 1]));
        } else if a > p {
            assert(pair_before(s[a - 1], s[b - 1]));
        }
    }
    assert forall|x: (usize, usize)| #[trigger] r.contains(x) <==> s.contains(x) || x == e by {
        if r.contains(x) {
            let k = choose|k: int| 0 <= k < r.len() && r[k] == x;
            if k < p {
                assert(s[k] == x);
            } else if k > p {
                assert(s[k - 1] == x);
            }
        }
        if s.contains(x) {
            let k = choose|k: int| 0 <= k < s.len() && s[k] == x;
            if k < p {
                assert(r[k] == x);
            } else {
                assert(r[k + 1] == x);
            }
        }
        if x == e {
            assert(r[p] == x);
        }
    }
    assert(r.to_set() =~= s.to_set().insert(e));
}

proof fn lemma_ascending_skip(s: Seq<(usize, usize)>, k: int)
    requires
        ascending(s),
        0 <= k <= s.len(),
    ensures
        ascending(s.skip(k)),
        forall|x: (usize, usize)| #[trigger] s.skip(k).contains(x) <==> s.contains(x) && !s.take(k).contains(x),
{
    let t = s.skip(k);
    assert forall|i: int, j: int| 0 <= i < j < t.len() implies pair_before(#[trigger] t[i], #[trigger] t[j]) by {
        assert(t[i] == s[i + k] && t[j] == s[j + k]);
    }
    assert forall|x: (usize, usize)| #[trigger] t.contains(x) <==> s.contains(x) && !s.take(k).contains(x) by {
        if t.contains(x) {
            let i = choose|i: int| 0 <= i < t.len() && t[i] == x;
            assert(s[i + k] == x);
            if s.take(k).contains(x) {
                let j = choose|j: int| 0 <= j < k && s.take(k)[j] == x;
                assert(s[j] == x);
                assert(pair_before(s[j], s[i + k]));
            }
        }
        if s.contains(x) && !s.take(k).contains(x) {
            let i = choose|i: int| 0 <= i < s.len() && s[i] == x;
            if i < k {
                assert(s.take(k)[i] == x);
            } else {
                assert(t[i - k] == x);
            }
        }
    }
}

proof fn lemma_ascending_remove(s: Seq<(usize, usize)>, p: int)
    requires
        ascending(s),
        0 <= p < s.len(),
    ensures
        ascending(s.remove(p)),
        forall|x: (usize, usize)| #[trigger] s.remove(p).contains(x) <==> s.contains(x) && x != s[p],
{
    let t = s.remove(p);
    assert forall|k: int| 0 <= k < t.len() implies #[trigger] t[k] == (if k < p { s[k] } else { s[k + 1] }) by {}
    assert forall|i: int, j: int| 0 <= i < j < t.len() implies pair_before(#[trigger] t[i], #[trigger] t[j]) by {
        let i2 = if i < p { i } else { i + 1 };
        let j2 = if j < p { j } else { j + 1 };
        assert(t[i] == s[i2] && t[j] == s[j2]);
    }
    assert forall|x: (usize, usize)| #[trigger] t.contains(x) <==> s.contains(x) && x != s[p] by {
        if t.contains(x) {
            let i = choose|i: int| 0 <= i < t.len() && t[i] == x;
            let i2 = if i < p { i } else { i + 1 };
            assert(s[i2] == x);
            if i2 != p {
                if i2 < p {
                    assert(pair_before(s[i2], s[p]));
                } else {
                    assert(pair_before(s[p], s[i2]));
                }
            }
        }
        if s.contains(x) && x != s[p] {
            let i = choose|i: int| 0 <= i < s.len() && s[i] == x;
            if i < p {
                assert(t[i] == x);
            } else {
                assert(t[i - 1] == x);
            }
        }
    }
}

/// Active entries whose first component is the expiration of the interval
/// they name have distinct indices.
proof fn lemma_distinct_idx(s: Seq<(usize, usize)>, iv: Seq<LiveInterval>)
    requires
        ascending(s),
        forall|j: int| 0 <= j < s.len() ==> (#[trigger] s[j]).0 == iv[s[j].1 as int].expiration,
    ensures
        forall|j1: int, j2: int|
            0 <= j1 < s.len() && 0 <= j2 < s.len() && (#[trigger] s[j1]).1 == (#[trigger] s[j2]).1 ==> j1 == j2,
{
    assert forall|j1: int, j2: int|
        0 <= j1 < s.len() && 0 <= j2 < s.len() && (#[trigger] s[j1]).1 == (#[trigger] s[j2]).1 implies j1 == j2 by {
        if j1 < j2 {
            assert(pair_before(s[j1], s[j2]));
        } else if j2 < j1 {
            assert(pair_before(s[j2], s[j1]));
        }
    }
}

proof fn lemma_lightest_unique(s: Seq<(usize, usize)>, iv: Seq<LiveInterval>, p: int)
    requires
        is_lightest(s, iv, p),
    ensures
        lightest(s, iv) == p,
{
    let q = lightest(s, iv);
    assert(is_lightest(s, iv, q));
    if q < p {
        assert(iv[s[p].1 as int].spill_weight < iv[s[q].1 as int].spill_weight);
        assert(iv[s[q].1 as int].spill_weight <= iv[s[p].1 as int].spill_weight);
    } else if q > p {
        assert(iv[s[q].1 as int].spill_weight < iv[s[p].1 as int].spill_weight);
        assert(iv[s[p].1 as int].spill_weight <= iv[s[q].1 as int].spill_weight);
    }
}

/// Standard linear-scan register allocation with spill-weight eviction.
///
/// `is_leaf` controls register class preference: in non-leaf functions,
/// call-spanning intervals prefer callee-saved registers and non-call-spanning
/// intervals prefer caller-saved registers. In leaf functions, all registers
/// are equal (no calls to invalidate them).
///
/// Every register handed out is one of `allocatable_regs`; when those are
/// distinct and no two intervals belong to the same value, two values that
/// keep the same register are never live at the same time.
pub fn linear_scan(intervals: Vec<LiveInterval>, allocatable_regs: &[u8], is_leaf: bool) -> (result:
    RegAllocResult)
    ensures
        forall|key: usize| #[trigger]
            result.val_to_reg@.contains_key(key) ==> allocatable_regs@.contains(
                result.val_to_reg@[key],
            ) && exists|a: int| 0 <= a < intervals@.len() && #[trigger] intervals@[a].val_key.0 == key,
        forall|s: i32| #[trigger]
            result.slot_to_reg@.contains_key(s) ==> allocatable_regs@.contains(result.slot_to_reg@[s])
                && exists|a: int| 0 <= a < intervals@.len() && #[trigger] intervals@[a].slot == s,
        forall|r: u8| #[trigger]
            result.reg_to_slot@.contains_key(r) ==> allocatable_regs@.contains(r) && exists|a: int|
                0 <= a < intervals@.len() && #[trigger] intervals@[a].slot == result.reg_to_slot@[r],
        result.stats.total_values == 0 && result.stats.total_intervals == 0 && !result.stats.has_loops
            && result.stats.allocatable_regs == 0 && result.stats.max_call_args == 0
            && result.stats.allocated_values == 0 && result.stats.skipped_reason is None,
        // With a register for every interval, every interval keeps one.
        allocatable_regs@.len() >= intervals@.len() ==> forall|a: int|
            0 <= a < intervals@.len() ==> result.val_to_reg@.contains_key(#[trigger] intervals@[a].val_key.0),
        // A value's stack slot maps to the value's register.
        keys_distinct(intervals@) && slots_distinct(intervals@) ==> forall|a: int|
            0 <= a < intervals@.len() && result.val_to_reg@.contains_key(#[trigger] intervals@[a].val_key.0)
                ==> result.slot_to_reg@.contains_key(intervals@[a].slot)
                && result.slot_to_reg@[intervals@[a].slot] == result.val_to_reg@[intervals@[a].val_key.0],
        // A register maps back to the slot of a value that holds it.
        keys_distinct(intervals@) ==> forall|r: u8| #[trigger]
            result.reg_to_slot@.contains_key(r) ==> exists|a: int|
                0 <= a < intervals@.len() && #[trigger] intervals@[a].slot == result.reg_to_slot@[r]
                    && result.val_to_reg@.contains_key(intervals@[a].val_key.0)
                    && result.val_to_reg@[intervals@[a].val_key.0] == r,
        // Which intervals keep a register, and which one: exactly as the scan
        // over the sorted intervals leaves them.
        forall|key: usize| #[trigger] result.val_to_reg@.contains_key(key) <==> exists|k: usize|
            #[trigger] scan_assignment(intervals@, allocatable_regs@, is_leaf).contains_key(k)
                && scan_sorted(intervals@)[k as int].val_key.0 == key,
        keys_distinct(intervals@) ==> forall|k: usize| #[trigger]
            scan_assignment(intervals@, allocatable_regs@, is_leaf).contains_key(k) ==> result.val_to_reg@[scan_sorted(
                intervals@,
            )[k as int].val_key.0] == scan_assignment(intervals@, allocatable_regs@, is_leaf)[k],
        forall|s: i32| #[trigger] result.slot_to_reg@.contains_key(s) <==> exists|k: usize|
            #[trigger] scan_assignment(intervals@, allocatable_regs@, is_leaf).contains_key(k)
                && scan_sorted(intervals@)[k as int].slot == s,
        slots_distinct(intervals@) ==> forall|k: usize| #[trigger]
            scan_assignment(intervals@, allocatable_regs@, is_leaf).contains_key(k) ==> result.slot_to_reg@[scan_sorted(
                intervals@,
            )[k as int].slot] == scan_assignment(intervals@, allocatable_regs@, is_leaf)[k],
        allocatable_regs@.no_duplicates() && keys_distinct(intervals@) ==> forall|a: int, b: int|
            0 <= a < intervals@.len() && 0 <= b < intervals@.len() && a != b
                && result.val_to_reg@.contains_key(#[trigger] intervals@[a].val_key.0)
                && result.val_to_reg@.contains_key(#[trigger] intervals@[b].val_key.0)
                && result.val_to_reg@[intervals@[a].val_key.0] == result.val_to_reg@[intervals@[b].val_key.0]
                ==> disjoint_in_time(intervals@[a], intervals@[b]),
{
    let ghost input = intervals@;
    let ghost ok = allocatable_regs@.no_duplicates();
    let ghost alloc = allocatable_regs@;
    let (intervals, Ghost(perm)) = sort_for_scan(&intervals);
    let ghost iv = intervals@;
    proof {
        lemma_pair_keys_ordered();
    }
    let mut result = RegAllocResult::default();
    let ghost stats0 = result.stats;

    // Active intervals sorted by expiration point (a set of (expiration, index)).
    let mut active: BTreeSet<(usize, usize)> = BTreeSet::new();
    let mut free_regs: Vec<u8> = Vec::new();
    let mut c: usize = 0;
    while c < allocatable_regs.len()
        invariant
            c <= alloc.len(),
            alloc == allocatable_regs@,
            free_regs@ == alloc.take(c as int),
        decreases alloc.len() - c,
    {
        free_regs.push(allocatable_regs[c]);
        proof {
            assert(free_regs@ =~= alloc.take(c + 1));
        }
        c += 1;
    }
    proof {
        assert(free_regs@ =~= alloc);
    }
    // Register assignment for currently active intervals.
    let mut active_assigned: HashMap<usize, u8> = HashMap::new();
    // Final register assignment for intervals that were allocated and never evicted.
    // Naturally expired intervals stay here so their earlier uses can still benefit.
    let mut final_assigned: HashMap<usize, u8> = HashMap::new();
    // The active entries in ascending order, as the scan model sees them.
    let ghost mut mst: Seq<(usize, usize)> = Seq::empty();
    proof {
        assert(active@ =~= mst.to_set());
        assert(active_assigned@ =~= Map::<usize, u8>::empty());
        assert(final_assigned@ =~= Map::<usize, u8>::empty());
    }

    let n = intervals.len();
    let mut i: usize = 0;
    while i < n
        invariant
            ascending(mst),
            active@ == mst.to_set(),
            forall|j: int| 0 <= j < mst.len() ==> active_assigned@.contains_key(#[trigger] mst[j].1),
            forall|k: usize| #[trigger]
                active_assigned@.contains_key(k) ==> active@.contains((iv[k as int].expiration, k)),
            (mst, free_regs@, active_assigned@, final_assigned@) == scan_run(iv, i as int, alloc, is_leaf),
            pair_keys_ordered(),
            intervals@ == iv,
            n == iv.len(),
            i <= n,
            in_scan_order(iv),
            ok == alloc.no_duplicates(),
            forall|x: (usize, usize)| #[trigger]
                active@.contains(x) ==> x.1 < i && x.0 == iv[x.1 as int].expiration,
            forall|k: usize| #[trigger]
                active_assigned@.contains_key(k) ==> k < i && final_assigned@.contains_key(k)
                    && final_assigned@[k] == active_assigned@[k],
            forall|k: usize| #[trigger]
                final_assigned@.contains_key(k) ==> k < i && alloc.contains(final_assigned@[k]),
            forall|q: int| 0 <= q < free_regs@.len() ==> alloc.contains(#[trigger] free_regs@[q]),
            free_regs@.len() + i >= alloc.len(),
            alloc.len() >= n ==> forall|k: usize| k < i ==> #[trigger] final_assigned@.contains_key(k),
            ok ==> free_regs@.no_duplicates(),
            ok ==> forall|k: usize| #[trigger]
                active_assigned@.contains_key(k) ==> !free_regs@.contains(active_assigned@[k]),
            ok ==> forall|k1: usize, k2: usize|
                #[trigger] active_assigned@.contains_key(k1) && #[trigger] active_assigned@.contains_key(k2)
                    && k1 != k2 ==> active_assigned@[k1] != active_assigned@[k2],
            ok ==> forall|k1: usize, k2: usize|
                #[trigger] final_assigned@.contains_key(k1) && #[trigger] final_assigned@.contains_key(k2)
                    && k1 < k2 && final_assigned@[k1] == final_assigned@[k2] ==> iv[k1 as int].expiration
                    < iv[k2 as int].start,
            ok ==> forall|k: usize, j: int|
                #[trigger] final_assigned@.contains_key(k) && !active_assigned@.contains_key(k) && i <= j
                    < n ==> iv[k as int].expiration < #[trigger] iv[j].start,
        decreases n - i,
    {
        let interval = intervals[i];
        // Expire old intervals.
        let ghost active0 = active@;
        let expired = collect_expired(&active, interval.start);
        proof {
            assert forall|k: int| 0 <= k < expired@.len() implies active0.contains(#[trigger] expired@[k])
                && expired@[k].0 < interval.start by {
                assert(expired@.contains(expired@[k]));
            }
        }
        let ghost st0: ScanState = (mst, free_regs@, active_assigned@, final_assigned@);
        let ghost kx = expired_count(mst, interval.start) as int;
        let ghost regs0 = active_assigned@;
        let ghost fr0 = free_regs@;
        let ghost fa0 = final_assigned@;
        proof {
            lemma_expired_count(mst, interval.start);
            assert forall|j: int| 0 <= j < mst.len() implies (#[trigger] mst[j]).0 == iv[mst[j].1 as int].expiration
                && mst[j].1 < i by {
                assert(mst.to_set().contains(mst[j]));
            }
            lemma_distinct_idx(mst, iv);
            assert(ascending(mst.take(kx))) by {
                assert forall|a: int, b: int| 0 <= a < b < mst.take(kx).len() implies pair_before(
                    #[trigger] mst.take(kx)[a],
                    #[trigger] mst.take(kx)[b],
                ) by {
                    assert(mst.take(kx)[a] == mst[a] && mst.take(kx)[b] == mst[b]);
                }
            }
            assert(ascending(expired@)) by {
                assert forall|a: int, b: int| 0 <= a < b < expired@.len() implies pair_before(
                    #[trigger] expired@[a],
                    #[trigger] expired@[b],
                ) by {}
            }
            assert forall|x: (usize, usize)| expired@.contains(x) <==> mst.take(kx).contains(x) by {
                if expired@.contains(x) {
                    assert(active0.contains(x) && x.0 < interval.start);
                    assert(mst.to_set().contains(x));
                    let j = choose|j: int| 0 <= j < mst.len() && mst[j] == x;
                    assert(j < kx);
                    assert(mst.take(kx)[j] == x);
                }
                if mst.take(kx).contains(x) {
                    let j = choose|j: int| 0 <= j < kx && #[trigger] mst.take(kx)[j] == x;
                    assert(mst[j] == x);
                    assert(mst.to_set().contains(x));
                }
            }
            lemma_ascending_unique(expired@, mst.take(kx));
            assert forall|k: usize| #[trigger] regs0.contains_key(k) implies mst.contains((iv[k as int].expiration, k)) by {
                assert(mst.to_set().contains((iv[k as int].expiration, k)));
            }
            assert(mst.take(0) =~= Seq::<(usize, usize)>::empty());
            assert(regs_of(mst.take(0), regs0) =~= Seq::<u8>::empty());
            assert(fr0 + regs_of(mst.take(0), regs0) =~= fr0);
            assert(indices_of(mst.take(0)) =~= Set::<usize>::empty());
            assert(regs0.remove_keys(indices_of(mst.take(0))) =~= regs0);
            assert forall|x: (usize, usize)| #[trigger] active@.contains(x) <==> mst.contains(x)
                && !mst.take(0).contains(x) by {
                assert(active@ == mst.to_set());
            }
        }
        let mut t: usize = 0;
        while t < expired.len()
            invariant
                pair_keys_ordered(),
                intervals@ == iv,
                n == iv.len(),
                i < n,
                interval == iv[i as int],
                in_scan_order(iv),
                ok == alloc.no_duplicates(),
                t <= expired@.len(),
                forall|k: int| 0 <= k < expired@.len() ==> active0.contains(#[trigger] expired@[k])
                    && expired@[k].0 < interval.start,
                forall|x: (usize, usize)| #[trigger]
                    active0.contains(x) ==> x.1 < i && x.0 == iv[x.1 as int].expiration,
                forall|x: (usize, usize)| #[trigger] active@.contains(x) ==> active0.contains(x),
                forall|k: usize| #[trigger]
                    active_assigned@.contains_key(k) ==> k < i && final_assigned@.contains_key(k)
                        && final_assigned@[k] == active_assigned@[k],
                forall|k: usize| #[trigger]
                    final_assigned@.contains_key(k) ==> k < i && alloc.contains(final_assigned@[k]),
                forall|q: int| 0 <= q < free_regs@.len() ==> alloc.contains(#[trigger] free_regs@[q]),
                free_regs@.len() + i >= alloc.len(),
                alloc.len() >= n ==> forall|k: usize| k < i ==> #[trigger] final_assigned@.contains_key(k),
                ok ==> free_regs@.no_duplicates(),
                ok ==> forall|k: usize| #[trigger]
                    active_assigned@.contains_key(k) ==> !free_regs@.contains(active_assigned@[k]),
                ok ==> forall|k1: usize, k2: usize|
                    #[trigger] active_assigned@.contains_key(k1) && #[trigger] active_assigned@.contains_key(k2)
                        && k1 != k2 ==> active_assigned@[k1] != active_assigned@[k2],
                ok ==> forall|k1: usize, k2: usize|
                    #[trigger] final_assigned@.contains_key(k1) && #[trigger] final_assigned@.contains_key(k2)
                        && k1 < k2 && final_assigned@[k1] == final_assigned@[k2] ==> iv[k1 as int].expiration
                        < iv[k2 as int].start,
                ok ==> forall|k: usize, j: int|
                    #[trigger] final_assigned@.contains_key(k) && !active_assigned@.contains_key(k) && i <= j
                        < n ==> iv[k as int].expiration < #[trigger] iv[j].start,
                ascending(mst),
                0 <= kx <= mst.len(),
                expired@ == mst.take(kx),
                forall|j: int| 0 <= j < mst.len() ==> regs0.contains_key(#[trigger] mst[j].1),
                forall|j1: int, j2: int|
                    0 <= j1 < mst.len() && 0 <= j2 < mst.len() && (#[trigger] mst[j1]).1 == (#[trigger] mst[j2]).1
                        ==> j1 == j2,
                forall|k: usize| #[trigger] regs0.contains_key(k) ==> mst.contains((iv[k as int].expiration, k)),
                forall|x: (usize, usize)| #[trigger] active@.contains(x) <==> mst.contains(x)
                    && !mst.take(t as int).contains(x),
                free_regs@ == fr0 + regs_of(mst.take(t as int), regs0),
                active_assigned@ == regs0.remove_keys(indices_of(mst.take(t as int))),
                final_assigned@ == fa0,
            decreases expired@.len() - t,
        {
            let (end, idx) = expired[t];
            proof {
                assert(active0.contains(expired@[t as int]));
                assert(expired@[t as int] == mst[t as int]);
                assert(regs0.contains_key(idx));
                assert(!indices_of(mst.take(t as int)).contains(idx)) by {
                    if indices_of(mst.take(t as int)).contains(idx) {
                        let j = choose|j: int| 0 <= j < t && (#[trigger] mst.take(t as int)[j]).1 == idx;
                        assert(mst[j].1 == mst[t as int].1);
                    }
                }
                assert(active_assigned@.contains_key(idx));
            }
            let ghost act_before = active@;
            active.remove(&(end, idx));
            let ghost aa = active_assigned@;
            let ghost fr = free_regs@;
            if let Some(reg) = active_assigned.remove(&idx) {
                free_regs.push(reg);
                proof {
                    assert(aa.contains_key(idx) && aa[idx] == reg);
                    assert(active_assigned@ =~= aa.remove(idx));
                    if ok {
                        assert(!fr.contains(reg));
                        assert forall|k: usize| #[trigger] active_assigned@.contains_key(k) implies !free_regs@.contains(
                            active_assigned@[k],
                        ) by {
                            assert(aa.contains_key(k) && k != idx);
                            assert(aa[k] != aa[idx]);
                            assert(!fr.contains(aa[k]));
                            if free_regs@.contains(aa[k]) {
                                let q = choose|q: int| 0 <= q < free_regs@.len() && free_regs@[q] == aa[k];
                                if q < fr.len() {
                                    assert(fr[q] == aa[k]);
                                }
                            }
                        }
                        assert(free_regs@.no_duplicates()) by {
                            assert forall|a: int, b: int| 0 <= a < free_regs@.len() && 0 <= b < free_regs@.len() && a != b
                                implies free_regs@[a] != free_regs@[b] by {
                                if a == fr.len() {
                                    assert(!fr.contains(free_regs@[b]) || free_regs@[b] != reg);
                                } else if b == fr.len() {
                                    assert(fr[a] == free_regs@[a]);
                                }
                            }
                        }
                        // The released interval expires before `interval` starts,
                        // hence before every interval after it.
                        assert forall|k: usize, j: int|
                            #[trigger] final_assigned@.contains_key(k) && !active_assigned@.contains_key(k) && i <= j
                                < n implies iv[k as int].expiration < #[trigger] iv[j].start by {
                            if k == idx {
                                assert(!goes_before(iv[j], iv[i as int])) by {
                                    if j > i {
                                        assert(!goes_before(iv[j], iv[i as int]));
                                    }
                                }
                            } else {
                                assert(!aa.contains_key(k));
                            }
                        }
                    }
                    assert forall|q: int| 0 <= q < free_regs@.len() implies alloc.contains(#[trigger] free_regs@[q]) by {
                        if q < fr.len() {
                            assert(fr[q] == free_regs@[q]);
                        }
                    }
                }
            }
            proof {
                let tt = t as int;
                assert(mst.take(tt + 1) =~= mst.take(tt).push(mst[tt]));
                assert(regs_of(mst.take(tt + 1), regs0) =~= regs_of(mst.take(tt), regs0).push(regs0[idx]));
                assert(indices_of(mst.take(tt + 1)) =~= indices_of(mst.take(tt)).insert(idx)) by {
                    assert forall|k: usize| indices_of(mst.take(tt + 1)).contains(k) <==> indices_of(
                        mst.take(tt),
                    ).insert(idx).contains(k) by {
                        if indices_of(mst.take(tt + 1)).contains(k) {
                            let j = choose|j: int| 0 <= j < tt + 1 && (#[trigger] mst.take(tt + 1)[j]).1 == k;
                            if j < tt {
                                assert(mst.take(tt)[j].1 == k);
                            }
                        }
                        if indices_of(mst.take(tt)).contains(k) {
                            let j = choose|j: int| 0 <= j < tt && (#[trigger] mst.take(tt)[j]).1 == k;
                            assert(mst.take(tt + 1)[j].1 == k);
                        }
                        if k == idx {
                            assert(mst.take(tt + 1)[tt].1 == k);
                        }
                    }
                }
                assert(aa.contains_key(idx) && aa[idx] == regs0[idx]);
                assert(free_regs@ =~= fr0 + regs_of(mst.take(tt + 1), regs0));
                assert(active_assigned@ =~= regs0.remove_keys(indices_of(mst.take(tt + 1))));
                assert forall|x: (usize, usize)| #[trigger] active@.contains(x) <==> mst.contains(x)
                    && !mst.take(tt + 1).contains(x) by {
                    assert(active@.contains(x) <==> act_before.contains(x) && x != mst[tt]);
                    if mst.take(tt + 1).contains(x) {
                        let j = choose|j: int| 0 <= j < tt + 1 && #[trigger] mst.take(tt + 1)[j] == x;
                        if j < tt {
                            assert(mst.take(tt)[j] == x);
                        }
                    }
                    if mst.take(tt).contains(x) {
                        let j = choose|j: int| 0 <= j < tt && #[trigger] mst.take(tt)[j] == x;
                        assert(mst.take(tt + 1)[j] == x);
                    }
                }
            }
            t += 1;
        }
        // The scan model after expiring.
        let ghost mst1 = mst.skip(kx);
        proof {
            lemma_ascending_skip(mst, kx);
            assert(active@ =~= mst1.to_set()) by {
                assert forall|x: (usize, usize)| active@.contains(x) <==> mst1.to_set().contains(x) by {
                    assert(active@.contains(x) <==> mst.contains(x) && !mst.take(kx).contains(x));
                    assert(mst1.contains(x) <==> mst1.to_set().contains(x));
                }
            }
            assert forall|j: int| 0 <= j < mst1.len() implies active_assigned@.contains_key(#[trigger] mst1[j].1) by {
                assert(mst1[j] == mst[j + kx]);
                assert(!indices_of(mst.take(kx)).contains(mst1[j].1)) by {
                    if indices_of(mst.take(kx)).contains(mst1[j].1) {
                        let j2 = choose|j2: int| 0 <= j2 < kx && (#[trigger] mst.take(kx)[j2]).1 == mst1[j].1;
                        assert(mst[j2].1 == mst[j + kx].1);
                    }
                }
            }
            assert forall|k: usize| #[trigger] active_assigned@.contains_key(k) implies active@.contains(
                (iv[k as int].expiration, k),
            ) by {
                assert(regs0.contains_key(k) && !indices_of(mst.take(kx)).contains(k));
                let x = (iv[k as int].expiration, k);
                assert(mst.contains(x));
                if mst.take(kx).contains(x) {
                    let j = choose|j: int| 0 <= j < kx && #[trigger] mst.take(kx)[j] == x;
                    assert(mst.take(kx)[j].1 == k);
                }
            }
            mst = mst1;
        }

        // Prefer the hinted register if available (e.g., r7 for call return values).
        // For non-leaf functions: call-spanning intervals prefer callee-saved
        // registers (survive calls without invalidation), non-call-spanning
        // intervals prefer caller-saved (leave callee-saved for others).
        let ghost fr = free_regs@;
        let ghost aa = active_assigned@;
        let ghost fa = final_assigned@;
        let ghost entry = (interval.expiration, i);
        proof {
            assert(fr == st0.1 + regs_of(st0.0.take(kx), st0.2));
            assert(aa == st0.2.remove_keys(indices_of(st0.0.take(kx))));
            assert(fa == st0.3);
            assert(kx == expired_count(st0.0, iv[i as int].start));
            assert forall|j: int| 0 <= j < mst1.len() implies (#[trigger] mst1[j]).1 < i && mst1[j].0
                == iv[mst1[j].1 as int].expiration by {
                assert(mst1.to_set().contains(mst1[j]));
                assert(active0.contains(mst1[j]));
            }
            assert(!mst1.contains(entry)) by {
                if mst1.contains(entry) {
                    let j = choose|j: int| 0 <= j < mst1.len() && #[trigger] mst1[j] == entry;
                }
            }
        }
        let reg = take_free_register(&mut free_regs, &interval, is_leaf);
        if let Some(reg) = reg {
            active_assigned.insert(i, reg);
            final_assigned.insert(i, reg);
            active.insert((interval.expiration, i));
            proof {
                lemma_sorted_insert(mst1, entry);
                mst = sorted_insert(mst1, entry);
                assert(active@ =~= mst.to_set());
                assert forall|j: int| 0 <= j < mst.len() implies active_assigned@.contains_key(#[trigger] mst[j].1) by {
                    assert(mst.contains(mst[j]));
                    if mst[j] != entry {
                        assert(mst1.contains(mst[j]));
                        let j1 = choose|j1: int| 0 <= j1 < mst1.len() && #[trigger] mst1[j1] == mst[j];
                        assert(aa.contains_key(mst1[j1].1));
                    }
                }
                assert(active_assigned@ =~= aa.insert(i, reg));
                assert(final_assigned@ =~= fa.insert(i, reg));
                assert((mst, free_regs@, active_assigned@, final_assigned@) == scan_step(st0, iv, i as int, is_leaf));
                let p = choose|p: int| 0 <= p < fr.len() && fr[p] == reg && free_regs@ == swap_removed(fr, p);
                assert(alloc.contains(reg));
                if ok {
                    lemma_swap_removed(fr, p);
                    assert(fr.contains(reg));
                    assert forall|k: usize| #[trigger] fa.contains_key(k) && fa[k] == reg implies !aa.contains_key(k) by {
                        if aa.contains_key(k) {
                            assert(aa[k] == fa[k]);
                        }
                    }
                }
                assert forall|q: int| 0 <= q < free_regs@.len() implies alloc.contains(#[trigger] free_regs@[q]) by {
                    let q2 = if q == p { fr.len() - 1 } else { q };
                    assert(free_regs@[q] == fr[q2]);
                }
            }
        } else {
            // No free register: evict the active interval with the LOWEST
            // spill weight (cheapest to reload), but only if the current
            // interval has a higher weight (more valuable to keep in a register).
            proof {
                assert(pick_register(fr, interval, is_leaf) is None);
                assert(fr.len() == 0);
            }
            let evict_candidate = lowest_weight_active(&active, &intervals);
            let ghost act1 = active@;
            proof {
                if evict_candidate is None {
                    if mst1.len() > 0 {
                        assert(mst1.to_set().contains(mst1[0]));
                    }
                    assert((mst, free_regs@, active_assigned@, final_assigned@) == scan_step(st0, iv, i as int, is_leaf));
                }
            }
            if let Some((evict_idx, evict_exp, evict_weight)) = evict_candidate {
                let ghost pe: int = choose|p: int| 0 <= p < mst1.len() && #[trigger] mst1[p] == (evict_exp, evict_idx);
                proof {
                    assert(mst1.to_set().contains((evict_exp, evict_idx)));
                    assert(mst1.contains((evict_exp, evict_idx)));
                    assert(0 <= pe < mst1.len() && mst1[pe] == (evict_exp, evict_idx));
                    assert(is_lightest(mst1, iv, pe)) by {
                        assert forall|j: int| 0 <= j < mst1.len() implies iv[mst1[pe].1 as int].spill_weight
                            <= #[trigger] iv[mst1[j].1 as int].spill_weight by {
                            assert(mst1.to_set().contains(mst1[j]));
                        }
                        assert forall|j: int| 0 <= j < pe implies iv[mst1[pe].1 as int].spill_weight
                            < #[trigger] iv[mst1[j].1 as int].spill_weight by {
                            assert(mst1.to_set().contains(mst1[j]));
                            assert(pair_before(mst1[j], mst1[pe]));
                        }
                    }
                    lemma_lightest_unique(mst1, iv, pe);
                    assert(aa.contains_key(evict_idx));
                    if !(interval.spill_weight > evict_weight) {
                        assert((mst, free_regs@, active_assigned@, final_assigned@) == scan_step(
                            st0,
                            iv,
                            i as int,
                            is_leaf,
                        ));
                    }
                }
                if interval.spill_weight > evict_weight {
                    if let Some(reg) = active_assigned.remove(&evict_idx) {
                        active.remove(&(evict_exp, evict_idx));
                        // Evicted interval no longer has a stable whole-interval assignment.
                        final_assigned.remove(&evict_idx);
                        active_assigned.insert(i, reg);
                        final_assigned.insert(i, reg);
                        active.insert((interval.expiration, i));
                        proof {
                            let m2 = mst1.remove(pe);
                            lemma_ascending_remove(mst1, pe);
                            assert(!m2.contains(entry));
                            lemma_sorted_insert(m2, entry);
                            mst = sorted_insert(m2, entry);
                            assert(active@ =~= mst.to_set()) by {
                                assert forall|x: (usize, usize)| active@.contains(x) <==> mst.to_set().contains(x) by {
                                    assert(mst.contains(x) <==> mst.to_set().contains(x));
                                    assert(m2.contains(x) <==> mst1.contains(x) && x != mst1[pe]);
                                    assert(mst1.contains(x) <==> act1.contains(x));
                                }
                            }
                            assert forall|j: int| 0 <= j < mst.len() implies active_assigned@.contains_key(#[trigger] mst[j].1) by {
                                assert(mst.contains(mst[j]));
                                if mst[j] != entry {
                                    assert(m2.contains(mst[j]));
                                    let j1 = choose|j1: int| 0 <= j1 < mst1.len() && #[trigger] mst1[j1] == mst[j];
                                    assert(aa.contains_key(mst1[j1].1));
                                    assert(mst1[j1].1 != evict_idx) by {
                                        if mst1[j1].1 == evict_idx {
                                            assert(mst1[j1].0 == iv[evict_idx as int].expiration);
                                            assert(mst1[pe].0 == iv[evict_idx as int].expiration);
                                        }
                                    }
                                }
                            }
                            assert forall|k: usize| #[trigger] active_assigned@.contains_key(k) implies active@.contains(
                                (iv[k as int].expiration, k),
                            ) by {
                                if k != i {
                                    assert(aa.contains_key(k) && k != evict_idx);
                                    assert(act1.contains((iv[k as int].expiration, k)));
                                }
                            }
                            assert(active_assigned@ =~= aa.remove(evict_idx).insert(i, reg));
                            assert(final_assigned@ =~= fa.remove(evict_idx).insert(i, reg));
                            assert((mst, free_regs@, active_assigned@, final_assigned@) == scan_step(
                                st0,
                                iv,
                                i as int,
                                is_leaf,
                            ));
                            assert(aa.contains_key(evict_idx) && aa[evict_idx] == reg);
                            assert(alloc.contains(reg));
                            if ok {
                                assert forall|k: usize| #[trigger] fa.contains_key(k) && fa[k] == reg && k != evict_idx
                                    implies !aa.contains_key(k) by {
                                    if aa.contains_key(k) {
                                        assert(aa[k] == fa[k]);
                                    }
                                }
                            }
                        }
                    } else {
                        active.remove(&(evict_exp, evict_idx));
                        final_assigned.remove(&evict_idx);
                    }
                }
            }
            // else: current interval has lower/equal weight — spill it.
        }
        proof {
            if ok {
                assert forall|k: usize, j: int|
                    #[trigger] final_assigned@.contains_key(k) && !active_assigned@.contains_key(k) && i + 1 <= j
                        < n implies iv[k as int].expiration < #[trigger] iv[j].start by {}
            }
            assert(scan_run(iv, i + 1, alloc, is_leaf) == scan_step(scan_run(iv, i as int, alloc, is_leaf), iv, i as int, is_leaf));
        }
        i += 1;
    }

    // Build result from all non-evicted assignments (single pass).
    let entries = assignment_entries(&final_assigned);
    let ghost fa = final_assigned@;
    let mut t: usize = 0;
    while t < entries.len()
        invariant
            intervals@ == iv,
            n == iv.len(),
            lists_assignments(entries@, fa),
            result.stats == stats0,
            forall|k: usize| #[trigger] fa.contains_key(k) ==> k < n && alloc.contains(fa[k]),
            t <= entries@.len(),
            forall|key: usize| #[trigger]
                result.val_to_reg@.contains_key(key) ==> exists|u: int|
                    0 <= u < t && iv[entries@[u].0 as int].val_key.0 == key && #[trigger] entries@[u].1
                        == result.val_to_reg@[key],
            forall|s: i32| #[trigger]
                result.slot_to_reg@.contains_key(s) ==> exists|u: int|
                    0 <= u < t && iv[entries@[u].0 as int].slot == s && #[trigger] entries@[u].1
                        == result.slot_to_reg@[s],
            forall|r: u8| #[trigger]
                result.reg_to_slot@.contains_key(r) ==> exists|u: int|
                    0 <= u < t && #[trigger] entries@[u].1 == r && iv[entries@[u].0 as int].slot
                        == result.reg_to_slot@[r],
            keys_distinct(iv) ==> forall|u: int| #![trigger entries@[u]]
                0 <= u < t ==> result.val_to_reg@.contains_key(iv[entries@[u].0 as int].val_key.0)
                    && result.val_to_reg@[iv[entries@[u].0 as int].val_key.0] == entries@[u].1,
            slots_distinct(iv) ==> forall|u: int| #![trigger entries@[u]]
                0 <= u < t ==> result.slot_to_reg@.contains_key(iv[entries@[u].0 as int].slot)
                    && result.slot_to_reg@[iv[entries@[u].0 as int].slot] == entries@[u].1,
            forall|u: int| #![trigger entries@[u]]
                0 <= u < t ==> result.val_to_reg@.contains_key(iv[entries@[u].0 as int].val_key.0),
            forall|u: int| #![trigger entries@[u]]
                0 <= u < t ==> result.slot_to_reg@.contains_key(iv[entries@[u].0 as int].slot),
        decreases entries@.len() - t,
    {
        let (idx, reg) = entries[t];
        proof {
            assert(fa.contains_key(entries@[t as int].0));
        }
        let interval = intervals[idx];
        result.val_to_reg.insert(interval.val_key.0, reg);
        result.slot_to_reg.insert(interval.slot, reg);
        result.reg_to_slot.insert(reg, interval.slot);
        proof {
            if keys_distinct(iv) {
                assert forall|u: int| #![trigger entries@[u]] 0 <= u < t + 1 implies result.val_to_reg@.contains_key(
                    iv[entries@[u].0 as int].val_key.0,
                ) && result.val_to_reg@[iv[entries@[u].0 as int].val_key.0] == entries@[u].1 by {
                    if u < t {
                        if entries@[u].0 == idx {
                            assert(fa[idx] == entries@[u].1 && fa[idx] == reg);
                            assert(entries@[u] == entries@[t as int]);
                        } else {
                            let a = entries@[u].0 as int;
                            let b = idx as int;
                            assert(fa.contains_key(entries@[u].0));
                            if a < b {
                                assert(iv[a].val_key.0 != iv[b].val_key.0);
                            } else {
                                assert(iv[b].val_key.0 != iv[a].val_key.0);
                            }
                        }
                    }
                }
            }
            if slots_distinct(iv) {
                assert forall|u: int| #![trigger entries@[u]] 0 <= u < t + 1 implies result.slot_to_reg@.contains_key(
                    iv[entries@[u].0 as int].slot,
                ) && result.slot_to_reg@[iv[entries@[u].0 as int].slot] == entries@[u].1 by {
                    if u < t {
                        if entries@[u].0 == idx {
                            assert(fa[idx] == entries@[u].1 && fa[idx] == reg);
                            assert(entries@[u] == entries@[t as int]);
                        } else {
                            let a = entries@[u].0 as int;
                            let b = idx as int;
                            assert(fa.contains_key(entries@[u].0));
                            if a < b {
                                assert(iv[a].slot != iv[b].slot);
                            } else {
                                assert(iv[b].slot != iv[a].slot);
                            }
                        }
                    }
                }
            }
        }
        t += 1;
    }
    proof {
        // Positions in the input of the intervals that keep a register.
        assert forall|key: usize| #[trigger] result.val_to_reg@.contains_key(key) implies alloc.contains(
            result.val_to_reg@[key],
        ) && exists|a: int| 0 <= a < input.len() && #[trigger] input[a].val_key.0 == key by {
            let u = choose|u: int| 0 <= u < entries@.len() && iv[entries@[u].0 as int].val_key.0 == key
                && #[trigger] entries@[u].1 == result.val_to_reg@[key];
            let k = entries@[u].0 as int;
            assert(fa.contains_key(entries@[u].0));
            assert(input[perm[k]] == iv[k]);
        }
        assert forall|s: i32| #[trigger] result.slot_to_reg@.contains_key(s) implies alloc.contains(
            result.slot_to_reg@[s],
        ) && exists|a: int| 0 <= a < input.len() && #[trigger] input[a].slot == s by {
            let u = choose|u: int| 0 <= u < entries@.len() && iv[entries@[u].0 as int].slot == s
                && #[trigger] entries@[u].1 == result.slot_to_reg@[s];
            let k = entries@[u].0 as int;
            assert(fa.contains_key(entries@[u].0));
            assert(input[perm[k]] == iv[k]);
        }
        assert forall|r: u8| #[trigger] result.reg_to_slot@.contains_key(r) implies alloc.contains(r)
            && exists|a: int| 0 <= a < input.len() && #[trigger] input[a].slot == result.reg_to_slot@[r] by {
            let u = choose|u: int| 0 <= u < entries@.len() && #[trigger] entries@[u].1 == r
                && iv[entries@[u].0 as int].slot == result.reg_to_slot@[r];
            let k = entries@[u].0 as int;
            assert(fa.contains_key(entries@[u].0));
            assert(input[perm[k]] == iv[k]);
        }
        if keys_distinct(input) {
            assert(keys_distinct(iv)) by {
                assert forall|a: int, b: int| 0 <= a < b < iv.len() implies #[trigger] iv[a].val_key.0
                    != #[trigger] iv[b].val_key.0 by {
                    assert(perm[a] != perm[b]);
                    assert(iv[a] == input[perm[a]] && iv[b] == input[perm[b]]);
                    if perm[a] < perm[b] {
                        assert(input[perm[a]].val_key.0 != input[perm[b]].val_key.0);
                    } else {
                        assert(input[perm[b]].val_key.0 != input[perm[a]].val_key.0);
                    }
                }
            }
            assert forall|r: u8| #[trigger] result.reg_to_slot@.contains_key(r) implies exists|a: int|
                0 <= a < input.len() && #[trigger] input[a].slot == result.reg_to_slot@[r]
                    && result.val_to_reg@.contains_key(input[a].val_key.0)
                    && result.val_to_reg@[input[a].val_key.0] == r by {
                let u = choose|u: int| 0 <= u < entries@.len() && #[trigger] entries@[u].1 == r
                    && iv[entries@[u].0 as int].slot == result.reg_to_slot@[r];
                let k = entries@[u].0 as int;
                assert(fa.contains_key(entries@[u].0));
                assert(input[perm[k]] == iv[k]);
                assert(result.val_to_reg@[iv[k].val_key.0] == entries@[u].1);
            }
            if slots_distinct(input) {
                assert(slots_distinct(iv)) by {
                    assert forall|a: int, b: int| 0 <= a < b < iv.len() implies #[trigger] iv[a].slot
                        != #[trigger] iv[b].slot by {
                        assert(perm[a] != perm[b]);
                        assert(iv[a] == input[perm[a]] && iv[b] == input[perm[b]]);
                        if perm[a] < perm[b] {
                            assert(input[perm[a]].slot != input[perm[b]].slot);
                        } else {
                            assert(input[perm[b]].slot != input[perm[a]].slot);
                        }
                    }
                }
                assert forall|a: int|
                    0 <= a < input.len() && result.val_to_reg@.contains_key(#[trigger] input[a].val_key.0)
                        implies result.slot_to_reg@.contains_key(input[a].slot)
                    && result.slot_to_reg@[input[a].slot] == result.val_to_reg@[input[a].val_key.0] by {
                    let u = choose|u: int| 0 <= u < entries@.len() && iv[entries@[u].0 as int].val_key.0
                        == input[a].val_key.0 && #[trigger] entries@[u].1 == result.val_to_reg@[input[a].val_key.0];
                    let k = entries@[u].0 as int;
                    assert(fa.contains_key(entries@[u].0));
                    assert(input[perm[k]] == iv[k]);
                    assert(perm[k] == a) by {
                        if perm[k] != a {
                            if perm[k] < a {
                                assert(input[perm[k]].val_key.0 != input[a].val_key.0);
                            } else {
                                assert(input[a].val_key.0 != input[perm[k]].val_key.0);
                            }
                        }
                    }
                }
            }
        }
        if alloc.len() >= input.len() {
            assert forall|a: int| 0 <= a < input.len() implies result.val_to_reg@.contains_key(
                #[trigger] input[a].val_key.0,
            ) by {
                assert(taken(perm, a));
                let k = choose|k: int| 0 <= k < perm.len() && #[trigger] perm[k] == a;
                assert(fa.contains_key(k as usize));
                assert(entries@.contains((k as usize, fa[k as usize])));
                let u = choose|u: int| 0 <= u < entries@.len() && entries@[u] == (k as usize, fa[k as usize]);
                assert(input[perm[k]] == iv[k]);
                assert(result.val_to_reg@.contains_key(iv[entries@[u].0 as int].val_key.0));
            }
        }
        if ok && keys_distinct(input) {
            assert(keys_distinct(iv)) by {
                assert forall|a: int, b: int| 0 <= a < b < iv.len() implies #[trigger] iv[a].val_key.0
                    != #[trigger] iv[b].val_key.0 by {
                    assert(perm[a] != perm[b]);
                    assert(iv[a] == input[perm[a]] && iv[b] == input[perm[b]]);
                    if perm[a] < perm[b] {
                        assert(input[perm[a]].val_key.0 != input[perm[b]].val_key.0);
                    } else {
                        assert(input[perm[b]].val_key.0 != input[perm[a]].val_key.0);
                    }
                }
            }
            assert forall|a: int, b: int|
                0 <= a < input.len() && 0 <= b < input.len() && a != b
                    && result.val_to_reg@.contains_key(#[trigger] input[a].val_key.0)
                    && result.val_to_reg@.contains_key(#[trigger] input[b].val_key.0)
                    && result.val_to_reg@[input[a].val_key.0] == result.val_to_reg@[input[b].val_key.0]
                    implies disjoint_in_time(input[a], input[b]) by {
                let ua = choose|u: int| 0 <= u < entries@.len() && iv[entries@[u].0 as int].val_key.0
                    == input[a].val_key.0 && #[trigger] entries@[u].1 == result.val_to_reg@[input[a].val_key.0];
                let ub = choose|u: int| 0 <= u < entries@.len() && iv[entries@[u].0 as int].val_key.0
                    == input[b].val_key.0 && #[trigger] entries@[u].1 == result.val_to_reg@[input[b].val_key.0];
                let ka = entries@[ua].0;
                let kb = entries@[ub].0;
                assert(fa.contains_key(ka) && fa.contains_key(kb));
                assert(input[perm[ka as int]] == iv[ka as int]);
                assert(input[perm[kb as int]] == iv[kb as int]);
                assert(perm[ka as int] == a) by {
                    if perm[ka as int] != a {
                        if perm[ka as int] < a {
                            assert(input[perm[ka as int]].val_key.0 != input[a].val_key.0);
                        } else {
                            assert(input[a].val_key.0 != input[perm[ka as int]].val_key.0);
                        }
                    }
                }
                assert(perm[kb as int] == b) by {
                    if perm[kb as int] != b {
                        if perm[kb as int] < b {
                            assert(input[perm[kb as int]].val_key.0 != input[b].val_key.0);
                        } else {
                            assert(input[b].val_key.0 != input[perm[kb as int]].val_key.0);
                        }
                    }
                }
                assert(ka != kb);
                assert(fa[ka] == entries@[ua].1 && fa[kb] == entries@[ub].1);
            }
        }
    }
    proof {
        let sa = scan_assignment(input, alloc, is_leaf);
        assert(sa == fa);
        assert(iv == scan_sorted(input));
        assert forall|key: usize| #[trigger] result.val_to_reg@.contains_key(key) <==> exists|k: usize|
            #[trigger] sa.contains_key(k) && iv[k as int].val_key.0 == key by {
            if result.val_to_reg@.contains_key(key) {
                let u = choose|u: int| 0 <= u < entries@.len() && iv[entries@[u].0 as int].val_key.0 == key
                    && #[trigger] entries@[u].1 == result.val_to_reg@[key];
                assert(fa.contains_key(entries@[u].0));
            }
            if exists|k: usize| #[trigger] sa.contains_key(k) && iv[k as int].val_key.0 == key {
                let k = choose|k: usize| #[trigger] sa.contains_key(k) && iv[k as int].val_key.0 == key;
                assert(entries@.contains((k, fa[k])));
                let u = choose|u: int| 0 <= u < entries@.len() && entries@[u] == (k, fa[k]);
                assert(result.val_to_reg@.contains_key(iv[entries@[u].0 as int].val_key.0));
            }
        }
        assert forall|s: i32| #[trigger] result.slot_to_reg@.contains_key(s) <==> exists|k: usize|
            #[trigger] sa.contains_key(k) && iv[k as int].slot == s by {
            if result.slot_to_reg@.contains_key(s) {
                let u = choose|u: int| 0 <= u < entries@.len() && iv[entries@[u].0 as int].slot == s
                    && #[trigger] entries@[u].1 == result.slot_to_reg@[s];
                assert(fa.contains_key(entries@[u].0));
            }
            if exists|k: usize| #[trigger] sa.contains_key(k) && iv[k as int].slot == s {
                let k = choose|k: usize| #[trigger] sa.contains_key(k) && iv[k as int].slot == s;
                assert(entries@.contains((k, fa[k])));
                let u = choose|u: int| 0 <= u < entries@.len() && entries@[u] == (k, fa[k]);
                assert(result.slot_to_reg@.contains_key(iv[entries@[u].0 as int].slot)) by {
                    assert(fa.contains_key(entries@[u].0));
                }
            }
        }
        if keys_distinct(input) {
            assert(keys_distinct(iv)) by {
                assert forall|a: int, b: int| 0 <= a < b < iv.len() implies #[trigger] iv[a].val_key.0
                    != #[trigger] iv[b].val_key.0 by {
                    assert(perm[a] != perm[b]);
                    assert(iv[a] == input[perm[a]] && iv[b] == input[perm[b]]);
                    if perm[a] < perm[b] {
                        assert(input[perm[a]].val_key.0 != input[perm[b]].val_key.0);
                    } else {
                        assert(input[perm[b]].val_key.0 != input[perm[a]].val_key.0);
                    }
                }
            }
            assert forall|k: usize| #[trigger] sa.contains_key(k) implies result.val_to_reg@[iv[k as int].val_key.0]
                == sa[k] by {
                assert(entries@.contains((k, fa[k])));
                let u = choose|u: int| 0 <= u < entries@.len() && entries@[u] == (k, fa[k]);
                assert(result.val_to_reg@[iv[entries@[u].0 as int].val_key.0] == entries@[u].1);
            }
        }
        if slots_distinct(input) {
            assert(slots_distinct(iv)) by {
                assert forall|a: int, b: int| 0 <= a < b < iv.len() implies #[trigger] iv[a].slot
                    != #[trigger] iv[b].slot by {
                    assert(perm[a] != perm[b]);
                    assert(iv[a] == input[perm[a]] && iv[b] == input[perm[b]]);
                    if perm[a] < perm[b] {
                        assert(input[perm[a]].slot != input[perm[b]].slot);
                    } else {
                        assert(input[perm[b]].slot != input[perm[a]].slot);
                    }
                }
            }
            assert forall|k: usize| #[trigger] sa.contains_key(k) implies result.slot_to_reg@[iv[k as int].slot]
                == sa[k] by {
                assert(entries@.contains((k, fa[k])));
                let u = choose|u: int| 0 <= u < entries@.len() && entries@[u] == (k, fa[k]);
                assert(result.slot_to_reg@[iv[entries@[u].0 as int].slot] == entries@[u].1);
            }
        }
    }
    result
}

/// Number of entries of `s` strictly between `lo` and `hi`.
pub open spec fn count_between(s: Seq<usize>, lo: int, hi: int) -> nat
    decreases s.len(),
{
    if s.len() == 0 {
        0
    } else {
        count_between(s.drop_last(), lo, hi) + if lo < s.last() < hi {
            1nat
        } else {
            0nat
        }
    }
}

/// The entries of `s` never decrease.
pub open spec fn is_sorted(s: Seq<usize>) -> bool {
    forall|i: int, j: int| 0 <= i <= j < s.len() ==> s[i] <= s[j]
}

/// Index of the first entry of a sorted slice above `bound` (`inclusive`:
/// at or above `bound`). On an unsorted slice, some index of the slice
/// (or its length).
fn partition_above(s: &[usize], bound: usize, inclusive: bool) -> (r: usize)
    ensures
        r <= s@.len(),
        is_sorted(s@) ==> (forall|j: int| 0 <= j < r ==> (if inclusive {
            s@[j] < bound
        } else {
            s@[j] <= bound
        })),
        is_sorted(s@) ==> (forall|j: int| r <= j < s@.len() ==> (if inclusive {
            s@[j] >= bound
        } else {
            s@[j] > bound
        })),
{
    let mut lo: usize = 0;
    let mut hi: usize = s.len();
    while lo < hi
        invariant
            lo <= hi <= s@.len(),
            is_sorted(s@) ==> (forall|j: int| 0 <= j < lo ==> (if inclusive {
                s@[j] < bound
            } else {
                s@[j] <= bound
            })),
            is_sorted(s@) ==> (forall|j: int| hi <= j < s@.len() ==> (if inclusive {
                s@[j] >= bound
            } else {
                s@[j] > bound
            })),
        decreases hi - lo,
    {
        let mid = lo + (hi - lo) / 2;
        let below = if inclusive {
            s[mid] < bound
        } else {
            s[mid] <= bound
        };
        if below {
            lo = mid + 1;
        } else {
            hi = mid;
        }
    }
    lo
}

proof fn lemma_count_none(s: Seq<usize>, lo: int, hi: int)
    requires
        forall|j: int| 0 <= j < s.len() ==> !(lo < #[trigger] s[j] < hi),
    ensures
        count_between(s, lo, hi) == 0,
    decreases s.len(),
{
    if s.len() > 0 {
        assert forall|j: int| 0 <= j < s.len() - 1 implies !(lo < #[trigger] s.drop_last()[j] < hi) by {
            assert(s.drop_last()[j] == s[j]);
        }
        lemma_count_none(s.drop_last(), lo, hi);
    }
}

/// Splitting the open interval `(lo, hi)` at `mid`.
proof fn lemma_count_split(s: Seq<usize>, lo: int, mid: int, hi: int)
    requires
        lo <= mid < hi,
    ensures
        count_between(s, lo, hi) == count_between(s, lo, mid + 1) + count_between(s, mid, hi),
    decreases s.len(),
{
    if s.len() > 0 {
        lemma_count_split(s.drop_last(), lo, mid, hi);
    }
}

/// Count how many call positions fall strictly within the range
/// `(start, end)`. The defining call (at `start`) and the consuming call (at
/// `end`) are excluded, since they need no spill and reload around them.
/// The positions are expected sorted, as they are collected.
pub fn count_spanning_calls(call_positions: &[usize], start: usize, end: usize) -> (r: usize)
    ensures
        is_sorted(call_positions@) ==> r == count_between(call_positions@, start as int, end as int),
        r <= call_positions@.len(),
{
    let lo = partition_above(call_positions, start, false);  // first p > start
    let hi = partition_above(call_positions, end, true);  // first p >= end
    let r = hi.saturating_sub(lo);
    proof {
        let s = call_positions@;
        if is_sorted(s) {
            let n = s.len() as int;
            if start < end {
                // `lo` positions lie at or below `start`, `hi` below `end`.
                lemma_count_upto(s, start as int + 1, lo as int);
                lemma_count_upto(s, end as int, hi as int);
                lemma_count_split(s, -1, start as int, end as int);
            } else {
                assert forall|j: int| 0 <= j < n implies !(start < #[trigger] s[j] < end) by {}
                lemma_count_none(s, start as int, end as int);
                if lo < hi {
                    assert(s[lo as int] > start && s[lo as int] < end);
                }
            }
        }
    }
    r
}

/// In a sorted sequence whose first `k` entries are below `b` and the rest
/// at or above it, `k` entries lie below `b`.
proof fn lemma_count_upto(s: Seq<usize>, b: int, k: int)
    requires
        0 <= k <= s.len(),
        forall|j: int| 0 <= j < k ==> #[trigger] s[j] < b,
        forall|j: int| k <= j < s.len() ==> #[trigger] s[j] >= b,
    ensures
        count_between(s, -1, b) == k,
    decreases s.len(),
{
    if s.len() > 0 {
        if k == s.len() {
            assert forall|j: int| 0 <= j < k - 1 implies #[trigger] s.drop_last()[j] < b by {
                assert(s.drop_last()[j] == s[j]);
            }
            lemma_count_upto(s.drop_last(), b, k - 1);
        } else {
            assert forall|j: int| 0 <= j < k implies #[trigger] s.drop_last()[j] < b by {
                assert(s.drop_last()[j] == s[j]);
            }
            assert forall|j: int| k <= j < s.len() - 1 implies #[trigger] s.drop_last()[j] >= b by {
                assert(s.drop_last()[j] == s[j]);
            }
            lemma_count_upto(s.drop_last(), b, k);
        }
    }
}

} // verus!
