//! The PVM code emitter of one function: instruction stream, labels and jump
//! fixups, stack slots, and the register cache that forwards stack slots and
//! constants already held in registers.
use super::control_flow::{
    cache_holds, keeps_cache, lemma_const_load_keeps_cache, lemma_load_keeps_cache, lemma_reg_write_keeps_cache, lemma_run_one, run_slots,
    slot_step, SlotState,
};
use super::regalloc::RegAllocResult;
use crate::abi::{FRAME_HEADER_SIZE, STACK_PTR_REG};
use crate::error::{Error, Result};
use crate::pvm::blob::code_bytes;
use crate::pvm::instruction::Instruction;
use crate::pvm::peephole::{instruction_offsets, lemma_offset_mono, offset_of};
use crate::text::{dec_digits, push_dec};
use std::collections::HashMap;
use vstd::prelude::*;
use vstd::std_specs::iter::IteratorSpec;
use vstd::string::*;

verus! {

broadcast use vstd::std_specs::hash::group_hash_axioms;

/// Result of lowering one function to PVM instructions.
pub struct LlvmFunctionTranslation {
    pub instructions: Vec<Instruction>,
    pub call_fixups: Vec<LlvmCallFixup>,
    pub indirect_call_fixups: Vec<LlvmIndirectCallFixup>,
    /// Number of call return addresses allocated by this function (for jump table indexing).
    pub num_call_returns: usize,
}

/// A direct call site awaiting its target address: the instruction that loads
/// the return address, the jump to the callee, and the callee's index.
#[derive(Debug, Clone)]
pub struct LlvmCallFixup {
    pub return_addr_instr: usize,
    pub jump_instr: usize,
    pub target_func: u32,
}

/// An indirect call site: the instruction that loads the return address and
/// the indirect jump.
#[derive(Debug, Clone)]
pub struct LlvmIndirectCallFixup {
    pub return_addr_instr: usize,
    pub jump_ind_instr: usize,
}

/// Per-function configuration for the PVM emitter, fixed when lowering
/// begins.
pub struct EmitterConfig {
    /// For entry functions: (`result_ptr_global`, `result_len_global`) indices.
    /// When set, the epilogue loads these globals into r7/r8 before exiting.
    pub result_globals: Option<(u32, u32)>,
    /// When true, the entry function's return value is a packed i64:
    /// lower 32 bits = ptr (WASM address), upper 32 bits = len.
    pub entry_returns_ptr_len: bool,
    /// WASM memory base address (for converting WASM addresses to PVM addresses).
    pub wasm_memory_base: i32,
    /// Whether the register cache (store-load forwarding) is enabled.
    pub register_cache_enabled: bool,
    /// Whether constant propagation (redundant `LoadImm` elimination) is enabled.
    pub constant_propagation_enabled: bool,
    /// Whether compare-and-branch fusion is enabled.
    pub icmp_fusion_enabled: bool,
    /// Whether callee-save shrink wrapping is enabled.
    pub shrink_wrap_enabled: bool,
    /// Whether cross-block register cache propagation is enabled.
    pub cross_block_cache_enabled: bool,
    /// Whether register allocation (r5/r6 for long-lived values) is enabled.
    pub register_allocation_enabled: bool,
}

/// Key of a value in the slot and register maps.
#[derive(Debug, Clone, Copy, PartialEq, Eq, Hash)]
pub struct ValKey(pub usize);

/// An operand of an integer instruction, as the lowering sees it.
#[derive(Debug, Clone, Copy, PartialEq, Eq)]
pub enum Operand {
    /// An integer constant, by its sign-extended 64-bit value.
    Const(i64),
    /// A value computed by an instruction or passed as a parameter.
    Value(ValKey),
    /// A poison or undefined value (any value will do; zero is used).
    Undef,
}

/// The predicate of an integer comparison.
#[derive(Debug, Clone, Copy, PartialEq, Eq)]
pub enum IntPred {
    EQ,
    NE,
    UGT,
    UGE,
    ULT,
    ULE,
    SGT,
    SGE,
    SLT,
    SLE,
}

/// A comparison left for the branch that uses it to fuse into one
/// compare-and-branch.
#[derive(Debug, Clone, Copy, PartialEq, Eq)]
pub struct FusedCompare {
    pub predicate: IntPred,
    pub lhs: Operand,
    pub rhs: Operand,
}

/// Context for lowering functions from a single WASM module.
pub struct LoweringContext {
    pub wasm_memory_base: i32,
    pub num_globals: usize,
    /// Per function: (number of parameters, whether it returns a value).
    pub function_signatures: Vec<(usize, bool)>,
    /// Per type: (number of parameters, number of results).
    pub type_signatures: Vec<(usize, usize)>,
    pub function_table: Vec<u32>,
    pub num_imported_funcs: usize,
    pub imported_func_names: Vec<String>,
    pub initial_memory_pages: u32,
    pub max_memory_pages: u32,
    pub stack_size: u32,
    /// Map from data segment index to offset in `RO_DATA` (for passive segments).
    pub data_segment_offsets: HashMap<u32, u32>,
    /// Map from data segment index to byte length (for passive segments bounds checking).
    pub data_segment_lengths: HashMap<u32, u32>,
    /// Map from data segment index to the PVM address holding its effective
    /// length at run time.
    pub data_segment_length_addrs: HashMap<u32, i32>,
}

/// Snapshot of the register cache state for cross-block propagation.
#[derive(Clone)]
pub struct CacheSnapshot {
    pub slot_cache: HashMap<i32, u8>,
    pub reg_to_slot: [Option<i32>; 13],
    pub reg_to_const: [Option<u64>; 13],
}

/// The slot map and the register-to-slot table describe the same pairs:
/// register `r` holds slot `s` exactly when the map sends `s` to `r`.
pub open spec fn cache_coherent(slots: Map<i32, u8>, reg_to_slot: Seq<Option<i32>>) -> bool {
    &&& reg_to_slot.len() == 13
    &&& forall|r: int|
        0 <= r < 13 ==> (#[trigger] reg_to_slot[r] matches Some(s) ==> slots.contains_key(s)
            && slots[s] == r)
    &&& forall|s: i32|
        #[trigger] slots.contains_key(s) ==> slots[s] < 13 && reg_to_slot[slots[s] as int] == Some(
            s,
        )
}

/// The slot map without the slot that `reg` held, if any.
pub open spec fn slots_without_reg(
    slots: Map<i32, u8>,
    reg_to_slot: Seq<Option<i32>>,
    reg: int,
) -> Map<i32, u8> {
    match reg_to_slot[reg] {
        Some(s) => slots.remove(s),
        None => slots,
    }
}

impl CacheSnapshot {
    /// The snapshot describes a coherent register cache.
    pub open spec fn coherent(&self) -> bool {
        &&& cache_coherent(self.slot_cache@, self.reg_to_slot@)
        &&& self.reg_to_const@.len() == 13
    }

    /// Invalidate a register's cache entries in this snapshot.
    /// Used to remove entries for registers that a terminator may clobber.
    pub fn invalidate_reg(&mut self, reg: u8)
        requires
            reg < 13,
        ensures
            final(self).slot_cache@ == slots_without_reg(
                old(self).slot_cache@,
                old(self).reg_to_slot@,
                reg as int,
            ),
            final(self).reg_to_slot@ == old(self).reg_to_slot@.update(reg as int, None),
            final(self).reg_to_const@ == old(self).reg_to_const@.update(reg as int, None),
            old(self).coherent() ==> final(self).coherent(),
    {
        let ghost start = *self;
        let held = self.reg_to_slot[reg as usize];
        if let Some(slot) = held {
            self.reg_to_slot[reg as usize] = None;
            self.slot_cache.remove(&slot);
        }
        self.reg_to_const[reg as usize] = None;
        proof {
            assert(self.reg_to_slot@ =~= start.reg_to_slot@.update(reg as int, None));
            assert(self.reg_to_const@ =~= start.reg_to_const@.update(reg as int, None));
            if start.coherent() {
                lemma_forget_reg_coherent(start.slot_cache@, start.reg_to_slot@, reg as int);
            }
        }
    }
}

/// Forgetting what a register holds keeps the cache coherent.
proof fn lemma_forget_reg_coherent(slots: Map<i32, u8>, reg_to_slot: Seq<Option<i32>>, reg: int)
    requires
        cache_coherent(slots, reg_to_slot),
        0 <= reg < 13,
    ensures
        cache_coherent(
            slots_without_reg(slots, reg_to_slot, reg),
            reg_to_slot.update(reg, None),
        ),
{
    let m = slots_without_reg(slots, reg_to_slot, reg);
    let t = reg_to_slot.update(reg, None);
    assert forall|r: int| 0 <= r < 13 implies (#[trigger] t[r] matches Some(s) ==> m.contains_key(s)
        && m[s] == r) by {
        if r != reg {
            assert(reg_to_slot[r] matches Some(s) ==> slots.contains_key(s) && slots[s] == r);
            match reg_to_slot[reg] {
                Some(s0) => {
                    assert(slots[s0] == reg);
                },
                None => {},
            }
        }
    }
    assert forall|s: i32| #[trigger] m.contains_key(s) implies m[s] < 13 && t[m[s] as int] == Some(
        s,
    ) by {
        assert(slots.contains_key(s));
        assert(reg_to_slot[slots[s] as int] == Some(s));
        if slots[s] == reg {
            assert(reg_to_slot[reg] == Some(s));
        }
    }
}


/// PVM code emitter for a single function.
pub struct PvmEmitter {
    /// Per-function configuration (fixed after construction).
    pub config: EmitterConfig,
    pub instructions: Vec<Instruction>,
    pub labels: Vec<Option<usize>>,
    /// Jump fixups: (instruction index, label id).
    pub fixups: Vec<(usize, usize)>,
    /// Value → stack slot offset from SP, keyed by the value's key.
    pub value_slots: HashMap<usize, i32>,
    /// Next available slot offset (bump allocator, starts after the frame header).
    pub next_slot_offset: i32,
    /// Total frame size (set after pre-scan).
    pub frame_size: i32,
    pub call_fixups: Vec<LlvmCallFixup>,
    pub indirect_call_fixups: Vec<LlvmIndirectCallFixup>,
    /// Current byte offset of the emitted code.
    pub byte_offset: usize,
    /// Stack slot offset → register that currently holds that slot's value.
    pub slot_cache: HashMap<i32, u8>,
    /// Register → slot offset it holds (for fast invalidation).
    pub reg_to_slot: [Option<i32>; 13],
    /// Register → constant value it is known to hold (for constant propagation).
    pub reg_to_const: [Option<u64>; 13],
    /// Next jump table index for call return addresses.
    pub next_call_return_idx: usize,
    /// Base index for call return addresses (set from the global counter).
    pub call_return_base_idx: usize,
    /// Which callee-saved registers (r9-r12) this function uses.
    pub used_callee_regs: [bool; 4],
    /// Frame offset for each callee-saved register (r9-r12), if saved.
    pub callee_save_offsets: [Option<i32>; 4],
    /// Whether the function contains any call instructions.
    pub has_calls: bool,
    /// Register allocation results (empty if disabled).
    pub regalloc: RegAllocResult,
    /// A comparison deferred to the branch that uses it.
    pub pending_compare: Option<FusedCompare>,
}

/// The 64-bit value a `LoadImm` of `value` leaves in its register (the sign
/// extension of the 32-bit immediate).
pub open spec fn sext64(value: i32) -> u64 {
    (value as i64) as u64
}

/// The register and 64-bit constant that a constant load writes.
pub open spec fn const_load(instr: Instruction) -> Option<(u8, u64)> {
    match instr {
        Instruction::LoadImm { reg, value } => Some((reg, sext64(value))),
        Instruction::LoadImm64 { reg, value } => Some((reg, value)),
        _ => None,
    }
}

/// The constant register `r` holds after `instr` executes, given the one it
/// held before: a constant load writes its constant (when constant
/// propagation is on), any other write forgets it.
pub open spec fn const_after(prev: Option<u64>, enabled: bool, instr: Instruction, r: int) -> Option<
    u64,
> {
    match const_load(instr) {
        Some((reg, v)) => if enabled && reg == r {
            Some(v)
        } else if instr.dest() == Some(r as u8) {
            None
        } else {
            prev
        },
        None => if instr.dest() == Some(r as u8) {
            None
        } else {
            prev
        },
    }
}

impl PvmEmitter {
    /// The slot register `r` is known to hold.
    pub open spec fn reg_slot(&self, r: int) -> Option<i32> {
        self.reg_to_slot@[r]
    }

    /// The constant register `r` is known to hold.
    pub open spec fn reg_const(&self, r: int) -> Option<u64> {
        self.reg_to_const@[r]
    }

    /// Slot → register holding it.
    pub open spec fn slot_map(&self) -> Map<i32, u8> {
        self.slot_cache@
    }

    /// Value key → stack slot offset.
    pub open spec fn slots(&self) -> Map<usize, i32> {
        self.value_slots@
    }

    /// The first call-return index of this function.
    pub open spec fn call_return_base(&self) -> usize {
        self.call_return_base_idx
    }

    /// The emitter's state is consistent: the byte offset is the code length,
    /// the register cache is coherent, the call-return counter has not gone
    /// below its base, and allocated registers are PVM registers.
    pub open spec fn wf(&self) -> bool {
        &&& self.byte_offset == code_bytes(self.instructions@).len()
        &&& cache_coherent(self.slot_cache@, self.reg_to_slot@)
        &&& self.reg_to_const@.len() == 13
        &&& self.next_call_return_idx >= self.call_return_base_idx
        &&& forall|s: i32| #[trigger]
            self.regalloc.slot_to_reg@.contains_key(s) ==> self.regalloc.slot_to_reg@[s] < 13
        &&& forall|r: u8| #[trigger]
            self.regalloc.reg_to_slot@.contains_key(r) ==> r < 13
    }

    /// Everything but the code, the byte offset and the register cache is
    /// the same in `self` and `other`.
    pub open spec fn same_frame(&self, other: &PvmEmitter) -> bool {
        &&& self.same_frame_but_fixups(other)
        &&& self.fixups@ == other.fixups@
    }

    /// Everything but the code, the byte offset, the register cache and the
    /// jump fixups is the same in `self` and `other`.
    pub open spec fn same_frame_but_fixups(&self, other: &PvmEmitter) -> bool {
        &&& self.labels@ == other.labels@
        &&& self.same_body(other)
    }

    /// Everything but the code, the byte offset, the register cache, the
    /// labels and the jump fixups is the same in `self` and `other`.
    pub open spec fn same_body(&self, other: &PvmEmitter) -> bool {
        &&& self.config == other.config
        &&& self.slots() == other.slots()
        &&& self.next_slot_offset == other.next_slot_offset
        &&& self.frame_size == other.frame_size
        &&& self.call_fixups@ == other.call_fixups@
        &&& self.indirect_call_fixups@ == other.indirect_call_fixups@
        &&& self.next_call_return_idx == other.next_call_return_idx
        &&& self.call_return_base() == other.call_return_base()
        &&& self.used_callee_regs == other.used_callee_regs
        &&& self.callee_save_offsets == other.callee_save_offsets
        &&& self.has_calls == other.has_calls
        &&& self.regalloc == other.regalloc
        &&& self.pending_compare == other.pending_compare
    }

    /// The register cache of `self` is empty.
    pub open spec fn cache_empty(&self) -> bool {
        &&& self.slot_map() == Map::<i32, u8>::empty()
        &&& forall|r: int| 0 <= r < 13 ==> #[trigger] self.reg_slot(r) is None && self.reg_const(r) is None
    }

    /// `emit(instr)` leaves the stream as it is: constant propagation is on
    /// and the register already holds the constant the load would write.
    pub open spec fn emit_skips(&self, instr: Instruction) -> bool {
        &&& self.config.constant_propagation_enabled
        &&& const_load(instr) matches Some((reg, v)) && self.reg_const(reg as int) == Some(v)
    }

    /// `new` is the state after emitting `instr` into `old`.
    pub open spec fn emitted(old: &PvmEmitter, new: &PvmEmitter, instr: Instruction) -> bool {
        if old.emit_skips(instr) {
            new == old
        } else {
            &&& new.same_frame(old)
            &&& new.instructions@ == old.instructions@.push(instr)
            &&& new.byte_offset == old.byte_offset + instr.encoding().len()
            &&& new.slot_map() == match instr.dest() {
                Some(d) => match old.reg_slot(d as int) {
                    Some(s) => old.slot_map().remove(s),
                    None => old.slot_map(),
                },
                None => old.slot_map(),
            }
            &&& forall|r: int|
                0 <= r < 13 ==> #[trigger] new.reg_slot(r) == (if instr.dest() == Some(r as u8) {
                    None
                } else {
                    old.reg_slot(r)
                })
            &&& forall|r: int|
                0 <= r < 13 ==> #[trigger] new.reg_const(r) == const_after(
                    old.reg_const(r),
                    old.config.constant_propagation_enabled,
                    instr,
                    r,
                )
        }
    }

    /// An emitter with an empty stream and cache, the frame header as the
    /// first free slot, and `call_return_base` as the first call-return index.
    pub fn new(config: EmitterConfig, call_return_base: usize) -> (r: Self)
        ensures
            r.wf(),
            r.config == config,
            r.instructions@ == Seq::<Instruction>::empty(),
            r.labels@ == Seq::<Option<usize>>::empty(),
            r.fixups@ == Seq::<(usize, usize)>::empty(),
            r.slots() == Map::<usize, i32>::empty(),
            r.next_slot_offset == FRAME_HEADER_SIZE,
            r.frame_size == 0,
            r.call_fixups@ == Seq::<LlvmCallFixup>::empty(),
            r.indirect_call_fixups@ == Seq::<LlvmIndirectCallFixup>::empty(),
            r.byte_offset == 0,
            r.cache_empty(),
            r.next_call_return_idx == call_return_base,
            r.call_return_base() == call_return_base,
            r.used_callee_regs@ == seq![true, true, true, true],
            r.callee_save_offsets@ == seq![Some(8i32), Some(16i32), Some(24i32), Some(32i32)],
            r.has_calls,
            r.regalloc.slot_to_reg@ == Map::<i32, u8>::empty(),
            r.regalloc.reg_to_slot@ == Map::<u8, i32>::empty(),
    {
        let r = PvmEmitter {
            config,
            instructions: Vec::new(),
            labels: Vec::new(),
            fixups: Vec::new(),
            value_slots: HashMap::new(),
            next_slot_offset: FRAME_HEADER_SIZE,
            frame_size: 0,
            call_fixups: Vec::new(),
            indirect_call_fixups: Vec::new(),
            byte_offset: 0,
            slot_cache: HashMap::new(),
            reg_to_slot: [None; 13],
            reg_to_const: [None; 13],
            next_call_return_idx: call_return_base,
            call_return_base_idx: call_return_base,
            used_callee_regs: [true; 4],
            callee_save_offsets: [Some(8), Some(16), Some(24), Some(32)],
            has_calls: true,  // conservative default
            regalloc: RegAllocResult::default(),
            pending_compare: None,
        };
        proof {
            assert(code_bytes(r.instructions@) =~= Seq::<u8>::empty());
            assert(r.used_callee_regs@ =~= seq![true, true, true, true]);
            assert(r.callee_save_offsets@ =~= seq![Some(8i32), Some(16i32), Some(24i32), Some(32i32)]);
        }
        r
    }

    /// Allocate a call return address (jump table address) for a direct call
    /// site: `(index + 1) * 2` for the next jump table index.
    pub fn alloc_call_return_addr(&mut self) -> (r: i32)
        requires
            (old(self).next_call_return_idx + 1) * 2 <= i32::MAX,
            old(self).wf(),
        ensures
            r == (old(self).next_call_return_idx + 1) * 2,
            final(self).next_call_return_idx == old(self).next_call_return_idx + 1,
            final(self).wf(),
            final(self).instructions@ == old(self).instructions@,
            final(self).labels@ == old(self).labels@,
            final(self).fixups@ == old(self).fixups@,
            final(self).call_return_base() == old(self).call_return_base(),
    {
        let idx = self.next_call_return_idx;
        self.next_call_return_idx += 1;
        ((idx + 1) * 2) as i32
    }

    /// Returns how many call return addresses this function allocated.
    pub fn num_call_returns(&self) -> (r: usize)
        requires
            self.wf(),
        ensures
            r == self.next_call_return_idx - self.call_return_base(),
    {
        self.next_call_return_idx - self.call_return_base_idx
    }

    /// A new, not yet defined label; its id is its index.
    pub fn alloc_label(&mut self) -> (id: usize)
        requires
            old(self).wf(),
        ensures
            id == old(self).labels@.len(),
            final(self).labels@ == old(self).labels@.push(None),
            final(self).wf(),
            final(self).instructions@ == old(self).instructions@,
            final(self).fixups@ == old(self).fixups@,
            final(self).byte_offset == old(self).byte_offset,
            final(self).config == old(self).config,
            final(self).same_body(old(self)),
            final(self).slot_map() == old(self).slot_map(),
            final(self).reg_to_slot@ == old(self).reg_to_slot@,
            final(self).reg_to_const@ == old(self).reg_to_const@,
    {
        let id = self.labels.len();
        self.labels.push(None);
        id
    }

    /// Current byte offset of the emitted code.
    pub fn current_offset(&self) -> (r: usize)
        ensures
            r == self.byte_offset,
    {
        self.byte_offset
    }
}


impl PvmEmitter {
    // ── Register cache ──

    /// Forget what `reg` holds (called when the register is overwritten).
    fn invalidate_reg(&mut self, reg: u8)
        requires
            old(self).wf(),
            reg < 13,
        ensures
            final(self).wf(),
            final(self).same_frame(old(self)),
            final(self).instructions@ == old(self).instructions@,
            final(self).byte_offset == old(self).byte_offset,
            final(self).slot_map() == slots_without_reg(
                old(self).slot_map(),
                old(self).reg_to_slot@,
                reg as int,
            ),
            final(self).reg_to_slot@ == old(self).reg_to_slot@.update(reg as int, None),
            final(self).reg_to_const@ == old(self).reg_to_const@.update(reg as int, None),
    {
        let ghost start = self.slot_cache@;
        let ghost start_r2s = self.reg_to_slot@;
        let held = self.reg_to_slot[reg as usize];
        if let Some(slot) = held {
            self.reg_to_slot[reg as usize] = None;
            self.slot_cache.remove(&slot);
        }
        self.reg_to_const[reg as usize] = None;
        proof {
            assert(self.reg_to_slot@ =~= start_r2s.update(reg as int, None));
            lemma_forget_reg_coherent(start, start_r2s, reg as int);
        }
    }

    /// Record that `reg` now holds the value of `slot` (when the register
    /// cache is enabled).
    fn cache_slot(&mut self, slot: i32, reg: u8)
        requires
            old(self).wf(),
            reg < 13,
        ensures
            final(self).wf(),
            final(self).same_frame(old(self)),
            final(self).instructions@ == old(self).instructions@,
            final(self).byte_offset == old(self).byte_offset,
            final(self).reg_to_const@ == old(self).reg_to_const@,
            old(self).config.register_cache_enabled ==> final(self).slot_map() == slots_without_reg(
                old(self).slot_map(),
                old(self).reg_to_slot@,
                reg as int,
            ).insert(slot, reg),
            old(self).config.register_cache_enabled ==> final(self).reg_slot(reg as int) == Some(
                slot,
            ),
            !old(self).config.register_cache_enabled ==> final(self).slot_map() == old(
                self,
            ).slot_map() && final(self).reg_to_slot@ == old(self).reg_to_slot@,
    {
        if !self.config.register_cache_enabled {
            return;
        }
        // Remove any previous slot cached in this register.
        self.invalidate_slot_of(reg);
        let ghost mid = self.slot_cache@;
        let ghost mid_r2s = self.reg_to_slot@;
        // Remove any previous register caching this slot.
        let prev = self.slot_cache.insert(slot, reg);
        if let Some(old_reg) = prev {
            self.reg_to_slot[old_reg as usize] = None;
        }
        self.reg_to_slot[reg as usize] = Some(slot);
        proof {
            let m = self.slot_cache@;
            let t = self.reg_to_slot@;
            assert(mid_r2s[reg as int] is None);
            assert forall|r: int| 0 <= r < 13 implies (#[trigger] t[r] matches Some(s)
                ==> m.contains_key(s) && m[s] == r) by {
                if r != reg {
                    assert(mid_r2s[r] matches Some(s) ==> mid.contains_key(s) && mid[s] == r);
                }
            }
            assert forall|s: i32| #[trigger] m.contains_key(s) implies m[s] < 13 && t[m[s] as int]
                == Some(s) by {
                if s != slot {
                    assert(mid.contains_key(s));
                    assert(mid_r2s[mid[s] as int] == Some(s));
                    assert(mid[s] != reg);
                    match prev {
                        Some(o) => {
                            assert(mid[slot] == o);
                            assert(mid_r2s[o as int] == Some(slot));
                            assert(mid[s] != o);
                        },
                        None => {},
                    }
                }
            }
        }
    }

    /// Forget the slot `reg` holds, keeping what it knows of constants.
    fn invalidate_slot_of(&mut self, reg: u8)
        requires
            old(self).wf(),
            reg < 13,
        ensures
            final(self).wf(),
            final(self).same_frame(old(self)),
            final(self).instructions@ == old(self).instructions@,
            final(self).byte_offset == old(self).byte_offset,
            final(self).slot_map() == slots_without_reg(
                old(self).slot_map(),
                old(self).reg_to_slot@,
                reg as int,
            ),
            final(self).reg_to_slot@ == old(self).reg_to_slot@.update(reg as int, None),
            final(self).reg_to_const@ == old(self).reg_to_const@,
    {
        let ghost start = self.slot_cache@;
        let ghost start_r2s = self.reg_to_slot@;
        let held = self.reg_to_slot[reg as usize];
        if let Some(old_slot) = held {
            self.reg_to_slot[reg as usize] = None;
            self.slot_cache.remove(&old_slot);
        }
        proof {
            assert(self.reg_to_slot@ =~= start_r2s.update(reg as int, None));
            lemma_forget_reg_coherent(start, start_r2s, reg as int);
        }
    }

    /// Forget the register that holds `slot`, if any (called when the slot is
    /// written by a store that does not go through the cache).
    pub fn invalidate_cache_for_slot(&mut self, slot: i32)
        requires
            old(self).wf(),
        ensures
            final(self).wf(),
            final(self).same_frame(old(self)),
            final(self).instructions@ == old(self).instructions@,
            final(self).byte_offset == old(self).byte_offset,
            final(self).slot_map() == old(self).slot_map().remove(slot),
            forall|r: int|
                0 <= r < 13 ==> #[trigger] final(self).reg_slot(r) == (if old(self).reg_slot(r)
                    == Some(slot) {
                    None
                } else {
                    old(self).reg_slot(r)
                }),
            final(self).reg_to_const@ == old(self).reg_to_const@,
    {
        let ghost start = self.slot_cache@;
        let ghost start_r2s = self.reg_to_slot@;
        let held = self.slot_cache.remove(&slot);
        if let Some(reg) = held {
            self.reg_to_slot[reg as usize] = None;
        }
        proof {
            let m = self.slot_cache@;
            let t = self.reg_to_slot@;
            assert(m =~= start.remove(slot));
            assert forall|r: int| 0 <= r < 13 implies #[trigger] t[r] == (if start_r2s[r] == Some(
                slot,
            ) {
                None
            } else {
                start_r2s[r]
            }) by {
                if start_r2s[r] == Some(slot) {
                    assert(start[slot] == r);
                } else if start.contains_key(slot) && r == start[slot] {
                    assert(start_r2s[start[slot] as int] == Some(slot));
                }
            }
            assert forall|r: int| 0 <= r < 13 implies (#[trigger] t[r] matches Some(s)
                ==> m.contains_key(s) && m[s] == r) by {
                assert(start_r2s[r] matches Some(s) ==> start.contains_key(s) && start[s] == r);
            }
            assert forall|s: i32| #[trigger] m.contains_key(s) implies m[s] < 13 && t[m[s] as int]
                == Some(s) by {
                assert(start.contains_key(s));
                assert(start_r2s[start[s] as int] == Some(s));
            }
        }
    }

    /// Clear the entire register cache (at block boundaries and after calls).
    pub fn clear_reg_cache(&mut self)
        requires
            old(self).wf(),
        ensures
            final(self).wf(),
            final(self).same_frame(old(self)),
            final(self).instructions@ == old(self).instructions@,
            final(self).byte_offset == old(self).byte_offset,
            final(self).cache_empty(),
    {
        self.slot_cache.clear();
        self.reg_to_slot = [None; 13];
        self.reg_to_const = [None; 13];
        proof {
            assert(self.slot_cache@ =~= Map::<i32, u8>::empty());
        }
    }

    /// Take a snapshot of the current register cache state.
    pub fn snapshot_cache(&self) -> (r: CacheSnapshot)
        requires
            self.wf(),
        ensures
            r.slot_cache@ == self.slot_map(),
            r.reg_to_slot@ == self.reg_to_slot@,
            r.reg_to_const@ == self.reg_to_const@,
            r.coherent(),
    {
        CacheSnapshot {
            slot_cache: self.slot_cache.clone(),
            reg_to_slot: self.reg_to_slot,
            reg_to_const: self.reg_to_const,
        }
    }

    /// Restore register cache state from a snapshot.
    pub fn restore_cache(&mut self, snapshot: &CacheSnapshot)
        requires
            old(self).wf(),
            snapshot.coherent(),
        ensures
            final(self).wf(),
            final(self).same_frame(old(self)),
            final(self).instructions@ == old(self).instructions@,
            final(self).byte_offset == old(self).byte_offset,
            final(self).slot_map() == snapshot.slot_cache@,
            final(self).reg_to_slot@ == snapshot.reg_to_slot@,
            final(self).reg_to_const@ == snapshot.reg_to_const@,
    {
        self.slot_cache = snapshot.slot_cache.clone();
        self.reg_to_slot = snapshot.reg_to_slot;
        self.reg_to_const = snapshot.reg_to_const;
    }

    // ── Emission ──

    /// Append an instruction. With constant propagation on, a constant load
    /// into a register that already holds that constant is dropped; a
    /// written register loses what the cache knew of it.
    pub fn emit(&mut self, instr: Instruction)
        requires
            old(self).wf(),
            instr.dest() matches Some(d) ==> d < 13,
            old(self).byte_offset + instr.encoding().len() <= usize::MAX,
        ensures
            final(self).wf(),
            PvmEmitter::emitted(old(self), final(self), instr),
    {
        // Constant propagation: skip a load of a constant the register already holds.
        if self.config.constant_propagation_enabled {
            match &instr {
                Instruction::LoadImm { reg, value } => {
                    // LoadImm sign-extends i32 → i64, so the 64-bit value is the sign extension.
                    let val64 = (*value as i64) as u64;
                    if let Some(c) = self.reg_to_const[*reg as usize] {
                        if c == val64 {
                            return;
                        }
                    }
                },
                Instruction::LoadImm64 { reg, value } => {
                    if let Some(c) = self.reg_to_const[*reg as usize] {
                        if c == *value {
                            return;
                        }
                    }
                },
                _ => {},
            }
        }
        let ghost start = *self;
        if let Some(reg) = instr.dest_reg() {
            self.invalidate_reg(reg);
        }
        // Track constants after emit.
        if self.config.constant_propagation_enabled {
            match &instr {
                Instruction::LoadImm { reg, value } => {
                    self.reg_to_const[*reg as usize] = Some((*value as i64) as u64);
                },
                Instruction::LoadImm64 { reg, value } => {
                    self.reg_to_const[*reg as usize] = Some(*value);
                },
                _ => {},
            }
        }
        let ghost before_push = self.instructions@;
        let len = instr.encode().len();
        self.byte_offset += len;
        self.instructions.push(instr);
        proof {
            assert(self.instructions@.drop_last() =~= before_push);
            assert forall|r: int| 0 <= r < 13 implies #[trigger] self.reg_const(r) == const_after(
                start.reg_const(r),
                start.config.constant_propagation_enabled,
                instr,
                r,
            ) by {}
            assert forall|r: int| 0 <= r < 13 implies #[trigger] self.reg_slot(r) == (if instr.dest()
                == Some(r as u8) {
                None
            } else {
                start.reg_slot(r)
            }) by {}
        }
    }
}


/// The instruction that loads the 64-bit constant `value` into `reg`: the
/// compact `LoadImm` when `value`, read as a signed number, fits in 32 bits,
/// else `LoadImm64`.
pub open spec fn const_load_instr(reg: u8, value: u64) -> Instruction {
    if i32::MIN <= (value as i64) <= i32::MAX {
        Instruction::LoadImm { reg, value: (value as i64) as i32 }
    } else {
        Instruction::LoadImm64 { reg, value }
    }
}

impl PvmEmitter {
    /// Emit a constant load into `reg` (prefer compact `LoadImm` when the
    /// value fits i32). Constant propagation in `emit()` skips it if the
    /// register already holds this value.
    pub fn emit_const_to_reg(&mut self, reg: u8, value: u64)
        requires
            old(self).wf(),
            reg < 13,
            old(self).byte_offset + 10 <= usize::MAX,
        ensures
            final(self).wf(),
            PvmEmitter::emitted(old(self), final(self), const_load_instr(reg, value)),
            final(self).config.constant_propagation_enabled ==> final(self).reg_const(reg as int)
                == Some(value),
    {
        let signed = value as i64;
        if signed >= i32::MIN as i64 && signed <= i32::MAX as i64 {
            let v32 = signed as i32;
            assert(((v32 as i64) as u64) == value) by (bit_vector)
                requires
                    signed == value as i64,
                    v32 == signed as i32,
                    i32::MIN <= signed <= i32::MAX,
            ;
            self.emit(Instruction::LoadImm { reg, value: v32 });
        } else {
            self.emit(Instruction::LoadImm64 { reg, value });
        }
    }
}

/// The register allocated to the value of `key`, if any.
pub open spec fn alloc_reg(e: PvmEmitter, key: usize) -> Option<u8> {
    if e.regalloc.val_to_reg@.contains_key(key) {
        Some(e.regalloc.val_to_reg@[key])
    } else {
        None
    }
}

/// What loading `op` into `reg` emits into `e` when the register cache's slot
/// map is `m`: a constant load (dropped when the register already holds the
/// constant), a copy from the value's allocated register or from a register
/// caching its slot (nothing when that is `reg` itself), or a load from its
/// stack slot. `None` when a value has neither a register nor a slot.
pub open spec fn operand_code(e: PvmEmitter, m: Map<i32, u8>, op: Operand, reg: u8) -> Option<
    Seq<Instruction>,
> {
    match op {
        Operand::Const(v) => {
            let i = const_load_instr(reg, v as u64);
            Some(
                if e.emit_skips(i) {
                    Seq::empty()
                } else {
                    seq![i]
                },
            )
        },
        Operand::Undef => {
            let i = Instruction::LoadImm { reg, value: 0 };
            Some(
                if e.emit_skips(i) {
                    Seq::empty()
                } else {
                    seq![i]
                },
            )
        },
        Operand::Value(k) => match alloc_reg(e, k.0) {
            Some(a) => Some(
                if a != reg {
                    seq![Instruction::MoveReg { dst: reg, src: a }]
                } else {
                    Seq::empty()
                },
            ),
            None => if e.slots().contains_key(k.0) {
                let s = e.slots()[k.0];
                if m.contains_key(s) {
                    Some(
                        if m[s] != reg {
                            seq![Instruction::MoveReg { dst: reg, src: m[s] }]
                        } else {
                            Seq::empty()
                        },
                    )
                } else {
                    Some(seq![Instruction::LoadIndU64 { dst: reg, base: STACK_PTR_REG, offset: s }])
                }
            } else {
                None
            },
        },
    }
}

/// The slot map after loading `op` into `reg`, from slot map `m` in which
/// `reg` held slot `held`: unchanged when nothing is emitted; else `reg`
/// forgets its slot, and a load from a stack slot (with the register cache
/// on) records that `reg` now holds that slot.
pub open spec fn slots_after_load(
    e: PvmEmitter,
    m: Map<i32, u8>,
    held: Option<i32>,
    op: Operand,
    reg: u8,
) -> Map<i32, u8> {
    let dropped = match held {
        Some(s) => m.remove(s),
        None => m,
    };
    match operand_code(e, m, op, reg) {
        Some(code) => if code.len() == 0 {
            m
        } else {
            match code[0] {
                Instruction::LoadIndU64 { offset, .. } => if e.config.register_cache_enabled {
                    dropped.insert(offset, reg)
                } else {
                    dropped
                },
                _ => dropped,
            }
        },
        None => m,
    }
}

/// The message for a value that has neither a register nor a stack slot.
pub open spec fn no_slot_message(key: nat) -> Seq<char> {
    "no slot for int value ValKey("@ + dec_digits(key) + ")"@
}

impl PvmEmitter {
    /// Load operand `op` into `reg`: a constant through `emit_const_to_reg`,
    /// a value from its allocated register, from a register that caches its
    /// stack slot, or from the slot itself (then cached in `reg`), and an
    /// undefined value as zero. Fails when a value has neither a register
    /// nor a slot, emitting nothing.
    pub fn load_operand(&mut self, op: Operand, reg: u8) -> (r: Result<()>)
        requires
            old(self).wf(),
            reg < 13,
            old(self).byte_offset + 10 <= usize::MAX,
        ensures
            final(self).wf(),
            final(self).same_frame(old(self)),
            final(self).pending_compare == old(self).pending_compare,
            final(self).byte_offset <= old(self).byte_offset + 10,
            r is Ok <==> operand_code(*old(self), old(self).slot_map(), op, reg) is Some,
            forall|q: int|
                0 <= q < 13 && q != reg ==> #[trigger] final(self).reg_slot(q) == old(self).reg_slot(q),
            forall|q: int|
                0 <= q < 13 && q != reg ==> #[trigger] final(self).reg_const(q) == old(self).reg_const(q),
            match r {
                Ok(_) => {
                    &&& final(self).instructions@ == old(self).instructions@ + operand_code(
                        *old(self),
                        old(self).slot_map(),
                        op,
                        reg,
                    ).unwrap()
                    &&& final(self).slot_map() == slots_after_load(
                        *old(self),
                        old(self).slot_map(),
                        old(self).reg_slot(reg as int),
                        op,
                        reg,
                    )
                },
                Err(err) => {
                    &&& *final(self) == *old(self)
                    &&& op matches Operand::Value(k)
                    &&& err matches Error::Internal(msg) && msg@ == no_slot_message(k.0 as nat)
                },
            },
            // A truthful register cache stays truthful.
            r is Ok && reg != STACK_PTR_REG ==> keeps_cache(
                *old(self),
                *final(self),
                operand_code(*old(self), old(self).slot_map(), op, reg).unwrap(),
            ),
    {
        proof {
            reveal(keeps_cache);
        }
        let ghost e0 = *self;
        match op {
            Operand::Const(v) => {
                self.emit_const_to_reg(reg, v as u64);
                proof {
                    let i = const_load_instr(reg, v as u64);
                    if !e0.emit_skips(i) {
                        assert(self.instructions@ =~= e0.instructions@ + seq![i]);
                        if reg != STACK_PTR_REG {
                            assert forall|st: SlotState| cache_holds(e0, st) implies #[trigger] run_slots(st, seq![i])
                                is Some && cache_holds(*self, run_slots(st, seq![i]).unwrap()) by {
                                lemma_run_one(st, i);
                                lemma_const_load_keeps_cache(e0, *self, i, st);
                            }
                        }
                    } else {
                        assert(self.instructions@ =~= e0.instructions@ + Seq::<Instruction>::empty());
                    }
                }
                Ok(())
            },
            Operand::Undef => {
                let i = Instruction::LoadImm { reg, value: 0 };
                assert(i.encoding().len() <= 6);
                self.emit(i);
                proof {
                    if !e0.emit_skips(i) {
                        assert(self.instructions@ =~= e0.instructions@ + seq![i]);
                        if reg != STACK_PTR_REG {
                            assert forall|st: SlotState| cache_holds(e0, st) implies #[trigger] run_slots(st, seq![i])
                                is Some && cache_holds(*self, run_slots(st, seq![i]).unwrap()) by {
                                lemma_run_one(st, i);
                                lemma_const_load_keeps_cache(e0, *self, i, st);
                            }
                        }
                    } else {
                        assert(self.instructions@ =~= e0.instructions@ + Seq::<Instruction>::empty());
                    }
                }
                Ok(())
            },
            Operand::Value(key) => {
                let alloc = match self.regalloc.val_to_reg.get(&key.0) {
                    Some(a) => Some(*a),
                    None => None,
                };
                if let Some(a) = alloc {
                    if a != reg {
                        let mv = Instruction::MoveReg { dst: reg, src: a };
                        assert(mv.encoding().len() == 2);
                        self.emit(mv);
                        assert(self.instructions@ =~= e0.instructions@ + seq![mv]);
                        proof {
                            if reg != STACK_PTR_REG {
                                assert forall|st: SlotState| cache_holds(e0, st) implies #[trigger] run_slots(st, seq![mv])
                                    is Some && cache_holds(*self, run_slots(st, seq![mv]).unwrap()) by {
                                    lemma_run_one(st, mv);
                                    lemma_reg_write_keeps_cache(e0, *self, mv, reg, st);
                                }
                            }
                        }
                    } else {
                        assert(self.instructions@ =~= e0.instructions@ + Seq::<Instruction>::empty());
                    }
                    return Ok(());
                }
                match self.get_slot(key) {
                    Some(slot) => {
                        let cached = match self.slot_cache.get(&slot) {
                            Some(c) => Some(*c),
                            None => None,
                        };
                        if let Some(c) = cached {
                            if c != reg {
                                let mv = Instruction::MoveReg { dst: reg, src: c };
                                assert(mv.encoding().len() == 2);
                                self.emit(mv);
                                assert(self.instructions@ =~= e0.instructions@ + seq![mv]);
                                proof {
                                    if reg != STACK_PTR_REG {
                                        assert forall|st: SlotState| cache_holds(e0, st) implies #[trigger] run_slots(
                                            st,
                                            seq![mv],
                                        ) is Some && cache_holds(*self, run_slots(st, seq![mv]).unwrap()) by {
                                            lemma_run_one(st, mv);
                                            lemma_reg_write_keeps_cache(e0, *self, mv, reg, st);
                                        }
                                    }
                                }
                            } else {
                                assert(self.instructions@ =~= e0.instructions@ + Seq::<Instruction>::empty());
                            }
                        } else {
                            let ld = Instruction::LoadIndU64 { dst: reg, base: STACK_PTR_REG, offset: slot };
                            assert(ld.encoding().len() <= 6);
                            self.emit(ld);
                            let ghost e1 = *self;
                            self.cache_slot(slot, reg);
                            proof {
                                assert(self.instructions@ =~= e0.instructions@ + seq![ld]);
                                if reg != STACK_PTR_REG {
                                    assert forall|st: SlotState| cache_holds(e0, st) implies #[trigger] run_slots(st, seq![ld])
                                        is Some && cache_holds(*self, run_slots(st, seq![ld]).unwrap()) by {
                                        lemma_run_one(st, ld);
                                        lemma_load_keeps_cache(e0, e1, reg, slot, st);
                                        let st2 = slot_step(st, ld).unwrap();
                                        assert forall|s: i32| #[trigger] self.slot_map().contains_key(s) implies (st2.0)(
                                            self.slot_map()[s],
                                        ) == (st2.1)(s) by {
                                            if s != slot && e1.config.register_cache_enabled {
                                                assert(e1.reg_slot(reg as int) is None);
                                                assert(e1.slot_map().contains_key(s));
                                            }
                                        }
                                        assert forall|r: int| 0 <= r < 13 && #[trigger] self.reg_const(r) is Some implies (
                                        st2.0)(r as u8) == self.reg_const(r).unwrap() by {
                                            assert(self.reg_const(r) == e1.reg_const(r));
                                        }
                                    }
                                }
                                assert(e1.reg_slot(reg as int) is None);
                                assert(slots_without_reg(e1.slot_map(), e1.reg_to_slot@, reg as int)
                                    == e1.slot_map());
                                assert(!e0.slot_map().contains_key(slot));
                                assert(!e1.slot_map().contains_key(slot));
                                assert forall|q: int| 0 <= q < 13 && q != reg implies #[trigger] self.reg_slot(q)
                                    == e0.reg_slot(q) by {
                                    assert(e1.reg_slot(q) == e0.reg_slot(q));
                                    if e1.config.register_cache_enabled {
                                        assert(self.slot_map() == e1.slot_map().insert(slot, reg));
                                        match e1.reg_slot(q) {
                                            Some(s) => {
                                                assert(e1.slot_map().contains_key(s));
                                                assert(e1.slot_map()[s] == q);
                                                assert(s != slot);
                                                assert(self.slot_map().contains_key(s));
                                                assert(self.slot_map()[s] == q);
                                                assert(self.reg_to_slot@[q] == Some(s));
                                            },
                                            None => {
                                                match self.reg_slot(q) {
                                                    Some(s) => {
                                                        assert(self.slot_map().contains_key(s));
                                                        assert(self.slot_map()[s] == q);
                                                        assert(s != slot);
                                                        assert(e1.slot_map().contains_key(s));
                                                        assert(e1.slot_map()[s] == q);
                                                        assert(e1.reg_to_slot@[q] == Some(s));
                                                    },
                                                    None => {},
                                                }
                                            },
                                        }
                                    }
                                }
                            }
                        }
                        Ok(())
                    },
                    None => {
                        let mut msg = String::from_str("no slot for int value ValKey(");
                        push_dec(&mut msg, key.0 as u64);
                        msg.append(")");
                        proof {
                            reveal_strlit("no slot for int value ValKey(");
                            reveal_strlit(")");
                            assert(msg@ =~= no_slot_message(key.0 as nat));
                        }
                        Err(Error::Internal(msg))
                    },
                }
            },
        }
    }
}

/// The instruction with its jump offset set to `off`, for the instructions
/// that jump (`None` for any other instruction).
pub open spec fn with_jump_offset(instr: Instruction, off: i32) -> Option<Instruction> {
    match instr {
        Instruction::Jump { offset } => Some(Instruction::Jump { offset: off }),
        Instruction::LoadImmJump { reg, value, offset } => Some(Instruction::LoadImmJump { reg, value, offset: off }),
        Instruction::BranchNeImm { reg, value, offset } => Some(Instruction::BranchNeImm { reg, value, offset: off }),
        Instruction::BranchEqImm { reg, value, offset } => Some(Instruction::BranchEqImm { reg, value, offset: off }),
        Instruction::BranchGeSImm { reg, value, offset } => Some(Instruction::BranchGeSImm { reg, value, offset: off }),
        Instruction::BranchLtUImm { reg, value, offset } => Some(Instruction::BranchLtUImm { reg, value, offset: off }),
        Instruction::BranchLeUImm { reg, value, offset } => Some(Instruction::BranchLeUImm { reg, value, offset: off }),
        Instruction::BranchGeUImm { reg, value, offset } => Some(Instruction::BranchGeUImm { reg, value, offset: off }),
        Instruction::BranchGtUImm { reg, value, offset } => Some(Instruction::BranchGtUImm { reg, value, offset: off }),
        Instruction::BranchLtSImm { reg, value, offset } => Some(Instruction::BranchLtSImm { reg, value, offset: off }),
        Instruction::BranchLeSImm { reg, value, offset } => Some(Instruction::BranchLeSImm { reg, value, offset: off }),
        Instruction::BranchGtSImm { reg, value, offset } => Some(Instruction::BranchGtSImm { reg, value, offset: off }),
        Instruction::BranchEq { reg1, reg2, offset } => Some(Instruction::BranchEq { reg1, reg2, offset: off }),
        Instruction::BranchNe { reg1, reg2, offset } => Some(Instruction::BranchNe { reg1, reg2, offset: off }),
        Instruction::BranchGeU { reg1, reg2, offset } => Some(Instruction::BranchGeU { reg1, reg2, offset: off }),
        Instruction::BranchLtU { reg1, reg2, offset } => Some(Instruction::BranchLtU { reg1, reg2, offset: off }),
        Instruction::BranchLtS { reg1, reg2, offset } => Some(Instruction::BranchLtS { reg1, reg2, offset: off }),
        Instruction::BranchGeS { reg1, reg2, offset } => Some(Instruction::BranchGeS { reg1, reg2, offset: off }),
        _ => None,
    }
}

fn set_jump_offset(instr: &Instruction, off: i32) -> (r: Option<Instruction>)
    ensures
        r == with_jump_offset(*instr, off),
{
    match instr {
        Instruction::Jump { offset: _ } => Some(Instruction::Jump { offset: off }),
        Instruction::LoadImmJump { reg, value, offset: _ } => Some(Instruction::LoadImmJump { reg: *reg, value: *value, offset: off }),
        Instruction::BranchNeImm { reg, value, offset: _ } => Some(Instruction::BranchNeImm { reg: *reg, value: *value, offset: off }),
        Instruction::BranchEqImm { reg, value, offset: _ } => Some(Instruction::BranchEqImm { reg: *reg, value: *value, offset: off }),
        Instruction::BranchGeSImm { reg, value, offset: _ } => Some(Instruction::BranchGeSImm { reg: *reg, value: *value, offset: off }),
        Instruction::BranchLtUImm { reg, value, offset: _ } => Some(Instruction::BranchLtUImm { reg: *reg, value: *value, offset: off }),
        Instruction::BranchLeUImm { reg, value, offset: _ } => Some(Instruction::BranchLeUImm { reg: *reg, value: *value, offset: off }),
        Instruction::BranchGeUImm { reg, value, offset: _ } => Some(Instruction::BranchGeUImm { reg: *reg, value: *value, offset: off }),
        Instruction::BranchGtUImm { reg, value, offset: _ } => Some(Instruction::BranchGtUImm { reg: *reg, value: *value, offset: off }),
        Instruction::BranchLtSImm { reg, value, offset: _ } => Some(Instruction::BranchLtSImm { reg: *reg, value: *value, offset: off }),
        Instruction::BranchLeSImm { reg, value, offset: _ } => Some(Instruction::BranchLeSImm { reg: *reg, value: *value, offset: off }),
        Instruction::BranchGtSImm { reg, value, offset: _ } => Some(Instruction::BranchGtSImm { reg: *reg, value: *value, offset: off }),
        Instruction::BranchEq { reg1, reg2, offset: _ } => Some(Instruction::BranchEq { reg1: *reg1, reg2: *reg2, offset: off }),
        Instruction::BranchNe { reg1, reg2, offset: _ } => Some(Instruction::BranchNe { reg1: *reg1, reg2: *reg2, offset: off }),
        Instruction::BranchGeU { reg1, reg2, offset: _ } => Some(Instruction::BranchGeU { reg1: *reg1, reg2: *reg2, offset: off }),
        Instruction::BranchLtU { reg1, reg2, offset: _ } => Some(Instruction::BranchLtU { reg1: *reg1, reg2: *reg2, offset: off }),
        Instruction::BranchLtS { reg1, reg2, offset: _ } => Some(Instruction::BranchLtS { reg1: *reg1, reg2: *reg2, offset: off }),
        Instruction::BranchGeS { reg1, reg2, offset: _ } => Some(Instruction::BranchGeS { reg1: *reg1, reg2: *reg2, offset: off }),
        _ => None,
    }
}

/// Setting a jump offset keeps the encoded length (offsets are four bytes),
/// and whether an instruction jumps does not depend on the offset.
#[verifier::spinoff_prover]
pub proof fn jump_offset_keeps_length(instr: Instruction, off: i32, off2: i32)
    ensures
        (with_jump_offset(instr, off) is Some) == (with_jump_offset(instr, off2) is Some),
        with_jump_offset(instr, off) matches Some(j) ==> j.encoding().len() == instr.encoding().len()
            && with_jump_offset(j, off2) is Some && jump_offset_of(j) == Some(off),
{
    match instr {
        Instruction::Jump { .. } => {},
        Instruction::LoadImmJump { .. } => {},
        Instruction::BranchNeImm { .. } => {},
        Instruction::BranchEqImm { .. } => {},
        Instruction::BranchGeSImm { .. } => {},
        Instruction::BranchLtUImm { .. } => {},
        Instruction::BranchLeUImm { .. } => {},
        Instruction::BranchGeUImm { .. } => {},
        Instruction::BranchGtUImm { .. } => {},
        Instruction::BranchLtSImm { .. } => {},
        Instruction::BranchLeSImm { .. } => {},
        Instruction::BranchGtSImm { .. } => {},
        Instruction::BranchEq { .. } => {},
        Instruction::BranchNe { .. } => {},
        Instruction::BranchGeU { .. } => {},
        Instruction::BranchLtU { .. } => {},
        Instruction::BranchLtS { .. } => {},
        Instruction::BranchGeS { .. } => {},
        _ => {},
    }
}

/// Emitting a jump or branch: a jump is no constant load, writes no register,
/// and encodes to at most ten bytes.
proof fn lemma_jump_len(instr: Instruction)
    requires
        with_jump_offset(instr, 0) is Some,
        !(instr is LoadImmJump),
    ensures
        instr.encoding().len() <= 10,
        instr.dest() is None,
        const_load(instr) is None,
{
    match instr {
        Instruction::Jump { .. } => {},
        Instruction::BranchNeImm { .. } => {},
        Instruction::BranchEqImm { .. } => {},
        Instruction::BranchGeSImm { .. } => {},
        Instruction::BranchLtUImm { .. } => {},
        Instruction::BranchLeUImm { .. } => {},
        Instruction::BranchGeUImm { .. } => {},
        Instruction::BranchGtUImm { .. } => {},
        Instruction::BranchLtSImm { .. } => {},
        Instruction::BranchLeSImm { .. } => {},
        Instruction::BranchGtSImm { .. } => {},
        Instruction::BranchEq { .. } => {},
        Instruction::BranchNe { .. } => {},
        Instruction::BranchGeU { .. } => {},
        Instruction::BranchLtU { .. } => {},
        Instruction::BranchLtS { .. } => {},
        Instruction::BranchGeS { .. } => {},
        _ => {},
    }
}

impl PvmEmitter {
    /// `new` is `old` with the jump `instr` to `label` appended and its fixup
    /// recorded; the register cache is untouched.
    pub open spec fn pushed_jump(
        old: &PvmEmitter,
        new: &PvmEmitter,
        instr: Instruction,
        label: usize,
    ) -> bool {
        &&& new.same_frame_but_fixups(old)
        &&& new.fixups@ == old.fixups@.push((old.instructions@.len() as usize, label))
        &&& new.instructions@ == old.instructions@.push(instr)
        &&& new.byte_offset == old.byte_offset + instr.encoding().len()
        &&& new.slot_map() == old.slot_map()
        &&& new.reg_to_slot@ == old.reg_to_slot@
        &&& new.reg_to_const@ == old.reg_to_const@
    }

    /// Emit `Jump` to `label`, recording a fixup for its offset.
    pub fn emit_jump_to_label(&mut self, label: usize)
        requires
            old(self).wf(),
            old(self).byte_offset + 10 <= usize::MAX,
        ensures
            final(self).wf(),
            PvmEmitter::pushed_jump(old(self), final(self), Instruction::Jump { offset: 0 }, label),
    {
        let fixup_idx = self.instructions.len();
        self.fixups.push((fixup_idx, label));
        let ghost mid = *self;
        proof {
            lemma_jump_len(Instruction::Jump { offset: 0 });
        }
        self.emit(Instruction::Jump { offset: 0 });
        proof {
            assert forall|r: int| 0 <= r < 13 implies #[trigger] self.reg_to_const@[r] == mid.reg_to_const@[r] by {
                assert(self.reg_const(r) == mid.reg_const(r));
            }
            assert forall|r: int| 0 <= r < 13 implies #[trigger] self.reg_to_slot@[r] == mid.reg_to_slot@[r] by {
                assert(self.reg_slot(r) == mid.reg_slot(r));
            }
            assert(self.reg_to_const@ =~= mid.reg_to_const@);
            assert(self.reg_to_slot@ =~= mid.reg_to_slot@);
        }
    }

    /// Emit `BranchNeImm` to `label`, recording a fixup for its offset.
    pub fn emit_branch_ne_imm_to_label(&mut self, reg: u8, value: i32, label: usize)
        requires
            old(self).wf(),
            old(self).byte_offset + 10 <= usize::MAX,
        ensures
            final(self).wf(),
            PvmEmitter::pushed_jump(old(self), final(self), Instruction::BranchNeImm { reg, value, offset: 0 }, label),
    {
        let fixup_idx = self.instructions.len();
        self.fixups.push((fixup_idx, label));
        let ghost mid = *self;
        proof {
            lemma_jump_len(Instruction::BranchNeImm { reg, value, offset: 0 });
        }
        self.emit(Instruction::BranchNeImm { reg, value, offset: 0 });
        proof {
            assert forall|r: int| 0 <= r < 13 implies #[trigger] self.reg_to_const@[r] == mid.reg_to_const@[r] by {
                assert(self.reg_const(r) == mid.reg_const(r));
            }
            assert forall|r: int| 0 <= r < 13 implies #[trigger] self.reg_to_slot@[r] == mid.reg_to_slot@[r] by {
                assert(self.reg_slot(r) == mid.reg_slot(r));
            }
            assert(self.reg_to_const@ =~= mid.reg_to_const@);
            assert(self.reg_to_slot@ =~= mid.reg_to_slot@);
        }
    }

    /// Emit `BranchEqImm` to `label`, recording a fixup for its offset.
    pub fn emit_branch_eq_imm_to_label(&mut self, reg: u8, value: i32, label: usize)
        requires
            old(self).wf(),
            old(self).byte_offset + 10 <= usize::MAX,
        ensures
            final(self).wf(),
            PvmEmitter::pushed_jump(old(self), final(self), Instruction::BranchEqImm { reg, value, offset: 0 }, label),
    {
        let fixup_idx = self.instructions.len();
        self.fixups.push((fixup_idx, label));
        let ghost mid = *self;
        proof {
            lemma_jump_len(Instruction::BranchEqImm { reg, value, offset: 0 });
        }
        self.emit(Instruction::BranchEqImm { reg, value, offset: 0 });
        proof {
            assert forall|r: int| 0 <= r < 13 implies #[trigger] self.reg_to_const@[r] == mid.reg_to_const@[r] by {
                assert(self.reg_const(r) == mid.reg_const(r));
            }
            assert forall|r: int| 0 <= r < 13 implies #[trigger] self.reg_to_slot@[r] == mid.reg_to_slot@[r] by {
                assert(self.reg_slot(r) == mid.reg_slot(r));
            }
            assert(self.reg_to_const@ =~= mid.reg_to_const@);
            assert(self.reg_to_slot@ =~= mid.reg_to_slot@);
        }
    }

    /// Emit `BranchLtU` to `label`, recording a fixup for its offset.
    pub fn emit_branch_lt_u_to_label(&mut self, reg1: u8, reg2: u8, label: usize)
        requires
            old(self).wf(),
            old(self).byte_offset + 10 <= usize::MAX,
        ensures
            final(self).wf(),
            PvmEmitter::pushed_jump(old(self), final(self), Instruction::BranchLtU { reg1, reg2, offset: 0 }, label),
    {
        let fixup_idx = self.instructions.len();
        self.fixups.push((fixup_idx, label));
        let ghost mid = *self;
        proof {
            lemma_jump_len(Instruction::BranchLtU { reg1, reg2, offset: 0 });
        }
        self.emit(Instruction::BranchLtU { reg1, reg2, offset: 0 });
        proof {
            assert forall|r: int| 0 <= r < 13 implies #[trigger] self.reg_to_const@[r] == mid.reg_to_const@[r] by {
                assert(self.reg_const(r) == mid.reg_const(r));
            }
            assert forall|r: int| 0 <= r < 13 implies #[trigger] self.reg_to_slot@[r] == mid.reg_to_slot@[r] by {
                assert(self.reg_slot(r) == mid.reg_slot(r));
            }
            assert(self.reg_to_const@ =~= mid.reg_to_const@);
            assert(self.reg_to_slot@ =~= mid.reg_to_slot@);
        }
    }

    /// Emit `BranchGeU` to `label`, recording a fixup for its offset.
    pub fn emit_branch_ge_u_to_label(&mut self, reg1: u8, reg2: u8, label: usize)
        requires
            old(self).wf(),
            old(self).byte_offset + 10 <= usize::MAX,
        ensures
            final(self).wf(),
            PvmEmitter::pushed_jump(old(self), final(self), Instruction::BranchGeU { reg1, reg2, offset: 0 }, label),
    {
        let fixup_idx = self.instructions.len();
        self.fixups.push((fixup_idx, label));
        let ghost mid = *self;
        proof {
            lemma_jump_len(Instruction::BranchGeU { reg1, reg2, offset: 0 });
        }
        self.emit(Instruction::BranchGeU { reg1, reg2, offset: 0 });
        proof {
            assert forall|r: int| 0 <= r < 13 implies #[trigger] self.reg_to_const@[r] == mid.reg_to_const@[r] by {
                assert(self.reg_const(r) == mid.reg_const(r));
            }
            assert forall|r: int| 0 <= r < 13 implies #[trigger] self.reg_to_slot@[r] == mid.reg_to_slot@[r] by {
                assert(self.reg_slot(r) == mid.reg_slot(r));
            }
            assert(self.reg_to_const@ =~= mid.reg_to_const@);
            assert(self.reg_to_slot@ =~= mid.reg_to_slot@);
        }
    }

    /// Emit `BranchEq` to `label`, recording a fixup for its offset.
    pub fn emit_branch_eq_to_label(&mut self, reg1: u8, reg2: u8, label: usize)
        requires
            old(self).wf(),
            old(self).byte_offset + 10 <= usize::MAX,
        ensures
            final(self).wf(),
            PvmEmitter::pushed_jump(old(self), final(self), Instruction::BranchEq { reg1, reg2, offset: 0 }, label),
    {
        let fixup_idx = self.instructions.len();
        self.fixups.push((fixup_idx, label));
        let ghost mid = *self;
        proof {
            lemma_jump_len(Instruction::BranchEq { reg1, reg2, offset: 0 });
        }
        self.emit(Instruction::BranchEq { reg1, reg2, offset: 0 });
        proof {
            assert forall|r: int| 0 <= r < 13 implies #[trigger] self.reg_to_const@[r] == mid.reg_to_const@[r] by {
                assert(self.reg_const(r) == mid.reg_const(r));
            }
            assert forall|r: int| 0 <= r < 13 implies #[trigger] self.reg_to_slot@[r] == mid.reg_to_slot@[r] by {
                assert(self.reg_slot(r) == mid.reg_slot(r));
            }
            assert(self.reg_to_const@ =~= mid.reg_to_const@);
            assert(self.reg_to_slot@ =~= mid.reg_to_slot@);
        }
    }

    /// Emit `BranchNe` to `label`, recording a fixup for its offset.
    pub fn emit_branch_ne_to_label(&mut self, reg1: u8, reg2: u8, label: usize)
        requires
            old(self).wf(),
            old(self).byte_offset + 10 <= usize::MAX,
        ensures
            final(self).wf(),
            PvmEmitter::pushed_jump(old(self), final(self), Instruction::BranchNe { reg1, reg2, offset: 0 }, label),
    {
        let fixup_idx = self.instructions.len();
        self.fixups.push((fixup_idx, label));
        let ghost mid = *self;
        proof {
            lemma_jump_len(Instruction::BranchNe { reg1, reg2, offset: 0 });
        }
        self.emit(Instruction::BranchNe { reg1, reg2, offset: 0 });
        proof {
            assert forall|r: int| 0 <= r < 13 implies #[trigger] self.reg_to_const@[r] == mid.reg_to_const@[r] by {
                assert(self.reg_const(r) == mid.reg_const(r));
            }
            assert forall|r: int| 0 <= r < 13 implies #[trigger] self.reg_to_slot@[r] == mid.reg_to_slot@[r] by {
                assert(self.reg_slot(r) == mid.reg_slot(r));
            }
            assert(self.reg_to_const@ =~= mid.reg_to_const@);
            assert(self.reg_to_slot@ =~= mid.reg_to_slot@);
        }
    }

    /// Emit `BranchLtS` to `label`, recording a fixup for its offset.
    pub fn emit_branch_lt_s_to_label(&mut self, reg1: u8, reg2: u8, label: usize)
        requires
            old(self).wf(),
            old(self).byte_offset + 10 <= usize::MAX,
        ensures
            final(self).wf(),
            PvmEmitter::pushed_jump(old(self), final(self), Instruction::BranchLtS { reg1, reg2, offset: 0 }, label),
    {
        let fixup_idx = self.instructions.len();
        self.fixups.push((fixup_idx, label));
        let ghost mid = *self;
        proof {
            lemma_jump_len(Instruction::BranchLtS { reg1, reg2, offset: 0 });
        }
        self.emit(Instruction::BranchLtS { reg1, reg2, offset: 0 });
        proof {
            assert forall|r: int| 0 <= r < 13 implies #[trigger] self.reg_to_const@[r] == mid.reg_to_const@[r] by {
                assert(self.reg_const(r) == mid.reg_const(r));
            }
            assert forall|r: int| 0 <= r < 13 implies #[trigger] self.reg_to_slot@[r] == mid.reg_to_slot@[r] by {
                assert(self.reg_slot(r) == mid.reg_slot(r));
            }
            assert(self.reg_to_const@ =~= mid.reg_to_const@);
            assert(self.reg_to_slot@ =~= mid.reg_to_slot@);
        }
    }

    /// Emit `BranchGeS` to `label`, recording a fixup for its offset.
    pub fn emit_branch_ge_s_to_label(&mut self, reg1: u8, reg2: u8, label: usize)
        requires
            old(self).wf(),
            old(self).byte_offset + 10 <= usize::MAX,
        ensures
            final(self).wf(),
            PvmEmitter::pushed_jump(old(self), final(self), Instruction::BranchGeS { reg1, reg2, offset: 0 }, label),
    {
        let fixup_idx = self.instructions.len();
        self.fixups.push((fixup_idx, label));
        let ghost mid = *self;
        proof {
            lemma_jump_len(Instruction::BranchGeS { reg1, reg2, offset: 0 });
        }
        self.emit(Instruction::BranchGeS { reg1, reg2, offset: 0 });
        proof {
            assert forall|r: int| 0 <= r < 13 implies #[trigger] self.reg_to_const@[r] == mid.reg_to_const@[r] by {
                assert(self.reg_const(r) == mid.reg_const(r));
            }
            assert forall|r: int| 0 <= r < 13 implies #[trigger] self.reg_to_slot@[r] == mid.reg_to_slot@[r] by {
                assert(self.reg_slot(r) == mid.reg_slot(r));
            }
            assert(self.reg_to_const@ =~= mid.reg_to_const@);
            assert(self.reg_to_slot@ =~= mid.reg_to_slot@);
        }
    }

    /// Whether a label defined after `instrs` needs a `Fallthrough` first:
    /// the last instruction does not end its block.
    pub open spec fn needs_fallthrough(instrs: Seq<Instruction>) -> bool {
        instrs.len() > 0 && !instrs.last().terminates()
    }

    /// Point `label` at the current offset, after a `Fallthrough` when the
    /// previous instruction falls into the new block, and clear the register
    /// cache.
    pub fn define_label(&mut self, label: usize)
        requires
            old(self).wf(),
            label < old(self).labels@.len(),
            old(self).byte_offset + 1 <= usize::MAX,
        ensures
            final(self).wf(),
            final(self).instructions@ == if PvmEmitter::needs_fallthrough(old(self).instructions@) {
                old(self).instructions@.push(Instruction::Fallthrough)
            } else {
                old(self).instructions@
            },
            final(self).labels@ == old(self).labels@.update(label as int, Some(final(self).byte_offset)),
            final(self).fixups@ == old(self).fixups@,
            final(self).cache_empty(),
            final(self).same_body(old(self)),
            final(self).byte_offset <= old(self).byte_offset + 1,
    {
        self.define_label_preserving_cache(label);
        self.clear_reg_cache();
    }

    /// Define a label without clearing the register cache (used when the
    /// cache will be restored from a snapshot).
    pub fn define_label_preserving_cache(&mut self, label: usize)
        requires
            old(self).wf(),
            label < old(self).labels@.len(),
            old(self).byte_offset + 1 <= usize::MAX,
        ensures
            final(self).wf(),
            final(self).instructions@ == if PvmEmitter::needs_fallthrough(old(self).instructions@) {
                old(self).instructions@.push(Instruction::Fallthrough)
            } else {
                old(self).instructions@
            },
            final(self).labels@ == old(self).labels@.update(label as int, Some(final(self).byte_offset)),
            final(self).fixups@ == old(self).fixups@,
            final(self).slot_map() == old(self).slot_map(),
            final(self).reg_to_slot@ == old(self).reg_to_slot@,
            final(self).reg_to_const@ == old(self).reg_to_const@,
            final(self).config == old(self).config,
            final(self).slots() == old(self).slots(),
            final(self).same_body(old(self)),
            final(self).byte_offset <= old(self).byte_offset + 1,
    {
        let n = self.instructions.len();
        if n > 0 && !self.instructions[n - 1].is_terminating() {
            let ghost before = *self;
            self.emit(Instruction::Fallthrough);
            proof {
                assert(Instruction::Fallthrough.dest() is None);
                assert(const_load(Instruction::Fallthrough) is None);
                assert forall|r: int| 0 <= r < 13 implies #[trigger] self.reg_to_const@[r] == before.reg_to_const@[r] by {
                    assert(self.reg_const(r) == const_after(before.reg_const(r), before.config.constant_propagation_enabled, Instruction::Fallthrough, r));
                }
                assert forall|r: int| 0 <= r < 13 implies #[trigger] self.reg_to_slot@[r] == before.reg_to_slot@[r] by {
                    assert(self.reg_slot(r) == before.reg_slot(r));
                }
                assert(self.reg_to_const@ =~= before.reg_to_const@);
                assert(self.reg_to_slot@ =~= before.reg_to_slot@);
            }
        }
        let offset = self.current_offset();
        self.labels.set(label, Some(offset));
    }

    // ── Slot allocation ──

    /// Give `key` the next free stack slot.
    pub fn alloc_slot_for_key(&mut self, key: ValKey) -> (offset: i32)
        requires
            old(self).wf(),
            old(self).next_slot_offset + 8 <= i32::MAX,
        ensures
            offset == old(self).next_slot_offset,
            final(self).slots() == old(self).slots().insert(key.0, offset),
            final(self).next_slot_offset == old(self).next_slot_offset + 8,
            final(self).wf(),
            final(self).instructions@ == old(self).instructions@,
            final(self).labels@ == old(self).labels@,
            final(self).fixups@ == old(self).fixups@,
    {
        let offset = self.next_slot_offset;
        self.value_slots.insert(key.0, offset);
        self.next_slot_offset += 8;
        offset
    }

    /// The stack slot of `key`, if it has one.
    pub fn get_slot(&self, key: ValKey) -> (r: Option<i32>)
        ensures
            r == (if self.slots().contains_key(key.0) {
                Some(self.slots()[key.0])
            } else {
                None
            }),
    {
        match self.value_slots.get(&key.0) {
            Some(v) => Some(*v),
            None => None,
        }
    }

    // ── Value store ──

    /// Store `src_reg` into the stack slot at `slot_offset`. A slot with an
    /// allocated register also gets the value copied into that register; the
    /// stack store is always emitted (write-through). The register cache then
    /// records that `src_reg` holds the slot.
    pub fn store_to_slot(&mut self, slot_offset: i32, src_reg: u8)
        requires
            old(self).wf(),
            src_reg < 13,
            old(self).byte_offset + 8 <= usize::MAX,
        ensures
            final(self).wf(),
            final(self).instructions@ == old(self).instructions@ + (if old(
                self,
            ).regalloc.slot_to_reg@.contains_key(slot_offset) && old(self).regalloc.slot_to_reg@[slot_offset]
                != src_reg {
                seq![
                    Instruction::MoveReg {
                        dst: old(self).regalloc.slot_to_reg@[slot_offset],
                        src: src_reg,
                    },
                ]
            } else {
                Seq::empty()
            }) + seq![Instruction::StoreIndU64 { base: STACK_PTR_REG, src: src_reg, offset: slot_offset }],
            final(self).labels@ == old(self).labels@,
            final(self).fixups@ == old(self).fixups@,
            final(self).config == old(self).config,
            final(self).same_frame(old(self)),
            final(self).byte_offset <= old(self).byte_offset + 8,
            forall|r: int|
                0 <= r < 13 && old(self).reg_const(r) is None ==> #[trigger] final(self).reg_const(r) is None,
            old(self).config.register_cache_enabled ==> final(self).reg_slot(src_reg as int) == Some(
                slot_offset,
            ) && final(self).slot_map().contains_key(slot_offset) && final(self).slot_map()[slot_offset]
                == src_reg,
            // A truthful register cache stays truthful (unless the cache is off
            // and some register is still recorded as holding the slot, or the
            // slot's allocated register is the stack pointer).
            (old(self).config.register_cache_enabled || !old(self).slot_map().contains_key(slot_offset))
                && !(old(self).regalloc.slot_to_reg@.contains_key(slot_offset)
                && old(self).regalloc.slot_to_reg@[slot_offset] == STACK_PTR_REG) ==> forall|st: SlotState|
                cache_holds(*old(self), st) ==> #[trigger] run_slots(
                    st,
                    final(self).instructions@.skip(old(self).instructions@.len() as int),
                ) is Some && cache_holds(
                    *final(self),
                    run_slots(st, final(self).instructions@.skip(old(self).instructions@.len() as int)).unwrap(),
                ),
    {
        let ghost start = self.instructions@;
        let ghost e_a = *self;
        let alloc = match self.regalloc.slot_to_reg.get(&slot_offset) {
            Some(r) => Some(*r),
            None => None,
        };
        let ghost mid_start = self.instructions@;
        if let Some(alloc_reg) = alloc {
            if src_reg != alloc_reg {
                let mv = Instruction::MoveReg { dst: alloc_reg, src: src_reg };
                assert(mv.encoding().len() == 2);
                self.emit(mv);
            }
        }
        let ghost mid = self.instructions@;
        let ghost e_b = *self;
        let st = Instruction::StoreIndU64 { base: STACK_PTR_REG, src: src_reg, offset: slot_offset };
        proof {
            lemma_store_len(src_reg, slot_offset);
        }
        self.emit(st);
        let ghost before_cache = *self;
        self.cache_slot(slot_offset, src_reg);
        proof {
            assert forall|r: int| 0 <= r < 13 && e_a.reg_const(r) is None implies #[trigger] self.reg_const(r)
                is None by {
                if mid.len() > start.len() {
                    let mv = mid[start.len() as int];
                    assert(mv == Instruction::MoveReg {
                        dst: e_a.regalloc.slot_to_reg@[slot_offset],
                        src: src_reg,
                    });
                    assert(e_b.reg_const(r) == const_after(
                        e_a.reg_const(r),
                        e_a.config.constant_propagation_enabled,
                        mv,
                        r,
                    ));
                } else {
                    assert(e_b.reg_to_const@ == e_a.reg_to_const@);
                }
                assert(before_cache.reg_const(r) == const_after(
                    e_b.reg_const(r),
                    e_b.config.constant_propagation_enabled,
                    st,
                    r,
                ));
            }
            let n0 = start.len() as int;
            let moved = mid.skip(n0);
            assert(self.instructions@.skip(n0) =~= moved.push(st));
            assert(moved.push(st).drop_last() =~= moved);
            if (e_a.config.register_cache_enabled || !e_a.slot_map().contains_key(slot_offset))
                && !(e_a.regalloc.slot_to_reg@.contains_key(slot_offset)
                && e_a.regalloc.slot_to_reg@[slot_offset] == STACK_PTR_REG) {
                assert forall|s0: SlotState| cache_holds(e_a, s0) implies #[trigger] run_slots(
                    s0,
                    self.instructions@.skip(n0),
                ) is Some && cache_holds(*self, run_slots(s0, self.instructions@.skip(n0)).unwrap()) by {
                    // The register move into the allocated register, if any.
                    assert(run_slots(s0, moved) is Some && cache_holds(e_b, run_slots(s0, moved).unwrap())) by {
                        if moved.len() == 0 {
                            assert(e_b == e_a);
                        } else {
                            let mv = moved[0];
                            assert(moved =~= seq![mv]);
                            assert(moved.drop_last() =~= Seq::<Instruction>::empty());
                            reveal_with_fuel(run_slots, 2);
                            let d = mv.dest().unwrap();
                            lemma_reg_write_keeps_cache(e_a, e_b, mv, d, s0);
                        }
                    }
                    let s1 = run_slots(s0, moved).unwrap();
                    let s2 = slot_step(s1, st).unwrap();
                    assert(run_slots(s0, self.instructions@.skip(n0)) == Some(s2));
                    // The store leaves the cache as it was; recording `src_reg`
                    // for the slot drops any other register recorded for it.
                    assert(before_cache.slot_map() == e_b.slot_map());
                    assert forall|s: i32| #[trigger] self.slot_map().contains_key(s) implies (s2.0)(
                        self.slot_map()[s],
                    ) == (s2.1)(s) by {
                        if s != slot_offset {
                            if e_b.config.register_cache_enabled {
                                assert(e_b.slot_map().contains_key(s));
                            }
                        }
                    }
                    assert forall|r: int| 0 <= r < 13 && #[trigger] self.reg_const(r) is Some implies (
                    s2.0)(r as u8) == self.reg_const(r).unwrap() by {
                        assert(before_cache.reg_const(r) == const_after(
                            e_b.reg_const(r),
                            e_b.config.constant_propagation_enabled,
                            st,
                            r,
                        ));
                    }
                }
            }
        }
        proof {
            assert(self.instructions@ =~= start + (if old(self).regalloc.slot_to_reg@.contains_key(
                slot_offset,
            ) && old(self).regalloc.slot_to_reg@[slot_offset] != src_reg {
                seq![
                    Instruction::MoveReg {
                        dst: old(self).regalloc.slot_to_reg@[slot_offset],
                        src: src_reg,
                    },
                ]
            } else {
                Seq::empty()
            }) + seq![st]);
        }
    }
}

/// A 64-bit store to the stack encodes to at most six bytes and writes no register.
proof fn lemma_store_len(src: u8, offset: i32)
    ensures
        (Instruction::StoreIndU64 { base: STACK_PTR_REG, src, offset }).encoding().len() <= 6,
        (Instruction::StoreIndU64 { base: STACK_PTR_REG, src, offset }).dest() is None,
{
}


/// The jump offset of an instruction that jumps.
pub open spec fn jump_offset_of(instr: Instruction) -> Option<i32> {
    match instr {
        Instruction::Jump { offset, .. } => Some(offset),
        Instruction::LoadImmJump { offset, .. } => Some(offset),
        Instruction::BranchNeImm { offset, .. } => Some(offset),
        Instruction::BranchEqImm { offset, .. } => Some(offset),
        Instruction::BranchGeSImm { offset, .. } => Some(offset),
        Instruction::BranchLtUImm { offset, .. } => Some(offset),
        Instruction::BranchLeUImm { offset, .. } => Some(offset),
        Instruction::BranchGeUImm { offset, .. } => Some(offset),
        Instruction::BranchGtUImm { offset, .. } => Some(offset),
        Instruction::BranchLtSImm { offset, .. } => Some(offset),
        Instruction::BranchLeSImm { offset, .. } => Some(offset),
        Instruction::BranchGtSImm { offset, .. } => Some(offset),
        Instruction::BranchEq { offset, .. } => Some(offset),
        Instruction::BranchNe { offset, .. } => Some(offset),
        Instruction::BranchGeU { offset, .. } => Some(offset),
        Instruction::BranchLtU { offset, .. } => Some(offset),
        Instruction::BranchLtS { offset, .. } => Some(offset),
        Instruction::BranchGeS { offset, .. } => Some(offset),
        _ => None,
    }
}

/// Relative offset of a jump from the instruction at byte `start` to byte
/// `target`, both taken as `i32` as PVM offsets are.
pub open spec fn jump_rel(target: usize, start: nat) -> int {
    (target as i32) as int - (start as i32) as int
}

/// Fixup `f` can be applied: its label is defined and its instruction jumps.
pub open spec fn fixup_applies(
    instrs: Seq<Instruction>,
    labels: Seq<Option<usize>>,
    f: (usize, usize),
) -> bool {
    &&& labels[f.1 as int] is Some
    &&& with_jump_offset(instrs[f.0 as int], 0) is Some
}

/// Fixup `f` names a label that exists and, when that label is defined, an
/// instruction that exists, with a relative offset that fits in an `i32`.
pub open spec fn fixup_in_bounds(
    instrs: Seq<Instruction>,
    labels: Seq<Option<usize>>,
    f: (usize, usize),
) -> bool {
    &&& f.1 < labels.len()
    &&& labels[f.1 as int] matches Some(t) ==> f.0 < instrs.len() && i32::MIN <= jump_rel(
        t,
        offset_of(instrs, f.0 as int),
    ) <= i32::MAX
}

/// Index of the first fixup from `i` on that cannot be applied (the number
/// of fixups when all can).
pub open spec fn applicable_prefix(
    instrs: Seq<Instruction>,
    labels: Seq<Option<usize>>,
    fixups: Seq<(usize, usize)>,
    i: int,
) -> int
    decreases fixups.len() - i,
{
    if i < 0 || i >= fixups.len() {
        fixups.len() as int
    } else if fixup_applies(instrs, labels, fixups[i]) {
        applicable_prefix(instrs, labels, fixups, i + 1)
    } else {
        i
    }
}

/// The instructions after applying the first `k` fixups in order: each sets
/// its jump's offset to the distance from the jump to its label.
pub open spec fn patched(
    instrs: Seq<Instruction>,
    labels: Seq<Option<usize>>,
    fixups: Seq<(usize, usize)>,
    k: int,
) -> Seq<Instruction>
    decreases k,
{
    if k <= 0 || k > fixups.len() {
        instrs
    } else {
        let p = patched(instrs, labels, fixups, k - 1);
        let f = fixups[k - 1];
        match labels[f.1 as int] {
            Some(t) => match with_jump_offset(
                p[f.0 as int],
                jump_rel(t, offset_of(instrs, f.0 as int)) as i32,
            ) {
                Some(j) => p.update(f.0 as int, j),
                None => p,
            },
            None => p,
        }
    }
}

/// Replacing one instruction by one of the same encoded length keeps the
/// code length.
proof fn lemma_code_len_update(s: Seq<Instruction>, i: int, x: Instruction)
    requires
        0 <= i < s.len(),
        x.encoding().len() == s[i].encoding().len(),
    ensures
        code_bytes(s.update(i, x)).len() == code_bytes(s).len(),
    decreases s.len(),
{
    let u = s.update(i, x);
    if i == s.len() - 1 {
        assert(u.drop_last() =~= s.drop_last());
    } else {
        lemma_code_len_update(s.drop_last(), i, x);
        assert(u.drop_last() =~= s.drop_last().update(i, x));
    }
}

/// Patching keeps the length of the stream, the length of its code, and
/// which instructions jump.
#[verifier::rlimit(40)]
proof fn lemma_patched(
    instrs: Seq<Instruction>,
    labels: Seq<Option<usize>>,
    fixups: Seq<(usize, usize)>,
    k: int,
)
    requires
        forall|j: int| 0 <= j < k && j < fixups.len() ==> fixup_in_bounds(instrs, labels, #[trigger] fixups[j]),
    ensures
        patched(instrs, labels, fixups, k).len() == instrs.len(),
        code_bytes(patched(instrs, labels, fixups, k)).len() == code_bytes(instrs).len(),
        forall|i: int, o: i32|
            0 <= i < instrs.len() ==> (#[trigger] with_jump_offset(
                patched(instrs, labels, fixups, k)[i],
                o,
            ) is Some) == (with_jump_offset(instrs[i], 0) is Some),
    decreases k,
{
    if k > 0 && k <= fixups.len() {
        lemma_patched(instrs, labels, fixups, k - 1);
        let p = patched(instrs, labels, fixups, k - 1);
        let f = fixups[k - 1];
        assert(fixup_in_bounds(instrs, labels, f));
        match labels[f.1 as int] {
            Some(t) => {
                let off = jump_rel(t, offset_of(instrs, f.0 as int)) as i32;
                assert forall|o: i32| true implies (with_jump_offset(p[f.0 as int], off) is Some) == (
                with_jump_offset(p[f.0 as int], o) is Some) by {
                    jump_offset_keeps_length(p[f.0 as int], off, o);
                }
                match with_jump_offset(p[f.0 as int], off) {
                    Some(j) => {
                        lemma_code_len_update(p, f.0 as int, j);
                        assert forall|i: int, o: i32| 0 <= i < instrs.len() implies (
                        #[trigger] with_jump_offset(p.update(f.0 as int, j)[i], o) is Some) == (
                        with_jump_offset(instrs[i], 0) is Some) by {
                            jump_offset_keeps_length(p[f.0 as int], off, o);
                            jump_offset_keeps_length(p[i], o, 0);
                            assert(with_jump_offset(p[i], 0) is Some == with_jump_offset(instrs[i], 0) is Some);
                        }
                    },
                    None => {},
                }
            },
            None => {},
        }
    }
}

proof fn lemma_applicable_prefix(
    instrs: Seq<Instruction>,
    labels: Seq<Option<usize>>,
    fixups: Seq<(usize, usize)>,
    i: int,
)
    requires
        0 <= i <= fixups.len(),
        forall|j: int| 0 <= j < i ==> fixup_applies(instrs, labels, #[trigger] fixups[j]),
    ensures
        applicable_prefix(instrs, labels, fixups, 0) == applicable_prefix(instrs, labels, fixups, i),
        applicable_prefix(instrs, labels, fixups, 0) >= i,
        applicable_prefix(instrs, labels, fixups, i) <= fixups.len(),
    decreases i,
{
    lemma_prefix_bounds(instrs, labels, fixups, i);
    if i > 0 {
        lemma_applicable_prefix(instrs, labels, fixups, i - 1);
    }
}

proof fn lemma_prefix_bounds(
    instrs: Seq<Instruction>,
    labels: Seq<Option<usize>>,
    fixups: Seq<(usize, usize)>,
    i: int,
)
    requires
        0 <= i <= fixups.len(),
    ensures
        i <= applicable_prefix(instrs, labels, fixups, i) <= fixups.len(),
    decreases fixups.len() - i,
{
    if i < fixups.len() {
        lemma_prefix_bounds(instrs, labels, fixups, i + 1);
    }
}

impl PvmEmitter {
    /// Patch every recorded jump with the distance from the jump to its
    /// label, in the order the fixups were recorded. Stops at the first fixup
    /// whose label is undefined or whose instruction does not jump, with an
    /// error, keeping the fixups applied before it.
    pub fn resolve_fixups(&mut self) -> (r: Result<()>)
        requires
            old(self).wf(),
            forall|k: int|
                0 <= k < old(self).fixups@.len() && k <= applicable_prefix(
                    old(self).instructions@,
                    old(self).labels@,
                    old(self).fixups@,
                    0,
                ) ==> fixup_in_bounds(
                    old(self).instructions@,
                    old(self).labels@,
                    #[trigger] old(self).fixups@[k],
                ),
        ensures
            ({
                let n = applicable_prefix(old(self).instructions@, old(self).labels@, old(self).fixups@, 0);
                &&& final(self).instructions@ == patched(
                    old(self).instructions@,
                    old(self).labels@,
                    old(self).fixups@,
                    n,
                )
                &&& (r is Ok <==> n == old(self).fixups@.len())
                &&& r matches Err(e) ==> (e matches Error::Unsupported(m) && m@ == (if old(
                    self,
                ).labels@[old(self).fixups@[n].1 as int] is None {
                    "unresolved label"@
                } else {
                    "cannot fixup non-jump instruction"@
                }))
            }),
            final(self).wf(),
            final(self).same_frame(old(self)),
            final(self).byte_offset == old(self).byte_offset,
            final(self).slot_map() == old(self).slot_map(),
            final(self).reg_to_slot@ == old(self).reg_to_slot@,
            final(self).reg_to_const@ == old(self).reg_to_const@,
    {
        let ghost instrs = self.instructions@;
        let ghost labels = self.labels@;
        let ghost fixups = self.fixups@;
        // Byte offset of each instruction.
        let offsets = instruction_offsets(&self.instructions);
        let mut i: usize = 0;
        while i < self.fixups.len()
            invariant
                self.labels@ == labels,
                self.fixups@ == fixups,
                offsets@.len() == instrs.len(),
                forall|j: int| 0 <= j < instrs.len() ==> offsets@[j] == offset_of(instrs, j),
                i <= fixups.len(),
                forall|j: int| 0 <= j < i ==> fixup_applies(instrs, labels, #[trigger] fixups[j]),
                forall|k: int|
                    0 <= k < fixups.len() && k <= applicable_prefix(instrs, labels, fixups, 0)
                        ==> fixup_in_bounds(instrs, labels, #[trigger] fixups[k]),
                self.instructions@ == patched(instrs, labels, fixups, i as int),
                self.wf(),
                self.same_frame(old(self)),
                self.byte_offset == old(self).byte_offset,
                self.slot_map() == old(self).slot_map(),
                self.reg_to_slot@ == old(self).reg_to_slot@,
                self.reg_to_const@ == old(self).reg_to_const@,
                old(self).instructions@ == instrs,
                old(self).labels@ == labels,
                old(self).fixups@ == fixups,
            decreases fixups.len() - i,
        {
            proof {
                lemma_applicable_prefix(instrs, labels, fixups, i as int);
                assert(fixup_in_bounds(instrs, labels, fixups[i as int]));
                lemma_patched(instrs, labels, fixups, i as int);
            }
            let (instr_idx, label_id) = self.fixups[i];
            let target_offset = match self.labels[label_id] {
                Some(t) => t,
                None => {
                    proof {
                        reveal_strlit("unresolved label");
                    }
                    return Err(Error::Unsupported(String::from_str("unresolved label")));
                },
            };
            // PVM jump offsets are relative to the instruction start.
            let instr_start = offsets[instr_idx];
            let relative_offset = (target_offset as i32) - (instr_start as i32);
            let ghost before = self.instructions@;
            match set_jump_offset(&self.instructions[instr_idx], relative_offset) {
                Some(j) => {
                    proof {
                        jump_offset_keeps_length(before[instr_idx as int], relative_offset, 0);
                        lemma_code_len_update(before, instr_idx as int, j);
                    }
                    self.instructions.set(instr_idx, j);
                },
                None => {
                    proof {
                        assert(!fixup_applies(instrs, labels, fixups[i as int]));
                    }
                    return Err(
                        Error::Unsupported(String::from_str("cannot fixup non-jump instruction")),
                    );
                },
            }
            i += 1;
        }
        proof {
            lemma_applicable_prefix(instrs, labels, fixups, i as int);
        }
        Ok(())
    }
}

/// Once all fixups are resolved, a jump that no later fixup overwrites
/// lands on its label: its offset is the distance from the jump to the label.
pub proof fn resolved_jump_targets_label(
    instrs: Seq<Instruction>,
    labels: Seq<Option<usize>>,
    fixups: Seq<(usize, usize)>,
    k: int,
)
    requires
        applicable_prefix(instrs, labels, fixups, 0) == fixups.len(),
        forall|j: int| 0 <= j < fixups.len() ==> fixup_in_bounds(instrs, labels, #[trigger] fixups[j]),
        0 <= k < fixups.len(),
        forall|j: int| k < j < fixups.len() ==> #[trigger] fixups[j].0 != fixups[k].0,
        code_bytes(instrs).len() <= i32::MAX,
        forall|j: int| 0 <= j < labels.len() ==> (#[trigger] labels[j] matches Some(t) ==> t <= i32::MAX),
    ensures
        ({
            let f = fixups[k];
            let t = labels[f.1 as int]->Some_0;
            &&& labels[f.1 as int] is Some
            &&& jump_offset_of(patched(instrs, labels, fixups, fixups.len() as int)[f.0 as int])
                == Some(jump_rel(t, offset_of(instrs, f.0 as int)) as i32)
            &&& offset_of(instrs, f.0 as int) + jump_rel(t, offset_of(instrs, f.0 as int)) == t
        }),
{
    lemma_all_apply(instrs, labels, fixups, 0);
    lemma_patched_from(instrs, labels, fixups, k);
}

proof fn lemma_all_apply(
    instrs: Seq<Instruction>,
    labels: Seq<Option<usize>>,
    fixups: Seq<(usize, usize)>,
    i: int,
)
    requires
        0 <= i <= fixups.len(),
        applicable_prefix(instrs, labels, fixups, i) == fixups.len(),
    ensures
        forall|j: int| i <= j < fixups.len() ==> fixup_applies(instrs, labels, #[trigger] fixups[j]),
    decreases fixups.len() - i,
{
    if i < fixups.len() {
        lemma_all_apply(instrs, labels, fixups, i + 1);
    }
}

/// From the `k`-th fixup on, a jump that no later fixup touches keeps the
/// offset the `k`-th set.
proof fn lemma_patched_from(
    instrs: Seq<Instruction>,
    labels: Seq<Option<usize>>,
    fixups: Seq<(usize, usize)>,
    k: int,
)
    requires
        forall|j: int| 0 <= j < fixups.len() ==> fixup_applies(instrs, labels, #[trigger] fixups[j]),
        forall|j: int| 0 <= j < fixups.len() ==> fixup_in_bounds(instrs, labels, #[trigger] fixups[j]),
        0 <= k < fixups.len(),
        forall|j: int| k < j < fixups.len() ==> #[trigger] fixups[j].0 != fixups[k].0,
        code_bytes(instrs).len() <= i32::MAX,
        forall|j: int| 0 <= j < labels.len() ==> (#[trigger] labels[j] matches Some(t) ==> t <= i32::MAX),
    ensures
        ({
            let f = fixups[k];
            let t = labels[f.1 as int]->Some_0;
            &&& jump_offset_of(patched(instrs, labels, fixups, fixups.len() as int)[f.0 as int])
                == Some(jump_rel(t, offset_of(instrs, f.0 as int)) as i32)
            &&& offset_of(instrs, f.0 as int) + jump_rel(t, offset_of(instrs, f.0 as int)) == t
        }),
{
    let f = fixups[k];
    let t = labels[f.1 as int]->Some_0;
    let off = jump_rel(t, offset_of(instrs, f.0 as int)) as i32;
    assert(fixup_applies(instrs, labels, f));
    assert(fixup_in_bounds(instrs, labels, f));
    lemma_patched(instrs, labels, fixups, k);
    let p = patched(instrs, labels, fixups, k);
    jump_offset_keeps_length(p[f.0 as int], off, 0);
    assert(with_jump_offset(p[f.0 as int], off) is Some);
    let q = patched(instrs, labels, fixups, k + 1);
    assert(jump_offset_of(q[f.0 as int]) == Some(off));
    lemma_patched_keeps(instrs, labels, fixups, k + 1, f.0 as int);
    // `t` and the start offset fit in `i32`, so the casts in `jump_rel` are exact.
    assert(labels[f.1 as int] matches Some(t2) ==> t2 <= i32::MAX);
    lemma_offset_mono(instrs, f.0 as int, instrs.len() as int);
    assert(instrs.take(instrs.len() as int) =~= instrs);
}

/// Fixups after `from` that do not touch instruction `idx` leave it as it is.
proof fn lemma_patched_keeps(
    instrs: Seq<Instruction>,
    labels: Seq<Option<usize>>,
    fixups: Seq<(usize, usize)>,
    from: int,
    idx: int,
)
    requires
        0 <= from <= fixups.len(),
        0 <= idx < instrs.len(),
        forall|j: int| 0 <= j < fixups.len() ==> fixup_in_bounds(instrs, labels, #[trigger] fixups[j]),
        forall|j: int| from <= j < fixups.len() ==> #[trigger] fixups[j].0 != idx,
    ensures
        patched(instrs, labels, fixups, fixups.len() as int)[idx] == patched(
            instrs,
            labels,
            fixups,
            from,
        )[idx],
    decreases fixups.len() - from,
{
    if from < fixups.len() {
        lemma_patched_keeps(instrs, labels, fixups, from + 1, idx);
        lemma_patched(instrs, labels, fixups, from);
        assert(fixups[from].0 != idx);
    }
}


/// `order` lists the entries of `m`, each once.
pub open spec fn lists_entries(order: Seq<(u8, i32)>, m: Map<u8, i32>) -> bool {
    &&& order.no_duplicates()
    &&& order.len() == m.dom().len()
    &&& forall|i: int| 0 <= i < order.len() ==> m.contains_key(#[trigger] order[i].0) && m[order[i].0] == order[i].1
    &&& forall|k: u8| #[trigger] m.contains_key(k) ==> order.contains((k, m[k]))
}

/// The stores that spill the listed registers to their slots.
pub open spec fn spill_code(order: Seq<(u8, i32)>) -> Seq<Instruction> {
    order.map_values(|e: (u8, i32)| Instruction::StoreIndU64 { base: STACK_PTR_REG, src: e.0, offset: e.1 })
}

/// The loads that reload the listed registers from their slots.
pub open spec fn reload_code(order: Seq<(u8, i32)>) -> Seq<Instruction> {
    order.map_values(|e: (u8, i32)| Instruction::LoadIndU64 { dst: e.0, base: STACK_PTR_REG, offset: e.1 })
}

/// The entries of a register → slot map, in the map's iteration order.
fn allocated_entries(m: &HashMap<u8, i32>) -> (r: Vec<(u8, i32)>)
    ensures
        lists_entries(r@, m@),
{
    let mut out: Vec<(u8, i32)> = Vec::new();
    for kv in it: m.iter()
        invariant
            out@.len() == it.index(),
            forall|i: int| 0 <= i < it.index() ==> #[trigger] out@[i] == (*it.seq()[i].0, *it.seq()[i].1),
    {
        out.push((*kv.0, *kv.1));
    }
    proof {
        let v = vstd::std_specs::hash::spec_hash_map_iter(m).remaining();
        assert forall|k: u8| #[trigger] m@.contains_key(k) implies out@.contains((k, m@[k])) by {
            assert(v.contains((&k, &m@[k])));
            let i = choose|i: int| 0 <= i < v.len() && v[i] == (&k, &m@[k]);
            assert(out@[i] == (k, m@[k]));
        }
    }
    out
}

impl PvmEmitter {
    /// Spill all register-allocated values to their stack slots (before
    /// instructions that clobber the allocated registers), in the order the
    /// allocation map lists them.
    pub fn spill_allocated_regs(&mut self)
        requires
            old(self).wf(),
            old(self).byte_offset + 6 * old(self).regalloc.reg_to_slot@.dom().len() <= usize::MAX,
        ensures
            final(self).wf(),
            final(self).same_frame(old(self)),
            exists|order: Seq<(u8, i32)>|
                lists_entries(order, old(self).regalloc.reg_to_slot@) && #[trigger] spill_code(order)
                    == final(self).instructions@.skip(old(self).instructions@.len() as int),
            final(self).instructions@.take(old(self).instructions@.len() as int) == old(self).instructions@,
            final(self).slot_map() == old(self).slot_map(),
            final(self).reg_to_slot@ == old(self).reg_to_slot@,
            final(self).reg_to_const@ == old(self).reg_to_const@,
    {
        let entries = allocated_entries(&self.regalloc.reg_to_slot);
        let ghost start = *self;
        let mut i: usize = 0;
        while i < entries.len()
            invariant
                i <= entries@.len(),
                lists_entries(entries@, start.regalloc.reg_to_slot@),
                self.wf(),
                self.same_frame(&start),
                start.wf(),
                start.byte_offset + 6 * entries@.len() <= usize::MAX,
                self.byte_offset <= start.byte_offset + 6 * i,
                self.instructions@ == start.instructions@ + spill_code(entries@.take(i as int)),
                self.slot_map() == start.slot_map(),
                self.reg_to_slot@ == start.reg_to_slot@,
                self.reg_to_const@ == start.reg_to_const@,
            decreases entries@.len() - i,
        {
            let (reg, slot) = entries[i];
            proof {
                lemma_store_len(reg, slot);
            }
            let ghost before = *self;
            self.emit(Instruction::StoreIndU64 { base: STACK_PTR_REG, src: reg, offset: slot });
            proof {
                assert forall|r: int| 0 <= r < 13 implies #[trigger] self.reg_to_const@[r] == before.reg_to_const@[r] by {
                    assert(self.reg_const(r) == before.reg_const(r));
                }
                assert forall|r: int| 0 <= r < 13 implies #[trigger] self.reg_to_slot@[r] == before.reg_to_slot@[r] by {
                    assert(self.reg_slot(r) == before.reg_slot(r));
                }
                assert(self.reg_to_const@ =~= before.reg_to_const@);
                assert(self.reg_to_slot@ =~= before.reg_to_slot@);
                assert(entries@.take(i + 1) =~= entries@.take(i as int).push((reg, slot)));
                assert(spill_code(entries@.take(i + 1)) =~= spill_code(entries@.take(i as int)).push(
                    Instruction::StoreIndU64 { base: STACK_PTR_REG, src: reg, offset: slot },
                ));
            }
            i += 1;
        }
        proof {
            assert(entries@.take(entries@.len() as int) =~= entries@);
            assert(self.instructions@.skip(start.instructions@.len() as int) =~= spill_code(entries@));
            assert(self.instructions@.take(start.instructions@.len() as int) =~= start.instructions@);
        }
    }

    /// Reload all register-allocated values from their stack slots (after
    /// instructions that clobber the allocated registers), in the order the
    /// allocation map lists them. The cache forgets what those registers held.
    pub fn reload_allocated_regs(&mut self)
        requires
            old(self).wf(),
            old(self).byte_offset + 6 * old(self).regalloc.reg_to_slot@.dom().len() <= usize::MAX,
        ensures
            final(self).wf(),
            final(self).same_frame(old(self)),
            exists|order: Seq<(u8, i32)>|
                lists_entries(order, old(self).regalloc.reg_to_slot@) && #[trigger] reload_code(order)
                    == final(self).instructions@.skip(old(self).instructions@.len() as int),
            final(self).instructions@.take(old(self).instructions@.len() as int) == old(self).instructions@,
            forall|r: int|
                0 <= r < 13 ==> #[trigger] final(self).reg_slot(r) == (if old(
                    self,
                ).regalloc.reg_to_slot@.contains_key(r as u8) {
                    None
                } else {
                    old(self).reg_slot(r)
                }),
            forall|r: int|
                0 <= r < 13 ==> #[trigger] final(self).reg_const(r) == (if old(
                    self,
                ).regalloc.reg_to_slot@.contains_key(r as u8) {
                    None
                } else {
                    old(self).reg_const(r)
                }),
    {
        let entries = allocated_entries(&self.regalloc.reg_to_slot);
        let ghost start = *self;
        let ghost m = start.regalloc.reg_to_slot@;
        let mut i: usize = 0;
        while i < entries.len()
            invariant
                i <= entries@.len(),
                lists_entries(entries@, m),
                m == start.regalloc.reg_to_slot@,
                self.wf(),
                self.same_frame(&start),
                start.wf(),
                start.byte_offset + 6 * entries@.len() <= usize::MAX,
                self.byte_offset <= start.byte_offset + 6 * i,
                self.instructions@ == start.instructions@ + reload_code(entries@.take(i as int)),
                forall|r: int|
                    0 <= r < 13 ==> #[trigger] self.reg_slot(r) == (if (exists|j: int|
                        0 <= j < i && entries@[j].0 == r) {
                        None
                    } else {
                        start.reg_slot(r)
                    }),
                forall|r: int|
                    0 <= r < 13 ==> #[trigger] self.reg_const(r) == (if (exists|j: int|
                        0 <= j < i && entries@[j].0 == r) {
                        None
                    } else {
                        start.reg_const(r)
                    }),
            decreases entries@.len() - i,
        {
            let (reg, slot) = entries[i];
            proof {
                assert(m.contains_key(entries@[i as int].0));
                assert(reg < 13);
                assert((Instruction::LoadIndU64 { dst: reg, base: STACK_PTR_REG, offset: slot }).encoding().len() <= 6);
            }
            let ghost before = *self;
            self.emit(Instruction::LoadIndU64 { dst: reg, base: STACK_PTR_REG, offset: slot });
            proof {
                let instr = Instruction::LoadIndU64 { dst: reg, base: STACK_PTR_REG, offset: slot };
                assert(instr.dest() == Some(reg));
                assert(const_load(instr) is None);
                assert forall|r: int| 0 <= r < 13 implies #[trigger] self.reg_slot(r) == (if (exists|j: int|
                    0 <= j < i + 1 && entries@[j].0 == r) {
                    None
                } else {
                    start.reg_slot(r)
                }) by {
                    assert(self.reg_slot(r) == (if instr.dest() == Some(r as u8) { None } else { before.reg_slot(r) }));
                    if r == reg {
                        assert(entries@[i as int].0 == r);
                    } else {
                        if exists|j: int| 0 <= j < i + 1 && entries@[j].0 == r {
                            let j = choose|j: int| 0 <= j < i + 1 && entries@[j].0 == r;
                            assert(j < i);
                        }
                    }
                }
                assert forall|r: int| 0 <= r < 13 implies #[trigger] self.reg_const(r) == (if (exists|j: int|
                    0 <= j < i + 1 && entries@[j].0 == r) {
                    None
                } else {
                    start.reg_const(r)
                }) by {
                    assert(self.reg_const(r) == const_after(before.reg_const(r), before.config.constant_propagation_enabled, instr, r));
                    if r == reg {
                        assert(entries@[i as int].0 == r);
                    } else {
                        if exists|j: int| 0 <= j < i + 1 && entries@[j].0 == r {
                            let j = choose|j: int| 0 <= j < i + 1 && entries@[j].0 == r;
                            assert(j < i);
                        }
                    }
                }
                assert(entries@.take(i + 1) =~= entries@.take(i as int).push((reg, slot)));
                assert(reload_code(entries@.take(i + 1)) =~= reload_code(entries@.take(i as int)).push(instr));
            }
            i += 1;
        }
        proof {
            assert(entries@.take(entries@.len() as int) =~= entries@);
            assert(self.instructions@.skip(start.instructions@.len() as int) =~= reload_code(entries@));
            assert(self.instructions@.take(start.instructions@.len() as int) =~= start.instructions@);
            assert forall|r: int| 0 <= r < 13 implies (exists|j: int| 0 <= j < entries@.len() && entries@[j].0 == r) == #[trigger] m.contains_key(r as u8) by {
                if m.contains_key(r as u8) {
                    assert(entries@.contains((r as u8, m[r as u8])));
                    let j = choose|j: int| 0 <= j < entries@.len() && entries@[j] == (r as u8, m[r as u8]);
                    assert(entries@[j].0 == r);
                }
                if exists|j: int| 0 <= j < entries@.len() && entries@[j].0 == r {
                    let j = choose|j: int| 0 <= j < entries@.len() && entries@[j].0 == r;
                    assert(m.contains_key(entries@[j].0));
                }
            }
        }
    }
}

} // verus!
