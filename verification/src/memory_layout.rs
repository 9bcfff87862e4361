//! PVM memory address layout.
//!
//! ```text
//! PVM Address Space:
//!   0x00000 - 0x0FFFF   Reserved (fault on access)
//!   0x10000 - 0x1FFFF   Read-only data segment (RO_DATA_BASE)
//!   0x20000 - 0x2FFFF   Gap zone (unmapped, guard between RO and RW)
//!   0x30000             Mem-size slot (4 bytes, only when memory.size/grow/init used)
//!   0x30000 / 0x30004+  User globals (4 B for i32/f32, 8 B for i64/f64,
//!                       packed in declaration order, no padding)
//!   globals_end+        Passive data segment effective-length slots (4 bytes each)
//!   passive_lens_end+   Parameter overflow area (256 bytes, 8-byte aligned, only
//!                       when some signature has more than 4 parameters)
//!   region_end          WASM linear memory (sits immediately after the last region)
//!   ...
//!   0xFEFE0000          Stack segment end (stack grows downward)
//!   0xFFFF0000          Exit address (EXIT_ADDRESS)
//! ```
use vstd::prelude::*;

verus! {

/// Base address for the read-only data segment (dispatch tables, constant data).
pub const RO_DATA_BASE: i32 = 0x10000;

/// Base address for WASM globals in PVM memory.
pub const GLOBAL_MEMORY_BASE: i32 = 0x30000;

/// Bytes occupied by the compiler-managed memory-size slot, when present.
pub const MEM_SIZE_SLOT_BYTES: usize = 4;

/// Bytes per passive data segment effective-length record.
pub const PASSIVE_SEG_LEN_BYTES: usize = 4;

/// Size of the parameter overflow area in bytes (32 overflow parameters of 8 bytes).
pub const PARAM_OVERFLOW_SIZE: usize = 256;

/// Maximum total parameter count of a function signature: four in r9-r12,
/// the rest in the overflow area.
pub const MAX_TOTAL_PARAMS: usize = crate::abi::MAX_LOCAL_REGS + PARAM_OVERFLOW_SIZE / 8;

/// Stack segment end address (`0xFEFE0000` as an `i32`); the stack grows downward from here.
pub const STACK_SEGMENT_END: i32 = -16908288;

/// Default stack size limit (64KB, matching SPI default).
pub const DEFAULT_STACK_SIZE: u32 = 65536;

/// Exit address: jumping here terminates the program (`0xFFFF0000` as an `i32`).
pub const EXIT_ADDRESS: i32 = -65536;

/// The types a WASM value (and so a global) can have.
#[derive(Debug, Clone, Copy, PartialEq, Eq, Structural)]
pub enum ValType {
    I32,
    I64,
    F32,
    F64,
    V128,
    /// A reference (funcref, externref, ...).
    Ref,
}

/// Storage width in bytes of one WASM global of the given type.
pub open spec fn storage_width(ty: ValType) -> u32 {
    match ty {
        ValType::I32 | ValType::F32 => 4,
        ValType::I64 | ValType::F64 | ValType::Ref => 8,
        ValType::V128 => 16,
    }
}

/// Storage width (bytes) needed for a single WASM global of the given type:
/// 4 for i32/f32, 8 for i64/f64 and references, 16 for v128.
#[must_use]
pub fn global_storage_width(ty: ValType) -> (r: u32)
    ensures
        r == storage_width(ty),
{
    match ty {
        ValType::I32 | ValType::F32 => 4,
        ValType::I64 | ValType::F64 | ValType::Ref => 8,
        ValType::V128 => 16,
    }
}

/// Total bytes of the given global widths.
pub open spec fn sum_widths(ws: Seq<u32>) -> nat
    decreases ws.len(),
{
    if ws.len() == 0 {
        0
    } else {
        sum_widths(ws.drop_last()) + ws.last() as nat
    }
}

/// Sum of the widths, each taken as a signed 32-bit value.
pub open spec fn signed_sum(ws: Seq<u32>) -> int
    decreases ws.len(),
{
    if ws.len() == 0 {
        0
    } else {
        signed_sum(ws.drop_last()) + (ws.last() as i32)
    }
}

/// Bytes of the globals region: memory-size slot, user globals, passive segment lengths.
pub open spec fn region_size(ws: Seq<u32>, num_passive: nat, has_mem_size: bool) -> nat {
    (if has_mem_size { 4nat } else { 0nat }) + sum_widths(ws) + 4 * num_passive
}

/// `x` rounded up to a multiple of 8.
pub open spec fn align8(x: nat) -> nat {
    (x + 7) / 8 * 8
}

/// End address of the globals region.
pub open spec fn globals_end(ws: Seq<u32>, num_passive: nat, has_mem_size: bool) -> nat {
    0x30000 + region_size(ws, num_passive, has_mem_size)
}

/// Address of the first user global.
pub open spec fn first_global_addr(has_mem_size: bool) -> int {
    0x30000 + if has_mem_size { 4int } else { 0int }
}

proof fn lemma_sum_widths_prefix(ws: Seq<u32>, i: int)
    requires
        0 <= i < ws.len(),
    ensures
        sum_widths(ws.take(i + 1)) == sum_widths(ws.take(i)) + ws[i],
        sum_widths(ws.take(i + 1)) <= sum_widths(ws),
    decreases ws.len() - i,
{
    assert(ws.take(i + 1).drop_last() =~= ws.take(i));
    if i + 1 < ws.len() {
        lemma_sum_widths_prefix(ws, i + 1);
    } else {
        assert(ws.take(i + 1) =~= ws);
    }
}

proof fn lemma_signed_sum_prefix(ws: Seq<u32>, i: int)
    requires
        0 <= i < ws.len(),
    ensures
        signed_sum(ws.take(i + 1)) == signed_sum(ws.take(i)) + (ws[i] as i32),
{
    assert(ws.take(i + 1).drop_last() =~= ws.take(i));
}

/// Bytes reserved for globals, the optional memory-size slot and passive data
/// segment lengths.
#[must_use]
pub fn globals_region_size(
    global_widths: &[u32],
    num_passive_segments: usize,
    has_mem_size_global: bool,
) -> (r: usize)
    requires
        region_size(global_widths@, num_passive_segments as nat, has_mem_size_global)
            <= usize::MAX,
    ensures
        r == region_size(global_widths@, num_passive_segments as nat, has_mem_size_global),
{
    let mem_size_slot: usize = if has_mem_size_global {
        MEM_SIZE_SLOT_BYTES
    } else {
        0
    };
    let mut user_globals: usize = 0;
    let mut i: usize = 0;
    while i < global_widths.len()
        invariant
            i <= global_widths.len(),
            user_globals == sum_widths(global_widths@.take(i as int)),
            sum_widths(global_widths@) <= usize::MAX,
        decreases global_widths.len() - i,
    {
        proof {
            lemma_sum_widths_prefix(global_widths@, i as int);
        }
        user_globals = user_globals + global_widths[i] as usize;
        i += 1;
    }
    assert(global_widths@.take(global_widths.len() as int) =~= global_widths@);
    let passive_lens = num_passive_segments * PASSIVE_SEG_LEN_BYTES;
    mem_size_slot + user_globals + passive_lens
}

proof fn lemma_align8_mask(x: usize)
    ensures
        x & !7usize == x - x % 8,
{
    assert(x & !7usize == x - x % 8) by (bit_vector);
}

/// Base address of the parameter overflow area: the end of the globals region
/// rounded up to a multiple of 8.
#[must_use]
pub fn compute_param_overflow_base(
    global_widths: &[u32],
    num_passive_segments: usize,
    has_mem_size_global: bool,
) -> (r: i32)
    requires
        globals_end(global_widths@, num_passive_segments as nat, has_mem_size_global) + 7
            <= usize::MAX,
    ensures
        r == align8(globals_end(global_widths@, num_passive_segments as nat, has_mem_size_global))
            as i32,
{
    let globals_end = GLOBAL_MEMORY_BASE as usize + globals_region_size(
        global_widths,
        num_passive_segments,
        has_mem_size_global,
    );
    proof {
        lemma_align8_mask((globals_end + 7) as usize);
    }
    ((globals_end + 7) & !7) as i32
}

/// Base address of WASM linear memory: right after the globals region, or after
/// the parameter overflow area when one is needed (no further alignment).
#[must_use]
pub fn compute_wasm_memory_base(
    global_widths: &[u32],
    num_passive_segments: usize,
    has_mem_size_global: bool,
    needs_param_overflow: bool,
) -> (r: i32)
    requires
        globals_end(global_widths@, num_passive_segments as nat, has_mem_size_global) + 7
            <= usize::MAX,
        needs_param_overflow ==> ((align8(
            globals_end(global_widths@, num_passive_segments as nat, has_mem_size_global),
        ) as i32) as usize) + PARAM_OVERFLOW_SIZE <= usize::MAX,
    ensures
        r == (if needs_param_overflow {
            (((align8(
                globals_end(global_widths@, num_passive_segments as nat, has_mem_size_global),
            ) as i32) as usize) + PARAM_OVERFLOW_SIZE) as i32
        } else {
            globals_end(global_widths@, num_passive_segments as nat, has_mem_size_global) as i32
        }),
{
    let globals_end = GLOBAL_MEMORY_BASE as usize + globals_region_size(
        global_widths,
        num_passive_segments,
        has_mem_size_global,
    );
    let region_end = if needs_param_overflow {
        compute_param_overflow_base(global_widths, num_passive_segments, has_mem_size_global)
            as usize + PARAM_OVERFLOW_SIZE
    } else {
        globals_end
    };
    region_end as i32
}

/// Absolute PVM address of every WASM global: packed in declaration order
/// after the optional memory-size slot.
#[must_use]
pub fn compute_global_offsets(widths: &[u32], has_mem_size_global: bool) -> (r: Vec<i32>)
    requires
        forall|k: int|
            0 <= k <= widths@.len() ==> i32::MIN <= first_global_addr(has_mem_size_global)
                + #[trigger] signed_sum(widths@.take(k)) <= i32::MAX,
    ensures
        r@.len() == widths@.len(),
        forall|i: int|
            0 <= i < r@.len() ==> r@[i] == first_global_addr(has_mem_size_global) + signed_sum(
                widths@.take(i),
            ),
{
    let mut offsets: Vec<i32> = Vec::new();
    let mut cur: i32 = GLOBAL_MEMORY_BASE + if has_mem_size_global {
        4i32
    } else {
        0i32
    };
    let mut i: usize = 0;
    assert(widths@.take(0) =~= Seq::<u32>::empty());
    while i < widths.len()
        invariant
            i <= widths@.len(),
            offsets@.len() == i,
            cur == first_global_addr(has_mem_size_global) + signed_sum(widths@.take(i as int)),
            forall|j: int|
                0 <= j < i ==> offsets@[j] == first_global_addr(has_mem_size_global) + signed_sum(
                    widths@.take(j),
                ),
            forall|k: int|
                0 <= k <= widths@.len() ==> i32::MIN <= first_global_addr(has_mem_size_global)
                    + #[trigger] signed_sum(widths@.take(k)) <= i32::MAX,
        decreases widths.len() - i,
    {
        offsets.push(cur);
        proof {
            lemma_signed_sum_prefix(widths@, i as int);
            assert(i32::MIN <= first_global_addr(has_mem_size_global) + signed_sum(
                widths@.take(i + 1),
            ) <= i32::MAX);
        }
        cur = cur + widths[i] as i32;
        i += 1;
    }
    offsets
}

/// PVM address of the compiler-managed memory-size global: always `GLOBAL_MEMORY_BASE`.
#[must_use]
pub fn memory_size_global_offset() -> (r: i32)
    ensures
        r == GLOBAL_MEMORY_BASE,
{
    GLOBAL_MEMORY_BASE
}

/// Address of a passive data segment's effective-length slot: after the
/// memory-size slot (when present) and the user globals, 4 bytes per segment.
#[must_use]
pub fn data_segment_length_offset(global_widths: &[u32], ordinal: usize, has_mem_size_global: bool)
    -> (r: i32)
    requires
        forall|k: int|
            0 <= k <= global_widths@.len() ==> i32::MIN <= #[trigger] signed_sum(
                global_widths@.take(k),
            ) <= i32::MAX,
        ordinal as i32 * 4 <= i32::MAX,
        ordinal as i32 * 4 >= i32::MIN,
        i32::MIN <= first_global_addr(has_mem_size_global) + signed_sum(global_widths@)
            <= i32::MAX,
        i32::MIN <= first_global_addr(has_mem_size_global) + signed_sum(global_widths@) + (
        ordinal as i32) * 4 <= i32::MAX,
    ensures
        r == first_global_addr(has_mem_size_global) + signed_sum(global_widths@) + (ordinal as i32)
            * 4,
{
    let mem_size_slot: i32 = if has_mem_size_global {
        4
    } else {
        0
    };
    let mut user_globals: i32 = 0;
    let mut i: usize = 0;
    assert(global_widths@.take(0) =~= Seq::<u32>::empty());
    while i < global_widths.len()
        invariant
            i <= global_widths@.len(),
            user_globals == signed_sum(global_widths@.take(i as int)),
            forall|k: int|
                0 <= k <= global_widths@.len() ==> i32::MIN <= #[trigger] signed_sum(
                    global_widths@.take(k),
                ) <= i32::MAX,
        decreases global_widths.len() - i,
    {
        proof {
            lemma_signed_sum_prefix(global_widths@, i as int);
            assert(i32::MIN <= signed_sum(global_widths@.take(i + 1)) <= i32::MAX);
        }
        user_globals = user_globals + global_widths[i] as i32;
        i += 1;
    }
    assert(global_widths@.take(global_widths.len() as int) =~= global_widths@);
    GLOBAL_MEMORY_BASE + mem_size_slot + user_globals + (ordinal as i32) * 4
}

/// Lowest address the stack pointer may reach: `STACK_SEGMENT_END - stack_size`
/// with 32-bit wrap-around.
#[must_use]
pub fn stack_limit(stack_size: u32) -> (r: i32)
    ensures
        r == vstd::wrapping::u32_specs::wrapping_sub(0xFEFE_0000u32, stack_size) as i32,
{
    0xFEFE_0000u32.wrapping_sub(stack_size) as i32
}

/// The parameter overflow area starts on an 8-byte boundary at or after the end
/// of the globals region and less than 8 bytes past it, so it never overlaps
/// the globals; linear memory starts after the overflow area when there is one
/// and right at the end of the globals region otherwise.
pub proof fn overflow_area_follows_globals(
    ws: Seq<u32>,
    num_passive: nat,
    has_mem_size: bool,
    needs_param_overflow: bool,
)
    requires
        globals_end(ws, num_passive, has_mem_size) + 7 + 256 <= i32::MAX,
    ensures
        ({
            let end = globals_end(ws, num_passive, has_mem_size);
            let base = align8(end);
            &&& end <= base < end + 8
            &&& base % 8 == 0
            &&& base as i32 == base
            &&& needs_param_overflow ==> (((base as i32) as usize) + PARAM_OVERFLOW_SIZE) as i32
                == base + 256
            &&& !needs_param_overflow ==> end as i32 == end
        }),
{
}

proof fn lemma_signed_sum_is_sum(ws: Seq<u32>)
    requires
        forall|i: int| 0 <= i < ws.len() ==> ws[i] <= i32::MAX,
    ensures
        signed_sum(ws) == sum_widths(ws),
    decreases ws.len(),
{
    if ws.len() > 0 {
        lemma_signed_sum_is_sum(ws.drop_last());
    }
}

/// Globals are packed without gaps: each global starts where the previous one
/// ends, the first one right after the memory-size slot (if any), and the
/// length slot of passive segment `ordinal` is the last 4 bytes of a globals
/// region holding `ordinal + 1` passive segments.
pub proof fn globals_are_packed(ws: Seq<u32>, has_mem_size: bool, ordinal: nat)
    requires
        forall|i: int| 0 <= i < ws.len() ==> ws[i] <= i32::MAX,
    ensures
        forall|i: int|
            0 <= i < ws.len() ==> first_global_addr(has_mem_size) + #[trigger] signed_sum(
                ws.take(i + 1),
            ) == first_global_addr(has_mem_size) + signed_sum(ws.take(i)) + ws[i],
        first_global_addr(has_mem_size) + signed_sum(ws) + ordinal * 4 + 4 == globals_end(
            ws,
            ordinal + 1,
            has_mem_size,
        ),
        signed_sum(ws.take(0)) == 0,
{
    assert forall|i: int|
        0 <= i < ws.len() implies first_global_addr(has_mem_size) + #[trigger] signed_sum(
        ws.take(i + 1),
    ) == first_global_addr(has_mem_size) + signed_sum(ws.take(i)) + ws[i] by {
        lemma_signed_sum_prefix(ws, i);
    }
    lemma_signed_sum_is_sum(ws);
}

} // verus!
