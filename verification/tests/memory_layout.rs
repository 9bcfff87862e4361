use wasm_pvm::memory_layout::{
    compute_global_offsets, compute_param_overflow_base, compute_wasm_memory_base,
    data_segment_length_offset, global_storage_width, globals_region_size,
    memory_size_global_offset, stack_limit, ValType, DEFAULT_STACK_SIZE, GLOBAL_MEMORY_BASE,
};

/// Helper: build a `Vec<u32>` of N 4-byte (i32) global widths — the common
/// case for tests that don't care about per-global width variation.
fn i32_widths(n: usize) -> Vec<u32> {
    vec![4u32; n]
}

#[test]
fn wasm_memory_base_typical_program() {
    // 5 i32 globals (4B each), mem-size slot (4B), no passive, overflow needed:
    // globals_end = 0x30000 + 4 + 5*4 = 0x30018
    // param_overflow_base = align8(0x30018) = 0x30018
    // region_end = 0x30018 + 256 = 0x30118
    let base = compute_wasm_memory_base(&i32_widths(5), 0, true, true);
    assert_eq!(base, 0x30118);
}

#[test]
fn wasm_memory_base_mixed_i32_i64_globals() {
    // 2 i32 + 2 i64 + mem-size + overflow:
    // globals_end = 0x30000 + 4 + 2*4 + 2*8 = 0x3001C
    // param_overflow_base = align8(0x3001C) = 0x30020
    // region_end = 0x30020 + 256 = 0x30120
    let widths = [4u32, 4, 8, 8];
    let base = compute_wasm_memory_base(&widths, 0, true, true);
    assert_eq!(base, 0x30120);
}

#[test]
fn wasm_memory_base_zero_globals_with_memgrow() {
    // Zero user globals, mem-size slot present, no passive, overflow needed:
    // globals_end = 0x30000 + 4 = 0x30004
    // param_overflow_base = align8(0x30004) = 0x30008
    // region_end = 0x30008 + 256 = 0x30108
    let base = compute_wasm_memory_base(&[], 0, true, true);
    assert_eq!(base, 0x30108);
}

#[test]
fn wasm_memory_base_zero_globals_memgrow_no_overflow() {
    // The sweet spot: memory.grow-using program with nothing else.
    // Only 4 bytes of mem-size slot; base sits at 0x30004.
    let base = compute_wasm_memory_base(&[], 0, true, false);
    assert_eq!(base, GLOBAL_MEMORY_BASE + 4);
}

#[test]
fn wasm_memory_base_bare_minimum_lands_at_globals_base() {
    // No globals, no passive segs, no mem-size global, no param overflow:
    // region_end = 0x30000. Base stays at GLOBAL_MEMORY_BASE.
    let base = compute_wasm_memory_base(&[], 0, false, false);
    assert_eq!(base, GLOBAL_MEMORY_BASE);
}

#[test]
fn wasm_memory_base_many_globals_no_4kb_jump() {
    // 2000 i32 globals (4B each) + mem-size (4B) + overflow:
    // globals_end = 0x30000 + 4 + 2000*4 = 0x31F44
    // param_overflow_base = align8(0x31F44) = 0x31F48
    // region_end = 0x31F48 + 256 = 0x32048
    let base = compute_wasm_memory_base(&i32_widths(2000), 0, true, true);
    assert_eq!(base, 0x32048);
}

#[test]
fn wasm_memory_base_globals_no_overflow() {
    // Globals only, no overflow: base sits right after globals — no 4KB jump.
    let base = compute_wasm_memory_base(&i32_widths(5), 0, true, false);
    // globals_end = 0x30000 + 4 + 5*4 = 0x30018.
    assert_eq!(base, 0x30018);
}

#[test]
fn param_overflow_base_after_globals() {
    // 5 i32 globals (4B) + mem_size (4B) → globals_end = 0x30018, 8-aligned = 0x30018
    assert_eq!(
        compute_param_overflow_base(&i32_widths(5), 0, true),
        0x30018
    );
    // 0 globals + mem_size → globals_end = 0x30004, 8-aligned = 0x30008
    assert_eq!(compute_param_overflow_base(&[], 0, true), 0x30008);
    // 5 i32 + 3 passive + mem_size → globals_end = 0x30000 + 4 + 20 + 12 = 0x30024, 8-aligned = 0x30028
    assert_eq!(
        compute_param_overflow_base(&i32_widths(5), 3, true),
        0x30028
    );
    // 5 i32, no mem_size → globals_end = 0x30000 + 20 = 0x30014, 8-aligned = 0x30018
    assert_eq!(
        compute_param_overflow_base(&i32_widths(5), 0, false),
        0x30018
    );
}

#[test]
fn param_overflow_does_not_overlap_globals() {
    // With many globals, the overflow area must start after all of them.
    let widths = i32_widths(1000);
    let globals_end = GLOBAL_MEMORY_BASE as usize + globals_region_size(&widths, 0, true);
    let overflow_base = compute_param_overflow_base(&widths, 0, true) as usize;
    assert!(
        overflow_base >= globals_end,
        "overflow base 0x{overflow_base:X} overlaps globals_end 0x{globals_end:X}"
    );
}

#[test]
fn globals_region_size_formula() {
    assert_eq!(globals_region_size(&[], 0, true), 4); // just memory_size slot (4B)
    assert_eq!(globals_region_size(&[], 0, false), 0); // nothing
    assert_eq!(globals_region_size(&i32_widths(5), 0, true), 24); // 4 + 5*4
    assert_eq!(globals_region_size(&i32_widths(5), 0, false), 20); // 5*4
    assert_eq!(globals_region_size(&i32_widths(5), 3, true), 36); // 4 + 5*4 + 3*4
    assert_eq!(globals_region_size(&i32_widths(5), 3, false), 32); // 5*4 + 3*4
    // Mixed: 2 i32 + 2 i64 + mem-size = 4 + 2*4 + 2*8 = 28
    assert_eq!(globals_region_size(&[4, 4, 8, 8], 0, true), 28);
}

#[test]
fn compute_global_offsets_packed_i32() {
    let offsets = compute_global_offsets(&i32_widths(3), true);
    // mem-size at 0x30000; globals start at 0x30004; each 4B.
    assert_eq!(offsets, vec![0x30004, 0x30008, 0x3000C]);
}

#[test]
fn compute_global_offsets_packed_i64() {
    let offsets = compute_global_offsets(&[8, 8, 8], false);
    // No mem-size; globals at 0x30000, +8, +16.
    assert_eq!(offsets, vec![0x30000, 0x30008, 0x30010]);
}

#[test]
fn compute_global_offsets_mixed_widths() {
    // i32, i64, i32, i64 with mem-size: offsets at 0x30004, +4, +8, +4
    let offsets = compute_global_offsets(&[4, 8, 4, 8], true);
    assert_eq!(offsets, vec![0x30004, 0x30008, 0x30010, 0x30014]);
}

#[test]
fn compute_global_offsets_empty() {
    assert!(compute_global_offsets(&[], true).is_empty());
    assert!(compute_global_offsets(&[], false).is_empty());
}

#[test]
fn memory_size_global_is_stable() {
    // Always at GLOBAL_MEMORY_BASE regardless of global count.
    assert_eq!(memory_size_global_offset(), 0x30000);
}

#[test]
fn data_segment_length_after_mem_size_and_globals() {
    // With mem-size (4B) + 5 i32 globals (4B each): lens start at 0x30000 + 4 + 20 = 0x30018.
    assert_eq!(data_segment_length_offset(&i32_widths(5), 0, true), 0x30018);
    assert_eq!(data_segment_length_offset(&i32_widths(5), 1, true), 0x3001C);
    // Without mem-size: lens start at 0x30000 + 5*4 = 0x30014.
    assert_eq!(
        data_segment_length_offset(&i32_widths(5), 0, false),
        0x30014
    );
    assert_eq!(
        data_segment_length_offset(&i32_widths(5), 1, false),
        0x30018
    );
}

#[test]
fn stack_limit_formula() {
    assert_eq!(
        stack_limit(DEFAULT_STACK_SIZE),
        (0xFEFE_0000u32 - 64 * 1024) as i32
    );
}

#[test]
fn global_storage_width_per_type() {
    assert_eq!(global_storage_width(ValType::I32), 4);
    assert_eq!(global_storage_width(ValType::F32), 4);
    assert_eq!(global_storage_width(ValType::I64), 8);
    assert_eq!(global_storage_width(ValType::F64), 8);
    assert_eq!(global_storage_width(ValType::V128), 16);
    assert_eq!(global_storage_width(ValType::Ref), 8);
}

#[test]
fn overflow_area_follows_globals_on_mixed_widths() {
    // Law: the parameter overflow area starts at or after the end of the
    // globals region, on an 8-byte boundary.
    let widths = [4u32, 8, 4, 8, 4];
    let end = GLOBAL_MEMORY_BASE as usize + globals_region_size(&widths, 2, true);
    let base = compute_param_overflow_base(&widths, 2, true) as usize;
    assert!(base >= end);
    assert_eq!(base % 8, 0);
    assert!(base < end + 8);
}

#[test]
fn global_offsets_are_packed() {
    // Law: each global starts where the previous one ends.
    let widths = [8u32, 4, 4, 8];
    let offsets = compute_global_offsets(&widths, false);
    for i in 1..widths.len() {
        assert_eq!(offsets[i] - offsets[i - 1], widths[i - 1] as i32);
    }
    assert_eq!(offsets[0], GLOBAL_MEMORY_BASE);
}
