use wasm_pvm::abi::STACK_PTR_REG;
use wasm_pvm::llvm_backend::{LlvmCallFixup, LlvmIndirectCallFixup};
use wasm_pvm::pvm::peephole::{
    eliminate_dead_code, eliminate_dead_stores, optimize, optimize_address_calculation,
};
use wasm_pvm::Instruction;

const SP: u8 = STACK_PTR_REG;

#[test]
fn collapse_consecutive_fallthroughs() {
    let mut instrs = vec![
        Instruction::Fallthrough,
        Instruction::Fallthrough,
        Instruction::Fallthrough,
        Instruction::LoadImm { reg: 0, value: 42 },
    ];
    let mut fixups = vec![];
    let mut call_fixups = vec![];
    let mut indirect_call_fixups = vec![];
    let mut labels = vec![];

    optimize(
        &mut instrs,
        &mut fixups,
        &mut call_fixups,
        &mut indirect_call_fixups,
        &mut labels,
    );

    assert_eq!(instrs.len(), 2);
    assert!(matches!(instrs[0], Instruction::Fallthrough));
    assert!(matches!(
        instrs[1],
        Instruction::LoadImm { reg: 0, value: 42 }
    ));
}

#[test]
fn remove_fallthrough_before_jump() {
    let mut instrs = vec![
        Instruction::LoadImm { reg: 0, value: 1 },
        Instruction::Fallthrough,
        Instruction::Jump { offset: 0 },
    ];
    let mut fixups = vec![(2, 0)]; // jump at index 2
    let mut call_fixups = vec![];
    let mut indirect_call_fixups = vec![];
    let mut labels = vec![];

    optimize(
        &mut instrs,
        &mut fixups,
        &mut call_fixups,
        &mut indirect_call_fixups,
        &mut labels,
    );

    assert_eq!(instrs.len(), 2);
    assert!(matches!(instrs[0], Instruction::LoadImm { .. }));
    assert!(matches!(instrs[1], Instruction::Jump { .. }));
    assert_eq!(fixups[0].0, 1); // remapped from 2 to 1
}

#[test]
fn remove_fallthrough_before_trap() {
    let mut instrs = vec![Instruction::Fallthrough, Instruction::Trap];
    let mut fixups = vec![];
    let mut call_fixups = vec![];
    let mut indirect_call_fixups = vec![];
    let mut labels = vec![];

    optimize(
        &mut instrs,
        &mut fixups,
        &mut call_fixups,
        &mut indirect_call_fixups,
        &mut labels,
    );

    assert_eq!(instrs.len(), 1);
    assert!(matches!(instrs[0], Instruction::Trap));
}

#[test]
fn remaps_call_fixups() {
    let mut instrs = vec![
        Instruction::Fallthrough,
        Instruction::Fallthrough,
        Instruction::LoadImm { reg: 0, value: 0 }, // return_addr_instr
        Instruction::Jump { offset: 0 },           // jump_instr
    ];
    let mut fixups = vec![];
    let mut call_fixups = vec![LlvmCallFixup {
        return_addr_instr: 2,
        jump_instr: 3,
        target_func: 0,
    }];
    let mut indirect_call_fixups = vec![];
    let mut labels = vec![];

    optimize(
        &mut instrs,
        &mut fixups,
        &mut call_fixups,
        &mut indirect_call_fixups,
        &mut labels,
    );

    // One fallthrough removed (first one before second fallthrough)
    assert_eq!(instrs.len(), 3);
    assert_eq!(call_fixups[0].return_addr_instr, 1);
    assert_eq!(call_fixups[0].jump_instr, 2);
}

#[test]
fn no_op_when_nothing_to_optimize() {
    let mut instrs = vec![
        Instruction::LoadImm { reg: 0, value: 1 },
        Instruction::LoadImm { reg: 1, value: 2 },
        Instruction::Add64 {
            dst: 0,
            src1: 0,
            src2: 1,
        },
    ];
    let mut fixups = vec![];
    let mut call_fixups = vec![];
    let mut indirect_call_fixups = vec![];
    let mut labels = vec![];

    optimize(
        &mut instrs,
        &mut fixups,
        &mut call_fixups,
        &mut indirect_call_fixups,
        &mut labels,
    );

    assert_eq!(instrs.len(), 3);
}

#[test]
fn updates_label_byte_offsets() {
    // Fallthrough (1 byte), Fallthrough (1 byte), LoadImm (6 bytes)
    // Label at byte offset 2 (pointing to LoadImm)
    let mut instrs = vec![
        Instruction::Fallthrough,
        Instruction::Fallthrough,
        Instruction::LoadImm { reg: 0, value: 42 },
    ];
    let mut fixups = vec![];
    let mut call_fixups = vec![];
    let mut indirect_call_fixups = vec![];
    // Label points to byte offset 2 (start of LoadImm, after two 1-byte Fallthroughs)
    let mut labels = vec![Some(2usize)];

    optimize(
        &mut instrs,
        &mut fixups,
        &mut call_fixups,
        &mut indirect_call_fixups,
        &mut labels,
    );

    // First Fallthrough removed, so: Fallthrough (1 byte), LoadImm (6 bytes)
    assert_eq!(instrs.len(), 2);
    // Label should now point to byte offset 1 (start of LoadImm after one Fallthrough)
    assert_eq!(labels[0], Some(1));
}

// ── Dead store elimination tests ──



#[test]
fn dse_removes_unread_sp_store() {
    // Store to SP+16 but never load from SP+16 → dead store removed.
    let mut instrs = vec![
        Instruction::LoadImm { reg: 2, value: 42 },
        Instruction::StoreIndU64 {
            base: SP,
            src: 2,
            offset: 16,
        },
        Instruction::LoadImm { reg: 3, value: 99 },
    ];
    let mut fixups = vec![];
    let mut call_fixups = vec![];
    let mut indirect_call_fixups = vec![];
    let mut labels = vec![];

    eliminate_dead_stores(
        &mut instrs,
        &mut fixups,
        &mut call_fixups,
        &mut indirect_call_fixups,
        &mut labels,
    );

    assert_eq!(instrs.len(), 2);
    assert!(matches!(
        instrs[0],
        Instruction::LoadImm { reg: 2, value: 42 }
    ));
    assert!(matches!(
        instrs[1],
        Instruction::LoadImm { reg: 3, value: 99 }
    ));
}

#[test]
fn dse_keeps_read_sp_store() {
    // Store to SP+8 and load from SP+8 → store is kept.
    let mut instrs = vec![
        Instruction::StoreIndU64 {
            base: SP,
            src: 2,
            offset: 8,
        },
        Instruction::LoadIndU64 {
            dst: 3,
            base: SP,
            offset: 8,
        },
    ];
    let mut fixups = vec![];
    let mut call_fixups = vec![];
    let mut indirect_call_fixups = vec![];
    let mut labels = vec![];

    eliminate_dead_stores(
        &mut instrs,
        &mut fixups,
        &mut call_fixups,
        &mut indirect_call_fixups,
        &mut labels,
    );

    assert_eq!(instrs.len(), 2);
}

#[test]
fn dse_ignores_non_sp_stores() {
    // Store to reg 5 (not SP) at offset 16, never loaded → NOT removed (memory side effect).
    let mut instrs = vec![
        Instruction::StoreIndU64 {
            base: 5,
            src: 2,
            offset: 16,
        },
        Instruction::LoadImm { reg: 3, value: 0 },
    ];
    let mut fixups = vec![];
    let mut call_fixups = vec![];
    let mut indirect_call_fixups = vec![];
    let mut labels = vec![];

    eliminate_dead_stores(
        &mut instrs,
        &mut fixups,
        &mut call_fixups,
        &mut indirect_call_fixups,
        &mut labels,
    );

    assert_eq!(instrs.len(), 2);
}

#[test]
fn peephole_dse_removes_unread_sp_store() {
    // Store to SP+16 but never load from SP+16 → dead store removed.
    let mut instrs = vec![
        Instruction::LoadImm { reg: 2, value: 42 },
        Instruction::StoreIndU64 {
            base: SP,
            src: 2,
            offset: 16,
        },
        Instruction::LoadImm { reg: 3, value: 99 },
    ];
    let mut fixups = vec![];
    let mut call_fixups = vec![];
    let mut indirect_call_fixups = vec![];
    let mut labels = vec![];

    eliminate_dead_stores(
        &mut instrs,
        &mut fixups,
        &mut call_fixups,
        &mut indirect_call_fixups,
        &mut labels,
    );

    assert_eq!(instrs.len(), 2);
    assert!(matches!(
        instrs[0],
        Instruction::LoadImm { reg: 2, value: 42 }
    ));
    assert!(matches!(
        instrs[1],
        Instruction::LoadImm { reg: 3, value: 99 }
    ));
}

#[test]
fn dse_no_op_when_nothing_to_eliminate() {
    let mut instrs = vec![
        Instruction::StoreIndU64 {
            base: SP,
            src: 2,
            offset: 8,
        },
        Instruction::LoadIndU64 {
            dst: 3,
            base: SP,
            offset: 8,
        },
        Instruction::LoadImm { reg: 0, value: 0 },
    ];
    let original_len = instrs.len();
    let mut fixups = vec![];
    let mut call_fixups = vec![];
    let mut indirect_call_fixups = vec![];
    let mut labels = vec![];

    eliminate_dead_stores(
        &mut instrs,
        &mut fixups,
        &mut call_fixups,
        &mut indirect_call_fixups,
        &mut labels,
    );

    assert_eq!(instrs.len(), original_len);
}

// ── Truncation NOP removal tests ──

#[test]
fn removes_redundant_trunc_after_add32() {
    let mut instrs = vec![
        Instruction::Add32 {
            dst: 5,
            src1: 3,
            src2: 4,
        },
        Instruction::AddImm32 {
            dst: 5,
            src: 5,
            value: 0,
        },
        Instruction::LoadImm { reg: 0, value: 99 },
    ];
    let mut fixups = vec![];
    let mut call_fixups = vec![];
    let mut indirect_call_fixups = vec![];
    let mut labels = vec![];

    optimize(
        &mut instrs,
        &mut fixups,
        &mut call_fixups,
        &mut indirect_call_fixups,
        &mut labels,
    );

    assert_eq!(instrs.len(), 2);
    assert!(matches!(instrs[0], Instruction::Add32 { dst: 5, .. }));
    assert!(matches!(instrs[1], Instruction::LoadImm { reg: 0, .. }));
}

#[test]
fn removes_redundant_trunc_after_mul32() {
    let mut instrs = vec![
        Instruction::Mul32 {
            dst: 5,
            src1: 3,
            src2: 4,
        },
        Instruction::AddImm32 {
            dst: 5,
            src: 5,
            value: 0,
        },
    ];
    let mut fixups = vec![];
    let mut call_fixups = vec![];
    let mut indirect_call_fixups = vec![];
    let mut labels = vec![];

    optimize(
        &mut instrs,
        &mut fixups,
        &mut call_fixups,
        &mut indirect_call_fixups,
        &mut labels,
    );

    assert_eq!(instrs.len(), 1);
    assert!(matches!(instrs[0], Instruction::Mul32 { dst: 5, .. }));
}

#[test]
fn keeps_trunc_when_registers_differ() {
    // AddImm32 dst != producer dst → not redundant.
    let mut instrs = vec![
        Instruction::Add32 {
            dst: 5,
            src1: 3,
            src2: 4,
        },
        Instruction::AddImm32 {
            dst: 6,
            src: 6,
            value: 0,
        },
    ];
    let mut fixups = vec![];
    let mut call_fixups = vec![];
    let mut indirect_call_fixups = vec![];
    let mut labels = vec![];

    optimize(
        &mut instrs,
        &mut fixups,
        &mut call_fixups,
        &mut indirect_call_fixups,
        &mut labels,
    );

    assert_eq!(instrs.len(), 2);
}

#[test]
fn keeps_trunc_with_nonzero_value() {
    // AddImm32(x, x, 1) is NOT a truncation NOP.
    let mut instrs = vec![
        Instruction::Add32 {
            dst: 5,
            src1: 3,
            src2: 4,
        },
        Instruction::AddImm32 {
            dst: 5,
            src: 5,
            value: 1,
        },
    ];
    let mut fixups = vec![];
    let mut call_fixups = vec![];
    let mut indirect_call_fixups = vec![];
    let mut labels = vec![];

    optimize(
        &mut instrs,
        &mut fixups,
        &mut call_fixups,
        &mut indirect_call_fixups,
        &mut labels,
    );

    assert_eq!(instrs.len(), 2);
}

#[test]
fn keeps_trunc_after_64bit_producer() {
    // Add64 is NOT a 32-bit producer → AddImm32 truncation is meaningful.
    let mut instrs = vec![
        Instruction::Add64 {
            dst: 5,
            src1: 3,
            src2: 4,
        },
        Instruction::AddImm32 {
            dst: 5,
            src: 5,
            value: 0,
        },
    ];
    let mut fixups = vec![];
    let mut call_fixups = vec![];
    let mut indirect_call_fixups = vec![];
    let mut labels = vec![];

    optimize(
        &mut instrs,
        &mut fixups,
        &mut call_fixups,
        &mut indirect_call_fixups,
        &mut labels,
    );

    assert_eq!(instrs.len(), 2);
}

#[test]
fn removes_trunc_after_shlol32() {
    let mut instrs = vec![
        Instruction::ShloL32 {
            dst: 5,
            src1: 3,
            src2: 4,
        },
        Instruction::AddImm32 {
            dst: 5,
            src: 5,
            value: 0,
        },
    ];
    let mut fixups = vec![];
    let mut call_fixups = vec![];
    let mut indirect_call_fixups = vec![];
    let mut labels = vec![];

    optimize(
        &mut instrs,
        &mut fixups,
        &mut call_fixups,
        &mut indirect_call_fixups,
        &mut labels,
    );

    assert_eq!(instrs.len(), 1);
}

#[test]
fn keeps_trunc_across_intervening_store() {
    // StoreIndU64 between producer and truncation → pattern does NOT match.
    // This is a known limitation: we only match directly adjacent pairs.
    let mut instrs = vec![
        Instruction::Add32 {
            dst: 5,
            src1: 3,
            src2: 4,
        },
        Instruction::StoreIndU64 {
            base: 1,
            src: 5,
            offset: 8,
        },
        Instruction::AddImm32 {
            dst: 5,
            src: 5,
            value: 0,
        },
    ];
    let mut fixups = vec![];
    let mut call_fixups = vec![];
    let mut indirect_call_fixups = vec![];
    let mut labels = vec![];

    optimize(
        &mut instrs,
        &mut fixups,
        &mut call_fixups,
        &mut indirect_call_fixups,
        &mut labels,
    );

    // All 3 instructions kept — the pattern requires direct adjacency.
    assert_eq!(instrs.len(), 3);
}

#[test]
fn trunc_removal_remaps_fixups() {
    // Fixup at index 3 should be remapped to 2 after truncation NOP at index 1 is removed.
    let mut instrs = vec![
        Instruction::Add32 {
            dst: 5,
            src1: 3,
            src2: 4,
        },
        Instruction::AddImm32 {
            dst: 5,
            src: 5,
            value: 0,
        },
        Instruction::LoadImm { reg: 0, value: 0 },
        Instruction::Jump { offset: 0 },
    ];
    let mut fixups = vec![(3, 0)];
    let mut call_fixups = vec![];
    let mut indirect_call_fixups = vec![];
    let mut labels = vec![];

    optimize(
        &mut instrs,
        &mut fixups,
        &mut call_fixups,
        &mut indirect_call_fixups,
        &mut labels,
    );

    assert_eq!(instrs.len(), 3);
    assert_eq!(fixups[0].0, 2); // remapped from 3 to 2
}

#[test]
fn dse_keeps_store_if_smaller_load_reads_same_offset() {
    // Store u64 to SP+8, load u32 from SP+8 → store is kept (offset is in read set).
    let mut instrs = vec![
        Instruction::StoreIndU64 {
            base: SP,
            src: 2,
            offset: 8,
        },
        Instruction::LoadIndU32 {
            dst: 3,
            base: SP,
            offset: 8,
        },
    ];
    let mut fixups = vec![];
    let mut call_fixups = vec![];
    let mut indirect_call_fixups = vec![];
    let mut labels = vec![];

    eliminate_dead_stores(
        &mut instrs,
        &mut fixups,
        &mut call_fixups,
        &mut indirect_call_fixups,
        &mut labels,
    );

    assert_eq!(instrs.len(), 2);
}

#[test]
fn address_folding_rewrites_load_base() {
    let mut instrs = vec![
        Instruction::AddImm64 { dst: 5, src: 1, value: 16 },
        Instruction::LoadIndU64 { dst: 6, base: 5, offset: 8 },
    ];
    optimize_address_calculation(&mut instrs, &[]);
    assert_eq!(instrs.len(), 2);
    assert!(matches!(instrs[0], Instruction::AddImm64 { dst: 5, src: 1, value: 16 }));
    assert!(matches!(instrs[1], Instruction::LoadIndU64 { dst: 6, base: 1, offset: 24 }));
}

#[test]
fn address_folding_follows_register_moves() {
    let mut instrs = vec![
        Instruction::MoveReg { dst: 5, src: 1 },
        Instruction::StoreIndU32 { base: 5, src: 2, offset: 4 },
        Instruction::JumpInd { reg: 5, offset: 0 },
    ];
    optimize_address_calculation(&mut instrs, &[]);
    assert!(matches!(instrs[1], Instruction::StoreIndU32 { base: 1, src: 2, offset: 4 }));
    assert!(matches!(instrs[2], Instruction::JumpInd { reg: 1, offset: 0 }));
}

#[test]
fn address_folding_starts_afresh_at_labels() {
    // AddImm64 with a one-byte immediate is 3 bytes; a label there clears tracking.
    let mut instrs = vec![
        Instruction::AddImm64 { dst: 5, src: 1, value: 16 },
        Instruction::LoadIndU64 { dst: 6, base: 5, offset: 8 },
    ];
    optimize_address_calculation(&mut instrs, &[Some(3)]);
    assert!(matches!(instrs[1], Instruction::LoadIndU64 { dst: 6, base: 5, offset: 8 }));
}

#[test]
fn address_folding_keeps_offsets_that_would_overflow() {
    let mut instrs = vec![
        Instruction::AddImm64 { dst: 5, src: 1, value: 1 },
        Instruction::LoadIndU8 { dst: 6, base: 5, offset: i32::MAX },
    ];
    optimize_address_calculation(&mut instrs, &[]);
    assert!(matches!(instrs[1], Instruction::LoadIndU8 { dst: 6, base: 5, offset: i32::MAX }));
}

#[test]
fn address_folding_forgets_overwritten_base() {
    // r5 = r1 + 16, then r1 changes: r5 is no longer r1 + 16.
    let mut instrs = vec![
        Instruction::AddImm64 { dst: 5, src: 1, value: 16 },
        Instruction::LoadImm { reg: 1, value: 0 },
        Instruction::LoadIndU64 { dst: 6, base: 5, offset: 8 },
    ];
    optimize_address_calculation(&mut instrs, &[]);
    assert!(matches!(instrs[2], Instruction::LoadIndU64 { dst: 6, base: 5, offset: 8 }));
}

#[test]
fn dce_removes_overwritten_register() {
    let mut instrs = vec![
        Instruction::LoadImm { reg: 2, value: 1 },
        Instruction::LoadImm { reg: 2, value: 2 },
        Instruction::Trap,
    ];
    let mut fixups = vec![];
    let mut call_fixups = vec![];
    let mut indirect_call_fixups: Vec<LlvmIndirectCallFixup> = vec![];
    let mut labels = vec![];
    eliminate_dead_code(
        &mut instrs,
        &mut fixups,
        &mut call_fixups,
        &mut indirect_call_fixups,
        &mut labels,
    );
    assert_eq!(instrs.len(), 2);
    assert!(matches!(instrs[0], Instruction::LoadImm { reg: 2, value: 2 }));
    assert!(matches!(instrs[1], Instruction::Trap));
}

#[test]
fn dce_keeps_stores_and_remaps_indirect_calls() {
    let mut instrs = vec![
        Instruction::LoadImm { reg: 2, value: 1 },
        Instruction::LoadImm { reg: 2, value: 2 },
        Instruction::StoreIndU64 { base: 3, src: 4, offset: 0 },
        Instruction::JumpInd { reg: 0, offset: 0 },
    ];
    let mut fixups = vec![(3usize, 0usize)];
    let mut call_fixups: Vec<LlvmCallFixup> = vec![];
    let mut indirect_call_fixups = vec![LlvmIndirectCallFixup {
        return_addr_instr: 1,
        jump_ind_instr: 3,
    }];
    let mut labels: Vec<Option<usize>> = vec![None];
    eliminate_dead_code(
        &mut instrs,
        &mut fixups,
        &mut call_fixups,
        &mut indirect_call_fixups,
        &mut labels,
    );
    assert_eq!(instrs.len(), 3);
    assert!(matches!(instrs[1], Instruction::StoreIndU64 { .. }));
    assert_eq!(fixups[0], (2, 0));
    assert_eq!(indirect_call_fixups[0].return_addr_instr, 0);
    assert_eq!(indirect_call_fixups[0].jump_ind_instr, 2);
    assert_eq!(labels[0], None);
}

#[test]
fn dce_keeps_writes_before_a_label() {
    // Every register counts as needed where a label points, so the first
    // write survives when a label sits at its offset.
    let mut instrs = vec![
        Instruction::LoadImm { reg: 2, value: 1 },
        Instruction::LoadImm { reg: 2, value: 2 },
        Instruction::Trap,
    ];
    let mut fixups = vec![];
    let mut call_fixups: Vec<LlvmCallFixup> = vec![];
    let mut indirect_call_fixups: Vec<LlvmIndirectCallFixup> = vec![];
    let mut labels = vec![Some(0usize)];
    eliminate_dead_code(
        &mut instrs,
        &mut fixups,
        &mut call_fixups,
        &mut indirect_call_fixups,
        &mut labels,
    );
    assert_eq!(instrs.len(), 3);
}

#[test]
fn labels_off_instruction_boundaries_stay() {
    // Offsets: 0, 1, 2 (LoadImm of 3 bytes), end at 5; 3 is inside the LoadImm.
    let mut instrs = vec![
        Instruction::Fallthrough,
        Instruction::Fallthrough,
        Instruction::LoadImm { reg: 0, value: 42 },
    ];
    let mut fixups = vec![];
    let mut call_fixups: Vec<LlvmCallFixup> = vec![];
    let mut indirect_call_fixups: Vec<LlvmIndirectCallFixup> = vec![];
    let mut labels = vec![Some(3usize), None, Some(5)];
    optimize(
        &mut instrs,
        &mut fixups,
        &mut call_fixups,
        &mut indirect_call_fixups,
        &mut labels,
    );
    assert_eq!(instrs.len(), 2);
    assert_eq!(labels, vec![Some(3), None, Some(4)]);
}

#[test]
fn trunc_after_removed_trunc_is_kept() {
    // Add32 into r2, then two truncations of r2: only the first goes.
    let mut instrs = vec![
        Instruction::Add32 { dst: 2, src1: 0, src2: 1 },
        Instruction::AddImm32 { dst: 2, src: 2, value: 0 },
        Instruction::AddImm32 { dst: 2, src: 2, value: 0 },
        Instruction::Trap,
    ];
    let mut fixups = vec![];
    let mut call_fixups: Vec<LlvmCallFixup> = vec![];
    let mut indirect_call_fixups: Vec<LlvmIndirectCallFixup> = vec![];
    let mut labels = vec![];
    optimize(
        &mut instrs,
        &mut fixups,
        &mut call_fixups,
        &mut indirect_call_fixups,
        &mut labels,
    );
    assert_eq!(instrs.len(), 3);
    assert!(matches!(instrs[1], Instruction::AddImm32 { dst: 2, src: 2, value: 0 }));
}

#[test]
fn dce_keeps_host_call_arguments() {
    // Host calls read their arguments from r7..r11.
    let mut instrs = vec![
        Instruction::LoadImm { reg: 7, value: 1 },
        Instruction::Ecalli { index: 0 },
        Instruction::LoadImm { reg: 7, value: 2 },
        Instruction::Ecalli { index: 0 },
    ];
    let mut fixups = vec![];
    let mut call_fixups: Vec<LlvmCallFixup> = vec![];
    let mut indirect_call_fixups: Vec<LlvmIndirectCallFixup> = vec![];
    let mut labels = vec![];
    eliminate_dead_code(
        &mut instrs,
        &mut fixups,
        &mut call_fixups,
        &mut indirect_call_fixups,
        &mut labels,
    );
    assert_eq!(instrs.len(), 4);
}

#[test]
fn dse_keeps_store_read_by_signed_load() {
    let mut instrs = vec![
        Instruction::StoreIndU64 { base: SP, src: 2, offset: 8 },
        Instruction::LoadIndI8 { dst: 3, base: SP, offset: 8 },
        Instruction::StoreIndU64 { base: SP, src: 2, offset: 16 },
        Instruction::LoadIndI16 { dst: 3, base: SP, offset: 16 },
    ];
    let mut fixups = vec![];
    let mut call_fixups: Vec<LlvmCallFixup> = vec![];
    let mut indirect_call_fixups: Vec<LlvmIndirectCallFixup> = vec![];
    let mut labels = vec![];
    eliminate_dead_stores(
        &mut instrs,
        &mut fixups,
        &mut call_fixups,
        &mut indirect_call_fixups,
        &mut labels,
    );
    assert_eq!(instrs.len(), 4);
}

#[test]
fn address_folding_starts_afresh_after_a_call() {
    // After the call r2 may hold anything: nothing before it folds into the load.
    let mut instrs = vec![
        Instruction::AddImm64 { dst: 2, src: 1, value: 16 },
        Instruction::LoadImmJump { reg: 0, value: 2, offset: 0 },
        Instruction::LoadIndU64 { dst: 3, base: 2, offset: 0 },
    ];
    optimize_address_calculation(&mut instrs, &[]);
    assert!(matches!(instrs[0], Instruction::AddImm64 { dst: 2, src: 1, value: 16 }));
    assert!(matches!(instrs[2], Instruction::LoadIndU64 { dst: 3, base: 2, offset: 0 }));
}

#[test]
fn labels_follow_instructions_lengthened_by_folding() {
    // The load grows by one byte once r2 + 0 becomes r1 + 16, so the Trap
    // moves from byte 10 to byte 11.
    let mut instrs = vec![
        Instruction::AddImm64 { dst: 2, src: 1, value: 16 },
        Instruction::LoadIndU64 { dst: 3, base: 2, offset: 0 },
        Instruction::Jump { offset: 0 },
        Instruction::Trap,
    ];
    let mut fixups = vec![(2usize, 0usize)];
    let mut call_fixups: Vec<LlvmCallFixup> = vec![];
    let mut indirect_call_fixups: Vec<LlvmIndirectCallFixup> = vec![];
    let mut labels = vec![Some(10usize)];
    optimize(
        &mut instrs,
        &mut fixups,
        &mut call_fixups,
        &mut indirect_call_fixups,
        &mut labels,
    );
    assert!(matches!(instrs[1], Instruction::LoadIndU64 { dst: 3, base: 1, offset: 16 }));
    let trap_at: usize = instrs[..instrs.len() - 1].iter().map(|i| i.encode().len()).sum();
    assert_eq!(labels, vec![Some(trap_at)]);
    assert_eq!(labels, vec![Some(11)]);
}
