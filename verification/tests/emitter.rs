use std::collections::HashMap;
use wasm_pvm::abi::STACK_PTR_REG;
use wasm_pvm::llvm_backend::emitter::{CacheSnapshot, EmitterConfig, PvmEmitter, ValKey};
use wasm_pvm::{Error, Instruction};

fn config(cache: bool, consts: bool) -> EmitterConfig {
    EmitterConfig {
        result_globals: None,
        entry_returns_ptr_len: false,
        wasm_memory_base: 0x40000,
        register_cache_enabled: cache,
        constant_propagation_enabled: consts,
        icmp_fusion_enabled: false,
        shrink_wrap_enabled: false,
        cross_block_cache_enabled: false,
        register_allocation_enabled: false,
    }
}

#[test]
fn new_emitter_starts_empty() {
    let e = PvmEmitter::new(config(true, true), 5);
    assert!(e.instructions.is_empty());
    assert_eq!(e.current_offset(), 0);
    assert_eq!(e.next_slot_offset, wasm_pvm::abi::FRAME_HEADER_SIZE);
    assert_eq!(e.num_call_returns(), 0);
    assert_eq!(e.callee_save_offsets, [Some(8), Some(16), Some(24), Some(32)]);
    assert!(e.has_calls);
}

#[test]
fn call_return_addresses_count_from_the_base() {
    let mut e = PvmEmitter::new(config(true, true), 5);
    assert_eq!(e.alloc_call_return_addr(), 12);
    assert_eq!(e.alloc_call_return_addr(), 14);
    assert_eq!(e.num_call_returns(), 2);
}

#[test]
fn constant_propagation_skips_repeated_loads() {
    let mut e = PvmEmitter::new(config(true, true), 0);
    e.emit(Instruction::LoadImm { reg: 2, value: -1 });
    e.emit(Instruction::LoadImm { reg: 2, value: -1 });
    // The 64-bit sign extension of -1 is all ones: the same constant.
    e.emit(Instruction::LoadImm64 { reg: 2, value: u64::MAX });
    assert_eq!(e.instructions.len(), 1);
    // Overwriting the register forgets the constant.
    e.emit(Instruction::Add64 { dst: 2, src1: 3, src2: 4 });
    e.emit(Instruction::LoadImm { reg: 2, value: -1 });
    assert_eq!(e.instructions.len(), 3);
    assert_eq!(e.current_offset(), 3 + 3 + 3);
}

#[test]
fn without_constant_propagation_every_load_is_emitted() {
    let mut e = PvmEmitter::new(config(true, false), 0);
    e.emit(Instruction::LoadImm { reg: 2, value: 7 });
    e.emit(Instruction::LoadImm { reg: 2, value: 7 });
    assert_eq!(e.instructions.len(), 2);
}

#[test]
fn labels_and_fixups_resolve_to_relative_offsets() {
    let mut e = PvmEmitter::new(config(true, true), 0);
    let target = e.alloc_label();
    e.emit_jump_to_label(target); // 5 bytes at offset 0
    e.emit(Instruction::LoadImm { reg: 2, value: 1 }); // 3 bytes at offset 5
    e.define_label(target); // Fallthrough at 8, label at 9
    assert_eq!(e.labels[target], Some(9));
    assert!(matches!(e.instructions[2], Instruction::Fallthrough));
    e.emit_branch_ne_imm_to_label(2, 0, target); // at offset 9
    assert!(e.resolve_fixups().is_ok());
    assert!(matches!(e.instructions[0], Instruction::Jump { offset: 9 }));
    assert!(matches!(e.instructions[3], Instruction::BranchNeImm { reg: 2, value: 0, offset: 0 }));
}

#[test]
fn backward_branches_get_negative_offsets() {
    let mut e = PvmEmitter::new(config(true, true), 0);
    let top = e.alloc_label();
    e.define_label(top); // no instruction yet: no fallthrough
    assert!(e.instructions.is_empty());
    e.emit(Instruction::LoadImm { reg: 2, value: 1 }); // 3 bytes
    e.emit_branch_lt_u_to_label(2, 3, top); // at offset 3
    assert!(e.resolve_fixups().is_ok());
    assert!(matches!(e.instructions[1], Instruction::BranchLtU { reg1: 2, reg2: 3, offset: -3 }));
}

#[test]
fn unresolved_label_is_an_error() {
    let mut e = PvmEmitter::new(config(true, true), 0);
    let l = e.alloc_label();
    e.emit_jump_to_label(l);
    match e.resolve_fixups() {
        Err(Error::Unsupported(m)) => assert_eq!(m, "unresolved label"),
        _ => panic!("expected an unresolved label"),
    }
}

#[test]
fn fixup_on_a_non_jump_is_an_error() {
    let mut e = PvmEmitter::new(config(true, true), 0);
    let l = e.alloc_label();
    e.define_label(l);
    e.emit(Instruction::Trap);
    e.fixups.push((0, l));
    match e.resolve_fixups() {
        Err(Error::Unsupported(m)) => assert_eq!(m, "cannot fixup non-jump instruction"),
        _ => panic!("expected a non-jump fixup error"),
    }
}

#[test]
fn slots_are_bump_allocated() {
    let mut e = PvmEmitter::new(config(true, true), 0);
    let first = e.next_slot_offset;
    assert_eq!(e.alloc_slot_for_key(ValKey(10)), first);
    assert_eq!(e.alloc_slot_for_key(ValKey(11)), first + 8);
    assert_eq!(e.get_slot(ValKey(10)), Some(first));
    assert_eq!(e.get_slot(ValKey(12)), None);
}

#[test]
fn store_to_slot_writes_through_allocated_register() {
    let mut e = PvmEmitter::new(config(true, true), 0);
    e.regalloc.slot_to_reg.insert(40, 9);
    e.store_to_slot(40, 4);
    assert_eq!(e.instructions.len(), 2);
    assert!(matches!(e.instructions[0], Instruction::MoveReg { dst: 9, src: 4 }));
    assert!(matches!(
        e.instructions[1],
        Instruction::StoreIndU64 { base: STACK_PTR_REG, src: 4, offset: 40 }
    ));
    let snap = e.snapshot_cache();
    assert_eq!(snap.slot_cache.get(&40), Some(&4));
    assert_eq!(snap.reg_to_slot[4], Some(40));
    // A slot without a register gets the store alone.
    e.store_to_slot(48, 4);
    assert_eq!(e.instructions.len(), 3);
    let snap = e.snapshot_cache();
    assert_eq!(snap.slot_cache.get(&40), None);
    assert_eq!(snap.slot_cache.get(&48), Some(&4));
}

#[test]
fn writing_a_register_forgets_its_slot() {
    let mut e = PvmEmitter::new(config(true, true), 0);
    e.store_to_slot(16, 5);
    e.emit(Instruction::LoadImm { reg: 5, value: 0 });
    let snap = e.snapshot_cache();
    assert!(snap.slot_cache.is_empty());
    assert_eq!(snap.reg_to_slot[5], None);
}

#[test]
fn snapshot_restore_and_invalidate() {
    let mut e = PvmEmitter::new(config(true, true), 0);
    e.store_to_slot(16, 5);
    e.emit(Instruction::LoadImm { reg: 6, value: 3 });
    let mut snap = e.snapshot_cache();
    e.clear_reg_cache();
    assert!(e.snapshot_cache().slot_cache.is_empty());
    e.restore_cache(&snap);
    let again = e.snapshot_cache();
    assert_eq!(again.slot_cache.get(&16), Some(&5));
    assert_eq!(again.reg_to_const[6], Some(3));
    snap.invalidate_reg(5);
    assert!(snap.slot_cache.is_empty());
    assert_eq!(snap.reg_to_slot[5], None);
    snap.invalidate_reg(6);
    assert_eq!(snap.reg_to_const[6], None);
}

#[test]
fn cache_snapshot_invalidate_unrelated_register() {
    let mut slot_cache = HashMap::new();
    slot_cache.insert(24, 7u8);
    let mut reg_to_slot = [None; 13];
    reg_to_slot[7] = Some(24);
    let mut snap = CacheSnapshot { slot_cache, reg_to_slot, reg_to_const: [None; 13] };
    snap.invalidate_reg(3);
    assert_eq!(snap.slot_cache.get(&24), Some(&7));
    assert_eq!(snap.reg_to_slot[7], Some(24));
}

#[test]
fn register_cache_can_be_disabled() {
    let mut e = PvmEmitter::new(config(false, true), 0);
    e.store_to_slot(16, 5);
    assert!(e.snapshot_cache().slot_cache.is_empty());
}

#[test]
fn spill_and_reload_cover_every_allocated_register() {
    let mut e = PvmEmitter::new(config(true, true), 0);
    e.regalloc.reg_to_slot.insert(5, 16);
    e.regalloc.reg_to_slot.insert(6, 24);
    e.emit(Instruction::LoadImm { reg: 5, value: 9 });
    e.spill_allocated_regs();
    assert_eq!(e.instructions.len(), 3);
    let mut stored: Vec<(u8, i32)> = e.instructions[1..]
        .iter()
        .map(|i| match i {
            Instruction::StoreIndU64 { base: STACK_PTR_REG, src, offset } => (*src, *offset),
            _ => panic!("expected a stack store"),
        })
        .collect();
    stored.sort();
    assert_eq!(stored, vec![(5, 16), (6, 24)]);
    e.reload_allocated_regs();
    assert_eq!(e.instructions.len(), 5);
    // Reloading register 5 forgets the constant it held.
    assert_eq!(e.snapshot_cache().reg_to_const[5], None);
}

#[test]
fn storing_a_slot_forgets_its_previous_register() {
    let mut e = PvmEmitter::new(config(true, true), 0);
    e.store_to_slot(8, 4);
    e.store_to_slot(8, 5);
    assert_eq!(e.slot_cache.get(&8), Some(&5));
    assert_eq!(e.reg_to_slot[4], None);
    assert_eq!(e.reg_to_slot[5], Some(8));
}
