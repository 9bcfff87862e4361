use std::collections::HashMap;
use wasm_pvm::abi::{SCRATCH1, SCRATCH2, STACK_PTR_REG, TEMP1, TEMP2, TEMP_RESULT};
use wasm_pvm::llvm_backend::emitter::{EmitterConfig, LoweringContext, Operand, PvmEmitter, ValKey};
use wasm_pvm::llvm_backend::memory::{emit_pvm_load, emit_pvm_memory_copy, emit_pvm_memory_fill, PvmLoadKind};
use wasm_pvm::Instruction;

fn config() -> EmitterConfig {
    EmitterConfig {
        result_globals: None,
        entry_returns_ptr_len: false,
        wasm_memory_base: 0x40000,
        register_cache_enabled: true,
        constant_propagation_enabled: true,
        icmp_fusion_enabled: false,
        shrink_wrap_enabled: false,
        cross_block_cache_enabled: false,
        register_allocation_enabled: false,
    }
}

fn context() -> LoweringContext {
    LoweringContext {
        wasm_memory_base: 0x40000,
        num_globals: 0,
        function_signatures: vec![],
        type_signatures: vec![],
        function_table: vec![],
        num_imported_funcs: 0,
        imported_func_names: vec![],
        initial_memory_pages: 1,
        max_memory_pages: 1,
        stack_size: 0x10000,
        data_segment_offsets: HashMap::new(),
        data_segment_lengths: HashMap::new(),
        data_segment_length_addrs: HashMap::new(),
    }
}

#[test]
fn memory_copy_emits_forward_and_backward_loops() {
    let mut e = PvmEmitter::new(config(), 0);
    let d = e.alloc_slot_for_key(ValKey(1));
    let s = e.alloc_slot_for_key(ValKey(2));
    emit_pvm_memory_copy(&mut e, Operand::Value(ValKey(1)), Operand::Value(ValKey(2)), Operand::Const(16), &context())
        .unwrap();
    let base = 0x40000;
    let expected = vec![
        Instruction::LoadIndU64 { dst: TEMP1, base: STACK_PTR_REG, offset: d },
        Instruction::LoadIndU64 { dst: TEMP2, base: STACK_PTR_REG, offset: s },
        Instruction::LoadImm { reg: TEMP_RESULT, value: 16 },
        Instruction::AddImm32 { dst: TEMP1, src: TEMP1, value: base },
        Instruction::AddImm32 { dst: TEMP2, src: TEMP2, value: base },
        Instruction::BranchEqImm { reg: TEMP_RESULT, value: 0, offset: 0 },
        Instruction::BranchLtU { reg1: TEMP1, reg2: TEMP2, offset: 0 },
        Instruction::LoadImm { reg: SCRATCH2, value: 3 },
        Instruction::ShloR64 { dst: SCRATCH2, src1: TEMP_RESULT, src2: SCRATCH2 },
        Instruction::BranchEqImm { reg: SCRATCH2, value: 0, offset: 0 },
        Instruction::LoadIndU64 { dst: SCRATCH1, base: TEMP2, offset: 0 },
        Instruction::StoreIndU64 { base: TEMP1, src: SCRATCH1, offset: 0 },
        Instruction::AddImm64 { dst: TEMP1, src: TEMP1, value: 8 },
        Instruction::AddImm64 { dst: TEMP2, src: TEMP2, value: 8 },
        Instruction::AddImm64 { dst: SCRATCH2, src: SCRATCH2, value: -1 },
        Instruction::BranchNeImm { reg: SCRATCH2, value: 0, offset: 0 },
        Instruction::LoadImm { reg: SCRATCH2, value: 7 },
        Instruction::And { dst: TEMP_RESULT, src1: TEMP_RESULT, src2: SCRATCH2 },
        Instruction::BranchEqImm { reg: TEMP_RESULT, value: 0, offset: 0 },
        Instruction::LoadIndU8 { dst: SCRATCH1, base: TEMP2, offset: 0 },
        Instruction::StoreIndU8 { base: TEMP1, src: SCRATCH1, offset: 0 },
        Instruction::AddImm64 { dst: TEMP1, src: TEMP1, value: 1 },
        Instruction::AddImm64 { dst: TEMP2, src: TEMP2, value: 1 },
        Instruction::AddImm64 { dst: TEMP_RESULT, src: TEMP_RESULT, value: -1 },
        Instruction::BranchNeImm { reg: TEMP_RESULT, value: 0, offset: 0 },
        Instruction::Jump { offset: 0 },
        Instruction::AddImm64 { dst: SCRATCH2, src: TEMP_RESULT, value: -1 },
        Instruction::Add64 { dst: TEMP1, src1: TEMP1, src2: SCRATCH2 },
        Instruction::Add64 { dst: TEMP2, src1: TEMP2, src2: SCRATCH2 },
        Instruction::Fallthrough,
        Instruction::LoadIndU8 { dst: SCRATCH1, base: TEMP2, offset: 0 },
        Instruction::StoreIndU8 { base: TEMP1, src: SCRATCH1, offset: 0 },
        Instruction::AddImm64 { dst: TEMP1, src: TEMP1, value: -1 },
        Instruction::AddImm64 { dst: TEMP2, src: TEMP2, value: -1 },
        Instruction::AddImm64 { dst: TEMP_RESULT, src: TEMP_RESULT, value: -1 },
        Instruction::BranchNeImm { reg: TEMP_RESULT, value: 0, offset: 0 },
    ];
    assert_eq!(format!("{:?}", e.instructions), format!("{:?}", expected));
    // Eight branches and jumps, six labels, all defined.
    assert_eq!(e.fixups.len(), 8);
    assert_eq!(e.labels.len(), 6);
    assert!(e.labels.iter().all(|l| l.is_some()));
    // The end label is the end of the code; fixups resolve.
    assert_eq!(e.labels[2], Some(e.current_offset()));
    e.resolve_fixups().unwrap();
}

#[test]
fn memory_copy_without_slot_fails() {
    let mut e = PvmEmitter::new(config(), 0);
    let r = emit_pvm_memory_copy(&mut e, Operand::Value(ValKey(7)), Operand::Const(0), Operand::Const(0), &context());
    assert!(r.is_err());
    assert!(e.instructions.is_empty());
}

#[test]
fn memory_fill_spreads_the_byte_and_stores_words_then_bytes() {
    let mut e = PvmEmitter::new(config(), 0);
    let d = e.alloc_slot_for_key(ValKey(1));
    emit_pvm_memory_fill(&mut e, Operand::Value(ValKey(1)), Operand::Const(0xAB), Operand::Const(20), &context())
        .unwrap();
    let expected = vec![
        Instruction::LoadIndU64 { dst: TEMP1, base: STACK_PTR_REG, offset: d },
        Instruction::LoadImm { reg: TEMP2, value: 0xAB },
        Instruction::LoadImm { reg: TEMP_RESULT, value: 20 },
        Instruction::AddImm32 { dst: TEMP1, src: TEMP1, value: 0x40000 },
        Instruction::BranchEqImm { reg: TEMP_RESULT, value: 0, offset: 0 },
        Instruction::LoadImm { reg: SCRATCH1, value: 0xFF },
        Instruction::And { dst: SCRATCH1, src1: TEMP2, src2: SCRATCH1 },
        Instruction::LoadImm64 { reg: SCRATCH2, value: 0x0101_0101_0101_0101 },
        Instruction::Mul64 { dst: SCRATCH1, src1: SCRATCH1, src2: SCRATCH2 },
        Instruction::LoadImm { reg: SCRATCH2, value: 3 },
        Instruction::ShloR64 { dst: SCRATCH2, src1: TEMP_RESULT, src2: SCRATCH2 },
        Instruction::BranchEqImm { reg: SCRATCH2, value: 0, offset: 0 },
        Instruction::StoreIndU64 { base: TEMP1, src: SCRATCH1, offset: 0 },
        Instruction::AddImm64 { dst: TEMP1, src: TEMP1, value: 8 },
        Instruction::AddImm64 { dst: SCRATCH2, src: SCRATCH2, value: -1 },
        Instruction::BranchNeImm { reg: SCRATCH2, value: 0, offset: 0 },
        Instruction::LoadImm { reg: SCRATCH2, value: 7 },
        Instruction::And { dst: TEMP_RESULT, src1: TEMP_RESULT, src2: SCRATCH2 },
        Instruction::BranchEqImm { reg: TEMP_RESULT, value: 0, offset: 0 },
        Instruction::StoreIndU8 { base: TEMP1, src: TEMP2, offset: 0 },
        Instruction::AddImm64 { dst: TEMP1, src: TEMP1, value: 1 },
        Instruction::AddImm64 { dst: TEMP_RESULT, src: TEMP_RESULT, value: -1 },
        Instruction::BranchNeImm { reg: TEMP_RESULT, value: 0, offset: 0 },
    ];
    assert_eq!(format!("{:?}", e.instructions), format!("{:?}", expected));
    assert_eq!(e.fixups.len(), 5);
    assert_eq!(e.labels.len(), 4);
    assert_eq!(e.labels[2], Some(e.current_offset()));
    e.resolve_fixups().unwrap();
}

#[test]
fn pvm_load_of_i32_sign_extends_after_the_load() {
    let mut e = PvmEmitter::new(config(), 0);
    let a = e.alloc_slot_for_key(ValKey(1));
    let r = e.alloc_slot_for_key(ValKey(2));
    emit_pvm_load(&mut e, Operand::Value(ValKey(1)), r, &context(), PvmLoadKind::I32S).unwrap();
    let expected = vec![
        Instruction::LoadIndU64 { dst: TEMP1, base: STACK_PTR_REG, offset: a },
        Instruction::LoadIndU32 { dst: TEMP_RESULT, base: TEMP1, offset: 0x40000 },
        Instruction::AddImm32 { dst: TEMP_RESULT, src: TEMP_RESULT, value: 0 },
        Instruction::StoreIndU64 { base: STACK_PTR_REG, src: TEMP_RESULT, offset: r },
    ];
    assert_eq!(format!("{:?}", e.instructions), format!("{:?}", expected));
}

#[test]
fn pvm_load_of_a_byte_from_a_constant_address() {
    let mut e = PvmEmitter::new(config(), 0);
    let r = e.alloc_slot_for_key(ValKey(2));
    emit_pvm_load(&mut e, Operand::Const(100), r, &context(), PvmLoadKind::I8).unwrap();
    let expected = vec![
        Instruction::LoadImm { reg: TEMP1, value: 100 },
        Instruction::LoadIndI8 { dst: TEMP_RESULT, base: TEMP1, offset: 0x40000 },
        Instruction::StoreIndU64 { base: STACK_PTR_REG, src: TEMP_RESULT, offset: r },
    ];
    assert_eq!(format!("{:?}", e.instructions), format!("{:?}", expected));
}
