use wasm_pvm::abi::{ARGS_LEN_REG, ARGS_PTR_REG, TEMP2};
use wasm_pvm::llvm_backend::emit_prologue;
use wasm_pvm::llvm_backend::emitter::ValKey;
use wasm_pvm::memory_layout::{stack_limit, DEFAULT_STACK_SIZE};
use wasm_pvm::Error;
use wasm_pvm::abi::{RETURN_ADDR_REG, SCRATCH1, STACK_PTR_REG, TEMP1, TEMP_RESULT};
use wasm_pvm::llvm_backend::alu::{emit_wasm_div_zero_trap, emit_wasm_signed_overflow_trap};
use wasm_pvm::llvm_backend::control_flow::emit_epilogue;
use wasm_pvm::llvm_backend::emitter::{EmitterConfig, PvmEmitter};
use wasm_pvm::memory_layout::EXIT_ADDRESS;
use wasm_pvm::Instruction;

fn config(consts: bool) -> EmitterConfig {
    EmitterConfig {
        result_globals: None,
        entry_returns_ptr_len: false,
        wasm_memory_base: 0x40000,
        register_cache_enabled: true,
        constant_propagation_enabled: consts,
        icmp_fusion_enabled: false,
        shrink_wrap_enabled: false,
        cross_block_cache_enabled: false,
        register_allocation_enabled: false,
    }
}

fn dbg(code: &[Instruction]) -> String {
    format!("{:?}", code)
}

#[test]
fn div_zero_trap_branches_over_trap() {
    let mut e = PvmEmitter::new(config(true), 0);
    emit_wasm_div_zero_trap(&mut e, 9);
    let expected = vec![
        Instruction::BranchNeImm { reg: 9, value: 0, offset: 0 },
        Instruction::Trap,
    ];
    assert_eq!(dbg(&e.instructions), dbg(&expected));
    assert_eq!(e.fixups, vec![(0, 0)]);
    assert_eq!(e.labels, vec![Some(e.current_offset())]);
    e.resolve_fixups().unwrap();
    // The branch (at offset 0) lands just past the trap.
    match e.instructions[0] {
        Instruction::BranchNeImm { offset, .. } => assert_eq!(offset as usize, e.current_offset()),
        _ => panic!("expected a branch"),
    }
}

#[test]
fn overflow_trap_32_bit_sign_extends_first() {
    let mut e = PvmEmitter::new(config(true), 0);
    emit_wasm_signed_overflow_trap(&mut e, 9, 10, true);
    let expected = vec![
        Instruction::AddImm32 { dst: TEMP_RESULT, src: 9, value: 0 },
        Instruction::AddImm32 { dst: SCRATCH1, src: 10, value: 0 },
        Instruction::BranchNeImm { reg: SCRATCH1, value: -1, offset: 0 },
        Instruction::BranchNeImm { reg: TEMP_RESULT, value: i32::MIN, offset: 0 },
        Instruction::Trap,
    ];
    assert_eq!(dbg(&e.instructions), dbg(&expected));
    assert_eq!(e.fixups, vec![(2, 0), (3, 0)]);
}

#[test]
fn overflow_trap_64_bit_compares_with_min() {
    let mut e = PvmEmitter::new(config(true), 0);
    emit_wasm_signed_overflow_trap(&mut e, 9, 10, false);
    let expected = vec![
        Instruction::BranchNeImm { reg: 10, value: -1, offset: 0 },
        Instruction::LoadImm64 { reg: TEMP_RESULT, value: i64::MIN as u64 },
        Instruction::Xor { dst: TEMP_RESULT, src1: 9, src2: TEMP_RESULT },
        Instruction::BranchNeImm { reg: TEMP_RESULT, value: 0, offset: 0 },
        Instruction::Trap,
    ];
    assert_eq!(dbg(&e.instructions), dbg(&expected));
    assert_eq!(e.fixups, vec![(0, 0), (3, 0)]);
}

#[test]
fn overflow_trap_64_bit_reuses_known_min() {
    let mut e = PvmEmitter::new(config(true), 0);
    e.emit_const_to_reg(TEMP_RESULT, i64::MIN as u64);
    assert_eq!(e.instructions.len(), 1);
    emit_wasm_signed_overflow_trap(&mut e, 9, 10, false);
    // The load of i64::MIN is dropped: the register already holds it.
    assert_eq!(e.instructions.len(), 5);
    assert_eq!(e.fixups, vec![(1, 0), (3, 0)]);
}

#[test]
fn const_to_reg_prefers_compact_load() {
    let mut e = PvmEmitter::new(config(false), 0);
    e.emit_const_to_reg(4, u64::MAX);
    e.emit_const_to_reg(4, 7);
    e.emit_const_to_reg(4, 0x1_0000_0000);
    let expected = vec![
        Instruction::LoadImm { reg: 4, value: -1 },
        Instruction::LoadImm { reg: 4, value: 7 },
        Instruction::LoadImm64 { reg: 4, value: 0x1_0000_0000 },
    ];
    assert_eq!(dbg(&e.instructions), dbg(&expected));
}

#[test]
fn main_epilogue_jumps_to_exit() {
    let mut e = PvmEmitter::new(config(true), 0);
    emit_epilogue(&mut e, true);
    let expected = vec![
        Instruction::LoadImm { reg: TEMP1, value: EXIT_ADDRESS },
        Instruction::JumpInd { reg: TEMP1, offset: 0 },
    ];
    assert_eq!(dbg(&e.instructions), dbg(&expected));
}

#[test]
fn function_epilogue_restores_saved_registers() {
    let mut e = PvmEmitter::new(config(true), 0);
    e.callee_save_offsets = [Some(8), None, Some(16), None];
    e.frame_size = 48;
    emit_epilogue(&mut e, false);
    let expected = vec![
        Instruction::LoadIndU64 { dst: 9, base: STACK_PTR_REG, offset: 8 },
        Instruction::LoadIndU64 { dst: 11, base: STACK_PTR_REG, offset: 16 },
        Instruction::LoadIndU64 { dst: RETURN_ADDR_REG, base: STACK_PTR_REG, offset: 0 },
        Instruction::AddImm64 { dst: STACK_PTR_REG, src: STACK_PTR_REG, value: 48 },
        Instruction::JumpInd { reg: RETURN_ADDR_REG, offset: 0 },
    ];
    assert_eq!(dbg(&e.instructions), dbg(&expected));

    let mut leaf = PvmEmitter::new(config(true), 0);
    leaf.callee_save_offsets = [None, None, None, None];
    leaf.has_calls = false;
    emit_epilogue(&mut leaf, false);
    assert_eq!(leaf.instructions.len(), 2);
}

#[test]
fn function_prologue_guards_allocates_saves_and_copies_params() {
    let mut e = PvmEmitter::new(config(true), 0);
    e.frame_size = 48;
    e.callee_save_offsets = [Some(8), None, None, None];
    let keys: Vec<ValKey> = (10..15).map(ValKey).collect();
    let slots: Vec<i32> = keys.iter().map(|k| e.alloc_slot_for_key(*k)).collect();
    emit_prologue(&mut e, &keys, 0x30100, DEFAULT_STACK_SIZE, false).unwrap();
    let sp = STACK_PTR_REG;
    let expected = vec![
        Instruction::LoadImm64 { reg: TEMP1, value: stack_limit(DEFAULT_STACK_SIZE) as u32 as u64 },
        Instruction::AddImm64 { dst: TEMP2, src: sp, value: -48 },
        Instruction::BranchGeU { reg1: TEMP1, reg2: TEMP2, offset: 0 },
        Instruction::Trap,
        Instruction::AddImm64 { dst: sp, src: sp, value: -48 },
        Instruction::StoreIndU64 { base: sp, src: RETURN_ADDR_REG, offset: 0 },
        Instruction::StoreIndU64 { base: sp, src: 9, offset: 8 },
        Instruction::StoreIndU64 { base: sp, src: 9, offset: slots[0] },
        Instruction::StoreIndU64 { base: sp, src: 10, offset: slots[1] },
        Instruction::StoreIndU64 { base: sp, src: 11, offset: slots[2] },
        Instruction::StoreIndU64 { base: sp, src: 12, offset: slots[3] },
        Instruction::LoadImm { reg: TEMP1, value: 0x30100 },
        Instruction::LoadIndU64 { dst: TEMP1, base: TEMP1, offset: 0 },
        Instruction::StoreIndU64 { base: sp, src: TEMP1, offset: slots[4] },
    ];
    assert_eq!(dbg(&e.instructions), dbg(&expected));
    assert_eq!(e.fixups, vec![(2, 0)]);
    assert_eq!(e.labels.len(), 1);
}

#[test]
fn main_prologue_rebases_args_pointer() {
    let mut e = PvmEmitter::new(config(true), 0);
    e.frame_size = 16;
    let a = e.alloc_slot_for_key(ValKey(1));
    let b = e.alloc_slot_for_key(ValKey(2));
    emit_prologue(&mut e, &[ValKey(1), ValKey(2)], 0, 65536, true).unwrap();
    let sp = STACK_PTR_REG;
    let expected = vec![
        Instruction::AddImm64 { dst: sp, src: sp, value: -16 },
        Instruction::AddImm64 { dst: ARGS_PTR_REG, src: ARGS_PTR_REG, value: -0x40000 },
        Instruction::StoreIndU64 { base: sp, src: ARGS_PTR_REG, offset: a },
        Instruction::StoreIndU64 { base: sp, src: ARGS_LEN_REG, offset: b },
    ];
    assert_eq!(dbg(&e.instructions), dbg(&expected));
    assert!(e.labels.is_empty());
}

#[test]
fn prologue_reports_parameter_without_slot() {
    let mut e = PvmEmitter::new(config(true), 0);
    let _ = e.alloc_slot_for_key(ValKey(1));
    match emit_prologue(&mut e, &[ValKey(1), ValKey(99)], 0, 65536, true) {
        Err(Error::Internal(m)) => assert_eq!(m, "no slot for parameter 1 (key ValKey(99))"),
        other => panic!("unexpected {:?}", other),
    }
}
