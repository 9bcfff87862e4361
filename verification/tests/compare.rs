use wasm_pvm::abi::{SCRATCH1, STACK_PTR_REG, TEMP1, TEMP2, TEMP_RESULT};
use wasm_pvm::llvm_backend::alu::{lower_binary_arith, lower_icmp, lower_sext, lower_trunc, lower_zext, BinaryOp};
use wasm_pvm::llvm_backend::emitter::{
    EmitterConfig, FusedCompare, IntPred, Operand, PvmEmitter, ValKey,
};
use wasm_pvm::{Error, Instruction};

fn config(fusion: bool) -> EmitterConfig {
    EmitterConfig {
        result_globals: None,
        entry_returns_ptr_len: false,
        wasm_memory_base: 0x40000,
        register_cache_enabled: true,
        constant_propagation_enabled: true,
        icmp_fusion_enabled: fusion,
        shrink_wrap_enabled: false,
        cross_block_cache_enabled: false,
        register_allocation_enabled: false,
    }
}

fn dbg(code: &[Instruction]) -> String {
    format!("{:?}", code)
}

/// An emitter with slots for values 1 and 2, and a result slot for value 3.
fn setup(fusion: bool) -> (PvmEmitter, i32, i32, i32) {
    let mut e = PvmEmitter::new(config(fusion), 0);
    let a = e.alloc_slot_for_key(ValKey(1));
    let b = e.alloc_slot_for_key(ValKey(2));
    let r = e.alloc_slot_for_key(ValKey(3));
    (e, a, b, r)
}

#[test]
fn icmp_slt_against_small_constant_uses_immediate() {
    let (mut e, a, _, r) = setup(false);
    lower_icmp(&mut e, IntPred::SLT, Operand::Value(ValKey(1)), Operand::Const(-7), r, false).unwrap();
    let expected = vec![
        Instruction::LoadIndU64 { dst: TEMP1, base: STACK_PTR_REG, offset: a },
        Instruction::SetLtSImm { dst: TEMP_RESULT, src: TEMP1, value: -7 },
        Instruction::StoreIndU64 { base: STACK_PTR_REG, src: TEMP_RESULT, offset: r },
    ];
    assert_eq!(dbg(&e.instructions), dbg(&expected));
}

#[test]
fn icmp_ult_against_large_constant_uses_registers() {
    let (mut e, a, _, r) = setup(false);
    let big: i64 = 1 << 40;
    lower_icmp(&mut e, IntPred::ULT, Operand::Value(ValKey(1)), Operand::Const(big), r, false).unwrap();
    let expected = vec![
        Instruction::LoadIndU64 { dst: TEMP1, base: STACK_PTR_REG, offset: a },
        Instruction::LoadImm64 { reg: TEMP2, value: big as u64 },
        Instruction::SetLtU { dst: TEMP_RESULT, src1: TEMP1, src2: TEMP2 },
        Instruction::StoreIndU64 { base: STACK_PTR_REG, src: TEMP_RESULT, offset: r },
    ];
    assert_eq!(dbg(&e.instructions), dbg(&expected));
}

#[test]
fn icmp_ne_compares_zero_with_the_difference() {
    let (mut e, a, b, r) = setup(false);
    lower_icmp(&mut e, IntPred::NE, Operand::Value(ValKey(1)), Operand::Value(ValKey(2)), r, false).unwrap();
    let expected = vec![
        Instruction::LoadIndU64 { dst: TEMP1, base: STACK_PTR_REG, offset: a },
        Instruction::LoadIndU64 { dst: TEMP2, base: STACK_PTR_REG, offset: b },
        Instruction::Xor { dst: TEMP_RESULT, src1: TEMP1, src2: TEMP2 },
        Instruction::LoadImm { reg: SCRATCH1, value: 0 },
        Instruction::SetLtU { dst: TEMP_RESULT, src1: SCRATCH1, src2: TEMP_RESULT },
        Instruction::StoreIndU64 { base: STACK_PTR_REG, src: TEMP_RESULT, offset: r },
    ];
    assert_eq!(dbg(&e.instructions), dbg(&expected));
}

#[test]
fn icmp_uge_negates_ult_and_reuses_cached_operand() {
    // Both operands are value 1: the second load copies from TEMP1.
    let (mut e, a, _, r) = setup(false);
    lower_icmp(&mut e, IntPred::UGE, Operand::Value(ValKey(1)), Operand::Value(ValKey(1)), r, false).unwrap();
    let expected = vec![
        Instruction::LoadIndU64 { dst: TEMP1, base: STACK_PTR_REG, offset: a },
        Instruction::MoveReg { dst: TEMP2, src: TEMP1 },
        Instruction::SetLtU { dst: TEMP_RESULT, src1: TEMP1, src2: TEMP2 },
        Instruction::SetLtUImm { dst: TEMP_RESULT, src: TEMP_RESULT, value: 1 },
        Instruction::StoreIndU64 { base: STACK_PTR_REG, src: TEMP_RESULT, offset: r },
    ];
    assert_eq!(dbg(&e.instructions), dbg(&expected));
}

#[test]
fn icmp_sgt_swaps_operands() {
    let (mut e, _, _, r) = setup(false);
    lower_icmp(&mut e, IntPred::SGT, Operand::Const(3), Operand::Undef, r, false).unwrap();
    let expected = vec![
        Instruction::LoadImm { reg: TEMP1, value: 3 },
        Instruction::LoadImm { reg: TEMP2, value: 0 },
        Instruction::SetLtS { dst: TEMP_RESULT, src1: TEMP2, src2: TEMP1 },
        Instruction::StoreIndU64 { base: STACK_PTR_REG, src: TEMP_RESULT, offset: r },
    ];
    assert_eq!(dbg(&e.instructions), dbg(&expected));
}

#[test]
fn icmp_used_by_one_branch_is_deferred() {
    let (mut e, _, _, r) = setup(true);
    lower_icmp(&mut e, IntPred::EQ, Operand::Value(ValKey(1)), Operand::Const(0), r, true).unwrap();
    assert!(e.instructions.is_empty());
    assert_eq!(
        e.pending_compare,
        Some(FusedCompare { predicate: IntPred::EQ, lhs: Operand::Value(ValKey(1)), rhs: Operand::Const(0) })
    );
}

#[test]
fn icmp_without_slot_fails() {
    let (mut e, _, _, r) = setup(false);
    let err = lower_icmp(&mut e, IntPred::EQ, Operand::Value(ValKey(9)), Operand::Const(0), r, false)
        .unwrap_err();
    match err {
        Error::Internal(msg) => assert_eq!(msg, "no slot for int value ValKey(9)"),
        other => panic!("unexpected error {:?}", other),
    }
    assert!(e.instructions.is_empty());
}

#[test]
fn binary_sub_of_small_constant_is_an_immediate_add() {
    let (mut e, a, _, r) = setup(false);
    lower_binary_arith(&mut e, BinaryOp::Sub, Operand::Value(ValKey(1)), Operand::Const(5), r, 32).unwrap();
    let expected = vec![
        Instruction::LoadIndU64 { dst: TEMP1, base: STACK_PTR_REG, offset: a },
        Instruction::AddImm32 { dst: TEMP_RESULT, src: TEMP1, value: -5 },
        Instruction::StoreIndU64 { base: STACK_PTR_REG, src: TEMP_RESULT, offset: r },
    ];
    assert_eq!(dbg(&e.instructions), dbg(&expected));
}

#[test]
fn binary_sub_of_i32_min_uses_registers() {
    let (mut e, a, _, r) = setup(false);
    let min = i32::MIN as i64;
    lower_binary_arith(&mut e, BinaryOp::Sub, Operand::Value(ValKey(1)), Operand::Const(min), r, 64).unwrap();
    let expected = vec![
        Instruction::LoadIndU64 { dst: TEMP1, base: STACK_PTR_REG, offset: a },
        Instruction::LoadImm { reg: TEMP2, value: i32::MIN },
        Instruction::Sub64 { dst: TEMP_RESULT, src1: TEMP1, src2: TEMP2 },
        Instruction::StoreIndU64 { base: STACK_PTR_REG, src: TEMP_RESULT, offset: r },
    ];
    assert_eq!(dbg(&e.instructions), dbg(&expected));
}

#[test]
fn binary_sdiv_guards_zero_and_overflow() {
    let (mut e, a, b, r) = setup(false);
    lower_binary_arith(&mut e, BinaryOp::SDiv, Operand::Value(ValKey(1)), Operand::Value(ValKey(2)), r, 32)
        .unwrap();
    let expected = vec![
        Instruction::LoadIndU64 { dst: TEMP1, base: STACK_PTR_REG, offset: a },
        Instruction::LoadIndU64 { dst: TEMP2, base: STACK_PTR_REG, offset: b },
        Instruction::BranchNeImm { reg: TEMP2, value: 0, offset: 0 },
        Instruction::Trap,
        Instruction::AddImm32 { dst: TEMP_RESULT, src: TEMP1, value: 0 },
        Instruction::AddImm32 { dst: SCRATCH1, src: TEMP2, value: 0 },
        Instruction::BranchNeImm { reg: SCRATCH1, value: -1, offset: 0 },
        Instruction::BranchNeImm { reg: TEMP_RESULT, value: i32::MIN, offset: 0 },
        Instruction::Trap,
        Instruction::DivS32 { dst: TEMP_RESULT, src1: TEMP1, src2: TEMP2 },
        Instruction::StoreIndU64 { base: STACK_PTR_REG, src: TEMP_RESULT, offset: r },
    ];
    assert_eq!(dbg(&e.instructions), dbg(&expected));
    assert_eq!(e.labels.len(), 2);
    assert_eq!(e.fixups.len(), 3);
}

#[test]
fn binary_srem_has_no_overflow_guard() {
    let (mut e, a, b, r) = setup(false);
    lower_binary_arith(&mut e, BinaryOp::SRem, Operand::Value(ValKey(1)), Operand::Value(ValKey(2)), r, 64)
        .unwrap();
    let expected = vec![
        Instruction::LoadIndU64 { dst: TEMP1, base: STACK_PTR_REG, offset: a },
        Instruction::LoadIndU64 { dst: TEMP2, base: STACK_PTR_REG, offset: b },
        Instruction::BranchNeImm { reg: TEMP2, value: 0, offset: 0 },
        Instruction::Trap,
        Instruction::RemS64 { dst: TEMP_RESULT, src1: TEMP1, src2: TEMP2 },
        Instruction::StoreIndU64 { base: STACK_PTR_REG, src: TEMP_RESULT, offset: r },
    ];
    assert_eq!(dbg(&e.instructions), dbg(&expected));
}

#[test]
fn binary_and_has_one_width() {
    let (mut e, a, _, r) = setup(false);
    lower_binary_arith(&mut e, BinaryOp::And, Operand::Value(ValKey(1)), Operand::Const(255), r, 32).unwrap();
    let expected = vec![
        Instruction::LoadIndU64 { dst: TEMP1, base: STACK_PTR_REG, offset: a },
        Instruction::LoadImm { reg: TEMP2, value: 255 },
        Instruction::And { dst: TEMP_RESULT, src1: TEMP1, src2: TEMP2 },
        Instruction::StoreIndU64 { base: STACK_PTR_REG, src: TEMP_RESULT, offset: r },
    ];
    assert_eq!(dbg(&e.instructions), dbg(&expected));
}

#[test]
fn zext_from_32_clears_the_upper_half() {
    let (mut e, a, _, r) = setup(false);
    lower_zext(&mut e, Operand::Value(ValKey(1)), r, 32).unwrap();
    let expected = vec![
        Instruction::LoadIndU64 { dst: TEMP1, base: STACK_PTR_REG, offset: a },
        Instruction::LoadImm { reg: TEMP2, value: 32 },
        Instruction::ShloL64 { dst: TEMP1, src1: TEMP1, src2: TEMP2 },
        Instruction::ShloR64 { dst: TEMP1, src1: TEMP1, src2: TEMP2 },
        Instruction::StoreIndU64 { base: STACK_PTR_REG, src: TEMP1, offset: r },
    ];
    assert_eq!(dbg(&e.instructions), dbg(&expected));
}

#[test]
fn zext_from_1_only_copies() {
    let (mut e, a, _, r) = setup(false);
    lower_zext(&mut e, Operand::Value(ValKey(1)), r, 1).unwrap();
    let expected = vec![
        Instruction::LoadIndU64 { dst: TEMP1, base: STACK_PTR_REG, offset: a },
        Instruction::StoreIndU64 { base: STACK_PTR_REG, src: TEMP1, offset: r },
    ];
    assert_eq!(dbg(&e.instructions), dbg(&expected));
}

#[test]
fn sext_from_1_negates_and_from_16_extends() {
    let (mut e, a, _, r) = setup(false);
    lower_sext(&mut e, Operand::Value(ValKey(1)), r, 1).unwrap();
    let expected = vec![
        Instruction::LoadIndU64 { dst: TEMP1, base: STACK_PTR_REG, offset: a },
        Instruction::LoadImm { reg: TEMP2, value: 0 },
        Instruction::Sub64 { dst: TEMP1, src1: TEMP2, src2: TEMP1 },
        Instruction::StoreIndU64 { base: STACK_PTR_REG, src: TEMP1, offset: r },
    ];
    assert_eq!(dbg(&e.instructions), dbg(&expected));
    let (mut e, a, _, r) = setup(false);
    lower_sext(&mut e, Operand::Value(ValKey(1)), r, 16).unwrap();
    let expected = vec![
        Instruction::LoadIndU64 { dst: TEMP1, base: STACK_PTR_REG, offset: a },
        Instruction::SignExtend16 { dst: TEMP1, src: TEMP1 },
        Instruction::StoreIndU64 { base: STACK_PTR_REG, src: TEMP1, offset: r },
    ];
    assert_eq!(dbg(&e.instructions), dbg(&expected));
}

#[test]
fn trunc_to_1_masks_and_to_32_sign_extends() {
    let (mut e, a, _, r) = setup(false);
    lower_trunc(&mut e, Operand::Value(ValKey(1)), r, 1).unwrap();
    let expected = vec![
        Instruction::LoadIndU64 { dst: TEMP1, base: STACK_PTR_REG, offset: a },
        Instruction::LoadImm { reg: TEMP2, value: 1 },
        Instruction::And { dst: TEMP1, src1: TEMP1, src2: TEMP2 },
        Instruction::StoreIndU64 { base: STACK_PTR_REG, src: TEMP1, offset: r },
    ];
    assert_eq!(dbg(&e.instructions), dbg(&expected));
    let (mut e, a, _, r) = setup(false);
    lower_trunc(&mut e, Operand::Value(ValKey(1)), r, 32).unwrap();
    let expected = vec![
        Instruction::LoadIndU64 { dst: TEMP1, base: STACK_PTR_REG, offset: a },
        Instruction::AddImm32 { dst: TEMP1, src: TEMP1, value: 0 },
        Instruction::StoreIndU64 { base: STACK_PTR_REG, src: TEMP1, offset: r },
    ];
    assert_eq!(dbg(&e.instructions), dbg(&expected));
}
