use std::collections::HashMap;
use wasm_pvm::abi::{STACK_PTR_REG, TEMP1, TEMP2};
use wasm_pvm::llvm_backend::control_flow::resolve_slot_parallel_move;
use wasm_pvm::llvm_backend::emitter::{EmitterConfig, PvmEmitter};
use wasm_pvm::Instruction;

fn config() -> EmitterConfig {
    EmitterConfig {
        result_globals: None,
        entry_returns_ptr_len: false,
        wasm_memory_base: 0x40000,
        register_cache_enabled: true,
        constant_propagation_enabled: true,
        icmp_fusion_enabled: false,
        shrink_wrap_enabled: false,
        cross_block_cache_enabled: false,
        register_allocation_enabled: false,
    }
}

/// Run stack loads and stores on slots that start out holding their own
/// offset (times 1000) and return the slots afterwards.
fn run(code: &[Instruction], slots: &[i32]) -> HashMap<i32, u64> {
    let mut mem: HashMap<i32, u64> = slots.iter().map(|&s| (s, s as u64 * 1000)).collect();
    let mut regs = [0u64; 13];
    for instr in code {
        match instr {
            Instruction::LoadIndU64 { dst, base, offset } => {
                assert_eq!(*base, STACK_PTR_REG);
                regs[*dst as usize] = mem[offset];
            }
            Instruction::StoreIndU64 { base, src, offset } => {
                assert_eq!(*base, STACK_PTR_REG);
                mem.insert(*offset, regs[*src as usize]);
            }
            other => panic!("unexpected instruction {:?}", other),
        }
    }
    mem
}

fn check(copies: &[(i32, i32)], slots: &[i32]) -> Vec<Instruction> {
    let mut e = PvmEmitter::new(config(), 0);
    resolve_slot_parallel_move(&mut e, copies);
    let mem = run(&e.instructions, slots);
    for &s in slots {
        let expected = match copies.iter().find(|(d, _)| *d == s) {
            Some(&(_, src)) => src as u64 * 1000,
            None => s as u64 * 1000,
        };
        assert_eq!(mem[&s], expected, "slot {} after {:?}", s, copies);
    }
    assert_eq!(e.instructions.len(), 2 * copies.len());
    e.instructions
}

#[test]
fn parallel_move_of_nothing_emits_nothing() {
    let code = check(&[], &[8, 16]);
    assert!(code.is_empty());
}

#[test]
fn parallel_move_chain_is_ordered_leaf_first() {
    // 16 := 8 and 24 := 16 at once: 24 must be written before 16.
    let code = check(&[(16, 8), (24, 16)], &[8, 16, 24]);
    assert!(matches!(code[1], Instruction::StoreIndU64 { offset: 24, .. }));
    assert!(matches!(code[3], Instruction::StoreIndU64 { offset: 16, .. }));
}

#[test]
fn parallel_move_swap_goes_through_saved_head() {
    let code = check(&[(8, 16), (16, 8)], &[8, 16]);
    let expected = vec![
            Instruction::LoadIndU64 { dst: TEMP1, base: STACK_PTR_REG, offset: 8 },
            Instruction::LoadIndU64 { dst: TEMP2, base: STACK_PTR_REG, offset: 16 },
            Instruction::StoreIndU64 { base: STACK_PTR_REG, src: TEMP2, offset: 8 },
            Instruction::StoreIndU64 { base: STACK_PTR_REG, src: TEMP1, offset: 16 },
        ];
    assert_eq!(format!("{:?}", code), format!("{:?}", expected));
}

#[test]
fn parallel_move_self_copy_keeps_the_slot() {
    check(&[(8, 8)], &[8]);
}

#[test]
fn parallel_move_rotation_and_fanout() {
    // A three-slot rotation, plus two copies reading one slot of it.
    check(
        &[(8, 16), (16, 24), (24, 8), (32, 8), (40, 8)],
        &[8, 16, 24, 32, 40],
    );
    // Two separate cycles and a tail hanging off one of them.
    check(
        &[(48, 56), (56, 48), (64, 72), (72, 64), (80, 64)],
        &[48, 56, 64, 72, 80],
    );
}

#[test]
fn parallel_move_forgets_cached_destinations() {
    let mut e = PvmEmitter::new(config(), 0);
    // r4 holds slot 8 in the cache.
    e.store_to_slot(8, 4);
    assert_eq!(e.slot_cache.get(&8), Some(&4));
    resolve_slot_parallel_move(&mut e, &[(8, 16)]);
    assert_eq!(e.slot_cache.get(&8), None);
    assert_eq!(e.reg_to_slot[4], None);
}
