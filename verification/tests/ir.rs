use wasm_pvm::ir::{optimize, IrInstruction};

#[test]
fn set_get_pair_becomes_tee() {
    let mut ir = vec![
        IrInstruction::I32Const(7),
        IrInstruction::LocalSet(3),
        IrInstruction::LocalGet(3),
        IrInstruction::I32Add,
    ];
    optimize(&mut ir);
    assert_eq!(
        ir,
        vec![IrInstruction::I32Const(7), IrInstruction::LocalTee(3), IrInstruction::I32Add]
    );
}

#[test]
fn different_locals_are_left_alone() {
    let mut ir = vec![IrInstruction::LocalSet(1), IrInstruction::LocalGet(2)];
    optimize(&mut ir);
    assert_eq!(ir, vec![IrInstruction::LocalSet(1), IrInstruction::LocalGet(2)]);
}

#[test]
fn pairs_are_fused_left_to_right_once() {
    // set 1, set 1, get 1, get 1 → set 1, tee 1, get 1; no pair remains.
    let mut ir = vec![
        IrInstruction::LocalSet(1),
        IrInstruction::LocalSet(1),
        IrInstruction::LocalGet(1),
        IrInstruction::LocalGet(1),
    ];
    optimize(&mut ir);
    assert_eq!(
        ir,
        vec![IrInstruction::LocalSet(1), IrInstruction::LocalTee(1), IrInstruction::LocalGet(1)]
    );
    let once = ir.clone();
    optimize(&mut ir);
    assert_eq!(ir, once);
}

#[test]
fn empty_and_single_instruction_ir() {
    let mut ir: Vec<IrInstruction> = vec![];
    optimize(&mut ir);
    assert!(ir.is_empty());
    let mut ir = vec![IrInstruction::LocalSet(0)];
    optimize(&mut ir);
    assert_eq!(ir, vec![IrInstruction::LocalSet(0)]);
}

#[test]
fn text_of_instructions() {
    assert_eq!(IrInstruction::I32Add.text(), "i32.add");
    assert_eq!(IrInstruction::I32Const(-42).text(), "i32.const -42");
    assert_eq!(IrInstruction::I64Const(i64::MIN).text(), "i64.const -9223372036854775808");
    assert_eq!(IrInstruction::LocalGet(3).text(), "local.get 3");
    assert_eq!(IrInstruction::I64Load8U { offset: 16 }.text(), "i64.load8_u offset=16");
    assert_eq!(IrInstruction::Block { has_result: true }.text(), "block (result)");
    assert_eq!(IrInstruction::If { has_result: false }.text(), "if");
    assert_eq!(
        IrInstruction::BrTable { targets: vec![0, 1, 2], default: 3 }.text(),
        "br_table 0 1 2 3"
    );
    assert_eq!(IrInstruction::BrTable { targets: vec![], default: 0 }.text(), "br_table 0");
    assert_eq!(
        IrInstruction::CallIndirect { type_idx: 2, table_idx: 0 }.text(),
        "call_indirect (type 2) (table 0)"
    );
    assert_eq!(IrInstruction::I64TruncSatF32S.text(), "i64.trunc_sat_f32_s");
}

#[test]
fn fused_tees_expand_back_to_the_input() {
    // One tee was already there; one pair gets fused.
    let orig = vec![
        IrInstruction::LocalTee(2),
        IrInstruction::LocalSet(1),
        IrInstruction::LocalGet(1),
        IrInstruction::LocalGet(2),
    ];
    let mut ir = orig.clone();
    optimize(&mut ir);
    assert_eq!(ir, vec![IrInstruction::LocalTee(2), IrInstruction::LocalTee(1), IrInstruction::LocalGet(2)]);
    assert_eq!(orig.len() - ir.len(), 1);
    // Expanding the created tee (the second instruction) gives the input back.
    let mut expanded = vec![ir[0].clone()];
    expanded.push(IrInstruction::LocalSet(1));
    expanded.push(IrInstruction::LocalGet(1));
    expanded.push(ir[2].clone());
    assert_eq!(expanded, orig);
}
