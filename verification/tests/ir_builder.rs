use wasm_pvm::ir::builder::{build_ir, translate_operator, translate_ops, WasmBlockType, WasmOp};
use wasm_pvm::ir::IrInstruction;
use wasm_pvm::Error;

#[test]
fn build_ir_reads_locals_and_operators() {
    // Two i32 locals and one i64 local; local.get 0; i32.const 5; i32.add; end.
    let body = [0x02, 0x02, 0x7f, 0x01, 0x7e, 0x20, 0x00, 0x41, 0x05, 0x6a, 0x0b];
    let (locals, ir) = build_ir(&body).unwrap();
    assert_eq!(locals, 3);
    assert_eq!(
        ir,
        vec![
            IrInstruction::LocalGet(0),
            IrInstruction::I32Const(5),
            IrInstruction::I32Add,
            IrInstruction::End,
        ]
    );
}

#[test]
fn build_ir_maps_blocks_memory_and_branch_tables() {
    // block (result i32); memory.size 0; br_table 0 1 default 0; end; end
    let body = [0x00, 0x02, 0x7f, 0x3f, 0x00, 0x0e, 0x02, 0x00, 0x01, 0x00, 0x0b, 0x0b];
    let (locals, ir) = build_ir(&body).unwrap();
    assert_eq!(locals, 0);
    assert_eq!(
        ir,
        vec![
            IrInstruction::Block { has_result: true },
            IrInstruction::MemorySize,
            IrInstruction::BrTable { targets: vec![0, 1], default: 0 },
            IrInstruction::End,
            IrInstruction::End,
        ]
    );
}

#[test]
fn build_ir_refuses_float_operators() {
    // f32.add; end
    let body = [0x00, 0x92, 0x0b];
    match build_ir(&body) {
        Err(Error::Unsupported(m)) => assert_eq!(m, "F32Add"),
        other => panic!("unexpected {:?}", other.map(|r| r.0)),
    }
}

#[test]
fn build_ir_refuses_a_second_memory() {
    // memory.size 1; end
    let body = [0x00, 0x3f, 0x01, 0x0b];
    match build_ir(&body) {
        Err(Error::Unsupported(m)) => assert_eq!(m, "MemorySize { mem: 1 }"),
        other => panic!("unexpected {:?}", other.map(|r| r.0)),
    }
}

#[test]
fn build_ir_reports_unreadable_bodies() {
    // A locals count with nothing after it.
    let body = [0x01];
    assert!(matches!(build_ir(&body), Err(Error::WasmParse(_))));
}

#[test]
fn translate_ops_stops_at_the_first_unsupported_operator() {
    let ops = vec![
        WasmOp::I32Const(1),
        WasmOp::MemoryCopy(0, 2),
        WasmOp::Other("F64Add".to_string()),
    ];
    match translate_ops(&[1, 2], ops) {
        Err(Error::Unsupported(m)) => assert_eq!(m, "MemoryCopy { dst_mem: 0, src_mem: 2 }"),
        other => panic!("unexpected {:?}", other.map(|r| r.0)),
    }
    let (n, ir) = translate_ops(&[1, 2], vec![WasmOp::If(WasmBlockType::Empty), WasmOp::Loop]).unwrap();
    assert_eq!(n, 3);
    assert_eq!(ir, vec![IrInstruction::If { has_result: false }, IrInstruction::Loop]);
}

#[test]
fn translate_operator_keeps_memory_offsets() {
    assert_eq!(
        translate_operator(WasmOp::I64Load16S(24)).unwrap(),
        IrInstruction::I64Load16S { offset: 24 }
    );
    assert!(matches!(translate_operator(WasmOp::MemoryGrow(3)), Err(Error::Unsupported(_))));
}

#[test]
fn build_ir_reports_unreadable_operators() {
    // No locals, then a byte that starts no operator.
    let body = [0x00, 0xff, 0x0b];
    assert!(matches!(build_ir(&body), Err(Error::WasmParse(_))));
}
