use wasm_pvm::test_harness::{
    count_opcode, extract_instructions, filter_by_opcode, has_opcode, wat_to_wasm,
};
use wasm_pvm::{Error, Instruction, Opcode, ProgramBlob, SpiProgram};

#[test]
fn test_wat_to_wasm_simple() {
    let wat = r#"
        (module
            (func (export "main") (result i32)
                i32.const 42
            )
        )
    "#;
    let wasm = wat_to_wasm(wat).expect("Failed to parse WAT");
    assert!(!wasm.is_empty());
    // WASM magic number
    assert_eq!(&wasm[0..4], &[0x00, 0x61, 0x73, 0x6d]);
}

#[test]
fn test_count_opcode() {
    let instructions = vec![
        Instruction::LoadImm { reg: 2, value: 5 },
        Instruction::LoadImm { reg: 3, value: 7 },
        Instruction::Add32 {
            dst: 4,
            src1: 2,
            src2: 3,
        },
        Instruction::Trap,
    ];

    assert_eq!(count_opcode(&instructions, Opcode::LoadImm), 2);
    assert_eq!(count_opcode(&instructions, Opcode::Add32), 1);
    assert_eq!(count_opcode(&instructions, Opcode::Trap), 1);
    assert_eq!(count_opcode(&instructions, Opcode::Sub32), 0);
}

#[test]
fn wat_to_wasm_reports_parse_errors() {
    match wat_to_wasm("(module (func (result i32) i32.bogus))") {
        Err(Error::Internal(msg)) => assert!(msg.starts_with("WAT parse error: ")),
        other => panic!("expected a parse error, got {:?}", other.is_ok()),
    }
}

#[test]
fn opcode_helpers_agree() {
    let instructions = vec![
        Instruction::LoadImm { reg: 2, value: 5 },
        Instruction::Trap,
        Instruction::LoadImm { reg: 3, value: 7 },
    ];
    assert!(has_opcode(&instructions, Opcode::Trap));
    assert!(!has_opcode(&instructions, Opcode::Add64));
    let loads = filter_by_opcode(&instructions, Opcode::LoadImm);
    assert_eq!(loads.len(), 2);
    assert!(matches!(loads[1], Instruction::LoadImm { reg: 3, value: 7 }));
}

#[test]
fn extract_instructions_copies_the_code() {
    let program = SpiProgram::new(ProgramBlob::new(vec![
        Instruction::LoadImm { reg: 1, value: -3 },
        Instruction::Unknown { opcode: 250, raw_bytes: vec![250, 1] },
        Instruction::Trap,
    ]));
    let instrs = extract_instructions(&program);
    assert_eq!(instrs.len(), 3);
    assert!(matches!(instrs[0], Instruction::LoadImm { reg: 1, value: -3 }));
    assert_eq!(instrs[1].encode(), vec![250, 1]);
    assert!(matches!(instrs[2], Instruction::Trap));
}
