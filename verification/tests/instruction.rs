use wasm_pvm::pvm::instruction::{encode_imm, encode_three_reg, encode_two_reg, encode_uimm};
use wasm_pvm::{Instruction, Opcode};

#[test]
fn test_three_reg_encoding() {
    // Test Add32 with dst=3, src1=1, src2=2
    // Expected: [opcode, (src2 << 4) | src1, dst] = [opcode, 0x21, 0x03]
    let instr = Instruction::Add32 {
        dst: 3,
        src1: 1,
        src2: 2,
    };
    let encoded = instr.encode();
    assert_eq!(encoded[0], Opcode::Add32.to_u8());
    assert_eq!(encoded[1], 0x21); // src2=2 in high nibble, src1=1 in low nibble
    assert_eq!(encoded[2], 0x03); // dst
}

#[test]
fn test_three_reg_encoding_symmetric() {
    // Verify src1 and src2 are distinguishable (not commutative in encoding)
    let instr1 = Instruction::Sub32 {
        dst: 0,
        src1: 5,
        src2: 7,
    };
    let instr2 = Instruction::Sub32 {
        dst: 0,
        src1: 7,
        src2: 5,
    };
    assert_ne!(instr1.encode(), instr2.encode());
}

#[test]
fn test_three_reg_encoding_edge_registers() {
    // Test with register 0 and register 12 (max used in PVM)
    let instr = Instruction::Add64 {
        dst: 12,
        src1: 0,
        src2: 12,
    };
    let encoded = instr.encode();
    assert_eq!(encoded[0], Opcode::Add64.to_u8());
    assert_eq!(encoded[1], 0xC0); // src2=12 in high nibble, src1=0 in low nibble
    assert_eq!(encoded[2], 0x0C); // dst=12
}

#[test]
fn test_cmov_imm_encoding() {
    // CmovNzImm with cond=3, dst=5, value=42
    let instr = Instruction::CmovNzImm {
        cond: 3,
        dst: 5,
        value: 42,
    };
    let encoded = instr.encode();
    assert_eq!(encoded[0], Opcode::CmovNzImm.to_u8());
    assert_eq!(encoded[1], 0x35); // cond=3 in high nibble, dst=5 in low nibble
    assert_eq!(encoded[2], 42); // value as 1-byte immediate
}

#[test]
fn test_cmov_iz_imm_encoding() {
    // CmovIzImm with cond=0, dst=7, value=0
    let instr = Instruction::CmovIzImm {
        cond: 0,
        dst: 7,
        value: 0,
    };
    let encoded = instr.encode();
    assert_eq!(encoded[0], Opcode::CmovIzImm.to_u8());
    assert_eq!(encoded[1], 0x07); // cond=0 in high nibble, dst=7 in low nibble
    assert_eq!(encoded.len(), 2); // value=0 → no immediate bytes
}

#[test]
fn test_cmov_imm_roundtrip() {
    // Roundtrip: encode CmovIzImm/CmovNzImm then decode manually and verify field values.
    for (dst, cond, value) in [(0u8, 5u8, 0i32), (7, 3, 42), (12, 1, -1), (2, 9, 8_388_607)] {
        for (opcode_byte, is_iz) in [
            (Opcode::CmovIzImm.to_u8(), true),
            (Opcode::CmovNzImm.to_u8(), false),
        ] {
            let instr = if is_iz {
                Instruction::CmovIzImm { dst, cond, value }
            } else {
                Instruction::CmovNzImm { dst, cond, value }
            };
            let encoded = instr.encode();

            // Verify opcode byte
            assert_eq!(
                encoded[0], opcode_byte,
                "opcode mismatch for dst={dst} cond={cond} value={value}"
            );

            // Decode the packed nibble byte: cond in high nibble, dst in low nibble
            let nibble_byte = encoded[1];
            let decoded_cond = (nibble_byte >> 4) & 0x0F;
            let decoded_dst = nibble_byte & 0x0F;
            assert_eq!(
                decoded_dst, dst,
                "dst mismatch for dst={dst} cond={cond} value={value}"
            );
            assert_eq!(
                decoded_cond, cond,
                "cond mismatch for dst={dst} cond={cond} value={value}"
            );

            // Decode the immediate (sign-extend from however many bytes were written)
            let imm_bytes = &encoded[2..];
            let mut buf = [0u8; 4];
            buf[..imm_bytes.len()].copy_from_slice(imm_bytes);
            // Sign-extend: if top bit of last written byte is set, fill with 0xFF
            if let Some(&last) = imm_bytes.last() {
                if last & 0x80 != 0 {
                    for b in buf.iter_mut().skip(imm_bytes.len()) {
                        *b = 0xFF;
                    }
                }
            }
            let decoded_value = i32::from_le_bytes(buf);
            assert_eq!(
                decoded_value, value,
                "value mismatch for dst={dst} cond={cond} value={value}"
            );
        }
    }
}

#[test]
fn test_ecalli_encoding_roundtrip() {
    for index in [0u32, 100, 0x1234, 0xFFFF_FFFE] {
        let instr = Instruction::Ecalli { index };
        let encoded = instr.encode();
        assert_eq!(encoded[0], Opcode::Ecalli.to_u8());
        let imm = &encoded[1..];
        let mut bytes = [0u8; 4];
        bytes[..imm.len()].copy_from_slice(imm);
        let decoded = u32::from_le_bytes(bytes);
        assert_eq!(decoded, index, "roundtrip failed for index {index}");
    }
}

#[test]
fn test_load_imm_jump_encoding() {
    // Typical call return address: value=2 (small), offset patched later
    let instr = Instruction::LoadImmJump {
        reg: 0,
        value: 2,
        offset: 100,
    };
    let encoded = instr.encode();
    assert_eq!(encoded[0], Opcode::LoadImmJump.to_u8());
    // Second byte: (imm_len << 4) | reg. value=2 fits in 1 byte, so imm_len=1.
    assert_eq!(encoded[1], 0x10); // (1 << 4) | 0
    assert_eq!(encoded[2], 2); // imm = 2
    // Offset is last 4 bytes
    let offset_bytes = &encoded[3..7];
    assert_eq!(i32::from_le_bytes(offset_bytes.try_into().unwrap()), 100);
    // Total: 7 bytes (opcode + reg/len + imm + offset)
    assert_eq!(encoded.len(), 7);
}

#[test]
fn test_load_imm_jump_encoding_zero_value() {
    // value=0 → 0 imm bytes
    let instr = Instruction::LoadImmJump {
        reg: 0,
        value: 0,
        offset: -50,
    };
    let encoded = instr.encode();
    assert_eq!(encoded[0], Opcode::LoadImmJump.to_u8());
    assert_eq!(encoded[1], 0x00); // (0 << 4) | 0
    // No imm bytes, offset starts at byte 2
    assert_eq!(encoded.len(), 6); // opcode + reg/len + offset(4)
    let offset_bytes = &encoded[2..6];
    assert_eq!(i32::from_le_bytes(offset_bytes.try_into().unwrap()), -50);
}

#[test]
fn test_load_imm_jump_is_terminating() {
    let instr = Instruction::LoadImmJump {
        reg: 0,
        value: 2,
        offset: 0,
    };
    assert!(instr.is_terminating());
}

#[test]
fn test_load_imm_jump_dest_reg() {
    let instr = Instruction::LoadImmJump {
        reg: 5,
        value: 10,
        offset: 0,
    };
    assert_eq!(instr.dest_reg(), Some(5));
}

#[test]
fn imm_encoding_is_shortest_sign_extension() {
    assert_eq!(encode_imm(0), Vec::<u8>::new());
    assert_eq!(encode_imm(-1), vec![0xff]);
    assert_eq!(encode_imm(127), vec![0x7f]);
    assert_eq!(encode_imm(128), vec![0x80, 0x00]);
    assert_eq!(encode_imm(-129), vec![0x7f, 0xff]);
    assert_eq!(encode_imm(i32::MIN), vec![0, 0, 0, 0x80]);
}

#[test]
fn uimm_encoding_is_shortest_zero_extension() {
    assert_eq!(encode_uimm(0), Vec::<u8>::new());
    assert_eq!(encode_uimm(0xff), vec![0xff]);
    assert_eq!(encode_uimm(0x100), vec![0x00, 0x01]);
    assert_eq!(encode_uimm(0xFFFF_FFFF), vec![0xff, 0xff, 0xff, 0xff]);
}

#[test]
fn register_helpers_pack_nibbles() {
    assert_eq!(encode_three_reg(Opcode::Add32, 3, 1, 2), vec![Opcode::Add32.to_u8(), 0x21, 3]);
    assert_eq!(encode_two_reg(Opcode::MoveReg, 4, 9), vec![Opcode::MoveReg.to_u8(), 0x94]);
}

#[test]
fn instruction_queries() {
    let add = Instruction::Add32 { dst: 3, src1: 1, src2: 2 };
    assert_eq!(add.dest_reg(), Some(3));
    assert_eq!(add.src_regs(), [Some(1), Some(2), None]);
    assert!(!add.is_terminating());
    assert_eq!(add.opcode(), Some(Opcode::Add32));
    let store = Instruction::StoreIndU64 { base: 1, src: 2, offset: 8 };
    assert_eq!(store.dest_reg(), None);
    assert_eq!(store.src_regs(), [Some(1), Some(2), None]);
    assert!(Instruction::Trap.is_terminating());
    assert!(Instruction::Jump { offset: 4 }.is_terminating());
}

#[test]
fn opcode_byte_roundtrip() {
    for b in 0u8..=255 {
        if let Some(op) = Opcode::from_u8(b) {
            assert_eq!(op.to_u8(), b);
        }
    }
    assert_eq!(Opcode::from_u8(Opcode::Trap.to_u8()), Some(Opcode::Trap));
    assert_eq!(Opcode::from_u8(20), Some(Opcode::LoadImm64));
}

#[test]
fn conditional_moves_read_their_destination() {
    // When the condition fails the destination keeps its old value, so it is read.
    let iz = Instruction::CmovIzImm { dst: 5, cond: 3, value: 7 };
    let nz = Instruction::CmovNzImm { dst: 5, cond: 3, value: 7 };
    assert_eq!(iz.src_regs(), [Some(3), Some(5), None]);
    assert_eq!(nz.src_regs(), [Some(3), Some(5), None]);
    assert_eq!(iz.dest_reg(), Some(5));
}
