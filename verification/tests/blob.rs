use wasm_pvm::pvm::blob::{encode_var_u32, pack_mask};
use wasm_pvm::{Instruction, ProgramBlob};

#[test]
fn test_encode_var_u32() {
    assert_eq!(encode_var_u32(0), vec![0]);
    assert_eq!(encode_var_u32(1), vec![1]);
    assert_eq!(encode_var_u32(127), vec![127]);
    assert_eq!(encode_var_u32(128), vec![0x80, 0x80]);
    assert_eq!(encode_var_u32(145), vec![0x80, 0x91]);
    assert_eq!(encode_var_u32(300), vec![0x81, 0x2c]);
    assert_eq!(encode_var_u32(16383), vec![0xbf, 0xff]);
    assert_eq!(encode_var_u32(16384), vec![0xc0, 0x00, 0x40]);
}

#[test]
fn test_pack_mask() {
    assert_eq!(pack_mask(&[true, false, false]), vec![0b0000_0001]);
    assert_eq!(
        pack_mask(&[true, false, false, false, false, false, false, false, true]),
        vec![0b0000_0001, 0b0000_0001]
    );
}

#[test]
fn test_load_imm64_mask() {
    // LoadImm64 encodes to 10 bytes, Trap to 1 byte
    let instructions = vec![
        Instruction::LoadImm64 {
            reg: 7,
            value: 0xFEFD_0000,
        },
        Instruction::Trap,
    ];

    let blob = ProgramBlob::new(instructions);
    let (code, mask) = blob.encode_code_and_mask();

    // LoadImm64 = 10 bytes, Trap = 1 byte → total 11 bytes
    assert_eq!(code.len(), 11, "code length should be 11");

    // Check that the opcode is correct
    assert_eq!(code[0], 20, "first byte should be LoadImm64 opcode (20)");
    assert_eq!(code[10], 0, "byte 10 should be Trap opcode (0)");

    // Check mask: bit 0 = 1 (LoadImm64 start), bits 1-9 = 0, bit 10 = 1 (Trap start)
    let mask_bits: Vec<bool> = (0..11)
        .map(|pc| {
            let byte_idx = pc / 8;
            let bit_idx = pc % 8;
            (mask[byte_idx] >> bit_idx) & 1 == 1
        })
        .collect();

    assert!(mask_bits[0], "PC 0 should be instruction start");
    for pc in 1..10 {
        assert!(!mask_bits[pc], "PC {} should NOT be instruction start", pc);
    }
    assert!(mask_bits[10], "PC 10 should be instruction start (Trap)");
}

#[test]
fn var_u32_boundaries_of_each_length() {
    // One byte up to 2^7 - 1, two up to 2^14 - 1, and so on; 5 bytes above 2^28.
    assert_eq!(encode_var_u32((1 << 21) - 1).len(), 3);
    assert_eq!(encode_var_u32(1 << 21).len(), 4);
    assert_eq!(encode_var_u32((1 << 28) - 1).len(), 4);
    assert_eq!(encode_var_u32(1 << 28), vec![0xf0, 0x00, 0x00, 0x00, 0x10]);
    assert_eq!(encode_var_u32(u32::MAX), vec![0xf0, 0xff, 0xff, 0xff, 0xff]);
}

#[test]
fn pack_mask_empty_and_full_byte() {
    assert_eq!(pack_mask(&[]), Vec::<u8>::new());
    assert_eq!(pack_mask(&[true; 8]), vec![0xff]);
    assert_eq!(pack_mask(&[false, true]), vec![0b10]);
}

#[test]
fn blob_keeps_instructions_and_jump_table() {
    let blob = ProgramBlob::new(vec![Instruction::Trap, Instruction::Fallthrough])
        .with_jump_table(vec![2, 5]);
    assert_eq!(blob.instructions().len(), 2);
    let encoded = blob.encode();
    // jump table length 2, entry size 4, code length 2, then the entries.
    assert_eq!(&encoded[0..3], &[2, 4, 2]);
    assert_eq!(&encoded[3..11], &[2, 0, 0, 0, 5, 0, 0, 0]);
    // code: Trap (0), Fallthrough (1); mask: both starts.
    assert_eq!(&encoded[11..13], &[0, 1]);
    assert_eq!(encoded[13], 0b11);
    assert_eq!(encoded.len(), 14);
}
