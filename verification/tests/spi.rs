use wasm_pvm::spi::encode_u24;
use wasm_pvm::{Instruction, ProgramBlob, SpiProgram};

#[test]
fn test_spi_encode_minimal() {
    let code = ProgramBlob::new(vec![Instruction::Trap]);
    let spi = SpiProgram::new(code);
    let encoded = spi.encode();

    // First byte is varint-encoded metadata length (0 = empty metadata).
    assert_eq!(encoded[0], 0, "metadata length varint should be 0");

    // SPI header starts at offset 1.
    assert_eq!(&encoded[1..4], &[0, 0, 0], "ro_data_len");
    assert_eq!(&encoded[4..7], &[0, 0, 0], "rw_data_len");
    assert_eq!(&encoded[7..9], &16u16.to_le_bytes(), "heap_pages");
    let stack_bytes = encode_u24(64 * 1024);
    assert_eq!(&encoded[9..12], &stack_bytes, "stack_size");
}

#[test]
fn test_spi_encode_with_metadata() {
    let code = ProgramBlob::new(vec![Instruction::Trap]);
    let metadata = vec![0xDE, 0xAD, 0xBE, 0xEF];
    let spi = SpiProgram::new(code).with_metadata(metadata.clone());
    let encoded = spi.encode();

    // Metadata length varint: 4 encodes as [4].
    assert_eq!(encoded[0], 4, "metadata length varint should be 4");

    // Metadata bytes follow.
    assert_eq!(&encoded[1..5], &metadata, "metadata content");

    // SPI header starts after metadata.
    assert_eq!(&encoded[5..8], &[0, 0, 0], "ro_data_len after metadata");
}

#[test]
fn test_encode_spi_no_metadata() {
    let code = ProgramBlob::new(vec![Instruction::Trap]);
    let spi = SpiProgram::new(code);

    let raw_spi = spi.encode_spi();
    let with_meta = spi.encode();

    // encode() should be encode_spi() prefixed with varint(0).
    assert_eq!(with_meta[0], 0);
    assert_eq!(&with_meta[1..], &raw_spi[..]);
}

#[test]
fn encode_u24_takes_low_three_bytes() {
    assert_eq!(encode_u24(0x0012_3456), [0x56, 0x34, 0x12]);
    assert_eq!(encode_u24(0xFF12_3456), [0x56, 0x34, 0x12]);
    assert_eq!(encode_u24(0), [0, 0, 0]);
}

#[test]
fn spi_builders_set_fields() {
    let spi = SpiProgram::new(ProgramBlob::new(vec![Instruction::Trap]))
        .with_ro_data(vec![1, 2])
        .with_rw_data(vec![3])
        .with_heap_pages(7)
        .with_stack_size(0x0102_0304);
    assert_eq!(spi.ro_data(), &[1, 2]);
    assert_eq!(spi.rw_data(), &[3]);
    assert_eq!(spi.heap_pages(), 7);
    assert!(spi.metadata().is_empty());
    assert_eq!(spi.code().instructions().len(), 1);
    let raw = spi.encode_spi();
    // ro_data_len, rw_data_len as u24, heap pages u16, stack size u24.
    assert_eq!(&raw[0..3], &[2, 0, 0]);
    assert_eq!(&raw[3..6], &[1, 0, 0]);
    assert_eq!(&raw[6..8], &[7, 0]);
    assert_eq!(&raw[8..11], &[0x04, 0x03, 0x02]);
    // then the data sections.
    assert_eq!(&raw[11..13], &[1, 2]);
    assert_eq!(raw[13], 3);
}
