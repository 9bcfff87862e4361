use wasm_pvm::report::{format_memory_size, truncate};
use wasm_pvm::text::{push_dec, push_hex, push_signed_dec};
use wasm_pvm::Error;

#[test]
fn error_messages() {
    assert_eq!(
        Error::Unsupported("threads".to_string()).message(),
        "Unsupported WASM feature: threads"
    );
    assert_eq!(Error::FloatNotSupported.message(), "Float operations are not supported by PVM");
    assert_eq!(Error::NoExportedFunction.message(), "No exported function found");
    assert_eq!(Error::FunctionNotFound(17).message(), "Function index 17 not found");
    assert_eq!(Error::UnresolvedImport("env.f".to_string()).message(), "Unresolved import: env.f");
    assert_eq!(Error::Internal("oops".to_string()).message(), "Internal error: oops");
}

#[test]
fn located_error_messages() {
    let e = Error::Located {
        func_idx: 3,
        func_name: "main".to_string(),
        op_offset: Some(0x2a),
        cause: Box::new(Error::FloatNotSupported),
    };
    assert_eq!(
        e.message(),
        "Float operations are not supported by PVM (in function #3 'main' at byte offset 0x2a)"
    );
    let e = Error::Located {
        func_idx: 0,
        func_name: "f".to_string(),
        op_offset: None,
        cause: Box::new(Error::Internal("x".to_string())),
    };
    assert_eq!(e.message(), "Internal error: x (in function #0 'f' during PVM lowering)");
    let e = Error::AdapterMerge {
        context: "adapter func 3".to_string(),
        cause: Box::new(Error::NoExportedFunction),
    };
    assert_eq!(e.message(), "No exported function found (during adapter merge: adapter func 3)");
}

#[test]
fn number_rendering() {
    let mut s = String::new();
    push_dec(&mut s, 0);
    push_dec(&mut s, 1234567890);
    assert_eq!(s, "01234567890");
    let mut s = String::new();
    push_hex(&mut s, 0xdeadbeef);
    assert_eq!(s, "deadbeef");
    let mut s = String::new();
    push_signed_dec(&mut s, -7);
    push_signed_dec(&mut s, 7);
    assert_eq!(s, "-77");
    let mut s = String::new();
    push_dec(&mut s, u64::MAX);
    assert_eq!(s, "18446744073709551615");
}

#[test]
fn memory_sizes() {
    assert_eq!(format_memory_size(16, 64), "1 MB");
    assert_eq!(format_memory_size(1, 64), "64 KB");
    assert_eq!(format_memory_size(0, 64), "0 KB");
    assert_eq!(format_memory_size(15, 64), "960 KB");
    assert_eq!(format_memory_size(17, 64), "1 MB");
    assert_eq!(format_memory_size(u32::MAX, u32::MAX), "18014398501093376 MB");
}

#[test]
fn truncate_to_byte_length() {
    assert_eq!(truncate("hello", 10), "hello");
    assert_eq!(truncate("hello", 5), "hello");
    assert_eq!(truncate("hello", 2), "he");
    assert_eq!(truncate("", 0), "");
}
