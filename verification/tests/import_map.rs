use wasm_pvm::import_map::{parse_import_map_text, ImportAction, ImportMapError};

#[test]
fn import_map_entries_in_order() {
    let text = "# Comments start with #\nabort = trap\n  console.log=nop  \n\n";
    let entries = parse_import_map_text(text).expect("valid map");
    assert_eq!(entries.len(), 2);
    assert_eq!(entries[0].0, "abort");
    assert_eq!(entries[0].1, ImportAction::Trap);
    assert_eq!(entries[1].0, "console.log");
    assert_eq!(entries[1].1, ImportAction::Nop);
}

#[test]
fn import_map_empty_text() {
    assert!(parse_import_map_text("").expect("empty map").is_empty());
    assert!(parse_import_map_text("\n\n   \n# only comments\n").expect("empty map").is_empty());
}

#[test]
fn import_map_windows_line_endings() {
    let entries = parse_import_map_text("a = trap\r\nb = nop\r\n").expect("valid map");
    assert_eq!(entries.len(), 2);
    assert_eq!(entries[1].0, "b");
}

#[test]
fn import_map_line_without_equals() {
    match parse_import_map_text("a = trap\nnot a mapping\n") {
        Err(ImportMapError::InvalidFormat { line }) => assert_eq!(line, 2),
        _ => panic!("expected an invalid format error"),
    }
}

#[test]
fn import_map_unknown_action() {
    match parse_import_map_text("\n\nf = ignore \n") {
        Err(ImportMapError::UnknownAction { line, action }) => {
            assert_eq!(line, 3);
            assert_eq!(action, "ignore");
        }
        _ => panic!("expected an unknown action error"),
    }
}

#[test]
fn import_map_splits_at_first_equals() {
    match parse_import_map_text("a = b = trap") {
        Err(ImportMapError::UnknownAction { line, action }) => {
            assert_eq!(line, 1);
            assert_eq!(action, "b = trap");
        }
        _ => panic!("expected an unknown action error"),
    }
    let entries = parse_import_map_text("=nop").expect("an empty name is accepted");
    assert_eq!(entries[0].0, "");
}

#[test]
fn import_map_first_error_wins() {
    match parse_import_map_text("x\ny = bad") {
        Err(ImportMapError::InvalidFormat { line }) => assert_eq!(line, 1),
        _ => panic!("expected the first line's error"),
    }
}
