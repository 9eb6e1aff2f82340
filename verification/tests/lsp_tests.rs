use dx_forge::lsp::{
    calculate_range_length, uri_to_path, LspDetector, LspPosition, LspRange, LspTextEdit,
};
use dx_forge::ops::OperationType;

#[test]
fn test_uri_to_path() {
    let uri = "file:///home/user/project/src/main.rs";
    let path = uri_to_path(uri);
    assert!(path.contains("main.rs"));
    assert_eq!(path, "/home/user/project/src/main.rs");
}

#[test]
fn test_calculate_range_length() {
    let range = LspRange {
        start: LspPosition { line: 0, character: 5 },
        end: LspPosition { line: 0, character: 10 },
    };
    assert_eq!(calculate_range_length(&range), 5);
}

#[test]
fn stale_document_versions_are_dropped() {
    let mut d = LspDetector::new("actor-a".to_string());
    let uri = "file:///a.rs".to_string();
    assert!(d.should_process(&uri, 3));
    assert!(!d.should_process(&uri, 3));
    assert!(!d.should_process(&uri, 2));
    assert!(d.should_process(&uri, 4));
}

#[test]
fn empty_range_edits_become_inserts() {
    let mut d = LspDetector::new("actor-a".to_string());
    let edit = LspTextEdit {
        range: LspRange {
            start: LspPosition { line: 2, character: 4 },
            end: LspPosition { line: 2, character: 4 },
        },
        text: "new text".to_string(),
    };
    let op = d.convert_edit_to_operation(&"a.rs".to_string(), &edit);
    match op.op_type {
        OperationType::Insert { position, content, length } => {
            assert_eq!(position.line, 3);
            assert_eq!(position.column, 5);
            assert_eq!(content, "new text");
            assert_eq!(length, 8);
        }
        _ => panic!("expected an insert"),
    }
}

#[test]
fn empty_text_edits_become_deletes() {
    let mut d = LspDetector::new("actor-a".to_string());
    let edit = LspTextEdit {
        range: LspRange {
            start: LspPosition { line: 0, character: 5 },
            end: LspPosition { line: 0, character: 10 },
        },
        text: String::new(),
    };
    let op = d.convert_edit_to_operation(&"a.rs".to_string(), &edit);
    match op.op_type {
        OperationType::Delete { length, .. } => assert_eq!(length, 5),
        _ => panic!("expected a delete"),
    }
}
