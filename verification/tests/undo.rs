use nestvim::buffer::TextBuffer;
use nestvim::types::Position;
use nestvim::undo::{Edit, EditType, UndoManager};

fn edit(edit_type: EditType) -> Edit {
    Edit {
        edit_type,
        cursor_before: Position { line: 1, col: 0 },
        cursor_after: Position { line: 1, col: 0 },
    }
}

#[test]
fn undo_reverts_insert_and_redo_restores_it() {
    let mut buf = TextBuffer::with_text("cd");
    buf.insert(1, 0, "ab");
    let mut m = UndoManager::new();
    m.push(edit(EditType::Insert { line: 1, col: 0, text: "ab".to_string() }));
    assert!(m.can_undo());
    assert!(!m.can_redo());
    let undone = m.undo(&mut buf);
    assert!(matches!(undone, Some(Edit { edit_type: EditType::Insert { .. }, .. })));
    assert_eq!(buf.to_string(), "cd");
    assert!(!m.can_undo());
    assert!(m.can_redo());
    assert!(m.redo(&mut buf).is_some());
    assert_eq!(buf.to_string(), "abcd");
    assert!(m.can_undo());
    assert!(!m.can_redo());
}

#[test]
fn undo_reverts_delete_and_redo_restores_it() {
    let mut buf = TextBuffer::with_text("abcd");
    buf.remove_range(1, 3);
    assert_eq!(buf.to_string(), "ad");
    let mut m = UndoManager::new();
    m.push(edit(EditType::Delete { line: 1, col: 1, text: "bc".to_string() }));
    m.undo(&mut buf);
    assert_eq!(buf.to_string(), "abcd");
    m.redo(&mut buf);
    assert_eq!(buf.to_string(), "ad");
}

#[test]
fn undo_reverts_split() {
    let mut buf = TextBuffer::with_text("abcd");
    let mut m = UndoManager::new();
    m.push(edit(EditType::Split { line: 1, col: 2 }));
    m.redo(&mut buf);
    assert_eq!(buf.to_string(), "abcd");
    let mut m2 = UndoManager::new();
    buf.insert(1, 2, "\n");
    assert_eq!(buf.to_string(), "ab\ncd");
    m2.push(edit(EditType::Split { line: 1, col: 2 }));
    m2.undo(&mut buf);
    assert_eq!(buf.to_string(), "abcd");
    m2.redo(&mut buf);
    assert_eq!(buf.to_string(), "ab\ncd");
}

#[test]
fn undo_reverts_delete_line_and_insert_line() {
    let mut buf = TextBuffer::with_text("a\nc\n");
    let mut m = UndoManager::new();
    m.push(edit(EditType::InsertLine { line: 2, text: "b".to_string() }));
    m.undo(&mut buf);
    assert_eq!(buf.to_string(), "a\n");
    let mut buf2 = TextBuffer::with_text("a\nc\n");
    let mut m2 = UndoManager::new();
    m2.push(edit(EditType::DeleteLine { line: 2, text: "b".to_string() }));
    m2.undo(&mut buf2);
    assert_eq!(buf2.to_string(), "a\nb\nc\n");
}

#[test]
fn nothing_to_undo_or_redo() {
    let mut buf = TextBuffer::with_text("x");
    let mut m = UndoManager::default();
    assert!(m.undo(&mut buf).is_none());
    assert!(m.redo(&mut buf).is_none());
    assert_eq!(buf.to_string(), "x");
    assert_eq!(buf.modification_count(), 0);
}

#[test]
fn new_edit_clears_redo() {
    let mut buf = TextBuffer::new();
    let mut m = UndoManager::new();
    m.push(edit(EditType::Merge { line: 1, deleted_newline_col: 0 }));
    m.undo(&mut buf);
    assert!(m.can_redo());
    m.push(edit(EditType::Merge { line: 1, deleted_newline_col: 0 }));
    assert!(!m.can_redo());
    m.clear();
    assert!(!m.can_undo());
}

#[test]
fn undo_stack_keeps_the_last_thousand_edits() {
    let mut buf = TextBuffer::new();
    let mut m = UndoManager::new();
    for _ in 0..1001 {
        m.push(edit(EditType::Merge { line: 1, deleted_newline_col: 0 }));
    }
    let mut undone = 0;
    while m.undo(&mut buf).is_some() {
        undone += 1;
    }
    assert_eq!(undone, 1000);
}

#[test]
fn undo_then_redo_restores_stacks() {
    let mut buf = TextBuffer::new();
    let mut m = UndoManager::new();
    m.push(edit(EditType::Merge { line: 1, deleted_newline_col: 0 }));
    m.push(edit(EditType::Split { line: 1, col: 0 }));
    let top = m.undo(&mut buf).unwrap();
    assert!(matches!(top.edit_type, EditType::Split { line: 1, col: 0 }));
    let again = m.redo(&mut buf).unwrap();
    assert!(matches!(again.edit_type, EditType::Split { line: 1, col: 0 }));
    assert!(m.can_undo());
    assert!(!m.can_redo());
}

#[test]
fn undo_reverts_replace_and_redo_restores_it() {
    let mut buf = TextBuffer::with_text("aXYZd");
    let mut m = UndoManager::new();
    m.push(edit(EditType::Replace {
        line: 1,
        col: 1,
        old_text: "bc".to_string(),
        new_text: "XYZ".to_string(),
    }));
    m.undo(&mut buf);
    assert_eq!(buf.to_string(), "abcd");
    m.redo(&mut buf);
    assert_eq!(buf.to_string(), "aXYZd");
}

#[test]
fn undo_removes_inserted_line() {
    let mut buf = TextBuffer::with_text("a\nb\nc\n");
    let mut m = UndoManager::new();
    m.push(edit(EditType::InsertLine { line: 2, text: "b".to_string() }));
    m.undo(&mut buf);
    assert_eq!(buf.to_string(), "a\nc\n");
    m.redo(&mut buf);
    assert_eq!(buf.to_string(), "a\nb\nc\n");
}

#[test]
fn undo_of_merge_puts_the_break_back() {
    let mut buf = TextBuffer::with_text("abcdef");
    let mut m = UndoManager::new();
    m.push(edit(EditType::Merge { line: 2, deleted_newline_col: 4 }));
    m.undo(&mut buf);
    assert_eq!(buf.to_string(), "abcd\nef");
    assert_eq!(buf.modification_count(), 1);
    m.redo(&mut buf);
    assert_eq!(buf.to_string(), "abcdef");
}

#[test]
fn undo_counts_chars_not_bytes() {
    let mut buf = TextBuffer::with_text("aé\n");
    let mut m = UndoManager::new();
    buf.insert(1, 1, "ßü");
    m.push(edit(EditType::Insert { line: 1, col: 1, text: "ßü".to_string() }));
    assert_eq!(buf.to_string(), "aßüé\n");
    m.undo(&mut buf);
    assert_eq!(buf.to_string(), "aé\n");
    m.redo(&mut buf);
    assert_eq!(buf.to_string(), "aßüé\n");
}

#[test]
fn undo_restores_deleted_first_line() {
    let mut buf = TextBuffer::with_text("b\nc\n");
    buf.delete_line(1);
    assert_eq!(buf.to_string(), "c\n");
    let mut m = UndoManager::new();
    m.push(edit(EditType::DeleteLine { line: 1, text: "b".to_string() }));
    m.undo(&mut buf);
    assert_eq!(buf.to_string(), "b\nc\n");
    m.redo(&mut buf);
    assert_eq!(buf.to_string(), "c\n");
}
