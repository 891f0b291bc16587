use nestvim::register::Register;
use nestvim::types::{Macros, Marks, Position};

#[test]
fn register_reads_back_by_either_case() {
    let mut r = Register::new();
    assert_eq!(r.get('a'), "");
    r.set('A', "text");
    assert_eq!(r.get('a'), "text");
    assert_eq!(r.get('A'), "text");
    assert_eq!(r.get('b'), "");
}

#[test]
fn unknown_register_reads_empty() {
    let r = Register::default();
    assert_eq!(r.get('%'), "");
    assert_eq!(r.get_default(), "");
}

#[test]
fn default_register_is_unnamed() {
    let mut r = Register::new();
    r.set('"', "yanked");
    assert_eq!(r.get_default(), "yanked");
}

#[test]
fn append_joins_with_newline() {
    let mut r = Register::new();
    r.append('q', "one");
    assert_eq!(r.get('q'), "one");
    r.append('Q', "two");
    assert_eq!(r.get('q'), "one\ntwo");
}

#[test]
fn clipboard_read_of_named_register() {
    let mut r = Register::new();
    r.set('x', "v");
    assert_eq!(r.get_with_clipboard('x'), "v");
}

#[test]
fn marks_read_back() {
    let mut m = Marks::new();
    assert_eq!(m.get('a'), None);
    m.set('a', Position { line: 3, col: 4 });
    m.set('b', Position { line: 1, col: 0 });
    m.set('a', Position { line: 5, col: 6 });
    assert_eq!(m.get('a'), Some(Position { line: 5, col: 6 }));
    assert_eq!(m.get('b'), Some(Position { line: 1, col: 0 }));
    assert_eq!(m.get('c'), None);
}

#[test]
fn macros_record_keys_while_recording() {
    let mut m = Macros::new();
    assert!(!m.is_recording());
    m.add_key("x".to_string());
    assert!(m.get('q').is_none());
    m.start_recording('q');
    assert!(m.is_recording());
    m.add_key("d".to_string());
    m.add_key("w".to_string());
    assert_eq!(m.stop_recording(), Some('q'));
    assert!(!m.is_recording());
    m.add_key("z".to_string());
    assert_eq!(m.get('q').unwrap(), &vec!["d".to_string(), "w".to_string()]);
    m.start_recording('q');
    m.add_key("j".to_string());
    assert_eq!(m.get('q').unwrap().len(), 3);
    assert_eq!(m.stop_recording(), Some('q'));
    assert_eq!(m.stop_recording(), None);
}
