use nestvim::cli::{resolve_cli, Cli, ModeCommand};
use nestvim::editor::Key;
use nestvim::keymap::{create_keymap, is_control, EmacsKeymap, KeyCommand, KeymapHandler, VimKeymap};
use nestvim::types::Keymap;

#[test]
fn emacs_movement_keys() {
    let mut k = EmacsKeymap::new();
    assert_eq!(k.handle_key(Key::Char('f'), true), vec![KeyCommand::EmitKey('f'), KeyCommand::CursorRight]);
    assert_eq!(k.handle_key(Key::Char('b'), true), vec![KeyCommand::EmitKey('b'), KeyCommand::CursorLeft]);
    assert_eq!(k.handle_key(Key::Char('n'), true), vec![KeyCommand::EmitKey('n'), KeyCommand::CursorDown]);
    assert_eq!(k.handle_key(Key::Char('p'), true), vec![KeyCommand::EmitKey('p'), KeyCommand::CursorUp]);
    assert_eq!(k.handle_key(Key::Home, false), vec![KeyCommand::CursorLineStart]);
    assert_eq!(k.handle_key(Key::PageDown, false), vec![KeyCommand::ScrollDown]);
}

#[test]
fn emacs_prefix_save_is_passed_on_with_next_key() {
    let mut k = EmacsKeymap::default();
    assert_eq!(k.handle_key(Key::Char('x'), true), vec![KeyCommand::EmitKey('x')]);
    assert_eq!(k.handle_key(Key::Char('s'), true), vec![KeyCommand::EmitKey('s')]);
    assert_eq!(
        k.handle_key(Key::Char('k'), true),
        vec![KeyCommand::RequestSave, KeyCommand::EmitKey('k'), KeyCommand::KillLine]
    );
    assert_eq!(k.handle_key(Key::Char('k'), true), vec![KeyCommand::EmitKey('k'), KeyCommand::KillLine]);
}

#[test]
fn emacs_prefixed_commands() {
    let mut k = EmacsKeymap::new();
    k.handle_key(Key::Char('x'), true);
    assert_eq!(k.handle_key(Key::Char('c'), true), vec![KeyCommand::EmitKey('c'), KeyCommand::Quit]);
    k.handle_key(Key::Char('x'), true);
    assert_eq!(k.handle_key(Key::Char('h'), true), vec![KeyCommand::EmitKey('h'), KeyCommand::CursorLineStart]);
    k.handle_key(Key::Char('x'), true);
    assert_eq!(k.handle_key(Key::Char('d'), true), vec![KeyCommand::EmitKey('d'), KeyCommand::CursorLineEnd]);
    assert_eq!(k.handle_key(Key::Char('d'), true), vec![KeyCommand::EmitKey('d'), KeyCommand::DeleteCharForward]);
}

#[test]
fn emacs_prefix_lasts_one_key() {
    let mut k = EmacsKeymap::new();
    k.handle_key(Key::Char('x'), true);
    assert_eq!(k.handle_key(Key::Char('q'), false), vec![KeyCommand::EmitKey('q'), KeyCommand::InsertChar('q')]);
    assert_eq!(k.handle_key(Key::Char('c'), true), vec![KeyCommand::EmitKey('c')]);
}

#[test]
fn emacs_editing_keys() {
    let mut k = EmacsKeymap::new();
    assert_eq!(k.handle_key(Key::Char('a'), false), vec![KeyCommand::EmitKey('a'), KeyCommand::InsertChar('a')]);
    assert_eq!(k.handle_key(Key::Char('\u{1}'), false), vec![KeyCommand::EmitKey('\u{1}')]);
    assert_eq!(k.handle_key(Key::Enter, false), vec![KeyCommand::InsertNewline]);
    assert_eq!(k.handle_key(Key::Tab, false), vec![KeyCommand::InsertTab]);
    assert_eq!(k.handle_key(Key::Backspace, false), vec![KeyCommand::DeleteCharBackward]);
    assert_eq!(
        k.handle_key(Key::Char('l'), true),
        vec![KeyCommand::EmitKey('l'), KeyCommand::ClearScreen, KeyCommand::ScrollCursorToCenter]
    );
    assert_eq!(k.handle_key(Key::Char('/'), true), vec![KeyCommand::EmitKey('/'), KeyCommand::Undo]);
    assert_eq!(k.handle_key(Key::Char('o'), true), vec![KeyCommand::EmitKey('o'), KeyCommand::RequestSave]);
    assert_eq!(k.handle_key(Key::Char('z'), true), vec![KeyCommand::EmitKey('z')]);
    assert_eq!(k.handle_key(Key::Esc, false), vec![]);
}

#[test]
fn control_chars() {
    assert!(is_control('\u{0}'));
    assert!(is_control('\u{7f}'));
    assert!(is_control('\u{9f}'));
    assert!(!is_control('a'));
    assert!(!is_control('\u{a0}'));
}

#[test]
fn vim_keymap_asks_for_nothing() {
    let mut k = VimKeymap::new();
    assert!(k.handle_key(Key::Char('x'), true).is_empty());
    let mut h = create_keymap(Keymap::Vim);
    assert!(h.handle_key(Key::Enter, false).is_empty());
    let mut e = create_keymap(Keymap::Emacs);
    assert_eq!(e.handle_key(Key::Enter, false), vec![KeyCommand::InsertNewline]);
}

#[test]
fn cli_picks_keymap_and_file() {
    let vim = resolve_cli(Cli { mode: None, file: Some("a.txt".to_string()) });
    assert_eq!(vim, (Keymap::Vim, Some("a.txt".to_string())));
    let emacs = resolve_cli(Cli { mode: Some(ModeCommand::Emacs { file: Some("b".to_string()) }), file: None });
    assert_eq!(emacs, (Keymap::Emacs, Some("b".to_string())));
    let explicit = resolve_cli(Cli { mode: Some(ModeCommand::Vim { file: None }), file: Some("ignored".to_string()) });
    assert_eq!(explicit, (Keymap::Vim, None));
}

#[test]
fn prefix_waits_only_after_ctrl_x() {
    let mut k = EmacsKeymap::new();
    k.handle_key(Key::Char('x'), true);
    k.handle_key(Key::Char('x'), true);
    assert_eq!(k.handle_key(Key::Char('c'), true), vec![KeyCommand::EmitKey('c'), KeyCommand::Quit]);
    k.handle_key(Key::Char('x'), true);
    k.handle_key(Key::Char('s'), true);
    k.handle_key(Key::Up, false);
    assert_eq!(k.handle_key(Key::Up, false), vec![KeyCommand::CursorUp]);
}
