use nestvim::buffer::TextBuffer;
use nestvim::editor::{Action, Editor, Key};
use nestvim::keymap::{EmacsKeymap, KeyCommand, KeymapHandler};
use nestvim::types::{Mode, PluginEvent, Position, ViewChange};

fn editor(text: &str) -> Editor {
    Editor::new(TextBuffer::with_text(text))
}

fn keys(e: &mut Editor, ks: &[Key]) -> Vec<Action> {
    let mut all = Vec::new();
    for k in ks {
        all.extend(e.handle_key(*k));
    }
    all
}

#[test]
fn new_editor_starts_in_normal_mode() {
    let e = editor("abc\n");
    assert_eq!(e.state.mode, Mode::Normal);
    assert_eq!(e.state.cursor, Position { line: 1, col: 0 });
    assert!(!e.running);
    assert!(e.needs_render);
}

#[test]
fn char_key_is_told_to_plugins_first() {
    let mut e = editor("abc\n");
    let acts = e.handle_key(Key::Char('i'));
    assert_eq!(acts.len(), 2);
    assert!(matches!(acts[0], Action::Emit(PluginEvent::Key { mode: Mode::Normal, key: 'i' })));
    assert!(matches!(
        acts[1],
        Action::Emit(PluginEvent::ModeChange { from: Mode::Normal, to: Mode::Insert })
    ));
    assert_eq!(e.state.mode, Mode::Insert);
}

#[test]
fn typed_char_then_backspace_restores_text() {
    let mut e = editor("abc\n");
    keys(&mut e, &[Key::Char('i'), Key::Char('x')]);
    assert_eq!(e.buffer.to_string(), "xabc\n");
    assert_eq!(e.state.cursor, Position { line: 1, col: 1 });
    let acts = e.handle_key(Key::Backspace);
    assert!(matches!(acts[0], Action::Emit(PluginEvent::BufferChange)));
    assert_eq!(e.buffer.to_string(), "abc\n");
    assert_eq!(e.state.cursor, Position { line: 1, col: 0 });
}

#[test]
fn enter_splits_and_backspace_joins() {
    let mut e = editor("abcd");
    keys(&mut e, &[Key::Char('i'), Key::Char('l')]);
    e.handle_key(Key::Esc);
    keys(&mut e, &[Key::Char('l'), Key::Char('l'), Key::Char('i')]);
    assert_eq!(e.state.cursor, Position { line: 1, col: 2 });
    e.handle_key(Key::Enter);
    assert_eq!(e.buffer.to_string(), "la\nbcd");
    assert_eq!(e.state.cursor, Position { line: 2, col: 0 });
    e.handle_key(Key::Backspace);
    assert_eq!(e.buffer.to_string(), "labcd");
    assert_eq!(e.state.cursor, Position { line: 1, col: 2 });
}

#[test]
fn esc_leaves_insert_one_column_left() {
    let mut e = editor("abc");
    keys(&mut e, &[Key::Char('i'), Key::Char('x'), Key::Char('y')]);
    let acts = e.handle_key(Key::Esc);
    assert!(matches!(
        acts[0],
        Action::Emit(PluginEvent::ModeChange { from: Mode::Insert, to: Mode::Normal })
    ));
    assert_eq!(e.state.mode, Mode::Normal);
    assert_eq!(e.state.cursor, Position { line: 1, col: 1 });
}

#[test]
fn dd_deletes_line_into_register() {
    let mut e = editor("abc\ndef\n");
    keys(&mut e, &[Key::Char('d'), Key::Char('d')]);
    assert_eq!(e.buffer.to_string(), "def\n");
    assert_eq!(e.register.get('"'), "abc\n");
    assert_eq!(e.state.cursor, Position { line: 1, col: 0 });
}

#[test]
fn dd_on_empty_line_keeps_cursor() {
    let mut e = editor("\n");
    keys(&mut e, &[Key::Char('d'), Key::Char('d')]);
    assert_eq!(e.buffer.to_string(), "\n");
    assert_eq!(e.state.cursor, Position { line: 1, col: 0 });
    assert_eq!(e.state.mode, Mode::Normal);
}

#[test]
fn yy_then_p_pastes_line() {
    let mut e = editor("abc\n");
    keys(&mut e, &[Key::Char('y'), Key::Char('y')]);
    assert_eq!(e.register.get_default(), "abc\n");
    assert_eq!(e.buffer.to_string(), "abc\n");
    let acts = e.handle_key(Key::Char('p'));
    assert!(matches!(acts[acts.len() - 1], Action::Emit(PluginEvent::BufferChange)));
    assert_eq!(e.buffer.to_string(), "abc\nabc\n");
    assert_eq!(e.state.cursor, Position { line: 2, col: 0 });
    let mut m = editor("ab\n");
    keys(&mut m, &[Key::Char('y'), Key::Char('y'), Key::Char('l'), Key::Char('p')]);
    assert_eq!(m.buffer.to_string(), "ab\nab\n");
    let mut up = editor("x\ny\n");
    keys(&mut up, &[Key::Char('j'), Key::Char('y'), Key::Char('y'), Key::Char('k'), Key::Char('P')]);
    assert_eq!(up.buffer.to_string(), "y\nx\ny\n");
    assert_eq!(up.state.cursor, Position { line: 1, col: 0 });
    let mut last = editor("ab");
    last.register.set('"', "q\n");
    last.handle_key(Key::Char('p'));
    assert_eq!(last.buffer.to_string(), "ab\nq\n");
    assert_eq!(last.state.cursor, Position { line: 2, col: 0 });
}

#[test]
fn yank_word_into_named_register() {
    let mut e = editor("foo bar\n");
    keys(&mut e, &[Key::Char('y'), Key::Char('w')]);
    assert_eq!(e.register.get('"'), "foo");
    keys(&mut e, &[Key::Char('"'), Key::Char('a'), Key::Char('y'), Key::Char('y')]);
    assert_eq!(e.register.get('a'), "foo bar\n");
}

#[test]
fn dw_deletes_word() {
    let mut e = editor("foo bar\n");
    keys(&mut e, &[Key::Char('d'), Key::Char('w')]);
    assert_eq!(e.buffer.to_string(), " bar\n");
    assert_eq!(e.register.get('"'), "foo");
}

#[test]
fn motions_stay_in_text() {
    let mut e = editor("ab\ncdef\n");
    keys(&mut e, &[Key::Char('h')]);
    assert_eq!(e.state.cursor, Position { line: 1, col: 0 });
    keys(&mut e, &[Key::Char('l'), Key::Char('l'), Key::Char('l')]);
    assert_eq!(e.state.cursor, Position { line: 1, col: 2 });
    keys(&mut e, &[Key::Char('j'), Key::Char('j'), Key::Char('j')]);
    assert_eq!(e.state.cursor.line, 3);
    keys(&mut e, &[Key::Char('k'), Key::Char('k'), Key::Char('k'), Key::Char('k')]);
    assert_eq!(e.state.cursor.line, 1);
}

#[test]
fn command_w_asks_for_save_and_q_quits() {
    let mut e = editor("abc\n");
    e.start();
    assert!(e.running);
    let acts = keys(&mut e, &[Key::Char(':'), Key::Char('w'), Key::Enter]);
    assert!(matches!(acts[acts.len() - 1], Action::Save { quit: false }));
    assert_eq!(e.state.mode, Mode::Normal);
    let saved = e.finish_save(true, false);
    assert!(matches!(saved[0], Action::Emit(PluginEvent::BufferSave { .. })));
    assert!(e.running);
    keys(&mut e, &[Key::Char(':'), Key::Char('q'), Key::Enter]);
    assert!(!e.running);
    assert_eq!(e.buffer.to_string(), "abc\n");
}

#[test]
fn command_wq_quits_only_after_save() {
    let mut e = editor("abc\n");
    e.start();
    let acts = keys(&mut e, &[Key::Char(':'), Key::Char('w'), Key::Char('q'), Key::Enter]);
    assert!(matches!(acts[acts.len() - 1], Action::Save { quit: true }));
    assert!(e.finish_save(false, true).is_empty());
    assert!(e.running);
    e.finish_save(true, true);
    assert!(!e.running);
}

#[test]
fn unknown_command_goes_to_plugins() {
    let mut e = editor("");
    let acts = keys(&mut e, &[Key::Char(':'), Key::Char(' '), Key::Char('h'), Key::Char('i'), Key::Backspace, Key::Char('o'), Key::Enter]);
    match &acts[acts.len() - 1] {
        Action::RunCommand(c) => assert_eq!(c, "ho"),
        _ => panic!("expected a command"),
    }
    assert_eq!(e.state.command_buffer, "");
}

#[test]
fn esc_cancels_command() {
    let mut e = editor("");
    keys(&mut e, &[Key::Char(':'), Key::Char('q'), Key::Esc]);
    assert_eq!(e.state.mode, Mode::Normal);
    assert_eq!(e.state.command_buffer, "");
}

#[test]
fn visual_yank_and_delete() {
    let mut e = editor("hello world\n");
    keys(&mut e, &[Key::Char('v'), Key::Char('l'), Key::Char('l'), Key::Char('y')]);
    assert_eq!(e.register.get_default(), "hel");
    assert_eq!(e.state.mode, Mode::Normal);
    assert!(e.state.visual_start.is_none());
    keys(&mut e, &[Key::Char('v'), Key::Char('h'), Key::Char('d')]);
    assert_eq!(e.register.get_default(), "el");
    assert_eq!(e.buffer.to_string(), "hlo world\n");
}

#[test]
fn visual_line_delete() {
    let mut e = editor("a\nb\nc\n");
    keys(&mut e, &[Key::Char('V'), Key::Char('d')]);
    assert_eq!(e.buffer.to_string(), "b\nc\n");
    assert_eq!(e.register.get_default(), "a\n");
    let mut two = editor("a\nb\nc\n");
    keys(&mut two, &[Key::Char('V'), Key::Char('j'), Key::Char('d')]);
    assert_eq!(two.buffer.to_string(), "c\n");
    assert_eq!(two.register.get_default(), "a\nb\n");
    two.handle_key(Key::Char('u'));
    assert_eq!(two.buffer.to_string(), "a\nb\nc\n");
}

#[test]
fn visual_char_selection_over_lines() {
    let mut e = editor("abc\ndef\n");
    keys(&mut e, &[Key::Char('l'), Key::Char('v'), Key::Char('j'), Key::Char('y')]);
    assert_eq!(e.register.get_default(), "bc\nde");
    keys(&mut e, &[Key::Char('k'), Key::Char('v'), Key::Char('j'), Key::Char('d')]);
    assert_eq!(e.buffer.to_string(), "af\n");
    assert_eq!(e.register.get_default(), "bc\nde");
    e.handle_key(Key::Char('u'));
    assert_eq!(e.buffer.to_string(), "abc\ndef\n");
}

#[test]
fn render_and_highlight_flags() {
    let mut e = editor("abc");
    assert!(e.take_render());
    assert!(!e.take_render());
    e.request_render();
    assert!(e.take_render());
    assert!(!e.take_highlight_update());
    keys(&mut e, &[Key::Char('i'), Key::Char('x')]);
    assert!(e.take_highlight_update());
    assert!(!e.take_highlight_update());
    e.sync_dirty();
    assert!(e.state.dirty);
}

#[test]
fn key_allowed_in_ordinary_states() {
    let mut e = editor("abc\n");
    for k in [Key::Char('l'), Key::Char('j'), Key::Char('p'), Key::Char('P'), Key::Char('y')] {
        assert!(e.key_allowed(k));
    }
    e.handle_key(Key::Char('d'));
    assert!(e.key_allowed(Key::Char('w')));
    e.state.cursor.col = usize::MAX;
    e.pending_operator = None;
    assert!(!e.key_allowed(Key::Char('l')));
    e.state.mode = Mode::Insert;
    assert!(!e.key_allowed(Key::Char('x')));
    assert!(e.key_allowed(Key::Enter));
}

#[test]
fn paste_before_and_after_cursor() {
    let mut e = editor("xy z\n");
    keys(&mut e, &[Key::Char('y'), Key::Char('w')]);
    assert_eq!(e.register.get_default(), "xy");
    e.handle_key(Key::Char('P'));
    assert_eq!(e.buffer.to_string(), "xyxy z\n");
    assert_eq!(e.state.cursor, Position { line: 1, col: 0 });
    let mut f = editor("xy z\n");
    keys(&mut f, &[Key::Char('y'), Key::Char('w'), Key::Char('p')]);
    assert_eq!(f.buffer.to_string(), "xxyy z\n");
    assert_eq!(f.state.cursor, Position { line: 1, col: 3 });
}

#[test]
fn yank_to_word_end() {
    let mut e = editor("hello world\n");
    keys(&mut e, &[Key::Char('l'), Key::Char('y'), Key::Char('e')]);
    assert_eq!(e.register.get_default(), "ello");
    assert_eq!(e.buffer.to_string(), "hello world\n");
}

#[test]
fn register_prefix_deletes_line_at_once() {
    let mut e = editor("one\ntwo\n");
    keys(&mut e, &[Key::Char('"'), Key::Char('b'), Key::Char('d')]);
    assert_eq!(e.buffer.to_string(), "two\n");
    assert_eq!(e.register.get('b'), "one\n");
    assert_eq!(e.register.get('"'), "");
    assert!(e.pending_operator.is_none());
}

#[test]
fn visual_line_yank_and_multi_line_paste() {
    let mut e = editor("a\nb\n");
    keys(&mut e, &[Key::Char('V'), Key::Char('j'), Key::Char('y')]);
    assert_eq!(e.register.get_default(), "a\nb\n");
    assert_eq!(e.state.cursor, Position { line: 2, col: 0 });
    e.handle_key(Key::Char('p'));
    assert_eq!(e.buffer.to_string(), "a\nb\na\nb\n");
    assert_eq!(e.state.cursor, Position { line: 3, col: 0 });
}

#[test]
fn visual_esc_keeps_text() {
    let mut e = editor("abc\n");
    let acts = keys(&mut e, &[Key::Char('v'), Key::Char('l'), Key::Esc]);
    assert!(matches!(
        acts[acts.len() - 1],
        Action::Emit(PluginEvent::ModeChange { from: Mode::Visual, to: Mode::Normal })
    ));
    assert_eq!(e.state.mode, Mode::Normal);
    assert!(e.state.visual_type.is_none());
    assert_eq!(e.buffer.to_string(), "abc\n");
}

#[test]
fn unbound_keys_do_nothing() {
    let mut e = editor("abc\n");
    let acts = keys(&mut e, &[Key::Char('x'), Key::Enter, Key::Other]);
    assert_eq!(acts.len(), 1);
    assert_eq!(e.buffer.to_string(), "abc\n");
    assert_eq!(e.state.cursor, Position { line: 1, col: 0 });
    let mut c = editor("");
    keys(&mut c, &[Key::Char(':'), Key::Backspace, Key::Backspace]);
    assert_eq!(c.state.command_buffer, "");
    assert_eq!(c.state.mode, Mode::Command);
}

#[test]
fn vim_input_flow_and_boundaries() {
    let mut e = editor("abc\n");
    keys(&mut e, &[Key::Char('i'), Key::Esc, Key::Char('d'), Key::Char('d'), Key::Char('u')]);
    let acts = keys(&mut e, &[Key::Char(':'), Key::Char('w'), Key::Enter]);
    if let Action::Save { quit } = acts[acts.len() - 1] {
        let saved = e.buffer.save_request().is_ok();
        e.finish_save(saved, quit);
    }
    keys(&mut e, &[Key::Char(':'), Key::Char('q'), Key::Enter]);
    assert_eq!(e.buffer.to_string(), "abc\n");
    assert_eq!(e.state.cursor, Position { line: 1, col: 0 });
    assert_eq!(e.state.mode, Mode::Normal);

    let mut e = editor("\n");
    keys(&mut e, &[Key::Char('d'), Key::Char('d')]);
    assert_eq!(e.buffer.to_string(), "\n");
    assert_eq!(e.state.cursor, Position { line: 1, col: 0 });
    assert_eq!(e.state.mode, Mode::Normal);
}

#[test]
fn u_undoes_typing_and_deletes() {
    let mut e = editor("foo bar\n");
    keys(&mut e, &[Key::Char('d'), Key::Char('w')]);
    assert_eq!(e.buffer.to_string(), " bar\n");
    let acts = e.handle_key(Key::Char('u'));
    assert!(matches!(acts[acts.len() - 1], Action::Emit(PluginEvent::BufferChange)));
    assert_eq!(e.buffer.to_string(), "foo bar\n");
    keys(&mut e, &[Key::Char('i'), Key::Char('x'), Key::Enter, Key::Esc]);
    assert_eq!(e.buffer.to_string(), "x\nfoo bar\n");
    e.handle_key(Key::Char('u'));
    assert_eq!(e.buffer.to_string(), "xfoo bar\n");
    assert_eq!(e.state.cursor, Position { line: 1, col: 1 });
    e.handle_key(Key::Char('u'));
    assert_eq!(e.buffer.to_string(), "foo bar\n");
    assert_eq!(e.state.cursor, Position { line: 1, col: 0 });
    let acts = e.handle_key(Key::Char('u'));
    assert_eq!(acts.len(), 1);
    assert_eq!(e.buffer.to_string(), "foo bar\n");
}

#[test]
fn u_after_register_prefix_names_register() {
    let mut e = editor("abc\n");
    keys(&mut e, &[Key::Char('"'), Key::Char('u'), Key::Char('y'), Key::Char('y')]);
    assert_eq!(e.register.get('u'), "abc\n");
    assert_eq!(e.buffer.to_string(), "abc\n");
}

#[test]
fn backspace_join_is_undone() {
    let mut e = editor("ab\ncd\n");
    keys(&mut e, &[Key::Char('j'), Key::Char('i'), Key::Backspace, Key::Backspace, Key::Esc]);
    assert_eq!(e.buffer.to_string(), "acd\n");
    e.handle_key(Key::Char('u'));
    assert_eq!(e.buffer.to_string(), "abcd\n");
    e.handle_key(Key::Char('u'));
    assert_eq!(e.buffer.to_string(), "ab\ncd\n");
    assert_eq!(e.state.cursor, Position { line: 2, col: 0 });
}

fn emacs_keys(e: &mut Editor, km: &mut EmacsKeymap, ks: &[char]) {
    for k in ks {
        for cmd in km.handle_key(Key::Char(*k), true) {
            assert!(e.command_allowed(cmd));
            for act in e.run_command(cmd) {
                if let Action::Save { quit } = act {
                    let saved = e.buffer.save_request().is_ok();
                    e.finish_save(saved, quit);
                }
            }
        }
    }
}

#[test]
fn emacs_input_flow_and_boundaries() {
    let mut e = editor("abc\nxyz");
    let mut km = EmacsKeymap::new();
    emacs_keys(&mut e, &mut km, &['f', 'f', 'b', 'n', 'p', 'x', 's', 'k', '/']);
    assert_eq!(e.buffer.to_string(), "abc\nxyz");
    assert_eq!(e.state.cursor, Position { line: 1, col: 1 });
    assert_eq!(e.state.mode, Mode::Normal);

    let mut e = editor("x");
    emacs_keys(&mut e, &mut km, &['b', 'f', 'f', 'd']);
    assert_eq!(e.buffer.to_string(), "");
    assert_eq!(e.state.cursor, Position { line: 1, col: 0 });
    assert_eq!(e.state.mode, Mode::Normal);
}

#[test]
fn emacs_kill_line_and_yank() {
    let mut e = editor("abc\nxyz\n");
    let mut km = EmacsKeymap::new();
    emacs_keys(&mut e, &mut km, &['f', 'k']);
    assert_eq!(e.buffer.to_string(), "a\nxyz\n");
    assert_eq!(e.register.get('"'), "bc");
    emacs_keys(&mut e, &mut km, &['k']);
    assert_eq!(e.buffer.to_string(), "axyz\n");
    assert_eq!(e.register.get('"'), "\n");
    emacs_keys(&mut e, &mut km, &['/', '/']);
    assert_eq!(e.buffer.to_string(), "abc\nxyz\n");
    emacs_keys(&mut e, &mut km, &['e']);
    assert_eq!(e.state.cursor, Position { line: 1, col: 3 });
    emacs_keys(&mut e, &mut km, &['a']);
    assert_eq!(e.state.cursor, Position { line: 1, col: 0 });
    let acts = e.run_command(KeyCommand::InsertChar('z'));
    assert!(matches!(acts[0], Action::Emit(PluginEvent::BufferChange)));
    assert_eq!(e.buffer.to_string(), "zabc\nxyz\n");
    e.run_command(KeyCommand::Quit);
    assert!(!e.running);
}

#[test]
fn paste_is_undone() {
    let mut e = editor("abc\n");
    keys(&mut e, &[Key::Char('i'), Key::Char('x'), Key::Esc]);
    keys(&mut e, &[Key::Char('y'), Key::Char('y'), Key::Char('p')]);
    assert_eq!(e.buffer.to_string(), "xabc\nxabc\n");
    e.handle_key(Key::Char('u'));
    assert_eq!(e.buffer.to_string(), "xabc\n");
    assert_eq!(e.state.cursor, Position { line: 1, col: 0 });
    e.handle_key(Key::Char('u'));
    assert_eq!(e.buffer.to_string(), "abc\n");
    let mut w = editor("xy z\n");
    keys(&mut w, &[Key::Char('y'), Key::Char('w'), Key::Char('p'), Key::Char('u')]);
    assert_eq!(w.buffer.to_string(), "xy z\n");
    let mut end = editor("ab\n");
    keys(&mut end, &[Key::Char('y'), Key::Char('y'), Key::Char('j'), Key::Char('p')]);
    assert_eq!(end.buffer.to_string(), "ab\nab\n");
    end.handle_key(Key::Char('u'));
    assert_eq!(end.buffer.to_string(), "ab\n");
    assert_eq!(end.state.cursor, Position { line: 2, col: 0 });
}

#[test]
fn u_restores_a_later_deleted_line() {
    let mut e = editor("a\nb\nc\n");
    keys(&mut e, &[Key::Char('j'), Key::Char('d'), Key::Char('d')]);
    assert_eq!(e.buffer.to_string(), "a\nc\n");
    e.handle_key(Key::Char('u'));
    assert_eq!(e.buffer.to_string(), "a\nb\nc\n");
    assert_eq!(e.state.cursor, Position { line: 2, col: 0 });
    let mut last = editor("a\nb");
    keys(&mut last, &[Key::Char('j'), Key::Char('d'), Key::Char('d'), Key::Char('u')]);
    assert_eq!(last.buffer.to_string(), "a\nb");
}

#[test]
fn emacs_transpose_chars() {
    let mut e = editor("abc\n");
    let mut km = EmacsKeymap::new();
    emacs_keys(&mut e, &mut km, &['f', 't']);
    assert_eq!(e.buffer.to_string(), "bac\n");
    assert_eq!(e.state.cursor, Position { line: 1, col: 2 });
    emacs_keys(&mut e, &mut km, &['/']);
    assert_eq!(e.buffer.to_string(), "abc\n");
    assert_eq!(e.state.cursor, Position { line: 1, col: 1 });
    let mut start = editor("abc\n");
    emacs_keys(&mut start, &mut km, &['t']);
    assert_eq!(start.buffer.to_string(), "abc\n");
    let mut end = editor("ab\n");
    end.state.cursor = Position { line: 1, col: 2 };
    emacs_keys(&mut end, &mut km, &['t']);
    assert_eq!(end.buffer.to_string(), "ab\n");
}

#[test]
fn emacs_screen_commands_and_paging() {
    let mut e = editor("1\n2\n3\n4\n5\n6\n");
    e.set_page_rows(2);
    assert!(e.run_command(KeyCommand::ScrollDown).is_empty());
    assert_eq!(e.state.cursor.line, 3);
    e.run_command(KeyCommand::ScrollDown);
    e.run_command(KeyCommand::ScrollDown);
    assert_eq!(e.state.cursor.line, 7);
    e.run_command(KeyCommand::ScrollUp);
    assert_eq!(e.state.cursor.line, 5);
    e.run_command(KeyCommand::ScrollUp);
    e.run_command(KeyCommand::ScrollUp);
    assert_eq!(e.state.cursor.line, 1);
    let acts = e.run_command(KeyCommand::ClearScreen);
    assert!(matches!(acts[0], Action::View(ViewChange::Clear)));
    let acts = e.run_command(KeyCommand::ScrollCursorToCenter);
    assert!(matches!(acts[0], Action::View(ViewChange::CenterCursor)));
    let acts = e.run_command(KeyCommand::ScrollUpOne);
    assert!(matches!(acts[0], Action::View(ViewChange::UpOne)));
    e.handle_key(Key::Char('"'));
    assert!(e.pending_register.is_some());
    e.run_command(KeyCommand::Abort);
    assert!(e.pending_register.is_none());
    e.handle_key(Key::Char('y'));
    assert!(e.pending_operator.is_some());
    e.run_command(KeyCommand::Abort);
    assert!(e.pending_operator.is_none());
}
