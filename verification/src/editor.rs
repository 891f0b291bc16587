use vstd::prelude::*;
use crate::keymap::KeyCommand;
use crate::buffer::{
    lemma_cut_then_insert,
    bumped, char_range, clamped_pos, line_bounds, cut, delete_pos, insert_pos, line_range, line_text, pred, word_at,
    word_end, TextBuffer,
};
use crate::lines::{is_break_char, is_line_break, lemma_lines, line_end, line_of, line_start, num_lines};
use crate::register::{lower, sent_after, Register};
use crate::text::{
    chars_to_string, has_char, lines_of, scan_lines, push_all, same_chars, split_lines, str_chars, trim_chars,
    trimmed,
};
use crate::types::{ViewChange, EditorState, Macros, Marks, Mode, PluginEvent, Position, VisualType};
use crate::undo::{
    buf_state, byte_len, pushed, st_delete_line, st_insert, st_merge, st_remove, undo_ok, undo_state,
    BufState, Edit, EditType, UndoManager,
};

verus! {

/// A key, as the editor tells keys apart.
#[derive(Debug, Clone, Copy, PartialEq, Eq, Structural)]
pub enum Key {
    Char(char),
    Esc,
    Enter,
    Backspace,
    Delete,
    Tab,
    Up,
    Down,
    Left,
    Right,
    Home,
    End,
    PageUp,
    PageDown,
    Other,
}

/// What the editor asks of the world around it after a key.
pub enum Action {
    /// Tell the plugins of `event`.
    Emit(PluginEvent),
    /// Write the buffer to its file, then report with `finish_save`; quit
    /// afterwards when the write succeeds and `quit` is set.
    Save { quit: bool },
    /// Let the plugins run the command; one that nothing knows is reported
    /// as unknown.
    RunCommand(String),
    /// Change what the screen shows.
    View(ViewChange),
}

/// The state of the editor that keys change: the buffer, the registers, the
/// mode and cursor, and what a key sequence has begun.
pub struct Editor {
    pub buffer: TextBuffer,
    pub register: Register,
    pub state: EditorState,
    pub running: bool,
    pub last_highlight_mod_count: usize,
    pub needs_render: bool,
    pub pending_operator: Option<char>,
    pub pending_register: Option<char>,
    pub undo: UndoManager,
    /// How many lines PageUp and PageDown move the cursor.
    pub page_rows: usize,
}

/// `n`'s undo stack is `o`'s with `e` pushed, its redo stack emptied.
pub open spec fn records(o: Editor, n: Editor, e: Edit) -> bool {
    &&& n.undo.undos() == pushed(o.undo.undos(), e, o.undo.max())
    &&& n.undo.redos() == Seq::<Edit>::empty()
    &&& n.undo.max() == o.undo.max()
}

/// The edit `n` pushed last.
pub open spec fn last_edit(n: Editor) -> Edit {
    n.undo.undos().last()
}

/// An edit from cursor `before` to cursor `after`.
pub open spec fn edit_between(e: Edit, before: Position, after: Position) -> bool {
    e.cursor_before == before && e.cursor_after == after
}

/// A line's text without one final '\n'.
pub open spec fn without_lf(l: Seq<char>) -> Seq<char> {
    if l.len() > 0 && l.last() == '\n' {
        l.drop_last()
    } else {
        l
    }
}

/// The text is just one line break: the buffer holds a single empty line.
pub open spec fn lone_break(s: Seq<char>) -> bool {
    s == seq!['\n']
}

/// `n - 1`, or 0 for `n == 0`.
pub open spec fn dec(n: usize) -> usize {
    if n == 0 {
        0
    } else {
        (n - 1) as usize
    }
}

/// The smaller of two numbers.
pub open spec fn min_u(a: usize, b: usize) -> usize {
    if a <= b {
        a
    } else {
        b
    }
}

/// Number of bytes of line `line` (one-based) of the buffer, its line break
/// included (0 for a missing line).
pub open spec fn line_bytes(b: TextBuffer, line: usize) -> usize {
    byte_len(line_text(b@, line as int))
}

/// Column `col` kept on line `line`: at most the byte length of the line
/// less one.
pub open spec fn clamp_col(b: TextBuffer, line: usize, col: usize) -> usize {
    min_u(col, dec(line_bytes(b, line)))
}

/// A lower-case ASCII letter key.
pub open spec fn is_lower_key(key: Key) -> bool {
    key matches Key::Char(c) && 'a' <= c && c <= 'z'
}

/// The mode-change event for leaving `from` for `to`.
pub open spec fn mode_change(from: Mode, to: Mode) -> Action {
    Action::Emit(PluginEvent::ModeChange { from, to })
}

/// The cursor after `h`: one column left, not past column 0.
pub open spec fn moved_left(o: Editor) -> Position {
    Position { line: o.state.cursor.line, col: dec(o.state.cursor.col) }
}

/// The cursor after `l`: one column right, not past the last byte of the
/// line.
pub open spec fn moved_right(o: Editor) -> Position {
    Position {
        line: o.state.cursor.line,
        col: min_u(
            (o.state.cursor.col + 1) as usize,
            dec(line_bytes(o.buffer, o.state.cursor.line)),
        ),
    }
}

/// The cursor after `j`: one line down, not past the last line, with the
/// column kept on that line.
pub open spec fn moved_down(o: Editor) -> Position {
    let nl = num_lines(o.buffer@) as usize;
    let line = min_u((o.state.cursor.line + 1) as usize, nl);
    Position { line, col: clamp_col(o.buffer, line, o.state.cursor.col) }
}

/// The cursor after `k`: one line up, not above line 1, with the column
/// kept on that line.
pub open spec fn moved_up(o: Editor) -> Position {
    let line = if o.state.cursor.line <= 1 {
        1usize
    } else {
        (o.state.cursor.line - 1) as usize
    };
    Position { line, col: clamp_col(o.buffer, line, o.state.cursor.col) }
}

/// `n` is `o` with the cursor at `p` and a render asked for.
pub open spec fn cursor_moved(o: Editor, n: Editor, p: Position) -> bool {
    n == Editor { state: EditorState { cursor: p, ..o.state }, needs_render: true, ..o }
}

/// `n` holds register `name` set to `content`, as `Register::set` leaves it.
pub open spec fn reg_set(o: Register, n: Register, name: char, content: Seq<char>) -> bool {
    &&& n.view() == o.view().insert(lower(name), content)
    &&& n.default_name() == o.default_name()
    &&& n.has_clipboard() == o.has_clipboard()
    &&& n.sent() == sent_after(o, name, content)
}

/// `n` is `o` with register `name` set to `content` and a render asked for.
pub open spec fn yanked(o: Editor, n: Editor, name: char, content: Seq<char>) -> bool {
    &&& reg_set(o.register, n.register, name, content)
    &&& n == Editor { register: n.register, needs_render: true, ..o }
}

/// The line under the cursor (one-based), its line break included.
pub open spec fn cursor_line(o: Editor) -> Seq<char> {
    line_text(o.buffer@, o.state.cursor.line as int)
}

/// `yy`: the line under the cursor goes into register `r`.
pub open spec fn yank_line_post(o: Editor, n: Editor, r: char) -> bool {
    yanked(o, n, r, line_range(o.buffer@, o.state.cursor.line as int, o.state.cursor.line as int))
}

/// `yw`: the word around the cursor goes into register `r`.
pub open spec fn yank_word_post(o: Editor, n: Editor, r: char) -> bool {
    yanked(o, n, r, word_at(o.buffer@, o.state.cursor.line as int, o.state.cursor.col as int).0)
}

/// `ye`: the chars from the cursor to the end of its word go into register
/// `r`.
pub open spec fn yank_word_end_post(o: Editor, n: Editor, r: char) -> bool {
    let l = cursor_line(o);
    let c = o.state.cursor.col as int;
    yanked(o, n, r, l.subrange(c, word_end(l, c)))
}

/// `dd`: the line under the cursor is deleted into register `r`; the cursor
/// goes to the last line when it was past it, and its column is kept on its
/// line.  The deletion is recorded for undo as the line's text deleted at
/// its column 0.  A buffer holding a single empty line ("\n") keeps it.
pub open spec fn delete_line_post(o: Editor, n: Editor, r: char) -> bool {
    let line = o.state.cursor.line;
    let s = o.buffer@;
    let content = if 1 <= line <= num_lines(s) {
        line_of(s, line - 1)
    } else {
        Seq::empty()
    };
    let lc = num_lines(n.buffer@) as usize;
    let nline = if line > lc {
        if lc >= 1 {
            lc
        } else {
            1usize
        }
    } else {
        line
    };
    let deletes = 1 <= line <= num_lines(s) && line_end(s, line - 1) > line_start(s, line - 1)
        && !lone_break(s);
    &&& buf_state(n.buffer) == if lone_break(s) {
        buf_state(o.buffer)
    } else {
        st_delete_line(buf_state(o.buffer), line as int)
    }
    &&& n.buffer.path() == o.buffer.path()
    &&& reg_set(o.register, n.register, r, content)
    &&& if deletes {
        &&& records(o, n, last_edit(n))
        &&& last_edit(n).edit_type matches EditType::Delete { line: l, col, text } && l == line
            && col == 0 && text@ == content
        &&& edit_between(last_edit(n), o.state.cursor, n.state.cursor)
    } else {
        n.undo == o.undo
    }
    &&& n == Editor {
        undo: n.undo,
        buffer: n.buffer,
        register: n.register,
        state: EditorState {
            cursor: Position { line: nline, col: clamp_col(n.buffer, nline, o.state.cursor.col) },
            ..o.state
        },
        needs_render: true,
        ..o
    }
}

/// Where `dw` starts deleting: the start of the word in the text.
pub open spec fn word_pos(o: Editor) -> int {
    line_start(o.buffer@, o.state.cursor.line - 1) + word_at(
        o.buffer@,
        o.state.cursor.line as int,
        o.state.cursor.col as int,
    ).1
}

/// `dw` does not panic: for a non-empty word the cursor line is not 0 and
/// the word, counted from its start, stays in the text.
pub open spec fn delete_word_ok(o: Editor) -> bool {
    let w = word_at(o.buffer@, o.state.cursor.line as int, o.state.cursor.col as int).0;
    w.len() > 0 ==> o.state.cursor.line >= 1 && word_pos(o) + w.len() <= o.buffer@.len()
}

/// `dw`: a non-empty word around the cursor is deleted into register `r`
/// and recorded for undo.
pub open spec fn delete_word_post(o: Editor, n: Editor, r: char) -> bool {
    let w = word_at(o.buffer@, o.state.cursor.line as int, o.state.cursor.col as int).0;
    if w.len() > 0 {
        &&& buf_state(n.buffer) == st_remove(buf_state(o.buffer), word_pos(o), word_pos(o) + w.len())
        &&& n.buffer.path() == o.buffer.path()
        &&& reg_set(o.register, n.register, r, w)
        &&& records(o, n, last_edit(n))
        &&& last_edit(n).edit_type matches EditType::Delete { line, col, text } && line
            == o.state.cursor.line && col == word_at(
            o.buffer@,
            o.state.cursor.line as int,
            o.state.cursor.col as int,
        ).1 && text@ == w
        &&& edit_between(last_edit(n), o.state.cursor, o.state.cursor)
        &&& n == Editor {
            undo: n.undo,
            buffer: n.buffer,
            register: n.register,
            needs_render: true,
            ..o
        }
    } else {
        n == Editor { needs_render: true, ..o }
    }
}

/// The text of the default register, which `p` and `P` paste.
pub open spec fn paste_text(o: Editor) -> Seq<char> {
    o.register.content(o.register.default_name())
}

/// A register text that `p` and `P` paste line-wise: it ends in a LF.
pub open spec fn linewise(c: Seq<char>) -> bool {
    c.len() > 0 && c.last() == '\n'
}

/// Where `p` (after) or `P` (before) puts the default register: the line
/// and column handed to `insert`, and the text inserted.  A line-wise text
/// goes in as whole lines at the start of the line after the cursor line
/// (`p`) or of the cursor line (`P`); `p` on a last line without a line
/// break first ends that line.  Other text goes in at the cursor column
/// (`P`) or just after it (`p`).
pub open spec fn paste_plan(o: Editor, before: bool) -> (int, int, Seq<char>) {
    let c = paste_text(o);
    let s = o.buffer@;
    let k = pred(o.state.cursor.line as int);
    if linewise(c) {
        if before {
            (k + 1, 0, c)
        } else if k + 1 == num_lines(s) && s.len() > 0 && !is_break_char(s.last()) {
            (k + 2, 0, seq!['\n'] + c)
        } else {
            (k + 2, 0, c)
        }
    } else if before {
        (o.state.cursor.line as int, o.state.cursor.col as int, c)
    } else {
        (o.state.cursor.line as int, o.state.cursor.col + 1, c)
    }
}

/// Where the cursor goes after a paste: to column 0 of the first pasted
/// line for a line-wise text; for other text with line breaks to the last
/// pasted line, after its last byte; otherwise it stays for `P` and goes
/// past the pasted bytes for `p`.
pub open spec fn paste_cursor(o: Editor, before: bool) -> Position {
    let c = paste_text(o);
    let line = o.state.cursor.line;
    let col = o.state.cursor.col;
    if linewise(c) {
        Position { line: paste_plan(o, before).0 as usize, col: 0 }
    } else if c.contains('\n') {
        let ls = lines_of(c);
        Position { line: (line + ls.len() - 1) as usize, col: byte_len(ls.last()) }
    } else if before {
        o.state.cursor
    } else {
        Position { line, col: (col + 1 + byte_len(c)) as usize }
    }
}

/// A text that does not end in a LF has a last line.
proof fn lemma_last_line(c: Seq<char>)
    requires
        c.len() > 0,
        c.last() != '\n',
    ensures
        lines_of(c).len() > 0,
{
    let (done, cur) = scan_lines(c, c.len() as int);
    assert(cur.len() > 0);
}

/// Pasting does not overflow the cursor arithmetic.
pub open spec fn paste_ok(o: Editor, before: bool) -> bool {
    let c = paste_text(o);
    let line = o.state.cursor.line;
    let col = o.state.cursor.col;
    if linewise(c) {
        !before ==> line < usize::MAX
    } else {
        &&& !before ==> col < usize::MAX
        &&& c.contains('\n') ==> line + lines_of(c).len() <= usize::MAX + 1
        &&& !c.contains('\n') && !before ==> col + 1 + byte_len(c) <= usize::MAX
    }
}

/// The line (one-based) on which `insert(l, ..)` puts its text: line `l`,
/// or the last line for the line just past it.
pub open spec fn landing_line(s: Seq<char>, l: int) -> int {
    if pred(l) < num_lines(s) {
        pred(l) + 1
    } else {
        num_lines(s) as int
    }
}

/// `p` (after the cursor) and `P` (before it): the default register is
/// inserted as `paste_plan` says, the cursor goes where `paste_cursor`
/// says, the insertion is recorded for undo (at the line and column where
/// it went)
/// and the plugins are told the buffer changed.  Nothing happens for an
/// empty register.
#[verifier::opaque]
pub open spec fn paste_post(o: Editor, n: Editor, before: bool, acts: Seq<Action>) -> bool {
    let c = paste_text(o);
    let s = o.buffer@;
    if c.len() == 0 {
        n == o && acts == Seq::<Action>::empty()
    } else {
        let (l, c0, t) = paste_plan(o, before);
        &&& buf_state(n.buffer) == st_insert(buf_state(o.buffer), l, c0, t)
        &&& n.buffer.path() == o.buffer.path()
        &&& match insert_pos(s, l, c0) {
            Some(i) => {
                &&& records(o, n, last_edit(n))
                &&& last_edit(n).edit_type matches EditType::Insert { line, col, text } && line
                    == landing_line(s, l) && col == i - line_start(s, landing_line(s, l) - 1) && text@ == t
                &&& edit_between(last_edit(n), o.state.cursor, n.state.cursor)
            },
            None => n.undo == o.undo,
        }
        &&& n == Editor {
            buffer: n.buffer,
            undo: n.undo,
            state: EditorState { cursor: paste_cursor(o, before), ..o.state },
            needs_render: true,
            ..o
        }
        &&& acts == seq![Action::Emit(PluginEvent::BufferChange)]
    }
}

/// An operator key sequence does not panic: `ye` needs the cursor column
/// inside its line, `dw` what `delete_word_ok` says.
pub open spec fn operator_ok(o: Editor, op: char, key: Key) -> bool {
    &&& (op == 'y' && key == Key::Char('e')) ==> o.state.cursor.col <= cursor_line(o).len()
    &&& (op == 'd' && key == Key::Char('w')) ==> delete_word_ok(o)
}

/// The second key of an operator: `yy`, `yw`, `ye`, `dd`, `dw` act on the
/// register named before the operator (the unnamed register '"' when none
/// was); any other key only ends the operator.
pub open spec fn operator_post(o: Editor, n: Editor, op: char, key: Key, acts: Seq<Action>) -> bool {
    let r = match o.pending_register {
        Some(r) => r,
        None => '"',
    };
    let o1 = Editor { pending_operator: None, pending_register: None, ..o };
    &&& acts == Seq::<Action>::empty()
    &&& if op == 'y' && key == Key::Char('y') {
        yank_line_post(o1, n, r)
    } else if op == 'y' && key == Key::Char('w') {
        yank_word_post(o1, n, r)
    } else if op == 'y' && key == Key::Char('e') {
        yank_word_end_post(o1, n, r)
    } else if op == 'd' && key == Key::Char('d') {
        delete_line_post(o1, n, r)
    } else if op == 'd' && key == Key::Char('w') {
        delete_word_post(o1, n, r)
    } else {
        n == o1
    }
}

/// A key in normal mode does not panic or overflow.
pub open spec fn normal_ok(o: Editor, key: Key) -> bool {
    match o.pending_operator {
        Some(op) => operator_ok(o, op, key),
        None => match key {
            Key::Char('l') => o.state.cursor.col < usize::MAX,
            Key::Char('j') => o.state.cursor.line < usize::MAX,
            Key::Char('p') => paste_ok(o, false),
            Key::Char('P') => paste_ok(o, true),
            Key::Char('u') => o.pending_register is None && o.undo.undos().len() > 0 ==> undo_ok(
                o.undo.undos().last().edit_type,
                o.buffer@,
            ),
            _ => true,
        },
    }
}

/// `u`: the last edit recorded is undone and the cursor goes back to where
/// it was before that edit; nothing when there is none.
pub open spec fn undo_post(o: Editor, n: Editor, acts: Seq<Action>) -> bool {
    if o.undo.undos().len() == 0 {
        n == o && acts.len() == 0
    } else {
        let e = o.undo.undos().last();
        &&& buf_state(n.buffer) == undo_state(e.edit_type, buf_state(o.buffer))
        &&& n.buffer.path() == o.buffer.path()
        &&& n.undo.undos() == o.undo.undos().drop_last()
        &&& n.undo.redos() == o.undo.redos().push(e)
        &&& n.undo.max() == o.undo.max()
        &&& n == Editor {
            buffer: n.buffer,
            undo: n.undo,
            state: EditorState { cursor: e.cursor_before, ..o.state },
            needs_render: true,
            ..o
        }
        &&& acts == seq![Action::Emit(PluginEvent::BufferChange)]
    }
}

/// `n` is `o` switched to `mode` with a render asked for.
pub open spec fn switched(o: Editor, n: Editor, mode: Mode) -> bool {
    n == Editor { state: EditorState { mode, ..o.state }, needs_render: true, ..o }
}

/// A key in normal mode.  With an operator pending the key completes it
/// (`operator_post`).  Otherwise `h`, `l`, `j`, `k` move the cursor; `i`,
/// `:`, `v`, `V` enter insert, command and visual modes (`:` with an empty
/// command line, `v`/`V` with the selection starting at the cursor); `y`
/// and `d` begin an operator, or, right after a register name, yank or
/// delete the cursor line into that register; `p` and `P` paste; `"` begins
/// a register name, which the next lower-case letter sets.  A lower-case key
/// ends a register name begun before it, and any other key drops it.
pub open spec fn normal_post(o: Editor, n: Editor, key: Key, acts: Seq<Action>) -> bool {
    let pr0 = o.pending_register;
    let cleared = Editor { pending_register: None, ..o };
    let both_cleared = Editor { pending_register: None, pending_operator: None, ..o };
    match o.pending_operator {
        Some(op) => operator_post(o, n, op, key, acts),
        None => match key {
            Key::Char('h') => acts.len() == 0 && cursor_moved(cleared, n, moved_left(o)),
            Key::Char('l') => acts.len() == 0 && cursor_moved(cleared, n, moved_right(o)),
            Key::Char('j') => acts.len() == 0 && cursor_moved(cleared, n, moved_down(o)),
            Key::Char('k') => acts.len() == 0 && cursor_moved(cleared, n, moved_up(o)),
            Key::Char('i') => switched(cleared, n, Mode::Insert) && acts == seq![
                mode_change(o.state.mode, Mode::Insert),
            ],
            Key::Char(':') => {
                &&& n.state.command_buffer@ == Seq::<char>::empty()
                &&& n == Editor {
                    state: EditorState {
                        mode: Mode::Command,
                        command_buffer: n.state.command_buffer,
                        ..o.state
                    },
                    needs_render: true,
                    ..o
                }
                &&& acts == seq![mode_change(o.state.mode, Mode::Command)]
            },
            Key::Char('v') => {
                &&& n == Editor {
                    state: EditorState {
                        mode: Mode::Visual,
                        visual_start: Some(o.state.cursor),
                        visual_type: Some(VisualType::Character),
                        ..o.state
                    },
                    needs_render: true,
                    ..cleared
                }
                &&& acts == seq![mode_change(o.state.mode, Mode::Visual)]
            },
            Key::Char('V') => {
                &&& n == Editor {
                    state: EditorState {
                        mode: Mode::Visual,
                        visual_start: Some(o.state.cursor),
                        visual_type: Some(VisualType::Line),
                        ..o.state
                    },
                    needs_render: true,
                    ..o
                }
                &&& acts == seq![mode_change(o.state.mode, Mode::Visual)]
            },
            Key::Char('y') => acts.len() == 0 && match pr0 {
                Some(r) => yank_line_post(both_cleared, n, r),
                None => n == Editor { pending_operator: Some('y'), ..o },
            },
            Key::Char('d') => acts.len() == 0 && match pr0 {
                Some(r) => delete_line_post(both_cleared, n, r),
                None => n == Editor { pending_operator: Some('d'), ..o },
            },
            Key::Char('p') => paste_post(cleared, n, false, acts),
            Key::Char('P') => paste_post(o, n, true, acts),
            Key::Char('u') => if pr0 is None {
                undo_post(o, n, acts)
            } else {
                acts.len() == 0 && n == Editor { pending_register: Some('u'), ..o }
            },
            Key::Char('"') => acts.len() == 0 && n == Editor { pending_register: Some('"'), ..o },
            _ => acts.len() == 0 && n == Editor {
                pending_register: if pr0 is Some && is_lower_key(key) {
                    Some(key->Char_0)
                } else {
                    None
                },
                ..o
            },
        },
    }
}

/// The state after `delete(line, col)`.
pub open spec fn st_delete(st: BufState, line: int, col: int) -> BufState {
    match delete_pos(st.0, line, col) {
        Some(i) => (cut(st.0, i, i + 1), true, bumped(st.2)),
        None => st,
    }
}

/// What `merge_with_prev_line(line)` gives: the length of the line before,
/// its line break left out.
pub open spec fn merge_col(s: Seq<char>, line: int) -> int {
    if 2 <= line <= num_lines(s) {
        line_start(s, line - 1) - line_start(s, line - 2) - 1
    } else {
        0
    }
}

/// A key in insert mode does not overflow.
pub open spec fn insert_ok(o: Editor, key: Key) -> bool {
    match key {
        Key::Enter => o.state.cursor.line < usize::MAX,
        Key::Char(_) => o.state.cursor.col < usize::MAX,
        _ => true,
    }
}

/// `n` is `o` with the buffer in state `st`, the cursor at `p`, a render
/// asked for.
pub open spec fn edited(o: Editor, n: Editor, st: BufState, p: Position) -> bool {
    &&& buf_state(n.buffer) == st
    &&& n.buffer.path() == o.buffer.path()
    &&& n == Editor {
        buffer: n.buffer,
        undo: n.undo,
        state: EditorState { cursor: p, ..o.state },
        needs_render: true,
        ..o
    }
}

/// The edit recorded for a key in insert mode: what the key changed, with
/// the cursor before and after it (a line joined by Backspace as the line
/// break deleted at the end of the line before); nothing when the text did
/// not change.
pub open spec fn insert_recorded(o: Editor, n: Editor, key: Key) -> bool {
    let line = o.state.cursor.line;
    let col = o.state.cursor.col;
    let s = o.buffer@;
    let e = last_edit(n);
    let changes = match key {
        Key::Backspace => if col > 0 {
            delete_pos(s, line as int, col - 1) is Some
        } else {
            1 < line <= num_lines(s)
        },
        Key::Enter => insert_pos(s, line as int, col as int) is Some,
        Key::Char(_) => insert_pos(s, line as int, col as int) is Some,
        _ => false,
    };
    if changes {
        &&& records(o, n, e)
        &&& edit_between(e, o.state.cursor, n.state.cursor)
        &&& match key {
            Key::Backspace => if col > 0 {
                e.edit_type matches EditType::Delete { line: l, col: c, text } && l == line && c
                    == col - 1 && text@ == seq![s[delete_pos(s, line as int, col - 1)->0]]
            } else {
                e.edit_type matches EditType::Delete { line: l, col: c, text } && l == line - 1 && c
                    == merge_col(s, line as int) && text@ == seq![s[line_start(s, line - 1) - 1]]
            },
            Key::Enter => e.edit_type matches EditType::Split { line: l, col: c } && l == landing_line(
                s,
                line as int,
            ) && c == insert_pos(s, line as int, col as int)->0 - line_start(s, landing_line(s, line as int) - 1),
            Key::Char(ch) => e.edit_type matches EditType::Insert { line: l, col: c, text } && l
                == landing_line(s, line as int) && c == insert_pos(s, line as int, col as int)->0 - line_start(
                s,
                landing_line(s, line as int) - 1,
            ) && text@ == seq![ch],
            _ => true,
        }
    } else {
        n.undo == o.undo
    }
}

/// A key in insert mode: Esc goes back to normal mode one column left;
/// Backspace deletes the char before the cursor, or at column 0 joins the
/// line to the one before; Enter breaks the line at the cursor; a char is
/// inserted at the cursor.  Each change is told to the plugins and recorded
/// for undo (`insert_recorded`).
pub open spec fn insert_post(o: Editor, n: Editor, key: Key, acts: Seq<Action>) -> bool {
    insert_effect(o, n, key, acts) && insert_recorded(o, n, key)
}

/// What a key in insert mode does to the text, the cursor and the mode.
pub open spec fn insert_effect(o: Editor, n: Editor, key: Key, acts: Seq<Action>) -> bool {
    let line = o.state.cursor.line;
    let col = o.state.cursor.col;
    let st = buf_state(o.buffer);
    let changed = seq![Action::Emit(PluginEvent::BufferChange)];
    match key {
        Key::Esc => {
            &&& n == Editor {
                state: EditorState {
                    mode: Mode::Normal,
                    cursor: Position { line, col: dec(col) },
                    ..o.state
                },
                needs_render: true,
                ..o
            }
            &&& acts == seq![mode_change(o.state.mode, Mode::Normal)]
        },
        Key::Backspace => if col > 0 {
            edited(o, n, st_delete(st, line as int, col - 1), Position { line, col: (col - 1) as usize })
                && acts == changed
        } else if line > 1 {
            edited(
                o,
                n,
                st_merge(st, line as int),
                Position { line: (line - 1) as usize, col: merge_col(o.buffer@, line as int) as usize },
            ) && acts == changed
        } else {
            n == o && acts.len() == 0
        },
        Key::Enter => edited(
            o,
            n,
            st_insert(st, line as int, col as int, seq!['\n']),
            Position { line: (line + 1) as usize, col: 0 },
        ) && acts == changed,
        Key::Char(c) => edited(
            o,
            n,
            st_insert(st, line as int, col as int, seq![c]),
            Position { line, col: (col + 1) as usize },
        ) && acts == changed,
        _ => n == o && acts.len() == 0,
    }
}

/// A selection from `start` to `end` as first line, first column, last line
/// and the column just past the last char, whichever of the two comes
/// first in the text.
pub open spec fn normalized(start: Position, end: Position) -> (int, int, int, int) {
    if start.line < end.line || (start.line == end.line && start.col <= end.col) {
        (start.line as int, start.col as int, end.line as int, end.col + 1)
    } else {
        (end.line as int, end.col as int, start.line as int, start.col + 1)
    }
}

/// The smaller and the larger of two line numbers.
pub open spec fn line_span(a: usize, b: usize) -> (int, int) {
    if a <= b {
        (a as int, b as int)
    } else {
        (b as int, a as int)
    }
}

/// The text a visual selection covers, when there is one.
pub open spec fn selection_text(o: Editor) -> Option<Seq<char>> {
    match (o.state.visual_start, o.state.visual_type) {
        (Some(start), Some(VisualType::Character)) => {
            let (sl, sc, el, ec) = normalized(start, o.state.cursor);
            Some(char_range(o.buffer@, sl, sc, el, ec))
        },
        (Some(start), Some(VisualType::Line)) => {
            let (sl, el) = line_span(start.line, o.state.cursor.line);
            Some(line_range(o.buffer@, sl, el))
        },
        _ => None,
    }
}

/// What deleting the visual selection cuts, when there is a selection: the
/// char range `a..b` of the text (the char selection, or the whole lines of
/// a line selection) and the first line of the selection.
pub open spec fn selection_cut(o: Editor) -> Option<(int, int, int)> {
    let s = o.buffer@;
    match (o.state.visual_start, o.state.visual_type) {
        (Some(start), Some(VisualType::Character)) => {
            let (sl, sc, el, ec) = normalized(start, o.state.cursor);
            Some((clamped_pos(s, pred(sl), sc), clamped_pos(s, pred(el), ec), sl))
        },
        (Some(start), Some(VisualType::Line)) => {
            let (sl, el) = line_span(start.line, o.state.cursor.line);
            let (a, b) = line_bounds(s, sl, el);
            Some((a, b, sl))
        },
        _ => None,
    }
}

/// Taking the selection does not overflow.
pub open spec fn selection_ok(o: Editor) -> bool {
    match (o.state.visual_start, o.state.visual_type) {
        (Some(start), Some(VisualType::Character)) => normalized(start, o.state.cursor).3 <= usize::MAX,
        _ => true,
    }
}

/// A key in visual mode does not panic or overflow.
pub open spec fn visual_ok(o: Editor, key: Key) -> bool {
    match key {
        Key::Char('y') => selection_ok(o),
        Key::Char('d') => selection_ok(o),
        Key::Char('l') => o.state.cursor.col < usize::MAX,
        Key::Char('j') => o.state.cursor.line < usize::MAX,
        _ => true,
    }
}

/// `m` back in normal mode without a selection, a render asked for.
pub open spec fn left_visual(m: Editor) -> Editor {
    Editor {
        state: EditorState { mode: Mode::Normal, visual_start: None, visual_type: None, ..m.state },
        needs_render: true,
        ..m
    }
}

/// A key in visual mode: Esc leaves it; `y` yanks the selection into the
/// unnamed register and leaves it; `d` deletes the selection into the
/// unnamed register (telling the plugins, and forgetting the edits
/// recorded for undo) and leaves it; `h`, `l`, `j`, `k` move the cursor.
pub open spec fn visual_post(o: Editor, n: Editor, key: Key, acts: Seq<Action>) -> bool {
    let leave = mode_change(o.state.mode, Mode::Normal);
    match key {
        Key::Esc => n == left_visual(o) && acts == seq![leave],
        Key::Char('y') => {
            &&& match selection_text(o) {
                Some(c) => reg_set(o.register, n.register, '"', c),
                None => n.register == o.register,
            }
            &&& n == left_visual(Editor { register: n.register, ..o })
            &&& acts == seq![leave]
        },
        Key::Char('d') => match selection_cut(o) {
            Some((a, b, line)) => {
                let s = o.buffer@;
                &&& reg_set(o.register, n.register, '"', if a < b { s.subrange(a, b) } else { Seq::empty() })
                &&& acts == seq![Action::Emit(PluginEvent::BufferChange), leave]
                &&& if a < b {
                    &&& buf_state(n.buffer) == st_remove(buf_state(o.buffer), a, b)
                    &&& n.buffer.path() == o.buffer.path()
                    &&& records(o, n, last_edit(n))
                    &&& last_edit(n).edit_type matches EditType::Delete { line: l, col, text } && l
                        == line && col == a - line_start(s, pred(line)) && text@ == s.subrange(a, b)
                    &&& edit_between(last_edit(n), o.state.cursor, o.state.cursor)
                    &&& n == left_visual(Editor { buffer: n.buffer, register: n.register, undo: n.undo, ..o })
                } else {
                    n == left_visual(Editor { register: n.register, ..o })
                }
            },
            None => n == left_visual(o) && acts == seq![leave],
        },
        Key::Char('h') => acts.len() == 0 && cursor_moved(o, n, moved_left(o)),
        Key::Char('l') => acts.len() == 0 && cursor_moved(o, n, moved_right(o)),
        Key::Char('j') => acts.len() == 0 && cursor_moved(o, n, moved_down(o)),
        Key::Char('k') => acts.len() == 0 && cursor_moved(o, n, moved_up(o)),
        _ => n == o && acts.len() == 0,
    }
}

/// A key in command mode: Enter runs the trimmed command line (`q` quits,
/// `w` saves, `wq` saves and then quits, anything else goes to the
/// plugins) after going back to normal mode; Esc drops the command line and
/// goes back to normal mode; Backspace deletes its last char; a char is
/// appended to it.
pub open spec fn command_post(o: Editor, n: Editor, key: Key, acts: Seq<Action>) -> bool {
    let cb = o.state.command_buffer@;
    let back = mode_change(o.state.mode, Mode::Normal);
    let cleared_to_normal = n.state.command_buffer@ == Seq::<char>::empty() && n == Editor {
        state: EditorState {
            mode: Mode::Normal,
            command_buffer: n.state.command_buffer,
            ..o.state
        },
        needs_render: true,
        running: n.running,
        ..o
    };
    match key {
        Key::Enter => {
            let cmd = trimmed(cb);
            &&& cleared_to_normal
            &&& n.running == (o.running && cmd != "q"@)
            &&& acts.len() >= 1 && acts[0] == back
            &&& if cmd == "q"@ {
                acts.len() == 1
            } else if cmd == "w"@ {
                acts == seq![back, Action::Save { quit: false }]
            } else if cmd == "wq"@ {
                acts == seq![back, Action::Save { quit: true }]
            } else {
                &&& acts.len() == 2
                &&& (acts[1] matches Action::RunCommand(c) && c@ == cmd)
            }
        },
        Key::Esc => cleared_to_normal && n.running == o.running && acts == seq![back],
        Key::Backspace => {
            &&& n.state.command_buffer@ == if cb.len() > 0 {
                cb.drop_last()
            } else {
                cb
            }
            &&& n == Editor {
                state: EditorState { command_buffer: n.state.command_buffer, ..o.state },
                ..o
            }
            &&& acts.len() == 0
        },
        Key::Char(c) => {
            &&& n.state.command_buffer@ == cb.push(c)
            &&& n == Editor {
                state: EditorState { command_buffer: n.state.command_buffer, ..o.state },
                ..o
            }
            &&& acts.len() == 0
        },
        _ => n == o && acts.len() == 0,
    }
}

/// A key does not panic or overflow in the current mode.
pub open spec fn key_ok(o: Editor, key: Key) -> bool {
    match o.state.mode {
        Mode::Normal => normal_ok(o, key),
        Mode::Insert => insert_ok(o, key),
        Mode::Visual => visual_ok(o, key),
        Mode::Command => true,
    }
}

/// What a key does in the current mode.
pub open spec fn mode_post(o: Editor, n: Editor, key: Key, acts: Seq<Action>) -> bool {
    match o.state.mode {
        Mode::Normal => normal_post(o, n, key, acts),
        Mode::Insert => insert_post(o, n, key, acts),
        Mode::Visual => visual_post(o, n, key, acts),
        Mode::Command => command_post(o, n, key, acts),
    }
}

/// The event that tells the plugins of a char key, before it is handled.
pub open spec fn key_event(o: Editor, key: Key) -> Seq<Action> {
    match key {
        Key::Char(c) => seq![Action::Emit(PluginEvent::Key { mode: o.state.mode, key: c })],
        _ => Seq::empty(),
    }
}

/// Where `Ctrl-k` cuts, as char indices: from the cursor (no further than
/// the end of its line) to the end of the line's text before its LF, or,
/// with the cursor already there, the line break itself.  Empty for a
/// missing line.
pub open spec fn kill_range(o: Editor) -> (int, int) {
    let s = o.buffer@;
    let k = pred(o.state.cursor.line as int);
    if k >= num_lines(s) {
        (0, 0)
    } else {
        let ls = line_start(s, k);
        let l = line_of(s, k);
        let te = ls + without_lf(l).len();
        let a = ls + if o.state.cursor.col < l.len() {
            o.state.cursor.col as int
        } else {
            l.len() as int
        };
        if a < te {
            (a, te)
        } else {
            (a, line_end(s, k))
        }
    }
}

/// `Ctrl-k`: the text in `kill_range` is cut into the unnamed register and
/// recorded for undo; the cursor stays.  Nothing when the range is empty.
pub open spec fn kill_line_post(o: Editor, n: Editor, acts: Seq<Action>) -> bool {
    let (a, b) = kill_range(o);
    let s = o.buffer@;
    if a < b {
        &&& buf_state(n.buffer) == st_remove(buf_state(o.buffer), a, b)
        &&& n.buffer.path() == o.buffer.path()
        &&& reg_set(o.register, n.register, '"', s.subrange(a, b))
        &&& records(o, n, last_edit(n))
        &&& last_edit(n).edit_type matches EditType::Delete { line, col, text } && line
            == o.state.cursor.line && col == a - line_start(s, pred(o.state.cursor.line as int))
            && text@ == s.subrange(a, b)
        &&& edit_between(last_edit(n), o.state.cursor, o.state.cursor)
        &&& n == Editor { buffer: n.buffer, register: n.register, undo: n.undo, needs_render: true, ..o }
        &&& acts == seq![Action::Emit(PluginEvent::BufferChange)]
    } else {
        n == o && acts.len() == 0
    }
}

/// `Ctrl-d`: the char under the cursor is deleted and recorded for undo;
/// the cursor stays.
pub open spec fn delete_forward_post(o: Editor, n: Editor, acts: Seq<Action>) -> bool {
    let line = o.state.cursor.line;
    let col = o.state.cursor.col;
    let s = o.buffer@;
    &&& edited(o, n, st_delete(buf_state(o.buffer), line as int, col as int), o.state.cursor)
    &&& acts == seq![Action::Emit(PluginEvent::BufferChange)]
    &&& if delete_pos(s, line as int, col as int) is Some {
        &&& records(o, n, last_edit(n))
        &&& last_edit(n).edit_type matches EditType::Delete { line: l, col: c, text } && l == line
            && c == col && text@ == seq![s[delete_pos(s, line as int, col as int)->0]]
        &&& edit_between(last_edit(n), o.state.cursor, o.state.cursor)
    } else {
        n.undo == o.undo
    }
}

/// The cursor after PageUp: `page_rows` lines up, not above line 1, with
/// the column kept on that line.
pub open spec fn paged_up(o: Editor) -> Position {
    let line = if o.state.cursor.line > o.page_rows + 1 {
        (o.state.cursor.line - o.page_rows) as usize
    } else {
        1usize
    };
    Position { line, col: clamp_col(o.buffer, line, o.state.cursor.col) }
}

/// The cursor after PageDown: `page_rows` lines down, not past the last
/// line, with the column kept on that line.
pub open spec fn paged_down(o: Editor) -> Position {
    let nl = num_lines(o.buffer@);
    let line = if o.state.cursor.line + o.page_rows < nl {
        (o.state.cursor.line + o.page_rows) as usize
    } else {
        nl as usize
    };
    Position { line, col: clamp_col(o.buffer, line, o.state.cursor.col) }
}

/// The index of the char under the cursor when `Ctrl-t` can swap it with
/// the char before it: the cursor is past column 0 of an existing line and
/// on a char of that line that is not a line break.
pub open spec fn transpose_at(o: Editor) -> Option<int> {
    let s = o.buffer@;
    let k = pred(o.state.cursor.line as int);
    let i = line_start(s, k) + o.state.cursor.col;
    if o.state.cursor.col >= 1 && k < num_lines(s) && i < line_end(s, k) && !is_break_char(s[i]) {
        Some(i)
    } else {
        None
    }
}

/// `Ctrl-t`: the char under the cursor and the one before it change places,
/// the cursor moves one column right, and the change is recorded for undo
/// as a replacement of the two chars; nothing where `transpose_at` finds
/// no char.
pub open spec fn transpose_post(o: Editor, n: Editor, acts: Seq<Action>) -> bool {
    let s = o.buffer@;
    let line = o.state.cursor.line;
    let col = o.state.cursor.col;
    match transpose_at(o) {
        Some(i) => {
            &&& n.buffer@ == s.update(i - 1, s[i]).update(i, s[i - 1])
            &&& n.buffer.dirty_flag()
            &&& n.buffer.mod_count() == bumped(bumped(o.buffer.mod_count()))
            &&& n.buffer.path() == o.buffer.path()
            &&& records(o, n, last_edit(n))
            &&& last_edit(n).edit_type matches EditType::Replace { line: l, col: c, old_text, new_text } && l
                == line && c == col - 1 && old_text@ == seq![s[i - 1], s[i]] && new_text@ == seq![s[i], s[i - 1]]
            &&& edit_between(last_edit(n), o.state.cursor, n.state.cursor)
            &&& n == Editor {
                buffer: n.buffer,
                undo: n.undo,
                state: EditorState { cursor: Position { line, col: (col + 1) as usize }, ..o.state },
                needs_render: true,
                ..o
            }
            &&& acts == seq![Action::Emit(PluginEvent::BufferChange)]
        },
        None => n == o && acts.len() == 0,
    }
}

/// An Emacs command does not panic or overflow.
pub open spec fn emacs_ok(o: Editor, cmd: KeyCommand) -> bool {
    match cmd {
        KeyCommand::CursorRight => o.state.cursor.col < usize::MAX,
        KeyCommand::CursorDown => o.state.cursor.line < usize::MAX,
        KeyCommand::InsertChar(_) => o.state.cursor.col < usize::MAX,
        KeyCommand::InsertTab => o.state.cursor.col < usize::MAX,
        KeyCommand::InsertNewline => o.state.cursor.line < usize::MAX,
        KeyCommand::KillWord => delete_word_ok(o),
        KeyCommand::YankPop => paste_ok(o, true),
        KeyCommand::Undo => o.undo.undos().len() > 0 ==> undo_ok(
            o.undo.undos().last().edit_type,
            o.buffer@,
        ),
        KeyCommand::TransposeChars => o.state.cursor.col < usize::MAX,
        _ => true,
    }
}

/// What an Emacs command does to the editor.  Motions move the cursor as
/// `h`, `l`, `j`, `k` do, `Ctrl-a` to column 0 and `Ctrl-e` to the last
/// column of the line; insertions, Backspace and undo act as in insert
/// mode and as `u`; `Ctrl-d` deletes the char under the cursor, `Ctrl-k`
/// kills the rest of the line (`kill_line_post`), `Ctrl-w` kills the word
/// as `dw` does and `Ctrl-y` puts the unnamed register back before the
/// cursor as `P` does; `Ctrl-t` swaps two chars (`transpose_post`);
/// PageUp and PageDown move the cursor by `page_rows` lines; saving,
/// quitting, telling the plugins of a key, and clearing or scrolling the
/// screen (`Ctrl-l`, `Ctrl-v`) go out as actions; `Ctrl-g` drops an
/// operator or register name begun.
pub open spec fn emacs_post(o: Editor, n: Editor, cmd: KeyCommand, acts: Seq<Action>) -> bool {
    let line = o.state.cursor.line;
    match cmd {
        KeyCommand::RequestSave => n == o && acts == seq![Action::Save { quit: false }],
        KeyCommand::EmitKey(c) => n == o && acts == seq![
            Action::Emit(PluginEvent::Key { mode: o.state.mode, key: c }),
        ],
        KeyCommand::Quit => n == Editor { running: false, ..o } && acts.len() == 0,
        KeyCommand::CursorLineStart => acts.len() == 0 && cursor_moved(o, n, Position { line, col: 0 }),
        KeyCommand::CursorLineEnd => acts.len() == 0 && cursor_moved(
            o,
            n,
            Position { line, col: dec(line_bytes(o.buffer, line)) },
        ),
        KeyCommand::CursorRight => acts.len() == 0 && cursor_moved(o, n, moved_right(o)),
        KeyCommand::CursorLeft => acts.len() == 0 && cursor_moved(o, n, moved_left(o)),
        KeyCommand::CursorDown => acts.len() == 0 && cursor_moved(o, n, moved_down(o)),
        KeyCommand::CursorUp => acts.len() == 0 && cursor_moved(o, n, moved_up(o)),
        KeyCommand::DeleteCharForward => delete_forward_post(o, n, acts),
        KeyCommand::DeleteCharBackward => insert_post(o, n, Key::Backspace, acts),
        KeyCommand::KillLine => kill_line_post(o, n, acts),
        KeyCommand::KillWord => acts.len() == 0 && delete_word_post(o, n, '"'),
        KeyCommand::YankPop => paste_post(o, n, true, acts),
        KeyCommand::Undo => undo_post(o, n, acts),
        KeyCommand::InsertChar(c) => insert_post(o, n, Key::Char(c), acts),
        KeyCommand::InsertNewline => insert_post(o, n, Key::Enter, acts),
        KeyCommand::InsertTab => insert_post(o, n, Key::Char('\t'), acts),
        KeyCommand::Abort => n == Editor { pending_operator: None, pending_register: None, ..o }
            && acts.len() == 0,
        KeyCommand::TransposeChars => transpose_post(o, n, acts),
        KeyCommand::ScrollUp => acts.len() == 0 && cursor_moved(o, n, paged_up(o)),
        KeyCommand::ScrollDown => acts.len() == 0 && cursor_moved(o, n, paged_down(o)),
        KeyCommand::ClearScreen => n == Editor { needs_render: true, ..o } && acts == seq![
            Action::View(ViewChange::Clear),
        ],
        KeyCommand::ScrollCursorToCenter => n == Editor { needs_render: true, ..o } && acts == seq![
            Action::View(ViewChange::CenterCursor),
        ],
        KeyCommand::ScrollUpOne => n == Editor { needs_render: true, ..o } && acts == seq![
            Action::View(ViewChange::UpOne),
        ],
    }
}

/// A string of the one char `c`.
fn one_char(c: char) -> (s: String)
    ensures
        s@ == seq![c],
{
    let v = vec![c];
    assert(v@ =~= seq![c]);
    chars_to_string(v.as_slice())
}

impl Editor {
    /// An editor on `buffer`: normal mode, cursor at line 1 column 0, the
    /// file of the buffer, fresh registers, nothing pending, not yet running.
    pub fn new(buffer: TextBuffer) -> (e: Self)
        ensures
            e.buffer == buffer,
            e.state.mode == Mode::Normal,
            e.state.cursor == (Position { line: 1, col: 0 }),
            e.state.file_path == buffer.path(),
            !e.state.dirty,
            e.state.command_buffer@ == Seq::<char>::empty(),
            e.state.visual_start is None,
            e.state.visual_type is None,
            e.register.default_name() == '"',
            forall|c: char| #[trigger]
                e.register.view().contains_key(c) ==> e.register.view()[c] == Seq::<char>::empty(),
            !e.running,
            e.last_highlight_mod_count == 0,
            e.needs_render,
            e.pending_operator is None,
            e.pending_register is None,
            e.undo.undos() == Seq::<Edit>::empty(),
            e.undo.redos() == Seq::<Edit>::empty(),
            e.page_rows == 1,
    {
        let file_path = buffer.file().clone();
        let register = Register::new();
        proof {
            assert forall|c: char| #[trigger]
                register.view().contains_key(c) implies register.view()[c] == Seq::<char>::empty() by {
            }
        }
        Editor {
            buffer,
            register,
            state: EditorState {
                mode: Mode::Normal,
                cursor: Position { line: 1, col: 0 },
                file_path,
                dirty: false,
                command_buffer: String::new(),
                visual_start: None,
                visual_type: None,
                marks: Marks::new(),
                macros: Macros::new(),
            },
            running: false,
            last_highlight_mod_count: 0,
            needs_render: true,
            pending_operator: None,
            pending_register: None,
            undo: UndoManager::new(),
            page_rows: 1,
        }
    }

    fn line_bytes(&self, line: usize) -> (n: usize)
        ensures
            n == line_bytes(self.buffer, line),
    {
        self.buffer.get_line(line).as_str().len()
    }

    fn move_left(&mut self)
        ensures
            cursor_moved(*old(self), *final(self), moved_left(*old(self))),
    {
        self.state.cursor.col = self.state.cursor.col.saturating_sub(1);
        self.needs_render = true;
    }

    fn move_right(&mut self)
        requires
            old(self).state.cursor.col < usize::MAX,
        ensures
            cursor_moved(*old(self), *final(self), moved_right(*old(self))),
    {
        let line_len = self.line_bytes(self.state.cursor.line);
        let next = self.state.cursor.col + 1;
        let last = line_len.saturating_sub(1);
        self.state.cursor.col = if next <= last {
            next
        } else {
            last
        };
        self.needs_render = true;
    }

    fn move_down(&mut self)
        requires
            old(self).state.cursor.line < usize::MAX,
        ensures
            cursor_moved(*old(self), *final(self), moved_down(*old(self))),
    {
        let line_count = self.buffer.line_count();
        let next = self.state.cursor.line + 1;
        self.state.cursor.line = if next <= line_count {
            next
        } else {
            line_count
        };
        let len = self.line_bytes(self.state.cursor.line);
        let last = len.saturating_sub(1);
        if self.state.cursor.col > last {
            self.state.cursor.col = last;
        }
        self.needs_render = true;
    }

    fn move_up(&mut self)
        ensures
            cursor_moved(*old(self), *final(self), moved_up(*old(self))),
    {
        let up = self.state.cursor.line.saturating_sub(1);
        self.state.cursor.line = if up >= 1 {
            up
        } else {
            1
        };
        let len = self.line_bytes(self.state.cursor.line);
        let last = len.saturating_sub(1);
        if self.state.cursor.col > last {
            self.state.cursor.col = last;
        }
        self.needs_render = true;
    }

    fn yank_line(&mut self, register: char)
        ensures
            yank_line_post(*old(self), *final(self), register),
    {
        let line = self.state.cursor.line;
        let content = self.buffer.get_line_range(line, line);
        self.register.set(register, content.as_str());
        self.needs_render = true;
    }

    fn yank_word(&mut self, register: char)
        ensures
            yank_word_post(*old(self), *final(self), register),
    {
        let (word, _, _) = self.buffer.get_word_range(self.state.cursor.line, self.state.cursor.col);
        self.register.set(register, word.as_str());
        self.needs_render = true;
    }

    fn yank_word_end(&mut self, register: char)
        requires
            old(self).state.cursor.col <= cursor_line(*old(self)).len(),
        ensures
            yank_word_end_post(*old(self), *final(self), register),
    {
        let line = self.state.cursor.line;
        let col = self.state.cursor.col;
        let line_str = self.buffer.get_line(line);
        let chars = str_chars(line_str.as_str());
        let mut end = col;
        while end < chars.len() && !crate::text::is_whitespace(chars[end])
            invariant
                col <= end,
                col <= chars.len(),
                end <= chars.len(),
                word_end(chars@, end as int) == word_end(chars@, col as int),
            decreases chars.len() - end,
        {
            end = end + 1;
        }
        let mut word: Vec<char> = Vec::new();
        let mut i = col;
        while i < end
            invariant
                col <= i <= end <= chars.len(),
                word@ == chars@.subrange(col as int, i as int),
            decreases end - i,
        {
            word.push(chars[i]);
            i = i + 1;
        }
        let w = chars_to_string(word.as_slice());
        self.register.set(register, w.as_str());
        self.needs_render = true;
    }

    fn delete_line_into(&mut self, register: char)
        ensures
            delete_line_post(*old(self), *final(self), register),
    {
        proof {
            lemma_lines(self.buffer@);
        }
        let line = self.state.cursor.line;
        let before = self.state.cursor;
        let lone = self.buffer.len_chars() == 1 && self.buffer.char_at(0) == '\n';
        assert(lone == lone_break(self.buffer@)) by {
            if self.buffer@.len() == 1 && self.buffer@[0] == '\n' {
                assert(self.buffer@ =~= seq!['\n']);
            }
        }
        let content = if lone {
            self.buffer.get_line(line)
        } else {
            self.buffer.delete_line(line)
        };
        self.register.set(register, content.as_str());
        let line_count = self.buffer.line_count();
        if line > line_count {
            self.state.cursor.line = if line_count >= 1 {
                line_count
            } else {
                1
            };
        }
        let len = self.line_bytes(self.state.cursor.line);
        let last = len.saturating_sub(1);
        if self.state.cursor.col > last {
            self.state.cursor.col = last;
        }
        if !lone && !content.as_str().is_empty() {
            self.undo.push(
                Edit {
                    edit_type: EditType::Delete { line, col: 0, text: content },
                    cursor_before: before,
                    cursor_after: self.state.cursor,
                },
            );
        }
        self.needs_render = true;
    }

    fn delete_word(&mut self, register: char)
        requires
            delete_word_ok(*old(self)),
        ensures
            delete_word_post(*old(self), *final(self), register),
    {
        proof {
            crate::lines::lemma_lines(self.buffer@);
        }
        let _total = self.buffer.len_chars();
        let (word, start, _) = self.buffer.get_word_range(self.state.cursor.line, self.state.cursor.col);
        if !word.as_str().is_empty() {
            assert(word@.len() > 0);
            assert(self.state.cursor.line >= 1);
            let char_start = self.buffer.line_to_char(self.state.cursor.line - 1) + start;
            let char_end = char_start + str_chars(word.as_str()).len();
            self.buffer.remove_range(char_start, char_end);
            self.register.set(register, word.as_str());
            let cursor = self.state.cursor;
            self.undo.push(
                Edit {
                    edit_type: EditType::Delete { line: cursor.line, col: start, text: word },
                    cursor_before: cursor,
                    cursor_after: cursor,
                },
            );
        }
        self.needs_render = true;
    }

    /// What `paste_plan` says, with the register's chars.
    fn plan_paste(&self, chars: &Vec<char>, before: bool) -> (r: (usize, usize, Vec<char>))
        requires
            chars@ == paste_text(*self),
            chars@.len() > 0,
            paste_ok(*self, before),
        ensures
            r.0 as int == paste_plan(*self, before).0,
            r.1 as int == paste_plan(*self, before).1,
            r.2@ == paste_plan(*self, before).2,
    {
        proof {
            lemma_lines(self.buffer@);
        }
        let line = self.state.cursor.line;
        let col = self.state.cursor.col;
        let k = line.saturating_sub(1);
        let n = self.buffer.line_count();
        let total = self.buffer.len_chars();
        let mut text: Vec<char> = Vec::new();
        if chars[chars.len() - 1] == '\n' {
            if !before && k + 1 == n && total > 0 && !is_line_break(self.buffer.char_at(total - 1)) {
                text.push('\n');
            }
            push_all(&mut text, chars);
            assert(text@ =~= paste_plan(*self, before).2);
            (if before {
                k + 1
            } else {
                k + 2
            }, 0, text)
        } else {
            push_all(&mut text, chars);
            assert(text@ =~= paste_plan(*self, before).2);
            (line, if before {
                col
            } else {
                col + 1
            }, text)
        }
    }

    /// The line and column at which `insert(l, c0, ..)` puts its text
    /// (`landing_line`), when it puts it anywhere.
    fn insert_place(&self, l: usize, c0: usize) -> (r: Option<(usize, usize)>)
        ensures
            match insert_pos(self.buffer@, l as int, c0 as int) {
                Some(i) => r matches Some((ln, c)) && ln == landing_line(self.buffer@, l as int) && c == i
                    - line_start(self.buffer@, landing_line(self.buffer@, l as int) - 1),
                None => r is None,
            },
    {
        proof {
            lemma_lines(self.buffer@);
        }
        let n = self.buffer.line_count();
        let kk = l.saturating_sub(1);
        if kk > n {
            return None;
        }
        if kk == n {
            let last = self.buffer.line_to_char(n - 1);
            return Some((n, self.buffer.len_chars() - last));
        }
        let ls = self.buffer.line_to_char(kk);
        let len = self.buffer.line_to_char(kk + 1) - ls;
        Some((kk + 1, if c0 < len {
            c0
        } else {
            len
        }))
    }

    /// Where `paste_cursor` puts the cursor.
    fn cursor_after_paste(&self, chars: &Vec<char>, before: bool, l: usize) -> (p: Position)
        requires
            chars@ == paste_text(*self),
            chars@.len() > 0,
            paste_ok(*self, before),
            l as int == paste_plan(*self, before).0,
        ensures
            p == paste_cursor(*self, before),
    {
        let line = self.state.cursor.line;
        let col = self.state.cursor.col;
        if chars[chars.len() - 1] == '\n' {
            Position { line: l, col: 0 }
        } else if has_char(chars, '\n') {
            let lines = split_lines(chars);
            proof {
                lemma_last_line(chars@);
            }
            let last = chars_to_string(lines[lines.len() - 1].as_slice());
            Position { line: line + (lines.len() - 1), col: last.as_str().len() }
        } else if before {
            self.state.cursor
        } else {
            let t = chars_to_string(chars.as_slice());
            Position { line, col: col + 1 + t.as_str().len() }
        }
    }

    #[verifier::rlimit(30)]
    fn paste(&mut self, before: bool, out: &mut Vec<Action>)
        requires
            paste_ok(*old(self), before),
        ensures
            paste_post(*old(self), *final(self), before, final(out)@.subrange(old(out)@.len() as int, final(out)@.len() as int)),
            final(out)@.subrange(0, old(out)@.len() as int) == old(out)@,
            final(out)@.len() >= old(out)@.len(),
            final(self).pending_register == old(self).pending_register,
            final(self).pending_operator == old(self).pending_operator,
    {
        proof {
            reveal(paste_post);
        }
        let content = self.register.get_default();
        let chars = str_chars(content.as_str());
        if chars.len() == 0 {
            assert(final(out)@.subrange(old(out)@.len() as int, final(out)@.len() as int) =~= Seq::<Action>::empty());
            return;
        }
        let cursor = self.state.cursor;
        let (l, c0, text) = self.plan_paste(&chars, before);
        let at = self.insert_place(l, c0);
        let new_cursor = self.cursor_after_paste(&chars, before, l);
        let t = chars_to_string(text.as_slice());
        self.buffer.insert(l, c0, t.as_str());
        self.state.cursor = new_cursor;
        self.on_buffer_modified(out);
        if let Some((rec_line, rec_col)) = at {
            self.undo.push(
                Edit {
                    edit_type: EditType::Insert { line: rec_line, col: rec_col, text: t },
                    cursor_before: cursor,
                    cursor_after: new_cursor,
                },
            );
        }
        assert(out@.subrange(old(out)@.len() as int, out@.len() as int) =~= seq![Action::Emit(PluginEvent::BufferChange)]);
        assert(out@.subrange(0, old(out)@.len() as int) =~= old(out)@);
    }

    fn on_buffer_modified(&mut self, out: &mut Vec<Action>)
        ensures
            *final(self) == (Editor { needs_render: true, ..*old(self) }),
            final(out)@ == old(out)@.push(Action::Emit(PluginEvent::BufferChange)),
    {
        out.push(Action::Emit(PluginEvent::BufferChange));
        self.needs_render = true;
    }

    fn handle_operator(&mut self, op: char, key: Key)
        requires
            operator_ok(*old(self), op, key),
        ensures
            operator_post(*old(self), *final(self), op, key, Seq::<Action>::empty()),
    {
        let register = match self.pending_register {
            Some(r) => r,
            None => '"',
        };
        self.pending_operator = None;
        self.pending_register = None;
        if op == 'y' {
            match key {
                Key::Char('y') => self.yank_line(register),
                Key::Char('w') => self.yank_word(register),
                Key::Char('e') => self.yank_word_end(register),
                _ => {},
            }
        } else if op == 'd' {
            match key {
                Key::Char('d') => self.delete_line_into(register),
                Key::Char('w') => self.delete_word(register),
                _ => {},
            }
        }
    }

    fn execute_operator_with_register(&mut self, op: char, register: char)
        ensures
            op == 'y' ==> yank_line_post(*old(self), *final(self), register),
            op == 'd' ==> delete_line_post(*old(self), *final(self), register),
            op != 'y' && op != 'd' ==> *final(self) == *old(self),
    {
        if op == 'y' {
            self.yank_line(register);
        } else if op == 'd' {
            self.delete_line_into(register);
        }
    }

    fn handle_normal(&mut self, key: Key, out: &mut Vec<Action>)
        requires
            normal_ok(*old(self), key),
        ensures
            normal_post(*old(self), *final(self), key, final(out)@.subrange(old(out)@.len() as int, final(out)@.len() as int)),
            final(out)@.subrange(0, old(out)@.len() as int) == old(out)@,
            final(out)@.len() >= old(out)@.len(),
    {
        if let Some(op) = self.pending_operator {
            self.handle_operator(op, key);
            assert(out@.subrange(old(out)@.len() as int, out@.len() as int) =~= Seq::<Action>::empty());
            assert(out@.subrange(0, old(out)@.len() as int) =~= old(out)@);
            return;
        }
        let ghost out0 = out@;
        match key {
            Key::Char('h') => self.move_left(),
            Key::Char('l') => self.move_right(),
            Key::Char('j') => self.move_down(),
            Key::Char('k') => self.move_up(),
            Key::Char('i') => {
                let prev_mode = self.state.mode;
                self.state.mode = Mode::Insert;
                out.push(Action::Emit(PluginEvent::ModeChange { from: prev_mode, to: Mode::Insert }));
                self.needs_render = true;
            },
            Key::Char(':') => {
                let prev_mode = self.state.mode;
                self.state.mode = Mode::Command;
                self.state.command_buffer = String::new();
                out.push(Action::Emit(PluginEvent::ModeChange { from: prev_mode, to: Mode::Command }));
                self.needs_render = true;
            },
            Key::Char('v') => {
                let prev_mode = self.state.mode;
                self.state.mode = Mode::Visual;
                self.state.visual_start = Some(self.state.cursor);
                self.state.visual_type = Some(VisualType::Character);
                out.push(Action::Emit(PluginEvent::ModeChange { from: prev_mode, to: Mode::Visual }));
                self.needs_render = true;
            },
            Key::Char('V') => {
                let prev_mode = self.state.mode;
                self.state.mode = Mode::Visual;
                self.state.visual_start = Some(self.state.cursor);
                self.state.visual_type = Some(VisualType::Line);
                out.push(Action::Emit(PluginEvent::ModeChange { from: prev_mode, to: Mode::Visual }));
                self.needs_render = true;
            },
            Key::Char('y') => {
                self.pending_operator = Some('y');
            },
            Key::Char('d') => {
                self.pending_operator = Some('d');
            },
            Key::Char('p') => {
                self.pending_register = None;
                self.paste(false, out);
            },
            Key::Char('P') => {
                self.paste(true, out);
            },
            Key::Char('u') => {
                if self.pending_register.is_some() {
                    self.pending_register = Some('u');
                    assert(out@ =~= old(out)@);
                    assert(out@.subrange(old(out)@.len() as int, out@.len() as int) =~= Seq::<Action>::empty());
                    assert(out@.subrange(0, old(out)@.len() as int) =~= old(out)@);
                    return;
                }
                self.undo_last(out);
            },
            Key::Char('"') => {
                self.pending_register = Some('"');
            },
            _ => {
                if self.pending_register.is_some() {
                    if let Key::Char(c) = key {
                        if 'a' <= c && c <= 'z' {
                            self.pending_register = Some(c);
                            assert(out@ =~= old(out)@);
                            assert(out@.subrange(old(out)@.len() as int, out@.len() as int) =~= Seq::<Action>::empty());
                            assert(out@.subrange(0, old(out)@.len() as int) =~= old(out)@);
                            return;
                        }
                    }
                    self.pending_register = None;
                }
            },
        }
        if let Some(r) = self.pending_register {
            if let Key::Char(c) = key {
                if 'a' <= c && c <= 'z' {
                    self.pending_register = None;
                    if let Some(op) = self.pending_operator {
                        self.pending_operator = None;
                        self.execute_operator_with_register(op, r);
                        assert(out@ =~= old(out)@);
                        assert(out@.subrange(old(out)@.len() as int, out@.len() as int) =~= Seq::<Action>::empty());
                        assert(out@.subrange(0, old(out)@.len() as int) =~= old(out)@);
                        return;
                    }
                }
            }
        }
        proof {
            let added = out@.subrange(old(out)@.len() as int, out@.len() as int);
            assert(out@.subrange(0, old(out)@.len() as int) =~= old(out)@) by {
                assert(out@.subrange(0, out0.len() as int) =~= out0.subrange(0, out0.len() as int));
            }
            if out@.len() == old(out)@.len() {
                assert(added =~= Seq::<Action>::empty());
            } else if out@.len() == old(out)@.len() + 1 {
                assert(added =~= seq![out@.last()]);
            }
        }
    }

    /// The char that Backspace at column `col` of line `line` deletes, if
    /// there is one.
    fn char_before(&self, line: usize, col: usize) -> (r: Option<char>)
        requires
            col > 0,
        ensures
            match delete_pos(self.buffer@, line as int, col - 1) {
                Some(i) => r == Some(self.buffer@[i]),
                None => r is None,
            },
    {
        proof {
            lemma_lines(self.buffer@);
        }
        let k = line.saturating_sub(1);
        if k >= self.buffer.line_count() {
            return None;
        }
        let start = self.buffer.line_to_char(k);
        let total = self.buffer.len_chars();
        if col - 1 < total - start {
            Some(self.buffer.char_at(start + (col - 1)))
        } else {
            None
        }
    }

    /// Backspace in insert mode.
    fn backspace(&mut self, out: &mut Vec<Action>)
        ensures
            insert_post(*old(self), *final(self), Key::Backspace, final(out)@.subrange(old(out)@.len() as int, final(out)@.len() as int)),
            final(out)@.subrange(0, old(out)@.len() as int) == old(out)@,
            final(out)@.len() >= old(out)@.len(),
    {
        let before = self.state.cursor;
        let line = before.line;
        let col = before.col;
        if col > 0 {
            let deleted = self.char_before(line, col);
            self.buffer.delete(line, col - 1);
            self.state.cursor.col = col - 1;
            self.on_buffer_modified(out);
            if let Some(c) = deleted {
                self.undo.push(
                    Edit {
                        edit_type: EditType::Delete { line, col: col - 1, text: one_char(c) },
                        cursor_before: before,
                        cursor_after: self.state.cursor,
                    },
                );
            }
        } else if line > 1 {
            proof {
                lemma_lines(self.buffer@);
            }
            let joined = if line <= self.buffer.line_count() {
                let start = self.buffer.line_to_char(line - 1);
                Some(self.buffer.char_at(start - 1))
            } else {
                None
            };
            let new_col = self.buffer.merge_with_prev_line(line);
            self.state.cursor.line = line - 1;
            self.state.cursor.col = new_col;
            self.on_buffer_modified(out);
            if let Some(c) = joined {
                self.undo.push(
                    Edit {
                        edit_type: EditType::Delete { line: line - 1, col: new_col, text: one_char(c) },
                        cursor_before: before,
                        cursor_after: self.state.cursor,
                    },
                );
            }
        }
        proof {
            let added = out@.subrange(old(out)@.len() as int, out@.len() as int);
            assert(out@.subrange(0, old(out)@.len() as int) =~= old(out)@);
            if out@.len() == old(out)@.len() {
                assert(added =~= Seq::<Action>::empty());
            } else {
                assert(added =~= seq![out@.last()]);
            }
        }
    }

    fn handle_insert(&mut self, key: Key, out: &mut Vec<Action>)
        requires
            insert_ok(*old(self), key),
        ensures
            insert_post(*old(self), *final(self), key, final(out)@.subrange(old(out)@.len() as int, final(out)@.len() as int)),
            final(out)@.subrange(0, old(out)@.len() as int) == old(out)@,
            final(out)@.len() >= old(out)@.len(),
    {
        proof {
            reveal_strlit("\n");
        }
        match key {
            Key::Esc => {
                let prev_mode = self.state.mode;
                self.state.mode = Mode::Normal;
                self.state.cursor.col = self.state.cursor.col.saturating_sub(1);
                out.push(Action::Emit(PluginEvent::ModeChange { from: prev_mode, to: Mode::Normal }));
                self.needs_render = true;
            },
            Key::Backspace => self.backspace(out),
            Key::Enter => {
                let before = self.state.cursor;
                let place = self.insert_place(before.line, before.col);
                let nl = "\n";
                assert(nl@ =~= seq!['\n']);
                self.buffer.insert(before.line, before.col, nl);
                self.state.cursor.line = before.line + 1;
                self.state.cursor.col = 0;
                self.on_buffer_modified(out);
                if let Some((l, c)) = place {
                    self.undo.push(
                        Edit {
                            edit_type: EditType::Split { line: l, col: c },
                            cursor_before: before,
                            cursor_after: self.state.cursor,
                        },
                    );
                }
            },
            Key::Char(c) => {
                let before = self.state.cursor;
                let place = self.insert_place(before.line, before.col);
                self.buffer.insert_char(before.line, before.col, c);
                self.state.cursor.col = before.col + 1;
                self.on_buffer_modified(out);
                if let Some((l, cl)) = place {
                    self.undo.push(
                        Edit {
                            edit_type: EditType::Insert { line: l, col: cl, text: one_char(c) },
                            cursor_before: before,
                            cursor_after: self.state.cursor,
                        },
                    );
                }
            },
            _ => {},
        }
        proof {
            let added = out@.subrange(old(out)@.len() as int, out@.len() as int);
            assert(out@.subrange(0, old(out)@.len() as int) =~= old(out)@);
            if out@.len() == old(out)@.len() {
                assert(added =~= Seq::<Action>::empty());
            } else {
                assert(added =~= seq![out@.last()]);
            }
        }
    }

    fn selection(&self) -> (r: (usize, usize, usize, usize))
        requires
            self.state.visual_start is Some,
            selection_ok(*self),
            self.state.visual_type == Some(VisualType::Character),
        ensures
            (r.0 as int, r.1 as int, r.2 as int, r.3 as int) == normalized(self.state.visual_start->0, self.state.cursor),
    {
        let start = self.state.visual_start.unwrap();
        let end = self.state.cursor;
        if start.line < end.line || (start.line == end.line && start.col <= end.col) {
            (start.line, start.col, end.line, end.col + 1)
        } else {
            (end.line, end.col, start.line, start.col + 1)
        }
    }

    fn line_selection(&self) -> (r: (usize, usize))
        requires
            self.state.visual_start is Some,
        ensures
            (r.0 as int, r.1 as int) == line_span(self.state.visual_start->0.line, self.state.cursor.line),
    {
        let a = self.state.visual_start.unwrap().line;
        let b = self.state.cursor.line;
        if a <= b {
            (a, b)
        } else {
            (b, a)
        }
    }

    fn visual_yank(&mut self)
        requires
            selection_ok(*old(self)),
        ensures
            match selection_text(*old(self)) {
                Some(c) => reg_set(old(self).register, final(self).register, '"', c),
                None => final(self).register == old(self).register,
            },
            *final(self) == (Editor { register: final(self).register, ..*old(self) }),
    {
        match (self.state.visual_start, self.state.visual_type) {
            (Some(_), Some(VisualType::Character)) => {
                let (sl, sc, el, ec) = self.selection();
                let content = self.buffer.get_char_range(sl, sc, el, ec);
                self.register.set('"', content.as_str());
            },
            (Some(_), Some(VisualType::Line)) => {
                let (sl, el) = self.line_selection();
                let content = self.buffer.get_line_range(sl, el);
                self.register.set('"', content.as_str());
            },
            _ => {},
        }
    }

    fn visual_delete(&mut self, out: &mut Vec<Action>)
        requires
            selection_ok(*old(self)),
        ensures
            match selection_cut(*old(self)) {
                Some((a, b, line)) => {
                    let s = old(self).buffer@;
                    &&& reg_set(old(self).register, final(self).register, '"', if a < b { s.subrange(a, b) } else { Seq::empty() })
                    &&& final(out)@ == old(out)@.push(Action::Emit(PluginEvent::BufferChange))
                    &&& if a < b {
                        &&& buf_state(final(self).buffer) == st_remove(buf_state(old(self).buffer), a, b)
                        &&& final(self).buffer.path() == old(self).buffer.path()
                        &&& records(*old(self), *final(self), last_edit(*final(self)))
                        &&& last_edit(*final(self)).edit_type matches EditType::Delete { line: l, col, text } && l
                            == line && col == a - line_start(s, pred(line)) && text@ == s.subrange(a, b)
                        &&& edit_between(last_edit(*final(self)), old(self).state.cursor, old(self).state.cursor)
                        &&& *final(self) == (Editor { buffer: final(self).buffer, register: final(self).register, undo: final(self).undo, needs_render: true, ..*old(self) })
                    } else {
                        *final(self) == (Editor { register: final(self).register, needs_render: true, ..*old(self) })
                    }
                },
                None => *final(self) == *old(self) && final(out)@ == old(out)@,
            },
    {
        proof {
            lemma_lines(self.buffer@);
        }
        let ghost s = self.buffer@;
        let (a, b, line) = match (self.state.visual_start, self.state.visual_type) {
            (Some(_), Some(VisualType::Character)) => {
                let (sl, sc, el, ec) = self.selection();
                (self.buffer.clamped_index(sl, sc), self.buffer.clamped_index(el, ec), sl)
            },
            (Some(_), Some(VisualType::Line)) => {
                let (sl, el) = self.line_selection();
                let (a, b) = self.buffer.line_span_of(sl, el);
                (a, b, sl)
            },
            _ => {
                return;
            },
        };
        if a < b {
            let k = line.saturating_sub(1);
            let start = if k < self.buffer.line_count() {
                self.buffer.line_to_char(k)
            } else {
                self.buffer.len_chars()
            };
            assert(start == line_start(s, pred(line as int)));
            let text = self.buffer.chars_between(a, b);
            self.buffer.remove_range(a, b);
            self.register.set('"', text.as_str());
            self.on_buffer_modified(out);
            let cursor = self.state.cursor;
            self.undo.push(
                Edit {
                    edit_type: EditType::Delete { line, col: a - start, text },
                    cursor_before: cursor,
                    cursor_after: cursor,
                },
            );
        } else {
            let empty = String::new();
            self.register.set('"', empty.as_str());
            self.on_buffer_modified(out);
        }
    }

    fn leave_visual(&mut self, out: &mut Vec<Action>)
        ensures
            *final(self) == left_visual(*old(self)),
            final(out)@ == old(out)@.push(mode_change(old(self).state.mode, Mode::Normal)),
    {
        let prev_mode = self.state.mode;
        self.state.mode = Mode::Normal;
        self.state.visual_start = None;
        self.state.visual_type = None;
        out.push(Action::Emit(PluginEvent::ModeChange { from: prev_mode, to: Mode::Normal }));
        self.needs_render = true;
    }

    fn handle_visual(&mut self, key: Key, out: &mut Vec<Action>)
        requires
            visual_ok(*old(self), key),
        ensures
            visual_post(*old(self), *final(self), key, final(out)@.subrange(old(out)@.len() as int, final(out)@.len() as int)),
            final(out)@.subrange(0, old(out)@.len() as int) == old(out)@,
            final(out)@.len() >= old(out)@.len(),
    {
        let ghost out0 = out@;
        match key {
            Key::Esc => self.leave_visual(out),
            Key::Char('y') => {
                self.visual_yank();
                self.leave_visual(out);
            },
            Key::Char('d') => {
                self.visual_delete(out);
                self.leave_visual(out);
            },
            Key::Char('h') => self.move_left(),
            Key::Char('l') => self.move_right(),
            Key::Char('j') => self.move_down(),
            Key::Char('k') => self.move_up(),
            _ => {},
        }
        proof {
            let added = out@.subrange(old(out)@.len() as int, out@.len() as int);
            assert(out@.subrange(0, old(out)@.len() as int) =~= old(out)@);
            if out@.len() == old(out)@.len() {
                assert(added =~= Seq::<Action>::empty());
            } else if out@.len() == old(out)@.len() + 1 {
                assert(added =~= seq![out@.last()]);
            } else {
                assert(added =~= seq![out@[out@.len() - 2], out@.last()]);
            }
        }
    }

    fn handle_command(&mut self, key: Key, out: &mut Vec<Action>)
        ensures
            command_post(*old(self), *final(self), key, final(out)@.subrange(old(out)@.len() as int, final(out)@.len() as int)),
            final(out)@.subrange(0, old(out)@.len() as int) == old(out)@,
            final(out)@.len() >= old(out)@.len(),
    {
        let ghost out0 = out@;
        match key {
            Key::Enter => {
                let cmd = trim_chars(&str_chars(self.state.command_buffer.as_str()));
                self.state.command_buffer = String::new();
                let prev_mode = self.state.mode;
                self.state.mode = Mode::Normal;
                out.push(Action::Emit(PluginEvent::ModeChange { from: prev_mode, to: Mode::Normal }));
                self.needs_render = true;
                if same_chars(&cmd, &str_chars("q")) {
                    self.running = false;
                } else if same_chars(&cmd, &str_chars("w")) {
                    out.push(Action::Save { quit: false });
                } else if same_chars(&cmd, &str_chars("wq")) {
                    out.push(Action::Save { quit: true });
                } else {
                    out.push(Action::RunCommand(chars_to_string(cmd.as_slice())));
                }
            },
            Key::Esc => {
                self.state.command_buffer = String::new();
                let prev_mode = self.state.mode;
                self.state.mode = Mode::Normal;
                out.push(Action::Emit(PluginEvent::ModeChange { from: prev_mode, to: Mode::Normal }));
                self.needs_render = true;
            },
            Key::Backspace => {
                let mut cs = str_chars(self.state.command_buffer.as_str());
                cs.pop();
                self.state.command_buffer = chars_to_string(cs.as_slice());
            },
            Key::Char(c) => {
                let mut cs = str_chars(self.state.command_buffer.as_str());
                cs.push(c);
                self.state.command_buffer = chars_to_string(cs.as_slice());
            },
            _ => {},
        }
        proof {
            let added = out@.subrange(old(out)@.len() as int, out@.len() as int);
            assert(out@.subrange(0, old(out)@.len() as int) =~= old(out)@);
            if out@.len() == old(out)@.len() {
                assert(added =~= Seq::<Action>::empty());
            } else if out@.len() == old(out)@.len() + 1 {
                assert(added =~= seq![out@.last()]);
            } else {
                assert(added =~= seq![out@[out@.len() - 2], out@.last()]);
            }
        }
    }

    fn selection_fits(&self) -> (b: bool)
        ensures
            b == selection_ok(*self),
    {
        match (self.state.visual_start, self.state.visual_type) {
            (Some(start), Some(VisualType::Character)) => {
                let cur = self.state.cursor;
                let ecol = if start.line < cur.line || (start.line == cur.line && start.col <= cur.col) {
                    cur.col
                } else {
                    start.col
                };
                ecol < usize::MAX
            },
            _ => true,
        }
    }

    fn word_deletable(&self) -> (b: bool)
        ensures
            b == delete_word_ok(*self),
    {
        let line = self.state.cursor.line;
        let col = self.state.cursor.col;
        let (w, start, _) = self.buffer.get_word_range(line, col);
        if str_chars(w.as_str()).len() == 0 {
            return true;
        }
        if line < 1 {
            return false;
        }
        proof {
            lemma_lines(self.buffer@);
        }
        let total = self.buffer.len_chars();
        let a = self.buffer.line_to_char(line - 1);
        match a.checked_add(start) {
            Some(p) => match p.checked_add(str_chars(w.as_str()).len()) {
                Some(e) => e <= total,
                None => false,
            },
            None => false,
        }
    }

    fn paste_fits(&self, before: bool) -> (b: bool)
        ensures
            b == paste_ok(*self, before),
    {
        let line = self.state.cursor.line;
        let col = self.state.cursor.col;
        let content = self.register.get_default();
        let chars = str_chars(content.as_str());
        if chars.len() > 0 && chars[chars.len() - 1] == '\n' {
            before || line < usize::MAX
        } else if has_char(&chars, '\n') {
            let lines = split_lines(&chars);
            proof {
                lemma_last_line(chars@);
            }
            (before || col < usize::MAX) && lines.len() - 1 <= usize::MAX - line
        } else if before {
            true
        } else {
            match col.checked_add(1) {
                Some(c1) => match c1.checked_add(content.as_str().len()) {
                    Some(_) => true,
                    None => false,
                },
                None => false,
            }
        }
    }

    /// Undoes the last edit recorded (`u`).
    fn undo_last(&mut self, out: &mut Vec<Action>)
        requires
            old(self).undo.undos().len() > 0 ==> undo_ok(old(self).undo.undos().last().edit_type, old(self).buffer@),
        ensures
            undo_post(*old(self), *final(self), final(out)@.subrange(old(out)@.len() as int, final(out)@.len() as int)),
            final(out)@.subrange(0, old(out)@.len() as int) == old(out)@,
            final(out)@.len() >= old(out)@.len(),
    {
        if self.undo.can_undo() {
            if let Some(e) = self.undo.undo(&mut self.buffer) {
                self.state.cursor = e.cursor_before;
                self.on_buffer_modified(out);
            }
        }
        proof {
            let added = out@.subrange(old(out)@.len() as int, out@.len() as int);
            assert(out@.subrange(0, old(out)@.len() as int) =~= old(out)@);
            if out@.len() == old(out)@.len() {
                assert(added =~= Seq::<Action>::empty());
            } else {
                assert(added =~= seq![out@.last()]);
            }
        }
    }

    /// Deletes the char under the cursor (`Ctrl-d`).
    fn delete_forward(&mut self, out: &mut Vec<Action>)
        ensures
            delete_forward_post(*old(self), *final(self), final(out)@.subrange(old(out)@.len() as int, final(out)@.len() as int)),
            final(out)@.subrange(0, old(out)@.len() as int) == old(out)@,
            final(out)@.len() >= old(out)@.len(),
    {
        proof {
            lemma_lines(self.buffer@);
        }
        let cursor = self.state.cursor;
        let k = cursor.line.saturating_sub(1);
        let mut deleted: Option<char> = None;
        if k < self.buffer.line_count() {
            let start = self.buffer.line_to_char(k);
            let total = self.buffer.len_chars();
            if cursor.col < total - start {
                deleted = Some(self.buffer.char_at(start + cursor.col));
            }
        }
        self.buffer.delete(cursor.line, cursor.col);
        self.on_buffer_modified(out);
        if let Some(c) = deleted {
            self.undo.push(
                Edit {
                    edit_type: EditType::Delete { line: cursor.line, col: cursor.col, text: one_char(c) },
                    cursor_before: cursor,
                    cursor_after: cursor,
                },
            );
        }
        assert(out@.subrange(0, old(out)@.len() as int) =~= old(out)@);
        assert(out@.subrange(old(out)@.len() as int, out@.len() as int) =~= seq![out@.last()]);
    }

    /// Kills the rest of the cursor line into the unnamed register
    /// (`Ctrl-k`).
    fn kill_line(&mut self, out: &mut Vec<Action>)
        ensures
            kill_line_post(*old(self), *final(self), final(out)@.subrange(old(out)@.len() as int, final(out)@.len() as int)),
            final(out)@.subrange(0, old(out)@.len() as int) == old(out)@,
            final(out)@.len() >= old(out)@.len(),
    {
        proof {
            lemma_lines(self.buffer@);
        }
        let cursor = self.state.cursor;
        let k = cursor.line.saturating_sub(1);
        if k >= self.buffer.line_count() {
            assert(out@.subrange(old(out)@.len() as int, out@.len() as int) =~= Seq::<Action>::empty());
            assert(out@.subrange(0, old(out)@.len() as int) =~= old(out)@);
            return;
        }
        let ghost s = self.buffer@;
        let start = self.buffer.line_to_char(k);
        let end = self.buffer.line_to_char(k + 1);
        let l = str_chars(self.buffer.get_line(k + 1).as_str());
        assert(l@ =~= s.subrange(start as int, end as int));
        let text_end = if l.len() > 0 && l[l.len() - 1] == '\n' {
            l.len() - 1
        } else {
            l.len()
        };
        let a = if cursor.col < l.len() {
            cursor.col
        } else {
            l.len()
        };
        let b = if a < text_end {
            text_end
        } else {
            l.len()
        };
        if a >= b {
            assert(out@.subrange(old(out)@.len() as int, out@.len() as int) =~= Seq::<Action>::empty());
            assert(out@.subrange(0, old(out)@.len() as int) =~= old(out)@);
            return;
        }
        let mut killed: Vec<char> = Vec::new();
        let mut i = a;
        while i < b
            invariant
                a <= i <= b <= l@.len(),
                killed@ == l@.subrange(a as int, i as int),
            decreases b - i,
        {
            killed.push(l[i]);
            i = i + 1;
        }
        assert(killed@ =~= s.subrange(start + a, start + b));
        let text = chars_to_string(killed.as_slice());
        self.buffer.remove_range(start + a, start + b);
        self.register.set('"', text.as_str());
        self.on_buffer_modified(out);
        self.undo.push(
            Edit {
                edit_type: EditType::Delete { line: cursor.line, col: a, text },
                cursor_before: cursor,
                cursor_after: cursor,
            },
        );
        assert(out@.subrange(0, old(out)@.len() as int) =~= old(out)@);
        assert(out@.subrange(old(out)@.len() as int, out@.len() as int) =~= seq![out@.last()]);
    }

    /// Moves the cursor a page up (PageUp).
    fn page_up(&mut self)
        ensures
            cursor_moved(*old(self), *final(self), paged_up(*old(self))),
    {
        let line = self.state.cursor.line;
        self.state.cursor.line = if line > self.page_rows && line - self.page_rows > 1 {
            line - self.page_rows
        } else {
            1
        };
        let len = self.line_bytes(self.state.cursor.line);
        let last = len.saturating_sub(1);
        if self.state.cursor.col > last {
            self.state.cursor.col = last;
        }
        self.needs_render = true;
    }

    /// Moves the cursor a page down (PageDown).
    fn page_down(&mut self)
        ensures
            cursor_moved(*old(self), *final(self), paged_down(*old(self))),
    {
        let n = self.buffer.line_count();
        let line = self.state.cursor.line;
        self.state.cursor.line = if line < n && self.page_rows < n - line {
            line + self.page_rows
        } else {
            n
        };
        let len = self.line_bytes(self.state.cursor.line);
        let last = len.saturating_sub(1);
        if self.state.cursor.col > last {
            self.state.cursor.col = last;
        }
        self.needs_render = true;
    }

    /// Swaps the char under the cursor with the one before it (`Ctrl-t`).
    fn transpose(&mut self, out: &mut Vec<Action>)
        requires
            old(self).state.cursor.col < usize::MAX,
        ensures
            transpose_post(*old(self), *final(self), final(out)@.subrange(old(out)@.len() as int, final(out)@.len() as int)),
            final(out)@.subrange(0, old(out)@.len() as int) == old(out)@,
            final(out)@.len() >= old(out)@.len(),
    {
        proof {
            lemma_lines(self.buffer@);
        }
        let ghost s = self.buffer@;
        let cursor = self.state.cursor;
        let line = cursor.line;
        let col = cursor.col;
        let k = line.saturating_sub(1);
        if col == 0 || k >= self.buffer.line_count() {
            assert(out@.subrange(old(out)@.len() as int, out@.len() as int) =~= Seq::<Action>::empty());
            assert(out@.subrange(0, old(out)@.len() as int) =~= old(out)@);
            return;
        }
        let ls = self.buffer.line_to_char(k);
        let le = self.buffer.line_to_char(k + 1);
        if col >= le - ls || is_line_break(self.buffer.char_at(ls + col)) {
            assert(out@.subrange(old(out)@.len() as int, out@.len() as int) =~= Seq::<Action>::empty());
            assert(out@.subrange(0, old(out)@.len() as int) =~= old(out)@);
            return;
        }
        let i = ls + col;
        let a = self.buffer.char_at(i - 1);
        let b = self.buffer.char_at(i);
        proof {
            lemma_cut_then_insert(s, k as int, col as int, 1);
        }
        self.buffer.delete(line, col);
        let ghost s2 = self.buffer@;
        assert(s2 == cut(s, i as int, i + 1));
        assert(insert_pos(s2, line as int, col - 1) == Some(i - 1));
        self.buffer.insert_char(line, col - 1, b);
        assert(self.buffer@ =~= s.update(i - 1, s[i as int]).update(i as int, s[i - 1]));
        self.state.cursor.col = col + 1;
        self.on_buffer_modified(out);
        let mut old_chars: Vec<char> = Vec::new();
        old_chars.push(a);
        old_chars.push(b);
        let mut new_chars: Vec<char> = Vec::new();
        new_chars.push(b);
        new_chars.push(a);
        assert(old_chars@ =~= seq![a, b]);
        assert(new_chars@ =~= seq![b, a]);
        self.undo.push(
            Edit {
                edit_type: EditType::Replace {
                    line,
                    col: col - 1,
                    old_text: chars_to_string(old_chars.as_slice()),
                    new_text: chars_to_string(new_chars.as_slice()),
                },
                cursor_before: cursor,
                cursor_after: self.state.cursor,
            },
        );
        assert(out@.subrange(0, old(out)@.len() as int) =~= old(out)@);
        assert(out@.subrange(old(out)@.len() as int, out@.len() as int) =~= seq![out@.last()]);
    }

    /// Sets how many lines PageUp and PageDown move the cursor.
    pub fn set_page_rows(&mut self, rows: usize)
        ensures
            *final(self) == (Editor { page_rows: rows, ..*old(self) }),
    {
        self.page_rows = rows;
    }

    /// Whether `cmd` can be run now without a panic or an overflow
    /// (`emacs_ok`): what a caller tests before `run_command`.
    pub fn command_allowed(&self, cmd: KeyCommand) -> (b: bool)
        ensures
            b == emacs_ok(*self, cmd),
    {
        match cmd {
            KeyCommand::CursorRight => self.state.cursor.col < usize::MAX,
            KeyCommand::CursorDown => self.state.cursor.line < usize::MAX,
            KeyCommand::InsertChar(_) => self.state.cursor.col < usize::MAX,
            KeyCommand::InsertTab => self.state.cursor.col < usize::MAX,
            KeyCommand::InsertNewline => self.state.cursor.line < usize::MAX,
            KeyCommand::KillWord => self.word_deletable(),
            KeyCommand::YankPop => self.paste_fits(true),
            KeyCommand::Undo => self.undo.undo_allowed(&self.buffer),
            KeyCommand::TransposeChars => self.state.cursor.col < usize::MAX,
            _ => true,
        }
    }

    /// Runs a command of the Emacs keymap (`emacs_post`).  The actions are
    /// for the caller to carry out in order.
    pub fn run_command(&mut self, cmd: KeyCommand) -> (acts: Vec<Action>)
        requires
            emacs_ok(*old(self), cmd),
        ensures
            emacs_post(*old(self), *final(self), cmd, acts@),
    {
        let mut out: Vec<Action> = Vec::new();
        match cmd {
            KeyCommand::RequestSave => out.push(Action::Save { quit: false }),
            KeyCommand::EmitKey(c) => out.push(Action::Emit(PluginEvent::Key { mode: self.state.mode, key: c })),
            KeyCommand::Quit => self.running = false,
            KeyCommand::CursorLineStart => {
                self.state.cursor.col = 0;
                self.needs_render = true;
            },
            KeyCommand::CursorLineEnd => {
                let len = self.line_bytes(self.state.cursor.line);
                self.state.cursor.col = len.saturating_sub(1);
                self.needs_render = true;
            },
            KeyCommand::CursorRight => self.move_right(),
            KeyCommand::CursorLeft => self.move_left(),
            KeyCommand::CursorDown => self.move_down(),
            KeyCommand::CursorUp => self.move_up(),
            KeyCommand::DeleteCharForward => self.delete_forward(&mut out),
            KeyCommand::DeleteCharBackward => self.backspace(&mut out),
            KeyCommand::KillLine => self.kill_line(&mut out),
            KeyCommand::KillWord => self.delete_word('"'),
            KeyCommand::YankPop => self.paste(true, &mut out),
            KeyCommand::Undo => self.undo_last(&mut out),
            KeyCommand::InsertChar(c) => self.handle_insert(Key::Char(c), &mut out),
            KeyCommand::InsertNewline => self.handle_insert(Key::Enter, &mut out),
            KeyCommand::InsertTab => self.handle_insert(Key::Char('\t'), &mut out),
            KeyCommand::Abort => {
                self.pending_operator = None;
                self.pending_register = None;
            },
            KeyCommand::TransposeChars => self.transpose(&mut out),
            KeyCommand::ScrollUp => self.page_up(),
            KeyCommand::ScrollDown => self.page_down(),
            KeyCommand::ClearScreen => {
                out.push(Action::View(ViewChange::Clear));
                self.needs_render = true;
            },
            KeyCommand::ScrollCursorToCenter => {
                out.push(Action::View(ViewChange::CenterCursor));
                self.needs_render = true;
            },
            KeyCommand::ScrollUpOne => {
                out.push(Action::View(ViewChange::UpOne));
                self.needs_render = true;
            },
        }
        proof {
            assert(out@.subrange(0, out@.len() as int) =~= out@);
        }
        out
    }

    /// Whether `key` can be handled now without a panic or an overflow
    /// (`key_ok`): what a caller tests before `handle_key`.
    pub fn key_allowed(&self, key: Key) -> (b: bool)
        ensures
            b == key_ok(*self, key),
    {
        let line = self.state.cursor.line;
        let col = self.state.cursor.col;
        match self.state.mode {
            Mode::Insert => match key {
                Key::Enter => line < usize::MAX,
                Key::Char(_) => col < usize::MAX,
                _ => true,
            },
            Mode::Command => true,
            Mode::Visual => match key {
                Key::Char('y') => self.selection_fits(),
                Key::Char('d') => self.selection_fits(),
                Key::Char('l') => col < usize::MAX,
                Key::Char('j') => line < usize::MAX,
                _ => true,
            },
            Mode::Normal => match self.pending_operator {
                Some(op) => {
                    let ye = !(op == 'y' && key == Key::Char('e')) || col <= str_chars(
                        self.buffer.get_line(line).as_str(),
                    ).len();
                    let dw = !(op == 'd' && key == Key::Char('w')) || self.word_deletable();
                    ye && dw
                },
                None => match key {
                    Key::Char('l') => col < usize::MAX,
                    Key::Char('j') => line < usize::MAX,
                    Key::Char('p') => self.paste_fits(false),
                    Key::Char('P') => self.paste_fits(true),
                    Key::Char('u') => self.pending_register.is_some() || self.undo.undo_allowed(
                        &self.buffer,
                    ),
                    _ => true,
                },
            },
        }
    }

    /// Handles one key: a char key is first told to the plugins, then the
    /// key acts as the current mode says (`mode_post`).  The actions are
    /// for the caller to carry out in order.
    pub fn handle_key(&mut self, key: Key) -> (acts: Vec<Action>)
        requires
            key_ok(*old(self), key),
        ensures
            acts@.len() >= key_event(*old(self), key).len(),
            acts@.subrange(0, key_event(*old(self), key).len() as int) == key_event(*old(self), key),
            mode_post(
                *old(self),
                *final(self),
                key,
                acts@.subrange(key_event(*old(self), key).len() as int, acts@.len() as int),
            ),
    {
        let mut out: Vec<Action> = Vec::new();
        if let Key::Char(c) = key {
            out.push(Action::Emit(PluginEvent::Key { mode: self.state.mode, key: c }));
        }
        assert(out@ =~= key_event(*old(self), key));
        match self.state.mode {
            Mode::Normal => self.handle_normal(key, &mut out),
            Mode::Insert => self.handle_insert(key, &mut out),
            Mode::Command => self.handle_command(key, &mut out),
            Mode::Visual => self.handle_visual(key, &mut out),
        }
        out
    }

    /// Reports how a save asked for by `Action::Save` went: on success the
    /// plugins are told of the save and, for `quit`, the editor stops.
    pub fn finish_save(&mut self, ok: bool, quit: bool) -> (acts: Vec<Action>)
        ensures
            ok ==> acts@ == seq![Action::Emit(PluginEvent::BufferSave { file_path: old(self).state.file_path })],
            !ok ==> acts@.len() == 0,
            *final(self) == (Editor { running: if ok && quit { false } else { old(self).running }, ..*old(self) }),
    {
        let mut out: Vec<Action> = Vec::new();
        if ok {
            out.push(Action::Emit(PluginEvent::BufferSave { file_path: self.state.file_path.clone() }));
            if quit {
                self.running = false;
            }
        }
        out
    }

    /// Starts the editor's loop.
    pub fn start(&mut self)
        ensures
            *final(self) == (Editor { running: true, ..*old(self) }),
    {
        self.running = true;
    }

    /// Brings the dirty flag shown by the editor up to date with the buffer.
    pub fn sync_dirty(&mut self)
        ensures
            *final(self) == (Editor { state: EditorState { dirty: old(self).buffer.dirty_flag(), ..old(self).state }, ..*old(self) }),
    {
        self.state.dirty = self.buffer.is_dirty();
    }

    /// Whether the buffer changed since the highlighting was last brought up
    /// to date; when it did, the change count is recorded as highlighted.
    pub fn take_highlight_update(&mut self) -> (b: bool)
        ensures
            b == (old(self).buffer.mod_count() > old(self).last_highlight_mod_count),
            *final(self) == (Editor {
                last_highlight_mod_count: if b { old(self).buffer.mod_count() } else { old(self).last_highlight_mod_count },
                ..*old(self)
            }),
    {
        let count = self.buffer.modification_count();
        if count > self.last_highlight_mod_count {
            self.last_highlight_mod_count = count;
            true
        } else {
            false
        }
    }

    /// Whether a render is due; the request is cleared.
    pub fn take_render(&mut self) -> (b: bool)
        ensures
            b == old(self).needs_render,
            *final(self) == (Editor { needs_render: false, ..*old(self) }),
    {
        let b = self.needs_render;
        self.needs_render = false;
        b
    }

    /// Asks for a render (after the terminal was resized).
    pub fn request_render(&mut self)
        ensures
            *final(self) == (Editor { needs_render: true, ..*old(self) }),
    {
        self.needs_render = true;
    }
}

} // verus!
