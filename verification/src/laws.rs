use vstd::prelude::*;
use crate::buffer::{
    cut, delete_pos, insert_pos, lemma_cut_then_insert, lemma_ends_line_before, lemma_insert_then_cut,
    line_len, pred, spliced,
};
use crate::lines::{
    ends_line_at, is_break_char, lemma_line_start_prefix, lemma_lines, lemma_next_line_start,
    lemma_no_end_before, line_end, line_start, num_lines,
};
use crate::editor::{
    command_post, delete_line_post, selection_cut, landing_line, paste_plan, paste_post, paste_text, insert_post, kill_line_post, kill_range, lone_break, normal_post, undo_post, visual_post,
    yank_line_post, Action, Editor, Key,
};
use crate::keymap::{emacs_step, is_prefix_key, EmacsKeymap, KeyCommand};
use crate::renderer::{
    clamped_top, frame_step, opt_text, scroll_to_cursor, status_text, visible_rows, Frame, Renderer,
};
use crate::screen::{fitted, strip_from, stripped};
use crate::register::{lower, Register};
use crate::types::{key_added, EditorState, Macros, Marks, Mode, Position};
use crate::buffer::TextBuffer;
use crate::undo::{
    col_pos, pushed, redo_state, redo_step, undo_ok, undo_state, undo_step, BufState, Edit,
    EditType, UndoManager,
};

verus! {

/// Undoing an insertion that was just made gives the text back, and does
/// not panic: for a column within an existing line, unless the text begins
/// with a LF put right after a CR that ended the line before (the two then
/// make one line break).
pub proof fn undo_reverts_insert(st: BufState, line: usize, col: usize, text: String)
    requires
        1 <= line <= num_lines(st.0),
        col <= line_len(st.0, line - 1),
        st.0.len() + text@.len() <= usize::MAX,
        !(col == 0 && line > 1 && text@.len() > 0 && text@[0] == '\n'
            && st.0[line_start(st.0, line - 1) - 1] == '\r'),
    ensures
        ({
            let e = EditType::Insert { line, col, text };
            let done = redo_state(e, st);
            &&& undo_ok(e, done.0)
            &&& undo_state(e, done).0 == st.0
        }),
{
    let s = st.0;
    let k = line - 1;
    lemma_insert_then_cut(s, k, col as int, text@);
    lemma_lines(s);
    let i = line_start(s, k) + col;
    assert(insert_pos(s, line as int, col as int) == Some(i));
    let s2 = spliced(s, i, text@);
    assert(col_pos(s2, line as int, col as int) == i);
    if text@.len() == 0 {
        assert(s2 =~= s);
    }
}

/// Redoing an insertion that was just undone gives the text back: for a
/// column within an existing line and text that stands at that place,
/// unless the column is the start of a line after a CR and a LF follows the
/// text (cutting it out joins the two into one line break).
pub proof fn redo_restores_insert(st: BufState, line: usize, col: usize, text: String)
    requires
        1 <= line <= num_lines(st.0),
        col <= line_len(st.0, line - 1),
        line_start(st.0, line - 1) + col + text@.len() <= st.0.len(),
        st.0.subrange(
            line_start(st.0, line - 1) + col,
            line_start(st.0, line - 1) + col + text@.len(),
        ) == text@,
        !(col == 0 && line > 1 && st.0[line_start(st.0, line - 1) - 1] == '\r'
            && line_start(st.0, line - 1) + text@.len() < st.0.len()
            && st.0[line_start(st.0, line - 1) + text@.len()] == '\n'),
    ensures
        ({
            let e = EditType::Insert { line, col, text };
            redo_state(e, undo_state(e, st)).0 == st.0
        }),
{
    let s = st.0;
    let k = line - 1;
    let n = text@.len() as int;
    lemma_cut_then_insert(s, k, col as int, n);
    lemma_lines(s);
    let a = line_start(s, k) + col;
    let s2 = cut(s, a, a + n);
    if n > 0 {
        assert(insert_pos(s2, line as int, col as int) == Some(a));
    } else {
        assert(s2 =~= s);
        assert(insert_pos(s, line as int, col as int) == Some(a));
        assert(spliced(s, a, text@) =~= s);
    }
}

/// Undoing a deletion that was just made gives the text back: for a column
/// within an existing line and text that stood at that place, unless
/// the column is the start of a line after a CR and a LF follows the text.
pub proof fn undo_reverts_delete(st: BufState, line: usize, col: usize, text: String)
    requires
        1 <= line <= num_lines(st.0),
        col <= line_len(st.0, line - 1),
        line_start(st.0, line - 1) + col + text@.len() <= st.0.len(),
        st.0.subrange(
            line_start(st.0, line - 1) + col,
            line_start(st.0, line - 1) + col + text@.len(),
        ) == text@,
        !(col == 0 && line > 1 && st.0[line_start(st.0, line - 1) - 1] == '\r'
            && line_start(st.0, line - 1) + text@.len() < st.0.len()
            && st.0[line_start(st.0, line - 1) + text@.len()] == '\n'),
    ensures
        ({
            let e = EditType::Delete { line, col, text };
            undo_state(e, redo_state(e, st)).0 == st.0
        }),
{
    let s = st.0;
    let k = line - 1;
    let n = text@.len() as int;
    lemma_cut_then_insert(s, k, col as int, n);
    lemma_lines(s);
    let a = line_start(s, k) + col;
    let s2 = cut(s, a, a + n);
    if n > 0 {
        assert(insert_pos(s2, line as int, col as int) == Some(a));
    } else {
        assert(s2 =~= s);
        assert(insert_pos(s, line as int, col as int) == Some(a));
        assert(spliced(s, a, text@) =~= s);
    }
}

/// Redoing a deletion that was just undone gives the text back, and does
/// not panic: for a column within an existing line, unless the text begins
/// with a LF put right after a CR that ended the line before.
pub proof fn redo_restores_delete(st: BufState, line: usize, col: usize, text: String)
    requires
        1 <= line <= num_lines(st.0),
        col <= line_len(st.0, line - 1),
        st.0.len() + text@.len() <= usize::MAX,
        !(col == 0 && line > 1 && text@.len() > 0 && text@[0] == '\n'
            && st.0[line_start(st.0, line - 1) - 1] == '\r'),
    ensures
        ({
            let e = EditType::Delete { line, col, text };
            let undone = undo_state(e, st);
            &&& crate::undo::redo_ok(e, undone.0)
            &&& redo_state(e, undone).0 == st.0
        }),
{
    let s = st.0;
    let k = line - 1;
    lemma_insert_then_cut(s, k, col as int, text@);
    lemma_lines(s);
    let i = line_start(s, k) + col;
    assert(insert_pos(s, line as int, col as int) == Some(i));
    let s2 = spliced(s, i, text@);
    assert(col_pos(s2, line as int, col as int) == i);
    if text@.len() == 0 {
        assert(s2 =~= s);
    }
}

/// Undoing a replacement that was just made gives the text back: for a
/// column within an existing line, the old text standing
/// at that place, unless the column is the start of a line after a CR and
/// the replacement brings a LF right after it, or cutting the old text out
/// brings one there.
pub proof fn undo_reverts_replace(
    st: BufState,
    line: usize,
    col: usize,
    old_text: String,
    new_text: String,
)
    requires
        1 <= line <= num_lines(st.0),
        col <= line_len(st.0, line - 1),
        line_start(st.0, line - 1) + col + old_text@.len() <= st.0.len(),
        st.0.len() + new_text@.len() <= usize::MAX,
        st.0.subrange(
            line_start(st.0, line - 1) + col,
            line_start(st.0, line - 1) + col + old_text@.len(),
        ) == old_text@,
        !(col == 0 && line > 1 && st.0[line_start(st.0, line - 1) - 1] == '\r' && (
        line_start(st.0, line - 1) + old_text@.len() < st.0.len() && st.0[line_start(st.0, line - 1)
            + old_text@.len()] == '\n' || new_text@.len() > 0 && new_text@[0] == '\n')),
    ensures
        ({
            let e = EditType::Replace { line, col, old_text, new_text };
            let done = redo_state(e, st);
            &&& undo_ok(e, done.0)
            &&& undo_state(e, done).0 == st.0
        }),
{
    let s = st.0;
    let k = line - 1;
    let n = old_text@.len() as int;
    lemma_lines(s);
    lemma_cut_then_insert(s, k, col as int, n);
    let a = line_start(s, k) + col;
    let s1 = cut(s, a, a + n);
    lemma_lines(s1);
    if col == 0 && k > 0 {
        assert(s1[line_start(s1, k) - 1] == s[line_start(s, k) - 1]);
    }
    lemma_insert_then_cut(s1, k, col as int, new_text@);
    let s2 = spliced(s1, a, new_text@);
    assert(insert_pos(s1, line as int, col as int) == Some(a));
    assert(col_pos(s2, line as int, col as int) == a);
    if n == 0 {
        assert(s1 =~= s);
        assert(insert_pos(s, line as int, col as int) == Some(a));
    }
    if new_text@.len() == 0 {
        assert(s2 =~= s1);
    }
    assert(spliced(s1, a, old_text@) == s);
}

/// Redoing a replacement that was just undone gives the text back, and
/// does not panic: for a column within an existing line, the new text
/// standing at that place, unless the column is the start of
/// a line after a CR and the old text brings a LF right after it, or
/// cutting the new text out brings one there.
pub proof fn redo_restores_replace(
    st: BufState,
    line: usize,
    col: usize,
    old_text: String,
    new_text: String,
)
    requires
        1 <= line <= num_lines(st.0),
        col <= line_len(st.0, line - 1),
        line_start(st.0, line - 1) + col + new_text@.len() <= st.0.len(),
        st.0.len() + old_text@.len() <= usize::MAX,
        st.0.subrange(
            line_start(st.0, line - 1) + col,
            line_start(st.0, line - 1) + col + new_text@.len(),
        ) == new_text@,
        !(col == 0 && line > 1 && st.0[line_start(st.0, line - 1) - 1] == '\r' && (
        line_start(st.0, line - 1) + new_text@.len() < st.0.len() && st.0[line_start(st.0, line - 1)
            + new_text@.len()] == '\n' || old_text@.len() > 0 && old_text@[0] == '\n')),
    ensures
        ({
            let e = EditType::Replace { line, col, old_text, new_text };
            let undone = undo_state(e, st);
            &&& crate::undo::redo_ok(e, undone.0)
            &&& redo_state(e, undone).0 == st.0
        }),
{
    let s = st.0;
    let k = line - 1;
    let n = new_text@.len() as int;
    lemma_lines(s);
    lemma_cut_then_insert(s, k, col as int, n);
    let a = line_start(s, k) + col;
    let s1 = cut(s, a, a + n);
    lemma_lines(s1);
    if col == 0 && k > 0 {
        assert(s1[line_start(s1, k) - 1] == s[line_start(s, k) - 1]);
    }
    lemma_insert_then_cut(s1, k, col as int, old_text@);
    let s2 = spliced(s1, a, old_text@);
    assert(insert_pos(s1, line as int, col as int) == Some(a));
    assert(col_pos(s2, line as int, col as int) == a);
    if n == 0 {
        assert(s1 =~= s);
        assert(insert_pos(s, line as int, col as int) == Some(a));
    }
    if old_text@.len() == 0 {
        assert(s2 =~= s1);
    }
    assert(spliced(s1, a, new_text@) == s);
}

/// Undoing a line split that was just made joins the line again: for a
/// column within an existing line other than the very start of the text,
/// unless the split puts its LF right after a CR that ended the line
/// before.
pub proof fn undo_reverts_split(st: BufState, line: usize, col: usize)
    requires
        1 <= line <= num_lines(st.0),
        col <= line_len(st.0, line - 1),
        line > 1 || col > 0,
        st.0.len() + 1 <= usize::MAX,
        !(col == 0 && line > 1 && st.0[line_start(st.0, line - 1) - 1] == '\r'),
    ensures
        ({
            let e = EditType::Split { line, col };
            let done = redo_state(e, st);
            &&& undo_ok(e, done.0)
            &&& undo_state(e, done).0 == st.0
        }),
{
    let s = st.0;
    let k = line - 1;
    let t = seq!['\n'];
    lemma_insert_then_cut(s, k, col as int, t);
    lemma_lines(s);
    let i = line_start(s, k) + col;
    assert(insert_pos(s, line as int, col as int) == Some(i));
    let s2 = spliced(s, i, t);
    assert(col_pos(s2, line as int, col as int) == i);
    if k > 0 {
        assert(line_start(s, k) > 0);
    }
}

/// `dd`, then `u`, gives the text and the cursor back: for an existing,
/// non-empty cursor line (other than the single empty line of a buffer
/// holding just "\n", which `dd` keeps), unless the line before it ends in
/// a CR and the line after it begins with a LF (with the line gone, the two
/// make one line break).
pub proof fn undo_restores_deleted_line(o: Editor, m: Editor, n: Editor, r: char, acts: Seq<Action>)
    requires
        1 <= o.state.cursor.line <= num_lines(o.buffer@),
        line_end(o.buffer@, o.state.cursor.line - 1) > line_start(o.buffer@, o.state.cursor.line - 1),
        !lone_break(o.buffer@),
        !(o.state.cursor.line > 1 && o.buffer@[line_start(o.buffer@, o.state.cursor.line - 1) - 1]
            == '\r' && line_end(o.buffer@, o.state.cursor.line - 1) < o.buffer@.len()
            && o.buffer@[line_end(o.buffer@, o.state.cursor.line - 1)] == '\n'),
        delete_line_post(o, m, r),
        undo_post(m, n, acts),
    ensures
        n.buffer@ == o.buffer@,
        n.state.cursor == o.state.cursor,
{
    let s = o.buffer@;
    let k = o.state.cursor.line - 1;
    lemma_lines(s);
    let ls = line_start(s, k);
    let len = line_len(s, k);
    lemma_cut_then_insert(s, k, 0, len);
    let s2 = cut(s, ls, ls + len);
    assert(m.buffer@ == s2);
    assert(m.undo.undos().len() > 0);
    assert(insert_pos(s2, o.state.cursor.line as int, 0) == Some(ls));
}

/// `Ctrl-k`, then undo, gives the text and the cursor back: whenever it
/// cut something, unless it cut from the start of a line right after a CR
/// that ended the line before and a LF follows what it cut.
pub proof fn undo_reverts_kill_line(o: Editor, m: Editor, n: Editor, killed: Seq<Action>, undone: Seq<Action>)
    requires
        kill_range(o).0 < kill_range(o).1,
        !(kill_range(o).0 == line_start(o.buffer@, pred(o.state.cursor.line as int)) && pred(
            o.state.cursor.line as int,
        ) > 0 && o.buffer@[kill_range(o).0 - 1] == '\r' && kill_range(o).1 < o.buffer@.len()
            && o.buffer@[kill_range(o).1] == '\n'),
        kill_line_post(o, m, killed),
        undo_post(m, n, undone),
    ensures
        n.buffer@ == o.buffer@,
        n.state.cursor == o.state.cursor,
{
    let s = o.buffer@;
    let k = pred(o.state.cursor.line as int);
    lemma_lines(s);
    let (a, b) = kill_range(o);
    let ls = line_start(s, k);
    assert(k < num_lines(s));
    assert(line_len(s, k) == line_end(s, k) - ls);
    lemma_cut_then_insert(s, k, a - ls, b - a);
    let s2 = cut(s, a, b);
    assert(m.buffer@ == s2);
    assert(m.undo.undos().len() > 0);
    assert(insert_pos(s2, o.state.cursor.line as int, a - ls) == Some(a));
}

/// `p` or `P`, then `u`, gives the text and the cursor back: whenever the
/// paste put text in, unless that text begins with a LF put at the start of
/// a line right after a CR that ended the line before.
pub proof fn undo_reverts_paste(
    o: Editor,
    m: Editor,
    n: Editor,
    before: bool,
    pasted: Seq<Action>,
    undone: Seq<Action>,
)
    requires
        paste_text(o).len() > 0,
        insert_pos(o.buffer@, paste_plan(o, before).0, paste_plan(o, before).1) is Some,
        !({
            let s = o.buffer@;
            let l = landing_line(s, paste_plan(o, before).0);
            let i = insert_pos(s, paste_plan(o, before).0, paste_plan(o, before).1)->0;
            let t = paste_plan(o, before).2;
            &&& l > 1
            &&& i == line_start(s, l - 1)
            &&& t.len() > 0
            &&& t[0] == '\n'
            &&& s[i - 1] == '\r'
        }),
        paste_post(o, m, before, pasted),
        undo_post(m, n, undone),
    ensures
        n.buffer@ == o.buffer@,
        n.state.cursor == o.state.cursor,
{
    reveal(paste_post);
    let s = o.buffer@;
    lemma_lines(s);
    let (pl, c0, t) = paste_plan(o, before);
    let i = insert_pos(s, pl, c0)->0;
    let l = landing_line(s, pl);
    let k = l - 1;
    assert(0 <= k < num_lines(s));
    assert(line_len(s, k) == line_start(s, k + 1) - line_start(s, k));
    lemma_insert_then_cut(s, k, i - line_start(s, k), t);
    assert(m.buffer@ == spliced(s, i, t));
    assert(m.undo.undos().len() > 0);
}

/// A visual delete (`d` in visual mode), then `u`, gives the text and the
/// cursor back: whenever the selection held text, unless it started a line
/// right after a CR that ended the line before and a LF follows it.
pub proof fn undo_reverts_visual_delete(
    o: Editor,
    m: Editor,
    n: Editor,
    cut_acts: Seq<Action>,
    undo_acts: Seq<Action>,
)
    requires
        selection_cut(o) is Some,
        ({
            let (a, b, line) = selection_cut(o)->0;
            let s = o.buffer@;
            &&& a < b
            &&& !(a == line_start(s, pred(line)) && pred(line) > 0 && s[a - 1] == '\r' && b < s.len()
                && s[b] == '\n')
        }),
        visual_post(o, m, Key::Char('d'), cut_acts),
        undo_post(m, n, undo_acts),
    ensures
        n.buffer@ == o.buffer@,
        n.state.cursor == o.state.cursor,
{
    let s = o.buffer@;
    lemma_lines(s);
    let (a, b, line) = selection_cut(o)->0;
    let k = pred(line);
    assert(k < num_lines(s));
    let ls = line_start(s, k);
    assert(line_len(s, k) == line_start(s, k + 1) - ls);
    assert(ls <= a <= line_start(s, k + 1));
    assert(b <= s.len());
    lemma_cut_then_insert(s, k, a - ls, b - a);
    assert(m.buffer@ == cut(s, a, b));
    assert(m.undo.undos().len() > 0);
    assert(insert_pos(cut(s, a, b), line, a - ls) == Some(a));
}

/// A char typed in insert mode and taken back with `u` leaves the text and
/// the cursor as they were: for a cursor within an existing line, unless the char is a LF typed at the start of a line right
/// after a CR that ended the line before.
pub proof fn undo_reverts_typed_char(
    o: Editor,
    m: Editor,
    n: Editor,
    c: char,
    typed: Seq<Action>,
    undone: Seq<Action>,
)
    requires
        o.state.cursor.col < usize::MAX,
        pred(o.state.cursor.line as int) < num_lines(o.buffer@),
        o.state.cursor.col <= line_len(o.buffer@, pred(o.state.cursor.line as int)),
        !(o.state.cursor.col == 0 && pred(o.state.cursor.line as int) > 0 && c == '\n'
            && o.buffer@[line_start(o.buffer@, pred(o.state.cursor.line as int)) - 1] == '\r'),
        insert_post(o, m, Key::Char(c), typed),
        undo_post(m, n, undone),
    ensures
        n.buffer@ == o.buffer@,
        n.state.cursor == o.state.cursor,
{
    let s = o.buffer@;
    let line = o.state.cursor.line;
    let col = o.state.cursor.col;
    let k = pred(line as int);
    lemma_insert_then_cut(s, k, col as int, seq![c]);
    lemma_lines(s);
    let i = line_start(s, k) + col;
    assert(insert_pos(s, line as int, col as int) == Some(i));
    let s2 = spliced(s, i, seq![c]);
    assert(m.buffer@ == s2);
    assert(col_pos(s2, line as int, col as int) == i);
}

/// In insert mode, a typed char taken back with Backspace leaves the text
/// and the cursor as they were: for a cursor within an existing line, unless
/// the char is a LF typed at the start of a line right after a CR that
/// ended the line before.
pub proof fn backspace_reverts_typed_char(
    o: Editor,
    m: Editor,
    n: Editor,
    c: char,
    typed: Seq<Action>,
    erased: Seq<Action>,
)
    requires
        o.state.mode == Mode::Insert,
        o.state.cursor.col < usize::MAX,
        insert_post(o, m, Key::Char(c), typed),
        insert_post(m, n, Key::Backspace, erased),
        pred(o.state.cursor.line as int) < num_lines(o.buffer@),
        o.state.cursor.col <= line_len(o.buffer@, pred(o.state.cursor.line as int)),
        !(o.state.cursor.col == 0 && pred(o.state.cursor.line as int) > 0 && c == '\n'
            && o.buffer@[line_start(o.buffer@, pred(o.state.cursor.line as int)) - 1] == '\r'),
    ensures
        n.buffer@ == o.buffer@,
        n.state.cursor == o.state.cursor,
        n.state.mode == Mode::Insert,
{
    let s = o.buffer@;
    let line = o.state.cursor.line;
    let col = o.state.cursor.col;
    let k = pred(line as int);
    lemma_insert_then_cut(s, k, col as int, seq![c]);
    lemma_lines(s);
    let i = line_start(s, k) + col;
    assert(insert_pos(s, line as int, col as int) == Some(i));
    let s2 = spliced(s, i, seq![c]);
    assert(m.buffer@ == s2);
    assert(delete_pos(s2, line as int, col as int) == Some(i));
}

/// Inserting a LF at column `col` of line `k` (zero-based), before any
/// line end of that line or right after a lone CR that ends it, makes the
/// next line start right after it.
proof fn lemma_split_line(s: Seq<char>, k: int, col: int)
    requires
        0 <= k < num_lines(s),
        0 <= col <= line_len(s, k),
        forall|x: int|
            line_start(s, k) <= x < line_start(s, k) + col ==> !ends_line_at(s, x) || (x
                == line_start(s, k) + col - 1 && s[x] == '\r'),
        !(col == 0 && k > 0 && s[line_start(s, k) - 1] == '\r'),
    ensures
        ({
            let i = line_start(s, k) + col;
            let s2 = spliced(s, i, seq!['\n']);
            &&& 0 <= i <= s.len()
            &&& k + 1 < num_lines(s2)
            &&& line_start(s2, k) == line_start(s, k)
            &&& line_start(s2, k + 1) == i + 1
            &&& cut(s2, i, i + 1) == s
        }),
{
    lemma_insert_then_cut(s, k, col, seq!['\n']);
    lemma_lines(s);
    let ls = line_start(s, k);
    let i = ls + col;
    let s2 = spliced(s, i, seq!['\n']);
    assert(s2[i] == '\n');
    assert forall|x: int| line_start(s2, k) <= x < i implies !ends_line_at(s2, x) by {
        assert(s2[x] == s[x]);
        if x < i - 1 {
            assert(!ends_line_at(s, x));
            assert(s2[x + 1] == s[x + 1]);
        } else if s[x] != '\r' {
            assert(!ends_line_at(s, x));
            if is_break_char(s[x]) {
                assert(ends_line_at(s, x));
            }
        } else {
            assert(s2[x + 1] == '\n');
        }
    }
    lemma_next_line_start(s2, k, i);
}

/// In insert mode, Enter taken back with Backspace leaves the text and the
/// cursor as they were: for a cursor line that exists (not line 0) and a
/// column no further than the end of its text (a lone CR that ends the line
/// counts as text: the LF typed after it joins it into one line break),
/// unless the cursor is at the start of a line right after a CR that ended
/// the line before.
pub proof fn backspace_joins_split_line(
    o: Editor,
    m: Editor,
    n: Editor,
    split: Seq<Action>,
    joined: Seq<Action>,
)
    requires
        o.state.mode == Mode::Insert,
        1 <= o.state.cursor.line <= num_lines(o.buffer@),
        o.state.cursor.line < usize::MAX,
        o.state.cursor.col <= line_len(o.buffer@, o.state.cursor.line - 1),
        forall|x: int|
            line_start(o.buffer@, o.state.cursor.line - 1) <= x < line_start(
                o.buffer@,
                o.state.cursor.line - 1,
            ) + o.state.cursor.col ==> !ends_line_at(o.buffer@, x) || (x == line_start(
                o.buffer@,
                o.state.cursor.line - 1,
            ) + o.state.cursor.col - 1 && o.buffer@[x] == '\r'),
        !(o.state.cursor.col == 0 && o.state.cursor.line > 1 && o.buffer@[line_start(
            o.buffer@,
            o.state.cursor.line - 1,
        ) - 1] == '\r'),
        insert_post(o, m, Key::Enter, split),
        insert_post(m, n, Key::Backspace, joined),
    ensures
        n.buffer@ == o.buffer@,
        n.state.cursor == o.state.cursor,
        n.state.mode == Mode::Insert,
{
    let s = o.buffer@;
    let line = o.state.cursor.line;
    let col = o.state.cursor.col;
    let k = line - 1;
    lemma_split_line(s, k, col as int);
    let i = line_start(s, k) + col;
    assert(insert_pos(s, line as int, col as int) == Some(i));
    let s2 = spliced(s, i, seq!['\n']);
    assert(m.buffer@ == s2);
    assert(m.state.cursor == Position { line: (line + 1) as usize, col: 0 });
}

/// Undoing a line insertion that was just made gives the text back: for an
/// existing line and a line text without line breaks, unless an
/// empty line is put at the start of a line right after a CR that ended the
/// line before.
pub proof fn undo_reverts_insert_line(st: BufState, line: usize, text: String)
    requires
        1 <= line <= num_lines(st.0),
        forall|j: int| 0 <= j < text@.len() ==> !is_break_char(#[trigger] text@[j]),
        st.0.len() + text@.len() + 1 <= usize::MAX,
        !(text@.len() == 0 && line > 1 && st.0[line_start(st.0, line - 1) - 1] == '\r'),
    ensures
        ({
            let e = EditType::InsertLine { line, text };
            let done = redo_state(e, st);
            &&& undo_ok(e, done.0)
            &&& undo_state(e, done).0 == st.0
        }),
{
    let s = st.0;
    let k = line - 1;
    let t = text@;
    let n = t.len() as int;
    lemma_lines(s);
    let ls = line_start(s, k);
    lemma_insert_then_cut(s, k, 0, t);
    assert(insert_pos(s, line as int, 0) == Some(ls));
    let s1 = spliced(s, ls, t);
    lemma_lines(s1);
    assert forall|x: int| line_start(s1, k) <= x < ls + n implies !ends_line_at(s1, x) by {
        assert(s1[x] == t[x - ls]);
    }
    lemma_no_end_before(s1, k, ls + n);
    assert(line_len(s1, k) >= n);
    assert(insert_pos(s1, line as int, n) == Some(ls + n));
    if n == 0 {
        assert(s1 =~= s);
    }
    lemma_split_line(s1, k, n);
    let s2 = spliced(s1, ls + n, seq!['\n']);
    assert(line_end(s2, k) == ls + n + 1);
    assert(cut(s2, ls, ls + n + 1) =~= s);
}

/// Undoing the deletion of a line, just made, gives the text back: for a
/// line text without line breaks that stood, with a LF after it, as line
/// `line`, unless the line before ends in a CR and a LF follows the deleted
/// line (with the line gone, the two make one line break).
#[verifier::rlimit(60)]
pub proof fn undo_reverts_delete_line(st: BufState, line: usize, text: String)
    requires
        1 <= line <= num_lines(st.0),
        forall|j: int| 0 <= j < text@.len() ==> !is_break_char(#[trigger] text@[j]),
        line_start(st.0, line - 1) + text@.len() < st.0.len(),
        st.0.subrange(line_start(st.0, line - 1), line_start(st.0, line - 1) + text@.len()) == text@,
        st.0[line_start(st.0, line - 1) + text@.len()] == '\n',
        st.0.len() + 1 <= usize::MAX,
        !(line > 1 && st.0[line_start(st.0, line - 1) - 1] == '\r' && line_start(st.0, line - 1)
            + text@.len() + 1 < st.0.len() && st.0[line_start(st.0, line - 1) + text@.len() + 1]
            == '\n'),
    ensures
        ({
            let e = EditType::DeleteLine { line, text };
            let done = redo_state(e, st);
            &&& undo_ok(e, done.0)
            &&& undo_state(e, done).0 == st.0
        }),
{
    let s = st.0;
    let t = text@;
    let n = t.len() as int;
    let k = line - 1;
    lemma_lines(s);
    let p = line_start(s, k);
    assert forall|x: int| p <= x < p + n implies !ends_line_at(s, x) by {
        assert(s[x] == s.subrange(p, p + n)[x - p]);
    }
    lemma_next_line_start(s, k, p + n);
    assert(line_len(s, k) == n + 1);
    lemma_cut_then_insert(s, k, 0, n + 1);
    let rest = cut(s, p, p + n + 1);
    lemma_lines(rest);
    assert(insert_pos(rest, line as int, 0) == Some(p));
    if n > 0 {
        assert(t[0] != '\n');
    }
    lemma_insert_then_cut(rest, k, 0, t);
    let s1 = spliced(rest, p, t);
    lemma_lines(s1);
    assert forall|x: int| line_start(s1, k) <= x < p + n implies !ends_line_at(s1, x) by {
        assert(s1[x] == t[x - p]);
    }
    lemma_no_end_before(s1, k, p + n);
    assert(insert_pos(s1, line as int, n) == Some(p + n));
    assert(spliced(s1, p + n, seq!['\n']) =~= s);
}

/// In normal mode, with no operator begun, only `p`, `P`, `y`, `d` and `u`
/// can change the text: motions, mode changes and register names leave it.
pub proof fn normal_keys_keep_text(o: Editor, n: Editor, key: Key, acts: Seq<Action>)
    requires
        o.pending_operator is None,
        key != Key::Char('p') && key != Key::Char('P') && key != Key::Char('y') && key != Key::Char('d')
            && key != Key::Char('u'),
        normal_post(o, n, key, acts),
    ensures
        n.buffer == o.buffer,
        n.register == o.register,
{
}

/// Typing a command, running it or leaving command mode never changes the
/// text.
pub proof fn command_keys_keep_text(o: Editor, n: Editor, key: Key, acts: Seq<Action>)
    requires
        command_post(o, n, key, acts),
    ensures
        n.buffer == o.buffer,
        n.register == o.register,
{
}

/// In visual mode only `d` changes the text.
pub proof fn visual_keys_keep_text(o: Editor, n: Editor, key: Key, acts: Seq<Action>)
    requires
        key != Key::Char('d'),
        visual_post(o, n, key, acts),
    ensures
        n.buffer == o.buffer,
{
}

/// A register reads back what was last stored in it, by either case of its
/// name, and storing it leaves every other register as it was.
pub proof fn register_reads_back(
    before: Register,
    after: Register,
    name: char,
    content: Seq<char>,
    other: char,
)
    requires
        after.view() == before.view().insert(lower(name), content),
    ensures
        after.content(name) == content,
        lower(other) == lower(name) ==> after.content(other) == content,
        lower(other) != lower(name) ==> after.content(other) == before.content(other),
{
}

/// A mark reads back the position it was last set to, and setting it leaves
/// every other mark as it was.
pub proof fn mark_reads_back(before: Marks, after: Marks, name: char, position: Position, other: char)
    requires
        after.view() == before.view().insert(name, position),
    ensures
        after.view().contains_key(name) && after.view()[name] == position,
        other != name ==> after.view().contains_key(other) == before.view().contains_key(other),
        other != name && before.view().contains_key(other) ==> after.view()[other]
            == before.view()[other],
{
}

/// While macro `name` is recorded, each key added goes to its end and no
/// other macro changes.
pub proof fn macro_records_keys(before: Macros, after: Macros, name: char, key: String, other: char)
    requires
        before.recording() == Some(name),
        before.view().contains_key(name),
        key_added(before, after, key),
    ensures
        after.recording() == Some(name),
        after.view()[name] == before.view()[name].push(key),
        after.view()[name].len() == before.view()[name].len() + 1,
        other != name ==> after.view().contains_key(other) == before.view().contains_key(other),
        other != name && before.view().contains_key(other) ==> after.view()[other]
            == before.view()[other],
{
}

/// When no macro is recorded, adding a key changes nothing.
pub proof fn idle_macros_ignore_keys(before: Macros, after: Macros, key: String)
    requires
        before.recording() is None,
        key_added(before, after, key),
    ensures
        after.view() == before.view(),
        after.recording() is None,
{
}

/// The edit pushed last is the one on top of the undo stack, and pushing
/// never takes the stack beyond its bound.
pub proof fn push_tops_bounded_stack(undos: Seq<Edit>, e: Edit, max: usize)
    requires
        undos.len() <= max,
        max > 0,
    ensures
        pushed(undos, e, max).len() > 0,
        pushed(undos, e, max).last() == e,
        pushed(undos, e, max).len() <= max,
        undos.len() < max ==> pushed(undos, e, max).drop_last() == undos,
{
    if undos.len() < max {
        assert(undos.push(e).drop_last() =~= undos);
    }
}

/// An undo followed by a redo leaves both stacks as they were, and the redo
/// gives back the edit the undo gave.
pub proof fn redo_after_undo_restores_stacks(
    m0: UndoManager,
    b0: TextBuffer,
    m1: UndoManager,
    b1: TextBuffer,
    r1: Option<Edit>,
    m2: UndoManager,
    b2: TextBuffer,
    r2: Option<Edit>,
)
    requires
        undo_step(m0, b0, m1, b1, r1),
        r1 is Some,
        redo_step(m1, b1, m2, b2, r2),
    ensures
        r2 == r1,
        m2.undos() == m0.undos(),
        m2.redos() == m0.redos(),
{
    assert(m2.undos() =~= m0.undos());
    assert(m2.redos() =~= m0.redos());
}

/// A redo followed by an undo leaves both stacks as they were, and the undo
/// gives back the edit the redo gave.
pub proof fn undo_after_redo_restores_stacks(
    m0: UndoManager,
    b0: TextBuffer,
    m1: UndoManager,
    b1: TextBuffer,
    r1: Option<Edit>,
    m2: UndoManager,
    b2: TextBuffer,
    r2: Option<Edit>,
)
    requires
        redo_step(m0, b0, m1, b1, r1),
        r1 is Some,
        undo_step(m1, b1, m2, b2, r2),
    ensures
        r2 == r1,
        m2.undos() == m0.undos(),
        m2.redos() == m0.redos(),
{
    assert(m2.undos() =~= m0.undos());
    assert(m2.redos() =~= m0.redos());
}

/// `undo` gives an edit exactly when there is one to undo (what `can_undo`
/// tells); with none it changes neither the buffer nor the stacks, and
/// after it gives one there is an edit to redo.
pub proof fn undo_gives_edit_iff_can_undo(
    m0: UndoManager,
    b0: TextBuffer,
    m1: UndoManager,
    b1: TextBuffer,
    r: Option<Edit>,
)
    requires
        undo_step(m0, b0, m1, b1, r),
    ensures
        (r is Some) == (m0.undos().len() > 0),
        m0.undos().len() == 0 ==> b1 == b0 && m1.undos() == m0.undos() && m1.redos() == m0.redos(),
        r is Some ==> m1.redos().len() > 0,
{
}

/// `redo` gives an edit exactly when there is one to redo (what `can_redo`
/// tells); with none it changes neither the buffer nor the stacks, and
/// after it gives one there is an edit to undo.
pub proof fn redo_gives_edit_iff_can_redo(
    m0: UndoManager,
    b0: TextBuffer,
    m1: UndoManager,
    b1: TextBuffer,
    r: Option<Edit>,
)
    requires
        redo_step(m0, b0, m1, b1, r),
    ensures
        (r is Some) == (m0.redos().len() > 0),
        m0.redos().len() == 0 ==> b1 == b0 && m1.undos() == m0.undos() && m1.redos() == m0.redos(),
        r is Some ==> m1.undos().len() > 0,
{
}

/// A frame drawn again with nothing changed (the same change count, line
/// count, status line, confirmation and line numbers) redraws nothing: it is
/// not full and holds no lines, and while the cursor line stays in the
/// window shown the window does not move.
pub proof fn repeat_frame_draws_nothing(
    r0: Renderer,
    r1: Renderer,
    r2: Renderer,
    rows: u16,
    b1: TextBuffer,
    st1: EditorState,
    b2: TextBuffer,
    st2: EditorState,
    show: bool,
    c1: Option<String>,
    c2: Option<String>,
    f1: Frame,
    f2: Frame,
)
    requires
        frame_step(r0, rows, b1, st1, show, c1, r1, f1),
        frame_step(r1, rows, b2, st2, show, c2, r2, f2),
        b2.mod_count() == b1.mod_count(),
        num_lines(b2@) == num_lines(b1@),
        opt_text(c2) == opt_text(c1),
        status_text(st2, show, opt_text(c2)) == status_text(st1, show, opt_text(c1)),
    ensures
        !f2.full,
        f2.lines@.len() == 0,
        r1.top() <= st2.cursor.line < r1.top() + visible_rows(rows) ==> r2.top() == r1.top(),
{
}

/// The `Ctrl-x` prefix lasts one key: after any key the keymap waits for a
/// prefixed key exactly when that key was `Ctrl-x`.
pub proof fn prefix_lasts_one_key(
    before: EmacsKeymap,
    after: EmacsKeymap,
    key: Key,
    ctrl: bool,
    cmds: Seq<KeyCommand>,
)
    requires
        emacs_step(before, after, key, ctrl, cmds),
    ensures
        after.waiting_cx() == is_prefix_key(key, ctrl),
{
}

/// `Ctrl-x Ctrl-s` saves: the key after it begins by asking for the save,
/// and only once.
pub proof fn prefixed_save_reaches_next_key(
    k0: EmacsKeymap,
    k1: EmacsKeymap,
    k2: EmacsKeymap,
    k3: EmacsKeymap,
    next: Key,
    next_ctrl: bool,
    later: Key,
    later_ctrl: bool,
    c1: Seq<KeyCommand>,
    c2: Seq<KeyCommand>,
    c3: Seq<KeyCommand>,
)
    requires
        k0.waiting_cx(),
        emacs_step(k0, k1, Key::Char('s'), true, c1),
        emacs_step(k1, k2, next, next_ctrl, c2),
        emacs_step(k2, k3, later, later_ctrl, c3),
    ensures
        c2.len() > 0 && c2[0] == KeyCommand::RequestSave,
        c3.len() == 0 || c3[0] != KeyCommand::RequestSave || later == Key::Char('o')
            && later_ctrl,
{
    if c3.len() > 0 && c3[0] == KeyCommand::RequestSave {
        assert(!k2.save_pending());
    }
}

/// Drawing keeps the cursor line on the screen: after a frame the first
/// line shown is at most the cursor line, and the cursor line is among the
/// `visible` lines shown.
pub proof fn cursor_stays_in_view(full: bool, top: int, count: int, line: int, visible: int)
    requires
        visible >= 1,
        top >= 0,
        line >= 0,
    ensures
        ({
            let base = if full { clamped_top(top, count, visible) } else { top };
            let t = scroll_to_cursor(base, line, visible);
            t <= line < t + visible
        }),
{
}

/// A stripped line holds no escape char.
pub proof fn stripped_has_no_escape(s: Seq<char>)
    ensures
        !stripped(s).contains('\u{1b}'),
{
    lemma_strip_from_no_escape(s, 0);
}

proof fn lemma_strip_from_no_escape(s: Seq<char>, i: int)
    ensures
        !strip_from(s, i).contains('\u{1b}'),
    decreases s.len() - i,
{
    if 0 <= i < s.len() {
        if s[i] == '\u{1b}' {
            if i + 1 < s.len() && s[i + 1] == '[' {
                let e = crate::screen::csi_end(s, i + 2);
                if i < e <= s.len() {
                    lemma_strip_from_no_escape(s, e);
                }
            } else if i + 1 < s.len() {
                lemma_strip_from_no_escape(s, i + 2);
            }
        } else {
            lemma_strip_from_no_escape(s, i + 1);
            let rest = strip_from(s, i + 1);
            let r = seq![s[i]] + rest;
            assert(strip_from(s, i) == r);
            if r.contains('\u{1b}') {
                let j = choose|j: int| 0 <= j < r.len() && r[j] == '\u{1b}';
                assert(j > 0);
                assert(rest[j - 1] == '\u{1b}');
            }
        }
    }
}

/// A fitted line is exactly as wide as the screen.
pub proof fn fitted_fills_width(s: Seq<char>, cols: int)
    requires
        cols >= 0,
    ensures
        fitted(s, cols).len() == cols,
{
}

/// `yy` leaves the text as it was and the register named reads back the
/// cursor line.
pub proof fn yank_line_reads_back(o: Editor, n: Editor, r: char)
    requires
        yank_line_post(o, n, r),
    ensures
        n.buffer == o.buffer,
        n.state == o.state,
        n.register.content(r) == crate::buffer::line_range(
            o.buffer@,
            o.state.cursor.line as int,
            o.state.cursor.line as int,
        ),
{
}

/// A line-wise visual selection covers every line from the smaller to the
/// larger of its start line and the cursor line, whichever way it was made:
/// `y` puts exactly those lines in the unnamed register, and `d` puts them
/// there and cuts them out of the text.
pub proof fn line_selection_covers_both_ends(o: Editor, n: Editor, key: Key, acts: Seq<Action>)
    requires
        o.state.visual_start is Some,
        o.state.visual_type == Some(crate::types::VisualType::Line),
        key == Key::Char('y') || key == Key::Char('d'),
        crate::editor::visual_post(o, n, key, acts),
    ensures
        ({
            let s = o.buffer@;
            let a = o.state.visual_start->0.line;
            let b = o.state.cursor.line;
            let lo: int = if a <= b { a as int } else { b as int };
            let hi: int = if a <= b { b as int } else { a as int };
            let (x, y) = crate::buffer::line_bounds(s, lo, hi);
            &&& n.register.content('"') == crate::buffer::line_range(s, lo, hi)
            &&& key == Key::Char('d') ==> n.buffer@ == s.subrange(0, x) + s.subrange(y, s.len() as int)
            &&& key == Key::Char('y') ==> n.buffer == o.buffer
        }),
{
    let s = o.buffer@;
    lemma_lines(s);
    let a = o.state.visual_start->0.line;
    let b = o.state.cursor.line;
    let lo: int = if a <= b { a as int } else { b as int };
    let hi: int = if a <= b { b as int } else { a as int };
    let (x, y) = crate::buffer::line_bounds(s, lo, hi);
    assert(lower('"') == '"');
    if x >= y {
        assert(s.subrange(x, y) =~= Seq::<char>::empty());
        assert(s.subrange(0, x) + s.subrange(y, s.len() as int) =~= s);
    }
}

/// The cursor line (one-based) one line down from `line`, not past the
/// last of `count` lines.
pub open spec fn line_below(line: int, count: int) -> int {
    if line + 1 <= count {
        line + 1
    } else {
        count
    }
}

/// Moving down (`j` in normal or visual mode, `Ctrl-n` or Down in Emacs
/// mode) goes one line down, not past the last line, leaves the text as it
/// was, and keeps the column on the new line: never past its last byte,
/// and unchanged when it already fits there.  (A buffer's line count fits a
/// `usize`, as `line_count` gives it.)
pub proof fn moving_down_keeps_column_in_line(o: Editor, n: Editor, acts: Seq<Action>)
    requires
        o.state.cursor.line < usize::MAX,
        num_lines(o.buffer@) <= usize::MAX,
        ({
            ||| o.pending_operator is None && crate::editor::normal_post(o, n, Key::Char('j'), acts)
            ||| crate::editor::visual_post(o, n, Key::Char('j'), acts)
            ||| crate::editor::emacs_post(o, n, KeyCommand::CursorDown, acts)
        }),
    ensures
        n.buffer == o.buffer,
        n.state.cursor.line == line_below(o.state.cursor.line as int, num_lines(o.buffer@) as int),
        n.state.cursor.col <= crate::editor::dec(crate::editor::line_bytes(n.buffer, n.state.cursor.line)),
        o.state.cursor.col <= crate::editor::dec(crate::editor::line_bytes(n.buffer, n.state.cursor.line))
            ==> n.state.cursor.col == o.state.cursor.col,
{
    lemma_lines(o.buffer@);
}

/// Moving up (`k` in normal or visual mode, `Ctrl-p` or Up in Emacs mode)
/// goes one line up, not above line 1, leaves the text as it was, and keeps
/// the column on the new line: never past its last byte, and unchanged when
/// it already fits there.
pub proof fn moving_up_keeps_column_in_line(o: Editor, n: Editor, acts: Seq<Action>)
    requires
        ({
            ||| o.pending_operator is None && crate::editor::normal_post(o, n, Key::Char('k'), acts)
            ||| crate::editor::visual_post(o, n, Key::Char('k'), acts)
            ||| crate::editor::emacs_post(o, n, KeyCommand::CursorUp, acts)
        }),
    ensures
        n.buffer == o.buffer,
        n.state.cursor.line == if o.state.cursor.line > 1 { o.state.cursor.line - 1 } else { 1 },
        n.state.cursor.col <= crate::editor::dec(crate::editor::line_bytes(n.buffer, n.state.cursor.line)),
        o.state.cursor.col <= crate::editor::dec(crate::editor::line_bytes(n.buffer, n.state.cursor.line))
            ==> n.state.cursor.col == o.state.cursor.col,
{
}

/// Moving right (`l`, `Ctrl-f`, Right) stays on the cursor line, goes one
/// column right when the line has room, and never past the line's last
/// byte; moving left (`h`, `Ctrl-b`, Left) goes one column left, not past
/// column 0.
pub proof fn sideways_moves_stay_in_line(o: Editor, n: Editor, m: Editor, right: Seq<Action>, left: Seq<Action>)
    requires
        o.state.cursor.col < usize::MAX,
        ({
            ||| o.pending_operator is None && crate::editor::normal_post(o, n, Key::Char('l'), right)
            ||| crate::editor::visual_post(o, n, Key::Char('l'), right)
            ||| crate::editor::emacs_post(o, n, KeyCommand::CursorRight, right)
        }),
        ({
            ||| o.pending_operator is None && crate::editor::normal_post(o, m, Key::Char('h'), left)
            ||| crate::editor::visual_post(o, m, Key::Char('h'), left)
            ||| crate::editor::emacs_post(o, m, KeyCommand::CursorLeft, left)
        }),
    ensures
        n.state.cursor.line == o.state.cursor.line,
        n.state.cursor.col <= crate::editor::dec(crate::editor::line_bytes(o.buffer, o.state.cursor.line)),
        o.state.cursor.col + 1 <= crate::editor::dec(crate::editor::line_bytes(o.buffer, o.state.cursor.line))
            ==> n.state.cursor.col == o.state.cursor.col + 1,
        m.state.cursor.line == o.state.cursor.line,
        m.state.cursor.col == if o.state.cursor.col > 0 { o.state.cursor.col - 1 } else { 0 },
        n.buffer == o.buffer && m.buffer == o.buffer,
{
}

/// Without Control, and whether or not `Ctrl-x` came before, each arrow
/// key moves the cursor in its own direction: its commands are that
/// motion alone, after a save still to be passed on.
pub proof fn arrows_move_their_way(before: EmacsKeymap, after: EmacsKeymap, key: Key, cmds: Seq<KeyCommand>)
    requires
        key == Key::Left || key == Key::Right || key == Key::Up || key == Key::Down,
        emacs_step(before, after, key, false, cmds),
    ensures
        ({
            let motion = if key == Key::Left {
                KeyCommand::CursorLeft
            } else if key == Key::Right {
                KeyCommand::CursorRight
            } else if key == Key::Up {
                KeyCommand::CursorUp
            } else {
                KeyCommand::CursorDown
            };
            &&& !before.save_pending() ==> cmds == seq![motion]
            &&& before.save_pending() ==> cmds == seq![KeyCommand::RequestSave, motion]
            &&& !after.waiting_cx()
        }),
{
    if before.save_pending() {
        assert(cmds =~= seq![KeyCommand::RequestSave] + crate::keymap::bound_commands(key, false));
    } else {
        assert(cmds =~= Seq::<KeyCommand>::empty() + crate::keymap::bound_commands(key, false));
    }
}

/// The number of LF chars in `s`.
pub open spec fn count_lf(s: Seq<char>) -> nat
    decreases s.len(),
{
    if s.len() == 0 {
        0
    } else {
        count_lf(s.drop_last()) + if s.last() == '\n' { 1nat } else { 0nat }
    }
}

/// The chars of `s` after its last LF (all of them when it has none).
pub open spec fn after_last_lf(s: Seq<char>) -> Seq<char>
    decreases s.len(),
{
    if s.len() == 0 {
        Seq::empty()
    } else if s.last() == '\n' {
        Seq::empty()
    } else {
        after_last_lf(s.drop_last()).push(s.last())
    }
}

/// Reading the first `k` chars, the lines ended so far are as many as the
/// LFs read, and the line begun holds the chars after the last of them.
proof fn lemma_scan_counts(s: Seq<char>, k: int)
    requires
        0 <= k <= s.len(),
    ensures
        crate::text::scan_lines(s, k).0.len() == count_lf(s.subrange(0, k)),
        crate::text::scan_lines(s, k).1 == after_last_lf(s.subrange(0, k)),
    decreases k,
{
    if k > 0 {
        lemma_scan_counts(s, k - 1);
        assert(s.subrange(0, k).drop_last() =~= s.subrange(0, k - 1));
    } else {
        assert(s.subrange(0, 0) =~= Seq::<char>::empty());
    }
}

/// Pasting a char-wise text with line breaks (`p` or `P` of a register
/// that holds a LF but does not end in one) leaves the cursor on the last
/// pasted line, as many lines below the old cursor line as the text has
/// LFs, after the bytes of what follows the text's last LF.
pub proof fn paste_leaves_cursor_after_text(o: Editor, n: Editor, before: bool, acts: Seq<Action>)
    requires
        crate::editor::paste_ok(o, before),
        crate::editor::paste_post(o, n, before, acts),
        crate::editor::paste_text(o).len() > 0,
        crate::editor::paste_text(o).last() != '\n',
        crate::editor::paste_text(o).contains('\n'),
    ensures
        n.state.cursor.line == o.state.cursor.line + count_lf(crate::editor::paste_text(o)),
        n.state.cursor.col == crate::undo::byte_len(after_last_lf(crate::editor::paste_text(o))),
{
    reveal(crate::editor::paste_post);
    let c = crate::editor::paste_text(o);
    lemma_scan_counts(c, c.len() as int);
    assert(c.subrange(0, c.len() as int) =~= c);
    let (done, cur) = crate::text::scan_lines(c, c.len() as int);
    assert(cur.len() > 0);
    assert(crate::text::lines_of(c) == done.push(cur));
}

/// The status line names the mode the editor is in: outside command mode
/// (where it shows the command line) and without a confirmation it begins
/// with "-- ", the mode's name and " --"; each mode has its own name, the
/// upper-case word for it.
pub proof fn status_names_the_mode(state: EditorState, show: bool)
    ensures
        state.mode != Mode::Command ==> {
            let t = crate::renderer::status_text(state, show, None);
            let l = crate::types::mode_label(state.mode);
            &&& t.len() >= 3 + l.len() + 3
            &&& t.subrange(0, 3 + l.len() as int) == "-- "@ + l
            &&& t.subrange(3 + l.len() as int, 6 + l.len() as int) == " --"@
        },
        crate::types::mode_label(Mode::Normal) == "NORMAL"@,
        crate::types::mode_label(Mode::Insert) == "INSERT"@,
        crate::types::mode_label(Mode::Visual) == "VISUAL"@,
        crate::types::mode_label(Mode::Command) == "COMMAND"@,
        forall|m1: Mode, m2: Mode|
            crate::types::mode_label(m1) == crate::types::mode_label(m2) ==> m1 == m2,
{
    reveal_strlit("NORMAL");
    reveal_strlit("INSERT");
    reveal_strlit("VISUAL");
    reveal_strlit("COMMAND");
    reveal_strlit("-- ");
    reveal_strlit(" -- ");
    reveal_strlit(" --");
    assert forall|m1: Mode, m2: Mode|
        crate::types::mode_label(m1) == crate::types::mode_label(m2) implies m1 == m2 by {
        let a = crate::types::mode_label(m1);
        let b = crate::types::mode_label(m2);
        assert(a[0] == b[0]);
        assert(a[1] == b[1]);
    }
    if state.mode != Mode::Command {
        let t = crate::renderer::status_text(state, show, None);
        let l = crate::types::mode_label(state.mode);
        let rest = crate::renderer::path_label(state.file_path) + " "@ + (if state.dirty {
            "[+]"@
        } else {
            Seq::empty()
        }) + (if show {
            " "@
        } else {
            Seq::empty()
        });
        assert(t =~= ("-- "@ + l) + (" -- "@ + rest));
        assert(t.subrange(0, 3 + l.len() as int) =~= "-- "@ + l);
        assert(t.subrange(3 + l.len() as int, 6 + l.len() as int) =~= " --"@);
    }
}

/// A char-wise visual selection covers the chars from the earlier to the
/// later of its start and the cursor (by line, then column), both ends
/// included, whichever way it was made: `y` puts exactly those in the
/// unnamed register and leaves the text.
pub proof fn char_selection_covers_both_ends(o: Editor, n: Editor, acts: Seq<Action>)
    requires
        o.state.visual_start is Some,
        o.state.visual_type == Some(crate::types::VisualType::Character),
        crate::editor::visual_post(o, n, Key::Char('y'), acts),
    ensures
        ({
            let p = o.state.visual_start->0;
            let q = o.state.cursor;
            let p_first = p.line < q.line || (p.line == q.line && p.col <= q.col);
            let (f, l) = if p_first { (p, q) } else { (q, p) };
            &&& n.register.content('"') == crate::buffer::char_range(
                o.buffer@,
                f.line as int,
                f.col as int,
                l.line as int,
                l.col + 1,
            )
            &&& n.buffer == o.buffer
        }),
{
    assert(lower('"') == '"');
}

/// `p` and `P` of a register that ends in a LF put it in as whole lines:
/// at the start of the line below the cursor line (`p`) or of the cursor
/// line (`P`), with the cursor at column 0 of the first pasted line.  (For
/// `p` the cursor line has a line after it.)
pub proof fn linewise_paste_inserts_whole_lines(o: Editor, n: Editor, before: bool, acts: Seq<Action>)
    requires
        crate::editor::paste_ok(o, before),
        crate::editor::paste_post(o, n, before, acts),
        crate::editor::paste_text(o).len() > 0,
        crate::editor::paste_text(o).last() == '\n',
        before ==> pred(o.state.cursor.line as int) < num_lines(o.buffer@),
        !before ==> pred(o.state.cursor.line as int) + 1 < num_lines(o.buffer@),
    ensures
        ({
            let s = o.buffer@;
            let c = crate::editor::paste_text(o);
            let k = pred(o.state.cursor.line as int);
            let target = if before { k } else { k + 1 };
            let a = line_start(s, target);
            &&& n.buffer@ == s.subrange(0, a) + c + s.subrange(a, s.len() as int)
            &&& n.state.cursor == Position { line: (target + 1) as usize, col: 0 }
        }),
{
    reveal(crate::editor::paste_post);
    lemma_lines(o.buffer@);
}

} // verus!
