use vstd::prelude::*;
use std::collections::VecDeque;
use vstd::utf8::encode_utf8;
use crate::buffer::{bumped, cut, insert_pos, line_text, pred, spliced, TextBuffer};
use crate::lines::{lemma_lines, line_end, line_start, num_lines};
use crate::types::Position;
use crate::text::str_chars;

verus! {

/// A change to the text, with what is needed to undo and redo it.
#[derive(Debug)]
pub enum EditType {
    Insert { line: usize, col: usize, text: String },
    Delete { line: usize, col: usize, text: String },
    InsertLine { line: usize, text: String },
    DeleteLine { line: usize, text: String },
    Replace { line: usize, col: usize, old_text: String, new_text: String },
    Merge { line: usize, deleted_newline_col: usize },
    Split { line: usize, col: usize },
}

impl Clone for EditType {
    fn clone(&self) -> (r: Self)
        ensures
            r == *self,
    {
        match self {
            EditType::Insert { line, col, text } => EditType::Insert {
                line: *line,
                col: *col,
                text: text.clone(),
            },
            EditType::Delete { line, col, text } => EditType::Delete {
                line: *line,
                col: *col,
                text: text.clone(),
            },
            EditType::InsertLine { line, text } => EditType::InsertLine {
                line: *line,
                text: text.clone(),
            },
            EditType::DeleteLine { line, text } => EditType::DeleteLine {
                line: *line,
                text: text.clone(),
            },
            EditType::Replace { line, col, old_text, new_text } => EditType::Replace {
                line: *line,
                col: *col,
                old_text: old_text.clone(),
                new_text: new_text.clone(),
            },
            EditType::Merge { line, deleted_newline_col } => EditType::Merge {
                line: *line,
                deleted_newline_col: *deleted_newline_col,
            },
            EditType::Split { line, col } => EditType::Split { line: *line, col: *col },
        }
    }
}

/// An edit with the cursor before and after it.
#[derive(Debug)]
pub struct Edit {
    pub edit_type: EditType,
    pub cursor_before: Position,
    pub cursor_after: Position,
}

impl Clone for Edit {
    fn clone(&self) -> (r: Self)
        ensures
            r == *self,
    {
        Edit {
            edit_type: self.edit_type.clone(),
            cursor_before: self.cursor_before,
            cursor_after: self.cursor_after,
        }
    }
}

/// The text, the dirty flag and the change count of a buffer.
pub type BufState = (Seq<char>, bool, usize);

/// Number of bytes of the UTF-8 encoding of `t` (what `str::len` gives).
pub open spec fn byte_len(t: Seq<char>) -> usize {
    encode_utf8(t).len() as usize
}

/// The state of a buffer.
pub open spec fn buf_state(b: TextBuffer) -> BufState {
    (b@, b.dirty_flag(), b.mod_count())
}

/// The state after `insert(line, col, t)`.
pub open spec fn st_insert(st: BufState, line: int, col: int, t: Seq<char>) -> BufState {
    match insert_pos(st.0, line, col) {
        Some(i) => (spliced(st.0, i, t), true, bumped(st.2)),
        None => st,
    }
}

/// The state after `remove_range(a, b)`.
pub open spec fn st_remove(st: BufState, a: int, b: int) -> BufState {
    if a < b {
        (cut(st.0, a, b), true, bumped(st.2))
    } else {
        st
    }
}

/// The state after `delete_line(line)`.
pub open spec fn st_delete_line(st: BufState, line: int) -> BufState {
    if 1 <= line <= num_lines(st.0) && line_end(st.0, line - 1) > line_start(st.0, line - 1) {
        (cut(st.0, line_start(st.0, line - 1), line_end(st.0, line - 1)), true, bumped(st.2))
    } else {
        st
    }
}

/// The state after `merge_with_prev_line(line)`.
pub open spec fn st_merge(st: BufState, line: int) -> BufState {
    if 2 <= line <= num_lines(st.0) {
        let e = line_start(st.0, line - 1);
        (cut(st.0, e - 1, e), true, bumped(st.2))
    } else {
        st
    }
}

/// The char index of column `col` of line `line` (one-based), unclamped.
pub open spec fn col_pos(s: Seq<char>, line: int, col: int) -> int {
    line_start(s, line - 1) + col
}

/// Undoing `e` cannot panic on text `s`: the lines it names exist, and the
/// range it removes lies in the text.
pub open spec fn removal_ok(s: Seq<char>, line: int, col: int, len: int) -> bool {
    &&& line >= 1
    &&& line - 1 <= num_lines(s)
    &&& col_pos(s, line, col) + len <= usize::MAX
    &&& len > 0 ==> col_pos(s, line, col) + len <= s.len()
}

/// Undoing `e` on text `s` does not panic.
pub open spec fn undo_ok(e: EditType, s: Seq<char>) -> bool {
    match e {
        EditType::Insert { line, col, text } => removal_ok(s, line as int, col as int, text@.len() as int),
        EditType::Replace { line, col, new_text, .. } => removal_ok(s, line as int, col as int, new_text@.len() as int),
        EditType::Split { line, col } => removal_ok(s, line as int, col as int, 0),
        _ => true,
    }
}

/// Redoing `e` on text `s` does not panic.
pub open spec fn redo_ok(e: EditType, s: Seq<char>) -> bool {
    match e {
        EditType::Delete { line, col, text } => removal_ok(s, line as int, col as int, text@.len() as int),
        EditType::Replace { line, col, old_text, .. } => removal_ok(s, line as int, col as int, old_text@.len() as int),
        _ => true,
    }
}

/// What undoing `e` does to a buffer in state `st`.
pub open spec fn undo_state(e: EditType, st: BufState) -> BufState {
    let s = st.0;
    match e {
        EditType::Insert { line, col, text } => {
            let a = col_pos(s, line as int, col as int);
            st_remove(st, a, a + text@.len())
        },
        EditType::Delete { line, col, text } => st_insert(st, line as int, col as int, text@),
        EditType::InsertLine { line, .. } => st_delete_line(st, line as int),
        EditType::DeleteLine { line, text } => {
            let st1 = st_insert(st, line as int, 0, text@);
            st_insert(st1, line as int, text@.len() as int, seq!['\n'])
        },
        EditType::Replace { line, col, old_text, new_text } => {
            let a = col_pos(s, line as int, col as int);
            st_insert(st_remove(st, a, a + new_text@.len()), line as int, col as int, old_text@)
        },
        EditType::Merge { line, deleted_newline_col } => if line >= 2 {
            st_insert(st, line - 1, deleted_newline_col as int, seq!['\n'])
        } else {
            st
        },
        EditType::Split { line, col } => {
            let a = col_pos(s, line as int, col as int);
            if a < s.len() && a > 0 {
                st_remove(st, a, a + 1)
            } else {
                st
            }
        },
    }
}

/// What redoing `e` does to a buffer in state `st`.
pub open spec fn redo_state(e: EditType, st: BufState) -> BufState {
    let s = st.0;
    match e {
        EditType::Insert { line, col, text } => st_insert(st, line as int, col as int, text@),
        EditType::Delete { line, col, text } => {
            let a = col_pos(s, line as int, col as int);
            st_remove(st, a, a + text@.len())
        },
        EditType::InsertLine { line, text } => {
            let st1 = st_insert(st, line as int, 0, text@);
            st_insert(st1, line as int, text@.len() as int, seq!['\n'])
        },
        EditType::DeleteLine { line, .. } => st_delete_line(st, line as int),
        EditType::Replace { line, col, old_text, new_text } => {
            let a = col_pos(s, line as int, col as int);
            st_insert(st_remove(st, a, a + old_text@.len()), line as int, col as int, new_text@)
        },
        EditType::Merge { line, .. } => st_merge(st, line as int),
        EditType::Split { line, col } => st_insert(st, line as int, col as int, seq!['\n']),
    }
}

/// The stacks after pushing `e` onto an undo stack bounded by `max`.
pub open spec fn pushed(undos: Seq<Edit>, e: Edit, max: usize) -> Seq<Edit> {
    if undos.len() >= max && undos.len() > 0 {
        undos.drop_first().push(e)
    } else {
        undos.push(e)
    }
}

/// Undo and redo stacks of edits, the undo stack bounded by `max_size` when
/// edits are pushed.
pub struct UndoManager {
    undo_stack: VecDeque<Edit>,
    redo_stack: VecDeque<Edit>,
    max_size: usize,
}

/// What `undo` does: `m0` and `b0` before, `m1` and `b1` after, `r` the
/// edit it gives.
pub open spec fn undo_step(m0: UndoManager, b0: TextBuffer, m1: UndoManager, b1: TextBuffer, r: Option<Edit>) -> bool {
    &&& m1.max() == m0.max()
    &&& b1.path() == b0.path()
    &&& if m0.undos().len() == 0 {
        &&& r is None
        &&& m1.undos() == m0.undos()
        &&& m1.redos() == m0.redos()
        &&& b1 == b0
    } else {
        let e = m0.undos().last();
        &&& r == Some(e)
        &&& m1.undos() == m0.undos().drop_last()
        &&& m1.redos() == m0.redos().push(e)
        &&& buf_state(b1) == undo_state(e.edit_type, buf_state(b0))
    }
}

/// What `redo` does: `m0` and `b0` before, `m1` and `b1` after, `r` the
/// edit it gives.
pub open spec fn redo_step(m0: UndoManager, b0: TextBuffer, m1: UndoManager, b1: TextBuffer, r: Option<Edit>) -> bool {
    &&& m1.max() == m0.max()
    &&& b1.path() == b0.path()
    &&& if m0.redos().len() == 0 {
        &&& r is None
        &&& m1.undos() == m0.undos()
        &&& m1.redos() == m0.redos()
        &&& b1 == b0
    } else {
        let e = m0.redos().last();
        &&& r == Some(e)
        &&& m1.redos() == m0.redos().drop_last()
        &&& m1.undos() == m0.undos().push(e)
        &&& buf_state(b1) == redo_state(e.edit_type, buf_state(b0))
    }
}

impl UndoManager {
    /// The bound is 1000 edits, and the two stacks together hold no more.
    #[verifier::type_invariant]
    spec fn bounded(&self) -> bool {
        &&& self.max_size == 1000
        &&& self.undo_stack@.len() + self.redo_stack@.len() <= self.max_size
    }

    /// The edits that can be undone, the last one on top.
    pub closed spec fn undos(&self) -> Seq<Edit> {
        self.undo_stack@
    }

    /// The edits that can be redone, the last one on top.
    pub closed spec fn redos(&self) -> Seq<Edit> {
        self.redo_stack@
    }

    /// The bound on the undo stack.
    pub closed spec fn max(&self) -> usize {
        self.max_size
    }

    /// Empty stacks, bounded by 1000 edits.
    pub fn new() -> (m: Self)
        ensures
            m.undos() == Seq::<Edit>::empty(),
            m.redos() == Seq::<Edit>::empty(),
            m.max() == 1000,
    {
        UndoManager { undo_stack: VecDeque::new(), redo_stack: VecDeque::new(), max_size: 1000 }
    }

    /// Records `edit` as the last one done: it goes on top of the undo stack
    /// (dropping the oldest edit when the stack is full) and the redo stack
    /// is emptied.
    pub fn push(&mut self, edit: Edit)
        ensures
            final(self).undos() == pushed(old(self).undos(), edit, old(self).max()),
            final(self).redos() == Seq::<Edit>::empty(),
            final(self).max() == old(self).max(),
            final(self).max() == 1000,
            final(self).undos().len() + final(self).redos().len() <= 1000,
    {
        proof {
            use_type_invariant(&*self);
        }
        let mut undo: VecDeque<Edit> = VecDeque::new();
        std::mem::swap(&mut undo, &mut self.undo_stack);
        let mut redo: VecDeque<Edit> = VecDeque::new();
        std::mem::swap(&mut redo, &mut self.redo_stack);
        if undo.len() >= self.max_size {
            undo.pop_front();
        }
        undo.push_back(edit);
        self.undo_stack = undo;
    }

    /// Takes the last edit off the undo stack, puts it on the redo stack,
    /// reverts it in `buffer`, and gives it; `None` when there is nothing to
    /// undo.  An edit that does not fit the text (a line 0, a range past
    /// the end) must not be undone.
    pub fn undo(&mut self, buffer: &mut TextBuffer) -> (r: Option<Edit>)
        requires
            old(self).undos().len() > 0 ==> undo_ok(old(self).undos().last().edit_type, old(buffer)@),
        ensures
            undo_step(*old(self), *old(buffer), *final(self), *final(buffer), r),
            final(self).max() == 1000,
            final(self).undos().len() + final(self).redos().len() <= 1000,
    {
        proof {
            use_type_invariant(&*self);
        }
        let mut undo: VecDeque<Edit> = VecDeque::new();
        std::mem::swap(&mut undo, &mut self.undo_stack);
        let edit = match undo.pop_back() {
            Some(e) => e,
            None => {
                self.undo_stack = undo;
                return None;
            },
        };
        let mut redo: VecDeque<Edit> = VecDeque::new();
        std::mem::swap(&mut redo, &mut self.redo_stack);
        self.undo_stack = undo;
        redo.push_back(edit.clone());
        self.redo_stack = redo;
        apply_undo(buffer, &edit);
        Some(edit)
    }

    /// Takes the last edit off the redo stack, puts it back on the undo
    /// stack, applies it again to `buffer`, and gives it; `None` when there
    /// is nothing to redo.  An edit that does not fit the text must not be
    /// redone.
    pub fn redo(&mut self, buffer: &mut TextBuffer) -> (r: Option<Edit>)
        requires
            old(self).redos().len() > 0 ==> redo_ok(old(self).redos().last().edit_type, old(buffer)@),
        ensures
            redo_step(*old(self), *old(buffer), *final(self), *final(buffer), r),
            final(self).max() == 1000,
            final(self).undos().len() + final(self).redos().len() <= 1000,
    {
        proof {
            use_type_invariant(&*self);
        }
        let mut redo: VecDeque<Edit> = VecDeque::new();
        std::mem::swap(&mut redo, &mut self.redo_stack);
        let edit = match redo.pop_back() {
            Some(e) => e,
            None => {
                self.redo_stack = redo;
                return None;
            },
        };
        let mut undo: VecDeque<Edit> = VecDeque::new();
        std::mem::swap(&mut undo, &mut self.undo_stack);
        self.redo_stack = redo;
        undo.push_back(edit.clone());
        self.undo_stack = undo;
        apply_redo(buffer, &edit);
        Some(edit)
    }

    /// Whether `undo` may be called on `buffer`: there is nothing to undo,
    /// or the last edit fits the text (`undo_ok`).
    pub fn undo_allowed(&self, buffer: &TextBuffer) -> (b: bool)
        ensures
            b == (self.undos().len() > 0 ==> undo_ok(self.undos().last().edit_type, buffer@)),
    {
        let n = self.undo_stack.len();
        if n == 0 {
            return true;
        }
        let e = &self.undo_stack[n - 1];
        match &e.edit_type {
            EditType::Insert { line, col, text } => removal_fits(buffer, *line, *col, str_chars(text.as_str()).len()),
            EditType::Replace { line, col, new_text, .. } => removal_fits(
                buffer,
                *line,
                *col,
                str_chars(new_text.as_str()).len(),
            ),
            EditType::Split { line, col } => removal_fits(buffer, *line, *col, 0),
            _ => true,
        }
    }

    /// Whether there is an edit to undo.
    pub fn can_undo(&self) -> (b: bool)
        ensures
            b == (self.undos().len() > 0),
    {
        self.undo_stack.len() != 0
    }

    /// Whether there is an edit to redo.
    pub fn can_redo(&self) -> (b: bool)
        ensures
            b == (self.redos().len() > 0),
    {
        self.redo_stack.len() != 0
    }

    /// Forgets all edits.
    pub fn clear(&mut self)
        ensures
            final(self).undos() == Seq::<Edit>::empty(),
            final(self).redos() == Seq::<Edit>::empty(),
            final(self).max() == old(self).max(),
            final(self).max() == 1000,
            final(self).undos().len() + final(self).redos().len() <= 1000,
    {
        proof {
            use_type_invariant(&*self);
        }
        self.undo_stack = VecDeque::new();
        self.redo_stack = VecDeque::new();
    }
}

impl Default for UndoManager {
    fn default() -> (m: Self)
        ensures
            m.undos() == Seq::<Edit>::empty(),
            m.redos() == Seq::<Edit>::empty(),
            m.max() == 1000,
    {
        UndoManager::new()
    }
}

/// Whether a removal of `len` chars at column `col` of line `line` fits
/// the text (`removal_ok`).
fn removal_fits(buffer: &TextBuffer, line: usize, col: usize, len: usize) -> (b: bool)
    ensures
        b == removal_ok(buffer@, line as int, col as int, len as int),
{
    if line < 1 || line - 1 > buffer.line_count() {
        return false;
    }
    let total = buffer.len_chars();
    let a = buffer.line_to_char(line - 1);
    match a.checked_add(col) {
        Some(p) => match p.checked_add(len) {
            Some(e) => len == 0 || e <= total,
            None => false,
        },
        None => false,
    }
}

/// The char index of column `col` of line `line` (one-based).
fn col_to_char(buffer: &TextBuffer, line: usize, col: usize, len: usize) -> (a: usize)
    requires
        removal_ok(buffer@, line as int, col as int, len as int),
    ensures
        a == col_pos(buffer@, line as int, col as int),
{
    buffer.line_to_char(line - 1) + col
}

fn apply_undo(buffer: &mut TextBuffer, edit: &Edit)
    requires
        undo_ok(edit.edit_type, old(buffer)@),
    ensures
        buf_state(*final(buffer)) == undo_state(edit.edit_type, buf_state(*old(buffer))),
        final(buffer).path() == old(buffer).path(),
{
    proof {
        lemma_lines(buffer@);
        reveal_strlit("\n");
    }
    match &edit.edit_type {
        EditType::Insert { line, col, text } => {
            let n = str_chars(text.as_str()).len();
            let start = col_to_char(buffer, *line, *col, n);
            buffer.remove_range(start, start + n);
        },
        EditType::Delete { line, col, text } => {
            buffer.insert(*line, *col, text.as_str());
        },
        EditType::InsertLine { line, text: _ } => {
            buffer.delete_line(*line);
        },
        EditType::DeleteLine { line, text } => {
            buffer.insert(*line, 0, text.as_str());
            buffer.insert(*line, str_chars(text.as_str()).len(), "\n");
        },
        EditType::Replace { line, col, old_text, new_text } => {
            let n = str_chars(new_text.as_str()).len();
            let start = col_to_char(buffer, *line, *col, n);
            buffer.remove_range(start, start + n);
            buffer.insert(*line, *col, old_text.as_str());
        },
        EditType::Merge { line, deleted_newline_col } => {
            if *line >= 2 {
                buffer.insert(*line - 1, *deleted_newline_col, "\n");
            }
        },
        EditType::Split { line, col } => {
            let start = col_to_char(buffer, *line, *col, 0);
            if start < buffer.len_chars() && start > 0 {
                buffer.remove_range(start, start + 1);
            }
        },
    }
}

fn apply_redo(buffer: &mut TextBuffer, edit: &Edit)
    requires
        redo_ok(edit.edit_type, old(buffer)@),
    ensures
        buf_state(*final(buffer)) == redo_state(edit.edit_type, buf_state(*old(buffer))),
        final(buffer).path() == old(buffer).path(),
{
    proof {
        lemma_lines(buffer@);
        reveal_strlit("\n");
    }
    match &edit.edit_type {
        EditType::Insert { line, col, text } => {
            buffer.insert(*line, *col, text.as_str());
        },
        EditType::Delete { line, col, text } => {
            let n = str_chars(text.as_str()).len();
            let start = col_to_char(buffer, *line, *col, n);
            buffer.remove_range(start, start + n);
        },
        EditType::InsertLine { line, text } => {
            buffer.insert(*line, 0, text.as_str());
            buffer.insert(*line, str_chars(text.as_str()).len(), "\n");
        },
        EditType::DeleteLine { line, text: _ } => {
            buffer.delete_line(*line);
        },
        EditType::Replace { line, col, old_text, new_text } => {
            let n = str_chars(old_text.as_str()).len();
            let start = col_to_char(buffer, *line, *col, n);
            buffer.remove_range(start, start + n);
            buffer.insert(*line, *col, new_text.as_str());
        },
        EditType::Merge { line, deleted_newline_col: _ } => {
            buffer.merge_with_prev_line(*line);
        },
        EditType::Split { line, col } => {
            buffer.insert(*line, *col, "\n");
        },
    }
}

} // verus!
