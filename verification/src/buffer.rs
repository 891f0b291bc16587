use vstd::prelude::*;
use ropey::Rope;
use crate::lines::{
    ends_line_at, lemma_line_start_prefix, lemma_lines, line_end, line_of, line_start, num_lines,
};
use crate::rope::{
    rope_char, rope_chars, rope_from_str, rope_insert, rope_len_chars, rope_len_lines, rope_line,
    rope_line_to_char, rope_new, rope_remove, rope_to_string,
};
use crate::text::{chars_to_string, is_whitespace, is_ws, push_all, str_chars};
use crate::types::{NestvimError, SearchResult};

verus! {

/// `n - 1`, or 0 for `n == 0` (`usize::saturating_sub(n, 1)`).
pub open spec fn pred(n: int) -> int {
    if n <= 0 {
        0
    } else {
        n - 1
    }
}

/// The next value of the modification counter: one more, unless it is
/// already at its largest.
pub open spec fn bumped(n: usize) -> usize {
    if n < usize::MAX {
        (n + 1) as usize
    } else {
        n
    }
}

/// Line `n` (one-based) of the text, its line break included; empty when
/// there is no such line.
pub open spec fn line_text(s: Seq<char>, n: int) -> Seq<char> {
    if 1 <= n <= num_lines(s) {
        line_of(s, n - 1)
    } else {
        Seq::empty()
    }
}

/// Number of chars of line `k` (zero-based), its line break included.
pub open spec fn line_len(s: Seq<char>, k: int) -> int {
    line_end(s, k) - line_start(s, k)
}

/// Where `insert(line, col, ..)` puts its text: at column `col` of that line
/// (no further than its end), at the very end for the line just past the
/// last one, and nowhere for a line beyond that.
pub open spec fn insert_pos(s: Seq<char>, line: int, col: int) -> Option<int> {
    let k = pred(line);
    if k > num_lines(s) {
        None
    } else if k == num_lines(s) {
        Some(s.len() as int)
    } else {
        Some(line_start(s, k) + if col < line_len(s, k) {
            col
        } else {
            line_len(s, k)
        })
    }
}

/// Which char `delete(line, col)` takes out, if any.
pub open spec fn delete_pos(s: Seq<char>, line: int, col: int) -> Option<int> {
    let k = pred(line);
    if k >= num_lines(s) || line_start(s, k) + col >= s.len() {
        None
    } else {
        Some(line_start(s, k) + col)
    }
}

/// `s` with `t` inserted at index `i`.
pub open spec fn spliced(s: Seq<char>, i: int, t: Seq<char>) -> Seq<char> {
    s.subrange(0, i) + t + s.subrange(i, s.len() as int)
}

/// `s` without the chars in `a..b`.
pub open spec fn cut(s: Seq<char>, a: int, b: int) -> Seq<char> {
    s.subrange(0, a) + s.subrange(b, s.len() as int)
}

/// Where the word around index `i` of `cs` starts: going left from `i`
/// while the char before is not white space.
pub open spec fn word_start(cs: Seq<char>, i: int) -> int
    decreases i,
{
    if 0 < i <= cs.len() && !is_ws(cs[i - 1]) {
        word_start(cs, i - 1)
    } else {
        i
    }
}

/// Where the word around index `i` of `cs` ends: going right from `i`
/// while the char is not white space.
pub open spec fn word_end(cs: Seq<char>, i: int) -> int
    decreases cs.len() - i,
{
    if 0 <= i < cs.len() && !is_ws(cs[i]) {
        word_end(cs, i + 1)
    } else {
        i
    }
}

/// What `get_word_at(line, col)` gives: the word around column `col` of
/// line `line` (one-based) with its start and end columns; an empty word at
/// 0..0 for a missing line, at col..col for a column past the line.
pub open spec fn word_at(s: Seq<char>, line: int, col: int) -> (Seq<char>, int, int) {
    let k = pred(line);
    if k >= num_lines(s) {
        (Seq::empty(), 0, 0)
    } else if col >= line_of(s, k).len() {
        (Seq::empty(), col, col)
    } else {
        let l = line_of(s, k);
        let a = word_start(l, col);
        let b = word_end(l, col);
        (l.subrange(a, b), a, b)
    }
}

/// The char indices that lines `start_line..=end_line` (one-based, the end
/// cut to the last line) span, their line breaks included; `(0, 0)` for an
/// empty or reversed range, a start line 0 or one past the last line.
pub open spec fn line_bounds(s: Seq<char>, start_line: int, end_line: int) -> (int, int) {
    if start_line > end_line || start_line < 1 || start_line > num_lines(s) {
        (0, 0)
    } else {
        let e = if end_line < num_lines(s) {
            end_line
        } else {
            num_lines(s) as int
        };
        (line_start(s, start_line - 1), line_start(s, e))
    }
}

/// What `get_line_range(start_line, end_line)` gives: the text of those
/// lines as it stands, each with its own line break.
pub open spec fn line_range(s: Seq<char>, start_line: int, end_line: int) -> Seq<char> {
    let (a, b) = line_bounds(s, start_line, end_line);
    s.subrange(a, b)
}

/// What `get_char_range(start_line, start_col, end_line, end_col)` gives:
/// the chars from column `start_col` of the first line up to, not
/// including, column `end_col` of the last (each column no further than
/// the end of its line); empty for a reversed range.
pub open spec fn char_range(
    s: Seq<char>,
    start_line: int,
    start_col: int,
    end_line: int,
    end_col: int,
) -> Seq<char> {
    let a = clamped_pos(s, pred(start_line), start_col);
    let b = clamped_pos(s, pred(end_line), end_col);
    if start_line > end_line || a >= b {
        Seq::empty()
    } else {
        s.subrange(a, b)
    }
}

/// Char index that column `col` of line `k` (zero-based) stands for, no
/// further than the end of that line.
pub open spec fn clamped_pos(s: Seq<char>, k: int, col: int) -> int {
    line_start(s, k) + if col < line_len(s, k) {
        col
    } else {
        line_len(s, k)
    }
}

/// `q` occurs in `l` at column `c`.
pub open spec fn occurs_at(l: Seq<char>, q: Seq<char>, c: int) -> bool {
    0 <= c && c + q.len() <= l.len() && l.subrange(c, c + q.len()) == q
}

/// The columns below `n` at which `q` occurs in `l`, in increasing order.
pub open spec fn hits_below(l: Seq<char>, q: Seq<char>, n: int) -> Seq<int>
    decreases n,
{
    if n <= 0 {
        Seq::empty()
    } else {
        hits_below(l, q, n - 1) + if occurs_at(l, q, n - 1) {
            seq![n - 1]
        } else {
            Seq::empty()
        }
    }
}

/// The occurrence of `q` at column `c` of line `line` (one-based).
pub open spec fn hit(line: int, c: int, q: Seq<char>) -> SearchResult {
    SearchResult { line: line as usize, start_col: c as usize, end_col: (c + q.len()) as usize }
}

/// All occurrences of `q` in line `line` (one-based) whose chars are `l`.
pub open spec fn line_hits(l: Seq<char>, q: Seq<char>, line: int) -> Seq<SearchResult> {
    hits_below(l, q, l.len() + 1int).map_values(|c: int| hit(line, c, q))
}

/// All occurrences of `q` in the first `k` lines of the text, line by line
/// and left to right.
pub open spec fn hits_in_lines(s: Seq<char>, q: Seq<char>, k: int) -> Seq<SearchResult>
    decreases k,
{
    if k <= 0 {
        Seq::empty()
    } else {
        hits_in_lines(s, q, k - 1) + line_hits(line_of(s, k - 1), q, k)
    }
}

/// What `search(query)` finds: every occurrence of the query in every line
/// (a line's break included), or nothing for an empty query.
pub open spec fn search_hits(s: Seq<char>, q: Seq<char>) -> Seq<SearchResult> {
    if q.len() == 0 {
        Seq::empty()
    } else {
        hits_in_lines(s, q, num_lines(s) as int)
    }
}

proof fn lemma_hits_no_more(l: Seq<char>, q: Seq<char>, n: int, m: int)
    requires
        0 <= n <= m,
        forall|c: int| n <= c < m ==> !occurs_at(l, q, c),
    ensures
        hits_below(l, q, m) == hits_below(l, q, n),
    decreases m - n,
{
    if m > n {
        lemma_hits_no_more(l, q, n, m - 1);
        assert(hits_below(l, q, m) == hits_below(l, q, m - 1) + Seq::<int>::empty());
    }
}

/// Inserting `t` at column `col` of line `k` (zero-based) leaves that line
/// starting where it did, and cutting `t` out again gives the text back.
pub proof fn lemma_insert_then_cut(s: Seq<char>, k: int, col: int, t: Seq<char>)
    requires
        0 <= k < num_lines(s),
        0 <= col <= line_len(s, k),
        !(col == 0 && k > 0 && t.len() > 0 && t[0] == '\n' && s[line_start(s, k) - 1] == '\r'),
    ensures
        ({
            let i = line_start(s, k) + col;
            let s2 = spliced(s, i, t);
            &&& 0 <= i <= s.len()
            &&& k < num_lines(s2)
            &&& line_start(s2, k) == line_start(s, k)
            &&& cut(s2, i, i + t.len()) == s
        }),
{
    lemma_lines(s);
    let p = line_start(s, k);
    let i = p + col;
    assert(line_len(s, k) == line_start(s, k + 1) - p);
    let s2 = spliced(s, i, t);
    assert(s2.subrange(0, p) =~= s.subrange(0, p));
    if col > 0 {
        assert(s2[p] == s[p]);
    } else if k > 0 && s[p - 1] == '\r' {
        lemma_ends_line_before(s, k);
        assert(s2[p - 1] == s[p - 1]);
        if t.len() > 0 {
            assert(s2[p] == t[0]);
        } else if p < s.len() {
            assert(s2[p] == s[p]);
        }
    }
    lemma_line_start_prefix(s, s2, p, k);
    assert(cut(s2, i, i + t.len()) =~= s);
}

/// The char before the start of line `k > 0` ends a line.
pub proof fn lemma_ends_line_before(s: Seq<char>, k: int)
    requires
        0 < k < num_lines(s),
    ensures
        ends_line_at(s, line_start(s, k) - 1),
{
    lemma_lines(s);
    assert(ends_line_at(s, line_start(s, (k - 1) + 1) - 1));
}

/// Cutting `n` chars at column `col` of line `k` (zero-based) leaves that
/// line starting where it did and at least `col` long, and putting the
/// chars back gives the text back.
pub proof fn lemma_cut_then_insert(s: Seq<char>, k: int, col: int, n: int)
    requires
        0 <= k < num_lines(s),
        0 <= col <= line_len(s, k),
        n >= 0,
        line_start(s, k) + col + n <= s.len(),
        !(col == 0 && k > 0 && s[line_start(s, k) - 1] == '\r' && line_start(s, k) + n < s.len()
            && s[line_start(s, k) + n] == '\n'),
    ensures
        ({
            let a = line_start(s, k) + col;
            let s2 = cut(s, a, a + n);
            &&& k < num_lines(s2)
            &&& line_start(s2, k) == line_start(s, k)
            &&& col <= line_len(s2, k)
            &&& spliced(s2, a, s.subrange(a, a + n)) == s
        }),
{
    lemma_lines(s);
    let p = line_start(s, k);
    let a = p + col;
    assert(line_len(s, k) == line_start(s, k + 1) - p);
    let s2 = cut(s, a, a + n);
    lemma_lines(s2);
    assert(s2.subrange(0, p) =~= s.subrange(0, p));
    if col > 0 {
        assert(s2[p] == s[p]);
    } else if k > 0 && s[p - 1] == '\r' {
        lemma_ends_line_before(s, k);
        assert(s2[p - 1] == s[p - 1]);
        if p < s2.len() {
            assert(s2[p] == s[p + n]);
        }
    }
    lemma_line_start_prefix(s, s2, p, k);
    if k + 1 < num_lines(s2) && line_start(s2, k + 1) < a {
        assert(s.subrange(0, a - 1) =~= s2.subrange(0, a - 1));
        assert(s2[a - 1] == s[a - 1]);
        lemma_line_start_prefix(s2, s, a - 1, k + 1);
    }
    assert(line_len(s2, k) == line_start(s2, k + 1) - line_start(s2, k));
    assert(spliced(s2, a, s.subrange(a, a + n)) =~= s);
}

/// The text of an editor buffer, kept in a rope, with the file it belongs
/// to, whether it was changed since it was saved, and a count of changes.
pub struct TextBuffer {
    doc: Rope,
    pub file_path: Option<String>,
    pub dirty: bool,
    modification_count: usize,
}

impl TextBuffer {
    /// The file the buffer is saved to, if any.
    pub closed spec fn path(&self) -> Option<String> {
        self.file_path
    }

    /// Whether the buffer changed since it was last saved.
    pub closed spec fn dirty_flag(&self) -> bool {
        self.dirty
    }

    /// Whether the buffer changed since it was last saved.
    pub fn is_dirty(&self) -> (b: bool)
        ensures
            b == self.dirty_flag(),
    {
        self.dirty
    }

    /// The file the buffer is saved to, if any.
    pub fn file(&self) -> (p: &Option<String>)
        ensures
            *p == self.path(),
    {
        &self.file_path
    }

    /// The chars of the buffer.
    pub closed spec fn view(&self) -> Seq<char> {
        rope_chars(self.doc)
    }

    /// The number of changes made so far.
    pub closed spec fn mod_count(&self) -> usize {
        self.modification_count
    }

    /// The buffer after a change that left `t` in it: dirty, with one more
    /// change counted, the file unchanged.
    pub open spec fn changed_to(self, after: Self, t: Seq<char>) -> bool {
        &&& after@ == t
        &&& after.dirty_flag()
        &&& after.mod_count() == bumped(self.mod_count())
        &&& after.path() == self.path()
    }

    /// An empty buffer without a file.
    pub fn new() -> (b: Self)
        ensures
            b@ == Seq::<char>::empty(),
            b.path() is None,
            !b.dirty_flag(),
            b.mod_count() == 0,
    {
        TextBuffer { doc: rope_new(), file_path: None, dirty: false, modification_count: 0 }
    }

    /// A buffer holding `text`, without a file.
    pub fn with_text(text: &str) -> (b: Self)
        ensures
            b@ == text@,
            b.path() is None,
            !b.dirty_flag(),
            b.mod_count() == 0,
    {
        TextBuffer {
            doc: rope_from_str(text),
            file_path: None,
            dirty: false,
            modification_count: 0,
        }
    }

    /// Number of lines (a text ending in a line break has a last empty line).
    pub fn line_count(&self) -> (n: usize)
        ensures
            n == num_lines(self@),
    {
        rope_len_lines(&self.doc)
    }

    /// Line `line_number` (one-based) with its line break; empty when there
    /// is no such line.
    pub fn get_line(&self, line_number: usize) -> (s: String)
        ensures
            s@ == line_text(self@, line_number as int),
    {
        if line_number < 1 || line_number > self.line_count() {
            return String::new();
        }
        rope_line(&self.doc, line_number - 1)
    }

    fn bump(&mut self)
        ensures
            final(self).doc == old(self).doc,
            final(self).path() == old(self).path(),
            final(self).dirty_flag(),
            final(self).modification_count == bumped(old(self).modification_count),
    {
        self.dirty = true;
        if self.modification_count < usize::MAX {
            self.modification_count = self.modification_count + 1;
        }
    }

    /// Inserts `text` at column `col` of line `line` (one-based), no further
    /// than the end of that line; at the end of the text for the line just
    /// past the last one; nothing is done for a line beyond that.
    pub fn insert(&mut self, line: usize, col: usize, text: &str)
        ensures
            match insert_pos(old(self)@, line as int, col as int) {
                Some(i) => old(self).changed_to(*final(self), spliced(old(self)@, i, text@)),
                None => *final(self) == *old(self),
            },
    {
        proof {
            lemma_lines(self@);
        }
        let line_idx = line.saturating_sub(1);
        let n = rope_len_lines(&self.doc);
        if line_idx > n {
            return;
        }
        let char_idx = if line_idx >= n {
            rope_len_chars(&self.doc)
        } else {
            let line_start = rope_line_to_char(&self.doc, line_idx);
            let next_start = rope_line_to_char(&self.doc, line_idx + 1);
            let len = next_start - line_start;
            line_start + if col < len {
                col
            } else {
                len
            }
        };
        rope_insert(&mut self.doc, char_idx, text);
        self.bump();
    }

    /// Deletes the char at column `col` of line `line` (one-based), if there
    /// is a char at that place of the text.
    pub fn delete(&mut self, line: usize, col: usize)
        ensures
            match delete_pos(old(self)@, line as int, col as int) {
                Some(i) => old(self).changed_to(*final(self), cut(old(self)@, i, i + 1)),
                None => *final(self) == *old(self),
            },
    {
        proof {
            lemma_lines(self@);
        }
        let line_idx = line.saturating_sub(1);
        if line_idx >= rope_len_lines(&self.doc) {
            return;
        }
        let line_start = rope_line_to_char(&self.doc, line_idx);
        let len = rope_len_chars(&self.doc);
        if col >= len - line_start {
            return;
        }
        let char_idx = line_start + col;
        rope_remove(&mut self.doc, char_idx, char_idx + 1);
        self.bump();
    }

    /// Inserts `ch` as `insert` inserts a text.
    pub fn insert_char(&mut self, line: usize, col: usize, ch: char)
        ensures
            match insert_pos(old(self)@, line as int, col as int) {
                Some(i) => old(self).changed_to(*final(self), spliced(old(self)@, i, seq![ch])),
                None => *final(self) == *old(self),
            },
    {
        let v = vec![ch];
        assert(v@ == seq![ch]);
        let s = chars_to_string(v.as_slice());
        self.insert(line, col, s.as_str());
    }

    /// Joins line `line` (one-based) to the line before it by deleting the
    /// last char of that line, its line break; gives the length of the line
    /// before without that char.  Nothing is done, and 0 is given, for the
    /// first line or a line that does not exist.
    pub fn merge_with_prev_line(&mut self, line: usize) -> (r: usize)
        ensures
            if 2 <= line <= num_lines(old(self)@) {
                let e = line_start(old(self)@, line - 1);
                &&& r == e - line_start(old(self)@, line - 2) - 1
                &&& old(self).changed_to(*final(self), cut(old(self)@, e - 1, e))
            } else {
                r == 0 && *final(self) == *old(self)
            },
    {
        proof {
            lemma_lines(self@);
        }
        if line <= 1 || line > self.line_count() {
            return 0;
        }
        let prev_line_idx = line - 2;
        let cur_line_idx = line - 1;
        let n = rope_len_lines(&self.doc);
        if prev_line_idx >= n || cur_line_idx >= n {
            return 0;
        }
        let prev_line_start = rope_line_to_char(&self.doc, prev_line_idx);
        let prev_line_len = rope_line_to_char(&self.doc, cur_line_idx) - prev_line_start;
        let newline_pos = prev_line_start + prev_line_len - 1;
        if newline_pos >= rope_len_chars(&self.doc) {
            return 0;
        }
        rope_remove(&mut self.doc, newline_pos, newline_pos + 1);
        self.bump();
        prev_line_len - 1
    }

    /// What saving needs: the file to write and the text to write into it;
    /// `NoFilePath` when the buffer has no file.
    pub fn save_request(&self) -> (r: Result<(String, String), NestvimError>)
        ensures
            match self.path() {
                Some(p) => r matches Ok((path, content)) && path == p && content@ == self@,
                None => r matches Err(NestvimError::NoFilePath),
            },
    {
        match &self.file_path {
            Some(p) => Ok((p.clone(), rope_to_string(&self.doc))),
            None => Err(NestvimError::NoFilePath),
        }
    }

    /// Records that the text was written to its file.
    pub fn mark_saved(&mut self)
        ensures
            final(self)@ == old(self)@,
            !final(self).dirty_flag(),
            final(self).path() == old(self).path(),
            final(self).mod_count() == old(self).mod_count(),
    {
        self.dirty = false;
    }

    /// The whole text.
    pub fn to_string(&self) -> (s: String)
        ensures
            s@ == self@,
    {
        rope_to_string(&self.doc)
    }

    /// The number of changes made so far.
    pub fn modification_count(&self) -> (n: usize)
        ensures
            n == self.mod_count(),
    {
        self.modification_count
    }

    /// Char index at which line `line_idx` (zero-based) starts; the number
    /// of chars for the line just past the last one.
    pub fn line_to_char(&self, line_idx: usize) -> (n: usize)
        requires
            line_idx <= num_lines(self@),
        ensures
            n == line_start(self@, line_idx as int),
    {
        rope_line_to_char(&self.doc, line_idx)
    }

    /// The char at index `idx` of the text.
    pub(crate) fn char_at(&self, idx: usize) -> (c: char)
        requires
            idx < self@.len(),
        ensures
            c == self@[idx as int],
    {
        rope_char(&self.doc, idx)
    }

    /// Number of chars of the text.
    pub fn len_chars(&self) -> (n: usize)
        ensures
            n == self@.len(),
    {
        rope_len_chars(&self.doc)
    }

    /// The word around column `col` of line `line` (one-based), with the
    /// columns where it starts and ends.  A missing line gives an empty word
    /// at 0..0, a column past the line an empty word at col..col.
    pub fn get_word_at(&self, line: usize, col: usize) -> (r: (String, usize, usize))
        ensures
            r.0@ == word_at(self@, line as int, col as int).0,
            r.1 == word_at(self@, line as int, col as int).1,
            r.2 == word_at(self@, line as int, col as int).2,
    {
        let line_idx = line.saturating_sub(1);
        if line_idx >= rope_len_lines(&self.doc) {
            return (String::new(), 0, 0);
        }
        let line_str = rope_line(&self.doc, line_idx);
        let chars = str_chars(line_str.as_str());
        if col >= chars.len() {
            return (String::new(), col, col);
        }
        let mut start = col;
        while start > 0 && !is_whitespace(chars[start - 1])
            invariant
                start <= col < chars.len(),
                word_start(chars@, start as int) == word_start(chars@, col as int),
            decreases start,
        {
            start = start - 1;
        }
        let mut end = col;
        while end < chars.len() && !is_whitespace(chars[end])
            invariant
                col <= end <= chars.len(),
                word_end(chars@, end as int) == word_end(chars@, col as int),
                start <= col,
            decreases chars.len() - end,
        {
            end = end + 1;
        }
        let mut word: Vec<char> = Vec::new();
        let mut i = start;
        while i < end
            invariant
                start <= i <= end <= chars.len(),
                word@ == chars@.subrange(start as int, i as int),
            decreases end - i,
        {
            word.push(chars[i]);
            i = i + 1;
        }
        (chars_to_string(word.as_slice()), start, end)
    }

    /// The word around the cursor, as `get_word_at` finds it.
    pub fn get_word_at_cursor(&self, line: usize, col: usize) -> (w: String)
        ensures
            w@ == word_at(self@, line as int, col as int).0,
    {
        let (word, _, _) = self.get_word_at(line, col);
        word
    }

    /// The word around a place with its columns, as `get_word_at` gives it.
    pub fn get_word_range(&self, line: usize, col: usize) -> (r: (String, usize, usize))
        ensures
            r.0@ == word_at(self@, line as int, col as int).0,
            r.1 == word_at(self@, line as int, col as int).1,
            r.2 == word_at(self@, line as int, col as int).2,
    {
        self.get_word_at(line, col)
    }
}

impl TextBuffer {
    /// The chars `a..b` of the text.
    pub(crate) fn chars_between(&self, a: usize, b: usize) -> (r: String)
        requires
            a <= b <= self@.len(),
        ensures
            r@ == self@.subrange(a as int, b as int),
    {
        let all = str_chars(rope_to_string(&self.doc).as_str());
        let mut out: Vec<char> = Vec::new();
        let mut i = a;
        while i < b
            invariant
                a <= i <= b <= all@.len(),
                all@ == self@,
                out@ == all@.subrange(a as int, i as int),
            decreases b - i,
        {
            out.push(all[i]);
            i = i + 1;
        }
        chars_to_string(out.as_slice())
    }

    /// The char index of column `col` of line `line` (one-based), no
    /// further than the end of that line; the end of the text for a line
    /// past the last.
    pub(crate) fn clamped_index(&self, line: usize, col: usize) -> (i: usize)
        ensures
            i == clamped_pos(self@, pred(line as int), col as int),
            i <= self@.len(),
    {
        proof {
            lemma_lines(self@);
        }
        let k = line.saturating_sub(1);
        let n = rope_len_lines(&self.doc);
        if k >= n {
            return rope_len_chars(&self.doc);
        }
        let start = rope_line_to_char(&self.doc, k);
        let len = rope_line_to_char(&self.doc, k + 1) - start;
        start + if col < len {
            col
        } else {
            len
        }
    }

    /// Lines `start_line..=end_line` (one-based, the end cut to the last
    /// line) as they stand, each with its own line break; empty for an
    /// empty or reversed range, a start line 0 or one past the last line.
    pub fn get_line_range(&self, start_line: usize, end_line: usize) -> (r: String)
        ensures
            r@ == line_range(self@, start_line as int, end_line as int),
    {
        let (a, b) = self.line_span_of(start_line, end_line);
        self.chars_between(a, b)
    }

    /// The char indices that lines `start_line..=end_line` span
    /// (`line_bounds`).
    pub(crate) fn line_span_of(&self, start_line: usize, end_line: usize) -> (r: (usize, usize))
        ensures
            r.0 == line_bounds(self@, start_line as int, end_line as int).0,
            r.1 == line_bounds(self@, start_line as int, end_line as int).1,
            r.0 <= r.1 <= self@.len(),
    {
        proof {
            lemma_lines(self@);
        }
        let n = rope_len_lines(&self.doc);
        if start_line > end_line || start_line < 1 || start_line > n {
            return (0, 0);
        }
        let end = if end_line < n {
            end_line
        } else {
            n
        };
        (rope_line_to_char(&self.doc, start_line - 1), rope_line_to_char(&self.doc, end))
    }

    /// The chars from column `start_col` of line `start_line` up to, not
    /// including, column `end_col` of line `end_line` (one-based lines, each
    /// column no further than the end of its line); empty for a reversed
    /// range.
    pub fn get_char_range(&self, start_line: usize, start_col: usize, end_line: usize, end_col: usize) -> (r: String)
        ensures
            r@ == char_range(self@, start_line as int, start_col as int, end_line as int, end_col as int),
    {
        proof {
            lemma_lines(self@);
        }
        let a = self.clamped_index(start_line, start_col);
        let b = self.clamped_index(end_line, end_col);
        if start_line > end_line || a >= b {
            return String::new();
        }
        self.chars_between(a, b)
    }

    /// Deletes line `line` (one-based) with its line break and gives its
    /// chars; nothing is done, and nothing given, for a line that does not
    /// exist.  An empty last line leaves the text as it is.
    pub fn delete_line(&mut self, line: usize) -> (r: String)
        ensures
            if 1 <= line <= num_lines(old(self)@) {
                let a = line_start(old(self)@, line - 1);
                let b = line_end(old(self)@, line - 1);
                &&& r@ == line_of(old(self)@, line - 1)
                &&& if b > a {
                    old(self).changed_to(*final(self), cut(old(self)@, a, b))
                } else {
                    *final(self) == *old(self)
                }
            } else {
                r@ == Seq::<char>::empty() && *final(self) == *old(self)
            },
    {
        proof {
            lemma_lines(self@);
        }
        if line < 1 || line > self.line_count() {
            return String::new();
        }
        let line_idx = line - 1;
        let content = rope_line(&self.doc, line_idx);
        let char_start = rope_line_to_char(&self.doc, line_idx);
        let char_end = if line_idx + 1 < rope_len_lines(&self.doc) {
            rope_line_to_char(&self.doc, line_idx + 1)
        } else {
            rope_len_chars(&self.doc)
        };
        if char_end > char_start {
            rope_remove(&mut self.doc, char_start, char_end);
            self.bump();
        }
        content
    }

    /// Deletes the text that `get_char_range` gives for the same range and
    /// gives it.
    pub fn delete_range(&mut self, start_line: usize, start_col: usize, end_line: usize, end_col: usize) -> (r: String)
        ensures
            r@ == char_range(old(self)@, start_line as int, start_col as int, end_line as int, end_col as int),
            ({
                let a = clamped_pos(old(self)@, pred(start_line as int), start_col as int);
                let b = clamped_pos(old(self)@, pred(end_line as int), end_col as int);
                if start_line <= end_line && a < b {
                    old(self).changed_to(*final(self), cut(old(self)@, a, b))
                } else {
                    *final(self) == *old(self)
                }
            }),
    {
        let content = self.get_char_range(start_line, start_col, end_line, end_col);
        let a = self.clamped_index(start_line, start_col);
        let b = self.clamped_index(end_line, end_col);
        if start_line <= end_line && a < b {
            self.remove_range(a, b);
        }
        content
    }

    /// Deletes the chars `start..end`; nothing for an empty range.  A
    /// non-empty range must lie in the text.
    pub fn remove_range(&mut self, start: usize, end: usize)
        requires
            start < end ==> end <= old(self)@.len(),
        ensures
            if start < end {
                old(self).changed_to(*final(self), cut(old(self)@, start as int, end as int))
            } else {
                *final(self) == *old(self)
            },
    {
        if start < end {
            rope_remove(&mut self.doc, start, end);
            self.bump();
        }
    }

    /// Every occurrence of `query` in every line (a line break counts as
    /// part of its line), line by line and left to right; nothing for an
    /// empty query.
    pub fn search(&self, query: &str) -> (r: Vec<SearchResult>)
        ensures
            r@ == search_hits(self@, query@),
    {
        let query_chars = str_chars(query);
        if query_chars.len() == 0 {
            return Vec::new();
        }
        let ghost q = query_chars@;
        let mut results: Vec<SearchResult> = Vec::new();
        let n = rope_len_lines(&self.doc);
        let mut line_idx: usize = 0;
        while line_idx < n
            invariant
                n == num_lines(self@),
                line_idx <= n,
                query_chars@ == q,
                q.len() > 0,
                results@ == hits_in_lines(self@, q, line_idx as int),
            decreases n - line_idx,
        {
            let line_chars = str_chars(rope_line(&self.doc, line_idx).as_str());
            let ghost l = line_chars@;
            let ghost before = results@;
            let bound = line_chars.len().saturating_sub(query_chars.len());
            let mut col: usize = 0;
            while col <= bound
                invariant
                    line_chars@ == l,
                    query_chars@ == q,
                    q.len() <= l.len() ==> bound == l.len() - q.len(),
                    q.len() > l.len() ==> bound == 0,
                    q.len() > 0,
                    l.len() <= usize::MAX,
                    q.len() <= usize::MAX,
                    bound <= l.len(),
                    col <= bound + 1,
                    line_idx < n,
                    results@ == before + hits_below(l, q, col as int).map_values(|c: int| hit(line_idx + 1, c, q)),
                decreases bound + 1 - col,
            {
                let mut matches = true;
                let mut i: usize = 0;
                while i < query_chars.len()
                    invariant
                        line_chars@ == l,
                        query_chars@ == q,
                        i <= q.len(),
                        col <= bound,
                        bound <= l.len(),
                        q.len() <= l.len() ==> bound == l.len() - q.len(),
                        q.len() > l.len() ==> bound == 0,
                        l.len() <= usize::MAX,
                        q.len() <= usize::MAX,
                        matches ==> (col + i <= l.len() && l.subrange(col as int, col + i) == q.subrange(0, i as int)),
                        !matches ==> !occurs_at(l, q, col as int),
                    ensures
                        matches ==> i >= q.len(),
                    decreases q.len() - i,
                {
                    if col + i >= line_chars.len() || line_chars[col + i] != query_chars[i] {
                        matches = false;
                        proof {
                            if occurs_at(l, q, col as int) {
                                assert(l.subrange(col as int, col + q.len())[i as int] == q[i as int]);
                            }
                        }
                        break;
                    }
                    proof {
                        assert(l.subrange(col as int, col + i + 1) =~= l.subrange(col as int, col + i) + seq![l[col + i]]);
                        assert(q.subrange(0, i + 1) =~= q.subrange(0, i as int) + seq![q[i as int]]);
                    }
                    i = i + 1;
                }
                proof {
                    if matches {
                        assert(q.subrange(0, q.len() as int) == q);
                        assert(occurs_at(l, q, col as int));
                    }
                }
                if matches {
                    results.push(SearchResult {
                        line: line_idx + 1,
                        start_col: col,
                        end_col: col + query_chars.len(),
                    });
                }
                proof {
                    let f = |c: int| hit(line_idx + 1, c, q);
                    let h = hits_below(l, q, col as int);
                    let h2 = hits_below(l, q, col + 1);
                    if matches {
                        assert(h2 == h + seq![col as int]);
                    } else {
                        assert(h2 == h + Seq::<int>::empty());
                        assert(h2 == h);
                    }
                    assert(h2.map_values(f) =~= h.map_values(f) + if matches { seq![f(col as int)] } else { Seq::empty() });
                }
                col = col + 1;
            }
            proof {
                let lim = l.len() + 1int;
                assert forall|c: int| col <= c < lim implies !occurs_at(l, q, c) by {}
                lemma_hits_no_more(l, q, col as int, lim);
                assert(line_of(self@, line_idx as int) == l);
            }
            line_idx = line_idx + 1;
        }
        results
    }
}

impl Default for TextBuffer {
    fn default() -> (b: Self)
        ensures
            b@ == Seq::<char>::empty(),
            b.path() is None,
            !b.dirty_flag(),
            b.mod_count() == 0,
    {
        TextBuffer::new()
    }
}

} // verus!
