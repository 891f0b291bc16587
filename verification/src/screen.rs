use vstd::prelude::*;
use crate::text::{chars_to_string, same_chars, str_chars};

verus! {

/// `char::is_ascii_alphabetic`.
pub open spec fn is_ascii_letter(c: char) -> bool {
    ('a' <= c && c <= 'z') || ('A' <= c && c <= 'Z')
}

/// The index just past the first ASCII letter at or after `j`, or the end
/// of `s` when there is none: where an escape sequence `ESC [ ...` ends.
pub open spec fn csi_end(s: Seq<char>, j: int) -> int
    decreases s.len() - j,
{
    if j < 0 || j >= s.len() {
        s.len() as int
    } else if is_ascii_letter(s[j]) {
        j + 1
    } else {
        csi_end(s, j + 1)
    }
}

/// The chars of `s` from `i` on with the escape sequences taken out: an
/// ESC drops itself and the char after it, and when that char is '[' also
/// everything up to and including the next ASCII letter.
pub open spec fn strip_from(s: Seq<char>, i: int) -> Seq<char>
    decreases s.len() - i,
{
    if i < 0 || i >= s.len() {
        Seq::empty()
    } else if s[i] == '\u{1b}' {
        if i + 1 < s.len() && s[i + 1] == '[' {
            let e = csi_end(s, i + 2);
            if i < e <= s.len() {
                strip_from(s, e)
            } else {
                Seq::empty()
            }
        } else if i + 1 < s.len() {
            strip_from(s, i + 2)
        } else {
            Seq::empty()
        }
    } else {
        seq![s[i]] + strip_from(s, i + 1)
    }
}

/// The text that shows of `s`: `s` without its ANSI escape sequences.
pub open spec fn stripped(s: Seq<char>) -> Seq<char> {
    strip_from(s, 0)
}

fn skip_csi(s: &Vec<char>, j: usize) -> (e: usize)
    requires
        j <= s.len(),
    ensures
        e == csi_end(s@, j as int),
        j <= e <= s.len(),
{
    let mut k = j;
    while k < s.len()
        invariant
            j <= k <= s.len(),
            csi_end(s@, j as int) == csi_end(s@, k as int),
        decreases s.len() - k,
    {
        let c = s[k];
        if ('a' <= c && c <= 'z') || ('A' <= c && c <= 'Z') {
            return k + 1;
        }
        k = k + 1;
    }
    k
}

/// `s` without its ANSI escape sequences.
pub fn strip_ansi(s: &str) -> (r: String)
    ensures
        r@ == stripped(s@),
{
    let cs = str_chars(s);
    let mut out: Vec<char> = Vec::new();
    let mut i: usize = 0;
    while i < cs.len()
        invariant
            cs@ == s@,
            i <= cs.len(),
            stripped(s@) == out@ + strip_from(s@, i as int),
        decreases cs.len() - i,
    {
        let c = cs[i];
        if c == '\u{1b}' {
            if i + 1 < cs.len() && cs[i + 1] == '[' {
                i = skip_csi(&cs, i + 2);
            } else if i + 1 < cs.len() {
                i = i + 2;
            } else {
                i = cs.len();
            }
        } else {
            let ghost before = out@;
            out.push(c);
            proof {
                assert(before + (seq![c] + strip_from(s@, i + 1)) =~= out@ + strip_from(s@, i + 1));
            }
            i = i + 1;
        }
    }
    assert(out@ + Seq::<char>::empty() =~= out@);
    chars_to_string(out.as_slice())
}

/// `n` spaces.
pub open spec fn spaces(n: int) -> Seq<char> {
    Seq::new(if n > 0 { n as nat } else { 0 }, |_i: int| ' ')
}

/// A line fitted to `cols` columns: padded with spaces when shorter, cut
/// when longer.
pub open spec fn fitted(s: Seq<char>, cols: int) -> Seq<char> {
    if s.len() < cols {
        s + spaces(cols - s.len())
    } else {
        s.subrange(0, cols)
    }
}

/// `text` made exactly `cols` chars wide.
pub fn fit_line(text: &str, cols: usize) -> (r: String)
    ensures
        r@ == fitted(text@, cols as int),
{
    let cs = str_chars(text);
    let mut out: Vec<char> = Vec::new();
    if cs.len() < cols {
        let mut i: usize = 0;
        while i < cs.len()
            invariant
                i <= cs.len(),
                out@ == cs@.subrange(0, i as int),
            decreases cs.len() - i,
        {
            out.push(cs[i]);
            i = i + 1;
        }
        let mut k: usize = cs.len();
        while k < cols
            invariant
                cs.len() <= k <= cols,
                out@ == cs@ + spaces(k - cs.len()),
            decreases cols - k,
        {
            out.push(' ');
            k = k + 1;
            assert(out@ =~= cs@ + spaces(k - cs.len()));
        }
        assert(cs@.subrange(0, cs.len() as int) =~= cs@);
    } else {
        let mut i: usize = 0;
        while i < cols
            invariant
                i <= cols <= cs.len(),
                out@ == cs@.subrange(0, i as int),
            decreases cols - i,
        {
            out.push(cs[i]);
            i = i + 1;
        }
    }
    chars_to_string(out.as_slice())
}

/// Lines already stripped of their escape sequences, by their text: at
/// most 500 of them, each with what `stripped` gives for it.
pub struct LineCache {
    entries: Vec<(String, String)>,
}

impl LineCache {
    #[verifier::type_invariant]
    spec fn holds_stripped_lines(&self) -> bool {
        &&& self.entries@.len() <= 500
        &&& forall|i: int|
            0 <= i < self.entries@.len() ==> #[trigger] self.entries@[i].1@ == stripped(
                self.entries@[i].0@,
            )
    }

    /// Number of lines kept.
    pub closed spec fn size(&self) -> nat {
        self.entries@.len()
    }

    /// No lines kept.
    pub fn new() -> (c: Self)
        ensures
            c.size() == 0,
    {
        LineCache { entries: Vec::new() }
    }

    /// Forgets every line.
    pub fn clear(&mut self)
        ensures
            final(self).size() == 0,
    {
        self.entries = Vec::new();
    }

    /// `content` without its escape sequences, kept for the next time when
    /// fewer than 500 lines are kept.
    pub fn stripped_line(&mut self, content: &str) -> (r: String)
        ensures
            r@ == stripped(content@),
            final(self).size() <= 500,
    {
        proof {
            use_type_invariant(&*self);
        }
        let key = str_chars(content);
        let mut i: usize = 0;
        while i < self.entries.len()
            invariant
                i <= self.entries@.len(),
                key@ == content@,
                self.entries@.len() <= 500,
                forall|j: int|
                    0 <= j < self.entries@.len() ==> #[trigger] self.entries@[j].1@ == stripped(
                        self.entries@[j].0@,
                    ),
            decreases self.entries@.len() - i,
        {
            if same_chars(&str_chars(self.entries[i].0.as_str()), &key) {
                return chars_to_string(str_chars(self.entries[i].1.as_str()).as_slice());
            }
            i = i + 1;
        }
        let s = strip_ansi(content);
        if self.entries.len() < 500 {
            let mut entries: Vec<(String, String)> = Vec::new();
            std::mem::swap(&mut entries, &mut self.entries);
            entries.push((content.to_string(), chars_to_string(str_chars(s.as_str()).as_slice())));
            self.entries = entries;
        }
        s
    }
}

/// The size of the terminal and the lines it has stripped.
pub struct Terminal {
    rows: u16,
    cols: u16,
    line_cache: LineCache,
}

impl Terminal {
    /// The number of rows.
    pub closed spec fn height(&self) -> u16 {
        self.rows
    }

    /// The number of columns.
    pub closed spec fn width(&self) -> u16 {
        self.cols
    }

    /// Number of stripped lines kept.
    pub closed spec fn cached(&self) -> nat {
        self.line_cache.size()
    }

    /// A terminal of the size found, given as columns and rows; 80 columns
    /// and 24 rows when none was found.
    pub fn new(size: Option<(u16, u16)>) -> (t: Self)
        ensures
            match size {
                Some((cols, rows)) => t.width() == cols && t.height() == rows,
                None => t.width() == 80 && t.height() == 24,
            },
            t.cached() == 0,
    {
        match size {
            Some((cols, rows)) => Terminal { rows, cols, line_cache: LineCache::new() },
            None => Terminal { rows: 24, cols: 80, line_cache: LineCache::new() },
        }
    }

    /// Takes the size found, if any; the lines kept are then forgotten.
    pub fn update_size(&mut self, size: Option<(u16, u16)>)
        ensures
            match size {
                Some((cols, rows)) => final(self).width() == cols && final(self).height() == rows
                    && final(self).cached() == 0,
                None => final(self).width() == old(self).width() && final(self).height() == old(
                    self,
                ).height() && final(self).cached() == old(self).cached(),
            },
    {
        if let Some((cols, rows)) = size {
            self.cols = cols;
            self.rows = rows;
            self.line_cache.clear();
        }
    }

    /// Forgets the lines kept.
    pub fn clear_cache(&mut self)
        ensures
            final(self).cached() == 0,
            final(self).width() == old(self).width(),
            final(self).height() == old(self).height(),
    {
        self.line_cache.clear();
    }

    /// The number of rows.
    pub fn rows(&self) -> (r: u16)
        ensures
            r == self.height(),
    {
        self.rows
    }

    /// The text a row shows of `content`: its visible text, padded or cut
    /// to the width of the terminal.
    pub fn line_text(&mut self, content: &str) -> (r: String)
        ensures
            r@ == fitted(stripped(content@), old(self).width() as int),
            final(self).width() == old(self).width(),
            final(self).height() == old(self).height(),
    {
        let s = self.line_cache.stripped_line(content);
        fit_line(s.as_str(), self.cols as usize)
    }

    /// The row the status line is written to.
    pub fn status_row(&self) -> (r: u16)
        ensures
            r == if self.height() > 0 { self.height() - 1 } else { 0 },
    {
        self.rows.saturating_sub(1)
    }
}

} // verus!
